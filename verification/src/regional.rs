//! Latency to regional servers.
use vstd::prelude::*;
use crate::stats::minimum;
use crate::stats::seq_min;
use crate::util::micros_to_centi_ms;
use crate::util::round_half_away;

verus! {

/// Connects tried per regional server.
pub const REGION_ATTEMPTS: usize = 3;

/// Port of the regional servers.
pub const REGION_PORT: u16 = 443;

/// A regional server.
pub struct Region {
    pub code: &'static str,
    /// `City (Region)`.
    pub city: &'static str,
    pub host: &'static str,
}

/// The ten regional servers: country code, label and host name.
pub open spec fn region_table() -> Seq<(Seq<char>, Seq<char>, Seq<char>)> {
    seq![
        ("IN"@, "Mumbai (South Asia)"@, "speedtest.mumbai1.linode.com"@),
        ("SG"@, "Singapore (SouthEast Asia)"@, "speedtest.singapore.linode.com"@),
        ("JP"@, "Tokyo (East Asia)"@, "speedtest.tokyo2.linode.com"@),
        ("GB"@, "London (Europe)"@, "speedtest.london.linode.com"@),
        ("DE"@, "Frankfurt (Europe)"@, "speedtest.frankfurt.linode.com"@),
        ("US"@, "Newark (US East)"@, "speedtest.newark.linode.com"@),
        ("US"@, "Fremont/Seattle (US West)"@, "speedtest.fremont.linode.com"@),
        ("AU"@, "Sydney (Australia)"@, "speedtest.sydney.linode.com"@),
        ("CA"@, "Toronto (Canada)"@, "speedtest.toronto1.linode.com"@),
        ("US"@, "Dallas (US Central)"@, "speedtest.dallas.linode.com"@),
    ]
}

/// The ten regional servers whose latency is measured.
pub fn regions() -> (r: Vec<Region>)
    ensures
        r@.len() == 10,
        r@.len() == region_table().len(),
        forall|i: int| 0 <= i < r@.len() ==> (#[trigger] r@[i].code@, r@[i].city@, r@[i].host@) == region_table()[i],
{
    let mut v: Vec<Region> = Vec::new();
    v.push(Region { code: "IN", city: "Mumbai (South Asia)", host: "speedtest.mumbai1.linode.com" });
    v.push(Region { code: "SG", city: "Singapore (SouthEast Asia)", host: "speedtest.singapore.linode.com" });
    v.push(Region { code: "JP", city: "Tokyo (East Asia)", host: "speedtest.tokyo2.linode.com" });
    v.push(Region { code: "GB", city: "London (Europe)", host: "speedtest.london.linode.com" });
    v.push(Region { code: "DE", city: "Frankfurt (Europe)", host: "speedtest.frankfurt.linode.com" });
    v.push(Region { code: "US", city: "Newark (US East)", host: "speedtest.newark.linode.com" });
    v.push(Region { code: "US", city: "Fremont/Seattle (US West)", host: "speedtest.fremont.linode.com" });
    v.push(Region { code: "AU", city: "Sydney (Australia)", host: "speedtest.sydney.linode.com" });
    v.push(Region { code: "CA", city: "Toronto (Canada)", host: "speedtest.toronto1.linode.com" });
    v.push(Region { code: "US", city: "Dallas (US Central)", host: "speedtest.dallas.linode.com" });
    assert(v@.len() == region_table().len());
    v
}

/// Latency to one regional server, in hundredths of a millisecond; `0`
/// means that no connect succeeded.
pub struct RegionResult {
    pub code: String,
    pub city: String,
    pub host: String,
    pub centi_ms: u64,
}

/// The latency of a regional server from the round trips (microseconds) of
/// its successful connects: the best one, in hundredths of a millisecond,
/// or `0` when none succeeded.
pub fn best_latency(samples: &[u64]) -> (r: u64)
    ensures
        samples@.len() == 0 ==> r == 0,
        samples@.len() > 0 ==> r == round_half_away(seq_min(samples@) as int, 10),
{
    if samples.len() == 0 {
        return 0;
    }
    micros_to_centi_ms(minimum(samples))
}

} // verus!
