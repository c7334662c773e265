//! Who and where the client is: merging the address lookup with the
//! speed-test edge's own metadata.
use vstd::prelude::*;
use crate::text::decimal;
use crate::text::digits;

verus! {

/// What the address lookup service reports.
pub struct IpInfoResponse {
    pub ip: Option<String>,
    pub city: Option<String>,
    pub country: Option<String>,
    /// Usually `"AS<number> <organisation>"`.
    pub org: Option<String>,
}

/// The consolidated identity of the connection.
pub struct InfoResult {
    pub ip: Option<String>,
    pub isp: Option<String>,
    pub city: Option<String>,
    pub country: Option<String>,
    pub asn: Option<String>,
    pub colo: Option<String>,
    pub colo_city: Option<String>,
}

/// The data centre that served the edge metadata.
pub enum Colo {
    /// Reported as an object with an airport code and a city.
    Site { iata: Option<String>, city: Option<String> },
    /// Reported as a bare code.
    Code(String),
    /// Not reported, or in an unrecognised form.
    Absent,
}

/// What the speed-test edge reports about the client.
pub struct EdgeMeta {
    pub colo: Colo,
    pub as_organization: Option<String>,
    pub asn: Option<u64>,
    pub city: Option<String>,
    pub country: Option<String>,
    pub client_ip: Option<String>,
}

/// `k` is the position of the first space of `s`.
pub open spec fn is_first_space(s: Seq<char>, k: int) -> bool {
    &&& 0 <= k < s.len()
    &&& s[k] == ' '
    &&& forall|j: int| 0 <= j < k ==> s[j] != ' '
}

/// `s` starts with `AS` and holds a space: the shape `"AS<number> <name>"`.
pub open spec fn is_as_org(s: Seq<char>) -> bool {
    &&& s.len() >= 2
    &&& s[0] == 'A'
    &&& s[1] == 'S'
    &&& exists|k: int| 0 <= k < s.len() && s[k] == ' '
}

/// The autonomous system and the provider named by an organisation string:
/// for `"AS<number> <name>"`, the part before the first space and the part
/// after it; otherwise no system and the whole string as the provider.
pub open spec fn org_parts(s: Seq<char>) -> (Option<Seq<char>>, Option<Seq<char>>) {
    if is_as_org(s) {
        let k = choose|k: int| is_first_space(s, k);
        (Some(s.take(k)), Some(s.skip(k + 1)))
    } else {
        (None, Some(s))
    }
}

/// The first space of `s`, found by scanning from `k` when no space comes
/// before `k` and there is one at `w`.
proof fn first_space_from(s: Seq<char>, k: int, w: int) -> (r: int)
    requires
        0 <= k <= w < s.len(),
        s[w] == ' ',
        forall|j: int| 0 <= j < k ==> s[j] != ' ',
    ensures
        is_first_space(s, r),
    decreases w - k,
{
    if s[k] == ' ' {
        k
    } else {
        first_space_from(s, k + 1, w)
    }
}

/// Law: an organisation string of the form `"AS<number> <name>"` splits
/// at its first space: the system (which holds no space), a space and the
/// provider give back the whole string; any other string is all provider.
pub proof fn lemma_org_parts(s: Seq<char>)
    ensures
        s.len() >= 2 && s[0] == 'A' && s[1] == 'S' && s.contains(' ') ==> ({
            let (asn, isp) = org_parts(s);
            &&& asn is Some && isp is Some
            &&& asn->0 + seq![' '] + isp->0 == s
            &&& !asn->0.contains(' ')
            &&& asn->0.len() >= 2 && asn->0[0] == 'A' && asn->0[1] == 'S'
        }),
        !(s.len() >= 2 && s[0] == 'A' && s[1] == 'S' && s.contains(' ')) ==> org_parts(s) == (
            None::<Seq<char>>,
            Some(s),
        ),
{
    if s.len() >= 2 && s[0] == 'A' && s[1] == 'S' && s.contains(' ') {
        let w = choose|k: int| 0 <= k < s.len() && s[k] == ' ';
        assert(is_as_org(s));
        let k = first_space_from(s, 0, w);
        assert(is_first_space(s, k));
        let c = choose|c: int| is_first_space(s, c);
        assert(c == k) by {
            if c < k {
                assert(s[c] != ' ');
            } else if c > k {
                assert(s[k] != ' ');
            }
        }
        assert(s.take(k) + seq![' '] + s.skip(k + 1) =~= s);
        assert(k >= 2);
        assert(!s.take(k).contains(' '));
    } else {
        assert(!is_as_org(s)) by {
            if is_as_org(s) {
                let k = choose|k: int| 0 <= k < s.len() && s[k] == ' ';
                assert(s.contains(' '));
            }
        }
    }
}

/// Splits an organisation string into autonomous system and provider.
pub fn split_org(org: String) -> (r: (Option<String>, Option<String>))
    ensures
        r.0.deep_view() == org_parts(org@).0,
        r.1.deep_view() == org_parts(org@).1,
{
    let s = org.as_str();
    let len = s.unicode_len();
    if len >= 2 && s.get_char(0) == 'A' && s.get_char(1) == 'S' {
        let mut k: usize = 0;
        while k < len && s.get_char(k) != ' '
            invariant
                k <= len,
                len == s@.len(),
                forall|j: int| 0 <= j < k ==> s@[j] != ' ',
            decreases len - k,
        {
            k += 1;
        }
        if k < len {
            proof {
                assert(is_first_space(s@, k as int));
                assert(is_as_org(org@));
                let c = choose|c: int| is_first_space(org@, c);
                assert(c == k) by {
                    if c < k {
                        assert(org@[c] != ' ');
                    } else if c > k {
                        assert(org@[k as int] != ' ');
                    }
                }
            }
            let asn = String::from_str(s.substring_char(0, k));
            let isp = String::from_str(s.substring_char(k + 1, len));
            return (Some(asn), Some(isp));
        }
        proof {
            assert(!is_as_org(org@));
        }
    }
    (None, Some(org))
}

/// The first of two optional texts that is present.
pub open spec fn first_present(a: Option<Seq<char>>, b: Option<Seq<char>>) -> Option<Seq<char>> {
    if a is Some {
        a
    } else {
        b
    }
}

/// Law: the first present text wins: a present first text is kept, and an
/// absent one gives way to the second.
pub proof fn lemma_first_present(a: Option<Seq<char>>, b: Option<Seq<char>>)
    ensures
        a is Some ==> first_present(a, b) == a,
        a is None ==> first_present(a, b) == b,
{
}

/// An autonomous-system number written as `AS<number>`.
pub open spec fn asn_text(n: u64) -> Seq<char> {
    "AS"@ + digits(n as nat)
}

/// The address lookup's organisation, split.
pub open spec fn lookup_org(lookup: Option<IpInfoResponse>) -> (Option<Seq<char>>, Option<Seq<char>>) {
    match lookup {
        Some(d) => match d.org {
            Some(o) => org_parts(o@),
            None => (None, None),
        },
        None => (None, None),
    }
}

/// One field of the address lookup, if there was a lookup.
pub open spec fn lookup_field(lookup: Option<IpInfoResponse>, f: spec_fn(IpInfoResponse) -> Option<String>) -> Option<Seq<char>> {
    match lookup {
        Some(d) => f(d).deep_view(),
        None => None,
    }
}

/// One field of the edge metadata, if there was any.
pub open spec fn edge_field(edge: Option<EdgeMeta>, f: spec_fn(EdgeMeta) -> Option<String>) -> Option<Seq<char>> {
    match edge {
        Some(e) => f(e).deep_view(),
        None => None,
    }
}

/// The edge's data-centre code.
pub open spec fn edge_colo(edge: Option<EdgeMeta>) -> Option<Seq<char>> {
    match edge {
        Some(e) => match e.colo {
            Colo::Site { iata, city } => iata.deep_view(),
            Colo::Code(c) => Some(c@),
            Colo::Absent => None,
        },
        None => None,
    }
}

/// The edge's data-centre city.
pub open spec fn edge_colo_city(edge: Option<EdgeMeta>) -> Option<Seq<char>> {
    match edge {
        Some(e) => match e.colo {
            Colo::Site { iata, city } => city.deep_view(),
            _ => None,
        },
        None => None,
    }
}

/// The edge's autonomous-system number, written as `AS<number>`.
pub open spec fn edge_asn(edge: Option<EdgeMeta>) -> Option<Seq<char>> {
    match edge {
        Some(e) => match e.asn {
            Some(n) => Some(asn_text(n)),
            None => None,
        },
        None => None,
    }
}

/// Merges the address lookup and the edge metadata: each field comes from
/// the lookup where it has it and from the edge otherwise; the data centre
/// comes from the edge alone. An organisation of the form
/// `"AS<number> <name>"` gives both the autonomous system and the provider.
pub fn merge_info(lookup: Option<IpInfoResponse>, edge: Option<EdgeMeta>) -> (r: InfoResult)
    ensures
        r.ip.deep_view() == first_present(
            lookup_field(lookup, |d: IpInfoResponse| d.ip),
            edge_field(edge, |e: EdgeMeta| e.client_ip),
        ),
        r.isp.deep_view() == first_present(
            lookup_org(lookup).1,
            edge_field(edge, |e: EdgeMeta| e.as_organization),
        ),
        r.city.deep_view() == first_present(
            lookup_field(lookup, |d: IpInfoResponse| d.city),
            edge_field(edge, |e: EdgeMeta| e.city),
        ),
        r.country.deep_view() == first_present(
            lookup_field(lookup, |d: IpInfoResponse| d.country),
            edge_field(edge, |e: EdgeMeta| e.country),
        ),
        r.asn.deep_view() == first_present(lookup_org(lookup).0, edge_asn(edge)),
        r.colo.deep_view() == edge_colo(edge),
        r.colo_city.deep_view() == edge_colo_city(edge),
        lookup is Some && lookup->0.ip is Some ==> r.ip.deep_view() == lookup->0.ip.deep_view(),
        lookup is Some && lookup->0.city is Some ==> r.city.deep_view() == lookup->0.city.deep_view(),
        lookup is Some && lookup->0.country is Some ==> r.country.deep_view()
            == lookup->0.country.deep_view(),
        lookup is None ==> r.ip.deep_view() == (match edge {
            Some(e) => e.client_ip.deep_view(),
            None => None,
        }),
        lookup is None ==> r.city.deep_view() == (match edge {
            Some(e) => e.city.deep_view(),
            None => None,
        }),
        lookup is None && edge is None ==> r.isp is None && r.asn is None,
{
    let mut info = InfoResult {
        ip: None,
        isp: None,
        city: None,
        country: None,
        asn: None,
        colo: None,
        colo_city: None,
    };
    if let Some(data) = lookup {
        info.ip = data.ip;
        info.city = data.city;
        info.country = data.country;
        if let Some(org) = data.org {
            let (asn, isp) = split_org(org);
            info.asn = asn;
            info.isp = isp;
        }
    }
    if let Some(meta) = edge {
        match meta.colo {
            Colo::Site { iata, city } => {
                info.colo = iata;
                info.colo_city = city;
            },
            Colo::Code(code) => {
                info.colo = Some(code);
            },
            Colo::Absent => {},
        }
        if info.isp.is_none() {
            info.isp = meta.as_organization;
        }
        if info.asn.is_none() {
            if let Some(n) = meta.asn {
                let mut text = String::from_str("AS");
                text.append(decimal(n as u128).as_str());
                info.asn = Some(text);
            }
        }
        if info.city.is_none() {
            info.city = meta.city;
        }
        if info.country.is_none() {
            info.country = meta.country;
        }
        if info.ip.is_none() {
            info.ip = meta.client_ip;
        }
    }
    info
}

} // verus!
