//! Latency and throughput figures of the speed test.
use vstd::prelude::*;
use crate::stats::lemma_seq_max;
use crate::stats::lemma_seq_min;
use crate::stats::maximum;
use crate::stats::minimum;
use crate::stats::seq_max;
use crate::stats::seq_min;
use crate::stats::seq_sum;
use crate::stats::sum;
use crate::util::bytes_to_centi_mbps;
use crate::util::round_half_away;

verus! {

/// A speed-test endpoint.
pub struct Server {
    pub name: &'static str,
    /// Download address; `{bytes}` stands for the requested size.
    pub download_url: &'static str,
    pub upload_url: &'static str,
    pub host: &'static str,
    pub port: u16,
}

/// Bytes requested per download stream of the throughput test.
pub const DOWNLOAD_REQUEST_BYTES: u64 = 1_000_000_000;

/// Bytes in each upload request body.
pub const UPLOAD_CHUNK_BYTES: usize = 4 * 1024 * 1024;

/// Number of connects that measure ping, jitter and connection failures.
pub const PING_ATTEMPTS: usize = 5;

/// The Cloudflare speed-test endpoint.
pub fn cloudflare() -> (r: Server)
    ensures
        r.name@ == "Cloudflare"@,
        r.download_url@ == "https://speed.cloudflare.com/__down?bytes={bytes}"@,
        r.upload_url@ == "https://speed.cloudflare.com/__up"@,
        r.host@ == "speed.cloudflare.com"@,
        r.port == 443,
{
    Server {
        name: "Cloudflare",
        download_url: "https://speed.cloudflare.com/__down?bytes={bytes}",
        upload_url: "https://speed.cloudflare.com/__up",
        host: "speed.cloudflare.com",
        port: 443,
    }
}

/// Ping, connection-failure rate and jitter of a series of `attempts`
/// connects of which those in `samples` (microseconds) succeeded: the mean
/// round trip in hundredths of a millisecond, the share of failed connects
/// in tenths of a percent, and the spread between the slowest and the
/// fastest connect in hundredths of a millisecond. Without a successful
/// connect there is no ping nor jitter and the failure rate is 100%.
pub open spec fn ping_summary_of(attempts: nat, samples: Seq<u64>) -> (Option<int>, int, Option<int>) {
    if samples.len() == 0 {
        (None, 1000, None)
    } else {
        (
            Some(round_half_away(seq_sum(samples) as int, (10 * samples.len()) as int)),
            round_half_away(1000 * (attempts - samples.len()), attempts as int),
            Some(round_half_away(seq_max(samples) - seq_min(samples), 10)),
        )
    }
}

/// The figures of a ping summary as mathematical integers.
pub open spec fn ping_figures(r: (Option<u64>, u64, Option<u64>)) -> (Option<int>, int, Option<int>) {
    (
        match r.0 {
            Some(v) => Some(v as int),
            None => None,
        },
        r.1 as int,
        match r.2 {
            Some(v) => Some(v as int),
            None => None,
        },
    )
}

/// Summarises `attempts` connects, of which `samples` holds the round trips
/// (in microseconds) of those that succeeded.
pub fn ping_summary(attempts: usize, samples: &[u64]) -> (r: (Option<u64>, u64, Option<u64>))
    requires
        samples@.len() <= attempts,
    ensures
        ping_figures(r) == ping_summary_of(attempts as nat, samples@),
{
    let n = samples.len();
    if n == 0 {
        return (None, 1000, None);
    }
    let total = sum(samples);
    let d: u128 = 10 * n as u128;
    let q: u128 = total / d;
    let rem: u128 = total % d;
    assert(q <= u64::MAX && (q < u64::MAX || rem < d / 2)) by (nonlinear_arith)
        requires
            total <= n * u64::MAX,
            n > 0,
            d == 10 * n,
            q == total / d,
            rem == total % d,
    ;
    let avg: u64 = if 2 * rem >= d {
        (q + 1) as u64
    } else {
        q as u64
    };
    assert(avg == round_half_away(total as int, d as int)) by (nonlinear_arith)
        requires
            d > 0,
            q == total / d,
            rem == total % d,
            avg == q + if 2 * rem >= d {
                1int
            } else {
                0int
            },
    ;
    let failed = (attempts - n) as u128;
    assert((2000 * failed + attempts) / (2 * attempts) <= 1000) by (nonlinear_arith)
        requires
            failed <= attempts,
            attempts > 0,
    ;
    let loss = ((2000 * failed + attempts as u128) / (2 * attempts as u128)) as u64;
    let lo = minimum(samples);
    let hi = maximum(samples);
    proof {
        lemma_seq_min(samples@);
        lemma_seq_max(samples@);
        assert(samples@[0] <= hi && lo <= samples@[0]);
    }
    let spread = hi - lo;
    let jitter = spread / 10 + if spread % 10 >= 5 {
        1
    } else {
        0
    };
    assert(jitter == round_half_away(spread as int, 10)) by (nonlinear_arith)
        requires
            jitter == spread / 10 + if spread % 10 >= 5 {
                1int
            } else {
                0int
            },
    ;
    (Some(avg), loss, Some(jitter))
}

/// Law: the connection-failure rate never exceeds 100%, is 0 when every
/// connect succeeded, and the jitter is zero when all round trips are equal.
pub proof fn lemma_ping_summary_bounds(attempts: nat, samples: Seq<u64>)
    requires
        samples.len() <= attempts,
    ensures
        ping_summary_of(attempts, samples).1 <= 1000,
        samples.len() == attempts && attempts > 0 ==> ping_summary_of(attempts, samples).1 == 0,
        samples.len() > 0 && (forall|i: int| 0 <= i < samples.len() ==> #[trigger] samples[i] == samples[0])
            ==> ping_summary_of(attempts, samples).2 == Some(0int),
{
    if samples.len() > 0 {
        let failed: int = attempts - samples.len();
        let att: int = attempts as int;
        assert((2 * (1000 * failed) + att) / (2 * att) <= 1000) by (nonlinear_arith)
            requires
                0 <= failed <= att,
                att > 0,
        ;
        if failed == 0 {
            assert(att / (2 * att) == 0) by (nonlinear_arith)
                requires
                    att > 0,
            ;
        }
        lemma_seq_min(samples);
        lemma_seq_max(samples);
        if forall|i: int| 0 <= i < samples.len() ==> #[trigger] samples[i] == samples[0] {
            let a = choose|k: int| 0 <= k < samples.len() && samples[k] == seq_min(samples);
            let b = choose|k: int| 0 <= k < samples.len() && samples[k] == seq_max(samples);
            assert(samples[a] == samples[0] && samples[b] == samples[0]);
            assert(round_half_away(0, 10) == 0) by (nonlinear_arith);
        }
    }
}

/// Law: the reported ping lies between the fastest and the slowest round
/// trip, each rounded to hundredths of a millisecond.
pub proof fn lemma_ping_between(attempts: nat, samples: Seq<u64>)
    requires
        samples.len() > 0,
    ensures
        round_half_away(seq_min(samples) as int, 10) <= ping_summary_of(attempts, samples).0->0
            <= round_half_away(seq_max(samples) as int, 10),
{
    crate::stats::lemma_sum_between(samples);
    let n = samples.len() as int;
    let t = seq_sum(samples) as int;
    let lo = seq_min(samples) as int;
    let hi = seq_max(samples) as int;
    assert((2 * lo + 10) / 20 == (2 * (n * lo) + 10 * n) / (20 * n)) by (nonlinear_arith)
        requires
            n > 0,
    ;
    assert((2 * hi + 10) / 20 == (2 * (n * hi) + 10 * n) / (20 * n)) by (nonlinear_arith)
        requires
            n > 0,
    ;
    assert((2 * (n * lo) + 10 * n) / (20 * n) <= (2 * t + 10 * n) / (20 * n)) by (nonlinear_arith)
        requires
            n > 0,
            n * lo <= t,
    ;
    assert((2 * t + 10 * n) / (20 * n) <= (2 * (n * hi) + 10 * n) / (20 * n)) by (nonlinear_arith)
        requires
            n > 0,
            t <= n * hi,
    ;
}

/// The result of a timed transfer: the throughput in hundredths of a
/// megabit per second and the bytes moved, or `(0, 0)` when nothing was
/// moved or no time passed.
pub fn transfer_result(bytes: u64, elapsed_us: u64) -> (r: (u64, u64))
    ensures
        bytes == 0 || elapsed_us == 0 ==> r == (0u64, 0u64),
        bytes > 0 && elapsed_us > 0 ==> r.1 == bytes && r.0 == if round_half_away(
            bytes * 800,
            elapsed_us as int,
        ) <= u64::MAX {
            round_half_away(bytes * 800, elapsed_us as int)
        } else {
            u64::MAX as int
        },
{
    if elapsed_us == 0 || bytes == 0 {
        return (0, 0);
    }
    (bytes_to_centi_mbps(bytes, elapsed_us), bytes)
}

/// Duration of each transfer in a quick run, in milliseconds.
pub const QUICK_DURATION_MS: u64 = 10_000;

/// Which measurements a run makes.
#[derive(Clone, Copy, Debug, PartialEq, Eq, Structural)]
pub struct TestPlan {
    /// Duration of each transfer, in milliseconds.
    pub duration_ms: u64,
    pub upload: bool,
    /// Bufferbloat and regional latency.
    pub extras: bool,
}

/// The plan of a run: a quick run downloads for 10 s and skips the upload,
/// the bufferbloat probe and the regional latencies; a full run does all of
/// them with transfers of the requested duration.
pub fn test_plan(quick: bool, duration_ms: u64) -> (r: TestPlan)
    ensures
        r == (if quick {
            TestPlan { duration_ms: QUICK_DURATION_MS, upload: false, extras: false }
        } else {
            TestPlan { duration_ms, upload: true, extras: true }
        }),
{
    if quick {
        TestPlan { duration_ms: QUICK_DURATION_MS, upload: false, extras: false }
    } else {
        TestPlan { duration_ms, upload: true, extras: true }
    }
}

/// How the report is written.
#[derive(Clone, Copy, Debug, PartialEq, Eq, Structural)]
pub enum OutputFormat {
    /// Human-readable.
    Pretty,
    /// Machine-readable.
    Json,
}

/// Reads the `--output` option: `pretty` or `json`, anything else refused.
pub fn parse_output_format(s: &str) -> (r: Option<OutputFormat>)
    ensures
        s@ == "pretty"@ ==> r == Some(OutputFormat::Pretty),
        s@ == "json"@ ==> r == Some(OutputFormat::Json),
        s@ != "pretty"@ && s@ != "json"@ ==> r is None,
{
    proof {
        reveal_strlit("pretty");
        reveal_strlit("json");
    }
    let len = s.unicode_len();
    if len == 6 && s.get_char(0) == 'p' && s.get_char(1) == 'r' && s.get_char(2) == 'e'
        && s.get_char(3) == 't' && s.get_char(4) == 't' && s.get_char(5) == 'y' {
        assert(s@ =~= "pretty"@);
        Some(OutputFormat::Pretty)
    } else if len == 4 && s.get_char(0) == 'j' && s.get_char(1) == 's' && s.get_char(2) == 'o'
        && s.get_char(3) == 'n' {
        assert(s@ =~= "json"@);
        Some(OutputFormat::Json)
    } else {
        None
    }
}

} // verus!
