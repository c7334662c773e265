//! The text of the report: bars, figures, colours and the order of rows.
use vstd::prelude::*;
use crate::bufferbloat::BufferbloatResult;
use crate::bufferbloat::Grade;
use crate::regional::RegionResult;
use crate::verdict::SpeedTestResult;
use crate::text::decimal;
use crate::text::digits;
use crate::text::fixed1;
use crate::text::fixed1_text;
use crate::text::fixed2;
use crate::text::fixed2_text;
use crate::util::bytes_to_deci_mib;
use crate::util::round_half_away;
use crate::util::round_half_even;
use crate::util::BYTES_PER_MIB;

verus! {

/// The colour a figure is shown in.
#[derive(Clone, Copy, Debug, PartialEq, Eq, Structural)]
pub enum Tone {
    Green,
    Cyan,
    Yellow,
    Red,
    Dim,
}

/// A filled cell of a bar.
pub open spec fn full_cell() -> char {
    '\u{25B0}'
}

/// An empty cell of a bar.
pub open spec fn empty_cell() -> char {
    '\u{25B1}'
}

/// The number of filled cells of a `width`-cell bar showing `value` on a
/// scale up to `max_value`: the share of the scale, capped at the full
/// scale, rounded to whole cells; none on an empty scale.
pub open spec fn bar_fill(value: nat, max_value: nat, width: nat) -> nat {
    if max_value == 0 {
        0
    } else {
        let v = if value < max_value {
            value
        } else {
            max_value
        };
        round_half_away((v * width) as int, max_value as int) as nat
    }
}

/// The text of the bar: the filled cells, then the empty ones.
pub open spec fn bar_text(value: nat, max_value: nat, width: nat) -> Seq<char> {
    let n = bar_fill(value, max_value, width);
    Seq::new(n, |i: int| full_cell()) + Seq::new((width - n) as nat, |i: int| empty_cell())
}

/// Appends `count` copies of one cell to `s`.
fn push_cells(s: &mut String, full: bool, count: usize)
    ensures
        final(s)@ == old(s)@ + Seq::new(
            count as nat,
            |i: int|
                if full {
                    full_cell()
                } else {
                    empty_cell()
                },
        ),
{
    proof {
        reveal_strlit("\u{25B0}");
        reveal_strlit("\u{25B1}");
    }
    let ghost cell = if full {
        full_cell()
    } else {
        empty_cell()
    };
    let mut k: usize = 0;
    while k < count
        invariant
            k <= count,
            cell == (if full {
                full_cell()
            } else {
                empty_cell()
            }),
            s@ == old(s)@ + Seq::new(k as nat, |i: int| cell),
        decreases count - k,
    {
        proof {
            reveal_strlit("\u{25B0}");
            reveal_strlit("\u{25B1}");
        }
        if full {
            s.append("\u{25B0}");
        } else {
            s.append("\u{25B1}");
        }
        k += 1;
        assert(s@ =~= old(s)@ + Seq::new(k as nat, |i: int| cell));
    }
    assert(Seq::new(count as nat, |i: int| cell) =~= Seq::new(
        count as nat,
        |i: int|
            if full {
                full_cell()
            } else {
                empty_cell()
            },
    ));
}

/// A bar of `width` cells showing `value` against `max_value`.
pub fn bar(value: u64, max_value: u64, width: usize) -> (r: String)
    ensures
        r@ == bar_text(value as nat, max_value as nat, width as nat),
{
    let n: usize = if max_value == 0 {
        0
    } else {
        let v: u64 = if value < max_value {
            value
        } else {
            max_value
        };
        assert(v as u128 * width as u128 <= u128::MAX) by (nonlinear_arith)
            requires
                v <= u64::MAX,
                width <= usize::MAX,
        ;
        let prod: u128 = v as u128 * width as u128;
        let m: u128 = max_value as u128;
        let q: u128 = prod / m;
        let rem: u128 = prod % m;
        assert(q <= width && (q < width || rem == 0)) by (nonlinear_arith)
            requires
                prod == v * width,
                m == max_value,
                q == prod / m,
                rem == prod % m,
                v <= max_value,
                max_value > 0,
        ;
        assert(round_half_away(prod as int, m as int) == q + if 2 * rem >= m {
            1int
        } else {
            0int
        }) by (nonlinear_arith)
            requires
                m > 0,
                q == prod / m,
                rem == prod % m,
        ;
        if 2 * rem >= m {
            (q + 1) as usize
        } else {
            q as usize
        }
    };
    let mut s = String::new();
    push_cells(&mut s, true, n);
    push_cells(&mut s, false, width - n);
    assert(s@ =~= bar_text(value as nat, max_value as nat, width as nat));
    s
}

/// Law: a bar always has exactly `width` cells, and a larger value never
/// fills fewer of them.
pub proof fn lemma_bar_shape(v1: nat, v2: nat, max_value: nat, width: nat)
    requires
        v1 <= v2,
    ensures
        bar_text(v1, max_value, width).len() == width,
        bar_fill(v1, max_value, width) <= bar_fill(v2, max_value, width),
{
    if max_value > 0 {
        let a = if v1 < max_value {
            v1
        } else {
            max_value
        };
        let b = if v2 < max_value {
            v2
        } else {
            max_value
        };
        assert(round_half_away((a * width) as int, max_value as int) <= width) by (nonlinear_arith)
            requires
                a <= max_value,
                max_value > 0,
        ;
        assert(round_half_away((a * width) as int, max_value as int) <= round_half_away(
            (b * width) as int,
            max_value as int,
        )) by (nonlinear_arith)
            requires
                a <= b,
                max_value > 0,
        ;
    }
}

/// Law: a bar fills the whole number of cells nearest to the share of the
/// scale it shows (a half rounding up), never more than its width.
pub proof fn lemma_bar_nearest(value: nat, max_value: nat, width: nat)
    requires
        max_value > 0,
    ensures
        ({
            let shown = if value < max_value {
                value
            } else {
                max_value
            };
            let n = bar_fill(value, max_value, width);
            &&& 2 * (shown * width - n * max_value) < max_value
            &&& 2 * (n * max_value - shown * width) <= max_value
            &&& n <= width
        }),
{
    let shown = if value < max_value {
        value
    } else {
        max_value
    };
    crate::util::lemma_round_half_away_nearest((shown * width) as int, max_value as int);
    lemma_bar_shape(value, value, max_value, width);
    let r = round_half_away((shown * width) as int, max_value as int);
    assert(r >= 0) by (nonlinear_arith)
        requires
            r == (2 * (shown * width) + max_value) / (2 * max_value),
            max_value > 0,
    ;
    assert(max_value * r == r * max_value) by (nonlinear_arith);
}

/// A speed given in hundredths of a megabit per second, with two decimals:
/// in Gbps from 1000 Mbps on (the exact Gbps value rounded with halves to
/// even), in Mbps below.
pub open spec fn speed_text(centi_mbps: nat) -> Seq<char> {
    if centi_mbps >= 100_000 {
        fixed2_text(round_half_even(centi_mbps as int, 1000) as nat) + " Gbps"@
    } else {
        fixed2_text(centi_mbps) + " Mbps"@
    }
}

/// Writes a speed, switching to Gbps at 1000 Mbps.
pub fn fmt_speed(centi_mbps: u64) -> (r: String)
    ensures
        r@ == speed_text(centi_mbps as nat),
{
    if centi_mbps >= 100_000 {
        let q = centi_mbps / 1000;
        let rem = centi_mbps % 1000;
        let g: u64 = if rem < 500 {
            q
        } else if rem > 500 {
            q + 1
        } else if q % 2 == 0 {
            q
        } else {
            q + 1
        };
        let mut s = fixed2(g as u128);
        s.append(" Gbps");
        s
    } else {
        let mut s = fixed2(centi_mbps as u128);
        s.append(" Mbps");
        s
    }
}

/// Law: a speed is shown in Gbps exactly when it reaches 1000 Mbps.
pub proof fn lemma_speed_unit(centi_mbps: nat)
    ensures
        centi_mbps >= 100_000 ==> speed_text(centi_mbps).subrange(
            speed_text(centi_mbps).len() - 4,
            speed_text(centi_mbps).len() as int,
        ) == "Gbps"@,
        centi_mbps < 100_000 ==> speed_text(centi_mbps).subrange(
            speed_text(centi_mbps).len() - 4,
            speed_text(centi_mbps).len() as int,
        ) == "Mbps"@,
{
    reveal_strlit(" Gbps");
    reveal_strlit(" Mbps");
    reveal_strlit("Gbps");
    reveal_strlit("Mbps");
    let t = speed_text(centi_mbps);
    let head = if centi_mbps >= 100_000 {
        fixed2_text(round_half_even(centi_mbps as int, 1000) as nat)
    } else {
        fixed2_text(centi_mbps)
    };
    assert(t.subrange(t.len() - 4, t.len() as int) =~= if centi_mbps >= 100_000 {
        "Gbps"@
    } else {
        "Mbps"@
    }) by {
        assert(t.len() == head.len() + 5);
    }
}

/// The scale of the speed bars: the larger of the two speeds, and at least
/// 100 Mbps.
pub open spec fn speed_scale_of(download_centi_mbps: nat, upload_centi_mbps: nat) -> nat {
    let m = if download_centi_mbps > upload_centi_mbps {
        download_centi_mbps
    } else {
        upload_centi_mbps
    };
    if m > 10_000 {
        m
    } else {
        10_000
    }
}

/// Law: the scale of the speed bars is the largest of the two speeds and
/// 100 Mbps, so every speed drawn on it fits.
pub proof fn lemma_speed_scale_is_max(download_centi_mbps: nat, upload_centi_mbps: nat)
    ensures
        speed_scale_of(download_centi_mbps, upload_centi_mbps) >= download_centi_mbps,
        speed_scale_of(download_centi_mbps, upload_centi_mbps) >= upload_centi_mbps,
        speed_scale_of(download_centi_mbps, upload_centi_mbps) >= 10_000,
        speed_scale_of(download_centi_mbps, upload_centi_mbps) == download_centi_mbps
            || speed_scale_of(download_centi_mbps, upload_centi_mbps) == upload_centi_mbps
            || speed_scale_of(download_centi_mbps, upload_centi_mbps) == 10_000,
{
}

/// Computes the scale of the speed bars.
pub fn speed_scale(download_centi_mbps: u64, upload_centi_mbps: u64) -> (r: u64)
    ensures
        r == speed_scale_of(download_centi_mbps as nat, upload_centi_mbps as nat),
        r >= download_centi_mbps,
        r >= upload_centi_mbps,
        r >= 10_000,
        r == download_centi_mbps || r == upload_centi_mbps || r == 10_000,
{
    proof {
        lemma_speed_scale_is_max(download_centi_mbps as nat, upload_centi_mbps as nat);
    }
    let m = if download_centi_mbps > upload_centi_mbps {
        download_centi_mbps
    } else {
        upload_centi_mbps
    };
    if m > 10_000 {
        m
    } else {
        10_000
    }
}

/// A latency in hundredths of a millisecond, with two decimals and `ms`.
pub open spec fn ms_text(centi_ms: nat) -> Seq<char> {
    fixed2_text(centi_ms) + " ms"@
}

/// Writes a latency as `<ms with two decimals> ms`.
pub fn fmt_ms(centi_ms: u64) -> (r: String)
    ensures
        r@ == ms_text(centi_ms as nat),
{
    let mut s = fixed2(centi_ms as u128);
    s.append(" ms");
    s
}

/// A data volume given in bytes, in mebibytes with one decimal (the exact
/// value rounded with halves to even), in brackets: `(<MiB> MB)`.
pub open spec fn volume_text(bytes: nat) -> Seq<char> {
    "("@ + fixed1_text(round_half_even((bytes * 10) as int, BYTES_PER_MIB as int) as nat) + " MB)"@
}

/// Writes the data volume of a transfer.
pub fn fmt_volume(bytes: u64) -> (r: String)
    ensures
        r@ == volume_text(bytes as nat),
{
    let mut s = String::from_str("(");
    s.append(fixed1(bytes_to_deci_mib(bytes)).as_str());
    s.append(" MB)");
    s
}

/// The data a probe used, given in hundredths of a mebibyte, with one
/// decimal (the exact value rounded with halves to even): `<MiB> MB used`.
pub open spec fn data_used_text(centi_mib: nat) -> Seq<char> {
    fixed1_text(round_half_even(centi_mib as int, 10) as nat) + " MB used"@
}

/// Writes the data a probe used.
pub fn fmt_data_used(centi_mib: u64) -> (r: String)
    ensures
        r@ == data_used_text(centi_mib as nat),
{
    let q = centi_mib / 10;
    let rem = centi_mib % 10;
    let d: u64 = if rem < 5 {
        q
    } else if rem > 5 {
        q + 1
    } else if q % 2 == 0 {
        q
    } else {
        q + 1
    };
    let mut s = fixed1(d);
    s.append(" MB used");
    s
}

/// The ratio of upload to download speed, with two decimals (the exact
/// ratio rounded with halves to even): `↑/↓ <ratio>x`, the ratio being 0
/// without a download speed.
pub open spec fn ratio_text(upload_centi_mbps: nat, download_centi_mbps: nat) -> Seq<char> {
    let centi = if download_centi_mbps > 0 {
        round_half_even((upload_centi_mbps * 100) as int, download_centi_mbps as int) as nat
    } else {
        0
    };
    "\u{2191}/\u{2193} "@ + fixed2_text(centi) + "x"@
}

/// Writes the upload-to-download ratio.
pub fn fmt_ratio(upload_centi_mbps: u64, download_centi_mbps: u64) -> (r: String)
    ensures
        r@ == ratio_text(upload_centi_mbps as nat, download_centi_mbps as nat),
{
    let centi: u128 = if download_centi_mbps > 0 {
        let n: u128 = upload_centi_mbps as u128 * 100;
        let d: u128 = download_centi_mbps as u128;
        let q = n / d;
        let rem = n % d;
        assert(q < u128::MAX) by (nonlinear_arith)
            requires
                n == upload_centi_mbps * 100,
                q == n / d,
                d > 0,
        ;
        if 2 * rem < d {
            q
        } else if 2 * rem > d {
            q + 1
        } else if q % 2 == 0 {
            q
        } else {
            q + 1
        }
    } else {
        0
    };
    let mut s = String::from_str("\u{2191}/\u{2193} ");
    s.append(fixed2(centi).as_str());
    s.append("x");
    s
}

/// The connection-failure figure of the ping row: `· <rate>% conn. fail`
/// with one decimal, or `· 0% conn. fail` when none failed.
pub open spec fn failure_text(loss_deci_pct: nat) -> Seq<char> {
    if loss_deci_pct > 0 {
        "\u{00B7} "@ + fixed1_text(loss_deci_pct) + "% conn. fail"@
    } else {
        "\u{00B7} 0% conn. fail"@
    }
}

/// Writes the connection-failure figure; it is shown in red when some
/// connects failed and in green otherwise.
pub fn fmt_failures(loss_deci_pct: u64) -> (r: (String, Tone))
    ensures
        r.0@ == failure_text(loss_deci_pct as nat),
        r.1 == if loss_deci_pct > 0 {
            Tone::Red
        } else {
            Tone::Green
        },
{
    if loss_deci_pct > 0 {
        let mut s = String::from_str("\u{00B7} ");
        s.append(fixed1(loss_deci_pct).as_str());
        s.append("% conn. fail");
        (s, Tone::Red)
    } else {
        (String::from_str("\u{00B7} 0% conn. fail"), Tone::Green)
    }
}

/// The colour of a DNS lookup time: cyan below 50 ms, yellow below 150 ms,
/// red from there on.
pub fn dns_tone(centi_ms: u64) -> (r: Tone)
    ensures
        r == if centi_ms < 5_000 {
            Tone::Cyan
        } else if centi_ms < 15_000 {
            Tone::Yellow
        } else {
            Tone::Red
        },
{
    if centi_ms < 5_000 {
        Tone::Cyan
    } else if centi_ms < 15_000 {
        Tone::Yellow
    } else {
        Tone::Red
    }
}

/// The colour of a regional latency: cyan below 80 ms, yellow below 180 ms,
/// red from there on.
pub open spec fn latency_tone_of(centi_ms: nat) -> Tone {
    if centi_ms < 8_000 {
        Tone::Cyan
    } else if centi_ms < 18_000 {
        Tone::Yellow
    } else {
        Tone::Red
    }
}

/// Picks the colour of a regional latency.
pub fn latency_tone(centi_ms: u64) -> (r: Tone)
    ensures
        r == latency_tone_of(centi_ms as nat),
{
    if centi_ms < 8_000 {
        Tone::Cyan
    } else if centi_ms < 18_000 {
        Tone::Yellow
    } else {
        Tone::Red
    }
}

/// The colour of a bufferbloat grade: green for A+ and A, cyan for B,
/// yellow for C and D, red for F, dim when unrated.
pub fn grade_tone(g: Grade) -> (r: Tone)
    ensures
        r == match g {
            Grade::APlus | Grade::A => Tone::Green,
            Grade::B => Tone::Cyan,
            Grade::C | Grade::D => Tone::Yellow,
            Grade::F => Tone::Red,
            Grade::Unrated => Tone::Dim,
        },
{
    match g {
        Grade::APlus | Grade::A => Tone::Green,
        Grade::B => Tone::Cyan,
        Grade::C | Grade::D => Tone::Yellow,
        Grade::F => Tone::Red,
        Grade::Unrated => Tone::Dim,
    }
}

/// The mark of the verdict line for a diagnosis key: a green tick for
/// `healthy`, a yellow warning sign for `low_bandwidth`, a red cross for
/// anything else.
pub fn verdict_mark(status: &String) -> (r: (&'static str, Tone))
    ensures
        status@ == "healthy"@ ==> r.0@ == "\u{2714}"@ && r.1 == Tone::Green,
        status@ == "low_bandwidth"@ ==> r.0@ == "\u{26A0}"@ && r.1 == Tone::Yellow,
        status@ != "healthy"@ && status@ != "low_bandwidth"@ ==> r.0@ == "\u{2718}"@ && r.1
            == Tone::Red,
{
    proof {
        reveal_strlit("healthy");
        reveal_strlit("low_bandwidth");
        assert("healthy"@.len() != "low_bandwidth"@.len());
    }
    let healthy = String::from_str("healthy");
    let low = String::from_str("low_bandwidth");
    if *status == healthy {
        ("\u{2714}", Tone::Green)
    } else if *status == low {
        ("\u{26A0}", Tone::Yellow)
    } else {
        ("\u{2718}", Tone::Red)
    }
}

/// The key by which regional rows are ordered: the latency, with a server
/// that never answered placed after any that did (as 1e9 ms).
pub open spec fn region_key(centi_ms: u64) -> nat {
    if centi_ms > 0 {
        centi_ms as nat
    } else {
        100_000_000_000
    }
}

/// Row `a` comes before row `b`: a smaller key, or the same key and an
/// earlier position in the input.
pub open spec fn row_before(regions: Seq<RegionResult>, a: int, b: int) -> bool {
    region_key(regions[a].centi_ms) < region_key(regions[b].centi_ms) || (region_key(
        regions[a].centi_ms,
    ) == region_key(regions[b].centi_ms) && a < b)
}

/// `order` lists every row of `regions` once, in the order of
/// `row_before`: fastest first, servers that never answered last, and rows
/// of equal latency in their input order.
pub open spec fn is_region_order(regions: Seq<RegionResult>, order: Seq<usize>) -> bool {
    &&& order.len() == regions.len()
    &&& forall|i: int| 0 <= i < order.len() ==> #[trigger] order[i] < regions.len()
    &&& forall|i: int, j: int| 0 <= i < j < order.len() ==> row_before(regions, #[trigger] order[i] as int, #[trigger] order[j] as int)
}

/// The ordering key of a row.
fn row_key(row: &RegionResult) -> (r: u64)
    ensures
        r == region_key(row.centi_ms),
{
    if row.centi_ms > 0 {
        row.centi_ms
    } else {
        100_000_000_000
    }
}

/// The order in which regional rows are shown, as positions in `regions`.
pub fn region_order(regions: &[RegionResult]) -> (r: Vec<usize>)
    ensures
        is_region_order(regions@, r@),
{
    let mut out: Vec<usize> = Vec::new();
    let mut i: usize = 0;
    while i < regions.len()
        invariant
            i <= regions.len(),
            out@.len() == i,
            forall|a: int| 0 <= a < out@.len() ==> #[trigger] out@[a] < i,
            forall|a: int, b: int|
                0 <= a < b < out@.len() ==> row_before(regions@, #[trigger] out@[a] as int, #[trigger] out@[b] as int),
        decreases regions.len() - i,
    {
        let ki = row_key(&regions[i]);
        let mut p: usize = 0;
        while p < out.len() && row_key(&regions[out[p]]) <= ki
            invariant
                p <= out@.len(),
                i < regions@.len(),
                ki == region_key(regions@[i as int].centi_ms),
                forall|a: int| 0 <= a < out@.len() ==> #[trigger] out@[a] < i,
                forall|a: int| 0 <= a < p ==> region_key(regions@[#[trigger] out@[a] as int].centi_ms) <= ki,
            decreases out@.len() - p,
        {
            p += 1;
        }
        let ghost before = out@;
        proof {
            if p < out@.len() {
                assert(region_key(regions@[out@[p as int] as int].centi_ms) > ki);
            }
        }
        out.insert(p, i);
        proof {
            assert(out@ == before.insert(p as int, i));
            assert forall|a: int, b: int|
                0 <= a < b < out@.len() implies row_before(regions@, #[trigger] out@[a] as int, #[trigger] out@[b] as int) by {
                if b < p {
                    assert(out@[a] == before[a] && out@[b] == before[b]);
                } else if b == p {
                    assert(out@[a] == before[a]);
                } else if a == p {
                    assert(out@[b] == before[b - 1]);
                    if b - 1 > p {
                        assert(row_before(regions@, before[p as int] as int, before[b - 1] as int));
                    }
                } else if a < p {
                    assert(out@[a] == before[a] && out@[b] == before[b - 1]);
                } else {
                    assert(out@[a] == before[a - 1] && out@[b] == before[b - 1]);
                }
            }
        }
        i += 1;
    }
    out
}

/// Law: the order of rows is a permutation (no row is shown twice), and
/// every server that answered is shown before every server that did not.
pub proof fn lemma_region_order(regions: Seq<RegionResult>, order: Seq<usize>)
    requires
        is_region_order(regions, order),
    ensures
        forall|i: int, j: int| 0 <= i < j < order.len() ==> order[i] != order[j],
        forall|i: int, j: int|
            0 <= i < j < order.len() && regions[order[i] as int].centi_ms == 0 ==> regions[order[j] as int].centi_ms == 0
                || regions[order[j] as int].centi_ms >= 100_000_000_000,
{
    assert forall|i: int, j: int| 0 <= i < j < order.len() implies order[i] != order[j] by {
        assert(row_before(regions, order[i] as int, order[j] as int));
    }
    assert forall|i: int, j: int|
        0 <= i < j < order.len() && regions[order[i] as int].centi_ms == 0 implies regions[order[j] as int].centi_ms == 0
            || regions[order[j] as int].centi_ms >= 100_000_000_000 by {
        assert(row_before(regions, order[i] as int, order[j] as int));
    }
}

/// The scale of the regional bars: the slowest answering server, and at
/// least 200 ms.
pub fn region_scale(regions: &[RegionResult]) -> (r: u64)
    ensures
        r >= 20_000,
        forall|i: int| 0 <= i < regions@.len() ==> #[trigger] regions@[i].centi_ms <= r,
        r == 20_000 || exists|i: int| 0 <= i < regions@.len() && #[trigger] regions@[i].centi_ms == r,
{
    let mut m: u64 = 20_000;
    let mut i: usize = 0;
    while i < regions.len()
        invariant
            i <= regions.len(),
            m >= 20_000,
            forall|k: int| 0 <= k < i ==> #[trigger] regions@[k].centi_ms <= m,
            m == 20_000 || exists|k: int| 0 <= k < i && #[trigger] regions@[k].centi_ms == m,
        decreases regions.len() - i,
    {
        if regions[i].centi_ms > m {
            m = regions[i].centi_ms;
        }
        i += 1;
    }
    m
}

/// A regional latency rounded to whole milliseconds and right-aligned in
/// three columns, then `ms`.
pub open spec fn region_ms_text(centi_ms: nat) -> Seq<char> {
    let d = digits(round_half_even(centi_ms as int, 100) as nat);
    let pad: nat = if d.len() < 3 {
        (3 - d.len()) as nat
    } else {
        0
    };
    Seq::new(pad, |i: int| ' ') + d + " ms"@
}

/// Writes a regional latency.
pub fn fmt_region_ms(centi_ms: u64) -> (r: String)
    ensures
        r@ == region_ms_text(centi_ms as nat),
{
    let q = centi_ms / 100;
    let rem = centi_ms % 100;
    let whole: u64 = if rem < 50 {
        q
    } else if rem > 50 {
        q + 1
    } else if q % 2 == 0 {
        q
    } else {
        q + 1
    };
    let d = decimal(whole as u128);
    let len = d.as_str().unicode_len();
    let mut s = String::new();
    proof {
        reveal_strlit(" ");
    }
    let mut k: usize = len;
    while k < 3
        invariant
            len <= k <= 3 || (len > 3 && k == len),
            s@ == Seq::new((k - len) as nat, |i: int| ' '),
        decreases 3 - k,
    {
        proof {
            reveal_strlit(" ");
        }
        s.append(" ");
        k += 1;
        assert(s@ =~= Seq::new((k - len) as nat, |i: int| ' '));
    }
    s.append(d.as_str());
    s.append(" ms");
    assert(s@ =~= region_ms_text(centi_ms as nat));
    s
}

/// A ` (` starts at position `j` of `s`.
pub open spec fn bracket_at(s: Seq<char>, j: int) -> bool {
    0 <= j && j + 1 < s.len() && s[j] == ' ' && s[j + 1] == '('
}

/// The first ` (` of a city label is at `k`.
pub open spec fn is_first_bracket(s: Seq<char>, k: int) -> bool {
    &&& bracket_at(s, k)
    &&& forall|j: int| 0 <= j < k ==> !#[trigger] bracket_at(s, j)
}

/// `s` without any closing brackets at its end.
pub open spec fn trim_closing(s: Seq<char>) -> Seq<char>
    decreases s.len(),
{
    if s.len() > 0 && s.last() == ')' {
        trim_closing(s.drop_last())
    } else {
        s
    }
}

/// The city and the region of a label `City (Region)`: the text before the
/// first ` (` and the text after it without closing brackets at its end; a
/// label without ` (` is all city and no region.
pub open spec fn city_parts(s: Seq<char>) -> (Seq<char>, Seq<char>) {
    if exists|k: int| is_first_bracket(s, k) {
        let k = choose|k: int| is_first_bracket(s, k);
        (s.take(k), trim_closing(s.skip(k + 2)))
    } else {
        (s, Seq::empty())
    }
}

/// Splits a regional label into its city and region columns.
pub fn split_city(label: &str) -> (r: (String, String))
    ensures
        r.0@ == city_parts(label@).0,
        r.1@ == city_parts(label@).1,
{
    let len = label.unicode_len();
    let mut k: usize = 0;
    while k < len && k + 1 < len && !(label.get_char(k) == ' ' && label.get_char(k + 1) == '(')
        invariant
            k <= len,
            len == label@.len(),
            forall|j: int| 0 <= j < k ==> !#[trigger] bracket_at(label@, j),
        decreases len - k,
    {
        k += 1;
    }
    let found = k < len && k + 1 < len;
    if !found {
        proof {
            assert forall|c: int| !is_first_bracket(label@, c) by {
                if is_first_bracket(label@, c) {
                    assert(c >= k);
                }
            }
        }
        assert(label@ =~= city_parts(label@).0);
        return (String::from_str(label), String::new());
    }
    proof {
        assert(is_first_bracket(label@, k as int));
        let c = choose|c: int| is_first_bracket(label@, c);
        assert(c == k) by {
            if c < k {
                assert(!bracket_at(label@, c));
            } else if c > k {
                assert(!bracket_at(label@, k as int));
            }
        }
    }
    let city = String::from_str(label.substring_char(0, k));
    let mut end: usize = len;
    while end > k + 2 && label.get_char(end - 1) == ')'
        invariant
            k + 2 <= end <= len,
            len == label@.len(),
            trim_closing(label@.subrange(k + 2, end as int)) == trim_closing(label@.skip(k + 2)),
        decreases end,
    {
        assert(label@.subrange(k + 2, end as int).drop_last() =~= label@.subrange(
            k + 2,
            end - 1,
        ));
        end -= 1;
    }
    proof {
        let rest = label@.subrange(k + 2, end as int);
        assert(rest.len() == 0 || rest.last() != ')');
        assert(trim_closing(rest) == rest);
    }
    let region = String::from_str(label.substring_char(k + 2, end));
    (city, region)
}

/// The text of an optional field, or `default` when it is absent.
pub open spec fn field_text(v: Option<String>, default: Seq<char>) -> Seq<char> {
    match v {
        Some(t) => t@,
        None => default,
    }
}

/// Writes an optional field, or `default` when it is absent.
pub fn field_or(v: &Option<String>, default: &str) -> (r: String)
    ensures
        r@ == field_text(*v, default@),
{
    match v {
        Some(t) => t.clone(),
        None => String::from_str(default),
    }
}

/// The bracketed place of the serving data centre: its city when known
/// and not empty, else its code (`?` when unknown).
pub open spec fn edge_place_text(colo: Option<String>, colo_city: Option<String>) -> Seq<char> {
    let city = field_text(colo_city, Seq::empty());
    "("@ + (if city.len() == 0 {
        field_text(colo, "?"@)
    } else {
        city
    }) + ")"@
}

/// Writes the bracketed place of the serving data centre.
pub fn edge_place(colo: &Option<String>, colo_city: &Option<String>) -> (r: String)
    ensures
        r@ == edge_place_text(*colo, *colo_city),
{
    let city = field_or(colo_city, "");
    proof {
        reveal_strlit("");
    }
    let place = if city.as_str().unicode_len() == 0 {
        field_or(colo, "?")
    } else {
        city
    };
    let mut s = String::from_str("(");
    s.append(place.as_str());
    s.append(")");
    s
}

/// Position of a progress bar of 1000 steps after `elapsed_us` of a
/// `duration_us` measurement: the elapsed share, capped at the end.
pub fn progress_position(elapsed_us: u64, duration_us: u64) -> (r: u64)
    ensures
        r <= 1000,
        elapsed_us >= duration_us ==> r == 1000,
        elapsed_us < duration_us ==> r == elapsed_us * 1000 / (duration_us as int),
{
    if elapsed_us >= duration_us {
        1000
    } else {
        assert(elapsed_us * 1000 / (duration_us as int) <= 1000) by (nonlinear_arith)
            requires
                elapsed_us < duration_us,
        ;
        (elapsed_us as u128 * 1000 / duration_us as u128) as u64
    }
}

/// The progress message of a transfer: the speed so far in Mbps with two
/// decimals and the elapsed seconds with one.
pub open spec fn progress_text(bytes: nat, elapsed_us: nat) -> Seq<char> {
    fixed2_text(round_half_even((bytes * 800) as int, elapsed_us as int) as nat) + " Mbps  "@
        + fixed1_text(round_half_even(elapsed_us as int, 100_000) as nat) + "s"@
}

/// Writes the progress message of a transfer; there is none before any
/// time has passed.
pub fn progress_message(bytes: u64, elapsed_us: u64) -> (r: Option<String>)
    ensures
        elapsed_us == 0 ==> r is None,
        elapsed_us > 0 ==> r is Some && r->0@ == progress_text(bytes as nat, elapsed_us as nat),
{
    if elapsed_us == 0 {
        return None;
    }
    let n: u128 = bytes as u128 * 800;
    let d: u128 = elapsed_us as u128;
    let q = n / d;
    let rem = n % d;
    assert(q < u128::MAX) by (nonlinear_arith)
        requires
            n == bytes * 800,
            q == n / d,
            d > 0,
    ;
    let speed: u128 = if 2 * rem < d {
        q
    } else if 2 * rem > d {
        q + 1
    } else if q % 2 == 0 {
        q
    } else {
        q + 1
    };
    let tq = elapsed_us / 100_000;
    let trem = elapsed_us % 100_000;
    let tenths: u64 = if trem < 50_000 {
        tq
    } else if trem > 50_000 {
        tq + 1
    } else if tq % 2 == 0 {
        tq
    } else {
        tq + 1
    };
    let mut s = fixed2(speed);
    s.append(" Mbps  ");
    s.append(fixed1(tenths).as_str());
    s.append("s");
    Some(s)
}

/// One transfer row of the speed section.
pub struct SpeedRow {
    pub label: String,
    pub bar: String,
    pub speed: String,
    pub volume: String,
    /// The upload-to-download ratio, on the upload row only.
    pub ratio: Option<String>,
}

/// The sum of two figures, capped at the largest `u64`.
pub open spec fn capped_sum(a: nat, b: nat) -> nat {
    if a + b <= u64::MAX {
        a + b
    } else {
        u64::MAX as nat
    }
}

/// `row` shows `value` against `scale` with a 20-cell bar, the volume of
/// `bytes`, and `ratio`.
pub open spec fn is_speed_row(
    row: SpeedRow,
    label: Seq<char>,
    value: nat,
    scale: nat,
    bytes: nat,
    ratio: Option<Seq<char>>,
) -> bool {
    &&& row.label@ == label
    &&& row.bar@ == bar_text(value, scale, 20)
    &&& row.speed@ == speed_text(value)
    &&& row.volume@ == volume_text(bytes)
    &&& row.ratio.deep_view() == ratio
}

/// Builds a transfer row.
fn make_speed_row(label: &str, value: u64, scale: u64, bytes: u64, ratio: Option<String>) -> (r: SpeedRow)
    ensures
        is_speed_row(r, label@, value as nat, scale as nat, bytes as nat, ratio.deep_view()),
{
    SpeedRow {
        label: String::from_str(label),
        bar: bar(value, scale, 20),
        speed: fmt_speed(value),
        volume: fmt_volume(bytes),
        ratio,
    }
}

/// The transfer rows of the speed section, all on one scale (the larger
/// speed, at least 100 Mbps): the download; the upload with its ratio to
/// the download, when it was measured; and the simultaneous transfer, its
/// two speeds added and shown against twice the scale, when both of its
/// speeds were measured. Sums beyond a `u64` are capped.
pub fn speed_rows(r: &SpeedTestResult) -> (rows: Vec<SpeedRow>)
    ensures
        ({
            let dl = r.download_centi_mbps as nat;
            let ul = match r.upload_centi_mbps {
                Some(u) => u as nat,
                None => 0,
            };
            let scale = speed_scale_of(dl, ul);
            let up: nat = if r.upload_centi_mbps is Some {
                1
            } else {
                0
            };
            let both = r.combined_download_centi_mbps is Some && r.combined_upload_centi_mbps is Some;
            &&& rows@.len() == 1 + up + if both {
                1nat
            } else {
                0nat
            }
            &&& is_speed_row(rows@[0], "Download"@, dl, scale, r.download_bytes as nat, None)
            &&& up == 1 ==> is_speed_row(
                rows@[1],
                "Upload"@,
                ul,
                scale,
                r.upload_bytes as nat,
                Some(ratio_text(ul, dl)),
            )
            &&& both ==> is_speed_row(
                rows@[rows@.len() - 1],
                "Combined"@,
                capped_sum(
                    r.combined_download_centi_mbps->0 as nat,
                    r.combined_upload_centi_mbps->0 as nat,
                ),
                capped_sum(scale, scale),
                r.combined_bytes as nat,
                None,
            )
        }),
{
    let dl = r.download_centi_mbps;
    let ul = match r.upload_centi_mbps {
        Some(u) => u,
        None => 0,
    };
    let scale = speed_scale(dl, ul);
    let mut rows: Vec<SpeedRow> = Vec::new();
    rows.push(make_speed_row("Download", dl, scale, r.download_bytes, None));
    if let Some(u) = r.upload_centi_mbps {
        rows.push(make_speed_row("Upload", u, scale, r.upload_bytes, Some(fmt_ratio(u, dl))));
    }
    match (r.combined_download_centi_mbps, r.combined_upload_centi_mbps) {
        (Some(cdl), Some(cul)) => {
            let total: u64 = if cdl <= u64::MAX - cul {
                cdl + cul
            } else {
                u64::MAX
            };
            let double: u64 = if scale <= u64::MAX - scale {
                scale + scale
            } else {
                u64::MAX
            };
            rows.push(make_speed_row("Combined", total, double, r.combined_bytes, None));
        },
        _ => {},
    }
    rows
}

/// The data line of the bufferbloat section: shown only when verbose.
pub fn data_line(bb: &BufferbloatResult, verbose: bool) -> (r: Option<String>)
    ensures
        verbose ==> r is Some && r->0@ == data_used_text(bb.data_used_centi_mib as nat),
        !verbose ==> r is None,
{
    if verbose {
        Some(fmt_data_used(bb.data_used_centi_mib))
    } else {
        None
    }
}

/// One row of the regional section.
pub struct RegionRow {
    pub city: String,
    pub region: String,
    pub bar: String,
    pub bar_tone: Tone,
    pub latency: String,
    pub latency_tone: Tone,
}

/// The row of a regional server on bars up to `scale`: its city and
/// region columns; for a server that never answered an empty 12-cell bar
/// and `timeout`, both dim; otherwise a 12-cell bar and the latency in
/// whole milliseconds, both in the colour of the latency.
pub fn region_row(row: &RegionResult, scale: u64) -> (r: RegionRow)
    ensures
        r.city@ == city_parts(row.city@).0,
        r.region@ == city_parts(row.city@).1,
        row.centi_ms == 0 ==> r.bar@ == bar_text(0, 0, 12) && r.bar_tone == Tone::Dim
            && r.latency@ == "timeout"@ && r.latency_tone == Tone::Dim,
        row.centi_ms > 0 ==> r.bar@ == bar_text(row.centi_ms as nat, scale as nat, 12) && r.bar_tone
            == latency_tone_of(row.centi_ms as nat) && r.latency@ == region_ms_text(
            row.centi_ms as nat,
        ) && r.latency_tone == latency_tone_of(row.centi_ms as nat),
{
    let (city, region) = split_city(row.city.as_str());
    if row.centi_ms == 0 {
        RegionRow {
            city,
            region,
            bar: bar(0, 0, 12),
            bar_tone: Tone::Dim,
            latency: String::from_str("timeout"),
            latency_tone: Tone::Dim,
        }
    } else {
        let tone = latency_tone(row.centi_ms);
        RegionRow {
            city,
            region,
            bar: bar(row.centi_ms, scale, 12),
            bar_tone: tone,
            latency: fmt_region_ms(row.centi_ms),
            latency_tone: tone,
        }
    }
}

} // verus!
