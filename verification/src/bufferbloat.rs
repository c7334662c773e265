//! Bufferbloat: how much latency grows while the link is saturated.
use vstd::prelude::*;
use crate::stats::ascending;
use crate::stats::count_at_most;
use crate::stats::count_below;
use crate::stats::lemma_ascending;
use crate::stats::lemma_ascending_counts;
use crate::stats::lemma_ascending_ends;
use crate::stats::minimum;
use crate::stats::seq_max;
use crate::stats::seq_min;
use crate::stats::sorted_copy;
use crate::util::bytes_to_centi_mib;
use crate::util::micros_to_centi_ms;
use crate::util::round_half_away;
use crate::util::BYTES_PER_MIB;

verus! {

/// Cap on parallel saturation streams: beyond it the probe competes with
/// itself for upstream bandwidth on slow links.
pub const MAX_SATURATION_STREAMS: usize = 6;

/// Number of concurrent connects that establish the idle baseline.
pub const IDLE_PROBES: usize = 8;

/// The percentile of the loaded samples that counts as the loaded latency.
pub const LOADED_PERCENTILE: u64 = 90;

/// Letter grade of the latency increase under load.
#[derive(Clone, Copy, Debug, PartialEq, Eq, Structural)]
pub enum Grade {
    APlus,
    A,
    B,
    C,
    D,
    F,
    /// No measurement to grade.
    Unrated,
}

/// The grade of a latency increase of `delta_us` microseconds.
pub open spec fn grade_of(delta_us: nat) -> Grade {
    if delta_us < 5_000 {
        Grade::APlus
    } else if delta_us < 30_000 {
        Grade::A
    } else if delta_us < 60_000 {
        Grade::B
    } else if delta_us < 200_000 {
        Grade::C
    } else if delta_us < 400_000 {
        Grade::D
    } else {
        Grade::F
    }
}

/// How bad a grade is: 0 for A+ up to 5 for F.
pub open spec fn severity(g: Grade) -> nat {
    match g {
        Grade::APlus => 0,
        Grade::A => 1,
        Grade::B => 2,
        Grade::C => 3,
        Grade::D => 4,
        Grade::F => 5,
        Grade::Unrated => 6,
    }
}

impl Grade {
    /// The text of the grade.
    pub open spec fn label_text(self) -> Seq<char> {
        match self {
            Grade::APlus => "A+"@,
            Grade::A => "A"@,
            Grade::B => "B"@,
            Grade::C => "C"@,
            Grade::D => "D"@,
            Grade::F => "F"@,
            Grade::Unrated => "?"@,
        }
    }

    /// The text of the grade: `A+`, `A`, `B`, `C`, `D`, `F`, or `?` when
    /// unrated.
    pub fn label(&self) -> (r: &'static str)
        ensures
            r@ == self.label_text(),
    {
        match self {
            Grade::APlus => "A+",
            Grade::A => "A",
            Grade::B => "B",
            Grade::C => "C",
            Grade::D => "D",
            Grade::F => "F",
            Grade::Unrated => "?",
        }
    }
}

/// The grade whose text is `s`; any other text is unrated.
pub open spec fn grade_named(s: Seq<char>) -> Grade {
    if s == "A+"@ {
        Grade::APlus
    } else if s == "A"@ {
        Grade::A
    } else if s == "B"@ {
        Grade::B
    } else if s == "C"@ {
        Grade::C
    } else if s == "D"@ {
        Grade::D
    } else if s == "F"@ {
        Grade::F
    } else {
        Grade::Unrated
    }
}

/// Reads a grade back from its text.
pub fn grade_from_label(s: &str) -> (r: Grade)
    ensures
        r == grade_named(s@),
{
    proof {
        reveal_strlit("A+");
        reveal_strlit("A");
        reveal_strlit("B");
        reveal_strlit("C");
        reveal_strlit("D");
        reveal_strlit("F");
    }
    let len = s.unicode_len();
    if len == 2 {
        if s.get_char(0) == 'A' && s.get_char(1) == '+' {
            assert(s@ =~= "A+"@);
            return Grade::APlus;
        }
        assert(s@ != "A+"@);
        return Grade::Unrated;
    }
    if len != 1 {
        return Grade::Unrated;
    }
    let c = s.get_char(0);
    let r = if c == 'A' {
        Grade::A
    } else if c == 'B' {
        Grade::B
    } else if c == 'C' {
        Grade::C
    } else if c == 'D' {
        Grade::D
    } else if c == 'F' {
        Grade::F
    } else {
        Grade::Unrated
    };
    proof {
        let lits = seq!["A"@, "B"@, "C"@, "D"@, "F"@];
        assert(lits[0][0] == 'A' && lits[1][0] == 'B' && lits[2][0] == 'C' && lits[3][0] == 'D'
            && lits[4][0] == 'F');
        assert forall|k: int| 0 <= k < 5 implies (s@ == #[trigger] lits[k] <==> c == lits[k][0]) by {
            if c == lits[k][0] {
                assert(s@ =~= lits[k]);
            }
        }
        assert(s@ != "A+"@);
    }
    r
}

/// Law: reading back the text of a grade gives the grade.
pub proof fn lemma_grade_label_roundtrip(g: Grade)
    ensures
        grade_named(g.label_text()) == g,
{
    reveal_strlit("A+");
    reveal_strlit("A");
    reveal_strlit("B");
    reveal_strlit("C");
    reveal_strlit("D");
    reveal_strlit("F");
    reveal_strlit("?");
    let lits = seq!["A+"@, "A"@, "B"@, "C"@, "D"@, "F"@, "?"@];
    assert(lits[0].len() == 2 && lits[0][0] == 'A' && lits[0][1] == '+');
    assert(lits[1][0] == 'A' && lits[2][0] == 'B' && lits[3][0] == 'C' && lits[4][0] == 'D'
        && lits[5][0] == 'F' && lits[6][0] == '?');
    assert forall|i: int, j: int| 0 <= i < j < 7 implies lits[i] != lits[j] by {
        if lits[i].len() == lits[j].len() {
            assert(lits[i][0] != lits[j][0]);
        }
    }
}

/// Grades a latency increase given in microseconds: A+ below 5 ms, A below
/// 30 ms, B below 60 ms, C below 200 ms, D below 400 ms, F from there on.
pub fn grade(delta_us: u64) -> (r: Grade)
    ensures
        r == grade_of(delta_us as nat),
        grade_fits(r, delta_us as int),
{
    if delta_us < 5_000 {
        Grade::APlus
    } else if delta_us < 30_000 {
        Grade::A
    } else if delta_us < 60_000 {
        Grade::B
    } else if delta_us < 200_000 {
        Grade::C
    } else if delta_us < 400_000 {
        Grade::D
    } else {
        Grade::F
    }
}

/// Law: a larger latency increase never earns a better grade.
pub proof fn lemma_grade_monotone(d1: nat, d2: nat)
    requires
        d1 <= d2,
    ensures
        severity(grade_of(d1)) <= severity(grade_of(d2)),
{
}

/// The nearest rank (1-based) of the `pct` percentile among `n` samples:
/// `ceil(pct / 100 * n)`, with `pct` at or below 0 giving the first rank and
/// at or above 100 the last.
pub open spec fn nearest_rank(pct: nat, n: nat) -> nat {
    if pct == 0 {
        1
    } else if pct >= 100 {
        n
    } else {
        let rank = (pct * n + 99) / 100;
        if rank < 1 {
            1
        } else if rank > n {
            n
        } else {
            rank
        }
    }
}

/// The nearest-rank `pct` percentile of `s`, and 0 when `s` is empty.
pub open spec fn percentile_of(s: Seq<u64>, pct: nat) -> u64 {
    if s.len() == 0 {
        0
    } else {
        ascending(s)[nearest_rank(pct, s.len()) - 1]
    }
}

/// Nearest-rank percentile of a sample list: p0 is the minimum, p100 the
/// maximum, and an empty list gives 0. The samples are left as they are.
pub fn percentile(samples: &[u64], pct: u64) -> (r: u64)
    ensures
        r == percentile_of(samples@, pct as nat),
        samples@.len() > 0 && pct <= 100 ==> 100 * count_at_most(samples@, r) >= pct * samples@.len(),
        samples@.len() > 0 && 0 < pct <= 100 ==> 100 * count_below(samples@, r) < pct
            * samples@.len(),
{
    proof {
        if samples@.len() > 0 && pct <= 100 {
            lemma_percentile_nearest_rank(samples@, pct as nat);
        }
    }
    if samples.len() == 0 {
        return 0;
    }
    let ordered = sorted_copy(samples);
    proof {
        lemma_ascending(samples@);
    }
    let n = ordered.len();
    if pct == 0 {
        return ordered[0];
    }
    if pct >= 100 {
        return ordered[n - 1];
    }
    assert(pct as u128 * n as u128 <= 100 * usize::MAX) by (nonlinear_arith)
        requires
            pct < 100,
            n <= usize::MAX,
    ;
    let prod: u128 = pct as u128 * n as u128;
    assert(prod + 99 < u128::MAX) by (nonlinear_arith)
        requires
            prod == pct as u128 * n as u128,
            pct < 100,
            n <= usize::MAX,
    ;
    let rank128: u128 = (prod + 99) / 100;
    let rank: usize = if rank128 < 1 {
        1
    } else if rank128 > n as u128 {
        n
    } else {
        rank128 as usize
    };
    ordered[rank - 1]
}

/// Law: the `pct` percentile (0 to 100) of a non-empty list is a value with
/// at least `pct`% of the samples at or below it and, for `pct` above 0,
/// fewer than `pct`% of them strictly below it: the nearest-rank
/// definition.
pub proof fn lemma_percentile_nearest_rank(s: Seq<u64>, pct: nat)
    requires
        s.len() > 0,
        pct <= 100,
    ensures
        100 * count_at_most(s, percentile_of(s, pct)) >= pct * s.len(),
        pct > 0 ==> 100 * count_below(s, percentile_of(s, pct)) < pct * s.len(),
{
    let n = s.len();
    let rank = nearest_rank(pct, n);
    if pct > 0 && pct < 100 {
        assert(1 <= (pct * n + 99) / 100 <= n && 100 * ((pct * n + 99) / 100) >= pct * n && 100
            * ((pct * n + 99) / 100 - 1) < pct * n) by (nonlinear_arith)
            requires
                0 < pct < 100,
                n > 0,
        ;
    }
    assert(1 <= rank <= n);
    lemma_ascending_counts(s, rank - 1);
    let c1 = count_at_most(s, percentile_of(s, pct));
    let c2 = count_below(s, percentile_of(s, pct));
    assert(c1 >= rank);
    assert(c2 <= rank - 1);
    if pct == 0 {
        assert(100 * c1 >= 0);
    } else if pct == 100 {
        assert(100 * c1 >= 100 * n) by (nonlinear_arith)
            requires
                c1 >= n,
        ;
        assert(100 * c2 < 100 * n) by (nonlinear_arith)
            requires
                c2 <= n - 1,
        ;
    } else {
        assert(100 * c1 >= 100 * rank) by (nonlinear_arith)
            requires
                c1 >= rank,
        ;
        assert(100 * c2 <= 100 * (rank - 1)) by (nonlinear_arith)
            requires
                c2 <= rank - 1,
        ;
    }
}

/// Law: every percentile of a non-empty list lies between its minimum and
/// its maximum, and is one of its samples.
pub proof fn lemma_percentile_bounds(s: Seq<u64>, pct: nat)
    requires
        s.len() > 0,
    ensures
        seq_min(s) <= percentile_of(s, pct) <= seq_max(s),
        s.contains(percentile_of(s, pct)),
{
    lemma_ascending(s);
    lemma_ascending_ends(s);
    let k = nearest_rank(pct, s.len()) - 1;
    assert(0 <= k < s.len());
    assert(ascending(s)[0] <= ascending(s)[k]);
    assert(ascending(s)[k] <= ascending(s)[s.len() - 1]);
}

/// Law: the 0th percentile is the minimum and the 100th the maximum.
pub proof fn lemma_percentile_extremes(s: Seq<u64>)
    requires
        s.len() > 0,
    ensures
        percentile_of(s, 0) == seq_min(s),
        percentile_of(s, 100) == seq_max(s),
{
    lemma_ascending_ends(s);
}

/// Law: a higher percentile is never smaller.
pub proof fn lemma_percentile_monotone(s: Seq<u64>, p1: nat, p2: nat)
    requires
        p1 <= p2,
    ensures
        percentile_of(s, p1) <= percentile_of(s, p2),
{
    if s.len() > 0 {
        lemma_ascending(s);
        let n = s.len();
        assert(nearest_rank(p1, n) <= nearest_rank(p2, n)) by (nonlinear_arith)
            requires
                p1 <= p2,
                n > 0,
        {
            if 0 < p1 && p2 < 100 {
                assert(p1 * n <= p2 * n);
            }
        }
        let k1 = nearest_rank(p1, n) - 1;
        let k2 = nearest_rank(p2, n) - 1;
        assert(ascending(s)[k1] <= ascending(s)[k2]);
    }
}

/// The outcome of a bufferbloat probe, latencies in hundredths of a
/// millisecond and data in hundredths of a mebibyte.
#[derive(Clone, Copy, Debug, PartialEq, Eq, Structural)]
pub struct BufferbloatResult {
    pub idle_centi_ms: u64,
    pub loaded_centi_ms: u64,
    pub delta_centi_ms: u64,
    pub grade: Grade,
    pub data_used_centi_mib: u64,
}

/// The number of saturation streams used for `streams` requested ones:
/// at least 1 and at most `MAX_SATURATION_STREAMS`.
pub fn saturation_streams(streams: usize) -> (r: usize)
    ensures
        r == if streams < 1 {
            1
        } else if streams > MAX_SATURATION_STREAMS {
            MAX_SATURATION_STREAMS
        } else {
            streams
        },
{
    if streams < 1 {
        1
    } else if streams > MAX_SATURATION_STREAMS {
        MAX_SATURATION_STREAMS
    } else {
        streams
    }
}

/// The latency increase under load in microseconds: the loaded latency
/// minus the idle one, and never negative.
pub open spec fn bloat_of(idle_us: u64, loaded_us: u64) -> nat {
    if loaded_us > idle_us {
        (loaded_us - idle_us) as nat
    } else {
        0
    }
}

/// What a probe yields from its idle samples, its samples under load
/// (both in microseconds) and the bytes the saturating downloads moved:
/// idle, loaded and increased latency in hundredths of a millisecond, the
/// grade, and the data used in hundredths of a mebibyte.
pub open spec fn bufferbloat_of(idle: Seq<u64>, loaded: Seq<u64>, bytes: u64) -> (int, int, int, Grade, int) {
    if idle.len() == 0 {
        (0, 0, 0, Grade::Unrated, 0)
    } else {
        let base = seq_min(idle);
        let data = round_half_away(bytes * 100, BYTES_PER_MIB as int);
        if loaded.len() == 0 {
            (round_half_away(base as int, 10), 0, 0, Grade::Unrated, data)
        } else {
            let busy = percentile_of(loaded, LOADED_PERCENTILE as nat);
            let delta = bloat_of(base, busy);
            (
                round_half_away(base as int, 10),
                round_half_away(busy as int, 10),
                round_half_away(delta as int, 10),
                grade_of(delta),
                data,
            )
        }
    }
}

/// The figures of a probe result as mathematical integers.
pub open spec fn bufferbloat_figures(r: BufferbloatResult) -> (int, int, int, Grade, int) {
    (
        r.idle_centi_ms as int,
        r.loaded_centi_ms as int,
        r.delta_centi_ms as int,
        r.grade,
        r.data_used_centi_mib as int,
    )
}

/// What a grade says of the latency increase `inc` (microseconds) it is
/// given for: A+ below 5 ms, A below 30 ms, B below 60 ms, C below 200 ms,
/// D below 400 ms, F from 400 ms on.
pub open spec fn grade_fits(g: Grade, inc: int) -> bool {
    &&& (g == Grade::APlus <==> inc < 5_000)
    &&& (g == Grade::A <==> 5_000 <= inc < 30_000)
    &&& (g == Grade::B <==> 30_000 <= inc < 60_000)
    &&& (g == Grade::C <==> 60_000 <= inc < 200_000)
    &&& (g == Grade::D <==> 200_000 <= inc < 400_000)
    &&& (g == Grade::F <==> 400_000 <= inc)
}

/// Law: a probe with idle and loaded samples grades the increase of
/// latency under load (the loaded latency minus the best idle one, never
/// negative), and reports that increase, the best idle latency and the
/// loaded latency rounded to hundredths of a millisecond.
pub proof fn lemma_probe_grades_increase(idle: Seq<u64>, loaded: Seq<u64>, bytes: u64)
    requires
        idle.len() > 0,
        loaded.len() > 0,
    ensures
        ({
            let base = seq_min(idle);
            let busy = percentile_of(loaded, 90);
            let inc: int = if busy > base {
                busy - base
            } else {
                0
            };
            let r = bufferbloat_of(idle, loaded, bytes);
            &&& grade_fits(r.3, inc)
            &&& r.2 == round_half_away(inc, 10)
            &&& r.0 == round_half_away(base as int, 10)
            &&& r.1 == round_half_away(busy as int, 10)
        }),
{
}

/// Law: two probes whose latency grew by the same amount under load get
/// the same grade and report the same increase, whatever their idle and
/// loaded latencies.
pub proof fn lemma_probe_grade_depends_on_increase(
    idle1: Seq<u64>,
    loaded1: Seq<u64>,
    bytes1: u64,
    idle2: Seq<u64>,
    loaded2: Seq<u64>,
    bytes2: u64,
)
    requires
        idle1.len() > 0,
        loaded1.len() > 0,
        idle2.len() > 0,
        loaded2.len() > 0,
        (if percentile_of(loaded1, 90) > seq_min(idle1) {
            percentile_of(loaded1, 90) - seq_min(idle1)
        } else {
            0
        }) == (if percentile_of(loaded2, 90) > seq_min(idle2) {
            percentile_of(loaded2, 90) - seq_min(idle2)
        } else {
            0
        }),
    ensures
        bufferbloat_of(idle1, loaded1, bytes1).3 == bufferbloat_of(idle2, loaded2, bytes2).3,
        bufferbloat_of(idle1, loaded1, bytes1).2 == bufferbloat_of(idle2, loaded2, bytes2).2,
{
    lemma_probe_grades_increase(idle1, loaded1, bytes1);
    lemma_probe_grades_increase(idle2, loaded2, bytes2);
}

/// Summarises a bufferbloat probe. The best idle sample is the baseline,
/// the 90th percentile of the loaded samples is the loaded latency, and
/// their difference (never negative) is graded. Without idle samples every
/// figure is zero and the grade is `?`; without loaded samples only the
/// idle latency and the data used are reported, with grade `?`.
pub fn summarize_bufferbloat(idle: &[u64], loaded: &[u64], saturation_bytes: u64) -> (r:
    BufferbloatResult)
    ensures
        bufferbloat_figures(r) == bufferbloat_of(idle@, loaded@, saturation_bytes),
        idle@.len() > 0 && loaded@.len() > 0 ==> ({
            let base = seq_min(idle@);
            let busy = percentile_of(loaded@, 90);
            let inc: int = if busy > base {
                busy - base
            } else {
                0
            };
            &&& grade_fits(r.grade, inc)
            &&& r.delta_centi_ms == round_half_away(inc, 10)
            &&& r.idle_centi_ms == round_half_away(base as int, 10)
            &&& r.loaded_centi_ms == round_half_away(busy as int, 10)
        }),
{
    proof {
        if idle@.len() > 0 && loaded@.len() > 0 {
            lemma_probe_grades_increase(idle@, loaded@, saturation_bytes);
        }
    }
    if idle.len() == 0 {
        return BufferbloatResult {
            idle_centi_ms: 0,
            loaded_centi_ms: 0,
            delta_centi_ms: 0,
            grade: Grade::Unrated,
            data_used_centi_mib: 0,
        };
    }
    let base = minimum(idle);
    let data = bytes_to_centi_mib(saturation_bytes);
    if loaded.len() == 0 {
        return BufferbloatResult {
            idle_centi_ms: micros_to_centi_ms(base),
            loaded_centi_ms: 0,
            delta_centi_ms: 0,
            grade: Grade::Unrated,
            data_used_centi_mib: data,
        };
    }
    let busy = percentile(loaded, LOADED_PERCENTILE);
    let delta: u64 = if busy > base {
        busy - base
    } else {
        0
    };
    BufferbloatResult {
        idle_centi_ms: micros_to_centi_ms(base),
        loaded_centi_ms: micros_to_centi_ms(busy),
        delta_centi_ms: micros_to_centi_ms(delta),
        grade: grade(delta),
        data_used_centi_mib: data,
    }
}

/// Law: the reported increase is the loaded latency minus the idle one
/// whenever the link got slower under load, and is graded from it; the
/// idle baseline is never above any idle sample.
pub proof fn lemma_bufferbloat_delta(idle: Seq<u64>, loaded: Seq<u64>, bytes: u64)
    requires
        idle.len() > 0,
        loaded.len() > 0,
    ensures
        ({
            let base = seq_min(idle);
            let busy = percentile_of(loaded, LOADED_PERCENTILE as nat);
            let r = bufferbloat_of(idle, loaded, bytes);
            &&& busy >= base ==> r.2 == round_half_away(busy - base, 10)
            &&& busy <= base ==> r.2 == 0 && r.3 == Grade::APlus
            &&& forall|i: int| 0 <= i < idle.len() ==> base <= #[trigger] idle[i]
        }),
{
    crate::stats::lemma_seq_min(idle);
    assert(round_half_away(0, 10) == 0) by (nonlinear_arith);
}

} // verus!
