//! Judging a connection: the diagnosis and the list of issues.
use vstd::prelude::*;
use crate::bufferbloat::BufferbloatResult;
use crate::bufferbloat::Grade;
use crate::text::short;
use crate::text::short_tenths;
use crate::text::short_text;

verus! {

/// The figures of a speed test: latencies in hundredths of a millisecond,
/// throughputs in hundredths of a megabit per second, the connection
/// failure rate in tenths of a percent. A figure that was not measured is
/// `None`.
pub struct SpeedTestResult {
    pub ping_centi_ms: Option<u64>,
    pub packet_loss_deci_pct: u64,
    pub jitter_centi_ms: Option<u64>,
    pub download_centi_mbps: u64,
    pub download_bytes: u64,
    pub upload_centi_mbps: Option<u64>,
    pub upload_bytes: u64,
    pub combined_download_centi_mbps: Option<u64>,
    pub combined_upload_centi_mbps: Option<u64>,
    pub combined_bytes: u64,
}

/// The single most pressing finding about a connection.
#[derive(Clone, Copy, Debug, PartialEq, Eq, Structural)]
pub enum Diagnosis {
    PacketLoss,
    SevereBufferbloat,
    HighLatency,
    HighJitter,
    LowBandwidth,
    Healthy,
}

/// The diagnosis, checked in order of severity: more than 5% connection
/// failures, more than 200 ms of bufferbloat, more than 100 ms of ping on a
/// link of at least 10 Mbps, more than 30 ms of jitter, less than 10 Mbps of
/// download; otherwise healthy.
pub open spec fn diagnosis_of(
    download_centi_mbps: nat,
    ping_centi_ms: nat,
    jitter_centi_ms: nat,
    loss_deci_pct: nat,
    bloat_centi_ms: nat,
) -> Diagnosis {
    if loss_deci_pct > 50 {
        Diagnosis::PacketLoss
    } else if bloat_centi_ms > 20_000 {
        Diagnosis::SevereBufferbloat
    } else if ping_centi_ms > 10_000 && download_centi_mbps >= 1_000 {
        Diagnosis::HighLatency
    } else if jitter_centi_ms > 3_000 {
        Diagnosis::HighJitter
    } else if download_centi_mbps < 1_000 {
        Diagnosis::LowBandwidth
    } else {
        Diagnosis::Healthy
    }
}

impl Diagnosis {
    /// The sentence that states the diagnosis.
    pub open spec fn message_text(self) -> Seq<char> {
        match self {
            Diagnosis::PacketLoss => "Packet loss detected, connection is unstable."@,
            Diagnosis::SevereBufferbloat => "Severe bufferbloat, router queue is overloaded."@,
            Diagnosis::HighLatency => "High latency, likely congestion or poor routing."@,
            Diagnosis::HighJitter => "High jitter, connection is unstable."@,
            Diagnosis::LowBandwidth => "Low bandwidth, ISP speed is the bottleneck."@,
            Diagnosis::Healthy => "Connection looks healthy."@,
        }
    }

    /// The short key of the diagnosis.
    pub open spec fn status_text(self) -> Seq<char> {
        match self {
            Diagnosis::PacketLoss => "packet_loss"@,
            Diagnosis::SevereBufferbloat => "bufferbloat"@,
            Diagnosis::HighLatency => "high_latency"@,
            Diagnosis::HighJitter => "high_jitter"@,
            Diagnosis::LowBandwidth => "low_bandwidth"@,
            Diagnosis::Healthy => "healthy"@,
        }
    }

    /// The sentence that states the diagnosis.
    pub fn message(&self) -> (r: String)
        ensures
            r@ == self.message_text(),
    {
        match self {
            Diagnosis::PacketLoss => String::from_str("Packet loss detected, connection is unstable."),
            Diagnosis::SevereBufferbloat => String::from_str(
                "Severe bufferbloat, router queue is overloaded.",
            ),
            Diagnosis::HighLatency => String::from_str(
                "High latency, likely congestion or poor routing.",
            ),
            Diagnosis::HighJitter => String::from_str("High jitter, connection is unstable."),
            Diagnosis::LowBandwidth => String::from_str(
                "Low bandwidth, ISP speed is the bottleneck.",
            ),
            Diagnosis::Healthy => String::from_str("Connection looks healthy."),
        }
    }

    /// The short key of the diagnosis, such as `healthy` or `low_bandwidth`.
    pub fn status(&self) -> (r: String)
        ensures
            r@ == self.status_text(),
    {
        match self {
            Diagnosis::PacketLoss => String::from_str("packet_loss"),
            Diagnosis::SevereBufferbloat => String::from_str("bufferbloat"),
            Diagnosis::HighLatency => String::from_str("high_latency"),
            Diagnosis::HighJitter => String::from_str("high_jitter"),
            Diagnosis::LowBandwidth => String::from_str("low_bandwidth"),
            Diagnosis::Healthy => String::from_str("healthy"),
        }
    }
}

/// Law: each diagnosis names a problem the connection really shows, and a
/// more severe problem always wins: connection failures above 5% first,
/// then bufferbloat above 200 ms, then a ping above 100 ms on a link of at
/// least 10 Mbps, then jitter above 30 ms, then a download below 10 Mbps.
pub open spec fn diagnosis_fits(
    d: Diagnosis,
    download_centi_mbps: nat,
    ping_centi_ms: nat,
    jitter_centi_ms: nat,
    loss_deci_pct: nat,
    bloat_centi_ms: nat,
) -> bool {
    let lossy = loss_deci_pct > 50;
    let bloated = bloat_centi_ms > 20_000;
    let slow_ping = ping_centi_ms > 10_000 && download_centi_mbps >= 1_000;
    let jittery = jitter_centi_ms > 3_000;
    let thin = download_centi_mbps < 1_000;
    &&& (d == Diagnosis::PacketLoss <==> lossy)
    &&& (d == Diagnosis::SevereBufferbloat <==> !lossy && bloated)
    &&& (d == Diagnosis::HighLatency <==> !lossy && !bloated && slow_ping)
    &&& (d == Diagnosis::HighJitter <==> !lossy && !bloated && !slow_ping && jittery)
    &&& (d == Diagnosis::LowBandwidth <==> !lossy && !bloated && !slow_ping && !jittery && thin)
    &&& (d == Diagnosis::Healthy <==> !lossy && !bloated && !slow_ping && !jittery && !thin)
    &&& (d == Diagnosis::HighLatency ==> ping_centi_ms > 10_000)
    &&& (d == Diagnosis::HighJitter ==> jitter_centi_ms > 3_000)
    &&& (d == Diagnosis::LowBandwidth ==> download_centi_mbps < 1_000)
}

/// Law: the diagnosis of every connection fits it (see `diagnosis_fits`).
pub proof fn lemma_diagnosis_fits(
    download_centi_mbps: nat,
    ping_centi_ms: nat,
    jitter_centi_ms: nat,
    loss_deci_pct: nat,
    bloat_centi_ms: nat,
)
    ensures
        diagnosis_fits(
            diagnosis_of(
                download_centi_mbps,
                ping_centi_ms,
                jitter_centi_ms,
                loss_deci_pct,
                bloat_centi_ms,
            ),
            download_centi_mbps,
            ping_centi_ms,
            jitter_centi_ms,
            loss_deci_pct,
            bloat_centi_ms,
        ),
{
}

/// Diagnoses a connection from its download speed, ping, jitter,
/// connection-failure rate and bufferbloat.
pub fn diagnose(
    download_centi_mbps: u64,
    ping_centi_ms: u64,
    jitter_centi_ms: u64,
    loss_deci_pct: u64,
    bloat_centi_ms: u64,
) -> (r: Diagnosis)
    ensures
        r == diagnosis_of(
            download_centi_mbps as nat,
            ping_centi_ms as nat,
            jitter_centi_ms as nat,
            loss_deci_pct as nat,
            bloat_centi_ms as nat,
        ),
        diagnosis_fits(
            r,
            download_centi_mbps as nat,
            ping_centi_ms as nat,
            jitter_centi_ms as nat,
            loss_deci_pct as nat,
            bloat_centi_ms as nat,
        ),
{
    proof {
        lemma_diagnosis_fits(
            download_centi_mbps as nat,
            ping_centi_ms as nat,
            jitter_centi_ms as nat,
            loss_deci_pct as nat,
            bloat_centi_ms as nat,
        );
    }
    if loss_deci_pct > 50 {
        Diagnosis::PacketLoss
    } else if bloat_centi_ms > 20_000 {
        Diagnosis::SevereBufferbloat
    } else if ping_centi_ms > 10_000 && download_centi_mbps >= 1_000 {
        Diagnosis::HighLatency
    } else if jitter_centi_ms > 3_000 {
        Diagnosis::HighJitter
    } else if download_centi_mbps < 1_000 {
        Diagnosis::LowBandwidth
    } else {
        Diagnosis::Healthy
    }
}

/// `Packet loss: <rate>%`.
pub open spec fn loss_issue(loss_deci_pct: nat) -> Seq<char> {
    "Packet loss: "@ + short_text(loss_deci_pct * 10) + "%"@
}

/// `Low download: <speed> Mbps`.
pub open spec fn download_issue(download_centi_mbps: nat) -> Seq<char> {
    "Low download: "@ + short_text(download_centi_mbps) + " Mbps"@
}

/// `Low upload: <speed> Mbps`.
pub open spec fn upload_issue(upload_centi_mbps: nat) -> Seq<char> {
    "Low upload: "@ + short_text(upload_centi_mbps) + " Mbps"@
}

/// `High ping: <latency> ms`.
pub open spec fn ping_issue(ping_centi_ms: nat) -> Seq<char> {
    "High ping: "@ + short_text(ping_centi_ms) + " ms"@
}

/// `High jitter: <latency> ms`.
pub open spec fn jitter_issue(jitter_centi_ms: nat) -> Seq<char> {
    "High jitter: "@ + short_text(jitter_centi_ms) + " ms"@
}

/// `Bufferbloat grade: <grade>`.
pub open spec fn grade_issue(g: Grade) -> Seq<char> {
    "Bufferbloat grade: "@ + g.label_text()
}

/// The grade counts as an issue: C, D or F.
pub open spec fn poor_grade(g: Grade) -> bool {
    g == Grade::C || g == Grade::D || g == Grade::F
}

/// The one-element list of `item` when `cond` holds, else the empty list.
pub open spec fn issue_if(cond: bool, item: Seq<char>) -> Seq<Seq<char>> {
    if cond {
        seq![item]
    } else {
        seq![]
    }
}

/// Every issue with the connection, in this order: more than 5% connection
/// failures, download below 25 Mbps, upload below 10 Mbps, ping above
/// 80 ms, jitter above 20 ms, and a bufferbloat grade of C, D or F.
pub open spec fn issues_of(
    download_centi_mbps: nat,
    upload_centi_mbps: nat,
    ping_centi_ms: nat,
    jitter_centi_ms: nat,
    loss_deci_pct: nat,
    g: Grade,
) -> Seq<Seq<char>> {
    issue_if(loss_deci_pct > 50, loss_issue(loss_deci_pct)) + issue_if(
        download_centi_mbps < 2_500,
        download_issue(download_centi_mbps),
    ) + issue_if(upload_centi_mbps < 1_000, upload_issue(upload_centi_mbps)) + issue_if(
        ping_centi_ms > 8_000,
        ping_issue(ping_centi_ms),
    ) + issue_if(jitter_centi_ms > 2_000, jitter_issue(jitter_centi_ms)) + issue_if(
        poor_grade(g),
        grade_issue(g),
    )
}

/// The texts of a list of strings.
pub open spec fn texts(v: Seq<String>) -> Seq<Seq<char>> {
    v.map_values(|s: String| s@)
}

/// Appends `item` to `list`.
fn push_issue(list: &mut Vec<String>, item: String)
    ensures
        texts(final(list)@) == texts(old(list)@) + seq![item@],
{
    list.push(item);
    assert(texts(list@) =~= texts(old(list)@) + seq![item@]);
}

/// One when `cond` holds, zero otherwise.
pub open spec fn one_if(cond: bool) -> nat {
    if cond {
        1
    } else {
        0
    }
}

/// Law: the issue list has one entry for each problem found (connection
/// failures above 5%, download below 25 Mbps, upload below 10 Mbps, ping
/// above 80 ms, jitter above 20 ms, a bufferbloat grade of C, D or F) and
/// no other; a failure rate above 5% is the first entry and a grade of C,
/// D or F the last.
pub proof fn lemma_issues_fit(
    download_centi_mbps: nat,
    upload_centi_mbps: nat,
    ping_centi_ms: nat,
    jitter_centi_ms: nat,
    loss_deci_pct: nat,
    g: Grade,
)
    ensures
        ({
            let list = issues_of(
                download_centi_mbps,
                upload_centi_mbps,
                ping_centi_ms,
                jitter_centi_ms,
                loss_deci_pct,
                g,
            );
            let bad_grade = g == Grade::C || g == Grade::D || g == Grade::F;
            &&& list.len() == one_if(loss_deci_pct > 50) + one_if(download_centi_mbps < 2_500) + one_if(
                upload_centi_mbps < 1_000,
            ) + one_if(ping_centi_ms > 8_000) + one_if(jitter_centi_ms > 2_000) + one_if(bad_grade)
            &&& bad_grade ==> list.last() == "Bufferbloat grade: "@ + g.label_text()
            &&& loss_deci_pct > 50 ==> list[0] == "Packet loss: "@ + short_text(loss_deci_pct * 10)
                + "%"@
            &&& download_centi_mbps < 2_500 ==> list.contains(
                "Low download: "@ + short_text(download_centi_mbps) + " Mbps"@,
            )
        }),
{
    let a = issue_if(loss_deci_pct > 50, loss_issue(loss_deci_pct));
    let b = issue_if(download_centi_mbps < 2_500, download_issue(download_centi_mbps));
    let c = issue_if(upload_centi_mbps < 1_000, upload_issue(upload_centi_mbps));
    let d = issue_if(ping_centi_ms > 8_000, ping_issue(ping_centi_ms));
    let e = issue_if(jitter_centi_ms > 2_000, jitter_issue(jitter_centi_ms));
    let f = issue_if(poor_grade(g), grade_issue(g));
    let list = a + b + c + d + e + f;
    if download_centi_mbps < 2_500 {
        assert(list[a.len() as int] == download_issue(download_centi_mbps));
    }
}

/// Lists the issues with the connection.
pub fn issues(
    download_centi_mbps: u64,
    upload_centi_mbps: u64,
    ping_centi_ms: u64,
    jitter_centi_ms: u64,
    loss_deci_pct: u64,
    g: Grade,
) -> (r: Vec<String>)
    ensures
        texts(r@) == issues_of(
            download_centi_mbps as nat,
            upload_centi_mbps as nat,
            ping_centi_ms as nat,
            jitter_centi_ms as nat,
            loss_deci_pct as nat,
            g,
        ),
        texts(r@).len() == one_if(loss_deci_pct > 50) + one_if(download_centi_mbps < 2_500) + one_if(
            upload_centi_mbps < 1_000,
        ) + one_if(ping_centi_ms > 8_000) + one_if(jitter_centi_ms > 2_000) + one_if(
            g == Grade::C || g == Grade::D || g == Grade::F,
        ),
        g == Grade::C || g == Grade::D || g == Grade::F ==> texts(r@).last() == "Bufferbloat grade: "@
            + g.label_text(),
        loss_deci_pct > 50 ==> texts(r@)[0] == "Packet loss: "@ + short_text(loss_deci_pct as nat * 10)
            + "%"@,
{
    proof {
        lemma_issues_fit(
            download_centi_mbps as nat,
            upload_centi_mbps as nat,
            ping_centi_ms as nat,
            jitter_centi_ms as nat,
            loss_deci_pct as nat,
            g,
        );
    }
    let mut list: Vec<String> = Vec::new();
    assert(texts(list@) =~= seq![]);
    if loss_deci_pct > 50 {
        let mut s = String::from_str("Packet loss: ");
        s.append(short_tenths(loss_deci_pct).as_str());
        s.append("%");
        push_issue(&mut list, s);
    }
    if download_centi_mbps < 2_500 {
        let mut s = String::from_str("Low download: ");
        s.append(short(download_centi_mbps).as_str());
        s.append(" Mbps");
        push_issue(&mut list, s);
    }
    if upload_centi_mbps < 1_000 {
        let mut s = String::from_str("Low upload: ");
        s.append(short(upload_centi_mbps).as_str());
        s.append(" Mbps");
        push_issue(&mut list, s);
    }
    if ping_centi_ms > 8_000 {
        let mut s = String::from_str("High ping: ");
        s.append(short(ping_centi_ms).as_str());
        s.append(" ms");
        push_issue(&mut list, s);
    }
    if jitter_centi_ms > 2_000 {
        let mut s = String::from_str("High jitter: ");
        s.append(short(jitter_centi_ms).as_str());
        s.append(" ms");
        push_issue(&mut list, s);
    }
    if g == Grade::C || g == Grade::D || g == Grade::F {
        let mut s = String::from_str("Bufferbloat grade: ");
        s.append(g.label());
        push_issue(&mut list, s);
    }
    proof {
        let d = download_centi_mbps as nat;
        let u = upload_centi_mbps as nat;
        let p = ping_centi_ms as nat;
        let j = jitter_centi_ms as nat;
        let l = loss_deci_pct as nat;
        assert(texts(list@) =~= issues_of(d, u, p, j, l, g));
    }
    list
}

/// The verdict on a connection.
pub struct VerdictResult {
    /// The short key of the diagnosis.
    pub status: String,
    /// The sentence that states the diagnosis.
    pub summary: String,
    /// Every issue found.
    pub issues: Vec<String>,
}

/// A measured figure, or 0 when it was not measured.
pub open spec fn or_zero(v: Option<u64>) -> nat {
    match v {
        Some(x) => x as nat,
        None => 0,
    }
}

/// The bufferbloat of a probe in hundredths of a millisecond, 0 without one.
pub open spec fn bloat_figure(bb: Option<BufferbloatResult>) -> nat {
    match bb {
        Some(b) => b.delta_centi_ms as nat,
        None => 0,
    }
}

/// The grade of a probe, unrated without one.
pub open spec fn grade_figure(bb: Option<BufferbloatResult>) -> Grade {
    match bb {
        Some(b) => b.grade,
        None => Grade::Unrated,
    }
}

/// The probe behind an optional reference.
pub open spec fn probe_value(bb: Option<&BufferbloatResult>) -> Option<BufferbloatResult> {
    match bb {
        Some(b) => Some(*b),
        None => None,
    }
}

/// The diagnosis that `analyze` gives.
pub open spec fn verdict_diagnosis(result: SpeedTestResult, bb: Option<BufferbloatResult>) -> Diagnosis {
    diagnosis_of(
        result.download_centi_mbps as nat,
        or_zero(result.ping_centi_ms),
        or_zero(result.jitter_centi_ms),
        result.packet_loss_deci_pct as nat,
        bloat_figure(bb),
    )
}

/// The issues that `analyze` lists.
pub open spec fn verdict_issues(result: SpeedTestResult, bb: Option<BufferbloatResult>) -> Seq<Seq<char>> {
    issues_of(
        result.download_centi_mbps as nat,
        or_zero(result.upload_centi_mbps),
        or_zero(result.ping_centi_ms),
        or_zero(result.jitter_centi_ms),
        result.packet_loss_deci_pct as nat,
        grade_figure(bb),
    )
}

/// Judges a speed test and its optional bufferbloat probe. Figures that were
/// not measured count as 0; without a probe there is no bufferbloat and the
/// grade is unrated.
pub fn analyze(result: &SpeedTestResult, bufferbloat: Option<&BufferbloatResult>) -> (r: VerdictResult)
    ensures
        r.status@ == verdict_diagnosis(*result, probe_value(bufferbloat)).status_text(),
        r.summary@ == verdict_diagnosis(*result, probe_value(bufferbloat)).message_text(),
        texts(r.issues@) == verdict_issues(*result, probe_value(bufferbloat)),
{
    let download = result.download_centi_mbps;
    let upload = match result.upload_centi_mbps {
        Some(v) => v,
        None => 0,
    };
    let ping = match result.ping_centi_ms {
        Some(v) => v,
        None => 0,
    };
    let jitter = match result.jitter_centi_ms {
        Some(v) => v,
        None => 0,
    };
    let loss = result.packet_loss_deci_pct;
    let (bloat, g) = match bufferbloat {
        Some(b) => (b.delta_centi_ms, b.grade),
        None => (0, Grade::Unrated),
    };
    let d = diagnose(download, ping, jitter, loss, bloat);
    VerdictResult { status: d.status(), summary: d.message(), issues: issues(download, upload, ping, jitter, loss, g) }
}

/// Law: a connection is called healthy exactly when it shows none of the
/// five problems the diagnosis looks for.
pub proof fn lemma_healthy_iff_no_problem(
    download_centi_mbps: nat,
    ping_centi_ms: nat,
    jitter_centi_ms: nat,
    loss_deci_pct: nat,
    bloat_centi_ms: nat,
)
    ensures
        diagnosis_of(
            download_centi_mbps,
            ping_centi_ms,
            jitter_centi_ms,
            loss_deci_pct,
            bloat_centi_ms,
        ) == Diagnosis::Healthy <==> (loss_deci_pct <= 50 && bloat_centi_ms <= 20_000
            && jitter_centi_ms <= 3_000 && download_centi_mbps >= 1_000 && ping_centi_ms <= 10_000),
{
}

/// Law: connection failures are diagnosed exactly when they also head the
/// list of issues, and a low-bandwidth diagnosis always comes with a
/// low-download issue.
pub proof fn lemma_verdict_consistent(result: SpeedTestResult, bb: Option<BufferbloatResult>)
    ensures
        (verdict_diagnosis(result, bb) == Diagnosis::PacketLoss) <==> (verdict_issues(result, bb).len()
            > 0 && verdict_issues(result, bb)[0] == loss_issue(result.packet_loss_deci_pct as nat)),
        verdict_diagnosis(result, bb) == Diagnosis::LowBandwidth ==> verdict_issues(result, bb).contains(
            download_issue(result.download_centi_mbps as nat),
        ),
{
    let issues = verdict_issues(result, bb);
    let loss = result.packet_loss_deci_pct as nat;
    let dl = result.download_centi_mbps as nat;
    reveal_strlit("Packet loss: ");
    reveal_strlit("Low download: ");
    reveal_strlit("Low upload: ");
    reveal_strlit("High ping: ");
    reveal_strlit("High jitter: ");
    reveal_strlit("Bufferbloat grade: ");
    if loss > 50 {
        assert(issues[0] == loss_issue(loss));
    } else if issues.len() > 0 {
        assert(issues[0][0] != 'P' || issues[0][1] != 'a') by {
            let first = issues[0];
            if dl < 2_500 {
                assert(first == download_issue(dl));
                assert(first[0] == 'L');
            } else if or_zero(result.upload_centi_mbps) < 1_000 {
                assert(first[0] == 'L');
            } else if or_zero(result.ping_centi_ms) > 8_000 {
                assert(first[0] == 'H');
            } else if or_zero(result.jitter_centi_ms) > 2_000 {
                assert(first[0] == 'H');
            } else {
                assert(first[0] == 'B');
            }
        }
        assert(loss_issue(loss)[0] == 'P' && loss_issue(loss)[1] == 'a');
    }
    if verdict_diagnosis(result, bb) == Diagnosis::LowBandwidth {
        let head = issue_if(loss > 50, loss_issue(loss));
        assert(head.len() == 0);
        assert(issues[0] == download_issue(dl));
    }
}

} // verus!
