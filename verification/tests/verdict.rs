use tracerate::bufferbloat::BufferbloatResult;
use tracerate::bufferbloat::Grade;
use tracerate::verdict::analyze;
use tracerate::verdict::diagnose;
use tracerate::verdict::issues;
use tracerate::verdict::Diagnosis;
use tracerate::verdict::SpeedTestResult;

fn result(download: u64, upload: Option<u64>, ping: Option<u64>, jitter: Option<u64>, loss: u64) -> SpeedTestResult {
    SpeedTestResult {
        ping_centi_ms: ping,
        packet_loss_deci_pct: loss,
        jitter_centi_ms: jitter,
        download_centi_mbps: download,
        download_bytes: 0,
        upload_centi_mbps: upload,
        upload_bytes: 0,
        combined_download_centi_mbps: None,
        combined_upload_centi_mbps: None,
        combined_bytes: 0,
    }
}

#[test]
fn diagnosis_priority() {
    assert_eq!(diagnose(5_000, 20_000, 5_000, 60, 30_000), Diagnosis::PacketLoss);
    assert_eq!(diagnose(5_000, 20_000, 5_000, 50, 30_000), Diagnosis::SevereBufferbloat);
    assert_eq!(diagnose(5_000, 20_000, 5_000, 50, 20_000), Diagnosis::HighLatency);
    assert_eq!(diagnose(500, 20_000, 5_000, 0, 0), Diagnosis::HighJitter);
    assert_eq!(diagnose(500, 20_000, 3_000, 0, 0), Diagnosis::LowBandwidth);
    assert_eq!(diagnose(1_000, 10_000, 3_000, 50, 20_000), Diagnosis::Healthy);
}

#[test]
fn diagnosis_texts() {
    assert_eq!(Diagnosis::Healthy.message(), "Connection looks healthy.");
    assert_eq!(Diagnosis::LowBandwidth.message(), "Low bandwidth, ISP speed is the bottleneck.");
    assert_eq!(Diagnosis::PacketLoss.status(), "packet_loss");
    assert_eq!(Diagnosis::Healthy.status(), "healthy");
}

#[test]
fn every_issue_in_order() {
    let list = issues(1_250, 830, 9_000, 2_550, 75, Grade::D);
    assert_eq!(
        list,
        vec![
            "Packet loss: 7.5%",
            "Low download: 12.5 Mbps",
            "Low upload: 8.3 Mbps",
            "High ping: 90 ms",
            "High jitter: 25.5 ms",
            "Bufferbloat grade: D",
        ]
    );
}

#[test]
fn no_issue_on_a_good_line() {
    assert!(issues(50_000, 20_000, 1_500, 100, 0, Grade::A).is_empty());
    assert!(issues(2_500, 1_000, 8_000, 2_000, 50, Grade::B).is_empty());
}

#[test]
fn analyze_without_probe() {
    let v = analyze(&result(10_000, None, None, None, 0), None);
    assert_eq!(v.status, "healthy");
    assert_eq!(v.summary, "Connection looks healthy.");
    // a missing upload counts as 0 Mbps
    assert_eq!(v.issues, vec!["Low upload: 0 Mbps"]);
}

#[test]
fn analyze_with_probe() {
    let bb = BufferbloatResult {
        idle_centi_ms: 1_000,
        loaded_centi_ms: 31_000,
        delta_centi_ms: 30_000,
        grade: Grade::D,
        data_used_centi_mib: 12_000,
    };
    let v = analyze(&result(10_000, Some(5_000), Some(1_200), Some(80), 0), Some(&bb));
    assert_eq!(v.status, "bufferbloat");
    assert_eq!(v.summary, "Severe bufferbloat, router queue is overloaded.");
    assert_eq!(v.issues, vec!["Bufferbloat grade: D"]);
}

#[test]
fn packet_loss_leads_both() {
    let v = analyze(&result(100_000, Some(100_000), Some(1_000), Some(100), 1_000), None);
    assert_eq!(v.status, "packet_loss");
    assert_eq!(v.issues[0], "Packet loss: 100%");
}
