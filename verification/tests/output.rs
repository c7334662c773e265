use tracerate::bufferbloat::Grade;
use tracerate::bufferbloat::BufferbloatResult;
use tracerate::bufferbloat::Grade as BloatGrade;
use tracerate::output::bar;
use tracerate::output::data_line;
use tracerate::output::region_row;
use tracerate::output::speed_rows;
use tracerate::verdict::SpeedTestResult;
use tracerate::output::dns_tone;
use tracerate::output::edge_place;
use tracerate::output::field_or;
use tracerate::output::fmt_data_used;
use tracerate::output::fmt_failures;
use tracerate::output::fmt_ms;
use tracerate::output::fmt_ratio;
use tracerate::output::fmt_region_ms;
use tracerate::output::fmt_speed;
use tracerate::output::fmt_volume;
use tracerate::output::grade_tone;
use tracerate::output::latency_tone;
use tracerate::output::progress_message;
use tracerate::output::progress_position;
use tracerate::output::region_order;
use tracerate::output::region_scale;
use tracerate::output::speed_scale;
use tracerate::output::split_city;
use tracerate::output::verdict_mark;
use tracerate::output::Tone;
use tracerate::regional::RegionResult;

#[test]
fn bars() {
    assert_eq!(bar(50, 100, 10), "▰▰▰▰▰▱▱▱▱▱");
    assert_eq!(bar(0, 100, 4), "▱▱▱▱");
    assert_eq!(bar(500, 100, 4), "▰▰▰▰");
    assert_eq!(bar(7, 0, 3), "▱▱▱");
    // 1/8 of 12 cells is 1.5, rounded up
    assert_eq!(bar(1, 8, 12), "▰▰▱▱▱▱▱▱▱▱▱▱");
    for v in 0..300 {
        assert_eq!(bar(v, 200, 20).chars().count(), 20);
    }
}

#[test]
fn speeds() {
    assert_eq!(fmt_speed(8_530), "85.30 Mbps");
    assert_eq!(fmt_speed(99_999), "999.99 Mbps");
    assert_eq!(fmt_speed(100_000), "1.00 Gbps");
    assert_eq!(fmt_speed(245_678), "2.46 Gbps");
    assert_eq!(speed_scale(8_530, 1_270), 10_000);
    assert_eq!(speed_scale(8_530, 12_700), 12_700);
}

#[test]
fn figures() {
    assert_eq!(fmt_ms(1_234), "12.34 ms");
    assert_eq!(fmt_volume(134_217_728), "(128.0 MB)");
    assert_eq!(fmt_data_used(12_345), "123.4 MB used");
    assert_eq!(fmt_ratio(1_270, 8_530), "↑/↓ 0.15x");
    assert_eq!(fmt_ratio(1_270, 0), "↑/↓ 0.00x");
    assert_eq!(fmt_failures(0), ("· 0% conn. fail".to_string(), Tone::Green));
    assert_eq!(fmt_failures(200), ("· 20.0% conn. fail".to_string(), Tone::Red));
    assert_eq!(fmt_region_ms(4_249), " 42 ms");
    assert_eq!(fmt_region_ms(450), "  4 ms");
    assert_eq!(fmt_region_ms(123_456), "1235 ms");
}

#[test]
fn tones() {
    assert_eq!(dns_tone(4_999), Tone::Cyan);
    assert_eq!(dns_tone(5_000), Tone::Yellow);
    assert_eq!(dns_tone(15_000), Tone::Red);
    assert_eq!(latency_tone(7_999), Tone::Cyan);
    assert_eq!(latency_tone(17_999), Tone::Yellow);
    assert_eq!(latency_tone(18_000), Tone::Red);
    assert_eq!(grade_tone(Grade::APlus), Tone::Green);
    assert_eq!(grade_tone(Grade::B), Tone::Cyan);
    assert_eq!(grade_tone(Grade::D), Tone::Yellow);
    assert_eq!(grade_tone(Grade::F), Tone::Red);
    assert_eq!(grade_tone(Grade::Unrated), Tone::Dim);
}

#[test]
fn verdict_marks() {
    assert_eq!(verdict_mark(&"healthy".to_string()), ("✔", Tone::Green));
    assert_eq!(verdict_mark(&"low_bandwidth".to_string()), ("⚠", Tone::Yellow));
    assert_eq!(verdict_mark(&"packet_loss".to_string()), ("✘", Tone::Red));
}

fn row(code: &str, ms: u64) -> RegionResult {
    RegionResult { code: code.to_string(), city: String::new(), host: String::new(), centi_ms: ms }
}

#[test]
fn regions_fastest_first_timeouts_last() {
    let rows = vec![row("A", 0), row("B", 9_000), row("C", 3_000), row("D", 9_000), row("E", 0), row("F", 25_000)];
    assert_eq!(region_order(&rows), vec![2, 1, 3, 5, 0, 4]);
    assert_eq!(region_scale(&rows), 25_000);
    assert_eq!(region_scale(&rows[..4]), 20_000);
    assert!(region_order(&[]).is_empty());
}

#[test]
fn city_labels() {
    let (c, r) = split_city("Mumbai (South Asia)");
    assert_eq!((c.as_str(), r.as_str()), ("Mumbai", "South Asia"));
    let (c, r) = split_city("Fremont/Seattle (US West)");
    assert_eq!((c.as_str(), r.as_str()), ("Fremont/Seattle", "US West"));
    let (c, r) = split_city("Nowhere");
    assert_eq!((c.as_str(), r.as_str()), ("Nowhere", ""));
    let (c, r) = split_city("A (B (C)))");
    assert_eq!((c.as_str(), r.as_str()), ("A", "B (C"));
}

#[test]
fn connection_fields() {
    assert_eq!(field_or(&None, "unknown"), "unknown");
    assert_eq!(field_or(&Some("KPN".to_string()), "unknown"), "KPN");
    assert_eq!(edge_place(&Some("FRA".to_string()), &Some("Frankfurt".to_string())), "(Frankfurt)");
    assert_eq!(edge_place(&Some("FRA".to_string()), &Some(String::new())), "(FRA)");
    assert_eq!(edge_place(&None, &None), "(?)");
}

#[test]
fn progress() {
    assert_eq!(progress_position(0, 15_000_000), 0);
    assert_eq!(progress_position(7_500_000, 15_000_000), 500);
    assert_eq!(progress_position(16_000_000, 15_000_000), 1000);
    assert_eq!(progress_position(5, 0), 1000);
    assert_eq!(progress_message(1, 0), None);
    assert_eq!(progress_message(12_500_000, 2_000_000).as_deref(), Some("50.00 Mbps  2.0s"));
}

fn speeds_of(upload: Option<u64>, combined: Option<(u64, u64)>) -> SpeedTestResult {
    SpeedTestResult {
        ping_centi_ms: Some(1_000),
        packet_loss_deci_pct: 0,
        jitter_centi_ms: Some(50),
        download_centi_mbps: 8_530,
        download_bytes: 134_217_728,
        upload_centi_mbps: upload,
        upload_bytes: 67_108_864,
        combined_download_centi_mbps: combined.map(|c| c.0),
        combined_upload_centi_mbps: combined.map(|c| c.1),
        combined_bytes: 201_326_592,
    }
}

#[test]
fn speed_rows_follow_what_was_measured() {
    let rows = speed_rows(&speeds_of(None, None));
    assert_eq!(rows.len(), 1);
    assert_eq!(rows[0].label, "Download");
    assert_eq!(rows[0].speed, "85.30 Mbps");
    assert_eq!(rows[0].volume, "(128.0 MB)");
    assert_eq!(rows[0].bar, bar(8_530, 10_000, 20));
    assert!(rows[0].ratio.is_none());

    let rows = speed_rows(&speeds_of(Some(1_270), None));
    assert_eq!(rows.len(), 2);
    assert_eq!(rows[1].label, "Upload");
    assert_eq!(rows[1].volume, "(64.0 MB)");
    assert_eq!(rows[1].ratio.as_deref(), Some("↑/↓ 0.15x"));

    let rows = speed_rows(&speeds_of(Some(1_270), Some((8_000, 1_000))));
    assert_eq!(rows.len(), 3);
    assert_eq!(rows[2].label, "Combined");
    assert_eq!(rows[2].speed, "90.00 Mbps");
    assert_eq!(rows[2].bar, bar(9_000, 20_000, 20));
    assert_eq!(rows[2].volume, "(192.0 MB)");

    // one combined figure alone shows no combined row
    let mut half = speeds_of(None, Some((8_000, 1_000)));
    half.combined_upload_centi_mbps = None;
    assert_eq!(speed_rows(&half).len(), 1);

    // sums beyond a u64 are capped
    let rows = speed_rows(&speeds_of(None, Some((u64::MAX, 5))));
    assert_eq!(rows[1].bar, bar(u64::MAX, 20_000, 20));
}

#[test]
fn data_line_only_when_verbose() {
    let bb = BufferbloatResult {
        idle_centi_ms: 1_000,
        loaded_centi_ms: 2_000,
        delta_centi_ms: 1_000,
        grade: BloatGrade::A,
        data_used_centi_mib: 12_345,
    };
    assert_eq!(data_line(&bb, true).as_deref(), Some("123.4 MB used"));
    assert_eq!(data_line(&bb, false), None);
}

#[test]
fn region_rows() {
    let mut r = row("IN", 4_249);
    r.city = "Mumbai (South Asia)".to_string();
    let line = region_row(&r, 20_000);
    assert_eq!(line.city, "Mumbai");
    assert_eq!(line.region, "South Asia");
    assert_eq!(line.bar, bar(4_249, 20_000, 12));
    assert_eq!(line.bar_tone, Tone::Cyan);
    assert_eq!(line.latency, " 42 ms");
    assert_eq!(line.latency_tone, Tone::Cyan);

    let slow = region_row(&row("AU", 25_000), 25_000);
    assert_eq!(slow.bar, "▰".repeat(12));
    assert_eq!(slow.latency_tone, Tone::Red);

    let lost = region_row(&row("GB", 0), 20_000);
    assert_eq!(lost.bar, "▱".repeat(12));
    assert_eq!(lost.bar_tone, Tone::Dim);
    assert_eq!(lost.latency, "timeout");
    assert_eq!(lost.latency_tone, Tone::Dim);
}
