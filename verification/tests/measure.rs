use tracerate::info::merge_info;
use tracerate::info::split_org;
use tracerate::info::Colo;
use tracerate::info::EdgeMeta;
use tracerate::info::IpInfoResponse;
use tracerate::regional::best_latency;
use tracerate::regional::regions;
use tracerate::tester::cloudflare;
use tracerate::tester::parse_output_format;
use tracerate::tester::ping_summary;
use tracerate::tester::test_plan;
use tracerate::tester::transfer_result;
use tracerate::tester::OutputFormat;
use tracerate::tester::TestPlan;
use tracerate::text::decimal;
use tracerate::text::fixed1;
use tracerate::text::fixed2;
use tracerate::text::short;
use tracerate::text::short_tenths;
use tracerate::util::bytes_to_centi_mbps;
use tracerate::util::bytes_to_centi_mib;
use tracerate::util::bytes_to_deci_mib;
use tracerate::util::micros_to_centi_ms;

#[test]
fn decimal_numerals() {
    assert_eq!(decimal(0), "0");
    assert_eq!(decimal(7), "7");
    assert_eq!(decimal(1_000_203), "1000203");
    assert_eq!(decimal(u128::MAX), u128::MAX.to_string());
}

#[test]
fn fixed_point_texts() {
    assert_eq!(fixed2(0), "0.00");
    assert_eq!(fixed2(1_234), "12.34");
    assert_eq!(fixed2(1_205), "12.05");
    assert_eq!(fixed1(3), "0.3");
    assert_eq!(fixed1(125), "12.5");
}

#[test]
fn short_texts_drop_trailing_zeros() {
    assert_eq!(short(0), "0");
    assert_eq!(short(1_200), "12");
    assert_eq!(short(1_250), "12.5");
    assert_eq!(short(1_234), "12.34");
    assert_eq!(short(5), "0.05");
    assert_eq!(short_tenths(75), "7.5");
    assert_eq!(short_tenths(1_000), "100");
}

#[test]
fn micros_round_to_hundredths_of_ms() {
    assert_eq!(micros_to_centi_ms(0), 0);
    assert_eq!(micros_to_centi_ms(12_344), 1_234);
    assert_eq!(micros_to_centi_ms(12_345), 1_235);
    assert_eq!(micros_to_centi_ms(u64::MAX), u64::MAX / 10 + 1);
}

#[test]
fn throughput_in_hundredths_of_mbps() {
    // one megabyte in one second is 8 Mbps
    assert_eq!(bytes_to_centi_mbps(1_000_000, 1_000_000), 800);
    assert_eq!(bytes_to_centi_mbps(1_000_000, 0), 0);
    assert_eq!(bytes_to_centi_mbps(125_000_000, 10_000_000), 10_000);
    assert_eq!(bytes_to_centi_mbps(u64::MAX, 1), u64::MAX);
}

#[test]
fn mebibyte_conversions() {
    assert_eq!(bytes_to_centi_mib(1_048_576), 100);
    assert_eq!(bytes_to_centi_mib(524_288), 50);
    assert_eq!(bytes_to_deci_mib(1_048_576), 10);
    // 0.25 MiB is shown as 0.2: halves go to even
    assert_eq!(bytes_to_deci_mib(262_144), 2);
}

#[test]
fn ping_without_answers_is_total_failure() {
    assert_eq!(ping_summary(5, &[]), (None, 1_000, None));
    assert_eq!(ping_summary(0, &[]), (None, 1_000, None));
}

#[test]
fn ping_statistics() {
    // 10, 12, 14 ms answered out of 5: mean 12 ms, 40% failed, jitter 4 ms
    assert_eq!(ping_summary(5, &[10_000, 14_000, 12_000]), (Some(1_200), 400, Some(400)));
    assert_eq!(ping_summary(3, &[10_004, 10_005, 10_006]), (Some(1_001), 0, Some(0)));
    // one of three failed: 33.3%
    assert_eq!(ping_summary(3, &[1_000, 1_000]), (Some(100), 333, Some(0)));
}

#[test]
fn transfer_results() {
    assert_eq!(transfer_result(0, 15_000_000), (0, 0));
    assert_eq!(transfer_result(1_000, 0), (0, 0));
    assert_eq!(transfer_result(187_500_000, 15_000_000), (10_000, 187_500_000));
}

#[test]
fn regional_best_latency() {
    assert_eq!(best_latency(&[]), 0);
    assert_eq!(best_latency(&[25_004, 20_006, 30_000]), 2_001);
}

#[test]
fn regional_servers() {
    let r = regions();
    assert_eq!(r.len(), 10);
    assert_eq!(r[0].code, "IN");
    assert_eq!(r[6].city, "Fremont/Seattle (US West)");
    assert_eq!(r[7].host, "speedtest.sydney.linode.com");
    assert_eq!(r[8].city, "Toronto (Canada)");
    assert_eq!(r[9].host, "speedtest.dallas.linode.com");
}

#[test]
fn cloudflare_endpoint() {
    let s = cloudflare();
    assert_eq!(s.name, "Cloudflare");
    assert_eq!(s.host, "speed.cloudflare.com");
    assert_eq!(s.port, 443);
    assert_eq!(s.download_url, "https://speed.cloudflare.com/__down?bytes={bytes}");
}

#[test]
fn plans_and_formats() {
    assert_eq!(test_plan(true, 30_000), TestPlan { duration_ms: 10_000, upload: false, extras: false });
    assert_eq!(test_plan(false, 30_000), TestPlan { duration_ms: 30_000, upload: true, extras: true });
    assert_eq!(parse_output_format("pretty"), Some(OutputFormat::Pretty));
    assert_eq!(parse_output_format("json"), Some(OutputFormat::Json));
    assert_eq!(parse_output_format("xml"), None);
    assert_eq!(parse_output_format("Json"), None);
}

#[test]
fn organisation_strings_are_split() {
    let (asn, isp) = split_org("AS13335 Cloudflare, Inc.".to_string());
    assert_eq!(asn.as_deref(), Some("AS13335"));
    assert_eq!(isp.as_deref(), Some("Cloudflare, Inc."));
    let (asn, isp) = split_org("Example ISP".to_string());
    assert_eq!(asn, None);
    assert_eq!(isp.as_deref(), Some("Example ISP"));
    let (asn, isp) = split_org("AS64500".to_string());
    assert_eq!(asn, None);
    assert_eq!(isp.as_deref(), Some("AS64500"));
}

fn edge() -> EdgeMeta {
    EdgeMeta {
        colo: Colo::Site { iata: Some("FRA".to_string()), city: Some("Frankfurt".to_string()) },
        as_organization: Some("Edge Org".to_string()),
        asn: Some(3320),
        city: Some("Berlin".to_string()),
        country: Some("DE".to_string()),
        client_ip: Some("192.0.2.7".to_string()),
    }
}

#[test]
fn lookup_takes_precedence_over_edge() {
    let lookup = IpInfoResponse {
        ip: Some("198.51.100.1".to_string()),
        city: None,
        country: Some("NL".to_string()),
        org: Some("AS1136 KPN B.V.".to_string()),
    };
    let info = merge_info(Some(lookup), Some(edge()));
    assert_eq!(info.ip.as_deref(), Some("198.51.100.1"));
    assert_eq!(info.isp.as_deref(), Some("KPN B.V."));
    assert_eq!(info.asn.as_deref(), Some("AS1136"));
    assert_eq!(info.city.as_deref(), Some("Berlin"));
    assert_eq!(info.country.as_deref(), Some("NL"));
    assert_eq!(info.colo.as_deref(), Some("FRA"));
    assert_eq!(info.colo_city.as_deref(), Some("Frankfurt"));
}

#[test]
fn edge_fills_in_without_lookup() {
    let info = merge_info(None, Some(edge()));
    assert_eq!(info.ip.as_deref(), Some("192.0.2.7"));
    assert_eq!(info.isp.as_deref(), Some("Edge Org"));
    assert_eq!(info.asn.as_deref(), Some("AS3320"));
    let mut bare = edge();
    bare.colo = Colo::Code("AMS".to_string());
    let info = merge_info(None, Some(bare));
    assert_eq!(info.colo.as_deref(), Some("AMS"));
    assert_eq!(info.colo_city, None);
}

#[test]
fn nothing_known_without_sources() {
    let info = merge_info(None, None);
    assert!(info.ip.is_none() && info.isp.is_none() && info.city.is_none());
    assert!(info.country.is_none() && info.asn.is_none());
    assert!(info.colo.is_none() && info.colo_city.is_none());
}
