//! Probe statistics, target classification, and measurement assembly.

use netpulse::{
    classify_target, DnsMeasurement, HttpMeasurement, Measurement, MeasurementResult,
    MeasurementType, PingMeasurement, PrivacyLayer, TargetClass,
};

#[test]
fn classify_http_scheme() {
    assert_eq!(classify_target("https://example.com"), TargetClass::Http);
    assert_eq!(classify_target("http://example.com/x"), TargetClass::Http);
}

#[test]
fn classify_dotted_without_slash() {
    assert_eq!(classify_target("example.com"), TargetClass::PingAndDns);
    assert_eq!(classify_target("10.0.0.5"), TargetClass::PingAndDns);
}

#[test]
fn classify_unknown() {
    assert_eq!(classify_target("localhost"), TargetClass::Unknown);
    assert_eq!(classify_target("example.com/path"), TargetClass::Unknown);
    assert_eq!(classify_target(""), TargetClass::Unknown);
}

#[test]
fn classify_bare_ipv6_literal_is_unknown() {
    // No dot: a bare IPv6 literal matches neither rule and gets no probe.
    assert_eq!(classify_target("::1"), TargetClass::Unknown);
    assert_eq!(classify_target("fe80::1"), TargetClass::Unknown);
}

#[test]
fn ping_average_and_loss() {
    let probe = PingMeasurement::new(String::from("10.0.0.5"));
    let replies = vec![Some(10_000u64), Some(20_000), None, Some(30_000)];
    let (avg, loss) = probe.summarize(&replies);
    assert_eq!(avg, 20_000);
    assert_eq!(loss, 25);
}

#[test]
fn ping_all_lost_is_data_not_error() {
    let probe = PingMeasurement::new(String::from("10.0.0.5"));
    let replies = vec![None, None, None, None];
    let (avg, loss) = probe.summarize(&replies);
    assert_eq!(avg, 0);
    assert_eq!(loss, 100);
}

#[test]
fn ping_loss_exact_for_each_success_count() {
    let probe = PingMeasurement::new(String::from("10.0.0.5"));
    for k in 0..=4usize {
        let mut replies: Vec<Option<u64>> = Vec::new();
        for i in 0..4 {
            replies.push(if i < k { Some(1_000) } else { None });
        }
        let (_, loss) = probe.summarize(&replies);
        // (N - K) / N * 100, exactly.
        assert_eq!(loss as usize, (4 - k) * 100 / 4);
        assert_eq!(loss as usize * 4, (4 - k) * 100);
    }
}

#[test]
fn dns_outcome_needs_an_address() {
    let probe = DnsMeasurement::new(String::from("example.com"));
    assert_eq!(probe.summarize(15_000, 2), (15_000, true));
    assert_eq!(probe.summarize(15_000, 0), (15_000, false));
}

#[test]
fn http_success_is_2xx() {
    let probe = HttpMeasurement::new(String::from("https://example.com"));
    assert_eq!(probe.summarize(120_400, 200), (120_400, 200, true));
    assert_eq!(probe.summarize(120_400, 299), (120_400, 299, true));
    assert_eq!(probe.summarize(120_400, 300), (120_400, 300, false));
    assert_eq!(probe.summarize(120_400, 404), (120_400, 404, false));
    assert_eq!(probe.summarize(9_999, 0), (9_999, 0, false));
}

#[test]
fn http_measurement_privatizes_time_only() {
    // End to end: https://example.com answers 200 in 120.4 time units.
    let privacy = PrivacyLayer::new(1_000_000, 1_000_000).unwrap();
    let probe = HttpMeasurement::new(String::from("https://example.com"));
    let (elapsed, status, success) = probe.summarize(120_400_000, 200);
    assert!(success);
    let m = Measurement::http(&privacy, "https://example.com", elapsed as i64, status, success);
    assert_eq!(m.measurement_type, MeasurementType::Http);
    assert_eq!(m.target, "https://example.com");
    assert_eq!(m.id.len(), 36);
    match m.result {
        MeasurementResult::Http { response_time_micros, status_code, success } => {
            // The stored duration differs from the raw one, while the
            // categorical fields pass through unchanged.
            assert_ne!(response_time_micros, 120_400_000);
            assert_eq!(status_code, 200);
            assert!(success);
        }
        _ => panic!("wrong variant"),
    }
}

#[test]
fn both_probes_run_on_a_bare_address() {
    // A literal address classifies as ping-and-DNS; resolving it fails
    // (no address records) while the elapsed time is still reported, and
    // the ping side succeeds normally.
    let privacy = PrivacyLayer::new(1_000_000, 1_000_000).unwrap();
    let target = "10.0.0.5";
    assert_eq!(classify_target(target), TargetClass::PingAndDns);

    let dns = DnsMeasurement::new(String::from(target));
    let (dns_elapsed, dns_ok) = dns.summarize(2_300_000, 0);
    assert!(!dns_ok);
    assert_eq!(dns_elapsed, 2_300_000);
    let dns_m = Measurement::dns(&privacy, target, dns_elapsed as i64, dns_ok);
    assert_eq!(dns_m.measurement_type, MeasurementType::Dns);
    match dns_m.result {
        MeasurementResult::Dns { success, .. } => assert!(!success),
        _ => panic!("wrong variant"),
    }

    let ping = PingMeasurement::new(String::from(target));
    let (avg, loss) = ping.summarize(&vec![Some(5_000), Some(7_000), Some(6_000), Some(6_000)]);
    assert_eq!(avg, 6_000);
    assert_eq!(loss, 0);
    let ping_m = Measurement::ping(&privacy, target, avg as i64, loss);
    match ping_m.result {
        MeasurementResult::Ping { packet_loss_pct, .. } => assert_eq!(packet_loss_pct, 0),
        _ => panic!("wrong variant"),
    }
}
