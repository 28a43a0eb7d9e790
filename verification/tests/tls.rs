use boab::model::asset::PqcStatus;
use boab::model::scan::ScanStatus;
use boab::scanners::cert::pqc_status_for_sig_alg;
use boab::scanners::tls::{
    delay_after_target, group_name, handshake_findings, is_hybrid_group, new_tls_scan,
    parse_rate_limit, parse_target, record_handshakes, targets_to_scan, HandshakeResult,
    TlsOptions,
};

/// Rate-limit pauses are in milliseconds.
#[test]
fn rate_limit_parses() {
    assert_eq!(parse_rate_limit("1/second"), Some(1000));
    assert_eq!(parse_rate_limit("2/sec"), Some(500));
    assert_eq!(parse_rate_limit("60/minute"), Some(1000));
    assert!(parse_rate_limit("garbage").is_none());
    assert!(parse_rate_limit("0/second").is_none());
}

#[test]
fn rate_limit_trims_and_rejects_unknown_units() {
    assert_eq!(parse_rate_limit(" 4 / s "), Some(250));
    assert_eq!(parse_rate_limit("3/min"), Some(20000));
    assert!(parse_rate_limit("1/hour").is_none());
    assert!(parse_rate_limit("-1/second").is_none());
}

#[test]
fn parse_target_works() {
    let (h, p) = parse_target("example.com:443").unwrap();
    assert_eq!(h, "example.com");
    assert_eq!(p, 443);
    assert!(parse_target("no-port").is_err());
    assert!(parse_target("bad:port").is_err());
}

#[test]
fn parse_target_errors_name_the_target() {
    assert_eq!(
        parse_target("no-port").unwrap_err().message(),
        "target must be host:port, got no-port"
    );
    assert_eq!(
        parse_target("h:99999").unwrap_err().message(),
        "invalid port in target h:99999: number too large to fit in target type"
    );
    let (h, p) = parse_target("[::1]:8443").unwrap();
    assert_eq!(h, "[::1]");
    assert_eq!(p, 8443);
}

#[test]
fn hybrid_groups_classified() {
    assert!(is_hybrid_group(0x11EC));
    assert!(is_hybrid_group(0x6399));
    assert!(!is_hybrid_group(0x001D));
    assert_eq!(group_name(0x11EC), "X25519MLKEM768");
    assert_eq!(group_name(0x001D), "x25519");
    assert_eq!(group_name(0x1234), "unknown");
}

#[test]
fn pqc_status_classification() {
    assert!(matches!(pqc_status_for_sig_alg("sha1WithRSAEncryption"), PqcStatus::Vulnerable));
    assert!(matches!(pqc_status_for_sig_alg("ecdsa-with-SHA256"), PqcStatus::Vulnerable));
    assert!(matches!(pqc_status_for_sig_alg("ML-DSA-65"), PqcStatus::Resistant));
    assert!(matches!(pqc_status_for_sig_alg("1.2.3.4"), PqcStatus::Unknown));
}

#[test]
fn probe_hsts_rejected_in_air_gapped_mode() {
    let mut opts = TlsOptions::default();
    opts.probe_hsts = true;
    opts.air_gapped = true;
    let err = targets_to_scan(&vec!["example.com:443".to_string()], &opts).unwrap_err();
    assert!(err.message().contains("air-gapped"));
}

#[test]
fn excluded_targets_are_skipped() {
    let mut opts = TlsOptions::default();
    opts.exclude = vec!["b:443".to_string()];
    let t = targets_to_scan(
        &vec!["a:443".to_string(), "b:443".to_string(), "c:443".to_string()],
        &opts,
    )
    .unwrap();
    assert_eq!(t, vec!["a:443".to_string(), "c:443".to_string()]);
}

#[test]
fn default_pace_is_one_second() {
    let mut opts = TlsOptions::default();
    assert_eq!(delay_after_target(&opts), Some(1000));
    opts.rate_limit = Some("5/second".to_string());
    assert_eq!(delay_after_target(&opts), Some(200));
    opts.rate_limit = Some("fast".to_string());
    assert_eq!(delay_after_target(&opts), None);
}

#[test]
fn endpoint_finding_records_the_handshake() {
    let result = HandshakeResult {
        negotiated_version: "TLSv1.3".to_string(),
        cipher_suite: "TLS13_AES_256_GCM_SHA384".to_string(),
        cert_chain: vec![vec![1, 2, 3]],
        alpn: None,
    };
    let fs = handshake_findings(9, "example.com:443", &result);
    // The unparseable certificate gives no finding.
    assert_eq!(fs.len(), 1);
    assert_eq!(fs[0].source_location, "example.com:443");
    assert_eq!(fs[0].evidence.get_str("kind").map(|s| s.as_str()), Some("tls_endpoint"));
    assert_eq!(fs[0].evidence.get_str("pqc_status").map(|s| s.as_str()), Some("symmetric_ok"));
}

#[test]
fn two_failed_handshakes_fail_the_scan() {
    let opts = TlsOptions::default();
    let scan = new_tls_scan("h:443", &opts);
    assert_eq!(scan.name, "tls:h:443");
    assert_eq!(scan.status, ScanStatus::Running);
    let scan = record_handshakes(
        scan,
        "h:443",
        Err("refused".to_string()),
        Some(Err("timeout".to_string())),
    );
    assert_eq!(scan.status, ScanStatus::Failed);
    assert_eq!(
        scan.error_message.as_deref(),
        Some("TLS handshake failed: tls13=refused tls12=timeout")
    );
    assert!(scan.completed_at.is_some());
}

#[test]
fn a_tls12_fallback_completes_the_scan() {
    let opts = TlsOptions::default();
    let scan = new_tls_scan("h:443", &opts);
    let ok = HandshakeResult {
        negotiated_version: "TLSv1.2".to_string(),
        cipher_suite: "TLS_ECDHE_RSA_WITH_NULL_SHA".to_string(),
        cert_chain: vec![],
        alpn: Some("h2".to_string()),
    };
    let scan = record_handshakes(scan, "h:443", Err("no tls13".to_string()), Some(Ok(ok)));
    assert_eq!(scan.status, ScanStatus::Completed);
    assert_eq!(scan.findings.len(), 1);
    assert_eq!(scan.findings[0].evidence.get_str("pqc_status").map(|s| s.as_str()), Some("unknown"));
}
