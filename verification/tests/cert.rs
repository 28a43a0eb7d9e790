use boab::scanners::cert::{
    approximate_key_bits, certificate_finding, friendly_pk_oid, friendly_sig_oid, KeyShape,
};
use boab::scanners::cert_store::{
    format_of, keystore_placeholder, parse_pem_blocks, password_from_file,
    store_file_findings, StoreFormat,
};

/// A self-signed RSA-2048 test certificate for example.com (SHA-256 with RSA).
fn sample_pem() -> String {
    [
    "-----BEGIN CERTIFICATE-----\n",
    "MIIDnDCCAoSgAwIBAgIJAKQzLo3paeO7MA0GCSqGSIb3DQEBCwUAMGQxFDASBgNV\n",
    "BAMMC2V4YW1wbGUuY29tMRQwEgYDVQQHDAtMb3MgQW5nZWxlczETMBEGA1UECAwK\n",
    "Q2FsaWZvcm5pYTEUMBIGA1UECgwLRXhhbXBsZSBJbmMxCzAJBgNVBAYTAlVTMB4X\n",
    "DTIyMDEwODE4NDA1N1oXDTIzMDEwODE4NDA1N1owZDEUMBIGA1UEAwwLZXhhbXBs\n",
    "ZS5jb20xFDASBgNVBAcMC0xvcyBBbmdlbGVzMRMwEQYDVQQIDApDYWxpZm9ybmlh\n",
    "MRQwEgYDVQQKDAtFeGFtcGxlIEluYzELMAkGA1UEBhMCVVMwggEiMA0GCSqGSIb3\n",
    "DQEBAQUAA4IBDwAwggEKAoIBAQC/Wff+cW3eR8c1ecqEbvqNMKs2EuDWpSQgSnLK\n",
    "jlDJ9FlRPfDXMzG+09ei2no2Jxnkce5qnYeCfRAk7URgWrm0jzuAjF4XO58+xAA9\n",
    "V/FxhIn1x6BCHEb71SekCrS6a52xalRdHs9uKlYzvYBZTrpK/ucfY+HTV8ZOmj/2\n",
    "uDdGqIXDc/NSeYfkwrSvf+TU6hZAXl4VKF3ZOII6oY4mNLr+hHp2HK+rsEAdP6A6\n",
    "B6nQl8uwx3FWzP42Ex2t8cEJwoI5cvCvIaNfNY54gwTAx4uVFznZH6v/0HqozU9p\n",
    "dGs9DrRYdGn5059PvcdhIA37J9r2lWIxHYsZG37vquL41vjrAgMBAAGjUTBPMAkG\n",
    "A1UdEwQCMAAwCwYDVR0PBAQDAgWgMB0GA1UdJQQWMBQGCCsGAQUFBwMBBggrBgEF\n",
    "BQcDAjAWBgNVHREEDzANggtleGFtcGxlLmNvbTANBgkqhkiG9w0BAQsFAAOCAQEA\n",
    "kqvA9M0WRVffA9Eb5h813vio3ceQ8JItVHWyvh9vNGOz3d3eywXIOAKMmzQRQUfY\n",
    "7WMbjCM9ppTKRmfoFbMnDQb1aa93isuCoo5QRSpX6DmN/p4v3uz79p8m8in+xhKQ\n",
    "1m6et1iwR9cbQxLsmsaVaVTn16xdsL+gq7V4IZXf8CVyxL0mH5FdRmj/nqiWTv6S\n",
    "I9tIFiEhCqq1P5XGi6TJAg59M8Dlnd/j5eJHTIlADjG0O1LLvAcuc3rq+dYj0mOU\n",
    "RX4MzusreyKRGdvr2IN2gYCDPOgOiqp3YKkOnXV8/pya1KSGrT51fEYTdUrjJ6dr\n",
    "430thqsUED++/t+K76IRMw==\n",
    "-----END CERTIFICATE-----\n",
    ]
    .concat()
}

#[test]
fn pem_certificate_gives_one_finding() {
    let pem = sample_pem();
    let fs = parse_pem_blocks(3, "certs/rsa.pem", pem.as_bytes());
    assert_eq!(fs.len(), 1);
    let ev = &fs[0].evidence;
    assert_eq!(ev.get_str("kind").map(|s| s.as_str()), Some("tls_certificate"));
    assert!(ev.get_str("public_key_algorithm").map(|s| s.contains("RSA")).unwrap_or(false));
    assert_eq!(
        ev.get_str("signature_algorithm").map(|s| s.as_str()),
        Some("sha256WithRSAEncryption")
    );
    assert_eq!(ev.get_str("pqc_status").map(|s| s.as_str()), Some("vulnerable"));
    assert_eq!(ev.get_str("fingerprint_sha256").map(|s| s.len()), Some(64));
    assert!(fs[0].source_location.starts_with("certs/rsa.pem|"));
    // The certificate store does not record key sizes.
    assert!(ev.get("public_key_bits").is_none());
}

/// The DER bytes of the sample certificate: its PEM body, base64-decoded.
fn sample_der() -> Vec<u8> {
    let pem = sample_pem();
    let body: String = pem.lines().filter(|l| !l.starts_with("-----")).collect();
    let mut out = Vec::new();
    let mut acc: u32 = 0;
    let mut bits = 0;
    for c in body.bytes() {
        let v = match c {
            b'A'..=b'Z' => c - b'A',
            b'a'..=b'z' => c - b'a' + 26,
            b'0'..=b'9' => c - b'0' + 52,
            b'+' => 62,
            b'/' => 63,
            _ => continue,
        };
        acc = (acc << 6) | v as u32;
        bits += 6;
        if bits >= 8 {
            bits -= 8;
            out.push((acc >> bits) as u8);
            acc &= (1 << bits) - 1;
        }
    }
    out
}

#[test]
fn der_certificate_reads_its_fields() {
    let der = sample_der();
    assert_eq!(der[0], 0x30);
    let f = certificate_finding(1, "example.com:443", &der, true).expect("a finding");
    let ev = &f.evidence;
    assert_eq!(ev.get_u64("public_key_bits"), Some(2048));
    assert_eq!(
        ev.get_str("signature_algorithm").map(|s| s.as_str()),
        Some("sha256WithRSAEncryption")
    );
    assert_eq!(ev.get_str("public_key_algorithm").map(|s| s.as_str()), Some("RSA"));
    assert!(f.source_location.starts_with("example.com:443|"));
    let store = store_file_findings(1, "x.der", StoreFormat::Der, &der, None);
    assert_eq!(store.len(), 1);
    assert_eq!(
        store[0].evidence.get_str("fingerprint_sha256"),
        f.evidence.get_str("fingerprint_sha256")
    );
}

#[test]
fn garbage_is_not_a_certificate() {
    assert!(certificate_finding(1, "t", &[0x30, 0x03, 0x02, 0x01, 0x01], true).is_none());
    assert!(certificate_finding(1, "t", b"not a certificate", true).is_none());
    assert!(parse_pem_blocks(1, "f.pem", b"-----BEGIN CERTIFICATE-----\n").is_empty());
    assert!(store_file_findings(1, "f.p12", StoreFormat::Pkcs12, b"junk", Some("pw")).is_empty());
}

#[test]
fn friendly_names() {
    assert_eq!(friendly_sig_oid("1.2.840.10045.4.3.2"), "ecdsa-with-SHA256");
    assert_eq!(friendly_sig_oid("1.3.101.112"), "Ed25519");
    assert_eq!(friendly_sig_oid("9.9"), "9.9");
    assert_eq!(friendly_pk_oid("1.2.840.10045.2.1"), "EC");
    assert_eq!(friendly_pk_oid("1.2.3"), "1.2.3");
}

#[test]
fn key_bits() {
    assert_eq!(approximate_key_bits(KeyShape::Rsa(3072)), Some(3072));
    assert_eq!(approximate_key_bits(KeyShape::Ec(65)), Some(256));
    assert_eq!(approximate_key_bits(KeyShape::Ec(0)), Some(0));
    assert_eq!(approximate_key_bits(KeyShape::Other), None);
}

#[test]
fn store_formats_by_extension() {
    assert_eq!(format_of("crt"), Some(StoreFormat::Pem));
    assert_eq!(format_of("p7b"), Some(StoreFormat::Pem));
    assert_eq!(format_of("der"), Some(StoreFormat::Der));
    assert_eq!(format_of("pfx"), Some(StoreFormat::Pkcs12));
    assert_eq!(format_of("jks"), Some(StoreFormat::Jks));
    assert_eq!(format_of("txt"), None);
}

#[test]
fn java_keystores_are_recorded() {
    let fs = store_file_findings(1, "a.jks", StoreFormat::Jks, b"", None);
    assert_eq!(fs.len(), 1);
    assert_eq!(
        fs[0].evidence.get_str("store_type").map(|s| s.as_str()),
        Some("JKS (convert to PKCS12 with keytool for full parsing)")
    );
    let p = keystore_placeholder(1, "b.p12", "PKCS12");
    assert_eq!(p.source_location, "b.p12");
}

#[test]
fn passwords_are_trimmed() {
    assert_eq!(password_from_file("  secret-words\n"), "secret-words");
}
