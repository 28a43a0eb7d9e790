use boab::dedup::promote_findings;
use boab::model::asset::MigrationStatus;
use boab::model::finding::{Confidence, Finding, SourceType};
use boab::model::json::{Evidence, EvidenceValue, JsonObject, JsonValue};
use boab::model::scan::{Scan, ScanType};
use boab::scanners::codebase::scan_file;

fn make_scan() -> Scan {
    Scan::new("t".to_string(), ScanType::Codebase, "x".to_string())
}

fn text(s: &str) -> EvidenceValue {
    EvidenceValue::Value(JsonValue::Str(s.to_string()))
}

fn algo_finding(scan_id: u128, algo: &str, status: &str, src: &str, bits: Option<u64>) -> Finding {
    let mut params = JsonObject::new();
    if let Some(b) = bits {
        params.push("key_size_bits", JsonValue::UInt(b));
    }
    let mut ev = Evidence::new();
    ev.push("kind", text("algorithm_match"));
    ev.push("algorithm_name", text(algo));
    ev.push("pqc_status", text(status));
    ev.push("parameter_set", EvidenceValue::Object(params));
    Finding::new(scan_id, SourceType::File, src.to_string(), ev, Confidence::High)
}

fn no_bytes(scan: &Scan) -> Vec<Vec<u8>> {
    scan.findings.iter().map(|_| Vec::new()).collect()
}

#[test]
fn first_run_creates_inventory_entries() {
    let mut scan = make_scan();
    let scan_id = scan.id;
    scan.findings = vec![
        algo_finding(scan_id, "MD5", "vulnerable", "src/a.rs:10", None),
        algo_finding(scan_id, "AES-256", "symmetric_ok", "src/b.rs:5", Some(256)),
    ];
    let bytes = no_bytes(&scan);
    let inv = promote_findings(&mut scan, vec![], &bytes);
    assert_eq!(inv.len(), 2);
    assert!(scan.findings.iter().all(|f| f.crypto_asset_id.is_some()));
}

#[test]
fn second_run_does_not_duplicate() {
    let mut scan1 = make_scan();
    let sid = scan1.id;
    scan1.findings = vec![algo_finding(sid, "RSA", "vulnerable", "src/a.rs:1", Some(2048))];
    let bytes = no_bytes(&scan1);
    let inv = promote_findings(&mut scan1, vec![], &bytes);
    assert_eq!(inv.len(), 1);

    let mut scan2 = make_scan();
    let sid2 = scan2.id;
    scan2.findings = vec![algo_finding(sid2, "RSA", "vulnerable", "src/a.rs:1", Some(2048))];
    let bytes2 = no_bytes(&scan2);
    let inv2 = promote_findings(&mut scan2, inv, &bytes2);
    assert_eq!(inv2.len(), 1, "second run should not add a duplicate");
}

#[test]
fn user_set_fields_preserved_on_rescan() {
    let mut scan1 = make_scan();
    let sid = scan1.id;
    scan1.findings = vec![algo_finding(sid, "RSA", "vulnerable", "src/a.rs:1", Some(2048))];
    let bytes = no_bytes(&scan1);
    let mut inv = promote_findings(&mut scan1, vec![], &bytes);
    inv[0].notes = Some("Owned by Payments team".to_string());
    inv[0].migration_status = MigrationStatus::InProgress;

    let mut scan2 = make_scan();
    let sid2 = scan2.id;
    scan2.findings = vec![algo_finding(sid2, "RSA", "vulnerable", "src/a.rs:1", Some(2048))];
    let bytes2 = no_bytes(&scan2);
    let inv2 = promote_findings(&mut scan2, inv, &bytes2);
    assert_eq!(inv2.len(), 1);
    assert_eq!(inv2[0].notes.as_deref(), Some("Owned by Payments team"));
    assert!(matches!(inv2[0].migration_status, MigrationStatus::InProgress));
}

#[test]
fn promotion_links_findings_to_their_assets() {
    let mut scan = make_scan();
    let sid = scan.id;
    scan.findings = vec![
        algo_finding(sid, "RSA", "vulnerable", "src/a.rs:1", Some(2048)),
        algo_finding(sid, "RSA", "vulnerable", "src/a.rs:9", Some(2048)),
        algo_finding(sid, "RSA", "vulnerable", "lib/x.rs:3", Some(2048)),
    ];
    let bytes = no_bytes(&scan);
    let inv = promote_findings(&mut scan, vec![], &bytes);
    // Same source root and algorithm: one asset; another root: another asset.
    assert_eq!(inv.len(), 2);
    assert_eq!(scan.findings[0].crypto_asset_id, scan.findings[1].crypto_asset_id);
    assert_ne!(scan.findings[0].crypto_asset_id, scan.findings[2].crypto_asset_id);
    assert_eq!(scan.findings[0].crypto_asset_id, Some(inv[0].id));
}

#[test]
fn key_sizes_are_told_apart() {
    let mut scan = make_scan();
    let sid = scan.id;
    scan.findings = vec![
        algo_finding(sid, "RSA", "vulnerable", "src/a.rs:1", Some(2048)),
        algo_finding(sid, "RSA", "vulnerable", "src/a.rs:1", Some(4096)),
    ];
    let bytes = no_bytes(&scan);
    let inv = promote_findings(&mut scan, vec![], &bytes);
    assert_eq!(inv.len(), 2);
}

/// The codebase fixture's Rust file.
const RUST_FIXTURE: &str = "// Boab test fixture - Rust.\nuse ring;\nuse rustls;\nuse sha2::Sha256;\n\nfn legacy() {\n    // RSA-2048 keys are quantum-vulnerable.\n    let _ = \"RSA-2048\";\n    // MD5 must be banned.\n    let _ = \"MD5\";\n    // We are migrating to ML-KEM-768.\n    let _ = \"ML-KEM-768\";\n    // SHA-256 is safe symmetrically.\n    let _ = \"SHA-256\";\n}\n";

fn scan_fixture() -> Scan {
    let mut scan = make_scan();
    scan.findings = scan_file(
        scan.id,
        "/fx/rust/example.rs",
        "rust/example.rs",
        RUST_FIXTURE.len() as u64,
        Some(RUST_FIXTURE),
    );
    scan
}

#[test]
fn rust_fixture_scan_then_idempotent_rescan() {
    let mut first = scan_fixture();
    assert!(!first.findings.is_empty());
    let bytes = no_bytes(&first);
    let inv = promote_findings(&mut first, Vec::new(), &bytes);
    let algos: Vec<&str> = inv.iter().map(|a| a.algorithm_name.as_str()).collect();
    assert!(algos.iter().any(|a| *a == "MD5"));
    assert!(algos.iter().any(|a| *a == "ML-KEM"));
    assert!(algos.iter().any(|a| *a == "RSA"));
    let n = inv.len();
    let mut second = scan_fixture();
    let bytes = no_bytes(&second);
    let inv2 = promote_findings(&mut second, inv, &bytes);
    assert_eq!(inv2.len(), n, "rescan introduced duplicates");
}

#[test]
fn cert_file_rescan_adds_no_duplicate() {
    let bytes = b"abc".to_vec();
    let mut first = make_scan();
    first.findings = scan_file(first.id, "/fx/certs/a.pem", "certs/a.pem", 3, None);
    assert_eq!(first.findings.len(), 1);
    let inv = promote_findings(&mut first, Vec::new(), &vec![bytes.clone()]);
    assert_eq!(inv.len(), 1);
    assert_eq!(
        inv[0].parameter_set.get_str("fingerprint_sha256").map(|s| s.as_str()),
        Some("ba7816bf8f01cfea414140de5dae2223b00361a396177a9cb410ff61f20015ad")
    );
    let mut second = make_scan();
    second.findings = scan_file(second.id, "/fx/certs/a.pem", "certs/a.pem", 3, None);
    let inv2 = promote_findings(&mut second, inv, &vec![bytes]);
    assert_eq!(inv2.len(), 1, "rescan introduced a duplicate certificate");
    assert_eq!(second.findings[0].crypto_asset_id, Some(inv2[0].id));
    // Changed contents make a different certificate.
    let mut third = make_scan();
    third.findings = scan_file(third.id, "/fx/certs/a.pem", "certs/a.pem", 3, None);
    let inv3 = promote_findings(&mut third, inv2, &vec![b"abd".to_vec()]);
    assert_eq!(inv3.len(), 2);
}

#[test]
fn tls_endpoint_rescan_adds_no_duplicate() {
    let mk = |scan_id: u128| {
        let mut ev = Evidence::new();
        ev.push("kind", text("tls_endpoint"));
        ev.push("target", text("example.com:443"));
        ev.push("cipher_suite", text("TLS13_AES_256_GCM_SHA384"));
        ev.push("pqc_status", text("vulnerable"));
        Finding::new(scan_id, SourceType::Host, "example.com:443".to_string(), ev, Confidence::High)
    };
    let mut first = make_scan();
    first.findings = vec![mk(first.id)];
    let inv = promote_findings(&mut first, Vec::new(), &vec![Vec::new()]);
    assert_eq!(inv.len(), 1);
    assert_eq!(inv[0].parameter_set.get_str("kind").map(|s| s.as_str()), Some("tls_endpoint"));
    assert_eq!(inv[0].parameter_set.get_str("target").map(|s| s.as_str()), Some("example.com:443"));
    let mut second = make_scan();
    second.findings = vec![mk(second.id)];
    let inv2 = promote_findings(&mut second, inv, &vec![Vec::new()]);
    assert_eq!(inv2.len(), 1);
}
