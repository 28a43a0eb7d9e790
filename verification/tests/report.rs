use boab::model::asset::{AssetType, CryptoAsset, MigrationDifficulty, PqcStatus, Primitive};
use boab::model::system::System;
use boab::storage::order_by_instant;
use boab::model::vendor::VendorEntry;
use boab::report::{
    cbom_asset_type, cbom_component, cbom_components, nist_quantum_security_level,
    score_inventory, vendor_coverage,
};

/// 2026-05-18T12:00:00Z, in nanoseconds since the epoch.
const TODAY: i128 = 1_779_105_600_000_000_000;

fn asset(t: AssetType, algo: &str, status: PqcStatus) -> CryptoAsset {
    CryptoAsset::new(t, algo.to_string(), algo.to_string(), status, true, MigrationDifficulty::Medium)
}

fn vendor(status: PqcStatus) -> VendorEntry {
    VendorEntry {
        vendor: "v".to_string(),
        product: "p".to_string(),
        pqc_status: status,
        target_date: None,
        source_url: None,
        source_note: None,
        last_verified_at: None,
    }
}

#[test]
fn nist_levels() {
    let lvl = |n: &str, s: PqcStatus| nist_quantum_security_level(&asset(AssetType::Algorithm, n, s));
    assert_eq!(lvl("ML-KEM-1024", PqcStatus::Resistant), 5);
    assert_eq!(lvl("ml_dsa_87", PqcStatus::Resistant), 5);
    assert_eq!(lvl("Dilithium5", PqcStatus::Resistant), 5);
    assert_eq!(lvl("ML-KEM-768", PqcStatus::Resistant), 3);
    assert_eq!(lvl("ML-DSA-65", PqcStatus::Resistant), 3);
    assert_eq!(lvl("Dilithium3", PqcStatus::Resistant), 3);
    assert_eq!(lvl("ML-DSA-44", PqcStatus::Resistant), 2);
    assert_eq!(lvl("Dilithium2", PqcStatus::Resistant), 2);
    assert_eq!(lvl("ML-KEM-512", PqcStatus::Resistant), 1);
    assert_eq!(lvl("AES-128", PqcStatus::SymmetricOk), 1);
    assert_eq!(lvl("SHA-256", PqcStatus::SymmetricOk), 1);
    assert_eq!(lvl("RSA", PqcStatus::Vulnerable), 0);
    assert_eq!(lvl("Mystery", PqcStatus::Unknown), 0);
}

#[test]
fn cbom_mappings() {
    assert_eq!(cbom_asset_type(AssetType::Algorithm), "algorithm");
    assert_eq!(cbom_asset_type(AssetType::LibraryDependency), "algorithm");
    assert_eq!(cbom_asset_type(AssetType::Certificate), "certificate");
    assert_eq!(cbom_asset_type(AssetType::Key), "related-crypto-material");
    assert_eq!(cbom_asset_type(AssetType::ProtocolEndpoint), "protocol");
    let mut a = asset(AssetType::Algorithm, "ML-KEM-768", PqcStatus::Resistant);
    a.primitive = Some(Primitive::Kem);
    a.id = 0x0123_4567_89ab_cdef_0123_4567_89ab_cdef;
    let c = cbom_component(&a);
    assert_eq!(c.bom_ref, "boab:01234567-89ab-cdef-0123-456789abcdef");
    assert_eq!(c.asset_type, "algorithm");
    assert_eq!(c.primitive, Some("kem"));
    assert_eq!(c.nist_quantum_security_level, Some(3));
    let cert = cbom_component(&asset(AssetType::Certificate, "RSA", PqcStatus::Vulnerable));
    assert_eq!(cert.nist_quantum_security_level, None);
    assert_eq!(cbom_components(&vec![a]).len(), 1);
}

#[test]
fn coverage_counts_in_first_seen_order() {
    let entries = vec![
        vendor(PqcStatus::Hybrid),
        vendor(PqcStatus::Unknown),
        vendor(PqcStatus::Hybrid),
        vendor(PqcStatus::SymmetricOk),
    ];
    let (total, by) = vendor_coverage(&entries);
    assert_eq!(total, 4);
    assert_eq!(
        by,
        vec![
            ("hybrid".to_string(), 2),
            ("unknown".to_string(), 1),
            ("symmetricok".to_string(), 1),
        ]
    );
}

#[test]
fn every_asset_is_scored() {
    let inv = vec![
        asset(AssetType::Algorithm, "MD5", PqcStatus::Vulnerable),
        asset(AssetType::Algorithm, "AES-256", PqcStatus::SymmetricOk),
    ];
    let systems: Vec<System> = Vec::new();
    let scores = score_inventory(&inv, &systems, TODAY);
    assert_eq!(scores.len(), 2);
    assert_eq!(scores[0].algorithm_vulnerability, 10);
    assert_eq!(scores[1].algorithm_vulnerability, 0);
}

#[test]
fn stored_items_listed_by_instant() {
    assert_eq!(order_by_instant(&vec![30, 10, 20, 10]), vec![1, 3, 2, 0]);
    assert_eq!(order_by_instant(&vec![]), Vec::<usize>::new());
    assert_eq!(order_by_instant(&vec![-5, -5]), vec![0, 1]);
}

#[test]
fn plan_list_on_empty_workspace_says_so() {
    assert!(order_by_instant(&Vec::new()).is_empty());
}
