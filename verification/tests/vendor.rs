use boab::model::asset::PqcStatus;
use boab::model::vendor::{VendorEntry, VendorRegistry};

fn entry(vendor: &str, product: &str, status: PqcStatus) -> VendorEntry {
    VendorEntry {
        vendor: vendor.to_string(),
        product: product.to_string(),
        pqc_status: status,
        target_date: None,
        source_url: None,
        source_note: None,
        last_verified_at: None,
    }
}

#[test]
fn overrides_replace_and_sort() {
    let base = VendorRegistry::new(vec![
        entry("Zeta", "Gateway", PqcStatus::Unknown),
        entry("acme", "VPN", PqcStatus::Vulnerable),
        entry("Acme", "Firewall", PqcStatus::Unknown),
    ]);
    let overrides = VendorRegistry::new(vec![
        entry("ACME", "vpn", PqcStatus::Hybrid),
        entry("Beta", "HSM", PqcStatus::Resistant),
    ]);
    let merged = base.merge_overrides(&overrides);
    let names: Vec<(String, String)> =
        merged.entries.iter().map(|e| (e.vendor.clone(), e.product.clone())).collect();
    assert_eq!(
        names,
        vec![
            ("Acme".to_string(), "Firewall".to_string()),
            ("ACME".to_string(), "vpn".to_string()),
            ("Beta".to_string(), "HSM".to_string()),
            ("Zeta".to_string(), "Gateway".to_string()),
        ]
    );
    assert_eq!(merged.entries[1].pqc_status, PqcStatus::Hybrid);
}

#[test]
fn search_ignores_case() {
    let reg = VendorRegistry::new(vec![
        entry("Acme", "VPN Concentrator", PqcStatus::Vulnerable),
        entry("Other", "Thing", PqcStatus::Unknown),
    ]);
    let hits = reg.search("vpn");
    assert_eq!(hits.len(), 1);
    assert_eq!(hits[0].vendor, "Acme");
    assert!(reg.search("nothing here").is_empty());
    assert_eq!(reg.search("").len(), 2);
}

#[test]
fn key_is_lower_case() {
    let e = entry("Cisco", "ASA", PqcStatus::Unknown);
    assert_eq!(e.key(), ("cisco".to_string(), "asa".to_string()));
}

#[test]
fn vendor_override_takes_precedence() {
    let base = VendorRegistry::new(vec![
        entry("Microsoft", "Azure", PqcStatus::Vulnerable),
        entry("Microsoft", "Windows", PqcStatus::Unknown),
    ]);
    let mut o = entry("Microsoft", "Azure", PqcStatus::Resistant);
    o.target_date = Some("2026-Q4".to_string());
    let merged = base.merge_overrides(&VendorRegistry::new(vec![o]));
    let hits = merged.search("Azure");
    assert_eq!(hits.len(), 1);
    assert_eq!(hits[0].pqc_status, PqcStatus::Resistant);
    assert_eq!(hits[0].target_date.as_deref(), Some("2026-Q4"));
    assert_eq!(merged.entries.len(), 2);
}
