use boab::cli::{
    InitArgs, InventoryListArgs, ReportArgs, ScanCodebaseArgs, ScanTlsArgs, SystemAddArgs, SystemEditArgs,
    VendorAddArgs,
};
use boab::config::set_value;
use boab::model::asset::{AssetType, CryptoAsset, MigrationDifficulty};
use boab::scanners::tls::targets_to_scan;
use boab::scoring::score_asset;
use boab::config::Config;
use boab::model::asset::PqcStatus;
use boab::model::system::{Classification, Criticality, System};
use boab::model::vendor::VendorEntry;
use boab::runner::{
    add_system, check_init_flags, codebase_source, config_get, delete_system, edit_system,
    list_inventory, parse_vendor_status, tls_options, pqc_label, report_format, tls_targets, upsert_override, vendor_entry,
    CodebaseSource, RunError,
};

fn add_args(name: &str, class: &str, crit: &str) -> SystemAddArgs {
    SystemAddArgs {
        name: name.to_string(),
        description: None,
        classification: class.to_string(),
        criticality: crit.to_string(),
        soci: false,
        lifetime_years: Some(7),
    }
}

#[test]
fn force_needs_yes() {
    let e = check_init_flags(&InitArgs { force: true, yes: false }).unwrap_err();
    assert_eq!(e.message(), "--force requires --yes");
    assert!(check_init_flags(&InitArgs { force: true, yes: true }).is_ok());
    assert!(check_init_flags(&InitArgs { force: false, yes: false }).is_ok());
}

#[test]
fn systems_are_added_edited_and_deleted() {
    let mut systems: Vec<System> = Vec::new();
    let id = add_system(&mut systems, &add_args("Payments", "Protected", "mission-critical")).unwrap();
    assert_eq!(systems.len(), 1);
    assert_eq!(systems[0].id, id);
    assert_eq!(systems[0].classification, Classification::Protected);
    assert_eq!(systems[0].criticality, Criticality::MissionCritical);
    let e = add_system(&mut systems, &add_args("X", "cosmic", "low")).unwrap_err();
    assert_eq!(e.message(), "unknown classification: cosmic");
    let e = add_system(&mut systems, &add_args("X", "secret", "huge")).unwrap_err();
    assert_eq!(e.message(), "unknown criticality: huge");
    assert_eq!(systems.len(), 1);

    let edit = SystemEditArgs {
        id,
        name: Some("Payments v2".to_string()),
        description: None,
        classification: None,
        criticality: Some("low".to_string()),
        soci: Some(true),
        lifetime_years: None,
    };
    edit_system(&mut systems, &edit).unwrap();
    assert_eq!(systems[0].name, "Payments v2");
    assert_eq!(systems[0].criticality, Criticality::Low);
    assert!(systems[0].is_soci);
    assert_eq!(systems[0].expected_data_lifetime_years, Some(7));

    let missing = SystemEditArgs { id: id + 1, ..edit };
    assert!(edit_system(&mut systems, &missing).is_err());

    assert!(delete_system(&mut systems, id + 1).is_err());
    delete_system(&mut systems, id).unwrap();
    assert!(systems.is_empty());
}

#[test]
fn codebase_sources() {
    let mut args = ScanCodebaseArgs {
        path: Some("/src".to_string()),
        git: None,
        include_globs: vec![],
        exclude: vec![],
        name: None,
    };
    assert!(matches!(codebase_source(&args), Ok(CodebaseSource::Path(p)) if p == "/src"));
    args.path = None;
    args.git = Some("https://example.com/r.git".to_string());
    assert!(matches!(codebase_source(&args), Ok(CodebaseSource::GitNotImplemented)));
    args.git = None;
    assert_eq!(codebase_source(&args).unwrap_err().message(), "missing path or --git URL");
}

#[test]
fn targets_from_arguments_and_file() {
    let given = vec!["a:443".to_string()];
    let t = tls_targets(&given, Some("# comment\n  b:443  \n\nc:8443\r\n")).unwrap();
    assert_eq!(t, vec!["a:443".to_string(), "b:443".to_string(), "c:8443".to_string()]);
    let e = tls_targets(&Vec::new(), Some("# only comments\n")).unwrap_err();
    assert_eq!(e.message(), "no TLS targets specified; pass host:port or --targets-file");
}

#[test]
fn vendor_statuses() {
    assert_eq!(parse_vendor_status("Symmetric_OK").unwrap(), PqcStatus::SymmetricOk);
    let e = parse_vendor_status("Safe").unwrap_err();
    assert_eq!(
        e.message(),
        "unknown pqc_status: safe (expected vulnerable|hybrid|resistant|symmetric_ok|unknown)"
    );
}

#[test]
fn vendor_override_takes_the_place_of_the_old_one() {
    let args = VendorAddArgs {
        vendor: "Acme".to_string(),
        product: "VPN".to_string(),
        pqc_status: "hybrid".to_string(),
        target_date: Some("2027".to_string()),
        source_url: None,
        source_note: Some("vendor letter".to_string()),
    };
    let e1 = vendor_entry(&args, 5).unwrap();
    assert_eq!(e1.last_verified_at, Some(5));
    let mut overrides: Vec<VendorEntry> = Vec::new();
    upsert_override(&mut overrides, &e1);
    let args2 = VendorAddArgs { vendor: "ACME".to_string(), pqc_status: "resistant".to_string(), ..args };
    let e2 = vendor_entry(&args2, 6).unwrap();
    upsert_override(&mut overrides, &e2);
    assert_eq!(overrides.len(), 1);
    assert_eq!(overrides[0].pqc_status, PqcStatus::Resistant);
}

#[test]
fn report_formats() {
    let r = report_format(&ReportArgs { format: "CBOM".to_string(), output: None }).unwrap();
    assert_eq!(r, ("cbom".to_string(), "bom.cdx.json"));
    let e = report_format(&ReportArgs { format: "HTML".to_string(), output: None }).unwrap_err();
    assert_eq!(e.message(), "unknown report format: html");
}

#[test]
fn config_keys() {
    let cfg = Config::default();
    assert_eq!(config_get(&cfg, "scanner.air_gapped").unwrap(), "true");
    assert_eq!(config_get(&cfg, "x").unwrap_err().message(), "unknown config key: x");
}

#[test]
fn status_labels() {
    assert_eq!(pqc_label(PqcStatus::SymmetricOk), "symmetricok");
    assert_eq!(pqc_label(PqcStatus::Vulnerable), "vulnerable");
}

#[test]
fn missing_ids_are_named_in_hyphenated_form() {
    let e = RunError::NoSystem(0xa1a2a3a4b1b2c1c2d1d2d3d4d5d6d7d8);
    assert_eq!(e.message(), "no system with id a1a2a3a4-b1b2-c1c2-d1d2-d3d4d5d6d7d8");
    let e = RunError::NoAsset(1);
    assert_eq!(e.message(), "no inventory entry with id 00000000-0000-0000-0000-000000000001");
}

/// 2026-05-18T12:00:00Z, in nanoseconds since the epoch.
const TODAY: i128 = 1_779_105_600_000_000_000;

fn no_filter() -> InventoryListArgs {
    InventoryListArgs { pqc_status: None, tier: None, system: None, algorithm: None }
}

fn tls_args(targets: Vec<String>, probe_hsts: bool) -> ScanTlsArgs {
    ScanTlsArgs {
        targets,
        targets_file: None,
        rate_limit: None,
        timeout_seconds: 10,
        probe_hsts,
        exclude: vec![],
        name: None,
    }
}

#[test]
fn config_get_and_set() {
    let mut cfg = Config::default();
    set_value(&mut cfg, "scanner.tls_timeout_seconds", "30").unwrap();
    assert_eq!(config_get(&cfg, "scanner.tls_timeout_seconds").unwrap(), "30");
}

#[test]
fn report_invalid_format_errors() {
    let e = report_format(&ReportArgs { format: "html".to_string(), output: None }).unwrap_err();
    assert!(e.message().contains("unknown report format"));
}

#[test]
fn tls_scan_no_targets_errors() {
    let e = tls_targets(&Vec::new(), None).unwrap_err();
    assert!(e.message().contains("no TLS targets"));
}

#[test]
fn tls_probe_hsts_in_air_gapped_mode_errors() {
    let opts = tls_options(&tls_args(vec!["example.com:443".to_string()], true), true);
    let e = targets_to_scan(&vec!["example.com:443".to_string()], &opts).unwrap_err();
    assert!(e.message().contains("air-gapped"));
}

#[test]
fn system_add_then_list_roundtrip() {
    let mut systems: Vec<System> = Vec::new();
    let args = SystemAddArgs {
        name: "Payments".to_string(),
        description: None,
        classification: "protected".to_string(),
        criticality: "mission_critical".to_string(),
        soci: true,
        lifetime_years: Some(25),
    };
    let id = add_system(&mut systems, &args).unwrap();
    assert_eq!(systems.len(), 1);
    assert_eq!(systems[0].id, id);
    assert_eq!(systems[0].name, "Payments");
    assert_eq!(systems[0].classification.as_str(), "protected");
    assert_eq!(systems[0].criticality.as_str(), "mission_critical");
    assert!(systems[0].is_soci);
    assert_eq!(systems[0].expected_data_lifetime_years, Some(25));
}

#[test]
fn inventory_list_on_empty_workspace_says_so() {
    let rows = list_inventory(&Vec::new(), &Vec::new(), &no_filter(), TODAY);
    assert!(rows.is_empty());
}

#[test]
fn inventory_filter_by_tier_returns_subset() {
    let mk = |algo: &str, status: PqcStatus| {
        CryptoAsset::new(
            AssetType::Algorithm,
            algo.to_string(),
            algo.to_string(),
            status,
            true,
            MigrationDifficulty::Medium,
        )
    };
    let inventory = vec![
        mk("MD5", PqcStatus::Vulnerable),
        mk("AES-256", PqcStatus::SymmetricOk),
        mk("RSA", PqcStatus::Vulnerable),
        mk("SHA-256", PqcStatus::SymmetricOk),
    ];
    let systems: Vec<System> = Vec::new();
    let all = list_inventory(&inventory, &systems, &no_filter(), TODAY);
    assert_eq!(all.len(), inventory.len());
    let tier4 = list_inventory(&inventory, &systems, &InventoryListArgs { tier: Some(4), ..no_filter() }, TODAY);
    assert!(tier4.len() <= all.len());
    assert!(!tier4.is_empty());
    for i in &all {
        let t = score_asset(&inventory[*i], None, TODAY).triage_tier;
        assert_eq!(tier4.contains(i), t == 4);
    }
}
