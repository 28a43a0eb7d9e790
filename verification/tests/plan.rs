use boab::model::asset::{AssetType, CryptoAsset, MigrationDifficulty, PqcStatus, TargetMilestone};
use boab::model::json::JsonValue;
use boab::model::plan::{front_loaded_target_date, PlanItem, PlanItemStatus};
use boab::model::system::System;
use boab::plan::{apply_user_edits, generate_at, milestone_for_tier, parse_milestone};

/// 2026-05-18T12:00:00Z, in nanoseconds since the epoch.
const TODAY: i128 = 1_779_105_600_000_000_000;

fn asset(name: &str, algo: &str, bits: Option<u64>, status: PqcStatus) -> CryptoAsset {
    let mut a = CryptoAsset::new(
        AssetType::Algorithm,
        algo.to_string(),
        name.to_string(),
        status,
        true,
        MigrationDifficulty::Medium,
    );
    if let Some(b) = bits {
        a.parameter_set.push("key_size_bits", JsonValue::UInt(b));
    }
    a
}

#[test]
fn tier_to_milestone_mapping() {
    assert_eq!(milestone_for_tier(1).year(), 2028);
    assert_eq!(milestone_for_tier(2).year(), 2028);
    assert_eq!(milestone_for_tier(3).year(), 2030);
    assert_eq!(milestone_for_tier(4).year(), 2030);
}

#[test]
fn milestone_parses_with_whitespace() {
    assert_eq!(parse_milestone(" 2028 ").unwrap(), TargetMilestone::Y2028);
    assert_eq!(parse_milestone("2026").unwrap(), TargetMilestone::Y2026);
    assert_eq!(parse_milestone("2030").unwrap(), TargetMilestone::Y2030);
}

#[test]
fn unknown_milestone_is_refused() {
    let e = parse_milestone("2029").unwrap_err();
    assert_eq!(e, "milestone must be one of 2026, 2028, 2030");
}

#[test]
fn front_loaded_dates_by_tier() {
    let d = front_loaded_target_date(TargetMilestone::Y2030, 1);
    assert_eq!((d.year, d.month, d.day), (2030, 3, 1));
    assert_eq!(front_loaded_target_date(TargetMilestone::Y2030, 2).month, 6);
    assert_eq!(front_loaded_target_date(TargetMilestone::Y2030, 3).month, 9);
    assert_eq!(front_loaded_target_date(TargetMilestone::Y2030, 4).month, 12);
}

#[test]
fn plan_2030_lists_everything_vulnerable_by_priority() {
    let mut md5 = asset("md5-use", "MD5", None, PqcStatus::Vulnerable);
    md5.data_retention_horizon_year = Some(2050);
    let rsa = asset("rsa-use", "RSA", Some(2048), PqcStatus::Vulnerable);
    let aes = asset("aes-use", "AES-256", Some(256), PqcStatus::SymmetricOk);
    let inventory = vec![aes, rsa, md5];
    let systems: Vec<System> = Vec::new();
    let plan = generate_at(&inventory, &systems, TargetMilestone::Y2030, None, TODAY);
    assert_eq!(plan.name, "PQC transition plan 2030");
    assert_eq!(plan.milestone, TargetMilestone::Y2030);
    assert_eq!(plan.items.len(), 3);
    // Priority descending: the long-lived MD5 use first.
    assert_eq!(plan.items[0].asset_name, "md5-use");
    for w in plan.items.windows(2) {
        assert!(w[0].priority >= w[1].priority);
    }
    assert!(plan.items.iter().all(|i| i.status == PlanItemStatus::Pending));
    assert!(plan.items.iter().all(|i| i.target_date.is_some()));
}

#[test]
fn plan_2028_keeps_only_early_tiers() {
    let mut md5 = asset("md5-use", "MD5", None, PqcStatus::Vulnerable);
    md5.data_retention_horizon_year = Some(2050);
    md5.data_classification = Some(boab::model::system::Classification::TopSecret);
    let aes = asset("aes-use", "AES-256", Some(256), PqcStatus::SymmetricOk);
    let inventory = vec![aes, md5];
    let systems: Vec<System> = Vec::new();
    let plan = generate_at(&inventory, &systems, TargetMilestone::Y2028, Some("mine".to_string()), TODAY);
    assert_eq!(plan.name, "mine");
    assert_eq!(plan.items.len(), 1);
    assert_eq!(plan.items[0].asset_name, "md5-use");
    assert!(plan.items[0].triage_tier <= 2);
}

fn item(asset_id: u128, action: &str) -> PlanItem {
    PlanItem {
        id: 7,
        crypto_asset_id: asset_id,
        asset_name: "a".to_string(),
        algorithm_name: "RSA".to_string(),
        triage_tier: 1,
        priority: 80,
        target_action: action.to_string(),
        target_date: Some(100),
        assignee: None,
        notes: None,
        status: PlanItemStatus::Pending,
    }
}

#[test]
fn regenerated_items_keep_user_edits() {
    let mut edited = item(1, "rotate to ML-DSA");
    edited.assignee = Some("sam".to_string());
    edited.notes = Some("vendor ticket open".to_string());
    edited.status = PlanItemStatus::InProgress;
    edited.target_date = Some(500);
    let untouched = item(2, "keep");
    let existing = vec![edited, untouched];
    let fresh = vec![item(1, "fresh action"), item(2, "fresh action"), item(3, "new asset")];
    let out = apply_user_edits(&existing, fresh);
    assert_eq!(out.len(), 3);
    assert_eq!(out[0].target_action, "rotate to ML-DSA");
    assert_eq!(out[0].assignee.as_deref(), Some("sam"));
    assert_eq!(out[0].notes.as_deref(), Some("vendor ticket open"));
    assert_eq!(out[0].status, PlanItemStatus::InProgress);
    assert_eq!(out[0].target_date, Some(500));
    assert_eq!(out[1].target_action, "keep");
    assert_eq!(out[1].status, PlanItemStatus::Pending);
    assert_eq!(out[2].target_action, "new asset");
}

#[test]
fn later_duplicate_edit_wins() {
    let mut first = item(1, "first");
    first.notes = Some("one".to_string());
    let mut second = item(1, "second");
    second.notes = Some("two".to_string());
    let out = apply_user_edits(&vec![first, second], vec![item(1, "fresh")]);
    assert_eq!(out[0].target_action, "second");
    assert_eq!(out[0].notes.as_deref(), Some("two"));
}

#[test]
fn plan_generate_2030_includes_lower_tiers() {
    let mut md5 = asset("md5-use", "MD5", None, PqcStatus::Vulnerable);
    md5.data_retention_horizon_year = Some(2050);
    let aes = asset("aes-use", "AES-256", Some(256), PqcStatus::SymmetricOk);
    let inventory = vec![md5, aes];
    let systems: Vec<System> = Vec::new();
    let plan = generate_at(&inventory, &systems, TargetMilestone::Y2030, None, TODAY);
    assert_eq!(plan.milestone.year(), 2030);
    assert_eq!(plan.items.len(), 2);
    assert!(plan.items.iter().any(|i| i.triage_tier >= 3));
}
