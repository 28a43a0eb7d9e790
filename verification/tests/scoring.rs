use boab::model::asset::{AssetType, CryptoAsset, MigrationDifficulty, PqcStatus};
use boab::model::json::JsonValue;
use boab::model::system::{Classification, Criticality, System};
use boab::scoring::{
    algo_vuln_score, data_sens_score, hndl_score, mig_diff_score, priority, recommended_action,
    score_asset, system_crit_score, triage_tier,
};

/// 2026-05-18T12:00:00Z, in nanoseconds since the epoch.
const TODAY: i128 = 1_779_105_600_000_000_000;

fn algo_asset(name: &str, bits: Option<u64>) -> CryptoAsset {
    let mut a = CryptoAsset::new(
        AssetType::Algorithm,
        name.to_string(),
        name.to_string(),
        PqcStatus::Vulnerable,
        true,
        MigrationDifficulty::Medium,
    );
    if let Some(b) = bits {
        a.parameter_set.push("key_size_bits", JsonValue::UInt(b));
    }
    a
}

#[test]
fn algo_md5_is_broken() {
    assert_eq!(algo_vuln_score(&algo_asset("MD5", None)), 10);
}

#[test]
fn algo_sha1_is_broken() {
    assert_eq!(algo_vuln_score(&algo_asset("SHA-1", None)), 10);
    assert_eq!(algo_vuln_score(&algo_asset("sha1", None)), 10);
}

#[test]
fn algo_rsa1024_is_broken() {
    assert_eq!(algo_vuln_score(&algo_asset("RSA", Some(1024))), 10);
}

#[test]
fn algo_dsa1024_is_broken() {
    assert_eq!(algo_vuln_score(&algo_asset("DSA", Some(1024))), 10);
}

#[test]
fn algo_3des_is_broken() {
    assert_eq!(algo_vuln_score(&algo_asset("3DES", None)), 10);
}

#[test]
fn algo_rc4_is_broken() {
    assert_eq!(algo_vuln_score(&algo_asset("RC4", None)), 10);
}

#[test]
fn algo_rsa2048_is_classic_strong() {
    assert_eq!(algo_vuln_score(&algo_asset("RSA", Some(2048))), 9);
}

#[test]
fn algo_ecdsa_p256_is_9() {
    assert_eq!(algo_vuln_score(&algo_asset("ECDSA-P-256", None)), 9);
    assert_eq!(algo_vuln_score(&algo_asset("ECDSA-256", None)), 9);
}

#[test]
fn algo_ecdh_256_is_9() {
    assert_eq!(algo_vuln_score(&algo_asset("ECDH-256", None)), 9);
}

#[test]
fn algo_dh_2048_is_9() {
    assert_eq!(algo_vuln_score(&algo_asset("DH", Some(2048))), 9);
}

#[test]
fn algo_rsa3072_is_8() {
    assert_eq!(algo_vuln_score(&algo_asset("RSA", Some(3072))), 8);
}

#[test]
fn algo_rsa4096_is_8() {
    assert_eq!(algo_vuln_score(&algo_asset("RSA", Some(4096))), 8);
}

#[test]
fn algo_ecdsa_p384_p521_is_8() {
    assert_eq!(algo_vuln_score(&algo_asset("ECDSA-P-384", None)), 8);
    assert_eq!(algo_vuln_score(&algo_asset("ECDSA-P-521", None)), 8);
}

#[test]
fn algo_x25519_is_8() {
    assert_eq!(algo_vuln_score(&algo_asset("X25519", None)), 8);
    assert_eq!(algo_vuln_score(&algo_asset("Ed25519", None)), 8);
    assert_eq!(algo_vuln_score(&algo_asset("X448", None)), 8);
}

#[test]
fn algo_hybrid_is_5() {
    let mut a = algo_asset("X25519MLKEM768", None);
    a.pqc_status = PqcStatus::Hybrid;
    assert_eq!(algo_vuln_score(&a), 5);
}

#[test]
fn algo_ml_kem_resistant() {
    let mut a = algo_asset("ML-KEM-768", None);
    a.pqc_status = PqcStatus::Resistant;
    assert_eq!(algo_vuln_score(&a), 1);
}

#[test]
fn algo_ml_kem_by_name_falls_into_pqc_branch() {
    let a = algo_asset("ML-KEM-768", None);
    assert_eq!(algo_vuln_score(&a), 1);
}

#[test]
fn algo_ml_dsa_by_name() {
    assert_eq!(algo_vuln_score(&algo_asset("ML-DSA-65", None)), 1);
    assert_eq!(algo_vuln_score(&algo_asset("dilithium3", None)), 1);
    assert_eq!(algo_vuln_score(&algo_asset("SLH-DSA-SHA2-128s", None)), 1);
    assert_eq!(algo_vuln_score(&algo_asset("falcon-512", None)), 1);
    assert_eq!(algo_vuln_score(&algo_asset("kyber768", None)), 1);
    assert_eq!(algo_vuln_score(&algo_asset("hqc-128", None)), 1);
    assert_eq!(algo_vuln_score(&algo_asset("sphincs+", None)), 1);
}

#[test]
fn algo_aes256_is_safe() {
    assert_eq!(algo_vuln_score(&algo_asset("AES-256-GCM", None)), 0);
    assert_eq!(algo_vuln_score(&algo_asset("AES256", None)), 0);
}

#[test]
fn algo_sha256_plus_is_safe() {
    assert_eq!(algo_vuln_score(&algo_asset("SHA-256", None)), 0);
    assert_eq!(algo_vuln_score(&algo_asset("SHA384", None)), 0);
    assert_eq!(algo_vuln_score(&algo_asset("SHA-512", None)), 0);
    assert_eq!(algo_vuln_score(&algo_asset("SHA3-256", None)), 0);
    assert_eq!(algo_vuln_score(&algo_asset("SHAKE128", None)), 0);
}

#[test]
fn algo_chacha20_is_safe() {
    assert_eq!(algo_vuln_score(&algo_asset("ChaCha20-Poly1305", None)), 0);
}

#[test]
fn algo_symmetric_ok_status_overrides_to_zero() {
    let mut a = algo_asset("some-cipher", None);
    a.pqc_status = PqcStatus::SymmetricOk;
    assert_eq!(algo_vuln_score(&a), 0);
}

#[test]
fn algo_unknown_is_7() {
    assert_eq!(algo_vuln_score(&algo_asset("FrobnicatorCipher", None)), 7);
}

#[test]
fn algo_rsa_unknown_size_falls_back_to_9() {
    assert_eq!(algo_vuln_score(&algo_asset("RSA", None)), 9);
}

#[test]
fn algo_dsa_unknown_size_falls_back_to_9() {
    assert_eq!(algo_vuln_score(&algo_asset("DSA", None)), 9);
}

#[test]
fn data_sens_all_classes() {
    let mk = |c: Option<Classification>| {
        let mut a = algo_asset("RSA", None);
        a.data_classification = c;
        a
    };
    assert_eq!(data_sens_score(&mk(Some(Classification::TopSecret))), 10);
    assert_eq!(data_sens_score(&mk(Some(Classification::Secret))), 8);
    assert_eq!(data_sens_score(&mk(Some(Classification::Protected))), 6);
    assert_eq!(data_sens_score(&mk(Some(Classification::OfficialSensitive))), 4);
    assert_eq!(data_sens_score(&mk(Some(Classification::Official))), 2);
    assert_eq!(data_sens_score(&mk(Some(Classification::Unofficial))), 0);
    assert_eq!(data_sens_score(&mk(None)), 0);
}

#[test]
fn hndl_buckets() {
    let mk = |year: Option<u16>| {
        let mut a = algo_asset("RSA", None);
        a.data_retention_horizon_year = year;
        a
    };
    assert_eq!(hndl_score(&mk(Some(2050)), TODAY, None), 10);
    assert_eq!(hndl_score(&mk(Some(2041)), TODAY, None), 10);
    assert_eq!(hndl_score(&mk(Some(2036)), TODAY, None), 8);
    assert_eq!(hndl_score(&mk(Some(2031)), TODAY, None), 6);
    assert_eq!(hndl_score(&mk(Some(2028)), TODAY, None), 3);
    assert_eq!(hndl_score(&mk(Some(2027)), TODAY, None), 0);
    assert_eq!(hndl_score(&mk(Some(2026)), TODAY, None), 0);
}

#[test]
fn hndl_falls_back_to_system_lifetime() {
    let a = algo_asset("RSA", None);
    let sys = System::new(
        "S".to_string(),
        None,
        Classification::Official,
        Criticality::Standard,
        false,
        Some(12),
    );
    assert_eq!(hndl_score(&a, TODAY, Some(&sys)), 8);
}

#[test]
fn hndl_no_data_defaults_to_5() {
    let a = algo_asset("RSA", None);
    assert_eq!(hndl_score(&a, TODAY, None), 5);
}

#[test]
fn system_crit_all_branches() {
    let mk_sys = |c: Criticality, is_soci: bool| {
        System::new("S".to_string(), None, Classification::Official, c, is_soci, None)
    };
    assert_eq!(system_crit_score(Some(&mk_sys(Criticality::MissionCritical, false))), 10);
    assert_eq!(system_crit_score(Some(&mk_sys(Criticality::Essential, false))), 7);
    assert_eq!(system_crit_score(Some(&mk_sys(Criticality::Standard, false))), 4);
    assert_eq!(system_crit_score(Some(&mk_sys(Criticality::Low, false))), 1);
    assert_eq!(system_crit_score(Some(&mk_sys(Criticality::Low, true))), 10);
    assert_eq!(system_crit_score(None), 4);
}

#[test]
fn mig_diff_all_branches() {
    let mk = |d: MigrationDifficulty| {
        let mut a = algo_asset("RSA", None);
        a.migration_difficulty = d;
        a
    };
    assert_eq!(mig_diff_score(&mk(MigrationDifficulty::HardwareLocked)), 10);
    assert_eq!(mig_diff_score(&mk(MigrationDifficulty::High)), 8);
    assert_eq!(mig_diff_score(&mk(MigrationDifficulty::Medium)), 6);
    assert_eq!(mig_diff_score(&mk(MigrationDifficulty::Low)), 3);
    assert_eq!(mig_diff_score(&mk(MigrationDifficulty::Trivial)), 1);
}

/// Priorities are held in tenths: 10.0 is 100.
#[test]
fn priority_formula_rounds_to_one_decimal() {
    assert_eq!(priority(10, 10, 10, 10, 10), 100);
    assert_eq!(priority(5, 5, 0, 0, 0), 30);
    assert_eq!(priority(7, 7, 3, 3, 3), 54);
}

#[test]
fn tier_1_condition() {
    let p = priority(10, 10, 10, 0, 1);
    assert!(p >= 70, "p = {}", p);
    assert_eq!(triage_tier(p, 1, 10), 1);
}

#[test]
fn tier_2_condition_via_priority() {
    let p = priority(10, 10, 0, 0, 8);
    assert!((60..70).contains(&p), "p = {}", p);
    assert_eq!(triage_tier(p, 8, 10), 2);
}

#[test]
fn tier_2_condition_via_hardware_and_vuln() {
    let p = priority(8, 0, 0, 0, 10);
    assert!(p < 60);
    assert_eq!(triage_tier(p, 10, 8), 2);
}

#[test]
fn tier_3_condition() {
    let p = priority(7, 0, 0, 0, 1);
    assert!(p < 60);
    assert_eq!(triage_tier(p, 1, 7), 3);
}

#[test]
fn tier_4_fallthrough() {
    let p = priority(0, 0, 0, 0, 1);
    assert_eq!(triage_tier(p, 1, 0), 4);
}

#[test]
fn recommended_action_covers_all_combinations() {
    for tier in [1u8, 2, 3, 4] {
        for at in [
            AssetType::Algorithm,
            AssetType::Certificate,
            AssetType::Key,
            AssetType::ProtocolEndpoint,
            AssetType::LibraryDependency,
        ] {
            let s = recommended_action(tier, at);
            assert!(!s.is_empty(), "empty action for tier {} {:?}", tier, at);
        }
    }
}

#[test]
fn score_asset_end_to_end() {
    let mut a = algo_asset("RSA", Some(2048));
    a.asset_type = AssetType::Certificate;
    a.data_classification = Some(Classification::Protected);
    a.data_retention_horizon_year = Some(2050);
    a.migration_difficulty = MigrationDifficulty::Low;
    let sys = System::new(
        "Payments".to_string(),
        None,
        Classification::Protected,
        Criticality::MissionCritical,
        true,
        None,
    );
    let s = score_asset(&a, Some(&sys), TODAY);
    assert_eq!(s.algorithm_vulnerability, 9);
    assert_eq!(s.data_sensitivity, 6);
    assert_eq!(s.harvest_now_decrypt_later, 10);
    assert_eq!(s.system_criticality, 10);
    assert_eq!(s.migration_difficulty, 3);
    assert!(s.priority >= 70);
    assert_eq!(s.triage_tier, 1);
    assert!(s.recommended_action.contains("ML-DSA"));
}

#[test]
fn priority_exact_tenths() {
    // 3*9 + 3*10 + 1.5*6 + 1.5*10 + 1*3 = 84.0 hundredths-of-ten: 8.4
    assert_eq!(priority(9, 10, 6, 10, 3), 84);
    // 0.3*1 + 0 + 0 + 0 + 0.1*1 = 0.4
    assert_eq!(priority(1, 0, 0, 0, 1), 4);
    // 0.15*1 = 0.15 rounds half up to 0.2
    assert_eq!(priority(0, 0, 1, 0, 0), 2);
}
