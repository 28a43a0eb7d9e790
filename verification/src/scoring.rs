//! The scoring engine for the ASD LATICE rubric. No I/O.

use vstd::prelude::*;
use vstd::string::*;
use crate::clock::{utc_year, utc_year_of, valid_instant};
use crate::model::asset::{AssetType, CryptoAsset, MigrationDifficulty, PqcStatus};
use crate::model::json::{vget, JsonView};
use crate::model::score::RiskScore;
use crate::model::system::{Classification, Criticality, System};
use crate::text::{
    chars_of, contains, contains_str, eq_str, lower_char, lower_char_exec, starts_with,
    starts_with_str,
};

verus! {

/// The score of an algorithm that no rule recognises.
pub const ALGO_UNKNOWN_DEFAULT: u8 = 7;

/// The harvest-now-decrypt-later score when no retention horizon is known.
pub const HNDL_NO_HORIZON_DEFAULT: u8 = 5;

/// One character of an algorithm name, normalised: ASCII lower case, with
/// space, `_` and `/` turned into `-`.
pub open spec fn normalise_char(c: char) -> char {
    if c == ' ' || c == '_' || c == '/' {
        '-'
    } else {
        lower_char(c)
    }
}

/// Every `--` replaced by `-`, scanning left to right without overlap
/// (`str::replace("--", "-")`).
pub open spec fn collapse_dashes(s: Seq<char>) -> Seq<char>
    decreases s.len(),
{
    if s.len() == 0 {
        s
    } else if s.len() >= 2 && s[0] == '-' && s[1] == '-' {
        seq!['-'] + collapse_dashes(s.skip(2))
    } else {
        seq![s[0]] + collapse_dashes(s.drop_first())
    }
}

/// An algorithm name normalised for class matching.
pub open spec fn normalise(name: Seq<char>) -> Seq<char> {
    collapse_dashes(name.map_values(|c: char| normalise_char(c)))
}

fn collapse_dashes_exec(s: &[char]) -> (r: Vec<char>)
    ensures
        r@ == collapse_dashes(s@),
{
    let mut out: Vec<char> = Vec::new();
    let mut i: usize = 0;
    assert(s@.skip(0) =~= s@);
    assert(out@ + collapse_dashes(s@) =~= collapse_dashes(s@));
    while i < s.len()
        invariant
            i <= s.len(),
            out@ + collapse_dashes(s@.skip(i as int)) == collapse_dashes(s@),
        decreases s.len() - i,
    {
        let ghost rest = s@.skip(i as int);
        if s[i] == '-' && i + 1 < s.len() && s[i + 1] == '-' {
            proof {
                assert(rest[0] == s@[i as int] && rest[1] == s@[i + 1]);
                assert(rest.skip(2) =~= s@.skip(i + 2));
                assert(out@.push('-') + collapse_dashes(s@.skip(i + 2)) =~= out@ + collapse_dashes(rest));
            }
            out.push('-');
            i = i + 2;
        } else {
            proof {
                assert(rest[0] == s@[i as int]);
                if rest.len() >= 2 {
                    assert(rest[1] == s@[i + 1]);
                }
                assert(rest.drop_first() =~= s@.skip(i + 1));
                assert(out@.push(s@[i as int]) + collapse_dashes(s@.skip(i + 1)) =~= out@ + collapse_dashes(rest));
            }
            out.push(s[i]);
            i = i + 1;
        }
    }
    assert(s@.skip(s.len() as int) =~= Seq::<char>::empty());
    assert(out@ + Seq::<char>::empty() =~= out@);
    out
}

/// Normalises an algorithm string for class matching.
fn normalise_algorithm(name: &str) -> (r: Vec<char>)
    ensures
        r@ == normalise(name@),
{
    let cs = chars_of(name);
    let mut mapped: Vec<char> = Vec::new();
    let mut i: usize = 0;
    while i < cs.len()
        invariant
            i <= cs.len(),
            mapped@ == cs@.take(i as int).map_values(|c: char| normalise_char(c)),
        decreases cs.len() - i,
    {
        let c = cs[i];
        let n = if c == ' ' || c == '_' || c == '/' {
            '-'
        } else {
            lower_char_exec(c)
        };
        mapped.push(n);
        assert(cs@.take(i + 1).map_values(|c: char| normalise_char(c)) =~= cs@.take(
            i as int,
        ).map_values(|c: char| normalise_char(c)).push(normalise_char(cs@[i as int])));
        i = i + 1;
    }
    assert(cs@.take(cs.len() as int) =~= cs@);
    collapse_dashes_exec(mapped.as_slice())
}

/// The key size an asset's parameter set records: member `key_size_bits`,
/// or `bits` when that is absent, read as a non-negative integer and
/// truncated to 32 bits.
pub open spec fn key_size_bits_spec(params: Seq<(Seq<char>, JsonView)>) -> Option<u32> {
    let member = match vget(params, "key_size_bits"@) {
        Some(v) => Some(v),
        None => vget(params, "bits"@),
    };
    match member {
        Some(v) => match v.u64_of() {
            Some(n) => Some(n as u32),
            None => None,
        },
        None => None,
    }
}

fn key_size_bits(asset: &CryptoAsset) -> (r: Option<u32>)
    ensures
        r == key_size_bits_spec(asset.parameter_set@),
{
    let member = match asset.parameter_set.get("key_size_bits") {
        Some(v) => Some(v),
        None => asset.parameter_set.get("bits"),
    };
    match member {
        Some(v) => match v.as_u64() {
            Some(n) => Some(#[verifier::truncate] (n as u32)),
            None => None,
        },
        None => None,
    }
}

/// Broken or sub-broken classical primitives.
pub open spec fn is_broken(a: Seq<char>, bits: Option<u32>) -> bool {
    ||| contains(a, "md5"@)
    ||| contains(a, "md4"@)
    ||| contains(a, "md2"@)
    ||| contains(a, "sha-0"@)
    ||| contains(a, "sha0"@)
    ||| a == "sha1"@
    ||| contains(a, "sha-1"@)
    ||| (contains(a, "rsa"@) && bits == Some(1024u32))
    ||| (contains(a, "dsa"@) && !contains(a, "ecdsa"@) && !contains(a, "eddsa"@) && bits == Some(
        1024u32,
    ))
    ||| contains(a, "rc4"@)
    ||| contains(a, "3des"@)
    ||| contains(a, "des-"@)
    ||| a == "des"@
}

/// RSA-2048, ECDSA P-256, DH-2048, ECDH P-256.
pub open spec fn is_classic_2048(a: Seq<char>, bits: Option<u32>) -> bool {
    ||| (contains(a, "rsa"@) && bits == Some(2048u32))
    ||| contains(a, "ecdsa-p256"@)
    ||| contains(a, "ecdsa-p-256"@)
    ||| a == "p-256"@
    ||| (contains(a, "ecdsa"@) && contains(a, "256"@))
    ||| (contains(a, "ecdh"@) && contains(a, "256"@))
    ||| (a == "dh"@ && bits == Some(2048u32))
    ||| (contains(a, "dh-"@) && bits == Some(2048u32))
}

/// RSA-3072 and larger, ECDSA P-384, ECDSA P-521.
pub open spec fn is_classic_large(a: Seq<char>, bits: Option<u32>) -> bool {
    ||| (contains(a, "rsa"@) && (bits == Some(3072u32) || bits == Some(4096u32) || bits == Some(
        8192u32,
    )))
    ||| contains(a, "p-384"@)
    ||| contains(a, "p384"@)
    ||| contains(a, "p-521"@)
    ||| contains(a, "p521"@)
    ||| (contains(a, "ecdsa"@) && (contains(a, "384"@) || contains(a, "521"@)))
}

/// Post-quantum primitives, by name.
pub open spec fn is_pqc_name(a: Seq<char>) -> bool {
    ||| starts_with(a, "ml-kem"@)
    ||| starts_with(a, "mlkem"@)
    ||| starts_with(a, "kyber"@)
    ||| starts_with(a, "ml-dsa"@)
    ||| starts_with(a, "mldsa"@)
    ||| starts_with(a, "dilithium"@)
    ||| starts_with(a, "slh-dsa"@)
    ||| starts_with(a, "slhdsa"@)
    ||| starts_with(a, "sphincs"@)
    ||| contains(a, "falcon"@)
    ||| starts_with(a, "hqc"@)
}

/// Symmetric primitives that remain safe.
pub open spec fn is_safe_symmetric(a: Seq<char>, bits: Option<u32>) -> bool {
    ||| contains(a, "aes-256"@)
    ||| a == "aes256"@
    ||| (contains(a, "aes"@) && (contains(a, "gcm"@) || contains(a, "ccm"@)) && match bits {
        Some(b) => b >= 256,
        None => false,
    })
    ||| contains(a, "sha-256"@)
    ||| contains(a, "sha256"@)
    ||| contains(a, "sha-384"@)
    ||| contains(a, "sha384"@)
    ||| contains(a, "sha-512"@)
    ||| contains(a, "sha512"@)
    ||| contains(a, "sha3-"@)
    ||| contains(a, "shake"@)
    ||| contains(a, "chacha20"@)
    ||| contains(a, "poly1305"@)
    ||| contains(a, "hmac-sha256"@)
    ||| contains(a, "hmac-sha384"@)
    ||| contains(a, "hmac-sha512"@)
}

/// Asymmetric primitives with no explicit size, and other classical curves.
pub open spec fn is_asymmetric(a: Seq<char>) -> bool {
    ||| contains(a, "rsa"@)
    ||| contains(a, "ecdsa"@)
    ||| contains(a, "ecdh"@)
    ||| contains(a, "dh"@)
    ||| contains(a, "dsa"@)
    ||| contains(a, "ed25519"@)
    ||| contains(a, "ed448"@)
    ||| contains(a, "x25519"@)
    ||| contains(a, "x448"@)
}

/// The vulnerability score of a normalised algorithm name with the given key
/// size: the first rule that applies decides.
pub open spec fn algo_class_score(a: Seq<char>, bits: Option<u32>) -> u8 {
    if is_broken(a, bits) {
        10
    } else if is_classic_2048(a, bits) {
        9
    } else if is_classic_large(a, bits) {
        8
    } else if is_pqc_name(a) {
        1
    } else if is_safe_symmetric(a, bits) {
        0
    } else if is_asymmetric(a) {
        if contains(a, "ed25519"@) || contains(a, "x25519"@) || contains(a, "ed448"@) || contains(
            a,
            "x448"@,
        ) {
            8
        } else {
            9
        }
    } else {
        ALGO_UNKNOWN_DEFAULT
    }
}

/// The algorithm vulnerability score, 0 (PQC ready) to 10 (broken).
pub open spec fn algo_vuln_spec(asset: CryptoAsset) -> u8 {
    match asset.pqc_status {
        PqcStatus::Hybrid => 5,
        PqcStatus::Resistant => 1,
        PqcStatus::SymmetricOk => 0,
        _ => algo_class_score(
            normalise(asset.algorithm_name@),
            key_size_bits_spec(asset.parameter_set@),
        ),
    }
}

fn is_broken_exec(a: &[char], bits: Option<u32>) -> (r: bool)
    ensures
        r == is_broken(a@, bits),
{
    contains_str(a, "md5") || contains_str(a, "md4") || contains_str(a, "md2") || contains_str(
        a,
        "sha-0",
    ) || contains_str(a, "sha0") || eq_str(a, "sha1") || contains_str(a, "sha-1") || (
    contains_str(a, "rsa") && bits == Some(1024u32)) || (contains_str(a, "dsa") && !contains_str(
        a,
        "ecdsa",
    ) && !contains_str(a, "eddsa") && bits == Some(1024u32)) || contains_str(a, "rc4")
        || contains_str(a, "3des") || contains_str(a, "des-") || eq_str(a, "des")
}

fn is_classic_2048_exec(a: &[char], bits: Option<u32>) -> (r: bool)
    ensures
        r == is_classic_2048(a@, bits),
{
    (contains_str(a, "rsa") && bits == Some(2048u32)) || contains_str(a, "ecdsa-p256")
        || contains_str(a, "ecdsa-p-256") || eq_str(a, "p-256") || (contains_str(a, "ecdsa")
        && contains_str(a, "256")) || (contains_str(a, "ecdh") && contains_str(a, "256")) || (
    eq_str(a, "dh") && bits == Some(2048u32)) || (contains_str(a, "dh-") && bits == Some(
        2048u32,
    ))
}

fn is_classic_large_exec(a: &[char], bits: Option<u32>) -> (r: bool)
    ensures
        r == is_classic_large(a@, bits),
{
    (contains_str(a, "rsa") && (bits == Some(3072u32) || bits == Some(4096u32) || bits == Some(
        8192u32,
    ))) || contains_str(a, "p-384") || contains_str(a, "p384") || contains_str(a, "p-521")
        || contains_str(a, "p521") || (contains_str(a, "ecdsa") && (contains_str(a, "384")
        || contains_str(a, "521")))
}

fn is_pqc_name_exec(a: &[char]) -> (r: bool)
    ensures
        r == is_pqc_name(a@),
{
    starts_with_str(a, "ml-kem") || starts_with_str(a, "mlkem") || starts_with_str(a, "kyber")
        || starts_with_str(a, "ml-dsa") || starts_with_str(a, "mldsa") || starts_with_str(
        a,
        "dilithium",
    ) || starts_with_str(a, "slh-dsa") || starts_with_str(a, "slhdsa") || starts_with_str(
        a,
        "sphincs",
    ) || contains_str(a, "falcon") || starts_with_str(a, "hqc")
}

fn is_safe_symmetric_exec(a: &[char], bits: Option<u32>) -> (r: bool)
    ensures
        r == is_safe_symmetric(a@, bits),
{
    let big = match bits {
        Some(b) => b >= 256,
        None => false,
    };
    contains_str(a, "aes-256") || eq_str(a, "aes256") || (contains_str(a, "aes") && (
    contains_str(a, "gcm") || contains_str(a, "ccm")) && big) || contains_str(a, "sha-256")
        || contains_str(a, "sha256") || contains_str(a, "sha-384") || contains_str(a, "sha384")
        || contains_str(a, "sha-512") || contains_str(a, "sha512") || contains_str(a, "sha3-")
        || contains_str(a, "shake") || contains_str(a, "chacha20") || contains_str(a, "poly1305")
        || contains_str(a, "hmac-sha256") || contains_str(a, "hmac-sha384") || contains_str(
        a,
        "hmac-sha512",
    )
}

fn is_asymmetric_exec(a: &[char]) -> (r: bool)
    ensures
        r == is_asymmetric(a@),
{
    contains_str(a, "rsa") || contains_str(a, "ecdsa") || contains_str(a, "ecdh") || contains_str(
        a,
        "dh",
    ) || contains_str(a, "dsa") || contains_str(a, "ed25519") || contains_str(a, "ed448")
        || contains_str(a, "x25519") || contains_str(a, "x448")
}

/// Returns the algorithm vulnerability score, 0 (PQC ready) to 10 (broken).
pub fn algo_vuln_score(asset: &CryptoAsset) -> (r: u8)
    ensures
        r == algo_vuln_spec(*asset),
        r <= 10,
{
    match asset.pqc_status {
        PqcStatus::Hybrid => {
            return 5;
        },
        PqcStatus::Resistant => {
            return 1;
        },
        PqcStatus::SymmetricOk => {
            return 0;
        },
        _ => {},
    }
    let algo = normalise_algorithm(asset.algorithm_name.as_str());
    let a = algo.as_slice();
    let bits = key_size_bits(asset);
    if is_broken_exec(a, bits) {
        return 10;
    }
    if is_classic_2048_exec(a, bits) {
        return 9;
    }
    if is_classic_large_exec(a, bits) {
        return 8;
    }
    if is_pqc_name_exec(a) {
        return 1;
    }
    if is_safe_symmetric_exec(a, bits) {
        return 0;
    }
    if is_asymmetric_exec(a) {
        if contains_str(a, "ed25519") || contains_str(a, "x25519") {
            return 8;
        }
        if contains_str(a, "ed448") || contains_str(a, "x448") {
            return 8;
        }
        return 9;
    }
    ALGO_UNKNOWN_DEFAULT
}


/// The data sensitivity score of a classification.
pub open spec fn data_sens_spec(c: Option<Classification>) -> u8 {
    match c {
        Some(Classification::TopSecret) => 10,
        Some(Classification::Secret) => 8,
        Some(Classification::Protected) => 6,
        Some(Classification::OfficialSensitive) => 4,
        Some(Classification::Official) => 2,
        Some(Classification::Unofficial) => 0,
        None => 0,
    }
}

pub fn data_sens_score(asset: &CryptoAsset) -> (r: u8)
    ensures
        r == data_sens_spec(asset.data_classification),
        r <= 10,
{
    match asset.data_classification {
        Some(Classification::TopSecret) => 10,
        Some(Classification::Secret) => 8,
        Some(Classification::Protected) => 6,
        Some(Classification::OfficialSensitive) => 4,
        Some(Classification::Official) => 2,
        Some(Classification::Unofficial) => 0,
        None => 0,
    }
}

/// The number of years the protected data must stay confidential: until the
/// asset's retention horizon (never below zero), else the system's expected
/// data lifetime, else unknown.
pub open spec fn years_remaining_spec(
    horizon: Option<u16>,
    current_year: u16,
    system: Option<System>,
) -> Option<u16> {
    match horizon {
        Some(year) => Some(if year >= current_year { (year - current_year) as u16 } else { 0 }),
        None => match system {
            Some(sys) => sys.expected_data_lifetime_years,
            None => None,
        },
    }
}

/// The harvest-now-decrypt-later score of a number of remaining years.
pub open spec fn hndl_bucket(years: Option<u16>) -> u8 {
    match years {
        Some(y) => if y >= 15 {
            10
        } else if y >= 10 {
            8
        } else if y >= 5 {
            6
        } else if y >= 2 {
            3
        } else {
            0
        },
        None => HNDL_NO_HORIZON_DEFAULT,
    }
}

/// The harvest-now-decrypt-later score, given the current calendar year.
pub fn hndl_score_for_year(asset: &CryptoAsset, current_year: u16, system: Option<&System>) -> (r:
    u8)
    ensures
        r == hndl_bucket(
            years_remaining_spec(
                asset.data_retention_horizon_year,
                current_year,
                match system {
                    Some(s) => Some(*s),
                    None => None,
                },
            ),
        ),
        r <= 10,
{
    let years_remaining: Option<u16> = match asset.data_retention_horizon_year {
        Some(year) => Some(year.saturating_sub(current_year)),
        None => match system {
            Some(sys) => sys.expected_data_lifetime_years,
            None => None,
        },
    };
    match years_remaining {
        Some(y) => if y >= 15 {
            10
        } else if y >= 10 {
            8
        } else if y >= 5 {
            6
        } else if y >= 2 {
            3
        } else {
            0
        },
        None => HNDL_NO_HORIZON_DEFAULT,
    }
}

/// The harvest-now-decrypt-later score at the instant `today`: the calendar
/// year of `today`, truncated to 16 bits, is the current year.
pub fn hndl_score(asset: &CryptoAsset, today: i128, system: Option<&System>) -> (r: u8)
    requires
        valid_instant(today),
    ensures
        r == hndl_bucket(
            years_remaining_spec(
                asset.data_retention_horizon_year,
                utc_year_of(today) as u16,
                match system {
                    Some(s) => Some(*s),
                    None => None,
                },
            ),
        ),
        r <= 10,
{
    let year = utc_year(today);
    let current_year: u16 = #[verifier::truncate] (year as u16);
    hndl_score_for_year(asset, current_year, system)
}

/// The system criticality score: 10 for a mission-critical or SOCI system,
/// 7 essential, 4 standard, 1 low; 4 when no system is attached.
pub open spec fn system_crit_spec(system: Option<System>) -> u8 {
    match system {
        Some(s) => if s.criticality == Criticality::MissionCritical || s.is_soci {
            10
        } else if s.criticality == Criticality::Essential {
            7
        } else if s.criticality == Criticality::Standard {
            4
        } else {
            1
        },
        None => 4,
    }
}

pub fn system_crit_score(system: Option<&System>) -> (r: u8)
    ensures
        r == system_crit_spec(
            match system {
                Some(s) => Some(*s),
                None => None,
            },
        ),
        r <= 10,
        // A SOCI critical asset forces the system criticality to 10.
        (system matches Some(s) && s.is_soci) ==> r == 10,
{
    match system {
        Some(s) => {
            if matches!(s.criticality, Criticality::MissionCritical) || s.is_soci {
                10
            } else if matches!(s.criticality, Criticality::Essential) {
                7
            } else if matches!(s.criticality, Criticality::Standard) {
                4
            } else {
                1
            }
        },
        None => 4,
    }
}

/// The migration difficulty score.
pub open spec fn mig_diff_spec(d: MigrationDifficulty) -> u8 {
    match d {
        MigrationDifficulty::HardwareLocked => 10,
        MigrationDifficulty::High => 8,
        MigrationDifficulty::Medium => 6,
        MigrationDifficulty::Low => 3,
        MigrationDifficulty::Trivial => 1,
    }
}

pub fn mig_diff_score(asset: &CryptoAsset) -> (r: u8)
    ensures
        r == mig_diff_spec(asset.migration_difficulty),
        1 <= r <= 10,
{
    match asset.migration_difficulty {
        MigrationDifficulty::HardwareLocked => 10,
        MigrationDifficulty::High => 8,
        MigrationDifficulty::Medium => 6,
        MigrationDifficulty::Low => 3,
        MigrationDifficulty::Trivial => 1,
    }
}

/// The weighted sum 0.30 * algo_vuln + 0.30 * hndl + 0.15 * data_sens +
/// 0.15 * sys_crit + 0.10 * mig_diff, in hundredths.
pub open spec fn weighted_hundredths(algo_vuln: u8, hndl: u8, data_sens: u8, sys_crit: u8, mig_diff: u8) -> int {
    30 * algo_vuln + 30 * hndl + 15 * data_sens + 15 * sys_crit + 10 * mig_diff
}

/// The priority in tenths: the weighted sum rounded to one decimal, halves
/// rounded up.
pub open spec fn priority_spec(algo_vuln: u8, hndl: u8, data_sens: u8, sys_crit: u8, mig_diff: u8) -> int {
    (weighted_hundredths(algo_vuln, hndl, data_sens, sys_crit, mig_diff) + 5) / 10
}

/// The priority of an asset, in tenths (a priority of 7.4 is returned as 74).
pub fn priority(algo_vuln: u8, hndl: u8, data_sens: u8, sys_crit: u8, mig_diff: u8) -> (r: u16)
    ensures
        r == priority_spec(algo_vuln, hndl, data_sens, sys_crit, mig_diff),
{
    let raw: u32 = 30 * (algo_vuln as u32) + 30 * (hndl as u32) + 15 * (data_sens as u32) + 15 * (
    sys_crit as u32) + 10 * (mig_diff as u32);
    ((raw + 5) / 10) as u16
}

/// The triage tier's thresholds: priority at least 7.0 with migration
/// difficulty at most 6 is tier 1; otherwise priority at least 6.0, or
/// migration difficulty at least 7 with algorithm vulnerability at least 8,
/// is tier 2; otherwise algorithm vulnerability at least 7 is tier 3; the
/// rest is tier 4. A higher priority or a higher algorithm vulnerability
/// never gives a later tier.
pub proof fn triage_tier_law(p: u16, p2: u16, md: u8, av: u8, av2: u8)
    ensures
        (p >= 70 && md <= 6) ==> triage_tier_spec(p, md, av) == 1,
        (!(p >= 70 && md <= 6) && (p >= 60 || (md >= 7 && av >= 8))) ==> triage_tier_spec(p, md, av)
            == 2,
        (p < 60 && !(md >= 7 && av >= 8) && av >= 7) ==> triage_tier_spec(p, md, av) == 3,
        (p < 60 && av < 7) ==> triage_tier_spec(p, md, av) == 4,
        p <= p2 ==> triage_tier_spec(p2, md, av) <= triage_tier_spec(p, md, av),
        av <= av2 ==> triage_tier_spec(p, md, av2) <= triage_tier_spec(p, md, av),
{
}

/// The triage tier: 1 for priority at least 7.0 with migration difficulty at
/// most 6; 2 for priority at least 6.0, or migration difficulty at least 7
/// with algorithm vulnerability at least 8; 3 for algorithm vulnerability at
/// least 7; 4 otherwise. `priority` is in tenths.
pub open spec fn triage_tier_spec(priority: u16, mig_diff: u8, algo_vuln: u8) -> u8 {
    if priority >= 70 && mig_diff <= 6 {
        1
    } else if priority >= 60 || (mig_diff >= 7 && algo_vuln >= 8) {
        2
    } else if algo_vuln >= 7 {
        3
    } else {
        4
    }
}

pub fn triage_tier(priority: u16, mig_diff: u8, algo_vuln: u8) -> (r: u8)
    ensures
        r == triage_tier_spec(priority, mig_diff, algo_vuln),
        1 <= r <= 4,
{
    if priority >= 70 && mig_diff <= 6 {
        1
    } else if priority >= 60 || (mig_diff >= 7 && algo_vuln >= 8) {
        2
    } else if algo_vuln >= 7 {
        3
    } else {
        4
    }
}

/// The recommended action for an asset of a given type in a given tier.
pub open spec fn action_spec(tier: u8, asset_type: AssetType) -> Seq<char> {
    if tier == 1 {
        match asset_type {
            AssetType::Certificate => "Reissue with ML-DSA-65 before end of 2028"@,
            AssetType::Key => "Rotate to ML-KEM-768 or ML-DSA-65 key material before end of 2028"@,
            AssetType::Algorithm => "Replace algorithm with NIST FIPS 203/204/205 equivalent before end of 2028"@,
            AssetType::ProtocolEndpoint => "Migrate endpoint to TLS 1.3 with PQ hybrid KEM by end of 2028"@,
            AssetType::LibraryDependency => "Upgrade dependency to PQC-capable build immediately and pin version"@,
        }
    } else if tier == 2 {
        match asset_type {
            AssetType::Certificate => "Plan certificate reissuance with ML-DSA before end of 2028"@,
            AssetType::Key => "Schedule key rotation to PQC equivalent inside the 2028 milestone"@,
            AssetType::Algorithm => "Schedule algorithm replacement inside the 2028 milestone window"@,
            AssetType::ProtocolEndpoint => "Plan TLS 1.3 hybrid KEM rollout inside the 2028 milestone window"@,
            AssetType::LibraryDependency => "Upgrade to vendor PQC build when GA; verify roadmap"@,
        }
    } else if tier == 3 {
        match asset_type {
            AssetType::Certificate => "Track certificate for replacement during the 2029 to 2030 rollout window"@,
            AssetType::Key => "Track key for rotation during the 2029 to 2030 rollout window"@,
            AssetType::Algorithm => "Plan replacement during the 2029 to 2030 rollout window"@,
            AssetType::ProtocolEndpoint => "Plan TLS 1.3 hybrid KEM rollout for 2029-2030"@,
            AssetType::LibraryDependency => "Track vendor PQC roadmap; upgrade before 2030"@,
        }
    } else {
        match asset_type {
            AssetType::Certificate => "Monitor; reassess if classification or retention changes"@,
            AssetType::Key => "Monitor; reassess if classification or retention changes"@,
            AssetType::Algorithm => "Monitor; no immediate action required"@,
            AssetType::ProtocolEndpoint => "Monitor; no immediate action required"@,
            AssetType::LibraryDependency => "Monitor vendor roadmap; no immediate action required"@,
        }
    }
}

fn action_text(tier: u8, asset_type: AssetType) -> (r: &'static str)
    ensures
        r@ == action_spec(tier, asset_type),
{
    if tier == 1 {
        match asset_type {
            AssetType::Certificate => "Reissue with ML-DSA-65 before end of 2028",
            AssetType::Key => "Rotate to ML-KEM-768 or ML-DSA-65 key material before end of 2028",
            AssetType::Algorithm => "Replace algorithm with NIST FIPS 203/204/205 equivalent before end of 2028",
            AssetType::ProtocolEndpoint => "Migrate endpoint to TLS 1.3 with PQ hybrid KEM by end of 2028",
            AssetType::LibraryDependency => "Upgrade dependency to PQC-capable build immediately and pin version",
        }
    } else if tier == 2 {
        match asset_type {
            AssetType::Certificate => "Plan certificate reissuance with ML-DSA before end of 2028",
            AssetType::Key => "Schedule key rotation to PQC equivalent inside the 2028 milestone",
            AssetType::Algorithm => "Schedule algorithm replacement inside the 2028 milestone window",
            AssetType::ProtocolEndpoint => "Plan TLS 1.3 hybrid KEM rollout inside the 2028 milestone window",
            AssetType::LibraryDependency => "Upgrade to vendor PQC build when GA; verify roadmap",
        }
    } else if tier == 3 {
        match asset_type {
            AssetType::Certificate => "Track certificate for replacement during the 2029 to 2030 rollout window",
            AssetType::Key => "Track key for rotation during the 2029 to 2030 rollout window",
            AssetType::Algorithm => "Plan replacement during the 2029 to 2030 rollout window",
            AssetType::ProtocolEndpoint => "Plan TLS 1.3 hybrid KEM rollout for 2029-2030",
            AssetType::LibraryDependency => "Track vendor PQC roadmap; upgrade before 2030",
        }
    } else {
        match asset_type {
            AssetType::Certificate => "Monitor; reassess if classification or retention changes",
            AssetType::Key => "Monitor; reassess if classification or retention changes",
            AssetType::Algorithm => "Monitor; no immediate action required",
            AssetType::ProtocolEndpoint => "Monitor; no immediate action required",
            AssetType::LibraryDependency => "Monitor vendor roadmap; no immediate action required",
        }
    }
}

pub fn recommended_action(tier: u8, asset_type: AssetType) -> (r: String)
    ensures
        r@ == action_spec(tier, asset_type),
{
    String::from_str(action_text(tier, asset_type))
}

/// The harvest-now-decrypt-later score of an asset attached to `system`.
pub open spec fn hndl_of(asset: CryptoAsset, system: Option<System>, current_year: u16) -> u8 {
    hndl_bucket(years_remaining_spec(asset.data_retention_horizon_year, current_year, system))
}

/// The priority, in tenths, of an asset attached to `system`.
pub open spec fn priority_of(asset: CryptoAsset, system: Option<System>, current_year: u16) -> u16 {
    priority_spec(
        algo_vuln_spec(asset),
        hndl_of(asset, system, current_year),
        data_sens_spec(asset.data_classification),
        system_crit_spec(system),
        mig_diff_spec(asset.migration_difficulty),
    ) as u16
}

/// The triage tier of an asset attached to `system`.
pub open spec fn tier_of(asset: CryptoAsset, system: Option<System>, current_year: u16) -> u8 {
    triage_tier_spec(
        priority_of(asset, system, current_year),
        mig_diff_spec(asset.migration_difficulty),
        algo_vuln_spec(asset),
    )
}

/// The full risk score of an asset, given the current calendar year.
pub open spec fn score_holds(
    s: RiskScore,
    asset: CryptoAsset,
    system: Option<System>,
    current_year: u16,
) -> bool {
    &&& s.algorithm_vulnerability == algo_vuln_spec(asset)
    &&& s.data_sensitivity == data_sens_spec(asset.data_classification)
    &&& s.harvest_now_decrypt_later == hndl_bucket(
        years_remaining_spec(asset.data_retention_horizon_year, current_year, system),
    )
    &&& s.system_criticality == system_crit_spec(system)
    &&& s.migration_difficulty == mig_diff_spec(asset.migration_difficulty)
    &&& s.priority == priority_spec(
        s.algorithm_vulnerability,
        s.harvest_now_decrypt_later,
        s.data_sensitivity,
        s.system_criticality,
        s.migration_difficulty,
    )
    &&& s.triage_tier == triage_tier_spec(s.priority, s.migration_difficulty, s.algorithm_vulnerability)
    &&& s.recommended_action@ == action_spec(s.triage_tier, asset.asset_type)
    &&& s.priority == priority_of(asset, system, current_year)
    &&& s.triage_tier == tier_of(asset, system, current_year)
}

pub open spec fn opt_system(system: Option<&System>) -> Option<System> {
    match system {
        Some(s) => Some(*s),
        None => None,
    }
}

/// Scores an asset, given the current calendar year.
pub fn score_asset_for_year(asset: &CryptoAsset, system: Option<&System>, current_year: u16) -> (r:
    RiskScore)
    ensures
        score_holds(r, *asset, opt_system(system), current_year),
        1 <= r.triage_tier <= 4,
        r.priority <= 100,
{
    let algo_vuln = algo_vuln_score(asset);
    let data_sens = data_sens_score(asset);
    let hndl = hndl_score_for_year(asset, current_year, system);
    let sys_crit = system_crit_score(system);
    let mig_diff = mig_diff_score(asset);
    let priority_value = priority(algo_vuln, hndl, data_sens, sys_crit, mig_diff);
    let tier = triage_tier(priority_value, mig_diff, algo_vuln);
    let action = recommended_action(tier, asset.asset_type);
    RiskScore {
        algorithm_vulnerability: algo_vuln,
        data_sensitivity: data_sens,
        harvest_now_decrypt_later: hndl,
        system_criticality: sys_crit,
        migration_difficulty: mig_diff,
        priority: priority_value,
        triage_tier: tier,
        recommended_action: action,
    }
}

/// Scores an asset at the instant `today`.
pub fn score_asset(asset: &CryptoAsset, system: Option<&System>, today: i128) -> (r: RiskScore)
    requires
        valid_instant(today),
    ensures
        score_holds(r, *asset, opt_system(system), utc_year_of(today) as u16),
        1 <= r.triage_tier <= 4,
        r.priority <= 100,
{
    let year = utc_year(today);
    let current_year: u16 = #[verifier::truncate] (year as u16);
    score_asset_for_year(asset, system, current_year)
}

} // verus!
