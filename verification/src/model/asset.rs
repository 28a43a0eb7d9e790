use vstd::prelude::*;
use crate::clock::{new_id, now_nanos, valid_instant};
use crate::model::json::{JsonObject, JsonView};
use crate::model::system::Classification;
use crate::text::{chars_of, eq_str, trim, trim_chars};

verus! {

#[derive(Debug, Clone, Copy, PartialEq, Eq, Structural)]
pub enum AssetType {
    Algorithm,
    Certificate,
    Key,
    ProtocolEndpoint,
    LibraryDependency,
}

#[derive(Debug, Clone, Copy, PartialEq, Eq, Structural)]
pub enum Primitive {
    BlockCipher,
    StreamCipher,
    Hash,
    Signature,
    KeyAgreement,
    Kem,
    Pke,
    Mac,
    Drbg,
}

#[derive(Debug, Clone, Copy, PartialEq, Eq, Structural)]
pub enum PqcStatus {
    Vulnerable,
    Hybrid,
    Resistant,
    SymmetricOk,
    Unknown,
}

#[derive(Debug, Clone, Copy, PartialEq, Eq, Structural)]
pub enum MigrationDifficulty {
    Trivial,
    Low,
    Medium,
    High,
    HardwareLocked,
}

#[derive(Debug, Clone, Copy, PartialEq, Eq, Structural)]
pub enum MigrationStatus {
    NotStarted,
    Planned,
    InProgress,
    Migrated,
    NotApplicable,
}

#[derive(Debug, Clone, Copy, PartialEq, Eq, Structural)]
pub enum TargetMilestone {
    Y2026,
    Y2028,
    Y2030,
}

impl TargetMilestone {
    pub open spec fn year_spec(self) -> u16 {
        match self {
            TargetMilestone::Y2026 => 2026,
            TargetMilestone::Y2028 => 2028,
            TargetMilestone::Y2030 => 2030,
        }
    }

    /// The milestone's year.
    pub fn year(self) -> (r: u16)
        ensures
            r == self.year_spec(),
    {
        match self {
            TargetMilestone::Y2026 => 2026,
            TargetMilestone::Y2028 => 2028,
            TargetMilestone::Y2030 => 2030,
        }
    }

    /// The milestone named by `value` once surrounding white space is removed.
    pub open spec fn parse_spec(value: Seq<char>) -> Option<TargetMilestone> {
        let t = trim(value);
        if t == "2026"@ {
            Some(TargetMilestone::Y2026)
        } else if t == "2028"@ {
            Some(TargetMilestone::Y2028)
        } else if t == "2030"@ {
            Some(TargetMilestone::Y2030)
        } else {
            None
        }
    }

    pub fn parse(value: &str) -> (r: Option<TargetMilestone>)
        ensures
            r == Self::parse_spec(value@),
    {
        let cs = chars_of(value);
        let t = trim_chars(cs.as_slice());
        if eq_str(t.as_slice(), "2026") {
            Some(TargetMilestone::Y2026)
        } else if eq_str(t.as_slice(), "2028") {
            Some(TargetMilestone::Y2028)
        } else if eq_str(t.as_slice(), "2030") {
            Some(TargetMilestone::Y2030)
        } else {
            None
        }
    }
}

/// A cryptographic asset in the canonical inventory.
///
/// Identifiers are 128-bit UUID values; instants are nanoseconds since the
/// Unix epoch (UTC).
pub struct CryptoAsset {
    pub id: u128,
    pub asset_type: AssetType,
    pub algorithm_name: String,
    pub algorithm_oid: Option<String>,
    pub primitive: Option<Primitive>,
    pub parameter_set: JsonObject,
    pub pqc_status: PqcStatus,
    pub quantum_vulnerable: bool,
    pub name: String,
    pub description: Option<String>,
    pub system_id: Option<u128>,
    pub data_classification: Option<Classification>,
    pub data_retention_horizon_year: Option<u16>,
    pub migration_difficulty: MigrationDifficulty,
    pub migration_status: MigrationStatus,
    pub target_milestone: Option<TargetMilestone>,
    pub tags: Vec<String>,
    pub first_seen_at: i128,
    pub last_seen_at: i128,
    pub notes: Option<String>,
}

/// The mathematical model of a `CryptoAsset`: strings as character
/// sequences, the parameter set as its list of members.
pub struct AssetView {
    pub id: u128,
    pub asset_type: AssetType,
    pub algorithm_name: Seq<char>,
    pub algorithm_oid: Option<Seq<char>>,
    pub primitive: Option<Primitive>,
    pub parameter_set: Seq<(Seq<char>, JsonView)>,
    pub pqc_status: PqcStatus,
    pub quantum_vulnerable: bool,
    pub name: Seq<char>,
    pub description: Option<Seq<char>>,
    pub system_id: Option<u128>,
    pub data_classification: Option<Classification>,
    pub data_retention_horizon_year: Option<u16>,
    pub migration_difficulty: MigrationDifficulty,
    pub migration_status: MigrationStatus,
    pub target_milestone: Option<TargetMilestone>,
    pub tags: Seq<Seq<char>>,
    pub first_seen_at: i128,
    pub last_seen_at: i128,
    pub notes: Option<Seq<char>>,
}

/// The model of an optional string.
pub open spec fn opt_view(s: Option<String>) -> Option<Seq<char>> {
    match s {
        Some(v) => Some(v@),
        None => None,
    }
}

impl View for CryptoAsset {
    type V = AssetView;

    open spec fn view(&self) -> AssetView {
        AssetView {
            id: self.id,
            asset_type: self.asset_type,
            algorithm_name: self.algorithm_name@,
            algorithm_oid: opt_view(self.algorithm_oid),
            primitive: self.primitive,
            parameter_set: self.parameter_set@,
            pqc_status: self.pqc_status,
            quantum_vulnerable: self.quantum_vulnerable,
            name: self.name@,
            description: opt_view(self.description),
            system_id: self.system_id,
            data_classification: self.data_classification,
            data_retention_horizon_year: self.data_retention_horizon_year,
            migration_difficulty: self.migration_difficulty,
            migration_status: self.migration_status,
            target_milestone: self.target_milestone,
            tags: self.tags@.map_values(|t: String| t@),
            first_seen_at: self.first_seen_at,
            last_seen_at: self.last_seen_at,
            notes: opt_view(self.notes),
        }
    }
}

impl CryptoAsset {
    /// A new asset, first seen now, with a fresh identifier, an empty
    /// parameter set and no user-set fields.
    pub fn new(
        asset_type: AssetType,
        algorithm_name: String,
        name: String,
        pqc_status: PqcStatus,
        quantum_vulnerable: bool,
        migration_difficulty: MigrationDifficulty,
    ) -> (r: CryptoAsset)
        ensures
            r.asset_type == asset_type,
            r.algorithm_name == algorithm_name,
            r.name == name,
            r.pqc_status == pqc_status,
            r.quantum_vulnerable == quantum_vulnerable,
            r.migration_difficulty == migration_difficulty,
            r.algorithm_oid is None,
            r.primitive is None,
            r.parameter_set@.len() == 0,
            r.description is None,
            r.system_id is None,
            r.data_classification is None,
            r.data_retention_horizon_year is None,
            r.migration_status == MigrationStatus::NotStarted,
            r.target_milestone is None,
            r.tags@.len() == 0,
            r.first_seen_at == r.last_seen_at,
            valid_instant(r.first_seen_at),
            r.notes is None,
    {
        let now = now_nanos();
        CryptoAsset {
            id: new_id(),
            asset_type,
            algorithm_name,
            algorithm_oid: None,
            primitive: None,
            parameter_set: JsonObject::new(),
            pqc_status,
            quantum_vulnerable,
            name,
            description: None,
            system_id: None,
            data_classification: None,
            data_retention_horizon_year: None,
            migration_difficulty,
            migration_status: MigrationStatus::NotStarted,
            target_milestone: None,
            tags: Vec::new(),
            first_seen_at: now,
            last_seen_at: now,
            notes: None,
        }
    }
}

} // verus!
