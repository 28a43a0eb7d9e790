use vstd::prelude::*;

verus! {

/// The ASD LATICE risk score of one asset.
///
/// `priority` is held in tenths: a priority of 7.4 is stored as 74.
pub struct RiskScore {
    pub algorithm_vulnerability: u8,
    pub data_sensitivity: u8,
    pub harvest_now_decrypt_later: u8,
    pub system_criticality: u8,
    pub migration_difficulty: u8,
    pub priority: u16,
    pub triage_tier: u8,
    pub recommended_action: String,
}

} // verus!
