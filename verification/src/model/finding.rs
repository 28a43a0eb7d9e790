use vstd::prelude::*;
use crate::clock::{new_id, now_nanos, valid_instant};
use crate::model::json::Evidence;

verus! {

#[derive(Debug, Clone, Copy, PartialEq, Eq, Structural)]
pub enum SourceType {
    File,
    Url,
    CertSubject,
    Host,
}

#[derive(Debug, Clone, Copy, PartialEq, Eq, Structural)]
pub enum Confidence {
    Low,
    Medium,
    High,
}

#[derive(Debug, Clone, Copy, PartialEq, Eq, Structural)]
pub enum FindingStatus {
    New,
    Confirmed,
    FalsePositive,
    Ignored,
}

/// One observation made by a scanner.
pub struct Finding {
    pub id: u128,
    pub scan_id: u128,
    pub crypto_asset_id: Option<u128>,
    pub source_type: SourceType,
    pub source_location: String,
    pub evidence: Evidence,
    pub confidence: Confidence,
    pub status: FindingStatus,
    pub discovered_at: i128,
}

impl Finding {
    /// A new finding, discovered now, not yet linked to an inventory asset.
    pub fn new(
        scan_id: u128,
        source_type: SourceType,
        source_location: String,
        evidence: Evidence,
        confidence: Confidence,
    ) -> (r: Finding)
        ensures
            r.scan_id == scan_id,
            r.crypto_asset_id is None,
            r.source_type == source_type,
            r.source_location == source_location,
            r.evidence == evidence,
            r.confidence == confidence,
            r.status == FindingStatus::New,
            valid_instant(r.discovered_at),
    {
        Finding {
            id: new_id(),
            scan_id,
            crypto_asset_id: None,
            source_type,
            source_location,
            evidence,
            confidence,
            status: FindingStatus::New,
            discovered_at: now_nanos(),
        }
    }
}

} // verus!
