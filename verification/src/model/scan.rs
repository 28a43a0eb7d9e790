use vstd::prelude::*;
use crate::clock::{new_id, now_nanos, valid_instant};
use crate::model::finding::Finding;
use crate::model::json::JsonValue;

verus! {

#[derive(Debug, Clone, Copy, PartialEq, Eq, Structural)]
pub enum ScanType {
    Codebase,
    TlsEndpoint,
    CertificateStore,
}

#[derive(Debug, Clone, Copy, PartialEq, Eq, Structural)]
pub enum ScanStatus {
    Queued,
    Running,
    Completed,
    Failed,
    Cancelled,
}

/// One run of a scanner and the findings it made.
pub struct Scan {
    pub id: u128,
    pub name: String,
    pub scan_type: ScanType,
    pub status: ScanStatus,
    pub target: String,
    /// The options the scan ran with, carried as a JSON document.
    pub config: JsonValue,
    pub started_at: i128,
    pub completed_at: Option<i128>,
    pub findings: Vec<Finding>,
    pub error_message: Option<String>,
}

impl Scan {
    /// A new queued scan, started now, with no findings.
    pub fn new(name: String, scan_type: ScanType, target: String) -> (r: Scan)
        ensures
            r.name == name,
            r.scan_type == scan_type,
            r.status == ScanStatus::Queued,
            r.target == target,
            r.config == JsonValue::Null,
            valid_instant(r.started_at),
            r.completed_at is None,
            r.findings@.len() == 0,
            r.error_message is None,
    {
        Scan {
            id: new_id(),
            name,
            scan_type,
            status: ScanStatus::Queued,
            target,
            config: JsonValue::Null,
            started_at: now_nanos(),
            completed_at: None,
            findings: Vec::new(),
            error_message: None,
        }
    }
}

/// `new` is `old` completed at an instant the time crate represents, all
/// else kept.
pub open spec fn completed_from(new: Scan, old: Scan) -> bool {
    &&& new.status == ScanStatus::Completed
    &&& new.completed_at matches Some(t) && valid_instant(t)
    &&& new.id == old.id
    &&& new.name == old.name
    &&& new.scan_type == old.scan_type
    &&& new.target == old.target
    &&& new.config == old.config
    &&& new.started_at == old.started_at
    &&& new.findings == old.findings
    &&& new.error_message == old.error_message
}

impl Scan {
    /// Marks the scan completed, now.
    pub fn complete(&mut self)
        ensures
            completed_from(*final(self), *old(self)),
    {
        self.status = ScanStatus::Completed;
        self.completed_at = Some(now_nanos());
    }
}

} // verus!
