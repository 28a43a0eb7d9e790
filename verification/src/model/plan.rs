use vstd::prelude::*;
use crate::clock::{new_id, now_nanos, valid_instant};
use crate::model::asset::TargetMilestone;

verus! {

#[derive(Debug, Clone, Copy, PartialEq, Eq, Structural)]
pub enum PlanItemStatus {
    Pending,
    InProgress,
    Complete,
    Deferred,
    NotApplicable,
}

/// One asset's entry in a transition plan. `priority` is held in tenths.
pub struct PlanItem {
    pub id: u128,
    pub crypto_asset_id: u128,
    pub asset_name: String,
    pub algorithm_name: String,
    pub triage_tier: u8,
    pub priority: u16,
    pub target_action: String,
    pub target_date: Option<i128>,
    pub assignee: Option<String>,
    pub notes: Option<String>,
    pub status: PlanItemStatus,
}

/// A transition plan against one ASD milestone.
pub struct Plan {
    pub id: u128,
    pub name: String,
    pub milestone: TargetMilestone,
    pub generated_at: i128,
    pub items: Vec<PlanItem>,
}

impl Plan {
    /// A new plan with no items, generated now.
    pub fn new(name: String, milestone: TargetMilestone) -> (r: Plan)
        ensures
            r.name == name,
            r.milestone == milestone,
            valid_instant(r.generated_at),
            r.items@.len() == 0,
    {
        Plan { id: new_id(), name, milestone, generated_at: now_nanos(), items: Vec::new() }
    }
}

/// A day of the proleptic Gregorian calendar.
#[derive(Debug, Clone, Copy, PartialEq, Eq, Structural)]
pub struct CalendarDate {
    pub year: i32,
    pub month: u8,
    pub day: u8,
}

/// The month in which work of a given triage tier is due: tier 1 in March,
/// tier 2 in June, tier 3 in September, any other tier in December.
pub open spec fn front_loaded_month(tier: u8) -> u8 {
    if tier == 1 {
        3
    } else if tier == 2 {
        6
    } else if tier == 3 {
        9
    } else {
        12
    }
}

/// The first day of the due month, in the milestone's year.
pub fn front_loaded_target_date(milestone: TargetMilestone, tier: u8) -> (r: CalendarDate)
    ensures
        r.year == milestone.year_spec() as i32,
        r.month == front_loaded_month(tier),
        r.day == 1,
{
    let year = milestone.year() as i32;
    let month: u8 = if tier == 1 {
        3
    } else if tier == 2 {
        6
    } else if tier == 3 {
        9
    } else {
        12
    };
    CalendarDate { year, month, day: 1 }
}

} // verus!
