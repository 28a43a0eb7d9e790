use vstd::prelude::*;
use crate::clock::{new_id, now_nanos, valid_instant};
use crate::text::{chars_of, eq_str, lower, lower_chars};

verus! {

#[derive(Debug, Clone, Copy, PartialEq, Eq, Structural)]
pub enum Classification {
    Unofficial,
    Official,
    OfficialSensitive,
    Protected,
    Secret,
    TopSecret,
}

impl Classification {
    pub open spec fn as_str_spec(self) -> Seq<char> {
        match self {
            Classification::Unofficial => "unofficial"@,
            Classification::Official => "official"@,
            Classification::OfficialSensitive => "official_sensitive"@,
            Classification::Protected => "protected"@,
            Classification::Secret => "secret"@,
            Classification::TopSecret => "top_secret"@,
        }
    }

    pub fn as_str(self) -> (r: &'static str)
        ensures
            r@ == self.as_str_spec(),
    {
        match self {
            Classification::Unofficial => "unofficial",
            Classification::Official => "official",
            Classification::OfficialSensitive => "official_sensitive",
            Classification::Protected => "protected",
            Classification::Secret => "secret",
            Classification::TopSecret => "top_secret",
        }
    }

    /// The classification named by `value`, compared without regard to ASCII
    /// case; `-` is accepted in place of `_`.
    pub open spec fn parse_spec(value: Seq<char>) -> Option<Classification> {
        let l = lower(value);
        if l == "unofficial"@ {
            Some(Classification::Unofficial)
        } else if l == "official"@ {
            Some(Classification::Official)
        } else if l == "official_sensitive"@ || l == "official-sensitive"@ {
            Some(Classification::OfficialSensitive)
        } else if l == "protected"@ {
            Some(Classification::Protected)
        } else if l == "secret"@ {
            Some(Classification::Secret)
        } else if l == "top_secret"@ || l == "top-secret"@ {
            Some(Classification::TopSecret)
        } else {
            None
        }
    }

    pub fn parse(value: &str) -> (r: Option<Classification>)
        ensures
            r == Self::parse_spec(value@),
    {
        let cs = chars_of(value);
        let l = lower_chars(cs.as_slice());
        let l = l.as_slice();
        if eq_str(l, "unofficial") {
            Some(Classification::Unofficial)
        } else if eq_str(l, "official") {
            Some(Classification::Official)
        } else if eq_str(l, "official_sensitive") || eq_str(l, "official-sensitive") {
            Some(Classification::OfficialSensitive)
        } else if eq_str(l, "protected") {
            Some(Classification::Protected)
        } else if eq_str(l, "secret") {
            Some(Classification::Secret)
        } else if eq_str(l, "top_secret") || eq_str(l, "top-secret") {
            Some(Classification::TopSecret)
        } else {
            None
        }
    }
}

#[derive(Debug, Clone, Copy, PartialEq, Eq, Structural)]
pub enum Criticality {
    Low,
    Standard,
    Essential,
    MissionCritical,
}

impl Criticality {
    /// The criticality named by `value`, compared without regard to ASCII
    /// case; `-` is accepted in place of `_`.
    pub open spec fn parse_spec(value: Seq<char>) -> Option<Criticality> {
        let l = lower(value);
        if l == "low"@ {
            Some(Criticality::Low)
        } else if l == "standard"@ {
            Some(Criticality::Standard)
        } else if l == "essential"@ {
            Some(Criticality::Essential)
        } else if l == "mission_critical"@ || l == "mission-critical"@ {
            Some(Criticality::MissionCritical)
        } else {
            None
        }
    }

    pub fn parse(value: &str) -> (r: Option<Criticality>)
        ensures
            r == Self::parse_spec(value@),
    {
        let cs = chars_of(value);
        let l = lower_chars(cs.as_slice());
        let l = l.as_slice();
        if eq_str(l, "low") {
            Some(Criticality::Low)
        } else if eq_str(l, "standard") {
            Some(Criticality::Standard)
        } else if eq_str(l, "essential") {
            Some(Criticality::Essential)
        } else if eq_str(l, "mission_critical") || eq_str(l, "mission-critical") {
            Some(Criticality::MissionCritical)
        } else {
            None
        }
    }

    pub open spec fn as_str_spec(self) -> Seq<char> {
        match self {
            Criticality::Low => "low"@,
            Criticality::Standard => "standard"@,
            Criticality::Essential => "essential"@,
            Criticality::MissionCritical => "mission_critical"@,
        }
    }

    pub fn as_str(self) -> (r: &'static str)
        ensures
            r@ == self.as_str_spec(),
    {
        match self {
            Criticality::Low => "low",
            Criticality::Standard => "standard",
            Criticality::Essential => "essential",
            Criticality::MissionCritical => "mission_critical",
        }
    }
}

/// A business system that assets can be attached to.
pub struct System {
    pub id: u128,
    pub name: String,
    pub description: Option<String>,
    pub classification: Classification,
    pub criticality: Criticality,
    pub is_soci: bool,
    pub expected_data_lifetime_years: Option<u16>,
    pub created_at: i128,
}

impl System {
    /// A new system, created now, with a fresh identifier.
    pub fn new(
        name: String,
        description: Option<String>,
        classification: Classification,
        criticality: Criticality,
        is_soci: bool,
        expected_data_lifetime_years: Option<u16>,
    ) -> (r: System)
        ensures
            r.name == name,
            r.description == description,
            r.classification == classification,
            r.criticality == criticality,
            r.is_soci == is_soci,
            r.expected_data_lifetime_years == expected_data_lifetime_years,
            valid_instant(r.created_at),
    {
        System {
            id: new_id(),
            name,
            description,
            classification,
            criticality,
            is_soci,
            expected_data_lifetime_years,
            created_at: now_nanos(),
        }
    }
}

} // verus!
