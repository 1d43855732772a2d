//! Shared evidence states, validity windows and reference-only evidence links.

use vstd::prelude::*;
use crate::date::ProjectDate;

verus! {

/// Evidence state used by construction control summaries.
#[derive(Clone, Copy, Debug, PartialEq, Eq, Structural, PartialOrd, Ord, Hash)]
pub enum EvidenceState {
    /// No usable project information is present.
    Missing,
    /// Some information is reported, but mandatory proof is incomplete.
    Reported,
    /// Evidence is present but not accepted by an accountable role.
    Evidenced,
    /// Mandatory information is current, evidenced, and accepted.
    Accepted,
    /// Evidence has been rejected by an accountable role.
    Rejected,
    /// Evidence is present but outside its valid window.
    Expired,
    /// Competing accepted records require human resolution.
    Conflicted,
}

impl EvidenceState {
    /// Returns true when this state can satisfy an evidence-required obligation.
    pub fn satisfies_required_evidence(self) -> (b: bool)
        ensures
            b == (self == EvidenceState::Accepted),
    {
        self == EvidenceState::Accepted
    }
}

/// Optional validity window for evidence-backed construction facts.
#[derive(Clone, Copy, Debug, PartialEq, Eq)]
pub struct EvidenceValidity {
    /// First date on which the evidence is valid.
    pub valid_from: Option<ProjectDate>,
    /// Last date on which the evidence remains valid.
    pub valid_until: Option<ProjectDate>,
}

/// `date` falls inside the window: on or after its start and on or before its end.
pub open spec fn window_contains(w: EvidenceValidity, date: ProjectDate) -> bool {
    &&& (w.valid_from matches Some(from) ==> from.julian_day <= date.julian_day)
    &&& (w.valid_until matches Some(until) ==> date.julian_day <= until.julian_day)
}

impl EvidenceValidity {
    /// Builds an unbounded validity window.
    pub fn unbounded() -> (w: Self)
        ensures
            w.valid_from is None,
            w.valid_until is None,
    {
        EvidenceValidity { valid_from: None, valid_until: None }
    }

    /// Builds a bounded validity window.
    pub fn new(valid_from: Option<ProjectDate>, valid_until: Option<ProjectDate>) -> (w: Self)
        ensures
            w.valid_from == valid_from,
            w.valid_until == valid_until,
    {
        EvidenceValidity { valid_from, valid_until }
    }

    /// Returns true when `date` falls inside the validity window.
    pub fn contains(self, date: ProjectDate) -> (b: bool)
        ensures
            b == window_contains(self, date),
    {
        let after_start = match self.valid_from {
            Some(from) => date.julian_day >= from.julian_day,
            None => true,
        };
        let before_end = match self.valid_until {
            Some(until) => date.julian_day <= until.julian_day,
            None => true,
        };
        after_start && before_end
    }
}

/// Reference to a record retained by an external document or field system.
/// The reference carries no payload.
#[derive(Debug, PartialEq, Eq, PartialOrd, Ord, Hash)]
pub struct ExternalRef {
    /// Backend that owns the record.
    pub backend: String,
    /// Backend-local record id.
    pub external_id: String,
    /// Optional backend revision or state marker.
    pub version: Option<String>,
    /// Optional backend-local locator within the record.
    pub web_url: Option<String>,
}

impl Clone for ExternalRef {
    fn clone(&self) -> (r: Self)
        ensures
            r == *self,
    {
        let version = match &self.version {
            Some(v) => Some(v.clone()),
            None => None,
        };
        let web_url = match &self.web_url {
            Some(a) => Some(a.clone()),
            None => None,
        };
        ExternalRef { backend: self.backend.clone(), external_id: self.external_id.clone(), version, web_url }
    }
}

impl ExternalRef {
    /// Builds a reference-only link.
    pub fn new(backend: &str, external_id: &str, version: Option<String>, web_url: Option<String>) -> (r: Self)
        ensures
            r.backend@ == backend@,
            r.external_id@ == external_id@,
            r.version == version,
            r.web_url == web_url,
    {
        ExternalRef { backend: backend.to_owned(), external_id: external_id.to_owned(), version, web_url }
    }
}

} // verus!
