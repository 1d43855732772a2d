//! Role and cadence vocabulary for construction office packs.

use vstd::prelude::*;
use crate::date::ProjectDate;
use crate::identity::{BaselineId, ControlId, RoleId};

verus! {

/// A supported construction review horizon.
#[derive(Clone, Copy, Debug, PartialEq, Eq, Structural)]
pub enum PackCadence {
    /// Daily production control.
    Daily,
    /// Weekly project-chief review.
    Weekly,
    /// Monthly or lifecycle-gate review.
    MonthlyGate,
    /// System and project handover review.
    Handover,
    /// Commercial and delivery closeout review.
    Closeout,
    /// Reference-candidate review.
    ReferenceReview,
}

/// Stable id of a cadence.
pub open spec fn cadence_id(c: PackCadence) -> Seq<char> {
    match c {
        PackCadence::Daily => "daily"@,
        PackCadence::Weekly => "weekly"@,
        PackCadence::MonthlyGate => "monthly-gate"@,
        PackCadence::Handover => "handover"@,
        PackCadence::Closeout => "closeout"@,
        PackCadence::ReferenceReview => "reference-review"@,
    }
}

/// Which sections a cadence's pack carries.
pub open spec fn cadence_includes(c: PackCadence, s: PackSection) -> bool {
    match s {
        PackSection::Decisions | PackSection::SafetyLegalBlockers | PackSection::EvidenceExceptions => true,
        PackSection::CriticalSchedule | PackSection::Readiness => c != PackCadence::ReferenceReview,
        PackSection::Procurement => c == PackCadence::Daily || c == PackCadence::Weekly || c == PackCadence::MonthlyGate
            || c == PackCadence::Handover,
        PackSection::RiskChangeEconomy => c == PackCadence::Weekly || c == PackCadence::MonthlyGate || c
            == PackCadence::Closeout,
        PackSection::Handover => c != PackCadence::Daily,
        PackSection::Sustainability | PackSection::Outcomes => c == PackCadence::MonthlyGate || c == PackCadence::Handover
            || c == PackCadence::Closeout || c == PackCadence::ReferenceReview,
    }
}

impl PackCadence {
    /// Returns the stable cadence id.
    pub fn as_str(self) -> (r: &'static str)
        ensures
            r@ == cadence_id(self),
    {
        match self {
            PackCadence::Daily => "daily",
            PackCadence::Weekly => "weekly",
            PackCadence::MonthlyGate => "monthly-gate",
            PackCadence::Handover => "handover",
            PackCadence::Closeout => "closeout",
            PackCadence::ReferenceReview => "reference-review",
        }
    }

    /// Returns true when this cadence's pack carries `section`.
    pub fn includes(self, section: PackSection) -> (b: bool)
        ensures
            b == cadence_includes(self, section),
    {
        match section {
            PackSection::Decisions | PackSection::SafetyLegalBlockers | PackSection::EvidenceExceptions => true,
            PackSection::CriticalSchedule | PackSection::Readiness => !matches!(self, PackCadence::ReferenceReview),
            PackSection::Procurement => matches!(
                self,
                PackCadence::Daily | PackCadence::Weekly | PackCadence::MonthlyGate | PackCadence::Handover
            ),
            PackSection::RiskChangeEconomy => matches!(self, PackCadence::Weekly | PackCadence::MonthlyGate | PackCadence::Closeout),
            PackSection::Handover => !matches!(self, PackCadence::Daily),
            PackSection::Sustainability | PackSection::Outcomes => matches!(
                self,
                PackCadence::MonthlyGate | PackCadence::Handover | PackCadence::Closeout | PackCadence::ReferenceReview
            ),
        }
    }
}

/// Priority-ordered content section in an office pack.
#[derive(Clone, Copy, Debug, PartialEq, Eq, Structural, PartialOrd, Ord)]
pub enum PackSection {
    /// Decisions requiring accountable action.
    Decisions,
    /// Non-waivable safety, work-environment, authority, and legal blockers.
    SafetyLegalBlockers,
    /// Unknown, reported, conflicted, rejected, or expired evidence.
    EvidenceExceptions,
    /// Critical-path and need-date schedule controls.
    CriticalSchedule,
    /// Near-term production and gate readiness.
    Readiness,
    /// Procurement, award, supplier, and material controls.
    Procurement,
    /// Risk, change, exposure, forecast, and final-economy controls.
    RiskChangeEconomy,
    /// Commissioning, handover, completion, and acceptance controls.
    Handover,
    /// Certification, climate, reuse, waste, and place controls.
    Sustainability,
    /// Safety, quality, people, place, and reference outcomes.
    Outcomes,
}

/// Stable id of a section.
pub open spec fn section_id(s: PackSection) -> Seq<char> {
    match s {
        PackSection::Decisions => "decisions"@,
        PackSection::SafetyLegalBlockers => "safety-legal-blockers"@,
        PackSection::EvidenceExceptions => "evidence-exceptions"@,
        PackSection::CriticalSchedule => "critical-schedule"@,
        PackSection::Readiness => "readiness"@,
        PackSection::Procurement => "procurement"@,
        PackSection::RiskChangeEconomy => "risk-change-economy"@,
        PackSection::Handover => "handover"@,
        PackSection::Sustainability => "sustainability"@,
        PackSection::Outcomes => "outcomes"@,
    }
}

/// Position of a section in pack priority order.
pub open spec fn section_position(s: PackSection) -> int {
    match s {
        PackSection::Decisions => 0,
        PackSection::SafetyLegalBlockers => 1,
        PackSection::EvidenceExceptions => 2,
        PackSection::CriticalSchedule => 3,
        PackSection::Readiness => 4,
        PackSection::Procurement => 5,
        PackSection::RiskChangeEconomy => 6,
        PackSection::Handover => 7,
        PackSection::Sustainability => 8,
        PackSection::Outcomes => 9,
    }
}

impl PackSection {
    /// Returns the stable section id.
    pub fn as_str(self) -> (r: &'static str)
        ensures
            r@ == section_id(self),
    {
        match self {
            PackSection::Decisions => "decisions",
            PackSection::SafetyLegalBlockers => "safety-legal-blockers",
            PackSection::EvidenceExceptions => "evidence-exceptions",
            PackSection::CriticalSchedule => "critical-schedule",
            PackSection::Readiness => "readiness",
            PackSection::Procurement => "procurement",
            PackSection::RiskChangeEconomy => "risk-change-economy",
            PackSection::Handover => "handover",
            PackSection::Sustainability => "sustainability",
            PackSection::Outcomes => "outcomes",
        }
    }

    /// Every section, in pack priority order.
    pub fn ordered() -> (v: Vec<PackSection>)
        ensures
            v@.len() == 10,
            forall|i: int| 0 <= i < 10 ==> section_position(#[trigger] v@[i]) == i,
    {
        vec![
            PackSection::Decisions,
            PackSection::SafetyLegalBlockers,
            PackSection::EvidenceExceptions,
            PackSection::CriticalSchedule,
            PackSection::Readiness,
            PackSection::Procurement,
            PackSection::RiskChangeEconomy,
            PackSection::Handover,
            PackSection::Sustainability,
            PackSection::Outcomes,
        ]
    }
}

/// One authoritative project control selected for a role pack.
#[derive(Debug, PartialEq, Eq)]
pub struct PackControl {
    /// Stable source control id.
    pub control: ControlId,
    /// Cadence section that owns the control when its evidence is current.
    pub section: PackSection,
    /// Whether this control must be accepted before the aggregate can be accepted.
    pub mandatory: bool,
}

impl PackControl {
    /// Selects a mandatory source control for a pack section.
    pub fn mandatory(control: ControlId, section: PackSection) -> (r: Self)
        ensures
            r.control == control,
            r.section == section,
            r.mandatory,
    {
        PackControl { control, section, mandatory: true }
    }

    /// Selects an informative source control that does not determine the aggregate.
    pub fn optional(control: ControlId, section: PackSection) -> (r: Self)
        ensures
            r.control == control,
            r.section == section,
            !r.mandatory,
    {
        PackControl { control, section, mandatory: false }
    }
}

/// Complete deterministic request for one role-cadence office pack.
#[derive(Debug, PartialEq, Eq)]
pub struct OfficePackRequest {
    /// Review horizon.
    pub cadence: PackCadence,
    /// Accountable audience role.
    pub role: RoleId,
    /// Inclusive project sequence to review.
    pub as_of_seq: u64,
    /// Calendar date used to interpret the review.
    pub as_of_date: ProjectDate,
    /// Caller-supplied deterministic generation marker.
    pub generated_at: String,
    /// Accepted baselines used by the review.
    pub accepted_baselines: Vec<BaselineId>,
    /// Authoritative controls selected for the audience.
    pub controls: Vec<PackControl>,
    /// Optional prior meeting sequence used to flag changed controls.
    pub changed_since_seq: Option<u64>,
}

impl OfficePackRequest {
    /// Starts a deterministic pack request.
    pub fn new(cadence: PackCadence, role: RoleId, as_of_seq: u64, as_of_date: ProjectDate, generated_at: &str) -> (r: Self)
        ensures
            r.cadence == cadence,
            r.role == role,
            r.as_of_seq == as_of_seq,
            r.as_of_date == as_of_date,
            r.generated_at@ == generated_at@,
            r.accepted_baselines@.len() == 0,
            r.controls@.len() == 0,
            r.changed_since_seq is None,
    {
        OfficePackRequest {
            cadence,
            role,
            as_of_seq,
            as_of_date,
            generated_at: generated_at.to_owned(),
            accepted_baselines: Vec::new(),
            controls: Vec::new(),
            changed_since_seq: None,
        }
    }

    /// Adds an accepted baseline id.
    pub fn with_baseline(self, baseline: BaselineId) -> (r: Self)
        ensures
            r.accepted_baselines@ == self.accepted_baselines@.push(baseline),
            r.controls@ == self.controls@,
            r.changed_since_seq == self.changed_since_seq,
    {
        let mut r = self;
        r.accepted_baselines.push(baseline);
        r
    }

    /// Adds one source control selection.
    pub fn with_control(self, control: PackControl) -> (r: Self)
        ensures
            r.controls@ == self.controls@.push(control),
            r.accepted_baselines@ == self.accepted_baselines@,
            r.changed_since_seq == self.changed_since_seq,
    {
        let mut r = self;
        r.controls.push(control);
        r
    }

    /// Flags controls changed after the prior meeting sequence.
    pub fn changed_since(self, sequence: u64) -> (r: Self)
        ensures
            r.changed_since_seq == Some(sequence),
            r.controls@ == self.controls@,
            r.accepted_baselines@ == self.accepted_baselines@,
    {
        let mut r = self;
        r.changed_since_seq = Some(sequence);
        r
    }
}

} // verus!
