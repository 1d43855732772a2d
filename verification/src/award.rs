//! Accountable work-package award decisions and accepted baselines.

use vstd::prelude::*;
use crate::date::ProjectDate;
use crate::error::ConstructionProjectError;
use crate::evidence::ExternalRef;
use crate::identity::{BaselineId, ControlId, ProjectId, RoleId};

verus! {

/// Accountable award decision outcome.
#[derive(Clone, Copy, Debug, PartialEq, Eq, Structural)]
pub enum AwardDecisionKind {
    /// Award the work package to the supplier named by the selected tender.
    Award,
    /// Reject all tenders for now.
    RejectAll,
    /// Defer the award decision.
    Defer,
}

/// Accountable work-package award decision.
#[derive(Debug, PartialEq, Eq)]
pub struct AwardDecision {
    /// Stable award control id.
    pub control: ControlId,
    /// Package being awarded.
    pub package: ControlId,
    /// Award outcome.
    pub kind: AwardDecisionKind,
    /// Selected tender when the package is awarded.
    pub selected_tender: Option<ControlId>,
    /// Role that made the award decision.
    pub decided_by: RoleId,
    /// Date the award decision was made.
    pub decided_on: ProjectDate,
    /// Decision rationale.
    pub rationale: String,
    /// Award evidence.
    pub evidence: Vec<ExternalRef>,
}

impl AwardDecision {
    /// Builds an award decision.
    pub fn new(
        control: ControlId,
        package: ControlId,
        kind: AwardDecisionKind,
        decided_by: RoleId,
        decided_on: ProjectDate,
        rationale: &str,
    ) -> (a: Self)
        ensures
            a.control == control,
            a.package == package,
            a.kind == kind,
            a.selected_tender is None,
            a.decided_by == decided_by,
            a.decided_on == decided_on,
            a.rationale@ == rationale@,
            a.evidence@.len() == 0,
    {
        AwardDecision {
            control,
            package,
            kind,
            selected_tender: None,
            decided_by,
            decided_on,
            rationale: rationale.to_owned(),
            evidence: Vec::new(),
        }
    }

    /// Selects the tender for an award.
    pub fn selects(self, tender: ControlId) -> (a: Self)
        ensures
            a == (AwardDecision { selected_tender: Some(tender), ..self }),
    {
        let mut a = self;
        a.selected_tender = Some(tender);
        a
    }

    /// Adds award evidence.
    pub fn with_evidence(self, evidence: ExternalRef) -> (a: Self)
        ensures
            a == (AwardDecision { evidence: a.evidence, ..self }),
            a.evidence@ == self.evidence@.push(evidence),
    {
        let mut a = self;
        a.evidence.push(evidence);
        a
    }
}

/// Accepted baseline lane.
#[derive(Clone, Copy, Debug, PartialEq, Eq, Structural)]
pub enum BaselineKind {
    /// Scope baseline.
    Scope,
    /// Time baseline.
    Time,
    /// Commercial baseline.
    Commercial,
    /// Obligation baseline.
    Obligations,
    /// Organization baseline.
    Organization,
    /// Reporting baseline.
    Reporting,
}

/// Accepted construction project baseline.
#[derive(Debug, PartialEq, Eq)]
pub struct AcceptedBaseline {
    /// Stable baseline identity.
    pub id: BaselineId,
    /// Stable project identity.
    pub project: ProjectId,
    /// Control subject holding the baseline acceptance fact.
    pub control: ControlId,
    /// Baseline lane.
    pub kind: BaselineKind,
    /// Role that accepted the baseline.
    pub accepted_by: RoleId,
    /// Book sequence where the baseline was accepted.
    pub accepted_seq: u64,
    /// Calendar date of acceptance.
    pub accepted_on: ProjectDate,
    /// Reference-only evidence for the acceptance.
    pub evidence: Vec<ExternalRef>,
}

impl AcceptedBaseline {
    /// Builds an accepted baseline.
    pub fn new(
        id: BaselineId,
        project: ProjectId,
        control: ControlId,
        kind: BaselineKind,
        accepted_by: RoleId,
        accepted_seq: u64,
        accepted_on: ProjectDate,
    ) -> (b: Self)
        ensures
            b.id == id,
            b.project == project,
            b.control == control,
            b.kind == kind,
            b.accepted_by == accepted_by,
            b.accepted_seq == accepted_seq,
            b.accepted_on == accepted_on,
            b.evidence@.len() == 0,
    {
        AcceptedBaseline { id, project, control, kind, accepted_by, accepted_seq, accepted_on, evidence: Vec::new() }
    }

    /// Adds a reference-only evidence link.
    pub fn with_evidence(self, evidence: ExternalRef) -> (b: Self)
        ensures
            b == (AcceptedBaseline { evidence: b.evidence, ..self }),
            b.evidence@ == self.evidence@.push(evidence),
    {
        let mut b = self;
        b.evidence.push(evidence);
        b
    }

    /// Validates the accepted baseline record.
    pub fn validate(&self) -> (r: Result<(), ConstructionProjectError>)
        ensures
            self.accepted_seq == 0 ==> (r matches Err(ConstructionProjectError::InvalidSequence { field, sequence })
                && field == "baseline.accepted_seq" && sequence == 0),
            self.accepted_seq != 0 && self.evidence@.len() == 0 ==> r == Err::<(), ConstructionProjectError>(
                ConstructionProjectError::EmptyCollection("baseline.evidence"),
            ),
            self.accepted_seq != 0 && self.evidence@.len() > 0 ==> r is Ok,
    {
        if self.accepted_seq == 0 {
            return Err(ConstructionProjectError::InvalidSequence { field: "baseline.accepted_seq", sequence: self.accepted_seq });
        }
        if self.evidence.len() == 0 {
            return Err(ConstructionProjectError::EmptyCollection("baseline.evidence"));
        }
        Ok(())
    }
}

} // verus!
