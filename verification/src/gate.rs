//! Phase-gate reports and accountable gate decisions.

use vstd::prelude::*;
use crate::date::ProjectDate;
use crate::error::ConstructionProjectError;
use crate::evidence::ExternalRef;
use crate::identity::{ControlId, ProjectId, RoleId};

verus! {

/// One required control for a phase gate.
#[derive(Debug, PartialEq, Eq)]
pub struct GateRequirement {
    /// Required control id.
    pub control: ControlId,
    /// Optional date after which the current fact is stale for this gate.
    pub expires_on: Option<ProjectDate>,
    /// Optional exception control that can cover this requirement.
    pub exception: Option<ControlId>,
}

impl GateRequirement {
    /// Builds a required gate control.
    pub fn new(control: ControlId) -> (r: Self)
        ensures
            r == (GateRequirement { control, expires_on: None, exception: None }),
    {
        GateRequirement { control, expires_on: None, exception: None }
    }

    /// Sets the date after which the requirement is expired.
    pub fn expires_on(self, date: ProjectDate) -> (r: Self)
        ensures
            r == (GateRequirement { expires_on: Some(date), ..self }),
    {
        let mut r = self;
        r.expires_on = Some(date);
        r
    }

    /// Sets the exception control that may cover this requirement.
    pub fn with_exception(self, exception: ControlId) -> (r: Self)
        ensures
            r == (GateRequirement { exception: Some(exception), ..self }),
    {
        let mut r = self;
        r.exception = Some(exception);
        r
    }
}

/// Derived gate report. Approval is carried separately by `GateDecision`.
#[derive(Debug, PartialEq, Eq)]
pub struct GateReport {
    /// Gate control id.
    pub gate: ControlId,
    /// Snapshot sequence used for derivation.
    pub as_of_seq: u64,
    /// True when no unmet, conflicted, or expired requirement remains.
    pub ready: bool,
    /// Missing requirement controls.
    pub unmet: Vec<ControlId>,
    /// Conflicted requirement controls.
    pub conflicted: Vec<ControlId>,
    /// Expired requirement controls.
    pub expired: Vec<ControlId>,
    /// Exception controls applied to cover requirements.
    pub applied_exceptions: Vec<ControlId>,
}

/// Accountable gate decision outcome.
#[derive(Clone, Copy, Debug, PartialEq, Eq, Structural)]
pub enum GateDecisionKind {
    /// Approve the derived report.
    Approve,
    /// Reject the derived report.
    Reject,
}

/// Accountable decision over a derived gate report.
#[derive(Debug, PartialEq, Eq)]
pub struct GateDecision {
    /// Gate control id.
    pub gate: ControlId,
    /// Project identity.
    pub project: ProjectId,
    /// Decision kind.
    pub decision: GateDecisionKind,
    /// Role that made the decision.
    pub decided_by: RoleId,
    /// Report sequence being decided.
    pub as_of_seq: u64,
    /// Fact sequence carrying this decision.
    pub decision_seq: u64,
    /// Reference-only evidence links.
    pub evidence: Vec<ExternalRef>,
}

/// What `validate_against(gate, approval_authority, report)` answers for
/// decision `d`, where `gate` and `approval_authority` are those of the
/// phase gate being decided.
pub open spec fn gate_decision_check(
    d: GateDecision,
    gate: ControlId,
    approval_authority: RoleId,
    report: GateReport,
    r: Result<(), ConstructionProjectError>,
) -> bool {
    if d.gate@ != report.gate@ {
        r matches Err(ConstructionProjectError::GateMismatch { expected, actual }) && expected == report.gate
            && actual == d.gate
    } else if d.gate@ != gate@ {
        r matches Err(ConstructionProjectError::GateMismatch { expected, actual }) && expected == gate && actual
            == d.gate
    } else if d.as_of_seq != report.as_of_seq {
        r matches Err(ConstructionProjectError::GateSequenceMismatch { gate: g, report_seq, decision_seq })
            && g == d.gate && report_seq == report.as_of_seq && decision_seq == d.as_of_seq
    } else if d.decision_seq == 0 {
        r matches Err(ConstructionProjectError::InvalidSequence { field, sequence })
            && field == "gate.decision_seq" && sequence == 0
    } else if d.evidence@.len() == 0 {
        r matches Err(ConstructionProjectError::EmptyCollection(field)) && field == "gate.decision.evidence"
    } else if d.decision == GateDecisionKind::Approve && d.decided_by@ != approval_authority@ {
        r matches Err(ConstructionProjectError::ApprovalAuthorityMismatch { gate: g, expected, actual })
            && g == d.gate && expected == approval_authority && actual == d.decided_by
    } else if d.decision == GateDecisionKind::Approve && !report.ready {
        r matches Err(ConstructionProjectError::GateReportNotReady { gate: g }) && g == d.gate
    } else {
        r is Ok
    }
}

impl GateDecision {
    /// Builds a gate decision.
    pub fn new(
        gate: ControlId,
        project: ProjectId,
        decision: GateDecisionKind,
        decided_by: RoleId,
        as_of_seq: u64,
        decision_seq: u64,
    ) -> (d: Self)
        ensures
            d.gate == gate,
            d.project == project,
            d.decision == decision,
            d.decided_by == decided_by,
            d.as_of_seq == as_of_seq,
            d.decision_seq == decision_seq,
            d.evidence@.len() == 0,
    {
        GateDecision { gate, project, decision, decided_by, as_of_seq, decision_seq, evidence: Vec::new() }
    }

    /// Adds a reference-only evidence link.
    pub fn with_evidence(self, evidence: ExternalRef) -> (d: Self)
        ensures
            d == (GateDecision { evidence: d.evidence, ..self }),
            d.evidence@ == self.evidence@.push(evidence),
    {
        let mut d = self;
        d.evidence.push(evidence);
        d
    }

    /// Validates this decision against the phase gate it decides (its gate
    /// control and approval authority) and the derived report.
    pub fn validate_against(&self, gate: &ControlId, approval_authority: &RoleId, report: &GateReport) -> (r: Result<
        (),
        ConstructionProjectError,
    >)
        ensures
            gate_decision_check(*self, *gate, *approval_authority, *report, r),
    {
        if !self.gate.same(&report.gate) {
            return Err(ConstructionProjectError::GateMismatch { expected: report.gate.clone(), actual: self.gate.clone() });
        }
        if !self.gate.same(gate) {
            return Err(ConstructionProjectError::GateMismatch { expected: gate.clone(), actual: self.gate.clone() });
        }
        if self.as_of_seq != report.as_of_seq {
            return Err(ConstructionProjectError::GateSequenceMismatch {
                gate: self.gate.clone(),
                report_seq: report.as_of_seq,
                decision_seq: self.as_of_seq,
            });
        }
        if self.decision_seq == 0 {
            return Err(ConstructionProjectError::InvalidSequence { field: "gate.decision_seq", sequence: self.decision_seq });
        }
        if self.evidence.len() == 0 {
            return Err(ConstructionProjectError::EmptyCollection("gate.decision.evidence"));
        }
        if self.decision == GateDecisionKind::Approve {
            if !self.decided_by.same(approval_authority) {
                return Err(ConstructionProjectError::ApprovalAuthorityMismatch {
                    gate: self.gate.clone(),
                    expected: approval_authority.clone(),
                    actual: self.decided_by.clone(),
                });
            }
            if !report.ready {
                return Err(ConstructionProjectError::GateReportNotReady { gate: self.gate.clone() });
            }
        }
        Ok(())
    }
}


/// A gate decision that validates as an approval was made by the approval
/// authority over a ready report of the same gate and sequence.
pub proof fn lemma_approval_needs_ready_report(d: GateDecision, gate: ControlId, approval_authority: RoleId, report: GateReport)
    requires
        gate_decision_check(d, gate, approval_authority, report, Ok(())),
        d.decision == GateDecisionKind::Approve,
    ensures
        report.ready,
        d.decided_by@ == approval_authority@,
        d.gate@ == gate@,
        d.gate@ == report.gate@,
        d.as_of_seq == report.as_of_seq,
        d.evidence@.len() > 0,
{
}

} // verus!
