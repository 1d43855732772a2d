//! Accountable completion and acceptance gates for construction handover.

use vstd::prelude::*;
use crate::commissioning::CommissioningReadinessReport;
use crate::error::ConstructionProjectError;
use crate::evidence::ExternalRef;
use crate::identity::{ControlId, ProjectId, RoleId};

verus! {

/// Distinct completion meaning evaluated by a handover gate.
#[derive(Clone, Copy, Debug, PartialEq, Eq, Structural, PartialOrd, Ord)]
pub enum HandoverGateKind {
    /// Installed work and commissioning activity are technically complete.
    TechnicalCompletion,
    /// Required records and deliverables carry accepted evidence.
    EvidenceCompletion,
    /// Mandatory authority controls are closed.
    AuthorityCompletion,
    /// The customer has contractually accepted the defined scope.
    ContractualAcceptance,
    /// The defined scope is ready for occupancy or intended use.
    OccupancyUseReadiness,
    /// All technical, evidence, authority, contractual, and remaining work is complete.
    FinalCompletion,
}

/// One accountable gate over one hierarchy control.
#[derive(Debug, PartialEq, Eq)]
pub struct HandoverGate {
    /// Stable project identity.
    pub project: ProjectId,
    /// Stable gate control id.
    pub control: ControlId,
    /// Hierarchy control evaluated by this gate.
    pub target: ControlId,
    /// Completion meaning kept distinct by this gate.
    pub kind: HandoverGateKind,
    /// Role accountable for accepting or rejecting reports of this gate.
    pub acceptance_authority: RoleId,
}

impl HandoverGate {
    /// Builds an accountable handover gate.
    pub fn new(
        project: ProjectId,
        control: ControlId,
        target: ControlId,
        kind: HandoverGateKind,
        acceptance_authority: RoleId,
    ) -> (g: Self)
        ensures
            g == (HandoverGate { project, control, target, kind, acceptance_authority }),
    {
        HandoverGate { project, control, target, kind, acceptance_authority }
    }
}

/// Reproducible evidence report for one completion meaning.
#[derive(Debug, PartialEq, Eq)]
pub struct HandoverGateReport {
    /// Gate control id.
    pub gate: ControlId,
    /// Stable project identity.
    pub project: ProjectId,
    /// Evaluated hierarchy control.
    pub target: ControlId,
    /// Completion meaning evaluated.
    pub kind: HandoverGateKind,
    /// Exact project fact sequence evaluated.
    pub as_of_seq: u64,
    /// Leaf evidence and burn-down behind the report.
    pub readiness: CommissioningReadinessReport,
}

/// Accountable decision over a handover gate report.
#[derive(Clone, Copy, Debug, PartialEq, Eq, Structural)]
pub enum HandoverGateDecisionKind {
    /// Accept a ready report.
    Accept,
    /// Reject a report or decline acceptance.
    Reject,
}

/// Accountable acceptance or rejection against an exact report sequence.
#[derive(Debug, PartialEq, Eq)]
pub struct HandoverGateDecision {
    /// Gate control id.
    pub gate: ControlId,
    /// Stable project identity.
    pub project: ProjectId,
    /// Completion meaning being decided.
    pub kind: HandoverGateKind,
    /// Accepted or rejected report sequence.
    pub report_seq: u64,
    /// Later fact sequence carrying this decision.
    pub decision_seq: u64,
    /// Accountable outcome.
    pub decision: HandoverGateDecisionKind,
    /// Role that made the decision.
    pub decided_by: RoleId,
    /// Reference-only acceptance evidence.
    pub evidence: Vec<ExternalRef>,
}

/// What `validate_against(gate, report)` answers for decision `d`: the
/// first failed check in the order project, gate identity, report
/// sequence, decision sequence, authority, evidence, readiness.
pub open spec fn handover_decision_check(
    d: HandoverGateDecision,
    gate: HandoverGate,
    report: HandoverGateReport,
    r: Result<(), ConstructionProjectError>,
) -> bool {
    if d.project@ != gate.project@ || d.project@ != report.project@ {
        r matches Err(ConstructionProjectError::ProjectMismatch { expected, actual })
            && expected == gate.project && actual == d.project
    } else if d.gate@ != gate.control@ || d.gate@ != report.gate@ || d.kind != gate.kind || d.kind != report.kind {
        r matches Err(ConstructionProjectError::GateMismatch { expected, actual })
            && expected == gate.control && actual == d.gate
    } else if d.report_seq != report.as_of_seq {
        r matches Err(ConstructionProjectError::GateSequenceMismatch { gate: g, report_seq, decision_seq })
            && g == d.gate && report_seq == report.as_of_seq && decision_seq == d.report_seq
    } else if d.decision_seq <= d.report_seq {
        r matches Err(ConstructionProjectError::InvalidSequence { field, sequence })
            && field == "handover_gate.decision_seq" && sequence == d.decision_seq
    } else if d.decided_by@ != gate.acceptance_authority@ {
        r matches Err(ConstructionProjectError::ApprovalAuthorityMismatch { gate: g, expected, actual })
            && g == d.gate && expected == gate.acceptance_authority && actual == d.decided_by
    } else if d.evidence@.len() == 0 {
        r matches Err(ConstructionProjectError::EmptyCollection(field)) && field == "handover_gate_decision.evidence"
    } else if d.decision == HandoverGateDecisionKind::Accept && !report.readiness.ready {
        r matches Err(ConstructionProjectError::GateReportNotReady { gate: g }) && g == d.gate
    } else {
        r is Ok
    }
}

impl HandoverGateDecision {
    /// Builds a decision over one report sequence.
    pub fn new(
        gate: &HandoverGate,
        report_seq: u64,
        decision_seq: u64,
        decision: HandoverGateDecisionKind,
        decided_by: RoleId,
    ) -> (d: Self)
        ensures
            d.gate == gate.control,
            d.project == gate.project,
            d.kind == gate.kind,
            d.report_seq == report_seq,
            d.decision_seq == decision_seq,
            d.decision == decision,
            d.decided_by == decided_by,
            d.evidence@.len() == 0,
    {
        HandoverGateDecision {
            gate: gate.control.clone(),
            project: gate.project.clone(),
            kind: gate.kind,
            report_seq,
            decision_seq,
            decision,
            decided_by,
            evidence: Vec::new(),
        }
    }

    /// Adds reference-only acceptance evidence.
    pub fn with_evidence(self, evidence: ExternalRef) -> (d: Self)
        ensures
            d == (HandoverGateDecision { evidence: d.evidence, ..self }),
            d.evidence@ == self.evidence@.push(evidence),
    {
        let mut d = self;
        d.evidence.push(evidence);
        d
    }

    /// Validates identity, authority, evidence, readiness, and exact sequence.
    pub fn validate_against(&self, gate: &HandoverGate, report: &HandoverGateReport) -> (r: Result<(), ConstructionProjectError>)
        ensures
            handover_decision_check(*self, *gate, *report, r),
    {
        if !self.project.same(&gate.project) || !self.project.same(&report.project) {
            return Err(ConstructionProjectError::ProjectMismatch { expected: gate.project.clone(), actual: self.project.clone() });
        }
        if !self.gate.same(&gate.control) || !self.gate.same(&report.gate) || self.kind != gate.kind || self.kind
            != report.kind {
            return Err(ConstructionProjectError::GateMismatch { expected: gate.control.clone(), actual: self.gate.clone() });
        }
        if self.report_seq != report.as_of_seq {
            return Err(ConstructionProjectError::GateSequenceMismatch {
                gate: self.gate.clone(),
                report_seq: report.as_of_seq,
                decision_seq: self.report_seq,
            });
        }
        if self.decision_seq <= self.report_seq {
            return Err(ConstructionProjectError::InvalidSequence { field: "handover_gate.decision_seq", sequence: self.decision_seq });
        }
        if !self.decided_by.same(&gate.acceptance_authority) {
            return Err(ConstructionProjectError::ApprovalAuthorityMismatch {
                gate: self.gate.clone(),
                expected: gate.acceptance_authority.clone(),
                actual: self.decided_by.clone(),
            });
        }
        if self.evidence.len() == 0 {
            return Err(ConstructionProjectError::EmptyCollection("handover_gate_decision.evidence"));
        }
        if self.decision == HandoverGateDecisionKind::Accept && !report.readiness.ready {
            return Err(ConstructionProjectError::GateReportNotReady { gate: self.gate.clone() });
        }
        Ok(())
    }
}


/// A handover decision that validates as an acceptance was made by the
/// gate's acceptance authority, on the exact report sequence, at a later
/// sequence, with evidence, over a ready report.
pub proof fn lemma_acceptance_needs_ready_report(d: HandoverGateDecision, gate: HandoverGate, report: HandoverGateReport)
    requires
        handover_decision_check(d, gate, report, Ok(())),
        d.decision == HandoverGateDecisionKind::Accept,
    ensures
        report.readiness.ready,
        d.decided_by@ == gate.acceptance_authority@,
        d.report_seq == report.as_of_seq,
        d.decision_seq > d.report_seq,
        d.evidence@.len() > 0,
{
}

} // verus!
