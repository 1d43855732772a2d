use sim_lib_construction_project::acceptance::{
    HandoverGate, HandoverGateDecision, HandoverGateDecisionKind, HandoverGateKind, HandoverGateReport,
};
use sim_lib_construction_project::authority::CONSTRUCTION_EXCEPTION_CAPABILITY;
use sim_lib_construction_project::book::ProjectBook;
use sim_lib_construction_project::charter::CurrencyCode;
use sim_lib_construction_project::closeout::{
    CloseoutControlSet, CloseoutDecision, CloseoutObligation, CloseoutObligationKind, CloseoutReport,
};
use sim_lib_construction_project::commissioning::{CommissioningBurnDown, CommissioningReadinessReport};
use sim_lib_construction_project::exception::{ExceptionDecision, ExceptionScope};
use sim_lib_construction_project::final_economy::{
    FinalEconomyBasis, FinalEconomyControl, FinalEconomyReconciliation, FinalEconomyReport,
};
use sim_lib_construction_project::gate::{GateDecision, GateDecisionKind, GateReport, GateRequirement};
use sim_lib_construction_project::obligation::{ProjectObligation, Requirement};
use sim_lib_construction_project::{ConstructionProjectError, ControlId, ExternalRef, ProjectDate, ProjectId, RoleId};

#[test]
fn handover_acceptance_needs_the_exact_ready_report_and_authority() {
    let gate = handover_gate();
    let ready = handover_report(&gate, 7, true);
    let accept = HandoverGateDecision::new(&gate, 7, 8, HandoverGateDecisionKind::Accept, role("role.customer"))
        .with_evidence(evidence("acceptance"));
    assert_eq!(accept.validate_against(&gate, &ready), Ok(()));

    let unready = handover_report(&gate, 7, false);
    assert_eq!(
        accept.validate_against(&gate, &unready),
        Err(ConstructionProjectError::GateReportNotReady { gate: control("gate.technical") })
    );
    let reject = HandoverGateDecision::new(&gate, 7, 8, HandoverGateDecisionKind::Reject, role("role.customer"))
        .with_evidence(evidence("rejection"));
    assert_eq!(reject.validate_against(&gate, &unready), Ok(()));

    let stale = handover_report(&gate, 6, true);
    assert_eq!(
        accept.validate_against(&gate, &stale),
        Err(ConstructionProjectError::GateSequenceMismatch {
            gate: control("gate.technical"),
            report_seq: 6,
            decision_seq: 7,
        })
    );
    let same_seq = HandoverGateDecision::new(&gate, 7, 7, HandoverGateDecisionKind::Accept, role("role.customer"))
        .with_evidence(evidence("acceptance"));
    assert_eq!(
        same_seq.validate_against(&gate, &ready),
        Err(ConstructionProjectError::InvalidSequence { field: "handover_gate.decision_seq", sequence: 7 })
    );
    let contractor = HandoverGateDecision::new(&gate, 7, 8, HandoverGateDecisionKind::Accept, role("role.contractor"))
        .with_evidence(evidence("acceptance"));
    assert_eq!(
        contractor.validate_against(&gate, &ready),
        Err(ConstructionProjectError::ApprovalAuthorityMismatch {
            gate: control("gate.technical"),
            expected: role("role.customer"),
            actual: role("role.contractor"),
        })
    );
    let bare = HandoverGateDecision::new(&gate, 7, 8, HandoverGateDecisionKind::Accept, role("role.customer"));
    assert_eq!(
        bare.validate_against(&gate, &ready),
        Err(ConstructionProjectError::EmptyCollection("handover_gate_decision.evidence"))
    );
    let other_kind = HandoverGate::new(
        project(),
        control("gate.technical"),
        control("system.heating"),
        HandoverGateKind::FinalCompletion,
        role("role.customer"),
    );
    assert_eq!(
        accept.validate_against(&other_kind, &ready),
        Err(ConstructionProjectError::GateMismatch { expected: control("gate.technical"), actual: control("gate.technical") })
    );
    let foreign = HandoverGate::new(
        ProjectId::new("project.other").unwrap(),
        control("gate.technical"),
        control("system.heating"),
        HandoverGateKind::TechnicalCompletion,
        role("role.customer"),
    );
    assert_eq!(
        accept.validate_against(&foreign, &ready),
        Err(ConstructionProjectError::ProjectMismatch {
            expected: ProjectId::new("project.other").unwrap(),
            actual: project(),
        })
    );
}

#[test]
fn phase_gate_approval_needs_authority_and_a_ready_report() {
    let ready = gate_report(5, true);
    let approve = GateDecision::new(control("gate.design"), project(), GateDecisionKind::Approve, role("role.sponsor"), 5, 6)
        .with_evidence(evidence("approval"));
    assert_eq!(approve.validate_against(&control("gate.design"), &role("role.sponsor"), &ready), Ok(()));
    assert_eq!(
        approve.validate_against(&control("gate.design"), &role("role.sponsor"), &gate_report(5, false)),
        Err(ConstructionProjectError::GateReportNotReady { gate: control("gate.design") })
    );
    assert_eq!(
        approve.validate_against(&control("gate.design"), &role("role.board"), &ready),
        Err(ConstructionProjectError::ApprovalAuthorityMismatch {
            gate: control("gate.design"),
            expected: role("role.board"),
            actual: role("role.sponsor"),
        })
    );
    let reject = GateDecision::new(control("gate.design"), project(), GateDecisionKind::Reject, role("role.planner"), 5, 6)
        .with_evidence(evidence("rejection"));
    assert_eq!(reject.validate_against(&control("gate.design"), &role("role.sponsor"), &gate_report(5, false)), Ok(()));
    assert_eq!(
        approve.validate_against(&control("gate.build"), &role("role.sponsor"), &ready),
        Err(ConstructionProjectError::GateMismatch { expected: control("gate.build"), actual: control("gate.design") })
    );
    assert_eq!(
        approve.validate_against(&control("gate.design"), &role("role.sponsor"), &gate_report(4, true)),
        Err(ConstructionProjectError::GateSequenceMismatch { gate: control("gate.design"), report_seq: 4, decision_seq: 5 })
    );
    let zero = GateDecision::new(control("gate.design"), project(), GateDecisionKind::Approve, role("role.sponsor"), 5, 0)
        .with_evidence(evidence("approval"));
    assert_eq!(
        zero.validate_against(&control("gate.design"), &role("role.sponsor"), &ready),
        Err(ConstructionProjectError::InvalidSequence { field: "gate.decision_seq", sequence: 0 })
    );
    let bare = GateDecision::new(control("gate.design"), project(), GateDecisionKind::Approve, role("role.sponsor"), 5, 6);
    assert_eq!(
        bare.validate_against(&control("gate.design"), &role("role.sponsor"), &ready),
        Err(ConstructionProjectError::EmptyCollection("gate.decision.evidence"))
    );
}

#[test]
fn gate_requirement_builders_keep_expiry_and_exception() {
    let requirement = GateRequirement::new(control("requirement.permit"))
        .expires_on(day(30))
        .with_exception(control("exception.permit"));
    assert_eq!(requirement.control, control("requirement.permit"));
    assert_eq!(requirement.expires_on, Some(day(30)));
    assert_eq!(requirement.exception, Some(control("exception.permit")));
}

#[test]
fn exception_needs_capability_authority_reason_evidence_and_time() {
    let granted = vec![CONSTRUCTION_EXCEPTION_CAPABILITY.to_owned()];
    let valid = exception("role.customer", "temporary heating accepted").with_evidence(evidence("exception"));
    assert_eq!(valid.validate(&granted, day(10)), Ok(()));
    assert_eq!(valid.validate(&granted, day(20)), Ok(()));
    assert_eq!(
        valid.validate(&granted, day(21)),
        Err(ConstructionProjectError::ExpiredException {
            exception: control("exception.heating"),
            expired_on: day(20),
            as_of_date: day(21),
        })
    );
    assert_eq!(
        valid.validate(&vec!["construction.project.read".to_owned()], day(10)),
        Err(ConstructionProjectError::MissingCapability { capability: CONSTRUCTION_EXCEPTION_CAPABILITY })
    );
    let wrong_role = exception("role.contractor", "temporary heating accepted").with_evidence(evidence("exception"));
    assert_eq!(
        wrong_role.validate(&granted, day(10)),
        Err(ConstructionProjectError::ExceptionAuthorityMismatch {
            exception: control("exception.heating"),
            expected: role("role.customer"),
            actual: role("role.contractor"),
        })
    );
    let blank = exception("role.customer", "   ").with_evidence(evidence("exception"));
    assert_eq!(blank.validate(&granted, day(10)), Err(ConstructionProjectError::EmptyField("exception.reason")));
    let bare = exception("role.customer", "temporary heating accepted");
    assert_eq!(bare.validate(&granted, day(10)), Err(ConstructionProjectError::EmptyCollection("exception.evidence")));
    let unscoped = ExceptionDecision::new(
        control("exception.heating"),
        ExceptionScope::new(project()),
        role("role.customer"),
        role("role.customer"),
        "temporary heating accepted",
        day(1),
        day(20),
    )
    .with_evidence(evidence("exception"));
    assert_eq!(
        unscoped.validate(&granted, day(10)),
        Err(ConstructionProjectError::EmptyCollection("exception.scope.requirements"))
    );
    let scope = ExceptionScope::new(project()).covers(control("requirement.heating"));
    assert!(scope.covers_requirement(&control("requirement.heating")));
    assert!(!scope.covers_requirement(&control("requirement.cooling")));
}

#[test]
fn closeout_set_needs_every_lane_and_unique_obligations() {
    let economy = economy_report();
    let complete = closeout_set();
    assert_eq!(complete.validate(&book(&project()), &economy), Ok(()));
    let missing_lesson = CloseoutControlSet::new(project(), control("closeout.project"), role("role.sponsor"))
        .with_obligation(obligation(CloseoutObligationKind::WarrantyContactHandoff, "obligation.warranty"))
        .with_obligation(obligation(CloseoutObligationKind::RetentionPolicy, "obligation.retention"))
        .with_obligation(obligation(CloseoutObligationKind::UnresolvedWork, "obligation.unresolved"))
        .with_obligation(obligation(CloseoutObligationKind::EvidenceDisposition, "obligation.disposition"));
    assert_eq!(
        missing_lesson.validate(&book(&project()), &economy),
        Err(ConstructionProjectError::EmptyCollection("closeout.required_lanes"))
    );
    let duplicate = closeout_set().with_obligation(obligation(CloseoutObligationKind::Lesson, "obligation.lesson"));
    assert_eq!(
        duplicate.validate(&book(&project()), &economy),
        Err(ConstructionProjectError::DuplicateId { kind: "closeout_obligation", id: "obligation.lesson".to_owned() })
    );
    let other = ProjectId::new("project.other").unwrap();
    assert_eq!(
        complete.validate(&book(&other), &economy),
        Err(ConstructionProjectError::ProjectMismatch { expected: project(), actual: other })
    );
}

#[test]
fn closeout_is_granted_only_over_a_ready_report_by_the_closure_authority() {
    let controls = closeout_set();
    let ready = closeout_report(9, true);
    let decision = || {
        CloseoutDecision::new(control("closeout.project"), 9, 10, role("role.sponsor")).with_evidence(evidence("closure"))
    };
    let closed = decision().close(&controls, &ready).unwrap();
    assert_eq!(closed.project(), &project());
    assert_eq!(closed.control(), &control("closeout.project"));
    assert_eq!(closed.report_seq(), 9);
    assert_eq!(closed.decision_seq(), 10);
    assert_eq!(closed.decided_by(), &role("role.sponsor"));
    assert_eq!(closed.evidence().len(), 1);

    assert_eq!(
        decision().close(&controls, &closeout_report(9, false)).unwrap_err(),
        ConstructionProjectError::GateReportNotReady { gate: control("closeout.project") }
    );
    assert_eq!(
        decision().close(&controls, &closeout_report(8, true)).unwrap_err(),
        ConstructionProjectError::GateSequenceMismatch { gate: control("closeout.project"), report_seq: 8, decision_seq: 9 }
    );
    assert_eq!(
        CloseoutDecision::new(control("closeout.project"), 9, 9, role("role.sponsor"))
            .with_evidence(evidence("closure"))
            .close(&controls, &ready)
            .unwrap_err(),
        ConstructionProjectError::InvalidSequence { field: "closeout.decision_seq", sequence: 9 }
    );
    assert_eq!(
        CloseoutDecision::new(control("closeout.project"), 9, 10, role("role.planner"))
            .with_evidence(evidence("closure"))
            .close(&controls, &ready)
            .unwrap_err(),
        ConstructionProjectError::ApprovalAuthorityMismatch {
            gate: control("closeout.project"),
            expected: role("role.sponsor"),
            actual: role("role.planner"),
        }
    );
    assert_eq!(
        CloseoutDecision::new(control("closeout.project"), 9, 10, role("role.sponsor")).close(&controls, &ready).unwrap_err(),
        ConstructionProjectError::EmptyCollection("closeout.decision.evidence")
    );
    assert_eq!(
        CloseoutDecision::new(control("closeout.other"), 9, 10, role("role.sponsor"))
            .with_evidence(evidence("closure"))
            .close(&controls, &ready)
            .unwrap_err(),
        ConstructionProjectError::GateMismatch { expected: control("closeout.project"), actual: control("closeout.other") }
    );
}

fn book(project: &ProjectId) -> ProjectBook {
    ProjectBook::new(project.clone(), role("role.writer"))
}

fn closeout_set() -> CloseoutControlSet {
    CloseoutControlSet::new(project(), control("closeout.project"), role("role.sponsor"))
        .with_obligation(obligation(CloseoutObligationKind::WarrantyContactHandoff, "obligation.warranty"))
        .with_obligation(obligation(CloseoutObligationKind::RetentionPolicy, "obligation.retention"))
        .with_obligation(obligation(CloseoutObligationKind::UnresolvedWork, "obligation.unresolved"))
        .with_obligation(obligation(CloseoutObligationKind::EvidenceDisposition, "obligation.disposition"))
        .with_obligation(obligation(CloseoutObligationKind::Lesson, "obligation.lesson"))
}

fn obligation(kind: CloseoutObligationKind, id: &str) -> CloseoutObligation {
    CloseoutObligation::new(kind, ProjectObligation::mandatory(project(), Requirement::new(control(id), "closeout duty")))
}

fn closeout_report(seq: u64, ready: bool) -> CloseoutReport {
    CloseoutReport {
        control: control("closeout.project"),
        project: project(),
        as_of_seq: seq,
        as_of_date: day(40),
        final_economy_ready: ready,
        items: Vec::new(),
        ready,
    }
}

fn economy_report() -> FinalEconomyReport {
    FinalEconomyControl::new(
        project(),
        CurrencyCode::new("EUR").unwrap(),
        FinalEconomyBasis::new(5, day(40), "closing cutoff"),
        FinalEconomyReconciliation::new(control("fact.final"), control("fact.ledger"), "final against ledger"),
    )
    .derive()
    .unwrap()
}

fn exception(decided_by: &str, reason: &str) -> ExceptionDecision {
    ExceptionDecision::new(
        control("exception.heating"),
        ExceptionScope::new(project()).covers(control("requirement.heating")),
        role(decided_by),
        role("role.customer"),
        reason,
        day(1),
        day(20),
    )
}

fn handover_gate() -> HandoverGate {
    HandoverGate::new(
        project(),
        control("gate.technical"),
        control("system.heating"),
        HandoverGateKind::TechnicalCompletion,
        role("role.customer"),
    )
}

fn handover_report(gate: &HandoverGate, seq: u64, ready: bool) -> HandoverGateReport {
    HandoverGateReport {
        gate: gate.control.clone(),
        project: gate.project.clone(),
        target: gate.target.clone(),
        kind: gate.kind,
        as_of_seq: seq,
        readiness: CommissioningReadinessReport {
            target: gate.target.clone(),
            as_of_seq: seq,
            ready,
            burn_down: CommissioningBurnDown::empty(),
            items: Vec::new(),
        },
    }
}

fn gate_report(seq: u64, ready: bool) -> GateReport {
    GateReport {
        gate: control("gate.design"),
        as_of_seq: seq,
        ready,
        unmet: Vec::new(),
        conflicted: Vec::new(),
        expired: Vec::new(),
        applied_exceptions: Vec::new(),
    }
}

fn evidence(id: &str) -> ExternalRef {
    ExternalRef::new("docs", id, Some("v1".to_owned()), None)
}

fn project() -> ProjectId {
    ProjectId::new("project.alpha").unwrap()
}

fn control(id: &str) -> ControlId {
    ControlId::new(id).unwrap()
}

fn role(id: &str) -> RoleId {
    RoleId::new(id).unwrap()
}

fn day(offset: i32) -> ProjectDate {
    ProjectDate::from_julian_day(2_460_000 + offset)
}
