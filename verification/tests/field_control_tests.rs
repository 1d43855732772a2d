use sim_lib_construction_project::field_item::{
    priority_group, safety_first_rollup, severity_rank, FieldItem, FieldItemKind, FieldItemReference, FieldItemState,
    FieldLane, FieldSeverity,
};
use sim_lib_construction_project::incident::{IncidentEscalation, ProjectIncident};
use sim_lib_construction_project::inspection::{InspectionPoint, InspectionResult};
use sim_lib_construction_project::{ConstructionProjectError, ControlId, EvidenceState, ExternalRef, ProjectDate, ProjectId, RoleId};

#[test]
fn critical_incident_fails_closed_until_escalated() {
    let incident = ProjectIncident::new(
        item("incident.fall", FieldItemKind::Incident, FieldLane::Safety).with_severity(FieldSeverity::Critical),
        day(10),
    );
    assert!(incident.requires_escalation());
    assert!(incident.validate().is_err());

    let escalated = incident.with_escalation(IncidentEscalation {
        escalated_to: role("project-chief"),
        escalated_on: day(10),
        reason: "Stop work and secure the opening".to_owned(),
        evidence: vec![evidence("incident/fall/escalation")],
    });
    escalated.validate().unwrap();
}

#[test]
fn passed_inspection_needs_accepted_evidence() {
    let passed = InspectionPoint::new(
        item("test.pressure", FieldItemKind::TestPoint, FieldLane::Quality)
            .with_state(FieldItemState::Closed)
            .with_evidence_state(EvidenceState::Accepted)
            .with_evidence(evidence("test/pressure/accepted")),
    )
    .with_result(InspectionResult::Passed, role("quality-lead"));

    assert!(!passed.blocks_production());
    passed.validate().unwrap();
}

#[test]
fn rejected_inspection_remains_a_production_blocker() {
    let rejected = InspectionPoint::new(
        item("inspection.fire-seal", FieldItemKind::InspectionPoint, FieldLane::Quality)
            .with_state(FieldItemState::Rejected)
            .with_evidence_state(EvidenceState::Rejected)
            .with_evidence(evidence("inspection/fire-seal/rejected")),
    )
    .with_result(InspectionResult::Rejected, role("quality-lead"));

    assert!(rejected.blocks_production());
    rejected.validate().unwrap();
}

#[test]
fn rollup_puts_imminent_safety_and_non_waivable_controls_first() {
    let items = vec![
        item("progress.critical", FieldItemKind::Observation, FieldLane::Progress)
            .with_state(FieldItemState::Blocked)
            .with_severity(FieldSeverity::Critical),
        item("convenience.non-waivable", FieldItemKind::Deviation, FieldLane::Convenience)
            .with_state(FieldItemState::Open)
            .with_severity(FieldSeverity::Information)
            .non_waivable(),
        item("safety.imminent", FieldItemKind::Incident, FieldLane::Safety)
            .with_state(FieldItemState::Blocked)
            .with_severity(FieldSeverity::Imminent),
        item("safety.closed", FieldItemKind::CorrectiveAction, FieldLane::Safety)
            .with_state(FieldItemState::Closed)
            .with_evidence_state(EvidenceState::Accepted)
            .with_evidence(evidence("safety/closed")),
        item("environment.major", FieldItemKind::Incident, FieldLane::Environment).with_state(FieldItemState::Open),
    ];

    let controls = safety_first_rollup(&items, day(20))
        .into_iter()
        .map(|row| row.control.as_str().to_string())
        .collect::<Vec<_>>();

    assert_eq!(
        controls,
        vec!["safety.imminent", "convenience.non-waivable", "progress.critical", "environment.major", "safety.closed"]
    );
}

#[test]
fn open_item_becomes_overdue_but_closed_item_does_not() {
    let open = item("defect.door", FieldItemKind::Defect, FieldLane::Quality).with_state(FieldItemState::Open);
    assert!(open.is_overdue(day(20)));
    assert!(!open.is_overdue(day(12)));
    let closed = open
        .with_state(FieldItemState::Closed)
        .with_evidence_state(EvidenceState::Accepted)
        .with_evidence(evidence("defect/door/accepted"));
    assert!(!closed.is_overdue(day(20)));
    closed.validate().unwrap();
}

#[test]
fn field_item_validation_names_each_missing_piece() {
    let bare = FieldItem::new(
        project(),
        control("observation.bare"),
        FieldItemKind::Observation,
        FieldSeverity::Minor,
        FieldLane::Progress,
        role("site-manager"),
    );
    assert_eq!(bare.validate(), Err(ConstructionProjectError::EmptyCollection("field_item.affected_control_ids")));
    let corrected = item("observation.fixed", FieldItemKind::Observation, FieldLane::Progress)
        .with_state(FieldItemState::Corrected);
    assert_eq!(corrected.validate(), Err(ConstructionProjectError::EmptyCollection("field_item.accepted_evidence")));

    let wrong_kind = ProjectIncident::new(item("observation.x", FieldItemKind::Observation, FieldLane::Quality), day(1));
    assert_eq!(wrong_kind.validate(), Err(ConstructionProjectError::EmptyField("incident.incident_kind")));
    let undecided = InspectionPoint {
        field_item: item("inspection.y", FieldItemKind::InspectionPoint, FieldLane::Quality),
        result: InspectionResult::Rejected,
        decided_by: None,
    };
    assert_eq!(undecided.validate(), Err(ConstructionProjectError::EmptyField("inspection.decided_by")));
    let unaccepted = InspectionPoint::new(item("inspection.z", FieldItemKind::InspectionPoint, FieldLane::Quality))
        .with_result(InspectionResult::Passed, role("quality-lead"));
    assert_eq!(unaccepted.validate(), Err(ConstructionProjectError::EmptyCollection("inspection.accepted_evidence")));
}

#[test]
fn field_item_reference_projects_to_a_url_free_external_reference() {
    let reference = FieldItemReference::new("site/dalux", "items/item-1", Some("rev-2".to_owned())).unwrap();
    let external = reference.as_external_ref();
    assert_eq!(external.backend, "site/dalux");
    assert_eq!(external.external_id, "items/item-1");
    assert_eq!(external.web_url, None);
    assert_eq!(
        FieldItemReference::new("  ", "items/item-1", None),
        Err(ConstructionProjectError::EmptyField("field_item_reference.source"))
    );
    assert_eq!(
        FieldItemReference::new("site/dalux", "", None),
        Err(ConstructionProjectError::EmptyField("field_item_reference.external_id"))
    );
}

#[test]
fn rollup_ranks_groups_and_severities_exactly() {
    assert_eq!(severity_rank(FieldSeverity::Imminent), 0);
    assert_eq!(severity_rank(FieldSeverity::Information), 5);
    let rows = safety_first_rollup(
        &vec![
            item("quality.open", FieldItemKind::Defect, FieldLane::Quality).with_state(FieldItemState::Open),
            item("work.imminent", FieldItemKind::Incident, FieldLane::WorkEnvironment)
                .with_severity(FieldSeverity::Imminent),
        ],
        day(11),
    );
    assert_eq!(priority_group(&rows[0]), 0);
    assert_eq!(priority_group(&rows[1]), 5);
    assert_eq!(rows[0].control.as_str(), "work.imminent");
    assert!(!rows[1].overdue);
}

fn item(id: &str, kind: FieldItemKind, lane: FieldLane) -> FieldItem {
    FieldItem::new(project(), control(id), kind, FieldSeverity::Major, lane, role("site-manager"))
        .due_on(day(12))
        .affects(control("package.frame"))
}

fn project() -> ProjectId {
    ProjectId::new("reference-center").unwrap()
}

fn control(id: &str) -> ControlId {
    ControlId::new(id).unwrap()
}

fn role(id: &str) -> RoleId {
    RoleId::new(id).unwrap()
}

fn evidence(id: &str) -> ExternalRef {
    ExternalRef::new("doc/synthetic", id, Some("accepted".to_owned()), None)
}

fn day(day: u8) -> ProjectDate {
    ProjectDate::from_calendar_date(2026, 7, day).unwrap()
}
