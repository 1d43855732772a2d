use sim_lib_construction_project::book::ProjectBook;
use sim_lib_construction_project::fact::FactBody;
use sim_lib_construction_project::field_import::{
    import_field_item, FieldItemImport, FieldItemImportOutcome, EFFECT_LEDGER_BACKEND,
};
use sim_lib_construction_project::field_item::{
    FieldItem, FieldItemKind, FieldItemReference, FieldItemState, FieldLane, FieldSeverity,
};
use sim_lib_construction_project::{ConstructionProjectError, ControlId, EvidenceState, ExternalRef, ProjectDate, ProjectId, RoleId};

#[test]
fn external_import_is_idempotent_and_changed_source_state_supersedes() {
    let mut book = ProjectBook::new(ProjectId::new("reference-center").unwrap(), role("project-chief"));
    let first = dalux_import("open", "2026-07-10T10:00:00Z");

    assert_eq!(
        import_field_item(&mut book, 1, day(10), &first).unwrap(),
        FieldItemImportOutcome::Appended { seq: 1, supersedes: None }
    );
    assert_eq!(
        import_field_item(&mut book, 2, day(10), &first).unwrap(),
        FieldItemImportOutcome::Duplicate { existing_seq: 1 }
    );
    assert_eq!(book.len(), 1);

    let changed = dalux_import("closed", "2026-07-10T11:00:00Z");
    assert_eq!(
        import_field_item(&mut book, 2, day(10), &changed).unwrap(),
        FieldItemImportOutcome::Appended { seq: 2, supersedes: Some(1) }
    );

    let fact = book.fact(2).unwrap();
    assert_eq!(fact.subject, control("field.dalux-item-1"));
    assert_eq!(fact.evidence_state, EvidenceState::Reported);
    assert_eq!(fact.evidence.len(), 2);
    assert!(fact.evidence.iter().all(|reference| reference.web_url.is_none()));
    let debug = format!("{fact:?}");
    for excluded in ["attachment", "bearer", "token", "web_url: Some", "Door review"] {
        assert!(!debug.contains(excluded), "fact leaked {excluded:?}");
    }
}

#[test]
fn import_body_records_the_project_control_fields() {
    let mut book = ProjectBook::new(project(), role("project-chief"));
    import_field_item(&mut book, 1, day(10), &dalux_import("open", "v1")).unwrap();
    let fact = book.fact(1).unwrap();
    assert_eq!(fact.kind.as_qualified_str(), "construction/field-item-import");
    assert_eq!(fact.actor_role, role("project-chief"));
    assert_eq!(fact.effective_on, day(10));
    match &fact.body {
        FactBody::FieldImport(body) => {
            assert_eq!(body.source, "site/dalux");
            assert_eq!(body.external_id, "items/item-1");
            assert_eq!(body.source_version, Some("v1".to_owned()));
            assert_eq!(body.source_state, "open");
            assert_eq!(body.severity, FieldSeverity::Major);
            assert_eq!(body.lane, FieldLane::Quality);
            assert_eq!(body.affected_controls, vec![control("package.frame")]);
            assert_eq!(body.state, FieldItemState::Open);
            assert!(!body.non_waivable);
        },
        FactBody::Expression { .. } => panic!("import facts carry their fields"),
    }
    assert_eq!(fact.evidence[1].backend, EFFECT_LEDGER_BACKEND);

    let reopened = import_field_item(&mut book, 2, day(11), &dalux_import("open", "v2")).unwrap();
    assert_eq!(reopened, FieldItemImportOutcome::Appended { seq: 2, supersedes: Some(1) });
    assert_eq!(
        import_field_item(&mut book, 3, day(11), &dalux_import("open", "v1")).unwrap(),
        FieldItemImportOutcome::Appended { seq: 3, supersedes: Some(2) }
    );
}

#[test]
fn import_boundary_refuses_unminimized_records() {
    let item = item_with_kind(FieldItemKind::Observation);
    assert_eq!(
        FieldItemImport::new(item, reference("v1"), "open", effect("v1")),
        Err(ConstructionProjectError::EmptyField("field_item_import.external_reference_kind"))
    );
    assert_eq!(
        FieldItemImport::new(item_with_kind(FieldItemKind::ExternalReference), reference("v1"), "in review", effect("v1")),
        Err(ConstructionProjectError::EmptyField("field_item_import.source_state"))
    );
    assert_eq!(
        FieldItemImport::new(item_with_kind(FieldItemKind::ExternalReference), reference("v1"), &"a".repeat(65), effect("v1")),
        Err(ConstructionProjectError::EmptyField("field_item_import.source_state"))
    );
    let linked = ExternalRef::new(EFFECT_LEDGER_BACKEND, "dalux/read/v1", None, Some("https://site".to_owned()));
    assert_eq!(
        FieldItemImport::new(item_with_kind(FieldItemKind::ExternalReference), reference("v1"), "open", linked),
        Err(ConstructionProjectError::EmptyField("field_item_import.effect_ref"))
    );
    let other_backend = ExternalRef::new("doc/synthetic", "dalux/read/v1", None, None);
    assert_eq!(
        FieldItemImport::new(item_with_kind(FieldItemKind::ExternalReference), reference("v1"), "open", other_backend),
        Err(ConstructionProjectError::EmptyField("field_item_import.effect_ref"))
    );
    let mut foreign_book = ProjectBook::new(ProjectId::new("other-project").unwrap(), role("project-chief"));
    assert_eq!(
        import_field_item(&mut foreign_book, 1, day(10), &dalux_import("open", "v1")),
        Err(ConstructionProjectError::ProjectMismatch {
            expected: ProjectId::new("other-project").unwrap(),
            actual: project(),
        })
    );
    assert!(foreign_book.is_empty());
}

fn dalux_import(state: &str, version: &str) -> FieldItemImport {
    FieldItemImport::new(
        item("field.dalux-item-1", FieldItemKind::ExternalReference, FieldLane::Quality).with_state(FieldItemState::Open),
        FieldItemReference::new("site/dalux", "items/item-1", Some(version.to_owned())).unwrap(),
        state,
        ExternalRef::new(EFFECT_LEDGER_BACKEND, &format!("dalux/read/{version}"), None, None),
    )
    .unwrap()
}

fn item_with_kind(kind: FieldItemKind) -> FieldItem {
    item("field.dalux-item-1", kind, FieldLane::Quality)
}

fn reference(version: &str) -> FieldItemReference {
    FieldItemReference::new("site/dalux", "items/item-1", Some(version.to_owned())).unwrap()
}

fn effect(version: &str) -> ExternalRef {
    ExternalRef::new(EFFECT_LEDGER_BACKEND, &format!("dalux/read/{version}"), None, None)
}

fn item(id: &str, kind: FieldItemKind, lane: FieldLane) -> FieldItem {
    FieldItem::new(project(), control(id), kind, FieldSeverity::Major, lane, role("site-manager"))
        .due_on(day(12))
        .affects(control("package.frame"))
}

fn project() -> ProjectId {
    ProjectId::new("reference-center").unwrap()
}

fn control(id: &str) -> ControlId {
    ControlId::new(id).unwrap()
}

fn role(id: &str) -> RoleId {
    RoleId::new(id).unwrap()
}

fn day(day: u8) -> ProjectDate {
    ProjectDate::from_calendar_date(2026, 7, day).unwrap()
}
