use sim_lib_construction_project::design::{
    AuthorityObligation, AuthorityObligationState, DesignControlSet, DesignRelease, DesignReleasePurpose, DesignReview,
    DesignReviewState, DesignRevision, InspectionRecord, InspectionState, PermitRecord, PermitState, RfiRecord, RfiState,
};
use sim_lib_construction_project::{
    ConstructionProjectError, ControlId, EvidenceState, EvidenceValidity, ExternalRef, ProjectDate, ProjectId, RoleId,
};

#[test]
fn accepted_production_release_makes_package_design_ready() {
    let report = ready_set().readiness_for(package(), DesignReleasePurpose::Production, today()).unwrap();

    assert!(report.ready);
    assert_eq!(report.current_revisions, vec![revision_a()]);
    assert_eq!(report.releases, vec![release("release.prod")]);
    assert!(report.blockers.is_empty());
}

#[test]
fn conflicting_current_revisions_are_rejected() {
    let result = DesignControlSet::new()
        .with_revision(accepted_revision("design.a", "A"))
        .with_revision(accepted_revision("design.b", "B"))
        .with_release(accepted_release("release.prod", "design.a"))
        .readiness_for(package(), DesignReleasePurpose::Production, today());

    assert!(matches!(result, Err(ConstructionProjectError::ConflictingDesignRevisions { .. })));
}

#[test]
fn answered_but_unaccepted_rfi_blocks_readiness_through_graph_path() {
    let report = ready_set()
        .with_rfi(
            RfiRecord::new(project(), control("rfi.fire-rating"), role("designer"), today())
                .with_state(RfiState::Answered)
                .with_evidence_state(EvidenceState::Evidenced)
                .affects(package())
                .with_external_ref(reference("rfi/fire-rating", "answered")),
        )
        .readiness_for(package(), DesignReleasePurpose::Production, today())
        .unwrap();

    assert!(!report.ready);
    assert_eq!(report.blockers[0].control.as_str(), "rfi.fire-rating");
    assert_eq!(report.blockers[0].reason, "RFI is answered but not accepted");
    assert_eq!(
        report.blockers[0].paths[0].steps.iter().map(|step| step.control.as_str()).collect::<Vec<_>>(),
        vec!["rfi.fire-rating", "package.frame"]
    );
}

#[test]
fn release_for_wrong_purpose_blocks_production_readiness() {
    let report = DesignControlSet::new()
        .with_revision(accepted_revision("design.a", "A"))
        .with_release(
            DesignRelease::new(
                project(),
                release("release.procurement"),
                revision_a(),
                "A",
                DesignReleasePurpose::Procurement,
                role("designer"),
                role("project-chief"),
                role("project-chief"),
                today(),
            )
            .with_evidence_state(EvidenceState::Accepted)
            .affects(package())
            .with_external_ref(reference("release/procurement", "accepted")),
        )
        .readiness_for(package(), DesignReleasePurpose::Production, today())
        .unwrap();

    assert!(!report.ready);
    assert_eq!(report.blockers[0].rule, "release-purpose");
}

#[test]
fn expired_permit_blocks_authority_readiness() {
    let report = ready_set()
        .with_permit(
            PermitRecord::new(project(), control("permit.fire"), role("authority-lead"), today())
                .with_state(PermitState::Granted)
                .with_evidence_state(EvidenceState::Accepted)
                .with_validity(EvidenceValidity::new(None, Some(ProjectDate::from_calendar_date(2026, 7, 22).unwrap())))
                .affects(package())
                .with_external_ref(reference("permit/fire", "granted")),
        )
        .readiness_for(package(), DesignReleasePurpose::Production, today())
        .unwrap();

    assert!(!report.ready);
    assert_eq!(report.blockers[0].evidence_state, EvidenceState::Expired);
    assert_eq!(report.blockers[0].reason, "permit is expired");
}

#[test]
fn authority_hold_blocks_readiness() {
    let report = ready_set()
        .with_permit(
            PermitRecord::new(project(), control("permit.traffic"), role("authority-lead"), today())
                .with_state(PermitState::Hold)
                .with_evidence_state(EvidenceState::Reported)
                .affects(package())
                .with_external_ref(reference("permit/traffic", "hold")),
        )
        .readiness_for(package(), DesignReleasePurpose::Production, today())
        .unwrap();

    assert!(!report.ready);
    assert_eq!(report.blockers[0].reason, "authority permit is on hold");
}

#[test]
fn superseded_drawing_makes_dependent_release_stale_until_revalidated() {
    let stale = DesignControlSet::new()
        .with_revision(accepted_revision("design.a", "A"))
        .with_revision(accepted_revision("design.b", "B").supersedes(revision_a()))
        .with_release(accepted_release("release.prod", "design.a"))
        .readiness_for(package(), DesignReleasePurpose::Production, today());

    assert!(matches!(stale, Err(ConstructionProjectError::StaleDesignRelease { .. })));

    let revalidated = DesignControlSet::new()
        .with_revision(accepted_revision("design.a", "A"))
        .with_revision(accepted_revision("design.b", "B").supersedes(revision_a()))
        .with_release(accepted_release("release.prod", "design.a").revalidated_against(revision_b()))
        .readiness_for(package(), DesignReleasePurpose::Production, today())
        .unwrap();

    assert!(revalidated.ready);
}

#[test]
fn non_waivable_production_blocker_is_rejected() {
    let result = ready_set()
        .with_authority_obligation(
            AuthorityObligation::new(project(), control("authority.stop"), role("authority-lead"), today())
                .with_state(AuthorityObligationState::Hold)
                .with_evidence_state(EvidenceState::Reported)
                .non_waivable()
                .affects(package())
                .with_external_ref(reference("authority/stop", "hold")),
        )
        .readiness_for(package(), DesignReleasePurpose::Production, today());

    assert!(matches!(result, Err(ConstructionProjectError::NonWaivableProductionBlocker { .. })));
}

#[test]
fn accepted_review_decision_is_part_of_design_control() {
    let report = ready_set()
        .with_review(
            DesignReview::new(project(), control("review.design-a"), revision_a(), role("design-checker"), today())
                .with_state(DesignReviewState::Accepted)
                .with_evidence_state(EvidenceState::Accepted)
                .affects(package())
                .with_external_ref(reference("review/design-a", "accepted")),
        )
        .readiness_for(package(), DesignReleasePurpose::Production, today())
        .unwrap();

    assert!(report.ready);
}

#[test]
fn design_stale_release_names_the_superseding_revision() {
    let stale = DesignControlSet::new()
        .with_revision(accepted_revision("design.a", "A"))
        .with_revision(accepted_revision("design.b", "B").supersedes(revision_a()))
        .with_release(accepted_release("release.prod", "design.a"))
        .readiness_for(package(), DesignReleasePurpose::Production, today());

    assert_eq!(
        stale,
        Err(ConstructionProjectError::StaleDesignRelease {
            release: release("release.prod"),
            revision: revision_a(),
            superseding: revision_b(),
        })
    );
}

#[test]
fn design_conflict_lists_both_current_revisions() {
    let result = DesignControlSet::new()
        .with_revision(accepted_revision("design.a", "A"))
        .with_revision(accepted_revision("design.b", "B"))
        .readiness_for(package(), DesignReleasePurpose::Production, today());

    assert_eq!(
        result,
        Err(ConstructionProjectError::ConflictingDesignRevisions {
            affected: package(),
            revisions: vec![revision_a(), revision_b()],
        })
    );
}

#[test]
fn design_release_of_unknown_revision_is_refused() {
    let result = DesignControlSet::new()
        .with_revision(accepted_revision("design.a", "A"))
        .with_release(accepted_release("release.prod", "design.z"))
        .readiness_for(package(), DesignReleasePurpose::Production, today());

    assert_eq!(
        result,
        Err(ConstructionProjectError::MissingDesignRevision {
            kind: "design_release",
            control: release("release.prod"),
            revision: control("design.z"),
        })
    );
}

#[test]
fn design_release_by_another_role_is_refused() {
    let result = DesignControlSet::new()
        .with_revision(accepted_revision("design.a", "A"))
        .with_release(
            DesignRelease::new(
                project(),
                release("release.prod"),
                revision_a(),
                "A",
                DesignReleasePurpose::Production,
                role("designer"),
                role("site-lead"),
                role("project-chief"),
                today(),
            )
            .with_evidence_state(EvidenceState::Accepted)
            .affects(package())
            .with_external_ref(reference("release.prod", "accepted")),
        )
        .readiness_for(package(), DesignReleasePurpose::Production, today());

    assert_eq!(
        result,
        Err(ConstructionProjectError::DesignReleaseAuthorityMismatch {
            release: release("release.prod"),
            expected: role("project-chief"),
            actual: role("site-lead"),
        })
    );
}

#[test]
fn design_records_need_title_affected_controls_and_artifacts() {
    let blank = DesignControlSet::new()
        .with_revision(
            DesignRevision::new(project(), revision_a(), "  ", role("designer"), today())
                .affects(package())
                .with_external_ref(reference("design.a", "A")),
        )
        .readiness_for(package(), DesignReleasePurpose::Production, today());
    assert_eq!(blank, Err(ConstructionProjectError::EmptyField("design_revision")));

    let unaffected = DesignControlSet::new()
        .with_revision(
            DesignRevision::new(project(), revision_a(), "A", role("designer"), today())
                .with_external_ref(reference("design.a", "A")),
        )
        .readiness_for(package(), DesignReleasePurpose::Production, today());
    assert_eq!(unaffected, Err(ConstructionProjectError::EmptyCollection("affected_control_ids")));

    let no_refs = DesignControlSet::new()
        .with_permit(PermitRecord::new(project(), control("permit.fire"), role("authority-lead"), today()).affects(package()))
        .readiness_for(package(), DesignReleasePurpose::Production, today());
    assert_eq!(no_refs, Err(ConstructionProjectError::EmptyCollection("external_refs")));
}

#[test]
fn design_review_of_unknown_revision_is_refused() {
    let result = ready_set()
        .with_review(
            DesignReview::new(project(), control("review.x"), control("design.x"), role("design-checker"), today())
                .affects(package())
                .with_external_ref(reference("review/x", "pending")),
        )
        .readiness_for(package(), DesignReleasePurpose::Production, today());

    assert_eq!(
        result,
        Err(ConstructionProjectError::MissingDesignRevision {
            kind: "design_review",
            control: control("review.x"),
            revision: control("design.x"),
        })
    );
}

#[test]
fn design_blockers_come_in_control_order_with_their_reasons() {
    let report = ready_set()
        .with_rfi(
            RfiRecord::new(project(), control("rfi.open"), role("designer"), today())
                .affects(package())
                .with_external_ref(reference("rfi/open", "open")),
        )
        .with_inspection(
            InspectionRecord::new(project(), control("inspection.hold"), role("inspector"), today())
                .with_state(InspectionState::Hold)
                .affects(package())
                .with_external_ref(reference("inspection/hold", "hold")),
        )
        .with_authority_obligation(
            AuthorityObligation::new(project(), control("authority.open"), role("authority-lead"), today())
                .affects(package())
                .with_external_ref(reference("authority/open", "open")),
        )
        .readiness_for(package(), DesignReleasePurpose::Production, today())
        .unwrap();

    let controls: Vec<&str> = report.blockers.iter().map(|b| b.control.as_str()).collect();
    assert_eq!(controls, vec!["authority.open", "inspection.hold", "rfi.open"]);
    assert_eq!(report.blockers[0].reason, "authority obligation is not satisfied with accepted evidence");
    assert_eq!(report.blockers[1].reason, "authority inspection is on hold");
    assert_eq!(report.blockers[2].reason, "RFI is not accepted");
    assert_eq!(report.blockers[2].rule, "rfi");
    assert!(report.blockers.iter().all(|b| b.paths.len() == 1 && !b.non_waivable));
}

#[test]
fn design_non_waivable_blocker_is_reported_outside_production() {
    let report = ready_set()
        .with_authority_obligation(
            AuthorityObligation::new(project(), control("authority.stop"), role("authority-lead"), today())
                .with_state(AuthorityObligationState::Hold)
                .non_waivable()
                .affects(package())
                .with_external_ref(reference("authority/stop", "hold")),
        )
        .readiness_for(package(), DesignReleasePurpose::Procurement, today())
        .unwrap();

    assert!(!report.ready);
    let rules: Vec<&str> = report.blockers.iter().map(|b| b.rule.as_str()).collect();
    assert_eq!(rules, vec!["authority-obligation", "release-purpose"]);
    assert!(report.blockers[0].non_waivable);
    assert_eq!(report.blockers[0].reason, "authority obligation is on hold");
}

#[test]
fn design_blocker_of_another_package_is_not_reported() {
    let report = ready_set()
        .with_rfi(
            RfiRecord::new(project(), control("rfi.elsewhere"), role("designer"), today())
                .affects(control("package.roof"))
                .with_external_ref(reference("rfi/elsewhere", "open")),
        )
        .readiness_for(package(), DesignReleasePurpose::Production, today())
        .unwrap();

    assert!(report.ready);
}

#[test]
fn design_unaccepted_revision_evidence_blocks() {
    let report = DesignControlSet::new()
        .with_revision(
            DesignRevision::new(project(), revision_a(), "A", role("designer"), today())
                .affects(package())
                .with_external_ref(reference("design.a", "A")),
        )
        .with_release(accepted_release("release.prod", "design.a"))
        .readiness_for(package(), DesignReleasePurpose::Production, today())
        .unwrap();

    assert!(!report.ready);
    assert_eq!(report.blockers[0].control, revision_a());
    assert_eq!(report.blockers[0].rule, "design-revision");
    assert_eq!(report.blockers[0].evidence_state, EvidenceState::Reported);
}

fn ready_set() -> DesignControlSet {
    DesignControlSet::new()
        .with_revision(accepted_revision("design.a", "A"))
        .with_release(accepted_release("release.prod", "design.a"))
}

fn accepted_revision(control_id: &str, revision: &str) -> DesignRevision {
    DesignRevision::new(project(), control(control_id), revision, role("designer"), today())
        .with_evidence_state(EvidenceState::Accepted)
        .affects(package())
        .with_external_ref(reference(control_id, revision))
}

fn accepted_release(control_id: &str, revision_id: &str) -> DesignRelease {
    DesignRelease::new(
        project(),
        release(control_id),
        control(revision_id),
        "A",
        DesignReleasePurpose::Production,
        role("designer"),
        role("project-chief"),
        role("project-chief"),
        today(),
    )
    .with_evidence_state(EvidenceState::Accepted)
    .affects(package())
    .with_external_ref(reference(control_id, "accepted"))
}

fn project() -> ProjectId {
    ProjectId::new("reference-center").unwrap()
}

fn package() -> ControlId {
    control("package.frame")
}

fn revision_a() -> ControlId {
    control("design.a")
}

fn revision_b() -> ControlId {
    control("design.b")
}

fn release(id: &str) -> ControlId {
    control(id)
}

fn control(id: &str) -> ControlId {
    ControlId::new(id).unwrap()
}

fn role(id: &str) -> RoleId {
    RoleId::new(id).unwrap()
}

fn today() -> ProjectDate {
    ProjectDate::from_calendar_date(2026, 7, 23).unwrap()
}

fn reference(id: &str, version: &str) -> ExternalRef {
    ExternalRef::new("doc/synthetic", id, Some(version.to_owned()), None)
}
