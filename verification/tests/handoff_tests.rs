use sim_lib_construction_project::design::{
    DesignControlSet, DesignReadinessReport, DesignRelease, DesignReleasePurpose, DesignRevision, RfiRecord,
};
use sim_lib_construction_project::handoff::{
    PackageHandoff, PackageHandoffControlSet, PackageReadinessReport, ProcurementStatus, QualificationStatus,
    SupplierQualificationReport,
};
use sim_lib_construction_project::{
    ConstructionProjectError, ControlId, EvidenceState, ExternalRef, OrganizationId, ProjectDate, ProjectId, RoleId,
};

#[test]
fn handoff_with_award_supplier_design_time_and_acceptance_is_ready() {
    let report = handoffs(ready_handoff())
        .readiness_for(&control("handoff.frame"), &awarded("steel-co", "award.frame"), &qualified("steel-co"), &design_ready(), date(1))
        .unwrap();

    assert!(report.ready);
    assert!(report.blockers.is_empty());
    assert_eq!(report.handoff, control("handoff.frame"));
    assert_eq!(report.package, package());
    assert_eq!(report.supplier, organization("steel-co"));
    assert_eq!(report.as_of_date, date(1));
}

#[test]
fn handoff_ready_to_award_is_not_ready_to_produce() {
    let procurement = PackageReadinessReport { package: package(), status: ProcurementStatus::ReadyToAward };
    let report = handoffs(ready_handoff())
        .readiness_for(&control("handoff.frame"), &procurement, &qualified("steel-co"), &design_ready(), date(1))
        .unwrap();

    assert!(!report.ready);
    assert_eq!(report.blockers.len(), 1);
    assert_eq!(report.blockers[0].control, control("award.frame"));
    assert_eq!(report.blockers[0].rule, "award");
    assert_eq!(report.blockers[0].reason, "ready to award is not ready to produce");
    assert_eq!(report.blockers[0].evidence_state, EvidenceState::Reported);
}

#[test]
fn handoff_blockers_are_ordered_by_control_then_rule() {
    let handoff = PackageHandoff::new(
        control("handoff.frame"),
        package(),
        control("award.frame"),
        organization("steel-co"),
        control("release.prod"),
        control("material.steel"),
        30,
        date(10),
        role("supplier-lead"),
    )
    .with_evidence(reference("handoff/frame"));
    let report = handoffs(handoff)
        .readiness_for(&control("handoff.frame"), &awarded("iron-co", "award.other"), &unqualified("iron-co"), &design_ready(), date(1))
        .unwrap();

    let keys: Vec<(&str, &str)> = report.blockers.iter().map(|b| (b.control.as_str(), b.rule.as_str())).collect();
    assert_eq!(
        keys,
        vec![
            ("award.frame", "award-link"),
            ("award.frame", "supplier-substitution"),
            ("handoff.frame", "responsibility-acceptance"),
            ("handoff.frame", "supplier-qualification"),
            ("handoff.frame", "supplier-qualification"),
            ("material.steel", "lead-time"),
        ]
    );
    assert_eq!(report.blockers[3].reason, "qualification report is for a different supplier");
    assert_eq!(report.blockers[4].reason, "supplier qualification is not accepted and current");
}

#[test]
fn handoff_lead_time_fits_exactly_on_the_need_date() {
    let exact = PackageHandoff::new(
        control("handoff.frame"),
        package(),
        control("award.frame"),
        organization("steel-co"),
        control("release.prod"),
        control("material.steel"),
        9,
        date(10),
        role("supplier-lead"),
    )
    .accepts_responsibility(date(1), "we accept the frame package")
    .with_evidence(reference("handoff/frame"));
    let on_time = handoffs(exact)
        .readiness_for(&control("handoff.frame"), &awarded("steel-co", "award.frame"), &qualified("steel-co"), &design_ready(), date(1))
        .unwrap();
    assert!(on_time.ready);

    let late = handoffs(ready_handoff())
        .readiness_for(&control("handoff.frame"), &awarded("steel-co", "award.frame"), &qualified("steel-co"), &design_ready(), date(2))
        .unwrap();
    assert_eq!(late.blockers.len(), 1);
    assert_eq!(late.blockers[0].rule, "lead-time");
}

#[test]
fn handoff_carries_design_blockers_with_prefixed_rules() {
    let design = DesignControlSet::new()
        .with_revision(accepted_revision())
        .with_release(accepted_release())
        .with_rfi(
            RfiRecord::new(project(), control("rfi.fire"), role("designer"), date(1))
                .affects(package())
                .with_external_ref(reference("rfi/fire")),
        )
        .readiness_for(package(), DesignReleasePurpose::Production, date(1))
        .unwrap();
    let report = handoffs(ready_handoff())
        .readiness_for(&control("handoff.frame"), &awarded("steel-co", "award.frame"), &qualified("steel-co"), &design, date(1))
        .unwrap();

    assert_eq!(report.blockers.len(), 1);
    assert_eq!(report.blockers[0].control, control("rfi.fire"));
    assert_eq!(report.blockers[0].rule, "design:rfi");
    assert_eq!(report.blockers[0].reason, "RFI is not accepted");
}

#[test]
fn handoff_must_name_a_released_design() {
    let mut handoff = ready_handoff();
    handoff.released_design = control("release.other");
    let report = handoffs(handoff)
        .readiness_for(&control("handoff.frame"), &awarded("steel-co", "award.frame"), &qualified("steel-co"), &design_ready(), date(1))
        .unwrap();

    assert_eq!(report.blockers.len(), 1);
    assert_eq!(report.blockers[0].control, control("release.other"));
    assert_eq!(report.blockers[0].rule, "released-design");
}

#[test]
fn handoff_missing_or_mismatched_is_refused() {
    let set = handoffs(ready_handoff());
    assert_eq!(
        set.readiness_for(&control("handoff.roof"), &awarded("steel-co", "award.frame"), &qualified("steel-co"), &design_ready(), date(1)),
        Err(ConstructionProjectError::MissingPackageHandoff { handoff: control("handoff.roof") })
    );

    let other = PackageReadinessReport {
        package: control("package.roof"),
        status: ProcurementStatus::Awarded { supplier: "steel-co".to_owned(), award: control("award.frame") },
    };
    assert_eq!(
        set.readiness_for(&control("handoff.frame"), &other, &qualified("steel-co"), &design_ready(), date(1)),
        Err(ConstructionProjectError::HandoffPackageMismatch { handoff: control("handoff.frame"), expected: package() })
    );
}

#[test]
fn handoff_record_needs_lead_time_and_evidence() {
    let mut no_lead = ready_handoff();
    no_lead.lead_time_days = 0;
    assert_eq!(
        handoffs(no_lead).readiness_for(&control("handoff.frame"), &awarded("steel-co", "award.frame"), &qualified("steel-co"), &design_ready(), date(1)),
        Err(ConstructionProjectError::EmptyField("package_handoff.lead_time_days"))
    );

    let mut no_evidence = ready_handoff();
    no_evidence.evidence.clear();
    assert_eq!(
        handoffs(no_evidence).readiness_for(&control("handoff.frame"), &awarded("steel-co", "award.frame"), &qualified("steel-co"), &design_ready(), date(1)),
        Err(ConstructionProjectError::EmptyCollection("package_handoff.evidence"))
    );
}

#[test]
fn handoff_expiring_qualification_still_counts() {
    let expiring = SupplierQualificationReport { supplier: organization("steel-co"), status: QualificationStatus::Expiring };
    let report = handoffs(ready_handoff())
        .readiness_for(&control("handoff.frame"), &awarded("steel-co", "award.frame"), &expiring, &design_ready(), date(1))
        .unwrap();
    assert!(report.ready);
}

fn handoffs(handoff: PackageHandoff) -> PackageHandoffControlSet {
    PackageHandoffControlSet::new().with_handoff(handoff)
}

fn ready_handoff() -> PackageHandoff {
    PackageHandoff::new(
        control("handoff.frame"),
        package(),
        control("award.frame"),
        organization("steel-co"),
        control("release.prod"),
        control("material.steel"),
        30,
        date(31),
        role("supplier-lead"),
    )
    .accepts_responsibility(date(1), "we accept the frame package")
    .with_evidence(reference("handoff/frame"))
}

fn design_ready() -> DesignReadinessReport {
    DesignControlSet::new()
        .with_revision(accepted_revision())
        .with_release(accepted_release())
        .readiness_for(package(), DesignReleasePurpose::Production, date(1))
        .unwrap()
}

fn accepted_revision() -> DesignRevision {
    DesignRevision::new(project(), control("design.a"), "A", role("designer"), date(1))
        .with_evidence_state(EvidenceState::Accepted)
        .affects(package())
        .with_external_ref(reference("design/a"))
}

fn accepted_release() -> DesignRelease {
    DesignRelease::new(
        project(),
        control("release.prod"),
        control("design.a"),
        "A",
        DesignReleasePurpose::Production,
        role("designer"),
        role("project-chief"),
        role("project-chief"),
        date(1),
    )
    .with_evidence_state(EvidenceState::Accepted)
    .affects(package())
    .with_external_ref(reference("release/prod"))
}

fn awarded(supplier: &str, award: &str) -> PackageReadinessReport {
    PackageReadinessReport {
        package: package(),
        status: ProcurementStatus::Awarded { supplier: supplier.to_owned(), award: control(award) },
    }
}

fn qualified(supplier: &str) -> SupplierQualificationReport {
    SupplierQualificationReport { supplier: organization(supplier), status: QualificationStatus::Qualified }
}

fn unqualified(supplier: &str) -> SupplierQualificationReport {
    SupplierQualificationReport { supplier: organization(supplier), status: QualificationStatus::Unqualified }
}

fn project() -> ProjectId {
    ProjectId::new("reference-center").unwrap()
}

fn package() -> ControlId {
    control("package.frame")
}

fn control(id: &str) -> ControlId {
    ControlId::new(id).unwrap()
}

fn role(id: &str) -> RoleId {
    RoleId::new(id).unwrap()
}

fn organization(id: &str) -> OrganizationId {
    OrganizationId::new(id).unwrap()
}

fn date(day: u8) -> ProjectDate {
    ProjectDate::from_calendar_date(2026, 7, day).unwrap()
}

fn reference(id: &str) -> ExternalRef {
    ExternalRef::new("doc/synthetic", id, Some("v1".to_owned()), None)
}
