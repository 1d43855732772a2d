use sim_lib_construction_project::cadence::{PackCadence, PackSection};
use sim_lib_construction_project::charter::{is_known_project_currency, CurrencyCode, ProjectCharter, ReportingCadence};
use sim_lib_construction_project::governance::{
    validate_visibility, DueDatePolicy, ProjectGovernance, RoleAssignment, Symbol, Visibility, VisibilityPolicy,
};
use sim_lib_construction_project::identity::{validate_id, MAX_ID_CHARS};
use sim_lib_construction_project::order::text_precedes;
use sim_lib_construction_project::{
    ConstructionProjectError, ControlId, ExternalRef, OrganizationId, ProjectDate, ProjectId, RoleId,
};

#[test]
fn identifiers_are_refused_by_their_first_broken_rule() {
    assert_eq!(validate_id("control", "system.heating-1_a"), Ok(()));
    assert_eq!(validate_id("control", ""), Err(ConstructionProjectError::EmptyId { kind: "control" }));
    let long = "a".repeat(MAX_ID_CHARS + 1);
    assert_eq!(
        validate_id("control", &long),
        Err(ConstructionProjectError::IdTooLong { kind: "control", value: long.clone(), max: MAX_ID_CHARS })
    );
    assert_eq!(validate_id("control", &"a".repeat(MAX_ID_CHARS)), Ok(()));
    assert_eq!(
        validate_id("control", "area east"),
        Err(ConstructionProjectError::WhitespaceAmbiguousId { kind: "control", value: "area east".to_owned() })
    );
    assert_eq!(
        validate_id("control", "area/east"),
        Err(ConstructionProjectError::SlashBearingId { kind: "control", value: "area/east".to_owned() })
    );
    assert_eq!(
        validate_id("control", "NULL"),
        Err(ConstructionProjectError::ReservedId { kind: "control", value: "NULL".to_owned() })
    );
    assert_eq!(
        validate_id("control", "area#east"),
        Err(ConstructionProjectError::UnsupportedIdCharacters { kind: "control", value: "area#east".to_owned() })
    );
    assert_eq!(ProjectId::new("project.alpha").unwrap().as_str(), "project.alpha");
    assert!(RoleId::new("").is_err());
    assert!(ControlId::new("a").unwrap().same(&ControlId::new("a").unwrap()));
}

#[test]
fn calendar_dates_map_to_julian_days_and_shift_exactly() {
    let first = ProjectDate::from_calendar_date(2026, 1, 1).unwrap();
    assert_eq!(first.julian_day, 2_461_042);
    assert_eq!(ProjectDate::from_calendar_date(2024, 2, 29).unwrap().julian_day, 2_460_370);
    assert_eq!(ProjectDate::from_calendar_date(2025, 2, 29), None);
    assert_eq!(ProjectDate::from_calendar_date(2026, 13, 1), None);
    assert_eq!(ProjectDate::from_calendar_date(2026, 4, 31), None);
    assert_eq!(first.plus_days(31).unwrap(), ProjectDate::from_calendar_date(2026, 2, 1).unwrap());
    assert_eq!(first.minus_days(1).unwrap(), ProjectDate::from_calendar_date(2025, 12, 31).unwrap());
    assert!(first.before(&first.plus_days(1).unwrap()));
    assert!(!first.before(&first));
    assert_eq!(ProjectDate::from_julian_day(i32::MAX).plus_days(1), None);
    assert_eq!(ProjectDate::from_julian_day(i32::MIN).minus_days(1), None);
}

#[test]
fn currencies_come_from_the_supported_iso_list() {
    assert!(is_known_project_currency("EUR"));
    assert!(is_known_project_currency("SEK"));
    assert!(!is_known_project_currency("eur"));
    assert!(!is_known_project_currency("EU"));
    assert!(!is_known_project_currency("XYZ"));
    assert_eq!(CurrencyCode::new("NOK").unwrap().as_str(), "NOK");
    assert_eq!(CurrencyCode::new("ABC"), Err(ConstructionProjectError::UnknownCurrency("ABC".to_owned())));
}

#[test]
fn charter_needs_texts_objectives_and_sources() {
    let complete = charter().with_objective("open the ward in May").with_source_ref(source());
    assert_eq!(complete.validate(), Ok(()));
    assert_eq!(charter().with_source_ref(source()).validate(), Err(ConstructionProjectError::EmptyObjectives));
    assert_eq!(
        charter().with_objective("open the ward in May").validate(),
        Err(ConstructionProjectError::EmptyCollection("source_refs"))
    );
    assert_eq!(
        charter().with_objective(" ").with_source_ref(source()).validate(),
        Err(ConstructionProjectError::EmptyField("objectives"))
    );
    let unnamed = ProjectCharter::new(
        ProjectId::new("project.alpha").unwrap(),
        ControlId::new("charter.alpha").unwrap(),
        "  ",
        CurrencyCode::new("EUR").unwrap(),
    );
    assert_eq!(unnamed.validate(), Err(ConstructionProjectError::EmptyField("name")));
    assert_eq!(ReportingCadence::weekly().interval_days, 7);
    assert_eq!(ReportingCadence::new("monthly", 31).unwrap().interval_days, 31);
    assert_eq!(
        ReportingCadence::new("never", 0),
        Err(ConstructionProjectError::InvalidDueDatePolicy { field: "reporting_cadence.interval_days", max_days: 366 })
    );
    assert_eq!(ReportingCadence::new(" ", 7), Err(ConstructionProjectError::EmptyField("reporting_cadence.label")));
}

#[test]
fn governance_needs_roles_listed_targets_and_no_escalation_cycle() {
    let policy = DueDatePolicy::new(5, 2).unwrap();
    assert_eq!(
        DueDatePolicy::new(0, 2),
        Err(ConstructionProjectError::InvalidDueDatePolicy { field: "response_days", max_days: 366 })
    );
    assert_eq!(
        DueDatePolicy::new(5, 367),
        Err(ConstructionProjectError::InvalidDueDatePolicy { field: "escalation_grace_days", max_days: 366 })
    );
    let valid = ProjectGovernance::new(project(), policy.clone())
        .with_role(assignment("role.manager", Some("role.sponsor")))
        .with_role(assignment("role.sponsor", None));
    assert_eq!(valid.validate(), Ok(()));
    assert_eq!(
        ProjectGovernance::new(project(), policy.clone()).validate(),
        Err(ConstructionProjectError::EmptyCollection("roles"))
    );
    let missing = ProjectGovernance::new(project(), policy.clone()).with_role(assignment("role.manager", Some("role.board")));
    assert_eq!(
        missing.validate(),
        Err(ConstructionProjectError::MissingEscalationTarget {
            role: RoleId::new("role.manager").unwrap(),
            target: RoleId::new("role.board").unwrap(),
        })
    );
    let cyclic = ProjectGovernance::new(project(), policy.clone())
        .with_role(assignment("role.manager", Some("role.sponsor")))
        .with_role(assignment("role.sponsor", Some("role.manager")));
    assert_eq!(cyclic.validate(), Err(ConstructionProjectError::AuthorityCycle(RoleId::new("role.manager").unwrap())));
    let duplicate = ProjectGovernance::new(project(), policy)
        .with_role(assignment("role.manager", None))
        .with_role(assignment("role.manager", None));
    assert_eq!(
        duplicate.validate(),
        Err(ConstructionProjectError::DuplicateId { kind: "role", id: "role.manager".to_owned() })
    );
}

#[test]
fn restricted_visibility_needs_a_listed_symbol() {
    let restricted = Visibility::Restricted(Symbol::qualified("hr", "people"));
    let project_only = VisibilityPolicy::project();
    assert_eq!(validate_visibility(&project_only, &Visibility::Customer), Ok(()));
    assert_eq!(
        validate_visibility(&project_only, &restricted),
        Err(ConstructionProjectError::RestrictedVisibilityDenied { symbol: "restricted:hr/people".to_owned() })
    );
    let listed = VisibilityPolicy::project().with_restricted(Symbol::qualified("hr", "people"));
    assert!(listed.allows(&restricted));
    let same_text_other_parts = VisibilityPolicy::project().with_restricted(Symbol::new("hr/people"));
    assert!(!same_text_other_parts.allows(&restricted));
    assert_eq!(restricted.label(), "restricted:hr/people");
    assert_eq!(Visibility::ReferenceCandidate.label(), "reference-candidate");
}

#[test]
fn packs_carry_their_cadence_sections_in_priority_order() {
    assert_eq!(PackCadence::MonthlyGate.as_str(), "monthly-gate");
    assert!(PackCadence::Weekly.includes(PackSection::RiskChangeEconomy));
    assert!(!PackCadence::Daily.includes(PackSection::Handover));
    assert!(!PackCadence::ReferenceReview.includes(PackSection::Readiness));
    assert!(PackCadence::ReferenceReview.includes(PackSection::Outcomes));
    let ordered: Vec<&str> = PackSection::ordered().into_iter().map(PackSection::as_str).collect();
    assert_eq!(ordered[0], "decisions");
    assert_eq!(ordered[1], "safety-legal-blockers");
    assert_eq!(ordered.len(), 10);
}

#[test]
fn text_order_is_lexicographic_by_character() {
    assert!(text_precedes("a", "b"));
    assert!(text_precedes("area", "area.east"));
    assert!(!text_precedes("b", "a"));
    assert!(!text_precedes("same", "same"));
    assert!(text_precedes("Z", "a"));
}

fn assignment(role: &str, escalates_to: Option<&str>) -> RoleAssignment {
    let assignment = RoleAssignment::new(
        RoleId::new(role).unwrap(),
        OrganizationId::new("org.builder").unwrap(),
        Visibility::Project,
    )
    .with_responsibility("runs the site");
    match escalates_to {
        Some(target) => assignment.escalates_to(RoleId::new(target).unwrap()),
        None => assignment,
    }
}

fn charter() -> ProjectCharter {
    ProjectCharter::new(
        ProjectId::new("project.alpha").unwrap(),
        ControlId::new("charter.alpha").unwrap(),
        "Ward extension",
        CurrencyCode::new("EUR").unwrap(),
    )
    .with_customer_outcome("a ward in use")
    .with_procurement_form("design and build")
    .with_property_constraint("hospital stays in use")
    .with_product_constraint("medical gases to standard")
    .with_non_negotiable("no infection risk")
    .with_target_outcome("handover before winter")
    .with_reference_criterion("reusable as a reference")
}

fn source() -> ExternalRef {
    ExternalRef::new("docs", "charter", Some("v1".to_owned()), None)
}

fn project() -> ProjectId {
    ProjectId::new("project.alpha").unwrap()
}

#[test]
fn escalation_cycle_names_the_least_role_id() {
    let policy = DueDatePolicy::new(5, 2).unwrap();
    let cyclic = ProjectGovernance::new(project(), policy)
        .with_role(assignment("role.sponsor", Some("role.manager")))
        .with_role(assignment("role.manager", Some("role.sponsor")));
    assert_eq!(cyclic.validate(), Err(ConstructionProjectError::AuthorityCycle(RoleId::new("role.manager").unwrap())));
}
