use sim_lib_construction_project::collaboration::CollaborationCharter;
use sim_lib_construction_project::obligation::{ProjectObligation, Requirement};
use sim_lib_construction_project::{ConstructionProjectError, ControlId, ExternalRef, ProjectId, RoleId};

#[test]
fn collaboration_charter_needs_every_required_section() {
    assert_eq!(complete().validate(), Ok(()));
    assert_eq!(
        base().validate(),
        Err(ConstructionProjectError::EmptyCollection("collaboration.objectives"))
    );
    let blank_cadence = CollaborationCharter::new(project(), control("charter.collaboration"), " ")
        .with_objective("shared target cost")
        .with_working_principle("open book")
        .with_organization("joint site office")
        .with_decision_right("steering group decides scope");
    assert_eq!(blank_cadence.validate(), Err(ConstructionProjectError::EmptyField("collaboration.meeting_cadence")));
    assert_eq!(
        complete().with_open_book_rule("  ").validate(),
        Err(ConstructionProjectError::EmptyField("collaboration.open_book_rules"))
    );
    let no_escalation = sections().with_main_contract_evidence(control("contract.main"));
    assert_eq!(no_escalation.validate(), Err(ConstructionProjectError::EmptyCollection("collaboration.escalation")));
    let no_evidence = sections()
        .with_escalation_role(RoleId::new("role.sponsor").unwrap())
        .with_main_contract_evidence(control("contract.main"))
        .with_obligation(ProjectObligation::mandatory(project(), Requirement::new(control("requirement.target"), "target")));
    assert_eq!(no_evidence.validate(), Err(ConstructionProjectError::EmptyCollection("collaboration.evidence")));
    assert_eq!(complete().objectives, vec!["shared target cost".to_owned()]);
}

fn complete() -> CollaborationCharter {
    sections()
        .with_escalation_role(RoleId::new("role.sponsor").unwrap())
        .with_main_contract_evidence(control("contract.main"))
        .with_obligation(ProjectObligation::mandatory(project(), Requirement::new(control("requirement.target"), "target")))
        .with_evidence(ExternalRef::new("docs", "charter", Some("v1".to_owned()), None))
}

fn sections() -> CollaborationCharter {
    base()
        .with_objective("shared target cost")
        .with_working_principle("open book")
        .with_organization("joint site office")
        .with_decision_right("steering group decides scope")
        .with_investigation("ground conditions")
        .with_target_design_buildability_work("precast frame review")
}

fn base() -> CollaborationCharter {
    CollaborationCharter::new(project(), control("charter.collaboration"), "weekly")
}

fn project() -> ProjectId {
    ProjectId::new("project.alpha").unwrap()
}

fn control(id: &str) -> ControlId {
    ControlId::new(id).unwrap()
}
