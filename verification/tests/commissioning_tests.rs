use sim_lib_construction_project::commissioning::{
    requirement_blocks, CommissioningBurnDown, CommissioningControlSet, CommissioningItemReadiness,
    CommissioningReadinessReport, CommissioningRequirement, CommissioningRequirementKind,
};
use sim_lib_construction_project::control_graph::{ControlEdgeKind, ControlNodeKind};
use sim_lib_construction_project::governance::Symbol;
use sim_lib_construction_project::handover::{HandoverControlKind, HandoverHierarchy};
use sim_lib_construction_project::obligation::{ObligationPolicy, ProjectObligation, Requirement};
use sim_lib_construction_project::{ConstructionProjectError, ControlId, EvidenceState, ProjectId};

#[test]
fn requirement_projection_adds_requirement_nodes_and_prerequisite_edges() {
    let hierarchy = hierarchy();
    let set = CommissioningControlSet::new(project())
        .with_requirement(requirement(CommissioningRequirementKind::Test, "requirement.pressure-test", &[]))
        .with_requirement(
            requirement(CommissioningRequirementKind::Training, "requirement.training", &["requirement.pressure-test"])
                .with_target(control("area.east")),
        );
    assert_eq!(set.validate(&hierarchy), Ok(()));
    let graph = set.control_graph(&hierarchy).unwrap();
    let requirement_nodes: Vec<&str> = graph
        .nodes
        .iter()
        .filter(|node| node.kind == ControlNodeKind::Requirement)
        .map(|node| node.id.as_str())
        .collect();
    assert_eq!(requirement_nodes, vec!["requirement.pressure-test", "requirement.training"]);
    let prerequisites: Vec<(&str, &str)> = graph
        .edges
        .iter()
        .filter(|edge| edge.kind == ControlEdgeKind::Prerequisite)
        .map(|edge| (edge.source.as_str(), edge.target.as_str()))
        .collect();
    assert_eq!(
        prerequisites,
        vec![
            ("requirement.pressure-test", "system.heating"),
            ("requirement.pressure-test", "requirement.training"),
            ("requirement.training", "system.heating"),
            ("requirement.training", "area.east"),
        ]
    );
}

#[test]
fn requirement_validation_names_the_first_failed_rule() {
    let hierarchy = hierarchy();
    let valid = requirement(CommissioningRequirementKind::Test, "requirement.pressure-test", &[]);
    assert_eq!(valid.validate(&project(), &hierarchy), Ok(()));
    assert_eq!(valid.id(), &control("requirement.pressure-test"));

    let other = ProjectId::new("project.other").unwrap();
    assert_eq!(
        valid.validate(&other, &hierarchy),
        Err(ConstructionProjectError::ProjectMismatch { expected: other.clone(), actual: project() })
    );
    let no_evidence = CommissioningRequirement::new(
        CommissioningRequirementKind::Test,
        ProjectObligation::mandatory(project(), Requirement::new(control("requirement.x"), "x").without_evidence()),
        control("system.heating"),
    );
    assert_eq!(
        no_evidence.validate(&project(), &hierarchy),
        Err(ConstructionProjectError::EmptyCollection("commissioning_requirement.required_evidence"))
    );
    let no_kinds = CommissioningRequirement::new(
        CommissioningRequirementKind::Test,
        ProjectObligation::mandatory(project(), Requirement::new(control("requirement.x"), "x")),
        control("system.heating"),
    );
    assert_eq!(
        no_kinds.validate(&project(), &hierarchy),
        Err(ConstructionProjectError::EmptyCollection("commissioning_requirement.evidence_kinds"))
    );
    let unknown_target = requirement(CommissioningRequirementKind::Test, "requirement.x", &[]).with_target(control("area.north"));
    assert_eq!(
        unknown_target.validate(&project(), &hierarchy),
        Err(ConstructionProjectError::ControlGraphMissingEndpoint {
            edge: "commissioning-target",
            endpoint_role: "target",
            endpoint: control("area.north"),
        })
    );
    let repeated_target =
        requirement(CommissioningRequirementKind::Test, "requirement.x", &[]).with_target(control("system.heating"));
    assert_eq!(
        repeated_target.validate(&project(), &hierarchy),
        Err(ConstructionProjectError::DuplicateId {
            kind: "commissioning_requirement.target",
            id: "system.heating".to_owned(),
        })
    );
}

#[test]
fn authority_closure_is_forced_non_waivable_and_mandatory() {
    let closure = CommissioningRequirement::new(
        CommissioningRequirementKind::AuthorityClosure,
        ProjectObligation::new(
            project(),
            Requirement::new(control("requirement.authority"), "authority closure")
                .with_evidence_kind(Symbol::new("certificate")),
            ObligationPolicy::Advisory,
        ),
        control("system.heating"),
    );
    assert!(closure.obligation.requirement.non_waivable);
    assert_eq!(closure.obligation.policy, ObligationPolicy::Mandatory);
    assert_eq!(closure.validate(&project(), &hierarchy()), Ok(()));

    let mut weakened = closure;
    weakened.obligation.policy = ObligationPolicy::Advisory;
    assert_eq!(
        weakened.validate(&project(), &hierarchy()),
        Err(ConstructionProjectError::EmptyField("commissioning.authority_closure_non_waivable"))
    );
}

#[test]
fn control_set_rejects_empty_duplicate_foreign_and_cyclic_requirements() {
    let hierarchy = hierarchy();
    assert_eq!(
        CommissioningControlSet::new(project()).validate(&hierarchy),
        Err(ConstructionProjectError::EmptyCollection("commissioning.requirements"))
    );
    let other = ProjectId::new("project.other").unwrap();
    assert_eq!(
        CommissioningControlSet::new(other.clone())
            .with_requirement(requirement(CommissioningRequirementKind::Test, "requirement.a", &[]))
            .validate(&hierarchy),
        Err(ConstructionProjectError::ProjectMismatch { expected: other, actual: project() })
    );
    let duplicate = CommissioningControlSet::new(project())
        .with_requirement(requirement(CommissioningRequirementKind::Test, "requirement.a", &[]))
        .with_requirement(requirement(CommissioningRequirementKind::Inspection, "requirement.a", &[]));
    assert_eq!(
        duplicate.validate(&hierarchy),
        Err(ConstructionProjectError::DuplicateId { kind: "commissioning_requirement", id: "requirement.a".to_owned() })
    );
    let cyclic = CommissioningControlSet::new(project())
        .with_requirement(requirement(CommissioningRequirementKind::Test, "requirement.a", &["requirement.b"]))
        .with_requirement(requirement(CommissioningRequirementKind::Test, "requirement.b", &["requirement.a"]));
    assert!(matches!(cyclic.validate(&hierarchy), Err(ConstructionProjectError::ControlGraphCycle { .. })));
    let dangling = CommissioningControlSet::new(project())
        .with_requirement(requirement(CommissioningRequirementKind::Test, "requirement.a", &["requirement.none"]));
    assert_eq!(
        dangling.validate(&hierarchy),
        Err(ConstructionProjectError::ControlGraphMissingEndpoint {
            edge: "prerequisite",
            endpoint_role: "source",
            endpoint: control("requirement.none"),
        })
    );
    let clash = CommissioningControlSet::new(project())
        .with_requirement(requirement(CommissioningRequirementKind::Test, "area.east", &[]));
    assert_eq!(
        clash.control_graph(&hierarchy).unwrap_err(),
        ConstructionProjectError::DuplicateId { kind: "control_graph.node", id: "area.east".to_owned() }
    );
}

#[test]
fn burn_down_counts_each_state_and_completion_rounds_down() {
    let mut burn_down = CommissioningBurnDown::empty();
    assert_eq!(burn_down.completion_percent(), 0);
    burn_down.record(EvidenceState::Accepted, false);
    burn_down.record(EvidenceState::Missing, false);
    burn_down.record(EvidenceState::Rejected, true);
    assert_eq!(burn_down.total, 3);
    assert_eq!(burn_down.accepted, 1);
    assert_eq!(burn_down.missing, 1);
    assert_eq!(burn_down.rejected, 0);
    assert_eq!(burn_down.excepted, 1);
    assert_eq!(burn_down.completion_percent(), 66);
    assert_eq!(burn_down.open(), 1);
    burn_down.record(EvidenceState::Accepted, false);
    assert_eq!(burn_down.completion_percent(), 75);
    assert_eq!(burn_down.open(), 1);
}

#[test]
fn readiness_blockers_are_the_blocking_items_in_order() {
    let report = CommissioningReadinessReport {
        target: control("system.heating"),
        as_of_seq: 4,
        ready: false,
        burn_down: CommissioningBurnDown::empty(),
        items: vec![item("requirement.a", false), item("requirement.b", true), item("requirement.c", true)],
    };
    assert_eq!(report.blockers(), vec![1, 2]);
    assert_eq!(report.completion_percent(), 0);
    assert!(requirement_blocks(ObligationPolicy::Mandatory, false, "evidence-required"));
    assert!(requirement_blocks(ObligationPolicy::Mandatory, false, "dependency"));
    assert!(!requirement_blocks(ObligationPolicy::Mandatory, true, "evidence-required"));
    assert!(!requirement_blocks(ObligationPolicy::Advisory, false, "evidence-required"));
    assert!(!requirement_blocks(ObligationPolicy::Mandatory, false, "satisfied"));
}

fn item(id: &str, blocks: bool) -> CommissioningItemReadiness {
    CommissioningItemReadiness {
        requirement: control(id),
        kind: CommissioningRequirementKind::Test,
        targets: vec![control("system.heating")],
        evidence_state: EvidenceState::Missing,
        current_seq: None,
        exception: None,
        blocks,
        critical: false,
        rule: "evidence-required".to_owned(),
        reason: "no accepted evidence".to_owned(),
    }
}

fn requirement(kind: CommissioningRequirementKind, id: &str, dependencies: &[&str]) -> CommissioningRequirement {
    let mut requirement = Requirement::new(control(id), "commissioning duty").with_evidence_kind(Symbol::new("record"));
    for dependency in dependencies {
        requirement = requirement.depends_on(control(dependency));
    }
    CommissioningRequirement::new(kind, ProjectObligation::mandatory(project(), requirement), control("system.heating"))
}

fn hierarchy() -> HandoverHierarchy {
    let mut hierarchy = HandoverHierarchy::new(project());
    hierarchy.add_control(control("area.east"), HandoverControlKind::Area).unwrap();
    hierarchy.add_control(control("system.heating"), HandoverControlKind::System).unwrap();
    hierarchy.add_member(control("system.heating"), control("area.east")).unwrap();
    hierarchy
}

fn project() -> ProjectId {
    ProjectId::new("project.alpha").unwrap()
}

fn control(id: &str) -> ControlId {
    ControlId::new(id).unwrap()
}
