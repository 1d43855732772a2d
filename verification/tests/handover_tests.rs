use sim_lib_construction_project::control_graph::ControlEdgeKind;
use sim_lib_construction_project::handover::{HandoverControlKind, HandoverHierarchy};
use sim_lib_construction_project::{ConstructionProjectError, ControlId, ProjectId};

#[test]
fn hierarchy_uses_typed_common_graph_nodes_and_member_edges() {
    let mut hierarchy = hierarchy();
    add(&mut hierarchy, "milestone.first-use", HandoverControlKind::ContractualMilestone);
    add(&mut hierarchy, "area.east", HandoverControlKind::Area);
    add(&mut hierarchy, "system.ventilation", HandoverControlKind::System);
    add(&mut hierarchy, "package.controls", HandoverControlKind::WorkPackage);
    add(&mut hierarchy, "assets.ahu", HandoverControlKind::AssetGroup);

    hierarchy.add_member(control("area.east"), control("milestone.first-use")).unwrap();
    hierarchy.add_member(control("system.ventilation"), control("area.east")).unwrap();
    hierarchy.add_member(control("package.controls"), control("system.ventilation")).unwrap();
    hierarchy.add_member(control("assets.ahu"), control("system.ventilation")).unwrap();

    assert_eq!(
        hierarchy.scope(&control("milestone.first-use")).unwrap(),
        vec![
            control("area.east"),
            control("assets.ahu"),
            control("milestone.first-use"),
            control("package.controls"),
            control("system.ventilation"),
        ]
    );
    assert!(hierarchy.control_graph().edges.iter().all(|edge| edge.kind == ControlEdgeKind::MemberOf));
}

#[test]
fn one_system_can_roll_into_multiple_areas_without_a_second_tree() {
    let mut hierarchy = hierarchy();
    add(&mut hierarchy, "area.east", HandoverControlKind::Area);
    add(&mut hierarchy, "area.west", HandoverControlKind::Area);
    add(&mut hierarchy, "system.fire-alarm", HandoverControlKind::System);

    hierarchy.add_member(control("system.fire-alarm"), control("area.east")).unwrap();
    hierarchy.add_member(control("system.fire-alarm"), control("area.west")).unwrap();

    assert_eq!(
        hierarchy.direct_parents(&control("system.fire-alarm")),
        vec![control("area.east"), control("area.west")]
    );
    assert_eq!(hierarchy.leaves(&control("area.east")).unwrap(), vec![control("system.fire-alarm")]);
}

#[test]
fn member_cycles_are_rejected_without_mutating_the_hierarchy() {
    let mut hierarchy = hierarchy();
    add(&mut hierarchy, "system.primary", HandoverControlKind::System);
    add(&mut hierarchy, "system.secondary", HandoverControlKind::System);
    hierarchy.add_member(control("system.secondary"), control("system.primary")).unwrap();

    let result = hierarchy.add_member(control("system.primary"), control("system.secondary"));

    assert!(matches!(result, Err(ConstructionProjectError::ControlGraphCycle { .. })));
    assert!(hierarchy.direct_parents(&control("system.primary")).is_empty());
}

#[test]
fn member_edges_need_declared_handover_controls() {
    let mut hierarchy = hierarchy();
    add(&mut hierarchy, "area.east", HandoverControlKind::Area);
    let result = hierarchy.add_member(control("system.unknown"), control("area.east"));
    assert!(matches!(
        result,
        Err(ConstructionProjectError::ControlGraphMissingEndpoint { endpoint_role: "member", .. })
    ));
    let result = hierarchy.add_member(control("area.east"), control("area.unknown"));
    assert!(matches!(
        result,
        Err(ConstructionProjectError::ControlGraphMissingEndpoint { endpoint_role: "parent", .. })
    ));
    assert!(matches!(
        hierarchy.scope(&control("area.unknown")),
        Err(ConstructionProjectError::ControlGraphMissingEndpoint { endpoint_role: "scope", .. })
    ));
}

#[test]
fn repeated_member_edge_is_refused_and_kind_is_kept() {
    let mut hierarchy = hierarchy();
    add(&mut hierarchy, "area.east", HandoverControlKind::Area);
    add(&mut hierarchy, "system.power", HandoverControlKind::System);
    hierarchy.add_member(control("system.power"), control("area.east")).unwrap();
    assert!(matches!(
        hierarchy.add_member(control("system.power"), control("area.east")),
        Err(ConstructionProjectError::DuplicateControlGraphEdge { kind: "member-of", .. })
    ));
    assert!(matches!(
        hierarchy.add_control(control("system.power"), HandoverControlKind::Area),
        Err(ConstructionProjectError::DuplicateId { kind: "control_graph.node", .. })
    ));
    hierarchy.add_control(control("system.power"), HandoverControlKind::System).unwrap();
    assert_eq!(hierarchy.kind(&control("system.power")), Some(HandoverControlKind::System));
    assert_eq!(hierarchy.kind(&control("missing")), None);
    assert_eq!(hierarchy.direct_members(&control("area.east")), vec![control("system.power")]);
    assert_eq!(hierarchy.project().as_str(), "project.handover");
}

fn hierarchy() -> HandoverHierarchy {
    HandoverHierarchy::new(ProjectId::new("project.handover").unwrap())
}

fn add(hierarchy: &mut HandoverHierarchy, id: &str, kind: HandoverControlKind) {
    hierarchy.add_control(control(id), kind).unwrap();
}

fn control(id: &str) -> ControlId {
    ControlId::new(id).unwrap()
}

#[test]
fn handover_kinds_map_to_node_kinds_and_back() {
    for kind in [
        HandoverControlKind::ContractualMilestone,
        HandoverControlKind::Area,
        HandoverControlKind::System,
        HandoverControlKind::WorkPackage,
        HandoverControlKind::AssetGroup,
    ] {
        assert_eq!(HandoverControlKind::from_node_kind(kind.node_kind()), Some(kind));
    }
}
