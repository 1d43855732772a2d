use sim_lib_construction_project::control_graph::{ControlEdgeKind, ControlGraph, ControlNodeKind};
use sim_lib_construction_project::{ConstructionProjectError, ControlId, EvidenceState};

#[test]
fn readiness_cycles_are_rejected_but_informational_cycles_are_data() {
    let mut graph = ControlGraph::new();
    let first = control("requirement.first");
    let second = control("requirement.second");
    graph.add_node(first.clone(), ControlNodeKind::Requirement).unwrap();
    graph.add_node(second.clone(), ControlNodeKind::Requirement).unwrap();
    graph.add_edge(first.clone(), second.clone(), ControlEdgeKind::Prerequisite).unwrap();
    graph.add_edge(second.clone(), first.clone(), ControlEdgeKind::Blocks).unwrap();
    assert!(matches!(graph.validate_readiness(), Err(ConstructionProjectError::ControlGraphCycle { .. })));

    let mut informational = ControlGraph::new();
    informational.add_node(first.clone(), ControlNodeKind::Requirement).unwrap();
    informational.add_node(second.clone(), ControlNodeKind::Requirement).unwrap();
    informational.add_edge(first.clone(), second.clone(), ControlEdgeKind::Informational).unwrap();
    informational.add_edge(second, first, ControlEdgeKind::Informational).unwrap();
    informational.validate_readiness().unwrap();
}

#[test]
fn analysis_derives_blockers_dependents_cut_and_stable_paths() {
    let mut graph = ControlGraph::new();
    for id in ["requirement.alpha", "requirement.beta", "requirement.gamma", "gate.ready", "outcome.handover"] {
        graph.add_node(control(id), ControlNodeKind::Requirement).unwrap();
    }
    graph.add_edge(control("requirement.alpha"), control("requirement.gamma"), ControlEdgeKind::Prerequisite).unwrap();
    graph.add_edge(control("requirement.beta"), control("requirement.gamma"), ControlEdgeKind::Prerequisite).unwrap();
    graph.add_edge(control("requirement.gamma"), control("gate.ready"), ControlEdgeKind::Blocks).unwrap();
    graph.add_edge(control("gate.ready"), control("outcome.handover"), ControlEdgeKind::Produces).unwrap();

    let analysis = graph
        .analyze_target(
            &control("gate.ready"),
            |id| matches!(id.as_str(), "requirement.alpha" | "requirement.beta"),
            |id| {
                if id.as_str() == "requirement.gamma" {
                    (Some(3), EvidenceState::Accepted)
                } else {
                    (None, EvidenceState::Missing)
                }
            },
            |_| None,
        )
        .unwrap();

    assert_eq!(ids(&analysis.transitive_blockers), vec!["requirement.alpha", "requirement.beta"]);
    assert_eq!(ids(&analysis.affected_dependents), vec!["outcome.handover"]);
    assert_eq!(ids(&analysis.critical_prerequisite_cut), vec!["requirement.alpha", "requirement.beta"]);
    assert_eq!(
        analysis.explanation_paths[0]
            .steps
            .iter()
            .map(|step| (step.control.as_str(), step.edge_kind.map(ControlEdgeKind::label), step.current_seq, step.evidence_state,))
            .collect::<Vec<_>>(),
        vec![
            ("requirement.alpha", None, None, EvidenceState::Missing),
            ("requirement.gamma", Some("prerequisite"), Some(3), EvidenceState::Accepted,),
            ("gate.ready", Some("blocks"), None, EvidenceState::Missing,),
        ]
    );
}

#[test]
fn cut_drops_blockers_behind_other_blockers() {
    let mut graph = ControlGraph::new();
    for id in ["a", "b", "c", "target"] {
        graph.add_node(control(id), ControlNodeKind::Requirement).unwrap();
    }
    graph.add_edge(control("a"), control("b"), ControlEdgeKind::Prerequisite).unwrap();
    graph.add_edge(control("b"), control("target"), ControlEdgeKind::Prerequisite).unwrap();
    graph.add_edge(control("c"), control("target"), ControlEdgeKind::Informational).unwrap();
    let analysis = graph
        .analyze_target(&control("target"), |_| true, |_| (None, EvidenceState::Missing), |_| None)
        .unwrap();
    assert_eq!(ids(&analysis.transitive_blockers), vec!["a", "b"]);
    assert_eq!(ids(&analysis.critical_prerequisite_cut), vec!["a"]);
    assert!(analysis.affected_dependents.is_empty());
    assert_eq!(analysis.explanation_paths[0].steps.len(), 3);
    assert!(matches!(
        graph.analyze_target(&control("missing"), |_| true, |_| (None, EvidenceState::Missing), |_| None),
        Err(ConstructionProjectError::ControlGraphMissingEndpoint { edge: "analysis-target", .. })
    ));
}

#[test]
fn graph_edges_need_present_distinct_endpoints() {
    let mut graph = ControlGraph::new();
    graph.add_node(control("a"), ControlNodeKind::Gate).unwrap();
    assert!(matches!(
        graph.add_node(control("a"), ControlNodeKind::Package),
        Err(ConstructionProjectError::DuplicateId { kind: "control_graph.node", .. })
    ));
    graph.add_node(control("a"), ControlNodeKind::Gate).unwrap();
    assert_eq!(graph.nodes.len(), 1);
    assert!(matches!(
        graph.add_edge(control("x"), control("a"), ControlEdgeKind::Blocks),
        Err(ConstructionProjectError::ControlGraphMissingEndpoint { endpoint_role: "source", edge: "blocks", .. })
    ));
    assert!(matches!(
        graph.add_edge(control("a"), control("x"), ControlEdgeKind::Blocks),
        Err(ConstructionProjectError::ControlGraphMissingEndpoint { endpoint_role: "target", .. })
    ));
    graph.add_edge(control("a"), control("a"), ControlEdgeKind::Informational).unwrap();
    assert!(matches!(
        graph.add_edge(control("a"), control("a"), ControlEdgeKind::Informational),
        Err(ConstructionProjectError::DuplicateControlGraphEdge { kind: "informational", .. })
    ));
    graph.validate_readiness().unwrap();
    graph.add_edge(control("a"), control("a"), ControlEdgeKind::Blocks).unwrap();
    match graph.validate_readiness() {
        Err(ConstructionProjectError::ControlGraphCycle { cycle }) => assert_eq!(ids(&cycle), vec!["a"]),
        other => panic!("unexpected {other:?}"),
    }
}

fn control(id: &str) -> ControlId {
    ControlId::new(id).unwrap()
}

fn ids(values: &[ControlId]) -> Vec<&str> {
    values.iter().map(ControlId::as_str).collect()
}

#[test]
fn cycle_report_is_one_strongly_connected_set() {
    let mut graph = ControlGraph::new();
    for id in ["a", "b", "c", "d"] {
        graph.add_node(control(id), ControlNodeKind::Gate).unwrap();
    }
    graph.add_edge(control("a"), control("b"), ControlEdgeKind::Blocks).unwrap();
    graph.add_edge(control("b"), control("c"), ControlEdgeKind::Blocks).unwrap();
    graph.add_edge(control("c"), control("b"), ControlEdgeKind::Blocks).unwrap();
    graph.add_edge(control("c"), control("d"), ControlEdgeKind::Blocks).unwrap();
    match graph.validate_readiness() {
        Err(ConstructionProjectError::ControlGraphCycle { cycle }) => assert_eq!(ids(&cycle), vec!["b", "c"]),
        other => panic!("unexpected {other:?}"),
    }
}

#[test]
fn explanation_paths_take_a_shortest_readiness_walk() {
    let mut graph = ControlGraph::new();
    for id in ["a", "b", "c", "d"] {
        graph.add_node(control(id), ControlNodeKind::Gate).unwrap();
    }
    graph.add_edge(control("a"), control("b"), ControlEdgeKind::Blocks).unwrap();
    graph.add_edge(control("b"), control("c"), ControlEdgeKind::Blocks).unwrap();
    graph.add_edge(control("c"), control("d"), ControlEdgeKind::Blocks).unwrap();
    graph.add_edge(control("a"), control("d"), ControlEdgeKind::Blocks).unwrap();
    let analysis = graph
        .analyze_target(&control("d"), |id| id.as_str() == "a", |_| (None, EvidenceState::Missing), |_| None)
        .unwrap();
    assert_eq!(analysis.explanation_paths.len(), 1);
    let steps = &analysis.explanation_paths[0].steps;
    assert_eq!(steps.iter().map(|s| s.control.as_str()).collect::<Vec<_>>(), vec!["a", "d"]);
}

#[test]
fn dangling_readiness_edges_are_refused_least_first() {
    let mut graph = ControlGraph::new();
    graph.add_node(control("a"), ControlNodeKind::Gate).unwrap();
    graph.edges.push(sim_lib_construction_project::control_graph::ControlEdge::new(
        control("a"),
        control("z"),
        ControlEdgeKind::Blocks,
    ));
    graph.edges.push(sim_lib_construction_project::control_graph::ControlEdge::new(
        control("a"),
        control("m"),
        ControlEdgeKind::Blocks,
    ));
    graph.edges.push(sim_lib_construction_project::control_graph::ControlEdge::new(
        control("x"),
        control("a"),
        ControlEdgeKind::Informational,
    ));
    match graph.validate_readiness() {
        Err(ConstructionProjectError::ControlGraphMissingEndpoint { edge, endpoint_role, endpoint }) => {
            assert_eq!(edge, "blocks");
            assert_eq!(endpoint_role, "target");
            assert_eq!(endpoint.as_str(), "m");
        },
        other => panic!("unexpected {other:?}"),
    }
    assert!(matches!(
        graph.analyze_target(&control("a"), |_| true, |_| (None, EvidenceState::Missing), |_| None),
        Err(ConstructionProjectError::ControlGraphMissingEndpoint { endpoint_role: "target", .. })
    ));
}
