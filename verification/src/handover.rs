//! System, area, package, asset-group, and milestone handover hierarchy.
//!
//! Membership is a directed acyclic graph rather than a tree: one system can
//! belong to several areas, packages can cross systems, and a contractual
//! milestone can collect either. Member edges point from member to parent.

use vstd::prelude::*;
use crate::control_graph::{
    add_edge_outcome, has_edge, has_node, is_cycle_report, lemma_reaches_backward, node_kind, propagates,
    reaches, reaches_dir, readiness_acyclic, ControlEdge, ControlEdgeKind, ControlGraph, ControlNodeKind, EdgeScope,
};
use crate::error::ConstructionProjectError;
use crate::identity::{ControlId, ProjectId};
use crate::order::{id_set, id_views, ids_sorted, insert_id};

verus! {

/// Kind of stable control participating in a handover hierarchy.
#[derive(Clone, Copy, Debug, PartialEq, Eq, Structural, PartialOrd, Ord, Hash)]
pub enum HandoverControlKind {
    /// Functional system, including a system spanning several areas.
    System,
    /// Geographic or functional handover area.
    Area,
    /// Contracted work package.
    WorkPackage,
    /// Group of assets commissioned and handed over together.
    AssetGroup,
    /// Contractual milestone collecting handover scope.
    ContractualMilestone,
}

/// Control-graph node kind that carries a handover kind.
pub open spec fn handover_node_kind(k: HandoverControlKind) -> ControlNodeKind {
    match k {
        HandoverControlKind::System => ControlNodeKind::HandoverSystem,
        HandoverControlKind::Area => ControlNodeKind::HandoverArea,
        HandoverControlKind::WorkPackage => ControlNodeKind::HandoverWorkPackage,
        HandoverControlKind::AssetGroup => ControlNodeKind::HandoverAssetGroup,
        HandoverControlKind::ContractualMilestone => ControlNodeKind::HandoverMilestone,
    }
}

/// Handover kind carried by a control-graph node kind, if any.
pub open spec fn handover_kind_of(k: ControlNodeKind) -> Option<HandoverControlKind> {
    match k {
        ControlNodeKind::HandoverSystem => Some(HandoverControlKind::System),
        ControlNodeKind::HandoverArea => Some(HandoverControlKind::Area),
        ControlNodeKind::HandoverWorkPackage => Some(HandoverControlKind::WorkPackage),
        ControlNodeKind::HandoverAssetGroup => Some(HandoverControlKind::AssetGroup),
        ControlNodeKind::HandoverMilestone => Some(HandoverControlKind::ContractualMilestone),
        _ => None,
    }
}

impl HandoverControlKind {
    /// Control-graph node kind used for this handover kind.
    pub fn node_kind(self) -> (r: ControlNodeKind)
        ensures
            r == handover_node_kind(self),
    {
        match self {
            HandoverControlKind::System => ControlNodeKind::HandoverSystem,
            HandoverControlKind::Area => ControlNodeKind::HandoverArea,
            HandoverControlKind::WorkPackage => ControlNodeKind::HandoverWorkPackage,
            HandoverControlKind::AssetGroup => ControlNodeKind::HandoverAssetGroup,
            HandoverControlKind::ContractualMilestone => ControlNodeKind::HandoverMilestone,
        }
    }

    /// Handover kind carried by a control-graph node kind, if any.
    pub fn from_node_kind(kind: ControlNodeKind) -> (r: Option<HandoverControlKind>)
        ensures
            r == handover_kind_of(kind),
    {
        match kind {
            ControlNodeKind::HandoverSystem => Some(HandoverControlKind::System),
            ControlNodeKind::HandoverArea => Some(HandoverControlKind::Area),
            ControlNodeKind::HandoverWorkPackage => Some(HandoverControlKind::WorkPackage),
            ControlNodeKind::HandoverAssetGroup => Some(HandoverControlKind::AssetGroup),
            ControlNodeKind::HandoverMilestone => Some(HandoverControlKind::ContractualMilestone),
            _ => None,
        }
    }
}

/// Mapping back from node kinds undoes the mapping to them.
pub proof fn lemma_handover_kind_roundtrip(k: HandoverControlKind)
    ensures
        handover_kind_of(handover_node_kind(k)) == Some(k),
{
}

/// Handover kind of control `id` in a node list.
pub open spec fn handover_kind_in(nodes: Seq<crate::control_graph::ControlNode>, id: Seq<char>) -> Option<HandoverControlKind> {
    match node_kind(nodes, id) {
        Some(k) => handover_kind_of(k),
        None => None,
    }
}

/// Controls in the scope of `root`: `root` and every control with a
/// membership path to it.
pub open spec fn in_scope(edges: Seq<ControlEdge>, root: Seq<char>, c: Seq<char>) -> bool {
    c == root || reaches(edges, EdgeScope::Membership, c, root)
}

/// A hierarchy graph: every node is a handover control and every edge is a
/// membership edge.
pub open spec fn hierarchy_shape(nodes: Seq<crate::control_graph::ControlNode>, edges: Seq<ControlEdge>) -> bool {
    &&& forall|i: int| 0 <= i < nodes.len() ==> (#[trigger] nodes[i]).kind == handover_node_kind(
        handover_kind_of(nodes[i].kind).unwrap(),
    ) && handover_kind_of(nodes[i].kind) is Some
    &&& forall|i: int| 0 <= i < edges.len() ==> (#[trigger] edges[i]).kind == ControlEdgeKind::MemberOf
}

/// Handover scope backed by the common construction control graph.
#[derive(Debug, PartialEq, Eq)]
pub struct HandoverHierarchy {
    project: ProjectId,
    graph: ControlGraph,
}

impl HandoverHierarchy {
    /// The hierarchy's graph is well formed and free of readiness cycles.
    #[verifier::type_invariant]
    spec fn inv(self) -> bool {
        &&& self.graph.wf()
        &&& readiness_acyclic(self.graph.edges@)
        &&& hierarchy_shape(self.graph.nodes@, self.graph.edges@)
    }

    /// The project that owns this hierarchy.
    pub closed spec fn project_spec(&self) -> ProjectId {
        self.project
    }

    /// The control graph behind this hierarchy.
    pub closed spec fn graph_spec(&self) -> ControlGraph {
        self.graph
    }

    /// Starts an empty handover hierarchy for a project.
    pub fn new(project: ProjectId) -> (h: Self)
        ensures
            h.project_spec() == project,
            h.graph_spec().nodes@.len() == 0,
            h.graph_spec().edges@.len() == 0,
    {
        let graph = ControlGraph::new();
        proof {
            let rf = |id: Seq<char>| 0int;
            assert(crate::control_graph::ranks_readiness(graph.edges@, rf));
        }
        HandoverHierarchy { project, graph }
    }

    /// Returns the project that owns this hierarchy.
    pub fn project(&self) -> (r: &ProjectId)
        ensures
            *r == self.project_spec(),
    {
        &self.project
    }

    /// Borrows the canonical construction control graph.
    pub fn control_graph(&self) -> (r: &ControlGraph)
        ensures
            *r == self.graph_spec(),
            r.wf(),
            readiness_acyclic(r.edges@),
            hierarchy_shape(r.nodes@, r.edges@),
    {
        proof {
            use_type_invariant(self);
        }
        &self.graph
    }

    /// Adds or confirms a stable, typed handover control.
    pub fn add_control(&mut self, id: ControlId, kind: HandoverControlKind) -> (r: Result<(), ConstructionProjectError>)
        ensures
            final(self).project_spec() == old(self).project_spec(),
            final(self).graph_spec().edges@ == old(self).graph_spec().edges@,
            match node_kind(old(self).graph_spec().nodes@, id@) {
                None => r is Ok && final(self).graph_spec().nodes@ == old(self).graph_spec().nodes@.push(
                    crate::control_graph::ControlNode { id, kind: handover_node_kind(kind) },
                ),
                Some(existing) => final(self).graph_spec().nodes@ == old(self).graph_spec().nodes@ && if existing
                    == handover_node_kind(kind) {
                    r is Ok
                } else {
                    r matches Err(ConstructionProjectError::DuplicateId { kind: k, id: text })
                        && k == "control_graph.node" && text@ == id@
                },
            },
    {
        proof {
            use_type_invariant(&*self);
        }
        let mut graph = self.graph.clone();
        let r = graph.add_node(id, kind.node_kind());
        self.graph = graph;
        r
    }

    /// Returns the declared kind of a handover control.
    pub fn kind(&self, control: &ControlId) -> (r: Option<HandoverControlKind>)
        ensures
            r == handover_kind_in(self.graph_spec().nodes@, control@),
    {
        proof {
            use_type_invariant(self);
        }
        match self.graph.kind_of(control) {
            Some(k) => HandoverControlKind::from_node_kind(k),
            None => None,
        }
    }

    fn require_handover_control(&self, control: &ControlId, endpoint_role: &'static str) -> (r: Result<(), ConstructionProjectError>)
        ensures
            r is Ok <==> handover_kind_in(self.graph_spec().nodes@, control@) is Some,
            r matches Err(e) ==> (e matches ConstructionProjectError::ControlGraphMissingEndpoint { edge, endpoint_role: role, endpoint }
                && edge == "handover-member" && role == endpoint_role && endpoint@ == control@),
    {
        if self.kind(control).is_none() {
            return Err(ConstructionProjectError::ControlGraphMissingEndpoint {
                edge: "handover-member",
                endpoint_role,
                endpoint: control.clone(),
            });
        }
        Ok(())
    }

    /// Adds a typed member-to-parent edge and rejects hierarchy cycles.
    ///
    /// A refused edge leaves the hierarchy unchanged.
    pub fn add_member(&mut self, member: ControlId, parent: ControlId) -> (r: Result<(), ConstructionProjectError>)
        ensures
            final(self).project_spec() == old(self).project_spec(),
            final(self).graph_spec().nodes@ == old(self).graph_spec().nodes@,
            add_member_outcome(old(self).graph_spec(), final(self).graph_spec().edges@, member, parent, r),
            r is Err ==> final(self).graph_spec().edges@ == old(self).graph_spec().edges@,
    {
        proof {
            use_type_invariant(&*self);
        }
        self.require_handover_control(&member, "member")?;
        self.require_handover_control(&parent, "parent")?;
        let mut candidate = self.graph.clone();
        candidate.add_edge(member, parent, ControlEdgeKind::MemberOf)?;
        candidate.validate_readiness()?;
        self.graph = candidate;
        Ok(())
    }

    /// Returns direct members in stable control-id order.
    pub fn direct_members(&self, parent: &ControlId) -> (v: Vec<ControlId>)
        ensures
            ids_sorted(v@),
            forall|s: Seq<char>| #[trigger] id_set(v@).contains(s) <==> has_edge(
                self.graph_spec().edges@,
                s,
                parent@,
                ControlEdgeKind::MemberOf,
            ),
    {
        self.linked_ids(parent, false)
    }

    /// Returns direct parents in stable control-id order.
    pub fn direct_parents(&self, member: &ControlId) -> (v: Vec<ControlId>)
        ensures
            ids_sorted(v@),
            forall|t: Seq<char>| #[trigger] id_set(v@).contains(t) <==> has_edge(
                self.graph_spec().edges@,
                member@,
                t,
                ControlEdgeKind::MemberOf,
            ),
    {
        self.linked_ids(member, true)
    }

    fn linked_ids(&self, at: &ControlId, up: bool) -> (v: Vec<ControlId>)
        ensures
            ids_sorted(v@),
            forall|t: Seq<char>| #[trigger] id_set(v@).contains(t) <==> (if up {
                has_edge(self.graph_spec().edges@, at@, t, ControlEdgeKind::MemberOf)
            } else {
                has_edge(self.graph_spec().edges@, t, at@, ControlEdgeKind::MemberOf)
            }),
    {
        let ghost edges = self.graph.edges@;
        let mut v: Vec<ControlId> = Vec::new();
        proof {
            assert(id_set(v@) =~= Set::empty());
        }
        let mut k: usize = 0;
        while k < self.graph.edges.len()
            invariant
                edges == self.graph.edges@,
                k <= edges.len(),
                ids_sorted(v@),
                forall|t: Seq<char>| #[trigger] id_set(v@).contains(t) <==> exists|j: int| 0 <= j < k
                    && (#[trigger] edges[j]).kind == ControlEdgeKind::MemberOf
                    && (if up { edges[j].source@ == at@ && edges[j].target@ == t } else { edges[j].target@ == at@ && edges[j].source@ == t }),
            decreases edges.len() - k,
        {
            let e = &self.graph.edges[k];
            let ghost before = v@;
            if e.kind == ControlEdgeKind::MemberOf {
                if up && e.source.same(at) {
                    insert_id(&mut v, e.target.clone());
                } else if !up && e.target.same(at) {
                    insert_id(&mut v, e.source.clone());
                }
            }
            proof {
                assert forall|t: Seq<char>| #[trigger] id_set(v@).contains(t) <==> exists|j: int| 0 <= j < k + 1
                    && (#[trigger] edges[j]).kind == ControlEdgeKind::MemberOf
                    && (if up { edges[j].source@ == at@ && edges[j].target@ == t } else { edges[j].target@ == at@ && edges[j].source@ == t }) by {
                    if id_set(before).contains(t) {
                        let j = choose|j: int| 0 <= j < k
                            && (#[trigger] edges[j]).kind == ControlEdgeKind::MemberOf
                            && (if up { edges[j].source@ == at@ && edges[j].target@ == t } else { edges[j].target@ == at@ && edges[j].source@ == t });
                        assert(0 <= j < k + 1);
                    }
                    if exists|j: int| 0 <= j < k + 1
                        && (#[trigger] edges[j]).kind == ControlEdgeKind::MemberOf
                        && (if up { edges[j].source@ == at@ && edges[j].target@ == t } else { edges[j].target@ == at@ && edges[j].source@ == t }) {
                        let j = choose|j: int| 0 <= j < k + 1
                            && (#[trigger] edges[j]).kind == ControlEdgeKind::MemberOf
                            && (if up { edges[j].source@ == at@ && edges[j].target@ == t } else { edges[j].target@ == at@ && edges[j].source@ == t });
                        if j < k {
                            assert(id_set(before).contains(t));
                        }
                    }
                }
            }
            k = k + 1;
        }
        proof {
            assert forall|t: Seq<char>| #[trigger] id_set(v@).contains(t) <==> (if up {
                has_edge(edges, at@, t, ControlEdgeKind::MemberOf)
            } else {
                has_edge(edges, t, at@, ControlEdgeKind::MemberOf)
            }) by {
                if up && has_edge(edges, at@, t, ControlEdgeKind::MemberOf) {
                    let j = choose|j: int| 0 <= j < edges.len() && crate::control_graph::edge_is(#[trigger] edges[j], at@, t, ControlEdgeKind::MemberOf);
                    assert(edges[j].kind == ControlEdgeKind::MemberOf);
                }
                if !up && has_edge(edges, t, at@, ControlEdgeKind::MemberOf) {
                    let j = choose|j: int| 0 <= j < edges.len() && crate::control_graph::edge_is(#[trigger] edges[j], t, at@, ControlEdgeKind::MemberOf);
                    assert(edges[j].kind == ControlEdgeKind::MemberOf);
                }
                if id_set(v@).contains(t) {
                    let j = choose|j: int| 0 <= j < edges.len()
                        && (#[trigger] edges[j]).kind == ControlEdgeKind::MemberOf
                        && (if up { edges[j].source@ == at@ && edges[j].target@ == t } else { edges[j].target@ == at@ && edges[j].source@ == t });
                    if up {
                        assert(crate::control_graph::edge_is(edges[j], at@, t, ControlEdgeKind::MemberOf));
                    } else {
                        assert(crate::control_graph::edge_is(edges[j], t, at@, ControlEdgeKind::MemberOf));
                    }
                }
            }
        }
        v
    }

    /// Returns a control and all transitive members in stable order.
    pub fn scope(&self, root: &ControlId) -> (r: Result<Vec<ControlId>, ConstructionProjectError>)
        ensures
            handover_kind_in(self.graph_spec().nodes@, root@) is None ==> (r matches Err(
                ConstructionProjectError::ControlGraphMissingEndpoint { edge, endpoint_role, endpoint },
            ) && edge == "handover-member" && endpoint_role == "scope" && endpoint@ == root@),
            handover_kind_in(self.graph_spec().nodes@, root@) is Some ==> (r matches Ok(v) && ids_sorted(v@)
                && forall|c: Seq<char>| #[trigger] id_set(v@).contains(c) <==> in_scope(self.graph_spec().edges@, root@, c)),
    {
        self.require_handover_control(root, "scope")?;
        let ghost edges = self.graph.edges@;
        let mut v = self.graph.closure(root, EdgeScope::Membership, false);
        let ghost before = v@;
        insert_id(&mut v, root.clone());
        proof {
            assert forall|c: Seq<char>| #[trigger] id_set(v@).contains(c) <==> in_scope(edges, root@, c) by {
                lemma_reaches_backward(edges, EdgeScope::Membership, root@, c);
            }
        }
        Ok(v)
    }

    /// Returns controls with no declared members inside the selected scope.
    pub fn leaves(&self, root: &ControlId) -> (r: Result<Vec<ControlId>, ConstructionProjectError>)
        ensures
            handover_kind_in(self.graph_spec().nodes@, root@) is None ==> (r matches Err(
                ConstructionProjectError::ControlGraphMissingEndpoint { edge, endpoint_role, endpoint },
            ) && edge == "handover-member" && endpoint_role == "scope" && endpoint@ == root@),
            handover_kind_in(self.graph_spec().nodes@, root@) is Some ==> (r matches Ok(v) && ids_sorted(v@)
                && forall|c: Seq<char>| #[trigger] id_set(v@).contains(c) <==> (in_scope(self.graph_spec().edges@, root@, c)
                    && !exists|s: Seq<char>| #[trigger] has_edge(self.graph_spec().edges@, s, c, ControlEdgeKind::MemberOf))),
    {
        let scope = self.scope(root)?;
        let ghost edges = self.graph.edges@;
        let mut out: Vec<ControlId> = Vec::new();
        proof {
            assert(id_set(out@) =~= Set::empty());
        }
        let mut i: usize = 0;
        while i < scope.len()
            invariant
                edges == self.graph.edges@,
                i <= scope@.len(),
                ids_sorted(out@),
                forall|c: Seq<char>| #[trigger] id_set(out@).contains(c) <==> exists|j: int| 0 <= j < i && (#[trigger] scope@[j])@ == c
                    && !exists|s: Seq<char>| #[trigger] has_edge(edges, s, c, ControlEdgeKind::MemberOf),
            decreases scope.len() - i,
        {
            let members = self.direct_members(&scope[i]);
            let ghost before = out@;
            if members.len() == 0 {
                insert_id(&mut out, scope[i].clone());
                proof {
                    assert forall|s: Seq<char>| !has_edge(edges, s, scope@[i as int]@, ControlEdgeKind::MemberOf) by {
                        if has_edge(edges, s, scope@[i as int]@, ControlEdgeKind::MemberOf) {
                            assert(id_set(members@).contains(s));
                            assert(id_views(members@).contains(s));
                        }
                    }
                }
            } else {
                proof {
                    assert(id_set(members@).contains(members@[0]@)) by {
                        assert(id_views(members@)[0] == members@[0]@);
                    }
                }
            }
            proof {
                assert forall|c: Seq<char>| #[trigger] id_set(out@).contains(c) <==> exists|j: int| 0 <= j < i + 1 && (#[trigger] scope@[j])@ == c
                    && !exists|s: Seq<char>| #[trigger] has_edge(edges, s, c, ControlEdgeKind::MemberOf) by {
                    if id_set(before).contains(c) {
                        let j = choose|j: int| 0 <= j < i && (#[trigger] scope@[j])@ == c
                            && !exists|s: Seq<char>| #[trigger] has_edge(edges, s, c, ControlEdgeKind::MemberOf);
                        assert(0 <= j < i + 1);
                    }
                    if exists|j: int| 0 <= j < i + 1 && (#[trigger] scope@[j])@ == c
                        && !exists|s: Seq<char>| #[trigger] has_edge(edges, s, c, ControlEdgeKind::MemberOf) {
                        let j = choose|j: int| 0 <= j < i + 1 && (#[trigger] scope@[j])@ == c
                            && !exists|s: Seq<char>| #[trigger] has_edge(edges, s, c, ControlEdgeKind::MemberOf);
                        if j < i {
                            assert(id_set(before).contains(c));
                        }
                    }
                }
            }
            i = i + 1;
        }
        proof {
            assert forall|c: Seq<char>| #[trigger] id_set(out@).contains(c) <==> (in_scope(edges, root@, c)
                && !exists|s: Seq<char>| #[trigger] has_edge(edges, s, c, ControlEdgeKind::MemberOf)) by {
                if id_set(out@).contains(c) {
                    let j = choose|j: int| 0 <= j < scope@.len() && (#[trigger] scope@[j])@ == c
                        && !exists|s: Seq<char>| #[trigger] has_edge(edges, s, c, ControlEdgeKind::MemberOf);
                    assert(id_views(scope@)[j] == c);
                    assert(id_set(scope@).contains(c));
                }
                if in_scope(edges, root@, c) && !exists|s: Seq<char>| #[trigger] has_edge(edges, s, c, ControlEdgeKind::MemberOf) {
                    assert(id_set(scope@).contains(c));
                    let j = choose|j: int| 0 <= j < id_views(scope@).len() && id_views(scope@)[j] == c;
                    assert(scope@[j]@ == c);
                }
            }
        }
        Ok(out)
    }
}

/// What `add_member(member, parent)` does to a hierarchy whose graph is `g`.
pub open spec fn add_member_outcome(
    g: ControlGraph,
    new_edges: Seq<ControlEdge>,
    member: ControlId,
    parent: ControlId,
    r: Result<(), ConstructionProjectError>,
) -> bool {
    let candidate = g.edges@.push(ControlEdge { source: member, target: parent, kind: ControlEdgeKind::MemberOf });
    if handover_kind_in(g.nodes@, member@) is None {
        r matches Err(ConstructionProjectError::ControlGraphMissingEndpoint { edge, endpoint_role, endpoint })
            && edge == "handover-member" && endpoint_role == "member" && endpoint@ == member@
    } else if handover_kind_in(g.nodes@, parent@) is None {
        r matches Err(ConstructionProjectError::ControlGraphMissingEndpoint { edge, endpoint_role, endpoint })
            && edge == "handover-member" && endpoint_role == "parent" && endpoint@ == parent@
    } else if has_edge(g.edges@, member@, parent@, ControlEdgeKind::MemberOf) {
        r matches Err(ConstructionProjectError::DuplicateControlGraphEdge { kind, from, target })
            && kind@ == "member-of"@ && from@ == member@ && target@ == parent@
    } else if !readiness_acyclic(candidate) {
        r matches Err(ConstructionProjectError::ControlGraphCycle { cycle }) && is_cycle_report(g.nodes@, candidate, cycle@)
    } else {
        r is Ok && new_edges == candidate
    }
}

} // verus!
