//! Construction control graph: typed nodes keyed by stable control ids and
//! typed directed edges, with readiness-cycle rejection and reachability.

use vstd::prelude::*;
use vstd::set_lib::lemma_len_subset;
use crate::error::ConstructionProjectError;
use crate::identity::ControlId;
use crate::evidence::EvidenceState;
use crate::order::{
    contains_id, id_set, id_views, ids_sorted, insert_id, lemma_lex_asymmetric, lemma_lex_irreflexive, lemma_lex_transitive, lex_lt,
    text_precedes,
};

verus! {

/// Typed construction-control node kinds.
#[derive(Clone, Copy, Debug, PartialEq, Eq, Structural, PartialOrd, Ord, Hash)]
pub enum ControlNodeKind {
    /// Requirement that may be satisfied by accepted evidence.
    Requirement,
    /// Project-scoped obligation derived from a requirement.
    Obligation,
    /// Accountable decision.
    Decision,
    /// Package or work package.
    Package,
    /// Task join or schedule merge point.
    TaskJoin,
    /// Change record.
    Change,
    /// Handover item.
    HandoverItem,
    /// Outcome or delivered result.
    Outcome,
    /// Readiness or lifecycle gate.
    Gate,
    /// Design deliverable revision.
    DesignRevision,
    /// Design review.
    DesignReview,
    /// Request for information.
    Rfi,
    /// Purpose-specific design release.
    DesignRelease,
    /// Authority permit.
    Permit,
    /// Authority inspection.
    Inspection,
    /// Authority obligation.
    AuthorityObligation,
    /// Risk or opportunity.
    Risk,
    /// Functional handover system.
    HandoverSystem,
    /// Geographic or functional handover area.
    HandoverArea,
    /// Contracted handover work package.
    HandoverWorkPackage,
    /// Group of assets handed over together.
    HandoverAssetGroup,
    /// Contractual handover milestone.
    HandoverMilestone,
}

/// Stable construction-control graph node.
#[derive(Debug, PartialEq, Eq)]
pub struct ControlNode {
    /// Stable control id.
    pub id: ControlId,
    /// Construction-owned node kind.
    pub kind: ControlNodeKind,
}

impl Clone for ControlNode {
    fn clone(&self) -> (r: Self)
        ensures
            r == *self,
    {
        ControlNode { id: self.id.clone(), kind: self.kind }
    }
}

impl ControlNode {
    /// Builds a typed control node.
    pub fn new(id: ControlId, kind: ControlNodeKind) -> (r: Self)
        ensures
            r.id == id,
            r.kind == kind,
    {
        ControlNode { id, kind }
    }
}

/// Typed construction-control edge kinds.
#[derive(Clone, Copy, Debug, PartialEq, Eq, Structural, PartialOrd, Ord, Hash)]
pub enum ControlEdgeKind {
    /// Source must be ready before target can be ready.
    Prerequisite,
    /// Source blocks target.
    Blocks,
    /// Source affects target but does not itself impose readiness.
    Affects,
    /// Source records a decision over target.
    Decides,
    /// Source package joins target task.
    Joins,
    /// Source changes target.
    Changes,
    /// Source hands over target.
    HandsOver,
    /// Source produces target.
    Produces,
    /// Informational relationship excluded from readiness propagation.
    Informational,
    /// Source is a member of the target handover scope.
    MemberOf,
}

/// Stable label of an edge kind.
pub open spec fn edge_label(k: ControlEdgeKind) -> Seq<char> {
    match k {
        ControlEdgeKind::Prerequisite => "prerequisite"@,
        ControlEdgeKind::Blocks => "blocks"@,
        ControlEdgeKind::Affects => "affects"@,
        ControlEdgeKind::Decides => "decides"@,
        ControlEdgeKind::Joins => "joins"@,
        ControlEdgeKind::Changes => "changes"@,
        ControlEdgeKind::HandsOver => "hands-over"@,
        ControlEdgeKind::Produces => "produces"@,
        ControlEdgeKind::Informational => "informational"@,
        ControlEdgeKind::MemberOf => "member-of"@,
    }
}

/// Position of an edge kind in declaration order.
pub open spec fn edge_rank(k: ControlEdgeKind) -> int {
    match k {
        ControlEdgeKind::Prerequisite => 0,
        ControlEdgeKind::Blocks => 1,
        ControlEdgeKind::Affects => 2,
        ControlEdgeKind::Decides => 3,
        ControlEdgeKind::Joins => 4,
        ControlEdgeKind::Changes => 5,
        ControlEdgeKind::HandsOver => 6,
        ControlEdgeKind::Produces => 7,
        ControlEdgeKind::Informational => 8,
        ControlEdgeKind::MemberOf => 9,
    }
}

/// Every edge kind but `Informational` propagates readiness.
pub open spec fn propagates(k: ControlEdgeKind) -> bool {
    k != ControlEdgeKind::Informational
}

impl ControlEdgeKind {
    /// Returns the stable edge-kind label.
    pub fn label(self) -> (r: &'static str)
        ensures
            r@ == edge_label(self),
    {
        match self {
            ControlEdgeKind::Prerequisite => "prerequisite",
            ControlEdgeKind::Blocks => "blocks",
            ControlEdgeKind::Affects => "affects",
            ControlEdgeKind::Decides => "decides",
            ControlEdgeKind::Joins => "joins",
            ControlEdgeKind::Changes => "changes",
            ControlEdgeKind::HandsOver => "hands-over",
            ControlEdgeKind::Produces => "produces",
            ControlEdgeKind::Informational => "informational",
            ControlEdgeKind::MemberOf => "member-of",
        }
    }

    /// Returns true when the edge takes part in readiness propagation.
    pub fn propagates_readiness(self) -> (b: bool)
        ensures
            b == propagates(self),
    {
        !matches!(self, ControlEdgeKind::Informational)
    }

    /// Position of the edge kind in declaration order.
    pub fn rank(self) -> (r: u8)
        ensures
            r == edge_rank(self),
    {
        match self {
            ControlEdgeKind::Prerequisite => 0,
            ControlEdgeKind::Blocks => 1,
            ControlEdgeKind::Affects => 2,
            ControlEdgeKind::Decides => 3,
            ControlEdgeKind::Joins => 4,
            ControlEdgeKind::Changes => 5,
            ControlEdgeKind::HandsOver => 6,
            ControlEdgeKind::Produces => 7,
            ControlEdgeKind::Informational => 8,
            ControlEdgeKind::MemberOf => 9,
        }
    }
}

/// Stable construction-control graph edge.
#[derive(Debug, PartialEq, Eq)]
pub struct ControlEdge {
    /// Source control id.
    pub source: ControlId,
    /// Target control id.
    pub target: ControlId,
    /// Construction-owned edge kind.
    pub kind: ControlEdgeKind,
}

impl Clone for ControlEdge {
    fn clone(&self) -> (r: Self)
        ensures
            r == *self,
    {
        ControlEdge { source: self.source.clone(), target: self.target.clone(), kind: self.kind }
    }
}

impl ControlEdge {
    /// Builds a typed control edge.
    pub fn new(source: ControlId, target: ControlId, kind: ControlEdgeKind) -> (r: Self)
        ensures
            r.source == source,
            r.target == target,
            r.kind == kind,
    {
        ControlEdge { source, target, kind }
    }
}

/// Which edges a traversal follows.
#[derive(Clone, Copy, Debug, PartialEq, Eq, Structural)]
pub enum EdgeScope {
    /// Every readiness-propagating edge.
    Readiness,
    /// Handover membership edges only.
    Membership,
}

/// Whether `scope` follows edges of kind `k`.
pub open spec fn scope_admits(scope: EdgeScope, k: ControlEdgeKind) -> bool {
    match scope {
        EdgeScope::Readiness => propagates(k),
        EdgeScope::Membership => k == ControlEdgeKind::MemberOf,
    }
}

fn admits(scope: EdgeScope, k: ControlEdgeKind) -> (b: bool)
    ensures
        b == scope_admits(scope, k),
{
    match scope {
        EdgeScope::Readiness => k.propagates_readiness(),
        EdgeScope::Membership => k == ControlEdgeKind::MemberOf,
    }
}

/// The node list holds a node with id `id`.
pub open spec fn has_node(nodes: Seq<ControlNode>, id: Seq<char>) -> bool {
    exists|i: int| 0 <= i < nodes.len() && (#[trigger] nodes[i]).id@ == id
}

/// Kind of the node with id `id`, when there is one.
pub open spec fn node_kind(nodes: Seq<ControlNode>, id: Seq<char>) -> Option<ControlNodeKind> {
    if has_node(nodes, id) {
        Some(nodes[choose|i: int| 0 <= i < nodes.len() && (#[trigger] nodes[i]).id@ == id].kind)
    } else {
        None
    }
}

/// No two nodes share an id.
pub open spec fn nodes_unique(nodes: Seq<ControlNode>) -> bool {
    forall|i: int, j: int| 0 <= i < j < nodes.len() ==> (#[trigger] nodes[i]).id@ != (#[trigger] nodes[j]).id@
}

/// Edge `e` runs from `s` to `t` with kind `k`.
pub open spec fn edge_is(e: ControlEdge, s: Seq<char>, t: Seq<char>, k: ControlEdgeKind) -> bool {
    e.source@ == s && e.target@ == t && e.kind == k
}

/// The edge list holds an edge from `s` to `t` with kind `k`.
pub open spec fn has_edge(edges: Seq<ControlEdge>, s: Seq<char>, t: Seq<char>, k: ControlEdgeKind) -> bool {
    exists|i: int| 0 <= i < edges.len() && edge_is(#[trigger] edges[i], s, t, k)
}

/// A sorted id list drawn from a pool of candidate ids is no longer than the pool.
proof fn lemma_sorted_bound(v: Seq<ControlId>, pool: Seq<Seq<char>>)
    requires
        ids_sorted(v),
        id_set(v).subset_of(pool.to_set()),
    ensures
        v.len() <= pool.len(),
{
    let w = id_views(v);
    assert(w.no_duplicates()) by {
        assert forall|i: int, j: int| 0 <= i < w.len() && 0 <= j < w.len() && i != j implies w[i] != w[j] by {
            if i < j {
                assert(lex_lt(v[i]@, v[j]@));
                lemma_lex_irreflexive(v[i]@);
            } else {
                assert(lex_lt(v[j]@, v[i]@));
                lemma_lex_irreflexive(v[j]@);
            }
        }
    }
    w.unique_seq_to_set();
    pool.lemma_cardinality_of_set();
    broadcast use vstd::seq_lib::seq_to_set_is_finite;
    lemma_len_subset(w.to_set(), pool.to_set());
}

/// Well-formed graph: unique node ids, edges between present nodes, no repeated edge.
pub open spec fn graph_wf(nodes: Seq<ControlNode>, edges: Seq<ControlEdge>) -> bool {
    &&& nodes_unique(nodes)
    &&& forall|i: int| 0 <= i < edges.len() ==> has_node(nodes, (#[trigger] edges[i]).source@)
        && has_node(nodes, edges[i].target@)
    &&& forall|i: int, j: int| 0 <= i < j < edges.len() ==> !edge_is(
        #[trigger] edges[i],
        (#[trigger] edges[j]).source@,
        edges[j].target@,
        edges[j].kind,
    )
}

/// An edge admitted by `scope` links `a` to `b`, read forwards or backwards.
pub open spec fn linked(edges: Seq<ControlEdge>, scope: EdgeScope, forward: bool, a: Seq<char>, b: Seq<char>) -> bool {
    exists|k: int| 0 <= k < edges.len() && scope_admits(scope, (#[trigger] edges[k]).kind) && (if forward {
        edges[k].source@ == a && edges[k].target@ == b
    } else {
        edges[k].target@ == a && edges[k].source@ == b
    })
}

/// Consecutive ids of `p` are linked.
pub open spec fn is_walk(edges: Seq<ControlEdge>, scope: EdgeScope, forward: bool, p: Seq<Seq<char>>) -> bool {
    &&& p.len() >= 1
    &&& forall|i: int| 0 <= i < p.len() - 1 ==> linked(edges, scope, forward, #[trigger] p[i], p[i + 1])
}

/// `b` is reached from `a` by following one or more links.
pub open spec fn reaches_dir(edges: Seq<ControlEdge>, scope: EdgeScope, forward: bool, a: Seq<char>, b: Seq<char>) -> bool {
    exists|p: Seq<Seq<char>>| #[trigger] is_walk(edges, scope, forward, p) && p.len() >= 2 && p[0] == a && p.last() == b
}

/// A directed path of one or more edges admitted by `scope` runs from `a` to `b`.
pub open spec fn reaches(edges: Seq<ControlEdge>, scope: EdgeScope, a: Seq<char>, b: Seq<char>) -> bool {
    reaches_dir(edges, scope, true, a, b)
}

/// A rank function orders every readiness edge from lower to higher rank.
pub open spec fn ranks_readiness(edges: Seq<ControlEdge>, rank: spec_fn(Seq<char>) -> int) -> bool {
    forall|k: int| 0 <= k < edges.len() && propagates((#[trigger] edges[k]).kind)
        ==> rank(edges[k].source@) < rank(edges[k].target@)
}

/// The readiness edges admit a topological ranking, so they contain no cycle.
pub open spec fn readiness_acyclic(edges: Seq<ControlEdge>) -> bool {
    exists|rank: spec_fn(Seq<char>) -> int| #[trigger] ranks_readiness(edges, rank)
}

/// Every readiness edge runs between present nodes.
pub open spec fn readiness_endpoints_present(nodes: Seq<ControlNode>, edges: Seq<ControlEdge>) -> bool {
    forall|k: int| 0 <= k < edges.len() && propagates((#[trigger] edges[k]).kind) ==> has_node(nodes, edges[k].source@)
        && has_node(nodes, edges[k].target@)
}

/// A readiness edge with an endpoint that is not a node.
pub open spec fn dangling(nodes: Seq<ControlNode>, e: ControlEdge) -> bool {
    propagates(e.kind) && (!has_node(nodes, e.source@) || !has_node(nodes, e.target@))
}

/// Edge order: by source id, then target id, then declared kind.
pub open spec fn edge_key_lt(a: ControlEdge, b: ControlEdge) -> bool {
    ||| lex_lt(a.source@, b.source@)
    ||| a.source@ == b.source@ && lex_lt(a.target@, b.target@)
    ||| a.source@ == b.source@ && a.target@ == b.target@ && edge_rank(a.kind) < edge_rank(b.kind)
}

/// Edge `k` is a dangling readiness edge and no dangling readiness edge precedes it.
pub open spec fn least_dangling(nodes: Seq<ControlNode>, edges: Seq<ControlEdge>, k: int) -> bool {
    &&& 0 <= k < edges.len()
    &&& dangling(nodes, edges[k])
    &&& forall|j: int| 0 <= j < edges.len() && dangling(nodes, #[trigger] edges[j]) ==> !edge_key_lt(edges[j], edges[k])
}

/// The refusal of dangling edge `e`: its missing source, else its missing target.
pub open spec fn endpoint_refusal(nodes: Seq<ControlNode>, e: ControlEdge, err: ConstructionProjectError) -> bool {
    err matches ConstructionProjectError::ControlGraphMissingEndpoint { edge, endpoint_role, endpoint }
        && edge@ == edge_label(e.kind) && if !has_node(nodes, e.source@) {
        endpoint_role == "source" && endpoint@ == e.source@
    } else {
        endpoint_role == "target" && endpoint@ == e.target@
    }
}

/// What a refused graph with a dangling readiness edge answers: the refusal
/// of the least such edge.
pub open spec fn dangling_refusal(nodes: Seq<ControlNode>, edges: Seq<ControlEdge>, err: ConstructionProjectError) -> bool {
    exists|k: int| #[trigger] least_dangling(nodes, edges, k) && endpoint_refusal(nodes, edges[k], err)
}

proof fn lemma_edge_key_order(a: ControlEdge, b: ControlEdge, c: ControlEdge)
    ensures
        edge_key_lt(a, b) && edge_key_lt(b, c) ==> edge_key_lt(a, c),
        edge_key_lt(a, b) ==> !edge_key_lt(b, a),
{
    if lex_lt(a.source@, b.source@) && lex_lt(b.source@, c.source@) {
        lemma_lex_transitive(a.source@, b.source@, c.source@);
    }
    if lex_lt(a.target@, b.target@) && lex_lt(b.target@, c.target@) {
        lemma_lex_transitive(a.target@, b.target@, c.target@);
    }
    if lex_lt(a.source@, b.source@) {
        lemma_lex_asymmetric(a.source@, b.source@);
    }
    if lex_lt(a.target@, b.target@) {
        lemma_lex_asymmetric(a.target@, b.target@);
    }
    lemma_lex_irreflexive(a.source@);
    lemma_lex_irreflexive(a.target@);
    lemma_lex_irreflexive(b.source@);
    lemma_lex_irreflexive(b.target@);
}

/// A reported cycle: one strongly connected set of readiness edges that holds
/// a cycle. Some reported control `v` reaches itself, and the report is,
/// in id order, exactly the controls that `v` reaches and that reach `v`.
pub open spec fn is_cycle_report(nodes: Seq<ControlNode>, edges: Seq<ControlEdge>, cycle: Seq<ControlId>) -> bool {
    &&& cycle.len() > 0
    &&& ids_sorted(cycle)
    &&& forall|i: int| 0 <= i < cycle.len() ==> has_node(nodes, (#[trigger] cycle[i])@)
    &&& exists|v: Seq<char>| #[trigger] id_set(cycle).contains(v) && reaches(edges, EdgeScope::Readiness, v, v) && forall|t: Seq<char>|
        #[trigger] id_set(cycle).contains(t) <==> (reaches(edges, EdgeScope::Readiness, v, t) && reaches(
        edges,
        EdgeScope::Readiness,
        t,
        v,
    ))
}

/// Reversing a backward walk gives a forward walk.
pub proof fn lemma_reverse_walk(edges: Seq<ControlEdge>, scope: EdgeScope, p: Seq<Seq<char>>, fwd: bool)
    requires
        is_walk(edges, scope, fwd, p),
    ensures
        is_walk(edges, scope, !fwd, p.reverse()),
{
    let q = p.reverse();
    assert forall|i: int| 0 <= i < q.len() - 1 implies linked(edges, scope, !fwd, #[trigger] q[i], q[i + 1]) by {
        let j = p.len() - 2 - i;
        assert(q[i] == p[j + 1]);
        assert(q[i + 1] == p[j]);
        assert(linked(edges, scope, fwd, p[j], p[j + 1]));
        let k = choose|k: int| 0 <= k < edges.len() && scope_admits(scope, (#[trigger] edges[k]).kind) && (if fwd {
            edges[k].source@ == p[j] && edges[k].target@ == p[j + 1]
        } else {
            edges[k].target@ == p[j] && edges[k].source@ == p[j + 1]
        });
        assert(scope_admits(scope, edges[k].kind));
    }
}

/// Reaching backwards is reaching forwards the other way round.
pub proof fn lemma_reaches_backward(edges: Seq<ControlEdge>, scope: EdgeScope, a: Seq<char>, b: Seq<char>)
    ensures
        reaches_dir(edges, scope, false, a, b) <==> reaches(edges, scope, b, a),
{
    if reaches_dir(edges, scope, false, a, b) {
        let p = choose|p: Seq<Seq<char>>| #[trigger] is_walk(edges, scope, false, p) && p.len() >= 2 && p[0] == a && p.last() == b;
        lemma_reverse_walk(edges, scope, p, false);
        assert(is_walk(edges, scope, true, p.reverse()));
    }
    if reaches(edges, scope, b, a) {
        let p = choose|p: Seq<Seq<char>>| #[trigger] is_walk(edges, scope, true, p) && p.len() >= 2 && p[0] == b && p.last() == a;
        lemma_reverse_walk(edges, scope, p, true);
        assert(is_walk(edges, scope, false, p.reverse()));
    }
}

/// A set closed under links from `start` or its members holds everything reached from `start`.
proof fn lemma_closed_holds_reached(
    edges: Seq<ControlEdge>,
    scope: EdgeScope,
    fwd: bool,
    start: Seq<char>,
    s: Set<Seq<char>>,
    t: Seq<char>,
)
    requires
        forall|a: Seq<char>, b: Seq<char>| (a == start || s.contains(a)) && #[trigger] linked(edges, scope, fwd, a, b) ==> s.contains(b),
        reaches_dir(edges, scope, fwd, start, t),
    ensures
        s.contains(t),
{
    let p = choose|p: Seq<Seq<char>>| #[trigger] is_walk(edges, scope, fwd, p) && p.len() >= 2 && p[0] == start && p.last() == t;
    lemma_walk_in_set(edges, scope, fwd, start, s, p, p.len() - 1);
}

proof fn lemma_walk_in_set(
    edges: Seq<ControlEdge>,
    scope: EdgeScope,
    fwd: bool,
    start: Seq<char>,
    s: Set<Seq<char>>,
    p: Seq<Seq<char>>,
    i: int,
)
    requires
        forall|a: Seq<char>, b: Seq<char>| (a == start || s.contains(a)) && #[trigger] linked(edges, scope, fwd, a, b) ==> s.contains(b),
        is_walk(edges, scope, fwd, p),
        p[0] == start,
        1 <= i < p.len(),
    ensures
        s.contains(p[i]),
    decreases i,
{
    assert(linked(edges, scope, fwd, p[i - 1], p[i]));
    if i > 1 {
        lemma_walk_in_set(edges, scope, fwd, start, s, p, i - 1);
    }
}



/// What `add_edge(source, target, kind)` does to a graph with `nodes` and `edges`.
pub open spec fn add_edge_outcome(
    nodes: Seq<ControlNode>,
    edges: Seq<ControlEdge>,
    new_edges: Seq<ControlEdge>,
    source: ControlId,
    target: ControlId,
    kind: ControlEdgeKind,
    r: Result<(), ConstructionProjectError>,
) -> bool {
    if !has_node(nodes, source@) {
        &&& new_edges == edges
        &&& (r matches Err(ConstructionProjectError::ControlGraphMissingEndpoint { edge, endpoint_role, endpoint })
            && edge@ == edge_label(kind) && endpoint_role == "source" && endpoint@ == source@)
    } else if !has_node(nodes, target@) {
        &&& new_edges == edges
        &&& (r matches Err(ConstructionProjectError::ControlGraphMissingEndpoint { edge, endpoint_role, endpoint })
            && edge@ == edge_label(kind) && endpoint_role == "target" && endpoint@ == target@)
    } else if has_edge(edges, source@, target@, kind) {
        &&& new_edges == edges
        &&& (r matches Err(ConstructionProjectError::DuplicateControlGraphEdge { kind: label, from, target: t })
            && label@ == edge_label(kind) && from@ == source@ && t@ == target@)
    } else {
        &&& r is Ok
        &&& new_edges == edges.push(ControlEdge { source, target, kind })
    }
}

/// Construction-owned typed control graph.
#[derive(Debug, PartialEq, Eq)]
pub struct ControlGraph {
    /// Typed nodes, each id once, in insertion order.
    pub nodes: Vec<ControlNode>,
    /// Typed directed edges in insertion order.
    pub edges: Vec<ControlEdge>,
}

impl Clone for ControlGraph {
    fn clone(&self) -> (r: Self)
        ensures
            r.nodes@ == self.nodes@,
            r.edges@ == self.edges@,
    {
        let nodes = self.nodes.clone();
        let edges = self.edges.clone();
        assert(nodes@ =~= self.nodes@);
        assert(edges@ =~= self.edges@);
        ControlGraph { nodes, edges }
    }
}

impl ControlGraph {
    /// Unique node ids, edges between present nodes, no repeated edge.
    pub open spec fn wf(&self) -> bool {
        graph_wf(self.nodes@, self.edges@)
    }

    /// Builds an empty control graph.
    pub fn new() -> (g: Self)
        ensures
            g.wf(),
            g.nodes@.len() == 0,
            g.edges@.len() == 0,
    {
        ControlGraph { nodes: Vec::new(), edges: Vec::new() }
    }

    /// Finds the position of the node with id `id`.
    pub fn node_index(&self, id: &ControlId) -> (r: Option<usize>)
        requires
            nodes_unique(self.nodes@),
        ensures
            r matches Some(i) ==> i < self.nodes@.len() && self.nodes@[i as int].id@ == id@,
            r is None <==> !has_node(self.nodes@, id@),
    {
        let mut i: usize = 0;
        while i < self.nodes.len()
            invariant
                i <= self.nodes@.len(),
                forall|j: int| 0 <= j < i ==> (#[trigger] self.nodes@[j]).id@ != id@,
            decreases self.nodes.len() - i,
        {
            if self.nodes[i].id.same(id) {
                return Some(i);
            }
            i = i + 1;
        }
        None
    }

    /// Returns the kind of the node with id `id`.
    pub fn kind_of(&self, id: &ControlId) -> (r: Option<ControlNodeKind>)
        requires
            nodes_unique(self.nodes@),
        ensures
            r == node_kind(self.nodes@, id@),
    {
        match self.node_index(id) {
            Some(i) => {
                let ghost c = choose|j: int| 0 <= j < self.nodes@.len() && (#[trigger] self.nodes@[j]).id@ == id@;
                assert(c == i as int) by {
                    if c != i as int {
                        if c < i { assert(self.nodes@[c].id@ != self.nodes@[i as int].id@); }
                        else { assert(self.nodes@[i as int].id@ != self.nodes@[c].id@); }
                    }
                }
                Some(self.nodes[i].kind)
            },
            None => None,
        }
    }

    /// Adds or confirms a typed node.
    pub fn add_node(&mut self, id: ControlId, kind: ControlNodeKind) -> (r: Result<(), ConstructionProjectError>)
        requires
            nodes_unique(old(self).nodes@),
        ensures
            nodes_unique(final(self).nodes@),
            old(self).wf() ==> final(self).wf(),
            final(self).edges@ == old(self).edges@,
            match node_kind(old(self).nodes@, id@) {
                None => r is Ok && final(self).nodes@ == old(self).nodes@.push(ControlNode { id, kind }),
                Some(existing) => final(self).nodes@ == old(self).nodes@ && if existing == kind {
                    r is Ok
                } else {
                    r matches Err(ConstructionProjectError::DuplicateId { kind: k, id: text })
                        && k == "control_graph.node" && text@ == id@
                },
            },
    {
        match self.kind_of(&id) {
            Some(existing) => {
                if existing != kind {
                    let text = id.as_str().to_owned();
                    return Err(ConstructionProjectError::DuplicateId { kind: "control_graph.node", id: text });
                }
                Ok(())
            },
            None => {
                let ghost old_nodes = self.nodes@;
                let ghost idv = id@;
                self.nodes.push(ControlNode { id, kind });
                proof {
                    let nn = self.nodes@;
                    assert forall|i: int, j: int| 0 <= i < j < nn.len() implies (#[trigger] nn[i]).id@ != (#[trigger] nn[j]).id@ by {
                        if j == nn.len() - 1 {
                            assert(nn[i] == old_nodes[i]);
                        }
                    }
                    assert forall|s: Seq<char>| has_node(old_nodes, s) implies has_node(nn, s) by {
                        let i = choose|i: int| 0 <= i < old_nodes.len() && (#[trigger] old_nodes[i]).id@ == s;
                        assert(nn[i] == old_nodes[i]);
                    }
                }
                Ok(())
            },
        }
    }

    fn has_edge_exec(&self, source: &ControlId, target: &ControlId, kind: ControlEdgeKind) -> (b: bool)
        ensures
            b == has_edge(self.edges@, source@, target@, kind),
    {
        let mut i: usize = 0;
        while i < self.edges.len()
            invariant
                i <= self.edges@.len(),
                forall|j: int| 0 <= j < i ==> !edge_is(#[trigger] self.edges@[j], source@, target@, kind),
            decreases self.edges.len() - i,
        {
            let e = &self.edges[i];
            if e.source.same(source) && e.target.same(target) && e.kind == kind {
                assert(edge_is(self.edges@[i as int], source@, target@, kind));
                return true;
            }
            i = i + 1;
        }
        false
    }

    /// Adds a typed edge after validating both endpoints.
    pub fn add_edge(&mut self, source: ControlId, target: ControlId, kind: ControlEdgeKind) -> (r: Result<(), ConstructionProjectError>)
        requires
            nodes_unique(old(self).nodes@),
        ensures
            nodes_unique(final(self).nodes@),
            old(self).wf() ==> final(self).wf(),
            final(self).nodes@ == old(self).nodes@,
            add_edge_outcome(old(self).nodes@, old(self).edges@, final(self).edges@, source, target, kind, r),
    {
        if self.node_index(&source).is_none() {
            return Err(ConstructionProjectError::ControlGraphMissingEndpoint {
                edge: kind.label(),
                endpoint_role: "source",
                endpoint: source,
            });
        }
        if self.node_index(&target).is_none() {
            return Err(ConstructionProjectError::ControlGraphMissingEndpoint {
                edge: kind.label(),
                endpoint_role: "target",
                endpoint: target,
            });
        }
        if self.has_edge_exec(&source, &target, kind) {
            return Err(ConstructionProjectError::DuplicateControlGraphEdge { kind: kind.label(), from: source, target });
        }
        let ghost old_edges = self.edges@;
        let ghost sv = source@;
        let ghost tv = target@;
        self.edges.push(ControlEdge { source, target, kind });
        proof {
            let ne = self.edges@;
            if graph_wf(self.nodes@, old_edges) {
                assert forall|i: int| 0 <= i < ne.len() implies has_node(self.nodes@, (#[trigger] ne[i]).source@)
                    && has_node(self.nodes@, ne[i].target@) by {
                    if i < old_edges.len() {
                        assert(ne[i] == old_edges[i]);
                    }
                }
                assert forall|i: int, j: int| 0 <= i < j < ne.len() implies !edge_is(
                    #[trigger] ne[i],
                    (#[trigger] ne[j]).source@,
                    ne[j].target@,
                    ne[j].kind,
                ) by {
                    assert(ne[i] == old_edges[i]);
                    if j < old_edges.len() {
                        assert(ne[j] == old_edges[j]);
                    } else if edge_is(ne[i], sv, tv, kind) {
                        assert(has_edge(old_edges, sv, tv, kind));
                    }
                }
            }
        }
        Ok(())
    }

    /// Ids reached from `start` by one or more links admitted by `scope`,
    /// followed forwards (`forward`) or backwards, in stable id order.
    pub fn closure(&self, start: &ControlId, scope: EdgeScope, forward: bool) -> (v: Vec<ControlId>)
        ensures
            ids_sorted(v@),
            forall|t: Seq<char>| id_set(v@).contains(t) <==> reaches_dir(self.edges@, scope, forward, start@, t),
    {
        let ghost edges = self.edges@;
        let ghost pool = edges.map_values(|e: ControlEdge| if forward { e.target@ } else { e.source@ });
        let mut v: Vec<ControlId> = Vec::new();
        proof {
            assert(id_set(v@) =~= Set::empty());
        }
        loop
            invariant
                edges == self.edges@,
                pool == edges.map_values(|e: ControlEdge| if forward { e.target@ } else { e.source@ }),
                ids_sorted(v@),
                id_set(v@).subset_of(pool.to_set()),
                forall|t: Seq<char>| id_set(v@).contains(t) ==> reaches_dir(edges, scope, forward, start@, t),
            decreases edges.len() - v@.len(),
        {
            proof {
                lemma_sorted_bound(v@, pool);
            }
            let ghost pass_start = v@;
            let mut changed = false;
            let mut k: usize = 0;
            while k < self.edges.len()
                invariant
                    edges == self.edges@,
                    pool == edges.map_values(|e: ControlEdge| if forward { e.target@ } else { e.source@ }),
                    k <= edges.len(),
                    ids_sorted(v@),
                    id_set(v@).subset_of(pool.to_set()),
                    forall|t: Seq<char>| id_set(v@).contains(t) ==> reaches_dir(edges, scope, forward, start@, t),
                    v@.len() >= pass_start.len(),
                    changed ==> v@.len() > pass_start.len(),
                    !changed ==> v@ == pass_start,
                    !changed ==> forall|j: int| 0 <= j < k && scope_admits(scope, (#[trigger] edges[j]).kind) && (
                        (if forward { edges[j].source@ } else { edges[j].target@ }) == start@
                        || id_set(v@).contains(if forward { edges[j].source@ } else { edges[j].target@ })
                    ) ==> id_set(v@).contains(if forward { edges[j].target@ } else { edges[j].source@ }),
                decreases edges.len() - k,
            {
                let e = &self.edges[k];
                if admits(scope, e.kind) {
                    let from = if forward { &e.source } else { &e.target };
                    let to = if forward { &e.target } else { &e.source };
                    if from.same(start) || contains_id(&v, from) {
                        let ghost before = v@;
                        let ghost fv = from@;
                        let ghost tv = to@;
                        proof {
                            assert(linked(edges, scope, forward, fv, tv));
                            if fv == start@ {
                                let p = seq![fv, tv];
                                assert(is_walk(edges, scope, forward, p));
                            } else {
                                let p = choose|p: Seq<Seq<char>>| #[trigger] is_walk(edges, scope, forward, p) && p.len() >= 2
                                    && p[0] == start@ && p.last() == fv;
                                let q = p.push(tv);
                                assert forall|i: int| 0 <= i < q.len() - 1 implies linked(edges, scope, forward, #[trigger] q[i], q[i + 1]) by {
                                    if i < p.len() - 1 {
                                        assert(q[i] == p[i] && q[i + 1] == p[i + 1]);
                                    }
                                }
                                assert(is_walk(edges, scope, forward, q));
                            }
                            assert(reaches_dir(edges, scope, forward, start@, tv));
                            assert(pool[k as int] == tv);
                        }
                        let inserted = insert_id(&mut v, to.clone());
                        if inserted {
                            changed = true;
                        }
                    }
                }
                k = k + 1;
            }
            if !changed {
                proof {
                    assert forall|a: Seq<char>, b: Seq<char>| (a == start@ || id_set(v@).contains(a)) && #[trigger] linked(
                        edges,
                        scope,
                        forward,
                        a,
                        b,
                    ) implies id_set(v@).contains(b) by {
                        let j = choose|j: int| 0 <= j < edges.len() && scope_admits(scope, (#[trigger] edges[j]).kind) && (if forward {
                            edges[j].source@ == a && edges[j].target@ == b
                        } else {
                            edges[j].target@ == a && edges[j].source@ == b
                        });
                        assert(scope_admits(scope, edges[j].kind));
                    }
                    assert forall|t: Seq<char>| reaches_dir(edges, scope, forward, start@, t) implies id_set(v@).contains(t) by {
                        lemma_closed_holds_reached(edges, scope, forward, start@, id_set(v@), t);
                    }
                }
                return v;
            }
            proof {
                lemma_sorted_bound(v@, pool);
            }
        }
    }




    /// Finds the least dangling readiness edge by source, target and kind.
    fn least_dangling_edge(&self) -> (r: Option<usize>)
        requires
            nodes_unique(self.nodes@),
        ensures
            r is None <==> readiness_endpoints_present(self.nodes@, self.edges@),
            r matches Some(k) ==> least_dangling(self.nodes@, self.edges@, k as int),
    {
        let ghost nodes = self.nodes@;
        let ghost edges = self.edges@;
        let mut best: Option<usize> = None;
        let mut k: usize = 0;
        while k < self.edges.len()
            invariant
                nodes == self.nodes@,
                edges == self.edges@,
                nodes_unique(nodes),
                k <= edges.len(),
                best is None <==> forall|j: int| 0 <= j < k ==> !dangling(nodes, #[trigger] edges[j]),
                best matches Some(b) ==> b < k && dangling(nodes, edges[b as int]) && forall|j: int| 0 <= j < k && dangling(
                    nodes,
                    #[trigger] edges[j],
                ) ==> !edge_key_lt(edges[j], edges[b as int]),
            decreases self.edges.len() - k,
        {
            let e = &self.edges[k];
            let missing = e.kind.propagates_readiness() && (self.node_index(&e.source).is_none() || self.node_index(&e.target).is_none());
            proof {
                assert(missing == dangling(nodes, edges[k as int]));
            }
            if missing {
                let take = match best {
                    None => true,
                    Some(b) => Self::edge_precedes(e, &self.edges[b]),
                };
                if take {
                    proof {
                        if let Some(b) = best {
                            assert forall|j: int| 0 <= j < k + 1 && dangling(nodes, #[trigger] edges[j]) implies !edge_key_lt(edges[j], edges[k as int]) by {
                                if j < k {
                                    lemma_edge_key_order(edges[j], edges[k as int], edges[b as int]);
                                } else {
                                    lemma_edge_key_order(edges[j], edges[j], edges[j]);
                                }
                            }
                        } else {
                            assert forall|j: int| 0 <= j < k + 1 && dangling(nodes, #[trigger] edges[j]) implies !edge_key_lt(edges[j], edges[k as int]) by {
                                lemma_edge_key_order(edges[j], edges[j], edges[j]);
                            }
                        }
                    }
                    best = Some(k);
                } else {
                    proof {
                        let b = best->0;
                        assert(!edge_key_lt(edges[k as int], edges[b as int]));
                    }
                }
            }
            k = k + 1;
        }
        proof {
            if best is None {
                assert forall|j: int| 0 <= j < edges.len() && propagates((#[trigger] edges[j]).kind) implies has_node(nodes, edges[j].source@)
                    && has_node(nodes, edges[j].target@) by {
                    assert(!dangling(nodes, edges[j]));
                }
            } else {
                let b = best->0;
                assert(!readiness_endpoints_present(nodes, edges)) by {
                    assert(dangling(nodes, edges[b as int]));
                }
            }
        }
        best
    }

    fn edge_precedes(a: &ControlEdge, b: &ControlEdge) -> (r: bool)
        ensures
            r == edge_key_lt(*a, *b),
    {
        if !a.source.same(&b.source) {
            return text_precedes(a.source.as_str(), b.source.as_str());
        }
        proof {
            lemma_lex_irreflexive(a.source@);
        }
        if !a.target.same(&b.target) {
            return text_precedes(a.target.as_str(), b.target.as_str());
        }
        proof {
            lemma_lex_irreflexive(a.target@);
        }
        a.kind.rank() < b.kind.rank()
    }

    /// Rejects prohibited readiness cycles while allowing informational cycles.
    ///
    /// A readiness edge with a missing endpoint is refused first (the least
    /// such edge by source, target and kind). On a cycle the error lists, in
    /// stable id order, one strongly connected set of controls that holds a
    /// cycle.
    pub fn validate_readiness(&self) -> (r: Result<(), ConstructionProjectError>)
        requires
            nodes_unique(self.nodes@),
        ensures
            !readiness_endpoints_present(self.nodes@, self.edges@) ==> (r matches Err(e) && dangling_refusal(
                self.nodes@,
                self.edges@,
                e,
            )),
            readiness_endpoints_present(self.nodes@, self.edges@) ==> (r is Ok <==> readiness_acyclic(self.edges@)),
            readiness_endpoints_present(self.nodes@, self.edges@) ==> (r matches Err(e) ==> (e matches ConstructionProjectError::ControlGraphCycle { cycle }
                && is_cycle_report(self.nodes@, self.edges@, cycle@))),
    {
        match self.least_dangling_edge() {
            Some(k) => {
                let e = &self.edges[k];
                let err = if self.node_index(&e.source).is_none() {
                    ConstructionProjectError::ControlGraphMissingEndpoint {
                        edge: e.kind.label(),
                        endpoint_role: "source",
                        endpoint: e.source.clone(),
                    }
                } else {
                    ConstructionProjectError::ControlGraphMissingEndpoint {
                        edge: e.kind.label(),
                        endpoint_role: "target",
                        endpoint: e.target.clone(),
                    }
                };
                proof {
                    assert(least_dangling(self.nodes@, self.edges@, k as int));
                    assert(endpoint_refusal(self.nodes@, self.edges@[k as int], err));
                }
                return Err(err);
            },
            None => {},
        }
        let ghost edges = self.edges@;
        let ghost nodes = self.nodes@;
        let mut i: usize = 0;
        while i < self.nodes.len()
            invariant
                edges == self.edges@,
                nodes == self.nodes@,
                readiness_endpoints_present(nodes, edges),
                i <= nodes.len(),
                forall|j: int| 0 <= j < i ==> !reaches(edges, EdgeScope::Readiness, (#[trigger] nodes[j]).id@, nodes[j].id@),
            decreases self.nodes.len() - i,
        {
            let id = &self.nodes[i].id;
            let forward = self.closure(id, EdgeScope::Readiness, true);
            if contains_id(&forward, id) {
                let backward = self.closure(id, EdgeScope::Readiness, false);
                let cycle = common_ids(&forward, &backward);
                proof {
                    let v = id@;
                    assert(reaches(edges, EdgeScope::Readiness, v, v));
                    lemma_acyclic_self_reach(edges, v);
                    assert forall|t: Seq<char>| #[trigger] id_set(cycle@).contains(t) <==> (reaches(edges, EdgeScope::Readiness, v, t)
                        && reaches(edges, EdgeScope::Readiness, t, v)) by {
                        lemma_reaches_backward(edges, EdgeScope::Readiness, v, t);
                    }
                    assert(id_set(cycle@).contains(v)) by {
                        lemma_reaches_backward(edges, EdgeScope::Readiness, v, v);
                    }
                    assert forall|x: int| 0 <= x < cycle@.len() implies has_node(nodes, (#[trigger] cycle@[x])@) by {
                        assert(id_views(cycle@)[x] == cycle@[x]@);
                        assert(id_set(cycle@).contains(cycle@[x]@));
                        lemma_reach_ends_at_node(nodes, edges, v, cycle@[x]@);
                    }
                }
                return Err(ConstructionProjectError::ControlGraphCycle { cycle });
            }
            i = i + 1;
        }
        proof {
            lemma_self_reach_free_acyclic(nodes, edges);
        }
        Ok(())
    }
}

/// Ids of a sorted list that another list also holds, in id order.
fn common_ids(a: &Vec<ControlId>, b: &Vec<ControlId>) -> (r: Vec<ControlId>)
    requires
        ids_sorted(a@),
    ensures
        ids_sorted(r@),
        forall|t: Seq<char>| #[trigger] id_set(r@).contains(t) <==> id_set(a@).contains(t) && id_set(b@).contains(t),
{
    let mut r: Vec<ControlId> = Vec::new();
    let mut k: usize = 0;
    proof {
        assert(id_set(r@) =~= Set::empty());
    }
    while k < a.len()
        invariant
            k <= a@.len(),
            ids_sorted(r@),
            forall|t: Seq<char>| #[trigger] id_set(r@).contains(t) <==> (exists|j: int| 0 <= j < k && (#[trigger] a@[j])@ == t)
                && id_set(b@).contains(t),
        decreases a.len() - k,
    {
        if contains_id(b, &a[k]) {
            insert_id(&mut r, a[k].clone());
        }
        proof {
            assert forall|t: Seq<char>| #[trigger] id_set(r@).contains(t) <==> (exists|j: int| 0 <= j < k + 1 && (#[trigger] a@[j])@ == t)
                && id_set(b@).contains(t) by {
                if exists|j: int| 0 <= j < k + 1 && (#[trigger] a@[j])@ == t {
                    let j = choose|j: int| 0 <= j < k + 1 && (#[trigger] a@[j])@ == t;
                    if j < k {
                        assert(exists|j2: int| 0 <= j2 < k && (#[trigger] a@[j2])@ == t);
                    }
                }
                if (exists|j: int| 0 <= j < k && (#[trigger] a@[j])@ == t) {
                    let j = choose|j: int| 0 <= j < k && (#[trigger] a@[j])@ == t;
                    assert(0 <= j < k + 1);
                }
            }
        }
        k = k + 1;
    }
    proof {
        assert forall|t: Seq<char>| #[trigger] id_set(r@).contains(t) <==> id_set(a@).contains(t) && id_set(b@).contains(t) by {
            if id_set(a@).contains(t) {
                let j = choose|j: int| 0 <= j < id_views(a@).len() && id_views(a@)[j] == t;
                assert(a@[j]@ == t);
            }
            if exists|j: int| 0 <= j < a@.len() && (#[trigger] a@[j])@ == t {
                let j = choose|j: int| 0 <= j < a@.len() && (#[trigger] a@[j])@ == t;
                assert(id_views(a@)[j] == t);
            }
        }
    }
    r
}

/// A control that reaches itself rules out a topological ranking.
proof fn lemma_acyclic_self_reach(edges: Seq<ControlEdge>, v: Seq<char>)
    requires
        reaches(edges, EdgeScope::Readiness, v, v),
    ensures
        !readiness_acyclic(edges),
{
    if readiness_acyclic(edges) {
        lemma_acyclic_no_self_reach(edges, v);
    }
}

/// A walk ends at a node of a well-formed graph.
proof fn lemma_reach_ends_at_node(nodes: Seq<ControlNode>, edges: Seq<ControlEdge>, a: Seq<char>, t: Seq<char>)
    requires
        readiness_endpoints_present(nodes, edges),
        reaches(edges, EdgeScope::Readiness, a, t),
    ensures
        has_node(nodes, t),
        has_node(nodes, a),
{
    let p = choose|p: Seq<Seq<char>>| #[trigger] is_walk(edges, EdgeScope::Readiness, true, p) && p.len() >= 2 && p[0] == a && p.last() == t;
    assert(linked(edges, EdgeScope::Readiness, true, p[p.len() - 2], p[p.len() - 1]));
    let k = choose|k: int| 0 <= k < edges.len() && scope_admits(EdgeScope::Readiness, (#[trigger] edges[k]).kind)
        && edges[k].source@ == p[p.len() - 2] && edges[k].target@ == p[p.len() - 1];
    assert(has_node(nodes, edges[k].target@));
    assert(linked(edges, EdgeScope::Readiness, true, p[0], p[1]));
    let k0 = choose|k0: int| 0 <= k0 < edges.len() && scope_admits(EdgeScope::Readiness, (#[trigger] edges[k0]).kind)
        && edges[k0].source@ == p[0] && edges[k0].target@ == p[1];
    assert(has_node(nodes, edges[k0].source@));
}

/// A readiness edge extends a walk.
proof fn lemma_reach_extend(edges: Seq<ControlEdge>, y: Seq<char>, a: Seq<char>, k: int)
    requires
        0 <= k < edges.len(),
        propagates(edges[k].kind),
        edges[k].source@ == a,
        y == a || reaches(edges, EdgeScope::Readiness, y, a),
    ensures
        reaches(edges, EdgeScope::Readiness, y, edges[k].target@),
{
    let b = edges[k].target@;
    assert(linked(edges, EdgeScope::Readiness, true, a, b));
    if y == a {
        let q = seq![a, b];
        assert(is_walk(edges, EdgeScope::Readiness, true, q)) by {
            assert forall|i: int| 0 <= i < q.len() - 1 implies linked(edges, EdgeScope::Readiness, true, #[trigger] q[i], q[i + 1]) by {
                assert(q[0] == a && q[1] == b);
            }
        }
        assert(q.last() == b);
    } else {
        let p = choose|p: Seq<Seq<char>>| #[trigger] is_walk(edges, EdgeScope::Readiness, true, p) && p.len() >= 2 && p[0] == y && p.last() == a;
        let q = p.push(b);
        assert(is_walk(edges, EdgeScope::Readiness, true, q)) by {
            assert forall|i: int| 0 <= i < q.len() - 1 implies linked(edges, EdgeScope::Readiness, true, #[trigger] q[i], q[i + 1]) by {
                if i < p.len() - 1 {
                    assert(q[i] == p[i] && q[i + 1] == p[i + 1]);
                } else {
                    assert(q[i] == a && q[i + 1] == b);
                }
            }
        }
        assert(q[0] == y && q.last() == b);
    }
}

/// Controls that reach a control, among the node ids.
pub open spec fn ancestors(nodes: Seq<ControlNode>, edges: Seq<ControlEdge>, x: Seq<char>) -> Set<Seq<char>> {
    nodes.map_values(|n: ControlNode| n.id@).to_set().filter(|y: Seq<char>| reaches(edges, EdgeScope::Readiness, y, x))
}

/// When no control reaches itself, counting ancestors ranks every readiness edge.
proof fn lemma_self_reach_free_acyclic(nodes: Seq<ControlNode>, edges: Seq<ControlEdge>)
    requires
        readiness_endpoints_present(nodes, edges),
        forall|j: int| 0 <= j < nodes.len() ==> !reaches(edges, EdgeScope::Readiness, (#[trigger] nodes[j]).id@, nodes[j].id@),
    ensures
        readiness_acyclic(edges),
{
    let ids = nodes.map_values(|n: ControlNode| n.id@).to_set();
    broadcast use vstd::seq_lib::seq_to_set_is_finite;
    assert(ids.finite());
    let rf = |x: Seq<char>| ancestors(nodes, edges, x).len() as int;
    assert forall|k: int| 0 <= k < edges.len() && propagates((#[trigger] edges[k]).kind) implies rf(edges[k].source@) < rf(edges[k].target@) by {
        let a = edges[k].source@;
        let b = edges[k].target@;
        let sa = ancestors(nodes, edges, a);
        let sb = ancestors(nodes, edges, b);
        assert(has_node(nodes, a));
        let ja = choose|j: int| 0 <= j < nodes.len() && (#[trigger] nodes[j]).id@ == a;
        assert(nodes.map_values(|n: ControlNode| n.id@)[ja] == a);
        assert(ids.contains(a));
        assert forall|y: Seq<char>| #[trigger] sa.contains(y) implies sb.contains(y) by {
            lemma_reach_extend(edges, y, a, k);
        }
        lemma_reach_extend(edges, a, a, k);
        assert(sb.contains(a));
        assert(!sa.contains(a));
        lemma_len_subset(sb, ids);
        lemma_len_subset(sa.insert(a), sb);
        lemma_len_subset(sa, ids);
    }
    assert(ranks_readiness(edges, rf));
}






/// Along a readiness walk the rank strictly increases.
pub proof fn lemma_walk_rank(edges: Seq<ControlEdge>, rf: spec_fn(Seq<char>) -> int, p: Seq<Seq<char>>, i: int)
    requires
        ranks_readiness(edges, rf),
        is_walk(edges, EdgeScope::Readiness, true, p),
        0 < i < p.len(),
    ensures
        rf(p[0]) < rf(p[i]),
    decreases i,
{
    assert(linked(edges, EdgeScope::Readiness, true, p[i - 1], p[i]));
    let k = choose|k: int| 0 <= k < edges.len() && scope_admits(EdgeScope::Readiness, (#[trigger] edges[k]).kind)
        && edges[k].source@ == p[i - 1] && edges[k].target@ == p[i];
    assert(propagates(edges[k].kind));
    if i > 1 {
        lemma_walk_rank(edges, rf, p, i - 1);
    }
}

/// Without readiness cycles no control reaches itself.
pub proof fn lemma_acyclic_no_self_reach(edges: Seq<ControlEdge>, a: Seq<char>)
    requires
        readiness_acyclic(edges),
    ensures
        !reaches(edges, EdgeScope::Readiness, a, a),
{
    if reaches(edges, EdgeScope::Readiness, a, a) {
        let rf = choose|rf: spec_fn(Seq<char>) -> int| #[trigger] ranks_readiness(edges, rf);
        let p = choose|p: Seq<Seq<char>>| #[trigger] is_walk(edges, EdgeScope::Readiness, true, p) && p.len() >= 2 && p[0] == a && p.last() == a;
        lemma_walk_rank(edges, rf, p, p.len() - 1);
    }
}

/// `kd` is the earliest-declared kind among the readiness edges from `a` to `b`.
pub open spec fn is_least_kind(edges: Seq<ControlEdge>, a: Seq<char>, b: Seq<char>, kd: ControlEdgeKind) -> bool {
    &&& exists|k: int| 0 <= k < edges.len() && propagates((#[trigger] edges[k]).kind) && edge_is(edges[k], a, b, kd)
    &&& forall|k: int| 0 <= k < edges.len() && propagates((#[trigger] edges[k]).kind) && edges[k].source@ == a
        && edges[k].target@ == b ==> edge_rank(kd) <= edge_rank(edges[k].kind)
}

/// One evidence-aware explanation step along a control path.
#[derive(Debug, PartialEq, Eq)]
pub struct ControlExplanationStep {
    /// Control id reached by this step.
    pub control: ControlId,
    /// Current fact sequence at the evaluated snapshot.
    pub current_seq: Option<u64>,
    /// Evidence state used for this control.
    pub evidence_state: EvidenceState,
    /// Edge kind used to enter this control; absent on the path root.
    pub edge_kind: Option<ControlEdgeKind>,
    /// Applied exception, when one covers this control.
    pub exception: Option<ControlId>,
}

/// Stable explanation path through the control graph.
#[derive(Debug, PartialEq, Eq)]
pub struct ControlExplanationPath {
    /// Blocking source control.
    pub blocker: ControlId,
    /// Target control being explained.
    pub target: ControlId,
    /// Path steps from blocker to target.
    pub steps: Vec<ControlExplanationStep>,
}

impl Clone for ControlExplanationStep {
    fn clone(&self) -> (r: Self)
        ensures
            r == *self,
    {
        let exception = match &self.exception {
            Some(c) => Some(c.clone()),
            None => None,
        };
        ControlExplanationStep {
            control: self.control.clone(),
            current_seq: self.current_seq,
            evidence_state: self.evidence_state,
            edge_kind: self.edge_kind,
            exception,
        }
    }
}

impl Clone for ControlExplanationPath {
    fn clone(&self) -> (r: Self)
        ensures
            r.blocker == self.blocker,
            r.target == self.target,
            r.steps@ == self.steps@,
    {
        let steps = self.steps.clone();
        assert(steps@ =~= self.steps@);
        ControlExplanationPath { blocker: self.blocker.clone(), target: self.target.clone(), steps }
    }
}

/// Derived graph analysis for one target control.
#[derive(Debug, PartialEq, Eq)]
pub struct ControlGraphAnalysis {
    /// Unsatisfied prerequisites that can reach the target.
    pub transitive_blockers: Vec<ControlId>,
    /// Controls downstream from the target.
    pub affected_dependents: Vec<ControlId>,
    /// Minimal unsatisfied prerequisite frontier.
    pub critical_prerequisite_cut: Vec<ControlId>,
    /// Stable explanation paths from blockers to the target.
    pub explanation_paths: Vec<ControlExplanationPath>,
}

/// `path` walks readiness edges from its blocker to its target, each step
/// carrying what the evidence and exception lookups answered for it, and no
/// readiness walk between them is shorter.
pub open spec fn explains<G, H>(edges: Seq<ControlEdge>, evidence: G, exception: H, path: ControlExplanationPath) -> bool where
    G: Fn(&ControlId) -> (Option<u64>, EvidenceState),
    H: Fn(&ControlId) -> Option<ControlId>,
 {
    let st = path.steps@;
    &&& st.len() >= 2
    &&& st[0].control@ == path.blocker@
    &&& st.last().control@ == path.target@
    &&& st[0].edge_kind is None
    &&& forall|i: int| 0 < i < st.len() ==> linked(edges, EdgeScope::Readiness, true, (#[trigger] st[i - 1]).control@, st[i].control@)
        && (st[i].edge_kind matches Some(kd) && is_least_kind(edges, st[i - 1].control@, st[i].control@, kd))
    &&& forall|i: int| 0 <= i < st.len() ==> call_ensures(evidence, (&(#[trigger] st[i]).control,), (st[i].current_seq, st[i].evidence_state))
        && call_ensures(exception, (&st[i].control,), st[i].exception)
    &&& forall|q: Seq<Seq<char>>| #[trigger] is_walk(edges, EdgeScope::Readiness, true, q) && q[0] == path.blocker@
        && q.last() == path.target@ ==> st.len() <= q.len()
}

/// The analysis of `target`: its blockers, dependents, cut and explanations.
pub open spec fn analysis_holds<F, G, H>(
    edges: Seq<ControlEdge>,
    target: Seq<char>,
    blocks: F,
    evidence: G,
    exception: H,
    a: ControlGraphAnalysis,
) -> bool where
    F: Fn(&ControlId) -> bool,
    G: Fn(&ControlId) -> (Option<u64>, EvidenceState),
    H: Fn(&ControlId) -> Option<ControlId>,
 {
    let bl = a.transitive_blockers@;
    &&& ids_sorted(bl)
    &&& forall|i: int| 0 <= i < bl.len() ==> reaches(edges, EdgeScope::Readiness, (#[trigger] bl[i])@, target)
        && call_ensures(blocks, (&bl[i],), true)
    &&& forall|t: Seq<char>| reaches(edges, EdgeScope::Readiness, t, target) && !(#[trigger] id_set(bl).contains(t))
        ==> exists|c: ControlId| c@ == t && #[trigger] call_ensures(blocks, (&c,), false)
    &&& ids_sorted(a.affected_dependents@)
    &&& forall|t: Seq<char>| #[trigger] id_set(a.affected_dependents@).contains(t) <==> reaches(edges, EdgeScope::Readiness, target, t)
    &&& ids_sorted(a.critical_prerequisite_cut@)
    &&& forall|t: Seq<char>| #[trigger] id_set(a.critical_prerequisite_cut@).contains(t) <==> (id_set(bl).contains(t)
        && !exists|o: Seq<char>| id_set(bl).contains(o) && o != t && #[trigger] reaches(edges, EdgeScope::Readiness, o, t))
    &&& a.explanation_paths@.len() == bl.len()
    &&& forall|i: int| 0 <= i < bl.len() ==> (#[trigger] a.explanation_paths@[i]).blocker@ == bl[i]@
        && a.explanation_paths@[i].target@ == target
        && explains(edges, evidence, exception, a.explanation_paths@[i])
}

impl ControlGraph {
    fn position_of(v: &Vec<ControlId>, x: &ControlId) -> (r: Option<usize>)
        ensures
            r matches Some(i) ==> i < v@.len() && v@[i as int]@ == x@,
            r is None ==> forall|i: int| 0 <= i < v@.len() ==> (#[trigger] v@[i])@ != x@,
    {
        let mut i: usize = 0;
        while i < v.len()
            invariant
                i <= v@.len(),
                forall|j: int| 0 <= j < i ==> (#[trigger] v@[j])@ != x@,
            decreases v.len() - i,
        {
            if v[i].same(x) {
                return Some(i);
            }
            i = i + 1;
        }
        None
    }

}

/// Position `x + 1` of `rev` is the parent of position `x`.
/// Breadth-first distances: zero at the start, one more than the parent,
/// never decreasing in visiting order.
pub open spec fn bfs_dist_ok(parent: Seq<usize>, dist: Seq<int>) -> bool {
    &&& dist.len() == parent.len()
    &&& dist.len() >= 1
    &&& dist[0] == 0
    &&& forall|j: int| 1 <= j < dist.len() ==> #[trigger] dist[j] == dist[parent[j] as int] + 1
    &&& forall|i: int, j: int| 0 <= i < j < dist.len() ==> #[trigger] dist[i] <= #[trigger] dist[j]
}

/// `x` was visited at a distance of at most `d`.
pub open spec fn found_within(visited: Seq<ControlId>, dist: Seq<int>, x: Seq<char>, d: int) -> bool {
    exists|i: int| 0 <= i < visited.len() && i < dist.len() && (#[trigger] visited[i])@ == x && dist[i] <= d
}

/// Every readiness successor of visited control `j` was visited at most one step further.
pub open spec fn settled(edges: Seq<ControlEdge>, visited: Seq<ControlId>, dist: Seq<int>, j: int) -> bool {
    forall|k: int| 0 <= k < edges.len() && propagates((#[trigger] edges[k]).kind) && edges[k].source@ == visited[j]@
        ==> found_within(visited, dist, edges[k].target@, dist[j] + 1)
}

proof fn lemma_found_within_push(visited: Seq<ControlId>, dist: Seq<int>, x: Seq<char>, d: int, c: ControlId, e: int)
    requires
        found_within(visited, dist, x, d),
    ensures
        found_within(visited.push(c), dist.push(e), x, d),
{
    let i = choose|i: int| 0 <= i < visited.len() && i < dist.len() && (#[trigger] visited[i])@ == x && dist[i] <= d;
    assert(visited.push(c)[i] == visited[i] && dist.push(e)[i] == dist[i]);
}

proof fn lemma_found_within_weaken(visited: Seq<ControlId>, dist: Seq<int>, x: Seq<char>, d: int, e: int)
    requires
        found_within(visited, dist, x, d),
        d <= e,
    ensures
        found_within(visited, dist, x, e),
{
    let i = choose|i: int| 0 <= i < visited.len() && i < dist.len() && (#[trigger] visited[i])@ == x && dist[i] <= d;
    assert(dist[i] <= e);
}

/// Every control on a readiness walk from the start was visited no further
/// than its position on the walk.
proof fn lemma_walk_found(edges: Seq<ControlEdge>, visited: Seq<ControlId>, dist: Seq<int>, q: Seq<Seq<char>>, i: int)
    requires
        dist.len() == visited.len(),
        visited.len() >= 1,
        dist[0] == 0,
        forall|j: int| 0 <= j < visited.len() ==> #[trigger] settled(edges, visited, dist, j),
        is_walk(edges, EdgeScope::Readiness, true, q),
        q[0] == visited[0]@,
        0 <= i < q.len(),
    ensures
        found_within(visited, dist, q[i], i),
    decreases i,
{
    if i == 0 {
        assert(visited[0]@ == q[0]);
    } else {
        lemma_walk_found(edges, visited, dist, q, i - 1);
        let j = choose|j: int| 0 <= j < visited.len() && j < dist.len() && (#[trigger] visited[j])@ == q[i - 1] && dist[j] <= i - 1;
        assert(linked(edges, EdgeScope::Readiness, true, q[i - 1], q[i]));
        let k = choose|k: int| 0 <= k < edges.len() && scope_admits(EdgeScope::Readiness, (#[trigger] edges[k]).kind)
            && edges[k].source@ == q[i - 1] && edges[k].target@ == q[i];
        assert(settled(edges, visited, dist, j));
        assert(propagates(edges[k].kind));
        lemma_found_within_weaken(visited, dist, q[i], dist[j] + 1, i);
    }
}

proof fn lemma_bfs_push(
    edges: Seq<ControlEdge>,
    before: Seq<ControlId>,
    old_dist: Seq<int>,
    old_parent: Seq<usize>,
    head: usize,
    k: int,
    c: ControlId,
)
    requires
        bfs_dist_ok(old_parent, old_dist),
        old_parent.len() == before.len(),
        forall|j: int| 1 <= j < old_parent.len() ==> #[trigger] old_parent[j] < j,
        (head as int) < before.len(),
        old_dist[before.len() - 1] <= old_dist[head as int] + 1,
        forall|j: int| 0 <= j < head as int ==> #[trigger] settled(edges, before, old_dist, j),
        forall|q: int| 0 <= q < k && propagates((#[trigger] edges[q]).kind) && edges[q].source@ == before[head as int]@
            ==> found_within(before, old_dist, edges[q].target@, old_dist[head as int] + 1),
        0 <= k < edges.len(),
        edges[k].target@ == c@,
    ensures
        ({
            let nv = before.push(c);
            let nd = old_dist.push(old_dist[head as int] + 1);
            let np = old_parent.push(head);
            &&& bfs_dist_ok(np, nd)
            &&& nd[nv.len() - 1] <= nd[head as int] + 1
            &&& forall|j: int| 0 <= j < head as int ==> #[trigger] settled(edges, nv, nd, j)
            &&& forall|q: int| 0 <= q < k + 1 && propagates((#[trigger] edges[q]).kind) && edges[q].source@ == nv[head as int]@
                ==> found_within(nv, nd, edges[q].target@, nd[head as int] + 1)
        }),
{
    let nv = before.push(c);
    let nd = old_dist.push(old_dist[head as int] + 1);
    let np = old_parent.push(head);
    assert forall|i: int, j: int| 0 <= i < j < nd.len() implies #[trigger] nd[i] <= #[trigger] nd[j] by {
        if j == nd.len() - 1 && i < before.len() - 1 {
            assert(old_dist[i] <= old_dist[before.len() - 1]);
        }
    }
    assert forall|j: int| 1 <= j < nd.len() implies #[trigger] nd[j] == nd[np[j] as int] + 1 by {
        if j < before.len() {
            assert(np[j] == old_parent[j]);
        }
    }
    assert forall|j: int| 0 <= j < head as int implies #[trigger] settled(edges, nv, nd, j) by {
        assert(settled(edges, before, old_dist, j));
        assert(nv[j] == before[j]);
        assert forall|q: int| 0 <= q < edges.len() && propagates((#[trigger] edges[q]).kind) && edges[q].source@ == nv[j]@
            implies found_within(nv, nd, edges[q].target@, nd[j] + 1) by {
            lemma_found_within_push(before, old_dist, edges[q].target@, old_dist[j] + 1, c, old_dist[head as int] + 1);
        }
    }
    assert forall|q: int| 0 <= q < k + 1 && propagates((#[trigger] edges[q]).kind) && edges[q].source@ == nv[head as int]@
        implies found_within(nv, nd, edges[q].target@, nd[head as int] + 1) by {
        if q < k {
            lemma_found_within_push(before, old_dist, edges[q].target@, old_dist[head as int] + 1, c, old_dist[head as int] + 1);
        } else {
            assert(nv[before.len() as int]@ == c@);
        }
    }
}

proof fn lemma_bfs_advance(edges: Seq<ControlEdge>, visited: Seq<ControlId>, dist: Seq<int>, parent: Seq<usize>, head: int)
    requires
        bfs_dist_ok(parent, dist),
        parent.len() == visited.len(),
        0 <= head < visited.len(),
        dist[visited.len() - 1] <= dist[head] + 1,
        forall|q: int| 0 <= q < edges.len() && propagates((#[trigger] edges[q]).kind) && edges[q].source@ == visited[head]@
            ==> found_within(visited, dist, edges[q].target@, dist[head] + 1),
    ensures
        settled(edges, visited, dist, head),
        head + 1 < visited.len() ==> dist[visited.len() - 1] <= dist[head + 1] + 1,
{
    if head + 1 < visited.len() {
        assert(dist[head] <= dist[head + 1]);
    }
}

/// Along a parent chain the distance drops by one at each step, to zero.
proof fn lemma_chain_dist(parent: Seq<usize>, dist: Seq<int>, rev: Seq<usize>, x: int)
    requires
        bfs_dist_ok(parent, dist),
        rev.len() >= 1,
        rev.last() == 0,
        forall|y: int| 0 <= y < rev.len() ==> #[trigger] rev[y] < parent.len(),
        forall|y: int| 0 <= y < rev.len() - 1 ==> #[trigger] chain_step(parent, rev, y),
        0 <= x < rev.len(),
    ensures
        dist[rev[x] as int] == rev.len() - 1 - x,
    decreases rev.len() - x,
{
    if x < rev.len() - 1 {
        lemma_chain_dist(parent, dist, rev, x + 1);
        assert(chain_step(parent, rev, x));
    }
}

pub open spec fn chain_step(parent: Seq<usize>, rev: Seq<usize>, x: int) -> bool {
    rev[x] >= 1 && rev[x + 1] == parent[rev[x] as int]
}

impl ControlGraph {
    /// Follows parent links from `t` down to position 0.
    fn parent_chain(parent: &Vec<usize>, t: usize) -> (rev: Vec<usize>)
        requires
            t < parent@.len(),
            forall|x: int| 1 <= x < parent@.len() ==> #[trigger] parent@[x] < x,
        ensures
            rev@.len() >= 1,
            rev@[0] == t,
            rev@.last() == 0,
            forall|x: int| 0 <= x < rev@.len() ==> #[trigger] rev@[x] < parent@.len(),
            forall|x: int| 0 <= x < rev@.len() - 1 ==> #[trigger] chain_step(parent@, rev@, x),
    {
        let mut rev: Vec<usize> = Vec::new();
        rev.push(t);
        let mut j = t;
        while j != 0
            invariant
                forall|x: int| 1 <= x < parent@.len() ==> #[trigger] parent@[x] < x,
                j < parent@.len(),
                rev@.len() >= 1,
                rev@[0] == t,
                rev@.last() == j,
                forall|x: int| 0 <= x < rev@.len() ==> #[trigger] rev@[x] < parent@.len(),
                forall|x: int| 0 <= x < rev@.len() - 1 ==> #[trigger] chain_step(parent@, rev@, x),
            decreases j,
        {
            let ghost before = rev@;
            let ghost jold = j;
            j = parent[j];
            rev.push(j);
            proof {
                assert forall|x: int| 0 <= x < rev@.len() - 1 implies #[trigger] chain_step(parent@, rev@, x) by {
                    if x < before.len() - 1 {
                        assert(chain_step(parent@, before, x));
                        assert(rev@[x] == before[x] && rev@[x + 1] == before[x + 1]);
                    } else {
                        assert(rev@[x] == jold);
                    }
                }
            }
        }
        rev
    }

    /// A readiness path from `from` to `to`, found breadth first.
    #[verifier::rlimit(100)]
    #[verifier::spinoff_prover]
    fn path_between(&self, from: &ControlId, to: &ControlId) -> (p: Vec<ControlId>)
        requires
            reaches(self.edges@, EdgeScope::Readiness, from@, to@),
            from@ != to@,
        ensures
            p@.len() >= 2,
            p@[0]@ == from@,
            p@.last()@ == to@,
            forall|i: int| 0 < i < p@.len() ==> linked(self.edges@, EdgeScope::Readiness, true, (#[trigger] p@[i - 1])@, p@[i]@),
            forall|q: Seq<Seq<char>>| #[trigger] is_walk(self.edges@, EdgeScope::Readiness, true, q) && q[0] == from@
                && q.last() == to@ ==> p@.len() <= q.len(),
    {
        let ghost edges = self.edges@;
        let ghost pool = edges.map_values(|e: ControlEdge| e.target@).push(from@);
        let ghost mut dist: Seq<int> = seq![0];
        let mut visited: Vec<ControlId> = Vec::new();
        let mut parent: Vec<usize> = Vec::new();
        visited.push(from.clone());
        parent.push(0);
        let mut head: usize = 0;
        proof {
            assert(id_views(visited@).no_duplicates());
            assert(id_views(visited@)[0] == from@);
            assert(pool[pool.len() - 1] == from@);
            assert(id_views(visited@).to_set().subset_of(pool.to_set()));
        }
        while head < visited.len()
            invariant
                edges == self.edges@,
                pool == edges.map_values(|e: ControlEdge| e.target@).push(from@),
                visited@.len() >= 1,
                visited@[0]@ == from@,
                parent@.len() == visited@.len(),
                forall|j: int| 1 <= j < visited@.len() ==> #[trigger] parent@[j] < j
                    && linked(edges, EdgeScope::Readiness, true, visited@[parent@[j] as int]@, visited@[j]@),
                id_views(visited@).no_duplicates(),
                id_views(visited@).to_set().subset_of(pool.to_set()),
                head <= visited@.len(),
                bfs_dist_ok(parent@, dist),
                head < visited@.len() ==> dist[visited@.len() - 1] <= dist[head as int] + 1,
                forall|j: int| 0 <= j < head ==> #[trigger] settled(edges, visited@, dist, j),
            decreases pool.len() - head,
        {
            proof {
                id_views(visited@).unique_seq_to_set();
                pool.lemma_cardinality_of_set();
                lemma_len_subset(id_views(visited@).to_set(), pool.to_set());
            }
            let mut k: usize = 0;
            while k < self.edges.len()
                invariant
                    edges == self.edges@,
                    pool == edges.map_values(|e: ControlEdge| e.target@).push(from@),
                    head < visited@.len(),
                    visited@.len() >= 1,
                    visited@[0]@ == from@,
                    parent@.len() == visited@.len(),
                    forall|j: int| 1 <= j < visited@.len() ==> #[trigger] parent@[j] < j
                        && linked(edges, EdgeScope::Readiness, true, visited@[parent@[j] as int]@, visited@[j]@),
                    id_views(visited@).no_duplicates(),
                    id_views(visited@).to_set().subset_of(pool.to_set()),
                    k <= edges.len(),
                    bfs_dist_ok(parent@, dist),
                    dist[visited@.len() - 1] <= dist[head as int] + 1,
                    forall|j: int| 0 <= j < head ==> #[trigger] settled(edges, visited@, dist, j),
                    forall|q: int| 0 <= q < k && propagates((#[trigger] edges[q]).kind) && edges[q].source@ == visited@[head as int]@
                        ==> found_within(visited@, dist, edges[q].target@, dist[head as int] + 1),
                decreases edges.len() - k,
            {
                let e = &self.edges[k];
                if e.kind.propagates_readiness() && e.source.same(&visited[head]) {
                    match Self::position_of(&visited, &e.target) {
                        Some(_) => {
                            proof {
                                let i = choose|i: int| 0 <= i < visited@.len() && (#[trigger] visited@[i])@ == e.target@;
                                assert(id_views(visited@)[i] == e.target@);
                                if i < visited@.len() - 1 {
                                    assert(dist[i] <= dist[visited@.len() - 1]);
                                }
                                assert(found_within(visited@, dist, e.target@, dist[head as int] + 1));
                            }
                        },
                        None => {
                            let ghost before = visited@;
                            let ghost tv = e.target@;
                            proof {
                                assert(linked(edges, EdgeScope::Readiness, true, visited@[head as int]@, tv));
                                assert(pool[k as int] == tv);
                            }
                            let ghost old_dist = dist;
                            let ghost old_parent = parent@;
                            visited.push(e.target.clone());
                            parent.push(head);
                            proof {
                                lemma_bfs_push(edges, before, old_dist, old_parent, head, k as int, e.target);
                                dist = old_dist.push(old_dist[head as int] + 1);
                                assert(visited@ =~= before.push(e.target));
                                assert(parent@ =~= old_parent.push(head));
                                assert(id_views(visited@) =~= id_views(before).push(tv));
                                assert forall|x: Seq<char>| id_views(visited@).contains(x) implies id_views(before).contains(x) || x == tv by {
                                    let i = choose|i: int| 0 <= i < id_views(visited@).len() && id_views(visited@)[i] == x;
                                    if i < before.len() {
                                        assert(id_views(before)[i] == x);
                                    }
                                }
                                assert forall|x: Seq<char>| id_views(before).contains(x) implies id_views(visited@).contains(x) by {
                                    let i = choose|i: int| 0 <= i < id_views(before).len() && id_views(before)[i] == x;
                                    assert(id_views(visited@)[i] == x);
                                }
                                assert(id_views(visited@)[before.len() as int] == tv);
                            }
                        },
                    }
                }
                k = k + 1;
            }
            proof {
                lemma_bfs_advance(edges, visited@, dist, parent@, head as int);
            }
            head = head + 1;
        }
        let ghost s = id_views(visited@).to_set();
        proof {
            assert forall|a: Seq<char>, b: Seq<char>| (a == from@ || s.contains(a)) && #[trigger] linked(edges, EdgeScope::Readiness, true, a, b)
                implies s.contains(b) by {
                let k = choose|k: int| 0 <= k < edges.len() && scope_admits(EdgeScope::Readiness, (#[trigger] edges[k]).kind)
                    && edges[k].source@ == a && edges[k].target@ == b;
                let j = if a == from@ { 0 } else { choose|j: int| 0 <= j < id_views(visited@).len() && id_views(visited@)[j] == a };
                assert(visited@[j]@ == a);
                assert(propagates(edges[k].kind));
                assert(settled(edges, visited@, dist, j));
                let i = choose|i: int| 0 <= i < visited@.len() && i < dist.len() && (#[trigger] visited@[i])@ == b && dist[i] <= dist[j] + 1;
                assert(id_views(visited@)[i] == b);
            }
            lemma_closed_holds_reached(edges, EdgeScope::Readiness, true, from@, s, to@);
        }
        let t = Self::position_of(&visited, to).unwrap();
        let rev = Self::parent_chain(&parent, t);
        let mut path: Vec<ControlId> = Vec::new();
        let mut x: usize = rev.len();
        while x > 0
            invariant
                x <= rev@.len(),
                rev@.len() >= 1,
                path@.len() == rev@.len() - x,
                forall|y: int| 0 <= y < rev@.len() ==> #[trigger] rev@[y] < visited@.len(),
                forall|y: int| 0 <= y < path@.len() ==> (#[trigger] path@[y]) == visited@[rev@[rev@.len() - 1 - y] as int],
            decreases x,
        {
            x = x - 1;
            path.push(visited[rev[x]].clone());
        }
        proof {
            assert(visited@[t as int]@ == to@);
            assert(t != 0);
            assert(rev@.len() >= 2) by {
                if rev@.len() == 1 {
                    assert(rev@.last() == t);
                }
            }
            assert(rev@.last() == 0);
            assert(path@[0] == visited@[0]);
            let n = path@.len();
            assert(path@[n - 1] == visited@[rev@[0] as int]);
            assert forall|i: int| 0 < i < path@.len() implies linked(edges, EdgeScope::Readiness, true, (#[trigger] path@[i - 1])@, path@[i]@) by {
                let r = rev@.len() - 1 - i;
                assert(path@[i] == visited@[rev@[r] as int]);
                assert(path@[i - 1] == visited@[rev@[r + 1] as int]);
                assert(chain_step(parent@, rev@, r));
            }
            lemma_chain_dist(parent@, dist, rev@, 0);
            assert(dist[t as int] == path@.len() - 1);
            assert forall|q: Seq<Seq<char>>| #[trigger] is_walk(edges, EdgeScope::Readiness, true, q) && q[0] == from@
                && q.last() == to@ implies path@.len() <= q.len() by {
                lemma_walk_found(edges, visited@, dist, q, q.len() - 1);
                let i = choose|i: int| 0 <= i < visited@.len() && i < dist.len() && (#[trigger] visited@[i])@ == q[q.len() - 1] && dist[i] <= q.len() - 1;
                assert(id_views(visited@)[i] == to@);
                assert(id_views(visited@)[t as int] == to@);
            }
        }
        path
    }

    /// The earliest-declared kind among readiness edges from `a` to `b`.
    fn least_readiness_kind(&self, a: &ControlId, b: &ControlId) -> (r: Option<ControlEdgeKind>)
        ensures
            r is None ==> !linked(self.edges@, EdgeScope::Readiness, true, a@, b@),
            r matches Some(kd) ==> is_least_kind(self.edges@, a@, b@, kd),
    {
        let ghost edges = self.edges@;
        let mut best: Option<ControlEdgeKind> = None;
        let mut k: usize = 0;
        while k < self.edges.len()
            invariant
                edges == self.edges@,
                k <= edges.len(),
                best is None ==> forall|q: int| 0 <= q < k && propagates((#[trigger] edges[q]).kind) ==> !(edges[q].source@ == a@ && edges[q].target@ == b@),
                best matches Some(kd) ==> (exists|q: int| 0 <= q < k && propagates((#[trigger] edges[q]).kind) && edge_is(edges[q], a@, b@, kd))
                    && forall|q: int| 0 <= q < k && propagates((#[trigger] edges[q]).kind) && edges[q].source@ == a@
                        && edges[q].target@ == b@ ==> edge_rank(kd) <= edge_rank(edges[q].kind),
            decreases edges.len() - k,
        {
            let e = &self.edges[k];
            if e.kind.propagates_readiness() && e.source.same(a) && e.target.same(b) {
                match best {
                    None => {
                        best = Some(e.kind);
                    },
                    Some(kd) => {
                        if e.kind.rank() < kd.rank() {
                            best = Some(e.kind);
                        }
                    },
                }
            }
            k = k + 1;
        }
        proof {
            if best is None && linked(edges, EdgeScope::Readiness, true, a@, b@) {
                let q = choose|q: int| 0 <= q < edges.len() && scope_admits(EdgeScope::Readiness, (#[trigger] edges[q]).kind)
                    && edges[q].source@ == a@ && edges[q].target@ == b@;
                assert(propagates(edges[q].kind));
            }
        }
        best
    }

    /// The ids of `upstream` for which `blocks` answers true, in order.
    fn select_blockers<F: Fn(&ControlId) -> bool>(upstream: &Vec<ControlId>, blocks: &F) -> (bl: Vec<ControlId>)
        requires
            ids_sorted(upstream@),
            forall|c: &ControlId| #[trigger] blocks.requires((c,)),
        ensures
            ids_sorted(bl@),
            forall|j: int| 0 <= j < bl@.len() ==> id_set(upstream@).contains((#[trigger] bl@[j])@)
                && call_ensures(*blocks, (&bl@[j],), true),
            forall|j: int| 0 <= j < upstream@.len() && !id_set(bl@).contains((#[trigger] upstream@[j])@)
                ==> call_ensures(*blocks, (&upstream@[j],), false),
    {
        let mut bl: Vec<ControlId> = Vec::new();
        let ghost mut idx: Seq<int> = Seq::empty();
        let mut i: usize = 0;
        while i < upstream.len()
            invariant
                i <= upstream@.len(),
                ids_sorted(upstream@),
                forall|c: &ControlId| #[trigger] blocks.requires((c,)),
                idx.len() == bl@.len(),
                forall|b: int| 0 <= b < bl@.len() ==> 0 <= #[trigger] idx[b] < i && bl@[b] == upstream@[idx[b]],
                forall|a: int, b: int| 0 <= a < b < bl@.len() ==> #[trigger] idx[a] < #[trigger] idx[b],
                forall|j: int| 0 <= j < bl@.len() ==> call_ensures(*blocks, (&(#[trigger] bl@[j]),), true),
                forall|j: int| 0 <= j < i && !id_set(bl@).contains((#[trigger] upstream@[j])@) ==> call_ensures(*blocks, (&upstream@[j],), false),
            decreases upstream.len() - i,
        {
            let c = &upstream[i];
            let ghost before = bl@;
            if blocks(c) {
                bl.push(c.clone());
                proof {
                    idx = idx.push(i as int);
                    assert forall|j: int| 0 <= j < i + 1 && !id_set(bl@).contains((#[trigger] upstream@[j])@) implies call_ensures(*blocks, (&upstream@[j],), false) by {
                        assert(id_views(bl@)[before.len() as int] == c@);
                        if j < i && id_set(before).contains(upstream@[j]@) {
                            let q = choose|q: int| 0 <= q < id_views(before).len() && id_views(before)[q] == upstream@[j]@;
                            assert(id_views(bl@)[q] == upstream@[j]@);
                        }
                    }
                }
            } else {
                proof {
                    assert forall|j: int| 0 <= j < i + 1 && !id_set(bl@).contains((#[trigger] upstream@[j])@) implies call_ensures(*blocks, (&upstream@[j],), false) by {
                    }
                }
            }
            i = i + 1;
        }
        proof {
            assert forall|a: int, b: int| 0 <= a < b < bl@.len() implies crate::order::lex_lt(#[trigger] bl@[a]@, #[trigger] bl@[b]@) by {
                assert(idx[a] < idx[b]);
            }
            assert forall|j: int| 0 <= j < bl@.len() implies id_set(upstream@).contains((#[trigger] bl@[j])@) by {
                assert(id_views(upstream@)[idx[j]] == bl@[j]@);
            }
        }
        bl
    }

    /// The blockers that no other blocker reaches, in stable id order.
    fn frontier(&self, blockers: &Vec<ControlId>) -> (cut: Vec<ControlId>)
        requires
            ids_sorted(blockers@),
        ensures
            ids_sorted(cut@),
            forall|t: Seq<char>| #[trigger] id_set(cut@).contains(t) <==> (id_set(blockers@).contains(t)
                && !exists|o: Seq<char>| id_set(blockers@).contains(o) && o != t && #[trigger] reaches(self.edges@, EdgeScope::Readiness, o, t)),
    {
        let ghost edges = self.edges@;
        let mut cut: Vec<ControlId> = Vec::new();
        proof {
            assert(id_set(cut@) =~= Set::empty());
        }
        let mut i: usize = 0;
        while i < blockers.len()
            invariant
                edges == self.edges@,
                i <= blockers@.len(),
                ids_sorted(cut@),
                forall|t: Seq<char>| #[trigger] id_set(cut@).contains(t) <==> (exists|j: int| 0 <= j < i && (#[trigger] blockers@[j])@ == t)
                    && !exists|o: Seq<char>| id_set(blockers@).contains(o) && o != t && #[trigger] reaches(edges, EdgeScope::Readiness, o, t),
            decreases blockers.len() - i,
        {
            let b = &blockers[i];
            let anc = self.closure(b, EdgeScope::Readiness, false);
            let mut dominated = false;
            let mut j: usize = 0;
            while j < blockers.len()
                invariant
                    edges == self.edges@,
                    j <= blockers@.len(),
                    forall|t: Seq<char>| id_set(anc@).contains(t) <==> reaches_dir(edges, EdgeScope::Readiness, false, b@, t),
                    dominated <==> exists|q: int| 0 <= q < j && (#[trigger] blockers@[q])@ != b@
                        && reaches(edges, EdgeScope::Readiness, blockers@[q]@, b@),
                decreases blockers.len() - j,
            {
                let o = &blockers[j];
                if !o.same(b) && contains_id(&anc, o) {
                    proof {
                        lemma_reaches_backward(edges, EdgeScope::Readiness, b@, o@);
                    }
                    dominated = true;
                }
                proof {
                    lemma_reaches_backward(edges, EdgeScope::Readiness, b@, o@);
                }
                j = j + 1;
            }
            let ghost before = cut@;
            proof {
                assert(dominated <==> exists|o: Seq<char>| id_set(blockers@).contains(o) && o != b@
                    && #[trigger] reaches(edges, EdgeScope::Readiness, o, b@)) by {
                    if exists|o: Seq<char>| id_set(blockers@).contains(o) && o != b@ && #[trigger] reaches(edges, EdgeScope::Readiness, o, b@) {
                        let o = choose|o: Seq<char>| id_set(blockers@).contains(o) && o != b@ && #[trigger] reaches(edges, EdgeScope::Readiness, o, b@);
                        let q = choose|q: int| 0 <= q < id_views(blockers@).len() && id_views(blockers@)[q] == o;
                        assert(blockers@[q]@ == o);
                    }
                    if dominated {
                        let q = choose|q: int| 0 <= q < blockers@.len() && (#[trigger] blockers@[q])@ != b@
                            && reaches(edges, EdgeScope::Readiness, blockers@[q]@, b@);
                        assert(id_views(blockers@)[q] == blockers@[q]@);
                    }
                }
            }
            if !dominated {
                insert_id(&mut cut, b.clone());
            }
            proof {
                assert forall|t: Seq<char>| #[trigger] id_set(cut@).contains(t) <==> (exists|j: int| 0 <= j < i + 1 && (#[trigger] blockers@[j])@ == t)
                    && !exists|o: Seq<char>| id_set(blockers@).contains(o) && o != t && #[trigger] reaches(edges, EdgeScope::Readiness, o, t) by {
                    if id_set(before).contains(t) {
                        let j = choose|j: int| 0 <= j < i && (#[trigger] blockers@[j])@ == t;
                        assert(0 <= j < i + 1);
                    }
                    if exists|j: int| 0 <= j < i + 1 && (#[trigger] blockers@[j])@ == t {
                        let j = choose|j: int| 0 <= j < i + 1 && (#[trigger] blockers@[j])@ == t;
                        if j < i {
                            assert(exists|j: int| 0 <= j < i && (#[trigger] blockers@[j])@ == t);
                        }
                    }
                }
            }
            i = i + 1;
        }
        proof {
            assert forall|t: Seq<char>| #[trigger] id_set(cut@).contains(t) <==> (id_set(blockers@).contains(t)
                && !exists|o: Seq<char>| id_set(blockers@).contains(o) && o != t && #[trigger] reaches(edges, EdgeScope::Readiness, o, t)) by {
                if exists|j: int| 0 <= j < blockers@.len() && (#[trigger] blockers@[j])@ == t {
                    let j = choose|j: int| 0 <= j < blockers@.len() && (#[trigger] blockers@[j])@ == t;
                    assert(id_views(blockers@)[j] == t);
                }
                if id_set(blockers@).contains(t) {
                    let j = choose|j: int| 0 <= j < id_views(blockers@).len() && id_views(blockers@)[j] == t;
                    assert(blockers@[j]@ == t);
                }
            }
        }
        cut
    }

    /// The readiness path from `blocker` to `target`, each step annotated by
    /// the evidence and exception lookups.
    fn explain<G, H>(&self, blocker: &ControlId, target: &ControlId, evidence_state: &G, exception: &H) -> (path: ControlExplanationPath) where
        G: Fn(&ControlId) -> (Option<u64>, EvidenceState),
        H: Fn(&ControlId) -> Option<ControlId>,

        requires
            reaches(self.edges@, EdgeScope::Readiness, blocker@, target@),
            blocker@ != target@,
            forall|c: &ControlId| #[trigger] evidence_state.requires((c,)),
            forall|c: &ControlId| #[trigger] exception.requires((c,)),
        ensures
            path.blocker@ == blocker@,
            path.target@ == target@,
            explains(self.edges@, *evidence_state, *exception, path),
    {
        let ghost edges = self.edges@;
        let p = self.path_between(blocker, target);
        let mut steps: Vec<ControlExplanationStep> = Vec::new();
        let mut i: usize = 0;
        while i < p.len()
            invariant
                edges == self.edges@,
                p@.len() >= 2,
                forall|x: int| 0 < x < p@.len() ==> linked(edges, EdgeScope::Readiness, true, (#[trigger] p@[x - 1])@, p@[x]@),
                forall|c: &ControlId| #[trigger] evidence_state.requires((c,)),
                forall|c: &ControlId| #[trigger] exception.requires((c,)),
                i <= p@.len(),
                steps@.len() == i,
                forall|x: int| 0 <= x < i ==> (#[trigger] steps@[x]).control == p@[x],
                i > 0 ==> steps@[0].edge_kind is None,
                forall|x: int| 0 < x < i ==> ((#[trigger] steps@[x]).edge_kind matches Some(kd) && is_least_kind(edges, p@[x - 1]@, p@[x]@, kd)),
                forall|x: int| 0 <= x < i ==> call_ensures(*evidence_state, (&(#[trigger] steps@[x]).control,), (steps@[x].current_seq, steps@[x].evidence_state))
                    && call_ensures(*exception, (&steps@[x].control,), steps@[x].exception),
            decreases p.len() - i,
        {
            let control = p[i].clone();
            let (current_seq, state) = evidence_state(&control);
            let exc = exception(&control);
            let edge_kind = if i == 0 {
                None
            } else {
                let k = self.least_readiness_kind(&p[i - 1], &p[i]);
                proof {
                    assert(linked(edges, EdgeScope::Readiness, true, p@[i - 1]@, p@[i as int]@));
                }
                k
            };
            steps.push(ControlExplanationStep { control, current_seq, evidence_state: state, edge_kind, exception: exc });
            i = i + 1;
        }
        let path = ControlExplanationPath { blocker: blocker.clone(), target: target.clone(), steps };
        proof {
            let st = path.steps@;
            assert forall|x: int| 0 < x < st.len() implies linked(edges, EdgeScope::Readiness, true, (#[trigger] st[x - 1]).control@, st[x].control@)
                && (st[x].edge_kind matches Some(kd) && is_least_kind(edges, st[x - 1].control@, st[x].control@, kd)) by {
                assert(st[x - 1].control == p@[x - 1]);
                assert(st[x].control == p@[x]);
            }
            assert(st[0].control == p@[0]);
            assert(st[st.len() - 1].control == p@[p@.len() - 1]);
        }
        path
    }

    /// Analyzes blockers and dependents for `target` over readiness edges.
    ///
    /// Blockers are the controls that reach `target` and for which `blocks`
    /// answers true; dependents are the controls `target` reaches; the cut
    /// keeps the blockers that no other blocker reaches; each blocker gets a
    /// shortest readiness path to `target` annotated by `evidence_state` and
    /// `exception`. A dangling readiness edge or a readiness cycle is refused
    /// first, as `validate_readiness` refuses it.
    pub fn analyze_target<F, G, H>(&self, target: &ControlId, blocks: F, evidence_state: G, exception: H) -> (r: Result<ControlGraphAnalysis, ConstructionProjectError>) where
        F: Fn(&ControlId) -> bool,
        G: Fn(&ControlId) -> (Option<u64>, EvidenceState),
        H: Fn(&ControlId) -> Option<ControlId>,

        requires
            nodes_unique(self.nodes@),
            forall|c: &ControlId| #[trigger] blocks.requires((c,)),
            forall|c: &ControlId| #[trigger] evidence_state.requires((c,)),
            forall|c: &ControlId| #[trigger] exception.requires((c,)),
        ensures
            !readiness_endpoints_present(self.nodes@, self.edges@) ==> (r matches Err(e) && dangling_refusal(
                self.nodes@,
                self.edges@,
                e,
            )),
            readiness_endpoints_present(self.nodes@, self.edges@) && !readiness_acyclic(self.edges@) ==> (r matches Err(e)
                && e matches ConstructionProjectError::ControlGraphCycle { cycle } && is_cycle_report(self.nodes@, self.edges@, cycle@)),
            readiness_endpoints_present(self.nodes@, self.edges@) && readiness_acyclic(self.edges@) && !has_node(self.nodes@, target@)
                ==> (r matches Err(e) && e matches ConstructionProjectError::ControlGraphMissingEndpoint { edge, endpoint_role, endpoint }
                && edge == "analysis-target" && endpoint_role == "target" && endpoint@ == target@),
            readiness_endpoints_present(self.nodes@, self.edges@) && readiness_acyclic(self.edges@) && has_node(self.nodes@, target@)
                ==> (r matches Ok(a) && analysis_holds(self.edges@, target@, blocks, evidence_state, exception, a)),
    {
        let ghost edges = self.edges@;
        self.validate_readiness()?;
        if self.node_index(target).is_none() {
            return Err(ConstructionProjectError::ControlGraphMissingEndpoint {
                edge: "analysis-target",
                endpoint_role: "target",
                endpoint: target.clone(),
            });
        }
        let upstream = self.closure(target, EdgeScope::Readiness, false);
        let blockers = Self::select_blockers(&upstream, &blocks);
        let dependents = self.closure(target, EdgeScope::Readiness, true);
        let cut = self.frontier(&blockers);
        proof {
            assert forall|j: int| 0 <= j < blockers@.len() implies reaches(edges, EdgeScope::Readiness, (#[trigger] blockers@[j])@, target@)
                && blockers@[j]@ != target@ by {
                lemma_reaches_backward(edges, EdgeScope::Readiness, target@, blockers@[j]@);
                lemma_acyclic_no_self_reach(edges, target@);
            }
        }
        let mut paths: Vec<ControlExplanationPath> = Vec::new();
        let mut i: usize = 0;
        while i < blockers.len()
            invariant
                edges == self.edges@,
                forall|c: &ControlId| #[trigger] evidence_state.requires((c,)),
                forall|c: &ControlId| #[trigger] exception.requires((c,)),
                forall|j: int| 0 <= j < blockers@.len() ==> reaches(edges, EdgeScope::Readiness, (#[trigger] blockers@[j])@, target@)
                    && blockers@[j]@ != target@,
                i <= blockers@.len(),
                paths@.len() == i,
                forall|j: int| 0 <= j < i ==> (#[trigger] paths@[j]).blocker@ == blockers@[j]@ && paths@[j].target@ == target@
                    && explains(edges, evidence_state, exception, paths@[j]),
            decreases blockers.len() - i,
        {
            let path = self.explain(&blockers[i], target, &evidence_state, &exception);
            paths.push(path);
            i = i + 1;
        }
        let analysis = ControlGraphAnalysis {
            transitive_blockers: blockers,
            affected_dependents: dependents,
            critical_prerequisite_cut: cut,
            explanation_paths: paths,
        };
        proof {
            let bl = analysis.transitive_blockers@;
            assert forall|t: Seq<char>| reaches(edges, EdgeScope::Readiness, t, target@) && !(#[trigger] id_set(bl).contains(t))
                implies exists|c: ControlId| c@ == t && #[trigger] call_ensures(blocks, (&c,), false) by {
                lemma_reaches_backward(edges, EdgeScope::Readiness, target@, t);
                assert(id_set(upstream@).contains(t));
                let j = choose|j: int| 0 <= j < id_views(upstream@).len() && id_views(upstream@)[j] == t;
                assert(upstream@[j]@ == t);
                assert(call_ensures(blocks, (&upstream@[j],), false));
            }
            assert forall|t: Seq<char>| #[trigger] id_set(analysis.affected_dependents@).contains(t) <==> reaches(edges, EdgeScope::Readiness, target@, t) by {
            }
        }
        Ok(analysis)
    }
}

} // verus!
