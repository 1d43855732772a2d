//! Evidence requirements for commissioning and handover, their projection
//! onto the control graph, and exact evidence burn-down.

use vstd::prelude::*;
use crate::control_graph::{
    edge_label, graph_wf, has_edge, has_node, is_cycle_report, node_kind, nodes_unique, readiness_acyclic, ControlEdge, ControlEdgeKind, ControlGraph,
    ControlNode, ControlNodeKind,
};
use crate::error::ConstructionProjectError;
use crate::evidence::EvidenceState;
use crate::handover::{handover_kind_in, in_scope, HandoverHierarchy};
use crate::identity::{ControlId, ProjectId};
use crate::obligation::{ObligationPolicy, ProjectObligation, Requirement};
use crate::order::{contains_id, id_set, id_views, ids_sorted, insert_id};

verus! {

/// Kind of leaf requirement controlled through commissioning and handover.
#[derive(Clone, Copy, Debug, PartialEq, Eq, Structural, PartialOrd, Ord)]
pub enum CommissioningRequirementKind {
    /// Planned commissioning activity or functional sequence.
    Activity,
    /// Inspection point.
    Inspection,
    /// Test point, including a superseding retest.
    Test,
    /// Defect that must be closed or accountably excepted.
    Defect,
    /// Operations and maintenance deliverable retained by an external store.
    OperationsMaintenanceDeliverable,
    /// As-built deliverable retained by an external store.
    AsBuiltDeliverable,
    /// Operator, maintainer, or customer training.
    Training,
    /// Certificate with an evidence validity window.
    Certification,
    /// Closure controlled by a public or delegated authority.
    AuthorityClosure,
    /// Customer acceptance evidence.
    CustomerAcceptance,
    /// Explicit remaining-work item.
    RemainingWork,
}

/// One typed commissioning requirement over the shared obligation shape.
#[derive(Debug, PartialEq, Eq)]
pub struct CommissioningRequirement {
    /// Commissioning or handover kind.
    pub kind: CommissioningRequirementKind,
    /// Shared project obligation, including requirement, evidence, and policy.
    pub obligation: ProjectObligation,
    /// Leaf or aggregate handover controls to which this requirement applies.
    pub targets: Vec<ControlId>,
    /// True when failure has a critical consequence.
    pub critical: bool,
}

/// Id of a commissioning requirement.
pub open spec fn req_id(r: CommissioningRequirement) -> Seq<char> {
    r.obligation.requirement.id@
}

/// Target `i` of `targets` is not a handover control or repeats an earlier target.
pub open spec fn target_fault(targets: Seq<ControlId>, nodes: Seq<ControlNode>, i: int) -> bool {
    handover_kind_in(nodes, targets[i]@) is None || exists|j: int| 0 <= j < i && (#[trigger] targets[j])@ == targets[i]@
}

/// Target `i` is the first faulty target.
pub open spec fn first_target_fault(targets: Seq<ControlId>, nodes: Seq<ControlNode>, i: int) -> bool {
    &&& 0 <= i < targets.len()
    &&& target_fault(targets, nodes, i)
    &&& forall|j: int| 0 <= j < i ==> !#[trigger] target_fault(targets, nodes, j)
}

/// The error reported for faulty target `i`.
pub open spec fn target_error(
    targets: Seq<ControlId>,
    nodes: Seq<ControlNode>,
    i: int,
    res: Result<(), ConstructionProjectError>,
) -> bool {
    if handover_kind_in(nodes, targets[i]@) is None {
        res matches Err(ConstructionProjectError::ControlGraphMissingEndpoint { edge, endpoint_role, endpoint })
            && edge == "commissioning-target" && endpoint_role == "target" && endpoint@ == targets[i]@
    } else {
        res matches Err(ConstructionProjectError::DuplicateId { kind, id })
            && kind == "commissioning_requirement.target" && id@ == targets[i]@
    }
}

/// An authority closure that is not both non-waivable and mandatory.
pub open spec fn weak_authority_closure(r: CommissioningRequirement) -> bool {
    r.kind == CommissioningRequirementKind::AuthorityClosure && (!r.obligation.requirement.non_waivable
        || r.obligation.policy != ObligationPolicy::Mandatory)
}

/// What `validate(project, hierarchy)` answers for requirement `r` against a
/// hierarchy with nodes `nodes`: the first failed check, or success.
pub open spec fn requirement_check(
    r: CommissioningRequirement,
    project: ProjectId,
    nodes: Seq<ControlNode>,
    res: Result<(), ConstructionProjectError>,
) -> bool {
    let t = r.targets@;
    if r.obligation.project@ != project@ {
        res matches Err(ConstructionProjectError::ProjectMismatch { expected, actual })
            && expected == project && actual == r.obligation.project
    } else if !r.obligation.requirement.evidence_required {
        res == Err::<(), ConstructionProjectError>(ConstructionProjectError::EmptyCollection("commissioning_requirement.required_evidence"))
    } else if r.obligation.requirement.evidence_kinds@.len() == 0 {
        res == Err::<(), ConstructionProjectError>(ConstructionProjectError::EmptyCollection("commissioning_requirement.evidence_kinds"))
    } else if t.len() == 0 {
        res == Err::<(), ConstructionProjectError>(ConstructionProjectError::EmptyCollection("commissioning_requirement.targets"))
    } else if exists|i: int| 0 <= i < t.len() && #[trigger] target_fault(t, nodes, i) {
        exists|i: int| #[trigger] first_target_fault(t, nodes, i) && target_error(t, nodes, i, res)
    } else if weak_authority_closure(r) {
        res == Err::<(), ConstructionProjectError>(ConstructionProjectError::EmptyField("commissioning.authority_closure_non_waivable"))
    } else {
        res is Ok
    }
}

impl CommissioningRequirement {
    /// Builds a typed requirement for one handover control.
    ///
    /// Authority closure is always made non-waivable and mandatory. All other
    /// policy remains explicit on the supplied common obligation.
    pub fn new(kind: CommissioningRequirementKind, obligation: ProjectObligation, target: ControlId) -> (r: Self)
        ensures
            r.kind == kind,
            r.targets@ == seq![target],
            !r.critical,
            kind == CommissioningRequirementKind::AuthorityClosure ==> r.obligation == (ProjectObligation {
                requirement: Requirement { non_waivable: true, ..obligation.requirement },
                policy: ObligationPolicy::Mandatory,
                ..obligation
            }),
            kind != CommissioningRequirementKind::AuthorityClosure ==> r.obligation == obligation,
    {
        let mut obligation = obligation;
        if kind == CommissioningRequirementKind::AuthorityClosure {
            obligation.requirement.non_waivable = true;
            obligation.policy = ObligationPolicy::Mandatory;
        }
        let mut targets = Vec::new();
        targets.push(target);
        proof {
            assert(targets@ =~= seq![target]);
        }
        CommissioningRequirement { kind, obligation, targets, critical: false }
    }

    /// Adds another handover control affected by the same requirement.
    pub fn with_target(self, target: ControlId) -> (r: Self)
        ensures
            r == (CommissioningRequirement { targets: r.targets, ..self }),
            r.targets@ == self.targets@.push(target),
    {
        let mut r = self;
        r.targets.push(target);
        r
    }

    /// Marks the requirement as critical.
    pub fn critical(self) -> (r: Self)
        ensures
            r == (CommissioningRequirement { critical: true, ..self }),
    {
        let mut r = self;
        r.critical = true;
        r
    }

    /// Returns the stable common requirement id.
    pub fn id(&self) -> (r: &ControlId)
        ensures
            *r == self.obligation.requirement.id,
    {
        &self.obligation.requirement.id
    }

    /// Validates commissioning-specific evidence and target rules.
    pub fn validate(&self, project: &ProjectId, hierarchy: &HandoverHierarchy) -> (r: Result<(), ConstructionProjectError>)
        ensures
            requirement_check(*self, *project, hierarchy.graph_spec().nodes@, r),
    {
        let ghost nodes = hierarchy.graph_spec().nodes@;
        if !self.obligation.project.same(project) {
            return Err(ConstructionProjectError::ProjectMismatch {
                expected: project.clone(),
                actual: self.obligation.project.clone(),
            });
        }
        if !self.obligation.requirement.evidence_required {
            return Err(ConstructionProjectError::EmptyCollection("commissioning_requirement.required_evidence"));
        }
        if self.obligation.requirement.evidence_kinds.len() == 0 {
            return Err(ConstructionProjectError::EmptyCollection("commissioning_requirement.evidence_kinds"));
        }
        if self.targets.len() == 0 {
            return Err(ConstructionProjectError::EmptyCollection("commissioning_requirement.targets"));
        }
        let ghost t = self.targets@;
        let mut i: usize = 0;
        while i < self.targets.len()
            invariant
                t == self.targets@,
                nodes == hierarchy.graph_spec().nodes@,
                self.obligation.project@ == project@,
                self.obligation.requirement.evidence_required,
                self.obligation.requirement.evidence_kinds@.len() > 0,
                t.len() > 0,
                i <= t.len(),
                forall|j: int| 0 <= j < i ==> !#[trigger] target_fault(t, nodes, j),
            decreases t.len() - i,
        {
            let target = &self.targets[i];
            if hierarchy.kind(target).is_none() {
                let e = ConstructionProjectError::ControlGraphMissingEndpoint {
                    edge: "commissioning-target",
                    endpoint_role: "target",
                    endpoint: target.clone(),
                };
                proof {
                    assert(target_fault(t, nodes, i as int));
                    assert(first_target_fault(t, nodes, i as int));
                    assert(target_error(t, nodes, i as int, Err(e)));
                }
                return Err(e);
            }
            let mut j: usize = 0;
            while j < i
                invariant
                    t == self.targets@,
                    nodes == hierarchy.graph_spec().nodes@,
                    self.obligation.project@ == project@,
                    self.obligation.requirement.evidence_required,
                    self.obligation.requirement.evidence_kinds@.len() > 0,
                    i < t.len(),
                    j <= i,
                    forall|q: int| 0 <= q < i ==> !#[trigger] target_fault(t, nodes, q),
                    handover_kind_in(nodes, t[i as int]@) is Some,
                    forall|q: int| 0 <= q < j ==> (#[trigger] t[q])@ != t[i as int]@,
                decreases i - j,
            {
                if self.targets[j].same(&self.targets[i]) {
                    let text = self.targets[i].as_str().to_owned();
                    let e = ConstructionProjectError::DuplicateId { kind: "commissioning_requirement.target", id: text };
                    proof {
                        assert(target_fault(t, nodes, i as int));
                        assert(first_target_fault(t, nodes, i as int));
                        assert(target_error(t, nodes, i as int, Err(e)));
                    }
                    return Err(e);
                }
                j = j + 1;
            }
            i = i + 1;
        }
        if self.kind == CommissioningRequirementKind::AuthorityClosure && (!self.obligation.requirement.non_waivable
            || self.obligation.policy != ObligationPolicy::Mandatory) {
            return Err(ConstructionProjectError::EmptyField("commissioning.authority_closure_non_waivable"));
        }
        Ok(())
    }
}

/// Exact commissioning evidence counts behind a readiness percentage.
#[derive(Clone, Copy, Debug, Default, PartialEq, Eq)]
pub struct CommissioningBurnDown {
    /// Requirements in scope.
    pub total: usize,
    /// Requirements satisfied by current accepted evidence.
    pub accepted: usize,
    /// Requirements with no current fact.
    pub missing: usize,
    /// Requirements reported without accepted evidence.
    pub reported: usize,
    /// Requirements with evidence awaiting acceptance.
    pub evidenced: usize,
    /// Requirements rejected by an accountable role.
    pub rejected: usize,
    /// Requirements whose accepted evidence is no longer current.
    pub expired: usize,
    /// Requirements with competing current facts.
    pub conflicted: usize,
    /// Requirements covered by a current bounded exception.
    pub excepted: usize,
}

/// `usize` addition that stops at the largest value.
pub open spec fn sat_add(a: int, b: int) -> int {
    if a + b > usize::MAX { usize::MAX as int } else { a + b }
}

/// `usize` multiplication that stops at the largest value.
pub open spec fn sat_mul(a: int, b: int) -> int {
    if a * b > usize::MAX { usize::MAX as int } else { a * b }
}

/// The completion percentage reported for a burn-down: accepted plus
/// excepted over total, rounded down; `0` for an empty scope; a quotient
/// that does not fit in a `u8` is reported as `100`.
pub open spec fn completion_of(b: CommissioningBurnDown) -> int {
    if b.total == 0 {
        0
    } else {
        let q = sat_mul(sat_add(b.accepted as int, b.excepted as int), 100) / (b.total as int);
        if q <= 255 { q } else { 100 }
    }
}

/// Every requirement in scope is counted in exactly one bucket.
pub open spec fn burn_down_balanced(b: CommissioningBurnDown) -> bool {
    b.total == b.accepted + b.missing + b.reported + b.evidenced + b.rejected + b.expired + b.conflicted + b.excepted
}

/// The burn-down after recording one requirement in state `state`, or as excepted.
pub open spec fn recorded(b: CommissioningBurnDown, state: EvidenceState, excepted: bool) -> CommissioningBurnDown {
    let t = CommissioningBurnDown { total: (b.total + 1) as usize, ..b };
    if excepted {
        CommissioningBurnDown { excepted: (b.excepted + 1) as usize, ..t }
    } else {
        match state {
            EvidenceState::Missing => CommissioningBurnDown { missing: (b.missing + 1) as usize, ..t },
            EvidenceState::Reported => CommissioningBurnDown { reported: (b.reported + 1) as usize, ..t },
            EvidenceState::Evidenced => CommissioningBurnDown { evidenced: (b.evidenced + 1) as usize, ..t },
            EvidenceState::Accepted => CommissioningBurnDown { accepted: (b.accepted + 1) as usize, ..t },
            EvidenceState::Rejected => CommissioningBurnDown { rejected: (b.rejected + 1) as usize, ..t },
            EvidenceState::Expired => CommissioningBurnDown { expired: (b.expired + 1) as usize, ..t },
            EvidenceState::Conflicted => CommissioningBurnDown { conflicted: (b.conflicted + 1) as usize, ..t },
        }
    }
}

impl CommissioningBurnDown {
    /// An empty burn-down.
    pub fn empty() -> (b: Self)
        ensures
            b == (CommissioningBurnDown {
                total: 0,
                accepted: 0,
                missing: 0,
                reported: 0,
                evidenced: 0,
                rejected: 0,
                expired: 0,
                conflicted: 0,
                excepted: 0,
            }),
    {
        CommissioningBurnDown {
            total: 0,
            accepted: 0,
            missing: 0,
            reported: 0,
            evidenced: 0,
            rejected: 0,
            expired: 0,
            conflicted: 0,
            excepted: 0,
        }
    }

    /// Returns the accepted-or-excepted integer completion percentage.
    ///
    /// Gate readiness is deliberately separate: a high percentage cannot
    /// override even one blocked mandatory requirement.
    pub fn completion_percent(self) -> (r: u8)
        ensures
            r == completion_of(self),
    {
        if self.total == 0 {
            return 0;
        }
        let completed = self.accepted.saturating_add(self.excepted);
        let scaled: usize = if completed > usize::MAX / 100 { usize::MAX } else { completed * 100 };
        let q = scaled / self.total;
        if q <= 255 {
            q as u8
        } else {
            100
        }
    }

    /// Returns requirements not yet accepted or excepted.
    pub fn open(self) -> (r: usize)
        ensures
            r == (if self.total >= sat_add(self.accepted as int, self.excepted as int) {
                self.total - sat_add(self.accepted as int, self.excepted as int)
            } else {
                0
            }),
    {
        self.total.saturating_sub(self.accepted.saturating_add(self.excepted))
    }

    /// Counts one requirement in its evidence state, or as excepted.
    pub fn record(&mut self, state: EvidenceState, excepted: bool)
        requires
            old(self).total < usize::MAX,
            burn_down_balanced(*old(self)),
        ensures
            *final(self) == recorded(*old(self), state, excepted),
            burn_down_balanced(*final(self)),
    {
        self.total = self.total + 1;
        if excepted {
            self.excepted = self.excepted + 1;
            return;
        }
        match state {
            EvidenceState::Missing => self.missing = self.missing + 1,
            EvidenceState::Reported => self.reported = self.reported + 1,
            EvidenceState::Evidenced => self.evidenced = self.evidenced + 1,
            EvidenceState::Accepted => self.accepted = self.accepted + 1,
            EvidenceState::Rejected => self.rejected = self.rejected + 1,
            EvidenceState::Expired => self.expired = self.expired + 1,
            EvidenceState::Conflicted => self.conflicted = self.conflicted + 1,
        }
    }
}

/// In a balanced burn-down the completion percentage never exceeds 100.
pub proof fn lemma_completion_at_most_100(b: CommissioningBurnDown)
    requires
        burn_down_balanced(b),
    ensures
        0 <= completion_of(b) <= 100,
{
    if b.total > 0 {
        let c = b.accepted as int + b.excepted as int;
        assert(c <= b.total);
        assert(sat_add(b.accepted as int, b.excepted as int) == c);
        assert(c * 100 <= b.total * 100) by (nonlinear_arith)
            requires
                c <= b.total,
        ;
        let m = sat_mul(c, 100);
        assert(m <= b.total * 100);
        assert(m >= 0) by (nonlinear_arith)
            requires
                c >= 0,
                m == (if c * 100 > usize::MAX { usize::MAX as int } else { c * 100 }),
        ;
        assert(m / (b.total as int) <= 100) by (nonlinear_arith)
            requires
                m <= b.total * 100,
                b.total > 0,
                m >= 0,
        ;
    }
}

/// Readiness of one leaf commissioning requirement.
#[derive(Debug, PartialEq, Eq)]
pub struct CommissioningItemReadiness {
    /// Stable requirement id.
    pub requirement: ControlId,
    /// Typed commissioning kind.
    pub kind: CommissioningRequirementKind,
    /// Handover controls named by the requirement.
    pub targets: Vec<ControlId>,
    /// Current effective evidence state.
    pub evidence_state: EvidenceState,
    /// Current fact sequence, when present.
    pub current_seq: Option<u64>,
    /// Applied bounded exception, when present.
    pub exception: Option<ControlId>,
    /// True when this item blocks the derived readiness result.
    pub blocks: bool,
    /// True when failure has a critical consequence.
    pub critical: bool,
    /// Deterministic rule selected by shared gate policy.
    pub rule: String,
    /// Deterministic readiness explanation.
    pub reason: String,
}

/// Hierarchy-level readiness and burn-down derived from leaf evidence.
#[derive(Debug, PartialEq, Eq)]
pub struct CommissioningReadinessReport {
    /// Hierarchy control being rolled up.
    pub target: ControlId,
    /// Fact sequence used for derivation.
    pub as_of_seq: u64,
    /// True only when no mandatory requirement in scope remains blocked.
    pub ready: bool,
    /// Exact evidence-state counts.
    pub burn_down: CommissioningBurnDown,
    /// Leaf results in stable requirement-id order.
    pub items: Vec<CommissioningItemReadiness>,
}

impl CommissioningReadinessReport {
    /// Returns the accepted-or-excepted completion percentage.
    pub fn completion_percent(&self) -> (r: u8)
        ensures
            r == completion_of(self.burn_down),
    {
        self.burn_down.completion_percent()
    }

    /// Returns the positions of blocked mandatory leaf requirements, in order.
    pub fn blockers(&self) -> (r: Vec<usize>)
        ensures
            forall|k: int| 0 <= k < r@.len() ==> #[trigger] r@[k] < self.items@.len() && self.items@[r@[k] as int].blocks,
            forall|a: int, b: int| 0 <= a < b < r@.len() ==> #[trigger] r@[a] < #[trigger] r@[b],
            forall|i: int| 0 <= i < self.items@.len() && (#[trigger] self.items@[i]).blocks ==> r@.contains(i as usize),
    {
        let mut r: Vec<usize> = Vec::new();
        let mut i: usize = 0;
        while i < self.items.len()
            invariant
                i <= self.items@.len(),
                forall|k: int| 0 <= k < r@.len() ==> #[trigger] r@[k] < i && self.items@[r@[k] as int].blocks,
                forall|a: int, b: int| 0 <= a < b < r@.len() ==> #[trigger] r@[a] < #[trigger] r@[b],
                forall|j: int| 0 <= j < i && (#[trigger] self.items@[j]).blocks ==> r@.contains(j as usize),
            decreases self.items.len() - i,
        {
            if self.items[i].blocks {
                let ghost before = r@;
                r.push(i);
                proof {
                    assert forall|j: int| 0 <= j < i + 1 && (#[trigger] self.items@[j]).blocks implies r@.contains(j as usize) by {
                        if j < i {
                            let k = choose|k: int| 0 <= k < before.len() && before[k] == j as usize;
                            assert(r@[k] == j as usize);
                        } else {
                            assert(r@[before.len() as int] == i);
                        }
                    }
                }
            }
            i = i + 1;
        }
        r
    }
}

/// A leaf item blocks readiness when its obligation is mandatory, no
/// exception covers it, and the deciding rule is a dependency or missing evidence.
pub open spec fn item_blocks(policy: ObligationPolicy, excepted: bool, rule: Seq<char>) -> bool {
    policy == ObligationPolicy::Mandatory && !excepted && (rule == "dependency"@ || rule == "evidence-required"@)
}

/// Decides whether a leaf item blocks readiness.
pub fn requirement_blocks(policy: ObligationPolicy, excepted: bool, rule: &str) -> (b: bool)
    ensures
        b == item_blocks(policy, excepted, rule@),
{
    policy == ObligationPolicy::Mandatory && !excepted && (crate::text::texts_equal(rule, "dependency") || crate::text::texts_equal(rule, "evidence-required"))
}


/// Typed commissioning requirements projected onto one handover hierarchy.
#[derive(Debug, PartialEq, Eq)]
pub struct CommissioningControlSet {
    /// Stable project identity.
    pub project: ProjectId,
    /// Typed commissioning requirements.
    pub requirements: Vec<CommissioningRequirement>,
}

/// The graph node a requirement contributes.
pub open spec fn requirement_node(r: CommissioningRequirement) -> ControlNode {
    ControlNode { id: r.obligation.requirement.id, kind: ControlNodeKind::Requirement }
}

/// Nodes after adding the requirement nodes of `reqs`, in order, to `nodes`;
/// a node already present is confirmed rather than added again.
pub open spec fn nodes_after(nodes: Seq<ControlNode>, reqs: Seq<CommissioningRequirement>) -> Seq<ControlNode>
    decreases reqs.len(),
{
    if reqs.len() == 0 {
        nodes
    } else {
        let prev = nodes_after(nodes, reqs.drop_last());
        if has_node(prev, req_id(reqs.last())) {
            prev
        } else {
            prev.push(requirement_node(reqs.last()))
        }
    }
}

/// Requirement `i` names an id that is already a node of another kind.
pub open spec fn node_fault(nodes: Seq<ControlNode>, reqs: Seq<CommissioningRequirement>, i: int) -> bool {
    &&& 0 <= i < reqs.len()
    &&& node_kind(nodes_after(nodes, reqs.take(i)), req_id(reqs[i])) matches Some(k)
    &&& k != ControlNodeKind::Requirement
}

/// Prerequisite edges from each dependency of `r` to `r`.
pub open spec fn dependency_edges(r: CommissioningRequirement) -> Seq<ControlEdge> {
    r.obligation.requirement.dependencies@.map_values(
        |d: ControlId| ControlEdge { source: d, target: r.obligation.requirement.id, kind: ControlEdgeKind::Prerequisite },
    )
}

/// Prerequisite edges from `r` to each of its targets.
pub open spec fn target_edges(r: CommissioningRequirement) -> Seq<ControlEdge> {
    r.targets@.map_values(
        |t: ControlId| ControlEdge { source: r.obligation.requirement.id, target: t, kind: ControlEdgeKind::Prerequisite },
    )
}

/// Every edge the projection adds, in order: per requirement, its
/// dependency edges and then its target edges.
pub open spec fn planned_edges(reqs: Seq<CommissioningRequirement>) -> Seq<ControlEdge>
    decreases reqs.len(),
{
    if reqs.len() == 0 {
        Seq::empty()
    } else {
        planned_edges(reqs.drop_last()) + dependency_edges(reqs.last()) + target_edges(reqs.last())
    }
}

/// Edge `e` can be added to a graph with `nodes` and `edges`.
pub open spec fn edge_fits(nodes: Seq<ControlNode>, edges: Seq<ControlEdge>, e: ControlEdge) -> bool {
    has_node(nodes, e.source@) && has_node(nodes, e.target@) && !has_edge(edges, e.source@, e.target@, e.kind)
}

/// Edges after adding the fitting edges of `plan`, in order, to `edges`.
pub open spec fn edges_after(nodes: Seq<ControlNode>, edges: Seq<ControlEdge>, plan: Seq<ControlEdge>) -> Seq<ControlEdge>
    decreases plan.len(),
{
    if plan.len() == 0 {
        edges
    } else {
        let prev = edges_after(nodes, edges, plan.drop_last());
        if edge_fits(nodes, prev, plan.last()) {
            prev.push(plan.last())
        } else {
            prev
        }
    }
}

/// Planned edge `q` does not fit.
pub open spec fn edge_fault(nodes: Seq<ControlNode>, edges: Seq<ControlEdge>, plan: Seq<ControlEdge>, q: int) -> bool {
    0 <= q < plan.len() && !edge_fits(nodes, edges_after(nodes, edges, plan.take(q)), plan[q])
}

/// The projection of `reqs` onto a graph with `nodes` and `edges` meets no fault.
pub open spec fn projection_fits(nodes: Seq<ControlNode>, edges: Seq<ControlEdge>, reqs: Seq<CommissioningRequirement>) -> bool {
    &&& forall|i: int| !#[trigger] node_fault(nodes, reqs, i)
    &&& forall|q: int| !#[trigger] edge_fault(nodes_after(nodes, reqs), edges, planned_edges(reqs), q)
}

/// The error that refusing edge `e` reports.
pub open spec fn edge_error(nodes: Seq<ControlNode>, edges: Seq<ControlEdge>, e: ControlEdge, err: ConstructionProjectError) -> bool {
    if !has_node(nodes, e.source@) {
        err matches ConstructionProjectError::ControlGraphMissingEndpoint { edge, endpoint_role, endpoint }
            && edge@ == edge_label(e.kind) && endpoint_role == "source" && endpoint@ == e.source@
    } else if !has_node(nodes, e.target@) {
        err matches ConstructionProjectError::ControlGraphMissingEndpoint { edge, endpoint_role, endpoint }
            && edge@ == edge_label(e.kind) && endpoint_role == "target" && endpoint@ == e.target@
    } else {
        err matches ConstructionProjectError::DuplicateControlGraphEdge { kind: label, from, target: t }
            && label@ == edge_label(e.kind) && from@ == e.source@ && t@ == e.target@
    }
}

/// The error reported by a refused projection: the first requirement whose
/// id is a node of another kind, or else the first edge that does not fit.
pub open spec fn projection_error(
    nodes: Seq<ControlNode>,
    edges: Seq<ControlEdge>,
    reqs: Seq<CommissioningRequirement>,
    err: ConstructionProjectError,
) -> bool {
    if exists|i: int| #[trigger] node_fault(nodes, reqs, i) {
        exists|i: int| #[trigger] node_fault(nodes, reqs, i) && (forall|j: int| 0 <= j < i ==> !#[trigger] node_fault(nodes, reqs, j))
            && (err matches ConstructionProjectError::DuplicateId { kind, id } && kind == "control_graph.node" && id@ == req_id(reqs[i]))
    } else {
        let n = nodes_after(nodes, reqs);
        let plan = planned_edges(reqs);
        exists|q: int| #[trigger] edge_fault(n, edges, plan, q) && (forall|j: int| 0 <= j < q ==> !#[trigger] edge_fault(n, edges, plan, j))
            && edge_error(n, edges_after(n, edges, plan.take(q)), plan[q], err)
    }
}

/// What `control_graph` returns for `reqs` over a hierarchy graph `g`.
pub open spec fn projection_result(g: ControlGraph, reqs: Seq<CommissioningRequirement>, r: Result<ControlGraph, ConstructionProjectError>) -> bool {
    match r {
        Ok(out) => {
            &&& projection_fits(g.nodes@, g.edges@, reqs)
            &&& out.nodes@ == nodes_after(g.nodes@, reqs)
            &&& out.edges@ == edges_after(nodes_after(g.nodes@, reqs), g.edges@, planned_edges(reqs))
        },
        Err(e) => !projection_fits(g.nodes@, g.edges@, reqs) && projection_error(g.nodes@, g.edges@, reqs, e),
    }
}

proof fn lemma_planned_step(reqs: Seq<CommissioningRequirement>, i: int)
    requires
        0 <= i < reqs.len(),
    ensures
        planned_edges(reqs.take(i + 1)) == planned_edges(reqs.take(i)) + dependency_edges(reqs[i]) + target_edges(reqs[i]),
{
    assert(reqs.take(i + 1).drop_last() =~= reqs.take(i));
}

proof fn lemma_edges_step(nodes: Seq<ControlNode>, edges: Seq<ControlEdge>, plan: Seq<ControlEdge>, q: int)
    requires
        0 <= q < plan.len(),
    ensures
        edges_after(nodes, edges, plan.take(q + 1)) == (if edge_fits(nodes, edges_after(nodes, edges, plan.take(q)), plan[q]) {
            edges_after(nodes, edges, plan.take(q)).push(plan[q])
        } else {
            edges_after(nodes, edges, plan.take(q))
        }),
{
    assert(plan.take(q + 1).drop_last() =~= plan.take(q));
}

/// Nodes after the projection still hold every earlier node, and only grow.
proof fn lemma_nodes_grow(nodes: Seq<ControlNode>, reqs: Seq<CommissioningRequirement>, i: int)
    requires
        0 <= i <= reqs.len(),
    ensures
        forall|s: Seq<char>| has_node(nodes_after(nodes, reqs.take(i)), s) ==> has_node(nodes_after(nodes, reqs), s),
    decreases reqs.len() - i,
{
    if i < reqs.len() {
        lemma_nodes_grow(nodes, reqs, i + 1);
        assert(reqs.take(i + 1).drop_last() =~= reqs.take(i));
        let prev = nodes_after(nodes, reqs.take(i));
        let next = nodes_after(nodes, reqs.take(i + 1));
        assert forall|s: Seq<char>| has_node(prev, s) implies has_node(next, s) by {
            let k = choose|k: int| 0 <= k < prev.len() && (#[trigger] prev[k]).id@ == s;
            if next != prev {
                assert(next[k] == prev[k]);
            }
        }
    } else {
        assert(reqs.take(i) =~= reqs);
    }
}

impl CommissioningControlSet {
    /// Starts an empty commissioning control set.
    pub fn new(project: ProjectId) -> (s: Self)
        ensures
            s.project == project,
            s.requirements@.len() == 0,
    {
        CommissioningControlSet { project, requirements: Vec::new() }
    }

    /// Adds one typed requirement.
    pub fn with_requirement(self, requirement: CommissioningRequirement) -> (s: Self)
        ensures
            s.project == self.project,
            s.requirements@ == self.requirements@.push(requirement),
    {
        let mut s = self;
        s.requirements.push(requirement);
        s
    }

    /// Every edge the projection adds, in order.
    fn planned(&self) -> (v: Vec<ControlEdge>)
        ensures
            v@ == planned_edges(self.requirements@),
    {
        let reqs = &self.requirements;
        let mut v: Vec<ControlEdge> = Vec::new();
        let mut i: usize = 0;
        while i < reqs.len()
            invariant
                i <= reqs@.len(),
                v@ == planned_edges(reqs@.take(i as int)),
            decreases reqs.len() - i,
        {
            proof {
                lemma_planned_step(reqs@, i as int);
            }
            let r = &reqs[i];
            let ghost base = v@;
            let deps = &r.obligation.requirement.dependencies;
            let mut j: usize = 0;
            while j < deps.len()
                invariant
                    deps@ == r.obligation.requirement.dependencies@,
                    j <= deps@.len(),
                    v@ == base + dependency_edges(*r).take(j as int),
                decreases deps.len() - j,
            {
                v.push(ControlEdge { source: deps[j].clone(), target: r.obligation.requirement.id.clone(), kind: ControlEdgeKind::Prerequisite });
                proof {
                    assert(v@ =~= base + dependency_edges(*r).take(j + 1));
                }
                j = j + 1;
            }
            assert(dependency_edges(*r).take(deps@.len() as int) =~= dependency_edges(*r));
            let ghost mid = v@;
            let mut k: usize = 0;
            while k < r.targets.len()
                invariant
                    k <= r.targets@.len(),
                    v@ == mid + target_edges(*r).take(k as int),
                decreases r.targets.len() - k,
            {
                v.push(ControlEdge { source: r.obligation.requirement.id.clone(), target: r.targets[k].clone(), kind: ControlEdgeKind::Prerequisite });
                proof {
                    assert(v@ =~= mid + target_edges(*r).take(k + 1));
                }
                k = k + 1;
            }
            assert(target_edges(*r).take(r.targets@.len() as int) =~= target_edges(*r));
            i = i + 1;
        }
        assert(reqs@.take(reqs@.len() as int) =~= reqs@);
        v
    }

    /// Projects requirements, dependencies, and targets onto the common
    /// construction control graph: one requirement node per requirement,
    /// a prerequisite edge from each dependency to its requirement, and one
    /// from each requirement to each of its targets.
    pub fn control_graph(&self, hierarchy: &HandoverHierarchy) -> (r: Result<ControlGraph, ConstructionProjectError>)
        ensures
            projection_result(hierarchy.graph_spec(), self.requirements@, r),
            r matches Ok(g) ==> g.wf(),
    {
        let g0 = hierarchy.control_graph();
        let ghost n0 = g0.nodes@;
        let ghost e0 = g0.edges@;
        let ghost reqs = self.requirements@;
        let mut graph = g0.clone();
        let mut i: usize = 0;
        while i < self.requirements.len()
            invariant
                reqs == self.requirements@,
                n0 == hierarchy.graph_spec().nodes@,
                e0 == hierarchy.graph_spec().edges@,
                i <= reqs.len(),
                graph.wf(),
                graph.edges@ == e0,
                graph.nodes@ == nodes_after(n0, reqs.take(i as int)),
                forall|j: int| 0 <= j < i ==> !#[trigger] node_fault(n0, reqs, j),
            decreases reqs.len() - i,
        {
            let ghost before = graph.nodes@;
            proof {
                assert(reqs.take(i + 1).drop_last() =~= reqs.take(i as int));
                assert(reqs.take(i + 1).last() == reqs[i as int]);
            }
            match graph.add_node(self.requirements[i].obligation.requirement.id.clone(), ControlNodeKind::Requirement) {
                Ok(()) => {},
                Err(e) => {
                    proof {
                        assert(node_fault(n0, reqs, i as int));
                        assert(!projection_fits(n0, e0, reqs));
                        assert(e matches ConstructionProjectError::DuplicateId { kind, id } && kind == "control_graph.node" && id@ == req_id(reqs[i as int]));
                        assert(projection_error(n0, e0, reqs, e));
                    }
                    return Err(e);
                },
            }
            proof {
                assert(!node_fault(n0, reqs, i as int));
                if has_node(before, req_id(reqs[i as int])) {
                    assert(graph.nodes@ == before);
                } else {
                    assert(graph.nodes@ == before.push(requirement_node(reqs[i as int])));
                }
            }
            i = i + 1;
        }
        proof {
            assert(reqs.take(reqs.len() as int) =~= reqs);
        }
        let ghost n1 = graph.nodes@;
        let plan = self.planned();
        let ghost pl = plan@;
        let mut q: usize = 0;
        while q < plan.len()
            invariant
                pl == plan@,
                pl == planned_edges(reqs),
                reqs == self.requirements@,
                n0 == hierarchy.graph_spec().nodes@,
                e0 == hierarchy.graph_spec().edges@,
                n1 == nodes_after(n0, reqs),
                forall|j: int| !#[trigger] node_fault(n0, reqs, j),
                q <= pl.len(),
                graph.wf(),
                graph.nodes@ == n1,
                graph.edges@ == edges_after(n1, e0, pl.take(q as int)),
                forall|j: int| 0 <= j < q ==> !#[trigger] edge_fault(n1, e0, pl, j),
            decreases pl.len() - q,
        {
            proof {
                lemma_edges_step(n1, e0, pl, q as int);
            }
            let ghost before = graph.edges@;
            let e = plan[q].clone();
            match graph.add_edge(e.source, e.target, e.kind) {
                Ok(()) => {},
                Err(err) => {
                    proof {
                        assert(edge_fault(n1, e0, pl, q as int));
                        assert(!projection_fits(n0, e0, reqs));
                        assert(edge_error(n1, before, pl[q as int], err));
                        assert(!exists|i: int| #[trigger] node_fault(n0, reqs, i));
                        assert(projection_error(n0, e0, reqs, err));
                    }
                    return Err(err);
                },
            }
            proof {
                assert(!edge_fault(n1, e0, pl, q as int));
                assert(graph.edges@ == before.push(pl[q as int]));
            }
            q = q + 1;
        }
        proof {
            assert(pl.take(pl.len() as int) =~= pl);
            assert forall|j: int| !#[trigger] edge_fault(n1, e0, pl, j) by {
                if 0 <= j < pl.len() {
                } 
            }
        }
        Ok(graph)
    }
}


/// Requirement `r` passes its own checks against a hierarchy with `nodes`.
pub open spec fn requirement_valid(r: CommissioningRequirement, project: ProjectId, nodes: Seq<ControlNode>) -> bool {
    &&& r.obligation.project@ == project@
    &&& r.obligation.requirement.evidence_required
    &&& r.obligation.requirement.evidence_kinds@.len() > 0
    &&& r.targets@.len() > 0
    &&& forall|i: int| 0 <= i < r.targets@.len() ==> !#[trigger] target_fault(r.targets@, nodes, i)
    &&& !weak_authority_closure(r)
}

/// `validate` answers `Ok` exactly for valid requirements.
pub proof fn lemma_requirement_check_ok(
    r: CommissioningRequirement,
    project: ProjectId,
    nodes: Seq<ControlNode>,
    res: Result<(), ConstructionProjectError>,
)
    requires
        requirement_check(r, project, nodes, res),
    ensures
        res is Ok <==> requirement_valid(r, project, nodes),
{
}

/// Requirement `i` of a set fails its own checks or repeats an earlier id.
pub open spec fn set_entry_fault(reqs: Seq<CommissioningRequirement>, project: ProjectId, nodes: Seq<ControlNode>, i: int) -> bool {
    &&& 0 <= i < reqs.len()
    &&& !requirement_valid(reqs[i], project, nodes) || exists|j: int| 0 <= j < i && req_id(#[trigger] reqs[j]) == req_id(reqs[i])
}

/// What `CommissioningControlSet::validate` answers for set `s` against a
/// hierarchy of project `owner` with graph `g`.
pub open spec fn control_set_check(
    s: CommissioningControlSet,
    owner: ProjectId,
    g: ControlGraph,
    res: Result<(), ConstructionProjectError>,
) -> bool {
    let reqs = s.requirements@;
    let nodes = g.nodes@;
    if owner@ != s.project@ {
        res matches Err(ConstructionProjectError::ProjectMismatch { expected, actual })
            && expected == s.project && actual == owner
    } else if reqs.len() == 0 {
        res == Err::<(), ConstructionProjectError>(ConstructionProjectError::EmptyCollection("commissioning.requirements"))
    } else if exists|i: int| #[trigger] set_entry_fault(reqs, s.project, nodes, i) {
        exists|i: int| #[trigger] set_entry_fault(reqs, s.project, nodes, i)
            && (forall|j: int| 0 <= j < i ==> !#[trigger] set_entry_fault(reqs, s.project, nodes, j))
            && if !requirement_valid(reqs[i], s.project, nodes) {
                requirement_check(reqs[i], s.project, nodes, res)
            } else {
                res matches Err(ConstructionProjectError::DuplicateId { kind, id })
                    && kind == "commissioning_requirement" && id@ == req_id(reqs[i])
            }
    } else if !projection_fits(nodes, g.edges@, reqs) {
        res matches Err(e) && projection_error(nodes, g.edges@, reqs, e)
    } else {
        let n = nodes_after(nodes, reqs);
        let edges = edges_after(n, g.edges@, planned_edges(reqs));
        &&& (res is Ok <==> readiness_acyclic(edges))
        &&& (res matches Err(e) ==> e matches ConstructionProjectError::ControlGraphCycle { cycle }
            && is_cycle_report(n, edges, cycle@))
    }
}

impl CommissioningControlSet {
    /// Validates project ownership, each requirement, unique ids, the
    /// projection onto the hierarchy graph, and freedom from readiness cycles.
    pub fn validate(&self, hierarchy: &HandoverHierarchy) -> (r: Result<(), ConstructionProjectError>)
        ensures
            control_set_check(*self, hierarchy.project_spec(), hierarchy.graph_spec(), r),
    {
        let ghost reqs = self.requirements@;
        let ghost nodes = hierarchy.graph_spec().nodes@;
        if !hierarchy.project().same(&self.project) {
            return Err(ConstructionProjectError::ProjectMismatch {
                expected: self.project.clone(),
                actual: hierarchy.project().clone(),
            });
        }
        if self.requirements.len() == 0 {
            return Err(ConstructionProjectError::EmptyCollection("commissioning.requirements"));
        }
        let mut i: usize = 0;
        while i < self.requirements.len()
            invariant
                reqs == self.requirements@,
                nodes == hierarchy.graph_spec().nodes@,
                hierarchy.project_spec()@ == self.project@,
                reqs.len() > 0,
                i <= reqs.len(),
                forall|j: int| 0 <= j < i ==> !#[trigger] set_entry_fault(reqs, self.project, nodes, j),
            decreases reqs.len() - i,
        {
            let checked = self.requirements[i].validate(&self.project, hierarchy);
            proof {
                lemma_requirement_check_ok(reqs[i as int], self.project, nodes, checked);
            }
            match checked {
                Ok(()) => {},
                Err(e) => {
                    proof {
                        assert(set_entry_fault(reqs, self.project, nodes, i as int));
                    }
                    return Err(e);
                },
            }
            let mut j: usize = 0;
            while j < i
                invariant
                    reqs == self.requirements@,
                    nodes == hierarchy.graph_spec().nodes@,
                    hierarchy.project_spec()@ == self.project@,
                    reqs.len() > 0,
                    i < reqs.len(),
                    j <= i,
                    requirement_valid(reqs[i as int], self.project, nodes),
                    forall|q: int| 0 <= q < i ==> !#[trigger] set_entry_fault(reqs, self.project, nodes, q),
                    forall|q: int| 0 <= q < j ==> req_id(#[trigger] reqs[q]) != req_id(reqs[i as int]),
                decreases i - j,
            {
                if self.requirements[j].id().same(self.requirements[i].id()) {
                    let text = self.requirements[i].id().as_str().to_owned();
                    proof {
                        assert(set_entry_fault(reqs, self.project, nodes, i as int));
                    }
                    return Err(ConstructionProjectError::DuplicateId { kind: "commissioning_requirement", id: text });
                }
                j = j + 1;
            }
            proof {
                assert(!set_entry_fault(reqs, self.project, nodes, i as int));
            }
            i = i + 1;
        }
        proof {
            assert forall|j: int| !#[trigger] set_entry_fault(reqs, self.project, nodes, j) by {
                if 0 <= j < reqs.len() {
                }
            }
        }
        match self.control_graph(hierarchy) {
            Ok(graph) => graph.validate_readiness(),
            Err(e) => Err(e),
        }
    }
}

} // verus!
