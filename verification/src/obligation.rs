//! Requirement obligations as the commissioning and closeout rules read them.

use vstd::prelude::*;
use crate::governance::Symbol;
use crate::identity::{ControlId, ProjectId};

verus! {

/// How strictly a project obligation binds.
#[derive(Clone, Copy, Debug, PartialEq, Eq, Structural)]
pub enum ObligationPolicy {
    /// Must be satisfied or accountably excepted.
    Mandatory,
    /// Informs readiness without blocking it.
    Advisory,
}

/// A requirement: its id, the evidence it asks for, what it depends on,
/// and whether it may be waived.
#[derive(Debug, PartialEq, Eq)]
pub struct Requirement {
    /// Stable requirement control id.
    pub id: ControlId,
    /// Human-facing requirement title.
    pub title: String,
    /// True when accepted evidence is required.
    pub evidence_required: bool,
    /// Evidence kinds that can satisfy the requirement.
    pub evidence_kinds: Vec<Symbol>,
    /// Requirements that must be ready first.
    pub dependencies: Vec<ControlId>,
    /// True when no exception may cover the requirement.
    pub non_waivable: bool,
}

impl Requirement {
    /// Starts a requirement that asks for evidence, with no kinds or dependencies yet.
    pub fn new(id: ControlId, title: &str) -> (r: Self)
        ensures
            r.id == id,
            r.title@ == title@,
            r.evidence_required,
            r.evidence_kinds@.len() == 0,
            r.dependencies@.len() == 0,
            !r.non_waivable,
    {
        Requirement {
            id,
            title: title.to_owned(),
            evidence_required: true,
            evidence_kinds: Vec::new(),
            dependencies: Vec::new(),
            non_waivable: false,
        }
    }

    /// Adds an evidence kind that can satisfy the requirement.
    pub fn with_evidence_kind(self, kind: Symbol) -> (r: Self)
        ensures
            r == (Requirement { evidence_kinds: r.evidence_kinds, ..self }),
            r.evidence_kinds@ == self.evidence_kinds@.push(kind),
    {
        let mut r = self;
        r.evidence_kinds.push(kind);
        r
    }

    /// Adds a requirement that must be ready first.
    pub fn depends_on(self, dependency: ControlId) -> (r: Self)
        ensures
            r == (Requirement { dependencies: r.dependencies, ..self }),
            r.dependencies@ == self.dependencies@.push(dependency),
    {
        let mut r = self;
        r.dependencies.push(dependency);
        r
    }

    /// Marks the requirement as not requiring evidence.
    pub fn without_evidence(self) -> (r: Self)
        ensures
            r == (Requirement { evidence_required: false, ..self }),
    {
        let mut r = self;
        r.evidence_required = false;
        r
    }

    /// Marks the requirement as non-waivable.
    pub fn non_waivable(self) -> (r: Self)
        ensures
            r == (Requirement { non_waivable: true, ..self }),
    {
        let mut r = self;
        r.non_waivable = true;
        r
    }
}

/// A requirement bound to a project under a policy.
#[derive(Debug, PartialEq, Eq)]
pub struct ProjectObligation {
    /// Project bound by the obligation.
    pub project: ProjectId,
    /// The requirement itself.
    pub requirement: Requirement,
    /// How strictly it binds.
    pub policy: ObligationPolicy,
}

impl ProjectObligation {
    /// Binds a requirement to a project under a policy.
    pub fn new(project: ProjectId, requirement: Requirement, policy: ObligationPolicy) -> (o: Self)
        ensures
            o == (ProjectObligation { project, requirement, policy }),
    {
        ProjectObligation { project, requirement, policy }
    }

    /// Binds a requirement to a project as mandatory.
    pub fn mandatory(project: ProjectId, requirement: Requirement) -> (o: Self)
        ensures
            o == (ProjectObligation { project, requirement, policy: ObligationPolicy::Mandatory }),
    {
        ProjectObligation { project, requirement, policy: ObligationPolicy::Mandatory }
    }
}

} // verus!
