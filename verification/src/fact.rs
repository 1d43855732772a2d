//! Append-only facts for construction project-control books.

use vstd::prelude::*;
use crate::date::ProjectDate;
use crate::error::ConstructionProjectError;
use crate::evidence::{EvidenceState, ExternalRef};
use crate::field_import::FieldImportBody;
use crate::governance::{symbol_unambiguous, Symbol, Visibility};
use crate::identity::{id_fault, id_validation_result, validate_id, ControlId, ProjectId, RoleId};
use crate::text::{is_blank, text_is_blank};

verus! {

/// Maximum expression nodes accepted in a project fact body.
pub const MAX_FACT_BODY_NODES: usize = 256;

/// Maximum reference-only evidence links accepted on a project fact.
pub const MAX_FACT_EVIDENCE_REFS: usize = 32;

/// The body carried by a fact.
#[derive(Clone, Debug, PartialEq, Eq)]
pub enum FactBody {
    /// An expression body kept by the writer, known by its expression node count.
    Expression { nodes: usize },
    /// The project-control fields of an imported external field item.
    FieldImport(FieldImportBody),
}

/// Expression nodes of a body. An import body is a map of eleven keyed
/// fields whose values are single nodes, except the affected controls, a
/// vector node with one node per control.
pub open spec fn body_nodes(b: FactBody) -> int {
    match b {
        FactBody::Expression { nodes } => nodes as int,
        FactBody::FieldImport(f) => 23 + f.affected_controls@.len() as int,
    }
}

impl FactBody {
    /// Expression nodes of the body, or `usize::MAX` when the count does not fit.
    pub fn nodes(&self) -> (r: usize)
        ensures
            r == (if body_nodes(*self) <= usize::MAX { body_nodes(*self) } else { usize::MAX as int }),
    {
        match self {
            FactBody::Expression { nodes } => *nodes,
            FactBody::FieldImport(f) => f.affected_controls.len().saturating_add(23),
        }
    }
}

/// Evidence-backed construction project fact.
#[derive(Clone, Debug, PartialEq, Eq)]
pub struct ProjectFact {
    /// Monotone event sequence assigned by the project book writer.
    pub seq: u64,
    /// Stable construction project identity.
    pub project: ProjectId,
    /// Stable construction-control subject identity.
    pub subject: ControlId,
    /// Open fact kind symbol.
    pub kind: Symbol,
    /// Calendar date when the fact becomes effective for project control.
    pub effective_on: ProjectDate,
    /// Accountable project role that wrote the fact.
    pub actor_role: RoleId,
    /// Prior fact sequence corrected by this fact.
    pub supersedes: Option<u64>,
    /// Disclosure visibility for this fact.
    pub visibility: Visibility,
    /// Shape-ready body carried by the fact.
    pub body: FactBody,
    /// Reference-only external evidence links.
    pub evidence: Vec<ExternalRef>,
    /// Evidence state declared by the fact.
    pub evidence_state: EvidenceState,
}

/// The field a reference-only link leaves blank: backend, record id, or a
/// present but blank version or link.
pub open spec fn reference_fault(e: ExternalRef) -> Option<&'static str> {
    if is_blank(e.backend@) {
        Some("fact.evidence.backend")
    } else if is_blank(e.external_id@) {
        Some("fact.evidence.external_id")
    } else if e.version matches Some(v) && is_blank(v@) {
        Some("fact.evidence.version")
    } else if e.web_url matches Some(w) && is_blank(w@) {
        Some("fact.evidence.web_url")
    } else {
        None
    }
}

/// Evidence link `i` is the first blank-bearing one.
pub open spec fn first_reference_fault(evidence: Seq<ExternalRef>, i: int) -> bool {
    &&& 0 <= i < evidence.len()
    &&& reference_fault(evidence[i]) is Some
    &&& forall|j: int| 0 <= j < i ==> reference_fault(#[trigger] evidence[j]) is None
}

/// What `validate_bounds` answers for fact `f`: the first failed check in
/// the order sequence, project id, subject id, writer id, kind, body size,
/// evidence count, evidence links.
pub open spec fn fact_bounds_check(f: ProjectFact, r: Result<(), ConstructionProjectError>) -> bool {
    let ev = f.evidence@;
    if f.seq == 0 {
        r == Err::<(), ConstructionProjectError>(ConstructionProjectError::InvalidSequence { field: "fact.seq", sequence: 0 })
    } else if id_fault(f.project@) is Some {
        id_validation_result(r, "project", f.project@)
    } else if id_fault(f.subject@) is Some {
        id_validation_result(r, "control", f.subject@)
    } else if id_fault(f.actor_role@) is Some {
        id_validation_result(r, "role", f.actor_role@)
    } else if !symbol_unambiguous(f.kind.namespace_view(), f.kind.name_view()) {
        r matches Err(ConstructionProjectError::InvalidSymbol { value, reason }) && value@ == f.kind@
            && reason@ == "fact kind must be an unambiguous printable symbol"@
    } else if body_nodes(f.body) > MAX_FACT_BODY_NODES {
        r matches Err(ConstructionProjectError::FactBodyTooLarge { sequence, nodes, max }) && sequence == f.seq
            && nodes == (if body_nodes(f.body) <= usize::MAX { body_nodes(f.body) } else { usize::MAX as int })
            && max == MAX_FACT_BODY_NODES
    } else if ev.len() > MAX_FACT_EVIDENCE_REFS {
        r == Err::<(), ConstructionProjectError>(
            ConstructionProjectError::EvidenceLimitExceeded { sequence: f.seq, count: ev.len() as usize, max: MAX_FACT_EVIDENCE_REFS },
        )
    } else if exists|i: int| 0 <= i < ev.len() && reference_fault(#[trigger] ev[i]) is Some {
        exists|i: int| #[trigger] first_reference_fault(ev, i)
            && r == Err::<(), ConstructionProjectError>(ConstructionProjectError::EmptyField(reference_fault(ev[i])->0))
    } else {
        r is Ok
    }
}

fn check_reference(e: &ExternalRef) -> (r: Result<(), ConstructionProjectError>)
    ensures
        match reference_fault(*e) {
            None => r is Ok,
            Some(field) => r == Err::<(), ConstructionProjectError>(ConstructionProjectError::EmptyField(field)),
        },
{
    if text_is_blank(e.backend.as_str()) {
        return Err(ConstructionProjectError::EmptyField("fact.evidence.backend"));
    }
    if text_is_blank(e.external_id.as_str()) {
        return Err(ConstructionProjectError::EmptyField("fact.evidence.external_id"));
    }
    match &e.version {
        Some(v) => {
            if text_is_blank(v.as_str()) {
                return Err(ConstructionProjectError::EmptyField("fact.evidence.version"));
            }
        },
        None => {},
    }
    match &e.web_url {
        Some(w) => {
            if text_is_blank(w.as_str()) {
                return Err(ConstructionProjectError::EmptyField("fact.evidence.web_url"));
            }
        },
        None => {},
    }
    Ok(())
}

impl ProjectFact {
    /// Builds a project fact with accepted evidence state and no supersession.
    pub fn new(
        seq: u64,
        project: ProjectId,
        subject: ControlId,
        kind: Symbol,
        effective_on: ProjectDate,
        actor_role: RoleId,
        body: FactBody,
    ) -> (f: Self)
        ensures
            f == (ProjectFact {
                seq,
                project,
                subject,
                kind,
                effective_on,
                actor_role,
                supersedes: None,
                visibility: Visibility::Project,
                body,
                evidence: f.evidence,
                evidence_state: EvidenceState::Accepted,
            }),
            f.evidence@.len() == 0,
    {
        ProjectFact {
            seq,
            project,
            subject,
            kind,
            effective_on,
            actor_role,
            supersedes: None,
            visibility: Visibility::Project,
            body,
            evidence: Vec::new(),
            evidence_state: EvidenceState::Accepted,
        }
    }

    /// Sets the superseded sequence.
    pub fn supersedes(self, sequence: u64) -> (f: Self)
        ensures
            f == (ProjectFact { supersedes: Some(sequence), ..self }),
    {
        let mut f = self;
        f.supersedes = Some(sequence);
        f
    }

    /// Sets the disclosure visibility.
    pub fn with_visibility(self, visibility: Visibility) -> (f: Self)
        ensures
            f == (ProjectFact { visibility, ..self }),
    {
        let mut f = self;
        f.visibility = visibility;
        f
    }

    /// Adds a reference-only evidence link.
    pub fn with_evidence(self, evidence: ExternalRef) -> (f: Self)
        ensures
            f == (ProjectFact { evidence: f.evidence, ..self }),
            f.evidence@ == self.evidence@.push(evidence),
    {
        let mut f = self;
        f.evidence.push(evidence);
        f
    }

    /// Sets the declared evidence state.
    pub fn with_evidence_state(self, state: EvidenceState) -> (f: Self)
        ensures
            f == (ProjectFact { evidence_state: state, ..self }),
    {
        let mut f = self;
        f.evidence_state = state;
        f
    }

    /// Validates local fact bounds and sequence shape.
    #[verifier::loop_isolation(false)]
    pub fn validate_bounds(&self) -> (r: Result<(), ConstructionProjectError>)
        ensures
            fact_bounds_check(*self, r),
    {
        if self.seq == 0 {
            return Err(ConstructionProjectError::InvalidSequence { field: "fact.seq", sequence: self.seq });
        }
        match validate_id("project", self.project.as_str()) {
            Ok(()) => {},
            Err(e) => {
                return Err(e);
            },
        }
        match validate_id("control", self.subject.as_str()) {
            Ok(()) => {},
            Err(e) => {
                return Err(e);
            },
        }
        match validate_id("role", self.actor_role.as_str()) {
            Ok(()) => {},
            Err(e) => {
                return Err(e);
            },
        }
        if !self.kind.is_unambiguous() {
            let reason = "fact kind must be an unambiguous printable symbol";
            proof {
                reveal_strlit("fact kind must be an unambiguous printable symbol");
            }
            return Err(ConstructionProjectError::InvalidSymbol {
                value: self.kind.as_qualified_str().to_owned(),
                reason: reason.to_owned(),
            });
        }
        let nodes = self.body.nodes();
        if nodes > MAX_FACT_BODY_NODES {
            return Err(ConstructionProjectError::FactBodyTooLarge { sequence: self.seq, nodes, max: MAX_FACT_BODY_NODES });
        }
        if self.evidence.len() > MAX_FACT_EVIDENCE_REFS {
            return Err(ConstructionProjectError::EvidenceLimitExceeded {
                sequence: self.seq,
                count: self.evidence.len(),
                max: MAX_FACT_EVIDENCE_REFS,
            });
        }
        let ghost ev = self.evidence@;
        let mut i: usize = 0;
        while i < self.evidence.len()
            invariant
                ev == self.evidence@,
                i <= ev.len(),
                forall|j: int| 0 <= j < i ==> reference_fault(#[trigger] ev[j]) is None,
            decreases ev.len() - i,
        {
            match check_reference(&self.evidence[i]) {
                Ok(()) => {},
                Err(e) => {
                    proof {
                        assert(first_reference_fault(ev, i as int));
                    }
                    return Err(e);
                },
            }
            i = i + 1;
        }
        Ok(())
    }
}

} // verus!
