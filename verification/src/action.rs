//! Accountable project actions.
//!
//! Referenced controls are checked against the controls that are current in
//! a project snapshot, handed in as their ids together with the snapshot's
//! inclusive sequence.

use vstd::prelude::*;
use crate::date::ProjectDate;
use crate::error::ConstructionProjectError;
use crate::evidence::ExternalRef;
use crate::identity::{ControlId, ProjectId, RoleId};
use crate::text::{is_blank, text_is_blank};

verus! {

/// State of an accountable project action.
#[derive(Clone, Copy, Debug, PartialEq, Eq, Structural)]
pub enum ActionState {
    /// Action is open.
    Open,
    /// Action is escalated after the normal due path.
    Escalated,
    /// Action is closed and must retain a resolution fact.
    Closed,
}

/// Resolution retained by a closed action.
#[derive(Debug, PartialEq, Eq)]
pub struct ActionResolution {
    /// Fact sequence carrying the resolution.
    pub fact_seq: u64,
    /// Role that accepted the resolution.
    pub resolved_by: RoleId,
    /// Resolution summary.
    pub summary: String,
}

/// Accountable action with due date, escalation, consequence, state, and evidence.
#[derive(Debug, PartialEq, Eq)]
pub struct ProjectAction {
    /// Stable construction project identity.
    pub project: ProjectId,
    /// Control subject for the action.
    pub control: ControlId,
    /// Role that owns the action.
    pub owner: RoleId,
    /// Calendar due date.
    pub due_on: ProjectDate,
    /// Escalation target role.
    pub escalation_target: RoleId,
    /// Consequence when the action is not resolved.
    pub consequence: String,
    /// Action state.
    pub state: ActionState,
    /// Control ids this action depends on.
    pub references: Vec<ControlId>,
    /// Reference-only evidence links.
    pub evidence: Vec<ExternalRef>,
    /// Resolution retained after closure.
    pub resolution: Option<ActionResolution>,
}

/// `x` is one of the current control ids.
pub open spec fn is_current(current: Seq<ControlId>, x: Seq<char>) -> bool {
    exists|i: int| 0 <= i < current.len() && (#[trigger] current[i])@ == x
}

/// Reference `i` is not current.
pub open spec fn orphan_ref(refs: Seq<ControlId>, current: Seq<ControlId>, i: int) -> bool {
    0 <= i < refs.len() && !is_current(current, refs[i]@)
}

/// What `validate_refs(refs, current, as_of_seq)` answers: the first
/// reference that is not current, or success.
pub open spec fn refs_check(refs: Seq<ControlId>, current: Seq<ControlId>, as_of_seq: u64, r: Result<(), ConstructionProjectError>) -> bool {
    if exists|i: int| #[trigger] orphan_ref(refs, current, i) {
        exists|i: int| #[trigger] orphan_ref(refs, current, i) && (forall|j: int| 0 <= j < i ==> !#[trigger] orphan_ref(refs, current, j))
            && (r matches Err(ConstructionProjectError::OrphanControlRef { control, as_of_seq: s }) && control == refs[i]
            && s == as_of_seq)
    } else {
        r is Ok
    }
}

fn is_current_exec(current: &Vec<ControlId>, x: &ControlId) -> (b: bool)
    ensures
        b == is_current(current@, x@),
{
    let mut j: usize = 0;
    while j < current.len()
        invariant
            j <= current@.len(),
            forall|q: int| 0 <= q < j ==> (#[trigger] current@[q])@ != x@,
        decreases current.len() - j,
    {
        if current[j].same(x) {
            return true;
        }
        j = j + 1;
    }
    false
}

/// Requires every referenced control to be current in the snapshot whose
/// current control ids are `current` and whose inclusive sequence is `as_of_seq`.
pub fn validate_refs(references: &Vec<ControlId>, current: &Vec<ControlId>, as_of_seq: u64) -> (r: Result<(), ConstructionProjectError>)
    ensures
        refs_check(references@, current@, as_of_seq, r),
{
    let mut i: usize = 0;
    while i < references.len()
        invariant
            i <= references@.len(),
            forall|j: int| 0 <= j < i ==> !#[trigger] orphan_ref(references@, current@, j),
        decreases references.len() - i,
    {
        if !is_current_exec(current, &references[i]) {
            proof {
                assert(orphan_ref(references@, current@, i as int));
            }
            return Err(ConstructionProjectError::OrphanControlRef { control: references[i].clone(), as_of_seq });
        }
        i = i + 1;
    }
    proof {
        assert forall|j: int| !#[trigger] orphan_ref(references@, current@, j) by {
            if 0 <= j < references@.len() {
            }
        }
    }
    Ok(())
}

/// What `ProjectAction::validate_against(current, as_of_seq)` answers.
pub open spec fn action_check(a: ProjectAction, current: Seq<ControlId>, as_of_seq: u64, r: Result<(), ConstructionProjectError>) -> bool {
    if is_blank(a.consequence@) {
        r == Err::<(), ConstructionProjectError>(ConstructionProjectError::EmptyField("action.consequence"))
    } else if a.evidence@.len() == 0 {
        r == Err::<(), ConstructionProjectError>(ConstructionProjectError::EmptyCollection("action.evidence"))
    } else if a.state == ActionState::Closed && a.resolution is None {
        r matches Err(ConstructionProjectError::MissingResolutionFact { kind, control }) && kind == "action"
            && control == a.control
    } else if a.resolution matches Some(res) && res.fact_seq == 0 {
        r matches Err(ConstructionProjectError::InvalidSequence { field, sequence }) && field == "action.resolution"
            && sequence == 0
    } else if a.resolution matches Some(res) && is_blank(res.summary@) {
        r == Err::<(), ConstructionProjectError>(ConstructionProjectError::EmptyField("action.resolution.summary"))
    } else {
        refs_check(a.references@, current, as_of_seq, r)
    }
}

/// Rejects a resolution carried by sequence zero.
pub fn validate_resolution(field: &'static str, sequence: u64) -> (r: Result<(), ConstructionProjectError>)
    ensures
        sequence == 0 ==> r == Err::<(), ConstructionProjectError>(ConstructionProjectError::InvalidSequence { field, sequence }),
        sequence != 0 ==> r is Ok,
{
    if sequence == 0 {
        return Err(ConstructionProjectError::InvalidSequence { field, sequence });
    }
    Ok(())
}

impl ProjectAction {
    /// Builds an open project action.
    pub fn new(
        project: ProjectId,
        control: ControlId,
        owner: RoleId,
        due_on: ProjectDate,
        escalation_target: RoleId,
        consequence: &str,
    ) -> (a: Self)
        ensures
            a.project == project,
            a.control == control,
            a.owner == owner,
            a.due_on == due_on,
            a.escalation_target == escalation_target,
            a.consequence@ == consequence@,
            a.state == ActionState::Open,
            a.references@.len() == 0,
            a.evidence@.len() == 0,
            a.resolution is None,
    {
        ProjectAction {
            project,
            control,
            owner,
            due_on,
            escalation_target,
            consequence: consequence.to_owned(),
            state: ActionState::Open,
            references: Vec::new(),
            evidence: Vec::new(),
            resolution: None,
        }
    }

    /// Sets the action state.
    pub fn with_state(self, state: ActionState) -> (a: Self)
        ensures
            a == (ProjectAction { state, ..self }),
    {
        let mut a = self;
        a.state = state;
        a
    }

    /// Adds a control reference.
    pub fn with_reference(self, control: ControlId) -> (a: Self)
        ensures
            a == (ProjectAction { references: a.references, ..self }),
            a.references@ == self.references@.push(control),
    {
        let mut a = self;
        a.references.push(control);
        a
    }

    /// Adds a reference-only evidence link.
    pub fn with_evidence(self, evidence: ExternalRef) -> (a: Self)
        ensures
            a == (ProjectAction { evidence: a.evidence, ..self }),
            a.evidence@ == self.evidence@.push(evidence),
    {
        let mut a = self;
        a.evidence.push(evidence);
        a
    }

    /// Sets the resolution retained by a closed action.
    pub fn with_resolution(self, resolution: ActionResolution) -> (a: Self)
        ensures
            a == (ProjectAction { resolution: Some(resolution), ..self }),
    {
        let mut a = self;
        a.resolution = Some(resolution);
        a
    }

    /// Validates required evidence, resolution, and referenced controls.
    pub fn validate_against(&self, current: &Vec<ControlId>, as_of_seq: u64) -> (r: Result<(), ConstructionProjectError>)
        ensures
            action_check(*self, current@, as_of_seq, r),
    {
        if text_is_blank(self.consequence.as_str()) {
            return Err(ConstructionProjectError::EmptyField("action.consequence"));
        }
        if self.evidence.len() == 0 {
            return Err(ConstructionProjectError::EmptyCollection("action.evidence"));
        }
        if self.state == ActionState::Closed && self.resolution.is_none() {
            return Err(ConstructionProjectError::MissingResolutionFact { kind: "action", control: self.control.clone() });
        }
        match &self.resolution {
            Some(resolution) => {
                match validate_resolution("action.resolution", resolution.fact_seq) {
                    Ok(()) => {},
                    Err(e) => {
                        return Err(e);
                    },
                }
                if text_is_blank(resolution.summary.as_str()) {
                    return Err(ConstructionProjectError::EmptyField("action.resolution.summary"));
                }
            },
            None => {},
        }
        validate_refs(&self.references, current, as_of_seq)
    }
}

} // verus!
