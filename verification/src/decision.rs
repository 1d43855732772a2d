//! Accountable project decisions.

use vstd::prelude::*;
use crate::action::{refs_check, validate_refs};
use crate::date::ProjectDate;
use crate::error::ConstructionProjectError;
use crate::evidence::ExternalRef;
use crate::identity::{ControlId, ProjectId, RoleId};
use crate::text::{is_blank, text_is_blank};

verus! {

/// State of an accountable project decision.
#[derive(Clone, Copy, Debug, PartialEq, Eq, Structural)]
pub enum DecisionState {
    /// Decision is open.
    Open,
    /// Decision is escalated.
    Escalated,
    /// Decision is closed and must retain a resolution fact.
    Closed,
}

/// Resolution retained by a closed decision.
#[derive(Debug, PartialEq, Eq)]
pub struct DecisionResolution {
    /// Fact sequence carrying the resolution.
    pub fact_seq: u64,
    /// Role that made the decision.
    pub decided_by: RoleId,
    /// Decision outcome.
    pub outcome: String,
}

/// Accountable decision with authority, due date, escalation, consequence, and evidence.
#[derive(Debug, PartialEq, Eq)]
pub struct ProjectDecision {
    /// Stable construction project identity.
    pub project: ProjectId,
    /// Control subject for the decision.
    pub control: ControlId,
    /// Role that owns preparing the decision.
    pub owner: RoleId,
    /// Calendar due date.
    pub due_on: ProjectDate,
    /// Role authorized to decide.
    pub decision_authority: RoleId,
    /// Escalation target role.
    pub escalation_target: RoleId,
    /// Consequence when the decision is late.
    pub consequence: String,
    /// Decision state.
    pub state: DecisionState,
    /// Control ids this decision depends on.
    pub references: Vec<ControlId>,
    /// Reference-only evidence links.
    pub evidence: Vec<ExternalRef>,
    /// Resolution retained after closure.
    pub resolution: Option<DecisionResolution>,
}

/// What `ProjectDecision::validate_against(current, as_of_seq)` answers.
pub open spec fn decision_check(d: ProjectDecision, current: Seq<ControlId>, as_of_seq: u64, r: Result<(), ConstructionProjectError>) -> bool {
    if is_blank(d.consequence@) {
        r == Err::<(), ConstructionProjectError>(ConstructionProjectError::EmptyField("decision.consequence"))
    } else if d.evidence@.len() == 0 {
        r == Err::<(), ConstructionProjectError>(ConstructionProjectError::EmptyCollection("decision.evidence"))
    } else if d.state == DecisionState::Closed && d.resolution is None {
        r matches Err(ConstructionProjectError::MissingResolutionFact { kind, control }) && kind == "decision"
            && control == d.control
    } else if d.resolution matches Some(res) && res.fact_seq == 0 {
        r matches Err(ConstructionProjectError::InvalidSequence { field, sequence }) && field == "decision.resolution"
            && sequence == 0
    } else if d.resolution matches Some(res) && res.decided_by@ != d.decision_authority@ {
        r matches Err(ConstructionProjectError::DecisionAuthorityMismatch { decision, expected, actual })
            && decision == d.control && expected == d.decision_authority && actual == d.resolution->0.decided_by
    } else if d.resolution matches Some(res) && is_blank(res.outcome@) {
        r == Err::<(), ConstructionProjectError>(ConstructionProjectError::EmptyField("decision.resolution.outcome"))
    } else {
        refs_check(d.references@, current, as_of_seq, r)
    }
}

impl ProjectDecision {
    /// Builds an open project decision.
    pub fn new(
        project: ProjectId,
        control: ControlId,
        owner: RoleId,
        due_on: ProjectDate,
        decision_authority: RoleId,
        escalation_target: RoleId,
        consequence: &str,
    ) -> (d: Self)
        ensures
            d.project == project,
            d.control == control,
            d.owner == owner,
            d.due_on == due_on,
            d.decision_authority == decision_authority,
            d.escalation_target == escalation_target,
            d.consequence@ == consequence@,
            d.state == DecisionState::Open,
            d.references@.len() == 0,
            d.evidence@.len() == 0,
            d.resolution is None,
    {
        ProjectDecision {
            project,
            control,
            owner,
            due_on,
            decision_authority,
            escalation_target,
            consequence: consequence.to_owned(),
            state: DecisionState::Open,
            references: Vec::new(),
            evidence: Vec::new(),
            resolution: None,
        }
    }

    /// Sets the decision state.
    pub fn with_state(self, state: DecisionState) -> (d: Self)
        ensures
            d == (ProjectDecision { state, ..self }),
    {
        let mut d = self;
        d.state = state;
        d
    }

    /// Adds a control reference.
    pub fn with_reference(self, control: ControlId) -> (d: Self)
        ensures
            d == (ProjectDecision { references: d.references, ..self }),
            d.references@ == self.references@.push(control),
    {
        let mut d = self;
        d.references.push(control);
        d
    }

    /// Adds a reference-only evidence link.
    pub fn with_evidence(self, evidence: ExternalRef) -> (d: Self)
        ensures
            d == (ProjectDecision { evidence: d.evidence, ..self }),
            d.evidence@ == self.evidence@.push(evidence),
    {
        let mut d = self;
        d.evidence.push(evidence);
        d
    }

    /// Sets the resolution retained by a closed decision.
    pub fn with_resolution(self, resolution: DecisionResolution) -> (d: Self)
        ensures
            d == (ProjectDecision { resolution: Some(resolution), ..self }),
    {
        let mut d = self;
        d.resolution = Some(resolution);
        d
    }

    /// Validates required evidence, authority resolution, and referenced controls.
    pub fn validate_against(&self, current: &Vec<ControlId>, as_of_seq: u64) -> (r: Result<(), ConstructionProjectError>)
        ensures
            decision_check(*self, current@, as_of_seq, r),
    {
        if text_is_blank(self.consequence.as_str()) {
            return Err(ConstructionProjectError::EmptyField("decision.consequence"));
        }
        if self.evidence.len() == 0 {
            return Err(ConstructionProjectError::EmptyCollection("decision.evidence"));
        }
        if self.state == DecisionState::Closed && self.resolution.is_none() {
            return Err(ConstructionProjectError::MissingResolutionFact { kind: "decision", control: self.control.clone() });
        }
        match &self.resolution {
            Some(resolution) => {
                if resolution.fact_seq == 0 {
                    return Err(ConstructionProjectError::InvalidSequence { field: "decision.resolution", sequence: resolution.fact_seq });
                }
                if !resolution.decided_by.same(&self.decision_authority) {
                    return Err(ConstructionProjectError::DecisionAuthorityMismatch {
                        decision: self.control.clone(),
                        expected: self.decision_authority.clone(),
                        actual: resolution.decided_by.clone(),
                    });
                }
                if text_is_blank(resolution.outcome.as_str()) {
                    return Err(ConstructionProjectError::EmptyField("decision.resolution.outcome"));
                }
            },
            None => {},
        }
        validate_refs(&self.references, current, as_of_seq)
    }
}

} // verus!
