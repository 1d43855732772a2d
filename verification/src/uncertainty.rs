//! Risks and opportunities: their lifecycle, ratings and planned response.

use vstd::prelude::*;
use crate::date::ProjectDate;
use crate::error::ConstructionProjectError;
use crate::evidence::ExternalRef;
use crate::identity::{BaselineId, ControlId, ProjectId, RoleId};

verus! {

/// Whether an uncertainty threatens or favours the project.
#[derive(Clone, Copy, Debug, PartialEq, Eq, Structural)]
pub enum UncertaintyKind {
    /// Threat to project objectives.
    Risk,
    /// Chance to improve project objectives.
    Opportunity,
}

/// Lifecycle state of a risk or opportunity.
#[derive(Clone, Copy, Debug, PartialEq, Eq, Structural)]
pub enum UncertaintyState {
    /// Still uncertain and under control.
    Open,
    /// The risk happened; recorded at a project fact.
    RiskRealized {
        /// Fact recording the event.
        fact_seq: u64,
    },
    /// The opportunity was taken; recorded at a project fact.
    OpportunityCaptured {
        /// Fact recording the event.
        fact_seq: u64,
    },
    /// No longer under control; recorded at a project fact.
    Closed {
        /// Fact recording the closure.
        fact_seq: u64,
    },
}

/// Progress of a planned response.
#[derive(Clone, Copy, Debug, PartialEq, Eq, Structural)]
pub enum ResponseState {
    /// Planned and not started.
    Planned,
    /// Being carried out.
    InProgress,
    /// Carried out.
    Completed,
    /// Withdrawn without being carried out.
    Cancelled,
}

/// A response is open while it is planned or in progress.
pub open spec fn response_is_open(s: ResponseState) -> bool {
    s == ResponseState::Planned || s == ResponseState::InProgress
}

impl ResponseState {
    /// Returns true while the response is planned or in progress.
    pub fn is_open(self) -> (b: bool)
        ensures
            b == response_is_open(self),
    {
        match self {
            ResponseState::Planned | ResponseState::InProgress => true,
            _ => false,
        }
    }
}

/// Planned response to an uncertainty, with its dates and accountable authority.
#[derive(Debug, PartialEq, Eq)]
pub struct UncertaintyResponse {
    /// What will be done.
    pub action: String,
    /// Observation that calls for the response.
    pub trigger: String,
    /// Date by which the response is due.
    pub due_on: ProjectDate,
    /// Date on which the response decision is needed.
    pub decision_due_on: ProjectDate,
    /// Days of preparation the decision needs.
    pub decision_lead_days: u16,
    /// Role that decides on the response, when assigned.
    pub authority: Option<RoleId>,
    /// Fact at which the trigger was observed to cross, when it has.
    pub trigger_crossed_seq: Option<u64>,
    /// Progress of the response.
    pub state: ResponseState,
}

impl UncertaintyResponse {
    /// Plans a response with no authority and an uncrossed trigger.
    pub fn new(action: &str, trigger: &str, due_on: ProjectDate, decision_due_on: ProjectDate, decision_lead_days: u16) -> (r: Self)
        ensures
            r.action@ == action@,
            r.trigger@ == trigger@,
            r.due_on == due_on,
            r.decision_due_on == decision_due_on,
            r.decision_lead_days == decision_lead_days,
            r.authority is None,
            r.trigger_crossed_seq is None,
            r.state == ResponseState::Planned,
    {
        UncertaintyResponse {
            action: action.to_owned(),
            trigger: trigger.to_owned(),
            due_on,
            decision_due_on,
            decision_lead_days,
            authority: None,
            trigger_crossed_seq: None,
            state: ResponseState::Planned,
        }
    }

    /// Assigns the deciding authority.
    pub fn with_authority(self, authority: RoleId) -> (r: Self)
        ensures
            r == (UncertaintyResponse { authority: Some(authority), ..self }),
    {
        let mut r = self;
        r.authority = Some(authority);
        r
    }

    /// Records the fact at which the trigger crossed.
    pub fn trigger_crossed_at(self, fact_seq: u64) -> (r: Self)
        ensures
            r == (UncertaintyResponse { trigger_crossed_seq: Some(fact_seq), ..self }),
    {
        let mut r = self;
        r.trigger_crossed_seq = Some(fact_seq);
        r
    }

    /// Sets the progress of the response.
    pub fn with_state(self, state: ResponseState) -> (r: Self)
        ensures
            r == (UncertaintyResponse { state, ..self }),
    {
        let mut r = self;
        r.state = state;
        r
    }
}

/// A likelihood or impact rating on an open rating scheme.
#[derive(Debug, PartialEq, Eq)]
pub struct OpenRating {
    /// Rating scheme the level belongs to.
    pub scheme: String,
    /// Level on the scheme.
    pub level: String,
    /// Fact at which the rating was made.
    pub fact_seq: u64,
    /// Date of the rating.
    pub rated_on: ProjectDate,
    /// Basis of the rating.
    pub basis: String,
}

impl OpenRating {
    /// A qualitative rating on a named scheme.
    pub fn qualitative(scheme: &str, level: &str, fact_seq: u64, rated_on: ProjectDate, basis: &str) -> (r: Self)
        ensures
            r.scheme@ == scheme@,
            r.level@ == level@,
            r.fact_seq == fact_seq,
            r.rated_on == rated_on,
            r.basis@ == basis@,
    {
        OpenRating {
            scheme: scheme.to_owned(),
            level: level.to_owned(),
            fact_seq,
            rated_on,
            basis: basis.to_owned(),
        }
    }
}

impl Clone for OpenRating {
    fn clone(&self) -> (r: Self)
        ensures
            r == *self,
    {
        OpenRating {
            scheme: self.scheme.clone(),
            level: self.level.clone(),
            fact_seq: self.fact_seq,
            rated_on: self.rated_on,
            basis: self.basis.clone(),
        }
    }
}

/// A current risk or opportunity fact with its ratings and response.
#[derive(Debug, PartialEq, Eq)]
pub struct UncertaintyRecord {
    /// Project the uncertainty belongs to.
    pub project: ProjectId,
    /// Risk or opportunity control.
    pub control: ControlId,
    /// Current project fact of the uncertainty.
    pub fact_seq: u64,
    /// Accepted baseline the uncertainty is measured against.
    pub baseline: BaselineId,
    /// Scenario the uncertainty belongs to.
    pub scenario: ControlId,
    /// Risk or opportunity.
    pub kind: UncertaintyKind,
    /// Lifecycle state.
    pub state: UncertaintyState,
    /// Known condition giving rise to the uncertainty.
    pub cause: String,
    /// Uncertain event.
    pub event: String,
    /// Effect on the project should the event happen.
    pub effect: String,
    /// Role accountable for the response.
    pub owner: RoleId,
    /// Planned response.
    pub response: UncertaintyResponse,
    /// Likelihood rating.
    pub likelihood: OpenRating,
    /// Impact rating.
    pub impact: OpenRating,
    /// Project controls the uncertainty affects.
    pub affected_control_ids: Vec<ControlId>,
    /// Reference-only supporting evidence.
    pub evidence: Vec<ExternalRef>,
}

/// A rating made before the current uncertainty fact is stale.
pub open spec fn rating_is_stale(u: UncertaintyRecord) -> bool {
    u.likelihood.fact_seq < u.fact_seq || u.impact.fact_seq < u.fact_seq
}

/// What `UncertaintyRecord::validate` answers: the fact sequence is set,
/// no rating comes after the fact, and a realized or captured state agrees
/// with the kind (a risk is realized, an opportunity captured).
pub open spec fn uncertainty_check(u: UncertaintyRecord, r: Result<(), ConstructionProjectError>) -> bool {
    if u.fact_seq == 0 {
        r matches Err(ConstructionProjectError::InvalidSequence { field, sequence }) && field == "uncertainty.fact_seq"
            && sequence == 0
    } else if u.likelihood.fact_seq > u.fact_seq {
        r matches Err(ConstructionProjectError::InvalidSequence { field, sequence }) && field
            == "uncertainty.likelihood.fact_seq" && sequence == u.likelihood.fact_seq
    } else if u.impact.fact_seq > u.fact_seq {
        r matches Err(ConstructionProjectError::InvalidSequence { field, sequence }) && field
            == "uncertainty.impact.fact_seq" && sequence == u.impact.fact_seq
    } else if (u.state is RiskRealized && u.kind != UncertaintyKind::Risk) || (u.state is OpportunityCaptured
        && u.kind != UncertaintyKind::Opportunity) {
        r matches Err(ConstructionProjectError::UncertaintyDerivation { control, reason }) && control == u.control
            && reason == "uncertainty state does not agree with its kind"
    } else {
        r is Ok
    }
}

impl UncertaintyRecord {
    /// Records an open risk.
    pub fn risk(
        project: ProjectId,
        control: ControlId,
        fact_seq: u64,
        baseline: BaselineId,
        scenario: ControlId,
        cause: &str,
        event: &str,
        effect: &str,
        owner: RoleId,
        response: UncertaintyResponse,
        likelihood: OpenRating,
        impact: OpenRating,
    ) -> (u: Self)
        ensures
            u.project == project,
            u.control == control,
            u.fact_seq == fact_seq,
            u.baseline == baseline,
            u.scenario == scenario,
            u.kind == UncertaintyKind::Risk,
            u.state == UncertaintyState::Open,
            u.cause@ == cause@,
            u.event@ == event@,
            u.effect@ == effect@,
            u.owner == owner,
            u.response == response,
            u.likelihood == likelihood,
            u.impact == impact,
            u.affected_control_ids@.len() == 0,
            u.evidence@.len() == 0,
    {
        UncertaintyRecord {
            project,
            control,
            fact_seq,
            baseline,
            scenario,
            kind: UncertaintyKind::Risk,
            state: UncertaintyState::Open,
            cause: cause.to_owned(),
            event: event.to_owned(),
            effect: effect.to_owned(),
            owner,
            response,
            likelihood,
            impact,
            affected_control_ids: Vec::new(),
            evidence: Vec::new(),
        }
    }

    /// Adds an affected project control.
    pub fn affects(self, control: ControlId) -> (u: Self)
        ensures
            u == (UncertaintyRecord { affected_control_ids: u.affected_control_ids, ..self }),
            u.affected_control_ids@ == self.affected_control_ids@.push(control),
    {
        let mut u = self;
        u.affected_control_ids.push(control);
        u
    }

    /// Adds a reference-only evidence link.
    pub fn with_evidence(self, evidence: ExternalRef) -> (u: Self)
        ensures
            u == (UncertaintyRecord { evidence: u.evidence, ..self }),
            u.evidence@ == self.evidence@.push(evidence),
    {
        let mut u = self;
        u.evidence.push(evidence);
        u
    }

    /// Sets the lifecycle state.
    pub fn with_state(self, state: UncertaintyState) -> (u: Self)
        ensures
            u == (UncertaintyRecord { state, ..self }),
    {
        let mut u = self;
        u.state = state;
        u
    }

    /// True when a likelihood or impact rating predates the current fact.
    pub fn has_stale_rating(&self) -> (b: bool)
        ensures
            b == rating_is_stale(*self),
    {
        self.likelihood.fact_seq < self.fact_seq || self.impact.fact_seq < self.fact_seq
    }

    /// Checks the fact sequence, the rating sequences and that the state agrees with the kind.
    pub fn validate(&self) -> (r: Result<(), ConstructionProjectError>)
        ensures
            uncertainty_check(*self, r),
    {
        if self.fact_seq == 0 {
            return Err(ConstructionProjectError::InvalidSequence { field: "uncertainty.fact_seq", sequence: 0 });
        }
        if self.likelihood.fact_seq > self.fact_seq {
            return Err(ConstructionProjectError::InvalidSequence {
                field: "uncertainty.likelihood.fact_seq",
                sequence: self.likelihood.fact_seq,
            });
        }
        if self.impact.fact_seq > self.fact_seq {
            return Err(ConstructionProjectError::InvalidSequence {
                field: "uncertainty.impact.fact_seq",
                sequence: self.impact.fact_seq,
            });
        }
        let disagrees = match self.state {
            UncertaintyState::RiskRealized { .. } => self.kind != UncertaintyKind::Risk,
            UncertaintyState::OpportunityCaptured { .. } => self.kind != UncertaintyKind::Opportunity,
            _ => false,
        };
        if disagrees {
            return Err(ConstructionProjectError::UncertaintyDerivation {
                control: self.control.clone(),
                reason: "uncertainty state does not agree with its kind",
            });
        }
        Ok(())
    }
}

} // verus!
