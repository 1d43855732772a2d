//! Accepted construction control baselines and the schedule facts joined to them.

use vstd::prelude::*;
use crate::date::ProjectDate;
use crate::error::ConstructionProjectError;
use crate::evidence::ExternalRef;
use crate::identity::{BaselineId, ControlId, ProjectId, RoleId};

verus! {

/// Accepted baseline lane.
#[derive(Clone, Copy, Debug, PartialEq, Eq, Structural)]
pub enum BaselineKind {
    /// Scope baseline.
    Scope,
    /// Time baseline.
    Time,
    /// Commercial baseline.
    Commercial,
    /// Obligation baseline.
    Obligations,
    /// Organization baseline.
    Organization,
    /// Reporting baseline.
    Reporting,
}

/// Accepted construction project baseline.
#[derive(Debug, PartialEq, Eq)]
pub struct AcceptedBaseline {
    /// Stable baseline identity.
    pub id: BaselineId,
    /// Stable project identity.
    pub project: ProjectId,
    /// Control subject holding the baseline acceptance fact.
    pub control: ControlId,
    /// Baseline lane.
    pub kind: BaselineKind,
    /// Role that accepted the baseline.
    pub accepted_by: RoleId,
    /// Book sequence where the baseline was accepted.
    pub accepted_seq: u64,
    /// Calendar date of acceptance.
    pub accepted_on: ProjectDate,
    /// Reference-only evidence for the acceptance.
    pub evidence: Vec<ExternalRef>,
}

/// What `AcceptedBaseline::validate` answers: an acceptance sequence is set
/// and evidence is attached.
pub open spec fn baseline_check(b: AcceptedBaseline, r: Result<(), ConstructionProjectError>) -> bool {
    if b.accepted_seq == 0 {
        r matches Err(ConstructionProjectError::InvalidSequence { field, sequence }) && field == "baseline.accepted_seq"
            && sequence == 0
    } else if b.evidence@.len() == 0 {
        r == Err::<(), ConstructionProjectError>(ConstructionProjectError::EmptyCollection("baseline.evidence"))
    } else {
        r is Ok
    }
}

impl AcceptedBaseline {
    /// Builds an accepted baseline without evidence.
    pub fn new(
        id: BaselineId,
        project: ProjectId,
        control: ControlId,
        kind: BaselineKind,
        accepted_by: RoleId,
        accepted_seq: u64,
        accepted_on: ProjectDate,
    ) -> (b: Self)
        ensures
            b.id == id,
            b.project == project,
            b.control == control,
            b.kind == kind,
            b.accepted_by == accepted_by,
            b.accepted_seq == accepted_seq,
            b.accepted_on == accepted_on,
            b.evidence@.len() == 0,
    {
        AcceptedBaseline { id, project, control, kind, accepted_by, accepted_seq, accepted_on, evidence: Vec::new() }
    }

    /// Adds a reference-only evidence link.
    pub fn with_evidence(self, evidence: ExternalRef) -> (b: Self)
        ensures
            b == (AcceptedBaseline { evidence: b.evidence, ..self }),
            b.evidence@ == self.evidence@.push(evidence),
    {
        let mut b = self;
        b.evidence.push(evidence);
        b
    }

    /// Validates the accepted baseline record.
    pub fn validate(&self) -> (r: Result<(), ConstructionProjectError>)
        ensures
            baseline_check(*self, r),
    {
        if self.accepted_seq == 0 {
            return Err(ConstructionProjectError::InvalidSequence { field: "baseline.accepted_seq", sequence: 0 });
        }
        if self.evidence.len() == 0 {
            return Err(ConstructionProjectError::EmptyCollection("baseline.evidence"));
        }
        Ok(())
    }
}

/// The accepted schedule baseline a join set was made against.
#[derive(Debug, PartialEq, Eq)]
pub struct ScheduleBaseline {
    /// Accepted baseline id.
    pub baseline: BaselineId,
    /// Schedule plan name.
    pub plan: String,
    /// Accepted plan revision.
    pub accepted_revision: String,
    /// Book sequence of the acceptance.
    pub accepted_seq: u64,
}

/// The plan revision a join set reads.
#[derive(Debug, PartialEq, Eq)]
pub struct SchedulePlanRevision {
    /// Schedule plan name.
    pub plan: String,
    /// Plan revision.
    pub revision: String,
    /// Book sequence the revision is read at.
    pub as_of_seq: u64,
}

/// What a schedule task joins to.
#[derive(Clone, Copy, Debug, PartialEq, Eq, Structural)]
pub enum ScheduleJoinKind {
    /// A work package.
    Package,
    /// A single activity.
    Activity,
    /// A milestone.
    Milestone,
}

/// A project control joined to a schedule task.
#[derive(Debug, PartialEq, Eq)]
pub struct ScheduleTaskJoin {
    /// Joined project control.
    pub control: ControlId,
    /// Schedule task id.
    pub task_id: String,
    /// What the task is to the control.
    pub kind: ScheduleJoinKind,
}

/// Project controls joined to tasks of an accepted schedule revision.
#[derive(Debug, PartialEq, Eq)]
pub struct ScheduleTaskJoinSet {
    /// Accepted schedule baseline.
    pub baseline: ScheduleBaseline,
    /// Plan revision read.
    pub revision: SchedulePlanRevision,
    /// Task joins.
    pub joins: Vec<ScheduleTaskJoin>,
}

/// Schedule status of an accepted revision: which tasks are critical.
#[derive(Debug, PartialEq, Eq)]
pub struct ScheduleStatusReport {
    /// Accepted schedule baseline.
    pub baseline: BaselineId,
    /// Accepted plan revision.
    pub accepted_revision: String,
    /// Book sequence the status is read at.
    pub as_of_seq: u64,
    /// Critical task ids.
    pub critical_tasks: Vec<String>,
}

} // verus!
