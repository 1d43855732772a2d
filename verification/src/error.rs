//! Validation errors for construction project-control records.

use vstd::prelude::*;
use crate::date::ProjectDate;
use crate::forecast::ForecastConsequenceKind;
use crate::identity::{ChangeId, ControlId, ProjectId, RoleId};

verus! {

/// Validation error for construction project-control records.
#[derive(Debug, PartialEq, Eq)]
pub enum ConstructionProjectError {
    /// A stable identifier was empty.
    EmptyId { kind: &'static str },
    /// A stable identifier exceeded the bounded identifier length.
    IdTooLong { kind: &'static str, value: String, max: usize },
    /// A stable identifier contained whitespace or trim-sensitive text.
    WhitespaceAmbiguousId { kind: &'static str, value: String },
    /// A stable identifier contained a path separator.
    SlashBearingId { kind: &'static str, value: String },
    /// A stable identifier used a reserved sentinel value.
    ReservedId { kind: &'static str, value: String },
    /// A stable identifier contained unsupported characters.
    UnsupportedIdCharacters { kind: &'static str, value: String },
    /// A project currency was not in the supported ISO 4217 project set.
    UnknownCurrency(String),
    /// A required text field was empty.
    EmptyField(&'static str),
    /// A required list was empty.
    EmptyCollection(&'static str),
    /// A day count was outside `1..=max_days`.
    InvalidDueDatePolicy { field: &'static str, max_days: u16 },
    /// A charter had no project objectives.
    EmptyObjectives,
    /// A record reused a stable identifier within the same control scope.
    DuplicateId { kind: &'static str, id: String },
    /// A restricted visibility symbol was not allowed by the visibility policy.
    RestrictedVisibilityDenied { symbol: String },
    /// A role escalated to a role not present in the governance record.
    MissingEscalationTarget { role: RoleId, target: RoleId },
    /// Role escalation edges formed an authority cycle.
    AuthorityCycle(RoleId),
    /// A record belonged to a different project.
    ProjectMismatch { expected: ProjectId, actual: ProjectId },
    /// A control-graph edge named an endpoint that is not present as a node.
    ControlGraphMissingEndpoint { edge: &'static str, endpoint_role: &'static str, endpoint: ControlId },
    /// A control-graph edge reused an existing source, target, and kind.
    DuplicateControlGraphEdge { kind: &'static str, from: ControlId, target: ControlId },
    /// A non-informational control-graph cycle would make readiness recursive.
    ControlGraphCycle { cycle: Vec<ControlId> },
    /// A fact kind symbol was empty, slash-bearing or unprintable.
    InvalidSymbol { value: String, reason: String },
    /// A fact append attempted to move backward or reuse the current tail.
    OutOfOrderSequence { last_sequence: u64, next_sequence: u64 },
    /// A fact was written by a role other than the book's authoritative writer.
    WriterMismatch { expected: RoleId, actual: RoleId },
    /// A project book reached its configured fact count bound.
    FactLimitExceeded { max: usize },
    /// A fact body exceeded the expression node bound.
    FactBodyTooLarge { sequence: u64, nodes: usize, max: usize },
    /// A fact exceeded the reference-only evidence count bound.
    EvidenceLimitExceeded { sequence: u64, count: usize, max: usize },
    /// A superseding fact pointed at a missing prior sequence.
    MissingSupersededFact { sequence: u64, supersedes: u64 },
    /// A supersession edge was not a valid backward correction edge.
    InvalidSupersession { sequence: u64, supersedes: u64, reason: &'static str },
    /// A superseding fact targeted a different subject than its predecessor.
    SupersessionSubjectMismatch { sequence: u64, supersedes: u64, expected: ControlId, actual: ControlId },
    /// More than one fact tried to supersede the same prior sequence.
    SupersessionFork { supersedes: u64, existing: u64, attempted: u64 },
    /// A sequence number was invalid for its field.
    InvalidSequence { field: &'static str, sequence: u64 },
    /// A record referenced a control absent from the snapshot.
    OrphanControlRef { control: ControlId, as_of_seq: u64 },
    /// An accountable item was closed without a resolution fact.
    MissingResolutionFact { kind: &'static str, control: ControlId },
    /// A project decision was closed by a role that lacks matching authority.
    DecisionAuthorityMismatch { decision: ControlId, expected: RoleId, actual: RoleId },
    /// A gate decision was made by a role that lacks matching authority.
    ApprovalAuthorityMismatch { gate: ControlId, expected: RoleId, actual: RoleId },
    /// A gate decision pointed at a different gate than the report.
    GateMismatch { expected: ControlId, actual: ControlId },
    /// A gate approval used a different sequence than the derived report.
    GateSequenceMismatch { gate: ControlId, report_seq: u64, decision_seq: u64 },
    /// A gate approval tried to approve an unready derived report.
    GateReportNotReady { gate: ControlId },
    /// A policy operation was attempted without the required capability.
    MissingCapability { capability: &'static str },
    /// An exception decision was made by a role that lacks matching authority.
    ExceptionAuthorityMismatch { exception: ControlId, expected: RoleId, actual: RoleId },
    /// An exception expired before the policy evaluation date.
    ExpiredException { exception: ControlId, expired_on: ProjectDate, as_of_date: ProjectDate },
    /// A commercial amount used a currency different from the project charter.
    CurrencyMismatch { field: &'static str, expected: String, actual: String },
    /// Checked commercial amount arithmetic overflowed.
    AmountOverflow { field: &'static str },
    /// A referenced external value carried no version or as-of marker.
    MissingChangeAsOfMarker { reference: String },
    /// A change-chain invariant failed closed.
    ChangeDerivation { change: ChangeId, reason: &'static str },
    /// A forecast consequence carried a value incompatible with its kind.
    ForecastValueMismatch { consequence: ControlId, kind: ForecastConsequenceKind },
    /// An uncertainty or consequence derivation failed closed.
    UncertaintyDerivation { control: ControlId, reason: &'static str },
    /// A change fact failed a chain invariant.
    ChangeFactDerivation { fact: ControlId, reason: &'static str },
    /// Two facts carried the same sequence.
    DuplicateSequence { sequence: u64 },
    /// A closure total did not match the final settlement total (amounts in minor units).
    ChangeSettlementMismatch { change: ChangeId, side: &'static str, settlement: i64, closure: i64 },
    /// A commercial fact included both a summarized parent and its child.
    ChangeAmountDoubleCount { parent: ControlId, child: ControlId },
    /// A record was compared with a baseline before the baseline was accepted.
    StaleBaselineComparison { baseline: ControlId, accepted_seq: u64, as_of_seq: u64 },
    /// A design record names a design revision that the set does not hold.
    MissingDesignRevision { kind: &'static str, control: ControlId, revision: ControlId },
    /// More than one current design revision affects the same control.
    ConflictingDesignRevisions { affected: ControlId, revisions: Vec<ControlId> },
    /// A release was made against a superseded revision and not revalidated.
    StaleDesignRelease { release: ControlId, revision: ControlId, superseding: ControlId },
    /// A design release was released by a role other than its release authority.
    DesignReleaseAuthorityMismatch { release: ControlId, expected: RoleId, actual: RoleId },
    /// A non-waivable blocker stands against production readiness.
    NonWaivableProductionBlocker { target: ControlId, blocker: ControlId },
    /// No package handoff with the requested control id exists.
    MissingPackageHandoff { handoff: ControlId },
    /// The procurement or design report is for another package than the handoff.
    HandoffPackageMismatch { handoff: ControlId, expected: ControlId },
}

} // verus!
