//! Shared field-control records and safety-first project rollups.

use vstd::prelude::*;
use vstd::seq_lib::{to_multiset_build, to_multiset_insert};
use crate::date::ProjectDate;
use crate::error::ConstructionProjectError;
use crate::evidence::{EvidenceState, ExternalRef};
use crate::identity::{ControlId, ProjectId, RoleId};
use crate::order::{lemma_lex_asymmetric, lemma_lex_irreflexive, lemma_lex_transitive, lex_lt, text_precedes};
use crate::text::{is_blank, text_is_blank};

verus! {

/// Kind of field reality represented by a project-control item.
#[derive(Clone, Copy, Debug, PartialEq, Eq, Structural)]
pub enum FieldItemKind {
    /// General production observation.
    Observation,
    /// Deviation from an accepted requirement or method.
    Deviation,
    /// Safety, work-environment, environmental, quality, or production incident.
    Incident,
    /// Planned or performed inspection point.
    InspectionPoint,
    /// Planned or performed test point.
    TestPoint,
    /// Confirmed defect.
    Defect,
    /// Action intended to correct a field condition.
    CorrectiveAction,
    /// Reference to an item retained by an external field system.
    ExternalReference,
}

/// Project-control lane used for field-item reporting and rollup.
#[derive(Clone, Copy, Debug, PartialEq, Eq, Structural)]
pub enum FieldLane {
    /// Immediate physical safety.
    Safety,
    /// Occupational health and work environment.
    WorkEnvironment,
    /// Production progress and readiness.
    Progress,
    /// Quality and conformance.
    Quality,
    /// Environmental performance or harm.
    Environment,
    /// Convenience or presentation without a production blocker.
    Convenience,
}

/// Consequence severity carried independently from the field-item lane.
#[derive(Clone, Copy, Debug, PartialEq, Eq, Structural, PartialOrd, Ord)]
pub enum FieldSeverity {
    /// Harm is occurring or can occur before the normal control cycle reacts.
    Imminent,
    /// Critical consequence requiring immediate accountable attention.
    Critical,
    /// Major consequence that blocks or materially impairs controlled work.
    Major,
    /// Moderate consequence within the normal control cycle.
    Moderate,
    /// Minor consequence with bounded local impact.
    Minor,
    /// Informational signal with no present adverse consequence.
    Information,
}

/// Lifecycle state shared by field-control items.
#[derive(Clone, Copy, Debug, PartialEq, Eq, Structural)]
pub enum FieldItemState {
    /// Newly reported and awaiting triage.
    Reported,
    /// Accepted into active control.
    Open,
    /// Work is in progress.
    InProgress,
    /// Work or acceptance is blocked.
    Blocked,
    /// A correction is reported but awaits acceptance.
    Corrected,
    /// Accountable control is closed.
    Closed,
    /// The report or proposed result was rejected.
    Rejected,
}

/// Every state but `Closed` stays active in a field-control rollup.
pub open spec fn state_active(s: FieldItemState) -> bool {
    s != FieldItemState::Closed
}

impl FieldItemState {
    /// Returns whether the item remains active in a field-control rollup.
    pub fn is_active(self) -> (b: bool)
        ensures
            b == state_active(self),
    {
        self != FieldItemState::Closed
    }
}

/// Common accountable record carried by every field-control item.
#[derive(Debug, PartialEq, Eq)]
pub struct FieldItem {
    /// Stable construction project identity.
    pub project: ProjectId,
    /// Stable control id for this item.
    pub control: ControlId,
    /// Field reality represented by this item.
    pub kind: FieldItemKind,
    /// Consequence severity, independent from lane and requirement policy.
    pub severity: FieldSeverity,
    /// Project-control lane.
    pub lane: FieldLane,
    /// Role accountable for the next state transition.
    pub responsible_role: RoleId,
    /// Calendar due date, when the item has one.
    pub due_on: Option<ProjectDate>,
    /// Project controls affected by this item.
    pub affected_control_ids: Vec<ControlId>,
    /// Current item state.
    pub state: FieldItemState,
    /// Current evidence state.
    pub evidence_state: EvidenceState,
    /// True when the governing requirement cannot be waived.
    pub non_waivable: bool,
    /// Reference-only supporting evidence.
    pub evidence: Vec<ExternalRef>,
}

/// The item is active and its due date falls strictly before `as_of`.
pub open spec fn overdue(item: FieldItem, as_of: ProjectDate) -> bool {
    state_active(item.state) && (item.due_on matches Some(d) && d.julian_day < as_of.julian_day)
}

/// What `validate` answers for a field item.
pub open spec fn field_item_check(item: FieldItem, r: Result<(), ConstructionProjectError>) -> bool {
    if item.affected_control_ids@.len() == 0 {
        r == Err::<(), ConstructionProjectError>(ConstructionProjectError::EmptyCollection("field_item.affected_control_ids"))
    } else if (item.state == FieldItemState::Corrected || item.state == FieldItemState::Closed)
        && (item.evidence@.len() == 0 || item.evidence_state != EvidenceState::Accepted) {
        r == Err::<(), ConstructionProjectError>(ConstructionProjectError::EmptyCollection("field_item.accepted_evidence"))
    } else {
        r is Ok
    }
}

impl FieldItem {
    /// Builds a reported field-control item.
    pub fn new(
        project: ProjectId,
        control: ControlId,
        kind: FieldItemKind,
        severity: FieldSeverity,
        lane: FieldLane,
        responsible_role: RoleId,
    ) -> (item: Self)
        ensures
            item.project == project,
            item.control == control,
            item.kind == kind,
            item.severity == severity,
            item.lane == lane,
            item.responsible_role == responsible_role,
            item.due_on is None,
            item.affected_control_ids@.len() == 0,
            item.state == FieldItemState::Reported,
            item.evidence_state == EvidenceState::Reported,
            !item.non_waivable,
            item.evidence@.len() == 0,
    {
        FieldItem {
            project,
            control,
            kind,
            severity,
            lane,
            responsible_role,
            due_on: None,
            affected_control_ids: Vec::new(),
            state: FieldItemState::Reported,
            evidence_state: EvidenceState::Reported,
            non_waivable: false,
            evidence: Vec::new(),
        }
    }

    /// Sets the due date.
    pub fn due_on(self, due_on: ProjectDate) -> (item: Self)
        ensures
            item == (FieldItem { due_on: Some(due_on), ..self }),
    {
        let mut item = self;
        item.due_on = Some(due_on);
        item
    }

    /// Adds an affected project control.
    pub fn affects(self, control: ControlId) -> (item: Self)
        ensures
            item == (FieldItem { affected_control_ids: item.affected_control_ids, ..self }),
            item.affected_control_ids@ == self.affected_control_ids@.push(control),
    {
        let mut item = self;
        item.affected_control_ids.push(control);
        item
    }

    /// Sets the item state.
    pub fn with_state(self, state: FieldItemState) -> (item: Self)
        ensures
            item == (FieldItem { state, ..self }),
    {
        let mut item = self;
        item.state = state;
        item
    }

    /// Sets consequence severity.
    pub fn with_severity(self, severity: FieldSeverity) -> (item: Self)
        ensures
            item == (FieldItem { severity, ..self }),
    {
        let mut item = self;
        item.severity = severity;
        item
    }

    /// Sets the evidence state.
    pub fn with_evidence_state(self, evidence_state: EvidenceState) -> (item: Self)
        ensures
            item == (FieldItem { evidence_state, ..self }),
    {
        let mut item = self;
        item.evidence_state = evidence_state;
        item
    }

    /// Marks the governing requirement as non-waivable.
    pub fn non_waivable(self) -> (item: Self)
        ensures
            item == (FieldItem { non_waivable: true, ..self }),
    {
        let mut item = self;
        item.non_waivable = true;
        item
    }

    /// Adds a reference-only evidence link.
    pub fn with_evidence(self, evidence: ExternalRef) -> (item: Self)
        ensures
            item == (FieldItem { evidence: item.evidence, ..self }),
            item.evidence@ == self.evidence@.push(evidence),
    {
        let mut item = self;
        item.evidence.push(evidence);
        item
    }

    /// Returns whether the item is overdue and remains active.
    pub fn is_overdue(&self, as_of: ProjectDate) -> (b: bool)
        ensures
            b == overdue(*self, as_of),
    {
        self.state.is_active() && match self.due_on {
            Some(d) => d.before(&as_of),
            None => false,
        }
    }

    /// Validates the common field-control invariants.
    pub fn validate(&self) -> (r: Result<(), ConstructionProjectError>)
        ensures
            field_item_check(*self, r),
    {
        if self.affected_control_ids.len() == 0 {
            return Err(ConstructionProjectError::EmptyCollection("field_item.affected_control_ids"));
        }
        if (self.state == FieldItemState::Corrected || self.state == FieldItemState::Closed) && (self.evidence.len() == 0
            || !self.evidence_state.satisfies_required_evidence()) {
            return Err(ConstructionProjectError::EmptyCollection("field_item.accepted_evidence"));
        }
        Ok(())
    }
}

/// Stable correlation to an externally retained field item.
///
/// The type deliberately has no payload, attachment, credential, or URL field.
#[derive(Debug, PartialEq, Eq, PartialOrd, Ord)]
pub struct FieldItemReference {
    /// Stable source namespace, normally a registered site id.
    pub source: String,
    /// Source-local stable item id.
    pub external_id: String,
    /// Optional source revision or state marker.
    pub version: Option<String>,
}

impl FieldItemReference {
    /// Builds a stable field-item correlation.
    pub fn new(source: &str, external_id: &str, version: Option<String>) -> (r: Result<Self, ConstructionProjectError>)
        ensures
            is_blank(source@) ==> r == Err::<Self, ConstructionProjectError>(
                ConstructionProjectError::EmptyField("field_item_reference.source"),
            ),
            !is_blank(source@) && is_blank(external_id@) ==> r == Err::<Self, ConstructionProjectError>(
                ConstructionProjectError::EmptyField("field_item_reference.external_id"),
            ),
            !is_blank(source@) && !is_blank(external_id@) ==> (r matches Ok(f) && f.source@ == source@
                && f.external_id@ == external_id@ && f.version == version),
    {
        if text_is_blank(source) {
            return Err(ConstructionProjectError::EmptyField("field_item_reference.source"));
        }
        if text_is_blank(external_id) {
            return Err(ConstructionProjectError::EmptyField("field_item_reference.external_id"));
        }
        Ok(FieldItemReference { source: source.to_owned(), external_id: external_id.to_owned(), version })
    }

    /// Projects the correlation as a URL-free external reference.
    pub fn as_external_ref(&self) -> (r: ExternalRef)
        ensures
            r.backend@ == self.source@,
            r.external_id@ == self.external_id@,
            r.version == self.version,
            r.web_url is None,
    {
        let version = match &self.version {
            Some(v) => Some(v.clone()),
            None => None,
        };
        ExternalRef::new(self.source.as_str(), self.external_id.as_str(), version, None)
    }
}

/// One derived safety-first rollup row.
#[derive(Debug, PartialEq, Eq)]
pub struct FieldRollupEntry {
    /// Stable field-item control id.
    pub control: ControlId,
    /// Item kind.
    pub kind: FieldItemKind,
    /// Item lane.
    pub lane: FieldLane,
    /// Item severity.
    pub severity: FieldSeverity,
    /// Whether the governing requirement is non-waivable.
    pub non_waivable: bool,
    /// Whether the item is overdue as of the rollup date.
    pub overdue: bool,
    /// Calendar due date, when the item has one.
    pub due_on: Option<ProjectDate>,
    /// Current item state.
    pub state: FieldItemState,
}

/// The rollup row derived from one field item.
pub open spec fn rollup_row(item: FieldItem, as_of: ProjectDate) -> FieldRollupEntry {
    FieldRollupEntry {
        control: item.control,
        kind: item.kind,
        lane: item.lane,
        severity: item.severity,
        non_waivable: item.non_waivable,
        overdue: overdue(item, as_of),
        due_on: item.due_on,
        state: item.state,
    }
}

/// Rank of an active item's lane, after imminent safety and non-waivable items.
pub open spec fn lane_group(lane: FieldLane) -> int {
    match lane {
        FieldLane::Safety => 2,
        FieldLane::WorkEnvironment => 3,
        FieldLane::Progress => 4,
        FieldLane::Quality => 5,
        FieldLane::Environment => 6,
        FieldLane::Convenience => 7,
    }
}

/// Priority group of a row: imminent safety or work-environment harm first,
/// then non-waivable items, then active items by lane, closed items last.
pub open spec fn row_group(row: FieldRollupEntry) -> int {
    if state_active(row.state) && row.severity == FieldSeverity::Imminent && (row.lane == FieldLane::Safety
        || row.lane == FieldLane::WorkEnvironment) {
        0
    } else if state_active(row.state) && row.non_waivable {
        1
    } else if !state_active(row.state) {
        8
    } else {
        lane_group(row.lane)
    }
}

/// Rank of a severity, most severe first.
pub open spec fn severity_position(s: FieldSeverity) -> int {
    match s {
        FieldSeverity::Imminent => 0,
        FieldSeverity::Critical => 1,
        FieldSeverity::Major => 2,
        FieldSeverity::Moderate => 3,
        FieldSeverity::Minor => 4,
        FieldSeverity::Information => 5,
    }
}

/// The leading part of the rollup order as one number: priority group,
/// then non-waivable first, then severity, then overdue first.
pub open spec fn row_rank(row: FieldRollupEntry) -> int {
    row_group(row) * 1000 + (if row.non_waivable { 0int } else { 1 }) * 100 + severity_position(row.severity) * 10 + (
    if row.overdue { 0int } else { 1 })
}

/// Due dates in rollup order: no due date first, then earlier dates.
pub open spec fn due_before(a: Option<ProjectDate>, b: Option<ProjectDate>) -> bool {
    match (a, b) {
        (None, Some(_)) => true,
        (Some(x), Some(y)) => x.julian_day < y.julian_day,
        _ => false,
    }
}

/// Row `a` comes strictly before row `b` in the safety-first rollup:
/// by rank, then due date, then control id.
pub open spec fn row_before(a: FieldRollupEntry, b: FieldRollupEntry) -> bool {
    ||| row_rank(a) < row_rank(b)
    ||| row_rank(a) == row_rank(b) && due_before(a.due_on, b.due_on)
    ||| row_rank(a) == row_rank(b) && a.due_on == b.due_on && lex_lt(a.control@, b.control@)
}

/// The rollup order is transitive.
pub proof fn lemma_row_before_transitive(a: FieldRollupEntry, b: FieldRollupEntry, c: FieldRollupEntry)
    requires
        row_before(a, b),
        row_before(b, c),
    ensures
        row_before(a, c),
{
    if row_rank(a) == row_rank(b) && row_rank(b) == row_rank(c) && a.due_on == b.due_on && b.due_on == c.due_on {
        lemma_lex_transitive(a.control@, b.control@, c.control@);
    }
}

/// No row comes before a row that comes before it.
pub proof fn lemma_row_before_asymmetric(a: FieldRollupEntry, b: FieldRollupEntry)
    requires
        row_before(a, b),
    ensures
        !row_before(b, a),
{
    if row_rank(a) == row_rank(b) && a.due_on == b.due_on {
        lemma_lex_asymmetric(a.control@, b.control@);
    }
}

/// Rows are in safety-first order.
pub open spec fn rollup_sorted(rows: Seq<FieldRollupEntry>) -> bool {
    forall|i: int, j: int| 0 <= i < j < rows.len() ==> !row_before(#[trigger] rows[j], #[trigger] rows[i])
}

fn lane_group_of(lane: FieldLane) -> (g: u8)
    ensures
        g == lane_group(lane),
{
    match lane {
        FieldLane::Safety => 2,
        FieldLane::WorkEnvironment => 3,
        FieldLane::Progress => 4,
        FieldLane::Quality => 5,
        FieldLane::Environment => 6,
        FieldLane::Convenience => 7,
    }
}

/// Returns the priority group of a rollup row.
pub fn priority_group(row: &FieldRollupEntry) -> (g: u8)
    ensures
        g == row_group(*row),
{
    if row.state.is_active() && row.severity == FieldSeverity::Imminent && (row.lane == FieldLane::Safety || row.lane
        == FieldLane::WorkEnvironment) {
        return 0;
    }
    if row.state.is_active() && row.non_waivable {
        return 1;
    }
    if !row.state.is_active() {
        return 8;
    }
    lane_group_of(row.lane)
}

/// Returns the rank of a severity, most severe first.
pub fn severity_rank(severity: FieldSeverity) -> (r: u8)
    ensures
        r == severity_position(severity),
{
    match severity {
        FieldSeverity::Imminent => 0,
        FieldSeverity::Critical => 1,
        FieldSeverity::Major => 2,
        FieldSeverity::Moderate => 3,
        FieldSeverity::Minor => 4,
        FieldSeverity::Information => 5,
    }
}

fn rank_of(row: &FieldRollupEntry) -> (r: u32)
    ensures
        r == row_rank(*row),
{
    let g = priority_group(row) as u32;
    let w: u32 = if row.non_waivable { 0 } else { 1 };
    let s = severity_rank(row.severity) as u32;
    let o: u32 = if row.overdue { 0 } else { 1 };
    g * 1000 + w * 100 + s * 10 + o
}

/// Returns true when row `a` comes strictly before row `b` in the rollup.
pub fn rollup_precedes(a: &FieldRollupEntry, b: &FieldRollupEntry) -> (r: bool)
    ensures
        r == row_before(*a, *b),
{
    let ra = rank_of(a);
    let rb = rank_of(b);
    if ra != rb {
        return ra < rb;
    }
    match (a.due_on, b.due_on) {
        (None, Some(_)) => true,
        (Some(_), None) => false,
        (Some(x), Some(y)) => {
            if x.julian_day != y.julian_day {
                x.julian_day < y.julian_day
            } else {
                text_precedes(a.control.as_str(), b.control.as_str())
            }
        },
        (None, None) => text_precedes(a.control.as_str(), b.control.as_str()),
    }
}

fn rollup_entry(item: &FieldItem, as_of: ProjectDate) -> (row: FieldRollupEntry)
    ensures
        row == rollup_row(*item, as_of),
{
    FieldRollupEntry {
        control: item.control.clone(),
        kind: item.kind,
        lane: item.lane,
        severity: item.severity,
        non_waivable: item.non_waivable,
        overdue: item.is_overdue(as_of),
        due_on: item.due_on,
        state: item.state,
    }
}

/// Rows of `items` as of a date, in input order.
pub open spec fn rollup_rows(items: Seq<FieldItem>, as_of: ProjectDate) -> Seq<FieldRollupEntry> {
    items.map_values(|item: FieldItem| rollup_row(item, as_of))
}

/// Builds a deterministic safety-first field-control rollup: one row per
/// item, ordered by priority group, non-waivable first, severity, overdue
/// first, due date, and control id.
pub fn safety_first_rollup(items: &Vec<FieldItem>, as_of: ProjectDate) -> (rows: Vec<FieldRollupEntry>)
    ensures
        rows@.to_multiset() == rollup_rows(items@, as_of).to_multiset(),
        rollup_sorted(rows@),
{
    let ghost all = rollup_rows(items@, as_of);
    let mut out: Vec<FieldRollupEntry> = Vec::new();
    let mut k: usize = 0;
    proof {
        assert(all.take(0) =~= Seq::<FieldRollupEntry>::empty());
        assert(out@ =~= Seq::<FieldRollupEntry>::empty());
    }
    while k < items.len()
        invariant
            all == rollup_rows(items@, as_of),
            k <= items@.len(),
            out@.to_multiset() == all.take(k as int).to_multiset(),
            rollup_sorted(out@),
        decreases items.len() - k,
    {
        let row = rollup_entry(&items[k], as_of);
        let mut p: usize = 0;
        while p < out.len() && !rollup_precedes(&row, &out[p])
            invariant
                p <= out@.len(),
                forall|q: int| 0 <= q < p ==> !row_before(row, #[trigger] out@[q]),
            decreases out.len() - p,
        {
            p = p + 1;
        }
        let ghost before = out@;
        proof {
            assert forall|q: int| p <= q < before.len() implies !row_before(#[trigger] before[q], row) by {
                if row_before(before[q], row) {
                    lemma_row_before_transitive(before[q], row, before[p as int]);
                    if q == p {
                        lemma_row_before_asymmetric(before[q], row);
                    }
                }
            }
            to_multiset_insert(before, p as int, row);
            assert(all.take(k + 1) =~= all.take(k as int).push(all[k as int]));
            to_multiset_build(all.take(k as int), all[k as int]);
        }
        out.insert(p, row);
        proof {
            let s = out@;
            assert forall|i: int, j: int| 0 <= i < j < s.len() implies !row_before(#[trigger] s[j], #[trigger] s[i]) by {
                if j < p {
                    assert(s[i] == before[i] && s[j] == before[j]);
                } else if j == p {
                    assert(s[i] == before[i]);
                } else if i == p {
                    assert(s[j] == before[j - 1]);
                } else if i < p {
                    assert(s[i] == before[i] && s[j] == before[j - 1]);
                    if row_before(before[j - 1], before[i]) {
                    }
                } else {
                    assert(s[i] == before[i - 1] && s[j] == before[j - 1]);
                }
            }
        }
        k = k + 1;
    }
    proof {
        assert(all.take(items@.len() as int) =~= all);
    }
    out
}


/// In a safety-first rollup the priority groups never decrease: imminent
/// safety and work-environment items come first, then active non-waivable
/// items, then active items by lane, and closed items last.
pub proof fn lemma_rollup_groups_ordered(rows: Seq<FieldRollupEntry>, i: int, j: int)
    requires
        rollup_sorted(rows),
        0 <= i < j < rows.len(),
    ensures
        row_group(rows[i]) <= row_group(rows[j]),
{
    assert(!row_before(rows[j], rows[i]));
    if row_group(rows[j]) < row_group(rows[i]) {
        assert(row_rank(rows[j]) < row_rank(rows[i]));
    }
}

/// In a safety-first rollup, of two rows in the same priority group with the
/// same waiver class and severity, an overdue row comes before a row that is
/// not overdue.
pub proof fn lemma_rollup_overdue_first(rows: Seq<FieldRollupEntry>, i: int, j: int)
    requires
        rollup_sorted(rows),
        0 <= i < rows.len(),
        0 <= j < rows.len(),
        row_group(rows[i]) == row_group(rows[j]),
        rows[i].non_waivable == rows[j].non_waivable,
        rows[i].severity == rows[j].severity,
        rows[i].overdue,
        !rows[j].overdue,
    ensures
        i < j,
{
    if j < i {
        assert(!row_before(rows[i], rows[j]));
        assert(row_rank(rows[i]) < row_rank(rows[j]));
    }
}

/// Severity `a` is graver than severity `b`: imminent, critical, major,
/// moderate, minor, information, in that order.
pub open spec fn graver(a: FieldSeverity, b: FieldSeverity) -> bool {
    ||| a == FieldSeverity::Imminent && b != FieldSeverity::Imminent
    ||| a == FieldSeverity::Critical && (b == FieldSeverity::Major || b == FieldSeverity::Moderate || b == FieldSeverity::Minor
        || b == FieldSeverity::Information)
    ||| a == FieldSeverity::Major && (b == FieldSeverity::Moderate || b == FieldSeverity::Minor || b == FieldSeverity::Information)
    ||| a == FieldSeverity::Moderate && (b == FieldSeverity::Minor || b == FieldSeverity::Information)
    ||| a == FieldSeverity::Minor && b == FieldSeverity::Information
}

/// In a safety-first rollup, within one priority group a non-waivable row
/// comes before a waivable one.
pub proof fn lemma_rollup_non_waivable_first(rows: Seq<FieldRollupEntry>, i: int, j: int)
    requires
        rollup_sorted(rows),
        0 <= i < rows.len(),
        0 <= j < rows.len(),
        row_group(rows[i]) == row_group(rows[j]),
        rows[i].non_waivable,
        !rows[j].non_waivable,
    ensures
        i < j,
{
    if j < i {
        assert(!row_before(rows[i], rows[j]));
        assert(row_rank(rows[i]) < row_rank(rows[j]));
    }
}

/// In a safety-first rollup, of two rows in the same priority group and
/// waiver class, the graver comes first.
pub proof fn lemma_rollup_graver_first(rows: Seq<FieldRollupEntry>, i: int, j: int)
    requires
        rollup_sorted(rows),
        0 <= i < rows.len(),
        0 <= j < rows.len(),
        row_group(rows[i]) == row_group(rows[j]),
        rows[i].non_waivable == rows[j].non_waivable,
        graver(rows[i].severity, rows[j].severity),
    ensures
        i < j,
{
    if j < i {
        assert(!row_before(rows[i], rows[j]));
        assert(row_rank(rows[i]) < row_rank(rows[j]));
    }
}

/// In a safety-first rollup, of two rows alike in priority group, waiver
/// class, severity and overdue state, a row without a due date comes first,
/// then the earlier due date; rows alike in due date too come in control order.
pub proof fn lemma_rollup_due_then_control(rows: Seq<FieldRollupEntry>, i: int, j: int)
    requires
        rollup_sorted(rows),
        0 <= i < rows.len(),
        0 <= j < rows.len(),
        row_group(rows[i]) == row_group(rows[j]),
        rows[i].non_waivable == rows[j].non_waivable,
        rows[i].severity == rows[j].severity,
        rows[i].overdue == rows[j].overdue,
        (rows[i].due_on is None && rows[j].due_on is Some)
            || (rows[i].due_on matches Some(a) && rows[j].due_on matches Some(b) && a.julian_day < b.julian_day)
            || (rows[i].due_on == rows[j].due_on && lex_lt(rows[i].control@, rows[j].control@)),
    ensures
        i < j,
{
    if j < i {
        assert(!row_before(rows[i], rows[j]));
    } else if i == j {
        lemma_lex_irreflexive(rows[i].control@);
    }
}

/// Every row of a rollup comes from an item, with the item's control, kind,
/// lane, severity, waiver class, due date and state, and is overdue exactly
/// when the item is not closed and its due date falls before the rollup
/// date; every item has a row.
pub proof fn lemma_rollup_rows_from_items(items: Seq<FieldItem>, as_of: ProjectDate, rows: Seq<FieldRollupEntry>, i: int, k: int)
    requires
        rows.to_multiset() == rollup_rows(items, as_of).to_multiset(),
    ensures
        0 <= i < rows.len() ==> exists|m: int| 0 <= m < items.len() && #[trigger] items[m].control == rows[i].control
            && items[m].kind == rows[i].kind && items[m].lane == rows[i].lane && items[m].severity == rows[i].severity
            && items[m].non_waivable == rows[i].non_waivable && items[m].due_on == rows[i].due_on
            && items[m].state == rows[i].state
            && rows[i].overdue == (items[m].state != FieldItemState::Closed && (items[m].due_on matches Some(d)
                && d.julian_day < as_of.julian_day)),
        0 <= k < items.len() ==> exists|n: int| 0 <= n < rows.len() && (#[trigger] rows[n]).control == items[k].control
            && rows[n].severity == items[k].severity && rows[n].lane == items[k].lane,
{
    let all = rollup_rows(items, as_of);
    rows.to_multiset_ensures();
    all.to_multiset_ensures();
    if 0 <= i < rows.len() {
        assert(rows.contains(rows[i]));
        assert(rows.to_multiset().count(rows[i]) > 0);
        assert(all.contains(rows[i]));
        let m = choose|m: int| 0 <= m < all.len() && all[m] == rows[i];
        assert(all[m] == rollup_row(items[m], as_of));
    }
    if 0 <= k < items.len() {
        assert(all[k] == rollup_row(items[k], as_of));
        assert(all.contains(all[k]));
        assert(all.to_multiset().count(all[k]) > 0);
        assert(rows.contains(all[k]));
    }
}

/// An active row of imminent safety or work-environment harm.
pub open spec fn imminent_harm(r: FieldRollupEntry) -> bool {
    r.state != FieldItemState::Closed && r.severity == FieldSeverity::Imminent
        && (r.lane == FieldLane::Safety || r.lane == FieldLane::WorkEnvironment)
}

/// Lane `a` precedes lane `b`: safety, work environment, progress, quality,
/// environment, convenience.
pub open spec fn lane_precedes(a: FieldLane, b: FieldLane) -> bool {
    let order = seq![
        FieldLane::Safety,
        FieldLane::WorkEnvironment,
        FieldLane::Progress,
        FieldLane::Quality,
        FieldLane::Environment,
        FieldLane::Convenience,
    ];
    exists|x: int, y: int| 0 <= x < y < 6 && order[x] == a && order[y] == b
}

/// Row `a` belongs to an earlier priority group than row `b`: imminent harm
/// first; then active non-waivable rows; then active rows by lane; closed
/// rows last.
pub open spec fn earlier_group(a: FieldRollupEntry, b: FieldRollupEntry) -> bool {
    let a_active = a.state != FieldItemState::Closed;
    let b_active = b.state != FieldItemState::Closed;
    ||| imminent_harm(a) && !imminent_harm(b)
    ||| !imminent_harm(a) && !imminent_harm(b) && a_active && a.non_waivable && !(b_active && b.non_waivable)
    ||| a_active && !b_active
    ||| !imminent_harm(a) && !imminent_harm(b) && a_active && b_active && !a.non_waivable && !b.non_waivable
        && lane_precedes(a.lane, b.lane)
}

/// In a safety-first rollup a row of an earlier priority group comes first.
pub proof fn lemma_rollup_groups_first(rows: Seq<FieldRollupEntry>, i: int, j: int)
    requires
        rollup_sorted(rows),
        0 <= i < rows.len(),
        0 <= j < rows.len(),
        earlier_group(rows[i], rows[j]),
    ensures
        i < j,
{
    let a = rows[i];
    let b = rows[j];
    if lane_precedes(a.lane, b.lane) {
        let (x, y) = choose|x: int, y: int| 0 <= x < y < 6 && seq![
            FieldLane::Safety,
            FieldLane::WorkEnvironment,
            FieldLane::Progress,
            FieldLane::Quality,
            FieldLane::Environment,
            FieldLane::Convenience,
        ][x] == a.lane && seq![
            FieldLane::Safety,
            FieldLane::WorkEnvironment,
            FieldLane::Progress,
            FieldLane::Quality,
            FieldLane::Environment,
            FieldLane::Convenience,
        ][y] == b.lane;
        assert(lane_group(a.lane) < lane_group(b.lane));
    }
    assert(row_group(a) < row_group(b));
    if j <= i {
        if j < i {
            assert(!row_before(a, b));
        }
        assert(row_rank(a) < row_rank(b));
    }
}

} // verus!
