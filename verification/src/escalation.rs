//! Deterministic attention classes for construction uncertainties.

use vstd::prelude::*;
use crate::date::ProjectDate;
use crate::error::ConstructionProjectError;
use crate::exposure::{queue_keys, ExposureQueueItem, ExposureReport};
use crate::forecast::{consequence_check, ForecastConsequence};
use crate::identity::{ControlId, ProjectId, RoleId};
use crate::order::{
    dup_position, find_id, first_duplicate, first_key, first_where, id_views, key_position, lemma_first_key_none,
    lemma_first_key_stable, lemma_first_where_stable,
    lemma_lex_asymmetric, lemma_lex_transitive, lex_lt, seen_before, text_precedes,
};
use crate::snapshot::{current_of, was_superseded, ProjectSnapshot};
use crate::uncertainty::{response_is_open, uncertainty_check, ResponseState, UncertaintyKind, UncertaintyRecord, UncertaintyState};

verus! {

/// Rule that recommends accountable attention without making a decision.
#[derive(Debug, PartialEq, Eq)]
pub enum EscalationReason {
    /// An open response passed its due date.
    OverdueResponse {
        /// Missed response date.
        due_on: ProjectDate,
    },
    /// An observed project fact crossed the named trigger.
    CrossedTrigger {
        /// Trigger observation sequence.
        fact_seq: u64,
    },
    /// A current forecast consequence superseded an earlier fact.
    ChangedConsequence {
        /// Changed forecast-consequence control.
        consequence: ControlId,
    },
    /// No response decision authority is assigned.
    MissingAuthority,
    /// The preparation window for an upcoming decision has started.
    DecisionLeadTime {
        /// Date on which preparation had to begin.
        attention_on: ProjectDate,
        /// Date on which the decision is needed.
        decision_due_on: ProjectDate,
    },
    /// A likelihood or impact rating predates the current uncertainty fact.
    StaleRating,
    /// A forecast consequence affects an accepted critical-path join.
    CriticalPathConsequence,
    /// The risk was realized or opportunity captured and remains under control.
    EventOccurred,
}

/// Relative attention class used only for deterministic queue ordering.
#[derive(Clone, Copy, Debug, PartialEq, Eq, Structural)]
pub enum AttentionLevel {
    /// Immediate accountable review.
    Immediate,
    /// High attention in the active control cycle.
    High,
    /// Review and refresh supporting facts.
    Review,
}

/// A crossed trigger, a critical-path consequence or an occurred event
/// calls for immediate review.
pub open spec fn calls_for_immediate(r: EscalationReason) -> bool {
    ||| r is CrossedTrigger
    ||| r is CriticalPathConsequence
    ||| r is EventOccurred
}

/// The attention class of a list of reasons: immediate when one reason calls
/// for it, high when some reason is more than a stale rating, review otherwise.
pub open spec fn attention_of(reasons: Seq<EscalationReason>) -> AttentionLevel {
    if exists|i: int| 0 <= i < reasons.len() && calls_for_immediate(#[trigger] reasons[i]) {
        AttentionLevel::Immediate
    } else if exists|i: int| 0 <= i < reasons.len() && !((#[trigger] reasons[i]) is StaleRating) {
        AttentionLevel::High
    } else {
        AttentionLevel::Review
    }
}

/// Queue position of an attention class: immediate, then high, then review.
pub open spec fn attention_position(a: AttentionLevel) -> u8 {
    match a {
        AttentionLevel::Immediate => 0,
        AttentionLevel::High => 1,
        AttentionLevel::Review => 2,
    }
}

/// Order of reasons inside one recommendation: an occurred event first,
/// then a crossed trigger, a critical-path consequence, an overdue
/// response, a changed consequence, a missing authority, a decision lead
/// time, and a stale rating last.
pub open spec fn reason_position(r: EscalationReason) -> u8 {
    match r {
        EscalationReason::EventOccurred => 0,
        EscalationReason::CrossedTrigger { .. } => 1,
        EscalationReason::CriticalPathConsequence => 2,
        EscalationReason::OverdueResponse { .. } => 3,
        EscalationReason::ChangedConsequence { .. } => 4,
        EscalationReason::MissingAuthority => 5,
        EscalationReason::DecisionLeadTime { .. } => 6,
        EscalationReason::StaleRating => 7,
    }
}

/// Derives the attention class of a recommendation from its reasons.
pub fn attention_level(reasons: &[EscalationReason]) -> (a: AttentionLevel)
    ensures
        a == attention_of(reasons@),
{
    let mut immediate = false;
    let mut beyond_stale = false;
    let mut i: usize = 0;
    while i < reasons.len()
        invariant
            i <= reasons@.len(),
            immediate == exists|j: int| 0 <= j < i && calls_for_immediate(#[trigger] reasons@[j]),
            beyond_stale == exists|j: int| 0 <= j < i && !((#[trigger] reasons@[j]) is StaleRating),
        decreases reasons.len() - i,
    {
        match &reasons[i] {
            EscalationReason::CrossedTrigger { .. } | EscalationReason::CriticalPathConsequence
            | EscalationReason::EventOccurred => {
                immediate = true;
                beyond_stale = true;
            },
            EscalationReason::StaleRating => {},
            _ => {
                beyond_stale = true;
            },
        }
        i = i + 1;
    }
    if immediate {
        AttentionLevel::Immediate
    } else if beyond_stale {
        AttentionLevel::High
    } else {
        AttentionLevel::Review
    }
}

/// Returns the queue position of an attention class.
pub fn attention_rank(attention: AttentionLevel) -> (r: u8)
    ensures
        r == attention_position(attention),
{
    match attention {
        AttentionLevel::Immediate => 0,
        AttentionLevel::High => 1,
        AttentionLevel::Review => 2,
    }
}

/// Returns the position of a reason inside one recommendation.
pub fn reason_rank(reason: &EscalationReason) -> (r: u8)
    ensures
        r == reason_position(*reason),
{
    match reason {
        EscalationReason::EventOccurred => 0,
        EscalationReason::CrossedTrigger { .. } => 1,
        EscalationReason::CriticalPathConsequence => 2,
        EscalationReason::OverdueResponse { .. } => 3,
        EscalationReason::ChangedConsequence { .. } => 4,
        EscalationReason::MissingAuthority => 5,
        EscalationReason::DecisionLeadTime { .. } => 6,
        EscalationReason::StaleRating => 7,
    }
}

/// Every reason that calls for immediate review ranks ahead of every reason
/// that does not.
pub proof fn lemma_immediate_reasons_rank_first(a: EscalationReason, b: EscalationReason)
    requires
        calls_for_immediate(a),
        !calls_for_immediate(b),
    ensures
        reason_position(a) < reason_position(b),
{
}

/// Attention recommendation; it holds no decision or resolution.
#[derive(Debug, PartialEq, Eq)]
pub struct EscalationRecommendation {
    /// Risk or opportunity control needing attention.
    pub uncertainty: ControlId,
    /// Risk or opportunity.
    pub kind: UncertaintyKind,
    /// Role accountable for preparing the response.
    pub owner: RoleId,
    /// Assigned decision authority, when present.
    pub recommended_to: Option<RoleId>,
    /// Derived attention class.
    pub attention: AttentionLevel,
    /// Reasons for attention, in reason order.
    pub reasons: Vec<EscalationReason>,
    /// Earlier of the response and decision due dates.
    pub attention_due_on: ProjectDate,
    /// Human-facing recommendation, not a decision.
    pub recommendation: String,
}

/// Control ids of forecast consequences, in order.
pub open spec fn consequence_keys(cs: Seq<ForecastConsequence>) -> Seq<Seq<char>> {
    cs.map_values(|c: ForecastConsequence| c.control@)
}

/// A record belongs to the snapshot's project and carries the current fact of its control.
pub open spec fn input_current(s: ProjectSnapshot, project: ProjectId, control: ControlId, fact_seq: u64) -> bool {
    &&& project@ == s.project@
    &&& current_of(s, control@) matches Some(f) && f.seq == fact_seq
}

/// The refusal of a record that is not the current fact of its control.
pub open spec fn stale_input(control: ControlId) -> ConstructionProjectError {
    ConstructionProjectError::UncertaintyDerivation {
        control,
        reason: "escalation input does not match the current project fact",
    }
}

/// Consequence `i` is valid, current and the first with its id.
pub open spec fn consequence_admitted(s: ProjectSnapshot, cs: Seq<ForecastConsequence>, i: int) -> bool {
    &&& consequence_check(cs[i], Ok(()))
    &&& input_current(s, cs[i].project, cs[i].control, cs[i].fact_seq)
    &&& first_key(consequence_keys(cs), cs[i].control@, i) is None
}

/// How consequence `i` is refused: its own validation, then currency, then a repeated id.
pub open spec fn consequence_refusal(s: ProjectSnapshot, cs: Seq<ForecastConsequence>, i: int, e: ConstructionProjectError) -> bool {
    if !consequence_check(cs[i], Ok(())) {
        consequence_check(cs[i], Err(e))
    } else if !input_current(s, cs[i].project, cs[i].control, cs[i].fact_seq) {
        e == stale_input(cs[i].control)
    } else {
        e matches ConstructionProjectError::DuplicateId { kind, id } && kind == "escalation.consequence" && id@
            == cs[i].control@
    }
}

/// The exposure queue item of uncertainty `x`.
pub open spec fn queue_item(q: Seq<ExposureQueueItem>, x: Seq<char>) -> Option<ExposureQueueItem> {
    match key_position(queue_keys(q), x) {
        Some(k) => Some(q[k]),
        None => None,
    }
}

/// A consequence id listed for uncertainty `u` is missing or belongs to another uncertainty.
pub open spec fn link_fault(cs: Seq<ForecastConsequence>, u: UncertaintyRecord, id: ControlId) -> Option<ConstructionProjectError> {
    match key_position(consequence_keys(cs), id@) {
        None => Some(ConstructionProjectError::UncertaintyDerivation {
            control: id,
            reason: "exposure queue references a missing consequence",
        }),
        Some(k) => if cs[k].uncertainty@ != u.control@ {
            Some(ConstructionProjectError::UncertaintyDerivation {
                control: cs[k].control,
                reason: "exposure consequence belongs to another uncertainty",
            })
        } else {
            None
        },
    }
}

/// The first fault among the first `n` listed consequence ids.
pub open spec fn links_fault(cs: Seq<ForecastConsequence>, u: UncertaintyRecord, ids: Seq<ControlId>, n: int) -> Option<ConstructionProjectError>
    decreases n,
{
    if n <= 0 {
        None
    } else {
        match links_fault(cs, u, ids, n - 1) {
            Some(e) => Some(e),
            None => link_fault(cs, u, ids[n - 1]),
        }
    }
}

/// What refuses an uncertainty that is not closed: no exposure item, an item
/// that disagrees with it, or a faulty consequence link.
pub open spec fn item_fault(q: Seq<ExposureQueueItem>, cs: Seq<ForecastConsequence>, u: UncertaintyRecord) -> Option<ConstructionProjectError> {
    if u.state is Closed {
        None
    } else {
        match queue_item(q, u.control@) {
            None => Some(ConstructionProjectError::UncertaintyDerivation {
                control: u.control,
                reason: "current uncertainty is absent from the exposure queue",
            }),
            Some(it) => if it.kind != u.kind || it.state != u.state || it.baseline@ != u.baseline@ {
                Some(ConstructionProjectError::UncertaintyDerivation {
                    control: u.control,
                    reason: "uncertainty and exposure queue facts do not match",
                })
            } else {
                links_fault(cs, u, it.consequences@, it.consequences@.len() as int)
            },
        }
    }
}

/// Uncertainty `u` passes every check.
pub open spec fn uncertainty_admitted(s: ProjectSnapshot, q: Seq<ExposureQueueItem>, cs: Seq<ForecastConsequence>, u: UncertaintyRecord) -> bool {
    &&& uncertainty_check(u, Ok(()))
    &&& input_current(s, u.project, u.control, u.fact_seq)
    &&& item_fault(q, cs, u) is None
}

/// How uncertainty `u` is refused: its own validation, then currency, then its exposure item.
pub open spec fn uncertainty_refusal(
    s: ProjectSnapshot,
    q: Seq<ExposureQueueItem>,
    cs: Seq<ForecastConsequence>,
    u: UncertaintyRecord,
    e: ConstructionProjectError,
) -> bool {
    if !uncertainty_check(u, Ok(())) {
        uncertainty_check(u, Err(e))
    } else if !input_current(s, u.project, u.control, u.fact_seq) {
        e == stale_input(u.control)
    } else {
        item_fault(q, cs, u) == Some(e)
    }
}

/// Changed-consequence reasons for the first `n` listed consequence ids:
/// one for each listed consequence with a superseded fact, a repeat of the
/// reason just before it dropped.
pub open spec fn changed_reasons(s: ProjectSnapshot, cs: Seq<ForecastConsequence>, ids: Seq<ControlId>, n: int) -> Seq<EscalationReason>
    decreases n,
{
    if n <= 0 {
        Seq::empty()
    } else {
        let prev = changed_reasons(s, cs, ids, n - 1);
        let c = cs[key_position(consequence_keys(cs), ids[n - 1]@)->0];
        if was_superseded(s, c.control@) {
            if prev.len() > 0 && (prev.last() matches EscalationReason::ChangedConsequence { consequence }
                && consequence@ == c.control@) {
                prev
            } else {
                prev.push(EscalationReason::ChangedConsequence { consequence: c.control })
            }
        } else {
            prev
        }
    }
}

/// Day on which preparation for the response decision has to begin.
pub open spec fn lead_start(u: UncertaintyRecord) -> int {
    u.response.decision_due_on.julian_day - u.response.decision_lead_days
}

/// The reasons for attention to uncertainty `u` with exposure item `it`,
/// in reason order: an occurred event; a crossed trigger of an open
/// response; a critical-path consequence; an open response past its due
/// date; changed consequences; an open response with no authority; an open
/// response whose decision preparation has begun; a stale rating.
pub open spec fn reasons_of(
    s: ProjectSnapshot,
    cs: Seq<ForecastConsequence>,
    u: UncertaintyRecord,
    it: ExposureQueueItem,
    as_of: ProjectDate,
) -> Seq<EscalationReason> {
    let open = response_is_open(u.response.state);
    let r0: Seq<EscalationReason> = if u.state is RiskRealized || u.state is OpportunityCaptured {
        seq![EscalationReason::EventOccurred]
    } else {
        Seq::empty()
    };
    let r1 = if open && u.response.trigger_crossed_seq is Some {
        r0.push(EscalationReason::CrossedTrigger { fact_seq: u.response.trigger_crossed_seq->0 })
    } else {
        r0
    };
    let r2 = if it.critical_path { r1.push(EscalationReason::CriticalPathConsequence) } else { r1 };
    let r3 = if open && u.response.due_on.julian_day < as_of.julian_day {
        r2.push(EscalationReason::OverdueResponse { due_on: u.response.due_on })
    } else {
        r2
    };
    let r4 = r3 + changed_reasons(s, cs, it.consequences@, it.consequences@.len() as int);
    let r5 = if open && u.response.authority is None { r4.push(EscalationReason::MissingAuthority) } else { r4 };
    let r6 = if open && lead_start(u) <= as_of.julian_day {
        r5.push(EscalationReason::DecisionLeadTime {
            attention_on: ProjectDate { julian_day: lead_start(u) as i32 },
            decision_due_on: u.response.decision_due_on,
        })
    } else {
        r5
    };
    if it.stale_rating { r6.push(EscalationReason::StaleRating) } else { r6 }
}

/// The earlier of two dates, the first when they are the same day.
pub open spec fn earlier(a: ProjectDate, b: ProjectDate) -> ProjectDate {
    if b.julian_day < a.julian_day { b } else { a }
}

/// Uncertainty `u` is not closed and has at least one reason for attention.
pub open spec fn raises(s: ProjectSnapshot, q: Seq<ExposureQueueItem>, cs: Seq<ForecastConsequence>, u: UncertaintyRecord, as_of: ProjectDate) -> bool {
    &&& !(u.state is Closed)
    &&& reasons_of(s, cs, u, queue_item(q, u.control@)->0, as_of).len() > 0
}

/// `rec` is the recommendation for uncertainty `u`.
pub open spec fn recommendation_for(
    rec: EscalationRecommendation,
    s: ProjectSnapshot,
    q: Seq<ExposureQueueItem>,
    cs: Seq<ForecastConsequence>,
    u: UncertaintyRecord,
    as_of: ProjectDate,
) -> bool {
    let reasons = reasons_of(s, cs, u, queue_item(q, u.control@)->0, as_of);
    &&& rec.uncertainty == u.control
    &&& rec.kind == u.kind
    &&& rec.owner == u.owner
    &&& rec.recommended_to == u.response.authority
    &&& rec.attention == attention_of(reasons)
    &&& rec.reasons@ == reasons
    &&& rec.attention_due_on == earlier(u.response.due_on, u.response.decision_due_on)
    &&& rec.recommendation@ == "review current evidence and obtain an accountable decision"@
}

/// `a` comes strictly before `b` in the queue: by attention class, then
/// attention due date, then uncertainty id.
pub open spec fn queue_before(a: EscalationRecommendation, b: EscalationRecommendation) -> bool {
    let pa = attention_position(a.attention);
    let pb = attention_position(b.attention);
    ||| pa < pb
    ||| pa == pb && a.attention_due_on.julian_day < b.attention_due_on.julian_day
    ||| pa == pb && a.attention_due_on.julian_day == b.attention_due_on.julian_day && lex_lt(
        a.uncertainty@,
        b.uncertainty@,
    )
}

/// No recommendation comes before one ahead of it.
pub open spec fn queue_ordered(out: Seq<EscalationRecommendation>) -> bool {
    forall|a: int, b: int| 0 <= a < b < out.len() ==> !queue_before(#[trigger] out[b], #[trigger] out[a])
}

/// `out` holds exactly one recommendation for each raising uncertainty among
/// the first `n`, `idx` giving the uncertainty of each.
pub open spec fn queue_covers(
    out: Seq<EscalationRecommendation>,
    idx: Seq<int>,
    s: ProjectSnapshot,
    q: Seq<ExposureQueueItem>,
    cs: Seq<ForecastConsequence>,
    us: Seq<UncertaintyRecord>,
    as_of: ProjectDate,
    n: int,
) -> bool {
    &&& out.len() == idx.len()
    &&& forall|k: int| 0 <= k < idx.len() ==> 0 <= #[trigger] idx[k] < n && raises(s, q, cs, us[idx[k]], as_of)
        && recommendation_for(out[k], s, q, cs, us[idx[k]], as_of)
    &&& forall|a: int, b: int| 0 <= a < b < idx.len() ==> #[trigger] idx[a] != #[trigger] idx[b]
    &&& forall|i: int| 0 <= i < n && raises(s, q, cs, #[trigger] us[i], as_of) ==> exists|k: int| 0 <= k < idx.len()
        && idx[k] == i
}

/// The consequences, by position, that fail a check.
pub open spec fn unaccepted(s: ProjectSnapshot, cs: Seq<ForecastConsequence>) -> spec_fn(int) -> bool {
    |i: int| !consequence_admitted(s, cs, i)
}

/// The uncertainties, by position, that fail a check.
pub open spec fn unadmitted(s: ProjectSnapshot, q: Seq<ExposureQueueItem>, cs: Seq<ForecastConsequence>, us: Seq<UncertaintyRecord>) -> spec_fn(int) -> bool {
    |i: int| !uncertainty_admitted(s, q, cs, us[i])
}

/// What `derive_escalation_queue` answers, check by check in order.
pub open spec fn escalation_queue_result(
    s: ProjectSnapshot,
    exposure: ExposureReport,
    us: Seq<UncertaintyRecord>,
    cs: Seq<ForecastConsequence>,
    as_of: ProjectDate,
    r: Result<Vec<EscalationRecommendation>, ConstructionProjectError>,
) -> bool {
    let q = exposure.queue@;
    if exposure.as_of_seq != s.through_seq {
        r matches Err(ConstructionProjectError::UncertaintyDerivation { control, reason })
            && control@ == exposure.schedule_baseline@ && reason == "exposure report does not match the current snapshot"
    } else {
        match dup_position(queue_keys(q), q.len() as int) {
            Some(k) => r matches Err(ConstructionProjectError::DuplicateId { kind, id }) && kind
                == "exposure_queue.uncertainty" && id@ == q[k].uncertainty@,
            None => match first_where(unaccepted(s, cs), cs.len() as int) {
                Some(i) => r matches Err(e) && consequence_refusal(s, cs, i, e),
                None => match first_where(unadmitted(s, q, cs, us), us.len() as int) {
                    Some(i) => r matches Err(e) && uncertainty_refusal(s, q, cs, us[i], e),
                    None => r matches Ok(out) && queue_ordered(out@) && exists|idx: Seq<int>| queue_covers(
                        out@,
                        idx,
                        s,
                        q,
                        cs,
                        us,
                        as_of,
                        us.len() as int,
                    ),
                },
            },
        }
    }
}

fn is_input_current(s: &ProjectSnapshot, project: &ProjectId, control: &ControlId, fact_seq: u64) -> (b: bool)
    ensures
        b == input_current(*s, *project, *control, fact_seq),
{
    if !project.same(&s.project) {
        return false;
    }
    match s.current_fact(control) {
        Some(f) => f.seq == fact_seq,
        None => false,
    }
}

fn consequence_ids(cs: &Vec<ForecastConsequence>) -> (r: Vec<ControlId>)
    ensures
        id_views(r@) == consequence_keys(cs@),
{
    let mut r: Vec<ControlId> = Vec::new();
    let mut i: usize = 0;
    while i < cs.len()
        invariant
            i <= cs@.len(),
            r@.len() == i,
            forall|j: int| 0 <= j < i ==> (#[trigger] r@[j])@ == cs@[j].control@,
        decreases cs.len() - i,
    {
        r.push(cs[i].control.clone());
        i = i + 1;
    }
    assert(id_views(r@) =~= consequence_keys(cs@));
    r
}

fn queue_ids(q: &Vec<ExposureQueueItem>) -> (r: Vec<ControlId>)
    ensures
        id_views(r@) == queue_keys(q@),
{
    let mut r: Vec<ControlId> = Vec::new();
    let mut i: usize = 0;
    while i < q.len()
        invariant
            i <= q@.len(),
            r@.len() == i,
            forall|j: int| 0 <= j < i ==> (#[trigger] r@[j])@ == q@[j].uncertainty@,
        decreases q.len() - i,
    {
        r.push(q[i].uncertainty.clone());
        i = i + 1;
    }
    assert(id_views(r@) =~= queue_keys(q@));
    r
}

fn check_consequences(s: &ProjectSnapshot, cs: &Vec<ForecastConsequence>, cids: &Vec<ControlId>) -> (r: Result<(), ConstructionProjectError>)
    requires
        id_views(cids@) == consequence_keys(cs@),
    ensures
        match first_where(unaccepted(*s, cs@), cs@.len() as int) {
            Some(i) => r matches Err(e) && consequence_refusal(*s, cs@, i, e),
            None => r is Ok,
        },
{
    let ghost p = unaccepted(*s, cs@);
    let mut i: usize = 0;
    while i < cs.len()
        invariant
            id_views(cids@) == consequence_keys(cs@),
            p == unaccepted(*s, cs@),
            i <= cs@.len(),
            first_where(p, i as int) is None,
        decreases cs.len() - i,
    {
        let c = &cs[i];
        proof {
            assert(id_views(cids@).len() == consequence_keys(cs@).len());
            assert(id_views(cids@)[i as int] == consequence_keys(cs@)[i as int]);
        }
        match c.validate() {
            Err(e) => {
                proof {
                    assert(!consequence_check(cs@[i as int], Ok(())));
                    assert(p(i as int));
                    assert(first_where(p, i as int + 1) == Some(i as int));
                    lemma_first_where_stable(p, i as int + 1, cs@.len() as int);
                }
                return Err(e);
            },
            Ok(()) => {},
        }
        if !is_input_current(s, &c.project, &c.control, c.fact_seq) {
            proof {
                assert(p(i as int));
                assert(first_where(p, i as int + 1) == Some(i as int));
                lemma_first_where_stable(p, i as int + 1, cs@.len() as int);
            }
            return Err(ConstructionProjectError::UncertaintyDerivation {
                control: c.control.clone(),
                reason: "escalation input does not match the current project fact",
            });
        }
        if seen_before(cids, i) {
            proof {
                assert(p(i as int));
                assert(first_where(p, i as int + 1) == Some(i as int));
                lemma_first_where_stable(p, i as int + 1, cs@.len() as int);
            }
            return Err(ConstructionProjectError::DuplicateId {
                kind: "escalation.consequence",
                id: c.control.as_str().to_owned(),
            });
        }
        assert(!p(i as int));
        i = i + 1;
    }
    Ok(())
}

proof fn lemma_links_fault_stable(cs: Seq<ForecastConsequence>, u: UncertaintyRecord, ids: Seq<ControlId>, m: int, n: int)
    requires
        m <= n,
        links_fault(cs, u, ids, m) is Some,
    ensures
        links_fault(cs, u, ids, n) == links_fault(cs, u, ids, m),
    decreases n - m,
{
    if m < n {
        lemma_links_fault_stable(cs, u, ids, m, n - 1);
    }
}

proof fn lemma_links_fault_none(cs: Seq<ForecastConsequence>, u: UncertaintyRecord, ids: Seq<ControlId>, n: int, j: int)
    requires
        0 <= j < n,
        links_fault(cs, u, ids, n) is None,
    ensures
        link_fault(cs, u, ids[j]) is None,
    decreases n,
{
    if j < n - 1 {
        lemma_links_fault_none(cs, u, ids, n - 1, j);
    }
}

fn check_links(cs: &Vec<ForecastConsequence>, cids: &Vec<ControlId>, u: &UncertaintyRecord, ids: &Vec<ControlId>) -> (r: Result<(), ConstructionProjectError>)
    requires
        id_views(cids@) == consequence_keys(cs@),
    ensures
        match links_fault(cs@, *u, ids@, ids@.len() as int) {
            Some(e) => r == Err::<(), ConstructionProjectError>(e),
            None => r is Ok,
        },
{
    let mut j: usize = 0;
    while j < ids.len()
        invariant
            id_views(cids@) == consequence_keys(cs@),
            j <= ids@.len(),
            links_fault(cs@, *u, ids@, j as int) is None,
        decreases ids.len() - j,
    {
        match find_id(cids, &ids[j]) {
            None => {
                let e = ConstructionProjectError::UncertaintyDerivation {
                    control: ids[j].clone(),
                    reason: "exposure queue references a missing consequence",
                };
                proof {
                    assert(links_fault(cs@, *u, ids@, j as int + 1) == Some(e));
                    lemma_links_fault_stable(cs@, *u, ids@, j as int + 1, ids@.len() as int);
                }
                return Err(e);
            },
            Some(k) => {
                if !cs[k].uncertainty.same(&u.control) {
                    let e = ConstructionProjectError::UncertaintyDerivation {
                        control: cs[k].control.clone(),
                        reason: "exposure consequence belongs to another uncertainty",
                    };
                    proof {
                        assert(links_fault(cs@, *u, ids@, j as int + 1) == Some(e));
                        lemma_links_fault_stable(cs@, *u, ids@, j as int + 1, ids@.len() as int);
                    }
                    return Err(e);
                }
            },
        }
        j = j + 1;
    }
    Ok(())
}

fn admit_uncertainty(
    s: &ProjectSnapshot,
    q: &Vec<ExposureQueueItem>,
    qids: &Vec<ControlId>,
    cs: &Vec<ForecastConsequence>,
    cids: &Vec<ControlId>,
    u: &UncertaintyRecord,
) -> (r: Result<(), ConstructionProjectError>)
    requires
        id_views(cids@) == consequence_keys(cs@),
        id_views(qids@) == queue_keys(q@),
    ensures
        r is Ok <==> uncertainty_admitted(*s, q@, cs@, *u),
        r matches Err(e) ==> uncertainty_refusal(*s, q@, cs@, *u, e),
{
    match u.validate() {
        Err(e) => {
            return Err(e);
        },
        Ok(()) => {},
    }
    if !is_input_current(s, &u.project, &u.control, u.fact_seq) {
        return Err(ConstructionProjectError::UncertaintyDerivation {
            control: u.control.clone(),
            reason: "escalation input does not match the current project fact",
        });
    }
    if let UncertaintyState::Closed { .. } = u.state {
        return Ok(());
    }
    match find_id(qids, &u.control) {
        None => Err(ConstructionProjectError::UncertaintyDerivation {
            control: u.control.clone(),
            reason: "current uncertainty is absent from the exposure queue",
        }),
        Some(k) => {
            let it = &q[k];
            if it.kind != u.kind || it.state != u.state || !it.baseline.same(&u.baseline) {
                return Err(ConstructionProjectError::UncertaintyDerivation {
                    control: u.control.clone(),
                    reason: "uncertainty and exposure queue facts do not match",
                });
            }
            check_links(cs, cids, u, &it.consequences)
        },
    }
}

fn changed_for(
    s: &ProjectSnapshot,
    cs: &Vec<ForecastConsequence>,
    cids: &Vec<ControlId>,
    u: &UncertaintyRecord,
    ids: &Vec<ControlId>,
) -> (r: Vec<EscalationReason>)
    requires
        id_views(cids@) == consequence_keys(cs@),
        links_fault(cs@, *u, ids@, ids@.len() as int) is None,
    ensures
        r@ == changed_reasons(*s, cs@, ids@, ids@.len() as int),
{
    let mut out: Vec<EscalationReason> = Vec::new();
    let mut last: Option<usize> = None;
    let mut j: usize = 0;
    while j < ids.len()
        invariant
            id_views(cids@) == consequence_keys(cs@),
            links_fault(cs@, *u, ids@, ids@.len() as int) is None,
            j <= ids@.len(),
            out@ == changed_reasons(*s, cs@, ids@, j as int),
            out@.len() == 0 <==> last is None,
            last matches Some(l) ==> l < cs@.len() && out@.last() == (EscalationReason::ChangedConsequence {
                consequence: cs@[l as int].control,
            }),
        decreases ids.len() - j,
    {
        proof {
            lemma_links_fault_none(cs@, *u, ids@, ids@.len() as int, j as int);
            assert(id_views(cids@).len() == consequence_keys(cs@).len());
        }
        match find_id(cids, &ids[j]) {
            None => {
                proof {
                    assert(false);
                }
            },
            Some(k) => {
                if s.has_superseded(&cs[k].control) {
                    let repeat = match last {
                        Some(l) => cs[l].control.same(&cs[k].control),
                        None => false,
                    };
                    if !repeat {
                        out.push(EscalationReason::ChangedConsequence { consequence: cs[k].control.clone() });
                        last = Some(k);
                    }
                }
            },
        }
        j = j + 1;
    }
    out
}

fn reasons_for(
    s: &ProjectSnapshot,
    cs: &Vec<ForecastConsequence>,
    cids: &Vec<ControlId>,
    u: &UncertaintyRecord,
    it: &ExposureQueueItem,
    as_of: ProjectDate,
) -> (r: Vec<EscalationReason>)
    requires
        id_views(cids@) == consequence_keys(cs@),
        links_fault(cs@, *u, it.consequences@, it.consequences@.len() as int) is None,
        lead_start(*u) >= i32::MIN,
    ensures
        r@ == reasons_of(*s, cs@, *u, *it, as_of),
{
    let open = u.response.state.is_open();
    let mut r: Vec<EscalationReason> = Vec::new();
    match u.state {
        UncertaintyState::RiskRealized { .. } | UncertaintyState::OpportunityCaptured { .. } => {
            r.push(EscalationReason::EventOccurred);
        },
        _ => {},
    }
    if open {
        match u.response.trigger_crossed_seq {
            Some(f) => {
                r.push(EscalationReason::CrossedTrigger { fact_seq: f });
            },
            None => {},
        }
    }
    if it.critical_path {
        r.push(EscalationReason::CriticalPathConsequence);
    }
    if open && u.response.due_on.julian_day < as_of.julian_day {
        r.push(EscalationReason::OverdueResponse { due_on: u.response.due_on });
    }
    let mut changed = changed_for(s, cs, cids, u, &it.consequences);
    r.append(&mut changed);
    if open && u.response.authority.is_none() {
        r.push(EscalationReason::MissingAuthority);
    }
    let start: i64 = u.response.decision_due_on.julian_day as i64 - u.response.decision_lead_days as i64;
    if open && start <= as_of.julian_day as i64 {
        r.push(EscalationReason::DecisionLeadTime {
            attention_on: ProjectDate { julian_day: start as i32 },
            decision_due_on: u.response.decision_due_on,
        });
    }
    if it.stale_rating {
        r.push(EscalationReason::StaleRating);
    }
    r
}

/// Queue order is a strict order: transitive and asymmetric.
proof fn lemma_queue_before_order(a: EscalationRecommendation, b: EscalationRecommendation, c: EscalationRecommendation)
    ensures
        queue_before(a, b) && queue_before(b, c) ==> queue_before(a, c),
        queue_before(a, b) ==> !queue_before(b, a),
{
    if queue_before(a, b) && queue_before(b, c) {
        if lex_lt(a.uncertainty@, b.uncertainty@) && lex_lt(b.uncertainty@, c.uncertainty@) {
            lemma_lex_transitive(a.uncertainty@, b.uncertainty@, c.uncertainty@);
        }
    }
    if queue_before(a, b) && lex_lt(a.uncertainty@, b.uncertainty@) {
        lemma_lex_asymmetric(a.uncertainty@, b.uncertainty@);
    }
}

fn precedes(a: &EscalationRecommendation, b: &EscalationRecommendation) -> (r: bool)
    ensures
        r == queue_before(*a, *b),
{
    let pa = attention_rank(a.attention);
    let pb = attention_rank(b.attention);
    if pa != pb {
        return pa < pb;
    }
    if a.attention_due_on.julian_day != b.attention_due_on.julian_day {
        return a.attention_due_on.julian_day < b.attention_due_on.julian_day;
    }
    text_precedes(a.uncertainty.as_str(), b.uncertainty.as_str())
}

/// Inserts `rec` after every recommendation it does not come before.
fn insert_in_order(out: &mut Vec<EscalationRecommendation>, rec: EscalationRecommendation) -> (p: usize)
    requires
        queue_ordered(old(out)@),
    ensures
        p <= old(out)@.len(),
        final(out)@ == old(out)@.insert(p as int, rec),
        queue_ordered(final(out)@),
{
    let mut p: usize = 0;
    while p < out.len() && !precedes(&rec, &out[p])
        invariant
            p <= out@.len(),
            forall|t: int| 0 <= t < p ==> !queue_before(rec, #[trigger] out@[t]),
        decreases out.len() - p,
    {
        p = p + 1;
    }
    let ghost before = out@;
    out.insert(p, rec);
    proof {
        let after = out@;
        assert forall|a: int, b: int| 0 <= a < b < after.len() implies !queue_before(#[trigger] after[b], #[trigger] after[a]) by {
            if b < p {
                assert(after[a] == before[a] && after[b] == before[b]);
            } else if b == p {
                assert(after[b] == rec && after[a] == before[a]);
            } else if a > p {
                assert(after[a] == before[a - 1] && after[b] == before[b - 1]);
            } else if a == p {
                assert(after[a] == rec && after[b] == before[b - 1]);
                assert(p < before.len());
                assert(queue_before(rec, before[p as int]));
                if b - 1 > p {
                    assert(!queue_before(before[b - 1], before[p as int]));
                }
                lemma_queue_before_order(before[b - 1], rec, before[p as int]);
                lemma_queue_before_order(rec, before[p as int], rec);
            } else {
                assert(after[a] == before[a] && after[b] == before[b - 1]);
            }
        }
    }
    p
}

/// Derives the attention queue of current, not closed uncertainties from
/// the current exposure report; it recommends and never decides.
#[verifier::rlimit(100)]
#[verifier::spinoff_prover]
pub fn derive_escalation_queue(
    snapshot: &ProjectSnapshot,
    exposure: &ExposureReport,
    uncertainties: &Vec<UncertaintyRecord>,
    consequences: &Vec<ForecastConsequence>,
    as_of_date: ProjectDate,
) -> (r: Result<Vec<EscalationRecommendation>, ConstructionProjectError>)
    requires
        forall|i: int| 0 <= i < uncertainties@.len() ==> lead_start(#[trigger] uncertainties@[i]) >= i32::MIN,
    ensures
        escalation_queue_result(*snapshot, *exposure, uncertainties@, consequences@, as_of_date, r),
{
    if exposure.as_of_seq != snapshot.through_seq {
        return Err(ConstructionProjectError::UncertaintyDerivation {
            control: ControlId::from_baseline(&exposure.schedule_baseline),
            reason: "exposure report does not match the current snapshot",
        });
    }
    let qids = queue_ids(&exposure.queue);
    match first_duplicate(&qids) {
        Some(k) => {
            proof {
                assert(id_views(qids@).len() == queue_keys(exposure.queue@).len());
            }
            return Err(ConstructionProjectError::DuplicateId {
                kind: "exposure_queue.uncertainty",
                id: exposure.queue[k].uncertainty.as_str().to_owned(),
            });
        },
        None => {},
    }
    let cids = consequence_ids(consequences);
    match check_consequences(snapshot, consequences, &cids) {
        Err(e) => {
            return Err(e);
        },
        Ok(()) => {},
    }
    let ghost s = *snapshot;
    let ghost q = exposure.queue@;
    let ghost cs = consequences@;
    let ghost us = uncertainties@;
    let ghost p = unadmitted(s, q, cs, us);
    let mut out: Vec<EscalationRecommendation> = Vec::new();
    let ghost mut idx: Seq<int> = Seq::empty();
    let mut i: usize = 0;
    while i < uncertainties.len()
        invariant
            s == *snapshot,
            q == exposure.queue@,
            cs == consequences@,
            us == uncertainties@,
            p == unadmitted(s, q, cs, us),
            exposure.as_of_seq == snapshot.through_seq,
            dup_position(queue_keys(q), q.len() as int) is None,
            first_where(unaccepted(s, cs), cs.len() as int) is None,
            id_views(cids@) == consequence_keys(cs),
            id_views(qids@) == queue_keys(q),
            forall|j: int| 0 <= j < us.len() ==> lead_start(#[trigger] us[j]) >= i32::MIN,
            i <= us.len(),
            first_where(p, i as int) is None,
            queue_ordered(out@),
            queue_covers(out@, idx, s, q, cs, us, as_of_date, i as int),
        decreases uncertainties.len() - i,
    {
        let u = &uncertainties[i];
        match admit_uncertainty(snapshot, &exposure.queue, &qids, consequences, &cids, u) {
            Err(e) => {
                proof {
                    assert(p(i as int));
                    assert(first_where(p, i as int + 1) == Some(i as int));
                    lemma_first_where_stable(p, i as int + 1, us.len() as int);
                    assert(uncertainty_refusal(s, q, cs, us[i as int], e));
                    assert(first_where(unadmitted(s, q, cs, us), us.len() as int) == Some(i as int));
                }
                return Err(e);
            },
            Ok(()) => {},
        }
        proof {
            assert(!p(i as int));
            assert(first_where(p, i as int + 1) is None);
        }
        let closed = match u.state {
            UncertaintyState::Closed { .. } => true,
            _ => false,
        };
        if !closed {
            match find_id(&qids, &u.control) {
                None => {
                    proof {
                        assert(false);
                    }
                },
                Some(k) => {
                    proof {
                        assert(id_views(qids@).len() == queue_keys(q).len());
                        assert(queue_item(q, u.control@) == Some(q[k as int]));
                    }
                    let it = &exposure.queue[k];
                    let reasons = reasons_for(snapshot, consequences, &cids, u, it, as_of_date);
                    if reasons.len() > 0 {
                        let attention = attention_level(reasons.as_slice());
                        let due = if u.response.decision_due_on.julian_day < u.response.due_on.julian_day {
                            u.response.decision_due_on
                        } else {
                            u.response.due_on
                        };
                        let recommended_to = match &u.response.authority {
                            Some(a) => Some(a.clone()),
                            None => None,
                        };
                        let rec = EscalationRecommendation {
                            uncertainty: u.control.clone(),
                            kind: u.kind,
                            owner: u.owner.clone(),
                            recommended_to,
                            attention,
                            reasons,
                            attention_due_on: due,
                            recommendation: "review current evidence and obtain an accountable decision".to_owned(),
                        };
                        let ghost old_out = out@;
                        let ghost old_idx = idx;
                        let pos = insert_in_order(&mut out, rec);
                        proof {
                            idx = old_idx.insert(pos as int, i as int);
                            assert(raises(s, q, cs, us[i as int], as_of_date));
                            assert forall|k2: int| 0 <= k2 < idx.len() implies 0 <= #[trigger] idx[k2] < i + 1
                                && raises(s, q, cs, us[idx[k2]], as_of_date)
                                && recommendation_for(out@[k2], s, q, cs, us[idx[k2]], as_of_date) by {
                                if k2 < pos {
                                    assert(idx[k2] == old_idx[k2] && out@[k2] == old_out[k2]);
                                } else if k2 > pos {
                                    assert(idx[k2] == old_idx[k2 - 1] && out@[k2] == old_out[k2 - 1]);
                                }
                            }
                            assert forall|a: int, b: int| 0 <= a < b < idx.len() implies #[trigger] idx[a] != #[trigger] idx[b] by {
                                if a != pos as int && b != pos as int {
                                    let a0 = if a < pos { a } else { a - 1 };
                                    let b0 = if b < pos { b } else { b - 1 };
                                    assert(idx[a] == old_idx[a0] && idx[b] == old_idx[b0]);
                                } else if a == pos as int {
                                    assert(idx[b] == old_idx[b - 1]);
                                } else {
                                    assert(idx[a] == old_idx[a]);
                                }
                            }
                            assert forall|j: int| 0 <= j < i + 1 && raises(s, q, cs, #[trigger] us[j], as_of_date) implies exists|k2: int| 0 <= k2 < idx.len()
                                && idx[k2] == j by {
                                if j == i {
                                    assert(idx[pos as int] == i);
                                } else {
                                    let k0 = choose|k0: int| 0 <= k0 < old_idx.len() && old_idx[k0] == j;
                                    if k0 < pos {
                                        assert(idx[k0] == j);
                                    } else {
                                        assert(idx[k0 + 1] == j);
                                    }
                                }
                            }
                        }
                    } else {
                        proof {
                            assert(!raises(s, q, cs, us[i as int], as_of_date));
                        }
                    }
                },
            }
        } else {
            proof {
                assert(!raises(s, q, cs, us[i as int], as_of_date));
            }
        }
        i = i + 1;
    }
    proof {
        assert(queue_covers(out@, idx, s, q, cs, us, as_of_date, us.len() as int));
        assert(first_where(unadmitted(s, q, cs, us), us.len() as int) is None);
        assert(first_where(unaccepted(s, cs), cs.len() as int) is None);
        assert(dup_position(queue_keys(q), q.len() as int) is None);
        assert(queue_ordered(out@));
    }
    Ok(out)
}

/// Reasons ascend in reason order.
pub open spec fn rank_sorted(r: Seq<EscalationReason>) -> bool {
    forall|i: int, j: int| 0 <= i < j < r.len() ==> reason_position(#[trigger] r[i]) <= reason_position(#[trigger] r[j])
}

/// No reason repeats the one just before it.
pub open spec fn adjacent_distinct(r: Seq<EscalationReason>) -> bool {
    forall|i: int| 0 <= i < r.len() - 1 ==> #[trigger] r[i] != r[i + 1]
}

proof fn lemma_push_higher(r: Seq<EscalationReason>, x: EscalationReason)
    requires
        rank_sorted(r),
        adjacent_distinct(r),
        forall|i: int| 0 <= i < r.len() ==> reason_position(#[trigger] r[i]) < reason_position(x),
    ensures
        rank_sorted(r.push(x)),
        adjacent_distinct(r.push(x)),
{
    let q = r.push(x);
    assert forall|i: int, j: int| 0 <= i < j < q.len() implies reason_position(#[trigger] q[i]) <= reason_position(#[trigger] q[j]) by {
        if j < r.len() {
            assert(q[i] == r[i] && q[j] == r[j]);
        } else {
            assert(q[i] == r[i]);
        }
    }
    assert forall|i: int| 0 <= i < q.len() - 1 implies #[trigger] q[i] != q[i + 1] by {
        if i + 1 < r.len() {
            assert(q[i] == r[i] && q[i + 1] == r[i + 1]);
        } else {
            assert(q[i] == r[i]);
            assert(reason_position(q[i]) < reason_position(q[i + 1]));
        }
    }
}

proof fn lemma_changed_shape(s: ProjectSnapshot, cs: Seq<ForecastConsequence>, ids: Seq<ControlId>, n: int)
    ensures
        forall|i: int| 0 <= i < changed_reasons(s, cs, ids, n).len() ==> #[trigger] changed_reasons(s, cs, ids, n)[i] is ChangedConsequence,
        adjacent_distinct(changed_reasons(s, cs, ids, n)),
    decreases n,
{
    if n > 0 {
        lemma_changed_shape(s, cs, ids, n - 1);
        let prev = changed_reasons(s, cs, ids, n - 1);
        let r = changed_reasons(s, cs, ids, n);
        if r != prev {
            let c = cs[key_position(consequence_keys(cs), ids[n - 1]@)->0];
            assert(r == prev.push(EscalationReason::ChangedConsequence { consequence: c.control }));
            assert forall|i: int| 0 <= i < r.len() implies #[trigger] r[i] is ChangedConsequence by {
                if i < prev.len() {
                    assert(r[i] == prev[i]);
                }
            }
            assert forall|i: int| 0 <= i < r.len() - 1 implies #[trigger] r[i] != r[i + 1] by {
                if i + 1 < prev.len() {
                    assert(r[i] == prev[i] && r[i + 1] == prev[i + 1]);
                } else {
                    assert(r[i] == prev.last());
                }
            }
        }
    }
}

/// The reasons of a recommendation follow reason order (an occurred event
/// first, a stale rating last), and no reason repeats the one before it.
#[verifier::rlimit(80)]
#[verifier::spinoff_prover]
pub proof fn lemma_reasons_in_reason_order(
    s: ProjectSnapshot,
    cs: Seq<ForecastConsequence>,
    u: UncertaintyRecord,
    it: ExposureQueueItem,
    as_of: ProjectDate,
)
    ensures
        rank_sorted(reasons_of(s, cs, u, it, as_of)),
        adjacent_distinct(reasons_of(s, cs, u, it, as_of)),
{
    let open = response_is_open(u.response.state);
    let r0: Seq<EscalationReason> = if u.state is RiskRealized || u.state is OpportunityCaptured {
        seq![EscalationReason::EventOccurred]
    } else {
        Seq::empty()
    };
    assert(rank_sorted(r0) && adjacent_distinct(r0));
    let x1 = EscalationReason::CrossedTrigger { fact_seq: u.response.trigger_crossed_seq->0 };
    let r1 = if open && u.response.trigger_crossed_seq is Some { r0.push(x1) } else { r0 };
    if open && u.response.trigger_crossed_seq is Some {
        lemma_push_higher(r0, x1);
    }
    assert(forall|i: int| 0 <= i < r1.len() ==> reason_position(#[trigger] r1[i]) <= 1);
    let r2 = if it.critical_path { r1.push(EscalationReason::CriticalPathConsequence) } else { r1 };
    if it.critical_path {
        lemma_push_higher(r1, EscalationReason::CriticalPathConsequence);
    }
    assert(forall|i: int| 0 <= i < r2.len() ==> reason_position(#[trigger] r2[i]) <= 2) by {
        assert forall|i: int| 0 <= i < r2.len() implies reason_position(#[trigger] r2[i]) <= 2 by {
            if i < r1.len() {
                assert(r2[i] == r1[i]);
            }
        }
    }
    let x3 = EscalationReason::OverdueResponse { due_on: u.response.due_on };
    let r3 = if open && u.response.due_on.julian_day < as_of.julian_day { r2.push(x3) } else { r2 };
    if open && u.response.due_on.julian_day < as_of.julian_day {
        lemma_push_higher(r2, x3);
    }
    assert(forall|i: int| 0 <= i < r3.len() ==> reason_position(#[trigger] r3[i]) <= 3) by {
        assert forall|i: int| 0 <= i < r3.len() implies reason_position(#[trigger] r3[i]) <= 3 by {
            if i < r2.len() {
                assert(r3[i] == r2[i]);
            }
        }
    }
    let ch = changed_reasons(s, cs, it.consequences@, it.consequences@.len() as int);
    lemma_changed_shape(s, cs, it.consequences@, it.consequences@.len() as int);
    let r4 = r3 + ch;
    assert(rank_sorted(r4)) by {
        assert forall|i: int, j: int| 0 <= i < j < r4.len() implies reason_position(#[trigger] r4[i]) <= reason_position(#[trigger] r4[j]) by {
            if j < r3.len() {
                assert(r4[i] == r3[i] && r4[j] == r3[j]);
            } else if i < r3.len() {
                assert(r4[i] == r3[i] && r4[j] == ch[j - r3.len()]);
                assert(ch[j - r3.len()] is ChangedConsequence);
            } else {
                assert(r4[i] == ch[i - r3.len()] && r4[j] == ch[j - r3.len()]);
                assert(ch[i - r3.len()] is ChangedConsequence);
                assert(ch[j - r3.len()] is ChangedConsequence);
            }
        }
    }
    assert(adjacent_distinct(r4)) by {
        assert forall|i: int| 0 <= i < r4.len() - 1 implies #[trigger] r4[i] != r4[i + 1] by {
            if i + 1 < r3.len() {
                assert(r4[i] == r3[i] && r4[i + 1] == r3[i + 1]);
            } else if i + 1 == r3.len() {
                assert(r4[i] == r3[i] && r4[i + 1] == ch[0]);
                assert(ch[0] is ChangedConsequence);
            } else {
                assert(r4[i] == ch[i - r3.len()] && r4[i + 1] == ch[i - r3.len() + 1]);
            }
        }
    }
    assert(forall|i: int| 0 <= i < r4.len() ==> reason_position(#[trigger] r4[i]) <= 4) by {
        assert forall|i: int| 0 <= i < r4.len() implies reason_position(#[trigger] r4[i]) <= 4 by {
            if i < r3.len() {
                assert(r4[i] == r3[i]);
            } else {
                assert(r4[i] == ch[i - r3.len()]);
                assert(ch[i - r3.len()] is ChangedConsequence);
            }
        }
    }
    let r5 = if open && u.response.authority is None { r4.push(EscalationReason::MissingAuthority) } else { r4 };
    if open && u.response.authority is None {
        lemma_push_higher(r4, EscalationReason::MissingAuthority);
    }
    assert(forall|i: int| 0 <= i < r5.len() ==> reason_position(#[trigger] r5[i]) <= 5) by {
        assert forall|i: int| 0 <= i < r5.len() implies reason_position(#[trigger] r5[i]) <= 5 by {
            if i < r4.len() {
                assert(r5[i] == r4[i]);
            }
        }
    }
    let x6 = EscalationReason::DecisionLeadTime {
        attention_on: ProjectDate { julian_day: lead_start(u) as i32 },
        decision_due_on: u.response.decision_due_on,
    };
    let r6 = if open && lead_start(u) <= as_of.julian_day { r5.push(x6) } else { r5 };
    if open && lead_start(u) <= as_of.julian_day {
        lemma_push_higher(r5, x6);
    }
    assert(forall|i: int| 0 <= i < r6.len() ==> reason_position(#[trigger] r6[i]) <= 6) by {
        assert forall|i: int| 0 <= i < r6.len() implies reason_position(#[trigger] r6[i]) <= 6 by {
            if i < r5.len() {
                assert(r6[i] == r5[i]);
            }
        }
    }
    if it.stale_rating {
        lemma_push_higher(r6, EscalationReason::StaleRating);
    }
}

/// A realized risk or captured opportunity that is not closed always gets a
/// recommendation: it is listed with the occurred event as its first reason
/// and immediate attention.
pub proof fn lemma_occurred_event_calls_for_immediate_attention(
    s: ProjectSnapshot,
    exposure: ExposureReport,
    us: Seq<UncertaintyRecord>,
    cs: Seq<ForecastConsequence>,
    as_of: ProjectDate,
    out: Vec<EscalationRecommendation>,
    i: int,
)
    requires
        escalation_queue_result(s, exposure, us, cs, as_of, Ok(out)),
        0 <= i < us.len(),
        us[i].state is RiskRealized || us[i].state is OpportunityCaptured,
    ensures
        exists|k: int| 0 <= k < out@.len() && (#[trigger] out@[k]).uncertainty == us[i].control
            && out@[k].reasons@.len() > 0 && out@[k].reasons@[0] == EscalationReason::EventOccurred
            && out@[k].attention == AttentionLevel::Immediate,
{
    let q = exposure.queue@;
    let idx = choose|idx: Seq<int>| queue_covers(out@, idx, s, q, cs, us, as_of, us.len() as int);
    let u = us[i];
    let it = queue_item(q, u.control@)->0;
    let reasons = reasons_of(s, cs, u, it, as_of);
    let open = response_is_open(u.response.state);
    let r0: Seq<EscalationReason> = seq![EscalationReason::EventOccurred];
    let r1 = if open && u.response.trigger_crossed_seq is Some {
        r0.push(EscalationReason::CrossedTrigger { fact_seq: u.response.trigger_crossed_seq->0 })
    } else {
        r0
    };
    let r2 = if it.critical_path { r1.push(EscalationReason::CriticalPathConsequence) } else { r1 };
    let r3 = if open && u.response.due_on.julian_day < as_of.julian_day {
        r2.push(EscalationReason::OverdueResponse { due_on: u.response.due_on })
    } else {
        r2
    };
    assert(r3.len() > 0 && r3[0] == EscalationReason::EventOccurred);
    let r4 = r3 + changed_reasons(s, cs, it.consequences@, it.consequences@.len() as int);
    assert(r4[0] == r3[0]);
    let r5 = if open && u.response.authority is None { r4.push(EscalationReason::MissingAuthority) } else { r4 };
    let r6 = if open && lead_start(u) <= as_of.julian_day {
        r5.push(EscalationReason::DecisionLeadTime {
            attention_on: ProjectDate { julian_day: lead_start(u) as i32 },
            decision_due_on: u.response.decision_due_on,
        })
    } else {
        r5
    };
    assert(r6.len() > 0 && r6[0] == EscalationReason::EventOccurred);
    assert(reasons == (if it.stale_rating { r6.push(EscalationReason::StaleRating) } else { r6 }));
    assert(reasons.len() > 0 && reasons[0] == EscalationReason::EventOccurred);
    assert(raises(s, q, cs, us[i], as_of));
    let k = choose|k: int| 0 <= k < idx.len() && idx[k] == i;
    assert(recommendation_for(out@[k], s, q, cs, us[idx[k]], as_of));
    assert(calls_for_immediate(reasons[0]));
    assert(attention_of(reasons) == AttentionLevel::Immediate);
}

proof fn lemma_prefix_contains(a: Seq<EscalationReason>, b: Seq<EscalationReason>, y: EscalationReason)
    requires
        a.contains(y),
    ensures
        (a + b).contains(y),
{
    let i = choose|i: int| 0 <= i < a.len() && a[i] == y;
    assert((a + b)[i] == y);
}

/// The reasons of uncertainty `u` include each reason whose condition holds.
proof fn lemma_reasons_include(
    s: ProjectSnapshot,
    cs: Seq<ForecastConsequence>,
    u: UncertaintyRecord,
    it: ExposureQueueItem,
    as_of: ProjectDate,
)
    ensures
        ({
            let reasons = reasons_of(s, cs, u, it, as_of);
            let open = u.response.state == ResponseState::Planned || u.response.state == ResponseState::InProgress;
            &&& (u.state is RiskRealized || u.state is OpportunityCaptured) ==> reasons.contains(EscalationReason::EventOccurred)
            &&& (open && u.response.trigger_crossed_seq is Some) ==> reasons.contains(
                EscalationReason::CrossedTrigger { fact_seq: u.response.trigger_crossed_seq->0 },
            )
            &&& it.critical_path ==> reasons.contains(EscalationReason::CriticalPathConsequence)
            &&& (open && u.response.due_on.julian_day < as_of.julian_day) ==> reasons.contains(
                EscalationReason::OverdueResponse { due_on: u.response.due_on },
            )
            &&& (open && u.response.authority is None) ==> reasons.contains(EscalationReason::MissingAuthority)
            &&& (open && u.response.decision_due_on.julian_day - u.response.decision_lead_days <= as_of.julian_day) ==> reasons.contains(
                EscalationReason::DecisionLeadTime {
                    attention_on: ProjectDate {
                        julian_day: (u.response.decision_due_on.julian_day - u.response.decision_lead_days) as i32,
                    },
                    decision_due_on: u.response.decision_due_on,
                },
            )
            &&& it.stale_rating ==> reasons.contains(EscalationReason::StaleRating)
        }),
{
    let open = response_is_open(u.response.state);
    let r0: Seq<EscalationReason> = if u.state is RiskRealized || u.state is OpportunityCaptured {
        seq![EscalationReason::EventOccurred]
    } else {
        Seq::empty()
    };
    let x1 = EscalationReason::CrossedTrigger { fact_seq: u.response.trigger_crossed_seq->0 };
    let r1 = if open && u.response.trigger_crossed_seq is Some { r0.push(x1) } else { r0 };
    let r2 = if it.critical_path { r1.push(EscalationReason::CriticalPathConsequence) } else { r1 };
    let x3 = EscalationReason::OverdueResponse { due_on: u.response.due_on };
    let r3 = if open && u.response.due_on.julian_day < as_of.julian_day { r2.push(x3) } else { r2 };
    let ch = changed_reasons(s, cs, it.consequences@, it.consequences@.len() as int);
    let r4 = r3 + ch;
    let r5 = if open && u.response.authority is None { r4.push(EscalationReason::MissingAuthority) } else { r4 };
    let x6 = EscalationReason::DecisionLeadTime {
        attention_on: ProjectDate { julian_day: lead_start(u) as i32 },
        decision_due_on: u.response.decision_due_on,
    };
    let r6 = if open && lead_start(u) <= as_of.julian_day { r5.push(x6) } else { r5 };
    let r7 = if it.stale_rating { r6.push(EscalationReason::StaleRating) } else { r6 };
    assert(reasons_of(s, cs, u, it, as_of) == r7);
    assert forall|y: EscalationReason| r3.contains(y) implies r7.contains(y) by {
        lemma_prefix_contains(r3, ch, y);
        let i = choose|i: int| 0 <= i < r4.len() && r4[i] == y;
        assert(r5[i] == y);
        assert(r6[i] == y);
        assert(r7[i] == y);
    }
    if u.state is RiskRealized || u.state is OpportunityCaptured {
        assert(r0[0] == EscalationReason::EventOccurred);
        assert(r3[0] == EscalationReason::EventOccurred);
        assert(r3.contains(EscalationReason::EventOccurred));
    }
    if open && u.response.trigger_crossed_seq is Some {
        assert(r1[r0.len() as int] == x1);
        assert(r3[r0.len() as int] == x1);
        assert(r3.contains(x1));
    }
    if it.critical_path {
        assert(r2[r1.len() as int] == EscalationReason::CriticalPathConsequence);
        assert(r3[r1.len() as int] == EscalationReason::CriticalPathConsequence);
        assert(r3.contains(EscalationReason::CriticalPathConsequence));
    }
    if open && u.response.due_on.julian_day < as_of.julian_day {
        assert(r3[r2.len() as int] == x3);
        assert(r3.contains(x3));
    }
    if open && u.response.authority is None {
        assert(r5[r4.len() as int] == EscalationReason::MissingAuthority);
        assert(r6[r4.len() as int] == EscalationReason::MissingAuthority);
        assert(r7[r4.len() as int] == EscalationReason::MissingAuthority);
    }
    if open && lead_start(u) <= as_of.julian_day {
        assert(r6[r5.len() as int] == x6);
        assert(r7[r5.len() as int] == x6);
    }
    if it.stale_rating {
        assert(r7[r6.len() as int] == EscalationReason::StaleRating);
    }
}

/// An uncertainty that is not closed and has a reason for attention gets a
/// recommendation that states each reason that applies to it: an occurred
/// event, a crossed trigger of an open response, a critical-path
/// consequence, an open response past its due date, an open response with no
/// authority, an open response whose decision preparation has begun (the
/// decision due date less its lead days), a stale rating. `t` is its first
/// exposure queue item.
pub proof fn lemma_recommendation_states_its_reasons(
    s: ProjectSnapshot,
    exposure: ExposureReport,
    us: Seq<UncertaintyRecord>,
    cs: Seq<ForecastConsequence>,
    as_of: ProjectDate,
    out: Vec<EscalationRecommendation>,
    i: int,
    t: int,
)
    requires
        escalation_queue_result(s, exposure, us, cs, as_of, Ok(out)),
        0 <= i < us.len(),
        !(us[i].state is Closed),
        0 <= t < exposure.queue@.len(),
        exposure.queue@[t].uncertainty@ == us[i].control@,
        forall|t2: int| 0 <= t2 < t ==> (#[trigger] exposure.queue@[t2]).uncertainty@ != us[i].control@,
    ensures
        ({
            let u = us[i];
            let it = exposure.queue@[t];
            let open = u.response.state == ResponseState::Planned || u.response.state == ResponseState::InProgress;
            let event = u.state is RiskRealized || u.state is OpportunityCaptured;
            let crossed = open && u.response.trigger_crossed_seq is Some;
            let overdue = open && u.response.due_on.julian_day < as_of.julian_day;
            let unassigned = open && u.response.authority is None;
            let lead = open && u.response.decision_due_on.julian_day - u.response.decision_lead_days <= as_of.julian_day;
            (event || crossed || it.critical_path || overdue || unassigned || lead || it.stale_rating) ==> exists|k: int|
                0 <= k < out@.len() && (#[trigger] out@[k]).uncertainty == u.control
                && (event ==> out@[k].reasons@.contains(EscalationReason::EventOccurred))
                && (crossed ==> out@[k].reasons@.contains(
                    EscalationReason::CrossedTrigger { fact_seq: u.response.trigger_crossed_seq->0 },
                ))
                && (it.critical_path ==> out@[k].reasons@.contains(EscalationReason::CriticalPathConsequence))
                && (overdue ==> out@[k].reasons@.contains(EscalationReason::OverdueResponse { due_on: u.response.due_on }))
                && (unassigned ==> out@[k].reasons@.contains(EscalationReason::MissingAuthority))
                && (lead ==> out@[k].reasons@.contains(EscalationReason::DecisionLeadTime {
                    attention_on: ProjectDate {
                        julian_day: (u.response.decision_due_on.julian_day - u.response.decision_lead_days) as i32,
                    },
                    decision_due_on: u.response.decision_due_on,
                }))
                && (it.stale_rating ==> out@[k].reasons@.contains(EscalationReason::StaleRating))
        }),
{
    let q = exposure.queue@;
    let u = us[i];
    let keys = queue_keys(q);
    lemma_first_key_none(keys, u.control@, t);
    assert(keys[t] == u.control@);
    assert(first_key(keys, u.control@, t + 1) == Some(t));
    lemma_first_key_stable(keys, u.control@, t + 1, keys.len() as int);
    assert(queue_item(q, u.control@) == Some(q[t]));
    let it = q[t];
    lemma_reasons_include(s, cs, u, it, as_of);
    let reasons = reasons_of(s, cs, u, it, as_of);
    if reasons.len() > 0 {
        assert(raises(s, q, cs, us[i], as_of));
        let idx = choose|idx: Seq<int>| queue_covers(out@, idx, s, q, cs, us, as_of, us.len() as int);
        let k = choose|k: int| 0 <= k < idx.len() && idx[k] == i;
        assert(recommendation_for(out@[k], s, q, cs, us[idx[k]], as_of));
    }
}

/// The attention class of a recommendation follows its reasons: immediate
/// exactly when an event occurred, a trigger was crossed or a consequence is
/// on the critical path; review exactly when every reason is a stale rating;
/// high otherwise.
pub proof fn lemma_attention_follows_reasons(
    s: ProjectSnapshot,
    exposure: ExposureReport,
    us: Seq<UncertaintyRecord>,
    cs: Seq<ForecastConsequence>,
    as_of: ProjectDate,
    out: Vec<EscalationRecommendation>,
    k: int,
)
    requires
        escalation_queue_result(s, exposure, us, cs, as_of, Ok(out)),
        0 <= k < out@.len(),
    ensures
        out@[k].attention == AttentionLevel::Immediate <==> exists|x: int| 0 <= x < out@[k].reasons@.len() && ({
            let r = #[trigger] out@[k].reasons@[x];
            r is EventOccurred || r is CrossedTrigger || r is CriticalPathConsequence
        }),
        out@[k].attention == AttentionLevel::Review <==> forall|x: int| 0 <= x < out@[k].reasons@.len()
            ==> (#[trigger] out@[k].reasons@[x]) is StaleRating,
{
    let q = exposure.queue@;
    let idx = choose|idx: Seq<int>| queue_covers(out@, idx, s, q, cs, us, as_of, us.len() as int);
    assert(recommendation_for(out@[k], s, q, cs, us[idx[k]], as_of));
}

/// The queue puts immediate attention first, then high, then review.
pub proof fn lemma_queue_attention_order(
    s: ProjectSnapshot,
    exposure: ExposureReport,
    us: Seq<UncertaintyRecord>,
    cs: Seq<ForecastConsequence>,
    as_of: ProjectDate,
    out: Vec<EscalationRecommendation>,
    a: int,
    b: int,
)
    requires
        escalation_queue_result(s, exposure, us, cs, as_of, Ok(out)),
        0 <= a < b < out@.len(),
    ensures
        out@[b].attention == AttentionLevel::Immediate ==> out@[a].attention == AttentionLevel::Immediate,
        out@[b].attention == AttentionLevel::High ==> out@[a].attention != AttentionLevel::Review,
{
    assert(!queue_before(out@[b], out@[a]));
}

/// Every recommendation names an uncertainty of the input that is not closed.
pub proof fn lemma_recommendations_are_for_open_uncertainties(
    s: ProjectSnapshot,
    exposure: ExposureReport,
    us: Seq<UncertaintyRecord>,
    cs: Seq<ForecastConsequence>,
    as_of: ProjectDate,
    out: Vec<EscalationRecommendation>,
    k: int,
)
    requires
        escalation_queue_result(s, exposure, us, cs, as_of, Ok(out)),
        0 <= k < out@.len(),
    ensures
        exists|i: int| 0 <= i < us.len() && (#[trigger] us[i]).control == out@[k].uncertainty && !(us[i].state is Closed),
{
    let q = exposure.queue@;
    let idx = choose|idx: Seq<int>| queue_covers(out@, idx, s, q, cs, us, as_of, us.len() as int);
    assert(recommendation_for(out@[k], s, q, cs, us[idx[k]], as_of));
    assert(raises(s, q, cs, us[idx[k]], as_of));
}

} // verus!
