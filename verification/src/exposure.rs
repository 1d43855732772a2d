//! Current exposure of risks and opportunities: the queue of current
//! uncertainties and exact amount buckets.

use vstd::prelude::*;
use crate::charter::CurrencyCode;
use crate::error::ConstructionProjectError;
use crate::forecast::{ForecastConsequence, ForecastValue};
use crate::identity::{BaselineId, ControlId};
use crate::order::{
    find_id, first_key, id_set, id_views, ids_sorted, insert_id, key_position, lemma_lex_asymmetric, lemma_lex_irreflexive,
    lemma_lex_total, lemma_lex_transitive, lex_lt, text_precedes,
};
use crate::uncertainty::{rating_is_stale, uncertainty_check, UncertaintyKind, UncertaintyRecord, UncertaintyState};
use crate::baseline::{baseline_check, AcceptedBaseline, BaselineKind, ScheduleStatusReport, ScheduleTaskJoinSet};
use crate::forecast::{consequence_check, hierarchy_check, validate_hierarchy, ForecastBasis};
use crate::evidence::{EvidenceState, ExternalRef};
use crate::commercial::CommercialAmount;
use crate::control_graph::{
    dangling_refusal, is_cycle_report, nodes_unique, readiness_acyclic, readiness_endpoints_present, reaches, ControlGraph,
    EdgeScope, has_node,
};
use crate::order::contains_id;
use crate::identity::ProjectId;
use crate::order::{first_where, lemma_first_where_stable, lemma_first_where_none, lemma_first_key_none, seen_before, lemma_first_key_stable};
use crate::snapshot::{current_of, ProjectSnapshot};

verus! {

/// Correlation or hierarchy note kept beside an exact exposure total.
#[derive(Debug, PartialEq, Eq)]
pub enum ExposureAnnotation {
    /// Current child facts replaced a parent summary to prevent double counting.
    ParentSummaryExcluded {
        /// Excluded parent summary.
        parent: ControlId,
        /// Current children used instead.
        children: Vec<ControlId>,
    },
    /// Consequences share a correlation group that needs expert interpretation.
    Correlated {
        /// Correlation-group id.
        group: ControlId,
        /// Correlated consequence facts in this bucket.
        consequences: Vec<ControlId>,
    },
}

/// Comparable exact-amount exposure bucket.
#[derive(Debug, PartialEq, Eq)]
pub struct ExposureBucket {
    /// Risk and opportunity amounts stay separate.
    pub kind: UncertaintyKind,
    /// Scenario stays separate.
    pub scenario: ControlId,
    /// Currency stays separate.
    pub currency: CurrencyCode,
    /// Checked sum of the contributing amounts, in minor units.
    pub total: i64,
    /// Consequence facts counted, each once.
    pub contributors: Vec<ControlId>,
    /// Hierarchy and correlation annotations.
    pub annotations: Vec<ExposureAnnotation>,
}

/// One current uncertainty in the exposure queue.
#[derive(Debug, PartialEq, Eq)]
pub struct ExposureQueueItem {
    /// Risk or opportunity control.
    pub uncertainty: ControlId,
    /// Risk or opportunity.
    pub kind: UncertaintyKind,
    /// Current lifecycle state.
    pub state: UncertaintyState,
    /// Accepted baseline used by the uncertainty.
    pub baseline: BaselineId,
    /// Whether a rating predates the current fact.
    pub stale_rating: bool,
    /// Current forecast-consequence facts.
    pub consequences: Vec<ControlId>,
    /// Downstream controls reached through the control graph.
    pub affected_dependents: Vec<ControlId>,
    /// True when a consequence affects a joined critical-path control.
    pub critical_path: bool,
}

/// Derived current exposure report.
#[derive(Debug, PartialEq, Eq)]
pub struct ExposureReport {
    /// Project sequence used for every current-fact check.
    pub as_of_seq: u64,
    /// Accepted schedule baseline used for critical-path joins.
    pub schedule_baseline: BaselineId,
    /// Current risk and opportunity queue.
    pub queue: Vec<ExposureQueueItem>,
    /// Exact comparable amount buckets.
    pub amount_buckets: Vec<ExposureBucket>,
}

/// Uncertainty ids of the exposure queue, in order.
pub open spec fn queue_keys(q: Seq<ExposureQueueItem>) -> Seq<Seq<char>> {
    q.map_values(|i: ExposureQueueItem| i.uncertainty@)
}

/// Control ids of uncertainties, in order.
pub open spec fn uncertainty_keys(us: Seq<UncertaintyRecord>) -> Seq<Seq<char>> {
    us.map_values(|u: UncertaintyRecord| u.control@)
}

/// Kind of the (first) uncertainty with id `x`.
pub open spec fn kind_of(us: Seq<UncertaintyRecord>, x: Seq<char>) -> UncertaintyKind {
    us[key_position(uncertainty_keys(us), x)->0].kind
}

/// A consequence counts toward an amount bucket: it carries an amount and
/// summarizes no children.
pub open spec fn counted(c: ForecastConsequence) -> bool {
    c.summarizes@.len() == 0 && c.value is Amount
}

/// Amount carried by a consequence, in minor units (zero for other values).
pub open spec fn amount_value(c: ForecastConsequence) -> int {
    match c.value {
        ForecastValue::Amount(a) => a.amount as int,
        _ => 0,
    }
}

/// Currency text of an amount consequence.
pub open spec fn currency_text(c: ForecastConsequence) -> Seq<char> {
    match c.value {
        ForecastValue::Amount(a) => a.currency@,
        _ => Seq::empty(),
    }
}

/// Bucket key of a consequence: uncertainty kind, scenario and currency.
pub open spec fn key_of(us: Seq<UncertaintyRecord>, c: ForecastConsequence) -> (UncertaintyKind, Seq<char>, Seq<char>) {
    (kind_of(us, c.uncertainty@), c.scenario@, currency_text(c))
}

/// Risks order before opportunities.
pub open spec fn kind_position(k: UncertaintyKind) -> int {
    match k {
        UncertaintyKind::Risk => 0,
        UncertaintyKind::Opportunity => 1,
    }
}

/// Strict bucket-key order: kind, then scenario, then currency.
pub open spec fn key_lt(a: (UncertaintyKind, Seq<char>, Seq<char>), b: (UncertaintyKind, Seq<char>, Seq<char>)) -> bool {
    ||| kind_position(a.0) < kind_position(b.0)
    ||| a.0 == b.0 && lex_lt(a.1, b.1)
    ||| a.0 == b.0 && a.1 == b.1 && lex_lt(a.2, b.2)
}

/// Key of a bucket.
pub open spec fn bucket_key(b: ExposureBucket) -> (UncertaintyKind, Seq<char>, Seq<char>) {
    (b.kind, b.scenario@, b.currency@)
}

/// Consequence `c` is counted in the bucket with key `key`.
pub open spec fn in_bucket(us: Seq<UncertaintyRecord>, c: ForecastConsequence, key: (UncertaintyKind, Seq<char>, Seq<char>)) -> bool {
    counted(c) && key_of(us, c) == key
}

/// Sum of the amounts counted in bucket `key` among the first `n` consequences.
pub open spec fn bucket_sum(us: Seq<UncertaintyRecord>, cs: Seq<ForecastConsequence>, key: (UncertaintyKind, Seq<char>, Seq<char>), n: int) -> int
    decreases n,
{
    if n <= 0 {
        0
    } else {
        bucket_sum(us, cs, key, n - 1) + if in_bucket(us, cs[n - 1], key) { amount_value(cs[n - 1]) } else { 0 }
    }
}

/// Every running sum of bucket `key`, taken in consequence order, fits in `i64`.
pub open spec fn bucket_fits(us: Seq<UncertaintyRecord>, cs: Seq<ForecastConsequence>, key: (UncertaintyKind, Seq<char>, Seq<char>)) -> bool {
    forall|n: int| 0 <= n <= cs.len() ==> i64::MIN <= #[trigger] bucket_sum(us, cs, key, n) <= i64::MAX
}

/// Consequences counted in bucket `key` among the first `n`, in order.
pub open spec fn bucket_members(us: Seq<UncertaintyRecord>, cs: Seq<ForecastConsequence>, key: (UncertaintyKind, Seq<char>, Seq<char>), n: int) -> Seq<ForecastConsequence>
    decreases n,
{
    if n <= 0 {
        Seq::empty()
    } else if in_bucket(us, cs[n - 1], key) {
        bucket_members(us, cs, key, n - 1).push(cs[n - 1])
    } else {
        bucket_members(us, cs, key, n - 1)
    }
}

/// Parent summaries excluded from bucket `key` among the first `n`: amount
/// consequences of that key that summarize children.
pub open spec fn excluded_parents(us: Seq<UncertaintyRecord>, cs: Seq<ForecastConsequence>, key: (UncertaintyKind, Seq<char>, Seq<char>), n: int) -> Seq<ForecastConsequence>
    decreases n,
{
    if n <= 0 {
        Seq::empty()
    } else if cs[n - 1].summarizes@.len() > 0 && cs[n - 1].value is Amount && key_of(us, cs[n - 1]) == key {
        excluded_parents(us, cs, key, n - 1).push(cs[n - 1])
    } else {
        excluded_parents(us, cs, key, n - 1)
    }
}

/// Members of a bucket in correlation group `g`, as control ids, in order.
pub open spec fn group_members(ms: Seq<ForecastConsequence>, g: Seq<char>, n: int) -> Seq<ControlId>
    decreases n,
{
    if n <= 0 {
        Seq::empty()
    } else if ms[n - 1].correlation matches Some(h) && h@ == g {
        group_members(ms, g, n - 1).push(ms[n - 1].control)
    } else {
        group_members(ms, g, n - 1)
    }
}

/// Correlation groups of a bucket's members.
pub open spec fn groups_of(ms: Seq<ForecastConsequence>) -> Set<Seq<char>> {
    Set::new(|g: Seq<char>| exists|i: int| 0 <= i < ms.len() && ((#[trigger] ms[i]).correlation matches Some(h) && h@ == g))
}

/// The annotations of a bucket: one parent-exclusion note per excluded
/// parent, in id order, then one correlation note per group, in group order,
/// listing the group's members.
pub open spec fn annotations_hold(notes: Seq<ExposureAnnotation>, parents: Seq<ForecastConsequence>, ms: Seq<ForecastConsequence>) -> bool {
    &&& notes.len() >= parents.len()
    &&& forall|k: int| 0 <= k < parents.len() ==> (#[trigger] notes[k] matches ExposureAnnotation::ParentSummaryExcluded {
        parent,
        children,
    } && parent == parents[k].control && children@ == parents[k].summarizes@)
    &&& forall|k: int| parents.len() <= k < notes.len() ==> (#[trigger] notes[k] matches ExposureAnnotation::Correlated {
        group,
        consequences,
    } && groups_of(ms).contains(group@) && consequences@ == group_members(ms, group@, ms.len() as int))
    &&& forall|a: int, b: int| parents.len() <= a < b < notes.len() ==> lex_lt(
        (#[trigger] notes[a])->Correlated_group@,
        (#[trigger] notes[b])->Correlated_group@,
    )
    &&& forall|g: Seq<char>| #[trigger] groups_of(ms).contains(g) ==> exists|k: int| parents.len() <= k < notes.len()
        && notes[k]->Correlated_group@ == g
}

/// Bucket `b` holds the members of its key, their exact sum and its notes.
pub open spec fn bucket_holds(b: ExposureBucket, us: Seq<UncertaintyRecord>, cs: Seq<ForecastConsequence>) -> bool {
    let ms = bucket_members(us, cs, bucket_key(b), cs.len() as int);
    &&& b.contributors@ == ms.map_values(|c: ForecastConsequence| c.control)
    &&& b.total == bucket_sum(us, cs, bucket_key(b), cs.len() as int)
    &&& annotations_hold(b.annotations@, excluded_parents(us, cs, bucket_key(b), cs.len() as int), ms)
}

/// Some bucket of a list has key `key`.
pub open spec fn bucket_listed(bs: Seq<ExposureBucket>, key: (UncertaintyKind, Seq<char>, Seq<char>)) -> bool {
    exists|a: int| 0 <= a < bs.len() && bucket_key(#[trigger] bs[a]) == key
}

/// What `amount_buckets` answers: an overflow when a bucket's running sum
/// leaves `i64`; otherwise one bucket per key of a counted consequence, in
/// ascending key order, each holding its members, total and notes.
pub open spec fn buckets_result(us: Seq<UncertaintyRecord>, cs: Seq<ForecastConsequence>, r: Result<Vec<ExposureBucket>, ConstructionProjectError>) -> bool {
    if exists|i: int| 0 <= i < cs.len() && counted(#[trigger] cs[i]) && !bucket_fits(us, cs, key_of(us, cs[i])) {
        r == Err::<Vec<ExposureBucket>, ConstructionProjectError>(ConstructionProjectError::AmountOverflow { field: "forecast.exposure.total" })
    } else {
        r matches Ok(bs) && {
            &&& forall|a: int, b: int| 0 <= a < b < bs@.len() ==> key_lt(bucket_key(#[trigger] bs@[a]), bucket_key(#[trigger] bs@[b]))
            &&& forall|a: int| 0 <= a < bs@.len() ==> bucket_holds(#[trigger] bs@[a], us, cs)
            &&& forall|a: int| 0 <= a < bs@.len() ==> key_counted(us, cs, bucket_key(#[trigger] bs@[a]), cs.len() as int)
            &&& forall|i: int| 0 <= i < cs.len() && counted(#[trigger] cs[i]) ==> bucket_listed(bs@, key_of(us, cs[i]))
        }
    }
}

fn uncertainty_ids(us: &Vec<UncertaintyRecord>) -> (r: Vec<ControlId>)
    ensures
        id_views(r@) == uncertainty_keys(us@),
{
    let mut r: Vec<ControlId> = Vec::new();
    let mut i: usize = 0;
    while i < us.len()
        invariant
            i <= us@.len(),
            r@.len() == i,
            forall|j: int| 0 <= j < i ==> (#[trigger] r@[j])@ == us@[j].control@,
        decreases us.len() - i,
    {
        r.push(us[i].control.clone());
        i = i + 1;
    }
    assert(id_views(r@) =~= uncertainty_keys(us@));
    r
}

fn clone_ids(v: &Vec<ControlId>) -> (r: Vec<ControlId>)
    ensures
        r@ == v@,
{
    let mut r: Vec<ControlId> = Vec::new();
    let mut i: usize = 0;
    while i < v.len()
        invariant
            i <= v@.len(),
            r@ == v@.take(i as int),
        decreases v.len() - i,
    {
        r.push(v[i].clone());
        proof {
            assert(v@.take(i as int + 1) =~= v@.take(i as int).push(v@[i as int]));
        }
        i = i + 1;
    }
    assert(v@.take(v@.len() as int) =~= v@);
    r
}

fn kind_at(us: &Vec<UncertaintyRecord>, uids: &Vec<ControlId>, x: &ControlId) -> (k: UncertaintyKind)
    requires
        id_views(uids@) == uncertainty_keys(us@),
        key_position(uncertainty_keys(us@), x@) is Some,
    ensures
        k == kind_of(us@, x@),
{
    proof {
        assert(id_views(uids@).len() == uncertainty_keys(us@).len());
    }
    match find_id(uids, x) {
        Some(j) => us[j].kind,
        None => {
            proof {
                assert(false);
            }
            UncertaintyKind::Risk
        },
    }
}

fn key_matches(
    us: &Vec<UncertaintyRecord>,
    uids: &Vec<ControlId>,
    c: &ForecastConsequence,
    kind: UncertaintyKind,
    scenario: &ControlId,
    currency: &CurrencyCode,
) -> (b: bool)
    requires
        id_views(uids@) == uncertainty_keys(us@),
        key_position(uncertainty_keys(us@), c.uncertainty@) is Some,
    ensures
        b == (c.value is Amount && key_of(us@, *c) == (kind, scenario@, currency@)),
{
    match &c.value {
        ForecastValue::Amount(a) => {
            let k = kind_at(us, uids, &c.uncertainty);
            k == kind && c.scenario.same(scenario) && a.currency.same(currency)
        },
        _ => false,
    }
}

/// Bucket-key order is a strict total order.
proof fn lemma_key_order(
    a: (UncertaintyKind, Seq<char>, Seq<char>),
    b: (UncertaintyKind, Seq<char>, Seq<char>),
    c: (UncertaintyKind, Seq<char>, Seq<char>),
)
    ensures
        key_lt(a, b) && key_lt(b, c) ==> key_lt(a, c),
        key_lt(a, b) ==> !key_lt(b, a),
        a != b ==> key_lt(a, b) || key_lt(b, a),
        !key_lt(a, a),
{
    lemma_lex_irreflexive(a.1);
    lemma_lex_irreflexive(a.2);
    if key_lt(a, b) && key_lt(b, c) {
        if lex_lt(a.1, b.1) && lex_lt(b.1, c.1) {
            lemma_lex_transitive(a.1, b.1, c.1);
        }
        if lex_lt(a.2, b.2) && lex_lt(b.2, c.2) {
            lemma_lex_transitive(a.2, b.2, c.2);
        }
    }
    if lex_lt(a.1, b.1) {
        lemma_lex_asymmetric(a.1, b.1);
    }
    if lex_lt(a.2, b.2) {
        lemma_lex_asymmetric(a.2, b.2);
    }
    if a != b {
        if a.1 != b.1 {
            lemma_lex_total(a.1, b.1);
        }
        if a.2 != b.2 {
            lemma_lex_total(a.2, b.2);
        }
    }
}

fn key_precedes(
    ka: UncertaintyKind,
    sa: &ControlId,
    ca: &CurrencyCode,
    kb: UncertaintyKind,
    sb: &ControlId,
    cb: &CurrencyCode,
) -> (r: bool)
    ensures
        r == key_lt((ka, sa@, ca@), (kb, sb@, cb@)),
{
    let pa: u8 = match ka {
        UncertaintyKind::Risk => 0,
        UncertaintyKind::Opportunity => 1,
    };
    let pb: u8 = match kb {
        UncertaintyKind::Risk => 0,
        UncertaintyKind::Opportunity => 1,
    };
    if pa != pb {
        return pa < pb;
    }
    if !sa.same(sb) {
        return text_precedes(sa.as_str(), sb.as_str());
    }
    proof {
        lemma_lex_irreflexive(sa@);
    }
    text_precedes(ca.as_str(), cb.as_str())
}

/// Bucket key as executable parts.
pub open spec fn parts_key(p: (UncertaintyKind, ControlId, CurrencyCode)) -> (UncertaintyKind, Seq<char>, Seq<char>) {
    (p.0, p.1@, p.2@)
}

/// Some counted consequence among the first `n` has bucket key `key`.
pub open spec fn key_counted(us: Seq<UncertaintyRecord>, cs: Seq<ForecastConsequence>, key: (UncertaintyKind, Seq<char>, Seq<char>), n: int) -> bool {
    exists|j: int| 0 <= j < n && counted(#[trigger] cs[j]) && key_of(us, cs[j]) == key
}

/// Some entry of a key list is `key`.
pub open spec fn key_listed(keys: Seq<(UncertaintyKind, ControlId, CurrencyCode)>, key: (UncertaintyKind, Seq<char>, Seq<char>)) -> bool {
    exists|a: int| 0 <= a < keys.len() && parts_key(#[trigger] keys[a]) == key
}

/// The keys of a list ascend strictly.
pub open spec fn keys_ascending(keys: Seq<(UncertaintyKind, ControlId, CurrencyCode)>) -> bool {
    forall|a: int, b: int| 0 <= a < b < keys.len() ==> key_lt(parts_key(#[trigger] keys[a]), parts_key(#[trigger] keys[b]))
}

/// Adds a key to an ascending key list unless it is already there.
fn insert_key(keys: &mut Vec<(UncertaintyKind, ControlId, CurrencyCode)>, kind: UncertaintyKind, scenario: &ControlId, currency: &CurrencyCode)
    requires
        keys_ascending(old(keys)@),
    ensures
        keys_ascending(final(keys)@),
        forall|a: int| 0 <= a < final(keys)@.len() ==> key_listed(old(keys)@, parts_key(#[trigger] final(keys)@[a])) || parts_key(final(keys)@[a]) == (kind, scenario@, currency@),
        forall|b: int| 0 <= b < old(keys)@.len() ==> key_listed(final(keys)@, parts_key(#[trigger] old(keys)@[b])),
        key_listed(final(keys)@, (kind, scenario@, currency@)),
{
    let ghost key = (kind, scenario@, currency@);
    let mut p: usize = 0;
    while p < keys.len() && key_precedes(keys[p].0, &keys[p].1, &keys[p].2, kind, scenario, currency)
        invariant
            key == (kind, scenario@, currency@),
            p <= keys@.len(),
            forall|t: int| 0 <= t < p ==> key_lt(parts_key(#[trigger] keys@[t]), key),
        decreases keys.len() - p,
    {
        p = p + 1;
    }
    let present = p < keys.len() && keys[p].0 == kind && keys[p].1.same(scenario) && keys[p].2.same(currency);
    if present {
        proof {
            assert(parts_key(keys@[p as int]) == key);
            assert forall|a: int| 0 <= a < keys@.len() implies key_listed(keys@, parts_key(#[trigger] keys@[a])) by {}
        }
        return;
    }
    let ghost before = keys@;
    proof {
        if p < before.len() {
            lemma_key_order(parts_key(before[p as int]), key, key);
        }
    }
    keys.insert(p, (kind, scenario.clone(), currency.clone()));
    proof {
        let after = keys@;
        assert(parts_key(after[p as int]) == key);
        assert forall|a: int, b: int| 0 <= a < b < after.len() implies key_lt(parts_key(#[trigger] after[a]), parts_key(#[trigger] after[b])) by {
            if b < p {
                assert(after[a] == before[a] && after[b] == before[b]);
            } else if b == p {
                assert(after[a] == before[a]);
            } else if a > p {
                assert(after[a] == before[a - 1] && after[b] == before[b - 1]);
            } else if a == p {
                assert(after[b] == before[b - 1]);
                if b - 1 > p {
                    lemma_key_order(key, parts_key(before[p as int]), parts_key(before[b - 1]));
                }
            } else {
                assert(after[a] == before[a] && after[b] == before[b - 1]);
                lemma_key_order(parts_key(before[a]), key, parts_key(before[b - 1]));
                if p < b - 1 {
                    lemma_key_order(key, parts_key(before[p as int]), parts_key(before[b - 1]));
                }
            }
        }
        assert forall|a: int| 0 <= a < after.len() implies key_listed(before, parts_key(#[trigger] after[a])) || parts_key(after[a]) == key by {
            if a < p {
                assert(after[a] == before[a]);
            } else if a > p {
                assert(after[a] == before[a - 1]);
            }
        }
        assert forall|b: int| 0 <= b < before.len() implies key_listed(after, parts_key(#[trigger] before[b])) by {
            if b < p {
                assert(after[b] == before[b]);
            } else {
                assert(after[b + 1] == before[b]);
            }
        }
    }
}

/// A key counted among the first `m` consequences is counted among the first `n >= m`.
proof fn lemma_key_counted_grows(us: Seq<UncertaintyRecord>, cs: Seq<ForecastConsequence>, key: (UncertaintyKind, Seq<char>, Seq<char>), m: int, n: int)
    requires
        m <= n,
        key_counted(us, cs, key, m),
    ensures
        key_counted(us, cs, key, n),
{
    let j = choose|j: int| 0 <= j < m && counted(#[trigger] cs[j]) && key_of(us, cs[j]) == key;
    assert(0 <= j < n && counted(cs[j]));
}

/// The keys of the counted consequences, each once, in ascending key order.
fn bucket_keys(us: &Vec<UncertaintyRecord>, uids: &Vec<ControlId>, cs: &Vec<ForecastConsequence>) -> (keys: Vec<(UncertaintyKind, ControlId, CurrencyCode)>)
    requires
        id_views(uids@) == uncertainty_keys(us@),
        forall|i: int| 0 <= i < cs@.len() ==> key_position(uncertainty_keys(us@), (#[trigger] cs@[i]).uncertainty@) is Some,
    ensures
        keys_ascending(keys@),
        forall|a: int| 0 <= a < keys@.len() ==> key_counted(us@, cs@, parts_key(#[trigger] keys@[a]), cs@.len() as int),
        forall|i: int| 0 <= i < cs@.len() && counted(#[trigger] cs@[i]) ==> key_listed(keys@, key_of(us@, cs@[i])),
{
    let mut keys: Vec<(UncertaintyKind, ControlId, CurrencyCode)> = Vec::new();
    let mut i: usize = 0;
    while i < cs.len()
        invariant
            id_views(uids@) == uncertainty_keys(us@),
            forall|i: int| 0 <= i < cs@.len() ==> key_position(uncertainty_keys(us@), (#[trigger] cs@[i]).uncertainty@) is Some,
            i <= cs@.len(),
            keys_ascending(keys@),
            forall|a: int| 0 <= a < keys@.len() ==> key_counted(us@, cs@, parts_key(#[trigger] keys@[a]), i as int),
            forall|j: int| 0 <= j < i && counted(#[trigger] cs@[j]) ==> key_listed(keys@, key_of(us@, cs@[j])),
        decreases cs.len() - i,
    {
        let c = &cs[i];
        let ghost before = keys@;
        let mut added = false;
        if c.summarizes.len() == 0 {
            match &c.value {
                ForecastValue::Amount(amount) => {
                    let kind = kind_at(us, uids, &c.uncertainty);
                    insert_key(&mut keys, kind, &c.scenario, &amount.currency);
                    added = true;
                    proof {
                        assert(key_of(us@, *c) == (kind, c.scenario@, amount.currency@));
                    }
                },
                _ => {},
            }
        }
        proof {
            let after = keys@;
            if added {
                assert(counted(cs@[i as int]));
                assert(key_counted(us@, cs@, key_of(us@, cs@[i as int]), i as int + 1));
                assert forall|a: int| 0 <= a < after.len() implies key_counted(us@, cs@, parts_key(#[trigger] after[a]), i as int + 1) by {
                    if parts_key(after[a]) != key_of(us@, cs@[i as int]) {
                        let b = choose|b: int| 0 <= b < before.len() && parts_key(#[trigger] before[b]) == parts_key(after[a]);
                        lemma_key_counted_grows(us@, cs@, parts_key(before[b]), i as int, i as int + 1);
                    }
                }
                assert forall|j: int| 0 <= j < i + 1 && counted(#[trigger] cs@[j]) implies key_listed(after, key_of(us@, cs@[j])) by {
                    if j < i {
                        let b = choose|b: int| 0 <= b < before.len() && parts_key(#[trigger] before[b]) == key_of(us@, cs@[j]);
                        assert(key_listed(after, parts_key(before[b])));
                    }
                }
            } else {
                assert(!counted(cs@[i as int]));
                assert forall|a: int| 0 <= a < after.len() implies key_counted(us@, cs@, parts_key(#[trigger] after[a]), i as int + 1) by {
                    lemma_key_counted_grows(us@, cs@, parts_key(after[a]), i as int, i as int + 1);
                }
            }
        }
        i = i + 1;
    }
    keys
}

proof fn lemma_group_members_prefix(ms: Seq<ForecastConsequence>, c: ForecastConsequence, g: Seq<char>, n: int)
    requires
        0 <= n <= ms.len(),
    ensures
        group_members(ms.push(c), g, n) == group_members(ms, g, n),
    decreases n,
{
    if n > 0 {
        lemma_group_members_prefix(ms, c, g, n - 1);
        assert(ms.push(c)[n - 1] == ms[n - 1]);
    }
}

/// The members of bucket `key` in correlation group `g`.
fn group_list(
    us: &Vec<UncertaintyRecord>,
    uids: &Vec<ControlId>,
    cs: &Vec<ForecastConsequence>,
    kind: UncertaintyKind,
    scenario: &ControlId,
    currency: &CurrencyCode,
    g: &ControlId,
) -> (r: Vec<ControlId>)
    requires
        id_views(uids@) == uncertainty_keys(us@),
        forall|i: int| 0 <= i < cs@.len() ==> key_position(uncertainty_keys(us@), (#[trigger] cs@[i]).uncertainty@) is Some,
    ensures
        ({
            let ms = bucket_members(us@, cs@, (kind, scenario@, currency@), cs@.len() as int);
            r@ == group_members(ms, g@, ms.len() as int)
        }),
{
    let ghost key = (kind, scenario@, currency@);
    let mut r: Vec<ControlId> = Vec::new();
    let mut j: usize = 0;
    while j < cs.len()
        invariant
            key == (kind, scenario@, currency@),
            id_views(uids@) == uncertainty_keys(us@),
            forall|i: int| 0 <= i < cs@.len() ==> key_position(uncertainty_keys(us@), (#[trigger] cs@[i]).uncertainty@) is Some,
            j <= cs@.len(),
            r@ == group_members(bucket_members(us@, cs@, key, j as int), g@, bucket_members(us@, cs@, key, j as int).len() as int),
        decreases cs.len() - j,
    {
        let c = &cs[j];
        let ghost ms = bucket_members(us@, cs@, key, j as int);
        if c.summarizes.len() == 0 && key_matches(us, uids, c, kind, scenario, currency) {
            proof {
                assert(in_bucket(us@, cs@[j as int], key));
                assert(bucket_members(us@, cs@, key, j as int + 1) == ms.push(*c));
                lemma_group_members_prefix(ms, *c, g@, ms.len() as int);
            }
            match &c.correlation {
                Some(h) => {
                    if h.same(g) {
                        r.push(c.control.clone());
                    }
                },
                None => {},
            }
        } else {
            assert(!in_bucket(us@, cs@[j as int], key));
        }
        j = j + 1;
    }
    r
}

/// Builds the bucket with key `(kind, scenario, currency)`.
#[verifier::rlimit(30)]
fn build_bucket(
    us: &Vec<UncertaintyRecord>,
    uids: &Vec<ControlId>,
    cs: &Vec<ForecastConsequence>,
    kind: UncertaintyKind,
    scenario: &ControlId,
    currency: &CurrencyCode,
) -> (r: Result<ExposureBucket, ConstructionProjectError>)
    requires
        id_views(uids@) == uncertainty_keys(us@),
        forall|i: int| 0 <= i < cs@.len() ==> key_position(uncertainty_keys(us@), (#[trigger] cs@[i]).uncertainty@) is Some,
    ensures
        match r {
            Ok(b) => bucket_key(b) == (kind, scenario@, currency@) && bucket_holds(b, us@, cs@) && bucket_fits(us@, cs@, (kind, scenario@, currency@)),
            Err(e) => e == ConstructionProjectError::AmountOverflow { field: "forecast.exposure.total" } && !bucket_fits(us@, cs@, (kind, scenario@, currency@)),
        },
{
    let ghost key = (kind, scenario@, currency@);
    let mut total: i64 = 0;
    let mut contributors: Vec<ControlId> = Vec::new();
    let mut groups: Vec<ControlId> = Vec::new();
    let mut j: usize = 0;
    proof {
        assert(id_set(groups@) =~= groups_of(bucket_members(us@, cs@, key, 0)));
    }
    while j < cs.len()
        invariant
            key == (kind, scenario@, currency@),
            id_views(uids@) == uncertainty_keys(us@),
            forall|i: int| 0 <= i < cs@.len() ==> key_position(uncertainty_keys(us@), (#[trigger] cs@[i]).uncertainty@) is Some,
            j <= cs@.len(),
            total == bucket_sum(us@, cs@, key, j as int),
            forall|n: int| 0 <= n <= j ==> i64::MIN <= #[trigger] bucket_sum(us@, cs@, key, n) <= i64::MAX,
            contributors@ == bucket_members(us@, cs@, key, j as int).map_values(|c: ForecastConsequence| c.control),
            ids_sorted(groups@),
            id_set(groups@) == groups_of(bucket_members(us@, cs@, key, j as int)),
        decreases cs.len() - j,
    {
        let c = &cs[j];
        let ghost ms = bucket_members(us@, cs@, key, j as int);
        if c.summarizes.len() == 0 && key_matches(us, uids, c, kind, scenario, currency) {
            proof {
                assert(in_bucket(us@, cs@[j as int], key));
                assert(bucket_members(us@, cs@, key, j as int + 1) == ms.push(*c));
            }
            let amount: i64 = match &c.value {
                ForecastValue::Amount(a) => a.amount,
                _ => 0,
            };
            match total.checked_add(amount) {
                None => {
                    proof {
                        assert(!(i64::MIN <= bucket_sum(us@, cs@, key, j as int + 1) <= i64::MAX));
                    }
                    return Err(ConstructionProjectError::AmountOverflow { field: "forecast.exposure.total" });
                },
                Some(t) => {
                    total = t;
                },
            }
            let ghost old_contributors = contributors@;
            contributors.push(c.control.clone());
            proof {
                assert(contributors@ =~= ms.push(*c).map_values(|c: ForecastConsequence| c.control));
            }
            let ghost old_groups = id_set(groups@);
            match &c.correlation {
                Some(h) => {
                    insert_id(&mut groups, h.clone());
                },
                None => {},
            }
            proof {
                let ms2 = ms.push(*c);
                assert forall|x: Seq<char>| #[trigger] groups_of(ms2).contains(x) == id_set(groups@).contains(x) by {
                    if groups_of(ms2).contains(x) {
                        let i = choose|i: int| 0 <= i < ms2.len() && ((#[trigger] ms2[i]).correlation matches Some(h) && h@ == x);
                        if i < ms.len() {
                            assert(ms2[i] == ms[i]);
                            assert(groups_of(ms).contains(x));
                        }
                    }
                    if id_set(groups@).contains(x) {
                        if old_groups.contains(x) {
                            let i = choose|i: int| 0 <= i < ms.len() && ((#[trigger] ms[i]).correlation matches Some(h) && h@ == x);
                            assert(ms2[i] == ms[i]);
                        } else {
                            assert(ms2[ms.len() as int] == *c);
                        }
                    }
                }
                assert(groups_of(ms2) =~= id_set(groups@));
            }
        } else {
            assert(!in_bucket(us@, cs@[j as int], key));
        }
        proof {
            assert(forall|n: int| 0 <= n <= j + 1 ==> i64::MIN <= #[trigger] bucket_sum(us@, cs@, key, n) <= i64::MAX);
        }
        j = j + 1;
    }
    let ghost ms = bucket_members(us@, cs@, key, cs@.len() as int);
    let mut notes: Vec<ExposureAnnotation> = Vec::new();
    let mut j: usize = 0;
    while j < cs.len()
        invariant
            key == (kind, scenario@, currency@),
            id_views(uids@) == uncertainty_keys(us@),
            forall|i: int| 0 <= i < cs@.len() ==> key_position(uncertainty_keys(us@), (#[trigger] cs@[i]).uncertainty@) is Some,
            j <= cs@.len(),
            notes@.len() == excluded_parents(us@, cs@, key, j as int).len(),
            forall|k: int| 0 <= k < notes@.len() ==> (#[trigger] notes@[k] matches ExposureAnnotation::ParentSummaryExcluded {
                parent,
                children,
            } && parent == excluded_parents(us@, cs@, key, j as int)[k].control && children@ == excluded_parents(us@, cs@, key, j as int)[k].summarizes@),
        decreases cs.len() - j,
    {
        let c = &cs[j];
        let ghost ep = excluded_parents(us@, cs@, key, j as int);
        if c.summarizes.len() > 0 && key_matches(us, uids, c, kind, scenario, currency) {
            proof {
                assert(excluded_parents(us@, cs@, key, j as int + 1) == ep.push(*c));
            }
            let children = clone_ids(&c.summarizes);
            notes.push(ExposureAnnotation::ParentSummaryExcluded { parent: c.control.clone(), children });
        } else {
            assert(excluded_parents(us@, cs@, key, j as int + 1) == ep);
        }
        j = j + 1;
    }
    let ghost parents = excluded_parents(us@, cs@, key, cs@.len() as int);
    let plen = notes.len();
    let mut gi: usize = 0;
    while gi < groups.len()
        invariant
            key == (kind, scenario@, currency@),
            id_views(uids@) == uncertainty_keys(us@),
            forall|i: int| 0 <= i < cs@.len() ==> key_position(uncertainty_keys(us@), (#[trigger] cs@[i]).uncertainty@) is Some,
            ms == bucket_members(us@, cs@, key, cs@.len() as int),
            plen == parents.len(),
            gi <= groups@.len(),
            notes@.len() == plen + gi,
            forall|k: int| 0 <= k < plen ==> (#[trigger] notes@[k] matches ExposureAnnotation::ParentSummaryExcluded {
                parent,
                children,
            } && parent == parents[k].control && children@ == parents[k].summarizes@),
            forall|k: int| plen <= k < notes@.len() ==> (#[trigger] notes@[k] matches ExposureAnnotation::Correlated {
                group,
                consequences,
            } && group == groups@[k - plen] && consequences@ == group_members(ms, group@, ms.len() as int)),
        decreases groups.len() - gi,
    {
        let members = group_list(us, uids, cs, kind, scenario, currency, &groups[gi]);
        notes.push(ExposureAnnotation::Correlated { group: groups[gi].clone(), consequences: members });
        gi = gi + 1;
    }
    proof {
        let ns = notes@;
        assert forall|k: int| plen <= k < ns.len() implies #[trigger] ns[k] matches ExposureAnnotation::Correlated {
            group,
            consequences,
        } && groups_of(ms).contains(group@) && consequences@ == group_members(ms, group@, ms.len() as int) by {
            assert(id_views(groups@)[k - plen] == groups@[k - plen]@);
        }
        assert forall|a: int, b: int| plen <= a < b < ns.len() implies lex_lt(
            (#[trigger] ns[a])->Correlated_group@,
            (#[trigger] ns[b])->Correlated_group@,
        ) by {
            assert(ns[a]->Correlated_group == groups@[a - plen]);
            assert(ns[b]->Correlated_group == groups@[b - plen]);
        }
        assert forall|g: Seq<char>| #[trigger] groups_of(ms).contains(g) implies exists|k: int| plen <= k < ns.len()
            && ns[k]->Correlated_group@ == g by {
            assert(id_set(groups@).contains(g));
            let t = choose|t: int| 0 <= t < id_views(groups@).len() && id_views(groups@)[t] == g;
            assert(ns[plen + t]->Correlated_group == groups@[t]);
        }
        assert(annotations_hold(ns, parents, ms));
    }
    Ok(ExposureBucket {
        kind,
        scenario: scenario.clone(),
        currency: currency.clone(),
        total,
        contributors,
        annotations: notes,
    })
}

/// Exact comparable amount buckets of current consequences, given in
/// ascending control-id order: one bucket per uncertainty kind, scenario and
/// currency, counting amount consequences that summarize nothing, their
/// parents noted as excluded and their correlation groups noted.
pub fn amount_buckets(uncertainties: &Vec<UncertaintyRecord>, consequences: &Vec<ForecastConsequence>) -> (r: Result<Vec<ExposureBucket>, ConstructionProjectError>)
    requires
        forall|i: int| 0 <= i < consequences@.len() ==> key_position(uncertainty_keys(uncertainties@), (#[trigger] consequences@[i]).uncertainty@) is Some,
    ensures
        buckets_result(uncertainties@, consequences@, r),
{
    let ghost us = uncertainties@;
    let ghost cs = consequences@;
    let uids = uncertainty_ids(uncertainties);
    let keys = bucket_keys(uncertainties, &uids, consequences);
    let mut buckets: Vec<ExposureBucket> = Vec::new();
    let mut a: usize = 0;
    while a < keys.len()
        invariant
            us == uncertainties@,
            cs == consequences@,
            id_views(uids@) == uncertainty_keys(us),
            forall|i: int| 0 <= i < cs.len() ==> key_position(uncertainty_keys(us), (#[trigger] cs[i]).uncertainty@) is Some,
            keys_ascending(keys@),
            forall|b: int| 0 <= b < keys@.len() ==> key_counted(us, cs, parts_key(#[trigger] keys@[b]), cs.len() as int),
            forall|i: int| 0 <= i < cs.len() && counted(#[trigger] cs[i]) ==> key_listed(keys@, key_of(us, cs[i])),
            a <= keys@.len(),
            buckets@.len() == a,
            forall|b: int| 0 <= b < a ==> bucket_key(#[trigger] buckets@[b]) == parts_key(keys@[b]),
            forall|b: int| 0 <= b < a ==> bucket_holds(#[trigger] buckets@[b], us, cs),
            forall|b: int| 0 <= b < a ==> bucket_fits(us, cs, parts_key(#[trigger] keys@[b])),
        decreases keys.len() - a,
    {
        match build_bucket(uncertainties, &uids, consequences, keys[a].0, &keys[a].1, &keys[a].2) {
            Err(e) => {
                proof {
                    let k = parts_key(keys@[a as int]);
                    assert(key_counted(us, cs, k, cs.len() as int));
                    let i = choose|i: int| 0 <= i < cs.len() && counted(#[trigger] cs[i]) && key_of(us, cs[i]) == k;
                    assert(counted(cs[i]) && !bucket_fits(us, cs, key_of(us, cs[i])));
                }
                return Err(e);
            },
            Ok(b) => {
                buckets.push(b);
            },
        }
        a = a + 1;
    }
    proof {
        assert forall|i: int| 0 <= i < cs.len() && counted(#[trigger] cs[i]) implies bucket_fits(us, cs, key_of(us, cs[i])) && bucket_listed(buckets@, key_of(us, cs[i])) by {
            let b = choose|b: int| 0 <= b < keys@.len() && parts_key(#[trigger] keys@[b]) == key_of(us, cs[i]);
            assert(bucket_key(buckets@[b]) == key_of(us, cs[i]));
        }
        assert forall|x: int, y: int| 0 <= x < y < buckets@.len() implies key_lt(bucket_key(#[trigger] buckets@[x]), bucket_key(#[trigger] buckets@[y])) by {
            assert(key_lt(parts_key(keys@[x]), parts_key(keys@[y])));
        }
        assert forall|x: int| 0 <= x < buckets@.len() implies key_counted(us, cs, bucket_key(#[trigger] buckets@[x]), cs.len() as int) by {
            assert(key_counted(us, cs, parts_key(keys@[x]), cs.len() as int));
        }
    }
    Ok(buckets)
}

/// Ids of accepted baselines, in order.
pub open spec fn baseline_keys(bs: Seq<AcceptedBaseline>) -> Seq<Seq<char>> {
    bs.map_values(|b: AcceptedBaseline| b.id@)
}

/// The (first) accepted baseline with id `x`.
pub open spec fn accepted_of(bs: Seq<AcceptedBaseline>, x: Seq<char>) -> Option<AcceptedBaseline> {
    match key_position(baseline_keys(bs), x) {
        Some(k) => Some(bs[k]),
        None => None,
    }
}

/// Accepted baseline `i` is valid, of the snapshot's project and the first with its id.
pub open spec fn baseline_admitted(s: ProjectSnapshot, bs: Seq<AcceptedBaseline>, i: int) -> bool {
    &&& baseline_check(bs[i], Ok(()))
    &&& bs[i].project@ == s.project@
    &&& first_key(baseline_keys(bs), bs[i].id@, i) is None
}

/// How accepted baseline `i` is refused.
pub open spec fn baseline_refusal(s: ProjectSnapshot, bs: Seq<AcceptedBaseline>, i: int, e: ConstructionProjectError) -> bool {
    if !baseline_check(bs[i], Ok(())) {
        baseline_check(bs[i], Err(e))
    } else if bs[i].project@ != s.project@ {
        e == ConstructionProjectError::UncertaintyDerivation { control: bs[i].control, reason: "record belongs to a different project" }
    } else {
        e matches ConstructionProjectError::DuplicateId { kind, id } && kind == "accepted_baseline" && id@ == bs[i].id@
    }
}

/// The accepted baselines, by position, that fail a check.
pub open spec fn baselines_unadmitted(s: ProjectSnapshot, bs: Seq<AcceptedBaseline>) -> spec_fn(int) -> bool {
    |i: int| !baseline_admitted(s, bs, i)
}

/// The schedule report and the join set rest on the same accepted time baseline, as of the snapshot.
pub open spec fn schedule_agrees(s: ProjectSnapshot, bs: Seq<AcceptedBaseline>, joins: ScheduleTaskJoinSet, sched: ScheduleStatusReport) -> bool {
    accepted_of(bs, sched.baseline@) matches Some(a) && {
        &&& a.kind == BaselineKind::Time
        &&& joins.baseline.baseline@ == sched.baseline@
        &&& joins.baseline.accepted_revision@ == sched.accepted_revision@
        &&& joins.revision.as_of_seq == sched.as_of_seq
        &&& sched.as_of_seq == s.through_seq
        &&& joins.baseline.accepted_seq == a.accepted_seq
    }
}

/// How a schedule that does not agree is refused.
pub open spec fn schedule_refusal(bs: Seq<AcceptedBaseline>, sched: ScheduleStatusReport, e: ConstructionProjectError) -> bool {
    match accepted_of(bs, sched.baseline@) {
        None => e matches ConstructionProjectError::UncertaintyDerivation { control, reason } && control@ == sched.baseline@
            && reason == "schedule baseline is not accepted",
        Some(a) => e == ConstructionProjectError::UncertaintyDerivation {
            control: a.control,
            reason: "schedule report and accepted join baseline do not match",
        },
    }
}

/// A record of another project.
pub open spec fn project_fault(s: ProjectSnapshot, project: ProjectId, control: ControlId) -> Option<ConstructionProjectError> {
    if project@ != s.project@ {
        Some(ConstructionProjectError::UncertaintyDerivation { control, reason: "record belongs to a different project" })
    } else {
        None
    }
}

/// A record that is not the current fact of its control.
pub open spec fn current_fault(s: ProjectSnapshot, control: ControlId, fact_seq: u64) -> Option<ConstructionProjectError> {
    match current_of(s, control@) {
        None => Some(ConstructionProjectError::OrphanControlRef { control, as_of_seq: s.through_seq }),
        Some(f) => if f.seq != fact_seq {
            Some(ConstructionProjectError::UncertaintyDerivation {
                control,
                reason: "structured record does not match the current project fact",
            })
        } else {
            None
        },
    }
}

/// A record that uses a baseline that is not accepted, or reads it before its acceptance.
pub open spec fn baseline_fault(bs: Seq<AcceptedBaseline>, baseline: BaselineId, as_of: u64, control: ControlId) -> Option<ConstructionProjectError> {
    match accepted_of(bs, baseline@) {
        None => Some(ConstructionProjectError::UncertaintyDerivation {
            control,
            reason: "record references a baseline that is not accepted",
        }),
        Some(a) => if as_of < a.accepted_seq {
            Some(ConstructionProjectError::StaleBaselineComparison {
                baseline: a.control,
                accepted_seq: a.accepted_seq,
                as_of_seq: as_of,
            })
        } else {
            None
        },
    }
}

/// The first fault of uncertainty `u` after its own validation: project, currency, baseline.
pub open spec fn record_fault(s: ProjectSnapshot, bs: Seq<AcceptedBaseline>, u: UncertaintyRecord) -> Option<ConstructionProjectError> {
    match project_fault(s, u.project, u.control) {
        Some(e) => Some(e),
        None => match current_fault(s, u.control, u.fact_seq) {
            Some(e) => Some(e),
            None => baseline_fault(bs, u.baseline, u.fact_seq, u.control),
        },
    }
}

/// Uncertainty `i` passes every check and is the first with its id.
pub open spec fn exposure_uncertainty_admitted(s: ProjectSnapshot, bs: Seq<AcceptedBaseline>, us: Seq<UncertaintyRecord>, i: int) -> bool {
    &&& uncertainty_check(us[i], Ok(()))
    &&& record_fault(s, bs, us[i]) is None
    &&& first_key(uncertainty_keys(us), us[i].control@, i) is None
}

/// How uncertainty `i` is refused.
pub open spec fn exposure_uncertainty_refusal(
    s: ProjectSnapshot,
    bs: Seq<AcceptedBaseline>,
    us: Seq<UncertaintyRecord>,
    i: int,
    e: ConstructionProjectError,
) -> bool {
    if !uncertainty_check(us[i], Ok(())) {
        uncertainty_check(us[i], Err(e))
    } else if record_fault(s, bs, us[i]) is Some {
        record_fault(s, bs, us[i]) == Some(e)
    } else {
        e matches ConstructionProjectError::DuplicateId { kind, id } && kind == "uncertainty" && id@ == us[i].control@
    }
}

/// The uncertainties, by position, that fail a check.
pub open spec fn uncertainties_unadmitted(s: ProjectSnapshot, bs: Seq<AcceptedBaseline>, us: Seq<UncertaintyRecord>) -> spec_fn(int) -> bool {
    |i: int| !exposure_uncertainty_admitted(s, bs, us, i)
}

/// The first fault of consequence `c` after its own validation: project,
/// currency, its uncertainty, scenario and baseline agreement, baseline.
pub open spec fn link_fault_of(s: ProjectSnapshot, bs: Seq<AcceptedBaseline>, us: Seq<UncertaintyRecord>, c: ForecastConsequence) -> Option<ConstructionProjectError> {
    match project_fault(s, c.project, c.control) {
        Some(e) => Some(e),
        None => match current_fault(s, c.control, c.fact_seq) {
            Some(e) => Some(e),
            None => match key_position(uncertainty_keys(us), c.uncertainty@) {
                None => Some(ConstructionProjectError::UncertaintyDerivation {
                    control: c.control,
                    reason: "forecast consequence references a non-current uncertainty",
                }),
                Some(k) => if c.scenario@ != us[k].scenario@ {
                    Some(ConstructionProjectError::UncertaintyDerivation {
                        control: c.control,
                        reason: "forecast consequence scenario differs from its uncertainty",
                    })
                } else if c.basis.baseline@ != us[k].baseline@ {
                    Some(ConstructionProjectError::UncertaintyDerivation {
                        control: c.control,
                        reason: "forecast consequence baseline differs from its uncertainty",
                    })
                } else {
                    baseline_fault(bs, c.basis.baseline, c.basis.as_of_seq, c.control)
                },
            },
        },
    }
}

/// Consequence `i` passes every check and is the first with its id.
pub open spec fn exposure_consequence_admitted(
    s: ProjectSnapshot,
    bs: Seq<AcceptedBaseline>,
    us: Seq<UncertaintyRecord>,
    cs: Seq<ForecastConsequence>,
    i: int,
) -> bool {
    &&& consequence_check(cs[i], Ok(()))
    &&& link_fault_of(s, bs, us, cs[i]) is None
    &&& first_key(consequence_ids(cs), cs[i].control@, i) is None
}

/// How consequence `i` is refused.
pub open spec fn exposure_consequence_refusal(
    s: ProjectSnapshot,
    bs: Seq<AcceptedBaseline>,
    us: Seq<UncertaintyRecord>,
    cs: Seq<ForecastConsequence>,
    i: int,
    e: ConstructionProjectError,
) -> bool {
    if !consequence_check(cs[i], Ok(())) {
        consequence_check(cs[i], Err(e))
    } else if link_fault_of(s, bs, us, cs[i]) is Some {
        link_fault_of(s, bs, us, cs[i]) == Some(e)
    } else {
        e matches ConstructionProjectError::DuplicateId { kind, id } && kind == "forecast_consequence" && id@ == cs[i].control@
    }
}

/// The consequences, by position, that fail a check.
pub open spec fn consequences_unadmitted(s: ProjectSnapshot, bs: Seq<AcceptedBaseline>, us: Seq<UncertaintyRecord>, cs: Seq<ForecastConsequence>) -> spec_fn(int) -> bool {
    |i: int| !exposure_consequence_admitted(s, bs, us, cs, i)
}

/// Control ids of consequences, in order.
pub open spec fn consequence_ids(cs: Seq<ForecastConsequence>) -> Seq<Seq<char>> {
    cs.map_values(|c: ForecastConsequence| c.control@)
}

fn baseline_ids(bs: &Vec<AcceptedBaseline>) -> (r: Vec<ControlId>)
    ensures
        id_views(r@) == baseline_keys(bs@),
{
    let mut r: Vec<ControlId> = Vec::new();
    let mut i: usize = 0;
    while i < bs.len()
        invariant
            i <= bs@.len(),
            r@.len() == i,
            forall|j: int| 0 <= j < i ==> (#[trigger] r@[j])@ == bs@[j].id@,
        decreases bs.len() - i,
    {
        r.push(ControlId::from_baseline(&bs[i].id));
        i = i + 1;
    }
    assert(id_views(r@) =~= baseline_keys(bs@));
    r
}

fn control_ids_of(cs: &Vec<ForecastConsequence>) -> (r: Vec<ControlId>)
    ensures
        id_views(r@) == consequence_ids(cs@),
{
    let mut r: Vec<ControlId> = Vec::new();
    let mut i: usize = 0;
    while i < cs.len()
        invariant
            i <= cs@.len(),
            r@.len() == i,
            forall|j: int| 0 <= j < i ==> (#[trigger] r@[j])@ == cs@[j].control@,
        decreases cs.len() - i,
    {
        r.push(cs[i].control.clone());
        i = i + 1;
    }
    assert(id_views(r@) =~= consequence_ids(cs@));
    r
}

fn accepted_position(bs: &Vec<AcceptedBaseline>, bids: &Vec<ControlId>, x: &BaselineId) -> (r: Option<usize>)
    requires
        id_views(bids@) == baseline_keys(bs@),
    ensures
        match key_position(baseline_keys(bs@), x@) {
            Some(k) => r matches Some(j) && j == k && 0 <= k < bs@.len(),
            None => r is None,
        },
{
    proof {
        assert(id_views(bids@).len() == baseline_keys(bs@).len());
    }
    find_id(bids, &ControlId::from_baseline(x))
}

fn check_baselines(s: &ProjectSnapshot, bs: &Vec<AcceptedBaseline>, bids: &Vec<ControlId>) -> (r: Result<(), ConstructionProjectError>)
    requires
        id_views(bids@) == baseline_keys(bs@),
    ensures
        match first_where(baselines_unadmitted(*s, bs@), bs@.len() as int) {
            Some(i) => r matches Err(e) && baseline_refusal(*s, bs@, i, e),
            None => r is Ok,
        },
{
    let ghost p = baselines_unadmitted(*s, bs@);
    let mut i: usize = 0;
    while i < bs.len()
        invariant
            id_views(bids@) == baseline_keys(bs@),
            p == baselines_unadmitted(*s, bs@),
            i <= bs@.len(),
            first_where(p, i as int) is None,
        decreases bs.len() - i,
    {
        let b = &bs[i];
        proof {
            assert(id_views(bids@).len() == baseline_keys(bs@).len());
            assert(id_views(bids@)[i as int] == baseline_keys(bs@)[i as int]);
        }
        let refusal = match b.validate() {
            Err(e) => Some(e),
            Ok(()) => if !b.project.same(&s.project) {
                Some(ConstructionProjectError::UncertaintyDerivation { control: b.control.clone(), reason: "record belongs to a different project" })
            } else if seen_before(bids, i) {
                Some(ConstructionProjectError::DuplicateId { kind: "accepted_baseline", id: b.id.as_str().to_owned() })
            } else {
                None
            },
        };
        match refusal {
            Some(e) => {
                proof {
                    assert(p(i as int));
                    assert(first_where(p, i as int + 1) == Some(i as int));
                    lemma_first_where_stable(p, i as int + 1, bs@.len() as int);
                }
                return Err(e);
            },
            None => {
                assert(!p(i as int));
            },
        }
        i = i + 1;
    }
    Ok(())
}

fn check_schedule(
    s: &ProjectSnapshot,
    bs: &Vec<AcceptedBaseline>,
    bids: &Vec<ControlId>,
    joins: &ScheduleTaskJoinSet,
    sched: &ScheduleStatusReport,
) -> (r: Result<(), ConstructionProjectError>)
    requires
        id_views(bids@) == baseline_keys(bs@),
    ensures
        r is Ok <==> schedule_agrees(*s, bs@, *joins, *sched),
        r matches Err(e) ==> schedule_refusal(bs@, *sched, e),
{
    match accepted_position(bs, bids, &sched.baseline) {
        None => Err(ConstructionProjectError::UncertaintyDerivation {
            control: ControlId::from_baseline(&sched.baseline),
            reason: "schedule baseline is not accepted",
        }),
        Some(k) => {
            let a = &bs[k];
            let agrees = a.kind == BaselineKind::Time && joins.baseline.baseline.same(&sched.baseline)
                && crate::text::texts_equal(joins.baseline.accepted_revision.as_str(), sched.accepted_revision.as_str())
                && joins.revision.as_of_seq == sched.as_of_seq && sched.as_of_seq == s.through_seq
                && joins.baseline.accepted_seq == a.accepted_seq;
            if agrees {
                Ok(())
            } else {
                Err(ConstructionProjectError::UncertaintyDerivation {
                    control: a.control.clone(),
                    reason: "schedule report and accepted join baseline do not match",
                })
            }
        },
    }
}

fn check_record(
    s: &ProjectSnapshot,
    bs: &Vec<AcceptedBaseline>,
    bids: &Vec<ControlId>,
    project: &ProjectId,
    control: &ControlId,
    fact_seq: u64,
    baseline: &BaselineId,
    as_of: u64,
) -> (r: Option<ConstructionProjectError>)
    requires
        id_views(bids@) == baseline_keys(bs@),
    ensures
        r == (match project_fault(*s, *project, *control) {
            Some(e) => Some(e),
            None => match current_fault(*s, *control, fact_seq) {
                Some(e) => Some(e),
                None => baseline_fault(bs@, *baseline, as_of, *control),
            },
        }),
{
    if !project.same(&s.project) {
        return Some(ConstructionProjectError::UncertaintyDerivation { control: control.clone(), reason: "record belongs to a different project" });
    }
    match s.current_fact(control) {
        None => {
            return Some(ConstructionProjectError::OrphanControlRef { control: control.clone(), as_of_seq: s.through_seq });
        },
        Some(f) => {
            if f.seq != fact_seq {
                return Some(ConstructionProjectError::UncertaintyDerivation {
                    control: control.clone(),
                    reason: "structured record does not match the current project fact",
                });
            }
        },
    }
    match accepted_position(bs, bids, baseline) {
        None => Some(ConstructionProjectError::UncertaintyDerivation {
            control: control.clone(),
            reason: "record references a baseline that is not accepted",
        }),
        Some(k) => {
            if as_of < bs[k].accepted_seq {
                Some(ConstructionProjectError::StaleBaselineComparison {
                    baseline: bs[k].control.clone(),
                    accepted_seq: bs[k].accepted_seq,
                    as_of_seq: as_of,
                })
            } else {
                None
            }
        },
    }
}

fn check_uncertainties(
    s: &ProjectSnapshot,
    bs: &Vec<AcceptedBaseline>,
    bids: &Vec<ControlId>,
    us: &Vec<UncertaintyRecord>,
    uids: &Vec<ControlId>,
) -> (r: Result<(), ConstructionProjectError>)
    requires
        id_views(bids@) == baseline_keys(bs@),
        id_views(uids@) == uncertainty_keys(us@),
    ensures
        match first_where(uncertainties_unadmitted(*s, bs@, us@), us@.len() as int) {
            Some(i) => r matches Err(e) && exposure_uncertainty_refusal(*s, bs@, us@, i, e),
            None => r is Ok,
        },
{
    let ghost p = uncertainties_unadmitted(*s, bs@, us@);
    let mut i: usize = 0;
    while i < us.len()
        invariant
            id_views(bids@) == baseline_keys(bs@),
            id_views(uids@) == uncertainty_keys(us@),
            p == uncertainties_unadmitted(*s, bs@, us@),
            i <= us@.len(),
            first_where(p, i as int) is None,
        decreases us.len() - i,
    {
        let u = &us[i];
        proof {
            assert(id_views(uids@).len() == uncertainty_keys(us@).len());
            assert(id_views(uids@)[i as int] == uncertainty_keys(us@)[i as int]);
        }
        let refusal = match u.validate() {
            Err(e) => Some(e),
            Ok(()) => match check_record(s, bs, bids, &u.project, &u.control, u.fact_seq, &u.baseline, u.fact_seq) {
                Some(e) => Some(e),
                None => if seen_before(uids, i) {
                    Some(ConstructionProjectError::DuplicateId { kind: "uncertainty", id: u.control.as_str().to_owned() })
                } else {
                    None
                },
            },
        };
        match refusal {
            Some(e) => {
                proof {
                    assert(p(i as int));
                    assert(first_where(p, i as int + 1) == Some(i as int));
                    lemma_first_where_stable(p, i as int + 1, us@.len() as int);
                }
                return Err(e);
            },
            None => {
                assert(!p(i as int));
            },
        }
        i = i + 1;
    }
    Ok(())
}

fn check_exposure_consequences(
    s: &ProjectSnapshot,
    bs: &Vec<AcceptedBaseline>,
    bids: &Vec<ControlId>,
    us: &Vec<UncertaintyRecord>,
    uids: &Vec<ControlId>,
    cs: &Vec<ForecastConsequence>,
    cids: &Vec<ControlId>,
) -> (r: Result<(), ConstructionProjectError>)
    requires
        id_views(bids@) == baseline_keys(bs@),
        id_views(uids@) == uncertainty_keys(us@),
        id_views(cids@) == consequence_ids(cs@),
    ensures
        match first_where(consequences_unadmitted(*s, bs@, us@, cs@), cs@.len() as int) {
            Some(i) => r matches Err(e) && exposure_consequence_refusal(*s, bs@, us@, cs@, i, e),
            None => r is Ok,
        },
{
    let ghost p = consequences_unadmitted(*s, bs@, us@, cs@);
    let mut i: usize = 0;
    while i < cs.len()
        invariant
            id_views(bids@) == baseline_keys(bs@),
            id_views(uids@) == uncertainty_keys(us@),
            id_views(cids@) == consequence_ids(cs@),
            p == consequences_unadmitted(*s, bs@, us@, cs@),
            i <= cs@.len(),
            first_where(p, i as int) is None,
        decreases cs.len() - i,
    {
        let c = &cs[i];
        proof {
            assert(id_views(cids@).len() == consequence_ids(cs@).len());
            assert(id_views(cids@)[i as int] == consequence_ids(cs@)[i as int]);
            assert(id_views(uids@).len() == uncertainty_keys(us@).len());
        }
        let refusal = match c.validate() {
            Err(e) => Some(e),
            Ok(()) => {
                let linked = if !c.project.same(&s.project) {
                    Some(ConstructionProjectError::UncertaintyDerivation { control: c.control.clone(), reason: "record belongs to a different project" })
                } else {
                    match s.current_fact(&c.control) {
                        None => Some(ConstructionProjectError::OrphanControlRef { control: c.control.clone(), as_of_seq: s.through_seq }),
                        Some(f) => if f.seq != c.fact_seq {
                            Some(ConstructionProjectError::UncertaintyDerivation {
                                control: c.control.clone(),
                                reason: "structured record does not match the current project fact",
                            })
                        } else {
                            match find_id(uids, &c.uncertainty) {
                                None => Some(ConstructionProjectError::UncertaintyDerivation {
                                    control: c.control.clone(),
                                    reason: "forecast consequence references a non-current uncertainty",
                                }),
                                Some(k) => if !c.scenario.same(&us[k].scenario) {
                                    Some(ConstructionProjectError::UncertaintyDerivation {
                                        control: c.control.clone(),
                                        reason: "forecast consequence scenario differs from its uncertainty",
                                    })
                                } else if !c.basis.baseline.same(&us[k].baseline) {
                                    Some(ConstructionProjectError::UncertaintyDerivation {
                                        control: c.control.clone(),
                                        reason: "forecast consequence baseline differs from its uncertainty",
                                    })
                                } else {
                                    match accepted_position(bs, bids, &c.basis.baseline) {
                                        None => Some(ConstructionProjectError::UncertaintyDerivation {
                                            control: c.control.clone(),
                                            reason: "record references a baseline that is not accepted",
                                        }),
                                        Some(a) => if c.basis.as_of_seq < bs[a].accepted_seq {
                                            Some(ConstructionProjectError::StaleBaselineComparison {
                                                baseline: bs[a].control.clone(),
                                                accepted_seq: bs[a].accepted_seq,
                                                as_of_seq: c.basis.as_of_seq,
                                            })
                                        } else {
                                            None
                                        },
                                    }
                                },
                            }
                        },
                    }
                };
                match linked {
                    Some(e) => Some(e),
                    None => if seen_before(cids, i) {
                        Some(ConstructionProjectError::DuplicateId { kind: "forecast_consequence", id: c.control.as_str().to_owned() })
                    } else {
                        None
                    },
                }
            },
        };
        match refusal {
            Some(e) => {
                proof {
                    assert(p(i as int));
                    assert(first_where(p, i as int + 1) == Some(i as int));
                    lemma_first_where_stable(p, i as int + 1, cs@.len() as int);
                }
                return Err(e);
            },
            None => {
                assert(!p(i as int));
            },
        }
        i = i + 1;
    }
    Ok(())
}

/// Two consequences hold the same facts (lists compared by their contents).
pub open spec fn same_consequence(a: ForecastConsequence, b: ForecastConsequence) -> bool {
    &&& a.project == b.project
    &&& a.control == b.control
    &&& a.uncertainty == b.uncertainty
    &&& a.fact_seq == b.fact_seq
    &&& a.scenario == b.scenario
    &&& a.kind == b.kind
    &&& a.value == b.value
    &&& a.basis == b.basis
    &&& a.affected_control_ids@ == b.affected_control_ids@
    &&& a.parent == b.parent
    &&& a.summarizes@ == b.summarizes@
    &&& a.correlation == b.correlation
    &&& a.evidence@ == b.evidence@
}

/// `sorted` holds the consequences of `cs` in ascending id order.
pub open spec fn sorted_copy(cs: Seq<ForecastConsequence>, sorted: Seq<ForecastConsequence>) -> bool {
    &&& sorted.len() == cs.len()
    &&& forall|a: int, b: int| 0 <= a < b < sorted.len() ==> lex_lt((#[trigger] sorted[a]).control@, (#[trigger] sorted[b]).control@)
    &&& forall|a: int| 0 <= a < sorted.len() ==> #[trigger] copied_from(sorted, cs, a, cs.len() as int)
    &&& forall|j: int| 0 <= j < cs.len() ==> #[trigger] copied_into(sorted, cs, j)
}

fn copy_value(v: &ForecastValue) -> (r: ForecastValue)
    ensures
        r == *v,
{
    match v {
        ForecastValue::TimeInterval { start_on, finish_on } => ForecastValue::TimeInterval { start_on: *start_on, finish_on: *finish_on },
        ForecastValue::Amount(a) => ForecastValue::Amount(CommercialAmount { amount: a.amount, currency: a.currency.clone() }),
        ForecastValue::Qualitative(t) => ForecastValue::Qualitative(t.clone()),
        ForecastValue::Quantified { value, unit } => ForecastValue::Quantified { value: *value, unit: unit.clone() },
    }
}

fn copy_refs(v: &Vec<ExternalRef>) -> (r: Vec<ExternalRef>)
    ensures
        r@ == v@,
{
    let mut r: Vec<ExternalRef> = Vec::new();
    let mut i: usize = 0;
    while i < v.len()
        invariant
            i <= v@.len(),
            r@ == v@.take(i as int),
        decreases v.len() - i,
    {
        r.push(v[i].clone());
        proof {
            assert(v@.take(i as int + 1) =~= v@.take(i as int).push(v@[i as int]));
        }
        i = i + 1;
    }
    assert(v@.take(v@.len() as int) =~= v@);
    r
}

fn copy_consequence(c: &ForecastConsequence) -> (r: ForecastConsequence)
    ensures
        same_consequence(r, *c),
{
    ForecastConsequence {
        project: c.project.clone(),
        control: c.control.clone(),
        uncertainty: c.uncertainty.clone(),
        fact_seq: c.fact_seq,
        scenario: c.scenario.clone(),
        kind: c.kind,
        value: copy_value(&c.value),
        basis: ForecastBasis {
            baseline: c.basis.baseline.clone(),
            method: c.basis.method.clone(),
            as_of_seq: c.basis.as_of_seq,
            as_of_date: c.basis.as_of_date,
        },
        affected_control_ids: clone_ids(&c.affected_control_ids),
        parent: match &c.parent {
            Some(x) => Some(x.clone()),
            None => None,
        },
        summarizes: clone_ids(&c.summarizes),
        correlation: match &c.correlation {
            Some(x) => Some(x.clone()),
            None => None,
        },
        evidence: copy_refs(&c.evidence),
    }
}

/// Consequence ids strictly ascend.
pub open spec fn ids_ascending(r: Seq<ForecastConsequence>) -> bool {
    forall|a: int, b: int| 0 <= a < b < r.len() ==> lex_lt((#[trigger] r[a]).control@, (#[trigger] r[b]).control@)
}

fn insert_by_id(r: &mut Vec<ForecastConsequence>, c: ForecastConsequence) -> (p: usize)
    requires
        ids_ascending(old(r)@),
        forall|t: int| 0 <= t < old(r)@.len() ==> (#[trigger] old(r)@[t]).control@ != c.control@,
    ensures
        p <= old(r)@.len(),
        final(r)@ == old(r)@.insert(p as int, c),
        ids_ascending(final(r)@),
{
    let mut p: usize = 0;
    while p < r.len() && !text_precedes(c.control.as_str(), r[p].control.as_str())
        invariant
            p <= r@.len(),
            forall|t: int| 0 <= t < p ==> !lex_lt(c.control@, (#[trigger] r@[t]).control@),
        decreases r.len() - p,
    {
        p = p + 1;
    }
    let ghost before = r@;
    let ghost cv = c.control@;
    proof {
        assert forall|t: int| 0 <= t < p implies lex_lt((#[trigger] before[t]).control@, cv) by {
            lemma_lex_total(before[t].control@, cv);
        }
    }
    r.insert(p, c);
    proof {
        let after = r@;
        assert forall|a: int, b: int| 0 <= a < b < after.len() implies lex_lt((#[trigger] after[a]).control@, (#[trigger] after[b]).control@) by {
            if b < p {
                assert(after[a] == before[a] && after[b] == before[b]);
            } else if b == p {
                assert(after[a] == before[a]);
            } else if a > p {
                assert(after[a] == before[a - 1] && after[b] == before[b - 1]);
            } else if a == p {
                assert(after[b] == before[b - 1]);
                if b - 1 > p {
                    lemma_lex_transitive(cv, before[p as int].control@, before[b - 1].control@);
                }
            } else {
                assert(after[a] == before[a] && after[b] == before[b - 1]);
                if b - 1 > p {
                    lemma_lex_transitive(cv, before[p as int].control@, before[b - 1].control@);
                }
                lemma_lex_transitive(before[a].control@, cv, before[b - 1].control@);
            }
        }
    }
    p
}

/// Entry `a` of `r` copies one of the first `k` consequences.
pub open spec fn copied_from(r: Seq<ForecastConsequence>, cs: Seq<ForecastConsequence>, a: int, k: int) -> bool {
    exists|j: int| 0 <= j < k && same_consequence(r[a], #[trigger] cs[j])
}

/// Consequence `j` is copied somewhere in `r`.
pub open spec fn copied_into(r: Seq<ForecastConsequence>, cs: Seq<ForecastConsequence>, j: int) -> bool {
    exists|a: int| 0 <= a < r.len() && same_consequence(#[trigger] r[a], cs[j])
}

proof fn lemma_copies_after_insert(
    before: Seq<ForecastConsequence>,
    after: Seq<ForecastConsequence>,
    cs: Seq<ForecastConsequence>,
    p: int,
    k: int,
)
    requires
        0 <= p <= before.len(),
        0 <= k < cs.len(),
        after == before.insert(p, after[p]),
        same_consequence(after[p], cs[k]),
        forall|a: int| 0 <= a < before.len() ==> #[trigger] copied_from(before, cs, a, k),
        forall|j: int| 0 <= j < k ==> #[trigger] copied_into(before, cs, j),
    ensures
        forall|a: int| 0 <= a < after.len() ==> #[trigger] copied_from(after, cs, a, k + 1),
        forall|j: int| 0 <= j < k + 1 ==> #[trigger] copied_into(after, cs, j),
{
    assert forall|a: int| 0 <= a < after.len() implies #[trigger] copied_from(after, cs, a, k + 1) by {
        if a < p {
            assert(after[a] == before[a]);
            assert(copied_from(before, cs, a, k));
            let j = choose|j: int| 0 <= j < k && same_consequence(before[a], #[trigger] cs[j]);
            assert(0 <= j < k + 1 && same_consequence(after[a], cs[j]));
        } else if a == p {
            assert(same_consequence(after[a], cs[k]));
        } else {
            assert(after[a] == before[a - 1]);
            assert(copied_from(before, cs, a - 1, k));
            let j = choose|j: int| 0 <= j < k && same_consequence(before[a - 1], #[trigger] cs[j]);
            assert(0 <= j < k + 1 && same_consequence(after[a], cs[j]));
        }
    }
    assert forall|j: int| 0 <= j < k + 1 implies #[trigger] copied_into(after, cs, j) by {
        if j == k {
            assert(same_consequence(after[p], cs[j]));
        } else {
            assert(copied_into(before, cs, j));
            let a = choose|a: int| 0 <= a < before.len() && same_consequence(#[trigger] before[a], cs[j]);
            if a < p {
                assert(after[a] == before[a]);
            } else {
                assert(after[a + 1] == before[a]);
            }
        }
    }
}

/// Copies consequences with distinct ids into ascending id order.
fn sort_consequences(cs: &Vec<ForecastConsequence>) -> (r: Vec<ForecastConsequence>)
    requires
        forall|i: int, j: int| 0 <= i < j < cs@.len() ==> (#[trigger] cs@[i]).control@ != (#[trigger] cs@[j]).control@,
    ensures
        sorted_copy(cs@, r@),
{
    let mut r: Vec<ForecastConsequence> = Vec::new();
    let mut k: usize = 0;
    while k < cs.len()
        invariant
            forall|i: int, j: int| 0 <= i < j < cs@.len() ==> (#[trigger] cs@[i]).control@ != (#[trigger] cs@[j]).control@,
            k <= cs@.len(),
            r@.len() == k,
            ids_ascending(r@),
            forall|a: int| 0 <= a < r@.len() ==> #[trigger] copied_from(r@, cs@, a, k as int),
            forall|j: int| 0 <= j < k ==> #[trigger] copied_into(r@, cs@, j),
        decreases cs.len() - k,
    {
        let c = copy_consequence(&cs[k]);
        let ghost before = r@;
        proof {
            assert forall|t: int| 0 <= t < before.len() implies (#[trigger] before[t]).control@ != c.control@ by {
                assert(copied_from(before, cs@, t, k as int));
                let j = choose|j: int| 0 <= j < k && same_consequence(before[t], #[trigger] cs@[j]);
                assert(cs@[j].control@ != cs@[k as int].control@);
            }
        }
        let ghost cc = c;
        let p = insert_by_id(&mut r, c);
        proof {
            assert(r@[p as int] == cc);
            lemma_copies_after_insert(before, r@, cs@, p as int, k as int);
        }
        k = k + 1;
    }
    r
}

/// Control `x` is joined to a critical task.
pub open spec fn critical_control(joins: ScheduleTaskJoinSet, sched: ScheduleStatusReport, x: Seq<char>) -> bool {
    exists|j: int| 0 <= j < joins.joins@.len() && (#[trigger] joins.joins@[j]).control@ == x && exists|t: int| 0 <= t
        < sched.critical_tasks@.len() && (#[trigger] sched.critical_tasks@[t])@ == joins.joins@[j].task_id@
}

/// Consequence `c` affects a control joined to a critical task.
pub open spec fn affects_critical(joins: ScheduleTaskJoinSet, sched: ScheduleStatusReport, c: ForecastConsequence) -> bool {
    exists|a: int| 0 <= a < c.affected_control_ids@.len() && critical_control(joins, sched, (#[trigger] c.affected_control_ids@[a])@)
}

/// Some consequence of uncertainty `x` affects a critical control.
pub open spec fn touches_critical(sorted: Seq<ForecastConsequence>, x: Seq<char>, joins: ScheduleTaskJoinSet, sched: ScheduleStatusReport) -> bool {
    exists|j: int| 0 <= j < sorted.len() && (#[trigger] sorted[j]).uncertainty@ == x && affects_critical(joins, sched, sorted[j])
}

/// Ids of the first `n` consequences of uncertainty `x`, in order.
pub open spec fn own_consequences(sorted: Seq<ForecastConsequence>, x: Seq<char>, n: int) -> Seq<ControlId>
    decreases n,
{
    if n <= 0 {
        Seq::empty()
    } else if sorted[n - 1].uncertainty@ == x {
        own_consequences(sorted, x, n - 1).push(sorted[n - 1].control)
    } else {
        own_consequences(sorted, x, n - 1)
    }
}

/// `it` is the exposure queue item of uncertainty `u`.
pub open spec fn item_holds(
    it: ExposureQueueItem,
    u: UncertaintyRecord,
    sorted: Seq<ForecastConsequence>,
    joins: ScheduleTaskJoinSet,
    sched: ScheduleStatusReport,
    edges: Seq<crate::control_graph::ControlEdge>,
) -> bool {
    &&& it.uncertainty == u.control
    &&& it.kind == u.kind
    &&& it.state == u.state
    &&& it.baseline == u.baseline
    &&& it.stale_rating == rating_is_stale(u)
    &&& it.consequences@ == own_consequences(sorted, u.control@, sorted.len() as int)
    &&& ids_sorted(it.affected_dependents@)
    &&& forall|t: Seq<char>| #[trigger] id_set(it.affected_dependents@).contains(t) <==> reaches(edges, EdgeScope::Readiness, u.control@, t)
    &&& it.critical_path == touches_critical(sorted, u.control@, joins, sched)
}

/// `a` comes strictly before `b` in the exposure queue: critical-path items
/// first, then items with a stale rating, then by uncertainty id.
pub open spec fn exposure_before(a: ExposureQueueItem, b: ExposureQueueItem) -> bool {
    ||| a.critical_path && !b.critical_path
    ||| a.critical_path == b.critical_path && a.stale_rating && !b.stale_rating
    ||| a.critical_path == b.critical_path && a.stale_rating == b.stale_rating && lex_lt(a.uncertainty@, b.uncertainty@)
}

/// The exposure queue holds one item per uncertainty, in queue order.
pub open spec fn queue_holds(
    q: Seq<ExposureQueueItem>,
    us: Seq<UncertaintyRecord>,
    sorted: Seq<ForecastConsequence>,
    joins: ScheduleTaskJoinSet,
    sched: ScheduleStatusReport,
    edges: Seq<crate::control_graph::ControlEdge>,
) -> bool {
    &&& forall|a: int, b: int| 0 <= a < b < q.len() ==> !exposure_before(#[trigger] q[b], #[trigger] q[a])
    &&& exists|idx: Seq<int>| #[trigger] queue_index(q, idx, us, sorted, joins, sched, edges, us.len() as int)
}

/// `idx` names the uncertainty of each item; each of the first `n` uncertainties has exactly one item.
pub open spec fn queue_index(
    q: Seq<ExposureQueueItem>,
    idx: Seq<int>,
    us: Seq<UncertaintyRecord>,
    sorted: Seq<ForecastConsequence>,
    joins: ScheduleTaskJoinSet,
    sched: ScheduleStatusReport,
    edges: Seq<crate::control_graph::ControlEdge>,
    n: int,
) -> bool {
    &&& q.len() == idx.len()
    &&& forall|k: int| 0 <= k < idx.len() ==> 0 <= #[trigger] idx[k] < n && item_holds(q[k], us[idx[k]], sorted, joins, sched, edges)
    &&& forall|a: int, b: int| 0 <= a < b < idx.len() ==> #[trigger] idx[a] != #[trigger] idx[b]
    &&& forall|i: int| 0 <= i < n ==> #[trigger] indexed(idx, i)
}

/// Some entry of `idx` is `i`.
pub open spec fn indexed(idx: Seq<int>, i: int) -> bool {
    exists|k: int| 0 <= k < idx.len() && idx[k] == i
}

/// The graph can analyze target `t`.
pub open spec fn analysis_ready(g: ControlGraph, t: Seq<char>) -> bool {
    &&& readiness_endpoints_present(g.nodes@, g.edges@)
    &&& readiness_acyclic(g.edges@)
    &&& has_node(g.nodes@, t)
}

/// How the graph refuses to analyze target `t`.
pub open spec fn analysis_refusal(g: ControlGraph, t: Seq<char>, e: ConstructionProjectError) -> bool {
    if !readiness_endpoints_present(g.nodes@, g.edges@) {
        dangling_refusal(g.nodes@, g.edges@, e)
    } else if !readiness_acyclic(g.edges@) {
        e matches ConstructionProjectError::ControlGraphCycle { cycle } && is_cycle_report(g.nodes@, g.edges@, cycle@)
    } else {
        e matches ConstructionProjectError::ControlGraphMissingEndpoint { edge, endpoint_role, endpoint } && edge
            == "analysis-target" && endpoint_role == "target" && endpoint@ == t
    }
}

/// The uncertainties, by position, that the graph cannot analyze.
pub open spec fn unanalyzable(g: ControlGraph, us: Seq<UncertaintyRecord>) -> spec_fn(int) -> bool {
    |i: int| !analysis_ready(g, us[i].control@)
}

/// What follows the record checks: the hierarchy of the sorted consequences,
/// the graph analysis of each uncertainty, then the amount buckets.
pub open spec fn exposure_tail(
    s: ProjectSnapshot,
    us: Seq<UncertaintyRecord>,
    sorted: Seq<ForecastConsequence>,
    joins: ScheduleTaskJoinSet,
    sched: ScheduleStatusReport,
    g: ControlGraph,
    r: Result<ExposureReport, ConstructionProjectError>,
) -> bool {
    if !hierarchy_check(sorted, Ok(())) {
        r matches Err(e) && hierarchy_check(sorted, Err(e))
    } else {
        match first_where(unanalyzable(g, us), us.len() as int) {
            Some(i) => r matches Err(e) && analysis_refusal(g, us[i].control@, e),
            None => if exists|i: int| 0 <= i < sorted.len() && counted(#[trigger] sorted[i]) && !bucket_fits(us, sorted, key_of(us, sorted[i])) {
                r == Err::<ExposureReport, ConstructionProjectError>(ConstructionProjectError::AmountOverflow { field: "forecast.exposure.total" })
            } else {
                r matches Ok(rep) && rep.as_of_seq == s.through_seq && rep.schedule_baseline == sched.baseline
                    && queue_holds(rep.queue@, us, sorted, joins, sched, g.edges@)
                    && buckets_result(us, sorted, Ok::<Vec<ExposureBucket>, ConstructionProjectError>(rep.amount_buckets))
            },
        }
    }
}

/// What `derive_exposure` answers, check by check in order.
pub open spec fn exposure_result(
    s: ProjectSnapshot,
    bs: Seq<AcceptedBaseline>,
    us: Seq<UncertaintyRecord>,
    cs: Seq<ForecastConsequence>,
    joins: ScheduleTaskJoinSet,
    sched: ScheduleStatusReport,
    g: ControlGraph,
    r: Result<ExposureReport, ConstructionProjectError>,
) -> bool {
    match first_where(baselines_unadmitted(s, bs), bs.len() as int) {
        Some(i) => r matches Err(e) && baseline_refusal(s, bs, i, e),
        None => if !schedule_agrees(s, bs, joins, sched) {
            r matches Err(e) && schedule_refusal(bs, sched, e)
        } else {
            match first_where(uncertainties_unadmitted(s, bs, us), us.len() as int) {
                Some(i) => r matches Err(e) && exposure_uncertainty_refusal(s, bs, us, i, e),
                None => match first_where(consequences_unadmitted(s, bs, us, cs), cs.len() as int) {
                    Some(i) => r matches Err(e) && exposure_consequence_refusal(s, bs, us, cs, i, e),
                    None => exists|sorted: Seq<ForecastConsequence>| #[trigger] sorted_copy(cs, sorted)
                        && exposure_tail(s, us, sorted, joins, sched, g, r),
                },
            }
        }
    }
}

fn task_is_critical(sched: &ScheduleStatusReport, task: &String) -> (b: bool)
    ensures
        b == exists|t: int| 0 <= t < sched.critical_tasks@.len() && (#[trigger] sched.critical_tasks@[t])@ == task@,
{
    let mut t: usize = 0;
    while t < sched.critical_tasks.len()
        invariant
            t <= sched.critical_tasks@.len(),
            forall|q: int| 0 <= q < t ==> (#[trigger] sched.critical_tasks@[q])@ != task@,
        decreases sched.critical_tasks.len() - t,
    {
        if crate::text::texts_equal(sched.critical_tasks[t].as_str(), task.as_str()) {
            return true;
        }
        t = t + 1;
    }
    false
}

/// Controls joined to a critical task, in id order.
fn critical_controls(joins: &ScheduleTaskJoinSet, sched: &ScheduleStatusReport) -> (r: Vec<ControlId>)
    ensures
        ids_sorted(r@),
        forall|x: Seq<char>| #[trigger] id_set(r@).contains(x) <==> critical_control(*joins, *sched, x),
{
    let mut r: Vec<ControlId> = Vec::new();
    proof {
        assert(id_set(r@) =~= Set::empty());
    }
    let mut j: usize = 0;
    while j < joins.joins.len()
        invariant
            j <= joins.joins@.len(),
            ids_sorted(r@),
            forall|x: Seq<char>| #[trigger] id_set(r@).contains(x) <==> exists|q: int| 0 <= q < j && (#[trigger] joins.joins@[q]).control@ == x
                && exists|t: int| 0 <= t < sched.critical_tasks@.len() && (#[trigger] sched.critical_tasks@[t])@ == joins.joins@[q].task_id@,
        decreases joins.joins.len() - j,
    {
        let jn = &joins.joins[j];
        if task_is_critical(sched, &jn.task_id) {
            insert_id(&mut r, jn.control.clone());
        }
        proof {
            assert forall|x: Seq<char>| #[trigger] id_set(r@).contains(x) <==> exists|q: int| 0 <= q < j + 1 && (#[trigger] joins.joins@[q]).control@ == x
                && exists|t: int| 0 <= t < sched.critical_tasks@.len() && (#[trigger] sched.critical_tasks@[t])@ == joins.joins@[q].task_id@ by {
                if exists|q: int| 0 <= q < j + 1 && (#[trigger] joins.joins@[q]).control@ == x
                    && exists|t: int| 0 <= t < sched.critical_tasks@.len() && (#[trigger] sched.critical_tasks@[t])@ == joins.joins@[q].task_id@ {
                    let q = choose|q: int| 0 <= q < j + 1 && (#[trigger] joins.joins@[q]).control@ == x
                        && exists|t: int| 0 <= t < sched.critical_tasks@.len() && (#[trigger] sched.critical_tasks@[t])@ == joins.joins@[q].task_id@;
                    if q < j {
                        assert(exists|q2: int| 0 <= q2 < j && (#[trigger] joins.joins@[q2]).control@ == x
                            && exists|t: int| 0 <= t < sched.critical_tasks@.len() && (#[trigger] sched.critical_tasks@[t])@ == joins.joins@[q2].task_id@);
                    }
                }
                if exists|q: int| 0 <= q < j && (#[trigger] joins.joins@[q]).control@ == x
                    && exists|t: int| 0 <= t < sched.critical_tasks@.len() && (#[trigger] sched.critical_tasks@[t])@ == joins.joins@[q].task_id@ {
                    let q = choose|q: int| 0 <= q < j && (#[trigger] joins.joins@[q]).control@ == x
                        && exists|t: int| 0 <= t < sched.critical_tasks@.len() && (#[trigger] sched.critical_tasks@[t])@ == joins.joins@[q].task_id@;
                    assert(0 <= q < j + 1);
                }
            }
        }
        j = j + 1;
    }
    r
}

fn affects_a_critical_control(c: &ForecastConsequence, crit: &Vec<ControlId>, Ghost(joins): Ghost<ScheduleTaskJoinSet>, Ghost(sched): Ghost<ScheduleStatusReport>) -> (b: bool)
    requires
        forall|x: Seq<char>| #[trigger] id_set(crit@).contains(x) <==> critical_control(joins, sched, x),
    ensures
        b == affects_critical(joins, sched, *c),
{
    let mut a: usize = 0;
    while a < c.affected_control_ids.len()
        invariant
            forall|x: Seq<char>| #[trigger] id_set(crit@).contains(x) <==> critical_control(joins, sched, x),
            a <= c.affected_control_ids@.len(),
            forall|q: int| 0 <= q < a ==> !critical_control(joins, sched, (#[trigger] c.affected_control_ids@[q])@),
        decreases c.affected_control_ids.len() - a,
    {
        if contains_id(crit, &c.affected_control_ids[a]) {
            return true;
        }
        a = a + 1;
    }
    false
}

fn uncertainty_outlook(
    sorted: &Vec<ForecastConsequence>,
    x: &ControlId,
    crit: &Vec<ControlId>,
    Ghost(joins): Ghost<ScheduleTaskJoinSet>,
    Ghost(sched): Ghost<ScheduleStatusReport>,
) -> (r: (Vec<ControlId>, bool))
    requires
        forall|y: Seq<char>| #[trigger] id_set(crit@).contains(y) <==> critical_control(joins, sched, y),
    ensures
        r.0@ == own_consequences(sorted@, x@, sorted@.len() as int),
        r.1 == touches_critical(sorted@, x@, joins, sched),
{
    let mut own: Vec<ControlId> = Vec::new();
    let mut touched = false;
    let mut j: usize = 0;
    while j < sorted.len()
        invariant
            forall|y: Seq<char>| #[trigger] id_set(crit@).contains(y) <==> critical_control(joins, sched, y),
            j <= sorted@.len(),
            own@ == own_consequences(sorted@, x@, j as int),
            touched == exists|q: int| 0 <= q < j && (#[trigger] sorted@[q]).uncertainty@ == x@ && affects_critical(joins, sched, sorted@[q]),
        decreases sorted.len() - j,
    {
        let c = &sorted[j];
        if c.uncertainty.same(x) {
            own.push(c.control.clone());
            if affects_a_critical_control(c, crit, Ghost(joins), Ghost(sched)) {
                touched = true;
            }
        }
        j = j + 1;
    }
    (own, touched)
}

proof fn lemma_exposure_before_order(a: ExposureQueueItem, b: ExposureQueueItem, c: ExposureQueueItem)
    ensures
        exposure_before(a, b) && exposure_before(b, c) ==> exposure_before(a, c),
        exposure_before(a, b) ==> !exposure_before(b, a),
{
    if lex_lt(a.uncertainty@, b.uncertainty@) && lex_lt(b.uncertainty@, c.uncertainty@) {
        lemma_lex_transitive(a.uncertainty@, b.uncertainty@, c.uncertainty@);
    }
    if lex_lt(a.uncertainty@, b.uncertainty@) {
        lemma_lex_asymmetric(a.uncertainty@, b.uncertainty@);
    }
}

fn item_precedes(a: &ExposureQueueItem, b: &ExposureQueueItem) -> (r: bool)
    ensures
        r == exposure_before(*a, *b),
{
    if a.critical_path != b.critical_path {
        return a.critical_path;
    }
    if a.stale_rating != b.stale_rating {
        return a.stale_rating;
    }
    text_precedes(a.uncertainty.as_str(), b.uncertainty.as_str())
}

/// Inserts `item` after every item it does not come before.
fn insert_item(q: &mut Vec<ExposureQueueItem>, item: ExposureQueueItem) -> (p: usize)
    requires
        forall|a: int, b: int| 0 <= a < b < old(q)@.len() ==> !exposure_before(#[trigger] old(q)@[b], #[trigger] old(q)@[a]),
    ensures
        p <= old(q)@.len(),
        final(q)@ == old(q)@.insert(p as int, item),
        forall|a: int, b: int| 0 <= a < b < final(q)@.len() ==> !exposure_before(#[trigger] final(q)@[b], #[trigger] final(q)@[a]),
{
    let mut p: usize = 0;
    while p < q.len() && !item_precedes(&item, &q[p])
        invariant
            p <= q@.len(),
            forall|t: int| 0 <= t < p ==> !exposure_before(item, #[trigger] q@[t]),
        decreases q.len() - p,
    {
        p = p + 1;
    }
    let ghost before = q@;
    let ghost it = item;
    q.insert(p, item);
    proof {
        let after = q@;
        assert forall|a: int, b: int| 0 <= a < b < after.len() implies !exposure_before(#[trigger] after[b], #[trigger] after[a]) by {
            if b < p {
                assert(after[a] == before[a] && after[b] == before[b]);
            } else if b == p {
                assert(after[b] == it && after[a] == before[a]);
            } else if a > p {
                assert(after[a] == before[a - 1] && after[b] == before[b - 1]);
            } else if a == p {
                assert(after[a] == it && after[b] == before[b - 1]);
                assert(exposure_before(it, before[p as int]));
                if b - 1 > p {
                    assert(!exposure_before(before[b - 1], before[p as int]));
                }
                lemma_exposure_before_order(before[b - 1], it, before[p as int]);
                lemma_exposure_before_order(it, before[p as int], it);
            } else {
                assert(after[a] == before[a] && after[b] == before[b - 1]);
            }
        }
    }
    p
}

/// Derives the current exposure of risks and opportunities: checks the
/// accepted baselines, the schedule report and its joins, every uncertainty
/// and forecast consequence against the snapshot, then the consequence
/// hierarchy (in id order); builds one queue item per uncertainty from the
/// control graph and the critical-path joins, critical and stale items
/// first; and sums exact amount buckets.
#[verifier::rlimit(40)]
pub fn derive_exposure(
    snapshot: &ProjectSnapshot,
    baselines: &Vec<AcceptedBaseline>,
    uncertainties: &Vec<UncertaintyRecord>,
    consequences: &Vec<ForecastConsequence>,
    joins: &ScheduleTaskJoinSet,
    schedule: &ScheduleStatusReport,
    graph: &ControlGraph,
) -> (r: Result<ExposureReport, ConstructionProjectError>)
    requires
        nodes_unique(graph.nodes@),
    ensures
        exposure_result(*snapshot, baselines@, uncertainties@, consequences@, *joins, *schedule, *graph, r),
{
    let bids = baseline_ids(baselines);
    match check_baselines(snapshot, baselines, &bids) {
        Err(e) => {
            return Err(e);
        },
        Ok(()) => {},
    }
    match check_schedule(snapshot, baselines, &bids, joins, schedule) {
        Err(e) => {
            return Err(e);
        },
        Ok(()) => {},
    }
    let uids = uncertainty_ids(uncertainties);
    match check_uncertainties(snapshot, baselines, &bids, uncertainties, &uids) {
        Err(e) => {
            return Err(e);
        },
        Ok(()) => {},
    }
    let cids = control_ids_of(consequences);
    match check_exposure_consequences(snapshot, baselines, &bids, uncertainties, &uids, consequences, &cids) {
        Err(e) => {
            return Err(e);
        },
        Ok(()) => {},
    }
    let ghost s = *snapshot;
    let ghost bs = baselines@;
    let ghost us = uncertainties@;
    let ghost cs = consequences@;
    proof {
        lemma_first_where_none(consequences_unadmitted(s, bs, us, cs), cs.len() as int);
        assert forall|i: int, j: int| 0 <= i < j < cs.len() implies (#[trigger] cs[i]).control@ != (#[trigger] cs[j]).control@ by {
            assert(!consequences_unadmitted(s, bs, us, cs)(j));
            lemma_first_key_none(consequence_ids(cs), cs[j].control@, j);
            assert(consequence_ids(cs)[i] == cs[i].control@);
        }
    }
    let sorted = sort_consequences(consequences);
    let ghost ss = sorted@;
    match validate_hierarchy(&sorted) {
        Err(e) => {
            proof {
                assert(sorted_copy(cs, ss) && exposure_tail(s, us, ss, *joins, *schedule, *graph, Err(e)));
            }
            return Err(e);
        },
        Ok(()) => {},
    }
    let crit = critical_controls(joins, schedule);
    let ghost g = *graph;
    let ghost p = unanalyzable(g, us);
    let mut queue: Vec<ExposureQueueItem> = Vec::new();
    let ghost mut idx: Seq<int> = Seq::empty();
    let mut i: usize = 0;
    while i < uncertainties.len()
        invariant
            s == *snapshot,
            us == uncertainties@,
            g == *graph,
            ss == sorted@,
            cs == consequences@,
            sorted_copy(cs, ss),
            hierarchy_check(ss, Ok(())),
            bs == baselines@,
            first_where(baselines_unadmitted(s, bs), bs.len() as int) is None,
            schedule_agrees(s, bs, *joins, *schedule),
            first_where(uncertainties_unadmitted(s, bs, us), us.len() as int) is None,
            first_where(consequences_unadmitted(s, bs, us, cs), cs.len() as int) is None,
            nodes_unique(graph.nodes@),
            p == unanalyzable(g, us),
            forall|y: Seq<char>| #[trigger] id_set(crit@).contains(y) <==> critical_control(*joins, *schedule, y),
            i <= us.len(),
            first_where(p, i as int) is None,
            forall|a: int, b: int| 0 <= a < b < queue@.len() ==> !exposure_before(#[trigger] queue@[b], #[trigger] queue@[a]),
            queue_index(queue@, idx, us, ss, *joins, *schedule, g.edges@, i as int),
        decreases uncertainties.len() - i,
    {
        let u = &uncertainties[i];
        let analysis = match graph.analyze_target(
            &u.control,
            |c: &ControlId| -> (b: bool) { false },
            |c: &ControlId| -> (out: (Option<u64>, EvidenceState)) {
                match snapshot.current_fact(c) {
                    Some(f) => (Some(f.seq), f.evidence_state),
                    None => (None, EvidenceState::Missing),
                }
            },
            |c: &ControlId| -> (x: Option<ControlId>) { None },
        ) {
            Err(e) => {
                proof {
                    assert(p(i as int));
                    assert(first_where(p, i as int + 1) == Some(i as int));
                    lemma_first_where_stable(p, i as int + 1, us.len() as int);
                    assert(analysis_refusal(g, us[i as int].control@, e));
                    assert(exposure_tail(s, us, ss, *joins, *schedule, g, Err(e)));
                    assert(sorted_copy(cs, ss));
                }
                return Err(e);
            },
            Ok(a) => a,
        };
        proof {
            assert(!p(i as int));
        }
        let (own, touched) = uncertainty_outlook(&sorted, &u.control, &crit, Ghost(*joins), Ghost(*schedule));
        let item = ExposureQueueItem {
            uncertainty: u.control.clone(),
            kind: u.kind,
            state: u.state,
            baseline: u.baseline.clone(),
            stale_rating: u.has_stale_rating(),
            consequences: own,
            affected_dependents: analysis.affected_dependents,
            critical_path: touched,
        };
        proof {
            assert(item_holds(item, us[i as int], ss, *joins, *schedule, g.edges@));
        }
        let ghost old_q = queue@;
        let ghost old_idx = idx;
        let pos = insert_item(&mut queue, item);
        proof {
            idx = old_idx.insert(pos as int, i as int);
            assert forall|k: int| 0 <= k < idx.len() implies 0 <= #[trigger] idx[k] < i + 1
                && item_holds(queue@[k], us[idx[k]], ss, *joins, *schedule, g.edges@) by {
                if k < pos {
                    assert(idx[k] == old_idx[k] && queue@[k] == old_q[k]);
                } else if k > pos {
                    assert(idx[k] == old_idx[k - 1] && queue@[k] == old_q[k - 1]);
                }
            }
            assert forall|a: int, b: int| 0 <= a < b < idx.len() implies #[trigger] idx[a] != #[trigger] idx[b] by {
                if a != pos as int && b != pos as int {
                    let a0 = if a < pos { a } else { a - 1 };
                    let b0 = if b < pos { b } else { b - 1 };
                    assert(idx[a] == old_idx[a0] && idx[b] == old_idx[b0]);
                } else if a == pos as int {
                    assert(idx[b] == old_idx[b - 1]);
                } else {
                    assert(idx[a] == old_idx[a]);
                }
            }
            assert forall|j: int| 0 <= j < i + 1 implies #[trigger] indexed(idx, j) by {
                if j == i {
                    assert(idx[pos as int] == i);
                } else {
                    assert(indexed(old_idx, j));
                    let k0 = choose|k0: int| 0 <= k0 < old_idx.len() && old_idx[k0] == j;
                    if k0 < pos {
                        assert(idx[k0] == j);
                    } else {
                        assert(idx[k0 + 1] == j);
                    }
                }
            }
            assert(first_where(p, i as int + 1) is None);
        }
        i = i + 1;
    }
    proof {
        lemma_first_where_none(consequences_unadmitted(s, bs, us, cs), cs.len() as int);
        assert forall|j: int| 0 <= j < ss.len() implies key_position(uncertainty_keys(us), (#[trigger] ss[j]).uncertainty@) is Some by {
            assert(copied_from(ss, cs, j, cs.len() as int));
            let k = choose|k: int| 0 <= k < cs.len() && same_consequence(ss[j], #[trigger] cs[k]);
            assert(!consequences_unadmitted(s, bs, us, cs)(k));
        }
        assert(queue_index(queue@, idx, us, ss, *joins, *schedule, g.edges@, us.len() as int));
    }
    let buckets = amount_buckets(uncertainties, &sorted);
    match buckets {
        Err(e) => {
            proof {
                assert(sorted_copy(cs, ss) && exposure_tail(s, us, ss, *joins, *schedule, g, Err(e)));
            }
            Err(e)
        },
        Ok(b) => {
            let report = ExposureReport {
                as_of_seq: snapshot.through_seq,
                schedule_baseline: schedule.baseline.clone(),
                queue,
                amount_buckets: b,
            };
            proof {
                assert(queue_holds(report.queue@, us, ss, *joins, *schedule, g.edges@));
                assert(sorted_copy(cs, ss) && exposure_tail(s, us, ss, *joins, *schedule, g, Ok(report)));
            }
            Ok(report)
        },
    }
}

} // verus!
