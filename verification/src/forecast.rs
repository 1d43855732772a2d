//! Method-bearing forecast consequences of uncertain events.

use vstd::prelude::*;
use crate::commercial::CommercialAmount;
use crate::date::ProjectDate;
use crate::error::ConstructionProjectError;
use crate::evidence::ExternalRef;
use crate::identity::{BaselineId, ControlId, ProjectId};
use crate::text::{is_blank, text_is_blank};

verus! {

/// Construction outcome lane affected by an uncertain event.
#[derive(Clone, Copy, Debug, PartialEq, Eq, Structural, PartialOrd, Ord)]
pub enum ForecastConsequenceKind {
    /// Schedule interval consequence.
    Time,
    /// Exact commercial amount consequence.
    Amount,
    /// Physical safety consequence.
    Safety,
    /// Product or process quality consequence.
    Quality,
    /// Environmental consequence.
    Environment,
    /// Sustainability target consequence.
    Sustainability,
    /// People or organization consequence.
    People,
    /// Property, site, or neighborhood consequence.
    Place,
    /// Customer outcome consequence.
    Customer,
}

/// Typed value of a forecast consequence.
#[derive(Debug, PartialEq, Eq)]
pub enum ForecastValue {
    /// Inclusive local interval affected by the event.
    TimeInterval {
        /// Forecast interval start.
        start_on: ProjectDate,
        /// Forecast interval finish.
        finish_on: ProjectDate,
    },
    /// Exact fixed-decimal amount and currency.
    Amount(CommercialAmount),
    /// Qualitative consequence statement.
    Qualitative(String),
    /// Quantified non-monetary consequence under an open unit.
    Quantified {
        /// Observed or forecast integer value.
        value: i64,
        /// Open unit name.
        unit: String,
    },
}

/// Method and accepted as-of basis for a forecast consequence.
#[derive(Debug, PartialEq, Eq)]
pub struct ForecastBasis {
    /// Accepted project baseline used by the method.
    pub baseline: BaselineId,
    /// Named forecasting or assessment method.
    pub method: String,
    /// Project fact sequence used by the method.
    pub as_of_seq: u64,
    /// Calendar date represented by the method input.
    pub as_of_date: ProjectDate,
}

/// What `ForecastBasis::validate(fact_seq)` answers.
pub open spec fn basis_check(b: ForecastBasis, fact_seq: u64, r: Result<(), ConstructionProjectError>) -> bool {
    if is_blank(b.method@) {
        r == Err::<(), ConstructionProjectError>(ConstructionProjectError::EmptyField("forecast.basis.method"))
    } else if b.as_of_seq == 0 || b.as_of_seq > fact_seq {
        r matches Err(ConstructionProjectError::InvalidSequence { field, sequence })
            && field == "forecast.basis.as_of_seq" && sequence == b.as_of_seq
    } else {
        r is Ok
    }
}

impl ForecastBasis {
    /// Builds explicit forecast method and as-of provenance.
    pub fn new(baseline: BaselineId, method: &str, as_of_seq: u64, as_of_date: ProjectDate) -> (b: Self)
        ensures
            b.baseline == baseline,
            b.method@ == method@,
            b.as_of_seq == as_of_seq,
            b.as_of_date == as_of_date,
    {
        ForecastBasis { baseline, method: method.to_owned(), as_of_seq, as_of_date }
    }

    /// Requires a named method and an as-of sequence no later than the fact.
    pub fn validate(&self, fact_seq: u64) -> (r: Result<(), ConstructionProjectError>)
        ensures
            basis_check(*self, fact_seq, r),
    {
        if text_is_blank(self.method.as_str()) {
            return Err(ConstructionProjectError::EmptyField("forecast.basis.method"));
        }
        if self.as_of_seq == 0 || self.as_of_seq > fact_seq {
            return Err(ConstructionProjectError::InvalidSequence { field: "forecast.basis.as_of_seq", sequence: self.as_of_seq });
        }
        Ok(())
    }
}

/// Current method-bearing forecast consequence fact.
#[derive(Debug, PartialEq, Eq)]
pub struct ForecastConsequence {
    /// Stable construction project identity.
    pub project: ProjectId,
    /// Stable forecast-consequence control id.
    pub control: ControlId,
    /// Risk or opportunity control producing this consequence.
    pub uncertainty: ControlId,
    /// Current project fact sequence for this consequence.
    pub fact_seq: u64,
    /// Scenario kept separate during exposure aggregation.
    pub scenario: ControlId,
    /// Outcome lane.
    pub kind: ForecastConsequenceKind,
    /// Typed forecast value.
    pub value: ForecastValue,
    /// Explicit method and as-of basis.
    pub basis: ForecastBasis,
    /// Project controls affected by the consequence.
    pub affected_control_ids: Vec<ControlId>,
    /// Parent summary containing this consequence, when present.
    pub parent: Option<ControlId>,
    /// Child consequences summarized by this fact.
    pub summarizes: Vec<ControlId>,
    /// Correlation group retained as an annotation rather than probability math.
    pub correlation: Option<ControlId>,
    /// Reference-only supporting evidence.
    pub evidence: Vec<ExternalRef>,
}

/// Non-time, non-amount lanes.
pub open spec fn qualitative_lane(k: ForecastConsequenceKind) -> bool {
    k != ForecastConsequenceKind::Time && k != ForecastConsequenceKind::Amount
}

/// The value agrees with the consequence kind: an ordered interval for
/// time, a positive amount for amount, and a non-blank statement or unit
/// for every other lane.
pub open spec fn value_fits(k: ForecastConsequenceKind, v: ForecastValue) -> bool {
    match v {
        ForecastValue::TimeInterval { start_on, finish_on } => k == ForecastConsequenceKind::Time
            && start_on.julian_day <= finish_on.julian_day,
        ForecastValue::Amount(a) => k == ForecastConsequenceKind::Amount && a.amount > 0,
        ForecastValue::Qualitative(s) => qualitative_lane(k) && !is_blank(s@),
        ForecastValue::Quantified { value, unit } => qualitative_lane(k) && !is_blank(unit@),
    }
}

/// What `ForecastConsequence::validate` answers.
pub open spec fn consequence_check(c: ForecastConsequence, r: Result<(), ConstructionProjectError>) -> bool {
    if c.fact_seq == 0 {
        r matches Err(ConstructionProjectError::InvalidSequence { field, sequence }) && field == "forecast.fact_seq"
            && sequence == 0
    } else if !basis_check(c.basis, c.fact_seq, Ok(())) {
        basis_check(c.basis, c.fact_seq, r)
    } else if c.affected_control_ids@.len() == 0 {
        r == Err::<(), ConstructionProjectError>(ConstructionProjectError::EmptyCollection("forecast.affected_control_ids"))
    } else if c.evidence@.len() == 0 {
        r == Err::<(), ConstructionProjectError>(ConstructionProjectError::EmptyCollection("forecast.evidence"))
    } else if c.parent is Some && c.summarizes@.len() > 0 {
        r matches Err(ConstructionProjectError::UncertaintyDerivation { control, reason }) && control == c.control
            && reason == "a forecast consequence cannot be both parent and child"
    } else if !value_fits(c.kind, c.value) {
        r matches Err(ConstructionProjectError::ForecastValueMismatch { consequence, kind }) && consequence == c.control
            && kind == c.kind
    } else {
        r is Ok
    }
}

impl ForecastConsequence {
    /// Builds a method-bearing forecast-consequence fact.
    pub fn new(
        project: ProjectId,
        control: ControlId,
        uncertainty: ControlId,
        fact_seq: u64,
        scenario: ControlId,
        kind: ForecastConsequenceKind,
        value: ForecastValue,
        basis: ForecastBasis,
    ) -> (c: Self)
        ensures
            c.project == project,
            c.control == control,
            c.uncertainty == uncertainty,
            c.fact_seq == fact_seq,
            c.scenario == scenario,
            c.kind == kind,
            c.value == value,
            c.basis == basis,
            c.affected_control_ids@.len() == 0,
            c.parent is None,
            c.summarizes@.len() == 0,
            c.correlation is None,
            c.evidence@.len() == 0,
    {
        ForecastConsequence {
            project,
            control,
            uncertainty,
            fact_seq,
            scenario,
            kind,
            value,
            basis,
            affected_control_ids: Vec::new(),
            parent: None,
            summarizes: Vec::new(),
            correlation: None,
            evidence: Vec::new(),
        }
    }

    /// Adds an affected project control.
    pub fn affects(self, control: ControlId) -> (c: Self)
        ensures
            c == (ForecastConsequence { affected_control_ids: c.affected_control_ids, ..self }),
            c.affected_control_ids@ == self.affected_control_ids@.push(control),
    {
        let mut c = self;
        c.affected_control_ids.push(control);
        c
    }

    /// Marks this consequence as a child of a higher-level summary.
    pub fn with_parent(self, parent: ControlId) -> (c: Self)
        ensures
            c == (ForecastConsequence { parent: Some(parent), ..self }),
    {
        let mut c = self;
        c.parent = Some(parent);
        c
    }

    /// Declares a child consequence represented by this parent summary.
    pub fn summarizes(self, child: ControlId) -> (c: Self)
        ensures
            c == (ForecastConsequence { summarizes: c.summarizes, ..self }),
            c.summarizes@ == self.summarizes@.push(child),
    {
        let mut c = self;
        c.summarizes.push(child);
        c
    }

    /// Adds a correlation group without converting it to a probability.
    pub fn correlated_with(self, group: ControlId) -> (c: Self)
        ensures
            c == (ForecastConsequence { correlation: Some(group), ..self }),
    {
        let mut c = self;
        c.correlation = Some(group);
        c
    }

    /// Adds reference-only supporting evidence.
    pub fn with_evidence(self, evidence: ExternalRef) -> (c: Self)
        ensures
            c == (ForecastConsequence { evidence: c.evidence, ..self }),
            c.evidence@ == self.evidence@.push(evidence),
    {
        let mut c = self;
        c.evidence.push(evidence);
        c
    }

    /// Validates kind/value agreement, method provenance, and required evidence.
    pub fn validate(&self) -> (r: Result<(), ConstructionProjectError>)
        ensures
            consequence_check(*self, r),
    {
        if self.fact_seq == 0 {
            return Err(ConstructionProjectError::InvalidSequence { field: "forecast.fact_seq", sequence: self.fact_seq });
        }
        self.basis.validate(self.fact_seq)?;
        if self.affected_control_ids.len() == 0 {
            return Err(ConstructionProjectError::EmptyCollection("forecast.affected_control_ids"));
        }
        if self.evidence.len() == 0 {
            return Err(ConstructionProjectError::EmptyCollection("forecast.evidence"));
        }
        if self.parent.is_some() && self.summarizes.len() > 0 {
            return Err(ConstructionProjectError::UncertaintyDerivation {
                control: self.control.clone(),
                reason: "a forecast consequence cannot be both parent and child",
            });
        }
        let qualitative = self.kind != ForecastConsequenceKind::Time && self.kind != ForecastConsequenceKind::Amount;
        let fits = match &self.value {
            ForecastValue::TimeInterval { start_on, finish_on } => self.kind == ForecastConsequenceKind::Time
                && start_on.julian_day <= finish_on.julian_day,
            ForecastValue::Amount(a) => self.kind == ForecastConsequenceKind::Amount && a.amount > 0,
            ForecastValue::Qualitative(s) => qualitative && !text_is_blank(s.as_str()),
            ForecastValue::Quantified { value: _, unit } => qualitative && !text_is_blank(unit.as_str()),
        };
        if !fits {
            return Err(ConstructionProjectError::ForecastValueMismatch { consequence: self.control.clone(), kind: self.kind });
        }
        Ok(())
    }
}

/// Amount consequences compare only in one currency, and never with a
/// non-amount consequence.
pub open spec fn amount_currencies_match(a: ForecastValue, b: ForecastValue) -> bool {
    match a {
        ForecastValue::Amount(x) => match b {
            ForecastValue::Amount(y) => x.currency@ == y.currency@,
            _ => false,
        },
        _ => !(b is Amount),
    }
}

/// A parent and a child consequence share uncertainty, scenario, kind and
/// amount currency.
pub open spec fn comparable(parent: ForecastConsequence, child: ForecastConsequence) -> bool {
    &&& parent.uncertainty@ == child.uncertainty@
    &&& parent.scenario@ == child.scenario@
    &&& parent.kind == child.kind
    &&& amount_currencies_match(parent.value, child.value)
}

/// What `validate_parent_child(parent, child)` answers.
pub open spec fn parent_child_check(parent: ForecastConsequence, child: ForecastConsequence, r: Result<(), ConstructionProjectError>) -> bool {
    if comparable(parent, child) {
        r is Ok
    } else {
        r matches Err(ConstructionProjectError::UncertaintyDerivation { control, reason }) && control == child.control
            && reason == "forecast parent and child are not comparable"
    }
}

/// Requires a parent and a child consequence to be comparable.
pub fn validate_parent_child(parent: &ForecastConsequence, child: &ForecastConsequence) -> (r: Result<(), ConstructionProjectError>)
    ensures
        parent_child_check(*parent, *child, r),
{
    let amount_currency_matches = match (&parent.value, &child.value) {
        (ForecastValue::Amount(p), ForecastValue::Amount(c)) => p.currency.same(&c.currency),
        (ForecastValue::Amount(_), _) => false,
        (_, ForecastValue::Amount(_)) => false,
        _ => true,
    };
    if !parent.uncertainty.same(&child.uncertainty) || !parent.scenario.same(&child.scenario) || parent.kind != child.kind
        || !amount_currency_matches {
        return Err(ConstructionProjectError::UncertaintyDerivation {
            control: child.control.clone(),
            reason: "forecast parent and child are not comparable",
        });
    }
    Ok(())
}

/// Position of the first of the first `n` consequences with id `x`.
pub open spec fn first_with(cs: Seq<ForecastConsequence>, x: Seq<char>, n: int) -> Option<int>
    decreases n,
{
    if n <= 0 {
        None
    } else {
        match first_with(cs, x, n - 1) {
            Some(k) => Some(k),
            None => if cs[n - 1].control@ == x {
                Some(n - 1)
            } else {
                None
            },
        }
    }
}

/// The consequence with id `x`, when one is listed.
pub open spec fn consequence_with(cs: Seq<ForecastConsequence>, x: Seq<char>) -> Option<ForecastConsequence> {
    match first_with(cs, x, cs.len() as int) {
        Some(k) => Some(cs[k]),
        None => None,
    }
}

/// `ids` holds id `x`.
pub open spec fn lists_id(ids: Seq<ControlId>, x: Seq<char>) -> bool {
    exists|k: int| 0 <= k < ids.len() && (#[trigger] ids[k])@ == x
}

/// The fault of the parent link of consequence `c`, as the control to
/// report and the reason.
pub open spec fn parent_fault(cs: Seq<ForecastConsequence>, c: ForecastConsequence) -> Option<(ControlId, &'static str)> {
    match c.parent {
        None => None,
        Some(p) => match consequence_with(cs, p@) {
            None => Some((c.control, "forecast consequence references a non-current parent")),
            Some(parent) => if !lists_id(parent.summarizes@, c.control@) {
                Some((c.control, "forecast parent and child links are not reciprocal"))
            } else if !comparable(parent, c) {
                Some((c.control, "forecast parent and child are not comparable"))
            } else {
                None
            },
        },
    }
}

/// The fault of the summary link from consequence `c` to child id `x`.
pub open spec fn child_fault(cs: Seq<ForecastConsequence>, c: ForecastConsequence, x: ControlId) -> Option<(ControlId, &'static str)> {
    match consequence_with(cs, x@) {
        None => Some((c.control, "forecast summary references a non-current child")),
        Some(child) => if !(child.parent matches Some(q) && q@ == c.control@) {
            Some((c.control, "forecast summary and child links are not reciprocal"))
        } else if !comparable(c, child) {
            Some((child.control, "forecast parent and child are not comparable"))
        } else {
            None
        },
    }
}

/// The first fault among the first `n` summary links of consequence `c`.
pub open spec fn children_fault(cs: Seq<ForecastConsequence>, c: ForecastConsequence, n: int) -> Option<(ControlId, &'static str)>
    decreases n,
{
    if n <= 0 {
        None
    } else {
        match children_fault(cs, c, n - 1) {
            Some(f) => Some(f),
            None => child_fault(cs, c, c.summarizes@[n - 1]),
        }
    }
}

/// The first fault of consequence `c`: its parent link, then its summary links in order.
pub open spec fn links_fault(cs: Seq<ForecastConsequence>, c: ForecastConsequence) -> Option<(ControlId, &'static str)> {
    match parent_fault(cs, c) {
        Some(f) => Some(f),
        None => children_fault(cs, c, c.summarizes@.len() as int),
    }
}

/// The first fault among the first `n` consequences.
pub open spec fn hierarchy_fault(cs: Seq<ForecastConsequence>, n: int) -> Option<(ControlId, &'static str)>
    decreases n,
{
    if n <= 0 {
        None
    } else {
        match hierarchy_fault(cs, n - 1) {
            Some(f) => Some(f),
            None => links_fault(cs, cs[n - 1]),
        }
    }
}

/// What `validate_hierarchy(cs)` answers.
pub open spec fn hierarchy_check(cs: Seq<ForecastConsequence>, r: Result<(), ConstructionProjectError>) -> bool {
    match hierarchy_fault(cs, cs.len() as int) {
        None => r is Ok,
        Some(f) => r matches Err(ConstructionProjectError::UncertaintyDerivation { control, reason }) && control == f.0
            && reason == f.1,
    }
}

fn find_consequence(cs: &Vec<ForecastConsequence>, x: &ControlId) -> (r: Option<usize>)
    ensures
        match first_with(cs@, x@, cs@.len() as int) {
            Some(k) => r matches Some(j) && j == k && 0 <= k < cs@.len(),
            None => r is None,
        },
{
    let mut i: usize = 0;
    while i < cs.len()
        invariant
            i <= cs@.len(),
            first_with(cs@, x@, i as int) is None,
        decreases cs.len() - i,
    {
        if cs[i].control.same(x) {
            proof {
                lemma_first_with_stable(cs@, x@, i as int + 1, cs@.len() as int);
            }
            return Some(i);
        }
        i = i + 1;
    }
    None
}

/// Once found among the first `m` consequences, the first position stays
/// the same among the first `n >= m`.
proof fn lemma_first_with_stable(cs: Seq<ForecastConsequence>, x: Seq<char>, m: int, n: int)
    requires
        0 <= m <= n,
        first_with(cs, x, m) is Some,
    ensures
        first_with(cs, x, n) == first_with(cs, x, m),
        first_with(cs, x, n)->0 < m,
    decreases n - m,
{
    if m < n {
        lemma_first_with_stable(cs, x, m, n - 1);
    } else {
        lemma_first_with_below(cs, x, m);
    }
}

proof fn lemma_first_with_below(cs: Seq<ForecastConsequence>, x: Seq<char>, m: int)
    requires
        first_with(cs, x, m) is Some,
    ensures
        0 <= first_with(cs, x, m)->0 < m,
    decreases m,
{
    if m > 0 && first_with(cs, x, m - 1) is Some {
        lemma_first_with_below(cs, x, m - 1);
    }
}

fn contains_id(ids: &Vec<ControlId>, x: &ControlId) -> (b: bool)
    ensures
        b == lists_id(ids@, x@),
{
    let mut k: usize = 0;
    while k < ids.len()
        invariant
            k <= ids@.len(),
            forall|j: int| 0 <= j < k ==> (#[trigger] ids@[j])@ != x@,
        decreases ids.len() - k,
    {
        if ids[k].same(x) {
            return true;
        }
        k = k + 1;
    }
    false
}

fn check_parent(cs: &Vec<ForecastConsequence>, c: &ForecastConsequence) -> (r: Result<(), ConstructionProjectError>)
    ensures
        match parent_fault(cs@, *c) {
            None => r is Ok,
            Some(f) => r matches Err(ConstructionProjectError::UncertaintyDerivation { control, reason }) && control == f.0
                && reason == f.1,
        },
{
    match &c.parent {
        None => Ok(()),
        Some(p) => match find_consequence(cs, p) {
            None => Err(ConstructionProjectError::UncertaintyDerivation {
                control: c.control.clone(),
                reason: "forecast consequence references a non-current parent",
            }),
            Some(k) => {
                let parent = &cs[k];
                if !contains_id(&parent.summarizes, &c.control) {
                    return Err(ConstructionProjectError::UncertaintyDerivation {
                        control: c.control.clone(),
                        reason: "forecast parent and child links are not reciprocal",
                    });
                }
                validate_parent_child(parent, c)
            },
        },
    }
}

fn check_child(cs: &Vec<ForecastConsequence>, c: &ForecastConsequence, x: &ControlId) -> (r: Result<(), ConstructionProjectError>)
    ensures
        match child_fault(cs@, *c, *x) {
            None => r is Ok,
            Some(f) => r matches Err(ConstructionProjectError::UncertaintyDerivation { control, reason }) && control == f.0
                && reason == f.1,
        },
{
    match find_consequence(cs, x) {
        None => Err(ConstructionProjectError::UncertaintyDerivation {
            control: c.control.clone(),
            reason: "forecast summary references a non-current child",
        }),
        Some(k) => {
            let child = &cs[k];
            let reciprocal = match &child.parent {
                Some(q) => q.same(&c.control),
                None => false,
            };
            if !reciprocal {
                return Err(ConstructionProjectError::UncertaintyDerivation {
                    control: c.control.clone(),
                    reason: "forecast summary and child links are not reciprocal",
                });
            }
            validate_parent_child(c, child)
        },
    }
}

/// Checks the reciprocal parent and summary links of current consequences,
/// taken in the given order (stable control-id order): each parent and each
/// summarized child is present, links both ways, and is comparable.
pub fn validate_hierarchy(consequences: &Vec<ForecastConsequence>) -> (r: Result<(), ConstructionProjectError>)
    ensures
        hierarchy_check(consequences@, r),
{
    let ghost cs = consequences@;
    let mut i: usize = 0;
    while i < consequences.len()
        invariant
            cs == consequences@,
            i <= cs.len(),
            hierarchy_fault(cs, i as int) is None,
        decreases cs.len() - i,
    {
        let c = &consequences[i];
        match check_parent(consequences, c) {
            Ok(()) => {},
            Err(e) => {
                proof {
                    lemma_fault_stays(cs, i as int + 1, cs.len() as int);
                }
                return Err(e);
            },
        }
        let mut j: usize = 0;
        while j < c.summarizes.len()
            invariant
                cs == consequences@,
                i < cs.len(),
                *c == cs[i as int],
                hierarchy_fault(cs, i as int) is None,
                parent_fault(cs, *c) is None,
                j <= c.summarizes@.len(),
                children_fault(cs, *c, j as int) is None,
            decreases c.summarizes.len() - j,
        {
            match check_child(consequences, c, &c.summarizes[j]) {
                Ok(()) => {},
                Err(e) => {
                    proof {
                        lemma_child_fault_stays(cs, *c, j as int + 1, c.summarizes@.len() as int);
                        lemma_fault_stays(cs, i as int + 1, cs.len() as int);
                    }
                    return Err(e);
                },
            }
            j = j + 1;
        }
        i = i + 1;
    }
    Ok(())
}

/// A fault among the first `m` consequences is the first fault among the first `n >= m`.
proof fn lemma_fault_stays(cs: Seq<ForecastConsequence>, m: int, n: int)
    requires
        0 <= m <= n,
        hierarchy_fault(cs, m) is Some,
    ensures
        hierarchy_fault(cs, n) == hierarchy_fault(cs, m),
    decreases n - m,
{
    if m < n {
        lemma_fault_stays(cs, m, n - 1);
    }
}

proof fn lemma_child_fault_stays(cs: Seq<ForecastConsequence>, c: ForecastConsequence, m: int, n: int)
    requires
        0 <= m <= n,
        children_fault(cs, c, m) is Some,
    ensures
        children_fault(cs, c, n) == children_fault(cs, c, m),
    decreases n - m,
{
    if m < n {
        lemma_child_fault_stays(cs, c, m, n - 1);
    }
}

} // verus!
