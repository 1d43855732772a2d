//! Exact commercial components and reference-only external evidence.

use vstd::prelude::*;
use crate::charter::CurrencyCode;
use crate::date::ProjectDate;
use crate::error::ConstructionProjectError;
use crate::evidence::{EvidenceState, ExternalRef};
use crate::identity::ControlId;
use crate::text::{is_blank, text_is_blank};

verus! {

/// Commercial side of a construction change.
#[derive(Clone, Copy, Debug, PartialEq, Eq, Structural, PartialOrd, Ord)]
pub enum CommercialSide {
    /// Cost or settlement exposure toward a supplier.
    Supplier,
    /// Recovery, approval, or settlement value toward the customer.
    Customer,
}

/// Stable label of a commercial side.
pub open spec fn side_label(side: CommercialSide) -> Seq<char> {
    match side {
        CommercialSide::Supplier => "supplier"@,
        CommercialSide::Customer => "customer"@,
    }
}

impl CommercialSide {
    /// Returns the stable label of the side.
    pub fn label(self) -> (r: &'static str)
        ensures
            r@ == side_label(self),
    {
        proof {
            reveal_strlit("supplier");
            reveal_strlit("customer");
        }
        match self {
            CommercialSide::Supplier => "supplier",
            CommercialSide::Customer => "customer",
        }
    }
}

/// Exact fixed-decimal amount in minor units (two decimals) with its currency.
#[derive(Debug, PartialEq, Eq)]
pub struct CommercialAmount {
    /// Signed amount in minor units.
    pub amount: i64,
    /// Currency of the amount.
    pub currency: CurrencyCode,
}

/// What `validate_currency(field, charter)` answers for an amount.
pub open spec fn currency_check(
    currency: CurrencyCode,
    field: &'static str,
    charter: CurrencyCode,
    r: Result<(), ConstructionProjectError>,
) -> bool {
    if currency@ != charter@ {
        r matches Err(ConstructionProjectError::CurrencyMismatch { field: f, expected, actual })
            && f == field && expected@ == charter@ && actual@ == currency@
    } else {
        r is Ok
    }
}

impl CommercialAmount {
    /// Requires the amount to be in the project charter currency.
    pub fn validate_currency(&self, field: &'static str, charter_currency: &CurrencyCode) -> (r: Result<(), ConstructionProjectError>)
        ensures
            currency_check(self.currency, field, *charter_currency, r),
    {
        if !self.currency.same(charter_currency) {
            return Err(ConstructionProjectError::CurrencyMismatch {
                field,
                expected: charter_currency.as_str().to_owned(),
                actual: self.currency.as_str().to_owned(),
            });
        }
        Ok(())
    }
}

/// One exact amount component inside a stage-specific commercial fact.
#[derive(Debug, PartialEq, Eq)]
pub struct ChangeAmountComponent {
    /// Stable component identity within the stage fact.
    pub control: ControlId,
    /// Supplier cost or customer recovery side.
    pub side: CommercialSide,
    /// Open component category such as labor, material, time, or markup.
    pub category: String,
    /// Checked fixed-decimal amount in the project charter currency.
    pub amount: CommercialAmount,
    /// Optional grouping component; a fact must not total both parent and child.
    pub parent: Option<ControlId>,
}

/// What `validate(charter)` answers for one component.
pub open spec fn component_check(c: ChangeAmountComponent, charter: CurrencyCode, r: Result<(), ConstructionProjectError>) -> bool {
    if is_blank(c.category@) {
        r == Err::<(), ConstructionProjectError>(ConstructionProjectError::EmptyField("change.amount.category"))
    } else {
        currency_check(c.amount.currency, "change.amount", charter, r)
    }
}

/// The component passes its own checks.
pub open spec fn component_valid(c: ChangeAmountComponent, charter: CurrencyCode) -> bool {
    !is_blank(c.category@) && c.amount.currency@ == charter@
}

impl ChangeAmountComponent {
    /// Builds an exact commercial component.
    pub fn new(control: ControlId, side: CommercialSide, category: &str, amount: CommercialAmount) -> (c: Self)
        ensures
            c.control == control,
            c.side == side,
            c.category@ == category@,
            c.amount == amount,
            c.parent is None,
    {
        ChangeAmountComponent { control, side, category: category.to_owned(), amount, parent: None }
    }

    /// Records the grouping component that already summarizes this component.
    pub fn with_parent(self, parent: ControlId) -> (c: Self)
        ensures
            c == (ChangeAmountComponent { parent: Some(parent), ..self }),
    {
        let mut c = self;
        c.parent = Some(parent);
        c
    }

    /// Validates the category and the charter currency.
    pub fn validate(&self, charter_currency: &CurrencyCode) -> (r: Result<(), ConstructionProjectError>)
        ensures
            component_check(*self, *charter_currency, r),
    {
        if text_is_blank(self.category.as_str()) {
            return Err(ConstructionProjectError::EmptyField("change.amount.category"));
        }
        self.amount.validate_currency("change.amount", charter_currency)
    }
}

/// Component `i` fails its own checks or repeats an earlier control.
pub open spec fn component_fault(cs: Seq<ChangeAmountComponent>, charter: CurrencyCode, i: int) -> bool {
    &&& 0 <= i < cs.len()
    &&& !component_valid(cs[i], charter) || exists|j: int| 0 <= j < i && (#[trigger] cs[j]).control@ == cs[i].control@
}

/// Some component has control `x`.
pub open spec fn has_component(cs: Seq<ChangeAmountComponent>, x: Seq<char>) -> bool {
    exists|j: int| 0 <= j < cs.len() && (#[trigger] cs[j]).control@ == x
}

/// Component `i` names as parent another component of the same fact.
pub open spec fn double_counted(cs: Seq<ChangeAmountComponent>, i: int) -> bool {
    0 <= i < cs.len() && (cs[i].parent matches Some(p) && has_component(cs, p@))
}

/// What `validate_components(cs, charter)` answers: the first component
/// that fails its checks or repeats a control, else the first component
/// whose parent is also a component, else success.
pub open spec fn components_check(cs: Seq<ChangeAmountComponent>, charter: CurrencyCode, r: Result<(), ConstructionProjectError>) -> bool {
    if exists|i: int| #[trigger] component_fault(cs, charter, i) {
        exists|i: int| #[trigger] component_fault(cs, charter, i)
            && (forall|j: int| 0 <= j < i ==> !#[trigger] component_fault(cs, charter, j))
            && if !component_valid(cs[i], charter) {
                component_check(cs[i], charter, r)
            } else {
                r matches Err(ConstructionProjectError::DuplicateId { kind, id })
                    && kind == "change_amount_component" && id@ == cs[i].control@
            }
    } else if exists|i: int| #[trigger] double_counted(cs, i) {
        exists|i: int| #[trigger] double_counted(cs, i)
            && (forall|j: int| 0 <= j < i ==> !#[trigger] double_counted(cs, j))
            && (r matches Err(ConstructionProjectError::ChangeAmountDoubleCount { parent, child })
                && Some(parent) == cs[i].parent && child == cs[i].control)
    } else {
        r is Ok
    }
}

fn has_component_exec(cs: &Vec<ChangeAmountComponent>, x: &ControlId) -> (b: bool)
    ensures
        b == has_component(cs@, x@),
{
    let mut j: usize = 0;
    while j < cs.len()
        invariant
            j <= cs@.len(),
            forall|q: int| 0 <= q < j ==> (#[trigger] cs@[q]).control@ != x@,
        decreases cs.len() - j,
    {
        if cs[j].control.same(x) {
            return true;
        }
        j = j + 1;
    }
    false
}

/// Validates every component of a fact, rejects repeated controls, and
/// rejects a fact that totals both a parent and one of its children.
pub fn validate_components(components: &Vec<ChangeAmountComponent>, charter_currency: &CurrencyCode) -> (r: Result<(), ConstructionProjectError>)
    ensures
        components_check(components@, *charter_currency, r),
{
    let ghost cs = components@;
    let mut i: usize = 0;
    while i < components.len()
        invariant
            cs == components@,
            i <= cs.len(),
            forall|j: int| 0 <= j < i ==> !#[trigger] component_fault(cs, *charter_currency, j),
        decreases cs.len() - i,
    {
        match components[i].validate(charter_currency) {
            Ok(()) => {},
            Err(e) => {
                proof {
                    assert(component_fault(cs, *charter_currency, i as int));
                }
                return Err(e);
            },
        }
        let mut j: usize = 0;
        while j < i
            invariant
                cs == components@,
                i < cs.len(),
                j <= i,
                component_valid(cs[i as int], *charter_currency),
                forall|q: int| 0 <= q < i ==> !#[trigger] component_fault(cs, *charter_currency, q),
                forall|q: int| 0 <= q < j ==> (#[trigger] cs[q]).control@ != cs[i as int].control@,
            decreases i - j,
        {
            if components[j].control.same(&components[i].control) {
                proof {
                    assert(component_fault(cs, *charter_currency, i as int));
                }
                return Err(ConstructionProjectError::DuplicateId {
                    kind: "change_amount_component",
                    id: components[i].control.as_str().to_owned(),
                });
            }
            j = j + 1;
        }
        proof {
            assert(!component_fault(cs, *charter_currency, i as int));
        }
        i = i + 1;
    }
    proof {
        assert forall|j: int| !#[trigger] component_fault(cs, *charter_currency, j) by {
            if 0 <= j < cs.len() {
            }
        }
    }
    let mut k: usize = 0;
    while k < components.len()
        invariant
            cs == components@,
            k <= cs.len(),
            forall|j: int| !#[trigger] component_fault(cs, *charter_currency, j),
            forall|j: int| 0 <= j < k ==> !#[trigger] double_counted(cs, j),
        decreases cs.len() - k,
    {
        match &components[k].parent {
            Some(parent) => {
                if has_component_exec(components, parent) {
                    proof {
                        assert(double_counted(cs, k as int));
                    }
                    return Err(ConstructionProjectError::ChangeAmountDoubleCount {
                        parent: parent.clone(),
                        child: components[k].control.clone(),
                    });
                }
            },
            None => {},
        }
        proof {
            assert(!double_counted(cs, k as int));
        }
        k = k + 1;
    }
    proof {
        assert forall|j: int| !#[trigger] double_counted(cs, j) by {
            if 0 <= j < cs.len() {
            }
        }
    }
    Ok(())
}

/// Sum of the amounts on `side` among the first `n` components.
pub open spec fn side_total(cs: Seq<ChangeAmountComponent>, side: CommercialSide, n: int) -> int
    decreases n,
{
    if n <= 0 || n > cs.len() {
        0
    } else {
        side_total(cs, side, n - 1) + (if cs[n - 1].side == side { cs[n - 1].amount.amount as int } else { 0 })
    }
}

/// Every running total on `side` fits in an `i64`.
pub open spec fn side_total_fits(cs: Seq<ChangeAmountComponent>, side: CommercialSide) -> bool {
    forall|n: int| 0 <= n <= cs.len() ==> i64::MIN <= #[trigger] side_total(cs, side, n) <= i64::MAX
}

/// Adds the amounts on one side with checked arithmetic; overflow of any
/// running total is an error naming `field`.
pub fn checked_total(components: &Vec<ChangeAmountComponent>, side: CommercialSide, field: &'static str) -> (r: Result<i64, ConstructionProjectError>)
    ensures
        r is Ok <==> side_total_fits(components@, side),
        r matches Ok(t) ==> t == side_total(components@, side, components@.len() as int),
        r matches Err(e) ==> e == (ConstructionProjectError::AmountOverflow { field }),
{
    let ghost cs = components@;
    let mut total: i64 = 0;
    let mut i: usize = 0;
    while i < components.len()
        invariant
            cs == components@,
            i <= cs.len(),
            total == side_total(cs, side, i as int),
            forall|n: int| 0 <= n <= i ==> i64::MIN <= #[trigger] side_total(cs, side, n) <= i64::MAX,
        decreases cs.len() - i,
    {
        if components[i].side == side {
            match total.checked_add(components[i].amount.amount) {
                Some(t) => {
                    total = t;
                },
                None => {
                    proof {
                        assert(side_total(cs, side, i + 1) == total + cs[i as int].amount.amount);
                        assert(!side_total_fits(cs, side));
                    }
                    return Err(ConstructionProjectError::AmountOverflow { field });
                },
            }
        }
        proof {
            assert(side_total(cs, side, i + 1) == total);
        }
        i = i + 1;
    }
    Ok(total)
}

/// External source class for a referenced commercial value.
#[derive(Clone, Copy, Debug, PartialEq, Eq, Structural)]
pub enum CommercialEvidenceSource {
    /// A value stated by a document; existence is not approval.
    Document,
    /// A balance read from the ledger owner; the construction layer never posts it.
    LedgerBalance,
}

/// Exact signed value observed in an external source.
#[derive(Debug, PartialEq, Eq)]
pub struct ReferencedAmount {
    /// Signed fixed-decimal value in minor units reported by the source.
    pub amount: i64,
    /// Currency reported by the source.
    pub currency: CurrencyCode,
}

impl Clone for ReferencedAmount {
    fn clone(&self) -> (r: Self)
        ensures
            r == *self,
    {
        ReferencedAmount { amount: self.amount, currency: self.currency.clone() }
    }
}

impl ReferencedAmount {
    /// Builds a signed reference value without turning it into a project decision.
    pub fn new(amount: i64, currency: CurrencyCode) -> (r: Self)
        ensures
            r == (ReferencedAmount { amount, currency }),
    {
        ReferencedAmount { amount, currency }
    }
}

/// Versioned, dated evidence about an external document value or ledger balance.
///
/// Acceptance applies to this evidence record only. It never means that a
/// quotation was approved, a journal was posted, or a settlement was paid.
#[derive(Debug, PartialEq, Eq)]
pub struct ReferencedAmountEvidence {
    /// Whether the source is a document or a ledger-owned balance.
    pub source: CommercialEvidenceSource,
    /// Reference to the source-owned record.
    pub reference: ExternalRef,
    /// Date at which the external value was observed.
    pub as_of: ProjectDate,
    /// Optional exact value reported by that source.
    pub stated_value: Option<ReferencedAmount>,
    /// Evidence review state, separate from commercial authority.
    pub evidence_state: EvidenceState,
}

impl Clone for ReferencedAmountEvidence {
    fn clone(&self) -> (r: Self)
        ensures
            r == *self,
    {
        let stated_value = match &self.stated_value {
            Some(v) => Some(v.clone()),
            None => None,
        };
        ReferencedAmountEvidence {
            source: self.source,
            reference: self.reference.clone(),
            as_of: self.as_of,
            stated_value,
            evidence_state: self.evidence_state,
        }
    }
}

/// What `validate(charter)` answers for referenced evidence.
pub open spec fn referenced_check(e: ReferencedAmountEvidence, charter: CurrencyCode, r: Result<(), ConstructionProjectError>) -> bool {
    if is_blank(e.reference.backend@) {
        r == Err::<(), ConstructionProjectError>(ConstructionProjectError::EmptyField("change.reference.backend"))
    } else if is_blank(e.reference.external_id@) {
        r == Err::<(), ConstructionProjectError>(ConstructionProjectError::EmptyField("change.reference.external_id"))
    } else if e.reference.version is None || is_blank(e.reference.version->0@) {
        r matches Err(ConstructionProjectError::MissingChangeAsOfMarker { reference }) && reference@
            == e.reference.external_id@
    } else if e.stated_value matches Some(v) && v.currency@ != charter@ {
        r matches Err(ConstructionProjectError::CurrencyMismatch { field, expected, actual })
            && field == "change.reference.stated_value" && expected@ == charter@ && actual@
            == e.stated_value->0.currency@
    } else {
        r is Ok
    }
}

impl ReferencedAmountEvidence {
    /// Builds reference-only external evidence.
    pub fn new(source: CommercialEvidenceSource, reference: ExternalRef, as_of: ProjectDate, evidence_state: EvidenceState) -> (e: Self)
        ensures
            e == (ReferencedAmountEvidence { source, reference, as_of, stated_value: None, evidence_state }),
    {
        ReferencedAmountEvidence { source, reference, as_of, stated_value: None, evidence_state }
    }

    /// Records the exact value reported by the external source.
    pub fn with_stated_value(self, value: ReferencedAmount) -> (e: Self)
        ensures
            e == (ReferencedAmountEvidence { stated_value: Some(value), ..self }),
    {
        let mut e = self;
        e.stated_value = Some(value);
        e
    }

    /// Validates the reference, its as-of marker, and the stated currency.
    pub fn validate(&self, charter_currency: &CurrencyCode) -> (r: Result<(), ConstructionProjectError>)
        ensures
            referenced_check(*self, *charter_currency, r),
    {
        if text_is_blank(self.reference.backend.as_str()) {
            return Err(ConstructionProjectError::EmptyField("change.reference.backend"));
        }
        if text_is_blank(self.reference.external_id.as_str()) {
            return Err(ConstructionProjectError::EmptyField("change.reference.external_id"));
        }
        let marked = match &self.reference.version {
            Some(version) => !text_is_blank(version.as_str()),
            None => false,
        };
        if !marked {
            return Err(ConstructionProjectError::MissingChangeAsOfMarker { reference: self.reference.external_id.clone() });
        }
        match &self.stated_value {
            Some(value) => {
                if !value.currency.same(charter_currency) {
                    return Err(ConstructionProjectError::CurrencyMismatch {
                        field: "change.reference.stated_value",
                        expected: charter_currency.as_str().to_owned(),
                        actual: value.currency.as_str().to_owned(),
                    });
                }
            },
            None => {},
        }
        Ok(())
    }
}

} // verus!
