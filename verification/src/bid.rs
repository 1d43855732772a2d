//! Bid/no-bid control records for construction project control.

use vstd::prelude::*;
use crate::date::ProjectDate;
use crate::error::ConstructionProjectError;
use crate::evidence::ExternalRef;
use crate::identity::{ControlId, ProjectId, RoleId};
use crate::text::{is_blank, text_is_blank};

verus! {

/// Accountable bid decision outcome.
#[derive(Clone, Copy, Debug, PartialEq, Eq, Structural)]
pub enum BidDecisionKind {
    /// Submit a bid.
    Bid,
    /// Decline the opportunity.
    NoBid,
    /// Submit only under named conditions.
    ConditionalBid,
}

/// Bid/no-bid decision with control basis references.
#[derive(Debug, PartialEq, Eq)]
pub struct BidDecision {
    /// Stable construction project identity.
    pub project: ProjectId,
    /// Bid decision control id.
    pub control: ControlId,
    /// Customer intent control used as the demand basis.
    pub intent: ControlId,
    /// Role accountable for the decision.
    pub authority: RoleId,
    /// Role that recorded the decision.
    pub decided_by: RoleId,
    /// Capacity and resource view.
    pub capacity_view: Vec<String>,
    /// Material risks.
    pub risks: Vec<String>,
    /// Material opportunities.
    pub opportunities: Vec<String>,
    /// Bid assumptions.
    pub assumptions: Vec<String>,
    /// Offer validity date, when an offer is made.
    pub valid_until: Option<ProjectDate>,
    /// Price basis reference-only evidence.
    pub price_basis: Vec<ExternalRef>,
    /// Schedule basis reference-only evidence.
    pub schedule_basis: Vec<ExternalRef>,
    /// Decision outcome.
    pub decision: BidDecisionKind,
    /// Reference-only evidence for the accountable decision.
    pub evidence: Vec<ExternalRef>,
}

/// Derived offer-basis status.
#[derive(Debug, PartialEq, Eq)]
pub struct OfferBasisReport {
    /// Bid decision control id.
    pub bid: ControlId,
    /// Date used for derivation.
    pub as_of_date: ProjectDate,
    /// True when the offer basis is past validity.
    pub expired: bool,
    /// Offer validity date.
    pub valid_until: Option<ProjectDate>,
    /// True when price basis evidence is attached.
    pub has_price_basis: bool,
    /// True when schedule basis evidence is attached.
    pub has_schedule_basis: bool,
}

/// Some entry is blank.
pub open spec fn any_blank(values: Seq<String>) -> bool {
    exists|i: int| 0 <= i < values.len() && is_blank((#[trigger] values[i])@)
}

/// What `validate_texts(values, field)` answers.
pub open spec fn texts_check(values: Seq<String>, field: &'static str, r: Result<(), ConstructionProjectError>) -> bool {
    if any_blank(values) {
        r == Err::<(), ConstructionProjectError>(ConstructionProjectError::EmptyField(field))
    } else {
        r is Ok
    }
}

/// What `validate_non_empty(values, field)` answers.
pub open spec fn non_empty_texts_check(values: Seq<String>, field: &'static str, r: Result<(), ConstructionProjectError>) -> bool {
    if values.len() == 0 {
        r == Err::<(), ConstructionProjectError>(ConstructionProjectError::EmptyCollection(field))
    } else {
        texts_check(values, field, r)
    }
}

/// Rejects a list holding a blank entry.
pub fn validate_texts(values: &Vec<String>, field: &'static str) -> (r: Result<(), ConstructionProjectError>)
    ensures
        texts_check(values@, field, r),
{
    let mut i: usize = 0;
    while i < values.len()
        invariant
            i <= values@.len(),
            forall|j: int| 0 <= j < i ==> !is_blank((#[trigger] values@[j])@),
        decreases values.len() - i,
    {
        if text_is_blank(values[i].as_str()) {
            return Err(ConstructionProjectError::EmptyField(field));
        }
        i = i + 1;
    }
    Ok(())
}

/// Rejects an empty list or one holding a blank entry.
pub fn validate_non_empty(values: &Vec<String>, field: &'static str) -> (r: Result<(), ConstructionProjectError>)
    ensures
        non_empty_texts_check(values@, field, r),
{
    if values.len() == 0 {
        return Err(ConstructionProjectError::EmptyCollection(field));
    }
    validate_texts(values, field)
}

/// The decision offers a bid, conditionally or not.
pub open spec fn offers(k: BidDecisionKind) -> bool {
    k == BidDecisionKind::Bid || k == BidDecisionKind::ConditionalBid
}

/// What `validate` answers for a bid decision: the first failed check in
/// the order authority, capacity view, risks, opportunities, assumptions,
/// evidence, and for an offer validity date, price basis, schedule basis.
pub open spec fn bid_check(b: BidDecision, r: Result<(), ConstructionProjectError>) -> bool {
    if b.decided_by@ != b.authority@ {
        r matches Err(ConstructionProjectError::DecisionAuthorityMismatch { decision, expected, actual })
            && decision == b.control && expected == b.authority && actual == b.decided_by
    } else if b.capacity_view@.len() == 0 || any_blank(b.capacity_view@) {
        non_empty_texts_check(b.capacity_view@, "bid.capacity_view", r)
    } else if b.risks@.len() == 0 || any_blank(b.risks@) {
        non_empty_texts_check(b.risks@, "bid.risks", r)
    } else if any_blank(b.opportunities@) {
        r == Err::<(), ConstructionProjectError>(ConstructionProjectError::EmptyField("bid.opportunities"))
    } else if any_blank(b.assumptions@) {
        r == Err::<(), ConstructionProjectError>(ConstructionProjectError::EmptyField("bid.assumptions"))
    } else if b.evidence@.len() == 0 {
        r == Err::<(), ConstructionProjectError>(ConstructionProjectError::EmptyCollection("bid.evidence"))
    } else if offers(b.decision) && b.valid_until is None {
        r == Err::<(), ConstructionProjectError>(ConstructionProjectError::EmptyField("bid.valid_until"))
    } else if offers(b.decision) && b.price_basis@.len() == 0 {
        r == Err::<(), ConstructionProjectError>(ConstructionProjectError::EmptyCollection("bid.price_basis"))
    } else if offers(b.decision) && b.schedule_basis@.len() == 0 {
        r == Err::<(), ConstructionProjectError>(ConstructionProjectError::EmptyCollection("bid.schedule_basis"))
    } else {
        r is Ok
    }
}

/// The offer-basis report for a valid bid decision as of a date.
pub open spec fn offer_basis(b: BidDecision, as_of: ProjectDate) -> OfferBasisReport {
    OfferBasisReport {
        bid: b.control,
        as_of_date: as_of,
        expired: b.valid_until matches Some(v) && as_of.julian_day > v.julian_day,
        valid_until: b.valid_until,
        has_price_basis: b.price_basis@.len() > 0,
        has_schedule_basis: b.schedule_basis@.len() > 0,
    }
}

impl BidDecision {
    /// Builds a bid decision.
    pub fn new(
        project: ProjectId,
        control: ControlId,
        intent: ControlId,
        authority: RoleId,
        decided_by: RoleId,
        decision: BidDecisionKind,
    ) -> (b: Self)
        ensures
            b.project == project,
            b.control == control,
            b.intent == intent,
            b.authority == authority,
            b.decided_by == decided_by,
            b.decision == decision,
            b.capacity_view@.len() == 0,
            b.risks@.len() == 0,
            b.opportunities@.len() == 0,
            b.assumptions@.len() == 0,
            b.valid_until is None,
            b.price_basis@.len() == 0,
            b.schedule_basis@.len() == 0,
            b.evidence@.len() == 0,
    {
        BidDecision {
            project,
            control,
            intent,
            authority,
            decided_by,
            capacity_view: Vec::new(),
            risks: Vec::new(),
            opportunities: Vec::new(),
            assumptions: Vec::new(),
            valid_until: None,
            price_basis: Vec::new(),
            schedule_basis: Vec::new(),
            decision,
            evidence: Vec::new(),
        }
    }

    /// Adds one capacity/resource note.
    pub fn with_capacity_view(self, value: &str) -> (b: Self)
        ensures
            b == (BidDecision { capacity_view: b.capacity_view, ..self }),
            b.capacity_view@.len() == self.capacity_view@.len() + 1,
            b.capacity_view@.drop_last() == self.capacity_view@,
            b.capacity_view@.last()@ == value@,
    {
        let mut b = self;
        b.capacity_view.push(value.to_owned());
        proof {
            assert(b.capacity_view@.drop_last() =~= self.capacity_view@);
        }
        b
    }

    /// Adds one material risk.
    pub fn with_risk(self, value: &str) -> (b: Self)
        ensures
            b == (BidDecision { risks: b.risks, ..self }),
            b.risks@.len() == self.risks@.len() + 1,
            b.risks@.drop_last() == self.risks@,
            b.risks@.last()@ == value@,
    {
        let mut b = self;
        b.risks.push(value.to_owned());
        proof {
            assert(b.risks@.drop_last() =~= self.risks@);
        }
        b
    }

    /// Adds one material opportunity.
    pub fn with_opportunity(self, value: &str) -> (b: Self)
        ensures
            b == (BidDecision { opportunities: b.opportunities, ..self }),
            b.opportunities@.len() == self.opportunities@.len() + 1,
            b.opportunities@.drop_last() == self.opportunities@,
            b.opportunities@.last()@ == value@,
    {
        let mut b = self;
        b.opportunities.push(value.to_owned());
        proof {
            assert(b.opportunities@.drop_last() =~= self.opportunities@);
        }
        b
    }

    /// Adds one bid assumption.
    pub fn with_assumption(self, value: &str) -> (b: Self)
        ensures
            b == (BidDecision { assumptions: b.assumptions, ..self }),
            b.assumptions@.len() == self.assumptions@.len() + 1,
            b.assumptions@.drop_last() == self.assumptions@,
            b.assumptions@.last()@ == value@,
    {
        let mut b = self;
        b.assumptions.push(value.to_owned());
        proof {
            assert(b.assumptions@.drop_last() =~= self.assumptions@);
        }
        b
    }

    /// Sets offer validity.
    pub fn valid_until(self, date: ProjectDate) -> (b: Self)
        ensures
            b == (BidDecision { valid_until: Some(date), ..self }),
    {
        let mut b = self;
        b.valid_until = Some(date);
        b
    }

    /// Adds a price basis reference.
    pub fn with_price_basis(self, evidence: ExternalRef) -> (b: Self)
        ensures
            b == (BidDecision { price_basis: b.price_basis, ..self }),
            b.price_basis@ == self.price_basis@.push(evidence),
    {
        let mut b = self;
        b.price_basis.push(evidence);
        b
    }

    /// Adds a schedule basis reference.
    pub fn with_schedule_basis(self, evidence: ExternalRef) -> (b: Self)
        ensures
            b == (BidDecision { schedule_basis: b.schedule_basis, ..self }),
            b.schedule_basis@ == self.schedule_basis@.push(evidence),
    {
        let mut b = self;
        b.schedule_basis.push(evidence);
        b
    }

    /// Adds decision evidence.
    pub fn with_evidence(self, evidence: ExternalRef) -> (b: Self)
        ensures
            b == (BidDecision { evidence: b.evidence, ..self }),
            b.evidence@ == self.evidence@.push(evidence),
    {
        let mut b = self;
        b.evidence.push(evidence);
        b
    }

    /// Validates authority, accountable basis, and offer-basis evidence.
    pub fn validate(&self) -> (r: Result<(), ConstructionProjectError>)
        ensures
            bid_check(*self, r),
    {
        if !self.decided_by.same(&self.authority) {
            return Err(ConstructionProjectError::DecisionAuthorityMismatch {
                decision: self.control.clone(),
                expected: self.authority.clone(),
                actual: self.decided_by.clone(),
            });
        }
        validate_non_empty(&self.capacity_view, "bid.capacity_view")?;
        validate_non_empty(&self.risks, "bid.risks")?;
        validate_texts(&self.opportunities, "bid.opportunities")?;
        validate_texts(&self.assumptions, "bid.assumptions")?;
        if self.evidence.len() == 0 {
            return Err(ConstructionProjectError::EmptyCollection("bid.evidence"));
        }
        if self.decision == BidDecisionKind::Bid || self.decision == BidDecisionKind::ConditionalBid {
            if self.valid_until.is_none() {
                return Err(ConstructionProjectError::EmptyField("bid.valid_until"));
            }
            if self.price_basis.len() == 0 {
                return Err(ConstructionProjectError::EmptyCollection("bid.price_basis"));
            }
            if self.schedule_basis.len() == 0 {
                return Err(ConstructionProjectError::EmptyCollection("bid.schedule_basis"));
            }
        }
        Ok(())
    }

    /// Derives whether the offer basis is still usable.
    pub fn offer_basis_report(&self, as_of_date: ProjectDate) -> (r: Result<OfferBasisReport, ConstructionProjectError>)
        ensures
            bid_check(*self, match r { Ok(_) => Ok(()), Err(e) => Err(e) }),
            r matches Ok(report) ==> report == offer_basis(*self, as_of_date),
    {
        match self.validate() {
            Ok(()) => {},
            Err(e) => {
                return Err(e);
            },
        }
        let expired = match self.valid_until {
            Some(valid_until) => valid_until.before(&as_of_date),
            None => false,
        };
        Ok(OfferBasisReport {
            bid: self.control.clone(),
            as_of_date,
            expired,
            valid_until: self.valid_until,
            has_price_basis: self.price_basis.len() > 0,
            has_schedule_basis: self.schedule_basis.len() > 0,
        })
    }
}

} // verus!
