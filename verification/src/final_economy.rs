//! Exact, as-of construction final-economy control.

use vstd::prelude::*;
use vstd::seq_lib::{to_multiset_build, to_multiset_insert};
use crate::charter::CurrencyCode;
use crate::commercial::CommercialEvidenceSource;
use crate::date::ProjectDate;
use crate::error::ConstructionProjectError;
use crate::evidence::{EvidenceState, ExternalRef};
use crate::identity::{ControlId, ProjectId};
use crate::order::{
    id_set, ids_sorted, insert_id, lemma_lex_asymmetric, lemma_lex_irreflexive, lemma_lex_total, lemma_lex_transitive,
    lex_lt, text_precedes,
};
use crate::text::{is_blank, text_is_blank};

verus! {

/// Commercial meaning carried by one final-economy amount fact.
#[derive(Clone, Copy, Debug, PartialEq, Eq, Structural, PartialOrd, Ord)]
pub enum FinalEconomyFactKind {
    /// Accepted main-contract value.
    AcceptedContract,
    /// Current project forecast.
    CurrentForecast,
    /// Accountably stated final position.
    FinalPosition,
    /// Current open-change exposure.
    OpenChange,
    /// Customer-side settlement.
    CustomerSettlement,
    /// Supplier-side settlement.
    SupplierSettlement,
    /// Outstanding guarantee exposure.
    Guarantee,
    /// Outstanding retention exposure.
    Retention,
    /// Outstanding customer or supplier claim.
    Claim,
    /// Read-only balance observed from the ledger owner.
    LedgerBalance,
}

/// Kinds that hold an exposure a settlement must discharge.
pub open spec fn exposure_kind(k: FinalEconomyFactKind) -> bool {
    k == FinalEconomyFactKind::OpenChange || k == FinalEconomyFactKind::Guarantee || k == FinalEconomyFactKind::Retention
        || k == FinalEconomyFactKind::Claim
}

/// Kinds that settle exposures.
pub open spec fn settlement_kind(k: FinalEconomyFactKind) -> bool {
    k == FinalEconomyFactKind::CustomerSettlement || k == FinalEconomyFactKind::SupplierSettlement
}

impl FinalEconomyFactKind {
    /// Returns whether the kind holds an exposure.
    pub fn is_exposure(self) -> (b: bool)
        ensures
            b == exposure_kind(self),
    {
        self == FinalEconomyFactKind::OpenChange || self == FinalEconomyFactKind::Guarantee || self
            == FinalEconomyFactKind::Retention || self == FinalEconomyFactKind::Claim
    }

    /// Returns whether the kind settles exposures.
    pub fn is_settlement(self) -> (b: bool)
        ensures
            b == settlement_kind(self),
    {
        self == FinalEconomyFactKind::CustomerSettlement || self == FinalEconomyFactKind::SupplierSettlement
    }
}

/// One checked fixed-decimal amount retained as an as-of project fact.
#[derive(Debug, PartialEq, Eq)]
pub struct FinalEconomyAmountFact {
    /// Stable project identity.
    pub project: ProjectId,
    /// Stable amount-fact identity.
    pub id: ControlId,
    /// Commercial meaning of the amount.
    pub kind: FinalEconomyFactKind,
    /// Exact signed amount in minor units.
    pub amount: i64,
    /// Project-charter currency.
    pub currency: CurrencyCode,
    /// Date on which the amount was stated.
    pub as_of: ProjectDate,
    /// Project fact sequence supporting this amount.
    pub fact_seq: u64,
    /// Accountable evidence review state.
    pub evidence_state: EvidenceState,
    /// Whether the source is a document or a read-only ledger balance.
    pub source: CommercialEvidenceSource,
    /// Versioned reference to the source-owned evidence.
    pub reference: ExternalRef,
    /// Prior amount fact corrected by this fact.
    pub supersedes: Option<ControlId>,
    /// Exposure facts discharged by this settlement fact.
    pub settles: Vec<ControlId>,
}

/// Two amount facts hold the same values.
pub open spec fn fact_same(a: FinalEconomyAmountFact, b: FinalEconomyAmountFact) -> bool {
    &&& a.project == b.project
    &&& a.id == b.id
    &&& a.kind == b.kind
    &&& a.amount == b.amount
    &&& a.currency == b.currency
    &&& a.as_of == b.as_of
    &&& a.fact_seq == b.fact_seq
    &&& a.evidence_state == b.evidence_state
    &&& a.source == b.source
    &&& a.reference == b.reference
    &&& a.supersedes == b.supersedes
    &&& a.settles@ == b.settles@
}

impl Clone for FinalEconomyAmountFact {
    fn clone(&self) -> (r: Self)
        ensures
            fact_same(r, *self),
    {
        let settles = self.settles.clone();
        proof {
            assert(settles@ =~= self.settles@);
        }
        let supersedes = match &self.supersedes {
            Some(p) => Some(p.clone()),
            None => None,
        };
        FinalEconomyAmountFact {
            project: self.project.clone(),
            id: self.id.clone(),
            kind: self.kind,
            amount: self.amount,
            currency: self.currency.clone(),
            as_of: self.as_of,
            fact_seq: self.fact_seq,
            evidence_state: self.evidence_state,
            source: self.source,
            reference: self.reference.clone(),
            supersedes,
            settles,
        }
    }
}

impl FinalEconomyAmountFact {
    /// Builds an exact amount fact without inferring approval, journal, or payment state.
    pub fn new(
        project: ProjectId,
        id: ControlId,
        kind: FinalEconomyFactKind,
        amount: i64,
        currency: CurrencyCode,
        as_of: ProjectDate,
        fact_seq: u64,
        source: CommercialEvidenceSource,
        reference: ExternalRef,
    ) -> (f: Self)
        ensures
            f.project == project,
            f.id == id,
            f.kind == kind,
            f.amount == amount,
            f.currency == currency,
            f.as_of == as_of,
            f.fact_seq == fact_seq,
            f.evidence_state == EvidenceState::Reported,
            f.source == source,
            f.reference == reference,
            f.supersedes is None,
            f.settles@.len() == 0,
    {
        FinalEconomyAmountFact {
            project,
            id,
            kind,
            amount,
            currency,
            as_of,
            fact_seq,
            evidence_state: EvidenceState::Reported,
            source,
            reference,
            supersedes: None,
            settles: Vec::new(),
        }
    }

    /// Sets the accountable evidence state.
    pub fn with_evidence_state(self, state: EvidenceState) -> (f: Self)
        ensures
            f == (FinalEconomyAmountFact { evidence_state: state, ..self }),
    {
        let mut f = self;
        f.evidence_state = state;
        f
    }

    /// Corrects one prior amount fact.
    pub fn supersedes(self, prior: ControlId) -> (f: Self)
        ensures
            f == (FinalEconomyAmountFact { supersedes: Some(prior), ..self }),
    {
        let mut f = self;
        f.supersedes = Some(prior);
        f
    }

    /// Records an exposure discharged by this settlement.
    pub fn settles(self, exposure: ControlId) -> (f: Self)
        ensures
            f == (FinalEconomyAmountFact { settles: f.settles, ..self }),
            f.settles@ == self.settles@.push(exposure),
    {
        let mut f = self;
        f.settles.push(exposure);
        f
    }
}

/// Reproducible date, sequence, and explanation behind a final-economy view.
#[derive(Debug, PartialEq, Eq)]
pub struct FinalEconomyBasis {
    /// Inclusive project fact sequence.
    pub through_seq: u64,
    /// Commercial reporting date.
    pub as_of: ProjectDate,
    /// Named source and cutoff explanation.
    pub explanation: String,
}

impl Clone for FinalEconomyBasis {
    fn clone(&self) -> (r: Self)
        ensures
            r == *self,
    {
        FinalEconomyBasis { through_seq: self.through_seq, as_of: self.as_of, explanation: self.explanation.clone() }
    }
}

impl FinalEconomyBasis {
    /// Builds an explicit as-of basis.
    pub fn new(through_seq: u64, as_of: ProjectDate, explanation: &str) -> (b: Self)
        ensures
            b.through_seq == through_seq,
            b.as_of == as_of,
            b.explanation@ == explanation@,
    {
        FinalEconomyBasis { through_seq, as_of, explanation: explanation.to_owned() }
    }
}

/// Explicit comparison between the final position and ledger-owned evidence.
#[derive(Debug, PartialEq, Eq)]
pub struct FinalEconomyReconciliation {
    /// Final-position fact being reconciled.
    pub final_position: ControlId,
    /// Ledger-balance fact used as read-only evidence.
    pub ledger_balance: ControlId,
    /// Human-readable explanation of scope, cutoff, and reconciling items.
    pub explanation: String,
}

impl FinalEconomyReconciliation {
    /// Builds an explicit reconciliation pair.
    pub fn new(final_position: ControlId, ledger_balance: ControlId, explanation: &str) -> (r: Self)
        ensures
            r.final_position == final_position,
            r.ledger_balance == ledger_balance,
            r.explanation@ == explanation@,
    {
        FinalEconomyReconciliation { final_position, ledger_balance, explanation: explanation.to_owned() }
    }
}

/// Reason the final-economy report is not ready for closeout.
#[derive(Debug, PartialEq, Eq)]
pub enum FinalEconomyBlocker {
    /// A required current fact kind is absent.
    MissingKind(FinalEconomyFactKind),
    /// More than one non-superseded fact claims a singular kind.
    ConflictingKind(FinalEconomyFactKind),
    /// A current amount fact lacks accepted evidence.
    EvidenceNotAccepted {
        /// Blocked fact.
        fact: ControlId,
        /// Current evidence state.
        state: EvidenceState,
    },
    /// A current exposure is not discharged by a current accepted settlement.
    UnsettledExposure(ControlId),
    /// A settlement names a missing or non-exposure fact.
    UnknownSettlementTarget(ControlId),
    /// The explicit reconciliation references the wrong fact kind.
    InvalidReconciliationFact(ControlId),
    /// Final position and ledger balance differ exactly.
    LedgerMismatch {
        /// Final-position value.
        final_position: i64,
        /// Ledger-observed value.
        ledger_balance: i64,
    },
}

/// Checked total of one commercial meaning.
#[derive(Clone, Copy, Debug, PartialEq, Eq)]
pub struct FinalEconomyTotal {
    /// Commercial meaning totaled.
    pub kind: FinalEconomyFactKind,
    /// Checked exact total in minor units.
    pub amount: i64,
}

/// Final-economy facts plus their explicit cutoff and reconciliation.
#[derive(Debug, PartialEq, Eq)]
pub struct FinalEconomyControl {
    /// Stable project identity.
    pub project: ProjectId,
    /// Project-charter currency.
    pub currency: CurrencyCode,
    /// Reproducible reporting cutoff.
    pub basis: FinalEconomyBasis,
    /// Explicit final-position to ledger comparison.
    pub reconciliation: FinalEconomyReconciliation,
    /// Append-only corrected amount facts.
    pub facts: Vec<FinalEconomyAmountFact>,
}

/// What checking the basis and reconciliation answers.
pub open spec fn shape_check(c: FinalEconomyControl, r: Result<(), ConstructionProjectError>) -> bool {
    if c.basis.through_seq == 0 {
        r matches Err(ConstructionProjectError::InvalidSequence { field, sequence }) && field == "final_economy.basis"
            && sequence == 0
    } else if is_blank(c.basis.explanation@) {
        r == Err::<(), ConstructionProjectError>(ConstructionProjectError::EmptyField("final_economy.basis.explanation"))
    } else if is_blank(c.reconciliation.explanation@) {
        r == Err::<(), ConstructionProjectError>(ConstructionProjectError::EmptyField("final_economy.reconciliation.explanation"))
    } else {
        r is Ok
    }
}

/// The reference names a backend, a record and a non-blank version.
pub open spec fn reference_complete(e: ExternalRef) -> bool {
    !is_blank(e.backend@) && !is_blank(e.external_id@) && (e.version matches Some(v) && !is_blank(v@))
}

/// What checking one amount fact against its control answers.
pub open spec fn amount_fact_check(f: FinalEconomyAmountFact, c: FinalEconomyControl, r: Result<(), ConstructionProjectError>) -> bool {
    if f.project@ != c.project@ {
        r matches Err(ConstructionProjectError::ProjectMismatch { expected, actual }) && expected == c.project
            && actual == f.project
    } else if f.currency@ != c.currency@ {
        r matches Err(ConstructionProjectError::CurrencyMismatch { field, expected, actual })
            && field == "final_economy.amount" && expected@ == c.currency@ && actual@ == f.currency@
    } else if f.fact_seq == 0 || f.fact_seq > c.basis.through_seq {
        r matches Err(ConstructionProjectError::InvalidSequence { field, sequence }) && field == "final_economy.fact"
            && sequence == f.fact_seq
    } else if f.as_of.julian_day > c.basis.as_of.julian_day {
        r == Err::<(), ConstructionProjectError>(ConstructionProjectError::EmptyField("final_economy.fact.as_of"))
    } else if !reference_complete(f.reference) {
        r == Err::<(), ConstructionProjectError>(ConstructionProjectError::EmptyField("final_economy.fact.reference"))
    } else if !settlement_kind(f.kind) && f.settles@.len() > 0 {
        r == Err::<(), ConstructionProjectError>(ConstructionProjectError::EmptyCollection("final_economy.non_settlement.settles"))
    } else {
        r is Ok
    }
}

/// The amount fact passes its checks.
pub open spec fn amount_fact_ok(f: FinalEconomyAmountFact, c: FinalEconomyControl) -> bool {
    amount_fact_check(f, c, Ok(()))
}

/// Fact `k` fails its checks or repeats an earlier id.
pub open spec fn economy_fact_fault(c: FinalEconomyControl, k: int) -> bool {
    let fs = c.facts@;
    &&& 0 <= k < fs.len()
    &&& !amount_fact_ok(fs[k], c) || exists|j: int| 0 <= j < k && (#[trigger] fs[j]).id@ == fs[k].id@
}

/// Position of the fact with id `x`.
pub open spec fn economy_fact_with(fs: Seq<FinalEconomyAmountFact>, x: Seq<char>) -> int {
    choose|j: int| 0 <= j < fs.len() && (#[trigger] fs[j]).id@ == x
}

/// Some fact has id `x`.
pub open spec fn has_economy_fact(fs: Seq<FinalEconomyAmountFact>, x: Seq<char>) -> bool {
    exists|j: int| 0 <= j < fs.len() && (#[trigger] fs[j]).id@ == x
}

/// The correction carried by fact `k` is refused.
pub open spec fn economy_supersession_fault(fs: Seq<FinalEconomyAmountFact>, k: int) -> bool {
    &&& 0 <= k < fs.len()
    &&& fs[k].supersedes is Some
    &&& {
        let p = fs[k].supersedes->0@;
        ||| !has_economy_fact(fs, p)
        ||| {
            let prior = fs[economy_fact_with(fs, p)];
            prior.kind != fs[k].kind || prior.fact_seq >= fs[k].fact_seq
        }
        ||| exists|j: int| 0 <= j < k && ((#[trigger] fs[j]).supersedes matches Some(q) && q@ == p)
    }
}

/// What checking the facts of a control answers: the first faulty fact,
/// then the first refused correction.
pub open spec fn economy_facts_check(c: FinalEconomyControl, r: Result<(), ConstructionProjectError>) -> bool {
    let fs = c.facts@;
    if exists|k: int| #[trigger] economy_fact_fault(c, k) {
        exists|k: int| #[trigger] economy_fact_fault(c, k) && (forall|j: int| 0 <= j < k ==> !#[trigger] economy_fact_fault(c, j))
            && if !amount_fact_ok(fs[k], c) {
                amount_fact_check(fs[k], c, r)
            } else {
                r matches Err(ConstructionProjectError::DuplicateId { kind, id }) && kind == "final_economy_fact"
                    && id@ == fs[k].id@
            }
    } else if exists|k: int| #[trigger] economy_supersession_fault(fs, k) {
        exists|k: int| #[trigger] economy_supersession_fault(fs, k) && (forall|j: int| 0 <= j < k ==> !#[trigger] economy_supersession_fault(fs, j))
            && if !has_economy_fact(fs, fs[k].supersedes->0@) {
                r == Err::<(), ConstructionProjectError>(ConstructionProjectError::EmptyField("final_economy.supersedes"))
            } else if {
                let prior = fs[economy_fact_with(fs, fs[k].supersedes->0@)];
                prior.kind != fs[k].kind || prior.fact_seq >= fs[k].fact_seq
            } {
                r == Err::<(), ConstructionProjectError>(ConstructionProjectError::EmptyField("final_economy.supersession"))
            } else {
                r matches Err(ConstructionProjectError::DuplicateId { kind, id }) && kind == "final_economy_supersession"
                    && id@ == fs[k].supersedes->0@
            }
    } else {
        r is Ok
    }
}

/// No two facts share an id.
pub open spec fn economy_ids_unique(fs: Seq<FinalEconomyAmountFact>) -> bool {
    forall|i: int, j: int| 0 <= i < j < fs.len() ==> (#[trigger] fs[i]).id@ != (#[trigger] fs[j]).id@
}

impl FinalEconomyControl {
    /// Builds an empty final-economy control.
    pub fn new(project: ProjectId, currency: CurrencyCode, basis: FinalEconomyBasis, reconciliation: FinalEconomyReconciliation) -> (c: Self)
        ensures
            c.project == project,
            c.currency == currency,
            c.basis == basis,
            c.reconciliation == reconciliation,
            c.facts@.len() == 0,
    {
        FinalEconomyControl { project, currency, basis, reconciliation, facts: Vec::new() }
    }

    /// Adds one amount fact.
    pub fn with_fact(self, fact: FinalEconomyAmountFact) -> (c: Self)
        ensures
            c.project == self.project,
            c.currency == self.currency,
            c.basis == self.basis,
            c.reconciliation == self.reconciliation,
            c.facts@ == self.facts@.push(fact),
    {
        let mut c = self;
        c.facts.push(fact);
        c
    }

    /// Checks the basis sequence and both explanations.
    pub fn validate_shape(&self) -> (r: Result<(), ConstructionProjectError>)
        ensures
            shape_check(*self, r),
    {
        if self.basis.through_seq == 0 {
            return Err(ConstructionProjectError::InvalidSequence { field: "final_economy.basis", sequence: 0 });
        }
        if text_is_blank(self.basis.explanation.as_str()) {
            return Err(ConstructionProjectError::EmptyField("final_economy.basis.explanation"));
        }
        if text_is_blank(self.reconciliation.explanation.as_str()) {
            return Err(ConstructionProjectError::EmptyField("final_economy.reconciliation.explanation"));
        }
        Ok(())
    }

    /// Checks one amount fact against the control's project, currency,
    /// cutoff, reference rules and settlement shape.
    pub fn validate_fact(&self, fact: &FinalEconomyAmountFact) -> (r: Result<(), ConstructionProjectError>)
        ensures
            amount_fact_check(*fact, *self, r),
    {
        if !fact.project.same(&self.project) {
            return Err(ConstructionProjectError::ProjectMismatch { expected: self.project.clone(), actual: fact.project.clone() });
        }
        if !fact.currency.same(&self.currency) {
            return Err(ConstructionProjectError::CurrencyMismatch {
                field: "final_economy.amount",
                expected: self.currency.as_str().to_owned(),
                actual: fact.currency.as_str().to_owned(),
            });
        }
        if fact.fact_seq == 0 || fact.fact_seq > self.basis.through_seq {
            return Err(ConstructionProjectError::InvalidSequence { field: "final_economy.fact", sequence: fact.fact_seq });
        }
        if self.basis.as_of.before(&fact.as_of) {
            return Err(ConstructionProjectError::EmptyField("final_economy.fact.as_of"));
        }
        let versioned = match &fact.reference.version {
            Some(v) => !text_is_blank(v.as_str()),
            None => false,
        };
        if text_is_blank(fact.reference.backend.as_str()) || text_is_blank(fact.reference.external_id.as_str()) || !versioned {
            return Err(ConstructionProjectError::EmptyField("final_economy.fact.reference"));
        }
        if !fact.kind.is_settlement() && fact.settles.len() > 0 {
            return Err(ConstructionProjectError::EmptyCollection("final_economy.non_settlement.settles"));
        }
        Ok(())
    }

    fn find_fact(&self, id: &ControlId) -> (r: Option<usize>)
        requires
            economy_ids_unique(self.facts@),
        ensures
            r is None <==> !has_economy_fact(self.facts@, id@),
            r matches Some(j) ==> j == economy_fact_with(self.facts@, id@) && j < self.facts@.len(),
    {
        let mut i: usize = 0;
        while i < self.facts.len()
            invariant
                economy_ids_unique(self.facts@),
                i <= self.facts@.len(),
                forall|j: int| 0 <= j < i ==> (#[trigger] self.facts@[j]).id@ != id@,
            decreases self.facts.len() - i,
        {
            if self.facts[i].id.same(id) {
                proof {
                    let c = economy_fact_with(self.facts@, id@);
                    assert(self.facts@[c].id@ == id@);
                    if c != i as int {
                        if c < i {
                            assert(self.facts@[c].id@ != self.facts@[i as int].id@);
                        } else {
                            assert(self.facts@[i as int].id@ != self.facts@[c].id@);
                        }
                    }
                }
                return Some(i);
            }
            i = i + 1;
        }
        None
    }

    /// Checks every fact, unique ids, and every correction.
    pub fn check_facts(&self) -> (r: Result<(), ConstructionProjectError>)
        ensures
            economy_facts_check(*self, r),
    {
        let ghost fs = self.facts@;
        let ghost c = *self;
        let mut k: usize = 0;
        while k < self.facts.len()
            invariant
                fs == self.facts@,
                c == *self,
                k <= fs.len(),
                forall|j: int| 0 <= j < k ==> !#[trigger] economy_fact_fault(c, j),
            decreases fs.len() - k,
        {
            let checked = self.validate_fact(&self.facts[k]);
            match checked {
                Ok(()) => {},
                Err(e) => {
                    proof {
                        assert(economy_fact_fault(c, k as int));
                    }
                    return Err(e);
                },
            }
            let mut j: usize = 0;
            while j < k
                invariant
                    fs == self.facts@,
                    c == *self,
                    k < fs.len(),
                    j <= k,
                    amount_fact_ok(fs[k as int], c),
                    forall|q: int| 0 <= q < k ==> !#[trigger] economy_fact_fault(c, q),
                    forall|q: int| 0 <= q < j ==> (#[trigger] fs[q]).id@ != fs[k as int].id@,
                decreases k - j,
            {
                if self.facts[j].id.same(&self.facts[k].id) {
                    proof {
                        assert(economy_fact_fault(c, k as int));
                    }
                    return Err(ConstructionProjectError::DuplicateId {
                        kind: "final_economy_fact",
                        id: self.facts[k].id.as_str().to_owned(),
                    });
                }
                j = j + 1;
            }
            proof {
                assert(!economy_fact_fault(c, k as int));
            }
            k = k + 1;
        }
        proof {
            assert forall|j: int| !#[trigger] economy_fact_fault(c, j) by {
                if 0 <= j < fs.len() {
                }
            }
            assert forall|i: int, j: int| 0 <= i < j < fs.len() implies (#[trigger] fs[i]).id@ != (#[trigger] fs[j]).id@ by {
                assert(!economy_fact_fault(c, j));
            }
        }
        let mut k2: usize = 0;
        while k2 < self.facts.len()
            invariant
                fs == self.facts@,
                c == *self,
                economy_ids_unique(fs),
                forall|j: int| !#[trigger] economy_fact_fault(c, j),
                k2 <= fs.len(),
                forall|j: int| 0 <= j < k2 ==> !#[trigger] economy_supersession_fault(fs, j),
            decreases fs.len() - k2,
        {
            match &self.facts[k2].supersedes {
                None => {
                    proof {
                        assert(!economy_supersession_fault(fs, k2 as int));
                    }
                },
                Some(prior_id) => {
                    match self.find_fact(prior_id) {
                        None => {
                            proof {
                                assert(economy_supersession_fault(fs, k2 as int));
                            }
                            return Err(ConstructionProjectError::EmptyField("final_economy.supersedes"));
                        },
                        Some(p) => {
                            if self.facts[p].kind != self.facts[k2].kind || self.facts[p].fact_seq >= self.facts[k2].fact_seq {
                                proof {
                                    assert(economy_supersession_fault(fs, k2 as int));
                                }
                                return Err(ConstructionProjectError::EmptyField("final_economy.supersession"));
                            }
                            let mut j: usize = 0;
                            while j < k2
                                invariant
                                    fs == self.facts@,
                                    c == *self,
                                    economy_ids_unique(fs),
                                    forall|q: int| !#[trigger] economy_fact_fault(c, q),
                                    k2 < fs.len(),
                                    j <= k2,
                                    fs[k2 as int].supersedes == Some(*prior_id),
                                    has_economy_fact(fs, prior_id@),
                                    ({
                                        let pr = fs[economy_fact_with(fs, prior_id@)];
                                        !(pr.kind != fs[k2 as int].kind || pr.fact_seq >= fs[k2 as int].fact_seq)
                                    }),
                                    forall|q: int| 0 <= q < k2 ==> !#[trigger] economy_supersession_fault(fs, q),
                                    forall|q: int| 0 <= q < j ==> !((#[trigger] fs[q]).supersedes matches Some(x) && x@ == prior_id@),
                                decreases k2 - j,
                            {
                                let repeats = match &self.facts[j].supersedes {
                                    Some(x) => x.same(prior_id),
                                    None => false,
                                };
                                if repeats {
                                    proof {
                                        assert(economy_supersession_fault(fs, k2 as int));
                                    }
                                    return Err(ConstructionProjectError::DuplicateId {
                                        kind: "final_economy_supersession",
                                        id: prior_id.as_str().to_owned(),
                                    });
                                }
                                j = j + 1;
                            }
                            proof {
                                assert(!economy_supersession_fault(fs, k2 as int));
                            }
                        },
                    }
                },
            }
            k2 = k2 + 1;
        }
        proof {
            assert forall|j: int| !#[trigger] economy_supersession_fault(fs, j) by {
                if 0 <= j < fs.len() {
                }
            }
        }
        Ok(())
    }
}


/// Fact `k` is corrected by some fact.
pub open spec fn economy_superseded(fs: Seq<FinalEconomyAmountFact>, k: int) -> bool {
    exists|j: int| 0 <= j < fs.len() && ((#[trigger] fs[j]).supersedes matches Some(p) && p@ == fs[k].id@)
}

/// Fact `k` is current: present and not corrected.
pub open spec fn economy_live(fs: Seq<FinalEconomyAmountFact>, k: int) -> bool {
    0 <= k < fs.len() && !economy_superseded(fs, k)
}

/// `ord` lists the current facts in strictly increasing id order.
pub open spec fn current_order(fs: Seq<FinalEconomyAmountFact>, ord: Seq<usize>) -> bool {
    &&& forall|p: int| 0 <= p < ord.len() ==> economy_live(fs, #[trigger] ord[p] as int)
    &&& forall|p: int, q: int| 0 <= p < q < ord.len() ==> lex_lt(fs[#[trigger] ord[p] as int].id@, fs[#[trigger] ord[q] as int].id@)
    &&& forall|k: int| economy_live(fs, k) ==> exists|p: int| 0 <= p < ord.len() && #[trigger] ord[p] == k
}

/// Sum of the amounts of kind `kind` among the first `n` current facts.
pub open spec fn kind_prefix(fs: Seq<FinalEconomyAmountFact>, ord: Seq<usize>, kind: FinalEconomyFactKind, n: int) -> int
    decreases n,
{
    if n <= 0 || n > ord.len() {
        0
    } else {
        kind_prefix(fs, ord, kind, n - 1) + (if fs[ord[n - 1] as int].kind == kind { fs[ord[n - 1] as int].amount as int } else { 0 })
    }
}

/// Number of current facts of kind `kind` among the first `n`.
pub open spec fn kind_count(fs: Seq<FinalEconomyAmountFact>, ord: Seq<usize>, kind: FinalEconomyFactKind, n: int) -> int
    decreases n,
{
    if n <= 0 || n > ord.len() {
        0
    } else {
        kind_count(fs, ord, kind, n - 1) + (if fs[ord[n - 1] as int].kind == kind { 1int } else { 0 })
    }
}

/// Every running total of kind `kind` fits in an `i64`.
pub open spec fn kind_fits(fs: Seq<FinalEconomyAmountFact>, ord: Seq<usize>, kind: FinalEconomyFactKind) -> bool {
    forall|n: int| 0 <= n <= ord.len() ==> i64::MIN <= #[trigger] kind_prefix(fs, ord, kind, n) <= i64::MAX
}

/// Kind at position `m` of the kind order.
pub open spec fn kind_at(m: int) -> FinalEconomyFactKind {
    if m == 0 {
        FinalEconomyFactKind::AcceptedContract
    } else if m == 1 {
        FinalEconomyFactKind::CurrentForecast
    } else if m == 2 {
        FinalEconomyFactKind::FinalPosition
    } else if m == 3 {
        FinalEconomyFactKind::OpenChange
    } else if m == 4 {
        FinalEconomyFactKind::CustomerSettlement
    } else if m == 5 {
        FinalEconomyFactKind::SupplierSettlement
    } else if m == 6 {
        FinalEconomyFactKind::Guarantee
    } else if m == 7 {
        FinalEconomyFactKind::Retention
    } else if m == 8 {
        FinalEconomyFactKind::Claim
    } else {
        FinalEconomyFactKind::LedgerBalance
    }
}

fn kind_of_position(m: usize) -> (k: FinalEconomyFactKind)
    requires
        m < 10,
    ensures
        k == kind_at(m as int),
{
    if m == 0 {
        FinalEconomyFactKind::AcceptedContract
    } else if m == 1 {
        FinalEconomyFactKind::CurrentForecast
    } else if m == 2 {
        FinalEconomyFactKind::FinalPosition
    } else if m == 3 {
        FinalEconomyFactKind::OpenChange
    } else if m == 4 {
        FinalEconomyFactKind::CustomerSettlement
    } else if m == 5 {
        FinalEconomyFactKind::SupplierSettlement
    } else if m == 6 {
        FinalEconomyFactKind::Guarantee
    } else if m == 7 {
        FinalEconomyFactKind::Retention
    } else if m == 8 {
        FinalEconomyFactKind::Claim
    } else {
        FinalEconomyFactKind::LedgerBalance
    }
}

/// Every kind's running totals fit.
pub open spec fn totals_fit(fs: Seq<FinalEconomyAmountFact>, ord: Seq<usize>) -> bool {
    forall|m: int| 0 <= m < 10 ==> kind_fits(fs, ord, #[trigger] kind_at(m))
}

/// Totals of the kinds among the first `m` of the kind order that occur.
pub open spec fn totals_upto(fs: Seq<FinalEconomyAmountFact>, ord: Seq<usize>, m: int) -> Seq<FinalEconomyTotal>
    decreases m,
{
    if m <= 0 {
        Seq::empty()
    } else if kind_count(fs, ord, kind_at(m - 1), ord.len() as int) > 0 {
        totals_upto(fs, ord, m - 1).push(
            FinalEconomyTotal { kind: kind_at(m - 1), amount: kind_prefix(fs, ord, kind_at(m - 1), ord.len() as int) as i64 },
        )
    } else {
        totals_upto(fs, ord, m - 1)
    }
}

impl FinalEconomyControl {
    /// For each fact, whether some fact corrects it.
    fn superseded_flags(&self) -> (flags: Vec<bool>)
        ensures
            flags@.len() == self.facts@.len(),
            forall|k: int| 0 <= k < flags@.len() ==> flags@[k] == economy_superseded(self.facts@, k),
    {
        let ghost fs = self.facts@;
        let mut flags: Vec<bool> = Vec::new();
        let mut k: usize = 0;
        while k < self.facts.len()
            invariant
                fs == self.facts@,
                k <= fs.len(),
                flags@.len() == k,
                forall|q: int| 0 <= q < k ==> flags@[q] == economy_superseded(fs, q),
            decreases fs.len() - k,
        {
            let mut found = false;
            let mut j: usize = 0;
            while j < self.facts.len()
                invariant
                    fs == self.facts@,
                    k < fs.len(),
                    j <= fs.len(),
                    found == exists|q: int| 0 <= q < j && ((#[trigger] fs[q]).supersedes matches Some(p) && p@ == fs[k as int].id@),
                decreases fs.len() - j,
            {
                let hit = match &self.facts[j].supersedes {
                    Some(p) => p.same(&self.facts[k].id),
                    None => false,
                };
                if hit {
                    found = true;
                }
                j = j + 1;
            }
            flags.push(found);
            k = k + 1;
        }
        flags
    }

    /// Positions of the current facts in strictly increasing id order.
    fn current_positions(&self, flags: &Vec<bool>) -> (ord: Vec<usize>)
        requires
            economy_ids_unique(self.facts@),
            flags@.len() == self.facts@.len(),
            forall|k: int| 0 <= k < flags@.len() ==> flags@[k] == economy_superseded(self.facts@, k),
        ensures
            current_order(self.facts@, ord@),
    {
        let ghost fs = self.facts@;
        let mut ord: Vec<usize> = Vec::new();
        let mut i: usize = 0;
        while i < self.facts.len()
            invariant
                fs == self.facts@,
                economy_ids_unique(fs),
                flags@.len() == fs.len(),
                forall|k: int| 0 <= k < flags@.len() ==> flags@[k] == economy_superseded(fs, k),
                i <= fs.len(),
                forall|p: int| 0 <= p < ord@.len() ==> economy_live(fs, #[trigger] ord@[p] as int) && ord@[p] < i,
                forall|p: int, q: int| 0 <= p < q < ord@.len() ==> lex_lt(fs[#[trigger] ord@[p] as int].id@, fs[#[trigger] ord@[q] as int].id@),
                forall|k: int| 0 <= k < i && economy_live(fs, k) ==> exists|p: int| 0 <= p < ord@.len() && #[trigger] ord@[p] == k,
            decreases fs.len() - i,
        {
            if !flags[i] {
                let mut p: usize = 0;
                while p < ord.len() && !text_precedes(self.facts[i].id.as_str(), self.facts[ord[p]].id.as_str())
                    invariant
                        fs == self.facts@,
                        i < fs.len(),
                        p <= ord@.len(),
                        forall|q: int| 0 <= q < ord@.len() ==> (#[trigger] ord@[q]) < i,
                        forall|q: int| 0 <= q < p ==> !lex_lt(fs[i as int].id@, fs[#[trigger] ord@[q] as int].id@),
                    decreases ord.len() - p,
                {
                    p = p + 1;
                }
                let ghost before = ord@;
                proof {
                    assert forall|q: int| 0 <= q < p implies lex_lt(fs[#[trigger] before[q] as int].id@, fs[i as int].id@) by {
                        let o = before[q] as int;
                        assert(fs[o].id@ != fs[i as int].id@);
                        lemma_lex_total(fs[i as int].id@, fs[o].id@);
                    }
                    assert forall|q: int| p <= q < before.len() implies lex_lt(fs[i as int].id@, fs[#[trigger] before[q] as int].id@) by {
                        if q > p {
                            lemma_lex_transitive(fs[i as int].id@, fs[before[p as int] as int].id@, fs[before[q] as int].id@);
                        }
                    }
                }
                ord.insert(p, i);
                proof {
                    let nv = ord@;
                    assert forall|a: int, b: int| 0 <= a < b < nv.len() implies lex_lt(fs[#[trigger] nv[a] as int].id@, fs[#[trigger] nv[b] as int].id@) by {
                        if b < p {
                            assert(nv[a] == before[a] && nv[b] == before[b]);
                        } else if b == p {
                            assert(nv[a] == before[a]);
                        } else if a < p {
                            assert(nv[a] == before[a] && nv[b] == before[b - 1]);
                        } else if a == p {
                            assert(nv[b] == before[b - 1]);
                        } else {
                            assert(nv[a] == before[a - 1] && nv[b] == before[b - 1]);
                        }
                    }
                    assert forall|q: int| 0 <= q < nv.len() implies economy_live(fs, #[trigger] nv[q] as int) && nv[q] < i + 1 by {
                        if q < p {
                            assert(nv[q] == before[q]);
                        } else if q > p {
                            assert(nv[q] == before[q - 1]);
                        }
                    }
                    assert forall|k: int| 0 <= k < i + 1 && economy_live(fs, k) implies exists|pp: int| 0 <= pp < nv.len() && #[trigger] nv[pp] == k by {
                        if k == i {
                            assert(nv[p as int] == k);
                        } else {
                            let pp = choose|pp: int| 0 <= pp < before.len() && #[trigger] before[pp] == k;
                            if pp < p {
                                assert(nv[pp] == k);
                            } else {
                                assert(nv[pp + 1] == k);
                            }
                        }
                    }
                }
            }
            i = i + 1;
        }
        ord
    }

    /// Checked totals by kind, in kind order, for the kinds that occur.
    fn checked_totals(&self, ord: &Vec<usize>) -> (r: Result<Vec<FinalEconomyTotal>, ConstructionProjectError>)
        requires
            forall|p: int| 0 <= p < ord@.len() ==> (#[trigger] ord@[p]) < self.facts@.len(),
        ensures
            r is Ok <==> totals_fit(self.facts@, ord@),
            r matches Ok(t) ==> t@ == totals_upto(self.facts@, ord@, 10),
            r matches Err(e) ==> e == (ConstructionProjectError::AmountOverflow { field: "final_economy.total" }),
    {
        let ghost fs = self.facts@;
        let mut totals: Vec<FinalEconomyTotal> = Vec::new();
        let mut m: usize = 0;
        while m < 10
            invariant
                fs == self.facts@,
                forall|p: int| 0 <= p < ord@.len() ==> (#[trigger] ord@[p]) < fs.len(),
                m <= 10,
                totals@ == totals_upto(fs, ord@, m as int),
                forall|q: int| 0 <= q < m ==> kind_fits(fs, ord@, #[trigger] kind_at(q)),
            decreases 10 - m,
        {
            let kind = kind_of_position(m);
            let mut total: i64 = 0;
            let mut count: usize = 0;
            let mut p: usize = 0;
            while p < ord.len()
                invariant
                    fs == self.facts@,
                    forall|q: int| 0 <= q < ord@.len() ==> (#[trigger] ord@[q]) < fs.len(),
                    p <= ord@.len(),
                    m < 10,
                    kind == kind_at(m as int),
                    total == kind_prefix(fs, ord@, kind, p as int),
                    count == kind_count(fs, ord@, kind, p as int),
                    count <= p,
                    forall|n: int| 0 <= n <= p ==> i64::MIN <= #[trigger] kind_prefix(fs, ord@, kind, n) <= i64::MAX,
                decreases ord.len() - p,
            {
                let f = &self.facts[ord[p]];
                if f.kind == kind {
                    match total.checked_add(f.amount) {
                        Some(t) => {
                            total = t;
                        },
                        None => {
                            proof {
                                assert(kind_prefix(fs, ord@, kind, p + 1) == total + f.amount);
                                assert(!kind_fits(fs, ord@, kind));
                                assert(!kind_fits(fs, ord@, kind_at(m as int)));
                            }
                            return Err(ConstructionProjectError::AmountOverflow { field: "final_economy.total" });
                        },
                    }
                    count = count + 1;
                }
                proof {
                    assert(kind_prefix(fs, ord@, kind, p + 1) == total);
                }
                p = p + 1;
            }
            if count > 0 {
                totals.push(FinalEconomyTotal { kind, amount: total });
            }
            m = m + 1;
        }
        Ok(totals)
    }
}


/// Blockers for current facts without accepted evidence, among the first `n`.
pub open spec fn evidence_blockers(fs: Seq<FinalEconomyAmountFact>, ord: Seq<usize>, n: int) -> Seq<FinalEconomyBlocker>
    decreases n,
{
    if n <= 0 || n > ord.len() {
        Seq::empty()
    } else {
        let f = fs[ord[n - 1] as int];
        if f.evidence_state != EvidenceState::Accepted {
            evidence_blockers(fs, ord, n - 1).push(FinalEconomyBlocker::EvidenceNotAccepted { fact: f.id, state: f.evidence_state })
        } else {
            evidence_blockers(fs, ord, n - 1)
        }
    }
}

/// The blocker for a singular kind: missing when absent, conflicting when repeated.
pub open spec fn kind_blocker(fs: Seq<FinalEconomyAmountFact>, ord: Seq<usize>, kind: FinalEconomyFactKind) -> Seq<FinalEconomyBlocker> {
    let count = kind_count(fs, ord, kind, ord.len() as int);
    if count == 0 {
        seq![FinalEconomyBlocker::MissingKind(kind)]
    } else if count > 1 {
        seq![FinalEconomyBlocker::ConflictingKind(kind)]
    } else {
        Seq::empty()
    }
}

/// Blockers for the singular kinds in kind order.
pub open spec fn kind_blockers(fs: Seq<FinalEconomyAmountFact>, ord: Seq<usize>) -> Seq<FinalEconomyBlocker> {
    kind_blocker(fs, ord, FinalEconomyFactKind::AcceptedContract) + kind_blocker(fs, ord, FinalEconomyFactKind::CurrentForecast)
        + kind_blocker(fs, ord, FinalEconomyFactKind::FinalPosition) + kind_blocker(fs, ord, FinalEconomyFactKind::LedgerBalance)
}

/// Some current exposure fact has id `x`.
pub open spec fn current_exposure(fs: Seq<FinalEconomyAmountFact>, ord: Seq<usize>, x: Seq<char>) -> bool {
    exists|p: int| 0 <= p < ord.len() && fs[#[trigger] ord[p] as int].id@ == x && exposure_kind(fs[ord[p] as int].kind)
}

/// Blockers for the first `m` targets of `ts` that are no current exposure.
pub open spec fn target_list_blockers(fs: Seq<FinalEconomyAmountFact>, ord: Seq<usize>, ts: Seq<ControlId>, m: int) -> Seq<FinalEconomyBlocker>
    decreases m,
{
    if m <= 0 || m > ts.len() {
        Seq::empty()
    } else if !current_exposure(fs, ord, ts[m - 1]@) {
        target_list_blockers(fs, ord, ts, m - 1).push(FinalEconomyBlocker::UnknownSettlementTarget(ts[m - 1]))
    } else {
        target_list_blockers(fs, ord, ts, m - 1)
    }
}

/// Blockers for settlement targets of the first `n` current facts.
pub open spec fn target_blockers(fs: Seq<FinalEconomyAmountFact>, ord: Seq<usize>, n: int) -> Seq<FinalEconomyBlocker>
    decreases n,
{
    if n <= 0 || n > ord.len() {
        Seq::empty()
    } else {
        let f = fs[ord[n - 1] as int];
        if settlement_kind(f.kind) {
            target_blockers(fs, ord, n - 1) + target_list_blockers(fs, ord, f.settles@, f.settles@.len() as int)
        } else {
            target_blockers(fs, ord, n - 1)
        }
    }
}

/// Some current accepted settlement names `x`.
pub open spec fn settled(fs: Seq<FinalEconomyAmountFact>, ord: Seq<usize>, x: Seq<char>) -> bool {
    exists|p: int, i: int|
        #![trigger ord[p], fs[ord[p] as int].settles@[i]]
        0 <= p < ord.len() && settlement_kind(fs[ord[p] as int].kind) && fs[ord[p] as int].evidence_state
            == EvidenceState::Accepted && 0 <= i < fs[ord[p] as int].settles@.len() && fs[ord[p] as int].settles@[i]@ == x
}

/// Ids of current exposures among the first `n` that no accepted settlement discharges.
pub open spec fn unsettled_ids(fs: Seq<FinalEconomyAmountFact>, ord: Seq<usize>, n: int) -> Seq<ControlId>
    decreases n,
{
    if n <= 0 || n > ord.len() {
        Seq::empty()
    } else {
        let f = fs[ord[n - 1] as int];
        if exposure_kind(f.kind) && !settled(fs, ord, f.id@) {
            unsettled_ids(fs, ord, n - 1).push(f.id)
        } else {
            unsettled_ids(fs, ord, n - 1)
        }
    }
}

/// One unsettled-exposure blocker per id.
pub open spec fn unsettled_blockers(ids: Seq<ControlId>) -> Seq<FinalEconomyBlocker> {
    ids.map_values(|x: ControlId| FinalEconomyBlocker::UnsettledExposure(x))
}

/// Some current fact has id `x`.
pub open spec fn current_with(fs: Seq<FinalEconomyAmountFact>, ord: Seq<usize>, x: Seq<char>) -> bool {
    exists|p: int| 0 <= p < ord.len() && fs[#[trigger] ord[p] as int].id@ == x
}

/// The current fact with id `x`.
pub open spec fn current_fact_with(fs: Seq<FinalEconomyAmountFact>, ord: Seq<usize>, x: Seq<char>) -> FinalEconomyAmountFact {
    fs[ord[choose|p: int| 0 <= p < ord.len() && fs[#[trigger] ord[p] as int].id@ == x] as int]
}

/// Reconciliation blockers and whether the final position matches the ledger exactly.
pub open spec fn reconciliation(fs: Seq<FinalEconomyAmountFact>, ord: Seq<usize>, rc: FinalEconomyReconciliation) -> (Seq<FinalEconomyBlocker>, bool) {
    if !current_with(fs, ord, rc.final_position@) {
        (seq![FinalEconomyBlocker::InvalidReconciliationFact(rc.final_position)], false)
    } else if !current_with(fs, ord, rc.ledger_balance@) {
        (seq![FinalEconomyBlocker::InvalidReconciliationFact(rc.ledger_balance)], false)
    } else {
        let pos = current_fact_with(fs, ord, rc.final_position@);
        let led = current_fact_with(fs, ord, rc.ledger_balance@);
        let b1 = if pos.kind != FinalEconomyFactKind::FinalPosition {
            seq![FinalEconomyBlocker::InvalidReconciliationFact(pos.id)]
        } else {
            Seq::empty()
        };
        let b2 = if led.kind != FinalEconomyFactKind::LedgerBalance || led.source != CommercialEvidenceSource::LedgerBalance {
            seq![FinalEconomyBlocker::InvalidReconciliationFact(led.id)]
        } else {
            Seq::empty()
        };
        if pos.amount != led.amount {
            (b1 + b2 + seq![FinalEconomyBlocker::LedgerMismatch { final_position: pos.amount, ledger_balance: led.amount }], false)
        } else {
            (b1 + b2, pos.kind == FinalEconomyFactKind::FinalPosition && led.kind == FinalEconomyFactKind::LedgerBalance
                && led.source == CommercialEvidenceSource::LedgerBalance)
        }
    }
}

/// Every blocker in derivation order, before sorting.
pub open spec fn raw_blockers(fs: Seq<FinalEconomyAmountFact>, ord: Seq<usize>, rc: FinalEconomyReconciliation) -> Seq<FinalEconomyBlocker> {
    evidence_blockers(fs, ord, ord.len() as int) + kind_blockers(fs, ord) + target_blockers(fs, ord, ord.len() as int)
        + unsettled_blockers(unsettled_ids(fs, ord, ord.len() as int)) + reconciliation(fs, ord, rc).0
}

/// Name of a fact kind as written in the report order.
pub open spec fn kind_name(k: FinalEconomyFactKind) -> Seq<char> {
    match k {
        FinalEconomyFactKind::AcceptedContract => "AcceptedContract"@,
        FinalEconomyFactKind::CurrentForecast => "CurrentForecast"@,
        FinalEconomyFactKind::FinalPosition => "FinalPosition"@,
        FinalEconomyFactKind::OpenChange => "OpenChange"@,
        FinalEconomyFactKind::CustomerSettlement => "CustomerSettlement"@,
        FinalEconomyFactKind::SupplierSettlement => "SupplierSettlement"@,
        FinalEconomyFactKind::Guarantee => "Guarantee"@,
        FinalEconomyFactKind::Retention => "Retention"@,
        FinalEconomyFactKind::Claim => "Claim"@,
        FinalEconomyFactKind::LedgerBalance => "LedgerBalance"@,
    }
}

fn kind_label(k: FinalEconomyFactKind) -> (r: &'static str)
    ensures
        r@ == kind_name(k),
{
    match k {
        FinalEconomyFactKind::AcceptedContract => "AcceptedContract",
        FinalEconomyFactKind::CurrentForecast => "CurrentForecast",
        FinalEconomyFactKind::FinalPosition => "FinalPosition",
        FinalEconomyFactKind::OpenChange => "OpenChange",
        FinalEconomyFactKind::CustomerSettlement => "CustomerSettlement",
        FinalEconomyFactKind::SupplierSettlement => "SupplierSettlement",
        FinalEconomyFactKind::Guarantee => "Guarantee",
        FinalEconomyFactKind::Retention => "Retention",
        FinalEconomyFactKind::Claim => "Claim",
        FinalEconomyFactKind::LedgerBalance => "LedgerBalance",
    }
}

/// Report category of a blocker, in report order.
pub open spec fn blocker_category(b: FinalEconomyBlocker) -> int {
    match b {
        FinalEconomyBlocker::MissingKind(_) => 1,
        FinalEconomyBlocker::ConflictingKind(_) => 2,
        FinalEconomyBlocker::EvidenceNotAccepted { .. } => 3,
        FinalEconomyBlocker::UnsettledExposure(_) => 4,
        FinalEconomyBlocker::UnknownSettlementTarget(_) => 5,
        FinalEconomyBlocker::InvalidReconciliationFact(_) => 6,
        FinalEconomyBlocker::LedgerMismatch { .. } => 7,
    }
}

/// Text ordering blockers of one category: the kind name or the fact id.
pub open spec fn blocker_text(b: FinalEconomyBlocker) -> Seq<char> {
    match b {
        FinalEconomyBlocker::MissingKind(k) => kind_name(k),
        FinalEconomyBlocker::ConflictingKind(k) => kind_name(k),
        FinalEconomyBlocker::EvidenceNotAccepted { fact, .. } => fact@,
        FinalEconomyBlocker::UnsettledExposure(f) => f@,
        FinalEconomyBlocker::UnknownSettlementTarget(f) => f@,
        FinalEconomyBlocker::InvalidReconciliationFact(f) => f@,
        FinalEconomyBlocker::LedgerMismatch { .. } => Seq::empty(),
    }
}

/// Blocker `a` is reported strictly before blocker `b`.
pub open spec fn blocker_before(a: FinalEconomyBlocker, b: FinalEconomyBlocker) -> bool {
    blocker_category(a) < blocker_category(b) || (blocker_category(a) == blocker_category(b) && lex_lt(blocker_text(a), blocker_text(b)))
}

/// Blockers are in report order.
pub open spec fn blockers_sorted(bs: Seq<FinalEconomyBlocker>) -> bool {
    forall|i: int, j: int| 0 <= i < j < bs.len() ==> !blocker_before(#[trigger] bs[j], #[trigger] bs[i])
}

proof fn lemma_blocker_before_transitive(a: FinalEconomyBlocker, b: FinalEconomyBlocker, c: FinalEconomyBlocker)
    requires
        blocker_before(a, b),
        blocker_before(b, c),
    ensures
        blocker_before(a, c),
{
    if blocker_category(a) == blocker_category(b) && blocker_category(b) == blocker_category(c) {
        lemma_lex_transitive(blocker_text(a), blocker_text(b), blocker_text(c));
    }
}

proof fn lemma_blocker_before_asymmetric(a: FinalEconomyBlocker, b: FinalEconomyBlocker)
    requires
        blocker_before(a, b),
    ensures
        !blocker_before(b, a),
{
    if blocker_category(a) == blocker_category(b) {
        lemma_lex_asymmetric(blocker_text(a), blocker_text(b));
    }
}

fn category_of(b: &FinalEconomyBlocker) -> (c: u8)
    ensures
        c == blocker_category(*b),
{
    match b {
        FinalEconomyBlocker::MissingKind(_) => 1,
        FinalEconomyBlocker::ConflictingKind(_) => 2,
        FinalEconomyBlocker::EvidenceNotAccepted { .. } => 3,
        FinalEconomyBlocker::UnsettledExposure(_) => 4,
        FinalEconomyBlocker::UnknownSettlementTarget(_) => 5,
        FinalEconomyBlocker::InvalidReconciliationFact(_) => 6,
        FinalEconomyBlocker::LedgerMismatch { .. } => 7,
    }
}

fn text_of(b: &FinalEconomyBlocker) -> (t: &str)
    ensures
        t@ == blocker_text(*b),
{
    match b {
        FinalEconomyBlocker::MissingKind(k) => kind_label(*k),
        FinalEconomyBlocker::ConflictingKind(k) => kind_label(*k),
        FinalEconomyBlocker::EvidenceNotAccepted { fact, .. } => fact.as_str(),
        FinalEconomyBlocker::UnsettledExposure(f) => f.as_str(),
        FinalEconomyBlocker::UnknownSettlementTarget(f) => f.as_str(),
        FinalEconomyBlocker::InvalidReconciliationFact(f) => f.as_str(),
        FinalEconomyBlocker::LedgerMismatch { .. } => {
            proof {
                reveal_strlit("");
            }
            ""
        },
    }
}

fn blocker_precedes(a: &FinalEconomyBlocker, b: &FinalEconomyBlocker) -> (r: bool)
    ensures
        r == blocker_before(*a, *b),
{
    let ca = category_of(a);
    let cb = category_of(b);
    ca < cb || (ca == cb && text_precedes(text_of(a), text_of(b)))
}

/// Sorts blockers into report order, keeping blockers of equal rank in
/// their derivation order.
fn sort_blockers(raw: Vec<FinalEconomyBlocker>) -> (out: Vec<FinalEconomyBlocker>)
    ensures
        out@.to_multiset() == raw@.to_multiset(),
        blockers_sorted(out@),
{
    let ghost all = raw@;
    let mut out: Vec<FinalEconomyBlocker> = Vec::new();
    let mut rest = raw;
    let ghost taken: int = 0;
    proof {
        assert(all.take(0) =~= Seq::<FinalEconomyBlocker>::empty());
        assert(out@ =~= Seq::<FinalEconomyBlocker>::empty());
        assert(rest@ =~= all.skip(0));
    }
    while rest.len() > 0
        invariant
            0 <= taken <= all.len(),
            rest@ == all.skip(taken),
            out@.to_multiset() == all.take(taken).to_multiset(),
            blockers_sorted(out@),
        decreases rest.len(),
    {
        let x = rest.remove(0);
        let mut p: usize = 0;
        while p < out.len() && !blocker_precedes(&x, &out[p])
            invariant
                p <= out@.len(),
                forall|q: int| 0 <= q < p ==> !blocker_before(x, #[trigger] out@[q]),
            decreases out.len() - p,
        {
            p = p + 1;
        }
        let ghost before = out@;
        proof {
            assert forall|q: int| p <= q < before.len() implies !blocker_before(#[trigger] before[q], x) by {
                if blocker_before(before[q], x) {
                    lemma_blocker_before_transitive(before[q], x, before[p as int]);
                    if q == p {
                        lemma_blocker_before_asymmetric(before[q], x);
                    }
                }
            }
            to_multiset_insert(before, p as int, x);
            assert(rest@ =~= all.skip(taken + 1)) by {
                assert(all.skip(taken).drop_first() =~= all.skip(taken + 1));
            }
            assert(all.take(taken + 1) =~= all.take(taken).push(all[taken]));
            to_multiset_build(all.take(taken), all[taken]);
        }
        out.insert(p, x);
        proof {
            let s = out@;
            assert forall|i: int, j: int| 0 <= i < j < s.len() implies !blocker_before(#[trigger] s[j], #[trigger] s[i]) by {
                if j < p {
                    assert(s[i] == before[i] && s[j] == before[j]);
                } else if j == p {
                    assert(s[i] == before[i]);
                } else if i == p {
                    assert(s[j] == before[j - 1]);
                } else if i < p {
                    assert(s[i] == before[i] && s[j] == before[j - 1]);
                } else {
                    assert(s[i] == before[i - 1] && s[j] == before[j - 1]);
                }
            }
            taken = taken + 1;
        }
    }
    proof {
        assert(all.take(all.len() as int) =~= all);
    }
    out
}


/// Exact totals and blockers derived from current final-economy facts.
#[derive(Debug, PartialEq, Eq)]
pub struct FinalEconomyReport {
    /// Stable project identity.
    pub project: ProjectId,
    /// Project currency used by every amount.
    pub currency: CurrencyCode,
    /// Reproducible cutoff.
    pub basis: FinalEconomyBasis,
    /// Non-superseded facts in stable id order.
    pub current_facts: Vec<FinalEconomyAmountFact>,
    /// Checked totals by commercial meaning.
    pub totals: Vec<FinalEconomyTotal>,
    /// Current exposures not discharged by accepted settlements.
    pub unsettled_exposure: Vec<ControlId>,
    /// Whether the named final position matches ledger evidence exactly.
    pub ledger_reconciled: bool,
    /// Deterministic closeout blockers.
    pub blockers: Vec<FinalEconomyBlocker>,
    /// True only when core facts, settlement, and reconciliation are complete.
    pub ready: bool,
}

impl FinalEconomyReport {
    /// Returns the checked total for one commercial meaning: the first
    /// total recorded for the kind.
    pub fn total(&self, kind: FinalEconomyFactKind) -> (r: Option<i64>)
        ensures
            r is Some <==> exists|i: int| 0 <= i < self.totals@.len() && (#[trigger] self.totals@[i]).kind == kind,
            r matches Some(a) ==> exists|i: int| 0 <= i < self.totals@.len() && (#[trigger] self.totals@[i]).kind == kind
                && self.totals@[i].amount == a && forall|j: int| 0 <= j < i ==> self.totals@[j].kind != kind,
    {
        let mut i: usize = 0;
        while i < self.totals.len()
            invariant
                i <= self.totals@.len(),
                forall|j: int| 0 <= j < i ==> (#[trigger] self.totals@[j]).kind != kind,
            decreases self.totals.len() - i,
        {
            if self.totals[i].kind == kind {
                return Some(self.totals[i].amount);
            }
            i = i + 1;
        }
        None
    }
}

/// The report fields for control `c` along the current order `ord`.
pub open spec fn report_fields(c: FinalEconomyControl, ord: Seq<usize>, rep: FinalEconomyReport) -> bool {
    let fs = c.facts@;
    &&& rep.project == c.project
    &&& rep.currency == c.currency
    &&& rep.basis == c.basis
    &&& rep.current_facts@.len() == ord.len()
    &&& forall|p: int| 0 <= p < ord.len() ==> fact_same(#[trigger] rep.current_facts@[p], fs[ord[p] as int])
    &&& rep.totals@ == totals_upto(fs, ord, 10)
    &&& rep.unsettled_exposure@ == unsettled_ids(fs, ord, ord.len() as int)
    &&& rep.ledger_reconciled == reconciliation(fs, ord, c.reconciliation).1
    &&& rep.blockers@.to_multiset() == raw_blockers(fs, ord, c.reconciliation).to_multiset()
    &&& blockers_sorted(rep.blockers@)
    &&& rep.ready == (raw_blockers(fs, ord, c.reconciliation).len() == 0)
}

/// What `derive` answers for a final-economy control: the first failed
/// shape or fact check, an overflow of a kind total taken in id order, or
/// the report over the current facts in id order.
pub open spec fn economy_result(c: FinalEconomyControl, r: Result<FinalEconomyReport, ConstructionProjectError>) -> bool {
    let e_only = match r { Ok(_) => Ok(()), Err(e) => Err(e) };
    if !shape_check(c, Ok(())) {
        shape_check(c, e_only)
    } else if !economy_facts_check(c, Ok(())) {
        economy_facts_check(c, e_only)
    } else {
        exists|ord: Seq<usize>| #[trigger] current_order(c.facts@, ord) && if !totals_fit(c.facts@, ord) {
            r == Err::<FinalEconomyReport, ConstructionProjectError>(ConstructionProjectError::AmountOverflow { field: "final_economy.total" })
        } else {
            r matches Ok(rep) && report_fields(c, ord, rep)
        }
    }
}

proof fn lemma_order_bounded(fs: Seq<FinalEconomyAmountFact>, ord: Seq<usize>)
    requires
        current_order(fs, ord),
    ensures
        forall|p: int| 0 <= p < ord.len() ==> (#[trigger] ord[p]) < fs.len(),
{
    assert forall|p: int| 0 <= p < ord.len() implies (#[trigger] ord[p]) < fs.len() by {
        assert(economy_live(fs, ord[p] as int));
    }
}

impl FinalEconomyControl {
    fn evidence_blocker_list(&self, ord: &Vec<usize>) -> (v: Vec<FinalEconomyBlocker>)
        requires
            forall|p: int| 0 <= p < ord@.len() ==> (#[trigger] ord@[p]) < self.facts@.len(),
        ensures
            v@ == evidence_blockers(self.facts@, ord@, ord@.len() as int),
    {
        let mut v: Vec<FinalEconomyBlocker> = Vec::new();
        let mut p: usize = 0;
        while p < ord.len()
            invariant
                forall|q: int| 0 <= q < ord@.len() ==> (#[trigger] ord@[q]) < self.facts@.len(),
                p <= ord@.len(),
                v@ == evidence_blockers(self.facts@, ord@, p as int),
            decreases ord.len() - p,
        {
            let f = &self.facts[ord[p]];
            if f.evidence_state != EvidenceState::Accepted {
                v.push(FinalEconomyBlocker::EvidenceNotAccepted { fact: f.id.clone(), state: f.evidence_state });
            }
            p = p + 1;
        }
        v
    }

    fn count_kind(&self, ord: &Vec<usize>, kind: FinalEconomyFactKind) -> (n: usize)
        requires
            forall|p: int| 0 <= p < ord@.len() ==> (#[trigger] ord@[p]) < self.facts@.len(),
        ensures
            n == kind_count(self.facts@, ord@, kind, ord@.len() as int),
    {
        let mut n: usize = 0;
        let mut p: usize = 0;
        while p < ord.len()
            invariant
                forall|q: int| 0 <= q < ord@.len() ==> (#[trigger] ord@[q]) < self.facts@.len(),
                p <= ord@.len(),
                n == kind_count(self.facts@, ord@, kind, p as int),
                n <= p,
            decreases ord.len() - p,
        {
            if self.facts[ord[p]].kind == kind {
                n = n + 1;
            }
            p = p + 1;
        }
        n
    }

    fn kind_blocker_for(&self, ord: &Vec<usize>, kind: FinalEconomyFactKind, v: &mut Vec<FinalEconomyBlocker>)
        requires
            forall|p: int| 0 <= p < ord@.len() ==> (#[trigger] ord@[p]) < self.facts@.len(),
        ensures
            final(v)@ == old(v)@ + kind_blocker(self.facts@, ord@, kind),
    {
        let n = self.count_kind(ord, kind);
        if n == 0 {
            v.push(FinalEconomyBlocker::MissingKind(kind));
        } else if n > 1 {
            v.push(FinalEconomyBlocker::ConflictingKind(kind));
        }
        proof {
            assert(final(v)@ =~= old(v)@ + kind_blocker(self.facts@, ord@, kind));
        }
    }

    fn is_current_exposure(&self, ord: &Vec<usize>, x: &ControlId) -> (b: bool)
        requires
            forall|p: int| 0 <= p < ord@.len() ==> (#[trigger] ord@[p]) < self.facts@.len(),
        ensures
            b == current_exposure(self.facts@, ord@, x@),
    {
        let mut p: usize = 0;
        while p < ord.len()
            invariant
                forall|q: int| 0 <= q < ord@.len() ==> (#[trigger] ord@[q]) < self.facts@.len(),
                p <= ord@.len(),
                forall|q: int| 0 <= q < p ==> !(self.facts@[#[trigger] ord@[q] as int].id@ == x@ && exposure_kind(self.facts@[ord@[q] as int].kind)),
            decreases ord.len() - p,
        {
            let f = &self.facts[ord[p]];
            if f.id.same(x) && f.kind.is_exposure() {
                return true;
            }
            p = p + 1;
        }
        false
    }

    fn target_blocker_list(&self, ord: &Vec<usize>) -> (v: Vec<FinalEconomyBlocker>)
        requires
            forall|p: int| 0 <= p < ord@.len() ==> (#[trigger] ord@[p]) < self.facts@.len(),
        ensures
            v@ == target_blockers(self.facts@, ord@, ord@.len() as int),
    {
        let ghost fs = self.facts@;
        let mut v: Vec<FinalEconomyBlocker> = Vec::new();
        let mut p: usize = 0;
        while p < ord.len()
            invariant
                fs == self.facts@,
                forall|q: int| 0 <= q < ord@.len() ==> (#[trigger] ord@[q]) < fs.len(),
                p <= ord@.len(),
                v@ == target_blockers(fs, ord@, p as int),
            decreases ord.len() - p,
        {
            let f = &self.facts[ord[p]];
            if f.kind.is_settlement() {
                let ghost base = v@;
                let mut i: usize = 0;
                while i < f.settles.len()
                    invariant
                        fs == self.facts@,
                        forall|q: int| 0 <= q < ord@.len() ==> (#[trigger] ord@[q]) < fs.len(),
                        p < ord@.len(),
                        *f == fs[ord@[p as int] as int],
                        i <= f.settles@.len(),
                        v@ == base + target_list_blockers(fs, ord@, f.settles@, i as int),
                    decreases f.settles.len() - i,
                {
                    if !self.is_current_exposure(ord, &f.settles[i]) {
                        v.push(FinalEconomyBlocker::UnknownSettlementTarget(f.settles[i].clone()));
                    }
                    i = i + 1;
                }
            }
            p = p + 1;
        }
        v
    }

    fn is_settled(&self, ord: &Vec<usize>, x: &ControlId) -> (b: bool)
        requires
            forall|p: int| 0 <= p < ord@.len() ==> (#[trigger] ord@[p]) < self.facts@.len(),
        ensures
            b == settled(self.facts@, ord@, x@),
    {
        let ghost fs = self.facts@;
        let mut p: usize = 0;
        while p < ord.len()
            invariant
                fs == self.facts@,
                forall|q: int| 0 <= q < ord@.len() ==> (#[trigger] ord@[q]) < fs.len(),
                p <= ord@.len(),
                forall|q: int, i: int|
                    #![trigger ord@[q], fs[ord@[q] as int].settles@[i]]
                    0 <= q < p ==> !(settlement_kind(fs[ord@[q] as int].kind) && fs[ord@[q] as int].evidence_state == EvidenceState::Accepted
                        && 0 <= i < fs[ord@[q] as int].settles@.len() && fs[ord@[q] as int].settles@[i]@ == x@),
            decreases ord.len() - p,
        {
            let f = &self.facts[ord[p]];
            if f.kind.is_settlement() && f.evidence_state == EvidenceState::Accepted {
                let mut i: usize = 0;
                while i < f.settles.len()
                    invariant
                        fs == self.facts@,
                        forall|q: int| 0 <= q < ord@.len() ==> (#[trigger] ord@[q]) < fs.len(),
                        p < ord@.len(),
                        *f == fs[ord@[p as int] as int],
                        settlement_kind(f.kind),
                        f.evidence_state == EvidenceState::Accepted,
                        i <= f.settles@.len(),
                        forall|j: int| 0 <= j < i ==> (#[trigger] f.settles@[j])@ != x@,
                    decreases f.settles.len() - i,
                {
                    if f.settles[i].same(x) {
                        proof {
                            assert(fs[ord@[p as int] as int].settles@[i as int]@ == x@);
                        }
                        return true;
                    }
                    i = i + 1;
                }
            }
            p = p + 1;
        }
        false
    }

    fn unsettled_list(&self, ord: &Vec<usize>) -> (v: Vec<ControlId>)
        requires
            forall|p: int| 0 <= p < ord@.len() ==> (#[trigger] ord@[p]) < self.facts@.len(),
        ensures
            v@ == unsettled_ids(self.facts@, ord@, ord@.len() as int),
    {
        let mut v: Vec<ControlId> = Vec::new();
        let mut p: usize = 0;
        while p < ord.len()
            invariant
                forall|q: int| 0 <= q < ord@.len() ==> (#[trigger] ord@[q]) < self.facts@.len(),
                p <= ord@.len(),
                v@ == unsettled_ids(self.facts@, ord@, p as int),
            decreases ord.len() - p,
        {
            let f = &self.facts[ord[p]];
            if f.kind.is_exposure() && !self.is_settled(ord, &f.id) {
                v.push(f.id.clone());
            }
            p = p + 1;
        }
        v
    }

    fn current_position_of(&self, ord: &Vec<usize>, x: &ControlId) -> (r: Option<usize>)
        requires
            current_order(self.facts@, ord@),
        ensures
            r is None <==> !current_with(self.facts@, ord@, x@),
            r matches Some(k) ==> k < self.facts@.len() && self.facts@[k as int] == current_fact_with(self.facts@, ord@, x@),
    {
        let ghost fs = self.facts@;
        proof {
            lemma_order_bounded(fs, ord@);
        }
        let mut p: usize = 0;
        while p < ord.len()
            invariant
                fs == self.facts@,
                current_order(fs, ord@),
                forall|q: int| 0 <= q < ord@.len() ==> (#[trigger] ord@[q]) < fs.len(),
                p <= ord@.len(),
                forall|q: int| 0 <= q < p ==> fs[#[trigger] ord@[q] as int].id@ != x@,
            decreases ord.len() - p,
        {
            if self.facts[ord[p]].id.same(x) {
                proof {
                    let c = choose|q: int| 0 <= q < ord@.len() && fs[#[trigger] ord@[q] as int].id@ == x@;
                    if c != p as int {
                        if c < p {
                            lemma_lex_irreflexive(x@);
                            assert(lex_lt(fs[ord@[c] as int].id@, fs[ord@[p as int] as int].id@));
                        } else {
                            lemma_lex_irreflexive(x@);
                            assert(lex_lt(fs[ord@[p as int] as int].id@, fs[ord@[c] as int].id@));
                        }
                    }
                }
                return Some(ord[p]);
            }
            p = p + 1;
        }
        None
    }

    fn reconcile(&self, ord: &Vec<usize>) -> (r: (Vec<FinalEconomyBlocker>, bool))
        requires
            current_order(self.facts@, ord@),
        ensures
            r.0@ == reconciliation(self.facts@, ord@, self.reconciliation).0,
            r.1 == reconciliation(self.facts@, ord@, self.reconciliation).1,
    {
        let mut v: Vec<FinalEconomyBlocker> = Vec::new();
        let pk = match self.current_position_of(ord, &self.reconciliation.final_position) {
            Some(k) => k,
            None => {
                v.push(FinalEconomyBlocker::InvalidReconciliationFact(self.reconciliation.final_position.clone()));
                proof {
                    assert(v@ =~= seq![FinalEconomyBlocker::InvalidReconciliationFact(self.reconciliation.final_position)]);
                }
                return (v, false);
            },
        };
        let lk = match self.current_position_of(ord, &self.reconciliation.ledger_balance) {
            Some(k) => k,
            None => {
                v.push(FinalEconomyBlocker::InvalidReconciliationFact(self.reconciliation.ledger_balance.clone()));
                proof {
                    assert(v@ =~= seq![FinalEconomyBlocker::InvalidReconciliationFact(self.reconciliation.ledger_balance)]);
                }
                return (v, false);
            },
        };
        let position = &self.facts[pk];
        let ledger = &self.facts[lk];
        if position.kind != FinalEconomyFactKind::FinalPosition {
            v.push(FinalEconomyBlocker::InvalidReconciliationFact(position.id.clone()));
        }
        if ledger.kind != FinalEconomyFactKind::LedgerBalance || ledger.source != CommercialEvidenceSource::LedgerBalance {
            v.push(FinalEconomyBlocker::InvalidReconciliationFact(ledger.id.clone()));
        }
        if position.amount != ledger.amount {
            v.push(FinalEconomyBlocker::LedgerMismatch { final_position: position.amount, ledger_balance: ledger.amount });
            proof {
                let r = reconciliation(self.facts@, ord@, self.reconciliation);
                assert(v@ =~= r.0);
            }
            return (v, false);
        }
        proof {
            let r = reconciliation(self.facts@, ord@, self.reconciliation);
            assert(v@ =~= r.0);
        }
        (v, position.kind == FinalEconomyFactKind::FinalPosition && ledger.kind == FinalEconomyFactKind::LedgerBalance
            && ledger.source == CommercialEvidenceSource::LedgerBalance)
    }

    /// Derives exact current totals, unsettled exposure, and ledger reconciliation.
    #[verifier::rlimit(30)]
    pub fn derive(&self) -> (r: Result<FinalEconomyReport, ConstructionProjectError>)
        ensures
            economy_result(*self, r),
    {
        let ghost fs = self.facts@;
        match self.validate_shape() {
            Ok(()) => {},
            Err(e) => {
                return Err(e);
            },
        }
        match self.check_facts() {
            Ok(()) => {},
            Err(e) => {
                return Err(e);
            },
        }
        proof {
            assert forall|i: int, j: int| 0 <= i < j < fs.len() implies (#[trigger] fs[i]).id@ != (#[trigger] fs[j]).id@ by {
                assert(!economy_fact_fault(*self, j));
            }
        }
        let flags = self.superseded_flags();
        let ord = self.current_positions(&flags);
        proof {
            lemma_order_bounded(fs, ord@);
        }
        let mut raw = self.evidence_blocker_list(&ord);
        let ghost ev = raw@;
        self.kind_blocker_for(&ord, FinalEconomyFactKind::AcceptedContract, &mut raw);
        self.kind_blocker_for(&ord, FinalEconomyFactKind::CurrentForecast, &mut raw);
        self.kind_blocker_for(&ord, FinalEconomyFactKind::FinalPosition, &mut raw);
        self.kind_blocker_for(&ord, FinalEconomyFactKind::LedgerBalance, &mut raw);
        let targets = self.target_blocker_list(&ord);
        let mut i: usize = 0;
        let ghost with_kinds = raw@;
        while i < targets.len()
            invariant
                i <= targets@.len(),
                raw@ == with_kinds + targets@.take(i as int),
            decreases targets.len() - i,
        {
            raw.push(targets[i].clone_blocker());
            proof {
                assert(raw@ =~= with_kinds + targets@.take(i + 1));
            }
            i = i + 1;
        }
        let unsettled_exposure = self.unsettled_list(&ord);
        let ghost with_targets = raw@;
        let mut j: usize = 0;
        while j < unsettled_exposure.len()
            invariant
                j <= unsettled_exposure@.len(),
                raw@ == with_targets + unsettled_blockers(unsettled_exposure@.take(j as int)),
            decreases unsettled_exposure.len() - j,
        {
            raw.push(FinalEconomyBlocker::UnsettledExposure(unsettled_exposure[j].clone()));
            proof {
                assert(unsettled_blockers(unsettled_exposure@.take(j + 1)) =~= unsettled_blockers(unsettled_exposure@.take(j as int)).push(
                    FinalEconomyBlocker::UnsettledExposure(unsettled_exposure@[j as int]),
                ));
            }
            j = j + 1;
        }
        let totals = match self.checked_totals(&ord) {
            Ok(t) => t,
            Err(e) => {
                return Err(e);
            },
        };
        let (recon, ledger_reconciled) = self.reconcile(&ord);
        let ghost with_unsettled = raw@;
        let mut k: usize = 0;
        while k < recon.len()
            invariant
                k <= recon@.len(),
                raw@ == with_unsettled + recon@.take(k as int),
            decreases recon.len() - k,
        {
            raw.push(recon[k].clone_blocker());
            proof {
                assert(raw@ =~= with_unsettled + recon@.take(k + 1));
            }
            k = k + 1;
        }
        proof {
            assert(targets@.take(targets@.len() as int) =~= targets@);
            assert(unsettled_exposure@.take(unsettled_exposure@.len() as int) =~= unsettled_exposure@);
            assert(recon@.take(recon@.len() as int) =~= recon@);
            assert(raw@ =~= raw_blockers(fs, ord@, self.reconciliation));
        }
        let ready = raw.len() == 0;
        let blockers = sort_blockers(raw);
        let mut current_facts: Vec<FinalEconomyAmountFact> = Vec::new();
        let mut p: usize = 0;
        while p < ord.len()
            invariant
                fs == self.facts@,
                forall|q: int| 0 <= q < ord@.len() ==> (#[trigger] ord@[q]) < fs.len(),
                p <= ord@.len(),
                current_facts@.len() == p,
                forall|q: int| 0 <= q < p ==> fact_same(#[trigger] current_facts@[q], fs[ord@[q] as int]),
            decreases ord.len() - p,
        {
            current_facts.push(self.facts[ord[p]].clone());
            p = p + 1;
        }
        let rep = FinalEconomyReport {
            project: self.project.clone(),
            currency: self.currency.clone(),
            basis: self.basis.clone(),
            current_facts,
            totals,
            unsettled_exposure,
            ledger_reconciled,
            blockers,
            ready,
        };
        proof {
            assert(report_fields(*self, ord@, rep));
        }
        Ok(rep)
    }
}

impl FinalEconomyBlocker {
    /// Copies a blocker.
    pub fn clone_blocker(&self) -> (r: Self)
        ensures
            r == *self,
    {
        match self {
            FinalEconomyBlocker::MissingKind(k) => FinalEconomyBlocker::MissingKind(*k),
            FinalEconomyBlocker::ConflictingKind(k) => FinalEconomyBlocker::ConflictingKind(*k),
            FinalEconomyBlocker::EvidenceNotAccepted { fact, state } => FinalEconomyBlocker::EvidenceNotAccepted {
                fact: fact.clone(),
                state: *state,
            },
            FinalEconomyBlocker::UnsettledExposure(f) => FinalEconomyBlocker::UnsettledExposure(f.clone()),
            FinalEconomyBlocker::UnknownSettlementTarget(f) => FinalEconomyBlocker::UnknownSettlementTarget(f.clone()),
            FinalEconomyBlocker::InvalidReconciliationFact(f) => FinalEconomyBlocker::InvalidReconciliationFact(f.clone()),
            FinalEconomyBlocker::LedgerMismatch { final_position, ledger_balance } => FinalEconomyBlocker::LedgerMismatch {
                final_position: *final_position,
                ledger_balance: *ledger_balance,
            },
        }
    }
}


/// A derived final-economy report is ready exactly when it lists no
/// blocker, and a reconciled ledger means the current final position and
/// ledger balance facts agree to the minor unit.
pub proof fn lemma_report_ready_iff_unblocked(c: FinalEconomyControl, ord: Seq<usize>, rep: FinalEconomyReport)
    requires
        report_fields(c, ord, rep),
    ensures
        rep.ready <==> rep.blockers@.len() == 0,
        rep.ledger_reconciled ==> current_with(c.facts@, ord, c.reconciliation.final_position@) && current_with(
            c.facts@,
            ord,
            c.reconciliation.ledger_balance@,
        ) && current_fact_with(c.facts@, ord, c.reconciliation.final_position@).amount == current_fact_with(
            c.facts@,
            ord,
            c.reconciliation.ledger_balance@,
        ).amount,
{
    rep.blockers@.to_multiset_ensures();
    raw_blockers(c.facts@, ord, c.reconciliation).to_multiset_ensures();
}

/// A derived final-economy report counts the ledger as reconciled only when
/// the reconciliation's ledger fact is a current fact of kind ledger balance
/// taken from the ledger. A current ledger fact of another kind or source,
/// next to a current final position, is reported as an invalid
/// reconciliation fact, and the report is neither reconciled nor ready.
pub proof fn lemma_ledger_reconciliation_needs_ledger_source(c: FinalEconomyControl, rep: FinalEconomyReport, p: int, q: int)
    requires
        economy_result(c, Ok(rep)),
    ensures
        rep.ledger_reconciled ==> exists|j: int| 0 <= j < rep.current_facts@.len()
            && (#[trigger] rep.current_facts@[j]).id@ == c.reconciliation.ledger_balance@
            && rep.current_facts@[j].kind == FinalEconomyFactKind::LedgerBalance
            && rep.current_facts@[j].source == CommercialEvidenceSource::LedgerBalance,
        0 <= p < rep.current_facts@.len() && rep.current_facts@[p].id@ == c.reconciliation.ledger_balance@
            && (rep.current_facts@[p].kind != FinalEconomyFactKind::LedgerBalance
                || rep.current_facts@[p].source != CommercialEvidenceSource::LedgerBalance)
            && 0 <= q < rep.current_facts@.len() && rep.current_facts@[q].id@ == c.reconciliation.final_position@
            ==> rep.blockers@.contains(FinalEconomyBlocker::InvalidReconciliationFact(rep.current_facts@[p].id))
                && !rep.ledger_reconciled && !rep.ready,
{
    let fs = c.facts@;
    assert(exists|ord: Seq<usize>| #[trigger] current_order(fs, ord) && report_fields(c, ord, rep));
    let ord = choose|ord: Seq<usize>| #[trigger] current_order(fs, ord) && report_fields(c, ord, rep);
    assert(report_fields(c, ord, rep));
    let rc = c.reconciliation;
    if rep.ledger_reconciled {
        assert(current_with(fs, ord, rc.ledger_balance@));
        let j = choose|j: int| 0 <= j < ord.len() && fs[#[trigger] ord[j] as int].id@ == rc.ledger_balance@;
        assert(fact_same(rep.current_facts@[j], fs[ord[j] as int]));
    }
    if 0 <= p < rep.current_facts@.len() && rep.current_facts@[p].id@ == rc.ledger_balance@
        && (rep.current_facts@[p].kind != FinalEconomyFactKind::LedgerBalance
            || rep.current_facts@[p].source != CommercialEvidenceSource::LedgerBalance)
        && 0 <= q < rep.current_facts@.len() && rep.current_facts@[q].id@ == rc.final_position@ {
        assert(fact_same(rep.current_facts@[p], fs[ord[p] as int]));
        assert(fact_same(rep.current_facts@[q], fs[ord[q] as int]));
        assert(current_with(fs, ord, rc.final_position@));
        assert(current_with(fs, ord, rc.ledger_balance@));
        let j = choose|j: int| 0 <= j < ord.len() && fs[#[trigger] ord[j] as int].id@ == rc.ledger_balance@;
        if j != p {
            if j < p {
                assert(lex_lt(fs[ord[j] as int].id@, fs[ord[p] as int].id@));
            } else {
                assert(lex_lt(fs[ord[p] as int].id@, fs[ord[j] as int].id@));
            }
            lemma_lex_irreflexive(fs[ord[p] as int].id@);
        }
        let led = current_fact_with(fs, ord, rc.ledger_balance@);
        assert(led == fs[ord[p] as int]);
        let pos = current_fact_with(fs, ord, rc.final_position@);
        let b = FinalEconomyBlocker::InvalidReconciliationFact(rep.current_facts@[p].id);
        let b1: Seq<FinalEconomyBlocker> = if pos.kind != FinalEconomyFactKind::FinalPosition {
            seq![FinalEconomyBlocker::InvalidReconciliationFact(pos.id)]
        } else {
            Seq::empty()
        };
        let r0 = reconciliation(fs, ord, rc).0;
        assert(r0[b1.len() as int] == b);
        let raw = raw_blockers(fs, ord, rc);
        let head = evidence_blockers(fs, ord, ord.len() as int) + kind_blockers(fs, ord) + target_blockers(fs, ord, ord.len() as int)
            + unsettled_blockers(unsettled_ids(fs, ord, ord.len() as int));
        assert(raw == head + r0);
        assert(raw[head.len() + b1.len() as int] == b);
        assert(raw.contains(b));
        raw.to_multiset_ensures();
        rep.blockers@.to_multiset_ensures();
        assert(raw.to_multiset().count(b) > 0);
        assert(rep.blockers@.to_multiset().count(b) > 0);
        assert(rep.blockers@.contains(b));
        assert(!reconciliation(fs, ord, rc).1);
        assert(!rep.ready);
    }
}

proof fn lemma_raw_blocker_reported(c: FinalEconomyControl, ord: Seq<usize>, rep: FinalEconomyReport, b: FinalEconomyBlocker)
    requires
        report_fields(c, ord, rep),
        raw_blockers(c.facts@, ord, c.reconciliation).contains(b),
    ensures
        rep.blockers@.contains(b),
        !rep.ready,
{
    let raw = raw_blockers(c.facts@, ord, c.reconciliation);
    raw.to_multiset_ensures();
    rep.blockers@.to_multiset_ensures();
    assert(raw.to_multiset().count(b) > 0);
    assert(rep.blockers@.to_multiset().count(b) > 0);
}

proof fn lemma_evidence_blocker_at(fs: Seq<FinalEconomyAmountFact>, ord: Seq<usize>, n: int, p: int)
    requires
        0 <= p < n <= ord.len(),
        fs[ord[p] as int].evidence_state != EvidenceState::Accepted,
    ensures
        evidence_blockers(fs, ord, n).contains(
            FinalEconomyBlocker::EvidenceNotAccepted { fact: fs[ord[p] as int].id, state: fs[ord[p] as int].evidence_state },
        ),
    decreases n,
{
    let b = FinalEconomyBlocker::EvidenceNotAccepted { fact: fs[ord[p] as int].id, state: fs[ord[p] as int].evidence_state };
    let prev = evidence_blockers(fs, ord, n - 1);
    if p < n - 1 {
        lemma_evidence_blocker_at(fs, ord, n - 1, p);
        let i = choose|i: int| 0 <= i < prev.len() && prev[i] == b;
        assert(evidence_blockers(fs, ord, n)[i] == b);
    } else {
        assert(evidence_blockers(fs, ord, n)[prev.len() as int] == b);
    }
}

proof fn lemma_report_order(c: FinalEconomyControl, rep: FinalEconomyReport) -> (ord: Seq<usize>)
    requires
        economy_result(c, Ok(rep)),
    ensures
        current_order(c.facts@, ord),
        report_fields(c, ord, rep),
{
    let fs = c.facts@;
    assert(exists|ord: Seq<usize>| #[trigger] current_order(fs, ord) && report_fields(c, ord, rep));
    choose|ord: Seq<usize>| #[trigger] current_order(fs, ord) && report_fields(c, ord, rep)
}

/// Every current fact whose evidence is not accepted blocks a final-economy
/// report with its id and evidence state, and the report is not ready.
pub proof fn lemma_unaccepted_fact_blocks(c: FinalEconomyControl, rep: FinalEconomyReport, p: int)
    requires
        economy_result(c, Ok(rep)),
        0 <= p < rep.current_facts@.len(),
        rep.current_facts@[p].evidence_state != EvidenceState::Accepted,
    ensures
        rep.blockers@.contains(FinalEconomyBlocker::EvidenceNotAccepted {
            fact: rep.current_facts@[p].id,
            state: rep.current_facts@[p].evidence_state,
        }),
        !rep.ready,
{
    let fs = c.facts@;
    let ord = lemma_report_order(c, rep);
    assert(fact_same(rep.current_facts@[p], fs[ord[p] as int]));
    lemma_evidence_blocker_at(fs, ord, ord.len() as int, p);
    let b = FinalEconomyBlocker::EvidenceNotAccepted { fact: fs[ord[p] as int].id, state: fs[ord[p] as int].evidence_state };
    let e = evidence_blockers(fs, ord, ord.len() as int);
    let raw = raw_blockers(fs, ord, c.reconciliation);
    let i = choose|i: int| 0 <= i < e.len() && e[i] == b;
    assert(raw[i] == b);
    lemma_raw_blocker_reported(c, ord, rep, b);
}

/// When the current final position and ledger balance named by the
/// reconciliation differ, the report lists the mismatch with both amounts and
/// is neither reconciled nor ready; a reconciled report has a current final
/// position fact whose amount equals a current ledger-balance fact.
pub proof fn lemma_ledger_mismatch_blocks(c: FinalEconomyControl, rep: FinalEconomyReport, p: int, q: int)
    requires
        economy_result(c, Ok(rep)),
    ensures
        0 <= p < rep.current_facts@.len() && rep.current_facts@[p].id@ == c.reconciliation.ledger_balance@
            && 0 <= q < rep.current_facts@.len() && rep.current_facts@[q].id@ == c.reconciliation.final_position@
            && rep.current_facts@[p].amount != rep.current_facts@[q].amount
            ==> rep.blockers@.contains(FinalEconomyBlocker::LedgerMismatch {
                final_position: rep.current_facts@[q].amount,
                ledger_balance: rep.current_facts@[p].amount,
            }) && !rep.ledger_reconciled && !rep.ready,
        rep.ledger_reconciled ==> exists|x: int, y: int| 0 <= x < rep.current_facts@.len() && 0 <= y < rep.current_facts@.len()
            && (#[trigger] rep.current_facts@[x]).id@ == c.reconciliation.final_position@
            && rep.current_facts@[x].kind == FinalEconomyFactKind::FinalPosition
            && (#[trigger] rep.current_facts@[y]).id@ == c.reconciliation.ledger_balance@
            && rep.current_facts@[x].amount == rep.current_facts@[y].amount,
{
    let fs = c.facts@;
    let ord = lemma_report_order(c, rep);
    let rc = c.reconciliation;
    if rep.ledger_reconciled {
        assert(current_with(fs, ord, rc.final_position@));
        assert(current_with(fs, ord, rc.ledger_balance@));
        let x = choose|x: int| 0 <= x < ord.len() && fs[#[trigger] ord[x] as int].id@ == rc.final_position@;
        let y = choose|y: int| 0 <= y < ord.len() && fs[#[trigger] ord[y] as int].id@ == rc.ledger_balance@;
        assert(fact_same(rep.current_facts@[x], fs[ord[x] as int]));
        assert(fact_same(rep.current_facts@[y], fs[ord[y] as int]));
    }
    if 0 <= p < rep.current_facts@.len() && rep.current_facts@[p].id@ == rc.ledger_balance@
        && 0 <= q < rep.current_facts@.len() && rep.current_facts@[q].id@ == rc.final_position@
        && rep.current_facts@[p].amount != rep.current_facts@[q].amount {
        assert(fact_same(rep.current_facts@[p], fs[ord[p] as int]));
        assert(fact_same(rep.current_facts@[q], fs[ord[q] as int]));
        assert(current_with(fs, ord, rc.final_position@));
        assert(current_with(fs, ord, rc.ledger_balance@));
        let j = choose|j: int| 0 <= j < ord.len() && fs[#[trigger] ord[j] as int].id@ == rc.ledger_balance@;
        if j != p {
            if j < p {
                assert(lex_lt(fs[ord[j] as int].id@, fs[ord[p] as int].id@));
            } else {
                assert(lex_lt(fs[ord[p] as int].id@, fs[ord[j] as int].id@));
            }
            lemma_lex_irreflexive(fs[ord[p] as int].id@);
        }
        let h = choose|h: int| 0 <= h < ord.len() && fs[#[trigger] ord[h] as int].id@ == rc.final_position@;
        if h != q {
            if h < q {
                assert(lex_lt(fs[ord[h] as int].id@, fs[ord[q] as int].id@));
            } else {
                assert(lex_lt(fs[ord[q] as int].id@, fs[ord[h] as int].id@));
            }
            lemma_lex_irreflexive(fs[ord[q] as int].id@);
        }
        let led = current_fact_with(fs, ord, rc.ledger_balance@);
        let pos = current_fact_with(fs, ord, rc.final_position@);
        assert(led == fs[ord[p] as int]);
        assert(pos == fs[ord[q] as int]);
        let b = FinalEconomyBlocker::LedgerMismatch { final_position: pos.amount, ledger_balance: led.amount };
        let r0 = reconciliation(fs, ord, rc).0;
        assert(r0[r0.len() - 1] == b);
        let raw = raw_blockers(fs, ord, rc);
        let head = evidence_blockers(fs, ord, ord.len() as int) + kind_blockers(fs, ord) + target_blockers(fs, ord, ord.len() as int)
            + unsettled_blockers(unsettled_ids(fs, ord, ord.len() as int));
        assert(raw == head + r0);
        assert(raw[head.len() + r0.len() - 1] == b);
        lemma_raw_blocker_reported(c, ord, rep, b);
    }
}

} // verus!
