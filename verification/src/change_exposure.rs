//! Deterministic commercial exposure views over one-chain change facts.

use vstd::prelude::*;
use crate::change::{fact_check, record_check, ChangeFact, ChangeRecord, ChangeScheduleImpact, ChangeStage, ChangeStatus};
use crate::charter::CurrencyCode;
use crate::commercial::{CommercialSide, ReferencedAmountEvidence};
use crate::date::ProjectDate;
use crate::error::ConstructionProjectError;
use crate::change::impact_same;
use crate::commercial::{side_label, side_total, side_total_fits, checked_total};
use crate::identity::{ChangeId, ControlId};
use crate::order::{
    id_set, ids_sorted, insert_id, insert_text, lemma_lex_asymmetric, lemma_lex_irreflexive, lemma_lex_total,
    lemma_lex_transitive, lex_lt, text_precedes, text_set, texts_sorted,
};

verus! {

/// Initiating records and immutable stage facts for construction changes.
#[derive(Debug, PartialEq, Eq)]
pub struct ChangeControlSet {
    /// One initiating record per stable change identity.
    pub changes: Vec<ChangeRecord>,
    /// Immutable stage and correction facts.
    pub facts: Vec<ChangeFact>,
}

/// The record passes its own checks.
pub open spec fn record_ok(c: ChangeRecord) -> bool {
    record_check(c, Ok(()))
}

/// Record `i` fails its checks, belongs to another project than the record
/// before it, or repeats an earlier change id.
pub open spec fn change_fault(cs: Seq<ChangeRecord>, i: int) -> bool {
    &&& 0 <= i < cs.len()
    &&& !record_ok(cs[i]) || (i > 0 && cs[i].project@ != cs[i - 1].project@) || exists|j: int|
        0 <= j < i && (#[trigger] cs[j]).id@ == cs[i].id@
}

/// What checking the change records answers: the first faulty record.
pub open spec fn changes_check(cs: Seq<ChangeRecord>, r: Result<(), ConstructionProjectError>) -> bool {
    if exists|i: int| #[trigger] change_fault(cs, i) {
        exists|i: int| #[trigger] change_fault(cs, i) && (forall|j: int| 0 <= j < i ==> !#[trigger] change_fault(cs, j))
            && if !record_ok(cs[i]) {
                record_check(cs[i], r)
            } else if i > 0 && cs[i].project@ != cs[i - 1].project@ {
                r matches Err(ConstructionProjectError::ProjectMismatch { expected, actual }) && expected == cs[i - 1].project
                    && actual == cs[i].project
            } else {
                r matches Err(ConstructionProjectError::DuplicateId { kind, id }) && kind == "change" && id@ == cs[i].id@
            }
    } else {
        r is Ok
    }
}

/// `ChangeRecord::validate` answers `Ok` exactly for valid records.
pub proof fn lemma_record_check_ok(c: ChangeRecord, r: Result<(), ConstructionProjectError>)
    requires
        record_check(c, r),
    ensures
        r is Ok <==> record_ok(c),
{
}

/// The fact passes its own checks.
pub open spec fn fact_ok(f: ChangeFact, charter: CurrencyCode) -> bool {
    fact_check(f, charter, Ok(()))
}

/// `validate_change_fact` answers `Ok` exactly for valid facts.
pub proof fn lemma_fact_check_ok(f: ChangeFact, charter: CurrencyCode, r: Result<(), ConstructionProjectError>)
    requires
        fact_check(f, charter, r),
    ensures
        r is Ok <==> fact_ok(f, charter),
{
}

/// Some record has change id `x`.
pub open spec fn has_change(cs: Seq<ChangeRecord>, x: Seq<char>) -> bool {
    exists|i: int| 0 <= i < cs.len() && (#[trigger] cs[i]).id@ == x
}

/// Fact `k` fails its checks, names no recorded change, or repeats an
/// earlier fact control or sequence.
pub open spec fn fact_fault(fs: Seq<ChangeFact>, cs: Seq<ChangeRecord>, charter: CurrencyCode, k: int) -> bool {
    &&& 0 <= k < fs.len()
    &&& {
        ||| !fact_ok(fs[k], charter)
        ||| !has_change(cs, fs[k].change@)
        ||| exists|j: int| 0 <= j < k && (#[trigger] fs[j]).control@ == fs[k].control@
        ||| exists|j: int| 0 <= j < k && (#[trigger] fs[j]).fact_seq == fs[k].fact_seq
    }
}

/// What checking the facts answers: the first faulty fact.
pub open spec fn facts_check(fs: Seq<ChangeFact>, cs: Seq<ChangeRecord>, charter: CurrencyCode, r: Result<(), ConstructionProjectError>) -> bool {
    if exists|k: int| #[trigger] fact_fault(fs, cs, charter, k) {
        exists|k: int| #[trigger] fact_fault(fs, cs, charter, k)
            && (forall|j: int| 0 <= j < k ==> !#[trigger] fact_fault(fs, cs, charter, j))
            && if !fact_ok(fs[k], charter) {
                fact_check(fs[k], charter, r)
            } else if !has_change(cs, fs[k].change@) {
                r matches Err(ConstructionProjectError::ChangeFactDerivation { fact, reason }) && fact == fs[k].control
                    && reason == "fact references a missing change"
            } else if exists|j: int| 0 <= j < k && (#[trigger] fs[j]).control@ == fs[k].control@ {
                r matches Err(ConstructionProjectError::DuplicateId { kind, id }) && kind == "change_fact"
                    && id@ == fs[k].control@
            } else {
                r == Err::<(), ConstructionProjectError>(ConstructionProjectError::DuplicateSequence { sequence: fs[k].fact_seq })
            }
    } else {
        r is Ok
    }
}

/// Position of the fact with control `x`, when there is one.
pub open spec fn fact_with_control(fs: Seq<ChangeFact>, x: Seq<char>) -> int {
    choose|j: int| 0 <= j < fs.len() && (#[trigger] fs[j]).control@ == x
}

/// Some fact has control `x`.
pub open spec fn has_fact(fs: Seq<ChangeFact>, x: Seq<char>) -> bool {
    exists|j: int| 0 <= j < fs.len() && (#[trigger] fs[j]).control@ == x
}

/// The correction carried by fact `k` is refused: its prior fact is
/// missing, does not precede it in the same change and stage, or is
/// already corrected by an earlier fact.
pub open spec fn correction_fault(fs: Seq<ChangeFact>, k: int) -> bool {
    &&& 0 <= k < fs.len()
    &&& fs[k].supersedes is Some
    &&& {
        let p = fs[k].supersedes->0@;
        ||| !has_fact(fs, p)
        ||| {
            let prior = fs[fact_with_control(fs, p)];
            prior.change@ != fs[k].change@ || prior.stage != fs[k].stage || prior.fact_seq >= fs[k].fact_seq
        }
        ||| exists|j: int| 0 <= j < k && ((#[trigger] fs[j]).supersedes matches Some(q) && q@ == p)
    }
}

/// What checking the corrections answers: the first refused correction.
pub open spec fn corrections_check(fs: Seq<ChangeFact>, r: Result<(), ConstructionProjectError>) -> bool {
    if exists|k: int| #[trigger] correction_fault(fs, k) {
        exists|k: int| #[trigger] correction_fault(fs, k) && (forall|j: int| 0 <= j < k ==> !#[trigger] correction_fault(fs, j))
            && (r matches Err(ConstructionProjectError::ChangeFactDerivation { fact, reason }) && fact == fs[k].control
            && reason == (if !has_fact(fs, fs[k].supersedes->0@) {
                "correction references a missing prior fact"
            } else if {
                let prior = fs[fact_with_control(fs, fs[k].supersedes->0@)];
                prior.change@ != fs[k].change@ || prior.stage != fs[k].stage || prior.fact_seq >= fs[k].fact_seq
            } {
                "correction must advance the same change and stage"
            } else {
                "more than one correction supersedes the same fact"
            }))
    } else {
        r is Ok
    }
}

/// Fact `k` is corrected by some fact.
pub open spec fn corrected(fs: Seq<ChangeFact>, k: int) -> bool {
    exists|j: int| 0 <= j < fs.len() && ((#[trigger] fs[j]).supersedes matches Some(p) && p@ == fs[k].control@)
}

/// Fact `k` is current and an earlier current fact has its change and stage.
pub open spec fn stage_clash(fs: Seq<ChangeFact>, k: int) -> bool {
    &&& 0 <= k < fs.len()
    &&& !corrected(fs, k)
    &&& exists|j: int| 0 <= j < k && !corrected(fs, j) && (#[trigger] fs[j]).change@ == fs[k].change@ && fs[j].stage == fs[k].stage
}

/// What checking the current stage facts answers: the first clash.
pub open spec fn clashes_check(fs: Seq<ChangeFact>, r: Result<(), ConstructionProjectError>) -> bool {
    if exists|k: int| #[trigger] stage_clash(fs, k) {
        exists|k: int, j: int| #[trigger] stage_clash(fs, k) && (forall|q: int| 0 <= q < k ==> !#[trigger] stage_clash(fs, q))
            && 0 <= j < k && !corrected(fs, j) && (#[trigger] fs[j]).change@ == fs[k].change@ && fs[j].stage == fs[k].stage
            && (r matches Err(ConstructionProjectError::ChangeFactDerivation { fact, reason }) && fact == fs[k].control
            && reason == (if fs[j].supersedes is Some || fs[k].supersedes is Some {
                "correction chain leaves more than one current stage fact"
            } else {
                "duplicate current stage fact has no correction edge"
            }))
    } else {
        r is Ok
    }
}

impl ChangeControlSet {
    /// Builds an empty change-control set.
    pub fn new() -> (s: Self)
        ensures
            s.changes@.len() == 0,
            s.facts@.len() == 0,
    {
        ChangeControlSet { changes: Vec::new(), facts: Vec::new() }
    }

    /// Adds an initiating change record.
    pub fn with_change(self, change: ChangeRecord) -> (s: Self)
        ensures
            s.changes@ == self.changes@.push(change),
            s.facts@ == self.facts@,
    {
        let mut s = self;
        s.changes.push(change);
        s
    }

    /// Adds an immutable stage fact.
    pub fn with_fact(self, fact: ChangeFact) -> (s: Self)
        ensures
            s.changes@ == self.changes@,
            s.facts@ == self.facts@.push(fact),
    {
        let mut s = self;
        s.facts.push(fact);
        s
    }

    /// Checks every change record, one project for all records, and unique change ids.
    pub fn check_changes(&self) -> (r: Result<(), ConstructionProjectError>)
        ensures
            changes_check(self.changes@, r),
    {
        let ghost cs = self.changes@;
        let mut i: usize = 0;
        while i < self.changes.len()
            invariant
                cs == self.changes@,
                i <= cs.len(),
                forall|j: int| 0 <= j < i ==> !#[trigger] change_fault(cs, j),
            decreases cs.len() - i,
        {
            let checked = self.changes[i].validate();
            proof {
                lemma_record_check_ok(cs[i as int], checked);
            }
            match checked {
                Ok(()) => {},
                Err(e) => {
                    proof {
                        assert(change_fault(cs, i as int));
                    }
                    return Err(e);
                },
            }
            if i > 0 && !self.changes[i - 1].project.same(&self.changes[i].project) {
                proof {
                    assert(change_fault(cs, i as int));
                }
                return Err(ConstructionProjectError::ProjectMismatch {
                    expected: self.changes[i - 1].project.clone(),
                    actual: self.changes[i].project.clone(),
                });
            }
            let mut j: usize = 0;
            while j < i
                invariant
                    cs == self.changes@,
                    i < cs.len(),
                    j <= i,
                    record_ok(cs[i as int]),
                    !(i > 0 && cs[i as int].project@ != cs[i - 1].project@),
                    forall|q: int| 0 <= q < i ==> !#[trigger] change_fault(cs, q),
                    forall|q: int| 0 <= q < j ==> (#[trigger] cs[q]).id@ != cs[i as int].id@,
                decreases i - j,
            {
                if self.changes[j].id.same(&self.changes[i].id) {
                    proof {
                        assert(change_fault(cs, i as int));
                    }
                    return Err(ConstructionProjectError::DuplicateId { kind: "change", id: self.changes[i].id.as_str().to_owned() });
                }
                j = j + 1;
            }
            proof {
                assert(!change_fault(cs, i as int));
            }
            i = i + 1;
        }
        proof {
            assert forall|j: int| !#[trigger] change_fault(cs, j) by {
                if 0 <= j < cs.len() {
                }
            }
        }
        Ok(())
    }

    fn change_recorded(&self, id: &ChangeId) -> (b: bool)
        ensures
            b == has_change(self.changes@, id@),
    {
        let mut i: usize = 0;
        while i < self.changes.len()
            invariant
                i <= self.changes@.len(),
                forall|j: int| 0 <= j < i ==> (#[trigger] self.changes@[j]).id@ != id@,
            decreases self.changes.len() - i,
        {
            if self.changes[i].id.same(id) {
                return true;
            }
            i = i + 1;
        }
        false
    }

    /// Checks every fact, that it names a recorded change, and unique fact
    /// controls and sequences.
    pub fn check_facts(&self, charter_currency: &CurrencyCode) -> (r: Result<(), ConstructionProjectError>)
        ensures
            facts_check(self.facts@, self.changes@, *charter_currency, r),
    {
        let ghost fs = self.facts@;
        let ghost cs = self.changes@;
        let ghost ch = *charter_currency;
        let mut k: usize = 0;
        while k < self.facts.len()
            invariant
                fs == self.facts@,
                cs == self.changes@,
                ch == *charter_currency,
                k <= fs.len(),
                forall|j: int| 0 <= j < k ==> !#[trigger] fact_fault(fs, cs, ch, j),
            decreases fs.len() - k,
        {
            let checked = self.facts[k].validate(charter_currency);
            proof {
                lemma_fact_check_ok(fs[k as int], ch, checked);
            }
            match checked {
                Ok(()) => {},
                Err(e) => {
                    proof {
                        assert(fact_fault(fs, cs, ch, k as int));
                    }
                    return Err(e);
                },
            }
            if !self.change_recorded(&self.facts[k].change) {
                proof {
                    assert(fact_fault(fs, cs, ch, k as int));
                }
                return Err(ConstructionProjectError::ChangeFactDerivation {
                    fact: self.facts[k].control.clone(),
                    reason: "fact references a missing change",
                });
            }
            let mut j: usize = 0;
            while j < k
                invariant
                    fs == self.facts@,
                    cs == self.changes@,
                    ch == *charter_currency,
                    k < fs.len(),
                    j <= k,
                    fact_ok(fs[k as int], ch),
                    has_change(cs, fs[k as int].change@),
                    forall|q: int| 0 <= q < k ==> !#[trigger] fact_fault(fs, cs, ch, q),
                    forall|q: int| 0 <= q < j ==> (#[trigger] fs[q]).control@ != fs[k as int].control@,
                decreases k - j,
            {
                if self.facts[j].control.same(&self.facts[k].control) {
                    proof {
                        assert(fact_fault(fs, cs, ch, k as int));
                    }
                    return Err(ConstructionProjectError::DuplicateId {
                        kind: "change_fact",
                        id: self.facts[k].control.as_str().to_owned(),
                    });
                }
                j = j + 1;
            }
            let mut j2: usize = 0;
            while j2 < k
                invariant
                    fs == self.facts@,
                    cs == self.changes@,
                    ch == *charter_currency,
                    k < fs.len(),
                    j2 <= k,
                    fact_ok(fs[k as int], ch),
                    has_change(cs, fs[k as int].change@),
                    forall|q: int| 0 <= q < k ==> (#[trigger] fs[q]).control@ != fs[k as int].control@,
                    forall|q: int| 0 <= q < k ==> !#[trigger] fact_fault(fs, cs, ch, q),
                    forall|q: int| 0 <= q < j2 ==> (#[trigger] fs[q]).fact_seq != fs[k as int].fact_seq,
                decreases k - j2,
            {
                if self.facts[j2].fact_seq == self.facts[k].fact_seq {
                    proof {
                        assert(fact_fault(fs, cs, ch, k as int));
                    }
                    return Err(ConstructionProjectError::DuplicateSequence { sequence: self.facts[k].fact_seq });
                }
                j2 = j2 + 1;
            }
            proof {
                assert(!fact_fault(fs, cs, ch, k as int));
            }
            k = k + 1;
        }
        proof {
            assert forall|j: int| !#[trigger] fact_fault(fs, cs, ch, j) by {
                if 0 <= j < fs.len() {
                }
            }
        }
        Ok(())
    }
}


/// No two facts share a control.
pub open spec fn fact_controls_unique(fs: Seq<ChangeFact>) -> bool {
    forall|i: int, j: int| 0 <= i < j < fs.len() ==> (#[trigger] fs[i]).control@ != (#[trigger] fs[j]).control@
}

/// A clean fact check leaves fact controls unique.
pub proof fn lemma_facts_unique(fs: Seq<ChangeFact>, cs: Seq<ChangeRecord>, charter: CurrencyCode)
    requires
        facts_check(fs, cs, charter, Ok(())),
    ensures
        fact_controls_unique(fs),
{
    assert forall|i: int, j: int| 0 <= i < j < fs.len() implies (#[trigger] fs[i]).control@ != (#[trigger] fs[j]).control@ by {
        assert(!fact_fault(fs, cs, charter, j));
    }
}

impl ChangeControlSet {
    fn find_fact(&self, control: &ControlId) -> (r: Option<usize>)
        requires
            fact_controls_unique(self.facts@),
        ensures
            r is None <==> !has_fact(self.facts@, control@),
            r matches Some(j) ==> j == fact_with_control(self.facts@, control@) && j < self.facts@.len(),
    {
        let mut i: usize = 0;
        while i < self.facts.len()
            invariant
                fact_controls_unique(self.facts@),
                i <= self.facts@.len(),
                forall|j: int| 0 <= j < i ==> (#[trigger] self.facts@[j]).control@ != control@,
            decreases self.facts.len() - i,
        {
            if self.facts[i].control.same(control) {
                proof {
                    let c = fact_with_control(self.facts@, control@);
                    assert(self.facts@[c].control@ == control@);
                    if c != i as int {
                        if c < i {
                            assert(self.facts@[c].control@ != self.facts@[i as int].control@);
                        } else {
                            assert(self.facts@[i as int].control@ != self.facts@[c].control@);
                        }
                    }
                }
                return Some(i);
            }
            i = i + 1;
        }
        None
    }

    /// Checks every correction: its prior fact exists, precedes it in the
    /// same change and stage, and is corrected only once.
    fn check_corrections(&self) -> (r: Result<(), ConstructionProjectError>)
        requires
            fact_controls_unique(self.facts@),
        ensures
            corrections_check(self.facts@, r),
    {
        let ghost fs = self.facts@;
        let mut k: usize = 0;
        while k < self.facts.len()
            invariant
                fs == self.facts@,
                fact_controls_unique(fs),
                k <= fs.len(),
                forall|j: int| 0 <= j < k ==> !#[trigger] correction_fault(fs, j),
            decreases fs.len() - k,
        {
            match &self.facts[k].supersedes {
                None => {
                    proof {
                        assert(!correction_fault(fs, k as int));
                    }
                },
                Some(prior_id) => {
                    let found = self.find_fact(prior_id);
                    match found {
                        None => {
                            proof {
                                assert(correction_fault(fs, k as int));
                            }
                            return Err(ConstructionProjectError::ChangeFactDerivation {
                                fact: self.facts[k].control.clone(),
                                reason: "correction references a missing prior fact",
                            });
                        },
                        Some(p) => {
                            let prior = &self.facts[p];
                            if !prior.change.same(&self.facts[k].change) || prior.stage != self.facts[k].stage
                                || prior.fact_seq >= self.facts[k].fact_seq {
                                proof {
                                    assert(correction_fault(fs, k as int));
                                }
                                return Err(ConstructionProjectError::ChangeFactDerivation {
                                    fact: self.facts[k].control.clone(),
                                    reason: "correction must advance the same change and stage",
                                });
                            }
                            let mut j: usize = 0;
                            while j < k
                                invariant
                                    fs == self.facts@,
                                    fact_controls_unique(fs),
                                    k < fs.len(),
                                    j <= k,
                                    fs[k as int].supersedes == Some(*prior_id),
                                    has_fact(fs, prior_id@),
                                    ({
                                        let pr = fs[fact_with_control(fs, prior_id@)];
                                        !(pr.change@ != fs[k as int].change@ || pr.stage != fs[k as int].stage
                                            || pr.fact_seq >= fs[k as int].fact_seq)
                                    }),
                                    forall|q: int| 0 <= q < k ==> !#[trigger] correction_fault(fs, q),
                                    forall|q: int| 0 <= q < j ==> !((#[trigger] fs[q]).supersedes matches Some(x) && x@ == prior_id@),
                                decreases k - j,
                            {
                                let repeats = match &self.facts[j].supersedes {
                                    Some(x) => x.same(prior_id),
                                    None => false,
                                };
                                if repeats {
                                    proof {
                                        assert(correction_fault(fs, k as int));
                                    }
                                    return Err(ConstructionProjectError::ChangeFactDerivation {
                                        fact: self.facts[k].control.clone(),
                                        reason: "more than one correction supersedes the same fact",
                                    });
                                }
                                j = j + 1;
                            }
                            proof {
                                assert(!correction_fault(fs, k as int));
                            }
                        },
                    }
                },
            }
            k = k + 1;
        }
        proof {
            assert forall|j: int| !#[trigger] correction_fault(fs, j) by {
                if 0 <= j < fs.len() {
                }
            }
        }
        Ok(())
    }

    /// For each fact, whether some fact corrects it.
    fn corrected_flags(&self) -> (flags: Vec<bool>)
        ensures
            flags@.len() == self.facts@.len(),
            forall|k: int| 0 <= k < flags@.len() ==> flags@[k] == corrected(self.facts@, k),
    {
        let ghost fs = self.facts@;
        let mut flags: Vec<bool> = Vec::new();
        let mut k: usize = 0;
        while k < self.facts.len()
            invariant
                fs == self.facts@,
                k <= fs.len(),
                flags@.len() == k,
                forall|q: int| 0 <= q < k ==> flags@[q] == corrected(fs, q),
            decreases fs.len() - k,
        {
            let mut found = false;
            let mut j: usize = 0;
            while j < self.facts.len()
                invariant
                    fs == self.facts@,
                    k < fs.len(),
                    j <= fs.len(),
                    found == exists|q: int| 0 <= q < j && ((#[trigger] fs[q]).supersedes matches Some(p) && p@ == fs[k as int].control@),
                decreases fs.len() - j,
            {
                let hit = match &self.facts[j].supersedes {
                    Some(p) => p.same(&self.facts[k].control),
                    None => false,
                };
                if hit {
                    found = true;
                }
                j = j + 1;
            }
            flags.push(found);
            k = k + 1;
        }
        flags
    }

    /// Rejects two current facts for one change and stage.
    fn check_clashes(&self, flags: &Vec<bool>) -> (r: Result<(), ConstructionProjectError>)
        requires
            flags@.len() == self.facts@.len(),
            forall|k: int| 0 <= k < flags@.len() ==> flags@[k] == corrected(self.facts@, k),
        ensures
            clashes_check(self.facts@, r),
    {
        let ghost fs = self.facts@;
        let mut k: usize = 0;
        while k < self.facts.len()
            invariant
                fs == self.facts@,
                flags@.len() == fs.len(),
                forall|q: int| 0 <= q < flags@.len() ==> flags@[q] == corrected(fs, q),
                k <= fs.len(),
                forall|q: int| 0 <= q < k ==> !#[trigger] stage_clash(fs, q),
            decreases fs.len() - k,
        {
            if !flags[k] {
                let mut j: usize = 0;
                while j < k
                    invariant
                        fs == self.facts@,
                        flags@.len() == fs.len(),
                        forall|q: int| 0 <= q < flags@.len() ==> flags@[q] == corrected(fs, q),
                        k < fs.len(),
                        j <= k,
                        !corrected(fs, k as int),
                        forall|q: int| 0 <= q < k ==> !#[trigger] stage_clash(fs, q),
                        forall|q: int| 0 <= q < j ==> !(!corrected(fs, q) && (#[trigger] fs[q]).change@ == fs[k as int].change@
                            && fs[q].stage == fs[k as int].stage),
                    decreases k - j,
                {
                    if !flags[j] && self.facts[j].change.same(&self.facts[k].change) && self.facts[j].stage == self.facts[k].stage {
                        let chained = self.facts[j].supersedes.is_some() || self.facts[k].supersedes.is_some();
                        let reason = if chained {
                            "correction chain leaves more than one current stage fact"
                        } else {
                            "duplicate current stage fact has no correction edge"
                        };
                        let e = ConstructionProjectError::ChangeFactDerivation { fact: self.facts[k].control.clone(), reason };
                        proof {
                            assert(stage_clash(fs, k as int));
                            assert(0 <= j < k && !corrected(fs, j as int) && fs[j as int].change@ == fs[k as int].change@
                                && fs[j as int].stage == fs[k as int].stage);
                        }
                        return Err(e);
                    }
                    j = j + 1;
                }
            }
            proof {
                assert(!stage_clash(fs, k as int));
            }
            k = k + 1;
        }
        proof {
            assert forall|j: int| !#[trigger] stage_clash(fs, j) by {
                if 0 <= j < fs.len() {
                }
            }
        }
        Ok(())
    }
}


/// Final supplier/customer settlement values with reference-only evidence.
#[derive(Debug, PartialEq, Eq)]
pub struct ChangeSettlementView {
    /// Stable change identity.
    pub change: ChangeId,
    /// Effective date of the settlement fact.
    pub settled_on: ProjectDate,
    /// Exact supplier settlement in minor units, without any inferred payment state.
    pub supplier: i64,
    /// Exact customer settlement in minor units, without any inferred receipt state.
    pub customer: i64,
    /// Supplier settlement less customer settlement.
    pub net: i64,
    /// Whether an accountable closure fact reconciles to these exact values.
    pub closed: bool,
    /// Versioned document or ledger references used by the settlement fact.
    pub references: Vec<ReferencedAmountEvidence>,
}

/// Current derived view of one stable construction change chain.
#[derive(Debug, PartialEq, Eq)]
pub struct ChangeExposureView {
    /// Stable change identity.
    pub change: ChangeId,
    /// Status of the furthest current stage.
    pub status: ChangeStatus,
    /// Current stage facts, ordered by lifecycle stage.
    pub current_facts: Vec<ControlId>,
    /// Union of affected construction controls.
    pub affected_controls: Vec<ControlId>,
    /// Union of affected canonical Gantt task ids.
    pub affected_tasks: Vec<String>,
    /// Union of affected work-package controls.
    pub affected_packages: Vec<ControlId>,
    /// Current supplier-side exposure.
    pub supplier_exposure: i64,
    /// Current quoted or settled customer recovery.
    pub customer_recovery: i64,
    /// Explicitly approved customer value.
    pub approved_customer: i64,
    /// Supplier exposure less customer recovery.
    pub net_exposure: i64,
    /// True while a current non-zero schedule effect remains open.
    pub time_risk: bool,
    /// Current baseline-aware schedule impact, when assessed.
    pub schedule_impact: Option<ChangeScheduleImpact>,
    /// True when required contractual notice is overdue and unrecorded.
    pub overdue_notice: bool,
    /// Final settlement values, when a settlement fact exists.
    pub settlement: Option<ChangeSettlementView>,
}

/// Stage at position `i` of the lifecycle.
pub open spec fn stage_at(i: int) -> ChangeStage {
    if i == 0 {
        ChangeStage::ScopeAssessment
    } else if i == 1 {
        ChangeStage::TimeEffect
    } else if i == 2 {
        ChangeStage::SupplierExposure
    } else if i == 3 {
        ChangeStage::CustomerRecovery
    } else if i == 4 {
        ChangeStage::Quotation
    } else if i == 5 {
        ChangeStage::AuthorityDecision
    } else if i == 6 {
        ChangeStage::Forecast
    } else if i == 7 {
        ChangeStage::Execution
    } else if i == 8 {
        ChangeStage::Settlement
    } else {
        ChangeStage::Closure
    }
}

/// Position of a stage in the lifecycle.
pub open spec fn stage_position(s: ChangeStage) -> int {
    match s {
        ChangeStage::ScopeAssessment => 0,
        ChangeStage::TimeEffect => 1,
        ChangeStage::SupplierExposure => 2,
        ChangeStage::CustomerRecovery => 3,
        ChangeStage::Quotation => 4,
        ChangeStage::AuthorityDecision => 5,
        ChangeStage::Forecast => 6,
        ChangeStage::Execution => 7,
        ChangeStage::Settlement => 8,
        ChangeStage::Closure => 9,
    }
}

fn stage_slot(s: ChangeStage) -> (i: usize)
    ensures
        i == stage_position(s),
        stage_at(i as int) == s,
{
    match s {
        ChangeStage::ScopeAssessment => 0,
        ChangeStage::TimeEffect => 1,
        ChangeStage::SupplierExposure => 2,
        ChangeStage::CustomerRecovery => 3,
        ChangeStage::Quotation => 4,
        ChangeStage::AuthorityDecision => 5,
        ChangeStage::Forecast => 6,
        ChangeStage::Execution => 7,
        ChangeStage::Settlement => 8,
        ChangeStage::Closure => 9,
    }
}

/// Fact `k` is the current fact of change `cid` at stage `st`.
pub open spec fn is_current(fs: Seq<ChangeFact>, cid: Seq<char>, st: ChangeStage, k: int) -> bool {
    0 <= k < fs.len() && !corrected(fs, k) && fs[k].change@ == cid && fs[k].stage == st
}

/// The current fact of change `cid` at stage `st`, when there is one.
pub open spec fn cur(fs: Seq<ChangeFact>, cid: Seq<char>, st: ChangeStage) -> Option<ChangeFact> {
    if exists|k: int| #[trigger] is_current(fs, cid, st, k) {
        Some(fs[choose|k: int| #[trigger] is_current(fs, cid, st, k)])
    } else {
        None
    }
}

/// No two current facts share a change and stage.
pub open spec fn clash_free(fs: Seq<ChangeFact>) -> bool {
    forall|k: int| !#[trigger] stage_clash(fs, k)
}

/// In a clash-free fact list the current fact of a change and stage is unique.
pub proof fn lemma_current_unique(fs: Seq<ChangeFact>, cid: Seq<char>, st: ChangeStage, a: int, b: int)
    requires
        clash_free(fs),
        is_current(fs, cid, st, a),
        is_current(fs, cid, st, b),
    ensures
        a == b,
{
    if a < b {
        assert(stage_clash(fs, b));
    } else if b < a {
        assert(stage_clash(fs, a));
    }
}

/// `t` lists, by stage position, the current fact of change `cid`.
pub open spec fn table_matches(fs: Seq<ChangeFact>, cid: Seq<char>, t: Seq<Option<usize>>) -> bool {
    &&& t.len() == 10
    &&& forall|i: int| 0 <= i < 10 ==> (#[trigger] t[i] matches Some(k) ==> is_current(fs, cid, stage_at(i), k as int))
    &&& forall|i: int, k: int|
        #![trigger t[i], is_current(fs, cid, stage_at(i), k)]
        0 <= i < 10 && t[i] is None ==> !is_current(fs, cid, stage_at(i), k)
}

/// Total of the amounts on `side` in fact `f`.
pub open spec fn fact_total(f: ChangeFact, side: CommercialSide) -> int {
    side_total(f.amount_components@, side, f.amount_components@.len() as int)
}

/// Every running total on `side` in fact `f` fits in an `i64`.
pub open spec fn fact_fits(f: ChangeFact, side: CommercialSide) -> bool {
    side_total_fits(f.amount_components@, side)
}

/// One step of the current-total rule: the total of the fact at `st` when
/// it is non-zero or `st` is the settlement stage, else `rest`; `None` on overflow.
pub open spec fn pick_total(fs: Seq<ChangeFact>, cid: Seq<char>, st: ChangeStage, side: CommercialSide, rest: Option<int>) -> Option<int> {
    match cur(fs, cid, st) {
        None => rest,
        Some(f) => if !fact_fits(f, side) {
            None
        } else if fact_total(f, side) != 0 || st == ChangeStage::Settlement {
            Some(fact_total(f, side))
        } else {
            rest
        },
    }
}

/// The current total on `side` read from stages `a`, `b`, `c` in that order.
pub open spec fn current_total3(fs: Seq<ChangeFact>, cid: Seq<char>, a: ChangeStage, b: ChangeStage, c: ChangeStage, side: CommercialSide) -> Option<int> {
    pick_total(fs, cid, a, side, pick_total(fs, cid, b, side, pick_total(fs, cid, c, side, Some(0))))
}

/// Current supplier exposure: settlement, else forecast, else supplier exposure.
pub open spec fn supplier_total(fs: Seq<ChangeFact>, cid: Seq<char>) -> Option<int> {
    current_total3(fs, cid, ChangeStage::Settlement, ChangeStage::Forecast, ChangeStage::SupplierExposure, CommercialSide::Supplier)
}

/// Current customer recovery: settlement, else quotation, else customer recovery.
pub open spec fn customer_total(fs: Seq<ChangeFact>, cid: Seq<char>) -> Option<int> {
    current_total3(fs, cid, ChangeStage::Settlement, ChangeStage::Quotation, ChangeStage::CustomerRecovery, CommercialSide::Customer)
}

/// Customer value of a current approval, zero without one.
pub open spec fn approved_total(fs: Seq<ChangeFact>, cid: Seq<char>) -> Option<int> {
    match cur(fs, cid, ChangeStage::AuthorityDecision) {
        None => Some(0),
        Some(f) => if f.status == ChangeStatus::Approved || f.status == ChangeStatus::PartiallyApproved {
            if fact_fits(f, CommercialSide::Customer) {
                Some(fact_total(f, CommercialSide::Customer))
            } else {
                None
            }
        } else {
            Some(0)
        },
    }
}

/// The value fits in an `i64`.
pub open spec fn fits_i64(x: int) -> bool {
    i64::MIN <= x <= i64::MAX
}

/// Status of the furthest current stage among the first `n`, or assessing.
pub open spec fn status_upto(fs: Seq<ChangeFact>, cid: Seq<char>, n: int) -> ChangeStatus
    decreases n,
{
    if n <= 0 {
        ChangeStatus::Assessing
    } else {
        match cur(fs, cid, stage_at(n - 1)) {
            Some(f) => f.status,
            None => status_upto(fs, cid, n - 1),
        }
    }
}

/// Controls of the current facts among the first `n` stages, in stage order.
pub open spec fn controls_upto(fs: Seq<ChangeFact>, cid: Seq<char>, n: int) -> Seq<ControlId>
    decreases n,
{
    if n <= 0 {
        Seq::empty()
    } else {
        match cur(fs, cid, stage_at(n - 1)) {
            Some(f) => controls_upto(fs, cid, n - 1).push(f.control),
            None => controls_upto(fs, cid, n - 1),
        }
    }
}

/// Which affected list of a fact or record is meant.
#[derive(Clone, Copy, Debug, PartialEq, Eq, Structural)]
pub enum AffectedList {
    /// Affected construction controls.
    Controls,
    /// Affected work-package controls.
    Packages,
}

/// The affected list `which` of a fact.
pub open spec fn fact_list(f: ChangeFact, which: AffectedList) -> Seq<ControlId> {
    match which {
        AffectedList::Controls => f.affected_controls@,
        AffectedList::Packages => f.affected_packages@,
    }
}

/// The affected list `which` of a record.
pub open spec fn record_list(c: ChangeRecord, which: AffectedList) -> Seq<ControlId> {
    match which {
        AffectedList::Controls => c.affected_controls@,
        AffectedList::Packages => c.affected_packages@,
    }
}

/// Ids in list `which` of the current facts among the first `n` stages.
pub open spec fn ids_upto(fs: Seq<ChangeFact>, cid: Seq<char>, which: AffectedList, n: int) -> Set<Seq<char>>
    decreases n,
{
    if n <= 0 {
        Set::empty()
    } else {
        match cur(fs, cid, stage_at(n - 1)) {
            Some(f) => ids_upto(fs, cid, which, n - 1).union(id_set(fact_list(f, which))),
            None => ids_upto(fs, cid, which, n - 1),
        }
    }
}

/// Task ids of the current facts among the first `n` stages.
pub open spec fn tasks_upto(fs: Seq<ChangeFact>, cid: Seq<char>, n: int) -> Set<Seq<char>>
    decreases n,
{
    if n <= 0 {
        Set::empty()
    } else {
        match cur(fs, cid, stage_at(n - 1)) {
            Some(f) => tasks_upto(fs, cid, n - 1).union(text_set(f.affected_tasks@)),
            None => tasks_upto(fs, cid, n - 1),
        }
    }
}

/// Every lifecycle stage has a current fact.
pub open spec fn all_stages_current(fs: Seq<ChangeFact>, cid: Seq<char>) -> bool {
    forall|i: int| 0 <= i < 10 ==> (#[trigger] cur(fs, cid, stage_at(i))) is Some
}

/// The settlement view fields for settlement fact `sf` with totals `s` and `c`.
pub open spec fn settlement_fields(v: ChangeSettlementView, rec: ChangeRecord, sf: ChangeFact, s: int, c: int, closed: bool) -> bool {
    &&& v.change == rec.id
    &&& v.settled_on == sf.effective_on
    &&& v.supplier == s
    &&& v.customer == c
    &&& v.net == s - c
    &&& v.closed == closed
    &&& v.references@ == sf.references@
}

/// A closure total that differs from the settlement total.
pub open spec fn mismatch_error(rec: ChangeRecord, side: CommercialSide, settlement: int, closure: int, e: ConstructionProjectError) -> bool {
    e matches ConstructionProjectError::ChangeSettlementMismatch { change, side: label, settlement: s, closure: c }
        && change == rec.id && label@ == side_label(side) && s == settlement && c == closure
}

/// What the settlement view of a change answers.
pub open spec fn settlement_outcome(rec: ChangeRecord, fs: Seq<ChangeFact>, r: Result<Option<ChangeSettlementView>, ConstructionProjectError>) -> bool {
    let cid = rec.id@;
    match cur(fs, cid, ChangeStage::Settlement) {
        None => if cur(fs, cid, ChangeStage::Closure) is Some {
            r matches Err(ConstructionProjectError::ChangeDerivation { change, reason }) && change == rec.id
                && reason == "closure has no current settlement fact"
        } else {
            r matches Ok(None)
        },
        Some(sf) => {
            let s = fact_total(sf, CommercialSide::Supplier);
            let c = fact_total(sf, CommercialSide::Customer);
            if !fact_fits(sf, CommercialSide::Supplier) {
                r matches Err(ConstructionProjectError::AmountOverflow { field }) && field == "change.settlement.supplier"
            } else if !fact_fits(sf, CommercialSide::Customer) {
                r matches Err(ConstructionProjectError::AmountOverflow { field }) && field == "change.settlement.customer"
            } else if !fits_i64(s - c) {
                r matches Err(ConstructionProjectError::AmountOverflow { field }) && field == "change.settlement.net"
            } else {
                match cur(fs, cid, ChangeStage::Closure) {
                    None => r matches Ok(Some(v)) && settlement_fields(v, rec, sf, s, c, false),
                    Some(cf) => if !all_stages_current(fs, cid) {
                        r matches Err(ConstructionProjectError::ChangeDerivation { change, reason }) && change == rec.id
                            && reason == "closure requires one current fact for every change-chain stage"
                    } else if !fact_fits(cf, CommercialSide::Supplier) {
                        r matches Err(ConstructionProjectError::AmountOverflow { field }) && field == "change.closure.supplier"
                    } else if fact_total(cf, CommercialSide::Supplier) != s {
                        r matches Err(e) && mismatch_error(rec, CommercialSide::Supplier, s, fact_total(cf, CommercialSide::Supplier), e)
                    } else if !fact_fits(cf, CommercialSide::Customer) {
                        r matches Err(ConstructionProjectError::AmountOverflow { field }) && field == "change.closure.customer"
                    } else if fact_total(cf, CommercialSide::Customer) != c {
                        r matches Err(e) && mismatch_error(rec, CommercialSide::Customer, c, fact_total(cf, CommercialSide::Customer), e)
                    } else {
                        r matches Ok(Some(v)) && settlement_fields(v, rec, sf, s, c, true)
                    },
                }
            }
        },
    }
}

/// The schedule impact of the current time-effect fact, if any.
pub open spec fn time_impact(fs: Seq<ChangeFact>, cid: Seq<char>) -> Option<ChangeScheduleImpact> {
    match cur(fs, cid, ChangeStage::TimeEffect) {
        Some(f) => f.schedule_impact,
        None => None,
    }
}

/// The view fields of a change with totals `s`, `c` and approval `a`.
pub open spec fn view_fields(v: ChangeExposureView, rec: ChangeRecord, fs: Seq<ChangeFact>, as_of: ProjectDate, s: int, c: int, a: int) -> bool {
    let cid = rec.id@;
    &&& v.change == rec.id
    &&& v.status == status_upto(fs, cid, 10)
    &&& v.current_facts@ == controls_upto(fs, cid, 10)
    &&& ids_sorted(v.affected_controls@)
    &&& id_set(v.affected_controls@) == id_set(rec.affected_controls@).union(ids_upto(fs, cid, AffectedList::Controls, 10))
    &&& texts_sorted(v.affected_tasks@)
    &&& text_set(v.affected_tasks@) == text_set(rec.affected_tasks@).union(tasks_upto(fs, cid, 10))
    &&& ids_sorted(v.affected_packages@)
    &&& id_set(v.affected_packages@) == id_set(rec.affected_packages@).union(ids_upto(fs, cid, AffectedList::Packages, 10))
    &&& v.supplier_exposure == s
    &&& v.customer_recovery == c
    &&& v.approved_customer == a
    &&& v.net_exposure == s - c
    &&& match time_impact(fs, cid) {
        Some(i) => v.schedule_impact matches Some(vi) && impact_same(vi, i),
        None => v.schedule_impact is None,
    }
    &&& v.time_risk == (v.status != ChangeStatus::Closed && (time_impact(fs, cid) matches Some(i) && i.completion_delta_days != 0))
    &&& v.overdue_notice == (rec.notice_due_on matches Some(d) && as_of.julian_day > d.julian_day && rec.notice_given_on is None)
}

/// What deriving the view of change `rec` answers.
pub open spec fn view_result(rec: ChangeRecord, fs: Seq<ChangeFact>, as_of: ProjectDate, r: Result<ChangeExposureView, ConstructionProjectError>) -> bool {
    let cid = rec.id@;
    let sup = supplier_total(fs, cid);
    let cus = customer_total(fs, cid);
    let app = approved_total(fs, cid);
    if sup is None {
        r matches Err(ConstructionProjectError::AmountOverflow { field }) && field == "change.supplier_exposure"
    } else if cus is None {
        r matches Err(ConstructionProjectError::AmountOverflow { field }) && field == "change.customer_recovery"
    } else if app is None {
        r matches Err(ConstructionProjectError::AmountOverflow { field }) && field == "change.approved_customer"
    } else if !fits_i64(sup->0 - cus->0) {
        r matches Err(ConstructionProjectError::AmountOverflow { field }) && field == "change.net_exposure"
    } else {
        &&& settlement_outcome(rec, fs, match r { Ok(v) => Ok(v.settlement), Err(e) => Err(e) })
        &&& (r matches Ok(v) ==> view_fields(v, rec, fs, as_of, sup->0, cus->0, app->0))
    }
}


/// `t` gives, by stage position, the current fact of change `cid`.
pub open spec fn table_gives(fs: Seq<ChangeFact>, cid: Seq<char>, t: Seq<Option<usize>>) -> bool {
    &&& t.len() == 10
    &&& forall|i: int| 0 <= i < 10 ==> (#[trigger] t[i] matches Some(k) ==> k < fs.len())
    &&& forall|i: int| 0 <= i < 10 ==> cur(fs, cid, stage_at(i)) == match #[trigger] t[i] {
        Some(k) => Some(fs[k as int]),
        None => None,
    }
}

/// In a clash-free fact list a matching table gives the current facts.
pub proof fn lemma_table_gives(fs: Seq<ChangeFact>, cid: Seq<char>, t: Seq<Option<usize>>)
    requires
        clash_free(fs),
        table_matches(fs, cid, t),
    ensures
        table_gives(fs, cid, t),
{
    assert forall|i: int| 0 <= i < 10 implies cur(fs, cid, stage_at(i)) == match #[trigger] t[i] {
        Some(k) => Some(fs[k as int]),
        None => None,
    } by {
        match t[i] {
            Some(k) => {
                assert(is_current(fs, cid, stage_at(i), k as int));
                let c = choose|q: int| #[trigger] is_current(fs, cid, stage_at(i), q);
                lemma_current_unique(fs, cid, stage_at(i), c, k as int);
            },
            None => {
                assert forall|q: int| !#[trigger] is_current(fs, cid, stage_at(i), q) by {
                }
            },
        }
    }
}

fn slot_of(t: &Vec<Option<usize>>, st: ChangeStage) -> (r: Option<usize>)
    requires
        t@.len() == 10,
    ensures
        r == t@[stage_position(st)],
{
    t[stage_slot(st)]
}

impl ChangeControlSet {
    /// For change `cid`, the position of the current fact at each stage.
    fn current_table(&self, flags: &Vec<bool>, cid: &ChangeId) -> (t: Vec<Option<usize>>)
        requires
            flags@.len() == self.facts@.len(),
            forall|k: int| 0 <= k < flags@.len() ==> flags@[k] == corrected(self.facts@, k),
        ensures
            table_matches(self.facts@, cid@, t@),
    {
        let ghost fs = self.facts@;
        let mut t: Vec<Option<usize>> = Vec::new();
        let mut n: usize = 0;
        while n < 10
            invariant
                n <= 10,
                t@.len() == n,
                forall|i: int| 0 <= i < n ==> t@[i] is None,
            decreases 10 - n,
        {
            t.push(None);
            n = n + 1;
        }
        let mut k: usize = 0;
        while k < self.facts.len()
            invariant
                fs == self.facts@,
                flags@.len() == fs.len(),
                forall|q: int| 0 <= q < flags@.len() ==> flags@[q] == corrected(fs, q),
                k <= fs.len(),
                t@.len() == 10,
                forall|i: int| 0 <= i < 10 ==> (#[trigger] t@[i] matches Some(q) ==> q < k && is_current(fs, cid@, stage_at(i), q as int)),
                forall|i: int, q: int|
                    #![trigger t@[i], is_current(fs, cid@, stage_at(i), q)]
                    0 <= i < 10 && t@[i] is None && 0 <= q < k ==> !is_current(fs, cid@, stage_at(i), q),
            decreases fs.len() - k,
        {
            if !flags[k] && self.facts[k].change.same(cid) {
                let slot = stage_slot(self.facts[k].stage);
                t.set(slot, Some(k));
                proof {
                    assert(is_current(fs, cid@, stage_at(slot as int), k as int));
                }
            }
            proof {
                assert forall|i: int, q: int|
                    #![trigger t@[i], is_current(fs, cid@, stage_at(i), q)]
                    0 <= i < 10 && t@[i] is None && 0 <= q < k + 1 implies !is_current(fs, cid@, stage_at(i), q) by {
                    if q == k && is_current(fs, cid@, stage_at(i), q) {
                        assert(stage_position(fs[q].stage) == i) by {
                            assert(fs[q].stage == stage_at(i));
                        }
                    }
                }
            }
            k = k + 1;
        }
        proof {
            assert forall|i: int, q: int|
                #![trigger t@[i], is_current(fs, cid@, stage_at(i), q)]
                0 <= i < 10 && t@[i] is None implies !is_current(fs, cid@, stage_at(i), q) by {
                if 0 <= q < fs.len() {
                }
            }
        }
        t
    }
}


/// The current total on `side` read from stages `a`, `b`, `c` in that order;
/// overflow of a consulted total is an error naming `field`.
fn current_total(
    facts: &Vec<ChangeFact>,
    t: &Vec<Option<usize>>,
    cid: Ghost<Seq<char>>,
    a: ChangeStage,
    b: ChangeStage,
    c: ChangeStage,
    side: CommercialSide,
    field: &'static str,
) -> (r: Result<i64, ConstructionProjectError>)
    requires
        table_gives(facts@, cid@, t@),
    ensures
        match current_total3(facts@, cid@, a, b, c, side) {
            Some(x) => r == Ok::<i64, ConstructionProjectError>(x as i64) && fits_i64(x),
            None => r == Err::<i64, ConstructionProjectError>(ConstructionProjectError::AmountOverflow { field }),
        },
{
    let ghost fs = facts@;
    proof {
        assert(t@[stage_position(a)] == t@[stage_position(a)]);
        assert(cur(fs, cid@, stage_at(stage_position(a))) == cur(fs, cid@, a));
        assert(cur(fs, cid@, stage_at(stage_position(b))) == cur(fs, cid@, b));
        assert(cur(fs, cid@, stage_at(stage_position(c))) == cur(fs, cid@, c));
    }
    match slot_of(t, a) {
        Some(k) => {
            let total = checked_total(&facts[k].amount_components, side, field)?;
            if total != 0 || a == ChangeStage::Settlement {
                return Ok(total);
            }
        },
        None => {},
    }
    match slot_of(t, b) {
        Some(k) => {
            let total = checked_total(&facts[k].amount_components, side, field)?;
            if total != 0 || b == ChangeStage::Settlement {
                return Ok(total);
            }
        },
        None => {},
    }
    match slot_of(t, c) {
        Some(k) => {
            let total = checked_total(&facts[k].amount_components, side, field)?;
            if total != 0 || c == ChangeStage::Settlement {
                return Ok(total);
            }
        },
        None => {},
    }
    Ok(0)
}


fn approved_customer(facts: &Vec<ChangeFact>, t: &Vec<Option<usize>>, cid: Ghost<Seq<char>>) -> (r: Result<i64, ConstructionProjectError>)
    requires
        table_gives(facts@, cid@, t@),
    ensures
        match approved_total(facts@, cid@) {
            Some(x) => r == Ok::<i64, ConstructionProjectError>(x as i64) && fits_i64(x),
            None => r == Err::<i64, ConstructionProjectError>(
                ConstructionProjectError::AmountOverflow { field: "change.approved_customer" },
            ),
        },
{
    proof {
        assert(cur(facts@, cid@, stage_at(stage_position(ChangeStage::AuthorityDecision))) == cur(
            facts@,
            cid@,
            ChangeStage::AuthorityDecision,
        ));
    }
    match slot_of(t, ChangeStage::AuthorityDecision) {
        None => Ok(0),
        Some(k) => {
            let f = &facts[k];
            if f.status == ChangeStatus::Approved || f.status == ChangeStatus::PartiallyApproved {
                checked_total(&f.amount_components, CommercialSide::Customer, "change.approved_customer")
            } else {
                Ok(0)
            }
        },
    }
}

/// Every stage position has a current fact.
fn all_stages(t: &Vec<Option<usize>>) -> (b: bool)
    requires
        t@.len() == 10,
    ensures
        b == forall|i: int| 0 <= i < 10 ==> (#[trigger] t@[i]) is Some,
{
    let mut i: usize = 0;
    while i < 10
        invariant
            t@.len() == 10,
            i <= 10,
            forall|j: int| 0 <= j < i ==> (#[trigger] t@[j]) is Some,
        decreases 10 - i,
    {
        if t[i].is_none() {
            return false;
        }
        i = i + 1;
    }
    true
}

fn settlement_view(rec: &ChangeRecord, facts: &Vec<ChangeFact>, t: &Vec<Option<usize>>) -> (r: Result<Option<ChangeSettlementView>, ConstructionProjectError>)
    requires
        table_gives(facts@, rec.id@, t@),
    ensures
        settlement_outcome(*rec, facts@, r),
{
    let ghost fs = facts@;
    let ghost cid = rec.id@;
    proof {
        assert(cur(fs, cid, stage_at(stage_position(ChangeStage::Settlement))) == cur(fs, cid, ChangeStage::Settlement));
        assert(cur(fs, cid, stage_at(stage_position(ChangeStage::Closure))) == cur(fs, cid, ChangeStage::Closure));
    }
    let sk = match slot_of(t, ChangeStage::Settlement) {
        None => {
            if slot_of(t, ChangeStage::Closure).is_some() {
                return Err(ConstructionProjectError::ChangeDerivation {
                    change: rec.id.clone(),
                    reason: "closure has no current settlement fact",
                });
            }
            return Ok(None);
        },
        Some(k) => k,
    };
    let settlement = &facts[sk];
    let supplier = checked_total(&settlement.amount_components, CommercialSide::Supplier, "change.settlement.supplier")?;
    let customer = checked_total(&settlement.amount_components, CommercialSide::Customer, "change.settlement.customer")?;
    let net = match supplier.checked_sub(customer) {
        Some(n) => n,
        None => {
            return Err(ConstructionProjectError::AmountOverflow { field: "change.settlement.net" });
        },
    };
    let closed = match slot_of(t, ChangeStage::Closure) {
        None => false,
        Some(ck) => {
            if !all_stages(t) {
                proof {
                    let i = choose|i: int| 0 <= i < 10 && !((#[trigger] t@[i]) is Some);
                    assert(cur(fs, cid, stage_at(i)) is None);
                }
                return Err(ConstructionProjectError::ChangeDerivation {
                    change: rec.id.clone(),
                    reason: "closure requires one current fact for every change-chain stage",
                });
            }
            proof {
                assert forall|i: int| 0 <= i < 10 implies (#[trigger] cur(fs, cid, stage_at(i))) is Some by {
                    assert(t@[i] is Some);
                }
            }
            let closure = &facts[ck];
            let closure_supplier = checked_total(&closure.amount_components, CommercialSide::Supplier, "change.closure.supplier")?;
            if closure_supplier != supplier {
                return Err(ConstructionProjectError::ChangeSettlementMismatch {
                    change: rec.id.clone(),
                    side: CommercialSide::Supplier.label(),
                    settlement: supplier,
                    closure: closure_supplier,
                });
            }
            let closure_customer = checked_total(&closure.amount_components, CommercialSide::Customer, "change.closure.customer")?;
            if closure_customer != customer {
                return Err(ConstructionProjectError::ChangeSettlementMismatch {
                    change: rec.id.clone(),
                    side: CommercialSide::Customer.label(),
                    settlement: customer,
                    closure: closure_customer,
                });
            }
            true
        },
    };
    let references = settlement.references.clone();
    proof {
        assert(references@ =~= settlement.references@);
    }
    Ok(Some(ChangeSettlementView {
        change: rec.id.clone(),
        settled_on: settlement.effective_on,
        supplier,
        customer,
        net,
        closed,
        references,
    }))
}


/// Adds every id of `src` to the sorted id list `v`.
fn add_ids(v: &mut Vec<ControlId>, src: &Vec<ControlId>)
    requires
        ids_sorted(old(v)@),
    ensures
        ids_sorted(final(v)@),
        id_set(final(v)@) == id_set(old(v)@).union(id_set(src@)),
{
    let ghost start = v@;
    let mut i: usize = 0;
    while i < src.len()
        invariant
            ids_sorted(v@),
            i <= src@.len(),
            id_set(v@) == id_set(start).union(id_set(src@.take(i as int))),
        decreases src.len() - i,
    {
        let ghost before = v@;
        insert_id(v, src[i].clone());
        proof {
            assert(src@.take(i + 1) =~= src@.take(i as int).push(src@[i as int]));
            assert(crate::order::id_views(src@.take(i + 1)) =~= crate::order::id_views(src@.take(i as int)).push(src@[i as int]@));
            crate::order::id_views(src@.take(i as int)).lemma_push_to_set_commute(src@[i as int]@);
            assert(id_set(src@.take(i + 1)) =~= id_set(src@.take(i as int)).insert(src@[i as int]@));
            assert(id_set(v@) =~= id_set(start).union(id_set(src@.take(i + 1))));
        }
        i = i + 1;
    }
    proof {
        assert(src@.take(src@.len() as int) =~= src@);
    }
}

/// Adds every text of `src` to the sorted text list `v`.
fn add_texts(v: &mut Vec<String>, src: &Vec<String>)
    requires
        texts_sorted(old(v)@),
    ensures
        texts_sorted(final(v)@),
        text_set(final(v)@) == text_set(old(v)@).union(text_set(src@)),
{
    let ghost start = v@;
    let mut i: usize = 0;
    while i < src.len()
        invariant
            texts_sorted(v@),
            i <= src@.len(),
            text_set(v@) == text_set(start).union(text_set(src@.take(i as int))),
        decreases src.len() - i,
    {
        insert_text(v, src[i].clone());
        proof {
            assert(src@.take(i + 1) =~= src@.take(i as int).push(src@[i as int]));
            assert(crate::order::text_views(src@.take(i + 1)) =~= crate::order::text_views(src@.take(i as int)).push(src@[i as int]@));
            crate::order::text_views(src@.take(i as int)).lemma_push_to_set_commute(src@[i as int]@);
            assert(text_set(src@.take(i + 1)) =~= text_set(src@.take(i as int)).insert(src@[i as int]@));
            assert(text_set(v@) =~= text_set(start).union(text_set(src@.take(i + 1))));
        }
        i = i + 1;
    }
    proof {
        assert(src@.take(src@.len() as int) =~= src@);
    }
}

fn fact_ids<'a>(f: &'a ChangeFact, which: AffectedList) -> (r: &'a Vec<ControlId>)
    ensures
        r@ == fact_list(*f, which),
{
    match which {
        AffectedList::Controls => &f.affected_controls,
        AffectedList::Packages => &f.affected_packages,
    }
}

fn record_ids<'a>(c: &'a ChangeRecord, which: AffectedList) -> (r: &'a Vec<ControlId>)
    ensures
        r@ == record_list(*c, which),
{
    match which {
        AffectedList::Controls => &c.affected_controls,
        AffectedList::Packages => &c.affected_packages,
    }
}

/// Sorted union of the record's affected list and those of its current facts.
fn affected_ids(rec: &ChangeRecord, facts: &Vec<ChangeFact>, t: &Vec<Option<usize>>, which: AffectedList) -> (v: Vec<ControlId>)
    requires
        table_gives(facts@, rec.id@, t@),
    ensures
        ids_sorted(v@),
        id_set(v@) == id_set(record_list(*rec, which)).union(ids_upto(facts@, rec.id@, which, 10)),
{
    let mut v: Vec<ControlId> = Vec::new();
    proof {
        assert(id_set(v@) =~= Set::<Seq<char>>::empty());
    }
    add_ids(&mut v, record_ids(rec, which));
    proof {
        assert(id_set(v@) =~= id_set(record_list(*rec, which)).union(ids_upto(facts@, rec.id@, which, 0)));
    }
    let mut i: usize = 0;
    while i < 10
        invariant
            table_gives(facts@, rec.id@, t@),
            i <= 10,
            ids_sorted(v@),
            id_set(v@) == id_set(record_list(*rec, which)).union(ids_upto(facts@, rec.id@, which, i as int)),
        decreases 10 - i,
    {
        match t[i] {
            Some(k) => {
                add_ids(&mut v, fact_ids(&facts[k], which));
                proof {
                    assert(cur(facts@, rec.id@, stage_at(i as int)) == Some(facts@[k as int]));
                    assert(id_set(v@) =~= id_set(record_list(*rec, which)).union(ids_upto(facts@, rec.id@, which, i + 1)));
                }
            },
            None => {
                proof {
                    assert(cur(facts@, rec.id@, stage_at(i as int)) is None);
                }
            },
        }
        i = i + 1;
    }
    v
}

/// Sorted union of the record's affected tasks and those of its current facts.
fn affected_tasks(rec: &ChangeRecord, facts: &Vec<ChangeFact>, t: &Vec<Option<usize>>) -> (v: Vec<String>)
    requires
        table_gives(facts@, rec.id@, t@),
    ensures
        texts_sorted(v@),
        text_set(v@) == text_set(rec.affected_tasks@).union(tasks_upto(facts@, rec.id@, 10)),
{
    let mut v: Vec<String> = Vec::new();
    proof {
        assert(text_set(v@) =~= Set::<Seq<char>>::empty());
    }
    add_texts(&mut v, &rec.affected_tasks);
    proof {
        assert(text_set(v@) =~= text_set(rec.affected_tasks@).union(tasks_upto(facts@, rec.id@, 0)));
    }
    let mut i: usize = 0;
    while i < 10
        invariant
            table_gives(facts@, rec.id@, t@),
            i <= 10,
            texts_sorted(v@),
            text_set(v@) == text_set(rec.affected_tasks@).union(tasks_upto(facts@, rec.id@, i as int)),
        decreases 10 - i,
    {
        match t[i] {
            Some(k) => {
                add_texts(&mut v, &facts[k].affected_tasks);
                proof {
                    assert(cur(facts@, rec.id@, stage_at(i as int)) == Some(facts@[k as int]));
                    assert(text_set(v@) =~= text_set(rec.affected_tasks@).union(tasks_upto(facts@, rec.id@, i + 1)));
                }
            },
            None => {
                proof {
                    assert(cur(facts@, rec.id@, stage_at(i as int)) is None);
                }
            },
        }
        i = i + 1;
    }
    v
}

fn current_status(facts: &Vec<ChangeFact>, t: &Vec<Option<usize>>, cid: Ghost<Seq<char>>) -> (r: ChangeStatus)
    requires
        table_gives(facts@, cid@, t@),
    ensures
        r == status_upto(facts@, cid@, 10),
{
    let mut n: usize = 10;
    while n > 0
        invariant
            table_gives(facts@, cid@, t@),
            n <= 10,
            status_upto(facts@, cid@, 10) == status_upto(facts@, cid@, n as int),
        decreases n,
    {
        match t[n - 1] {
            Some(k) => {
                proof {
                    assert(cur(facts@, cid@, stage_at(n - 1)) == Some(facts@[k as int]));
                }
                return facts[k].status;
            },
            None => {
                proof {
                    assert(cur(facts@, cid@, stage_at(n - 1)) is None);
                }
            },
        }
        n = n - 1;
    }
    ChangeStatus::Assessing
}

fn current_controls(facts: &Vec<ChangeFact>, t: &Vec<Option<usize>>, cid: Ghost<Seq<char>>) -> (v: Vec<ControlId>)
    requires
        table_gives(facts@, cid@, t@),
    ensures
        v@ == controls_upto(facts@, cid@, 10),
{
    let mut v: Vec<ControlId> = Vec::new();
    let mut i: usize = 0;
    while i < 10
        invariant
            table_gives(facts@, cid@, t@),
            i <= 10,
            v@ == controls_upto(facts@, cid@, i as int),
        decreases 10 - i,
    {
        match t[i] {
            Some(k) => {
                proof {
                    assert(cur(facts@, cid@, stage_at(i as int)) == Some(facts@[k as int]));
                }
                v.push(facts[k].control.clone());
            },
            None => {
                proof {
                    assert(cur(facts@, cid@, stage_at(i as int)) is None);
                }
            },
        }
        i = i + 1;
    }
    v
}

/// Derives the exposure view of one change from its current stage facts.
fn derive_change(rec: &ChangeRecord, facts: &Vec<ChangeFact>, t: &Vec<Option<usize>>, as_of_date: ProjectDate) -> (r: Result<ChangeExposureView, ConstructionProjectError>)
    requires
        table_gives(facts@, rec.id@, t@),
    ensures
        view_result(*rec, facts@, as_of_date, r),
{
    let ghost cid = rec.id@;
    let status = current_status(facts, t, Ghost(cid));
    let supplier_exposure = current_total(
        facts,
        t,
        Ghost(cid),
        ChangeStage::Settlement,
        ChangeStage::Forecast,
        ChangeStage::SupplierExposure,
        CommercialSide::Supplier,
        "change.supplier_exposure",
    )?;
    let customer_recovery = current_total(
        facts,
        t,
        Ghost(cid),
        ChangeStage::Settlement,
        ChangeStage::Quotation,
        ChangeStage::CustomerRecovery,
        CommercialSide::Customer,
        "change.customer_recovery",
    )?;
    let approved = approved_customer(facts, t, Ghost(cid))?;
    let net_exposure = match supplier_exposure.checked_sub(customer_recovery) {
        Some(n) => n,
        None => {
            return Err(ConstructionProjectError::AmountOverflow { field: "change.net_exposure" });
        },
    };
    proof {
        assert(cur(facts@, cid, stage_at(stage_position(ChangeStage::TimeEffect))) == cur(facts@, cid, ChangeStage::TimeEffect));
    }
    let schedule_impact = match slot_of(t, ChangeStage::TimeEffect) {
        Some(k) => match &facts[k].schedule_impact {
            Some(i) => Some(i.clone()),
            None => None,
        },
        None => None,
    };
    let time_risk = status != ChangeStatus::Closed && match &schedule_impact {
        Some(i) => i.completion_delta_days != 0,
        None => false,
    };
    let overdue_notice = match rec.notice_due_on {
        Some(due) => due.before(&as_of_date) && rec.notice_given_on.is_none(),
        None => false,
    };
    let settlement = settlement_view(rec, facts, t)?;
    let current_facts = current_controls(facts, t, Ghost(cid));
    let affected_controls = affected_ids(rec, facts, t, AffectedList::Controls);
    let affected_tasks = affected_tasks(rec, facts, t);
    let affected_packages = affected_ids(rec, facts, t, AffectedList::Packages);
    Ok(ChangeExposureView {
        change: rec.id.clone(),
        status,
        current_facts,
        affected_controls,
        affected_tasks,
        affected_packages,
        supplier_exposure,
        customer_recovery,
        approved_customer: approved,
        net_exposure,
        time_risk,
        schedule_impact,
        overdue_notice,
        settlement,
    })
}


/// Two settlement views hold the same values.
pub open spec fn settlement_same(a: ChangeSettlementView, b: ChangeSettlementView) -> bool {
    &&& a.change == b.change
    &&& a.settled_on == b.settled_on
    &&& a.supplier == b.supplier
    &&& a.customer == b.customer
    &&& a.net == b.net
    &&& a.closed == b.closed
    &&& a.references@ == b.references@
}

impl Clone for ChangeSettlementView {
    fn clone(&self) -> (r: Self)
        ensures
            settlement_same(r, *self),
    {
        let references = self.references.clone();
        proof {
            assert(references@ =~= self.references@);
        }
        ChangeSettlementView {
            change: self.change.clone(),
            settled_on: self.settled_on,
            supplier: self.supplier,
            customer: self.customer,
            net: self.net,
            closed: self.closed,
            references,
        }
    }
}

/// Portfolio views and exact aggregate exposure at one deterministic date.
#[derive(Debug, PartialEq, Eq)]
pub struct ChangeExposureReport {
    /// Evaluation date for notice and open-risk views.
    pub as_of_date: ProjectDate,
    /// Project charter currency used by every checked component.
    pub currency: CurrencyCode,
    /// Current change chains in stable identity order.
    pub changes: Vec<ChangeExposureView>,
    /// Changes with full or partial accountable approval.
    pub approved: Vec<ChangeId>,
    /// Instructed or noticed changes without a customer price.
    pub instructed_unpriced: Vec<ChangeId>,
    /// Quoted changes still awaiting authority decision.
    pub submitted: Vec<ChangeId>,
    /// Changes with a current disputed decision or settlement.
    pub disputed: Vec<ChangeId>,
    /// Changes with supplier exposure and no customer recovery.
    pub supplier_only: Vec<ChangeId>,
    /// Changes with customer recovery and no supplier exposure.
    pub customer_only: Vec<ChangeId>,
    /// Open changes with non-zero schedule effect.
    pub time_risk: Vec<ChangeId>,
    /// Changes whose contractual notice date is overdue.
    pub overdue_notice: Vec<ChangeId>,
    /// Final settlement views.
    pub settlements: Vec<ChangeSettlementView>,
    /// Checked sum of per-change supplier exposure less customer recovery.
    pub net_exposure: i64,
}

/// The portfolio lists of a change exposure report.
#[derive(Clone, Copy, Debug, PartialEq, Eq, Structural)]
pub enum PortfolioList {
    /// Changes with full or partial accountable approval.
    Approved,
    /// Instructed or noticed changes without a customer price.
    InstructedUnpriced,
    /// Quoted changes still awaiting authority decision.
    Submitted,
    /// Changes with a current disputed fact.
    Disputed,
    /// Changes with supplier exposure and no customer recovery.
    SupplierOnly,
    /// Changes with customer recovery and no supplier exposure.
    CustomerOnly,
    /// Open changes with non-zero schedule effect.
    TimeRisk,
    /// Changes whose contractual notice date is overdue.
    OverdueNotice,
}

/// Some current fact of change `cid` is disputed.
pub open spec fn any_disputed(fs: Seq<ChangeFact>, cid: Seq<char>) -> bool {
    exists|i: int| 0 <= i < 10 && (#[trigger] cur(fs, cid, stage_at(i)) matches Some(f) && f.status == ChangeStatus::Disputed)
}

/// View `v` belongs on portfolio list `which`.
pub open spec fn on_list(which: PortfolioList, v: ChangeExposureView, fs: Seq<ChangeFact>) -> bool {
    let has_quotation = cur(fs, v.change@, ChangeStage::Quotation) is Some;
    let has_authority = cur(fs, v.change@, ChangeStage::AuthorityDecision) is Some;
    match which {
        PortfolioList::Approved => v.approved_customer > 0,
        PortfolioList::InstructedUnpriced => v.customer_recovery == 0 && !has_quotation && !has_authority,
        PortfolioList::Submitted => has_quotation && !has_authority,
        PortfolioList::Disputed => any_disputed(fs, v.change@),
        PortfolioList::SupplierOnly => v.supplier_exposure > 0 && v.customer_recovery == 0,
        PortfolioList::CustomerOnly => v.customer_recovery > 0 && v.supplier_exposure == 0,
        PortfolioList::TimeRisk => v.time_risk,
        PortfolioList::OverdueNotice => v.overdue_notice,
    }
}

/// Change ids of the views on list `which`, in view order.
pub open spec fn listed(views: Seq<ChangeExposureView>, fs: Seq<ChangeFact>, which: PortfolioList) -> Seq<Seq<char>>
    decreases views.len(),
{
    if views.len() == 0 {
        Seq::empty()
    } else {
        let prev = listed(views.drop_last(), fs, which);
        if on_list(which, views.last(), fs) {
            prev.push(views.last().change@)
        } else {
            prev
        }
    }
}

/// Settlement views of the views that carry one, in view order.
pub open spec fn settlements_of(views: Seq<ChangeExposureView>) -> Seq<ChangeSettlementView>
    decreases views.len(),
{
    if views.len() == 0 {
        Seq::empty()
    } else {
        match views.last().settlement {
            Some(st) => settlements_of(views.drop_last()).push(st),
            None => settlements_of(views.drop_last()),
        }
    }
}

/// Views of a list of change ids.
pub open spec fn change_ids(s: Seq<ChangeId>) -> Seq<Seq<char>> {
    s.map_values(|c: ChangeId| c@)
}

/// Sum of the net exposures of the first `n` views.
pub open spec fn net_prefix(views: Seq<ChangeExposureView>, n: int) -> int
    decreases n,
{
    if n <= 0 || n > views.len() {
        0
    } else {
        net_prefix(views, n - 1) + views[n - 1].net_exposure
    }
}

/// `order` lists every change position with change ids strictly increasing.
pub open spec fn sorted_order(cs: Seq<ChangeRecord>, order: Seq<usize>) -> bool {
    &&& order.len() == cs.len()
    &&& forall|p: int| 0 <= p < order.len() ==> (#[trigger] order[p]) < cs.len()
    &&& forall|p: int, q: int| 0 <= p < q < order.len() ==> lex_lt(cs[#[trigger] order[p] as int].id@, cs[#[trigger] order[q] as int].id@)
}

/// The report built along `order`: view `p` is the view of the `p`-th
/// change, every running net total fits, and each list and the
/// settlements are read from the views in order.
pub open spec fn report_along(
    cs: Seq<ChangeRecord>,
    fs: Seq<ChangeFact>,
    charter: CurrencyCode,
    as_of: ProjectDate,
    order: Seq<usize>,
    rep: ChangeExposureReport,
) -> bool {
    let views = rep.changes@;
    &&& rep.as_of_date == as_of
    &&& rep.currency == charter
    &&& views.len() == cs.len()
    &&& forall|p: int| 0 <= p < views.len() ==> view_result(cs[order[p] as int], fs, as_of, Ok(#[trigger] views[p]))
    &&& forall|n: int| 0 <= n <= views.len() ==> fits_i64(#[trigger] net_prefix(views, n))
    &&& rep.net_exposure == net_prefix(views, views.len() as int)
    &&& change_ids(rep.approved@) == listed(views, fs, PortfolioList::Approved)
    &&& change_ids(rep.instructed_unpriced@) == listed(views, fs, PortfolioList::InstructedUnpriced)
    &&& change_ids(rep.submitted@) == listed(views, fs, PortfolioList::Submitted)
    &&& change_ids(rep.disputed@) == listed(views, fs, PortfolioList::Disputed)
    &&& change_ids(rep.supplier_only@) == listed(views, fs, PortfolioList::SupplierOnly)
    &&& change_ids(rep.customer_only@) == listed(views, fs, PortfolioList::CustomerOnly)
    &&& change_ids(rep.time_risk@) == listed(views, fs, PortfolioList::TimeRisk)
    &&& change_ids(rep.overdue_notice@) == listed(views, fs, PortfolioList::OverdueNotice)
    &&& rep.settlements@.len() == settlements_of(views).len()
    &&& forall|k: int| 0 <= k < rep.settlements@.len() ==> settlement_same(#[trigger] rep.settlements@[k], settlements_of(views)[k])
}

/// What `derive(charter, as_of)` answers for a change-control set: the
/// first failed chain check, else the report built in change-id order, or
/// the first failure met while building it.
pub open spec fn derive_check(
    s: ChangeControlSet,
    charter: CurrencyCode,
    as_of: ProjectDate,
    r: Result<ChangeExposureReport, ConstructionProjectError>,
) -> bool {
    let cs = s.changes@;
    let fs = s.facts@;
    let e_only = match r { Ok(_) => Ok(()), Err(e) => Err(e) };
    if !changes_check(cs, Ok(())) {
        changes_check(cs, e_only)
    } else if !facts_check(fs, cs, charter, Ok(())) {
        facts_check(fs, cs, charter, e_only)
    } else if !corrections_check(fs, Ok(())) {
        corrections_check(fs, e_only)
    } else if !clash_free(fs) {
        clashes_check(fs, e_only)
    } else {
        exists|order: Seq<usize>| #[trigger] sorted_order(cs, order) && match r {
            Ok(rep) => report_along(cs, fs, charter, as_of, order, rep),
            Err(e) => exists|p: int, views: Seq<ChangeExposureView>|
                #![trigger views.len(), order[p]]
                0 <= p < cs.len() && views.len() == p
                && (forall|q: int| 0 <= q < p ==> view_result(cs[order[q] as int], fs, as_of, Ok(#[trigger] views[q])))
                && (forall|n: int| 0 <= n <= p ==> fits_i64(#[trigger] net_prefix(views, n)))
                && (view_result(cs[order[p] as int], fs, as_of, Err(e)) || exists|v: ChangeExposureView|
                    view_result(cs[order[p] as int], fs, as_of, Ok(v)) && !fits_i64(#[trigger] net_prefix(views.push(v), p + 1))
                    && e == (ConstructionProjectError::AmountOverflow { field: "change.portfolio.net_exposure" })),
        }
    }
}


/// Running net totals of a prefix do not change when a view is appended.
proof fn lemma_net_prefix_push(views: Seq<ChangeExposureView>, v: ChangeExposureView, n: int)
    requires
        0 <= n <= views.len(),
    ensures
        net_prefix(views.push(v), n) == net_prefix(views, n),
    decreases n,
{
    if n > 0 {
        lemma_net_prefix_push(views, v, n - 1);
    }
}

/// Change ids are unique once the records pass their checks.
proof fn lemma_change_ids_unique(cs: Seq<ChangeRecord>)
    requires
        changes_check(cs, Ok(())),
    ensures
        forall|i: int, j: int| 0 <= i < j < cs.len() ==> (#[trigger] cs[i]).id@ != (#[trigger] cs[j]).id@,
{
    assert forall|i: int, j: int| 0 <= i < j < cs.len() implies (#[trigger] cs[i]).id@ != (#[trigger] cs[j]).id@ by {
        assert(!change_fault(cs, j));
    }
}

fn listed_push(ids: &mut Vec<ChangeId>, v: &ChangeExposureView, on: bool, views: Ghost<Seq<ChangeExposureView>>, fs: Ghost<Seq<ChangeFact>>, which: Ghost<PortfolioList>)
    requires
        change_ids(old(ids)@) == listed(views@, fs@, which@),
        on == on_list(which@, *v, fs@),
    ensures
        change_ids(final(ids)@) == listed(views@.push(*v), fs@, which@),
{
    proof {
        assert(views@.push(*v).drop_last() =~= views@);
    }
    if on {
        ids.push(v.change.clone());
        proof {
            assert(change_ids(ids@) =~= change_ids(old(ids)@).push(v.change@));
        }
    }
}

impl ChangeControlSet {
    /// Positions of the change records in strictly increasing change-id order.
    fn sorted_changes(&self) -> (order: Vec<usize>)
        requires
            forall|i: int, j: int| 0 <= i < j < self.changes@.len() ==> (#[trigger] self.changes@[i]).id@ != (#[trigger] self.changes@[j]).id@,
        ensures
            sorted_order(self.changes@, order@),
    {
        let ghost cs = self.changes@;
        let mut order: Vec<usize> = Vec::new();
        let mut i: usize = 0;
        while i < self.changes.len()
            invariant
                cs == self.changes@,
                forall|a: int, b: int| 0 <= a < b < cs.len() ==> (#[trigger] cs[a]).id@ != (#[trigger] cs[b]).id@,
                i <= cs.len(),
                order@.len() == i,
                forall|p: int| 0 <= p < order@.len() ==> (#[trigger] order@[p]) < i,
                forall|p: int, q: int| 0 <= p < q < order@.len() ==> lex_lt(cs[#[trigger] order@[p] as int].id@, cs[#[trigger] order@[q] as int].id@),
            decreases cs.len() - i,
        {
            let mut p: usize = 0;
            while p < order.len() && !text_precedes(self.changes[i].id.as_str(), self.changes[order[p]].id.as_str())
                invariant
                    cs == self.changes@,
                    i < cs.len(),
                    p <= order@.len(),
                    forall|q: int| 0 <= q < order@.len() ==> (#[trigger] order@[q]) < i,
                    forall|q: int| 0 <= q < p ==> !lex_lt(cs[i as int].id@, cs[#[trigger] order@[q] as int].id@),
                decreases order.len() - p,
            {
                p = p + 1;
            }
            let ghost before = order@;
            proof {
                assert forall|q: int| 0 <= q < p implies lex_lt(cs[#[trigger] before[q] as int].id@, cs[i as int].id@) by {
                    let o = before[q] as int;
                    assert(cs[o].id@ != cs[i as int].id@);
                    lemma_lex_total(cs[i as int].id@, cs[o].id@);
                }
                assert forall|q: int| p <= q < before.len() implies lex_lt(cs[i as int].id@, cs[#[trigger] before[q] as int].id@) by {
                    if q > p {
                        lemma_lex_transitive(cs[i as int].id@, cs[before[p as int] as int].id@, cs[before[q] as int].id@);
                    }
                }
            }
            order.insert(p, i);
            proof {
                let nv = order@;
                assert forall|a: int, b: int| 0 <= a < b < nv.len() implies lex_lt(cs[#[trigger] nv[a] as int].id@, cs[#[trigger] nv[b] as int].id@) by {
                    if b < p {
                        assert(nv[a] == before[a] && nv[b] == before[b]);
                    } else if b == p {
                        assert(nv[a] == before[a]);
                    } else if a < p {
                        assert(nv[a] == before[a] && nv[b] == before[b - 1]);
                    } else if a == p {
                        assert(nv[b] == before[b - 1]);
                    } else {
                        assert(nv[a] == before[a - 1] && nv[b] == before[b - 1]);
                    }
                }
                assert forall|q: int| 0 <= q < nv.len() implies (#[trigger] nv[q]) < i + 1 by {
                    if q < p {
                        assert(nv[q] == before[q]);
                    } else if q > p {
                        assert(nv[q] == before[q - 1]);
                    }
                }
            }
            i = i + 1;
        }
        order
    }

    /// Derives deterministic status, exposure, notice, time-risk, and
    /// settlement views, in change-id order, with checked portfolio totals.
    pub fn derive(&self, charter_currency: &CurrencyCode, as_of_date: ProjectDate) -> (r: Result<ChangeExposureReport, ConstructionProjectError>)
        ensures
            derive_check(*self, *charter_currency, as_of_date, r),
    {
        let ghost cs = self.changes@;
        let ghost fs = self.facts@;
        let ghost ch = *charter_currency;
        match self.check_changes() {
            Ok(()) => {},
            Err(e) => {
                return Err(e);
            },
        }
        match self.check_facts(charter_currency) {
            Ok(()) => {},
            Err(e) => {
                return Err(e);
            },
        }
        proof {
            lemma_facts_unique(fs, cs, ch);
            lemma_change_ids_unique(cs);
        }
        match self.check_corrections() {
            Ok(()) => {},
            Err(e) => {
                return Err(e);
            },
        }
        let flags = self.corrected_flags();
        match self.check_clashes(&flags) {
            Ok(()) => {},
            Err(e) => {
                return Err(e);
            },
        }
        proof {
            assert(clash_free(fs));
        }
        let order = self.sorted_changes();
        let ghost og = order@;
        let mut changes: Vec<ChangeExposureView> = Vec::new();
        let mut approved: Vec<ChangeId> = Vec::new();
        let mut instructed_unpriced: Vec<ChangeId> = Vec::new();
        let mut submitted: Vec<ChangeId> = Vec::new();
        let mut disputed: Vec<ChangeId> = Vec::new();
        let mut supplier_only: Vec<ChangeId> = Vec::new();
        let mut customer_only: Vec<ChangeId> = Vec::new();
        let mut time_risk: Vec<ChangeId> = Vec::new();
        let mut overdue_notice: Vec<ChangeId> = Vec::new();
        let mut settlements: Vec<ChangeSettlementView> = Vec::new();
        let mut net_exposure: i64 = 0;
        proof {
            assert(change_ids(approved@) =~= Seq::<Seq<char>>::empty());
            assert(change_ids(instructed_unpriced@) =~= Seq::<Seq<char>>::empty());
            assert(change_ids(submitted@) =~= Seq::<Seq<char>>::empty());
            assert(change_ids(disputed@) =~= Seq::<Seq<char>>::empty());
            assert(change_ids(supplier_only@) =~= Seq::<Seq<char>>::empty());
            assert(change_ids(customer_only@) =~= Seq::<Seq<char>>::empty());
            assert(change_ids(time_risk@) =~= Seq::<Seq<char>>::empty());
            assert(change_ids(overdue_notice@) =~= Seq::<Seq<char>>::empty());
        }
        let mut p: usize = 0;
        while p < order.len()
            invariant
                cs == self.changes@,
                fs == self.facts@,
                og == order@,
                ch == *charter_currency,
                changes_check(cs, Ok(())),
                facts_check(fs, cs, ch, Ok(())),
                corrections_check(fs, Ok(())),
                sorted_order(cs, og),
                clash_free(fs),
                flags@.len() == fs.len(),
                forall|k: int| 0 <= k < flags@.len() ==> flags@[k] == corrected(fs, k),
                p <= og.len(),
                changes@.len() == p,
                forall|q: int| 0 <= q < p ==> view_result(cs[og[q] as int], fs, as_of_date, Ok(#[trigger] changes@[q])),
                forall|n: int| 0 <= n <= p ==> fits_i64(#[trigger] net_prefix(changes@, n)),
                net_exposure == net_prefix(changes@, p as int),
                change_ids(approved@) == listed(changes@, fs, PortfolioList::Approved),
                change_ids(instructed_unpriced@) == listed(changes@, fs, PortfolioList::InstructedUnpriced),
                change_ids(submitted@) == listed(changes@, fs, PortfolioList::Submitted),
                change_ids(disputed@) == listed(changes@, fs, PortfolioList::Disputed),
                change_ids(supplier_only@) == listed(changes@, fs, PortfolioList::SupplierOnly),
                change_ids(customer_only@) == listed(changes@, fs, PortfolioList::CustomerOnly),
                change_ids(time_risk@) == listed(changes@, fs, PortfolioList::TimeRisk),
                change_ids(overdue_notice@) == listed(changes@, fs, PortfolioList::OverdueNotice),
                settlements@.len() == settlements_of(changes@).len(),
                forall|k: int| 0 <= k < settlements@.len() ==> settlement_same(#[trigger] settlements@[k], settlements_of(changes@)[k]),
            decreases og.len() - p,
        {
            let rec = &self.changes[order[p]];
            let t = self.current_table(&flags, &rec.id);
            proof {
                lemma_table_gives(fs, rec.id@, t@);
            }
            let view = match derive_change(rec, &self.facts, &t, as_of_date) {
                Ok(v) => v,
                Err(e) => {
                    proof {
                        let views = changes@;
                        assert(views.len() == p);
                        assert(og[p as int] == order@[p as int]);
                        assert(exists|pp: int, vs: Seq<ChangeExposureView>|
                            #![trigger vs.len(), og[pp]]
                            0 <= pp < cs.len() && vs.len() == pp
                            && (forall|q: int| 0 <= q < pp ==> view_result(cs[og[q] as int], fs, as_of_date, Ok(#[trigger] vs[q])))
                            && (forall|n: int| 0 <= n <= pp ==> fits_i64(#[trigger] net_prefix(vs, n)))
                            && (view_result(cs[og[pp] as int], fs, as_of_date, Err(e)) || exists|v: ChangeExposureView|
                                view_result(cs[og[pp] as int], fs, as_of_date, Ok(v)) && !fits_i64(#[trigger] net_prefix(vs.push(v), pp + 1))
                                && e == (ConstructionProjectError::AmountOverflow { field: "change.portfolio.net_exposure" })));
                    }
                    return Err(e);
                },
            };
            let ghost views = changes@;
            proof {
                assert(cur(fs, rec.id@, stage_at(stage_position(ChangeStage::Quotation))) == cur(fs, rec.id@, ChangeStage::Quotation));
                assert(cur(fs, rec.id@, stage_at(stage_position(ChangeStage::AuthorityDecision))) == cur(fs, rec.id@, ChangeStage::AuthorityDecision));
                lemma_net_prefix_push(views, view, p as int);
                assert(view.change@ == rec.id@);
            }
            let new_net = match net_exposure.checked_add(view.net_exposure) {
                Some(n) => n,
                None => {
                    let ghost e = ConstructionProjectError::AmountOverflow { field: "change.portfolio.net_exposure" };
                    proof {
                        assert(!fits_i64(net_prefix(views.push(view), p + 1)));
                        assert(og[p as int] == order@[p as int]);
                        assert(exists|pp: int, vs: Seq<ChangeExposureView>|
                            #![trigger vs.len(), og[pp]]
                            0 <= pp < cs.len() && vs.len() == pp
                            && (forall|q: int| 0 <= q < pp ==> view_result(cs[og[q] as int], fs, as_of_date, Ok(#[trigger] vs[q])))
                            && (forall|n: int| 0 <= n <= pp ==> fits_i64(#[trigger] net_prefix(vs, n)))
                            && (view_result(cs[og[pp] as int], fs, as_of_date, Err(e)) || exists|v: ChangeExposureView|
                                view_result(cs[og[pp] as int], fs, as_of_date, Ok(v)) && !fits_i64(#[trigger] net_prefix(vs.push(v), pp + 1))
                                && e == (ConstructionProjectError::AmountOverflow { field: "change.portfolio.net_exposure" }))) by {
                            assert(views.len() == p);
                            assert(og[p as int] == og[p as int]);
                        }
                    }
                    return Err(ConstructionProjectError::AmountOverflow { field: "change.portfolio.net_exposure" });
                },
            };
            let has_quotation = slot_of(&t, ChangeStage::Quotation).is_some();
            let has_authority = slot_of(&t, ChangeStage::AuthorityDecision).is_some();
            let mut any_dispute = false;
            let mut i: usize = 0;
            while i < 10
                invariant
                    fs == self.facts@,
                    table_gives(fs, rec.id@, t@),
                    i <= 10,
                    any_dispute == exists|j: int| 0 <= j < i && (#[trigger] cur(fs, rec.id@, stage_at(j)) matches Some(f) && f.status == ChangeStatus::Disputed),
                decreases 10 - i,
            {
                match t[i] {
                    Some(k) => {
                        if self.facts[k].status == ChangeStatus::Disputed {
                            any_dispute = true;
                        }
                    },
                    None => {},
                }
                proof {
                    assert(cur(fs, rec.id@, stage_at(i as int)) == match t@[i as int] {
                        Some(k) => Some(fs[k as int]),
                        None => None,
                    });
                }
                i = i + 1;
            }
            listed_push(&mut approved, &view, view.approved_customer > 0, Ghost(views), Ghost(fs), Ghost(PortfolioList::Approved));
            listed_push(
                &mut instructed_unpriced,
                &view,
                view.customer_recovery == 0 && !has_quotation && !has_authority,
                Ghost(views),
                Ghost(fs),
                Ghost(PortfolioList::InstructedUnpriced),
            );
            listed_push(&mut submitted, &view, has_quotation && !has_authority, Ghost(views), Ghost(fs), Ghost(PortfolioList::Submitted));
            listed_push(&mut disputed, &view, any_dispute, Ghost(views), Ghost(fs), Ghost(PortfolioList::Disputed));
            listed_push(
                &mut supplier_only,
                &view,
                view.supplier_exposure > 0 && view.customer_recovery == 0,
                Ghost(views),
                Ghost(fs),
                Ghost(PortfolioList::SupplierOnly),
            );
            listed_push(
                &mut customer_only,
                &view,
                view.customer_recovery > 0 && view.supplier_exposure == 0,
                Ghost(views),
                Ghost(fs),
                Ghost(PortfolioList::CustomerOnly),
            );
            listed_push(&mut time_risk, &view, view.time_risk, Ghost(views), Ghost(fs), Ghost(PortfolioList::TimeRisk));
            listed_push(&mut overdue_notice, &view, view.overdue_notice, Ghost(views), Ghost(fs), Ghost(PortfolioList::OverdueNotice));
            let ghost before_settlements = settlements@;
            match &view.settlement {
                Some(st) => {
                    settlements.push(st.clone());
                },
                None => {},
            }
            proof {
                assert(views.push(view).drop_last() =~= views);
            }
            net_exposure = new_net;
            changes.push(view);
            proof {
                assert(changes@ == views.push(view));
                assert forall|q: int| 0 <= q < p + 1 implies view_result(cs[og[q] as int], fs, as_of_date, Ok(#[trigger] changes@[q])) by {
                    if q < p {
                        assert(changes@[q] == views[q]);
                    }
                }
                assert forall|n: int| 0 <= n <= p + 1 implies fits_i64(#[trigger] net_prefix(changes@, n)) by {
                    if n <= p {
                        lemma_net_prefix_push(views, view, n);
                    }
                }
                assert forall|k: int| 0 <= k < settlements@.len() implies settlement_same(#[trigger] settlements@[k], settlements_of(changes@)[k]) by {
                    if k < before_settlements.len() {
                        assert(settlements@[k] == before_settlements[k]);
                    }
                }
            }
            p = p + 1;
        }
        let rep = ChangeExposureReport {
            as_of_date,
            currency: charter_currency.clone(),
            changes,
            approved,
            instructed_unpriced,
            submitted,
            disputed,
            supplier_only,
            customer_only,
            time_risk,
            overdue_notice,
            settlements,
            net_exposure,
        };
        proof {
            assert(report_along(cs, fs, ch, as_of_date, og, rep));
        }
        Ok(rep)
    }
}


/// A derived change view nets supplier exposure against customer recovery,
/// and a closed settlement matches the closure totals exactly.
pub proof fn lemma_view_balances(rec: ChangeRecord, fs: Seq<ChangeFact>, as_of: ProjectDate, v: ChangeExposureView)
    requires
        view_result(rec, fs, as_of, Ok(v)),
    ensures
        v.net_exposure == v.supplier_exposure - v.customer_recovery,
        v.settlement matches Some(st) ==> st.net == st.supplier - st.customer,
        v.settlement matches Some(st) ==> (st.closed ==> (cur(fs, rec.id@, ChangeStage::Closure) matches Some(cf)
            && fact_total(cf, CommercialSide::Supplier) == st.supplier && fact_total(cf, CommercialSide::Customer)
            == st.customer)),
{
}

/// A corrected fact is never the current fact of any change and stage.
pub proof fn lemma_corrected_fact_not_current(fs: Seq<ChangeFact>, k: int, j: int, cid: Seq<char>, st: ChangeStage)
    requires
        0 <= j < fs.len(),
        0 <= k < fs.len(),
        fs[j].supersedes matches Some(p) && p@ == fs[k].control@,
    ensures
        !is_current(fs, cid, st, k),
{
    assert(corrected(fs, k));
}

proof fn lemma_listed_member(views: Seq<ChangeExposureView>, fs: Seq<ChangeFact>, which: PortfolioList, k: int)
    requires
        0 <= k < listed(views, fs, which).len(),
    ensures
        exists|p: int| 0 <= p < views.len() && (#[trigger] views[p]).change@ == listed(views, fs, which)[k]
            && on_list(which, views[p], fs),
    decreases views.len(),
{
    let prev = listed(views.drop_last(), fs, which);
    if k < prev.len() {
        lemma_listed_member(views.drop_last(), fs, which, k);
        let p = choose|p: int| 0 <= p < views.drop_last().len() && (#[trigger] views.drop_last()[p]).change@ == prev[k]
            && on_list(which, views.drop_last()[p], fs);
        assert(views[p] == views.drop_last()[p]);
    } else {
        assert(views[views.len() - 1] == views.last());
    }
}

proof fn lemma_listed_complete(views: Seq<ChangeExposureView>, fs: Seq<ChangeFact>, which: PortfolioList, p: int)
    requires
        0 <= p < views.len(),
        on_list(which, views[p], fs),
    ensures
        listed(views, fs, which).contains(views[p].change@),
    decreases views.len(),
{
    let prev = listed(views.drop_last(), fs, which);
    if p < views.len() - 1 {
        assert(views.drop_last()[p] == views[p]);
        lemma_listed_complete(views.drop_last(), fs, which, p);
        let k = choose|k: int| 0 <= k < prev.len() && prev[k] == views[p].change@;
        assert(listed(views, fs, which)[k] == views[p].change@);
    } else {
        assert(listed(views, fs, which)[prev.len() as int] == views[p].change@);
    }
}

/// In a derived change exposure report, a change is on the `approved` list
/// exactly when its view has an approved customer value: entry `k` of the list names such a change,
/// and the change of view `p`, when its view qualifies, is listed.
pub proof fn lemma_approved_list_follows_views(
    s: ChangeControlSet,
    charter: CurrencyCode,
    as_of: ProjectDate,
    rep: ChangeExposureReport,
    k: int,
    p: int,
)
    requires
        derive_check(s, charter, as_of, Ok(rep)),
    ensures
        0 <= k < rep.approved@.len() ==> exists|q: int| 0 <= q < rep.changes@.len()
            && (#[trigger] rep.changes@[q]).change@ == rep.approved@[k]@ && rep.changes@[q].approved_customer > 0,
        0 <= p < rep.changes@.len() && rep.changes@[p].approved_customer > 0
            ==> exists|j: int| 0 <= j < rep.approved@.len() && (#[trigger] rep.approved@[j])@ == rep.changes@[p].change@,
{
    let cs = s.changes@;
    let fs = s.facts@;
    let order = choose|order: Seq<usize>| #[trigger] sorted_order(cs, order) && report_along(cs, fs, charter, as_of, order, rep);
    let views = rep.changes@;
    if 0 <= k < rep.approved@.len() {
        assert(change_ids(rep.approved@)[k] == rep.approved@[k]@);
        lemma_listed_member(views, fs, PortfolioList::Approved, k);
    }
    if 0 <= p < rep.changes@.len() && rep.changes@[p].approved_customer > 0 {
        lemma_listed_complete(views, fs, PortfolioList::Approved, p);
        let j = choose|j: int| 0 <= j < listed(views, fs, PortfolioList::Approved).len() && listed(views, fs, PortfolioList::Approved)[j] == views[p].change@;
        assert(change_ids(rep.approved@)[j] == rep.approved@[j]@);
    }
}

/// In a derived change exposure report, a change is on the `supplier_only` list
/// exactly when its view has supplier exposure and no customer recovery: entry `k` of the list names such a change,
/// and the change of view `p`, when its view qualifies, is listed.
pub proof fn lemma_supplier_only_list_follows_views(
    s: ChangeControlSet,
    charter: CurrencyCode,
    as_of: ProjectDate,
    rep: ChangeExposureReport,
    k: int,
    p: int,
)
    requires
        derive_check(s, charter, as_of, Ok(rep)),
    ensures
        0 <= k < rep.supplier_only@.len() ==> exists|q: int| 0 <= q < rep.changes@.len()
            && (#[trigger] rep.changes@[q]).change@ == rep.supplier_only@[k]@ && rep.changes@[q].supplier_exposure > 0 && rep.changes@[q].customer_recovery == 0,
        0 <= p < rep.changes@.len() && rep.changes@[p].supplier_exposure > 0 && rep.changes@[p].customer_recovery == 0
            ==> exists|j: int| 0 <= j < rep.supplier_only@.len() && (#[trigger] rep.supplier_only@[j])@ == rep.changes@[p].change@,
{
    let cs = s.changes@;
    let fs = s.facts@;
    let order = choose|order: Seq<usize>| #[trigger] sorted_order(cs, order) && report_along(cs, fs, charter, as_of, order, rep);
    let views = rep.changes@;
    if 0 <= k < rep.supplier_only@.len() {
        assert(change_ids(rep.supplier_only@)[k] == rep.supplier_only@[k]@);
        lemma_listed_member(views, fs, PortfolioList::SupplierOnly, k);
    }
    if 0 <= p < rep.changes@.len() && rep.changes@[p].supplier_exposure > 0 && rep.changes@[p].customer_recovery == 0 {
        lemma_listed_complete(views, fs, PortfolioList::SupplierOnly, p);
        let j = choose|j: int| 0 <= j < listed(views, fs, PortfolioList::SupplierOnly).len() && listed(views, fs, PortfolioList::SupplierOnly)[j] == views[p].change@;
        assert(change_ids(rep.supplier_only@)[j] == rep.supplier_only@[j]@);
    }
}

/// In a derived change exposure report, a change is on the `customer_only` list
/// exactly when its view has customer recovery and no supplier exposure: entry `k` of the list names such a change,
/// and the change of view `p`, when its view qualifies, is listed.
pub proof fn lemma_customer_only_list_follows_views(
    s: ChangeControlSet,
    charter: CurrencyCode,
    as_of: ProjectDate,
    rep: ChangeExposureReport,
    k: int,
    p: int,
)
    requires
        derive_check(s, charter, as_of, Ok(rep)),
    ensures
        0 <= k < rep.customer_only@.len() ==> exists|q: int| 0 <= q < rep.changes@.len()
            && (#[trigger] rep.changes@[q]).change@ == rep.customer_only@[k]@ && rep.changes@[q].customer_recovery > 0 && rep.changes@[q].supplier_exposure == 0,
        0 <= p < rep.changes@.len() && rep.changes@[p].customer_recovery > 0 && rep.changes@[p].supplier_exposure == 0
            ==> exists|j: int| 0 <= j < rep.customer_only@.len() && (#[trigger] rep.customer_only@[j])@ == rep.changes@[p].change@,
{
    let cs = s.changes@;
    let fs = s.facts@;
    let order = choose|order: Seq<usize>| #[trigger] sorted_order(cs, order) && report_along(cs, fs, charter, as_of, order, rep);
    let views = rep.changes@;
    if 0 <= k < rep.customer_only@.len() {
        assert(change_ids(rep.customer_only@)[k] == rep.customer_only@[k]@);
        lemma_listed_member(views, fs, PortfolioList::CustomerOnly, k);
    }
    if 0 <= p < rep.changes@.len() && rep.changes@[p].customer_recovery > 0 && rep.changes@[p].supplier_exposure == 0 {
        lemma_listed_complete(views, fs, PortfolioList::CustomerOnly, p);
        let j = choose|j: int| 0 <= j < listed(views, fs, PortfolioList::CustomerOnly).len() && listed(views, fs, PortfolioList::CustomerOnly)[j] == views[p].change@;
        assert(change_ids(rep.customer_only@)[j] == rep.customer_only@[j]@);
    }
}

/// In a derived change exposure report, a change is on the `time_risk` list
/// exactly when its view is a time risk: entry `k` of the list names such a change,
/// and the change of view `p`, when its view qualifies, is listed.
pub proof fn lemma_time_risk_list_follows_views(
    s: ChangeControlSet,
    charter: CurrencyCode,
    as_of: ProjectDate,
    rep: ChangeExposureReport,
    k: int,
    p: int,
)
    requires
        derive_check(s, charter, as_of, Ok(rep)),
    ensures
        0 <= k < rep.time_risk@.len() ==> exists|q: int| 0 <= q < rep.changes@.len()
            && (#[trigger] rep.changes@[q]).change@ == rep.time_risk@[k]@ && rep.changes@[q].time_risk,
        0 <= p < rep.changes@.len() && rep.changes@[p].time_risk
            ==> exists|j: int| 0 <= j < rep.time_risk@.len() && (#[trigger] rep.time_risk@[j])@ == rep.changes@[p].change@,
{
    let cs = s.changes@;
    let fs = s.facts@;
    let order = choose|order: Seq<usize>| #[trigger] sorted_order(cs, order) && report_along(cs, fs, charter, as_of, order, rep);
    let views = rep.changes@;
    if 0 <= k < rep.time_risk@.len() {
        assert(change_ids(rep.time_risk@)[k] == rep.time_risk@[k]@);
        lemma_listed_member(views, fs, PortfolioList::TimeRisk, k);
    }
    if 0 <= p < rep.changes@.len() && rep.changes@[p].time_risk {
        lemma_listed_complete(views, fs, PortfolioList::TimeRisk, p);
        let j = choose|j: int| 0 <= j < listed(views, fs, PortfolioList::TimeRisk).len() && listed(views, fs, PortfolioList::TimeRisk)[j] == views[p].change@;
        assert(change_ids(rep.time_risk@)[j] == rep.time_risk@[j]@);
    }
}

/// In a derived change exposure report, a change is on the `overdue_notice` list
/// exactly when its view has an overdue notice: entry `k` of the list names such a change,
/// and the change of view `p`, when its view qualifies, is listed.
pub proof fn lemma_overdue_notice_list_follows_views(
    s: ChangeControlSet,
    charter: CurrencyCode,
    as_of: ProjectDate,
    rep: ChangeExposureReport,
    k: int,
    p: int,
)
    requires
        derive_check(s, charter, as_of, Ok(rep)),
    ensures
        0 <= k < rep.overdue_notice@.len() ==> exists|q: int| 0 <= q < rep.changes@.len()
            && (#[trigger] rep.changes@[q]).change@ == rep.overdue_notice@[k]@ && rep.changes@[q].overdue_notice,
        0 <= p < rep.changes@.len() && rep.changes@[p].overdue_notice
            ==> exists|j: int| 0 <= j < rep.overdue_notice@.len() && (#[trigger] rep.overdue_notice@[j])@ == rep.changes@[p].change@,
{
    let cs = s.changes@;
    let fs = s.facts@;
    let order = choose|order: Seq<usize>| #[trigger] sorted_order(cs, order) && report_along(cs, fs, charter, as_of, order, rep);
    let views = rep.changes@;
    if 0 <= k < rep.overdue_notice@.len() {
        assert(change_ids(rep.overdue_notice@)[k] == rep.overdue_notice@[k]@);
        lemma_listed_member(views, fs, PortfolioList::OverdueNotice, k);
    }
    if 0 <= p < rep.changes@.len() && rep.changes@[p].overdue_notice {
        lemma_listed_complete(views, fs, PortfolioList::OverdueNotice, p);
        let j = choose|j: int| 0 <= j < listed(views, fs, PortfolioList::OverdueNotice).len() && listed(views, fs, PortfolioList::OverdueNotice)[j] == views[p].change@;
        assert(change_ids(rep.overdue_notice@)[j] == rep.overdue_notice@[j]@);
    }
}

/// Each view of a derived change exposure report belongs to a change record
/// of the set: its net exposure is its supplier exposure less its customer
/// recovery, its notice is overdue exactly when the record's notice due date
/// has passed with no notice given, and a closed change is no time risk.
/// Views come in strictly increasing change-id order.
pub proof fn lemma_change_views_follow_records(s: ChangeControlSet, charter: CurrencyCode, as_of: ProjectDate, rep: ChangeExposureReport, p: int, q: int)
    requires
        derive_check(s, charter, as_of, Ok(rep)),
        0 <= p < rep.changes@.len(),
    ensures
        exists|i: int| 0 <= i < s.changes@.len() && (#[trigger] s.changes@[i]).id == rep.changes@[p].change
            && rep.changes@[p].overdue_notice == (s.changes@[i].notice_due_on matches Some(d) && as_of.julian_day > d.julian_day
                && s.changes@[i].notice_given_on is None),
        rep.changes@[p].net_exposure == rep.changes@[p].supplier_exposure - rep.changes@[p].customer_recovery,
        rep.changes@[p].time_risk ==> rep.changes@[p].status != ChangeStatus::Closed,
        p < q < rep.changes@.len() ==> lex_lt(rep.changes@[p].change@, rep.changes@[q].change@),
{
    let cs = s.changes@;
    let fs = s.facts@;
    let order = choose|order: Seq<usize>| #[trigger] sorted_order(cs, order) && report_along(cs, fs, charter, as_of, order, rep);
    let views = rep.changes@;
    let i = order[p] as int;
    assert(view_result(cs[i], fs, as_of, Ok(views[p])));
    let cid = cs[i].id@;
    let sup = supplier_total(fs, cid);
    let cus = customer_total(fs, cid);
    let app = approved_total(fs, cid);
    assert(view_fields(views[p], cs[i], fs, as_of, sup->0, cus->0, app->0));
    if p < q < views.len() {
        assert(view_result(cs[order[q] as int], fs, as_of, Ok(views[q])));
        let cq = cs[order[q] as int].id@;
        assert(view_fields(views[q], cs[order[q] as int], fs, as_of, supplier_total(fs, cq)->0, customer_total(fs, cq)->0,
            approved_total(fs, cq)->0));
    }
}

} // verus!
