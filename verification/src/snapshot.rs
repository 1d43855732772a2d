//! The current facts of a project as of one book sequence.

use vstd::prelude::*;
use crate::evidence::EvidenceState;
use crate::identity::{ControlId, ProjectId};
use crate::order::{first_key, key_position, lemma_first_key_stable};

verus! {

/// The current fact of one control.
#[derive(Debug, PartialEq, Eq)]
pub struct CurrentFact {
    /// Control the fact is about.
    pub control: ControlId,
    /// Book sequence of the current fact.
    pub seq: u64,
    /// Evidence state the fact records.
    pub evidence_state: EvidenceState,
}

/// Earlier facts of one control that later facts superseded.
#[derive(Debug, PartialEq, Eq)]
pub struct SupersededFacts {
    /// Control the facts are about.
    pub control: ControlId,
    /// Sequences of the superseded facts.
    pub prior: Vec<u64>,
}

/// Deterministic view of a project book through one sequence.
#[derive(Debug, PartialEq, Eq)]
pub struct ProjectSnapshot {
    /// Project the snapshot belongs to.
    pub project: ProjectId,
    /// Last book sequence the snapshot includes.
    pub through_seq: u64,
    /// Current fact of each control.
    pub current: Vec<CurrentFact>,
    /// Superseded facts of each control.
    pub superseded: Vec<SupersededFacts>,
}

/// Control ids of the current facts, in order.
pub open spec fn current_keys(cs: Seq<CurrentFact>) -> Seq<Seq<char>> {
    cs.map_values(|c: CurrentFact| c.control@)
}

/// Control ids of the superseded entries, in order.
pub open spec fn superseded_keys(ss: Seq<SupersededFacts>) -> Seq<Seq<char>> {
    ss.map_values(|s: SupersededFacts| s.control@)
}

/// The current fact of control `x`: the first entry for it.
pub open spec fn current_of(s: ProjectSnapshot, x: Seq<char>) -> Option<CurrentFact> {
    match key_position(current_keys(s.current@), x) {
        Some(k) => Some(s.current@[k]),
        None => None,
    }
}

/// Control `x` has at least one superseded fact in its (first) entry.
pub open spec fn was_superseded(s: ProjectSnapshot, x: Seq<char>) -> bool {
    match key_position(superseded_keys(s.superseded@), x) {
        Some(k) => s.superseded@[k].prior@.len() > 0,
        None => false,
    }
}

impl ProjectSnapshot {
    /// Returns the current fact of a control.
    pub fn current_fact(&self, control: &ControlId) -> (r: Option<&CurrentFact>)
        ensures
            match current_of(*self, control@) {
                Some(f) => r matches Some(g) && *g == f,
                None => r is None,
            },
    {
        let ghost keys = current_keys(self.current@);
        let mut i: usize = 0;
        while i < self.current.len()
            invariant
                keys == current_keys(self.current@),
                i <= self.current@.len(),
                first_key(keys, control@, i as int) is None,
            decreases self.current.len() - i,
        {
            if self.current[i].control.same(control) {
                proof {
                    assert(keys[i as int] == control@);
                    assert(first_key(keys, control@, i as int + 1) == Some(i as int));
                    lemma_first_key_stable(keys, control@, i as int + 1, keys.len() as int);
                }
                return Some(&self.current[i]);
            }
            i = i + 1;
        }
        None
    }

    /// True when a later fact superseded an earlier fact of the control.
    pub fn has_superseded(&self, control: &ControlId) -> (b: bool)
        ensures
            b == was_superseded(*self, control@),
    {
        let ghost keys = superseded_keys(self.superseded@);
        let mut i: usize = 0;
        while i < self.superseded.len()
            invariant
                keys == superseded_keys(self.superseded@),
                i <= self.superseded@.len(),
                first_key(keys, control@, i as int) is None,
            decreases self.superseded.len() - i,
        {
            if self.superseded[i].control.same(control) {
                proof {
                    assert(keys[i as int] == control@);
                    assert(first_key(keys, control@, i as int + 1) == Some(i as int));
                    lemma_first_key_stable(keys, control@, i as int + 1, keys.len() as int);
                }
                return self.superseded[i].prior.len() > 0;
            }
            i = i + 1;
        }
        false
    }
}

} // verus!
