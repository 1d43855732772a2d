//! In-memory append-only construction project books.

use vstd::prelude::*;
use vstd::seq_lib::{to_multiset_contains, to_multiset_insert, to_multiset_len, to_multiset_remove};
use crate::error::ConstructionProjectError;
use crate::fact::{
    body_nodes, fact_bounds_check, first_reference_fault, reference_fault, ProjectFact, MAX_FACT_BODY_NODES, MAX_FACT_EVIDENCE_REFS,
};
use crate::governance::symbol_unambiguous;
use crate::identity::id_fault;
use crate::identity::{ProjectId, RoleId};

verus! {

/// Default maximum facts accepted by an in-memory project book.
pub const DEFAULT_MAX_PROJECT_FACTS: usize = 10_000;

/// Sequences strictly increase along `fs`.
pub open spec fn strictly_ordered(fs: Seq<ProjectFact>) -> bool {
    forall|i: int, j: int| 0 <= i < j < fs.len() ==> (#[trigger] fs[i]).seq < (#[trigger] fs[j]).seq
}

/// Some fact of `fs` carries sequence `s`.
pub open spec fn has_seq(fs: Seq<ProjectFact>, s: u64) -> bool {
    exists|j: int| 0 <= j < fs.len() && (#[trigger] fs[j]).seq == s
}

/// The position of the fact carrying sequence `s`.
pub open spec fn seq_position(fs: Seq<ProjectFact>, s: u64) -> int {
    choose|j: int| 0 <= j < fs.len() && (#[trigger] fs[j]).seq == s
}

/// Some fact of `fs` corrects sequence `s`.
pub open spec fn corrected(fs: Seq<ProjectFact>, s: u64) -> bool {
    exists|j: int| 0 <= j < fs.len() && (#[trigger] fs[j]).supersedes == Some(s)
}

/// The position of the fact correcting sequence `s`.
pub open spec fn corrector(fs: Seq<ProjectFact>, s: u64) -> int {
    choose|j: int| 0 <= j < fs.len() && (#[trigger] fs[j]).supersedes == Some(s)
}

/// What appending fact `f` to a book of `project`, `writer` and bound `max`
/// holding `fs` answers: the first failed check in the order fact bound,
/// fact shape, project, writer, repeated sequence, order, and correction
/// edge (backward, present, same project, same subject, not yet corrected).
pub open spec fn append_check(
    project: ProjectId,
    writer: RoleId,
    max: usize,
    fs: Seq<ProjectFact>,
    f: ProjectFact,
    r: Result<(), ConstructionProjectError>,
) -> bool {
    if fs.len() >= max {
        r == Err::<(), ConstructionProjectError>(ConstructionProjectError::FactLimitExceeded { max })
    } else if !fact_bounds_check(f, Ok(())) {
        fact_bounds_check(f, r)
    } else if f.project@ != project@ {
        r matches Err(ConstructionProjectError::ProjectMismatch { expected, actual }) && expected == project
            && actual == f.project
    } else if f.actor_role@ != writer@ {
        r matches Err(ConstructionProjectError::WriterMismatch { expected, actual }) && expected == writer
            && actual == f.actor_role
    } else if has_seq(fs, f.seq) {
        r == Err::<(), ConstructionProjectError>(ConstructionProjectError::DuplicateSequence { sequence: f.seq })
    } else if fs.len() > 0 && f.seq <= fs.last().seq {
        r == Err::<(), ConstructionProjectError>(
            ConstructionProjectError::OutOfOrderSequence { last_sequence: fs.last().seq, next_sequence: f.seq },
        )
    } else if f.supersedes matches Some(p) && p >= f.seq {
        r == Err::<(), ConstructionProjectError>(
            ConstructionProjectError::InvalidSupersession {
                sequence: f.seq,
                supersedes: f.supersedes->0,
                reason: "supersession must point backward",
            },
        )
    } else if f.supersedes matches Some(p) && !has_seq(fs, p) {
        r == Err::<(), ConstructionProjectError>(
            ConstructionProjectError::MissingSupersededFact { sequence: f.seq, supersedes: f.supersedes->0 },
        )
    } else if f.supersedes matches Some(p) && fs[seq_position(fs, p)].project@ != f.project@ {
        r matches Err(ConstructionProjectError::ProjectMismatch { expected, actual })
            && expected == fs[seq_position(fs, f.supersedes->0)].project && actual == f.project
    } else if f.supersedes matches Some(p) && fs[seq_position(fs, p)].subject@ != f.subject@ {
        r matches Err(ConstructionProjectError::SupersessionSubjectMismatch { sequence, supersedes, expected, actual })
            && sequence == f.seq && supersedes == f.supersedes->0
            && expected == fs[seq_position(fs, f.supersedes->0)].subject && actual == f.subject
    } else if f.supersedes matches Some(p) && corrected(fs, p) {
        r == Err::<(), ConstructionProjectError>(
            ConstructionProjectError::SupersessionFork {
                supersedes: f.supersedes->0,
                existing: fs[corrector(fs, f.supersedes->0)].seq,
                attempted: f.seq,
            },
        )
    } else {
        r is Ok
    }
}

/// Fact `f` passes its shape checks and belongs to `project` and `writer`.
#[verifier::opaque]
pub open spec fn fact_belongs(project: ProjectId, writer: RoleId, f: ProjectFact) -> bool {
    &&& fact_bounds_check(f, Ok(()))
    &&& f.project@ == project@
    &&& f.actor_role@ == writer@
}

/// When fact `k` corrects a sequence, an earlier fact of the same subject
/// carries it.
pub open spec fn correction_backed(fs: Seq<ProjectFact>, k: int) -> bool {
    fs[k].supersedes matches Some(p) ==> exists|j: int|
        0 <= j < k && (#[trigger] fs[j]).seq == p && fs[j].subject@ == fs[k].subject@
}

/// Facts `i` and `j` do not correct the same sequence.
pub open spec fn no_fork(fs: Seq<ProjectFact>, i: int, j: int) -> bool {
    fs[i].supersedes is Some ==> fs[j].supersedes != fs[i].supersedes
}

/// The facts of a book of `project` written by `writer`: each passes its
/// shape checks and belongs to the book, sequences strictly increase, each
/// correction points back to an earlier fact of the same subject, and no
/// sequence is corrected twice.
pub open spec fn book_facts_wf(project: ProjectId, writer: RoleId, fs: Seq<ProjectFact>) -> bool {
    &&& strictly_ordered(fs)
    &&& forall|k: int| 0 <= k < fs.len() ==> fact_belongs(project, writer, #[trigger] fs[k])
    &&& forall|k: int| 0 <= k < fs.len() ==> #[trigger] correction_backed(fs, k)
    &&& forall|i: int, j: int| 0 <= i < j < fs.len() ==> #[trigger] no_fork(fs, i, j)
}

/// Fact `i` repeats the sequence of an earlier fact.
pub open spec fn repeats_sequence(fs: Seq<ProjectFact>, i: int) -> bool {
    &&& 0 <= i < fs.len()
    &&& exists|j: int| 0 <= j < i && (#[trigger] fs[j]).seq == fs[i].seq
}

/// Appending fact `k` of `sorted` to a new book that holds the facts before it passes its checks.
pub open spec fn replay_step_ok(project: ProjectId, writer: RoleId, sorted: Seq<ProjectFact>, k: int) -> bool {
    append_check(project, writer, DEFAULT_MAX_PROJECT_FACTS, sorted.take(k), sorted[k], Ok(()))
}

/// What replaying `sorted` into a new book of `project` and `writer`
/// answers: the book holding exactly those facts, or the error of the first
/// refused append.
pub open spec fn replay_result(
    project: ProjectId,
    writer: RoleId,
    sorted: Seq<ProjectFact>,
    r: Result<ProjectBook, ConstructionProjectError>,
) -> bool {
    match r {
        Ok(b) => {
            &&& b.project_spec() == project
            &&& b.writer_spec() == writer
            &&& b.max_facts_spec() == DEFAULT_MAX_PROJECT_FACTS
            &&& b.facts_view() == sorted
            &&& forall|k: int| 0 <= k < sorted.len() ==> #[trigger] replay_step_ok(project, writer, sorted, k)
        },
        Err(e) => exists|k: int|
            0 <= k < sorted.len() && (forall|j: int| 0 <= j < k ==> #[trigger] replay_step_ok(project, writer, sorted, j))
                && append_check(project, writer, DEFAULT_MAX_PROJECT_FACTS, #[trigger] sorted.take(k), sorted[k], Err(e)),
    }
}

/// `sorted` holds the facts of `input` in strictly increasing sequence order.
pub open spec fn sorted_facts(input: Seq<ProjectFact>, sorted: Seq<ProjectFact>) -> bool {
    &&& sorted.to_multiset() == input.to_multiset()
    &&& strictly_ordered(sorted)
}

/// What `from_facts(project, writer, input)` answers: the first fact that
/// repeats an earlier sequence, in input order, or else the replay of the
/// facts in sequence order.
pub open spec fn from_facts_result(
    project: ProjectId,
    writer: RoleId,
    input: Seq<ProjectFact>,
    r: Result<ProjectBook, ConstructionProjectError>,
) -> bool {
    if exists|i: int| #[trigger] repeats_sequence(input, i) {
        exists|i: int| #[trigger] repeats_sequence(input, i) && (forall|j: int| 0 <= j < i ==> !#[trigger] repeats_sequence(input, j))
            && r == Err::<ProjectBook, ConstructionProjectError>(
            ConstructionProjectError::DuplicateSequence { sequence: input[i].seq },
        )
    } else {
        exists|sorted: Seq<ProjectFact>| #[trigger] sorted_facts(input, sorted) && replay_result(project, writer, sorted, r)
    }
}

/// Append-only project-control fact book with one authoritative writer.
#[derive(Debug, PartialEq, Eq)]
pub struct ProjectBook {
    project: ProjectId,
    writer: RoleId,
    max_facts: usize,
    facts: Vec<ProjectFact>,
}

impl ProjectBook {
    /// The project that owns the book.
    pub closed spec fn project_spec(&self) -> ProjectId {
        self.project
    }

    /// The authoritative writer.
    pub closed spec fn writer_spec(&self) -> RoleId {
        self.writer
    }

    /// The fact count bound.
    pub closed spec fn max_facts_spec(&self) -> usize {
        self.max_facts
    }

    /// The facts in sequence order.
    pub closed spec fn facts_view(&self) -> Seq<ProjectFact> {
        self.facts@
    }

    /// The book's facts are well formed for its project and writer.
    pub open spec fn wf(&self) -> bool {
        book_facts_wf(self.project_spec(), self.writer_spec(), self.facts_view())
    }

    /// Every book keeps its facts well formed.
    #[verifier::type_invariant]
    pub open spec fn book_inv(self) -> bool {
        self.wf()
    }

    /// Starts an empty project book.
    pub fn new(project: ProjectId, writer: RoleId) -> (b: Self)
        ensures
            b.project_spec() == project,
            b.writer_spec() == writer,
            b.max_facts_spec() == DEFAULT_MAX_PROJECT_FACTS,
            b.facts_view().len() == 0,
            b.wf(),
    {
        ProjectBook { project, writer, max_facts: DEFAULT_MAX_PROJECT_FACTS, facts: Vec::new() }
    }

    /// Builds a project book with a custom fact count bound.
    pub fn with_max_facts(self, max_facts: usize) -> (b: Self)
        ensures
            b.project_spec() == self.project_spec(),
            b.writer_spec() == self.writer_spec(),
            b.max_facts_spec() == max_facts,
            b.facts_view() == self.facts_view(),
    {
        proof {
            use_type_invariant(&self);
        }
        let mut b = self;
        b.max_facts = max_facts;
        b
    }

    /// Returns the project owned by this book.
    pub fn project(&self) -> (r: &ProjectId)
        ensures
            *r == self.project_spec(),
    {
        &self.project
    }

    /// Returns the authoritative writer role.
    pub fn authoritative_writer(&self) -> (r: &RoleId)
        ensures
            *r == self.writer_spec(),
    {
        &self.writer
    }

    /// Returns the configured fact count bound.
    pub fn max_facts(&self) -> (r: usize)
        ensures
            r == self.max_facts_spec(),
    {
        self.max_facts
    }

    /// Returns the fact count.
    pub fn len(&self) -> (r: usize)
        ensures
            r == self.facts_view().len(),
    {
        self.facts.len()
    }

    /// Returns true when the book has no facts.
    pub fn is_empty(&self) -> (r: bool)
        ensures
            r == (self.facts_view().len() == 0),
    {
        self.facts.len() == 0
    }

    /// Returns the highest appended sequence.
    pub fn last_sequence(&self) -> (r: Option<u64>)
        ensures
            r is None <==> self.facts_view().len() == 0,
            r matches Some(s) ==> has_seq(self.facts_view(), s) && forall|j: int|
                0 <= j < self.facts_view().len() ==> (#[trigger] self.facts_view()[j]).seq <= s,
    {
        proof {
            use_type_invariant(self);
        }
        if self.facts.len() == 0 {
            None
        } else {
            let last = self.facts.len() - 1;
            proof {
                let fs = self.facts@;
                assert(fs[last as int].seq == fs[last as int].seq);
                assert forall|j: int| 0 <= j < fs.len() implies (#[trigger] fs[j]).seq <= fs[last as int].seq by {
                    if j < last {
                        assert(fs[j].seq < fs[last as int].seq);
                    }
                }
            }
            Some(self.facts[last].seq)
        }
    }

    /// Returns the facts in sequence order.
    pub fn facts(&self) -> (r: &Vec<ProjectFact>)
        ensures
            r@ == self.facts_view(),
    {
        &self.facts
    }

    fn position_of(&self, sequence: u64) -> (r: Option<usize>)
        requires
            strictly_ordered(self.facts@),
        ensures
            r is None <==> !has_seq(self.facts@, sequence),
            r matches Some(j) ==> j < self.facts@.len() && j == seq_position(self.facts@, sequence),
    {
        let mut i: usize = 0;
        while i < self.facts.len()
            invariant
                strictly_ordered(self.facts@),
                i <= self.facts@.len(),
                forall|j: int| 0 <= j < i ==> (#[trigger] self.facts@[j]).seq != sequence,
            decreases self.facts.len() - i,
        {
            if self.facts[i].seq == sequence {
                proof {
                    let fs = self.facts@;
                    let c = seq_position(fs, sequence);
                    assert(fs[i as int].seq == sequence);
                    assert(fs[c].seq == sequence);
                    if c < i {
                        assert(fs[c].seq < fs[i as int].seq);
                    } else if c > i {
                        assert(fs[i as int].seq < fs[c].seq);
                    }
                }
                return Some(i);
            }
            i = i + 1;
        }
        None
    }

    /// Returns one fact by sequence.
    pub fn fact(&self, sequence: u64) -> (r: Option<&ProjectFact>)
        ensures
            r is None <==> !has_seq(self.facts_view(), sequence),
            r matches Some(f) ==> *f == self.facts_view()[seq_position(self.facts_view(), sequence)],
    {
        proof {
            use_type_invariant(self);
        }
        match self.position_of(sequence) {
            Some(j) => Some(&self.facts[j]),
            None => None,
        }
    }

    fn corrector_of(&self, sequence: u64) -> (r: Option<usize>)
        requires
            self.wf(),
        ensures
            r is None <==> !corrected(self.facts@, sequence),
            r matches Some(j) ==> j < self.facts@.len() && j == corrector(self.facts@, sequence),
    {
        let mut i: usize = 0;
        while i < self.facts.len()
            invariant
                self.wf(),
                i <= self.facts@.len(),
                forall|j: int| 0 <= j < i ==> (#[trigger] self.facts@[j]).supersedes != Some(sequence),
            decreases self.facts.len() - i,
        {
            if self.facts[i].supersedes == Some(sequence) {
                proof {
                    let fs = self.facts@;
                    let c = corrector(fs, sequence);
                    assert(fs[i as int].supersedes == Some(sequence));
                    assert(fs[c].supersedes == Some(sequence));
                    if c < i {
                        assert(no_fork(fs, c, i as int));
                    } else if c > i {
                        assert(no_fork(fs, i as int, c));
                    }
                }
                return Some(i);
            }
            i = i + 1;
        }
        None
    }

    fn check_append(&self, fact: &ProjectFact) -> (r: Result<(), ConstructionProjectError>)
        requires
            self.wf(),
        ensures
            append_check(self.project, self.writer, self.max_facts, self.facts@, *fact, r),
    {
        let ghost fs = self.facts@;
        if self.facts.len() >= self.max_facts {
            return Err(ConstructionProjectError::FactLimitExceeded { max: self.max_facts });
        }
        match fact.validate_bounds() {
            Ok(()) => {},
            Err(e) => {
                return Err(e);
            },
        }
        if !fact.project.same(&self.project) {
            return Err(ConstructionProjectError::ProjectMismatch { expected: self.project.clone(), actual: fact.project.clone() });
        }
        if !fact.actor_role.same(&self.writer) {
            return Err(ConstructionProjectError::WriterMismatch { expected: self.writer.clone(), actual: fact.actor_role.clone() });
        }
        if self.position_of(fact.seq).is_some() {
            return Err(ConstructionProjectError::DuplicateSequence { sequence: fact.seq });
        }
        if self.facts.len() > 0 {
            let last_sequence = self.facts[self.facts.len() - 1].seq;
            if fact.seq <= last_sequence {
                return Err(ConstructionProjectError::OutOfOrderSequence { last_sequence, next_sequence: fact.seq });
            }
        }
        match fact.supersedes {
            None => Ok(()),
            Some(supersedes) => {
                if supersedes >= fact.seq {
                    return Err(ConstructionProjectError::InvalidSupersession {
                        sequence: fact.seq,
                        supersedes,
                        reason: "supersession must point backward",
                    });
                }
                let prior = match self.position_of(supersedes) {
                    Some(j) => j,
                    None => {
                        return Err(ConstructionProjectError::MissingSupersededFact { sequence: fact.seq, supersedes });
                    },
                };
                if !self.facts[prior].project.same(&fact.project) {
                    return Err(ConstructionProjectError::ProjectMismatch {
                        expected: self.facts[prior].project.clone(),
                        actual: fact.project.clone(),
                    });
                }
                if !self.facts[prior].subject.same(&fact.subject) {
                    return Err(ConstructionProjectError::SupersessionSubjectMismatch {
                        sequence: fact.seq,
                        supersedes,
                        expected: self.facts[prior].subject.clone(),
                        actual: fact.subject.clone(),
                    });
                }
                match self.corrector_of(supersedes) {
                    Some(j) => Err(ConstructionProjectError::SupersessionFork {
                        supersedes,
                        existing: self.facts[j].seq,
                        attempted: fact.seq,
                    }),
                    None => Ok(()),
                }
            },
        }
    }

    /// Appends one fact after checking the project, writer, sequence, and
    /// supersession; a refused fact leaves the book unchanged.
    pub fn append(&mut self, fact: ProjectFact) -> (r: Result<(), ConstructionProjectError>)
        ensures
            append_check(old(self).project_spec(), old(self).writer_spec(), old(self).max_facts_spec(), old(self).facts_view(), fact, r),
            final(self).project_spec() == old(self).project_spec(),
            final(self).writer_spec() == old(self).writer_spec(),
            final(self).max_facts_spec() == old(self).max_facts_spec(),
            r is Ok ==> final(self).facts_view() == old(self).facts_view().push(fact),
            r is Err ==> final(self).facts_view() == old(self).facts_view(),
            final(self).wf(),
    {
        proof {
            use_type_invariant(&*self);
        }
        match self.check_append(&fact) {
            Ok(()) => {},
            Err(e) => {
                return Err(e);
            },
        }
        let ghost fs = self.facts@;
        let mut facts: Vec<ProjectFact> = Vec::new();
        std::mem::swap(&mut facts, &mut self.facts);
        facts.push(fact);
        proof {
            lemma_append_keeps_wf(self.project, self.writer, self.max_facts, fs, fact);
        }
        self.facts = facts;
        Ok(())
    }
}

/// The position of the first fact that repeats an earlier sequence.
fn first_repeat(facts: &Vec<ProjectFact>) -> (r: Option<usize>)
    ensures
        r is None <==> !exists|i: int| #[trigger] repeats_sequence(facts@, i),
        r matches Some(i) ==> repeats_sequence(facts@, i as int) && forall|j: int|
            0 <= j < i ==> !#[trigger] repeats_sequence(facts@, j),
{
    let mut i: usize = 0;
    while i < facts.len()
        invariant
            i <= facts@.len(),
            forall|q: int| 0 <= q < i ==> !#[trigger] repeats_sequence(facts@, q),
        decreases facts.len() - i,
    {
        let mut j: usize = 0;
        while j < i
            invariant
                j <= i < facts@.len(),
                forall|q: int| 0 <= q < i ==> !#[trigger] repeats_sequence(facts@, q),
                forall|q: int| 0 <= q < j ==> (#[trigger] facts@[q]).seq != facts@[i as int].seq,
            decreases i - j,
        {
            if facts[j].seq == facts[i].seq {
                proof {
                    assert(repeats_sequence(facts@, i as int));
                }
                return Some(i);
            }
            j = j + 1;
        }
        i = i + 1;
    }
    proof {
        assert forall|q: int| !#[trigger] repeats_sequence(facts@, q) by {
            if 0 <= q < facts@.len() {
            }
        }
    }
    None
}

/// The facts in strictly increasing sequence order.
fn sort_by_sequence(facts: Vec<ProjectFact>) -> (out: Vec<ProjectFact>)
    requires
        forall|i: int| !#[trigger] repeats_sequence(facts@, i),
    ensures
        sorted_facts(facts@, out@),
{
    let ghost input = facts@;
    let ghost n = input.len() as int;
    proof {
        assert forall|a: int, b: int| 0 <= a < b < n implies (#[trigger] input[a]).seq != (#[trigger] input[b]).seq by {
            assert(!repeats_sequence(input, b));
        }
    }
    let mut rest = facts;
    let mut out: Vec<ProjectFact> = Vec::new();
    proof {
        assert(rest@ =~= input.take(n));
        assert(input.subrange(n, n) =~= Seq::<ProjectFact>::empty());
        assert(out@ =~= Seq::<ProjectFact>::empty());
    }
    while rest.len() > 0
        invariant
            n == input.len(),
            forall|a: int, b: int| 0 <= a < b < n ==> (#[trigger] input[a]).seq != (#[trigger] input[b]).seq,
            rest@.len() <= n,
            rest@ == input.take(rest@.len() as int),
            strictly_ordered(out@),
            out@.to_multiset() == input.subrange(rest@.len() as int, n).to_multiset(),
            forall|i: int, j: int| 0 <= i < rest@.len() && 0 <= j < out@.len() ==> (#[trigger] rest@[i]).seq
                != (#[trigger] out@[j]).seq,
        decreases rest.len(),
    {
        let ghost m = rest@.len() as int;
        let ghost old_rest = rest@;
        let f = rest.pop().unwrap();
        proof {
            assert(f == input[m - 1]);
            assert(rest@ =~= input.take(m - 1));
        }
        let mut p: usize = 0;
        while p < out.len() && out[p].seq < f.seq
            invariant
                p <= out@.len(),
                forall|q: int| 0 <= q < p ==> (#[trigger] out@[q]).seq < f.seq,
            decreases out.len() - p,
        {
            p = p + 1;
        }
        let ghost before = out@;
        proof {
            if p < before.len() {
                assert(old_rest[m - 1] == f);
                assert(before[p as int].seq != f.seq);
                assert(before[p as int].seq > f.seq);
            }
            to_multiset_insert(before, p as int, f);
            let tail = input.subrange(m, n);
            to_multiset_insert(tail, 0, f);
            assert(tail.insert(0, f) =~= input.subrange(m - 1, n));
        }
        out.insert(p, f);
        proof {
            let s = out@;
            assert forall|i: int, j: int| 0 <= i < j < s.len() implies (#[trigger] s[i]).seq < (#[trigger] s[j]).seq by {
                if j < p {
                    assert(s[i] == before[i] && s[j] == before[j]);
                } else if j == p {
                    assert(s[i] == before[i]);
                } else if i == p {
                    assert(s[j] == before[j - 1]);
                    if j - 1 > p {
                        assert(before[p as int].seq < before[j - 1].seq);
                    }
                } else if i < p {
                    assert(s[i] == before[i] && s[j] == before[j - 1]);
                } else {
                    assert(s[i] == before[i - 1] && s[j] == before[j - 1]);
                }
            }
            assert forall|i: int, j: int| 0 <= i < rest@.len() && 0 <= j < s.len() implies (#[trigger] rest@[i]).seq
                != (#[trigger] s[j]).seq by {
                assert(rest@[i] == old_rest[i]);
                if j < p {
                    assert(s[j] == before[j]);
                } else if j == p {
                    assert(rest@[i] == input[i]);
                    assert(s[j] == input[m - 1]);
                } else {
                    assert(s[j] == before[j - 1]);
                }
            }
        }
    }
    proof {
        assert(input.subrange(0, n) =~= input);
    }
    out
}

impl ProjectBook {
    /// Replays facts into a deterministic project book independent of input
    /// order: a repeated sequence is refused, then the facts are appended in
    /// sequence order.
    #[verifier::rlimit(40)]
    #[verifier::loop_isolation(false)]
    pub fn from_facts(project: ProjectId, writer: RoleId, facts: Vec<ProjectFact>) -> (r: Result<Self, ConstructionProjectError>)
        ensures
            from_facts_result(project, writer, facts@, r),
    {
        let ghost input = facts@;
        let ghost p0 = project;
        let ghost w0 = writer;
        match first_repeat(&facts) {
            Some(i) => {
                return Err(ConstructionProjectError::DuplicateSequence { sequence: facts[i].seq });
            },
            None => {},
        }
        let mut rest = sort_by_sequence(facts);
        let ghost sorted = rest@;
        let ghost n = sorted.len() as int;
        let mut book = ProjectBook::new(project, writer);
        proof {
            assert(rest@ =~= sorted.subrange(0, n));
            assert(book.facts_view() =~= sorted.take(0));
        }
        while rest.len() > 0
            invariant
                n == sorted.len(),
                forall|i: int| !#[trigger] repeats_sequence(input, i),
                sorted_facts(input, sorted),
                rest@.len() <= n,
                rest@ == sorted.subrange(n - rest@.len(), n),
                book.wf(),
                book.project_spec() == p0,
                book.writer_spec() == w0,
                book.max_facts_spec() == DEFAULT_MAX_PROJECT_FACTS,
                book.facts_view() == sorted.take(n - rest@.len()),
                forall|j: int| 0 <= j < n - rest@.len() ==> #[trigger] replay_step_ok(p0, w0, sorted, j),
            decreases rest.len(),
        {
            let ghost k = n - rest@.len();
            let f = rest.remove(0);
            proof {
                assert(f == sorted[k]);
                assert(rest@ =~= sorted.subrange(k + 1, n));
            }
            match book.append(f) {
                Ok(()) => {
                    proof {
                        assert(book.facts_view() =~= sorted.take(k + 1));
                        assert(replay_step_ok(p0, w0, sorted, k));
                    }
                },
                Err(e) => {
                    proof {
                        assert(replay_result(p0, w0, sorted, Err(e)));
                    }
                    return Err(e);
                },
            }
        }
        proof {
            assert(sorted.take(n) =~= sorted);
            assert(replay_result(p0, w0, sorted, Ok(book)));
            assert(sorted_facts(input, sorted));
        }
        Ok(book)
    }
}

/// Two strictly ordered fact sequences holding the same facts are equal.
proof fn lemma_sorted_unique(a: Seq<ProjectFact>, b: Seq<ProjectFact>)
    requires
        strictly_ordered(a),
        strictly_ordered(b),
        a.to_multiset() == b.to_multiset(),
    ensures
        a == b,
    decreases a.len(),
{
    to_multiset_len(a);
    to_multiset_len(b);
    if a.len() == 0 {
        assert(a =~= b);
    } else {
        let n = a.len() - 1;
        let la = a[n];
        let lb = b[n];
        to_multiset_contains(a, la);
        to_multiset_contains(b, la);
        to_multiset_contains(a, lb);
        to_multiset_contains(b, lb);
        assert(a.contains(la));
        assert(b.contains(lb));
        let ia = choose|i: int| 0 <= i < b.len() && b[i] == la;
        let ib = choose|i: int| 0 <= i < a.len() && a[i] == lb;
        if ia < n {
            assert(b[ia].seq < b[n].seq);
        }
        if ib < n {
            assert(a[ib].seq < a[n].seq);
        }
        if ia < n {
            if ib < n {
            }
        }
        assert(ia == n);
        assert(la == lb);
        to_multiset_remove(a, n);
        to_multiset_remove(b, n);
        assert(a.remove(n) =~= a.drop_last());
        assert(b.remove(n) =~= b.drop_last());
        lemma_sorted_unique(a.drop_last(), b.drop_last());
        assert(a =~= a.drop_last().push(la));
        assert(b =~= b.drop_last().push(lb));
    }
}

/// Two refusals name the same failure: they are equal, or of the same kind
/// with equal fields, texts compared by their characters.
pub open spec fn same_refusal(a: ConstructionProjectError, b: ConstructionProjectError) -> bool {
    match a {
        ConstructionProjectError::IdTooLong { kind, value, max } => b matches ConstructionProjectError::IdTooLong { kind: k, value: v, max: m }
            && k == kind && v@ == value@ && m == max,
        ConstructionProjectError::WhitespaceAmbiguousId { kind, value } => b matches ConstructionProjectError::WhitespaceAmbiguousId { kind: k, value: v }
            && k == kind && v@ == value@,
        ConstructionProjectError::SlashBearingId { kind, value } => b matches ConstructionProjectError::SlashBearingId { kind: k, value: v }
            && k == kind && v@ == value@,
        ConstructionProjectError::ReservedId { kind, value } => b matches ConstructionProjectError::ReservedId { kind: k, value: v }
            && k == kind && v@ == value@,
        ConstructionProjectError::UnsupportedIdCharacters { kind, value } => b matches ConstructionProjectError::UnsupportedIdCharacters { kind: k, value: v }
            && k == kind && v@ == value@,
        ConstructionProjectError::InvalidSymbol { value, reason } => b matches ConstructionProjectError::InvalidSymbol { value: v, reason: w }
            && v@ == value@ && w@ == reason@,
        _ => a == b,
    }
}

/// An append is refused at most one way.
pub proof fn lemma_append_refusal_unique(
    project: ProjectId,
    writer: RoleId,
    max: usize,
    fs: Seq<ProjectFact>,
    f: ProjectFact,
    e1: ConstructionProjectError,
    e2: ConstructionProjectError,
)
    requires
        append_check(project, writer, max, fs, f, Err(e1)),
        append_check(project, writer, max, fs, f, Err(e2)),
    ensures
        same_refusal(e1, e2),
{
    let ev = f.evidence@;
    if fs.len() < max && !fact_bounds_check(f, Ok(())) && f.seq != 0 && id_fault(f.project@) is None
        && id_fault(f.subject@) is None && id_fault(f.actor_role@) is None
        && symbol_unambiguous(f.kind.namespace_view(), f.kind.name_view()) && body_nodes(f.body) <= MAX_FACT_BODY_NODES
        && ev.len() <= MAX_FACT_EVIDENCE_REFS {
        let i = choose|i: int| #[trigger] first_reference_fault(ev, i) && Err::<(), ConstructionProjectError>(e1) == Err::<(), ConstructionProjectError>(
            ConstructionProjectError::EmptyField(reference_fault(ev[i])->0),
        );
        let j = choose|j: int| #[trigger] first_reference_fault(ev, j) && Err::<(), ConstructionProjectError>(e2) == Err::<(), ConstructionProjectError>(
            ConstructionProjectError::EmptyField(reference_fault(ev[j])->0),
        );
        if i < j {
            assert(reference_fault(ev[i]) is None);
        } else if j < i {
            assert(reference_fault(ev[j]) is None);
        }
    }
}

/// Replaying the same facts, with pairwise distinct sequences, in any input
/// order gives the same outcome, the outcome of appending them in ascending
/// sequence order: both replays succeed with books that hold the same facts
/// for the same project, writer and bound, or both are refused at the same
/// fact with the same refusal.
pub proof fn lemma_from_facts_order_independent(
    project: ProjectId,
    writer: RoleId,
    first: Seq<ProjectFact>,
    second: Seq<ProjectFact>,
    r1: Result<ProjectBook, ConstructionProjectError>,
    r2: Result<ProjectBook, ConstructionProjectError>,
)
    requires
        from_facts_result(project, writer, first, r1),
        from_facts_result(project, writer, second, r2),
        first.to_multiset() == second.to_multiset(),
        forall|i: int| !#[trigger] repeats_sequence(first, i),
        forall|i: int| !#[trigger] repeats_sequence(second, i),
    ensures
        r1 is Ok <==> r2 is Ok,
        r1 is Ok && r2 is Ok ==> {
            let b1 = r1->Ok_0;
            let b2 = r2->Ok_0;
            &&& b1.facts_view() == b2.facts_view()
            &&& b1.project_spec() == b2.project_spec()
            &&& b1.writer_spec() == b2.writer_spec()
            &&& b1.max_facts_spec() == b2.max_facts_spec()
        },
        r1 is Err && r2 is Err ==> same_refusal(r1->Err_0, r2->Err_0),
        exists|sorted: Seq<ProjectFact>| #[trigger] sorted_facts(first, sorted) && sorted_facts(second, sorted)
            && replay_result(project, writer, sorted, r1) && replay_result(project, writer, sorted, r2),
{
    let s1 = choose|sorted: Seq<ProjectFact>| #[trigger] sorted_facts(first, sorted) && replay_result(project, writer, sorted, r1);
    let s2 = choose|sorted: Seq<ProjectFact>| #[trigger] sorted_facts(second, sorted) && replay_result(project, writer, sorted, r2);
    lemma_sorted_unique(s1, s2);
    assert(sorted_facts(second, s1));
    if r1 is Ok && r2 is Err {
        let k = choose|k: int| 0 <= k < s2.len() && (forall|j: int| 0 <= j < k ==> #[trigger] replay_step_ok(project, writer, s2, j))
            && append_check(project, writer, DEFAULT_MAX_PROJECT_FACTS, #[trigger] s2.take(k), s2[k], Err(r2->Err_0));
        assert(replay_step_ok(project, writer, s1, k));
    }
    if r2 is Ok && r1 is Err {
        let k = choose|k: int| 0 <= k < s1.len() && (forall|j: int| 0 <= j < k ==> #[trigger] replay_step_ok(project, writer, s1, j))
            && append_check(project, writer, DEFAULT_MAX_PROJECT_FACTS, #[trigger] s1.take(k), s1[k], Err(r1->Err_0));
        assert(replay_step_ok(project, writer, s2, k));
    }
    if r1 is Err && r2 is Err {
        let k1 = choose|k: int| 0 <= k < s1.len() && (forall|j: int| 0 <= j < k ==> #[trigger] replay_step_ok(project, writer, s1, j))
            && append_check(project, writer, DEFAULT_MAX_PROJECT_FACTS, #[trigger] s1.take(k), s1[k], Err(r1->Err_0));
        let k2 = choose|k: int| 0 <= k < s2.len() && (forall|j: int| 0 <= j < k ==> #[trigger] replay_step_ok(project, writer, s2, j))
            && append_check(project, writer, DEFAULT_MAX_PROJECT_FACTS, #[trigger] s2.take(k), s2[k], Err(r2->Err_0));
        if k1 < k2 {
            assert(replay_step_ok(project, writer, s2, k1));
        } else if k2 < k1 {
            assert(replay_step_ok(project, writer, s1, k2));
        }
        lemma_append_refusal_unique(project, writer, DEFAULT_MAX_PROJECT_FACTS, s1.take(k1), s1[k1], r1->Err_0, r2->Err_0);
    }
}

/// A fact that a book accepted is what the book gives back for its
/// sequence.
pub proof fn lemma_appended_fact_is_found(project: ProjectId, writer: RoleId, fs: Seq<ProjectFact>, f: ProjectFact)
    requires
        book_facts_wf(project, writer, fs.push(f)),
    ensures
        has_seq(fs.push(f), f.seq),
        fs.push(f)[seq_position(fs.push(f), f.seq)] == f,
{
    let n = fs.push(f);
    assert(n[fs.len() as int] == f);
    let j = seq_position(n, f.seq);
    if j < fs.len() {
        assert(n[j].seq < n[fs.len() as int].seq);
    }
}

/// Appending a fact that passes its checks keeps a book well formed.
proof fn lemma_append_keeps_wf(project: ProjectId, writer: RoleId, max: usize, fs: Seq<ProjectFact>, f: ProjectFact)
    requires
        book_facts_wf(project, writer, fs),
        append_check(project, writer, max, fs, f, Ok(())),
    ensures
        book_facts_wf(project, writer, fs.push(f)),
{
    let n = fs.push(f);
    assert forall|i: int, j: int| 0 <= i < j < n.len() implies (#[trigger] n[i]).seq < (#[trigger] n[j]).seq by {
        if j == fs.len() {
            if i < fs.len() - 1 {
                assert(fs[i].seq < fs[fs.len() - 1].seq);
            }
        } else {
            assert(n[i] == fs[i] && n[j] == fs[j]);
        }
    }
    assert forall|k: int| 0 <= k < n.len() implies #[trigger] correction_backed(n, k) by {
        if k < fs.len() {
            assert(n[k] == fs[k]);
            assert(correction_backed(fs, k));
            if fs[k].supersedes is Some {
                let p = fs[k].supersedes->0;
                let j = choose|j: int| 0 <= j < k && (#[trigger] fs[j]).seq == p && fs[j].subject@ == fs[k].subject@;
                assert(n[j] == fs[j]);
            }
        } else if f.supersedes is Some {
            let p = f.supersedes->0;
            let j = seq_position(fs, p);
            assert(n[j] == fs[j]);
        }
    }
    assert forall|i: int, j: int| 0 <= i < j < n.len() implies #[trigger] no_fork(n, i, j) by {
        if j == fs.len() {
            assert(n[i] == fs[i]);
            if fs[i].supersedes is Some && f.supersedes == fs[i].supersedes {
                assert(fs[i].supersedes == Some(f.supersedes->0));
                assert(corrected(fs, f.supersedes->0));
            }
        } else {
            assert(n[i] == fs[i] && n[j] == fs[j]);
            assert(no_fork(fs, i, j));
        }
    }
    assert forall|k: int| 0 <= k < n.len() implies fact_belongs(project, writer, #[trigger] n[k]) by {
        if k < fs.len() {
            assert(n[k] == fs[k]);
        } else {
            reveal(fact_belongs);
        }
    }
}

} // verus!
