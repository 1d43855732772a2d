//! Evidence-backed construction closeout and accountable closure.

use vstd::prelude::*;
use crate::date::ProjectDate;
use crate::error::ConstructionProjectError;
use crate::evidence::{EvidenceState, ExternalRef};
use crate::book::ProjectBook;
use crate::final_economy::FinalEconomyReport;
use crate::identity::{ControlId, ProjectId, RoleId};
use crate::obligation::{ObligationPolicy, ProjectObligation};

verus! {

/// Required closeout lane kept distinct in the final report.
#[derive(Clone, Copy, Debug, PartialEq, Eq, Structural, PartialOrd, Ord)]
pub enum CloseoutObligationKind {
    /// Warranty scope and named contact handoff.
    WarrantyContactHandoff,
    /// Retention period, owner, access, and disposal policy.
    RetentionPolicy,
    /// Explicit disposition of every remaining-work item.
    UnresolvedWork,
    /// Evidence retention, transfer, restriction, or disposal.
    EvidenceDisposition,
    /// Accepted project lesson with source-minimal evidence.
    Lesson,
}

/// One typed closeout lane over the shared construction obligation shape.
#[derive(Debug, PartialEq, Eq)]
pub struct CloseoutObligation {
    /// Closeout meaning.
    pub kind: CloseoutObligationKind,
    /// Shared project obligation and evidence policy.
    pub obligation: ProjectObligation,
}

impl CloseoutObligation {
    /// Builds one mandatory closeout obligation.
    pub fn new(kind: CloseoutObligationKind, obligation: ProjectObligation) -> (o: Self)
        ensures
            o.kind == kind,
            o.obligation == (ProjectObligation { policy: ObligationPolicy::Mandatory, ..obligation }),
    {
        let mut obligation = obligation;
        obligation.policy = ObligationPolicy::Mandatory;
        CloseoutObligation { kind, obligation }
    }

    /// Returns the stable shared requirement id.
    pub fn id(&self) -> (r: &ControlId)
        ensures
            *r == self.obligation.requirement.id,
    {
        &self.obligation.requirement.id
    }
}

/// Evidence state and explanation for one closeout lane.
#[derive(Debug, PartialEq, Eq)]
pub struct CloseoutItemReport {
    /// Stable requirement id.
    pub requirement: ControlId,
    /// Closeout meaning.
    pub kind: CloseoutObligationKind,
    /// Current evidence state.
    pub evidence_state: EvidenceState,
    /// Current supporting fact sequence.
    pub current_seq: Option<u64>,
    /// Deterministic evidence or dependency rule.
    pub rule: String,
    /// Deterministic explanation.
    pub reason: String,
}

/// Reproducible final economy and obligation report.
#[derive(Debug, PartialEq, Eq)]
pub struct CloseoutReport {
    /// Stable closeout control.
    pub control: ControlId,
    /// Stable project identity.
    pub project: ProjectId,
    /// Inclusive fact sequence.
    pub as_of_seq: u64,
    /// Evaluation date.
    pub as_of_date: ProjectDate,
    /// Whether the exact final-economy report is ready.
    pub final_economy_ready: bool,
    /// Typed obligation reports in stable requirement-id order.
    pub items: Vec<CloseoutItemReport>,
    /// True only when economy and every closeout obligation are ready.
    pub ready: bool,
}

/// Typed final closeout control with one named closure authority.
#[derive(Debug, PartialEq, Eq)]
pub struct CloseoutControlSet {
    /// Stable project identity.
    pub project: ProjectId,
    /// Stable closeout control.
    pub control: ControlId,
    /// Role authorized to close the project control record.
    pub closure_authority: RoleId,
    /// Typed closeout obligations.
    pub obligations: Vec<CloseoutObligation>,
}

/// Id of a closeout obligation.
pub open spec fn closeout_id(o: CloseoutObligation) -> Seq<char> {
    o.obligation.requirement.id@
}

/// Obligation `i` belongs to another project or repeats an earlier id.
pub open spec fn closeout_fault(obls: Seq<CloseoutObligation>, project: ProjectId, i: int) -> bool {
    &&& 0 <= i < obls.len()
    &&& obls[i].obligation.project@ != project@ || exists|j: int| 0 <= j < i && closeout_id(#[trigger] obls[j]) == closeout_id(obls[i])
}

/// Some obligation has lane `k`.
pub open spec fn has_lane(obls: Seq<CloseoutObligation>, k: CloseoutObligationKind) -> bool {
    exists|i: int| 0 <= i < obls.len() && (#[trigger] obls[i]).kind == k
}

/// Every required closeout lane is present.
pub open spec fn all_lanes(obls: Seq<CloseoutObligation>) -> bool {
    &&& has_lane(obls, CloseoutObligationKind::WarrantyContactHandoff)
    &&& has_lane(obls, CloseoutObligationKind::RetentionPolicy)
    &&& has_lane(obls, CloseoutObligationKind::UnresolvedWork)
    &&& has_lane(obls, CloseoutObligationKind::EvidenceDisposition)
    &&& has_lane(obls, CloseoutObligationKind::Lesson)
}

/// What `validate(book, economy)` answers for closeout set `s`, given the projects of the book and of the final-economy report.
pub open spec fn closeout_check(
    s: CloseoutControlSet,
    book_project: ProjectId,
    economy_project: ProjectId,
    r: Result<(), ConstructionProjectError>,
) -> bool {
    let obls = s.obligations@;
    if book_project@ != s.project@ {
        r matches Err(ConstructionProjectError::ProjectMismatch { expected, actual })
            && expected == s.project && actual == book_project
    } else if economy_project@ != s.project@ {
        r matches Err(ConstructionProjectError::ProjectMismatch { expected, actual })
            && expected == s.project && actual == economy_project
    } else if exists|i: int| #[trigger] closeout_fault(obls, s.project, i) {
        exists|i: int| #[trigger] closeout_fault(obls, s.project, i)
            && (forall|j: int| 0 <= j < i ==> !#[trigger] closeout_fault(obls, s.project, j))
            && if obls[i].obligation.project@ != s.project@ {
                r matches Err(ConstructionProjectError::ProjectMismatch { expected, actual })
                    && expected == s.project && actual == obls[i].obligation.project
            } else {
                r matches Err(ConstructionProjectError::DuplicateId { kind, id })
                    && kind == "closeout_obligation" && id@ == closeout_id(obls[i])
            }
    } else if !all_lanes(obls) {
        r == Err::<(), ConstructionProjectError>(ConstructionProjectError::EmptyCollection("closeout.required_lanes"))
    } else {
        r is Ok
    }
}

impl CloseoutControlSet {
    /// Builds an empty closeout control.
    pub fn new(project: ProjectId, control: ControlId, closure_authority: RoleId) -> (s: Self)
        ensures
            s.project == project,
            s.control == control,
            s.closure_authority == closure_authority,
            s.obligations@.len() == 0,
    {
        CloseoutControlSet { project, control, closure_authority, obligations: Vec::new() }
    }

    /// Adds one typed obligation.
    pub fn with_obligation(self, obligation: CloseoutObligation) -> (s: Self)
        ensures
            s.project == self.project,
            s.control == self.control,
            s.closure_authority == self.closure_authority,
            s.obligations@ == self.obligations@.push(obligation),
    {
        let mut s = self;
        s.obligations.push(obligation);
        s
    }

    fn lane_present(&self, kind: CloseoutObligationKind) -> (b: bool)
        ensures
            b == has_lane(self.obligations@, kind),
    {
        let mut i: usize = 0;
        while i < self.obligations.len()
            invariant
                i <= self.obligations@.len(),
                forall|j: int| 0 <= j < i ==> (#[trigger] self.obligations@[j]).kind != kind,
            decreases self.obligations.len() - i,
        {
            if self.obligations[i].kind == kind {
                return true;
            }
            i = i + 1;
        }
        false
    }

    /// Checks that the fact book and the final-economy
    /// report belong to this project, that every obligation does, that
    /// obligation ids are unique, and that every required lane is present.
    pub fn validate(&self, book: &ProjectBook, economy: &FinalEconomyReport) -> (r: Result<(), ConstructionProjectError>)
        ensures
            closeout_check(*self, book.project_spec(), economy.project, r),
    {
        let book_project = book.project();
        let economy_project = &economy.project;
        let ghost obls = self.obligations@;
        if !book_project.same(&self.project) {
            return Err(ConstructionProjectError::ProjectMismatch { expected: self.project.clone(), actual: book_project.clone() });
        }
        if !economy_project.same(&self.project) {
            return Err(ConstructionProjectError::ProjectMismatch {
                expected: self.project.clone(),
                actual: economy_project.clone(),
            });
        }
        let mut i: usize = 0;
        while i < self.obligations.len()
            invariant
                obls == self.obligations@,
                book.project_spec()@ == self.project@,
                economy.project@ == self.project@,
                i <= obls.len(),
                forall|j: int| 0 <= j < i ==> !#[trigger] closeout_fault(obls, self.project, j),
            decreases obls.len() - i,
        {
            let o = &self.obligations[i];
            if !o.obligation.project.same(&self.project) {
                proof {
                    assert(closeout_fault(obls, self.project, i as int));
                }
                return Err(ConstructionProjectError::ProjectMismatch {
                    expected: self.project.clone(),
                    actual: o.obligation.project.clone(),
                });
            }
            let mut j: usize = 0;
            while j < i
                invariant
                    obls == self.obligations@,
                    book.project_spec()@ == self.project@,
                    economy.project@ == self.project@,
                    i < obls.len(),
                    j <= i,
                    obls[i as int].obligation.project@ == self.project@,
                    forall|q: int| 0 <= q < i ==> !#[trigger] closeout_fault(obls, self.project, q),
                    forall|q: int| 0 <= q < j ==> closeout_id(#[trigger] obls[q]) != closeout_id(obls[i as int]),
                decreases i - j,
            {
                if self.obligations[j].id().same(self.obligations[i].id()) {
                    let text = self.obligations[i].id().as_str().to_owned();
                    proof {
                        assert(closeout_fault(obls, self.project, i as int));
                    }
                    return Err(ConstructionProjectError::DuplicateId { kind: "closeout_obligation", id: text });
                }
                j = j + 1;
            }
            proof {
                assert(!closeout_fault(obls, self.project, i as int));
            }
            i = i + 1;
        }
        proof {
            assert forall|j: int| !#[trigger] closeout_fault(obls, self.project, j) by {
                if 0 <= j < obls.len() {
                }
            }
        }
        if !self.lane_present(CloseoutObligationKind::WarrantyContactHandoff) || !self.lane_present(
            CloseoutObligationKind::RetentionPolicy,
        ) || !self.lane_present(CloseoutObligationKind::UnresolvedWork) || !self.lane_present(
            CloseoutObligationKind::EvidenceDisposition,
        ) || !self.lane_present(CloseoutObligationKind::Lesson) {
            return Err(ConstructionProjectError::EmptyCollection("closeout.required_lanes"));
        }
        Ok(())
    }
}

/// Proposed accountable decision over an exact closeout report.
#[derive(Debug, PartialEq, Eq)]
pub struct CloseoutDecision {
    /// Closeout control being decided.
    pub control: ControlId,
    /// Report sequence being accepted.
    pub report_seq: u64,
    /// Later sequence carrying the decision.
    pub decision_seq: u64,
    /// Named authority that made the decision.
    pub decided_by: RoleId,
    /// Reference-only closure evidence.
    pub evidence: Vec<ExternalRef>,
}

/// Immutable record that a named authority closed a ready report.
#[derive(Debug, PartialEq, Eq)]
pub struct AccountableCloseout {
    project: ProjectId,
    control: ControlId,
    report_seq: u64,
    decision_seq: u64,
    decided_by: RoleId,
    evidence: Vec<ExternalRef>,
}

impl AccountableCloseout {
    /// The closed project.
    pub closed spec fn project_spec(&self) -> ProjectId {
        self.project
    }

    /// The closeout control.
    pub closed spec fn control_spec(&self) -> ControlId {
        self.control
    }

    /// The exact report sequence.
    pub closed spec fn report_seq_spec(&self) -> u64 {
        self.report_seq
    }

    /// The later closure-decision sequence.
    pub closed spec fn decision_seq_spec(&self) -> u64 {
        self.decision_seq
    }

    /// The named closure authority.
    pub closed spec fn decided_by_spec(&self) -> RoleId {
        self.decided_by
    }

    /// The reference-only closure evidence.
    pub closed spec fn evidence_spec(&self) -> Seq<ExternalRef> {
        self.evidence@
    }

    /// Returns the closed project.
    pub fn project(&self) -> (r: &ProjectId)
        ensures
            *r == self.project_spec(),
    {
        &self.project
    }

    /// Returns the closeout control.
    pub fn control(&self) -> (r: &ControlId)
        ensures
            *r == self.control_spec(),
    {
        &self.control
    }

    /// Returns the exact report sequence.
    pub fn report_seq(&self) -> (r: u64)
        ensures
            r == self.report_seq_spec(),
    {
        self.report_seq
    }

    /// Returns the later closure-decision sequence.
    pub fn decision_seq(&self) -> (r: u64)
        ensures
            r == self.decision_seq_spec(),
    {
        self.decision_seq
    }

    /// Returns the named closure authority.
    pub fn decided_by(&self) -> (r: &RoleId)
        ensures
            *r == self.decided_by_spec(),
    {
        &self.decided_by
    }

    /// Returns the reference-only closure evidence.
    pub fn evidence(&self) -> (r: &Vec<ExternalRef>)
        ensures
            r@ == self.evidence_spec(),
    {
        &self.evidence
    }
}

/// What `close(controls, report)` answers for decision `d`: the first
/// failed check, or the accountable closeout.
pub open spec fn close_result(
    d: CloseoutDecision,
    controls: CloseoutControlSet,
    report: CloseoutReport,
    r: Result<AccountableCloseout, ConstructionProjectError>,
) -> bool {
    if d.control@ != controls.control@ || d.control@ != report.control@ {
        r matches Err(ConstructionProjectError::GateMismatch { expected, actual })
            && expected == controls.control && actual == d.control
    } else if d.report_seq != report.as_of_seq {
        r matches Err(ConstructionProjectError::GateSequenceMismatch { gate, report_seq, decision_seq })
            && gate == report.control && report_seq == report.as_of_seq && decision_seq == d.report_seq
    } else if d.decision_seq <= d.report_seq {
        r matches Err(ConstructionProjectError::InvalidSequence { field, sequence })
            && field == "closeout.decision_seq" && sequence == d.decision_seq
    } else if d.decided_by@ != controls.closure_authority@ {
        r matches Err(ConstructionProjectError::ApprovalAuthorityMismatch { gate, expected, actual })
            && gate == report.control && expected == controls.closure_authority && actual == d.decided_by
    } else if d.evidence@.len() == 0 {
        r matches Err(ConstructionProjectError::EmptyCollection(field)) && field == "closeout.decision.evidence"
    } else if !report.ready {
        r matches Err(ConstructionProjectError::GateReportNotReady { gate }) && gate == report.control
    } else {
        r matches Ok(c) && c.project_spec() == controls.project && c.control_spec() == report.control
            && c.report_seq_spec() == d.report_seq && c.decision_seq_spec() == d.decision_seq
            && c.decided_by_spec() == controls.closure_authority && c.evidence_spec() == d.evidence@
    }
}

impl CloseoutDecision {
    /// Builds a decision over one exact report sequence.
    pub fn new(control: ControlId, report_seq: u64, decision_seq: u64, decided_by: RoleId) -> (d: Self)
        ensures
            d.control == control,
            d.report_seq == report_seq,
            d.decision_seq == decision_seq,
            d.decided_by == decided_by,
            d.evidence@.len() == 0,
    {
        CloseoutDecision { control, report_seq, decision_seq, decided_by, evidence: Vec::new() }
    }

    /// Adds reference-only closure evidence.
    pub fn with_evidence(self, evidence: ExternalRef) -> (d: Self)
        ensures
            d == (CloseoutDecision { evidence: d.evidence, ..self }),
            d.evidence@ == self.evidence@.push(evidence),
    {
        let mut d = self;
        d.evidence.push(evidence);
        d
    }

    /// Validates the decision and returns an immutable accountable closure.
    pub fn close(self, controls: &CloseoutControlSet, report: &CloseoutReport) -> (r: Result<AccountableCloseout, ConstructionProjectError>)
        ensures
            close_result(self, *controls, *report, r),
    {
        if !self.control.same(&controls.control) || !self.control.same(&report.control) {
            return Err(ConstructionProjectError::GateMismatch { expected: controls.control.clone(), actual: self.control });
        }
        if self.report_seq != report.as_of_seq {
            return Err(ConstructionProjectError::GateSequenceMismatch {
                gate: report.control.clone(),
                report_seq: report.as_of_seq,
                decision_seq: self.report_seq,
            });
        }
        if self.decision_seq <= self.report_seq {
            return Err(ConstructionProjectError::InvalidSequence { field: "closeout.decision_seq", sequence: self.decision_seq });
        }
        if !self.decided_by.same(&controls.closure_authority) {
            return Err(ConstructionProjectError::ApprovalAuthorityMismatch {
                gate: report.control.clone(),
                expected: controls.closure_authority.clone(),
                actual: self.decided_by,
            });
        }
        if self.evidence.len() == 0 {
            return Err(ConstructionProjectError::EmptyCollection("closeout.decision.evidence"));
        }
        if !report.ready {
            return Err(ConstructionProjectError::GateReportNotReady { gate: report.control.clone() });
        }
        Ok(AccountableCloseout {
            project: controls.project.clone(),
            control: report.control.clone(),
            report_seq: self.report_seq,
            decision_seq: self.decision_seq,
            decided_by: controls.closure_authority.clone(),
            evidence: self.evidence,
        })
    }
}


/// A closeout is granted only by the named closure authority, over a ready
/// report of the same control, at a later sequence, with evidence.
pub proof fn lemma_closeout_needs_ready_report(
    d: CloseoutDecision,
    controls: CloseoutControlSet,
    report: CloseoutReport,
    r: Result<AccountableCloseout, ConstructionProjectError>,
)
    requires
        close_result(d, controls, report, r),
        r is Ok,
    ensures
        report.ready,
        d.decided_by@ == controls.closure_authority@,
        d.control@ == report.control@,
        d.report_seq == report.as_of_seq,
        d.decision_seq > d.report_seq,
        d.evidence@.len() > 0,
{
}

} // verus!
