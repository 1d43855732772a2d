//! Stable construction change identity, stage facts and their validation.

use vstd::prelude::*;
use crate::charter::CurrencyCode;
use crate::commercial::{
    components_check, component_fault, double_counted, referenced_check, validate_components, ChangeAmountComponent,
    CommercialSide, ReferencedAmountEvidence,
};
use crate::date::ProjectDate;
use crate::error::ConstructionProjectError;
use crate::evidence::ExternalRef;
use crate::identity::{BaselineId, ChangeId, ControlId, ProjectId, RoleId};
use crate::text::{is_blank, text_is_blank, texts_equal};

verus! {

/// Direction and initiating contractual act for a construction change.
#[derive(Clone, Copy, Debug, PartialEq, Eq, Structural)]
pub enum ChangeDirection {
    /// Customer instruction received by the project.
    CustomerInstruction,
    /// Notice issued by the project to the customer.
    ContractorNotice,
    /// Notice received from a supplier.
    SupplierNotice,
    /// Internal direction whose customer or supplier basis remains to be established.
    InternalDirection,
}

/// Contract and clause retained as the initiating basis for a change.
#[derive(Debug, PartialEq, Eq)]
pub struct ContractualBasis {
    /// Open basis kind such as instructed variation or compensation event.
    pub kind: String,
    /// Contract clause or other controlling term.
    pub clause: String,
    /// Versioned reference to the controlling contract record.
    pub contract: ExternalRef,
}

/// The contract reference names a backend, a record and a non-blank version.
pub open spec fn contract_ref_complete(c: ExternalRef) -> bool {
    !is_blank(c.backend@) && !is_blank(c.external_id@) && (c.version matches Some(v) && !is_blank(v@))
}

/// What `ContractualBasis::validate` answers.
pub open spec fn basis_check(b: ContractualBasis, r: Result<(), ConstructionProjectError>) -> bool {
    if is_blank(b.kind@) {
        r == Err::<(), ConstructionProjectError>(ConstructionProjectError::EmptyField("change.contractual_basis.kind"))
    } else if is_blank(b.clause@) {
        r == Err::<(), ConstructionProjectError>(ConstructionProjectError::EmptyField("change.contractual_basis.clause"))
    } else if !contract_ref_complete(b.contract) {
        r == Err::<(), ConstructionProjectError>(ConstructionProjectError::EmptyField("change.contractual_basis.contract"))
    } else {
        r is Ok
    }
}

impl ContractualBasis {
    /// Builds an explicit contractual basis.
    pub fn new(kind: &str, clause: &str, contract: ExternalRef) -> (b: Self)
        ensures
            b.kind@ == kind@,
            b.clause@ == clause@,
            b.contract == contract,
    {
        ContractualBasis { kind: kind.to_owned(), clause: clause.to_owned(), contract }
    }

    /// Validates the basis kind, clause, and versioned contract reference.
    pub fn validate(&self) -> (r: Result<(), ConstructionProjectError>)
        ensures
            basis_check(*self, r),
    {
        if text_is_blank(self.kind.as_str()) {
            return Err(ConstructionProjectError::EmptyField("change.contractual_basis.kind"));
        }
        if text_is_blank(self.clause.as_str()) {
            return Err(ConstructionProjectError::EmptyField("change.contractual_basis.clause"));
        }
        let versioned = match &self.contract.version {
            Some(version) => !text_is_blank(version.as_str()),
            None => false,
        };
        if text_is_blank(self.contract.backend.as_str()) || text_is_blank(self.contract.external_id.as_str()) || !versioned {
            return Err(ConstructionProjectError::EmptyField("change.contractual_basis.contract"));
        }
        Ok(())
    }
}

/// Control `i` repeats an earlier control.
pub open spec fn control_repeats(cs: Seq<ControlId>, i: int) -> bool {
    0 <= i < cs.len() && exists|j: int| 0 <= j < i && (#[trigger] cs[j])@ == cs[i]@
}

/// No control occurs twice.
pub open spec fn controls_unique(cs: Seq<ControlId>) -> bool {
    forall|i: int| !#[trigger] control_repeats(cs, i)
}

/// What `validate_unique_controls(field, cs)` answers: the first repeated
/// control, or success.
pub open spec fn unique_controls_check(field: &'static str, cs: Seq<ControlId>, r: Result<(), ConstructionProjectError>) -> bool {
    if !controls_unique(cs) {
        exists|i: int| #[trigger] control_repeats(cs, i) && (forall|j: int| 0 <= j < i ==> !#[trigger] control_repeats(cs, j))
            && (r matches Err(ConstructionProjectError::DuplicateId { kind, id }) && kind == field && id@ == cs[i]@)
    } else {
        r is Ok
    }
}

/// Rejects a list of controls in which one occurs twice.
pub fn validate_unique_controls(field: &'static str, controls: &Vec<ControlId>) -> (r: Result<(), ConstructionProjectError>)
    ensures
        unique_controls_check(field, controls@, r),
{
    let ghost cs = controls@;
    let mut i: usize = 0;
    while i < controls.len()
        invariant
            cs == controls@,
            i <= cs.len(),
            forall|j: int| 0 <= j < i ==> !#[trigger] control_repeats(cs, j),
        decreases cs.len() - i,
    {
        let mut j: usize = 0;
        while j < i
            invariant
                cs == controls@,
                i < cs.len(),
                j <= i,
                forall|q: int| 0 <= q < i ==> !#[trigger] control_repeats(cs, q),
                forall|q: int| 0 <= q < j ==> (#[trigger] cs[q])@ != cs[i as int]@,
            decreases i - j,
        {
            if controls[j].same(&controls[i]) {
                proof {
                    assert(control_repeats(cs, i as int));
                }
                return Err(ConstructionProjectError::DuplicateId { kind: field, id: controls[i].as_str().to_owned() });
            }
            j = j + 1;
        }
        proof {
            assert(!control_repeats(cs, i as int));
        }
        i = i + 1;
    }
    proof {
        assert forall|j: int| !#[trigger] control_repeats(cs, j) by {
            if 0 <= j < cs.len() {
            }
        }
    }
    Ok(())
}

/// Task `i` is blank or repeats an earlier task.
pub open spec fn task_fault(tasks: Seq<String>, i: int) -> bool {
    &&& 0 <= i < tasks.len()
    &&& is_blank(tasks[i]@) || exists|j: int| 0 <= j < i && (#[trigger] tasks[j])@ == tasks[i]@
}

/// Every task is non-blank and occurs once.
pub open spec fn tasks_ok(tasks: Seq<String>) -> bool {
    forall|i: int| !#[trigger] task_fault(tasks, i)
}

/// What `validate_tasks(tasks)` answers: the first blank or repeated task.
pub open spec fn tasks_check(tasks: Seq<String>, r: Result<(), ConstructionProjectError>) -> bool {
    if !tasks_ok(tasks) {
        exists|i: int| #[trigger] task_fault(tasks, i) && (forall|j: int| 0 <= j < i ==> !#[trigger] task_fault(tasks, j))
            && if is_blank(tasks[i]@) {
                r == Err::<(), ConstructionProjectError>(ConstructionProjectError::EmptyField("change.affected_tasks"))
            } else {
                r matches Err(ConstructionProjectError::DuplicateId { kind, id }) && kind == "change.affected_task"
                    && id@ == tasks[i]@
            }
    } else {
        r is Ok
    }
}

/// Rejects a blank task id or one that occurs twice.
pub fn validate_tasks(tasks: &Vec<String>) -> (r: Result<(), ConstructionProjectError>)
    ensures
        tasks_check(tasks@, r),
{
    let ghost ts = tasks@;
    let mut i: usize = 0;
    while i < tasks.len()
        invariant
            ts == tasks@,
            i <= ts.len(),
            forall|j: int| 0 <= j < i ==> !#[trigger] task_fault(ts, j),
        decreases ts.len() - i,
    {
        if text_is_blank(tasks[i].as_str()) {
            proof {
                assert(task_fault(ts, i as int));
            }
            return Err(ConstructionProjectError::EmptyField("change.affected_tasks"));
        }
        let mut j: usize = 0;
        while j < i
            invariant
                ts == tasks@,
                i < ts.len(),
                j <= i,
                !is_blank(ts[i as int]@),
                forall|q: int| 0 <= q < i ==> !#[trigger] task_fault(ts, q),
                forall|q: int| 0 <= q < j ==> (#[trigger] ts[q])@ != ts[i as int]@,
            decreases i - j,
        {
            if texts_equal(tasks[j].as_str(), tasks[i].as_str()) {
                proof {
                    assert(task_fault(ts, i as int));
                }
                return Err(ConstructionProjectError::DuplicateId { kind: "change.affected_task", id: tasks[i].clone() });
            }
            j = j + 1;
        }
        proof {
            assert(!task_fault(ts, i as int));
        }
        i = i + 1;
    }
    proof {
        assert forall|j: int| !#[trigger] task_fault(ts, j) by {
            if 0 <= j < ts.len() {
            }
        }
    }
    Ok(())
}

/// Initiating record shared by every fact in one change chain.
#[derive(Debug, PartialEq, Eq)]
pub struct ChangeRecord {
    /// Stable construction project identity.
    pub project: ProjectId,
    /// Stable identity carried through the complete change chain.
    pub id: ChangeId,
    /// Initiating direction and contractual act.
    pub direction: ChangeDirection,
    /// Explicit contractual basis.
    pub contractual_basis: ContractualBasis,
    /// Initially affected construction controls.
    pub affected_controls: Vec<ControlId>,
    /// Initially affected canonical Gantt task ids.
    pub affected_tasks: Vec<String>,
    /// Initially affected work-package controls.
    pub affected_packages: Vec<ControlId>,
    /// Role responsible for the change chain.
    pub responsible_role: RoleId,
    /// Instruction or notice date.
    pub initiated_on: ProjectDate,
    /// Contractual notice due date, when notice is required.
    pub notice_due_on: Option<ProjectDate>,
    /// Date the accountable notice was actually given.
    pub notice_given_on: Option<ProjectDate>,
    /// Reference-only instruction or notice evidence.
    pub evidence: Vec<ExternalRef>,
}

/// The basis passes its checks.
pub open spec fn basis_ok(b: ContractualBasis) -> bool {
    !is_blank(b.kind@) && !is_blank(b.clause@) && contract_ref_complete(b.contract)
}

/// What `ChangeRecord::validate` answers: the first failed check in the
/// order basis, affected controls, affected packages, affected tasks,
/// notice date, notice due date, evidence.
pub open spec fn record_check(c: ChangeRecord, r: Result<(), ConstructionProjectError>) -> bool {
    if !basis_ok(c.contractual_basis) {
        basis_check(c.contractual_basis, r)
    } else if !controls_unique(c.affected_controls@) {
        unique_controls_check("change.affected_controls", c.affected_controls@, r)
    } else if !controls_unique(c.affected_packages@) {
        unique_controls_check("change.affected_packages", c.affected_packages@, r)
    } else if !tasks_ok(c.affected_tasks@) {
        tasks_check(c.affected_tasks@, r)
    } else if c.notice_due_on is Some && (c.notice_given_on matches Some(g) && g.julian_day < c.initiated_on.julian_day) {
        r matches Err(ConstructionProjectError::ChangeDerivation { change, reason }) && change == c.id
            && reason == "notice date predates the initiating instruction or notice"
    } else if c.notice_due_on matches Some(d) && d.julian_day < c.initiated_on.julian_day {
        r matches Err(ConstructionProjectError::ChangeDerivation { change, reason }) && change == c.id
            && reason == "notice due date predates the initiating instruction or notice"
    } else if c.evidence@.len() == 0 {
        r == Err::<(), ConstructionProjectError>(ConstructionProjectError::EmptyCollection("change.evidence"))
    } else {
        r is Ok
    }
}

impl ChangeRecord {
    /// Builds the initiating change record.
    pub fn new(
        project: ProjectId,
        id: ChangeId,
        direction: ChangeDirection,
        contractual_basis: ContractualBasis,
        responsible_role: RoleId,
        initiated_on: ProjectDate,
        notice_due_on: Option<ProjectDate>,
    ) -> (c: Self)
        ensures
            c.project == project,
            c.id == id,
            c.direction == direction,
            c.contractual_basis == contractual_basis,
            c.affected_controls@.len() == 0,
            c.affected_tasks@.len() == 0,
            c.affected_packages@.len() == 0,
            c.responsible_role == responsible_role,
            c.initiated_on == initiated_on,
            c.notice_due_on == notice_due_on,
            c.notice_given_on is None,
            c.evidence@.len() == 0,
    {
        ChangeRecord {
            project,
            id,
            direction,
            contractual_basis,
            affected_controls: Vec::new(),
            affected_tasks: Vec::new(),
            affected_packages: Vec::new(),
            responsible_role,
            initiated_on,
            notice_due_on,
            notice_given_on: None,
            evidence: Vec::new(),
        }
    }

    /// Adds an affected construction control.
    pub fn affects_control(self, control: ControlId) -> (c: Self)
        ensures
            c == (ChangeRecord { affected_controls: c.affected_controls, ..self }),
            c.affected_controls@ == self.affected_controls@.push(control),
    {
        let mut c = self;
        c.affected_controls.push(control);
        c
    }

    /// Adds an affected canonical Gantt task id.
    pub fn affects_task(self, task: &str) -> (c: Self)
        ensures
            c == (ChangeRecord { affected_tasks: c.affected_tasks, ..self }),
            c.affected_tasks@.len() == self.affected_tasks@.len() + 1,
            c.affected_tasks@.drop_last() == self.affected_tasks@,
            c.affected_tasks@.last()@ == task@,
    {
        let mut c = self;
        c.affected_tasks.push(task.to_owned());
        proof {
            assert(c.affected_tasks@.drop_last() =~= self.affected_tasks@);
        }
        c
    }

    /// Adds an affected work-package control.
    pub fn affects_package(self, package: ControlId) -> (c: Self)
        ensures
            c == (ChangeRecord { affected_packages: c.affected_packages, ..self }),
            c.affected_packages@ == self.affected_packages@.push(package),
    {
        let mut c = self;
        c.affected_packages.push(package);
        c
    }

    /// Records the date accountable contractual notice was given.
    pub fn notice_given_on(self, date: ProjectDate) -> (c: Self)
        ensures
            c == (ChangeRecord { notice_given_on: Some(date), ..self }),
    {
        let mut c = self;
        c.notice_given_on = Some(date);
        c
    }

    /// Adds instruction or notice evidence.
    pub fn with_evidence(self, evidence: ExternalRef) -> (c: Self)
        ensures
            c == (ChangeRecord { evidence: c.evidence, ..self }),
            c.evidence@ == self.evidence@.push(evidence),
    {
        let mut c = self;
        c.evidence.push(evidence);
        c
    }

    /// Validates the basis, affected scope, notice dates, and evidence.
    pub fn validate(&self) -> (r: Result<(), ConstructionProjectError>)
        ensures
            record_check(*self, r),
    {
        self.contractual_basis.validate()?;
        validate_unique_controls("change.affected_controls", &self.affected_controls)?;
        validate_unique_controls("change.affected_packages", &self.affected_packages)?;
        validate_tasks(&self.affected_tasks)?;
        match (self.notice_due_on, self.notice_given_on) {
            (Some(_), Some(given)) => {
                if given.before(&self.initiated_on) {
                    return Err(ConstructionProjectError::ChangeDerivation {
                        change: self.id.clone(),
                        reason: "notice date predates the initiating instruction or notice",
                    });
                }
            },
            _ => {},
        }
        match self.notice_due_on {
            Some(due) => {
                if due.before(&self.initiated_on) {
                    return Err(ConstructionProjectError::ChangeDerivation {
                        change: self.id.clone(),
                        reason: "notice due date predates the initiating instruction or notice",
                    });
                }
            },
            None => {},
        }
        if self.evidence.len() == 0 {
            return Err(ConstructionProjectError::EmptyCollection("change.evidence"));
        }
        Ok(())
    }
}

/// Ordered stage represented by a change fact.
#[derive(Clone, Copy, Debug, PartialEq, Eq, Structural, PartialOrd, Ord)]
pub enum ChangeStage {
    /// Scope assessment after instruction or notice.
    ScopeAssessment,
    /// Schedule and time-effect assessment.
    TimeEffect,
    /// Supplier-side cost exposure.
    SupplierExposure,
    /// Customer-side recovery assessment.
    CustomerRecovery,
    /// Quotation submitted to the customer.
    Quotation,
    /// Accountable authority decision.
    AuthorityDecision,
    /// Current commercial forecast.
    Forecast,
    /// Execution of changed work.
    Execution,
    /// Final supplier or customer settlement terms.
    Settlement,
    /// Accountable closure after settlement reconciliation.
    Closure,
}

/// Accountable lifecycle status carried by a change fact.
#[derive(Clone, Copy, Debug, PartialEq, Eq, Structural)]
pub enum ChangeStatus {
    /// Instruction or notice is under assessment.
    Assessing,
    /// Quotation has been submitted for decision.
    Submitted,
    /// Full quoted value was approved.
    Approved,
    /// A stated subset of the quoted value was approved.
    PartiallyApproved,
    /// Quotation was rejected.
    Rejected,
    /// Commercial basis or value remains disputed.
    Disputed,
    /// Changed work is being executed.
    Executing,
    /// Supplier or customer settlement terms were recorded.
    Settled,
    /// Accountable closure was recorded after settlement reconciliation.
    Closed,
}

/// Baseline-aware time effect retained as a change fact, not recalculated here.
#[derive(Debug, PartialEq, Eq)]
pub struct ChangeScheduleImpact {
    /// Accepted schedule baseline used by the assessment.
    pub baseline: BaselineId,
    /// Project fact sequence at which the assessment was made.
    pub as_of_seq: u64,
    /// Calendar date of the assessment.
    pub as_of_date: ProjectDate,
    /// Signed completion movement in calendar days.
    pub completion_delta_days: i32,
    /// Whether the referenced schedule analysis put the effect on the critical path.
    pub critical_path: bool,
    /// Canonical Gantt task ids affected by the assessment.
    pub affected_tasks: Vec<String>,
}

/// Two schedule impacts hold the same values.
pub open spec fn impact_same(a: ChangeScheduleImpact, b: ChangeScheduleImpact) -> bool {
    &&& a.baseline == b.baseline
    &&& a.as_of_seq == b.as_of_seq
    &&& a.as_of_date == b.as_of_date
    &&& a.completion_delta_days == b.completion_delta_days
    &&& a.critical_path == b.critical_path
    &&& a.affected_tasks@ == b.affected_tasks@
}

impl Clone for ChangeScheduleImpact {
    fn clone(&self) -> (r: Self)
        ensures
            impact_same(r, *self),
    {
        let tasks = self.affected_tasks.clone();
        proof {
            assert(tasks@ =~= self.affected_tasks@);
        }
        ChangeScheduleImpact {
            baseline: self.baseline.clone(),
            as_of_seq: self.as_of_seq,
            as_of_date: self.as_of_date,
            completion_delta_days: self.completion_delta_days,
            critical_path: self.critical_path,
            affected_tasks: tasks,
        }
    }
}

/// The schedule impact passes its checks.
pub open spec fn impact_ok(i: ChangeScheduleImpact) -> bool {
    i.as_of_seq != 0 && i.affected_tasks@.len() > 0 && tasks_ok(i.affected_tasks@)
}

/// What `ChangeScheduleImpact::validate` answers.
pub open spec fn impact_check(i: ChangeScheduleImpact, r: Result<(), ConstructionProjectError>) -> bool {
    if i.as_of_seq == 0 {
        r matches Err(ConstructionProjectError::InvalidSequence { field, sequence })
            && field == "change.schedule_impact.as_of_seq" && sequence == 0
    } else if i.affected_tasks@.len() == 0 {
        r == Err::<(), ConstructionProjectError>(ConstructionProjectError::EmptyCollection("change.schedule_impact.affected_tasks"))
    } else {
        tasks_check(i.affected_tasks@, r)
    }
}

impl ChangeScheduleImpact {
    /// Builds a referenced schedule impact assessment.
    pub fn new(
        baseline: BaselineId,
        as_of_seq: u64,
        as_of_date: ProjectDate,
        completion_delta_days: i32,
        critical_path: bool,
        affected_tasks: Vec<String>,
    ) -> (i: Self)
        ensures
            i == (ChangeScheduleImpact { baseline, as_of_seq, as_of_date, completion_delta_days, critical_path, affected_tasks }),
    {
        ChangeScheduleImpact { baseline, as_of_seq, as_of_date, completion_delta_days, critical_path, affected_tasks }
    }

    /// Validates the assessment sequence and affected tasks.
    pub fn validate(&self) -> (r: Result<(), ConstructionProjectError>)
        ensures
            impact_check(*self, r),
    {
        if self.as_of_seq == 0 {
            return Err(ConstructionProjectError::InvalidSequence {
                field: "change.schedule_impact.as_of_seq",
                sequence: self.as_of_seq,
            });
        }
        if self.affected_tasks.len() == 0 {
            return Err(ConstructionProjectError::EmptyCollection("change.schedule_impact.affected_tasks"));
        }
        validate_tasks(&self.affected_tasks)
    }
}

/// Immutable stage fact in a stable change chain.
#[derive(Debug, PartialEq, Eq)]
pub struct ChangeFact {
    /// Unique fact identity.
    pub control: ControlId,
    /// Stable change identity shared across the chain.
    pub change: ChangeId,
    /// Monotone project fact sequence for deterministic corrections.
    pub fact_seq: u64,
    /// Lifecycle stage represented by the fact.
    pub stage: ChangeStage,
    /// Accountable status at this stage.
    pub status: ChangeStatus,
    /// Date on which the fact became effective.
    pub effective_on: ProjectDate,
    /// Role responsible for this stage.
    pub responsible_role: RoleId,
    /// Due date for this stage, when one applies.
    pub due_on: Option<ProjectDate>,
    /// Prior stage fact corrected by this fact.
    pub supersedes: Option<ControlId>,
    /// Additional affected construction controls.
    pub affected_controls: Vec<ControlId>,
    /// Additional affected canonical Gantt task ids.
    pub affected_tasks: Vec<String>,
    /// Additional affected work-package controls.
    pub affected_packages: Vec<ControlId>,
    /// Referenced schedule impact for a time-effect fact.
    pub schedule_impact: Option<ChangeScheduleImpact>,
    /// Exact components for this stage's commercial snapshot.
    pub amount_components: Vec<ChangeAmountComponent>,
    /// Versioned, dated external document or ledger evidence.
    pub references: Vec<ReferencedAmountEvidence>,
    /// Human-readable assessment, rationale, or execution note.
    pub note: String,
}

impl ChangeFact {
    /// Builds a stage fact with no commercial components or external references.
    pub fn new(
        control: ControlId,
        change: ChangeId,
        fact_seq: u64,
        stage: ChangeStage,
        status: ChangeStatus,
        effective_on: ProjectDate,
        responsible_role: RoleId,
        note: &str,
    ) -> (f: Self)
        ensures
            f.control == control,
            f.change == change,
            f.fact_seq == fact_seq,
            f.stage == stage,
            f.status == status,
            f.effective_on == effective_on,
            f.responsible_role == responsible_role,
            f.due_on is None,
            f.supersedes is None,
            f.affected_controls@.len() == 0,
            f.affected_tasks@.len() == 0,
            f.affected_packages@.len() == 0,
            f.schedule_impact is None,
            f.amount_components@.len() == 0,
            f.references@.len() == 0,
            f.note@ == note@,
    {
        ChangeFact {
            control,
            change,
            fact_seq,
            stage,
            status,
            effective_on,
            responsible_role,
            due_on: None,
            supersedes: None,
            affected_controls: Vec::new(),
            affected_tasks: Vec::new(),
            affected_packages: Vec::new(),
            schedule_impact: None,
            amount_components: Vec::new(),
            references: Vec::new(),
            note: note.to_owned(),
        }
    }

    /// Sets the stage due date.
    pub fn due_on(self, due_on: ProjectDate) -> (f: Self)
        ensures
            f == (ChangeFact { due_on: Some(due_on), ..self }),
    {
        let mut f = self;
        f.due_on = Some(due_on);
        f
    }

    /// Corrects a prior fact while preserving its provenance.
    pub fn supersedes(self, prior: ControlId) -> (f: Self)
        ensures
            f == (ChangeFact { supersedes: Some(prior), ..self }),
    {
        let mut f = self;
        f.supersedes = Some(prior);
        f
    }

    /// Adds an affected construction control.
    pub fn affects_control(self, control: ControlId) -> (f: Self)
        ensures
            f == (ChangeFact { affected_controls: f.affected_controls, ..self }),
            f.affected_controls@ == self.affected_controls@.push(control),
    {
        let mut f = self;
        f.affected_controls.push(control);
        f
    }

    /// Adds an affected canonical Gantt task id.
    pub fn affects_task(self, task: &str) -> (f: Self)
        ensures
            f == (ChangeFact { affected_tasks: f.affected_tasks, ..self }),
            f.affected_tasks@.len() == self.affected_tasks@.len() + 1,
            f.affected_tasks@.drop_last() == self.affected_tasks@,
            f.affected_tasks@.last()@ == task@,
    {
        let mut f = self;
        f.affected_tasks.push(task.to_owned());
        proof {
            assert(f.affected_tasks@.drop_last() =~= self.affected_tasks@);
        }
        f
    }

    /// Adds an affected work-package control.
    pub fn affects_package(self, package: ControlId) -> (f: Self)
        ensures
            f == (ChangeFact { affected_packages: f.affected_packages, ..self }),
            f.affected_packages@ == self.affected_packages@.push(package),
    {
        let mut f = self;
        f.affected_packages.push(package);
        f
    }

    /// Adds a baseline-aware schedule impact.
    pub fn with_schedule_impact(self, impact: ChangeScheduleImpact) -> (f: Self)
        ensures
            f == (ChangeFact { schedule_impact: Some(impact), ..self }),
    {
        let mut f = self;
        f.schedule_impact = Some(impact);
        f
    }

    /// Adds an exact commercial component.
    pub fn with_amount(self, component: ChangeAmountComponent) -> (f: Self)
        ensures
            f == (ChangeFact { amount_components: f.amount_components, ..self }),
            f.amount_components@ == self.amount_components@.push(component),
    {
        let mut f = self;
        f.amount_components.push(component);
        f
    }

    /// Adds versioned, dated document or ledger evidence.
    pub fn with_reference(self, reference: ReferencedAmountEvidence) -> (f: Self)
        ensures
            f == (ChangeFact { references: f.references, ..self }),
            f.references@ == self.references@.push(reference),
    {
        let mut f = self;
        f.references.push(reference);
        f
    }

    /// Validates the fact against the project charter currency.
    pub fn validate(&self, charter_currency: &CurrencyCode) -> (r: Result<(), ConstructionProjectError>)
        ensures
            fact_check(*self, *charter_currency, r),
    {
        validate_change_fact(self, charter_currency)
    }
}

/// Statuses a change fact may carry at each stage.
pub open spec fn stage_allows(stage: ChangeStage, status: ChangeStatus) -> bool {
    match stage {
        ChangeStage::ScopeAssessment | ChangeStage::TimeEffect | ChangeStage::SupplierExposure
        | ChangeStage::CustomerRecovery | ChangeStage::Forecast => status == ChangeStatus::Assessing,
        ChangeStage::Quotation => status == ChangeStatus::Submitted,
        ChangeStage::AuthorityDecision => status == ChangeStatus::Approved || status == ChangeStatus::PartiallyApproved
            || status == ChangeStatus::Rejected || status == ChangeStatus::Disputed,
        ChangeStage::Execution => status == ChangeStatus::Executing,
        ChangeStage::Settlement => status == ChangeStatus::Settled || status == ChangeStatus::Disputed,
        ChangeStage::Closure => status == ChangeStatus::Closed,
    }
}

/// Stages whose fact must carry commercial components.
pub open spec fn needs_amounts(stage: ChangeStage) -> bool {
    stage == ChangeStage::SupplierExposure || stage == ChangeStage::CustomerRecovery || stage == ChangeStage::Quotation
        || stage == ChangeStage::Forecast || stage == ChangeStage::Settlement || stage == ChangeStage::Closure
}

/// Stages whose fact must carry external references.
pub open spec fn needs_references(stage: ChangeStage) -> bool {
    stage == ChangeStage::AuthorityDecision || stage == ChangeStage::Settlement || stage == ChangeStage::Closure
}

/// Some component is on `side`.
pub open spec fn has_side(cs: Seq<ChangeAmountComponent>, side: CommercialSide) -> bool {
    exists|i: int| 0 <= i < cs.len() && (#[trigger] cs[i]).side == side
}

/// The error for a stage rule, naming the change and the failed rule.
pub open spec fn derivation_error(change: ChangeId, reason: &'static str, r: Result<(), ConstructionProjectError>) -> bool {
    r matches Err(ConstructionProjectError::ChangeDerivation { change: c, reason: why }) && c == change && why == reason
}

/// What `validate_stage(f)` answers: the first stage rule the fact breaks.
pub open spec fn stage_check(f: ChangeFact, r: Result<(), ConstructionProjectError>) -> bool {
    let cs = f.amount_components@;
    if !stage_allows(f.stage, f.status) {
        derivation_error(f.change, "status is incompatible with change stage", r)
    } else if f.stage == ChangeStage::ScopeAssessment && f.affected_controls@.len() == 0 && f.affected_tasks@.len() == 0
        && f.affected_packages@.len() == 0 {
        r == Err::<(), ConstructionProjectError>(ConstructionProjectError::EmptyCollection("change.scope.affected"))
    } else if f.stage == ChangeStage::TimeEffect && f.schedule_impact is None {
        r == Err::<(), ConstructionProjectError>(ConstructionProjectError::EmptyField("change.schedule_impact"))
    } else if f.schedule_impact matches Some(i) && !impact_ok(i) {
        impact_check(f.schedule_impact->0, r)
    } else if needs_amounts(f.stage) && cs.len() == 0 {
        r == Err::<(), ConstructionProjectError>(ConstructionProjectError::EmptyCollection("change.amount_components"))
    } else if f.stage == ChangeStage::SupplierExposure && !has_side(cs, CommercialSide::Supplier) {
        derivation_error(f.change, "supplier exposure has no supplier amount", r)
    } else if (f.stage == ChangeStage::CustomerRecovery || f.stage == ChangeStage::Quotation) && !has_side(
        cs,
        CommercialSide::Customer,
    ) {
        derivation_error(f.change, "customer commercial fact has no customer amount", r)
    } else if f.stage == ChangeStage::AuthorityDecision && (f.status == ChangeStatus::Approved || f.status
        == ChangeStatus::PartiallyApproved) && !has_side(cs, CommercialSide::Customer) {
        derivation_error(f.change, "approval has no explicit approved customer amount", r)
    } else if needs_references(f.stage) && f.references@.len() == 0 {
        r == Err::<(), ConstructionProjectError>(ConstructionProjectError::EmptyCollection("change.fact.references"))
    } else {
        r is Ok
    }
}

/// `validate_tasks` answers `Ok` exactly for acceptable task lists.
pub proof fn lemma_tasks_check_ok(tasks: Seq<String>, r: Result<(), ConstructionProjectError>)
    requires
        tasks_check(tasks, r),
    ensures
        r is Ok <==> tasks_ok(tasks),
{
}

/// `ChangeScheduleImpact::validate` answers `Ok` exactly for acceptable impacts.
pub proof fn lemma_impact_check_ok(i: ChangeScheduleImpact, r: Result<(), ConstructionProjectError>)
    requires
        impact_check(i, r),
    ensures
        r is Ok <==> impact_ok(i),
{
    if i.as_of_seq != 0 && i.affected_tasks@.len() > 0 {
        lemma_tasks_check_ok(i.affected_tasks@, r);
    }
}

fn has_side_exec(cs: &Vec<ChangeAmountComponent>, side: CommercialSide) -> (b: bool)
    ensures
        b == has_side(cs@, side),
{
    let mut i: usize = 0;
    while i < cs.len()
        invariant
            i <= cs@.len(),
            forall|j: int| 0 <= j < i ==> (#[trigger] cs@[j]).side != side,
        decreases cs.len() - i,
    {
        if cs[i].side == side {
            return true;
        }
        i = i + 1;
    }
    false
}

fn stage_allows_exec(stage: ChangeStage, status: ChangeStatus) -> (b: bool)
    ensures
        b == stage_allows(stage, status),
{
    match stage {
        ChangeStage::ScopeAssessment | ChangeStage::TimeEffect | ChangeStage::SupplierExposure
        | ChangeStage::CustomerRecovery | ChangeStage::Forecast => status == ChangeStatus::Assessing,
        ChangeStage::Quotation => status == ChangeStatus::Submitted,
        ChangeStage::AuthorityDecision => status == ChangeStatus::Approved || status == ChangeStatus::PartiallyApproved
            || status == ChangeStatus::Rejected || status == ChangeStatus::Disputed,
        ChangeStage::Execution => status == ChangeStatus::Executing,
        ChangeStage::Settlement => status == ChangeStatus::Settled || status == ChangeStatus::Disputed,
        ChangeStage::Closure => status == ChangeStatus::Closed,
    }
}

/// Checks the stage rules of a change fact: allowed status, affected
/// scope, schedule impact, commercial components and their sides, and
/// external references.
pub fn validate_stage(fact: &ChangeFact) -> (r: Result<(), ConstructionProjectError>)
    ensures
        stage_check(*fact, r),
{
    if !stage_allows_exec(fact.stage, fact.status) {
        return Err(ConstructionProjectError::ChangeDerivation {
            change: fact.change.clone(),
            reason: "status is incompatible with change stage",
        });
    }
    if fact.stage == ChangeStage::ScopeAssessment && fact.affected_controls.len() == 0 && fact.affected_tasks.len() == 0
        && fact.affected_packages.len() == 0 {
        return Err(ConstructionProjectError::EmptyCollection("change.scope.affected"));
    }
    if fact.stage == ChangeStage::TimeEffect && fact.schedule_impact.is_none() {
        return Err(ConstructionProjectError::EmptyField("change.schedule_impact"));
    }
    match &fact.schedule_impact {
        Some(impact) => {
            let checked = impact.validate();
            proof {
                lemma_impact_check_ok(*impact, checked);
            }
            match checked {
                Ok(()) => {},
                Err(e) => {
                    return Err(e);
                },
            }
        },
        None => {},
    }
    let needs = match fact.stage {
        ChangeStage::SupplierExposure | ChangeStage::CustomerRecovery | ChangeStage::Quotation | ChangeStage::Forecast
        | ChangeStage::Settlement | ChangeStage::Closure => true,
        _ => false,
    };
    if needs && fact.amount_components.len() == 0 {
        return Err(ConstructionProjectError::EmptyCollection("change.amount_components"));
    }
    if fact.stage == ChangeStage::SupplierExposure && !has_side_exec(&fact.amount_components, CommercialSide::Supplier) {
        return Err(ConstructionProjectError::ChangeDerivation {
            change: fact.change.clone(),
            reason: "supplier exposure has no supplier amount",
        });
    }
    if (fact.stage == ChangeStage::CustomerRecovery || fact.stage == ChangeStage::Quotation) && !has_side_exec(
        &fact.amount_components,
        CommercialSide::Customer,
    ) {
        return Err(ConstructionProjectError::ChangeDerivation {
            change: fact.change.clone(),
            reason: "customer commercial fact has no customer amount",
        });
    }
    if fact.stage == ChangeStage::AuthorityDecision && (fact.status == ChangeStatus::Approved || fact.status
        == ChangeStatus::PartiallyApproved) && !has_side_exec(&fact.amount_components, CommercialSide::Customer) {
        return Err(ConstructionProjectError::ChangeDerivation {
            change: fact.change.clone(),
            reason: "approval has no explicit approved customer amount",
        });
    }
    let needs_refs = match fact.stage {
        ChangeStage::AuthorityDecision | ChangeStage::Settlement | ChangeStage::Closure => true,
        _ => false,
    };
    if needs_refs && fact.references.len() == 0 {
        return Err(ConstructionProjectError::EmptyCollection("change.fact.references"));
    }
    Ok(())
}

/// Every component passes and no parent is double counted.
pub open spec fn components_ok(cs: Seq<ChangeAmountComponent>, charter: CurrencyCode) -> bool {
    &&& forall|i: int| !#[trigger] component_fault(cs, charter, i)
    &&& forall|i: int| !#[trigger] double_counted(cs, i)
}

/// The reference passes its checks.
pub open spec fn reference_ok(e: ReferencedAmountEvidence, charter: CurrencyCode) -> bool {
    referenced_check(e, charter, Ok(()))
}

/// Reference `i` fails its checks.
pub open spec fn reference_fault(refs: Seq<ReferencedAmountEvidence>, charter: CurrencyCode, i: int) -> bool {
    0 <= i < refs.len() && !reference_ok(refs[i], charter)
}

/// What `validate_change_fact(f, charter)` answers: the first failed check
/// in the order sequence, note, affected controls, affected packages,
/// affected tasks, components, references, stage rules.
pub open spec fn fact_check(f: ChangeFact, charter: CurrencyCode, r: Result<(), ConstructionProjectError>) -> bool {
    let refs = f.references@;
    if f.fact_seq == 0 {
        r matches Err(ConstructionProjectError::InvalidSequence { field, sequence }) && field == "change.fact_seq"
            && sequence == 0
    } else if is_blank(f.note@) {
        r == Err::<(), ConstructionProjectError>(ConstructionProjectError::EmptyField("change.fact.note"))
    } else if !controls_unique(f.affected_controls@) {
        unique_controls_check("change.affected_controls", f.affected_controls@, r)
    } else if !controls_unique(f.affected_packages@) {
        unique_controls_check("change.affected_packages", f.affected_packages@, r)
    } else if !tasks_ok(f.affected_tasks@) {
        tasks_check(f.affected_tasks@, r)
    } else if !components_ok(f.amount_components@, charter) {
        components_check(f.amount_components@, charter, r)
    } else if exists|i: int| #[trigger] reference_fault(refs, charter, i) {
        exists|i: int| #[trigger] reference_fault(refs, charter, i) && (forall|j: int| 0 <= j < i ==> !#[trigger] reference_fault(refs, charter, j))
            && referenced_check(refs[i], charter, r)
    } else {
        stage_check(f, r)
    }
}

/// `validate_components` answers `Ok` exactly for acceptable components.
pub proof fn lemma_components_check_ok(cs: Seq<ChangeAmountComponent>, charter: CurrencyCode, r: Result<(), ConstructionProjectError>)
    requires
        components_check(cs, charter, r),
    ensures
        r is Ok <==> components_ok(cs, charter),
{
}

/// `validate_unique_controls` answers `Ok` exactly for lists without repeats.
pub proof fn lemma_unique_check_ok(field: &'static str, cs: Seq<ControlId>, r: Result<(), ConstructionProjectError>)
    requires
        unique_controls_check(field, cs, r),
    ensures
        r is Ok <==> controls_unique(cs),
{
}

/// Validates a change stage fact against the charter currency.
pub fn validate_change_fact(fact: &ChangeFact, charter_currency: &CurrencyCode) -> (r: Result<(), ConstructionProjectError>)
    ensures
        fact_check(*fact, *charter_currency, r),
{
    if fact.fact_seq == 0 {
        return Err(ConstructionProjectError::InvalidSequence { field: "change.fact_seq", sequence: fact.fact_seq });
    }
    if text_is_blank(fact.note.as_str()) {
        return Err(ConstructionProjectError::EmptyField("change.fact.note"));
    }
    let a = validate_unique_controls("change.affected_controls", &fact.affected_controls);
    proof {
        lemma_unique_check_ok("change.affected_controls", fact.affected_controls@, a);
    }
    a?;
    let b = validate_unique_controls("change.affected_packages", &fact.affected_packages);
    proof {
        lemma_unique_check_ok("change.affected_packages", fact.affected_packages@, b);
    }
    b?;
    let t = validate_tasks(&fact.affected_tasks);
    proof {
        lemma_tasks_check_ok(fact.affected_tasks@, t);
    }
    t?;
    let c = validate_components(&fact.amount_components, charter_currency);
    proof {
        lemma_components_check_ok(fact.amount_components@, *charter_currency, c);
    }
    c?;
    let ghost refs = fact.references@;
    let mut i: usize = 0;
    while i < fact.references.len()
        invariant
            refs == fact.references@,
            fact.fact_seq != 0,
            !is_blank(fact.note@),
            controls_unique(fact.affected_controls@),
            controls_unique(fact.affected_packages@),
            tasks_ok(fact.affected_tasks@),
            components_ok(fact.amount_components@, *charter_currency),
            i <= refs.len(),
            forall|j: int| 0 <= j < i ==> !#[trigger] reference_fault(refs, *charter_currency, j),
        decreases refs.len() - i,
    {
        let checked = fact.references[i].validate(charter_currency);
        match checked {
            Ok(()) => {},
            Err(e) => {
                proof {
                    assert(reference_fault(refs, *charter_currency, i as int));
                }
                return Err(e);
            },
        }
        proof {
            assert(!reference_fault(refs, *charter_currency, i as int));
        }
        i = i + 1;
    }
    proof {
        assert forall|j: int| !#[trigger] reference_fault(refs, *charter_currency, j) by {
            if 0 <= j < refs.len() {
            }
        }
    }
    validate_stage(fact)
}

} // verus!
