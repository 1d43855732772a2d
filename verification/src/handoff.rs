//! Package handoff readiness from award, supplier, design, material, and
//! acceptance facts.

use vstd::prelude::*;
use crate::date::ProjectDate;
use crate::design::DesignReadinessReport;
use crate::error::ConstructionProjectError;
use crate::evidence::{EvidenceState, ExternalRef};
use crate::identity::{ControlId, OrganizationId, RoleId};
use crate::order::{first_where, lemma_first_where_all_false, lemma_first_where_stable, lex_lt, text_precedes};
use crate::text::{concat_text, is_blank, text_is_blank, texts_equal};

verus! {

/// Procurement state of a package.
#[derive(Debug, PartialEq, Eq)]
pub enum ProcurementStatus {
    /// The package is not ready to be awarded.
    NotReady,
    /// The package is ready to be awarded.
    ReadyToAward,
    /// The package was awarded.
    Awarded {
        /// Supplier the package was awarded to.
        supplier: String,
        /// Accountable award decision.
        award: ControlId,
    },
}

/// Procurement readiness of one package.
#[derive(Debug, PartialEq, Eq)]
pub struct PackageReadinessReport {
    /// Work package.
    pub package: ControlId,
    /// Procurement state of the package.
    pub status: ProcurementStatus,
}

/// Qualification state of a supplier.
#[derive(Clone, Copy, Debug, PartialEq, Eq, Structural, Hash)]
pub enum QualificationStatus {
    /// The supplier is qualified.
    Qualified,
    /// The supplier is qualified, and the qualification expires soon.
    Expiring,
    /// The qualification expired.
    Expired,
    /// The supplier is not qualified.
    Unqualified,
}

/// Qualification of one supplier.
#[derive(Debug, PartialEq, Eq)]
pub struct SupplierQualificationReport {
    /// Qualified supplier organization.
    pub supplier: OrganizationId,
    /// Qualification state.
    pub status: QualificationStatus,
}

/// Package handoff joining award, supplier, released design, material, need, and responsibility.
#[derive(Debug, PartialEq, Eq)]
pub struct PackageHandoff {
    /// Stable handoff control id.
    pub control: ControlId,
    /// Work package being handed off.
    pub package: ControlId,
    /// Accountable award decision.
    pub award: ControlId,
    /// Supplier organization accepting responsibility.
    pub supplier: OrganizationId,
    /// Released design control used for production.
    pub released_design: ControlId,
    /// Material readiness control or evidence reference.
    pub material: ControlId,
    /// Supplier lead time in calendar days.
    pub lead_time_days: u16,
    /// Date production needs the package ready.
    pub production_need_on: ProjectDate,
    /// Role accepting package responsibility.
    pub accepted_by: RoleId,
    /// Date responsibility was accepted.
    pub accepted_on: Option<ProjectDate>,
    /// Explicit responsibility acceptance statement.
    pub responsibility_acceptance: String,
    /// Reference-only handoff evidence.
    pub evidence: Vec<ExternalRef>,
}

impl PackageHandoff {
    /// Builds a package handoff record with no acceptance and no evidence.
    pub fn new(
        control: ControlId,
        package: ControlId,
        award: ControlId,
        supplier: OrganizationId,
        released_design: ControlId,
        material: ControlId,
        lead_time_days: u16,
        production_need_on: ProjectDate,
        accepted_by: RoleId,
    ) -> (h: Self)
        ensures
            h.control == control,
            h.package == package,
            h.award == award,
            h.supplier == supplier,
            h.released_design == released_design,
            h.material == material,
            h.lead_time_days == lead_time_days,
            h.production_need_on == production_need_on,
            h.accepted_by == accepted_by,
            h.accepted_on is None,
            h.responsibility_acceptance@.len() == 0,
            h.evidence@.len() == 0,
    {
        PackageHandoff {
            control,
            package,
            award,
            supplier,
            released_design,
            material,
            lead_time_days,
            production_need_on,
            accepted_by,
            accepted_on: None,
            responsibility_acceptance: String::new(),
            evidence: Vec::new(),
        }
    }

    /// Adds explicit supplier responsibility acceptance.
    pub fn accepts_responsibility(self, accepted_on: ProjectDate, statement: &str) -> (h: Self)
        ensures
            h == (PackageHandoff { accepted_on: Some(accepted_on), responsibility_acceptance: h.responsibility_acceptance, ..self }),
            h.responsibility_acceptance@ == statement@,
    {
        let mut h = self;
        h.accepted_on = Some(accepted_on);
        h.responsibility_acceptance = statement.to_owned();
        h
    }

    /// Replaces the supplier organization reference.
    pub fn with_supplier(self, supplier: OrganizationId) -> (h: Self)
        ensures
            h == (PackageHandoff { supplier, ..self }),
    {
        let mut h = self;
        h.supplier = supplier;
        h
    }

    /// Adds reference-only handoff evidence.
    pub fn with_evidence(self, evidence: ExternalRef) -> (h: Self)
        ensures
            h == (PackageHandoff { evidence: h.evidence, ..self }),
            h.evidence@ == self.evidence@.push(evidence),
    {
        let mut h = self;
        h.evidence.push(evidence);
        h
    }

    fn validate(&self) -> (r: Result<(), ConstructionProjectError>)
        ensures
            match handoff_fault(*self) {
                Some(e) => r == Err::<(), ConstructionProjectError>(e),
                None => r is Ok,
            },
    {
        if self.lead_time_days == 0 {
            return Err(ConstructionProjectError::EmptyField("package_handoff.lead_time_days"));
        }
        if self.evidence.len() == 0 {
            return Err(ConstructionProjectError::EmptyCollection("package_handoff.evidence"));
        }
        Ok(())
    }
}

/// One package handoff blocker.
#[derive(Debug, PartialEq, Eq)]
pub struct PackageHandoffBlocker {
    /// Blocking control id.
    pub control: ControlId,
    /// Evidence state when applicable.
    pub evidence_state: EvidenceState,
    /// Deterministic blocker rule.
    pub rule: String,
    /// Deterministic explanation.
    pub reason: String,
}

/// Derived package handoff readiness report.
#[derive(Debug, PartialEq, Eq)]
pub struct HandoffReadinessReport {
    /// Handoff control.
    pub handoff: ControlId,
    /// Work package.
    pub package: ControlId,
    /// Evaluation date.
    pub as_of_date: ProjectDate,
    /// True only when award, supplier qualification, design, material timing, and acceptance align.
    pub ready: bool,
    /// Supplier named in the handoff.
    pub supplier: OrganizationId,
    /// Blockers in deterministic order.
    pub blockers: Vec<PackageHandoffBlocker>,
}

/// Package handoff records.
#[derive(Debug, PartialEq, Eq)]
pub struct PackageHandoffControlSet {
    /// Handoff records.
    pub handoffs: Vec<PackageHandoff>,
}

/// What a handoff blocker states: control, evidence state, rule, reason.
pub type HandoffFacts = (ControlId, EvidenceState, Seq<char>, Seq<char>);

/// The facts of each blocker.
pub open spec fn handoff_facts_of(s: Seq<PackageHandoffBlocker>) -> Seq<HandoffFacts> {
    s.map_values(|b: PackageHandoffBlocker| (b.control, b.evidence_state, b.rule@, b.reason@))
}

/// Blocker order: by control, then by rule.
pub open spec fn facts_before(a: HandoffFacts, b: HandoffFacts) -> bool {
    lex_lt(a.0@, b.0@) || (a.0@ == b.0@ && lex_lt(a.2, b.2))
}

/// Positions of `s` that `x` goes before.
pub open spec fn goes_before(s: Seq<HandoffFacts>, x: HandoffFacts) -> spec_fn(int) -> bool {
    |i: int| facts_before(x, s[i])
}

/// `x` inserted before the first element it goes before: after every element
/// of equal or lower order.
pub open spec fn insert_in_order(s: Seq<HandoffFacts>, x: HandoffFacts) -> Seq<HandoffFacts> {
    match first_where(goes_before(s, x), s.len() as int) {
        Some(p) => s.insert(p, x),
        None => s.push(x),
    }
}

/// `s` in blocker order; blockers of equal order keep their order in `s`.
pub open spec fn in_blocker_order(s: Seq<HandoffFacts>) -> Seq<HandoffFacts>
    decreases s.len(),
{
    if s.len() == 0 {
        Seq::empty()
    } else {
        insert_in_order(in_blocker_order(s.drop_last()), s.last())
    }
}

/// A blocker with reported evidence.
pub open spec fn handoff_blocked(c: ControlId, rule: Seq<char>, reason: Seq<char>) -> Seq<HandoffFacts> {
    seq![(c, EvidenceState::Reported, rule, reason)]
}

/// Award blockers: a supplier other than the awarded one, an award other than
/// the accountable one, or no award at all.
pub open spec fn award_blockers(h: PackageHandoff, procurement: PackageReadinessReport) -> Seq<HandoffFacts> {
    match procurement.status {
        ProcurementStatus::Awarded { supplier, award } => (if supplier@ != h.supplier@ {
            handoff_blocked(h.award, "supplier-substitution"@, "awarded supplier does not match the handoff supplier"@)
        } else {
            Seq::empty()
        }) + (if award@ != h.award@ {
            handoff_blocked(h.award, "award-link"@, "handoff must name the accountable award decision"@)
        } else {
            Seq::empty()
        }),
        _ => handoff_blocked(h.award, "award"@, "ready to award is not ready to produce"@),
    }
}

/// Qualification blockers: a report on another supplier, or a qualification
/// that is neither qualified nor expiring.
pub open spec fn qualification_blockers(h: PackageHandoff, supplier: SupplierQualificationReport) -> Seq<HandoffFacts> {
    (if supplier.supplier@ != h.supplier@ {
        handoff_blocked(h.control, "supplier-qualification"@, "qualification report is for a different supplier"@)
    } else {
        Seq::empty()
    }) + (if !(supplier.status == QualificationStatus::Qualified || supplier.status == QualificationStatus::Expiring) {
        handoff_blocked(h.control, "supplier-qualification"@, "supplier qualification is not accepted and current"@)
    } else {
        Seq::empty()
    })
}

/// The design report's blockers when it is not ready, each rule prefixed `design:`.
pub open spec fn design_part(design: DesignReadinessReport) -> Seq<HandoffFacts> {
    if !design.ready {
        design.blockers@.map_values(|b: crate::design::DesignBlocker| (b.control, b.evidence_state, "design:"@ + b.rule@, b.reason@))
    } else {
        Seq::empty()
    }
}

/// `x` is among the ids.
pub open spec fn names_id(ids: Seq<ControlId>, x: Seq<char>) -> bool {
    exists|i: int| 0 <= i < ids.len() && (#[trigger] ids[i])@ == x
}

/// The remaining blockers: a released design the design report does not name,
/// a lead time that overruns the production need date, and a missing
/// responsibility acceptance.
pub open spec fn closing_blockers(h: PackageHandoff, design: DesignReadinessReport, as_of: ProjectDate) -> Seq<HandoffFacts> {
    (if !names_id(design.releases@, h.released_design@) {
        handoff_blocked(h.released_design, "released-design"@, "handoff must name a released production design"@)
    } else {
        Seq::empty()
    }) + (if as_of.julian_day + h.lead_time_days > h.production_need_on.julian_day {
        handoff_blocked(h.material, "lead-time"@, "material lead time does not fit the production need date"@)
    } else {
        Seq::empty()
    }) + (if h.accepted_on is None || is_blank(h.responsibility_acceptance@) {
        handoff_blocked(h.control, "responsibility-acceptance"@, "supplier responsibility acceptance is missing"@)
    } else {
        Seq::empty()
    })
}

/// Every blocker of the handoff, in the order they are found.
pub open spec fn handoff_candidates(
    h: PackageHandoff,
    procurement: PackageReadinessReport,
    supplier: SupplierQualificationReport,
    design: DesignReadinessReport,
    as_of: ProjectDate,
) -> Seq<HandoffFacts> {
    award_blockers(h, procurement) + qualification_blockers(h, supplier) + design_part(design) + closing_blockers(h, design, as_of)
}

/// The problem with a handoff record: no lead time, or no evidence.
pub open spec fn handoff_fault(h: PackageHandoff) -> Option<ConstructionProjectError> {
    if h.lead_time_days == 0 {
        Some(ConstructionProjectError::EmptyField("package_handoff.lead_time_days"))
    } else if h.evidence@.len() == 0 {
        Some(ConstructionProjectError::EmptyCollection("package_handoff.evidence"))
    } else {
        None
    }
}

/// The handoff at position `i` has control `id`.
pub open spec fn handoff_named(s: Seq<PackageHandoff>, id: Seq<char>) -> spec_fn(int) -> bool {
    |i: int| s[i].control@ == id
}

/// Handoff readiness: the first handoff with the requested control, refused
/// when absent, when its record is incomplete, or when the procurement or
/// design report is for another package; otherwise its blockers in blocker
/// order, ready when there is none.
pub open spec fn handoff_readiness_result(
    s: PackageHandoffControlSet,
    handoff: ControlId,
    procurement: PackageReadinessReport,
    supplier: SupplierQualificationReport,
    design: DesignReadinessReport,
    as_of: ProjectDate,
    r: Result<HandoffReadinessReport, ConstructionProjectError>,
) -> bool {
    match first_where(handoff_named(s.handoffs@, handoff@), s.handoffs@.len() as int) {
        None => r matches Err(e) && e == ConstructionProjectError::MissingPackageHandoff { handoff },
        Some(i) => {
            let h = s.handoffs@[i];
            match handoff_fault(h) {
                Some(e) => r matches Err(x) && x == e,
                None => if h.package@ != procurement.package@ || h.package@ != design.target@ {
                    r matches Err(e) && e == ConstructionProjectError::HandoffPackageMismatch { handoff: h.control, expected: h.package }
                } else {
                    r matches Ok(rep) && rep.handoff == h.control && rep.package == h.package && rep.as_of_date == as_of
                        && rep.supplier == h.supplier
                        && handoff_facts_of(rep.blockers@) == in_blocker_order(handoff_candidates(h, procurement, supplier, design, as_of))
                        && rep.ready == (rep.blockers@.len() == 0)
                },
            }
        },
    }
}

fn handoff_blocker(control: &ControlId, rule: &str, reason: &str) -> (b: PackageHandoffBlocker)
    ensures
        b.control == *control,
        b.evidence_state == EvidenceState::Reported,
        b.rule@ == rule@,
        b.reason@ == reason@,
{
    PackageHandoffBlocker { control: control.clone(), evidence_state: EvidenceState::Reported, rule: rule.to_owned(), reason: reason.to_owned() }
}

fn facts_precede(a: &PackageHandoffBlocker, b: &PackageHandoffBlocker) -> (r: bool)
    ensures
        r == facts_before((a.control, a.evidence_state, a.rule@, a.reason@), (b.control, b.evidence_state, b.rule@, b.reason@)),
{
    if text_precedes(a.control.as_str(), b.control.as_str()) {
        true
    } else if a.control.same(&b.control) {
        text_precedes(a.rule.as_str(), b.rule.as_str())
    } else {
        false
    }
}

/// Inserts `b` after every blocker of equal or lower order.
fn insert_blocker(v: &mut Vec<PackageHandoffBlocker>, b: PackageHandoffBlocker)
    ensures
        handoff_facts_of(final(v)@) == insert_in_order(handoff_facts_of(old(v)@), (b.control, b.evidence_state, b.rule@, b.reason@)),
{
    let ghost s = handoff_facts_of(v@);
    let ghost x = (b.control, b.evidence_state, b.rule@, b.reason@);
    let ghost p = goes_before(s, x);
    let mut i: usize = 0;
    while i < v.len() && !facts_precede(&b, &v[i])
        invariant
            s == handoff_facts_of(v@),
            x == (b.control, b.evidence_state, b.rule@, b.reason@),
            p == goes_before(s, x),
            i <= v@.len(),
            forall|j: int| 0 <= j < i ==> !#[trigger] p(j),
        decreases v.len() - i,
    {
        i = i + 1;
    }
    proof {
        if i < v@.len() {
            assert(p(i as int));
            lemma_first_where_all_false(p, i as int);
            assert(first_where(p, i + 1) == Some(i as int));
            lemma_first_where_stable(p, i + 1, s.len() as int);
        } else {
            lemma_first_where_all_false(p, s.len() as int);
        }
    }
    let ghost old_v = v@;
    v.insert(i, b);
    proof {
        assert(handoff_facts_of(v@) =~= s.insert(i as int, x));
        assert(s.insert(s.len() as int, x) =~= s.push(x));
    }
}

proof fn lemma_order_push(c: Seq<HandoffFacts>, x: HandoffFacts)
    ensures
        in_blocker_order(c.push(x)) == insert_in_order(in_blocker_order(c), x),
{
    assert(c.push(x).drop_last() =~= c);
}

/// Adds one blocker to blockers kept in blocker order.
fn add_one(blockers: &mut Vec<PackageHandoffBlocker>, b: PackageHandoffBlocker, Ghost(done): Ghost<Seq<HandoffFacts>>)
    requires
        handoff_facts_of(old(blockers)@) == in_blocker_order(done),
    ensures
        handoff_facts_of(final(blockers)@) == in_blocker_order(done.push((b.control, b.evidence_state, b.rule@, b.reason@))),
{
    proof {
        lemma_order_push(done, (b.control, b.evidence_state, b.rule@, b.reason@));
    }
    insert_blocker(blockers, b);
}

fn add_award_blockers(blockers: &mut Vec<PackageHandoffBlocker>, h: &PackageHandoff, procurement: &PackageReadinessReport, Ghost(done): Ghost<Seq<HandoffFacts>>)
    requires
        handoff_facts_of(old(blockers)@) == in_blocker_order(done),
    ensures
        handoff_facts_of(final(blockers)@) == in_blocker_order(done + award_blockers(*h, *procurement)),
{
    let ghost mut d = done;
    match &procurement.status {
        ProcurementStatus::Awarded { supplier: awarded, award } => {
            if !texts_equal(awarded.as_str(), h.supplier.as_str()) {
                let b = handoff_blocker(&h.award, "supplier-substitution", "awarded supplier does not match the handoff supplier");
                add_one(blockers, b, Ghost(d));
                proof { d = d.push((h.award, EvidenceState::Reported, "supplier-substitution"@, "awarded supplier does not match the handoff supplier"@)); }
            }
            if !award.same(&h.award) {
                let b = handoff_blocker(&h.award, "award-link", "handoff must name the accountable award decision");
                add_one(blockers, b, Ghost(d));
                proof { d = d.push((h.award, EvidenceState::Reported, "award-link"@, "handoff must name the accountable award decision"@)); }
            }
        },
        _ => {
            let b = handoff_blocker(&h.award, "award", "ready to award is not ready to produce");
            add_one(blockers, b, Ghost(d));
            proof { d = d.push((h.award, EvidenceState::Reported, "award"@, "ready to award is not ready to produce"@)); }
        },
    }
    proof {
        assert(d =~= done + award_blockers(*h, *procurement));
    }
}

fn add_qualification_blockers(blockers: &mut Vec<PackageHandoffBlocker>, h: &PackageHandoff, supplier: &SupplierQualificationReport, Ghost(done): Ghost<Seq<HandoffFacts>>)
    requires
        handoff_facts_of(old(blockers)@) == in_blocker_order(done),
    ensures
        handoff_facts_of(final(blockers)@) == in_blocker_order(done + qualification_blockers(*h, *supplier)),
{
    let ghost mut d = done;
    if !supplier.supplier.same(&h.supplier) {
        let b = handoff_blocker(&h.control, "supplier-qualification", "qualification report is for a different supplier");
        add_one(blockers, b, Ghost(d));
        proof { d = d.push((h.control, EvidenceState::Reported, "supplier-qualification"@, "qualification report is for a different supplier"@)); }
    }
    if !(supplier.status == QualificationStatus::Qualified || supplier.status == QualificationStatus::Expiring) {
        let b = handoff_blocker(&h.control, "supplier-qualification", "supplier qualification is not accepted and current");
        add_one(blockers, b, Ghost(d));
        proof { d = d.push((h.control, EvidenceState::Reported, "supplier-qualification"@, "supplier qualification is not accepted and current"@)); }
    }
    proof {
        assert(d =~= done + qualification_blockers(*h, *supplier));
    }
}

fn add_design_blockers(blockers: &mut Vec<PackageHandoffBlocker>, design: &DesignReadinessReport, Ghost(done): Ghost<Seq<HandoffFacts>>)
    requires
        handoff_facts_of(old(blockers)@) == in_blocker_order(done),
    ensures
        handoff_facts_of(final(blockers)@) == in_blocker_order(done + design_part(*design)),
{
    if !design.ready {
        let ghost mut d = done;
        let mut k: usize = 0;
        while k < design.blockers.len()
            invariant
                k <= design.blockers@.len(),
                !design.ready,
                d == done + design_part(*design).take(k as int),
                handoff_facts_of(blockers@) == in_blocker_order(d),
            decreases design.blockers.len() - k,
        {
            let x = &design.blockers[k];
            let b = PackageHandoffBlocker {
                control: x.control.clone(),
                evidence_state: x.evidence_state,
                rule: concat_text("design:", x.rule.as_str()),
                reason: x.reason.as_str().to_owned(),
            };
            add_one(blockers, b, Ghost(d));
            proof {
                d = d.push((x.control, x.evidence_state, "design:"@ + x.rule@, x.reason@));
                assert(d =~= done + design_part(*design).take(k + 1));
            }
            k = k + 1;
        }
        proof {
            assert(design_part(*design).take(design.blockers@.len() as int) =~= design_part(*design));
        }
    } else {
        proof {
            assert(done =~= done + design_part(*design));
        }
    }
}

fn add_closing_blockers(blockers: &mut Vec<PackageHandoffBlocker>, h: &PackageHandoff, design: &DesignReadinessReport, as_of_date: ProjectDate, Ghost(done): Ghost<Seq<HandoffFacts>>)
    requires
        handoff_facts_of(old(blockers)@) == in_blocker_order(done),
    ensures
        handoff_facts_of(final(blockers)@) == in_blocker_order(done + closing_blockers(*h, *design, as_of_date)),
{
    let ghost mut d = done;
    let mut named = false;
    let mut k: usize = 0;
    while k < design.releases.len()
        invariant
            k <= design.releases@.len(),
            named == exists|j: int| 0 <= j < k && (#[trigger] design.releases@[j])@ == h.released_design@,
        decreases design.releases.len() - k,
    {
        if design.releases[k].same(&h.released_design) {
            named = true;
        }
        k = k + 1;
    }
    if !named {
        let b = handoff_blocker(&h.released_design, "released-design", "handoff must name a released production design");
        add_one(blockers, b, Ghost(d));
        proof { d = d.push((h.released_design, EvidenceState::Reported, "released-design"@, "handoff must name a released production design"@)); }
    }
    let ready_on = as_of_date.julian_day as i64 + h.lead_time_days as i64;
    if ready_on > h.production_need_on.julian_day as i64 {
        let b = handoff_blocker(&h.material, "lead-time", "material lead time does not fit the production need date");
        add_one(blockers, b, Ghost(d));
        proof { d = d.push((h.material, EvidenceState::Reported, "lead-time"@, "material lead time does not fit the production need date"@)); }
    }
    if h.accepted_on.is_none() || text_is_blank(h.responsibility_acceptance.as_str()) {
        let b = handoff_blocker(&h.control, "responsibility-acceptance", "supplier responsibility acceptance is missing");
        add_one(blockers, b, Ghost(d));
        proof { d = d.push((h.control, EvidenceState::Reported, "responsibility-acceptance"@, "supplier responsibility acceptance is missing"@)); }
    }
    proof {
        assert(d =~= done + closing_blockers(*h, *design, as_of_date));
    }
}

/// The blockers of handoff `h`, in blocker order.
fn collect_blockers(
    h: &PackageHandoff,
    procurement: &PackageReadinessReport,
    supplier: &SupplierQualificationReport,
    design: &DesignReadinessReport,
    as_of_date: ProjectDate,
) -> (blockers: Vec<PackageHandoffBlocker>)
    ensures
        handoff_facts_of(blockers@) == in_blocker_order(handoff_candidates(*h, *procurement, *supplier, *design, as_of_date)),
{
    let mut blockers: Vec<PackageHandoffBlocker> = Vec::new();
    let ghost e: Seq<HandoffFacts> = Seq::empty();
    proof {
        assert(handoff_facts_of(blockers@) =~= in_blocker_order(e));
    }
    let ghost a = e + award_blockers(*h, *procurement);
    add_award_blockers(&mut blockers, h, procurement, Ghost(e));
    let ghost q = a + qualification_blockers(*h, *supplier);
    add_qualification_blockers(&mut blockers, h, supplier, Ghost(a));
    let ghost dd = q + design_part(*design);
    add_design_blockers(&mut blockers, design, Ghost(q));
    add_closing_blockers(&mut blockers, h, design, as_of_date, Ghost(dd));
    proof {
        assert(dd + closing_blockers(*h, *design, as_of_date) =~= handoff_candidates(*h, *procurement, *supplier, *design, as_of_date));
    }
    blockers
}

impl PackageHandoffControlSet {
    /// Builds an empty package handoff set.
    pub fn new() -> (s: Self)
        ensures
            s.handoffs@.len() == 0,
    {
        PackageHandoffControlSet { handoffs: Vec::new() }
    }

    /// Adds a handoff record.
    pub fn with_handoff(self, handoff: PackageHandoff) -> (s: Self)
        ensures
            s.handoffs@ == self.handoffs@.push(handoff),
    {
        let mut s = self;
        s.handoffs.push(handoff);
        s
    }

    fn find_handoff(&self, handoff: &ControlId) -> (r: Option<usize>)
        ensures
            match first_where(handoff_named(self.handoffs@, handoff@), self.handoffs@.len() as int) {
                Some(i) => r matches Some(j) && j == i,
                None => r is None,
            },
            r matches Some(j) ==> j < self.handoffs@.len(),
    {
        let ghost p = handoff_named(self.handoffs@, handoff@);
        let mut i: usize = 0;
        while i < self.handoffs.len()
            invariant
                p == handoff_named(self.handoffs@, handoff@),
                i <= self.handoffs@.len(),
                forall|j: int| 0 <= j < i ==> !#[trigger] p(j),
            decreases self.handoffs.len() - i,
        {
            if self.handoffs[i].control.same(handoff) {
                proof {
                    assert(p(i as int));
                    lemma_first_where_all_false(p, i as int);
                    assert(first_where(p, i + 1) == Some(i as int));
                    lemma_first_where_stable(p, i + 1, self.handoffs@.len() as int);
                }
                return Some(i);
            }
            i = i + 1;
        }
        proof {
            lemma_first_where_all_false(p, self.handoffs@.len() as int);
        }
        None
    }

    /// Derives handoff readiness from procurement, supplier, and design reports.
    pub fn readiness_for(
        &self,
        handoff: &ControlId,
        procurement: &PackageReadinessReport,
        supplier: &SupplierQualificationReport,
        design: &DesignReadinessReport,
        as_of_date: ProjectDate,
    ) -> (r: Result<HandoffReadinessReport, ConstructionProjectError>)
        ensures
            handoff_readiness_result(*self, *handoff, *procurement, *supplier, *design, as_of_date, r),
    {
        let i = match self.find_handoff(handoff) {
            None => return Err(ConstructionProjectError::MissingPackageHandoff { handoff: handoff.clone() }),
            Some(i) => i,
        };
        let h = &self.handoffs[i];
        match h.validate() {
            Err(e) => return Err(e),
            Ok(()) => {},
        }
        if !h.package.same(&procurement.package) || !h.package.same(&design.target) {
            return Err(ConstructionProjectError::HandoffPackageMismatch { handoff: h.control.clone(), expected: h.package.clone() });
        }
        let blockers = collect_blockers(h, procurement, supplier, design, as_of_date);
        let ready = blockers.len() == 0;
        Ok(HandoffReadinessReport {
            handoff: h.control.clone(),
            package: h.package.clone(),
            as_of_date,
            ready,
            supplier: h.supplier.clone(),
            blockers,
        })
    }
}

} // verus!
