//! Project charter records for construction control.

use vstd::prelude::*;
use crate::date::ProjectDate;
use crate::error::ConstructionProjectError;
use crate::evidence::ExternalRef;
use crate::governance::Visibility;
use crate::identity::{BaselineId, ControlId, ProjectId, RoleId};
use crate::text::{chars_of, is_blank, text_is_blank};

verus! {

/// The three-letter code packed into one number, first letter highest.
pub open spec fn currency_code_value(s: Seq<char>) -> int {
    (s[0] as int) * 65536 + (s[1] as int) * 256 + (s[2] as int)
}

/// The ISO 4217 codes accepted as project currencies, packed by `currency_code_value`:
/// AED AFN ALL AMD ANG AOA ARS AUD AWG AZN BAM BBD BDT BGN BHD BIF BMD BND BOB BRL BSD BTN BWP BYN BZD CAD CDF CHF CLP CNY COP CRC CUP CVE CZK DJF DKK DOP DZD EGP ERN ETB EUR FJD FKP GBP GEL GHS GIP GMD GNF GTQ GYD HKD HNL HTG HUF IDR ILS INR IQD IRR ISK JMD JOD JPY KES KGS KHR KMF KRW KWD KYD KZT LAK LBP LKR LRD LSL LYD MAD MDL MGA MKD MMK MNT MOP MRU MUR MVR MWK MXN MYR MZN NAD NGN NIO NOK NPR NZD OMR PAB PEN PGK PHP PKR PLN PYG QAR RON RSD RUB RWF SAR SBD SCR SDG SEK SGD SHP SLE SOS SRD SSP STN SYP SZL THB TJS TMT TND TOP TRY TTD TWD TZS UAH UGX USD UYU UZS VES VND VUV WST XAF XCD XOF XPF YER ZAR ZMW ZWL.
pub open spec fn listed_currency_value(v: int) -> bool {
        v == 4277572 || v == 4277838 || v == 4279372 || v == 4279620 || v == 4279879 || v == 4280129
        || v == 4280915 || v == 4281668 || v == 4282183 || v == 4282958 || v == 4342093 || v == 4342340
        || v == 4342868 || v == 4343630 || v == 4343876 || v == 4344134 || v == 4345156 || v == 4345412
        || v == 4345666 || v == 4346444 || v == 4346692 || v == 4346958 || v == 4347728 || v == 4348238
        || v == 4348484 || v == 4407620 || v == 4408390 || v == 4409414 || v == 4410448 || v == 4410969
        || v == 4411216 || v == 4411971 || v == 4412752 || v == 4412997 || v == 4414027 || v == 4475462
        || v == 4475723 || v == 4476752 || v == 4479556 || v == 4540240 || v == 4543054 || v == 4543554
        || v == 4543826 || v == 4606532 || v == 4606800 || v == 4670032 || v == 4670796 || v == 4671571
        || v == 4671824 || v == 4672836 || v == 4673094 || v == 4674641 || v == 4675908 || v == 4737860
        || v == 4738636 || v == 4740167 || v == 4740422 || v == 4801618 || v == 4803667 || v == 4804178
        || v == 4804932 || v == 4805202 || v == 4805451 || v == 4869444 || v == 4869956 || v == 4870233
        || v == 4932947 || v == 4933459 || v == 4933714 || v == 4934982 || v == 4936279 || v == 4937540
        || v == 4938052 || v == 4938324 || v == 4997451 || v == 4997712 || v == 5000018 || v == 5001796
        || v == 5002060 || v == 5003588 || v == 5062980 || v == 5063756 || v == 5064513 || v == 5065540
        || v == 5066059 || v == 5066324 || v == 5066576 || v == 5067349 || v == 5068114 || v == 5068370
        || v == 5068619 || v == 5068878 || v == 5069138 || v == 5069390 || v == 5128516 || v == 5130062
        || v == 5130575 || v == 5132107 || v == 5132370 || v == 5134916 || v == 5197138 || v == 5259586
        || v == 5260622 || v == 5261131 || v == 5261392 || v == 5262162 || v == 5262414 || v == 5265735
        || v == 5325138 || v == 5394254 || v == 5395268 || v == 5395778 || v == 5396294 || v == 5456210
        || v == 5456452 || v == 5456722 || v == 5456967 || v == 5457227 || v == 5457732 || v == 5458000
        || v == 5459013 || v == 5459795 || v == 5460548 || v == 5460816 || v == 5461070 || v == 5462352
        || v == 5462604 || v == 5523522 || v == 5524051 || v == 5524820 || v == 5525060 || v == 5525328
        || v == 5526105 || v == 5526596 || v == 5527364 || v == 5528147 || v == 5587272 || v == 5588824
        || v == 5591876 || v == 5593429 || v == 5593683 || v == 5653843 || v == 5656132 || v == 5657942
        || v == 5722964 || v == 5783878 || v == 5784388 || v == 5787462 || v == 5787718 || v == 5850450
        || v == 5914962 || v == 5918039 || v == 5920588
}

/// A text that names a supported project currency.
pub open spec fn is_project_currency(s: Seq<char>) -> bool {
    &&& s.len() == 3
    &&& forall|i: int| 0 <= i < 3 ==> 'A' <= #[trigger] s[i] && s[i] <= 'Z'
    &&& listed_currency_value(currency_code_value(s))
}

fn listed_currency(v: u32) -> (b: bool)
    ensures
        b == listed_currency_value(v as int),
{
    match v {
            4277572 | 4277838 | 4279372 | 4279620 | 4279879 | 4280129 | 4280915 | 4281668 |
            4282183 | 4282958 | 4342093 | 4342340 | 4342868 | 4343630 | 4343876 | 4344134 |
            4345156 | 4345412 | 4345666 | 4346444 | 4346692 | 4346958 | 4347728 | 4348238 |
            4348484 | 4407620 | 4408390 | 4409414 | 4410448 | 4410969 | 4411216 | 4411971 |
            4412752 | 4412997 | 4414027 | 4475462 | 4475723 | 4476752 | 4479556 | 4540240 |
            4543054 | 4543554 | 4543826 | 4606532 | 4606800 | 4670032 | 4670796 | 4671571 |
            4671824 | 4672836 | 4673094 | 4674641 | 4675908 | 4737860 | 4738636 | 4740167 |
            4740422 | 4801618 | 4803667 | 4804178 | 4804932 | 4805202 | 4805451 | 4869444 |
            4869956 | 4870233 | 4932947 | 4933459 | 4933714 | 4934982 | 4936279 | 4937540 |
            4938052 | 4938324 | 4997451 | 4997712 | 5000018 | 5001796 | 5002060 | 5003588 |
            5062980 | 5063756 | 5064513 | 5065540 | 5066059 | 5066324 | 5066576 | 5067349 |
            5068114 | 5068370 | 5068619 | 5068878 | 5069138 | 5069390 | 5128516 | 5130062 |
            5130575 | 5132107 | 5132370 | 5134916 | 5197138 | 5259586 | 5260622 | 5261131 |
            5261392 | 5262162 | 5262414 | 5265735 | 5325138 | 5394254 | 5395268 | 5395778 |
            5396294 | 5456210 | 5456452 | 5456722 | 5456967 | 5457227 | 5457732 | 5458000 |
            5459013 | 5459795 | 5460548 | 5460816 | 5461070 | 5462352 | 5462604 | 5523522 |
            5524051 | 5524820 | 5525060 | 5525328 | 5526105 | 5526596 | 5527364 | 5528147 |
            5587272 | 5588824 | 5591876 | 5593429 | 5593683 | 5653843 | 5656132 | 5657942 |
            5722964 | 5783878 | 5784388 | 5787462 | 5787718 | 5850450 | 5914962 | 5918039 |
            5920588 => true,
        _ => false,
    }
}

/// Returns true when `code` names a supported project currency.
pub fn is_known_project_currency(code: &str) -> (b: bool)
    ensures
        b == is_project_currency(code@),
{
    let c = chars_of(code);
    if c.len() != 3 {
        return false;
    }
    if !('A' <= c[0] && c[0] <= 'Z' && 'A' <= c[1] && c[1] <= 'Z' && 'A' <= c[2] && c[2] <= 'Z') {
        return false;
    }
    let v: u32 = (c[0] as u32) * 65536 + (c[1] as u32) * 256 + (c[2] as u32);
    listed_currency(v)
}

/// Open kind name for a construction project charter.
pub const PROJECT_CHARTER_KIND: &'static str = "construction/project-charter";

/// Exact ISO 4217 currency used by a construction project.
#[derive(Debug, PartialEq, Eq, PartialOrd, Ord, Hash)]
pub struct CurrencyCode(String);

impl View for CurrencyCode {
    type V = Seq<char>;
    closed spec fn view(&self) -> Seq<char> { self.0@ }
}

impl Clone for CurrencyCode {
    fn clone(&self) -> (r: Self)
        ensures
            r == *self,
    {
        CurrencyCode(self.0.clone())
    }
}

impl CurrencyCode {
    /// Validates and builds a project currency code.
    pub fn new(code: &str) -> (r: Result<Self, ConstructionProjectError>)
        ensures
            r is Ok <==> is_project_currency(code@),
            r matches Ok(c) ==> c@ == code@,
            r matches Err(e) ==> (e matches ConstructionProjectError::UnknownCurrency(text) && text@ == code@),
    {
        if is_known_project_currency(code) {
            Ok(CurrencyCode(code.to_owned()))
        } else {
            Err(ConstructionProjectError::UnknownCurrency(code.to_owned()))
        }
    }

    /// Borrows the currency code text.
    pub fn as_str(&self) -> (r: &str)
        ensures
            r@ == self@,
    {
        self.0.as_str()
    }

    /// Returns true when both codes are the same currency.
    pub fn same(&self, other: &CurrencyCode) -> (b: bool)
        ensures
            b == (self@ == other@),
    {
        self.0 == other.0
    }
}

/// Reporting cadence for project-control summaries.
#[derive(Debug, PartialEq, Eq)]
pub struct ReportingCadence {
    /// Human-readable cadence label.
    pub label: String,
    /// Number of calendar days between required reports.
    pub interval_days: u16,
}

impl ReportingCadence {
    /// Builds a reporting cadence from a non-blank label and `1..=366` days.
    pub fn new(label: &str, interval_days: u16) -> (r: Result<Self, ConstructionProjectError>)
        ensures
            is_blank(label@) ==> r == Err::<Self, ConstructionProjectError>(ConstructionProjectError::EmptyField("reporting_cadence.label")),
            !is_blank(label@) && (interval_days == 0 || interval_days > 366) ==> r == Err::<Self, ConstructionProjectError>(
                ConstructionProjectError::InvalidDueDatePolicy { field: "reporting_cadence.interval_days", max_days: 366 },
            ),
            !is_blank(label@) && 1 <= interval_days <= 366 ==> (r matches Ok(c) && c.label@ == label@ && c.interval_days == interval_days),
    {
        if text_is_blank(label) {
            return Err(ConstructionProjectError::EmptyField("reporting_cadence.label"));
        }
        if interval_days == 0 || interval_days > 366 {
            return Err(ConstructionProjectError::InvalidDueDatePolicy { field: "reporting_cadence.interval_days", max_days: 366 });
        }
        Ok(ReportingCadence { label: label.to_owned(), interval_days })
    }

    /// Weekly project reporting cadence.
    pub fn weekly() -> (r: Self)
        ensures
            r.label@ == "weekly"@,
            r.interval_days == 7,
    {
        ReportingCadence { label: "weekly".to_owned(), interval_days: 7 }
    }
}

/// What requiring a non-blank text answers.
pub open spec fn text_result(value: Seq<char>, field: &'static str, r: Result<(), ConstructionProjectError>) -> bool {
    if is_blank(value) {
        r == Err::<(), ConstructionProjectError>(ConstructionProjectError::EmptyField(field))
    } else {
        r is Ok
    }
}

/// Requires a non-blank text.
pub fn require_text(value: &str, field: &'static str) -> (r: Result<(), ConstructionProjectError>)
    ensures
        text_result(value@, field, r),
{
    if text_is_blank(value) {
        Err(ConstructionProjectError::EmptyField(field))
    } else {
        Ok(())
    }
}

/// What requiring a non-empty list of non-blank texts answers.
pub open spec fn texts_list_result(values: Seq<String>, field: &'static str, r: Result<(), ConstructionProjectError>) -> bool {
    if values.len() == 0 {
        r == Err::<(), ConstructionProjectError>(ConstructionProjectError::EmptyCollection(field))
    } else if exists|i: int| 0 <= i < values.len() && is_blank((#[trigger] values[i])@) {
        r == Err::<(), ConstructionProjectError>(ConstructionProjectError::EmptyField(field))
    } else {
        r is Ok
    }
}

/// Requires a non-empty list of non-blank texts.
pub fn require_texts(values: &Vec<String>, field: &'static str) -> (r: Result<(), ConstructionProjectError>)
    ensures
        texts_list_result(values@, field, r),
{
    if values.len() == 0 {
        return Err(ConstructionProjectError::EmptyCollection(field));
    }
    let mut i: usize = 0;
    while i < values.len()
        invariant
            i <= values@.len(),
            forall|j: int| 0 <= j < i ==> !is_blank((#[trigger] values@[j])@),
        decreases values.len() - i,
    {
        require_text(values[i].as_str(), field)?;
        i = i + 1;
    }
    Ok(())
}

/// Requires at least one reference.
pub fn require_refs(values: &Vec<ExternalRef>, field: &'static str) -> (r: Result<(), ConstructionProjectError>)
    ensures
        values@.len() == 0 ==> r == Err::<(), ConstructionProjectError>(ConstructionProjectError::EmptyCollection(field)),
        values@.len() > 0 ==> r is Ok,
{
    if values.len() == 0 {
        Err(ConstructionProjectError::EmptyCollection(field))
    } else {
        Ok(())
    }
}

/// Construction project charter.
#[derive(Debug, PartialEq, Eq)]
pub struct ProjectCharter {
    /// Stable project identity.
    pub project: ProjectId,
    /// Stable control identity for this charter.
    pub control: ControlId,
    /// Optional accepted baseline identity for this charter.
    pub baseline: Option<BaselineId>,
    /// Human-facing project name for reports and packs.
    pub name: String,
    /// Customer outcome captured for the project.
    pub customer_outcome: String,
    /// Property-side constraints that shape the project.
    pub property_constraints: Vec<String>,
    /// Product or delivery constraints that shape the project.
    pub product_constraints: Vec<String>,
    /// Procurement form or collaboration frame.
    pub procurement_form: String,
    /// Exact project currency.
    pub currency: CurrencyCode,
    /// Project objectives.
    pub objectives: Vec<String>,
    /// Project non-negotiables.
    pub non_negotiables: Vec<String>,
    /// Target outcomes used to judge the project.
    pub target_outcomes: Vec<String>,
    /// Reference criteria for candidate reference projects.
    pub reference_criteria: Vec<String>,
    /// Reporting cadence for control summaries.
    pub reporting_cadence: ReportingCadence,
    /// Role that accepts the charter.
    pub accepted_by: Option<RoleId>,
    /// Calendar date when the charter is accepted.
    pub accepted_on: Option<ProjectDate>,
    /// Disclosure visibility for the charter record.
    pub visibility: Visibility,
    /// Reference-only evidence supporting the charter.
    pub source_refs: Vec<ExternalRef>,
}

/// The charter content checks, in the order `validate` makes them.
pub open spec fn charter_valid(c: ProjectCharter) -> bool {
    &&& !is_blank(c.name@)
    &&& !is_blank(c.customer_outcome@)
    &&& !is_blank(c.procurement_form@)
    &&& texts_list_result(c.property_constraints@, "property_constraints", Ok(()))
    &&& texts_list_result(c.product_constraints@, "product_constraints", Ok(()))
    &&& texts_list_result(c.non_negotiables@, "non_negotiables", Ok(()))
    &&& texts_list_result(c.target_outcomes@, "target_outcomes", Ok(()))
    &&& texts_list_result(c.reference_criteria@, "reference_criteria", Ok(()))
    &&& c.objectives@.len() > 0
    &&& texts_list_result(c.objectives@, "objectives", Ok(()))
    &&& c.source_refs@.len() > 0
}

/// The error `validate` reports: the first failed check.
pub open spec fn charter_error(c: ProjectCharter, e: ConstructionProjectError) -> bool {
    let r = Err::<(), ConstructionProjectError>(e);
    if is_blank(c.name@) {
        text_result(c.name@, "name", r)
    } else if is_blank(c.customer_outcome@) {
        text_result(c.customer_outcome@, "customer_outcome", r)
    } else if is_blank(c.procurement_form@) {
        text_result(c.procurement_form@, "procurement_form", r)
    } else if !texts_list_result(c.property_constraints@, "property_constraints", Ok(())) {
        texts_list_result(c.property_constraints@, "property_constraints", r)
    } else if !texts_list_result(c.product_constraints@, "product_constraints", Ok(())) {
        texts_list_result(c.product_constraints@, "product_constraints", r)
    } else if !texts_list_result(c.non_negotiables@, "non_negotiables", Ok(())) {
        texts_list_result(c.non_negotiables@, "non_negotiables", r)
    } else if !texts_list_result(c.target_outcomes@, "target_outcomes", Ok(())) {
        texts_list_result(c.target_outcomes@, "target_outcomes", r)
    } else if !texts_list_result(c.reference_criteria@, "reference_criteria", Ok(())) {
        texts_list_result(c.reference_criteria@, "reference_criteria", r)
    } else if c.objectives@.len() == 0 {
        e == ConstructionProjectError::EmptyObjectives
    } else if !texts_list_result(c.objectives@, "objectives", Ok(())) {
        texts_list_result(c.objectives@, "objectives", r)
    } else {
        e == ConstructionProjectError::EmptyCollection("source_refs")
    }
}

impl ProjectCharter {
    /// Starts a charter with required identity, name, and currency.
    pub fn new(project: ProjectId, control: ControlId, name: &str, currency: CurrencyCode) -> (c: Self)
        ensures
            c.project == project,
            c.control == control,
            c.baseline is None,
            c.name@ == name@,
            c.customer_outcome@.len() == 0,
            c.property_constraints@.len() == 0,
            c.product_constraints@.len() == 0,
            c.procurement_form@.len() == 0,
            c.currency == currency,
            c.objectives@.len() == 0,
            c.non_negotiables@.len() == 0,
            c.target_outcomes@.len() == 0,
            c.reference_criteria@.len() == 0,
            c.reporting_cadence.label@ == "weekly"@,
            c.reporting_cadence.interval_days == 7,
            c.accepted_by is None,
            c.accepted_on is None,
            c.visibility == Visibility::Project,
            c.source_refs@.len() == 0,
    {
        ProjectCharter {
            project,
            control,
            baseline: None,
            name: name.to_owned(),
            customer_outcome: String::new(),
            property_constraints: Vec::new(),
            product_constraints: Vec::new(),
            procurement_form: String::new(),
            currency,
            objectives: Vec::new(),
            non_negotiables: Vec::new(),
            target_outcomes: Vec::new(),
            reference_criteria: Vec::new(),
            reporting_cadence: ReportingCadence::weekly(),
            accepted_by: None,
            accepted_on: None,
            visibility: Visibility::Project,
            source_refs: Vec::new(),
        }
    }

    /// Sets the accepted baseline identity.
    pub fn with_baseline(self, baseline: BaselineId) -> (c: Self)
        ensures
            c == (ProjectCharter { baseline: Some(baseline), ..self }),
    {
        let mut c = self;
        c.baseline = Some(baseline);
        c
    }

    /// Sets the customer outcome statement.
    pub fn with_customer_outcome(self, outcome: &str) -> (c: Self)
        ensures
            c.customer_outcome@ == outcome@,
            c == (ProjectCharter { customer_outcome: c.customer_outcome, ..self }),
    {
        let mut c = self;
        c.customer_outcome = outcome.to_owned();
        c
    }

    /// Sets the customer outcome statement.
    pub fn with_customer_intent(self, intent: &str) -> (c: Self)
        ensures
            c.customer_outcome@ == intent@,
            c == (ProjectCharter { customer_outcome: c.customer_outcome, ..self }),
    {
        self.with_customer_outcome(intent)
    }

    /// Adds a property constraint.
    pub fn with_property_constraint(self, constraint: &str) -> (c: Self)
        ensures
            c.property_constraints@.len() == self.property_constraints@.len() + 1,
            c.property_constraints@.drop_last() == self.property_constraints@,
            c.property_constraints@.last()@ == constraint@,
            c == (ProjectCharter { property_constraints: c.property_constraints, ..self }),
    {
        let mut c = self;
        c.property_constraints.push(constraint.to_owned());
        proof { assert(c.property_constraints@.drop_last() =~= self.property_constraints@); }
        c
    }

    /// Adds a product constraint.
    pub fn with_product_constraint(self, constraint: &str) -> (c: Self)
        ensures
            c.product_constraints@.len() == self.product_constraints@.len() + 1,
            c.product_constraints@.drop_last() == self.product_constraints@,
            c.product_constraints@.last()@ == constraint@,
            c == (ProjectCharter { product_constraints: c.product_constraints, ..self }),
    {
        let mut c = self;
        c.product_constraints.push(constraint.to_owned());
        proof { assert(c.product_constraints@.drop_last() =~= self.product_constraints@); }
        c
    }

    /// Sets the procurement form.
    pub fn with_procurement_form(self, form: &str) -> (c: Self)
        ensures
            c.procurement_form@ == form@,
            c == (ProjectCharter { procurement_form: c.procurement_form, ..self }),
    {
        let mut c = self;
        c.procurement_form = form.to_owned();
        c
    }

    /// Sets the procurement form.
    pub fn with_delivery_model(self, model: &str) -> (c: Self)
        ensures
            c.procurement_form@ == model@,
            c == (ProjectCharter { procurement_form: c.procurement_form, ..self }),
    {
        self.with_procurement_form(model)
    }

    /// Adds a project objective.
    pub fn with_objective(self, objective: &str) -> (c: Self)
        ensures
            c.objectives@.len() == self.objectives@.len() + 1,
            c.objectives@.drop_last() == self.objectives@,
            c.objectives@.last()@ == objective@,
            c == (ProjectCharter { objectives: c.objectives, ..self }),
    {
        let mut c = self;
        c.objectives.push(objective.to_owned());
        proof { assert(c.objectives@.drop_last() =~= self.objectives@); }
        c
    }

    /// Adds a non-negotiable project condition.
    pub fn with_non_negotiable(self, condition: &str) -> (c: Self)
        ensures
            c.non_negotiables@.len() == self.non_negotiables@.len() + 1,
            c.non_negotiables@.drop_last() == self.non_negotiables@,
            c.non_negotiables@.last()@ == condition@,
            c == (ProjectCharter { non_negotiables: c.non_negotiables, ..self }),
    {
        let mut c = self;
        c.non_negotiables.push(condition.to_owned());
        proof { assert(c.non_negotiables@.drop_last() =~= self.non_negotiables@); }
        c
    }

    /// Adds a target outcome.
    pub fn with_target_outcome(self, outcome: &str) -> (c: Self)
        ensures
            c.target_outcomes@.len() == self.target_outcomes@.len() + 1,
            c.target_outcomes@.drop_last() == self.target_outcomes@,
            c.target_outcomes@.last()@ == outcome@,
            c == (ProjectCharter { target_outcomes: c.target_outcomes, ..self }),
    {
        let mut c = self;
        c.target_outcomes.push(outcome.to_owned());
        proof { assert(c.target_outcomes@.drop_last() =~= self.target_outcomes@); }
        c
    }

    /// Adds a reference criterion.
    pub fn with_reference_criterion(self, criterion: &str) -> (c: Self)
        ensures
            c.reference_criteria@.len() == self.reference_criteria@.len() + 1,
            c.reference_criteria@.drop_last() == self.reference_criteria@,
            c.reference_criteria@.last()@ == criterion@,
            c == (ProjectCharter { reference_criteria: c.reference_criteria, ..self }),
    {
        let mut c = self;
        c.reference_criteria.push(criterion.to_owned());
        proof { assert(c.reference_criteria@.drop_last() =~= self.reference_criteria@); }
        c
    }

    /// Sets the reporting cadence.
    pub fn with_reporting_cadence(self, cadence: ReportingCadence) -> (c: Self)
        ensures
            c == (ProjectCharter { reporting_cadence: cadence, ..self }),
    {
        let mut c = self;
        c.reporting_cadence = cadence;
        c
    }

    /// Sets the charter visibility.
    pub fn with_visibility(self, visibility: Visibility) -> (c: Self)
        ensures
            c == (ProjectCharter { visibility, ..self }),
    {
        let mut c = self;
        c.visibility = visibility;
        c
    }

    /// Marks the charter accepted by a role on a date.
    pub fn accepted_by(self, role: RoleId, accepted_on: ProjectDate) -> (c: Self)
        ensures
            c == (ProjectCharter { accepted_by: Some(role), accepted_on: Some(accepted_on), ..self }),
    {
        let mut c = self;
        c.accepted_by = Some(role);
        c.accepted_on = Some(accepted_on);
        c
    }

    /// Adds a reference-only source link.
    pub fn with_source_ref(self, source_ref: ExternalRef) -> (c: Self)
        ensures
            c.source_refs@ == self.source_refs@.push(source_ref),
            c == (ProjectCharter { source_refs: c.source_refs, ..self }),
    {
        let mut c = self;
        c.source_refs.push(source_ref);
        c
    }

    /// Adds a reference-only evidence link.
    pub fn with_evidence(self, evidence: ExternalRef) -> (c: Self)
        ensures
            c.source_refs@ == self.source_refs@.push(evidence),
            c == (ProjectCharter { source_refs: c.source_refs, ..self }),
    {
        self.with_source_ref(evidence)
    }

    /// Validates the charter content that must be stable before planning work.
    pub fn validate(&self) -> (r: Result<(), ConstructionProjectError>)
        ensures
            r is Ok <==> charter_valid(*self),
            r matches Err(e) ==> charter_error(*self, e),
    {
        require_text(self.name.as_str(), "name")?;
        require_text(self.customer_outcome.as_str(), "customer_outcome")?;
        require_text(self.procurement_form.as_str(), "procurement_form")?;
        require_texts(&self.property_constraints, "property_constraints")?;
        require_texts(&self.product_constraints, "product_constraints")?;
        require_texts(&self.non_negotiables, "non_negotiables")?;
        require_texts(&self.target_outcomes, "target_outcomes")?;
        require_texts(&self.reference_criteria, "reference_criteria")?;
        if self.objectives.len() == 0 {
            return Err(ConstructionProjectError::EmptyObjectives);
        }
        require_texts(&self.objectives, "objectives")?;
        require_refs(&self.source_refs, "source_refs")?;
        Ok(())
    }
}

} // verus!
