//! External field-item correlation into append-only project facts.

use vstd::prelude::*;
use crate::book::{append_check, ProjectBook};
use crate::date::ProjectDate;
use crate::error::ConstructionProjectError;
use crate::evidence::{EvidenceState, ExternalRef};
use crate::fact::{FactBody, ProjectFact};
use crate::field_item::{
    field_item_check, FieldItem, FieldItemKind, FieldItemReference, FieldItemState, FieldLane, FieldSeverity,
};
use crate::governance::{Symbol, Visibility};
use crate::identity::{ControlId, RoleId};
use crate::text::{chars_of, is_blank, text_is_blank, texts_equal};

verus! {

/// Backend namespace used for references into the kernel effect ledger.
pub const EFFECT_LEDGER_BACKEND: &'static str = "effect/ledger";

/// The project-control fields an import records: source correlation and
/// state, severity, lane, responsibility, due date, affected controls,
/// item state and waivability.
#[derive(Clone, Debug, PartialEq, Eq)]
pub struct FieldImportBody {
    /// Source namespace.
    pub source: String,
    /// Source-local item id.
    pub external_id: String,
    /// Source revision, when the source gives one.
    pub source_version: Option<String>,
    /// Bounded source workflow state.
    pub source_state: String,
    /// Consequence severity.
    pub severity: FieldSeverity,
    /// Project-control lane.
    pub lane: FieldLane,
    /// Role accountable for the next transition.
    pub responsible_role: RoleId,
    /// Due date, when the item has one.
    pub due_on: Option<ProjectDate>,
    /// Affected project controls.
    pub affected_controls: Vec<ControlId>,
    /// Item state.
    pub state: FieldItemState,
    /// Whether the governing requirement cannot be waived.
    pub non_waivable: bool,
}

/// Source-minimized field-item import.
///
/// The external system retains payloads, attachments, credentials, and URLs.
/// This record admits only stable correlation, bounded source state, the
/// project-control fields, and the effect-ledger reference for the read.
#[derive(Debug, PartialEq, Eq)]
pub struct FieldItemImport {
    /// Accountable project field item produced by the import.
    pub field_item: FieldItem,
    /// Stable source and external item id.
    pub source: FieldItemReference,
    /// Bounded source workflow state.
    pub source_state: String,
    /// Reference to the site operation in the kernel effect ledger.
    pub effect_ref: ExternalRef,
}

/// Result of importing an external field item into a project book.
#[derive(Clone, Copy, Debug, PartialEq, Eq, Structural)]
pub enum FieldItemImportOutcome {
    /// The source version, source state, and project-control fields were already imported.
    Duplicate {
        /// Existing fact sequence.
        existing_seq: u64,
    },
    /// A new fact was appended.
    Appended {
        /// Appended fact sequence.
        seq: u64,
        /// Prior import sequence superseded by a changed source or control state.
        supersedes: Option<u64>,
    },
}

/// The text of an optional string.
pub open spec fn opt_text(o: Option<String>) -> Option<Seq<char>> {
    match o {
        Some(s) => Some(s@),
        None => None,
    }
}

/// The texts of a list of control ids.
pub open spec fn id_texts(v: Seq<ControlId>) -> Seq<Seq<char>> {
    v.map_values(|c: ControlId| c@)
}

/// Two import bodies hold the same values.
pub open spec fn same_import_body(a: FieldImportBody, b: FieldImportBody) -> bool {
    &&& a.source@ == b.source@
    &&& a.external_id@ == b.external_id@
    &&& opt_text(a.source_version) == opt_text(b.source_version)
    &&& a.source_state@ == b.source_state@
    &&& a.severity == b.severity
    &&& a.lane == b.lane
    &&& a.responsible_role@ == b.responsible_role@
    &&& a.due_on == b.due_on
    &&& id_texts(a.affected_controls@) == id_texts(b.affected_controls@)
    &&& a.state == b.state
    &&& a.non_waivable == b.non_waivable
}

/// `b` holds the project-control fields of `imported`.
pub open spec fn body_of_import(b: FieldImportBody, imported: FieldItemImport) -> bool {
    let item = imported.field_item;
    &&& b.source@ == imported.source.source@
    &&& b.external_id@ == imported.source.external_id@
    &&& opt_text(b.source_version) == opt_text(imported.source.version)
    &&& b.source_state@ == imported.source_state@
    &&& b.severity == item.severity
    &&& b.lane == item.lane
    &&& b.responsible_role@ == item.responsible_role@
    &&& b.due_on == item.due_on
    &&& id_texts(b.affected_controls@) == id_texts(item.affected_control_ids@)
    &&& b.state == item.state
    &&& b.non_waivable == item.non_waivable
}

/// A character allowed in a source workflow state.
pub open spec fn state_char_ok(c: char) -> bool {
    ||| ('a' <= c && c <= 'z')
    ||| ('A' <= c && c <= 'Z')
    ||| ('0' <= c && c <= '9')
    ||| c == '-' || c == '_' || c == '.' || c == ':'
}

/// A source state of 1 to 64 allowed ASCII characters.
pub open spec fn source_state_ok(s: Seq<char>) -> bool {
    &&& 0 < s.len() <= 64
    &&& forall|i: int| 0 <= i < s.len() ==> state_char_ok(#[trigger] s[i])
}

/// What validating an import of `item` with source state `state` and
/// effect-ledger reference `effect` answers: the first failed check in the
/// order item kind, field item, source state, effect-ledger reference.
pub open spec fn import_fields_check(
    item: FieldItem,
    state: Seq<char>,
    effect: ExternalRef,
    r: Result<(), ConstructionProjectError>,
) -> bool {
    if item.kind != FieldItemKind::ExternalReference {
        r == Err::<(), ConstructionProjectError>(ConstructionProjectError::EmptyField("field_item_import.external_reference_kind"))
    } else if !field_item_check(item, Ok(())) {
        field_item_check(item, r)
    } else if !source_state_ok(state) {
        r == Err::<(), ConstructionProjectError>(ConstructionProjectError::EmptyField("field_item_import.source_state"))
    } else if effect.backend@ != EFFECT_LEDGER_BACKEND@ || is_blank(effect.external_id@) || effect.web_url is Some {
        r == Err::<(), ConstructionProjectError>(ConstructionProjectError::EmptyField("field_item_import.effect_ref"))
    } else {
        r is Ok
    }
}

/// What validating import `i` answers.
pub open spec fn import_check(i: FieldItemImport, r: Result<(), ConstructionProjectError>) -> bool {
    import_fields_check(i.field_item, i.source_state@, i.effect_ref, r)
}

/// Fact `f` is an import of the item that `src` correlates: its kind is
/// `construction/field-item-import` and one of its references names the
/// source and external id.
pub open spec fn import_fact_for(f: ProjectFact, src: FieldItemReference) -> bool {
    &&& f.kind.namespace_view() == Some("construction"@)
    &&& f.kind.name_view() == "field-item-import"@
    &&& exists|i: int|
        0 <= i < f.evidence@.len() && (#[trigger] f.evidence@[i]).backend@ == src.source@ && f.evidence@[i].external_id@
            == src.external_id@
}

/// Position of the latest import fact of `src` in `fs`.
pub open spec fn latest_import(fs: Seq<ProjectFact>, src: FieldItemReference) -> Option<int>
    decreases fs.len(),
{
    if fs.len() == 0 {
        None
    } else if import_fact_for(fs.last(), src) {
        Some(fs.len() - 1)
    } else {
        latest_import(fs.drop_last(), src)
    }
}

/// The sequence of the latest import of `src` in `fs`, which a new import corrects.
pub open spec fn import_supersedes(fs: Seq<ProjectFact>, src: FieldItemReference) -> Option<u64> {
    match latest_import(fs, src) {
        Some(k) => Some(fs[k].seq),
        None => None,
    }
}

/// The fact an import appends to a book of `project` written by `writer`,
/// correcting `supersedes`.
pub open spec fn imported_fact(
    f: ProjectFact,
    book: ProjectBook,
    imported: FieldItemImport,
    next_seq: u64,
    effective_on: ProjectDate,
    supersedes: Option<u64>,
) -> bool {
    let ev = f.evidence@;
    &&& f.seq == next_seq
    &&& f.project == book.project_spec()
    &&& f.subject == imported.field_item.control
    &&& f.kind.namespace_view() == Some("construction"@)
    &&& f.kind.name_view() == "field-item-import"@
    &&& f.effective_on == effective_on
    &&& f.actor_role == book.writer_spec()
    &&& f.supersedes == supersedes
    &&& f.visibility == Visibility::Project
    &&& (f.body matches FactBody::FieldImport(b) && body_of_import(b, imported))
    &&& ev.len() == 2
    &&& ev[0].backend@ == imported.source.source@
    &&& ev[0].external_id@ == imported.source.external_id@
    &&& ev[0].version == imported.source.version
    &&& ev[0].web_url is None
    &&& ev[1] == imported.effect_ref
    &&& f.evidence_state == EvidenceState::Reported
}

/// What importing `imported` into `book` answers, with `after` the book
/// afterwards: a refused import leaves the facts unchanged; an import whose
/// latest earlier import holds the same fields is a duplicate; otherwise a
/// `Reported` fact correcting that latest import is appended, or refused as
/// the book refuses it.
pub open spec fn import_result(
    book: ProjectBook,
    imported: FieldItemImport,
    next_seq: u64,
    effective_on: ProjectDate,
    r: Result<FieldItemImportOutcome, ConstructionProjectError>,
    after: ProjectBook,
) -> bool {
    let fs = book.facts_view();
    let e_only = match r {
        Ok(_) => Ok(()),
        Err(e) => Err(e),
    };
    if !import_check(imported, Ok(())) {
        import_check(imported, e_only) && after.facts_view() == fs
    } else if imported.field_item.project@ != book.project_spec()@ {
        &&& r matches Err(ConstructionProjectError::ProjectMismatch { expected, actual })
        &&& r->Err_0->ProjectMismatch_expected == book.project_spec()
        &&& r->Err_0->ProjectMismatch_actual == imported.field_item.project
        &&& after.facts_view() == fs
    } else if latest_import(fs, imported.source) matches Some(k) && fs[k].body matches FactBody::FieldImport(prior)
        && body_of_import(prior, imported) {
        r == Ok::<FieldItemImportOutcome, ConstructionProjectError>(
            FieldItemImportOutcome::Duplicate { existing_seq: fs[latest_import(fs, imported.source)->0].seq },
        ) && after.facts_view() == fs
    } else {
        let supersedes = import_supersedes(fs, imported.source);
        exists|f: ProjectFact|
            #[trigger] imported_fact(f, book, imported, next_seq, effective_on, supersedes) && if append_check(
                book.project_spec(),
                book.writer_spec(),
                book.max_facts_spec(),
                fs,
                f,
                Ok(()),
            ) {
                r == Ok::<FieldItemImportOutcome, ConstructionProjectError>(
                    FieldItemImportOutcome::Appended { seq: next_seq, supersedes },
                ) && after.facts_view() == fs.push(f)
            } else {
                r is Err && append_check(book.project_spec(), book.writer_spec(), book.max_facts_spec(), fs, f, e_only)
                    && after.facts_view() == fs
            }
    }
}

fn validate_source_state(state: &str) -> (r: Result<(), ConstructionProjectError>)
    ensures
        source_state_ok(state@) ==> r is Ok,
        !source_state_ok(state@) ==> r == Err::<(), ConstructionProjectError>(
            ConstructionProjectError::EmptyField("field_item_import.source_state"),
        ),
{
    let chars = chars_of(state);
    if chars.len() == 0 || chars.len() > 64 {
        return Err(ConstructionProjectError::EmptyField("field_item_import.source_state"));
    }
    let mut i: usize = 0;
    while i < chars.len()
        invariant
            chars@ == state@,
            i <= chars@.len(),
            forall|j: int| 0 <= j < i ==> state_char_ok(#[trigger] chars@[j]),
        decreases chars.len() - i,
    {
        let c = chars[i];
        if !(('a' <= c && c <= 'z') || ('A' <= c && c <= 'Z') || ('0' <= c && c <= '9') || c == '-' || c == '_' || c
            == '.' || c == ':') {
            return Err(ConstructionProjectError::EmptyField("field_item_import.source_state"));
        }
        i = i + 1;
    }
    Ok(())
}

impl FieldItemImport {
    /// Builds a minimized external field-item import.
    pub fn new(field_item: FieldItem, source: FieldItemReference, source_state: &str, effect_ref: ExternalRef) -> (r: Result<
        Self,
        ConstructionProjectError,
    >)
        ensures
            match r {
                Ok(v) => {
                    &&& v.field_item == field_item
                    &&& v.source == source
                    &&& v.source_state@ == source_state@
                    &&& v.effect_ref == effect_ref
                    &&& import_check(v, Ok(()))
                },
                Err(e) => import_fields_check(field_item, source_state@, effect_ref, Err(e)),
            },
    {
        let value = FieldItemImport { field_item, source, source_state: source_state.to_owned(), effect_ref };
        match value.validate() {
            Ok(()) => Ok(value),
            Err(e) => Err(e),
        }
    }

    /// Validates the import boundary.
    pub fn validate(&self) -> (r: Result<(), ConstructionProjectError>)
        ensures
            import_check(*self, r),
    {
        if self.field_item.kind != FieldItemKind::ExternalReference {
            return Err(ConstructionProjectError::EmptyField("field_item_import.external_reference_kind"));
        }
        match self.field_item.validate() {
            Ok(()) => {},
            Err(e) => {
                return Err(e);
            },
        }
        match validate_source_state(self.source_state.as_str()) {
            Ok(()) => {},
            Err(e) => {
                return Err(e);
            },
        }
        proof {
            reveal_strlit("effect/ledger");
        }
        if !texts_equal(self.effect_ref.backend.as_str(), EFFECT_LEDGER_BACKEND) || text_is_blank(
            self.effect_ref.external_id.as_str(),
        ) || self.effect_ref.web_url.is_some() {
            return Err(ConstructionProjectError::EmptyField("field_item_import.effect_ref"));
        }
        Ok(())
    }
}

fn copy_text(s: &String) -> (r: String)
    ensures
        r@ == s@,
{
    s.clone()
}

fn copy_opt_text(o: &Option<String>) -> (r: Option<String>)
    ensures
        opt_text(r) == opt_text(*o),
{
    match o {
        Some(s) => Some(copy_text(s)),
        None => None,
    }
}

/// The project-control fields of an import.
fn import_body(imported: &FieldItemImport) -> (b: FieldImportBody)
    ensures
        body_of_import(b, *imported),
{
    let item = &imported.field_item;
    let affected = item.affected_control_ids.clone();
    proof {
        assert(affected@ =~= item.affected_control_ids@);
    }
    FieldImportBody {
        source: copy_text(&imported.source.source),
        external_id: copy_text(&imported.source.external_id),
        source_version: copy_opt_text(&imported.source.version),
        source_state: copy_text(&imported.source_state),
        severity: item.severity,
        lane: item.lane,
        responsible_role: item.responsible_role.clone(),
        due_on: item.due_on,
        affected_controls: affected,
        state: item.state,
        non_waivable: item.non_waivable,
    }
}

fn same_opt_text(a: &Option<String>, b: &Option<String>) -> (r: bool)
    ensures
        r == (opt_text(*a) == opt_text(*b)),
{
    match (a, b) {
        (Some(x), Some(y)) => texts_equal(x.as_str(), y.as_str()),
        (None, None) => true,
        _ => false,
    }
}

fn same_ids(a: &Vec<ControlId>, b: &Vec<ControlId>) -> (r: bool)
    ensures
        r == (id_texts(a@) == id_texts(b@)),
{
    if a.len() != b.len() {
        proof {
            assert(id_texts(a@).len() != id_texts(b@).len());
        }
        return false;
    }
    let mut i: usize = 0;
    while i < a.len()
        invariant
            a@.len() == b@.len(),
            i <= a@.len(),
            forall|j: int| 0 <= j < i ==> (#[trigger] a@[j])@ == b@[j]@,
        decreases a.len() - i,
    {
        if !a[i].same(&b[i]) {
            proof {
                assert(id_texts(a@)[i as int] != id_texts(b@)[i as int]);
            }
            return false;
        }
        i = i + 1;
    }
    proof {
        assert(id_texts(a@) =~= id_texts(b@));
    }
    true
}

fn same_due(a: Option<ProjectDate>, b: Option<ProjectDate>) -> (r: bool)
    ensures
        r == (a == b),
{
    match (a, b) {
        (Some(x), Some(y)) => x.julian_day == y.julian_day,
        (None, None) => true,
        _ => false,
    }
}

/// Returns true when both import bodies hold the same values.
fn bodies_equal(a: &FieldImportBody, b: &FieldImportBody) -> (r: bool)
    ensures
        r == same_import_body(*a, *b),
{
    texts_equal(a.source.as_str(), b.source.as_str()) && texts_equal(a.external_id.as_str(), b.external_id.as_str())
        && same_opt_text(&a.source_version, &b.source_version) && texts_equal(
        a.source_state.as_str(),
        b.source_state.as_str(),
    ) && a.severity == b.severity && a.lane == b.lane && a.responsible_role.same(&b.responsible_role) && same_due(
        a.due_on,
        b.due_on,
    ) && same_ids(&a.affected_controls, &b.affected_controls) && a.state == b.state && a.non_waivable
        == b.non_waivable
}

#[verifier::loop_isolation(false)]
fn is_import_for(f: &ProjectFact, src: &FieldItemReference) -> (r: bool)
    ensures
        r == import_fact_for(*f, *src),
{
    if !f.kind.has_parts("construction", "field-item-import") {
        proof {
            reveal_strlit("construction");
            reveal_strlit("field-item-import");
        }
        return false;
    }
    proof {
        reveal_strlit("construction");
        reveal_strlit("field-item-import");
    }
    let mut i: usize = 0;
    while i < f.evidence.len()
        invariant
            i <= f.evidence@.len(),
            forall|j: int| 0 <= j < i ==> !((#[trigger] f.evidence@[j]).backend@ == src.source@ && f.evidence@[j].external_id@
                == src.external_id@),
        decreases f.evidence.len() - i,
    {
        if texts_equal(f.evidence[i].backend.as_str(), src.source.as_str()) && texts_equal(
            f.evidence[i].external_id.as_str(),
            src.external_id.as_str(),
        ) {
            return true;
        }
        i = i + 1;
    }
    false
}

/// Without import facts of `src` from position `i` on, the latest import
/// of `fs` is the latest import of its first `i` facts.
proof fn lemma_latest_prefix(fs: Seq<ProjectFact>, src: FieldItemReference, i: int)
    requires
        0 <= i <= fs.len(),
        forall|j: int| i <= j < fs.len() ==> !import_fact_for(#[trigger] fs[j], src),
    ensures
        latest_import(fs, src) == latest_import(fs.take(i), src),
    decreases fs.len() - i,
{
    if i < fs.len() {
        assert(fs.drop_last().take(i) =~= fs.take(i));
        assert(!import_fact_for(fs[fs.len() - 1], src));
        lemma_latest_prefix(fs.drop_last(), src, i);
    } else {
        assert(fs.take(i) =~= fs);
    }
}

/// The latest import lies inside the facts.
proof fn lemma_latest_bounds(fs: Seq<ProjectFact>, src: FieldItemReference)
    ensures
        latest_import(fs, src) matches Some(k) ==> 0 <= k < fs.len(),
    decreases fs.len(),
{
    if fs.len() > 0 && !import_fact_for(fs.last(), src) {
        lemma_latest_bounds(fs.drop_last(), src);
    }
}

/// Position of the latest import fact of `src` in the book.
fn current_import(book: &ProjectBook, src: &FieldItemReference) -> (r: Option<usize>)
    ensures
        match latest_import(book.facts_view(), *src) {
            Some(k) => r matches Some(j) && j == k && 0 <= k < book.facts_view().len(),
            None => r is None,
        },
{
    proof {
        lemma_latest_bounds(book.facts_view(), *src);
    }
    let facts = book.facts();
    let ghost fs = facts@;
    let mut i: usize = facts.len();
    while i > 0
        invariant
            fs == facts@,
            fs == book.facts_view(),
            latest_import(fs, *src) matches Some(k) ==> 0 <= k < fs.len(),
            i <= fs.len(),
            forall|j: int| i <= j < fs.len() ==> !import_fact_for(#[trigger] fs[j], *src),
        decreases i,
    {
        if is_import_for(&facts[i - 1], src) {
            proof {
                lemma_latest_prefix(fs, *src, i as int);
                assert(fs.take(i as int).last() == fs[i - 1]);
            }
            return Some(i - 1);
        }
        i = i - 1;
    }
    proof {
        lemma_latest_prefix(fs, *src, 0);
    }
    None
}

/// Imports one minimized external field item into the append-only fact book.
///
/// Import is idempotent for identical source and project-control state. A
/// changed source version, source state, or local control field becomes a
/// superseding fact. Imported facts remain `Reported`; source presence alone
/// never turns vendor data into accepted construction evidence.
pub fn import_field_item(book: &mut ProjectBook, next_seq: u64, effective_on: ProjectDate, imported: &FieldItemImport) -> (r:
    Result<FieldItemImportOutcome, ConstructionProjectError>)
    ensures
        import_result(*old(book), *imported, next_seq, effective_on, r, *final(book)),
        final(book).project_spec() == old(book).project_spec(),
        final(book).writer_spec() == old(book).writer_spec(),
        final(book).max_facts_spec() == old(book).max_facts_spec(),
        final(book).wf(),
{
    proof {
        use_type_invariant(&*book);
    }
    match imported.validate() {
        Ok(()) => {},
        Err(e) => {
            return Err(e);
        },
    }
    if !imported.field_item.project.same(book.project()) {
        return Err(ConstructionProjectError::ProjectMismatch {
            expected: book.project().clone(),
            actual: imported.field_item.project.clone(),
        });
    }
    let body = import_body(imported);
    let prior = current_import(book, &imported.source);
    let ghost fs = book.facts_view();
    match prior {
        Some(k) => {
            match &book.facts()[k].body {
                FactBody::FieldImport(p) => {
                    if bodies_equal(p, &body) {
                        return Ok(FieldItemImportOutcome::Duplicate { existing_seq: book.facts()[k].seq });
                    }
                },
                FactBody::Expression { .. } => {},
            }
        },
        None => {},
    }
    let supersedes = match prior {
        Some(k) => Some(book.facts()[k].seq),
        None => None,
    };
    let mut fact = ProjectFact::new(
        next_seq,
        book.project().clone(),
        imported.field_item.control.clone(),
        Symbol::qualified("construction", "field-item-import"),
        effective_on,
        book.authoritative_writer().clone(),
        FactBody::FieldImport(body),
    ).with_evidence(imported.source.as_external_ref()).with_evidence(imported.effect_ref.clone()).with_evidence_state(
        EvidenceState::Reported,
    );
    match supersedes {
        Some(p) => {
            fact = fact.supersedes(p);
        },
        None => {},
    }
    proof {
        reveal_strlit("construction");
        reveal_strlit("field-item-import");
    }
    let ghost f = fact;
    let ghost before = *book;
    match book.append(fact) {
        Ok(()) => {
            proof {
                assert(imported_fact(f, before, *imported, next_seq, effective_on, supersedes));
            }
            Ok(FieldItemImportOutcome::Appended { seq: next_seq, supersedes })
        },
        Err(e) => {
            proof {
                assert(imported_fact(f, before, *imported, next_seq, effective_on, supersedes));
            }
            Err(e)
        },
    }
}

/// Importing the same item twice in a row: once an import appended a fact,
/// importing it again answers a duplicate of that fact and leaves the book
/// unchanged.
pub proof fn lemma_import_idempotent(
    book0: ProjectBook,
    imported: FieldItemImport,
    first_seq: u64,
    first_on: ProjectDate,
    r1: Result<FieldItemImportOutcome, ConstructionProjectError>,
    book1: ProjectBook,
    second_seq: u64,
    second_on: ProjectDate,
    r2: Result<FieldItemImportOutcome, ConstructionProjectError>,
    book2: ProjectBook,
)
    requires
        import_result(book0, imported, first_seq, first_on, r1, book1),
        book1.project_spec() == book0.project_spec(),
        book1.writer_spec() == book0.writer_spec(),
        r1 matches Ok(FieldItemImportOutcome::Appended { .. }),
        import_result(book1, imported, second_seq, second_on, r2, book2),
    ensures
        r2 == Ok::<FieldItemImportOutcome, ConstructionProjectError>(
            FieldItemImportOutcome::Duplicate { existing_seq: first_seq },
        ),
        book2.facts_view() == book1.facts_view(),
{
    let fs = book0.facts_view();
    let supersedes = import_supersedes(fs, imported.source);
    let f = choose|f: ProjectFact| #[trigger] imported_fact(f, book0, imported, first_seq, first_on, supersedes) && if append_check(
        book0.project_spec(),
        book0.writer_spec(),
        book0.max_facts_spec(),
        fs,
        f,
        Ok(()),
    ) {
        r1 == Ok::<FieldItemImportOutcome, ConstructionProjectError>(
            FieldItemImportOutcome::Appended { seq: first_seq, supersedes },
        ) && book1.facts_view() == fs.push(f)
    } else {
        r1 is Err && append_check(book0.project_spec(), book0.writer_spec(), book0.max_facts_spec(), fs, f, match r1 {
            Ok(_) => Ok(()),
            Err(e) => Err(e),
        }) && book1.facts_view() == fs
    };
    let gs = fs.push(f);
    assert(gs.drop_last() =~= fs);
    assert(f.evidence@[0].backend@ == imported.source.source@);
    assert(import_fact_for(f, imported.source));
    assert(latest_import(gs, imported.source) == Some(fs.len() as int));
}

} // verus!
