//! Governance records for construction project control.

use vstd::prelude::*;
use crate::error::ConstructionProjectError;
use crate::identity::{OrganizationId, ProjectId, RoleId};
use crate::text::{char_is_control, chars_of, concat_text, is_blank, text_is_blank, texts_equal, unicode_control};
use crate::order::{lemma_lex_irreflexive, lemma_lex_transitive, lex_lt, text_precedes};

verus! {

/// Symbolic name, plain (`name`) or qualified (`namespace/name`): its
/// parts and its qualified text.
#[derive(Debug, PartialEq, Eq, PartialOrd, Ord, Hash)]
pub struct Symbol {
    namespace: Option<String>,
    name: String,
    text: String,
}

impl View for Symbol {
    type V = Seq<char>;
    closed spec fn view(&self) -> Seq<char> { self.text@ }
}

impl Clone for Symbol {
    fn clone(&self) -> (r: Self)
        ensures
            r == *self,
    {
        let namespace = match &self.namespace {
            Some(n) => Some(n.clone()),
            None => None,
        };
        Symbol { namespace, name: self.name.clone(), text: self.text.clone() }
    }
}

/// A symbol part that is non-empty, holds no `/` and no control character.
pub open spec fn symbol_part_printable(s: Seq<char>) -> bool {
    &&& s.len() > 0
    &&& !s.contains('/')
    &&& forall|i: int| 0 <= i < s.len() ==> !unicode_control(#[trigger] s[i])
}

/// The name and, when present, the namespace are printable parts.
pub open spec fn symbol_unambiguous(namespace: Option<Seq<char>>, name: Seq<char>) -> bool {
    &&& symbol_part_printable(name)
    &&& (namespace matches Some(n) ==> symbol_part_printable(n))
}

fn part_printable(part: &str) -> (b: bool)
    ensures
        b == symbol_part_printable(part@),
{
    let chars = chars_of(part);
    if chars.len() == 0 {
        return false;
    }
    let mut i: usize = 0;
    while i < chars.len()
        invariant
            chars@ == part@,
            i <= chars@.len(),
            forall|j: int| 0 <= j < i ==> chars@[j] != '/' && !unicode_control(#[trigger] chars@[j]),
        decreases chars.len() - i,
    {
        if chars[i] == '/' || char_is_control(chars[i]) {
            proof {
                if chars[i as int] == '/' {
                    assert(part@.contains('/')) by {
                        assert(part@[i as int] == '/');
                    }
                }
            }
            return false;
        }
        i = i + 1;
    }
    proof {
        if part@.contains('/') {
            let k = choose|k: int| 0 <= k < part@.len() && part@[k] == '/';
            assert(chars@[k] != '/');
        }
    }
    true
}

/// Two symbols have the same namespace and name.
pub open spec fn same_symbol(a: Symbol, b: Symbol) -> bool {
    a.namespace_view() == b.namespace_view() && a.name_view() == b.name_view()
}

impl Symbol {
    /// The namespace part, when the symbol is qualified.
    pub closed spec fn namespace_view(&self) -> Option<Seq<char>> {
        match self.namespace {
            Some(n) => Some(n@),
            None => None,
        }
    }

    /// The name part.
    pub closed spec fn name_view(&self) -> Seq<char> {
        self.name@
    }

    /// Builds a plain symbol.
    pub fn new(name: &str) -> (s: Symbol)
        ensures
            s@ == name@,
            s.name_view() == name@,
            s.namespace_view() is None,
    {
        Symbol { namespace: None, name: name.to_owned(), text: name.to_owned() }
    }

    /// Builds a qualified symbol `namespace/name`.
    pub fn qualified(namespace: &str, name: &str) -> (s: Symbol)
        ensures
            s@ == namespace@ + seq!['/'] + name@,
            s.name_view() == name@,
            s.namespace_view() == Some(namespace@),
    {
        let head = concat_text(namespace, "/");
        proof {
            reveal_strlit("/");
        }
        Symbol { namespace: Some(namespace.to_owned()), name: name.to_owned(), text: concat_text(head.as_str(), name) }
    }

    /// The qualified text of the symbol.
    pub fn as_qualified_str(&self) -> (r: &str)
        ensures
            r@ == self@,
    {
        self.text.as_str()
    }

    /// Returns true when the symbol is `namespace/name` by its parts.
    pub fn has_parts(&self, namespace: &str, name: &str) -> (b: bool)
        ensures
            b == (self.namespace_view() == Some(namespace@) && self.name_view() == name@),
    {
        match &self.namespace {
            Some(n) => texts_equal(n.as_str(), namespace) && texts_equal(self.name.as_str(), name),
            None => false,
        }
    }

    /// Returns true when both symbols have the same namespace and name.
    pub fn same(&self, other: &Symbol) -> (b: bool)
        ensures
            b == same_symbol(*self, *other),
    {
        let same_namespace = match (&self.namespace, &other.namespace) {
            (Some(a), Some(b)) => texts_equal(a.as_str(), b.as_str()),
            (None, None) => true,
            _ => false,
        };
        same_namespace && texts_equal(self.name.as_str(), other.name.as_str())
    }

    /// Returns true when the name and any namespace are non-empty and hold
    /// neither a `/` nor a control character.
    pub fn is_unambiguous(&self) -> (b: bool)
        ensures
            b == symbol_unambiguous(self.namespace_view(), self.name_view()),
    {
        let name_ok = part_printable(self.name.as_str());
        match &self.namespace {
            Some(n) => name_ok && part_printable(n.as_str()),
            None => name_ok,
        }
    }
}

/// Disclosure visibility for project-control records.
#[derive(Debug, PartialEq, Eq)]
pub enum Visibility {
    /// Visible within the project control group.
    Project,
    /// Visible to customer-side participants.
    Customer,
    /// Visible to supplier-side participants.
    Supplier,
    /// Visible when evaluating reference candidacy.
    ReferenceCandidate,
    /// Visible only under a named restricted policy.
    Restricted(Symbol),
}

impl Clone for Visibility {
    fn clone(&self) -> (r: Self)
        ensures
            r == *self,
    {
        match self {
            Visibility::Project => Visibility::Project,
            Visibility::Customer => Visibility::Customer,
            Visibility::Supplier => Visibility::Supplier,
            Visibility::ReferenceCandidate => Visibility::ReferenceCandidate,
            Visibility::Restricted(s) => Visibility::Restricted(s.clone()),
        }
    }
}

/// Stable label of a visibility.
pub open spec fn visibility_label(v: Visibility) -> Seq<char> {
    match v {
        Visibility::Project => "project"@,
        Visibility::Customer => "customer"@,
        Visibility::Supplier => "supplier"@,
        Visibility::ReferenceCandidate => "reference-candidate"@,
        Visibility::Restricted(s) => "restricted:"@ + s@,
    }
}

impl Visibility {
    /// Returns the stable visibility label.
    pub fn label(&self) -> (r: String)
        ensures
            r@ == visibility_label(*self),
    {
        match self {
            Visibility::Project => "project".to_owned(),
            Visibility::Customer => "customer".to_owned(),
            Visibility::Supplier => "supplier".to_owned(),
            Visibility::ReferenceCandidate => "reference-candidate".to_owned(),
            Visibility::Restricted(symbol) => concat_text("restricted:", symbol.as_qualified_str()),
        }
    }
}

/// Role assignment inside a construction project organization.
#[derive(Debug, PartialEq, Eq)]
pub struct RoleAssignment {
    /// Stable role identity.
    pub role: RoleId,
    /// Stable organization identity.
    pub organization: OrganizationId,
    /// Responsibilities carried by this role.
    pub responsibilities: Vec<String>,
    /// Decision kinds this role may decide.
    pub may_decide: Vec<Symbol>,
    /// Optional escalation role.
    pub escalates_to: Option<RoleId>,
    /// Disclosure visibility for the assignment.
    pub visibility: Visibility,
}

impl RoleAssignment {
    /// Starts a role assignment.
    pub fn new(role: RoleId, organization: OrganizationId, visibility: Visibility) -> (r: Self)
        ensures
            r.role == role,
            r.organization == organization,
            r.responsibilities@.len() == 0,
            r.may_decide@.len() == 0,
            r.escalates_to is None,
            r.visibility == visibility,
    {
        RoleAssignment {
            role,
            organization,
            responsibilities: Vec::new(),
            may_decide: Vec::new(),
            escalates_to: None,
            visibility,
        }
    }

    /// Adds a responsibility.
    pub fn with_responsibility(self, responsibility: &str) -> (r: Self)
        ensures
            r.responsibilities@.len() == self.responsibilities@.len() + 1,
            r.responsibilities@.drop_last() == self.responsibilities@,
            r.responsibilities@.last()@ == responsibility@,
            r.role == self.role,
            r.escalates_to == self.escalates_to,
            r.visibility == self.visibility,
            r.may_decide@ == self.may_decide@,
    {
        let mut r = self;
        r.responsibilities.push(responsibility.to_owned());
        proof {
            assert(r.responsibilities@.drop_last() =~= self.responsibilities@);
        }
        r
    }

    /// Adds a decision kind this role may decide.
    pub fn may_decide(self, decision: Symbol) -> (r: Self)
        ensures
            r.may_decide@ == self.may_decide@.push(decision),
            r.role == self.role,
            r.escalates_to == self.escalates_to,
            r.visibility == self.visibility,
            r.responsibilities@ == self.responsibilities@,
    {
        let mut r = self;
        r.may_decide.push(decision);
        r
    }

    /// Sets the escalation target.
    pub fn escalates_to(self, target: RoleId) -> (r: Self)
        ensures
            r.escalates_to == Some(target),
            r.role == self.role,
            r.visibility == self.visibility,
            r.responsibilities@ == self.responsibilities@,
            r.may_decide@ == self.may_decide@,
    {
        let mut r = self;
        r.escalates_to = Some(target);
        r
    }
}

/// Largest accepted day count for due windows and cadences.
pub const MAX_POLICY_DAYS: u16 = 366;

/// What `validate_day_count(field, days)` answers.
pub open spec fn day_count_result(field: &'static str, days: u16, r: Result<(), ConstructionProjectError>) -> bool {
    if days == 0 || days > MAX_POLICY_DAYS {
        r == Err::<(), ConstructionProjectError>(ConstructionProjectError::InvalidDueDatePolicy { field, max_days: MAX_POLICY_DAYS })
    } else {
        r is Ok
    }
}

/// Accepts day counts between 1 and 366.
pub fn validate_day_count(field: &'static str, days: u16) -> (r: Result<(), ConstructionProjectError>)
    ensures
        day_count_result(field, days, r),
{
    if days == 0 || days > MAX_POLICY_DAYS {
        Err(ConstructionProjectError::InvalidDueDatePolicy { field, max_days: MAX_POLICY_DAYS })
    } else {
        Ok(())
    }
}

/// Due-date policy for project governance decisions.
#[derive(Clone, Debug, PartialEq, Eq)]
pub struct DueDatePolicy {
    /// Normal due window in calendar days.
    pub response_days: u16,
    /// Extra days before escalation after a missed due date.
    pub escalation_grace_days: u16,
}

impl DueDatePolicy {
    /// Builds a due-date policy; both day counts must lie in `1..=366`.
    pub fn new(response_days: u16, escalation_grace_days: u16) -> (r: Result<Self, ConstructionProjectError>)
        ensures
            !(1 <= response_days <= MAX_POLICY_DAYS) ==> r == Err::<Self, ConstructionProjectError>(
                ConstructionProjectError::InvalidDueDatePolicy { field: "response_days", max_days: MAX_POLICY_DAYS },
            ),
            1 <= response_days <= MAX_POLICY_DAYS && !(1 <= escalation_grace_days <= MAX_POLICY_DAYS) ==> r
                == Err::<Self, ConstructionProjectError>(
                ConstructionProjectError::InvalidDueDatePolicy { field: "escalation_grace_days", max_days: MAX_POLICY_DAYS },
            ),
            1 <= response_days <= MAX_POLICY_DAYS && 1 <= escalation_grace_days <= MAX_POLICY_DAYS ==> r == Ok::<
                Self,
                ConstructionProjectError,
            >(DueDatePolicy { response_days, escalation_grace_days }),
    {
        match validate_day_count("response_days", response_days) {
            Ok(()) => {},
            Err(e) => return Err(e),
        }
        match validate_day_count("escalation_grace_days", escalation_grace_days) {
            Ok(()) => {},
            Err(e) => return Err(e),
        }
        Ok(DueDatePolicy { response_days, escalation_grace_days })
    }
}

/// Some symbol of `list` is `s`.
pub open spec fn symbols_hold(list: Seq<Symbol>, s: Symbol) -> bool {
    exists|i: int| 0 <= i < list.len() && same_symbol(#[trigger] list[i], s)
}

/// Disclosure policy for restricted project-control records.
#[derive(Debug, PartialEq, Eq)]
pub struct VisibilityPolicy {
    /// Default disclosure visibility.
    pub default_visibility: Visibility,
    /// Restricted visibility symbols permitted in this project.
    pub restricted: Vec<Symbol>,
}

/// Whether `policy` allows `v`: every unrestricted visibility, and the restricted ones it lists.
pub open spec fn policy_allows(policy: VisibilityPolicy, v: Visibility) -> bool {
    match v {
        Visibility::Restricted(s) => symbols_hold(policy.restricted@, s),
        _ => true,
    }
}

impl VisibilityPolicy {
    /// Builds a project-default visibility policy.
    pub fn project() -> (p: Self)
        ensures
            p.default_visibility == Visibility::Project,
            p.restricted@.len() == 0,
    {
        VisibilityPolicy { default_visibility: Visibility::Project, restricted: Vec::new() }
    }

    /// Adds an allowed restricted visibility symbol.
    pub fn with_restricted(self, symbol: Symbol) -> (p: Self)
        ensures
            p.default_visibility == self.default_visibility,
            p.restricted@ == self.restricted@.push(symbol),
    {
        let mut p = self;
        p.restricted.push(symbol);
        p
    }

    /// Returns whether the visibility is allowed by this policy.
    pub fn allows(&self, visibility: &Visibility) -> (b: bool)
        ensures
            b == policy_allows(*self, *visibility),
    {
        match visibility {
            Visibility::Restricted(symbol) => {
                let mut i: usize = 0;
                while i < self.restricted.len()
                    invariant
                        i <= self.restricted@.len(),
                        *visibility == Visibility::Restricted(*symbol),
                        forall|j: int| 0 <= j < i ==> !same_symbol(#[trigger] self.restricted@[j], *symbol),
                    decreases self.restricted.len() - i,
                {
                    if self.restricted[i].same(symbol) {
                        assert(symbols_hold(self.restricted@, *symbol));
                        return true;
                    }
                    i = i + 1;
                }
                false
            },
            _ => true,
        }
    }
}

/// Checks that `policy` allows `visibility`.
pub fn validate_visibility(policy: &VisibilityPolicy, visibility: &Visibility) -> (r: Result<(), ConstructionProjectError>)
    ensures
        r is Ok <==> policy_allows(*policy, *visibility),
        r matches Err(e) ==> (e matches ConstructionProjectError::RestrictedVisibilityDenied { symbol }
            && symbol@ == visibility_label(*visibility)),
{
    if policy.allows(visibility) {
        Ok(())
    } else {
        Err(ConstructionProjectError::RestrictedVisibilityDenied { symbol: visibility.label() })
    }
}

/// What checking a list of required texts answers: the list must be non-empty
/// and no entry blank.
pub open spec fn texts_result(values: Seq<String>, field: &'static str, r: Result<(), ConstructionProjectError>) -> bool {
    if values.len() == 0 {
        r == Err::<(), ConstructionProjectError>(ConstructionProjectError::EmptyCollection(field))
    } else if exists|i: int| 0 <= i < values.len() && is_blank((#[trigger] values[i])@) {
        r == Err::<(), ConstructionProjectError>(ConstructionProjectError::EmptyField(field))
    } else {
        r is Ok
    }
}

/// Requires a non-empty list of non-blank texts.
pub fn validate_texts(values: &Vec<String>, field: &'static str) -> (r: Result<(), ConstructionProjectError>)
    ensures
        texts_result(values@, field, r),
{
    if values.len() == 0 {
        return Err(ConstructionProjectError::EmptyCollection(field));
    }
    let mut i: usize = 0;
    while i < values.len()
        invariant
            i <= values@.len(),
            forall|j: int| 0 <= j < i ==> !is_blank((#[trigger] values@[j])@),
        decreases values.len() - i,
    {
        if text_is_blank(values[i].as_str()) {
            return Err(ConstructionProjectError::EmptyField(field));
        }
        i = i + 1;
    }
    Ok(())
}

/// Why a symbol part is refused: empty, or holding a control character.
pub open spec fn symbol_part_fault(s: Seq<char>) -> Option<Seq<char>> {
    if s.len() == 0 {
        Some("empty qualified symbol part"@)
    } else if exists|i: int| 0 <= i < s.len() && unicode_control(#[trigger] s[i]) {
        Some("symbol contains a control character"@)
    } else {
        None
    }
}

/// Accepts a non-empty symbol part without control characters.
pub fn validate_symbol_part(value: &str) -> (r: Result<(), String>)
    ensures
        match symbol_part_fault(value@) {
            None => r is Ok,
            Some(reason) => r matches Err(text) && text@ == reason,
        },
{
    let chars = chars_of(value);
    if chars.len() == 0 {
        return Err("empty qualified symbol part".to_owned());
    }
    let mut i: usize = 0;
    while i < chars.len()
        invariant
            chars@ == value@,
            i <= chars@.len(),
            forall|j: int| 0 <= j < i ==> !unicode_control(#[trigger] chars@[j]),
        decreases chars.len() - i,
    {
        if char_is_control(chars[i]) {
            return Err("symbol contains a control character".to_owned());
        }
        i = i + 1;
    }
    Ok(())
}

/// Ids of the roles in an assignment list.
pub open spec fn role_ids(roles: Seq<RoleAssignment>) -> Seq<Seq<char>> {
    roles.map_values(|a: RoleAssignment| a.role@)
}

/// The assignment list holds a role with id `x`.
pub open spec fn has_role(roles: Seq<RoleAssignment>, x: Seq<char>) -> bool {
    exists|i: int| 0 <= i < roles.len() && (#[trigger] roles[i]).role@ == x
}

/// Where role `x` escalates to, if it is listed and escalates.
pub open spec fn escalation_of(roles: Seq<RoleAssignment>, x: Seq<char>) -> Option<Seq<char>> {
    if has_role(roles, x) {
        match roles[choose|i: int| 0 <= i < roles.len() && (#[trigger] roles[i]).role@ == x].escalates_to {
            Some(t) => Some(t@),
            None => None,
        }
    } else {
        None
    }
}

/// The role reached after `k` escalation steps from `start`, if the chain is that long.
pub open spec fn escalation_walk(roles: Seq<RoleAssignment>, start: Seq<char>, k: nat) -> Option<Seq<char>>
    decreases k,
{
    if k == 0 {
        Some(start)
    } else {
        match escalation_walk(roles, start, (k - 1) as nat) {
            Some(x) => escalation_of(roles, x),
            None => None,
        }
    }
}

/// The escalation chain from `start` visits some role twice, so it never ends.
pub open spec fn escalation_repeats(roles: Seq<RoleAssignment>, start: Seq<char>) -> bool {
    exists|i: nat, j: nat| i < j && #[trigger] escalation_walk(roles, start, i) is Some && #[trigger] escalation_walk(roles, start, j)
        == escalation_walk(roles, start, i)
}

/// Role ids are unique and every escalation target is a listed role.
pub open spec fn roles_linked(roles: Seq<RoleAssignment>) -> bool {
    &&& forall|i: int, j: int| 0 <= i < j < roles.len() ==> (#[trigger] roles[i]).role@ != (#[trigger] roles[j]).role@
    &&& forall|i: int| 0 <= i < roles.len() ==> ((#[trigger] roles[i]).escalates_to matches Some(t) ==> has_role(roles, t@))
}

proof fn lemma_walk_stays_ended(roles: Seq<RoleAssignment>, start: Seq<char>, k: nat, j: nat)
    requires
        escalation_walk(roles, start, k) is None,
        k <= j,
    ensures
        escalation_walk(roles, start, j) is None,
    decreases j - k,
{
    if k < j {
        lemma_walk_stays_ended(roles, start, k, (j - 1) as nat);
    }
}

proof fn lemma_walk_listed(roles: Seq<RoleAssignment>, start: Seq<char>, k: nat)
    requires
        roles_linked(roles),
        has_role(roles, start),
        escalation_walk(roles, start, k) is Some,
    ensures
        has_role(roles, escalation_walk(roles, start, k)->0),
    decreases k,
{
    if k > 0 {
        lemma_walk_listed(roles, start, (k - 1) as nat);
        let x = escalation_walk(roles, start, (k - 1) as nat)->0;
        let i = choose|i: int| 0 <= i < roles.len() && (#[trigger] roles[i]).role@ == x;
        assert(roles[i].escalates_to is Some);
    }
}

fn find_role(roles: &Vec<RoleAssignment>, x: &RoleId) -> (r: Option<usize>)
    requires
        roles_linked(roles@),
    ensures
        r is None <==> !has_role(roles@, x@),
        r matches Some(i) ==> i < roles@.len() && roles@[i as int].role@ == x@ && escalation_of(roles@, x@) == match roles@[i as int].escalates_to {
            Some(t) => Some(t@),
            None => None::<Seq<char>>,
        },
{
    let mut i: usize = 0;
    while i < roles.len()
        invariant
            roles_linked(roles@),
            i <= roles@.len(),
            forall|j: int| 0 <= j < i ==> (#[trigger] roles@[j]).role@ != x@,
        decreases roles.len() - i,
    {
        if roles[i].role.same(x) {
            proof {
                let c = choose|c: int| 0 <= c < roles@.len() && (#[trigger] roles@[c]).role@ == x@;
                assert(c == i as int) by {
                    if c < i { assert(roles@[c].role@ != x@); }
                    if c > i { assert(roles@[i as int].role@ != roles@[c].role@); }
                }
            }
            return Some(i);
        }
        i = i + 1;
    }
    None
}

/// Walks the escalation chain from `start` and reports whether it revisits a role.
#[verifier::loop_isolation(false)]
fn walk_repeats(roles: &Vec<RoleAssignment>, start: &RoleId) -> (b: bool)
    requires
        roles_linked(roles@),
        has_role(roles@, start@),
    ensures
        b == escalation_repeats(roles@, start@),
{
    let ghost rs = roles@;
    let ghost pool = role_ids(rs);
    let mut seen: Vec<RoleId> = Vec::new();
    let mut cursor: RoleId = start.clone();
    loop
        invariant
            rs == roles@,
            pool == role_ids(rs),
            roles_linked(rs),
            has_role(rs, start@),
            forall|i: int| 0 <= i < seen@.len() ==> escalation_walk(rs, start@, i as nat) == Some((#[trigger] seen@[i])@),
            escalation_walk(rs, start@, seen@.len() as nat) == Some(cursor@),
            seen@.map_values(|r: RoleId| r@).no_duplicates(),
            seen@.map_values(|r: RoleId| r@).to_set().subset_of(pool.to_set()),
        decreases pool.len() - seen@.len(),
    {
        let ghost k = seen@.len() as nat;
        let ghost sv = seen@.map_values(|r: RoleId| r@);
        proof {
            sv.unique_seq_to_set();
            pool.lemma_cardinality_of_set();
            vstd::set_lib::lemma_len_subset(sv.to_set(), pool.to_set());
            lemma_walk_listed(rs, start@, k);
        }
        let i = find_role(roles, &cursor).unwrap();
        match &roles[i].escalates_to {
            None => {
                proof {
                    assert(escalation_walk(rs, start@, k + 1) is None);
                    assert forall|a: nat, b: nat| a < b && #[trigger] escalation_walk(rs, start@, a) is Some implies #[trigger] escalation_walk(rs, start@, b)
                        != escalation_walk(rs, start@, a) by {
                        if b > k {
                            lemma_walk_stays_ended(rs, start@, k + 1, b);
                        } else if b == k {
                            if escalation_walk(rs, start@, b) == escalation_walk(rs, start@, a) {
                                assert(escalation_walk(rs, start@, a + 1) == escalation_of(rs, cursor@));
                                if a + 1 < k {
                                    assert(escalation_walk(rs, start@, (a + 1) as nat) == Some(seen@[(a + 1) as int]@));
                                } else {
                                    assert(escalation_walk(rs, start@, k) == Some(cursor@));
                                }
                            }
                        } else {
                            if escalation_walk(rs, start@, b) == escalation_walk(rs, start@, a) {
                                assert(sv[a as int] == sv[b as int]);
                            }
                        }
                    }
                }
                return false;
            },
            Some(next) => {
                let mut j: usize = 0;
                while j < seen.len()
                    invariant
                        j <= seen@.len(),
                        forall|q: int| 0 <= q < j ==> (#[trigger] seen@[q])@ != cursor@,
                    decreases seen.len() - j,
                {
                    if seen[j].same(&cursor) {
                        proof {
                            assert(escalation_walk(rs, start@, j as nat) == Some(seen@[j as int]@));
                            assert(escalation_walk(rs, start@, k) == escalation_walk(rs, start@, j as nat));
                        }
                        return true;
                    }
                    j = j + 1;
                }
                let ghost cv = cursor@;
                let nxt = next.clone();
                proof {
                    assert(escalation_walk(rs, start@, k + 1) == Some(nxt@));
                    assert(pool.contains(cv)) by {
                        let c = choose|c: int| 0 <= c < rs.len() && (#[trigger] rs[c]).role@ == cv;
                        assert(pool[c] == cv);
                    }
                }
                seen.push(cursor);
                cursor = nxt;
                proof {
                    let nsv = seen@.map_values(|r: RoleId| r@);
                    assert(nsv =~= sv.push(cv));
                    assert forall|x: Seq<char>| nsv.to_set().contains(x) implies pool.to_set().contains(x) by {
                        let q = choose|q: int| 0 <= q < nsv.len() && nsv[q] == x;
                        if q < sv.len() {
                            assert(sv[q] == x);
                            assert(sv.to_set().contains(x));
                        }
                    }
                    assert forall|a: int, b: int| 0 <= a < nsv.len() && 0 <= b < nsv.len() && a != b implies nsv[a] != nsv[b] by {
                        if a < sv.len() && b < sv.len() {
                            assert(sv[a] != sv[b]);
                        } else if a < sv.len() {
                            assert(seen@[a]@ != cv);
                        } else if b < sv.len() {
                            assert(seen@[b]@ != cv);
                        }
                    }
                    nsv.unique_seq_to_set();
                    vstd::set_lib::lemma_len_subset(nsv.to_set(), pool.to_set());
                }
            },
        }
    }
}

/// No role's escalation chain revisits a role.
pub open spec fn escalation_acyclic(roles: Seq<RoleAssignment>) -> bool {
    forall|i: int| 0 <= i < roles.len() ==> !escalation_repeats(roles, (#[trigger] roles[i]).role@)
}

/// `e` names the role with the least id among those whose escalation chain loops.
pub open spec fn cycle_error(roles: Seq<RoleAssignment>, e: ConstructionProjectError) -> bool {
    exists|i: int| 0 <= i < roles.len() && escalation_repeats(roles, (#[trigger] roles[i]).role@)
        && (forall|j: int| 0 <= j < roles.len() && escalation_repeats(roles, (#[trigger] roles[j]).role@)
            ==> !lex_lt(roles[j].role@, roles[i].role@))
        && e == ConstructionProjectError::AuthorityCycle(roles[i].role)
}

/// Rejects escalation chains that never end, naming the role with the least
/// id among those whose chain loops.
pub fn validate_no_cycles(roles: &Vec<RoleAssignment>) -> (r: Result<(), ConstructionProjectError>)
    requires
        roles_linked(roles@),
    ensures
        r is Ok <==> escalation_acyclic(roles@),
        r matches Err(e) ==> cycle_error(roles@, e),
{
    let mut best: Option<usize> = None;
    let mut i: usize = 0;
    while i < roles.len()
        invariant
            roles_linked(roles@),
            i <= roles@.len(),
            best matches Some(b) ==> b < i && escalation_repeats(roles@, roles@[b as int].role@)
                && forall|j: int| 0 <= j < i && escalation_repeats(roles@, (#[trigger] roles@[j]).role@)
                    ==> !lex_lt(roles@[j].role@, roles@[b as int].role@),
            best is None ==> forall|j: int| 0 <= j < i ==> !escalation_repeats(roles@, (#[trigger] roles@[j]).role@),
        decreases roles.len() - i,
    {
        proof {
            assert(has_role(roles@, roles@[i as int].role@));
        }
        if walk_repeats(roles, &roles[i].role) {
            match best {
                None => {
                    proof {
                        lemma_lex_irreflexive(roles@[i as int].role@);
                    }
                    best = Some(i);
                },
                Some(b) => {
                    if text_precedes(roles[i].role.as_str(), roles[b].role.as_str()) {
                        proof {
                            lemma_lex_irreflexive(roles@[i as int].role@);
                            assert forall|j: int| 0 <= j < i + 1 && escalation_repeats(roles@, (#[trigger] roles@[j]).role@)
                                implies !lex_lt(roles@[j].role@, roles@[i as int].role@) by {
                                if j < i && lex_lt(roles@[j].role@, roles@[i as int].role@) {
                                    lemma_lex_transitive(roles@[j].role@, roles@[i as int].role@, roles@[b as int].role@);
                                }
                            }
                        }
                        best = Some(i);
                    }
                },
            }
        }
        i = i + 1;
    }
    match best {
        Some(b) => Err(ConstructionProjectError::AuthorityCycle(roles[b].role.clone())),
        None => Ok(()),
    }
}

/// Governance record for a construction project.
#[derive(Debug, PartialEq, Eq)]
pub struct ProjectGovernance {
    /// Stable project identity.
    pub project: ProjectId,
    /// Organization role assignments.
    pub roles: Vec<RoleAssignment>,
    /// Due-date policy for role-owned decisions.
    pub due_date_policy: DueDatePolicy,
    /// Disclosure visibility policy.
    pub visibility_policy: VisibilityPolicy,
}

/// Role `i` repeats the id of an earlier role.
pub open spec fn repeats_earlier_role(roles: Seq<RoleAssignment>, i: int) -> bool {
    exists|j: int| 0 <= j < i && (#[trigger] roles[j]).role@ == roles[i].role@
}

/// A non-empty list of non-blank texts.
pub open spec fn texts_ok(values: Seq<String>) -> bool {
    values.len() > 0 && forall|i: int| 0 <= i < values.len() ==> !is_blank((#[trigger] values[i])@)
}

/// Role `i` passes the per-role checks: a fresh id, stated responsibilities, allowed visibility.
pub open spec fn role_entry_ok(g: ProjectGovernance, i: int) -> bool {
    &&& !repeats_earlier_role(g.roles@, i)
    &&& texts_ok(g.roles@[i].responsibilities@)
    &&& policy_allows(g.visibility_policy, g.roles@[i].visibility)
}

/// Role `i` escalates, if at all, to a listed role.
pub open spec fn target_listed(roles: Seq<RoleAssignment>, i: int) -> bool {
    roles[i].escalates_to matches Some(t) ==> has_role(roles, t@)
}

/// A governance record that `validate` accepts.
pub open spec fn governance_valid(g: ProjectGovernance) -> bool {
    &&& g.roles@.len() > 0
    &&& policy_allows(g.visibility_policy, g.visibility_policy.default_visibility)
    &&& forall|i: int| 0 <= i < g.roles@.len() ==> #[trigger] role_entry_ok(g, i)
    &&& forall|i: int| 0 <= i < g.roles@.len() ==> #[trigger] target_listed(g.roles@, i)
    &&& escalation_acyclic(g.roles@)
}

/// The error `validate` reports for a record it refuses: the first failed check.
pub open spec fn governance_error(g: ProjectGovernance, e: ConstructionProjectError) -> bool {
    let roles = g.roles@;
    if roles.len() == 0 {
        e == ConstructionProjectError::EmptyCollection("roles")
    } else if !policy_allows(g.visibility_policy, g.visibility_policy.default_visibility) {
        e matches ConstructionProjectError::RestrictedVisibilityDenied { symbol }
            && symbol@ == visibility_label(g.visibility_policy.default_visibility)
    } else if exists|i: int| 0 <= i < roles.len() && !#[trigger] role_entry_ok(g, i) {
        exists|i: int| 0 <= i < roles.len() && !#[trigger] role_entry_ok(g, i)
            && (forall|j: int| 0 <= j < i ==> #[trigger] role_entry_ok(g, j)) && if repeats_earlier_role(roles, i) {
            e matches ConstructionProjectError::DuplicateId { kind, id } && kind == "role" && id@ == roles[i].role@
        } else if !texts_ok(roles[i].responsibilities@) {
            texts_result(roles[i].responsibilities@, "responsibilities", Err(e))
        } else {
            e matches ConstructionProjectError::RestrictedVisibilityDenied { symbol }
                && symbol@ == visibility_label(roles[i].visibility)
        }
    } else if exists|i: int| 0 <= i < roles.len() && !#[trigger] target_listed(roles, i) {
        exists|i: int| 0 <= i < roles.len() && !#[trigger] target_listed(roles, i)
            && (forall|j: int| 0 <= j < i ==> #[trigger] target_listed(roles, j))
            && e == ConstructionProjectError::MissingEscalationTarget { role: roles[i].role, target: roles[i].escalates_to->0 }
    } else {
        cycle_error(roles, e)
    }
}

impl ProjectGovernance {
    /// Starts a governance record.
    pub fn new(project: ProjectId, due_date_policy: DueDatePolicy) -> (g: Self)
        ensures
            g.project == project,
            g.roles@.len() == 0,
            g.due_date_policy == due_date_policy,
            g.visibility_policy.default_visibility == Visibility::Project,
            g.visibility_policy.restricted@.len() == 0,
    {
        ProjectGovernance { project, roles: Vec::new(), due_date_policy, visibility_policy: VisibilityPolicy::project() }
    }

    /// Sets the visibility policy.
    pub fn with_visibility_policy(self, policy: VisibilityPolicy) -> (g: Self)
        ensures
            g.project == self.project,
            g.roles@ == self.roles@,
            g.due_date_policy == self.due_date_policy,
            g.visibility_policy == policy,
    {
        let mut g = self;
        g.visibility_policy = policy;
        g
    }

    /// Adds a role assignment.
    pub fn with_role(self, role: RoleAssignment) -> (g: Self)
        ensures
            g.project == self.project,
            g.roles@ == self.roles@.push(role),
            g.due_date_policy == self.due_date_policy,
            g.visibility_policy == self.visibility_policy,
    {
        let mut g = self;
        g.roles.push(role);
        g
    }

    /// Validates role identities, escalation authority, and visibility policy.
    #[verifier::loop_isolation(false)]
    pub fn validate(&self) -> (r: Result<(), ConstructionProjectError>)
        ensures
            r is Ok <==> governance_valid(*self),
            r matches Err(e) ==> governance_error(*self, e),
    {
        let ghost g = *self;
        let ghost roles = self.roles@;
        if self.roles.len() == 0 {
            return Err(ConstructionProjectError::EmptyCollection("roles"));
        }
        validate_visibility(&self.visibility_policy, &self.visibility_policy.default_visibility)?;
        let mut i: usize = 0;
        while i < self.roles.len()
            invariant
                i <= roles.len(),
                forall|j: int| 0 <= j < i ==> #[trigger] role_entry_ok(g, j),
            decreases roles.len() - i,
        {
            let mut j: usize = 0;
            while j < i
                invariant
                    j <= i,
                    forall|q: int| 0 <= q < j ==> (#[trigger] roles[q]).role@ != roles[i as int].role@,
                decreases i - j,
            {
                if self.roles[j].role.same(&self.roles[i].role) {
                    proof {
                        assert(roles[j as int].role@ == roles[i as int].role@);
                        assert(repeats_earlier_role(roles, i as int));
                        assert(!role_entry_ok(g, i as int));
                    }
                    let text = self.roles[i].role.as_str().to_owned();
                    return Err(ConstructionProjectError::DuplicateId { kind: "role", id: text });
                }
                j = j + 1;
            }
            proof {
                assert(!repeats_earlier_role(roles, i as int));
            }
            match validate_texts(&self.roles[i].responsibilities, "responsibilities") {
                Ok(()) => {},
                Err(e) => {
                    proof {
                        assert(!texts_ok(roles[i as int].responsibilities@));
                        assert(!role_entry_ok(g, i as int));
                    }
                    return Err(e);
                },
            }
            match validate_visibility(&self.visibility_policy, &self.roles[i].visibility) {
                Ok(()) => {},
                Err(e) => {
                    proof {
                        assert(!role_entry_ok(g, i as int));
                    }
                    return Err(e);
                },
            }
            i = i + 1;
        }
        let mut i: usize = 0;
        while i < self.roles.len()
            invariant
                i <= roles.len(),
                forall|j: int| 0 <= j < roles.len() ==> #[trigger] role_entry_ok(g, j),
                forall|j: int| 0 <= j < i ==> #[trigger] target_listed(roles, j),
            decreases roles.len() - i,
        {
            match &self.roles[i].escalates_to {
                Some(target) => {
                    let mut found = false;
                    let mut q: usize = 0;
                    while q < self.roles.len()
                        invariant
                            q <= roles.len(),
                            found <==> exists|x: int| 0 <= x < q && (#[trigger] roles[x]).role@ == target@,
                        decreases roles.len() - q,
                    {
                        if self.roles[q].role.same(target) {
                            found = true;
                        }
                        q = q + 1;
                    }
                    if !found {
                        proof {
                            assert(!target_listed(roles, i as int));
                        }
                        return Err(ConstructionProjectError::MissingEscalationTarget {
                            role: self.roles[i].role.clone(),
                            target: target.clone(),
                        });
                    }
                },
                None => {},
            }
            i = i + 1;
        }
        proof {
            assert forall|a: int, b: int| 0 <= a < b < roles.len() implies (#[trigger] roles[a]).role@ != (#[trigger] roles[b]).role@ by {
                assert(role_entry_ok(g, b));
            }
            assert forall|a: int| 0 <= a < roles.len() implies ((#[trigger] roles[a]).escalates_to matches Some(t) ==> has_role(roles, t@)) by {
                assert(target_listed(roles, a));
            }
        }
        validate_no_cycles(&self.roles)
    }
}

} // verus!
