//! Stable construction project-control identities.

use vstd::prelude::*;
use crate::error::ConstructionProjectError;
use crate::text::{char_is_whitespace, chars_of, has_white_space, unicode_white_space};

verus! {

/// Longest accepted identifier, in characters.
pub const MAX_ID_CHARS: usize = 96;

/// Characters accepted in an identifier: ASCII letters and digits, `-`, `_`, `.` and `:`.
pub open spec fn id_char_allowed(c: char) -> bool {
    ||| ('a' <= c && c <= 'z')
    ||| ('A' <= c && c <= 'Z')
    ||| ('0' <= c && c <= '9')
    ||| c == '-' || c == '_' || c == '.' || c == ':'
}

/// ASCII lower-casing of one character; other characters are unchanged.
pub open spec fn ascii_lower(c: char) -> char {
    if 'A' <= c && c <= 'Z' { ((c as u32) + 32) as char } else { c }
}

/// ASCII lower-casing of a text.
pub open spec fn ascii_lower_text(s: Seq<char>) -> Seq<char> {
    Seq::new(s.len(), |i: int| ascii_lower(s[i]))
}

/// Sentinel texts that can never be identifiers, compared case-insensitively.
pub open spec fn reserved_ids() -> Seq<Seq<char>> {
    seq![
        seq!['.'],
        seq!['.', '.'],
        seq!['-'],
        seq!['_'],
        seq!['n', 'o', 'n', 'e'],
        seq!['n', 'u', 'l', 'l'],
        seq!['n', 'i', 'l'],
        seq!['s', 'y', 's', 't', 'e', 'm'],
        seq!['u', 'n', 'k', 'n', 'o', 'w', 'n'],
    ]
}

/// Why an identifier text is refused, in the order the checks are made.
pub enum IdFault {
    Empty,
    TooLong,
    WhiteSpace,
    Slash,
    Reserved,
    Unsupported,
}

/// The first rule that the identifier text `s` breaks, if any.
pub open spec fn id_fault(s: Seq<char>) -> Option<IdFault> {
    if s.len() == 0 {
        Some(IdFault::Empty)
    } else if s.len() > MAX_ID_CHARS {
        Some(IdFault::TooLong)
    } else if has_white_space(s) {
        Some(IdFault::WhiteSpace)
    } else if s.contains('/') || s.contains('\\') {
        Some(IdFault::Slash)
    } else if reserved_ids().contains(ascii_lower_text(s)) {
        Some(IdFault::Reserved)
    } else if !(forall|i: int| 0 <= i < s.len() ==> id_char_allowed(#[trigger] s[i])) {
        Some(IdFault::Unsupported)
    } else {
        None
    }
}

/// The error reported for identifier kind `kind`, text `s` and rule `fault`.
pub open spec fn id_error_is(e: ConstructionProjectError, kind: &'static str, s: Seq<char>, fault: IdFault) -> bool {
    match fault {
        IdFault::Empty => e == ConstructionProjectError::EmptyId { kind },
        IdFault::TooLong => e matches ConstructionProjectError::IdTooLong { kind: k, value, max }
            && k == kind && value@ == s && max == MAX_ID_CHARS,
        IdFault::WhiteSpace => e matches ConstructionProjectError::WhitespaceAmbiguousId { kind: k, value }
            && k == kind && value@ == s,
        IdFault::Slash => e matches ConstructionProjectError::SlashBearingId { kind: k, value }
            && k == kind && value@ == s,
        IdFault::Reserved => e matches ConstructionProjectError::ReservedId { kind: k, value }
            && k == kind && value@ == s,
        IdFault::Unsupported => e matches ConstructionProjectError::UnsupportedIdCharacters { kind: k, value }
            && k == kind && value@ == s,
    }
}

/// The result of validating `s` as an identifier of kind `kind`.
pub open spec fn id_validation_result(r: Result<(), ConstructionProjectError>, kind: &'static str, s: Seq<char>) -> bool {
    match r {
        Ok(()) => id_fault(s) is None,
        Err(e) => id_fault(s) matches Some(f) && id_error_is(e, kind, s, f),
    }
}

fn reserved_table() -> (t: Vec<Vec<char>>)
    ensures
        t@.len() == reserved_ids().len(),
        forall|i: int| 0 <= i < t@.len() ==> (#[trigger] t@[i])@ == reserved_ids()[i],
{
    let t = vec![
        vec!['.'],
        vec!['.', '.'],
        vec!['-'],
        vec!['_'],
        vec!['n', 'o', 'n', 'e'],
        vec!['n', 'u', 'l', 'l'],
        vec!['n', 'i', 'l'],
        vec!['s', 'y', 's', 't', 'e', 'm'],
        vec!['u', 'n', 'k', 'n', 'o', 'w', 'n'],
    ];
    assert(t@[0]@ == reserved_ids()[0]);
    assert(t@[1]@ == reserved_ids()[1]);
    assert(t@[2]@ == reserved_ids()[2]);
    assert(t@[3]@ == reserved_ids()[3]);
    assert(t@[4]@ == reserved_ids()[4]);
    assert(t@[5]@ == reserved_ids()[5]);
    assert(t@[6]@ == reserved_ids()[6]);
    assert(t@[7]@ == reserved_ids()[7]);
    assert(t@[8]@ == reserved_ids()[8]);
    t
}

fn char_lower(c: char) -> (r: char)
    ensures
        r == ascii_lower(c),
{
    if 'A' <= c && c <= 'Z' {
        let n: u8 = (c as u8) + 32;
        n as char
    } else {
        c
    }
}

fn same_chars(a: &Vec<char>, b: &Vec<char>) -> (r: bool)
    ensures
        r == (a@ == b@),
{
    if a.len() != b.len() {
        return false;
    }
    let mut i: usize = 0;
    while i < a.len()
        invariant
            i <= a.len(),
            a.len() == b.len(),
            forall|j: int| 0 <= j < i ==> a@[j] == b@[j],
        decreases a.len() - i,
    {
        if a[i] != b[i] {
            return false;
        }
        i = i + 1;
    }
    assert(a@ =~= b@);
    true
}

/// Validates `value` as an identifier of kind `kind`.
#[verifier::loop_isolation(false)]
pub fn validate_id(kind: &'static str, value: &str) -> (r: Result<(), ConstructionProjectError>)
    ensures
        id_validation_result(r, kind, value@),
{
    let chars = chars_of(value);
    let n = chars.len();
    if n == 0 {
        return Err(ConstructionProjectError::EmptyId { kind });
    }
    if n > MAX_ID_CHARS {
        let owned = value.to_owned();
        return Err(ConstructionProjectError::IdTooLong { kind, value: owned, max: MAX_ID_CHARS });
    }
    let mut i: usize = 0;
    while i < n
        invariant
            i <= n,
            n == chars@.len(),
            chars@ == value@,
            forall|j: int| 0 <= j < i ==> !unicode_white_space(#[trigger] chars@[j]),
        decreases n - i,
    {
        if char_is_whitespace(chars[i]) {
            assert(has_white_space(value@)) by {
                assert(unicode_white_space(value@[i as int]));
            }
            let owned = value.to_owned();
            assert(owned@ == value@);
            assert(id_fault(value@) == Some(IdFault::WhiteSpace));
            let e = ConstructionProjectError::WhitespaceAmbiguousId { kind, value: owned };
            assert(id_error_is(e, kind, value@, IdFault::WhiteSpace));
            return Err(e);
        }
        i = i + 1;
    }
    assert(!has_white_space(value@));
    let mut i: usize = 0;
    while i < n
        invariant
            i <= n,
            n == chars@.len(),
            chars@ == value@,
            forall|j: int| 0 <= j < i ==> (#[trigger] chars@[j]) != '/' && chars@[j] != '\\',
        decreases n - i,
    {
        if chars[i] == '/' || chars[i] == '\\' {
            assert(value@.contains(chars@[i as int]));
            let owned = value.to_owned();
            assert(id_fault(value@) == Some(IdFault::Slash));
            return Err(ConstructionProjectError::SlashBearingId { kind, value: owned });
        }
        i = i + 1;
    }
    assert(!value@.contains('/') && !value@.contains('\\'));
    let mut lower: Vec<char> = Vec::new();
    let mut i: usize = 0;
    while i < n
        invariant
            i <= n,
            n == chars@.len(),
            chars@ == value@,
            lower@.len() == i,
            forall|j: int| 0 <= j < i ==> lower@[j] == ascii_lower(#[trigger] chars@[j]),
        decreases n - i,
    {
        lower.push(char_lower(chars[i]));
        i = i + 1;
    }
    assert(lower@ =~= ascii_lower_text(value@));
    let table = reserved_table();
    let mut k: usize = 0;
    while k < table.len()
        invariant
            k <= table@.len(),
            table@.len() == reserved_ids().len(),
            forall|i: int| 0 <= i < table@.len() ==> (#[trigger] table@[i])@ == reserved_ids()[i],
            lower@ == ascii_lower_text(value@),
            forall|j: int| 0 <= j < k ==> reserved_ids()[j] != lower@,
        decreases table.len() - k,
    {
        if same_chars(&table[k], &lower) {
            assert(reserved_ids()[k as int] == lower@);
            let owned = value.to_owned();
            assert(id_fault(value@) == Some(IdFault::Reserved));
            return Err(ConstructionProjectError::ReservedId { kind, value: owned });
        }
        k = k + 1;
    }
    assert(!reserved_ids().contains(ascii_lower_text(value@)));
    let mut i: usize = 0;
    while i < n
        invariant
            i <= n,
            n == chars@.len(),
            chars@ == value@,
            forall|j: int| 0 <= j < i ==> id_char_allowed(#[trigger] chars@[j]),
        decreases n - i,
    {
        let c = chars[i];
        let ok = ('a' <= c && c <= 'z') || ('A' <= c && c <= 'Z') || ('0' <= c && c <= '9')
            || c == '-' || c == '_' || c == '.' || c == ':';
        if !ok {
            assert(!id_char_allowed(value@[i as int]));
            let owned = value.to_owned();
            assert(id_fault(value@) == Some(IdFault::Unsupported));
            return Err(ConstructionProjectError::UnsupportedIdCharacters { kind, value: owned });
        }
        i = i + 1;
    }
    Ok(())
}

/// Stable construction project identifier.
#[derive(Debug, PartialEq, Eq, PartialOrd, Ord, Hash)]
pub struct ProjectId(String);

impl View for ProjectId {
    type V = Seq<char>;
    closed spec fn view(&self) -> Seq<char> { self.0@ }
}

impl Clone for ProjectId {
    fn clone(&self) -> (r: Self)
        ensures
            r == *self,
    {
        ProjectId(self.0.clone())
    }
}

impl ProjectId {
    /// Validates and builds the stable identifier.
    pub fn new(id: &str) -> (r: Result<Self, ConstructionProjectError>)
        ensures
            id_validation_result(match r { Ok(_) => Ok(()), Err(e) => Err(e) }, "project", id@),
            r matches Ok(v) ==> v@ == id@,
    {
        proof { reveal_strlit("project"); }
        match validate_id("project", id) {
            Ok(()) => Ok(ProjectId(id.to_owned())),
            Err(e) => Err(e),
        }
    }

    /// Borrows the identifier text.
    pub fn as_str(&self) -> (s: &str)
        ensures
            s@ == self@,
    {
        self.0.as_str()
    }

    /// Returns true when both identifiers hold the same text.
    pub fn same(&self, other: &ProjectId) -> (b: bool)
        ensures
            b == (self@ == other@),
    {
        self.0 == other.0
    }
}

/// Stable construction control identifier.
#[derive(Debug, PartialEq, Eq, PartialOrd, Ord, Hash)]
pub struct ControlId(String);

impl View for ControlId {
    type V = Seq<char>;
    closed spec fn view(&self) -> Seq<char> { self.0@ }
}

impl Clone for ControlId {
    fn clone(&self) -> (r: Self)
        ensures
            r == *self,
    {
        ControlId(self.0.clone())
    }
}

impl ControlId {
    /// Validates and builds the stable identifier.
    pub fn new(id: &str) -> (r: Result<Self, ConstructionProjectError>)
        ensures
            id_validation_result(match r { Ok(_) => Ok(()), Err(e) => Err(e) }, "control", id@),
            r matches Ok(v) ==> v@ == id@,
    {
        proof { reveal_strlit("control"); }
        match validate_id("control", id) {
            Ok(()) => Ok(ControlId(id.to_owned())),
            Err(e) => Err(e),
        }
    }

    /// Borrows the identifier text.
    pub fn as_str(&self) -> (s: &str)
        ensures
            s@ == self@,
    {
        self.0.as_str()
    }

    /// The control holding a baseline: baseline ids follow the same id rules.
    pub fn from_baseline(baseline: &BaselineId) -> (r: ControlId)
        ensures
            r@ == baseline@,
    {
        ControlId(baseline.as_str().to_owned())
    }

    /// Returns true when both identifiers hold the same text.
    pub fn same(&self, other: &ControlId) -> (b: bool)
        ensures
            b == (self@ == other@),
    {
        self.0 == other.0
    }
}

/// Stable accountable role identifier.
#[derive(Debug, PartialEq, Eq, PartialOrd, Ord, Hash)]
pub struct RoleId(String);

impl View for RoleId {
    type V = Seq<char>;
    closed spec fn view(&self) -> Seq<char> { self.0@ }
}

impl Clone for RoleId {
    fn clone(&self) -> (r: Self)
        ensures
            r == *self,
    {
        RoleId(self.0.clone())
    }
}

impl RoleId {
    /// Validates and builds the stable identifier.
    pub fn new(id: &str) -> (r: Result<Self, ConstructionProjectError>)
        ensures
            id_validation_result(match r { Ok(_) => Ok(()), Err(e) => Err(e) }, "role", id@),
            r matches Ok(v) ==> v@ == id@,
    {
        proof { reveal_strlit("role"); }
        match validate_id("role", id) {
            Ok(()) => Ok(RoleId(id.to_owned())),
            Err(e) => Err(e),
        }
    }

    /// Borrows the identifier text.
    pub fn as_str(&self) -> (s: &str)
        ensures
            s@ == self@,
    {
        self.0.as_str()
    }

    /// Returns true when both identifiers hold the same text.
    pub fn same(&self, other: &RoleId) -> (b: bool)
        ensures
            b == (self@ == other@),
    {
        self.0 == other.0
    }
}

/// Stable organization identifier for project governance records.
#[derive(Debug, PartialEq, Eq, PartialOrd, Ord, Hash)]
pub struct OrganizationId(String);

impl View for OrganizationId {
    type V = Seq<char>;
    closed spec fn view(&self) -> Seq<char> { self.0@ }
}

impl Clone for OrganizationId {
    fn clone(&self) -> (r: Self)
        ensures
            r == *self,
    {
        OrganizationId(self.0.clone())
    }
}

impl OrganizationId {
    /// Validates and builds the stable identifier.
    pub fn new(id: &str) -> (r: Result<Self, ConstructionProjectError>)
        ensures
            id_validation_result(match r { Ok(_) => Ok(()), Err(e) => Err(e) }, "organization", id@),
            r matches Ok(v) ==> v@ == id@,
    {
        proof { reveal_strlit("organization"); }
        match validate_id("organization", id) {
            Ok(()) => Ok(OrganizationId(id.to_owned())),
            Err(e) => Err(e),
        }
    }

    /// Borrows the identifier text.
    pub fn as_str(&self) -> (s: &str)
        ensures
            s@ == self@,
    {
        self.0.as_str()
    }

    /// Returns true when both identifiers hold the same text.
    pub fn same(&self, other: &OrganizationId) -> (b: bool)
        ensures
            b == (self@ == other@),
    {
        self.0 == other.0
    }
}

/// Stable project baseline identifier for accepted control states.
#[derive(Debug, PartialEq, Eq, PartialOrd, Ord, Hash)]
pub struct BaselineId(String);

impl View for BaselineId {
    type V = Seq<char>;
    closed spec fn view(&self) -> Seq<char> { self.0@ }
}

impl Clone for BaselineId {
    fn clone(&self) -> (r: Self)
        ensures
            r == *self,
    {
        BaselineId(self.0.clone())
    }
}

impl BaselineId {
    /// Validates and builds the stable identifier.
    pub fn new(id: &str) -> (r: Result<Self, ConstructionProjectError>)
        ensures
            id_validation_result(match r { Ok(_) => Ok(()), Err(e) => Err(e) }, "baseline", id@),
            r matches Ok(v) ==> v@ == id@,
    {
        proof { reveal_strlit("baseline"); }
        match validate_id("baseline", id) {
            Ok(()) => Ok(BaselineId(id.to_owned())),
            Err(e) => Err(e),
        }
    }

    /// Borrows the identifier text.
    pub fn as_str(&self) -> (s: &str)
        ensures
            s@ == self@,
    {
        self.0.as_str()
    }

    /// Returns true when both identifiers hold the same text.
    pub fn same(&self, other: &BaselineId) -> (b: bool)
        ensures
            b == (self@ == other@),
    {
        self.0 == other.0
    }
}

/// Stable change identity carried through one change chain.
#[derive(Debug, PartialEq, Eq, PartialOrd, Ord, Hash)]
pub struct ChangeId(String);

impl View for ChangeId {
    type V = Seq<char>;
    closed spec fn view(&self) -> Seq<char> { self.0@ }
}

impl Clone for ChangeId {
    fn clone(&self) -> (r: Self)
        ensures
            r == *self,
    {
        ChangeId(self.0.clone())
    }
}

impl ChangeId {
    /// Validates and builds the stable identifier.
    pub fn new(id: &str) -> (r: Result<Self, ConstructionProjectError>)
        ensures
            id_validation_result(match r { Ok(_) => Ok(()), Err(e) => Err(e) }, "change", id@),
            r matches Ok(v) ==> v@ == id@,
    {
        proof { reveal_strlit("change"); }
        match validate_id("change", id) {
            Ok(()) => Ok(ChangeId(id.to_owned())),
            Err(e) => Err(e),
        }
    }

    /// Borrows the identifier text.
    pub fn as_str(&self) -> (s: &str)
        ensures
            s@ == self@,
    {
        self.0.as_str()
    }

    /// Returns true when both identifiers hold the same text.
    pub fn same(&self, other: &ChangeId) -> (b: bool)
        ensures
            b == (self@ == other@),
    {
        self.0 == other.0
    }
}


} // verus!
