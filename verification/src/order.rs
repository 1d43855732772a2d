//! Stable text order for identifiers and the sorted identifier sets built on it.
//!
//! Identifiers are ordered as `String` orders them: character by character,
//! by code point, a proper prefix first.

use vstd::prelude::*;
use crate::identity::ControlId;
use crate::text::chars_of;

verus! {

/// Strict lexicographic order on texts by character code point.
pub open spec fn lex_lt(a: Seq<char>, b: Seq<char>) -> bool
    decreases a.len(),
{
    if a.len() == 0 {
        b.len() > 0
    } else if b.len() == 0 {
        false
    } else if a[0] < b[0] {
        true
    } else if a[0] > b[0] {
        false
    } else {
        lex_lt(a.drop_first(), b.drop_first())
    }
}

/// No text precedes itself.
pub proof fn lemma_lex_irreflexive(a: Seq<char>)
    ensures
        !lex_lt(a, a),
    decreases a.len(),
{
    if a.len() > 0 {
        lemma_lex_irreflexive(a.drop_first());
    }
}

/// The text order is transitive.
pub proof fn lemma_lex_transitive(a: Seq<char>, b: Seq<char>, c: Seq<char>)
    requires
        lex_lt(a, b),
        lex_lt(b, c),
    ensures
        lex_lt(a, c),
    decreases a.len(),
{
    if a.len() > 0 && b.len() > 0 && c.len() > 0 {
        if a[0] == b[0] && b[0] == c[0] {
            lemma_lex_transitive(a.drop_first(), b.drop_first(), c.drop_first());
        }
    }
}

/// Two different texts are ordered one way or the other.
pub proof fn lemma_lex_total(a: Seq<char>, b: Seq<char>)
    requires
        a != b,
    ensures
        lex_lt(a, b) || lex_lt(b, a),
    decreases a.len(),
{
    if a.len() > 0 && b.len() > 0 && a[0] == b[0] {
        if a.drop_first() == b.drop_first() {
            assert(a =~= seq![a[0]] + a.drop_first());
            assert(b =~= seq![b[0]] + b.drop_first());
        } else {
            lemma_lex_total(a.drop_first(), b.drop_first());
        }
    } else if a.len() == 0 && b.len() == 0 {
        assert(a =~= b);
    }
}

/// The text order is asymmetric.
pub proof fn lemma_lex_asymmetric(a: Seq<char>, b: Seq<char>)
    requires
        lex_lt(a, b),
    ensures
        !lex_lt(b, a),
{
    if lex_lt(b, a) {
        lemma_lex_transitive(a, b, a);
        lemma_lex_irreflexive(a);
    }
}

/// Returns true when text `a` precedes text `b`.
pub fn text_precedes(a: &str, b: &str) -> (r: bool)
    ensures
        r == lex_lt(a@, b@),
{
    let x = chars_of(a);
    let y = chars_of(b);
    let mut i: usize = 0;
    assert(a@.skip(0) =~= a@);
    assert(b@.skip(0) =~= b@);
    while i < x.len() && i < y.len()
        invariant
            x@ == a@,
            y@ == b@,
            i <= x.len(),
            i <= y.len(),
            lex_lt(a@, b@) == lex_lt(a@.skip(i as int), b@.skip(i as int)),
        decreases x.len() - i,
    {
        if x[i] < y[i] {
            return true;
        }
        if x[i] > y[i] {
            return false;
        }
        assert(a@.skip(i as int).drop_first() =~= a@.skip(i + 1));
        assert(b@.skip(i as int).drop_first() =~= b@.skip(i + 1));
        i = i + 1;
    }
    i < y.len()
}

/// Views of a sequence of control ids.
pub open spec fn id_views(s: Seq<ControlId>) -> Seq<Seq<char>> {
    s.map_values(|c: ControlId| c@)
}

/// A sequence of control ids is strictly increasing, so it holds no id twice.
pub open spec fn ids_sorted(s: Seq<ControlId>) -> bool {
    forall|i: int, j: int| 0 <= i < j < s.len() ==> lex_lt(#[trigger] s[i]@, #[trigger] s[j]@)
}

/// The set of identifier texts held by a sequence of ids.
pub open spec fn id_set(s: Seq<ControlId>) -> Set<Seq<char>> {
    id_views(s).to_set()
}

/// Returns true when `v` holds an id with the text of `x`.
pub fn contains_id(v: &Vec<ControlId>, x: &ControlId) -> (b: bool)
    ensures
        b == id_set(v@).contains(x@),
{
    let mut i: usize = 0;
    while i < v.len()
        invariant
            i <= v.len(),
            forall|j: int| 0 <= j < i ==> (#[trigger] v@[j])@ != x@,
        decreases v.len() - i,
    {
        if v[i].same(x) {
            assert(id_views(v@)[i as int] == x@);
            return true;
        }
        i = i + 1;
    }
    assert(!id_views(v@).contains(x@)) by {
        if id_views(v@).contains(x@) {
            let k = choose|k: int| 0 <= k < id_views(v@).len() && id_views(v@)[k] == x@;
            assert(v@[k]@ == x@);
        }
    }
    false
}

/// Inserts `x` into the sorted id list `v` unless its text is already present.
pub fn insert_id(v: &mut Vec<ControlId>, x: ControlId) -> (inserted: bool)
    requires
        ids_sorted(old(v)@),
    ensures
        ids_sorted(final(v)@),
        id_set(final(v)@) == id_set(old(v)@).insert(x@),
        inserted == !id_set(old(v)@).contains(x@),
        inserted ==> final(v)@.len() == old(v)@.len() + 1,
        !inserted ==> final(v)@ == old(v)@,
{
    let ghost old_v = v@;
    let mut i: usize = 0;
    while i < v.len() && text_precedes(v[i].as_str(), x.as_str())
        invariant
            v@ == old_v,
            ids_sorted(old_v),
            i <= v.len(),
            forall|j: int| 0 <= j < i ==> lex_lt((#[trigger] old_v[j])@, x@),
        decreases v.len() - i,
    {
        i = i + 1;
    }
    if i < v.len() && v[i].same(&x) {
        assert(id_views(old_v)[i as int] == x@);
        assert(id_set(old_v).insert(x@) =~= id_set(old_v));
        return false;
    }
    proof {
        assert forall|j: int| i <= j < old_v.len() implies lex_lt(x@, (#[trigger] old_v[j])@) by {
            assert(!lex_lt(old_v[i as int]@, x@));
            lemma_lex_total(old_v[i as int]@, x@);
            if j > i {
                lemma_lex_transitive(x@, old_v[i as int]@, old_v[j]@);
            }
        }
        assert forall|k: int| 0 <= k < old_v.len() implies (#[trigger] old_v[k])@ != x@ by {
            if k < i {
                lemma_lex_irreflexive(x@);
            } else {
                lemma_lex_irreflexive(x@);
            }
        }
    }
    let ghost xv = x@;
    v.insert(i, x);
    proof {
        let nv = v@;
        assert(nv =~= old_v.take(i as int).push(nv[i as int]) + old_v.skip(i as int));
        assert forall|a: int, b: int| 0 <= a < b < nv.len() implies lex_lt(#[trigger] nv[a]@, #[trigger] nv[b]@) by {
            if b < i {
                assert(nv[a] == old_v[a] && nv[b] == old_v[b]);
            } else if b == i {
                assert(nv[a] == old_v[a]);
            } else if a < i {
                assert(nv[a] == old_v[a] && nv[b] == old_v[b - 1]);
                lemma_lex_transitive(old_v[a]@, xv, old_v[b - 1]@);
            } else if a == i {
                assert(nv[b] == old_v[b - 1]);
            } else {
                assert(nv[a] == old_v[a - 1] && nv[b] == old_v[b - 1]);
            }
        }
        assert forall|t: Seq<char>| id_set(nv).contains(t) <==> id_set(old_v).insert(xv).contains(t) by {
            if id_set(nv).contains(t) {
                let k = choose|k: int| 0 <= k < id_views(nv).len() && id_views(nv)[k] == t;
                if k < i {
                    assert(id_views(old_v)[k] == t);
                } else if k > i {
                    assert(id_views(old_v)[k - 1] == t);
                }
            }
            if id_set(old_v).contains(t) {
                let k = choose|k: int| 0 <= k < id_views(old_v).len() && id_views(old_v)[k] == t;
                if k < i {
                    assert(id_views(nv)[k] == t);
                } else {
                    assert(id_views(nv)[k + 1] == t);
                }
            }
            if t == xv {
                assert(id_views(nv)[i as int] == t);
            }
        }
        assert(id_set(nv) =~= id_set(old_v).insert(xv));
        assert(!id_set(old_v).contains(xv)) by {
            if id_set(old_v).contains(xv) {
                let k = choose|k: int| 0 <= k < id_views(old_v).len() && id_views(old_v)[k] == xv;
                assert(old_v[k]@ == xv);
            }
        }
    }
    true
}


/// Views of a sequence of texts.
pub open spec fn text_views(s: Seq<String>) -> Seq<Seq<char>> {
    s.map_values(|t: String| t@)
}

/// A sequence of texts is strictly increasing, so it holds no text twice.
pub open spec fn texts_sorted(s: Seq<String>) -> bool {
    forall|i: int, j: int| 0 <= i < j < s.len() ==> lex_lt(#[trigger] s[i]@, #[trigger] s[j]@)
}

/// The set of texts held by a sequence.
pub open spec fn text_set(s: Seq<String>) -> Set<Seq<char>> {
    text_views(s).to_set()
}

/// Inserts `x` into the sorted text list `v` unless it is already present.
pub fn insert_text(v: &mut Vec<String>, x: String) -> (inserted: bool)
    requires
        texts_sorted(old(v)@),
    ensures
        texts_sorted(final(v)@),
        text_set(final(v)@) == text_set(old(v)@).insert(x@),
        inserted == !text_set(old(v)@).contains(x@),
{
    let ghost old_v = v@;
    let mut i: usize = 0;
    while i < v.len() && text_precedes(v[i].as_str(), x.as_str())
        invariant
            v@ == old_v,
            texts_sorted(old_v),
            i <= v.len(),
            forall|j: int| 0 <= j < i ==> lex_lt((#[trigger] old_v[j])@, x@),
        decreases v.len() - i,
    {
        i = i + 1;
    }
    if i < v.len() && crate::text::texts_equal(v[i].as_str(), x.as_str()) {
        assert(text_views(old_v)[i as int] == x@);
        assert(text_set(old_v).insert(x@) =~= text_set(old_v));
        return false;
    }
    proof {
        assert forall|j: int| i <= j < old_v.len() implies lex_lt(x@, (#[trigger] old_v[j])@) by {
            assert(!lex_lt(old_v[i as int]@, x@));
            lemma_lex_total(old_v[i as int]@, x@);
            if j > i {
                lemma_lex_transitive(x@, old_v[i as int]@, old_v[j]@);
            }
        }
        assert forall|k: int| 0 <= k < old_v.len() implies (#[trigger] old_v[k])@ != x@ by {
            lemma_lex_irreflexive(x@);
        }
    }
    let ghost xv = x@;
    v.insert(i, x);
    proof {
        let nv = v@;
        assert forall|a: int, b: int| 0 <= a < b < nv.len() implies lex_lt(#[trigger] nv[a]@, #[trigger] nv[b]@) by {
            if b < i {
                assert(nv[a] == old_v[a] && nv[b] == old_v[b]);
            } else if b == i {
                assert(nv[a] == old_v[a]);
            } else if a < i {
                assert(nv[a] == old_v[a] && nv[b] == old_v[b - 1]);
                lemma_lex_transitive(old_v[a]@, xv, old_v[b - 1]@);
            } else if a == i {
                assert(nv[b] == old_v[b - 1]);
            } else {
                assert(nv[a] == old_v[a - 1] && nv[b] == old_v[b - 1]);
            }
        }
        assert forall|t: Seq<char>| text_set(nv).contains(t) <==> text_set(old_v).insert(xv).contains(t) by {
            if text_set(nv).contains(t) {
                let k = choose|k: int| 0 <= k < text_views(nv).len() && text_views(nv)[k] == t;
                if k < i {
                    assert(text_views(old_v)[k] == t);
                } else if k > i {
                    assert(text_views(old_v)[k - 1] == t);
                }
            }
            if text_set(old_v).contains(t) {
                let k = choose|k: int| 0 <= k < text_views(old_v).len() && text_views(old_v)[k] == t;
                if k < i {
                    assert(text_views(nv)[k] == t);
                } else {
                    assert(text_views(nv)[k + 1] == t);
                }
            }
            if t == xv {
                assert(text_views(nv)[i as int] == t);
            }
        }
        assert(text_set(nv) =~= text_set(old_v).insert(xv));
        assert(!text_set(old_v).contains(xv)) by {
            if text_set(old_v).contains(xv) {
                let k = choose|k: int| 0 <= k < text_views(old_v).len() && text_views(old_v)[k] == xv;
                assert(old_v[k]@ == xv);
            }
        }
    }
    true
}

/// Position of the first of the first `n` keys equal to `x`.
pub open spec fn first_key(keys: Seq<Seq<char>>, x: Seq<char>, n: int) -> Option<int>
    decreases n,
{
    if n <= 0 {
        None
    } else {
        match first_key(keys, x, n - 1) {
            Some(k) => Some(k),
            None => if keys[n - 1] == x {
                Some(n - 1)
            } else {
                None
            },
        }
    }
}

/// Position of the first key equal to `x`.
pub open spec fn key_position(keys: Seq<Seq<char>>, x: Seq<char>) -> Option<int> {
    first_key(keys, x, keys.len() as int)
}

/// A first position, once found among the first `m` keys, stays the first
/// among the first `n >= m`, and lies below `m`.
pub proof fn lemma_first_key_stable(keys: Seq<Seq<char>>, x: Seq<char>, m: int, n: int)
    requires
        0 <= m <= n,
        first_key(keys, x, m) is Some,
    ensures
        first_key(keys, x, n) == first_key(keys, x, m),
        0 <= first_key(keys, x, n)->0 < m,
        keys[first_key(keys, x, m)->0] == x,
    decreases n - m,
{
    if m < n {
        lemma_first_key_stable(keys, x, m, n - 1);
    } else {
        lemma_first_key_below(keys, x, m);
    }
}

proof fn lemma_first_key_below(keys: Seq<Seq<char>>, x: Seq<char>, m: int)
    requires
        first_key(keys, x, m) is Some,
    ensures
        0 <= first_key(keys, x, m)->0 < m,
        keys[first_key(keys, x, m)->0] == x,
    decreases m,
{
    if m > 0 && first_key(keys, x, m - 1) is Some {
        lemma_first_key_below(keys, x, m - 1);
    }
}

/// No key among the first `n` equals `x` exactly when there is no first position.
pub proof fn lemma_first_key_none(keys: Seq<Seq<char>>, x: Seq<char>, n: int)
    requires
        0 <= n <= keys.len(),
    ensures
        first_key(keys, x, n) is None <==> forall|j: int| 0 <= j < n ==> keys[j] != x,
    decreases n,
{
    if n > 0 {
        lemma_first_key_none(keys, x, n - 1);
        if first_key(keys, x, n - 1) is Some {
            lemma_first_key_below(keys, x, n - 1);
        }
    }
}

/// The first of the first `n` positions at which `p` holds.
pub open spec fn first_where(p: spec_fn(int) -> bool, n: int) -> Option<int>
    decreases n,
{
    if n <= 0 {
        None
    } else {
        match first_where(p, n - 1) {
            Some(k) => Some(k),
            None => if p(n - 1) {
                Some(n - 1)
            } else {
                None
            },
        }
    }
}

/// Once found among the first `m` positions, the first position where `p`
/// holds stays the same among the first `n >= m`.
pub proof fn lemma_first_where_stable(p: spec_fn(int) -> bool, m: int, n: int)
    requires
        m <= n,
        first_where(p, m) is Some,
    ensures
        first_where(p, n) == first_where(p, m),
    decreases n - m,
{
    if m < n {
        lemma_first_where_stable(p, m, n - 1);
    }
}

/// The first position at which a key repeats an earlier key, among the first `n`.
pub open spec fn dup_position(keys: Seq<Seq<char>>, n: int) -> Option<int> {
    first_where(|i: int| first_key(keys, keys[i], i) is Some, n)
}

/// Returns the first position at which an id repeats an earlier id.
pub fn first_duplicate(ids: &Vec<ControlId>) -> (r: Option<usize>)
    ensures
        match dup_position(id_views(ids@), ids@.len() as int) {
            Some(k) => r matches Some(j) && j == k && 0 <= k < ids@.len(),
            None => r is None,
        },
{
    let ghost keys = id_views(ids@);
    let ghost p = |i: int| first_key(keys, keys[i], i) is Some;
    let mut i: usize = 0;
    while i < ids.len()
        invariant
            keys == id_views(ids@),
            p == (|i: int| first_key(keys, keys[i], i) is Some),
            i <= ids@.len(),
            first_where(p, i as int) is None,
        decreases ids.len() - i,
    {
        let mut j: usize = 0;
        while j < i && !ids[j].same(&ids[i])
            invariant
                keys == id_views(ids@),
                i < ids@.len(),
                j <= i,
                forall|t: int| 0 <= t < j ==> keys[t] != keys[i as int],
            decreases i - j,
        {
            j = j + 1;
        }
        let found = j < i;
        proof {
            lemma_first_key_none(keys, keys[i as int], i as int);
            if !found {
                assert(!p(i as int));
                assert(first_where(p, i as int + 1) is None);
            }
        }
        if found {
            proof {
                assert(keys[j as int] == keys[i as int]);
                assert(p(i as int));
                assert(first_where(p, i as int + 1) == Some(i as int));
                lemma_first_where_stable(p, i as int + 1, ids@.len() as int);
            }
            return Some(i);
        }
        i = i + 1;
    }
    None
}

/// Returns the first position of an id with the text of `x`.
pub fn find_id(ids: &Vec<ControlId>, x: &ControlId) -> (r: Option<usize>)
    ensures
        match key_position(id_views(ids@), x@) {
            Some(k) => r matches Some(j) && j == k && 0 <= k < ids@.len() && ids@[k]@ == x@,
            None => r is None,
        },
{
    let ghost keys = id_views(ids@);
    let mut i: usize = 0;
    while i < ids.len()
        invariant
            keys == id_views(ids@),
            i <= ids@.len(),
            first_key(keys, x@, i as int) is None,
        decreases ids.len() - i,
    {
        if ids[i].same(x) {
            proof {
                assert(keys[i as int] == x@);
                assert(first_key(keys, x@, i as int + 1) == Some(i as int));
                lemma_first_key_stable(keys, x@, i as int + 1, keys.len() as int);
            }
            return Some(i);
        }
        i = i + 1;
    }
    None
}

/// Returns true when the id at position `i` repeats an earlier id.
pub fn seen_before(ids: &Vec<ControlId>, i: usize) -> (b: bool)
    requires
        i < ids@.len(),
    ensures
        b == (first_key(id_views(ids@), ids@[i as int]@, i as int) is Some),
{
    let ghost keys = id_views(ids@);
    let mut j: usize = 0;
    while j < i && !ids[j].same(&ids[i])
        invariant
            keys == id_views(ids@),
            i < ids@.len(),
            j <= i,
            forall|t: int| 0 <= t < j ==> keys[t] != keys[i as int],
        decreases i - j,
    {
        j = j + 1;
    }
    proof {
        lemma_first_key_none(keys, keys[i as int], i as int);
        if j < i {
            assert(keys[j as int] == keys[i as int]);
        }
    }
    j < i
}

/// When `p` holds at none of the first `n` positions, none is found.
pub proof fn lemma_first_where_all_false(p: spec_fn(int) -> bool, n: int)
    requires
        forall|i: int| 0 <= i < n ==> !#[trigger] p(i),
    ensures
        first_where(p, n) is None,
    decreases n,
{
    if n > 0 {
        lemma_first_where_all_false(p, n - 1);
    }
}

/// When no position among the first `n` is found, `p` holds at none of them.
pub proof fn lemma_first_where_none(p: spec_fn(int) -> bool, n: int)
    requires
        first_where(p, n) is None,
    ensures
        forall|i: int| 0 <= i < n ==> !#[trigger] p(i),
    decreases n,
{
    if n > 0 {
        lemma_first_where_none(p, n - 1);
    }
}

} // verus!
