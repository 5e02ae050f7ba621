//! The order of texts by their characters, and sorted sequences of texts.

use vstd::prelude::*;

verus! {

/// Whether `a` comes before `b`, given that they agree below `i`: at the
/// first offset where they differ `a` has the lower character, or `a`
/// ends first.
pub open spec fn before_from(a: Seq<char>, b: Seq<char>, i: int) -> bool
    decreases a.len() - i,
{
    if i < 0 || i >= b.len() {
        false
    } else if i >= a.len() {
        true
    } else if a[i] != b[i] {
        a[i] < b[i]
    } else {
        before_from(a, b, i + 1)
    }
}

/// Whether `a` comes before `b` in the order of strings.
pub open spec fn before(a: Seq<char>, b: Seq<char>) -> bool {
    before_from(a, b, 0)
}

/// Whether `a` and `b` hold the same characters below `i`.
pub open spec fn agree_below(a: Seq<char>, b: Seq<char>, i: int) -> bool {
    &&& 0 <= i <= a.len()
    &&& i <= b.len()
    &&& forall|j: int| 0 <= j < i ==> a[j] == b[j]
}

proof fn lemma_before_irreflexive_from(a: Seq<char>, i: int)
    requires
        0 <= i,
    ensures
        !before_from(a, a, i),
    decreases a.len() - i,
{
    if i < a.len() {
        lemma_before_irreflexive_from(a, i + 1);
    }
}

proof fn lemma_before_total_from(a: Seq<char>, b: Seq<char>, i: int)
    requires
        agree_below(a, b, i),
        !before_from(a, b, i),
        !before_from(b, a, i),
    ensures
        a == b,
    decreases a.len() - i,
{
    if i < a.len() && i < b.len() {
        lemma_before_total_from(a, b, i + 1);
    } else {
        assert(a =~= b);
    }
}

proof fn lemma_before_transitive_from(a: Seq<char>, b: Seq<char>, c: Seq<char>, i: int)
    requires
        0 <= i,
        before_from(a, b, i),
        before_from(b, c, i),
    ensures
        before_from(a, c, i),
    decreases a.len() - i,
{
    if i < a.len() && a[i] == b[i] && b[i] == c[i] {
        lemma_before_transitive_from(a, b, c, i + 1);
    }
}

/// No text comes before itself.
pub proof fn lemma_before_irreflexive(a: Seq<char>)
    ensures
        !before(a, a),
{
    lemma_before_irreflexive_from(a, 0);
}

/// Of two different texts one comes before the other.
pub proof fn lemma_before_total(a: Seq<char>, b: Seq<char>)
    requires
        !before(a, b),
        !before(b, a),
    ensures
        a == b,
{
    lemma_before_total_from(a, b, 0);
}

/// What comes before a text comes before all that it comes before.
pub proof fn lemma_before_transitive(a: Seq<char>, b: Seq<char>, c: Seq<char>)
    requires
        before(a, b),
        before(b, c),
    ensures
        before(a, c),
{
    lemma_before_transitive_from(a, b, c, 0);
}

/// Compares two texts in the order of strings.
pub fn lex_less(a: &Vec<char>, b: &Vec<char>) -> (r: bool)
    ensures
        r == before(a@, b@),
{
    let mut i: usize = 0;
    while i < a.len() && i < b.len()
        invariant
            i <= a.len(),
            i <= b.len(),
            before(a@, b@) == before_from(a@, b@, i as int),
        decreases a.len() - i,
    {
        if a[i] != b[i] {
            return a[i] < b[i];
        }
        i += 1;
    }
    i < b.len()
}

/// Tests two texts for equality.
pub fn same_chars(a: &Vec<char>, b: &Vec<char>) -> (r: bool)
    ensures
        r == (a@ == b@),
{
    if a.len() != b.len() {
        return false;
    }
    let mut i: usize = 0;
    while i < a.len()
        invariant
            i <= a.len(),
            a.len() == b.len(),
            forall|j: int| 0 <= j < i ==> a@[j] == b@[j],
        decreases a.len() - i,
    {
        if a[i] != b[i] {
            return false;
        }
        i += 1;
    }
    assert(a@ =~= b@);
    true
}

/// The texts that a sequence of character vectors holds.
pub open spec fn texts(v: Seq<Vec<char>>) -> Seq<Seq<char>> {
    v.map_values(|t: Vec<char>| t@)
}

/// The first index at or after `i` whose text does not come before `key`;
/// the length where there is none.
pub open spec fn lower_bound(keys: Seq<Seq<char>>, key: Seq<char>, i: int) -> int
    decreases keys.len() - i,
{
    if 0 <= i < keys.len() && before(keys[i], key) {
        lower_bound(keys, key, i + 1)
    } else {
        i
    }
}

/// The first index at or after `i` whose text comes after `key`; the
/// length where there is none.
pub open spec fn upper_bound(keys: Seq<Seq<char>>, key: Seq<char>, i: int) -> int
    decreases keys.len() - i,
{
    if 0 <= i < keys.len() && !before(key, keys[i]) {
        upper_bound(keys, key, i + 1)
    } else {
        i
    }
}

/// Whether each text comes before the next: ascending, and no text twice.
pub open spec fn ascending(keys: Seq<Seq<char>>) -> bool {
    forall|i: int, j: int| 0 <= i < j < keys.len() ==> before(#[trigger] keys[i], #[trigger] keys[j])
}

/// Whether no text comes before one that stands earlier: ascending, equal
/// texts allowed.
pub open spec fn nondecreasing(keys: Seq<Seq<char>>) -> bool {
    forall|i: int, j: int|
        0 <= i < j < keys.len() ==> !before(#[trigger] keys[j], #[trigger] keys[i])
}

/// What the lower bound says: all texts before it come before the key, and
/// the text at it does not.
pub proof fn lemma_lower_bound(keys: Seq<Seq<char>>, key: Seq<char>, i: int)
    requires
        0 <= i <= keys.len(),
    ensures
        i <= lower_bound(keys, key, i) <= keys.len(),
        forall|j: int| i <= j < lower_bound(keys, key, i) ==> before(#[trigger] keys[j], key),
        lower_bound(keys, key, i) < keys.len() ==> !before(
            keys[lower_bound(keys, key, i)],
            key,
        ),
    decreases keys.len() - i,
{
    if i < keys.len() && before(keys[i], key) {
        lemma_lower_bound(keys, key, i + 1);
    }
}

/// What the upper bound says: no text before it comes after the key, and
/// the text at it does.
pub proof fn lemma_upper_bound(keys: Seq<Seq<char>>, key: Seq<char>, i: int)
    requires
        0 <= i <= keys.len(),
    ensures
        i <= upper_bound(keys, key, i) <= keys.len(),
        forall|j: int| i <= j < upper_bound(keys, key, i) ==> !before(key, #[trigger] keys[j]),
        upper_bound(keys, key, i) < keys.len() ==> before(key, keys[upper_bound(keys, key, i)]),
    decreases keys.len() - i,
{
    if i < keys.len() && !before(key, keys[i]) {
        lemma_upper_bound(keys, key, i + 1);
    }
}

/// Finds the first index whose text does not come before `key`.
pub fn find_lower_bound(keys: &Vec<Vec<char>>, key: &Vec<char>) -> (p: usize)
    ensures
        p == lower_bound(texts(keys@), key@, 0),
        p <= keys.len(),
{
    let mut p: usize = 0;
    while p < keys.len() && lex_less(&keys[p], key)
        invariant
            p <= keys.len(),
            lower_bound(texts(keys@), key@, 0) == lower_bound(texts(keys@), key@, p as int),
        decreases keys.len() - p,
    {
        p += 1;
    }
    p
}

/// Finds the first index whose text comes after `key`.
pub fn find_upper_bound(keys: &Vec<Vec<char>>, key: &Vec<char>) -> (p: usize)
    ensures
        p == upper_bound(texts(keys@), key@, 0),
        p <= keys.len(),
{
    let mut p: usize = 0;
    while p < keys.len() && !lex_less(key, &keys[p])
        invariant
            p <= keys.len(),
            upper_bound(texts(keys@), key@, 0) == upper_bound(texts(keys@), key@, p as int),
        decreases keys.len() - p,
    {
        p += 1;
    }
    p
}

} // verus!
