//! Orderings used to sort report entries: lexicographic order on character
//! sequences (the order of Rust's `String`), two-part sort keys, and a stable
//! insertion sort that moves items together with their keys.

use vstd::prelude::*;
use crate::text::chars_of;

verus! {

// ---------------------------------------------------------------------------
// Lexicographic order on character sequences
// ---------------------------------------------------------------------------

/// `a` precedes `b` in lexicographic order of code points; a proper prefix
/// precedes the longer sequence. For valid UTF-8 this is the byte order that
/// Rust uses to compare strings.
pub open spec fn lex_lt(a: Seq<char>, b: Seq<char>) -> bool
    decreases a.len(),
{
    if a.len() == 0 {
        b.len() > 0
    } else if b.len() == 0 {
        false
    } else if a[0] == b[0] {
        lex_lt(a.drop_first(), b.drop_first())
    } else {
        (a[0] as u32) < (b[0] as u32)
    }
}

pub proof fn lemma_lex_irreflexive(a: Seq<char>)
    ensures
        !lex_lt(a, a),
    decreases a.len(),
{
    if a.len() > 0 {
        lemma_lex_irreflexive(a.drop_first());
    }
}

pub proof fn lemma_lex_transitive(a: Seq<char>, b: Seq<char>, c: Seq<char>)
    requires
        lex_lt(a, b),
        lex_lt(b, c),
    ensures
        lex_lt(a, c),
    decreases a.len(),
{
    if a.len() > 0 && b.len() > 0 && c.len() > 0 {
        if a[0] == b[0] && b[0] == c[0] {
            lemma_lex_transitive(a.drop_first(), b.drop_first(), c.drop_first());
        }
    }
}

pub proof fn lemma_lex_total(a: Seq<char>, b: Seq<char>)
    ensures
        lex_lt(a, b) || lex_lt(b, a) || a == b,
    decreases a.len(),
{
    if a.len() > 0 && b.len() > 0 {
        if a[0] == b[0] {
            lemma_lex_total(a.drop_first(), b.drop_first());
            if a.drop_first() == b.drop_first() {
                assert(a =~= seq![a[0]] + a.drop_first());
                assert(b =~= seq![b[0]] + b.drop_first());
            }
        } else {
            let x = a[0] as u32;
            let y = b[0] as u32;
            vstd::utf8::char_u32_cast(a[0], x);
            vstd::utf8::char_u32_cast(b[0], y);
            assert(x != y);
        }
    } else if a.len() == 0 && b.len() == 0 {
        assert(a =~= b);
    }
}

/// Whether `a` precedes `b` in lexicographic order.
pub fn chars_lt(a: &Vec<char>, b: &Vec<char>) -> (r: bool)
    ensures
        r == lex_lt(a@, b@),
{
    let mut i: usize = 0;
    assert(a@.skip(0) =~= a@);
    assert(b@.skip(0) =~= b@);
    while i < a.len() && i < b.len() && a[i] == b[i]
        invariant
            i <= a.len(),
            i <= b.len(),
            lex_lt(a@, b@) == lex_lt(a@.skip(i as int), b@.skip(i as int)),
        decreases a.len() - i,
    {
        assert(a@.skip(i as int).drop_first() =~= a@.skip(i + 1));
        assert(b@.skip(i as int).drop_first() =~= b@.skip(i + 1));
        i = i + 1;
    }
    assert(a@.skip(i as int).len() == a.len() - i);
    assert(i < a.len() ==> a@.skip(i as int)[0] == a@[i as int]);
    assert(i < b.len() ==> b@.skip(i as int)[0] == b@[i as int]);
    if i == a.len() {
        i < b.len()
    } else if i == b.len() {
        false
    } else {
        (a[i] as u32) < (b[i] as u32)
    }
}

/// Whether the string `a` precedes the string `b`.
pub fn text_lt(a: &str, b: &str) -> (r: bool)
    ensures
        r == lex_lt(a@, b@),
{
    let av = chars_of(a);
    let bv = chars_of(b);
    chars_lt(&av, &bv)
}

} // verus!

verus! {

// ---------------------------------------------------------------------------
// Sort keys
// ---------------------------------------------------------------------------

/// A sort key: a number, a text, a second number and a second text, compared
/// in that order. Orderings that need fewer parts leave the others at zero or
/// empty.
pub struct SortKey {
    pub n1: u64,
    pub t1: String,
    pub n2: u64,
    pub t2: String,
}

/// The mathematical value of a sort key.
pub type KeyV = (u64, Seq<char>, u64, Seq<char>);

impl View for SortKey {
    type V = KeyV;

    open spec fn view(&self) -> KeyV {
        (self.n1, self.t1@, self.n2, self.t2@)
    }
}

/// Strict order on key values.
pub open spec fn key_lt(a: KeyV, b: KeyV) -> bool {
    a.0 < b.0 || (a.0 == b.0 && (lex_lt(a.1, b.1) || (a.1 == b.1 && (a.2 < b.2 || (a.2 == b.2
        && lex_lt(a.3, b.3))))))
}

/// Non-strict order on key values.
pub open spec fn key_le(a: KeyV, b: KeyV) -> bool {
    key_lt(a, b) || a == b
}

pub proof fn lemma_key_irreflexive(a: KeyV)
    ensures
        !key_lt(a, a),
{
    lemma_lex_irreflexive(a.1);
    lemma_lex_irreflexive(a.3);
}

pub proof fn lemma_key_transitive(a: KeyV, b: KeyV, c: KeyV)
    requires
        key_lt(a, b),
        key_lt(b, c),
    ensures
        key_lt(a, c),
{
    if a.0 == b.0 && b.0 == c.0 {
        if lex_lt(a.1, b.1) && lex_lt(b.1, c.1) {
            lemma_lex_transitive(a.1, b.1, c.1);
        }
        if a.1 == b.1 && b.1 == c.1 && a.2 == b.2 && b.2 == c.2 && lex_lt(a.3, b.3) && lex_lt(
            b.3,
            c.3,
        ) {
            lemma_lex_transitive(a.3, b.3, c.3);
        }
    }
}

pub proof fn lemma_key_total(a: KeyV, b: KeyV)
    ensures
        key_lt(a, b) || key_lt(b, a) || a == b,
{
    lemma_lex_total(a.1, b.1);
    lemma_lex_total(a.3, b.3);
}

/// `x` and `y` are keys for which the non-strict order holds in both orders
/// of composition with the strict one.
pub proof fn lemma_key_le_lt(a: KeyV, b: KeyV, c: KeyV)
    ensures
        key_le(a, b) && key_lt(b, c) ==> key_lt(a, c),
        key_lt(a, b) && key_le(b, c) ==> key_lt(a, c),
        key_le(a, b) && key_le(b, c) ==> key_le(a, c),
{
    if key_lt(a, b) && key_lt(b, c) {
        lemma_key_transitive(a, b, c);
    }
}

/// Whether key `a` precedes key `b`.
pub fn key_less(a: &SortKey, b: &SortKey) -> (r: bool)
    ensures
        r == key_lt(a@, b@),
{
    if a.n1 != b.n1 {
        return a.n1 < b.n1;
    }
    let t1ab = text_lt(a.t1.as_str(), b.t1.as_str());
    if t1ab {
        return true;
    }
    let t1ba = text_lt(b.t1.as_str(), a.t1.as_str());
    if t1ba {
        proof {
            lemma_lex_irreflexive(a.t1@);
            if a.t1@ == b.t1@ {
                assert(false);
            }
        }
        return false;
    }
    proof {
        lemma_lex_total(a.t1@, b.t1@);
    }
    if a.n2 != b.n2 {
        return a.n2 < b.n2;
    }
    text_lt(a.t2.as_str(), b.t2.as_str())
}

// ---------------------------------------------------------------------------
// Stable sorting
// ---------------------------------------------------------------------------

/// `perm` lists each index below `n` exactly once.
pub open spec fn is_permutation(perm: Seq<int>, n: int) -> bool {
    &&& perm.len() == n
    &&& forall|j: int| 0 <= j < n ==> 0 <= #[trigger] perm[j] < n
    &&& forall|j: int, k: int| 0 <= j < k < n ==> perm[j] != perm[k]
    &&& forall|m: int| 0 <= m < n ==> #[trigger] is_listed(perm, m)
}

/// Index `m` appears in `perm`.
pub open spec fn is_listed(perm: Seq<int>, m: int) -> bool {
    exists|j: int| 0 <= j < perm.len() && #[trigger] perm[j] == m
}

/// The elements of `s` taken in the order that `perm` lists their indices.
pub open spec fn reorder<T>(s: Seq<T>, perm: Seq<int>) -> Seq<T> {
    Seq::new(perm.len(), |j: int| s[perm[j]])
}

/// Original position `x` comes before original position `y` in a stable
/// sort by `keys`: its key is smaller, or the keys are equal and `x` came
/// first.
pub open spec fn stable_before(keys: Seq<KeyV>, x: int, y: int) -> bool {
    key_lt(keys[x], keys[y]) || (keys[x] == keys[y] && x < y)
}

/// `perm` arranges positions so that the keys ascend and equal keys keep
/// their original relative order.
pub open spec fn stably_sorted(keys: Seq<KeyV>, perm: Seq<int>) -> bool {
    forall|j: int, k: int|
        0 <= j < k < perm.len() ==> stable_before(keys, #[trigger] perm[j], #[trigger] perm[k])
}

/// `result` is `items` sorted stably by `keys`.
pub open spec fn is_stable_sort_of<T>(result: Seq<T>, items: Seq<T>, keys: Seq<KeyV>) -> bool {
    exists|perm: Seq<int>|
        #[trigger] is_permutation(perm, items.len() as int) && stably_sorted(keys, perm) && result
            == reorder(items, perm)
}

/// The values of a vector of keys.
pub open spec fn key_values(keys: Seq<SortKey>) -> Seq<KeyV> {
    Seq::new(keys.len(), |j: int| keys[j]@)
}

/// Sorts `items` stably by the keys at the same positions in `keys`,
/// moving each key along with its item.
pub fn stable_sort_by_keys<T>(items: &mut Vec<T>, keys: &mut Vec<SortKey>)
    requires
        old(items).len() == old(keys).len(),
    ensures
        final(items).len() == old(items).len(),
        exists|perm: Seq<int>|
            #[trigger] is_permutation(perm, old(items).len() as int) && stably_sorted(
                key_values(old(keys)@),
                perm,
            ) && final(items)@ == reorder(old(items)@, perm) && key_values(final(keys)@)
                == reorder(key_values(old(keys)@), perm),
{
    let n = items.len();
    let ghost orig_items = items@;
    let ghost ok = key_values(keys@);
    let ghost mut perm: Seq<int> = Seq::new(n as nat, |j: int| j);
    assert forall|m: int| 0 <= m < n implies #[trigger] is_listed(perm, m) by {
        assert(perm[m] == m);
    }
    assert(items@ =~= reorder(orig_items, perm));
    assert(key_values(keys@) =~= reorder(ok, perm));
    let mut i: usize = 0;
    while i < n
        invariant
            n == orig_items.len(),
            n == ok.len(),
            items.len() == n,
            keys.len() == n,
            i <= n,
            is_permutation(perm, n as int),
            forall|j: int| i <= j < n ==> #[trigger] perm[j] == j,
            forall|j: int| 0 <= j < i ==> #[trigger] perm[j] < i,
            items@ == reorder(orig_items, perm),
            key_values(keys@) == reorder(ok, perm),
            forall|j: int, k: int|
                0 <= j < k < i ==> stable_before(ok, #[trigger] perm[j], #[trigger] perm[k]),
        decreases n - i,
    {
        let ghost before_keys = key_values(keys@);
        let ghost before_keyseq = keys@;
        let ghost before_perm = perm;
        let item = items.remove(i);
        let key = keys.remove(i);
        let ghost removed_keys = keys@;
        assert(key@ == ok[i as int]) by {
            assert(before_keys[i as int] == ok[before_perm[i as int]]);
        }
        assert forall|q: int| 0 <= q < n - 1 implies #[trigger] removed_keys[q]@ == (if q < i {
            ok[before_perm[q]]
        } else {
            ok[before_perm[q + 1]]
        }) by {
            if q < i {
                assert(removed_keys[q] == before_keyseq[q]);
                assert(before_keys[q] == ok[before_perm[q]]);
            } else {
                assert(removed_keys[q] == before_keyseq[q + 1]);
                assert(before_keys[q + 1] == ok[before_perm[q + 1]]);
            }
        }
        let mut p: usize = i;
        while p > 0 && key_less(&key, &keys[p - 1])
            invariant
                p <= i,
                i < n,
                keys.len() == n - 1,
                forall|q: int| p <= q < i ==> key_lt(key@, #[trigger] keys@[q]@),
            decreases p,
        {
            p = p - 1;
        }
        keys.insert(p, key);
        items.insert(p, item);
        proof {
            let np = before_perm.remove(i as int).insert(p as int, i as int);
            // The new permutation and its properties.
            assert forall|j: int| 0 <= j < n implies 0 <= #[trigger] np[j] < n by {}
            assert forall|j: int, k: int| 0 <= j < k < n implies np[j] != np[k] by {
                if j < p && k < p {
                } else if j == p || k == p {
                } else {
                }
            }
            assert forall|m: int| 0 <= m < n implies #[trigger] is_listed(np, m) by {
                assert(is_listed(before_perm, m));
                let j0 = choose|j: int| 0 <= j < n && #[trigger] before_perm[j] == m;
                if j0 == i {
                    assert(np[p as int] == m);
                } else {
                    let j1 = if j0 < i { j0 } else { j0 - 1 };
                    let j2 = if j1 < p { j1 } else { j1 + 1 };
                    assert(np[j2] == m);
                }
            }
            assert forall|j: int| i + 1 <= j < n implies #[trigger] np[j] == j by {}
            assert forall|j: int| 0 <= j < i + 1 implies #[trigger] np[j] < i + 1 by {}
            assert(items@ =~= reorder(orig_items, np));
            assert forall|j: int| 0 <= j < n implies #[trigger] key_values(keys@)[j] == reorder(
                ok,
                np,
            )[j] by {
                if j < p {
                    assert(keys@[j] == removed_keys[j]);
                } else if j == p {
                } else {
                    assert(keys@[j] == removed_keys[j - 1]);
                }
            }
            assert(key_values(keys@) =~= reorder(ok, np));
            // Sortedness of the extended prefix.
            assert forall|j: int, k: int|
                0 <= j < k < i + 1 implies stable_before(ok, #[trigger] np[j], #[trigger] np[k]) by {
                if k < p {
                    assert(np[j] == before_perm[j] && np[k] == before_perm[k]);
                } else if j > p {
                    assert(np[j] == before_perm[j - 1] && np[k] == before_perm[k - 1]);
                } else if k == p {
                    // An element before the insertion point and the inserted one.
                    assert(np[k] == i);
                    assert(np[j] == before_perm[j]);
                    let last = before_perm[p - 1];
                    assert(!key_lt(ok[i as int], ok[last])) by {
                        assert(removed_keys[p - 1]@ == ok[before_perm[p - 1]]);
                    }
                    lemma_key_total(ok[i as int], ok[last]);
                    if j < p - 1 {
                        assert(stable_before(ok, before_perm[j], last));
                    }
                    lemma_key_le_lt(ok[np[j]], ok[last], ok[i as int]);
                    assert(key_le(ok[np[j]], ok[i as int]));
                } else if j < p {
                    assert(np[j] == before_perm[j] && np[k] == before_perm[k - 1]);
                } else {
                    // The inserted element and one after it.
                    assert(j == p);
                    assert(np[j] == i);
                    assert(np[k] == before_perm[k - 1]);
                    assert(removed_keys[k - 1]@ == ok[before_perm[k - 1]]);
                    assert(key_lt(ok[i as int], ok[before_perm[k - 1]]));
                }
            }
            perm = np;
        }
        i = i + 1;
    }
}

// ---------------------------------------------------------------------------
// Insertion in order
// ---------------------------------------------------------------------------

/// `s` with `x` inserted after the last of its trailing elements that `le`
/// puts before or level with `x`. On a sequence sorted by `le` this is the
/// stable insertion: `x` comes after every element it does not precede.
pub open spec fn insert_by<T>(s: Seq<T>, x: T, le: spec_fn(T, T) -> bool) -> Seq<T>
    decreases s.len(),
{
    if s.len() == 0 || le(s.last(), x) {
        s.push(x)
    } else {
        insert_by(s.drop_last(), x, le).push(s.last())
    }
}

/// The elements of `s` inserted one after another with `insert_by`: a
/// stable sort by `le`.
pub open spec fn insertion_sorted<T>(s: Seq<T>, le: spec_fn(T, T) -> bool) -> Seq<T>
    decreases s.len(),
{
    if s.len() == 0 {
        s
    } else {
        insert_by(insertion_sorted(s.drop_last(), le), s.last(), le)
    }
}

/// `insert_by` puts `x` at position `j` when the element before `j` is
/// level with or before `x` and every element from `j` on is not.
pub proof fn lemma_insert_by_at<T>(s: Seq<T>, x: T, le: spec_fn(T, T) -> bool, j: int)
    requires
        0 <= j <= s.len(),
        j == 0 || le(s[j - 1], x),
        forall|k: int| j <= k < s.len() ==> !le(#[trigger] s[k], x),
    ensures
        insert_by(s, x, le) == s.take(j).push(x) + s.skip(j),
    decreases s.len(),
{
    if j == s.len() {
        assert(s.take(j) =~= s);
        assert(s.skip(j) =~= Seq::<T>::empty());
        assert(s.push(x) + Seq::<T>::empty() =~= s.push(x));
    } else {
        let init = s.drop_last();
        assert(!le(s[s.len() - 1], x));
        assert forall|k: int| j <= k < init.len() implies !le(#[trigger] init[k], x) by {
            assert(init[k] == s[k]);
        }
        lemma_insert_by_at(init, x, le, j);
        assert(init.take(j) =~= s.take(j));
        assert((init.take(j).push(x) + init.skip(j)).push(s.last()) =~= s.take(j).push(x) + s.skip(
            j,
        ));
    }
}

/// `insert_by` adds `x` once and keeps every other element.
pub proof fn lemma_insert_by_len<T>(s: Seq<T>, x: T, le: spec_fn(T, T) -> bool)
    ensures
        insert_by(s, x, le).len() == s.len() + 1,
        insert_by(s, x, le).contains(x),
        forall|k: int| 0 <= k < s.len() ==> insert_by(s, x, le).contains(#[trigger] s[k]),
        forall|k: int|
            0 <= k < insert_by(s, x, le).len() ==> #[trigger] insert_by(s, x, le)[k] == x
                || s.contains(insert_by(s, x, le)[k]),
    decreases s.len(),
{
    if s.len() > 0 && !le(s.last(), x) {
        let init = s.drop_last();
        lemma_insert_by_len(init, x, le);
        let r = insert_by(s, x, le);
        let ri = insert_by(init, x, le);
        assert(r == ri.push(s.last()));
        let m = choose|m: int| 0 <= m < ri.len() && ri[m] == x;
        assert(r[m] == x);
        assert forall|k: int| 0 <= k < s.len() implies r.contains(#[trigger] s[k]) by {
            if k < init.len() {
                assert(init[k] == s[k]);
                let m2 = choose|m2: int| 0 <= m2 < ri.len() && ri[m2] == init[k];
                assert(r[m2] == s[k]);
            } else {
                assert(r[r.len() - 1] == s[k]);
            }
        }
        assert forall|k: int| 0 <= k < r.len() implies #[trigger] r[k] == x || s.contains(r[k]) by {
            if k < ri.len() {
                assert(r[k] == ri[k]);
                if ri[k] != x {
                    let m3 = choose|m3: int| 0 <= m3 < init.len() && init[m3] == ri[k];
                    assert(s[m3] == r[k]);
                }
            } else {
                assert(r[k] == s[s.len() - 1]);
            }
        }
    } else {
        let r = insert_by(s, x, le);
        assert(r == s.push(x));
        assert(r[s.len() as int] == x);
        assert forall|k: int| 0 <= k < s.len() implies r.contains(#[trigger] s[k]) by {
            assert(r[k] == s[k]);
        }
        assert forall|k: int| 0 <= k < r.len() implies #[trigger] r[k] == x || s.contains(r[k]) by {
            if k < s.len() {
                assert(r[k] == s[k]);
            }
        }
    }
}

/// `s` is sorted by `le`: each element is placed before or level with every
/// later one.
pub open spec fn sorted_by<T>(s: Seq<T>, le: spec_fn(T, T) -> bool) -> bool {
    forall|j: int, k: int| 0 <= j < k < s.len() ==> le(#[trigger] s[j], #[trigger] s[k])
}

/// `le` relates any two values one way or the other, and is transitive.
pub open spec fn total_preorder<T>(le: spec_fn(T, T) -> bool) -> bool {
    &&& forall|a: T, b: T| #[trigger] le(a, b) || le(b, a)
    &&& forall|a: T, b: T, c: T| #[trigger] le(a, b) && #[trigger] le(b, c) ==> le(a, c)
}

/// `insert_by` puts `x` at some position and keeps the other elements in
/// their order around it.
pub proof fn lemma_insert_by_split<T>(s: Seq<T>, x: T, le: spec_fn(T, T) -> bool)
    ensures
        exists|j: int| 0 <= j <= s.len() && insert_by(s, x, le) == s.take(j).push(x) + s.skip(j),
    decreases s.len(),
{
    if s.len() == 0 || le(s.last(), x) {
        let j = s.len() as int;
        assert(s.take(j) =~= s);
        assert(insert_by(s, x, le) =~= s.take(j).push(x) + s.skip(j));
    } else {
        let init = s.drop_last();
        lemma_insert_by_split(init, x, le);
        let j = choose|j: int| 0 <= j <= init.len() && insert_by(init, x, le) == init.take(j).push(x) + init.skip(j);
        assert(init.take(j) =~= s.take(j));
        assert(insert_by(s, x, le) =~= s.take(j).push(x) + s.skip(j));
    }
}

/// Inserting into a sequence sorted by a total preorder keeps it sorted.
pub proof fn lemma_insert_by_sorted<T>(s: Seq<T>, x: T, le: spec_fn(T, T) -> bool)
    requires
        total_preorder(le),
        sorted_by(s, le),
    ensures
        sorted_by(insert_by(s, x, le), le),
    decreases s.len(),
{
    let r = insert_by(s, x, le);
    if s.len() == 0 || le(s.last(), x) {
        assert(r == s.push(x));
        assert forall|j: int, k: int| 0 <= j < k < r.len() implies le(#[trigger] r[j], #[trigger] r[k]) by {
            assert(r[j] == s[j]);
            if k < s.len() {
                assert(r[k] == s[k]);
            } else if j < s.len() - 1 {
                assert(le(s[j], s[s.len() - 1]));
            }
        }
    } else {
        let init = s.drop_last();
        assert forall|j: int, k: int| 0 <= j < k < init.len() implies le(#[trigger] init[j], #[trigger] init[k]) by {
            assert(init[j] == s[j] && init[k] == s[k]);
        }
        lemma_insert_by_sorted(init, x, le);
        lemma_insert_by_len(init, x, le);
        let ri = insert_by(init, x, le);
        assert(r == ri.push(s.last()));
        assert forall|j: int, k: int| 0 <= j < k < r.len() implies le(#[trigger] r[j], #[trigger] r[k]) by {
            assert(r[j] == ri[j]);
            if k < ri.len() {
                assert(r[k] == ri[k]);
            } else {
                assert(r[k] == s.last());
                if ri[j] == x {
                    assert(le(s.last(), x) || le(x, s.last()));
                } else {
                    assert(init.contains(ri[j]));
                    let m = choose|m: int| 0 <= m < init.len() && init[m] == ri[j];
                    assert(s[m] == init[m]);
                    assert(le(s[m], s[s.len() - 1]));
                }
            }
        }
    }
}

/// Insertion sorting keeps the elements and their number, and sorts by a
/// total preorder.
pub proof fn lemma_insertion_sorted<T>(s: Seq<T>, le: spec_fn(T, T) -> bool)
    ensures
        insertion_sorted(s, le).len() == s.len(),
        forall|x: T| insertion_sorted(s, le).contains(x) <==> s.contains(x),
        total_preorder(le) ==> sorted_by(insertion_sorted(s, le), le),
    decreases s.len(),
{
    if s.len() > 0 {
        let init = s.drop_last();
        let r0 = insertion_sorted(init, le);
        lemma_insertion_sorted(init, le);
        lemma_insert_by_len(r0, s.last(), le);
        if total_preorder(le) {
            lemma_insert_by_sorted(r0, s.last(), le);
        }
        let r = insertion_sorted(s, le);
        assert(r == insert_by(r0, s.last(), le));
        assert forall|x: T| r.contains(x) <==> s.contains(x) by {
            if r.contains(x) {
                let k = choose|k: int| 0 <= k < r.len() && r[k] == x;
                assert(insert_by(r0, s.last(), le)[k] == s.last() || r0.contains(insert_by(r0, s.last(), le)[k]));
                if x != s.last() {
                    assert(r0.contains(x));
                    assert(init.contains(x));
                    let m = choose|m: int| 0 <= m < init.len() && init[m] == x;
                    assert(s[m] == x);
                } else {
                    assert(s[s.len() - 1] == x);
                }
            }
            if s.contains(x) {
                let m = choose|m: int| 0 <= m < s.len() && s[m] == x;
                if m < init.len() {
                    assert(init[m] == x);
                    assert(init.contains(x));
                    assert(r0.contains(x));
                    let k = choose|k: int| 0 <= k < r0.len() && r0[k] == x;
                    assert(r.contains(r0[k]));
                }
            }
        }
    }
}

} // verus!
