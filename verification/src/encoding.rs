//! Lengths of text in UTF-8 bytes, as Rust's `str::len` counts them, and
//! cuts of text at a byte position, which Rust allows only between
//! characters.

use vstd::prelude::*;

verus! {

/// The number of bytes of a character in UTF-8 (`char::len_utf8`).
pub open spec fn char_width(c: char) -> nat {
    let u = c as u32;
    if u < 0x80 {
        1
    } else if u < 0x800 {
        2
    } else if u < 0x10000 {
        3
    } else {
        4
    }
}

/// The number of bytes of a text in UTF-8.
pub open spec fn utf8_len(s: Seq<char>) -> nat
    decreases s.len(),
{
    if s.len() == 0 {
        0
    } else {
        utf8_len(s.drop_last()) + char_width(s.last())
    }
}

/// Byte position `b` of `s` falls between two characters (or at an end).
pub open spec fn is_byte_boundary(s: Seq<char>, b: int) -> bool {
    exists|k: int| 0 <= k <= s.len() && #[trigger] utf8_len(s.take(k)) == b
}

/// The number of characters before byte position `b` of `s`, where `b`
/// falls between two characters.
pub open spec fn char_index_at_byte(s: Seq<char>, b: int) -> int {
    choose|k: int| 0 <= k <= s.len() && #[trigger] utf8_len(s.take(k)) == b
}

/// The text of the first `b` bytes of `s` (`&s[..b]` in Rust).
pub open spec fn byte_prefix(s: Seq<char>, b: int) -> Seq<char> {
    s.take(char_index_at_byte(s, b))
}

/// The text from byte position `b` of `s` on (`&s[b..]` in Rust).
pub open spec fn byte_suffix(s: Seq<char>, b: int) -> Seq<char> {
    s.skip(char_index_at_byte(s, b))
}

/// Byte lengths add up over concatenation.
pub proof fn lemma_utf8_len_concat(a: Seq<char>, b: Seq<char>)
    ensures
        utf8_len(a + b) == utf8_len(a) + utf8_len(b),
    decreases b.len(),
{
    if b.len() == 0 {
        assert(a + b =~= a);
    } else {
        lemma_utf8_len_concat(a, b.drop_last());
        assert((a + b).drop_last() =~= a + b.drop_last());
        assert((a + b).last() == b.last());
    }
}

/// A longer prefix has more bytes.
pub proof fn lemma_utf8_prefix_grows(s: Seq<char>, i: int, k: int)
    requires
        0 <= i < k <= s.len(),
    ensures
        utf8_len(s.take(i)) < utf8_len(s.take(k)),
    decreases k - i,
{
    assert(s.take(k).drop_last() =~= s.take(k - 1));
    if i < k - 1 {
        lemma_utf8_prefix_grows(s, i, k - 1);
    }
}

/// The prefix before a byte boundary is the unique one of that length.
proof fn lemma_char_index_unique(s: Seq<char>, b: int, k: int)
    requires
        0 <= k <= s.len(),
        utf8_len(s.take(k)) == b,
    ensures
        char_index_at_byte(s, b) == k,
{
    let j = char_index_at_byte(s, b);
    assert(0 <= j <= s.len() && utf8_len(s.take(j)) == b);
    if j < k {
        lemma_utf8_prefix_grows(s, j, k);
    } else if k < j {
        lemma_utf8_prefix_grows(s, k, j);
    }
}

/// The bytes of a character in UTF-8.
pub fn char_width_of(c: char) -> (w: usize)
    ensures
        w == char_width(c),
{
    let u = c as u32;
    if u < 0x80 {
        1
    } else if u < 0x800 {
        2
    } else if u < 0x10000 {
        3
    } else {
        4
    }
}

/// Whether the text has more than `limit` bytes.
pub fn utf8_len_exceeds(v: &Vec<char>, limit: usize) -> (r: bool)
    requires
        limit + 4 <= usize::MAX,
    ensures
        r == (utf8_len(v@) > limit),
{
    let mut acc: usize = 0;
    let mut i: usize = 0;
    while i < v.len()
        invariant
            i <= v.len(),
            limit + 4 <= usize::MAX,
            acc == utf8_len(v@.take(i as int)),
            acc <= limit,
        decreases v.len() - i,
    {
        assert(v@.take(i + 1).drop_last() =~= v@.take(i as int));
        acc = acc + char_width_of(v[i]);
        if acc > limit {
            proof {
                if i + 1 < v.len() {
                    lemma_utf8_prefix_grows(v@, i + 1, v.len() as int);
                }
            }
            assert(v@.take(v.len() as int) =~= v@);
            return true;
        }
        i = i + 1;
    }
    assert(v@.take(v.len() as int) =~= v@);
    false
}

/// The number of characters in the first `b` bytes of the text, where `b`
/// falls between two characters.
pub fn prefix_chars(v: &Vec<char>, b: usize) -> (k: usize)
    requires
        is_byte_boundary(v@, b as int),
    ensures
        k as int == char_index_at_byte(v@, b as int),
{
    let ghost target = char_index_at_byte(v@, b as int);
    let mut acc: usize = 0;
    let mut i: usize = 0;
    while acc < b
        invariant
            0 <= target <= v.len(),
            utf8_len(v@.take(target)) == b,
            i <= target,
            acc == utf8_len(v@.take(i as int)),
            acc <= b,
        decreases b - acc,
    {
        proof {
            if i == target {
                assert(false);
            }
            assert(v@.take(i + 1).drop_last() =~= v@.take(i as int));
            if i + 1 < target {
                lemma_utf8_prefix_grows(v@, i + 1, target);
            }
        }
        acc = acc + char_width_of(v[i]);
        i = i + 1;
    }
    proof {
        if (i as int) < target {
            lemma_utf8_prefix_grows(v@, i as int, target);
        }
        lemma_char_index_unique(v@, b as int, i as int);
    }
    i
}

/// The number of characters before the last `n` bytes of the text, where
/// that position falls between two characters.
pub fn suffix_start(v: &Vec<char>, n: usize) -> (k: usize)
    requires
        n <= utf8_len(v@),
        is_byte_boundary(v@, utf8_len(v@) - n),
    ensures
        k as int == char_index_at_byte(v@, utf8_len(v@) - n),
{
    let ghost total = utf8_len(v@);
    let ghost target = char_index_at_byte(v@, total - n);
    let mut acc: usize = 0;
    let mut j: usize = v.len();
    assert(v@.skip(j as int) =~= Seq::<char>::empty());
    while acc < n
        invariant
            0 <= target <= v.len(),
            total == utf8_len(v@),
            utf8_len(v@.take(target)) == total - n,
            target <= j <= v.len(),
            acc == utf8_len(v@.skip(j as int)),
            acc <= n,
            n <= total,
        decreases j,
    {
        proof {
            assert(v@ =~= v@.take(j as int) + v@.skip(j as int));
            lemma_utf8_len_concat(v@.take(j as int), v@.skip(j as int));
            if j == target {
                assert(false);
            }
            assert(v@.skip(j - 1) =~= seq![v@[j - 1]] + v@.skip(j as int));
            lemma_utf8_len_concat(seq![v@[j - 1]], v@.skip(j as int));
            assert(seq![v@[j - 1]].drop_last() =~= Seq::<char>::empty());
            assert(utf8_len(Seq::<char>::empty()) == 0);
            assert(utf8_len(seq![v@[j - 1]]) == char_width(v@[j - 1]));
            assert(v@ =~= v@.take(j - 1) + v@.skip(j - 1));
            lemma_utf8_len_concat(v@.take(j - 1), v@.skip(j - 1));
            if target < j - 1 {
                lemma_utf8_prefix_grows(v@, target, j - 1);
            }
        }
        acc = acc + char_width_of(v[j - 1]);
        j = j - 1;
    }
    proof {
        assert(v@ =~= v@.take(j as int) + v@.skip(j as int));
        lemma_utf8_len_concat(v@.take(j as int), v@.skip(j as int));
        if target < j as int {
            lemma_utf8_prefix_grows(v@, target, j as int);
        }
        lemma_char_index_unique(v@, total - n, j as int);
    }
    j
}

/// Whether byte position `b` of the text falls between two characters.
pub fn is_byte_boundary_at(v: &Vec<char>, b: usize) -> (r: bool)
    requires
        b + 4 <= usize::MAX,
    ensures
        r == is_byte_boundary(v@, b as int),
{
    let mut acc: usize = 0;
    let mut i: usize = 0;
    while acc < b && i < v.len()
        invariant
            i <= v.len(),
            acc == utf8_len(v@.take(i as int)),
            i > 0 ==> utf8_len(v@.take(i - 1)) < b,
            b + 4 <= usize::MAX,
        decreases v.len() - i,
    {
        proof {
            assert(v@.take(i + 1).drop_last() =~= v@.take(i as int));
        }
        acc = acc + char_width_of(v[i]);
        i = i + 1;
    }
    if acc == b {
        assert(utf8_len(v@.take(i as int)) == b);
        return true;
    }
    proof {
        assert forall|k: int| 0 <= k <= v.len() implies #[trigger] utf8_len(v@.take(k)) != b by {
            if acc > b {
                if k < i {
                    if k < i - 1 {
                        lemma_utf8_prefix_grows(v@, k, i - 1);
                    }
                } else if k > i {
                    lemma_utf8_prefix_grows(v@, i as int, k);
                }
            } else {
                assert(i == v.len());
                if k < i {
                    lemma_utf8_prefix_grows(v@, k, i as int);
                }
            }
        }
    }
    false
}

} // verus!
