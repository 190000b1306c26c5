//! Lexicographic order on string keys.
//!
//! The keyed tables hold rows sorted by a two-component string key. This
//! module defines the strict lexicographic order on character sequences and
//! on key pairs, proves that it is a strict total order, and provides the
//! executable comparisons the tables use.

use vstd::prelude::*;

verus! {

/// Strict lexicographic order on character sequences, by unicode code point.
pub open spec fn chars_lt(a: Seq<char>, b: Seq<char>) -> bool
    decreases a.len(),
{
    if b.len() == 0 {
        false
    } else if a.len() == 0 {
        true
    } else if a[0] != b[0] {
        (a[0] as u32) < (b[0] as u32)
    } else {
        chars_lt(a.skip(1), b.skip(1))
    }
}

/// Strict order on two-component keys: by first component, then by second.
pub open spec fn key_lt(a1: Seq<char>, a2: Seq<char>, b1: Seq<char>, b2: Seq<char>) -> bool {
    chars_lt(a1, b1) || (a1 == b1 && chars_lt(a2, b2))
}

pub proof fn lemma_chars_lt_irreflexive(a: Seq<char>)
    ensures
        !chars_lt(a, a),
    decreases a.len(),
{
    if a.len() > 0 {
        lemma_chars_lt_irreflexive(a.skip(1));
    }
}

/// Any two distinct sequences are ordered one way or the other.
pub proof fn lemma_chars_lt_connected(a: Seq<char>, b: Seq<char>)
    requires
        a != b,
    ensures
        chars_lt(a, b) || chars_lt(b, a),
    decreases a.len(),
{
    if a.len() == 0 {
        if b.len() == 0 {
            assert(a =~= b);
        }
    } else if b.len() == 0 {
    } else if a[0] != b[0] {
        vstd::utf8::char_u32_cast(a[0], a[0] as u32);
        vstd::utf8::char_u32_cast(b[0], b[0] as u32);
    } else {
        if a.skip(1) == b.skip(1) {
            assert(a =~= b) by {
                assert(a.skip(1).len() == a.len() - 1);
                assert(b.skip(1).len() == b.len() - 1);
                assert forall|i: int| 0 <= i < a.len() implies a[i] == b[i] by {
                    if i > 0 {
                        assert(a.skip(1)[i - 1] == b.skip(1)[i - 1]);
                    }
                }
            }
        }
        lemma_chars_lt_connected(a.skip(1), b.skip(1));
    }
}

pub proof fn lemma_chars_lt_transitive(a: Seq<char>, b: Seq<char>, c: Seq<char>)
    requires
        chars_lt(a, b),
        chars_lt(b, c),
    ensures
        chars_lt(a, c),
    decreases a.len(),
{
    if a.len() > 0 && b.len() > 0 && c.len() > 0 {
        if a[0] == b[0] && b[0] == c[0] {
            lemma_chars_lt_transitive(a.skip(1), b.skip(1), c.skip(1));
        }
    }
}

pub proof fn lemma_key_lt_irreflexive(a1: Seq<char>, a2: Seq<char>)
    ensures
        !key_lt(a1, a2, a1, a2),
{
    lemma_chars_lt_irreflexive(a1);
    lemma_chars_lt_irreflexive(a2);
}

/// Any two distinct keys are ordered one way or the other.
pub proof fn lemma_key_lt_connected(a1: Seq<char>, a2: Seq<char>, b1: Seq<char>, b2: Seq<char>)
    requires
        !(a1 == b1 && a2 == b2),
    ensures
        key_lt(a1, a2, b1, b2) || key_lt(b1, b2, a1, a2),
{
    if a1 == b1 {
        lemma_chars_lt_connected(a2, b2);
    } else {
        lemma_chars_lt_connected(a1, b1);
    }
}

pub proof fn lemma_key_lt_transitive(
    a1: Seq<char>,
    a2: Seq<char>,
    b1: Seq<char>,
    b2: Seq<char>,
    c1: Seq<char>,
    c2: Seq<char>,
)
    requires
        key_lt(a1, a2, b1, b2),
        key_lt(b1, b2, c1, c2),
    ensures
        key_lt(a1, a2, c1, c2),
{
    if chars_lt(a1, b1) && chars_lt(b1, c1) {
        lemma_chars_lt_transitive(a1, b1, c1);
    }
    if a1 == b1 && a2 != b2 && chars_lt(a2, b2) && b1 == c1 && chars_lt(b2, c2) {
        lemma_chars_lt_transitive(a2, b2, c2);
    }
}

/// Executable lexicographic comparison of two string slices.
pub fn str_lt(a: &str, b: &str) -> (r: bool)
    ensures
        r == chars_lt(a@, b@),
{
    let a_len = a.unicode_len();
    let b_len = b.unicode_len();
    let mut i: usize = 0;
    proof {
        assert(a@.skip(0) =~= a@);
        assert(b@.skip(0) =~= b@);
    }
    loop
        invariant
            i <= a_len,
            i <= b_len,
            a_len == a@.len(),
            b_len == b@.len(),
            chars_lt(a@, b@) == chars_lt(a@.skip(i as int), b@.skip(i as int)),
        decreases b_len - i,
    {
        if i == b_len {
            return false;
        }
        if i == a_len {
            return true;
        }
        let ca = a.get_char(i);
        let cb = b.get_char(i);
        if ca != cb {
            proof {
                assert(a@.skip(i as int)[0] == a@[i as int]);
                assert(b@.skip(i as int)[0] == b@[i as int]);
            }
            return (ca as u32) < (cb as u32);
        }
        proof {
            assert(a@.skip(i as int)[0] == a@[i as int]);
            assert(b@.skip(i as int)[0] == b@[i as int]);
            assert(a@.skip(i as int).skip(1) =~= a@.skip(i + 1));
            assert(b@.skip(i as int).skip(1) =~= b@.skip(i + 1));
        }
        i = i + 1;
    }
}

/// Executable character-wise equality of two string slices.
pub fn str_eq(a: &str, b: &str) -> (r: bool)
    ensures
        r == (a@ == b@),
{
    let a_len = a.unicode_len();
    let b_len = b.unicode_len();
    if a_len != b_len {
        return false;
    }
    let mut i: usize = 0;
    while i < a_len
        invariant
            i <= a_len,
            a_len == a@.len(),
            a_len == b@.len(),
            forall|j: int| 0 <= j < i ==> a@[j] == b@[j],
        decreases a_len - i,
    {
        let ca = a.get_char(i);
        let cb = b.get_char(i);
        if ca != cb {
            return false;
        }
        i = i + 1;
    }
    proof {
        assert(a@ =~= b@);
    }
    true
}

/// Executable strict comparison of two-component keys.
pub fn key_str_lt(a1: &String, a2: &String, b1: &String, b2: &String) -> (r: bool)
    ensures
        r == key_lt(a1@, a2@, b1@, b2@),
{
    if str_lt(a1.as_str(), b1.as_str()) {
        true
    } else if str_eq(a1.as_str(), b1.as_str()) {
        str_lt(a2.as_str(), b2.as_str())
    } else {
        false
    }
}

} // verus!
