//! Lexicographic order on character sequences.
//!
//! Dates are compared as raw strings, not parsed as calendar dates: the
//! order is plain lexicographic comparison of the code points, which for
//! UTF-8 text agrees with Rust's byte-wise string order.
use vstd::prelude::*;

verus! {

/// `a >= b` in lexicographic order on code points.
pub open spec fn lex_ge(a: Seq<char>, b: Seq<char>) -> bool
    decreases b.len(),
{
    if b.len() == 0 {
        true
    } else if a.len() == 0 {
        false
    } else if a.first() == b.first() {
        lex_ge(a.drop_first(), b.drop_first())
    } else {
        (a.first() as u32) > (b.first() as u32)
    }
}

/// The order is total: of two sequences, one is lexicographically at least
/// the other.
pub proof fn lemma_lex_ge_total(a: Seq<char>, b: Seq<char>)
    ensures
        lex_ge(a, b) || lex_ge(b, a),
    decreases a.len(),
{
    if a.len() > 0 && b.len() > 0 && a.first() == b.first() {
        lemma_lex_ge_total(a.drop_first(), b.drop_first());
    } else if a.len() > 0 && b.len() > 0 {
        vstd::utf8::char_u32_cast(a.first(), a.first() as u32);
        vstd::utf8::char_u32_cast(b.first(), b.first() as u32);
    }
}

/// Comparing two sequences that agree on their first `i` characters is
/// comparing what remains.
proof fn lemma_lex_ge_skip(a: Seq<char>, b: Seq<char>, i: int)
    requires
        0 <= i <= a.len(),
        0 <= i <= b.len(),
        forall|j: int| 0 <= j < i ==> a[j] == b[j],
    ensures
        lex_ge(a, b) == lex_ge(a.skip(i), b.skip(i)),
    decreases i,
{
    if i > 0 {
        lemma_lex_ge_skip(a.drop_first(), b.drop_first(), i - 1);
        assert(a.drop_first().skip(i - 1) =~= a.skip(i));
        assert(b.drop_first().skip(i - 1) =~= b.skip(i));
    } else {
        assert(a.skip(0) =~= a);
        assert(b.skip(0) =~= b);
    }
}

/// Character-by-character lexicographic comparison.
#[verifier::loop_isolation(false)]
pub fn str_lex_ge(a: &str, b: &str) -> (r: bool)
    ensures
        r == lex_ge(a@, b@),
{
    let la = a.unicode_len();
    let lb = b.unicode_len();
    let mut i: usize = 0;
    while i < la && i < lb
        invariant
            la == a@.len(),
            lb == b@.len(),
            0 <= i <= la,
            0 <= i <= lb,
            forall|j: int| 0 <= j < i ==> a@[j] == b@[j],
        decreases la - i,
    {
        let ca = a.get_char(i);
        let cb = b.get_char(i);
        if ca != cb {
            proof {
                lemma_lex_ge_skip(a@, b@, i as int);
                assert(a@.skip(i as int).first() == a@[i as int]);
                assert(b@.skip(i as int).first() == b@[i as int]);
            }
            return (ca as u32) > (cb as u32);
        }
        i += 1;
    }
    proof {
        lemma_lex_ge_skip(a@, b@, i as int);
        if i >= lb {
            assert(b@.skip(i as int).len() == 0);
        } else {
            assert(a@.skip(i as int).len() == 0);
            assert(b@.skip(i as int).len() > 0);
        }
    }
    i >= lb
}

} // verus!
