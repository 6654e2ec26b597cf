//! Lexicographic ordering on character sequences, the order in which the
//! key-order algorithm lays out the keys of a batch.

use vstd::prelude::*;
use vstd::relations::total_ordering;

verus! {

/// `a` comes no later than `b` in lexicographic order: at the first position
/// where they differ the character of `a` is smaller, or `a` is a prefix of `b`.
pub open spec fn lex_leq(a: Seq<char>, b: Seq<char>) -> bool
    decreases a.len(),
{
    if a.len() == 0 {
        true
    } else if b.len() == 0 {
        false
    } else if a[0] < b[0] {
        true
    } else if b[0] < a[0] {
        false
    } else {
        lex_leq(a.drop_first(), b.drop_first())
    }
}

/// The ordering as a relation value, for use with `Seq::sort_by`.
pub open spec fn key_le() -> spec_fn(Seq<char>, Seq<char>) -> bool {
    |a: Seq<char>, b: Seq<char>| lex_leq(a, b)
}

pub proof fn lemma_lex_leq_reflexive(a: Seq<char>)
    ensures
        lex_leq(a, a),
    decreases a.len(),
{
    if a.len() > 0 {
        lemma_lex_leq_reflexive(a.drop_first());
    }
}

pub proof fn lemma_lex_leq_antisymmetric(a: Seq<char>, b: Seq<char>)
    requires
        lex_leq(a, b),
        lex_leq(b, a),
    ensures
        a == b,
    decreases a.len(),
{
    if a.len() == 0 {
        assert(b.len() == 0);
        assert(a =~= b);
    } else {
        lemma_lex_leq_antisymmetric(a.drop_first(), b.drop_first());
        assert forall|i: int| 0 <= i < a.len() implies a[i] == b[i] by {
            if i > 0 {
                assert(a.drop_first()[i - 1] == b.drop_first()[i - 1]);
            }
        }
        assert(a =~= b);
    }
}

pub proof fn lemma_lex_leq_transitive(a: Seq<char>, b: Seq<char>, c: Seq<char>)
    requires
        lex_leq(a, b),
        lex_leq(b, c),
    ensures
        lex_leq(a, c),
    decreases a.len(),
{
    if a.len() > 0 && b.len() > 0 && c.len() > 0 && a[0] == b[0] && b[0] == c[0] {
        lemma_lex_leq_transitive(a.drop_first(), b.drop_first(), c.drop_first());
    }
}

pub proof fn lemma_lex_leq_connected(a: Seq<char>, b: Seq<char>)
    ensures
        lex_leq(a, b) || lex_leq(b, a),
    decreases a.len(),
{
    if a.len() > 0 && b.len() > 0 && !(a[0] < b[0]) && !(b[0] < a[0]) {
        lemma_lex_leq_connected(a.drop_first(), b.drop_first());
    }
}

/// The key order is a total ordering, so sorting by it is well defined and
/// a sorted arrangement of distinct keys is unique.
pub proof fn lemma_key_le_total_ordering()
    ensures
        total_ordering(key_le()),
{
    assert forall|a: Seq<char>| #[trigger] key_le()(a, a) by {
        lemma_lex_leq_reflexive(a);
    }
    assert forall|a: Seq<char>, b: Seq<char>|
        #[trigger] key_le()(a, b) && #[trigger] key_le()(b, a) implies a == b by {
        lemma_lex_leq_antisymmetric(a, b);
    }
    assert forall|a: Seq<char>, b: Seq<char>, c: Seq<char>|
        #[trigger] key_le()(a, b) && #[trigger] key_le()(b, c) implies key_le()(a, c) by {
        lemma_lex_leq_transitive(a, b, c);
    }
    assert forall|a: Seq<char>, b: Seq<char>| #[trigger] key_le()(a, b) || #[trigger] key_le()(
        b,
        a,
    ) by {
        lemma_lex_leq_connected(a, b);
    }
}

} // verus!
