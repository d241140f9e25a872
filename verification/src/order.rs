//! Lexicographic order of strings by character, which is the order of
//! `String`'s `Ord` (UTF-8 keeps code point order byte by byte).
use vstd::prelude::*;

verus! {

/// `a` comes strictly before `b`.
pub open spec fn seq_lt(a: Seq<char>, b: Seq<char>) -> bool
    decreases a.len(),
{
    if a.len() == 0 {
        b.len() > 0
    } else if b.len() == 0 {
        false
    } else if (a[0] as u32) < (b[0] as u32) {
        true
    } else if (a[0] as u32) > (b[0] as u32) {
        false
    } else {
        seq_lt(a.drop_first(), b.drop_first())
    }
}

pub proof fn lemma_lt_irreflexive(a: Seq<char>)
    ensures
        !seq_lt(a, a),
    decreases a.len(),
{
    if a.len() > 0 {
        lemma_lt_irreflexive(a.drop_first());
    }
}

pub proof fn lemma_lt_trans(a: Seq<char>, b: Seq<char>, c: Seq<char>)
    requires
        seq_lt(a, b),
        seq_lt(b, c),
    ensures
        seq_lt(a, c),
    decreases a.len(),
{
    if a.len() > 0 && b.len() > 0 && c.len() > 0 && (a[0] as u32) == (b[0] as u32) && (b[0] as u32)
        == (c[0] as u32) {
        lemma_lt_trans(a.drop_first(), b.drop_first(), c.drop_first());
    }
}

proof fn lemma_char_eq(x: char, y: char)
    requires
        x as u32 == y as u32,
    ensures
        x == y,
{
}

pub proof fn lemma_lt_total(a: Seq<char>, b: Seq<char>)
    ensures
        seq_lt(a, b) || seq_lt(b, a) || a == b,
    decreases a.len(),
{
    if a.len() == 0 {
        if b.len() == 0 {
            assert(a =~= b);
        }
    } else if b.len() > 0 && (a[0] as u32) == (b[0] as u32) {
        lemma_char_eq(a[0], b[0]);
        lemma_lt_total(a.drop_first(), b.drop_first());
        if a.drop_first() == b.drop_first() {
            assert(a =~= seq![a[0]] + a.drop_first());
            assert(b =~= seq![b[0]] + b.drop_first());
        }
    }
}

pub proof fn lemma_lt_asym(a: Seq<char>, b: Seq<char>)
    requires
        seq_lt(a, b),
    ensures
        !seq_lt(b, a),
{
    if seq_lt(b, a) {
        lemma_lt_trans(a, b, a);
        lemma_lt_irreflexive(a);
    }
}

/// Compares two strings: -1, 0 or 1 as `a` comes before, equals or comes
/// after `b`.
pub fn compare_strs(a: &Vec<char>, b: &Vec<char>) -> (r: i8)
    ensures
        r == -1 <==> seq_lt(a@, b@),
        r == 0 <==> a@ == b@,
        r == 1 <==> seq_lt(b@, a@),
        r == -1 || r == 0 || r == 1,
{
    let mut i: usize = 0;
    while i < a.len() && i < b.len() && a[i] == b[i]
        invariant
            i <= a.len(),
            i <= b.len(),
            forall|j: int| 0 <= j < i ==> a@[j] == b@[j],
        decreases a.len() - i,
    {
        i = i + 1;
    }
    proof {
        lemma_prefix_lt(a@, b@, i as int);
        lemma_lt_total(a@, b@);
        lemma_lt_irreflexive(a@);
    }
    if i < a.len() && i < b.len() {
        if (a[i] as u32) < (b[i] as u32) {
            proof {
                let bs = b@.subrange(i as int, b.len() as int);
                let as_ = a@.subrange(i as int, a.len() as int);
                assert(bs[0] == b@[i as int] && as_[0] == a@[i as int]);
                assert(seq_lt(as_, bs));
                lemma_lt_asym(a@, b@);
                assert(a@[i as int] != b@[i as int]);
            }
            -1
        } else {
            proof {
                if (a@[i as int] as u32) == (b@[i as int] as u32) {
                    lemma_char_eq(a@[i as int], b@[i as int]);
                }
                let bs = b@.subrange(i as int, b.len() as int);
                let as_ = a@.subrange(i as int, a.len() as int);
                assert(bs[0] == b@[i as int] && as_[0] == a@[i as int]);
                assert(seq_lt(bs, as_));
                lemma_lt_asym(b@, a@);
                assert(a@[i as int] != b@[i as int]);
            }
            1
        }
    } else if i < b.len() {
        proof {
            lemma_lt_asym(a@, b@);
            assert(a@.len() != b@.len());
        }
        -1
    } else if i < a.len() {
        proof {
            lemma_lt_asym(b@, a@);
            assert(a@.len() != b@.len());
        }
        1
    } else {
        assert(a@ =~= b@);
        0
    }
}

/// With a common prefix of length `i`, the order is decided at `i`.
proof fn lemma_prefix_lt(a: Seq<char>, b: Seq<char>, i: int)
    requires
        0 <= i <= a.len(),
        i <= b.len(),
        forall|j: int| 0 <= j < i ==> a[j] == b[j],
    ensures
        seq_lt(a, b) == seq_lt(a.subrange(i, a.len() as int), b.subrange(i, b.len() as int)),
        seq_lt(b, a) == seq_lt(b.subrange(i, b.len() as int), a.subrange(i, a.len() as int)),
    decreases i,
{
    if i > 0 {
        lemma_prefix_lt(a.drop_first(), b.drop_first(), i - 1);
        assert(a.drop_first().subrange(i - 1, a.len() - 1) =~= a.subrange(i, a.len() as int));
        assert(b.drop_first().subrange(i - 1, b.len() - 1) =~= b.subrange(i, b.len() as int));
        assert(a[0] == b[0]);
    } else {
        assert(a.subrange(0, a.len() as int) =~= a);
        assert(b.subrange(0, b.len() as int) =~= b);
    }
}

} // verus!
