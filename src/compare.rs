use vstd::prelude::*;
use core::cmp::Ordering;

verus! {

/// Lexicographic order of two byte strings: the first differing byte
/// decides, and a proper prefix comes first.
pub open spec fn byte_order(a: Seq<u8>, b: Seq<u8>) -> Ordering
    decreases a.len(),
{
    if a.len() == 0 {
        if b.len() == 0 {
            Ordering::Equal
        } else {
            Ordering::Less
        }
    } else if b.len() == 0 {
        Ordering::Greater
    } else if a[0] < b[0] {
        Ordering::Less
    } else if a[0] > b[0] {
        Ordering::Greater
    } else {
        byte_order(a.drop_first(), b.drop_first())
    }
}

/// Compares two byte strings ordinally: byte by byte, case-sensitive and
/// without regard to any locale.
pub fn compare_strings(a: &[u8], b: &[u8]) -> (r: Ordering)
    ensures
        r == byte_order(a@, b@),
{
    let mut i: usize = 0;
    assert(a@.skip(0) =~= a@);
    assert(b@.skip(0) =~= b@);
    while i < a.len() && i < b.len()
        invariant
            i <= a@.len(),
            i <= b@.len(),
            byte_order(a@, b@) == byte_order(a@.skip(i as int), b@.skip(i as int)),
        decreases a@.len() - i,
    {
        if a[i] < b[i] {
            return Ordering::Less;
        }
        if a[i] > b[i] {
            return Ordering::Greater;
        }
        assert(a@.skip(i as int).drop_first() =~= a@.skip(i + 1));
        assert(b@.skip(i as int).drop_first() =~= b@.skip(i + 1));
        i = i + 1;
    }
    if i < b.len() {
        Ordering::Less
    } else if i < a.len() {
        Ordering::Greater
    } else {
        Ordering::Equal
    }
}

/// Every byte string is equal to itself, and only to itself.
pub proof fn lemma_byte_order_equal(a: Seq<u8>, b: Seq<u8>)
    ensures
        (byte_order(a, b) == Ordering::Equal) <==> a == b,
    decreases a.len(),
{
    if a.len() > 0 && b.len() > 0 && a[0] == b[0] {
        lemma_byte_order_equal(a.drop_first(), b.drop_first());
        if a.drop_first() == b.drop_first() {
            assert(a =~= seq![a[0]] + a.drop_first());
            assert(b =~= seq![b[0]] + b.drop_first());
        }
        if a == b {
            assert(a.drop_first() == b.drop_first());
        }
    } else if a.len() > 0 && b.len() > 0 {
        if a == b {
            assert(a[0] == b[0]);
        }
    } else if a.len() == 0 && b.len() == 0 {
        assert(a =~= b);
    }
}

/// Swapping the operands reverses the order.
pub proof fn lemma_byte_order_antisymmetric(a: Seq<u8>, b: Seq<u8>)
    ensures
        (byte_order(a, b) == Ordering::Less) <==> (byte_order(b, a) == Ordering::Greater),
        (byte_order(a, b) == Ordering::Equal) <==> (byte_order(b, a) == Ordering::Equal),
    decreases a.len(),
{
    if a.len() > 0 && b.len() > 0 && a[0] == b[0] {
        lemma_byte_order_antisymmetric(a.drop_first(), b.drop_first());
    }
}

/// If `a` comes before `b` and `b` before `c`, then `a` comes before `c`.
pub proof fn lemma_byte_order_transitive(a: Seq<u8>, b: Seq<u8>, c: Seq<u8>)
    requires
        byte_order(a, b) == Ordering::Less,
        byte_order(b, c) == Ordering::Less,
    ensures
        byte_order(a, c) == Ordering::Less,
    decreases a.len(),
{
    if a.len() > 0 && b.len() > 0 && c.len() > 0 && a[0] == b[0] && b[0] == c[0] {
        lemma_byte_order_transitive(a.drop_first(), b.drop_first(), c.drop_first());
    }
}

/// `a` is a proper prefix of `b`.
pub open spec fn is_proper_prefix(a: Seq<u8>, b: Seq<u8>) -> bool {
    a.len() < b.len() && b.subrange(0, a.len() as int) == a
}

/// `a` and `b` agree before byte `i`, and `a` has the smaller byte at `i`.
pub open spec fn smaller_at(a: Seq<u8>, b: Seq<u8>, i: int) -> bool {
    0 <= i < a.len() && i < b.len() && a.subrange(0, i) == b.subrange(0, i) && a[i] < b[i]
}

/// `a` orders before `b` exactly when it is a proper prefix of `b` or has
/// the smaller byte at the first place where they differ.
pub proof fn lemma_byte_order_less(a: Seq<u8>, b: Seq<u8>)
    ensures
        (byte_order(a, b) == Ordering::Less) <==> (is_proper_prefix(a, b) || exists|i: int|
            smaller_at(a, b, i)),
    decreases a.len(),
{
    if a.len() == 0 {
        if b.len() > 0 {
            assert(b.subrange(0, 0) =~= a);
        }
    } else if b.len() == 0 {
    } else if a[0] < b[0] {
        assert(a.subrange(0, 0) =~= b.subrange(0, 0));
        assert(smaller_at(a, b, 0));
    } else if a[0] > b[0] {
        assert forall|i: int| !smaller_at(a, b, i) by {
            if 0 < i < a.len() && i < b.len() && a.subrange(0, i) == b.subrange(0, i) {
                assert(a.subrange(0, i)[0] == b.subrange(0, i)[0]);
            }
        }
        if a.len() < b.len() && b.subrange(0, a.len() as int) == a {
            assert(b.subrange(0, a.len() as int)[0] == a[0]);
        }
    } else {
        let ta = a.drop_first();
        let tb = b.drop_first();
        lemma_byte_order_less(ta, tb);
        if is_proper_prefix(ta, tb) {
            assert(b.subrange(0, a.len() as int) =~= seq![b[0]] + tb.subrange(0, ta.len() as int));
            assert(a =~= seq![a[0]] + ta);
        }
        if is_proper_prefix(a, b) {
            assert(tb.subrange(0, ta.len() as int) =~= b.subrange(0, a.len() as int).drop_first());
        }
        if exists|j: int| smaller_at(ta, tb, j) {
            let j = choose|j: int| smaller_at(ta, tb, j);
            assert(a.subrange(0, j + 1) =~= seq![a[0]] + ta.subrange(0, j));
            assert(b.subrange(0, j + 1) =~= seq![b[0]] + tb.subrange(0, j));
            assert(smaller_at(a, b, j + 1));
        }
        if exists|i: int| smaller_at(a, b, i) {
            let i = choose|i: int| smaller_at(a, b, i);
            assert(i != 0);
            assert(ta.subrange(0, i - 1) =~= a.subrange(0, i).drop_first());
            assert(tb.subrange(0, i - 1) =~= b.subrange(0, i).drop_first());
            assert(smaller_at(ta, tb, i - 1));
        }
    }
}

} // verus!
