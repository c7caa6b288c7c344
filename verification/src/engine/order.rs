use vstd::prelude::*;

verus! {

/// How `a` stands to `b` from index `i` on, in the order of a dictionary:
/// negative when `a` comes first, 0 when the two are the same, positive when
/// `b` comes first. The two are taken to agree before `i`.
pub open spec fn lex_rel(a: Seq<u8>, b: Seq<u8>, i: int) -> int
    decreases a.len() - i,
{
    if i >= a.len() {
        if i >= b.len() {
            0
        } else {
            -1
        }
    } else if i >= b.len() {
        1
    } else if i < 0 {
        0
    } else if a[i] < b[i] {
        -1
    } else if a[i] > b[i] {
        1
    } else {
        lex_rel(a, b, i + 1)
    }
}

/// The order is the same seen from either side, and only equal sequences
/// stand at 0.
pub proof fn lemma_lex_sides(a: Seq<u8>, b: Seq<u8>, i: int)
    requires
        0 <= i <= a.len(),
        i <= b.len(),
        a.take(i) == b.take(i),
    ensures
        lex_rel(b, a, i) == -lex_rel(a, b, i),
        -1 <= lex_rel(a, b, i) <= 1,
        lex_rel(a, b, i) == 0 <==> a == b,
    decreases a.len() - i,
{
    if i < a.len() && i < b.len() {
        if a[i] == b[i] {
            assert(a.take(i + 1) =~= a.take(i).push(a[i]));
            assert(b.take(i + 1) =~= b.take(i).push(b[i]));
            lemma_lex_sides(a, b, i + 1);
        } else {
            assert(a != b);
        }
    } else if i >= a.len() && i >= b.len() {
        assert(a.take(i) =~= a);
        assert(b.take(i) =~= b);
    } else {
        assert(a.len() != b.len());
    }
}

/// The order carries over: what comes no later than `b`, which comes no later
/// than `c`, comes no later than `c`.
pub proof fn lemma_lex_carries(a: Seq<u8>, b: Seq<u8>, c: Seq<u8>, i: int)
    requires
        0 <= i,
        lex_rel(a, b, i) <= 0,
        lex_rel(b, c, i) <= 0,
    ensures
        lex_rel(a, c, i) <= 0,
    decreases a.len() - i,
{
    if i < a.len() && i < b.len() && i < c.len() {
        if a[i] == b[i] && b[i] == c[i] {
            lemma_lex_carries(a, b, c, i + 1);
        }
    }
}

/// How two byte strings stand in the order of a dictionary.
#[derive(Clone, Copy, Debug, PartialEq, Eq, Structural)]
pub enum Side {
    Before,
    Same,
    After,
}

/// Compares two byte strings in the order of a dictionary.
pub fn lex_side(a: &[u8], b: &[u8]) -> (side: Side)
    ensures
        side == if lex_rel(a@, b@, 0) < 0 {
            Side::Before
        } else if lex_rel(a@, b@, 0) == 0 {
            Side::Same
        } else {
            Side::After
        },
{
    let mut i: usize = 0;
    while i < a.len() && i < b.len()
        invariant
            i <= a@.len(),
            i <= b@.len(),
            lex_rel(a@, b@, 0) == lex_rel(a@, b@, i as int),
        decreases a@.len() - i,
    {
        if a[i] < b[i] {
            return Side::Before;
        }
        if a[i] > b[i] {
            return Side::After;
        }
        i = i + 1;
    }
    if i < b.len() {
        Side::Before
    } else if i < a.len() {
        Side::After
    } else {
        Side::Same
    }
}

} // verus!
