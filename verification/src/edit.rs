//! Edit distance: the fewest insertions, deletions and substitutions that turn
//! one sequence into another.

use vstd::prelude::*;

verus! {

/// The smallest of three numbers.
pub open spec fn min3(x: nat, y: nat, z: nat) -> nat {
    if x <= y && x <= z {
        x
    } else if y <= z {
        y
    } else {
        z
    }
}

/// Levenshtein distance between two sequences: the fewest single-element
/// insertions, deletions and substitutions that turn `a` into `b`.
pub open spec fn edit_distance<T>(a: Seq<T>, b: Seq<T>) -> nat
    decreases a.len() + b.len(),
{
    if a.len() == 0 {
        b.len()
    } else if b.len() == 0 {
        a.len()
    } else {
        min3(
            edit_distance(a.drop_last(), b.drop_last()) + if a.last() == b.last() {
                0nat
            } else {
                1nat
            },
            edit_distance(a.drop_last(), b) + 1,
            edit_distance(a, b.drop_last()) + 1,
        )
    }
}

/// The distance is never more than the longer of the two lengths.
pub proof fn lemma_edit_distance_le_max<T>(a: Seq<T>, b: Seq<T>)
    ensures
        edit_distance(a, b) <= if a.len() >= b.len() {
            a.len()
        } else {
            b.len()
        },
    decreases a.len() + b.len(),
{
    if a.len() > 0 && b.len() > 0 {
        lemma_edit_distance_le_max(a.drop_last(), b.drop_last());
    }
}

/// The distance is never less than the difference of the two lengths.
pub proof fn lemma_edit_distance_ge_diff<T>(a: Seq<T>, b: Seq<T>)
    ensures
        edit_distance(a, b) >= a.len() - b.len(),
        edit_distance(a, b) >= b.len() - a.len(),
    decreases a.len() + b.len(),
{
    if a.len() > 0 && b.len() > 0 {
        lemma_edit_distance_ge_diff(a.drop_last(), b.drop_last());
        lemma_edit_distance_ge_diff(a.drop_last(), b);
        lemma_edit_distance_ge_diff(a, b.drop_last());
    }
}

/// A sequence is at distance zero from itself.
pub proof fn lemma_edit_distance_self<T>(a: Seq<T>)
    ensures
        edit_distance(a, a) == 0,
    decreases a.len(),
{
    if a.len() > 0 {
        lemma_edit_distance_self(a.drop_last());
    }
}

/// One step of the recurrence, phrased over prefixes.
pub proof fn lemma_edit_distance_step<T>(a: Seq<T>, b: Seq<T>, i: int, j: int)
    requires
        0 < i <= a.len(),
        0 < j <= b.len(),
    ensures
        edit_distance(a.take(i), b.take(j)) == min3(
            edit_distance(a.take(i - 1), b.take(j - 1)) + if a[i - 1] == b[j - 1] {
                0nat
            } else {
                1nat
            },
            edit_distance(a.take(i - 1), b.take(j)) + 1,
            edit_distance(a.take(i), b.take(j - 1)) + 1,
        ),
{
    assert(a.take(i).drop_last() =~= a.take(i - 1));
    assert(b.take(j).drop_last() =~= b.take(j - 1));
}

/// Against an empty sequence the distance is the other length.
pub proof fn lemma_edit_distance_empty<T>(a: Seq<T>, b: Seq<T>, i: int, j: int)
    requires
        0 <= i <= a.len(),
        0 <= j <= b.len(),
    ensures
        edit_distance(a.take(i), b.take(0)) == i,
        edit_distance(a.take(0), b.take(j)) == j,
{
}


/// The cheapest edit script when a substitution weighs as much as an
/// insertion and a deletion together: the fewest insertions and deletions
/// that turn `a` into `b`, a substitution counting as one of each.
pub open spec fn indel_distance<T>(a: Seq<T>, b: Seq<T>) -> nat
    decreases a.len() + b.len(),
{
    if a.len() == 0 {
        b.len()
    } else if b.len() == 0 {
        a.len()
    } else {
        min3(
            indel_distance(a.drop_last(), b.drop_last()) + if a.last() == b.last() {
                0nat
            } else {
                2nat
            },
            indel_distance(a.drop_last(), b) + 1,
            indel_distance(a, b.drop_last()) + 1,
        )
    }
}

/// The weighted distance is never more than the two lengths together.
pub proof fn lemma_indel_le_sum<T>(a: Seq<T>, b: Seq<T>)
    ensures
        indel_distance(a, b) <= a.len() + b.len(),
    decreases a.len() + b.len(),
{
    if a.len() > 0 && b.len() > 0 {
        lemma_indel_le_sum(a.drop_last(), b);
    }
}

/// One step of the weighted recurrence, phrased over prefixes.
pub proof fn lemma_indel_step<T>(a: Seq<T>, b: Seq<T>, i: int, j: int)
    requires
        0 < i <= a.len(),
        0 < j <= b.len(),
    ensures
        indel_distance(a.take(i), b.take(j)) == min3(
            indel_distance(a.take(i - 1), b.take(j - 1)) + if a[i - 1] == b[j - 1] {
                0nat
            } else {
                2nat
            },
            indel_distance(a.take(i - 1), b.take(j)) + 1,
            indel_distance(a.take(i), b.take(j - 1)) + 1,
        ),
{
    assert(a.take(i).drop_last() =~= a.take(i - 1));
    assert(b.take(j).drop_last() =~= b.take(j - 1));
}

/// Against an empty sequence the weighted distance is the other length.
pub proof fn lemma_indel_empty<T>(a: Seq<T>, b: Seq<T>, i: int, j: int)
    requires
        0 <= i <= a.len(),
        0 <= j <= b.len(),
    ensures
        indel_distance(a.take(i), b.take(0)) == i,
        indel_distance(a.take(0), b.take(j)) == j,
{
}

/// A sequence is at weighted distance zero from itself.
pub proof fn lemma_indel_self<T>(a: Seq<T>)
    ensures
        indel_distance(a, a) == 0,
    decreases a.len(),
{
    if a.len() > 0 {
        lemma_indel_self(a.drop_last());
    }
}

/// Only equal sequences are at distance zero.
pub proof fn lemma_edit_distance_zero<T>(a: Seq<T>, b: Seq<T>)
    requires
        edit_distance(a, b) == 0,
    ensures
        a == b,
    decreases a.len() + b.len(),
{
    if a.len() > 0 && b.len() > 0 {
        lemma_edit_distance_zero(a.drop_last(), b.drop_last());
        assert(a =~= a.drop_last().push(a.last()));
        assert(b =~= b.drop_last().push(b.last()));
    } else {
        assert(a =~= b);
    }
}

} // verus!
