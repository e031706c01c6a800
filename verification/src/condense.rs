//! Run-length condensation of jump tables.
//!
//! A branch table maps each discriminant value `0..N` to a branch target; the
//! condenser compresses that dense array into the minimal ordered list of
//! maximal runs `(start, end, target)`, so that a per-value conditional chain
//! of length `N` shrinks to one entry per distinct run.

use vstd::prelude::*;

verus! {

/// The number of maximal constant-target runs in `l`: one for the first
/// element and one more wherever an element differs from its predecessor.
pub open spec fn runs_count(l: Seq<u32>) -> nat
    decreases l.len(),
{
    if l.len() == 0 {
        0
    } else if l.len() == 1 {
        1
    } else {
        runs_count(l.drop_last()) + if l[l.len() - 1] != l[l.len() - 2] {
            1nat
        } else {
            0nat
        }
    }
}

/// What it means for `r` to be the run-length condensation of `l`: one tuple
/// per maximal run, covering `0..l.len()` exactly once, in order, each over a
/// constant-target sub-range, with no two adjacent tuples sharing a target.
pub open spec fn is_condensation(l: Seq<u32>, r: Seq<(usize, usize, u32)>) -> bool {
    &&& r.len() == runs_count(l)
    &&& forall|k: int| 0 <= k < r.len() ==> (#[trigger] r[k]).0 <= r[k].1 < l.len()
    &&& r.len() > 0 ==> r[0].0 == 0 && r[r.len() - 1].1 == l.len() - 1
    &&& forall|k: int| 0 <= k < r.len() - 1 ==> (#[trigger] r[k + 1]).0 == r[k].1 + 1
    &&& forall|k: int, i: int|
        #![trigger r[k], l[i]]
        0 <= k < r.len() && r[k].0 <= i <= r[k].1 ==> l[i] == r[k].2
    &&& forall|k: int| 0 <= k < r.len() - 1 ==> (#[trigger] r[k]).2 != r[k + 1].2
}

/// The condensation of `l`, as a mathematical function; well defined because
/// the condensation is unique (`lemma_condensation_unique`).
pub open spec fn the_condensation(l: Seq<u32>) -> Seq<(usize, usize, u32)> {
    choose|r: Seq<(usize, usize, u32)>| is_condensation(l, r)
}

/// The bounds and target of run `k` agree between any two condensations that
/// start that run at the same place.
proof fn lemma_condensation_run_eq(l: Seq<u32>, r1: Seq<(usize, usize, u32)>, r2: Seq<
    (usize, usize, u32),
>, k: int)
    requires
        is_condensation(l, r1),
        is_condensation(l, r2),
        0 <= k < r1.len(),
        k < r2.len(),
        r1[k].0 == r2[k].0,
    ensures
        r1[k] == r2[k],
{
    if r1[k].1 < r2[k].1 {
        let p = r1[k].1 as int;
        if k == r1.len() - 1 {
            assert(false);
        } else {
            assert(r1[k + 1].0 == p + 1);
            assert(l[p + 1] == r1[k + 1].2);
            assert(l[p] == r1[k].2);
            assert(l[p] == r2[k].2);
            assert(l[p + 1] == r2[k].2);
            assert(false);
        }
    }
    if r2[k].1 < r1[k].1 {
        let p = r2[k].1 as int;
        if k == r2.len() - 1 {
            assert(false);
        } else {
            assert(r2[k + 1].0 == p + 1);
            assert(l[p + 1] == r2[k + 1].2);
            assert(l[p] == r2[k].2);
            assert(l[p] == r1[k].2);
            assert(l[p + 1] == r1[k].2);
            assert(false);
        }
    }
    assert(l[r1[k].0 as int] == r1[k].2);
    assert(l[r2[k].0 as int] == r2[k].2);
}

/// Run `k` of any two condensations of the same array starts at the same
/// index.
proof fn lemma_condensation_start_eq(l: Seq<u32>, r1: Seq<(usize, usize, u32)>, r2: Seq<
    (usize, usize, u32),
>, k: int)
    requires
        is_condensation(l, r1),
        is_condensation(l, r2),
        0 <= k < r1.len(),
        k < r2.len(),
    ensures
        r1[k].0 == r2[k].0,
    decreases k,
{
    if k > 0 {
        lemma_condensation_start_eq(l, r1, r2, k - 1);
        lemma_condensation_run_eq(l, r1, r2, k - 1);
        assert(r1[k].0 == r1[k - 1].1 + 1);
        assert(r2[k].0 == r2[k - 1].1 + 1);
    }
}

/// The condensation of an array is unique: `condense_jump_table` computes the
/// one and only minimal ordered list of maximal runs.
pub proof fn lemma_condensation_unique(l: Seq<u32>, r1: Seq<(usize, usize, u32)>, r2: Seq<
    (usize, usize, u32),
>)
    requires
        is_condensation(l, r1),
        is_condensation(l, r2),
    ensures
        r1 == r2,
{
    assert(r1.len() == r2.len());
    assert forall|k: int| 0 <= k < r1.len() implies r1[k] == r2[k] by {
        lemma_condensation_start_eq(l, r1, r2, k);
        lemma_condensation_run_eq(l, r1, r2, k);
    }
    assert(r1 =~= r2);
}

/// Any witness of `is_condensation` is `the_condensation`.
pub proof fn lemma_the_condensation(l: Seq<u32>, r: Seq<(usize, usize, u32)>)
    requires
        is_condensation(l, r),
    ensures
        the_condensation(l) == r,
{
    assert(is_condensation(l, the_condensation(l))) by {
        assert(exists|w: Seq<(usize, usize, u32)>| is_condensation(l, w)) by {
            assert(is_condensation(l, r));
        }
    }
    lemma_condensation_unique(l, the_condensation(l), r);
}

/// Condenses a dense target array into its maximal runs.
///
/// The result has exactly one tuple per maximal run of `list`: the tuples
/// cover `0..list.len()` exactly once, in order, each over a constant-target
/// sub-range, and no two adjacent tuples share a target.
pub fn condense_jump_table(list: &[u32]) -> (r: Vec<(usize, usize, u32)>)
    ensures
        is_condensation(list@, r@),
        r@ == the_condensation(list@),
{
    let mut result: Vec<(usize, usize, u32)> = Vec::new();
    let mut index: usize = 0;

    while index < list.len()
        invariant
            index <= list@.len(),
            result@.len() == runs_count(list@.take(index as int)),
            (index == 0) <==> (result@.len() == 0),
            result@.len() > 0 ==> result@[0].0 == 0 && result@[result@.len() - 1].1 == index - 1
                && result@[result@.len() - 1].2 == list@[index - 1],
            0 < index < list@.len() ==> list@[index - 1] != list@[index as int],
            forall|k: int|
                0 <= k < result@.len() ==> (#[trigger] result@[k]).0 <= result@[k].1 < index,
            forall|k: int|
                0 <= k < result@.len() - 1 ==> (#[trigger] result@[k + 1]).0 == result@[k].1 + 1,
            forall|k: int, i: int|
                #![trigger result@[k], list@[i]]
                0 <= k < result@.len() && result@[k].0 <= i <= result@[k].1 ==> list@[i]
                    == result@[k].2,
            forall|k: int|
                0 <= k < result@.len() - 1 ==> (#[trigger] result@[k]).2 != result@[k + 1].2,
        decreases list@.len() - index,
    {
        let start: usize = index;
        let ghost runs_before: nat = runs_count(list@.take(start as int));

        index = index + 1;
        proof {
            assert(list@.take(index as int).drop_last() =~= list@.take(start as int));
            assert(runs_count(list@.take(index as int)) == runs_before + 1);
        }

        while index < list.len() && list[index - 1] == list[index]
            invariant
                start < index <= list@.len(),
                start < list@.len(),
                forall|i: int| start <= i < index ==> list@[i] == list@[start as int],
                runs_count(list@.take(index as int)) == runs_before + 1,
            decreases list@.len() - index,
        {
            index = index + 1;
            proof {
                assert(list@.take(index as int).drop_last() =~= list@.take(index - 1));
                assert(runs_count(list@.take(index as int)) == runs_before + 1);
            }
        }

        result.push((start, index - 1, list[start]));

        proof {
            assert(result@[result@.len() - 1] == (start, (index - 1) as usize, list@[start as int]));
            assert forall|k: int, i: int|
                #![trigger result@[k], list@[i]]
                0 <= k < result@.len() && result@[k].0 <= i <= result@[k].1 implies list@[i]
                    == result@[k].2 by {
                if k == result@.len() - 1 {
                    assert(start <= i < index);
                }
            }
        }
    }

    proof {
        assert(list@.take(index as int) =~= list@);
        assert(is_condensation(list@, result@));
        lemma_the_condensation(list@, result@);
    }
    result
}

} // verus!
