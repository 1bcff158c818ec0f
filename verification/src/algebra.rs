//! Partial pivoting for Gaussian elimination.
//!
//! The elimination itself is arithmetic on doubles and is done by the caller.
//! Before each of its steps the caller asks here which row to eliminate with:
//! the one whose entry in the pivot column is largest in absolute value, which
//! is what keeps the elimination stable on nearly singular systems.
use vstd::prelude::*;
use crate::scalar::Scalar;
use crate::vec3::abs_rank;

verus! {

/// Whether `coef` has `n` rows of `n` entries each.
pub open spec fn is_square(coef: Seq<Vec<Scalar>>, n: int) -> bool {
    &&& coef.len() == n
    &&& forall|r: int| 0 <= r < n ==> (#[trigger] coef[r])@.len() == n
}

/// Whether `pivot` is the row to eliminate with at `step`: among the rows from
/// `step` on it has the entry of column `step` that is largest in absolute
/// value, and it is the last such row.
pub open spec fn is_pivot(coef: Seq<Vec<Scalar>>, step: int, pivot: int) -> bool {
    &&& step <= pivot < coef.len()
    &&& forall|r: int|
        step <= r < coef.len() ==> abs_rank((#[trigger] coef[r])@[step]@) <= abs_rank(
            coef[pivot]@[step]@,
        )
    &&& forall|r: int|
        pivot < r < coef.len() ==> abs_rank((#[trigger] coef[r])@[step]@) < abs_rank(
            coef[pivot]@[step]@,
        )
}

/// A list with the items at two places exchanged.
pub open spec fn swapped<A>(s: Seq<A>, i: int, j: int) -> Seq<A> {
    s.update(i, s[j]).update(j, s[i])
}

/// The row to eliminate with at `step`.
pub fn select_pivot(coef: &Vec<Vec<Scalar>>, step: usize) -> (pivot: usize)
    requires
        step < coef@.len(),
        forall|r: int| step <= r < coef@.len() ==> step < (#[trigger] coef@[r])@.len(),
    ensures
        is_pivot(coef@, step as int, pivot as int),
{
    let n: usize = coef.len();
    let mut pivot: usize = step;
    let mut best: Scalar = coef[step][step].abs();
    let mut r: usize = step + 1;
    while r < n
        invariant
            n == coef@.len(),
            step < r <= n,
            step <= pivot < r,
            forall|k: int| step <= k < coef@.len() ==> step < (#[trigger] coef@[k])@.len(),
            best@ == abs_rank(coef@[pivot as int]@[step as int]@),
            forall|k: int|
                step <= k < r ==> abs_rank((#[trigger] coef@[k])@[step as int]@) <= best@,
            forall|k: int|
                pivot < k < r ==> abs_rank((#[trigger] coef@[k])@[step as int]@) < best@,
        decreases coef@.len() - r,
    {
        let candidate = coef[r][step].abs();
        if candidate.ge(best) {
            pivot = r;
            best = candidate;
        }
        r += 1;
    }
    pivot
}

/// Exchanges two items of a list.
pub fn swap_items<A>(items: &mut Vec<A>, i: usize, j: usize)
    requires
        i < old(items)@.len(),
        j < old(items)@.len(),
    ensures
        final(items)@ == swapped(old(items)@, i as int, j as int),
{
    if i == j {
        proof {
            assert(items@ =~= swapped(items@, i as int, j as int));
        }
        return ;
    }
    let lo: usize = if i < j { i } else { j };
    let hi: usize = if i < j { j } else { i };
    let ghost before = items@;
    let upper = items.remove(hi);
    let lower = items.remove(lo);
    items.insert(lo, upper);
    items.insert(hi, lower);
    proof {
        assert(items@ =~= swapped(before, i as int, j as int));
    }
}

/// Brings the pivot row of `step` into place: the row is chosen as
/// `select_pivot` does, and exchanged with row `step` in the matrix and in the
/// right-hand side alike. The result is the row that was chosen.
pub fn partial_pivot(coef: &mut Vec<Vec<Scalar>>, rhs: &mut Vec<Scalar>, step: usize) -> (pivot:
    usize)
    requires
        is_square(old(coef)@, old(rhs)@.len() as int),
        step < old(rhs)@.len(),
    ensures
        is_pivot(old(coef)@, step as int, pivot as int),
        final(coef)@ == swapped(old(coef)@, step as int, pivot as int),
        final(rhs)@ == swapped(old(rhs)@, step as int, pivot as int),
        is_square(final(coef)@, old(rhs)@.len() as int),
{
    let pivot = select_pivot(coef, step);
    swap_items(coef, step, pivot);
    swap_items(rhs, step, pivot);
    pivot
}

/// There is one pivot row and no other.
pub proof fn lemma_pivot_unique(coef: Seq<Vec<Scalar>>, step: int, first: int, second: int)
    requires
        is_pivot(coef, step, first),
        is_pivot(coef, step, second),
    ensures
        first == second,
{
    if first < second {
        assert(abs_rank(coef[second]@[step]@) < abs_rank(coef[first]@[step]@));
        assert(abs_rank(coef[first]@[step]@) <= abs_rank(coef[second]@[step]@));
    } else if second < first {
        assert(abs_rank(coef[first]@[step]@) < abs_rank(coef[second]@[step]@));
        assert(abs_rank(coef[second]@[step]@) <= abs_rank(coef[first]@[step]@));
    }
}

} // verus!
