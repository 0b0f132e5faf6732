//! A run as a whole: one slice for each sample of X, each computed on its
//! own, in any order and by any number of workers.

use crate::grid::Grid;
use crate::naming::lemma_slice_paths_distinct;
use crate::raster::single_valued;
use crate::slice::{lemma_rendering_repeatable, slice_result, SliceError, SliceFile};
use vstd::prelude::*;

verus! {

/// `results` are the results of a run over `grid`: one for each sample of X,
/// in the order of the samples, each a result that its slice can come to.
pub open spec fn run_outcome<F: Fn(usize, usize, usize) -> bool>(
    grid: Grid,
    inside: F,
    results: Seq<Result<SliceFile, SliceError>>,
) -> bool {
    &&& results.len() == grid.x()
    &&& forall|i: int|
        0 <= i < results.len() ==> slice_result(i as usize, grid, inside, #[trigger] results[i])
}

/// A run does not depend on how its slices are scheduled. Where `inside` has
/// only one answer for each point, any two runs over the same grid give a
/// file for the same slices, with the same bytes for the same paths, and
/// within a run no two slices share a path.
pub proof fn lemma_run_is_determined<F: Fn(usize, usize, usize) -> bool>(
    grid: Grid,
    inside: F,
    first: Seq<Result<SliceFile, SliceError>>,
    second: Seq<Result<SliceFile, SliceError>>,
)
    requires
        run_outcome(grid, inside, first),
        run_outcome(grid, inside, second),
        single_valued(inside),
    ensures
        first.len() == second.len(),
        forall|i: int|
            0 <= i < first.len() ==> ((#[trigger] first[i]) is Ok <==> second[i] is Ok),
        forall|i: int|
            0 <= i < first.len() && (#[trigger] first[i]) is Ok ==> first[i]->Ok_0.path@
                == second[i]->Ok_0.path@ && first[i]->Ok_0.bytes@ == second[i]->Ok_0.bytes@,
        forall|i: int, j: int|
            0 <= i < first.len() && 0 <= j < first.len() && i != j && (#[trigger] first[i]) is Ok
                && (#[trigger] first[j]) is Ok ==> first[i]->Ok_0.path@ != first[j]->Ok_0.path@,
{
    assert forall|i: int| 0 <= i < first.len() implies ((#[trigger] first[i]) is Ok
        <==> second[i] is Ok) && (first[i] is Ok ==> first[i]->Ok_0.path@
        == second[i]->Ok_0.path@ && first[i]->Ok_0.bytes@ == second[i]->Ok_0.bytes@) by {
        lemma_rendering_repeatable(i as usize, grid, inside, first[i], second[i]);
    }
    assert forall|i: int, j: int|
        0 <= i < first.len() && 0 <= j < first.len() && i != j && (#[trigger] first[i]) is Ok
            && (#[trigger] first[j]) is Ok implies first[i]->Ok_0.path@
        != first[j]->Ok_0.path@ by {
        lemma_slice_paths_distinct(i as nat, j as nat);
    }
}

/// The indices of the slices that failed, in ascending order. `outcomes`
/// holds the outcome of each slice of a run, in the order of the slices.
pub fn failed_slices(outcomes: &Vec<Result<(), SliceError>>) -> (failed: Vec<usize>)
    ensures
        forall|i: int|
            0 <= i < failed@.len() ==> (#[trigger] failed@[i]) < outcomes@.len()
                && outcomes@[failed@[i] as int] is Err,
        forall|i: int, j: int| 0 <= i < j < failed@.len() ==> failed@[i] < failed@[j],
        forall|k: int|
            0 <= k < outcomes@.len() && (#[trigger] outcomes@[k]) is Err ==> failed@.contains(
                k as usize,
            ),
{
    let mut failed: Vec<usize> = Vec::new();
    let mut next: usize = 0;
    while next < outcomes.len()
        invariant
            next <= outcomes@.len(),
            forall|i: int|
                0 <= i < failed@.len() ==> (#[trigger] failed@[i]) < next
                    && outcomes@[failed@[i] as int] is Err,
            forall|i: int, j: int| 0 <= i < j < failed@.len() ==> failed@[i] < failed@[j],
            forall|k: int|
                0 <= k < next && (#[trigger] outcomes@[k]) is Err ==> failed@.contains(
                    k as usize,
                ),
        decreases outcomes@.len() - next,
    {
        if outcomes[next].is_err() {
            let ghost before = failed@;
            failed.push(next);
            proof {
                assert forall|k: int|
                    0 <= k < next + 1 && (#[trigger] outcomes@[k]) is Err implies failed@.contains(
                    k as usize,
                ) by {
                    if k < next {
                        let at = choose|at: int| 0 <= at < before.len() && before[at] == k as usize;
                        assert(failed@[at] == k as usize);
                    } else {
                        assert(failed@[before.len() as int] == next);
                    }
                }
            }
        }
        next += 1;
    }
    failed
}

} // verus!
