//! The two-phase solver of Kociemba.
//!
//! H0 is the set of all configurations that the six faces reach. H1 is the
//! set of those that are reached with only the left and the right face
//! turned by quarters: a cube is in H1 if and only if its edges are good,
//! its corners are untwisted and the edges of the middle slice are in it.
//! H2 is the solved cube alone. A configuration is first moved into H1 by a
//! shortest path, then solved within H1.
//!
//! This gives shorter solutions than four stages do, at the price of more
//! searching. They need not be the shortest: the shortest way into H1
//! followed by the shortest way on from there may be longer than a way that
//! enters H1 elsewhere.

pub mod h0h1;
pub mod h1h2;

use crate::cube::Cube;
use crate::dfs_util::{move_allowed, result_view, SolveError};
use crate::groups::{lemma_left_right_free_keeps_g2, lemma_orientations_kept};
use crate::projection::{lemma_moves_keep_physical, lemma_solved_states_mean_solved};
use crate::kociemba::h0h1::{H0toH1Cache, solve_to_h1, solve_to_h1_spec};
use crate::kociemba::h1h2::{H1toH2Cache, solve_to_h2, solve_to_h2_spec};
use crate::moves::{apply_moves, ApplyMove, Dir, FullMove, lemma_apply_moves_concat};
use vstd::prelude::*;

verus! {

pub struct KociembaCaches {
    pub h0h1cache: H0toH1Cache,
    pub h1h2cache: H1toH2Cache,
}

impl KociembaCaches {
    /// The tables of both phases are finished.
    pub open spec fn wf(&self) -> bool {
        self.h0h1cache.wf() && self.h1h2cache.wf()
    }

    /// Fills the tables of both phases.
    pub fn initialize() -> (caches: Self)
        ensures
            caches.wf(),
    {
        Self { h0h1cache: H0toH1Cache::initialize(), h1h2cache: H1toH2Cache::initialize() }
    }
}

/// What `full_solve` returns: the moves of the two phases one after the
/// other, the second started from the cube as the first left it; the error
/// of the first phase that fails; `InvariantViolated` if the cube is not
/// solved after the second.
pub open spec fn full_solve_spec(cube: Cube, cache: &KociembaCaches) -> Result<
    Seq<FullMove>,
    SolveError,
> {
    match solve_to_h1_spec(cube, &cache.h0h1cache) {
        Err(e) => Err(e),
        Ok(h1) => match solve_to_h2_spec(apply_moves(cube, h1), &cache.h1h2cache) {
            Err(e) => Err(e),
            Ok(h2) => if apply_moves(cube, h1 + h2).is_solved_spec() {
                Ok(h1 + h2)
            } else {
                Err(SolveError::InvariantViolated)
            },
        },
    }
}

/// What the phases reach one after the other is a solved cube: on a cube
/// that can be taken apart and put together as it is, moves that make all
/// edges good, untwist the corners and fill the middle slice, and then moves
/// of the second phase that bring every cubelet to its own place, solve the
/// cube.
pub proof fn lemma_phases_solve(cube: Cube, h1: Seq<FullMove>, h2: Seq<FullMove>)
    requires
        cube.physical(),
        h0h1::RunningState::from_cube_spec(apply_moves(cube, h1))
            == h0h1::RunningState::solved_spec(),
        forall|k: int|
            0 <= k < h2.len() ==> move_allowed(
                h1h2::FREE_DIRS@,
                h1h2::HALF_DIRS@,
                #[trigger] h2[k],
            ),
        h1h2::RunningState::readable(apply_moves(apply_moves(cube, h1), h2)),
        h1h2::RunningState::from_cube_spec(apply_moves(apply_moves(cube, h1), h2))
            == h1h2::RunningState::solved_spec(),
    ensures
        apply_moves(apply_moves(cube, h1), h2).is_solved_spec(),
{
    let c1 = apply_moves(cube, h1);
    let c2 = apply_moves(c1, h2);
    lemma_moves_keep_physical(cube, h1);
    lemma_moves_keep_physical(c1, h2);
    let free = h1h2::FREE_DIRS@;
    assert(free[0] == Dir::L && free[1] == Dir::R);
    lemma_left_right_free_keeps_g2(free, h1h2::HALF_DIRS@, h2);
    lemma_orientations_kept(c1, h2);
    lemma_solved_states_mean_solved(c2);
}

/// Solves the cube in two phases. The moves that come back solve it.
pub fn full_solve(cube: &Cube, cache: &KociembaCaches) -> (res: Result<Vec<FullMove>, SolveError>)
    requires
        cache.wf(),
    ensures
        result_view(res) == full_solve_spec(*cube, cache),
        res matches Ok(moves) ==> apply_moves(*cube, moves@).is_solved_spec(),
        cube.physical() ==> res != Err::<Vec<FullMove>, SolveError>(SolveError::InvariantViolated),
{
    let h1_solution = match solve_to_h1(cube, &cache.h0h1cache) {
        Ok(moves) => moves,
        Err(e) => {
            return Err(e);
        },
    };
    let h1_solved = (*cube).apply_many(h1_solution.as_slice());
    let h2_solution = match solve_to_h2(&h1_solved, &cache.h1h2cache) {
        Ok(moves) => moves,
        Err(e) => {
            return Err(e);
        },
    };
    let h2_solved = h1_solved.apply_many(h2_solution.as_slice());
    proof {
        lemma_apply_moves_concat(*cube, h1_solution@, h2_solution@);
    }
    proof {
        if cube.physical() {
            lemma_phases_solve(*cube, h1_solution@, h2_solution@);
        }
    }
    if !h2_solved.is_solved() {
        return Err(SolveError::InvariantViolated);
    }
    let mut full_solution = h1_solution;
    let mut h2_solution = h2_solution;
    full_solution.append(&mut h2_solution);
    Ok(full_solution)
}

} // verus!
