//! The four-stage solver of Thistlethwaite.
//!
//! G0 is the set of all configurations of the cube that the six faces reach:
//! all solvable configurations. In G1 the upper and the lower face are
//! turned by half turns only, in G2 so are the front and the back face, in
//! G3 so are all faces; G4 is the solved cube alone. A configuration is
//! moved into G1 as quickly as possible, from there into G2, and so on.
//!
//! A cube is in G1 when all its edges are good; in G2 when, besides, all
//! its corners show their left/right color on the left or right face and
//! the four edges of the middle slice are in it; in G3 when, besides, its
//! edge positions and its corner positions are among those that half turns
//! make of the solved ones.

pub mod g0g1;
pub mod g1g2;
pub mod g2g3;
pub mod g3g4;

use crate::cube::Cube;
use crate::dfs_util::{move_allowed, result_view, SolveError};
use crate::edge_orientation_state::EdgeOrientationState;
use crate::groups::{
    lemma_good_edges_kept, lemma_half_turns_keep_g2, lemma_left_right_free_keeps_g2,
    lemma_orientations_kept, lemma_second_stage_keeps_g1,
};
use crate::moves::{ALL_DIRS, apply_moves, ApplyMove, Dir, FullMove, lemma_apply_moves_concat};
use crate::projection::{lemma_moves_keep_physical, lemma_solved_states_mean_solved};
use crate::thistlethwaite::g1g2::G1State;
use crate::total_position_state::CubePositions;
use crate::thistlethwaite::g0g1::{G0toG1Cache, solve_to_g1, solve_to_g1_spec};
use crate::thistlethwaite::g1g2::{G1toG2Cache, solve_to_g2, solve_to_g2_spec};
use crate::thistlethwaite::g2g3::{G2toG3Cache, solve_to_g3, solve_to_g3_spec};
use crate::thistlethwaite::g3g4::{G3toG4Cache, solve_to_g4, solve_to_g4_spec};
use vstd::prelude::*;

verus! {

pub struct ThistlethwaiteCaches {
    pub g0g1cache: G0toG1Cache,
    pub g1g2cache: G1toG2Cache,
    pub g2g3cache: G2toG3Cache,
    pub g3g4cache: G3toG4Cache,
}

impl ThistlethwaiteCaches {
    /// The tables of all four stages are finished.
    pub open spec fn wf(&self) -> bool {
        &&& self.g0g1cache.wf()
        &&& self.g1g2cache.wf()
        &&& self.g2g3cache.wf()
        &&& self.g3g4cache.wf()
    }

    /// Fills the tables of the four stages. `InvariantViolated` says that
    /// the enumeration of G3 did not give all pairs of its edge positions
    /// and its corner positions.
    pub fn initialize() -> (res: Result<Self, SolveError>)
        ensures
            match res {
                Ok(caches) => caches.wf(),
                Err(e) => e == SolveError::InvariantViolated,
            },
            res is Ok <==> g2g3::g3_edges().len() * g2g3::g3_corners().len()
                == g2g3::g3_states().len(),
    {
        let g2g3cache = match G2toG3Cache::initialize() {
            Ok(cache) => cache,
            Err(e) => {
                return Err(e);
            },
        };
        Ok(
            Self {
                g0g1cache: G0toG1Cache::initialize(),
                g1g2cache: G1toG2Cache::initialize(),
                g2g3cache,
                g3g4cache: G3toG4Cache::initialize(),
            },
        )
    }
}

/// What `full_solve` returns: the moves of the four stages one after
/// another, each stage started from the cube as the stages before it left
/// it; the error of the first stage that fails; `InvariantViolated` if the
/// cube is not solved after the fourth.
pub open spec fn full_solve_spec(cube: Cube, cache: &ThistlethwaiteCaches) -> Result<
    Seq<FullMove>,
    SolveError,
> {
    match solve_to_g1_spec(cube, &cache.g0g1cache) {
        Err(e) => Err(e),
        Ok(g1) => match solve_to_g2_spec(apply_moves(cube, g1), &cache.g1g2cache) {
            Err(e) => Err(e),
            Ok(g2) => match solve_to_g3_spec(apply_moves(cube, g1 + g2), &cache.g2g3cache) {
                Err(e) => Err(e),
                Ok(g3) => match solve_to_g4_spec(
                    apply_moves(cube, g1 + g2 + g3),
                    &cache.g3g4cache,
                ) {
                    Err(e) => Err(e),
                    Ok(g4) => if apply_moves(cube, g1 + g2 + g3 + g4).is_solved_spec() {
                        Ok(g1 + g2 + g3 + g4)
                    } else {
                        Err(SolveError::InvariantViolated)
                    },
                },
            },
        },
    }
}

/// What the stages reach one after another is a solved cube: on a cube that
/// can be taken apart and put together as it is, moves that make all edges
/// good, then moves of the second stage that untwist the corners and fill the
/// middle slice, then moves of the third stage, then half turns that bring
/// every cubelet to its own place, solve the cube.
pub proof fn lemma_stages_solve(
    cube: Cube,
    g1: Seq<FullMove>,
    g2: Seq<FullMove>,
    g3: Seq<FullMove>,
    g4: Seq<FullMove>,
)
    requires
        cube.physical(),
        EdgeOrientationState::from_cube_spec(apply_moves(cube, g1))
            == EdgeOrientationState::solved_spec(),
        forall|k: int|
            0 <= k < g2.len() ==> move_allowed(
                g1g2::FREE_DIRS@,
                g1g2::HALF_DIRS@,
                #[trigger] g2[k],
            ),
        G1State::from_cube_spec(apply_moves(apply_moves(cube, g1), g2)) == G1State::solved_spec(),
        forall|k: int|
            0 <= k < g3.len() ==> move_allowed(
                g2g3::G2_FREE_DIRS@,
                g2g3::G2_DOUBLE_DIRS@,
                #[trigger] g3[k],
            ),
        forall|k: int|
            0 <= k < g4.len() ==> move_allowed(Seq::<Dir>::empty(), ALL_DIRS@, #[trigger] g4[k]),
        CubePositions::readable(
            apply_moves(apply_moves(apply_moves(apply_moves(cube, g1), g2), g3), g4),
        ),
        CubePositions::from_cube_spec(
            apply_moves(apply_moves(apply_moves(apply_moves(cube, g1), g2), g3), g4),
        ) == CubePositions::solved_spec(),
    ensures
        apply_moves(apply_moves(apply_moves(apply_moves(cube, g1), g2), g3), g4).is_solved_spec(),
{
    let c1 = apply_moves(cube, g1);
    let c2 = apply_moves(c1, g2);
    let c3 = apply_moves(c2, g3);
    let c4 = apply_moves(c3, g4);
    lemma_moves_keep_physical(cube, g1);
    lemma_moves_keep_physical(c1, g2);
    lemma_moves_keep_physical(c2, g3);
    lemma_moves_keep_physical(c3, g4);
    // the second stage keeps the edges good
    lemma_second_stage_keeps_g1(g2);
    lemma_good_edges_kept(c1, g2);
    // the third and the fourth keep edges and corners as they are
    let free3 = g2g3::G2_FREE_DIRS@;
    assert(free3[0] == Dir::L && free3[1] == Dir::R);
    lemma_left_right_free_keeps_g2(free3, g2g3::G2_DOUBLE_DIRS@, g3);
    lemma_orientations_kept(c2, g3);
    lemma_half_turns_keep_g2(g4);
    lemma_orientations_kept(c3, g4);
    lemma_solved_states_mean_solved(c4);
}

/// Solves the cube stage by stage. The moves that come back solve it.
pub fn full_solve(cube: &Cube, cache: &ThistlethwaiteCaches) -> (res: Result<
    Vec<FullMove>,
    SolveError,
>)
    requires
        cache.wf(),
    ensures
        result_view(res) == full_solve_spec(*cube, cache),
        res matches Ok(moves) ==> apply_moves(*cube, moves@).is_solved_spec(),
        cube.physical() ==> res != Err::<Vec<FullMove>, SolveError>(SolveError::InvariantViolated),
{
    let g1_solution = match solve_to_g1(cube, &cache.g0g1cache) {
        Ok(moves) => moves,
        Err(e) => {
            return Err(e);
        },
    };
    let g1_solved = (*cube).apply_many(g1_solution.as_slice());
    proof {
        if cube.physical() {
            lemma_moves_keep_physical(*cube, g1_solution@);
        }
    }
    let g2_solution = match solve_to_g2(&g1_solved, &cache.g1g2cache) {
        Ok(moves) => moves,
        Err(e) => {
            return Err(e);
        },
    };
    let g2_solved = g1_solved.apply_many(g2_solution.as_slice());
    proof {
        lemma_apply_moves_concat(*cube, g1_solution@, g2_solution@);
    }
    let g3_solution = match solve_to_g3(&g2_solved, &cache.g2g3cache) {
        Ok(moves) => moves,
        Err(e) => {
            return Err(e);
        },
    };
    let g3_solved = g2_solved.apply_many(g3_solution.as_slice());
    proof {
        lemma_apply_moves_concat(*cube, g1_solution@ + g2_solution@, g3_solution@);
    }
    let g4_solution = match solve_to_g4(&g3_solved, &cache.g3g4cache) {
        Ok(moves) => moves,
        Err(e) => {
            return Err(e);
        },
    };
    let g4_solved = g3_solved.apply_many(g4_solution.as_slice());
    proof {
        lemma_apply_moves_concat(
            *cube,
            g1_solution@ + g2_solution@ + g3_solution@,
            g4_solution@,
        );
        if cube.physical() {
            assert(EdgeOrientationState::from_cube_spec(g1_solved)
                == EdgeOrientationState::solved_spec());
            assert(G1State::from_cube_spec(g2_solved) == G1State::solved_spec());
            assert(CubePositions::from_cube_spec(g4_solved) == CubePositions::solved_spec());
            lemma_stages_solve(*cube, g1_solution@, g2_solution@, g3_solution@, g4_solution@);
        }
    }
    if !g4_solved.is_solved() {
        return Err(SolveError::InvariantViolated);
    }
    let mut full_solution = g1_solution;
    let mut g2_solution = g2_solution;
    let mut g3_solution = g3_solution;
    let mut g4_solution = g4_solution;
    full_solution.append(&mut g2_solution);
    full_solution.append(&mut g3_solution);
    full_solution.append(&mut g4_solution);
    Ok(full_solution)
}

} // verus!
