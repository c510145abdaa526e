//! The moves that keep what a stage has reached: once all edges are good,
//! moves without quarter turns of the upper and the lower face keep them
//! good; once, besides, no corner is twisted and the middle slice holds its
//! own edges, moves with quarter turns of the left and the right face alone
//! keep that.

use crate::corner_orientation_state::CornerOrientationState;
use crate::cube::Cube;
use crate::dfs_util::{lemma_successors_allowed, move_allowed, successors};
use crate::edge_orientation_state::EdgeOrientationState;
use crate::edge_slice_state::EdgeMidSliceState;
use crate::moves::{ALL_DIRS, Amt, apply_move, apply_moves, CanMove, Dir, FullMove};
use crate::projection::lemma_states_follow_moves;
use vstd::prelude::*;

verus! {

/// A move that turns the upper and the lower face by half turns only.
pub open spec fn keeps_g1(m: FullMove) -> bool {
    (m.dir != Dir::U && m.dir != Dir::D) || m.amt == Amt::Two
}

/// A move that turns only the left and the right face by quarters.
pub open spec fn keeps_g2(m: FullMove) -> bool {
    m.dir == Dir::L || m.dir == Dir::R || m.amt == Amt::Two
}

/// Every move of the path turns the upper and the lower face by half turns
/// only.
pub open spec fn path_keeps_g1(path: Seq<FullMove>) -> bool {
    forall|k: int| 0 <= k < path.len() ==> keeps_g1(#[trigger] path[k])
}

/// Every move of the path turns only the left and the right face by
/// quarters.
pub open spec fn path_keeps_g2(path: Seq<FullMove>) -> bool {
    forall|k: int| 0 <= k < path.len() ==> keeps_g2(#[trigger] path[k])
}

/// A state that no move of a path changes is what the path leaves of it.
pub proof fn lemma_fixed_by_path<T: CanMove>(
    state: T,
    path: Seq<FullMove>,
    kept: spec_fn(FullMove) -> bool,
)
    requires
        forall|m: FullMove| kept(m) ==> #[trigger] apply_move(state, m) == state,
        forall|k: int| 0 <= k < path.len() ==> kept(#[trigger] path[k]),
    ensures
        apply_moves(state, path) == state,
    decreases path.len(),
{
    if path.len() > 0 {
        assert(kept(path[0]));
        assert forall|k: int| 0 <= k < path.drop_first().len() implies kept(
            #[trigger] path.drop_first()[k],
        ) by {
            assert(path.drop_first()[k] == path[k + 1]);
        }
        lemma_fixed_by_path(state, path.drop_first(), kept);
    }
}

/// Moves without quarter turns of the upper and the lower face leave all
/// edges good.
pub proof fn lemma_good_edges_stay(path: Seq<FullMove>)
    requires
        path_keeps_g1(path),
    ensures
        apply_moves(EdgeOrientationState::solved_spec(), path)
            == EdgeOrientationState::solved_spec(),
{
    let kept = |m: FullMove| keeps_g1(m);
    assert forall|m: FullMove| kept(m) implies #[trigger] apply_move(
        EdgeOrientationState::solved_spec(),
        m,
    ) == EdgeOrientationState::solved_spec() by {
        lemma_good_edges_stay_for_move(m);
    }
    lemma_fixed_by_path(EdgeOrientationState::solved_spec(), path, kept);
}

proof fn lemma_good_edges_stay_for_move(m: FullMove)
    requires
        keeps_g1(m),
    ensures
        apply_move(EdgeOrientationState::solved_spec(), m) == EdgeOrientationState::solved_spec(),
{
    let s = EdgeOrientationState::solved_spec();
    match m.dir {
        Dir::R => assert(s.r_spec() == s),
        Dir::L => assert(s.l_spec() == s),
        Dir::F => assert(s.f_spec() == s),
        Dir::B => assert(s.b_spec() == s),
        Dir::U => assert(s.u_spec().u_spec() == s),
        Dir::D => assert(s.d_spec().d_spec() == s),
    }
}

proof fn lemma_untwisted_corners_stay_for_move(m: FullMove)
    requires
        keeps_g2(m),
    ensures
        apply_move(CornerOrientationState::solved_spec(), m)
            == CornerOrientationState::solved_spec(),
{
    let s = CornerOrientationState::solved_spec();
    match m.dir {
        Dir::R => assert(s.r_spec() == s),
        Dir::L => assert(s.l_spec() == s),
        Dir::F => assert(s.f_spec().f_spec() == s),
        Dir::B => assert(s.b_spec().b_spec() == s),
        Dir::U => assert(s.u_spec().u_spec() == s),
        Dir::D => assert(s.d_spec().d_spec() == s),
    }
}

proof fn lemma_middle_slice_stays_for_move(m: FullMove)
    requires
        keeps_g2(m),
    ensures
        apply_move(EdgeMidSliceState::solved_spec(), m) == EdgeMidSliceState::solved_spec(),
{
    let s = EdgeMidSliceState::solved_spec();
    match m.dir {
        Dir::R => assert(s.r_spec() == s),
        Dir::L => assert(s.l_spec() == s),
        Dir::F => assert(s.f_spec().f_spec() == s),
        Dir::B => assert(s.b_spec().b_spec() == s),
        Dir::U => assert(s.u_spec().u_spec() == s),
        Dir::D => assert(s.d_spec().d_spec() == s),
    }
}

/// Moves with quarter turns of the left and the right face alone leave all
/// edges good, all corners untwisted and the edges of the middle slice in
/// it.
pub proof fn lemma_orientations_stay(path: Seq<FullMove>)
    requires
        path_keeps_g2(path),
    ensures
        apply_moves(EdgeOrientationState::solved_spec(), path)
            == EdgeOrientationState::solved_spec(),
        apply_moves(CornerOrientationState::solved_spec(), path)
            == CornerOrientationState::solved_spec(),
        apply_moves(EdgeMidSliceState::solved_spec(), path) == EdgeMidSliceState::solved_spec(),
{
    let kept = |m: FullMove| keeps_g2(m);
    assert(path_keeps_g1(path)) by {
        assert forall|k: int| 0 <= k < path.len() implies keeps_g1(#[trigger] path[k]) by {
            assert(keeps_g2(path[k]));
        }
    }
    lemma_good_edges_stay(path);
    assert forall|m: FullMove| kept(m) implies #[trigger] apply_move(
        CornerOrientationState::solved_spec(),
        m,
    ) == CornerOrientationState::solved_spec() by {
        lemma_untwisted_corners_stay_for_move(m);
    }
    lemma_fixed_by_path(CornerOrientationState::solved_spec(), path, kept);
    assert forall|m: FullMove| kept(m) implies #[trigger] apply_move(
        EdgeMidSliceState::solved_spec(),
        m,
    ) == EdgeMidSliceState::solved_spec() by {
        lemma_middle_slice_stays_for_move(m);
    }
    lemma_fixed_by_path(EdgeMidSliceState::solved_spec(), path, kept);
}

/// The moves of a generator without quarter turns of the upper and the
/// lower face.
pub proof fn lemma_allowed_keeps_g1(free: Seq<Dir>, half: Seq<Dir>, path: Seq<FullMove>)
    requires
        !free.contains(Dir::U),
        !free.contains(Dir::D),
        forall|k: int| 0 <= k < path.len() ==> move_allowed(free, half, #[trigger] path[k]),
    ensures
        path_keeps_g1(path),
{
    assert forall|k: int| 0 <= k < path.len() implies keeps_g1(#[trigger] path[k]) by {
        assert(move_allowed(free, half, path[k]));
    }
}

/// The moves of a generator with quarter turns of the left and the right
/// face alone.
pub proof fn lemma_allowed_keeps_g2(free: Seq<Dir>, half: Seq<Dir>, path: Seq<FullMove>)
    requires
        forall|d: Dir| free.contains(d) ==> d == Dir::L || d == Dir::R,
        forall|k: int| 0 <= k < path.len() ==> move_allowed(free, half, #[trigger] path[k]),
    ensures
        path_keeps_g2(path),
{
    assert forall|k: int| 0 <= k < path.len() implies keeps_g2(#[trigger] path[k]) by {
        assert(move_allowed(free, half, path[k]));
    }
}

/// On a cube made of genuine cubelets whose edges are all good, moves
/// without quarter turns of the upper and the lower face leave them good.
pub proof fn lemma_good_edges_kept(cube: Cube, path: Seq<FullMove>)
    requires
        cube.well_formed(),
        EdgeOrientationState::from_cube_spec(cube) == EdgeOrientationState::solved_spec(),
        path_keeps_g1(path),
    ensures
        EdgeOrientationState::from_cube_spec(apply_moves(cube, path))
            == EdgeOrientationState::solved_spec(),
{
    lemma_states_follow_moves(cube, path);
    lemma_good_edges_stay(path);
}

/// On a cube made of genuine cubelets whose edges are all good and whose
/// corners are all untwisted, moves with quarter turns of the left and the
/// right face alone leave them so.
pub proof fn lemma_orientations_kept(cube: Cube, path: Seq<FullMove>)
    requires
        cube.well_formed(),
        EdgeOrientationState::from_cube_spec(cube) == EdgeOrientationState::solved_spec(),
        CornerOrientationState::from_cube_spec(cube) == CornerOrientationState::solved_spec(),
        path_keeps_g2(path),
    ensures
        EdgeOrientationState::from_cube_spec(apply_moves(cube, path))
            == EdgeOrientationState::solved_spec(),
        CornerOrientationState::from_cube_spec(apply_moves(cube, path))
            == CornerOrientationState::solved_spec(),
{
    lemma_states_follow_moves(cube, path);
    lemma_orientations_stay(path);
}

/// The moves of the second stage of the four turn the upper and the lower
/// face by half turns only.
pub proof fn lemma_second_stage_keeps_g1(path: Seq<FullMove>)
    requires
        forall|k: int|
            0 <= k < path.len() ==> move_allowed(
                crate::thistlethwaite::g1g2::FREE_DIRS@,
                crate::thistlethwaite::g1g2::HALF_DIRS@,
                #[trigger] path[k],
            ),
    ensures
        path_keeps_g1(path),
{
    let free = crate::thistlethwaite::g1g2::FREE_DIRS@;
    assert(free[0] == Dir::B && free[1] == Dir::F && free[2] == Dir::L && free[3] == Dir::R);
    lemma_allowed_keeps_g1(free, crate::thistlethwaite::g1g2::HALF_DIRS@, path);
}

/// The moves of a stage whose free faces are the left and the right one
/// turn only these by quarters.
pub proof fn lemma_left_right_free_keeps_g2(free: Seq<Dir>, half: Seq<Dir>, path: Seq<FullMove>)
    requires
        free.len() == 2,
        free[0] == Dir::L,
        free[1] == Dir::R,
        forall|k: int| 0 <= k < path.len() ==> move_allowed(free, half, #[trigger] path[k]),
    ensures
        path_keeps_g2(path),
{
    lemma_allowed_keeps_g2(free, half, path);
}

/// Half turns keep what every stage has reached.
pub proof fn lemma_half_turns_keep_g2(path: Seq<FullMove>)
    requires
        forall|k: int|
            0 <= k < path.len() ==> move_allowed(
                Seq::<Dir>::empty(),
                ALL_DIRS@,
                #[trigger] path[k],
            ),
    ensures
        path_keeps_g2(path),
{
    lemma_allowed_keeps_g2(Seq::<Dir>::empty(), ALL_DIRS@, path);
}

} // verus!
