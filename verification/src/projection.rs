//! The states of a cube follow the cube: the state of a turned cube is the
//! turned state of the cube.

use crate::corner_orientation_state::CornerOrientationState;
use crate::corner_position_state::CubeCornerPositions;
use crate::cube::{Cube, Facelet, lemma_third_corner_cycle, lemma_third_corner_defined};
use crate::edge_orientation_state::EdgeOrientationState;
use crate::edge_position_state::CubeEdgePositions;
use crate::edge_slice_state::EdgeMidSliceState;
use crate::moves::{apply_move, apply_moves, CanMove, Dir, FullMove, turn};
use crate::total_position_state::CubePositions;
use vstd::prelude::*;

verus! {

/// `state_of` follows `cube` through a quarter turn of `dir` if `sound` holds
/// of `cube`, and the turn keeps `sound`.
pub open spec fn follows_turn<T: CanMove>(
    state_of: spec_fn(Cube) -> T,
    sound: spec_fn(Cube) -> bool,
    cube: Cube,
    dir: Dir,
) -> bool {
    sound(cube) ==> sound(turn(cube, dir)) && state_of(turn(cube, dir)) == turn(
        state_of(cube),
        dir,
    )
}

/// `state_of` follows the cube through quarter turns, on the cubes of which
/// `sound` holds, and quarter turns keep `sound`.
pub open spec fn follows_turns<T: CanMove>(
    state_of: spec_fn(Cube) -> T,
    sound: spec_fn(Cube) -> bool,
) -> bool {
    forall|cube: Cube, dir: Dir| #[trigger] follows_turn(state_of, sound, cube, dir)
}

/// What follows the cube through quarter turns follows it through moves.
pub proof fn lemma_follows_move<T: CanMove>(
    state_of: spec_fn(Cube) -> T,
    sound: spec_fn(Cube) -> bool,
    cube: Cube,
    m: FullMove,
)
    requires
        follows_turns(state_of, sound),
        sound(cube),
    ensures
        sound(apply_move(cube, m)),
        state_of(apply_move(cube, m)) == apply_move(state_of(cube), m),
{
    let c1 = turn(cube, m.dir);
    let c2 = turn(c1, m.dir);
    assert(follows_turn(state_of, sound, cube, m.dir));
    assert(follows_turn(state_of, sound, c1, m.dir));
    assert(follows_turn(state_of, sound, c2, m.dir));
}

/// What follows the cube through quarter turns follows it through any list
/// of moves.
pub proof fn lemma_follows_moves<T: CanMove>(
    state_of: spec_fn(Cube) -> T,
    sound: spec_fn(Cube) -> bool,
    cube: Cube,
    moves: Seq<FullMove>,
)
    requires
        follows_turns(state_of, sound),
        sound(cube),
    ensures
        sound(apply_moves(cube, moves)),
        state_of(apply_moves(cube, moves)) == apply_moves(state_of(cube), moves),
    decreases moves.len(),
{
    if moves.len() > 0 {
        lemma_follows_move(state_of, sound, cube, moves[0]);
        lemma_follows_moves(state_of, sound, apply_move(cube, moves[0]), moves.drop_first());
    }
}

proof fn lemma_right_turn_keeps_well_formed(cube: Cube)
    requires
        cube.well_formed(),
    ensures
        cube.r_spec().well_formed(),
{
    assert(cube.r_spec().centers_distinct());
    assert(cube.r_spec().edges_genuine());
    assert(cube.r_spec().corners_genuine());
}

proof fn lemma_left_turn_keeps_well_formed(cube: Cube)
    requires
        cube.well_formed(),
    ensures
        cube.l_spec().well_formed(),
{
    assert(cube.l_spec().centers_distinct());
    assert(cube.l_spec().edges_genuine());
    assert(cube.l_spec().corners_genuine());
}

proof fn lemma_upper_turn_keeps_well_formed(cube: Cube)
    requires
        cube.well_formed(),
    ensures
        cube.u_spec().well_formed(),
{
    assert(cube.u_spec().centers_distinct());
    assert(cube.u_spec().edges_genuine());
    assert(cube.u_spec().corners_genuine());
}

proof fn lemma_lower_turn_keeps_well_formed(cube: Cube)
    requires
        cube.well_formed(),
    ensures
        cube.d_spec().well_formed(),
{
    assert(cube.d_spec().centers_distinct());
    assert(cube.d_spec().edges_genuine());
    assert(cube.d_spec().corners_genuine());
}

proof fn lemma_back_turn_keeps_well_formed(cube: Cube)
    requires
        cube.well_formed(),
    ensures
        cube.b_spec().well_formed(),
{
    assert(cube.b_spec().centers_distinct());
    assert(cube.b_spec().edges_genuine());
    assert(cube.b_spec().corners_genuine());
}

proof fn lemma_front_turn_keeps_well_formed(cube: Cube)
    requires
        cube.well_formed(),
    ensures
        cube.f_spec().well_formed(),
{
    assert(cube.f_spec().centers_distinct());
    assert(cube.f_spec().edges_genuine());
    assert(cube.f_spec().corners_genuine());
}

/// A quarter turn keeps a cube made of genuine cubelets one.
pub proof fn lemma_turn_keeps_well_formed(cube: Cube, dir: Dir)
    requires
        cube.well_formed(),
    ensures
        turn(cube, dir).well_formed(),
{
    match dir {
        Dir::R => lemma_right_turn_keeps_well_formed(cube),
        Dir::L => lemma_left_turn_keeps_well_formed(cube),
        Dir::U => lemma_upper_turn_keeps_well_formed(cube),
        Dir::D => lemma_lower_turn_keeps_well_formed(cube),
        Dir::B => lemma_back_turn_keeps_well_formed(cube),
        Dir::F => lemma_front_turn_keeps_well_formed(cube),
    }
}

/// The edge slice state of a turned cube is the turned edge slice state of
/// the cube, whatever the cube.
pub proof fn lemma_edge_slice_follows_turn(cube: Cube, dir: Dir)
    ensures
        EdgeMidSliceState::from_cube_spec(turn(cube, dir)) == turn(
            EdgeMidSliceState::from_cube_spec(cube),
            dir,
        ),
{
    match dir {
        Dir::R => assert(EdgeMidSliceState::from_cube_spec(cube.r_spec())
            == EdgeMidSliceState::from_cube_spec(cube).r_spec()),
        Dir::L => assert(EdgeMidSliceState::from_cube_spec(cube.l_spec())
            == EdgeMidSliceState::from_cube_spec(cube).l_spec()),
        Dir::U => assert(EdgeMidSliceState::from_cube_spec(cube.u_spec())
            == EdgeMidSliceState::from_cube_spec(cube).u_spec()),
        Dir::D => assert(EdgeMidSliceState::from_cube_spec(cube.d_spec())
            == EdgeMidSliceState::from_cube_spec(cube).d_spec()),
        Dir::B => assert(EdgeMidSliceState::from_cube_spec(cube.b_spec())
            == EdgeMidSliceState::from_cube_spec(cube).b_spec()),
        Dir::F => assert(EdgeMidSliceState::from_cube_spec(cube.f_spec())
            == EdgeMidSliceState::from_cube_spec(cube).f_spec()),
    }
}

/// An edge of two axes is good seen from one of its facelets exactly if it
/// is bad seen from the other.
pub proof fn lemma_edge_seen_from_other_side(cube: Cube, a: Facelet, b: Facelet)
    requires
        cube.centers_distinct(),
        cube.on_two_axes(a, b),
    ensures
        crate::edge_orientation_state::lr_good_spec(cube, b, a)
            == !crate::edge_orientation_state::lr_good_spec(cube, a, b),
        crate::edge_orientation_state::ud_mid_good_spec(cube, a, b)
            == crate::edge_orientation_state::lr_good_spec(cube, a, b),
{
}

/// A corner of three axes seen from the facelet before is twisted once
/// more clockwise, seen from the facelet after once more counterclockwise.
pub proof fn lemma_corner_seen_from_other_side(
    cube: Cube,
    side: Facelet,
    next: Facelet,
    third: Facelet,
)
    requires
        cube.centers_distinct(),
        cube.on_three_axes(side, next, third),
    ensures
        crate::corner_orientation_state::orientation_spec(cube, third, side)
            == crate::corner_orientation_state::orientation_spec(cube, side, next).cw_spec(),
        crate::corner_orientation_state::orientation_spec(cube, next, third)
            == crate::corner_orientation_state::orientation_spec(cube, side, next).ccw_spec(),
{
}

/// Every edge of a cube made of genuine cubelets is good seen from one of
/// its facelets exactly if it is bad seen from the other.
proof fn lemma_edges_seen_from_other_side(cube: Cube)
    requires
        cube.well_formed(),
    ensures
        crate::edge_orientation_state::lr_good_spec(cube, cube.f.uc, cube.u.fc)
            == !crate::edge_orientation_state::lr_good_spec(cube, cube.u.fc, cube.f.uc),
        crate::edge_orientation_state::lr_good_spec(cube, cube.r.uc, cube.u.rc)
            == !crate::edge_orientation_state::lr_good_spec(cube, cube.u.rc, cube.r.uc),
        crate::edge_orientation_state::lr_good_spec(cube, cube.b.uc, cube.u.bc)
            == !crate::edge_orientation_state::lr_good_spec(cube, cube.u.bc, cube.b.uc),
        crate::edge_orientation_state::lr_good_spec(cube, cube.l.uc, cube.u.lc)
            == !crate::edge_orientation_state::lr_good_spec(cube, cube.u.lc, cube.l.uc),
        crate::edge_orientation_state::lr_good_spec(cube, cube.l.fc, cube.f.lc)
            == !crate::edge_orientation_state::lr_good_spec(cube, cube.f.lc, cube.l.fc),
        crate::edge_orientation_state::lr_good_spec(cube, cube.r.fc, cube.f.rc)
            == !crate::edge_orientation_state::lr_good_spec(cube, cube.f.rc, cube.r.fc),
        crate::edge_orientation_state::lr_good_spec(cube, cube.l.bc, cube.b.lc)
            == !crate::edge_orientation_state::lr_good_spec(cube, cube.b.lc, cube.l.bc),
        crate::edge_orientation_state::lr_good_spec(cube, cube.r.bc, cube.b.rc)
            == !crate::edge_orientation_state::lr_good_spec(cube, cube.b.rc, cube.r.bc),
        crate::edge_orientation_state::lr_good_spec(cube, cube.f.dc, cube.d.fc)
            == !crate::edge_orientation_state::lr_good_spec(cube, cube.d.fc, cube.f.dc),
        crate::edge_orientation_state::lr_good_spec(cube, cube.r.dc, cube.d.rc)
            == !crate::edge_orientation_state::lr_good_spec(cube, cube.d.rc, cube.r.dc),
        crate::edge_orientation_state::lr_good_spec(cube, cube.b.dc, cube.d.bc)
            == !crate::edge_orientation_state::lr_good_spec(cube, cube.d.bc, cube.b.dc),
        crate::edge_orientation_state::lr_good_spec(cube, cube.l.dc, cube.d.lc)
            == !crate::edge_orientation_state::lr_good_spec(cube, cube.d.lc, cube.l.dc),
{
    lemma_edge_seen_from_other_side(cube, cube.u.fc, cube.f.uc);
    lemma_edge_seen_from_other_side(cube, cube.u.rc, cube.r.uc);
    lemma_edge_seen_from_other_side(cube, cube.u.bc, cube.b.uc);
    lemma_edge_seen_from_other_side(cube, cube.u.lc, cube.l.uc);
    lemma_edge_seen_from_other_side(cube, cube.f.lc, cube.l.fc);
    lemma_edge_seen_from_other_side(cube, cube.f.rc, cube.r.fc);
    lemma_edge_seen_from_other_side(cube, cube.b.lc, cube.l.bc);
    lemma_edge_seen_from_other_side(cube, cube.b.rc, cube.r.bc);
    lemma_edge_seen_from_other_side(cube, cube.d.fc, cube.f.dc);
    lemma_edge_seen_from_other_side(cube, cube.d.rc, cube.r.dc);
    lemma_edge_seen_from_other_side(cube, cube.d.bc, cube.b.dc);
    lemma_edge_seen_from_other_side(cube, cube.d.lc, cube.l.dc);
}

/// Every corner of a cube made of genuine cubelets is twisted once more
/// seen from the facelet before, once less seen from the facelet after.
proof fn lemma_corners_seen_from_other_side(cube: Cube)
    requires
        cube.well_formed(),
    ensures
        crate::corner_orientation_state::orientation_spec(cube, cube.f.ul, cube.l.uf)
            == crate::corner_orientation_state::orientation_spec(
                cube,
                cube.l.uf,
                cube.u.fl,
            ).cw_spec(),
        crate::corner_orientation_state::orientation_spec(cube, cube.u.fl, cube.f.ul)
            == crate::corner_orientation_state::orientation_spec(
                cube,
                cube.l.uf,
                cube.u.fl,
            ).ccw_spec(),
        crate::corner_orientation_state::orientation_spec(cube, cube.u.fr, cube.r.uf)
            == crate::corner_orientation_state::orientation_spec(
                cube,
                cube.r.uf,
                cube.f.ur,
            ).cw_spec(),
        crate::corner_orientation_state::orientation_spec(cube, cube.f.ur, cube.u.fr)
            == crate::corner_orientation_state::orientation_spec(
                cube,
                cube.r.uf,
                cube.f.ur,
            ).ccw_spec(),
        crate::corner_orientation_state::orientation_spec(cube, cube.b.ur, cube.r.ub)
            == crate::corner_orientation_state::orientation_spec(
                cube,
                cube.r.ub,
                cube.u.br,
            ).cw_spec(),
        crate::corner_orientation_state::orientation_spec(cube, cube.u.br, cube.b.ur)
            == crate::corner_orientation_state::orientation_spec(
                cube,
                cube.r.ub,
                cube.u.br,
            ).ccw_spec(),
        crate::corner_orientation_state::orientation_spec(cube, cube.u.bl, cube.l.ub)
            == crate::corner_orientation_state::orientation_spec(
                cube,
                cube.l.ub,
                cube.b.ul,
            ).cw_spec(),
        crate::corner_orientation_state::orientation_spec(cube, cube.b.ul, cube.u.bl)
            == crate::corner_orientation_state::orientation_spec(
                cube,
                cube.l.ub,
                cube.b.ul,
            ).ccw_spec(),
        crate::corner_orientation_state::orientation_spec(cube, cube.d.fl, cube.l.df)
            == crate::corner_orientation_state::orientation_spec(
                cube,
                cube.l.df,
                cube.f.dl,
            ).cw_spec(),
        crate::corner_orientation_state::orientation_spec(cube, cube.f.dl, cube.d.fl)
            == crate::corner_orientation_state::orientation_spec(
                cube,
                cube.l.df,
                cube.f.dl,
            ).ccw_spec(),
        crate::corner_orientation_state::orientation_spec(cube, cube.f.dr, cube.r.df)
            == crate::corner_orientation_state::orientation_spec(
                cube,
                cube.r.df,
                cube.d.fr,
            ).cw_spec(),
        crate::corner_orientation_state::orientation_spec(cube, cube.d.fr, cube.f.dr)
            == crate::corner_orientation_state::orientation_spec(
                cube,
                cube.r.df,
                cube.d.fr,
            ).ccw_spec(),
        crate::corner_orientation_state::orientation_spec(cube, cube.d.br, cube.r.db)
            == crate::corner_orientation_state::orientation_spec(
                cube,
                cube.r.db,
                cube.b.dr,
            ).cw_spec(),
        crate::corner_orientation_state::orientation_spec(cube, cube.b.dr, cube.d.br)
            == crate::corner_orientation_state::orientation_spec(
                cube,
                cube.r.db,
                cube.b.dr,
            ).ccw_spec(),
        crate::corner_orientation_state::orientation_spec(cube, cube.b.dl, cube.l.db)
            == crate::corner_orientation_state::orientation_spec(
                cube,
                cube.l.db,
                cube.d.bl,
            ).cw_spec(),
        crate::corner_orientation_state::orientation_spec(cube, cube.d.bl, cube.b.dl)
            == crate::corner_orientation_state::orientation_spec(
                cube,
                cube.l.db,
                cube.d.bl,
            ).ccw_spec(),
{
    lemma_corner_seen_from_other_side(cube, cube.l.uf, cube.u.fl, cube.f.ul);
    lemma_corner_seen_from_other_side(cube, cube.r.uf, cube.f.ur, cube.u.fr);
    lemma_corner_seen_from_other_side(cube, cube.r.ub, cube.u.br, cube.b.ur);
    lemma_corner_seen_from_other_side(cube, cube.l.ub, cube.b.ul, cube.u.bl);
    lemma_corner_seen_from_other_side(cube, cube.l.df, cube.f.dl, cube.d.fl);
    lemma_corner_seen_from_other_side(cube, cube.r.df, cube.d.fr, cube.f.dr);
    lemma_corner_seen_from_other_side(cube, cube.r.db, cube.b.dr, cube.d.br);
    lemma_corner_seen_from_other_side(cube, cube.l.db, cube.d.bl, cube.b.dl);
}

proof fn lemma_edge_orientation_follows_right(cube: Cube)
    requires
        cube.well_formed(),
    ensures
        EdgeOrientationState::from_cube_spec(cube.r_spec())
            == EdgeOrientationState::from_cube_spec(cube).r_spec(),
{
    lemma_edges_seen_from_other_side(cube);
}

proof fn lemma_edge_orientation_follows_left(cube: Cube)
    requires
        cube.well_formed(),
    ensures
        EdgeOrientationState::from_cube_spec(cube.l_spec())
            == EdgeOrientationState::from_cube_spec(cube).l_spec(),
{
    lemma_edges_seen_from_other_side(cube);
}

proof fn lemma_edge_orientation_follows_upper(cube: Cube)
    requires
        cube.well_formed(),
    ensures
        EdgeOrientationState::from_cube_spec(cube.u_spec())
            == EdgeOrientationState::from_cube_spec(cube).u_spec(),
{
    lemma_edges_seen_from_other_side(cube);
}

proof fn lemma_edge_orientation_follows_lower(cube: Cube)
    requires
        cube.well_formed(),
    ensures
        EdgeOrientationState::from_cube_spec(cube.d_spec())
            == EdgeOrientationState::from_cube_spec(cube).d_spec(),
{
    lemma_edges_seen_from_other_side(cube);
}

proof fn lemma_edge_orientation_follows_back(cube: Cube)
    requires
        cube.well_formed(),
    ensures
        EdgeOrientationState::from_cube_spec(cube.b_spec())
            == EdgeOrientationState::from_cube_spec(cube).b_spec(),
{
    lemma_edges_seen_from_other_side(cube);
}

proof fn lemma_edge_orientation_follows_front(cube: Cube)
    requires
        cube.well_formed(),
    ensures
        EdgeOrientationState::from_cube_spec(cube.f_spec())
            == EdgeOrientationState::from_cube_spec(cube).f_spec(),
{
    lemma_edges_seen_from_other_side(cube);
}

/// The edge orientation state of a turned cube is the turned edge
/// orientation state of the cube, for a cube made of genuine cubelets.
pub proof fn lemma_edge_orientation_follows_turn(cube: Cube, dir: Dir)
    requires
        cube.well_formed(),
    ensures
        EdgeOrientationState::from_cube_spec(turn(cube, dir)) == turn(
            EdgeOrientationState::from_cube_spec(cube),
            dir,
        ),
{
    match dir {
        Dir::R => lemma_edge_orientation_follows_right(cube),
        Dir::L => lemma_edge_orientation_follows_left(cube),
        Dir::U => lemma_edge_orientation_follows_upper(cube),
        Dir::D => lemma_edge_orientation_follows_lower(cube),
        Dir::B => lemma_edge_orientation_follows_back(cube),
        Dir::F => lemma_edge_orientation_follows_front(cube),
    }
}

proof fn lemma_corner_orientation_follows_right(cube: Cube)
    requires
        cube.well_formed(),
    ensures
        CornerOrientationState::from_cube_spec(cube.r_spec())
            == CornerOrientationState::from_cube_spec(cube).r_spec(),
{
    lemma_corners_seen_from_other_side(cube);
}

proof fn lemma_corner_orientation_follows_left(cube: Cube)
    requires
        cube.well_formed(),
    ensures
        CornerOrientationState::from_cube_spec(cube.l_spec())
            == CornerOrientationState::from_cube_spec(cube).l_spec(),
{
    lemma_corners_seen_from_other_side(cube);
}

proof fn lemma_corner_orientation_follows_upper(cube: Cube)
    requires
        cube.well_formed(),
    ensures
        CornerOrientationState::from_cube_spec(cube.u_spec())
            == CornerOrientationState::from_cube_spec(cube).u_spec(),
{
    lemma_corners_seen_from_other_side(cube);
}

proof fn lemma_corner_orientation_follows_lower(cube: Cube)
    requires
        cube.well_formed(),
    ensures
        CornerOrientationState::from_cube_spec(cube.d_spec())
            == CornerOrientationState::from_cube_spec(cube).d_spec(),
{
    lemma_corners_seen_from_other_side(cube);
}

proof fn lemma_corner_orientation_follows_back(cube: Cube)
    requires
        cube.well_formed(),
    ensures
        CornerOrientationState::from_cube_spec(cube.b_spec())
            == CornerOrientationState::from_cube_spec(cube).b_spec(),
{
    lemma_corners_seen_from_other_side(cube);
}

proof fn lemma_corner_orientation_follows_front(cube: Cube)
    requires
        cube.well_formed(),
    ensures
        CornerOrientationState::from_cube_spec(cube.f_spec())
            == CornerOrientationState::from_cube_spec(cube).f_spec(),
{
    lemma_corners_seen_from_other_side(cube);
}

/// The corner orientation state of a turned cube is the turned corner
/// orientation state of the cube, for a cube made of genuine cubelets.
pub proof fn lemma_corner_orientation_follows_turn(cube: Cube, dir: Dir)
    requires
        cube.well_formed(),
    ensures
        CornerOrientationState::from_cube_spec(turn(cube, dir)) == turn(
            CornerOrientationState::from_cube_spec(cube),
            dir,
        ),
{
    match dir {
        Dir::R => lemma_corner_orientation_follows_right(cube),
        Dir::L => lemma_corner_orientation_follows_left(cube),
        Dir::U => lemma_corner_orientation_follows_upper(cube),
        Dir::D => lemma_corner_orientation_follows_lower(cube),
        Dir::B => lemma_corner_orientation_follows_back(cube),
        Dir::F => lemma_corner_orientation_follows_front(cube),
    }
}

/// The cubelet of an edge does not depend on the facelet from which the
/// edge is seen.
pub proof fn lemma_edge_at_symmetric(cube: Cube, a: Facelet, b: Facelet)
    ensures
        crate::edge_position_state::edge_at(cube, b, a) == crate::edge_position_state::edge_at(
            cube,
            a,
            b,
        ),
{
    reveal(crate::edge_position_state::edge_at);
}

/// Whether a corner shows three colors does not depend on the facelet from
/// which it is seen, nor on the way round.
pub proof fn lemma_corner_match_symmetric(
    a: Facelet,
    b: Facelet,
    c: Facelet,
    x: Facelet,
    y: Facelet,
    z: Facelet,
)
    ensures
        crate::corner_position_state::is_corner_match(b, c, a, x, y, z)
            == crate::corner_position_state::is_corner_match(a, b, c, x, y, z),
        crate::corner_position_state::is_corner_match(a, c, b, x, y, z)
            == crate::corner_position_state::is_corner_match(a, b, c, x, y, z),
{
}

/// The cubelet of a corner is the same seen from the next facelet, and the
/// same the other way round.
proof fn lemma_corner_at_turned(cube: Cube, a: Facelet, b: Facelet, c: Facelet)
    ensures
        crate::corner_position_state::corner_at(cube, b, c, a)
            == crate::corner_position_state::corner_at(cube, a, b, c),
        crate::corner_position_state::corner_at(cube, a, c, b)
            == crate::corner_position_state::corner_at(cube, a, b, c),
{
    reveal(crate::corner_position_state::corner_at);
    let l = cube.l.cc;
    let r = cube.r.cc;
    let u = cube.u.cc;
    let d = cube.d.cc;
    let f = cube.f.cc;
    let bk = cube.b.cc;
    lemma_corner_match_symmetric(a, b, c, f, u, r);
    lemma_corner_match_symmetric(a, b, c, f, u, l);
    lemma_corner_match_symmetric(a, b, c, f, d, r);
    lemma_corner_match_symmetric(a, b, c, f, d, l);
    lemma_corner_match_symmetric(a, b, c, bk, u, r);
    lemma_corner_match_symmetric(a, b, c, bk, u, l);
    lemma_corner_match_symmetric(a, b, c, bk, d, r);
    lemma_corner_match_symmetric(a, b, c, bk, d, l);
}

/// The cubelet of a corner does not depend on the facelet from which the
/// corner is seen, nor on the way round.
pub proof fn lemma_corner_at_symmetric(cube: Cube, a: Facelet, b: Facelet, c: Facelet)
    ensures
        crate::corner_position_state::corner_at(cube, b, c, a)
            == crate::corner_position_state::corner_at(cube, a, b, c),
        crate::corner_position_state::corner_at(cube, c, a, b)
            == crate::corner_position_state::corner_at(cube, a, b, c),
        crate::corner_position_state::corner_at(cube, a, c, b)
            == crate::corner_position_state::corner_at(cube, a, b, c),
        crate::corner_position_state::corner_at(cube, b, a, c)
            == crate::corner_position_state::corner_at(cube, a, b, c),
        crate::corner_position_state::corner_at(cube, c, b, a)
            == crate::corner_position_state::corner_at(cube, a, b, c),
{
    lemma_corner_at_turned(cube, a, b, c);
    lemma_corner_at_turned(cube, b, c, a);
    lemma_corner_at_turned(cube, c, a, b);
}

/// Two cubes with the same centers.
pub open spec fn same_centers(c1: Cube, c2: Cube) -> bool {
    &&& c1.u.cc == c2.u.cc
    &&& c1.d.cc == c2.d.cc
    &&& c1.l.cc == c2.l.cc
    &&& c1.r.cc == c2.r.cc
    &&& c1.f.cc == c2.f.cc
    &&& c1.b.cc == c2.b.cc
}

/// Which cubelet shows given colors depends on the centers of the cube
/// alone, and turns leave the centers where they are.
pub proof fn lemma_cubelets_by_centers(c1: Cube, c2: Cube)
    requires
        same_centers(c1, c2),
    ensures
        forall|a: Facelet, b: Facelet| #[trigger]
            crate::edge_position_state::edge_at(c1, a, b) == crate::edge_position_state::edge_at(
                c2,
                a,
                b,
            ),
        forall|a: Facelet, b: Facelet, c: Facelet| #[trigger]
            crate::corner_position_state::corner_at(c1, a, b, c)
                == crate::corner_position_state::corner_at(c2, a, b, c),
{
    reveal(crate::edge_position_state::edge_at);
    reveal(crate::corner_position_state::corner_at);
}

proof fn lemma_edges_at_symmetric(cube: Cube)
    ensures
        crate::edge_position_state::edge_at(cube, cube.f.uc, cube.u.fc)
            == crate::edge_position_state::edge_at(cube, cube.u.fc, cube.f.uc),
        crate::edge_position_state::edge_at(cube, cube.r.uc, cube.u.rc)
            == crate::edge_position_state::edge_at(cube, cube.u.rc, cube.r.uc),
        crate::edge_position_state::edge_at(cube, cube.b.uc, cube.u.bc)
            == crate::edge_position_state::edge_at(cube, cube.u.bc, cube.b.uc),
        crate::edge_position_state::edge_at(cube, cube.l.uc, cube.u.lc)
            == crate::edge_position_state::edge_at(cube, cube.u.lc, cube.l.uc),
        crate::edge_position_state::edge_at(cube, cube.l.fc, cube.f.lc)
            == crate::edge_position_state::edge_at(cube, cube.f.lc, cube.l.fc),
        crate::edge_position_state::edge_at(cube, cube.r.fc, cube.f.rc)
            == crate::edge_position_state::edge_at(cube, cube.f.rc, cube.r.fc),
        crate::edge_position_state::edge_at(cube, cube.l.bc, cube.b.lc)
            == crate::edge_position_state::edge_at(cube, cube.b.lc, cube.l.bc),
        crate::edge_position_state::edge_at(cube, cube.r.bc, cube.b.rc)
            == crate::edge_position_state::edge_at(cube, cube.b.rc, cube.r.bc),
        crate::edge_position_state::edge_at(cube, cube.f.dc, cube.d.fc)
            == crate::edge_position_state::edge_at(cube, cube.d.fc, cube.f.dc),
        crate::edge_position_state::edge_at(cube, cube.r.dc, cube.d.rc)
            == crate::edge_position_state::edge_at(cube, cube.d.rc, cube.r.dc),
        crate::edge_position_state::edge_at(cube, cube.b.dc, cube.d.bc)
            == crate::edge_position_state::edge_at(cube, cube.d.bc, cube.b.dc),
        crate::edge_position_state::edge_at(cube, cube.l.dc, cube.d.lc)
            == crate::edge_position_state::edge_at(cube, cube.d.lc, cube.l.dc),
{
    lemma_edge_at_symmetric(cube, cube.u.fc, cube.f.uc);
    lemma_edge_at_symmetric(cube, cube.u.rc, cube.r.uc);
    lemma_edge_at_symmetric(cube, cube.u.bc, cube.b.uc);
    lemma_edge_at_symmetric(cube, cube.u.lc, cube.l.uc);
    lemma_edge_at_symmetric(cube, cube.f.lc, cube.l.fc);
    lemma_edge_at_symmetric(cube, cube.f.rc, cube.r.fc);
    lemma_edge_at_symmetric(cube, cube.b.lc, cube.l.bc);
    lemma_edge_at_symmetric(cube, cube.b.rc, cube.r.bc);
    lemma_edge_at_symmetric(cube, cube.d.fc, cube.f.dc);
    lemma_edge_at_symmetric(cube, cube.d.rc, cube.r.dc);
    lemma_edge_at_symmetric(cube, cube.d.bc, cube.b.dc);
    lemma_edge_at_symmetric(cube, cube.d.lc, cube.l.dc);
}

proof fn lemma_corners_at_symmetric(cube: Cube)
    ensures
        crate::corner_position_state::corner_at(cube, cube.u.fr, cube.r.uf, cube.f.ur)
            == crate::corner_position_state::corner_at(cube, cube.f.ur, cube.u.fr, cube.r.uf),
        crate::corner_position_state::corner_at(cube, cube.r.uf, cube.f.ur, cube.u.fr)
            == crate::corner_position_state::corner_at(cube, cube.f.ur, cube.u.fr, cube.r.uf),
        crate::corner_position_state::corner_at(cube, cube.f.ur, cube.r.uf, cube.u.fr)
            == crate::corner_position_state::corner_at(cube, cube.f.ur, cube.u.fr, cube.r.uf),
        crate::corner_position_state::corner_at(cube, cube.u.fr, cube.f.ur, cube.r.uf)
            == crate::corner_position_state::corner_at(cube, cube.f.ur, cube.u.fr, cube.r.uf),
        crate::corner_position_state::corner_at(cube, cube.r.uf, cube.u.fr, cube.f.ur)
            == crate::corner_position_state::corner_at(cube, cube.f.ur, cube.u.fr, cube.r.uf),
        crate::corner_position_state::corner_at(cube, cube.u.fl, cube.l.uf, cube.f.ul)
            == crate::corner_position_state::corner_at(cube, cube.f.ul, cube.u.fl, cube.l.uf),
        crate::corner_position_state::corner_at(cube, cube.l.uf, cube.f.ul, cube.u.fl)
            == crate::corner_position_state::corner_at(cube, cube.f.ul, cube.u.fl, cube.l.uf),
        crate::corner_position_state::corner_at(cube, cube.f.ul, cube.l.uf, cube.u.fl)
            == crate::corner_position_state::corner_at(cube, cube.f.ul, cube.u.fl, cube.l.uf),
        crate::corner_position_state::corner_at(cube, cube.u.fl, cube.f.ul, cube.l.uf)
            == crate::corner_position_state::corner_at(cube, cube.f.ul, cube.u.fl, cube.l.uf),
        crate::corner_position_state::corner_at(cube, cube.l.uf, cube.u.fl, cube.f.ul)
            == crate::corner_position_state::corner_at(cube, cube.f.ul, cube.u.fl, cube.l.uf),
        crate::corner_position_state::corner_at(cube, cube.d.fr, cube.r.df, cube.f.dr)
            == crate::corner_position_state::corner_at(cube, cube.f.dr, cube.d.fr, cube.r.df),
        crate::corner_position_state::corner_at(cube, cube.r.df, cube.f.dr, cube.d.fr)
            == crate::corner_position_state::corner_at(cube, cube.f.dr, cube.d.fr, cube.r.df),
        crate::corner_position_state::corner_at(cube, cube.f.dr, cube.r.df, cube.d.fr)
            == crate::corner_position_state::corner_at(cube, cube.f.dr, cube.d.fr, cube.r.df),
        crate::corner_position_state::corner_at(cube, cube.d.fr, cube.f.dr, cube.r.df)
            == crate::corner_position_state::corner_at(cube, cube.f.dr, cube.d.fr, cube.r.df),
        crate::corner_position_state::corner_at(cube, cube.r.df, cube.d.fr, cube.f.dr)
            == crate::corner_position_state::corner_at(cube, cube.f.dr, cube.d.fr, cube.r.df),
        crate::corner_position_state::corner_at(cube, cube.d.fl, cube.l.df, cube.f.dl)
            == crate::corner_position_state::corner_at(cube, cube.f.dl, cube.d.fl, cube.l.df),
        crate::corner_position_state::corner_at(cube, cube.l.df, cube.f.dl, cube.d.fl)
            == crate::corner_position_state::corner_at(cube, cube.f.dl, cube.d.fl, cube.l.df),
        crate::corner_position_state::corner_at(cube, cube.f.dl, cube.l.df, cube.d.fl)
            == crate::corner_position_state::corner_at(cube, cube.f.dl, cube.d.fl, cube.l.df),
        crate::corner_position_state::corner_at(cube, cube.d.fl, cube.f.dl, cube.l.df)
            == crate::corner_position_state::corner_at(cube, cube.f.dl, cube.d.fl, cube.l.df),
        crate::corner_position_state::corner_at(cube, cube.l.df, cube.d.fl, cube.f.dl)
            == crate::corner_position_state::corner_at(cube, cube.f.dl, cube.d.fl, cube.l.df),
        crate::corner_position_state::corner_at(cube, cube.u.br, cube.r.ub, cube.b.ur)
            == crate::corner_position_state::corner_at(cube, cube.b.ur, cube.u.br, cube.r.ub),
        crate::corner_position_state::corner_at(cube, cube.r.ub, cube.b.ur, cube.u.br)
            == crate::corner_position_state::corner_at(cube, cube.b.ur, cube.u.br, cube.r.ub),
        crate::corner_position_state::corner_at(cube, cube.b.ur, cube.r.ub, cube.u.br)
            == crate::corner_position_state::corner_at(cube, cube.b.ur, cube.u.br, cube.r.ub),
        crate::corner_position_state::corner_at(cube, cube.u.br, cube.b.ur, cube.r.ub)
            == crate::corner_position_state::corner_at(cube, cube.b.ur, cube.u.br, cube.r.ub),
        crate::corner_position_state::corner_at(cube, cube.r.ub, cube.u.br, cube.b.ur)
            == crate::corner_position_state::corner_at(cube, cube.b.ur, cube.u.br, cube.r.ub),
        crate::corner_position_state::corner_at(cube, cube.u.bl, cube.l.ub, cube.b.ul)
            == crate::corner_position_state::corner_at(cube, cube.b.ul, cube.u.bl, cube.l.ub),
        crate::corner_position_state::corner_at(cube, cube.l.ub, cube.b.ul, cube.u.bl)
            == crate::corner_position_state::corner_at(cube, cube.b.ul, cube.u.bl, cube.l.ub),
        crate::corner_position_state::corner_at(cube, cube.b.ul, cube.l.ub, cube.u.bl)
            == crate::corner_position_state::corner_at(cube, cube.b.ul, cube.u.bl, cube.l.ub),
        crate::corner_position_state::corner_at(cube, cube.u.bl, cube.b.ul, cube.l.ub)
            == crate::corner_position_state::corner_at(cube, cube.b.ul, cube.u.bl, cube.l.ub),
        crate::corner_position_state::corner_at(cube, cube.l.ub, cube.u.bl, cube.b.ul)
            == crate::corner_position_state::corner_at(cube, cube.b.ul, cube.u.bl, cube.l.ub),
        crate::corner_position_state::corner_at(cube, cube.d.br, cube.r.db, cube.b.dr)
            == crate::corner_position_state::corner_at(cube, cube.b.dr, cube.d.br, cube.r.db),
        crate::corner_position_state::corner_at(cube, cube.r.db, cube.b.dr, cube.d.br)
            == crate::corner_position_state::corner_at(cube, cube.b.dr, cube.d.br, cube.r.db),
        crate::corner_position_state::corner_at(cube, cube.b.dr, cube.r.db, cube.d.br)
            == crate::corner_position_state::corner_at(cube, cube.b.dr, cube.d.br, cube.r.db),
        crate::corner_position_state::corner_at(cube, cube.d.br, cube.b.dr, cube.r.db)
            == crate::corner_position_state::corner_at(cube, cube.b.dr, cube.d.br, cube.r.db),
        crate::corner_position_state::corner_at(cube, cube.r.db, cube.d.br, cube.b.dr)
            == crate::corner_position_state::corner_at(cube, cube.b.dr, cube.d.br, cube.r.db),
        crate::corner_position_state::corner_at(cube, cube.d.bl, cube.l.db, cube.b.dl)
            == crate::corner_position_state::corner_at(cube, cube.b.dl, cube.d.bl, cube.l.db),
        crate::corner_position_state::corner_at(cube, cube.l.db, cube.b.dl, cube.d.bl)
            == crate::corner_position_state::corner_at(cube, cube.b.dl, cube.d.bl, cube.l.db),
        crate::corner_position_state::corner_at(cube, cube.b.dl, cube.l.db, cube.d.bl)
            == crate::corner_position_state::corner_at(cube, cube.b.dl, cube.d.bl, cube.l.db),
        crate::corner_position_state::corner_at(cube, cube.d.bl, cube.b.dl, cube.l.db)
            == crate::corner_position_state::corner_at(cube, cube.b.dl, cube.d.bl, cube.l.db),
        crate::corner_position_state::corner_at(cube, cube.l.db, cube.d.bl, cube.b.dl)
            == crate::corner_position_state::corner_at(cube, cube.b.dl, cube.d.bl, cube.l.db),
{
    lemma_corner_at_symmetric(cube, cube.f.ur, cube.u.fr, cube.r.uf);
    lemma_corner_at_symmetric(cube, cube.f.ul, cube.u.fl, cube.l.uf);
    lemma_corner_at_symmetric(cube, cube.f.dr, cube.d.fr, cube.r.df);
    lemma_corner_at_symmetric(cube, cube.f.dl, cube.d.fl, cube.l.df);
    lemma_corner_at_symmetric(cube, cube.b.ur, cube.u.br, cube.r.ub);
    lemma_corner_at_symmetric(cube, cube.b.ul, cube.u.bl, cube.l.ub);
    lemma_corner_at_symmetric(cube, cube.b.dr, cube.d.br, cube.r.db);
    lemma_corner_at_symmetric(cube, cube.b.dl, cube.d.bl, cube.l.db);
}

proof fn lemma_edge_positions_follow_right(cube: Cube)
    requires
        CubeEdgePositions::readable(cube),
    ensures
        CubeEdgePositions::readable(cube.r_spec()),
        CubeEdgePositions::from_cube_spec(cube.r_spec())
            == CubeEdgePositions::from_cube_spec(cube).r_spec(),
{
    lemma_edges_at_symmetric(cube);
    lemma_cubelets_by_centers(cube.r_spec(), cube);
}

proof fn lemma_edge_positions_follow_left(cube: Cube)
    requires
        CubeEdgePositions::readable(cube),
    ensures
        CubeEdgePositions::readable(cube.l_spec()),
        CubeEdgePositions::from_cube_spec(cube.l_spec())
            == CubeEdgePositions::from_cube_spec(cube).l_spec(),
{
    lemma_edges_at_symmetric(cube);
    lemma_cubelets_by_centers(cube.l_spec(), cube);
}

proof fn lemma_edge_positions_follow_upper(cube: Cube)
    requires
        CubeEdgePositions::readable(cube),
    ensures
        CubeEdgePositions::readable(cube.u_spec()),
        CubeEdgePositions::from_cube_spec(cube.u_spec())
            == CubeEdgePositions::from_cube_spec(cube).u_spec(),
{
    lemma_edges_at_symmetric(cube);
    lemma_cubelets_by_centers(cube.u_spec(), cube);
}

proof fn lemma_edge_positions_follow_lower(cube: Cube)
    requires
        CubeEdgePositions::readable(cube),
    ensures
        CubeEdgePositions::readable(cube.d_spec()),
        CubeEdgePositions::from_cube_spec(cube.d_spec())
            == CubeEdgePositions::from_cube_spec(cube).d_spec(),
{
    lemma_edges_at_symmetric(cube);
    lemma_cubelets_by_centers(cube.d_spec(), cube);
}

proof fn lemma_edge_positions_follow_back(cube: Cube)
    requires
        CubeEdgePositions::readable(cube),
    ensures
        CubeEdgePositions::readable(cube.b_spec()),
        CubeEdgePositions::from_cube_spec(cube.b_spec())
            == CubeEdgePositions::from_cube_spec(cube).b_spec(),
{
    lemma_edges_at_symmetric(cube);
    lemma_cubelets_by_centers(cube.b_spec(), cube);
}

proof fn lemma_edge_positions_follow_front(cube: Cube)
    requires
        CubeEdgePositions::readable(cube),
    ensures
        CubeEdgePositions::readable(cube.f_spec()),
        CubeEdgePositions::from_cube_spec(cube.f_spec())
            == CubeEdgePositions::from_cube_spec(cube).f_spec(),
{
    lemma_edges_at_symmetric(cube);
    lemma_cubelets_by_centers(cube.f_spec(), cube);
}

/// The edge positions of a turned cube are the turned edge positions of the
/// cube, for a cube from which they can be read.
pub proof fn lemma_edge_positions_follow_turn(cube: Cube, dir: Dir)
    requires
        CubeEdgePositions::readable(cube),
    ensures
        CubeEdgePositions::readable(turn(cube, dir)),
        CubeEdgePositions::from_cube_spec(turn(cube, dir))
            == turn(CubeEdgePositions::from_cube_spec(cube), dir),
{
    match dir {
        Dir::R => lemma_edge_positions_follow_right(cube),
        Dir::L => lemma_edge_positions_follow_left(cube),
        Dir::U => lemma_edge_positions_follow_upper(cube),
        Dir::D => lemma_edge_positions_follow_lower(cube),
        Dir::B => lemma_edge_positions_follow_back(cube),
        Dir::F => lemma_edge_positions_follow_front(cube),
    }
}

proof fn lemma_corner_positions_follow_right(cube: Cube)
    requires
        CubeCornerPositions::readable(cube),
    ensures
        CubeCornerPositions::readable(cube.r_spec()),
        CubeCornerPositions::from_cube_spec(cube.r_spec())
            == CubeCornerPositions::from_cube_spec(cube).r_spec(),
{
    lemma_corners_at_symmetric(cube);
    lemma_cubelets_by_centers(cube.r_spec(), cube);
}

proof fn lemma_corner_positions_follow_left(cube: Cube)
    requires
        CubeCornerPositions::readable(cube),
    ensures
        CubeCornerPositions::readable(cube.l_spec()),
        CubeCornerPositions::from_cube_spec(cube.l_spec())
            == CubeCornerPositions::from_cube_spec(cube).l_spec(),
{
    lemma_corners_at_symmetric(cube);
    lemma_cubelets_by_centers(cube.l_spec(), cube);
}

proof fn lemma_corner_positions_follow_upper(cube: Cube)
    requires
        CubeCornerPositions::readable(cube),
    ensures
        CubeCornerPositions::readable(cube.u_spec()),
        CubeCornerPositions::from_cube_spec(cube.u_spec())
            == CubeCornerPositions::from_cube_spec(cube).u_spec(),
{
    lemma_corners_at_symmetric(cube);
    lemma_cubelets_by_centers(cube.u_spec(), cube);
}

proof fn lemma_corner_positions_follow_lower(cube: Cube)
    requires
        CubeCornerPositions::readable(cube),
    ensures
        CubeCornerPositions::readable(cube.d_spec()),
        CubeCornerPositions::from_cube_spec(cube.d_spec())
            == CubeCornerPositions::from_cube_spec(cube).d_spec(),
{
    lemma_corners_at_symmetric(cube);
    lemma_cubelets_by_centers(cube.d_spec(), cube);
}

proof fn lemma_corner_positions_follow_back(cube: Cube)
    requires
        CubeCornerPositions::readable(cube),
    ensures
        CubeCornerPositions::readable(cube.b_spec()),
        CubeCornerPositions::from_cube_spec(cube.b_spec())
            == CubeCornerPositions::from_cube_spec(cube).b_spec(),
{
    lemma_corners_at_symmetric(cube);
    lemma_cubelets_by_centers(cube.b_spec(), cube);
}

proof fn lemma_corner_positions_follow_front(cube: Cube)
    requires
        CubeCornerPositions::readable(cube),
    ensures
        CubeCornerPositions::readable(cube.f_spec()),
        CubeCornerPositions::from_cube_spec(cube.f_spec())
            == CubeCornerPositions::from_cube_spec(cube).f_spec(),
{
    lemma_corners_at_symmetric(cube);
    lemma_cubelets_by_centers(cube.f_spec(), cube);
}

/// The corner positions of a turned cube are the turned corner positions of the
/// cube, for a cube from which they can be read.
pub proof fn lemma_corner_positions_follow_turn(cube: Cube, dir: Dir)
    requires
        CubeCornerPositions::readable(cube),
    ensures
        CubeCornerPositions::readable(turn(cube, dir)),
        CubeCornerPositions::from_cube_spec(turn(cube, dir))
            == turn(CubeCornerPositions::from_cube_spec(cube), dir),
{
    match dir {
        Dir::R => lemma_corner_positions_follow_right(cube),
        Dir::L => lemma_corner_positions_follow_left(cube),
        Dir::U => lemma_corner_positions_follow_upper(cube),
        Dir::D => lemma_corner_positions_follow_lower(cube),
        Dir::B => lemma_corner_positions_follow_back(cube),
        Dir::F => lemma_corner_positions_follow_front(cube),
    }
}

/// The positions of a turned cube are the turned positions of the cube, for
/// a cube from which they can be read.
pub proof fn lemma_positions_follow_turn(cube: Cube, dir: Dir)
    requires
        CubePositions::readable(cube),
    ensures
        CubePositions::readable(turn(cube, dir)),
        CubePositions::from_cube_spec(turn(cube, dir)) == turn(
            CubePositions::from_cube_spec(cube),
            dir,
        ),
{
    lemma_edge_positions_follow_turn(cube, dir);
    lemma_corner_positions_follow_turn(cube, dir);
    CubePositions::from_cube_spec(cube).lemma_turn_componentwise(dir);
}

/// Projecting and then moving is moving and then projecting: each of the
/// five states of a cube made of genuine cubelets follows the cube through
/// any list of moves.
pub proof fn lemma_states_follow_moves(cube: Cube, moves: Seq<FullMove>)
    requires
        cube.well_formed(),
    ensures
        apply_moves(cube, moves).well_formed(),
        EdgeOrientationState::from_cube_spec(apply_moves(cube, moves)) == apply_moves(
            EdgeOrientationState::from_cube_spec(cube),
            moves,
        ),
        CornerOrientationState::from_cube_spec(apply_moves(cube, moves)) == apply_moves(
            CornerOrientationState::from_cube_spec(cube),
            moves,
        ),
        EdgeMidSliceState::from_cube_spec(apply_moves(cube, moves)) == apply_moves(
            EdgeMidSliceState::from_cube_spec(cube),
            moves,
        ),
        CubePositions::readable(cube) ==> CubePositions::readable(apply_moves(cube, moves))
            && CubePositions::from_cube_spec(apply_moves(cube, moves)) == apply_moves(
            CubePositions::from_cube_spec(cube),
            moves,
        ),
{
    let genuine = |c: Cube| c.well_formed();
    let edge_orientation = |c: Cube| EdgeOrientationState::from_cube_spec(c);
    assert(follows_turns(edge_orientation, genuine)) by {
        assert forall|c: Cube, dir: Dir| #[trigger] follows_turn(
            edge_orientation,
            genuine,
            c,
            dir,
        ) by {
            if c.well_formed() {
                lemma_turn_keeps_well_formed(c, dir);
                lemma_edge_orientation_follows_turn(c, dir);
            }
        }
    }
    lemma_follows_moves(edge_orientation, genuine, cube, moves);
    let corner_orientation = |c: Cube| CornerOrientationState::from_cube_spec(c);
    assert(follows_turns(corner_orientation, genuine)) by {
        assert forall|c: Cube, dir: Dir| #[trigger] follows_turn(
            corner_orientation,
            genuine,
            c,
            dir,
        ) by {
            if c.well_formed() {
                lemma_turn_keeps_well_formed(c, dir);
                lemma_corner_orientation_follows_turn(c, dir);
            }
        }
    }
    lemma_follows_moves(corner_orientation, genuine, cube, moves);
    let edge_slice = |c: Cube| EdgeMidSliceState::from_cube_spec(c);
    assert(follows_turns(edge_slice, genuine)) by {
        assert forall|c: Cube, dir: Dir| #[trigger] follows_turn(edge_slice, genuine, c, dir) by {
            if c.well_formed() {
                lemma_turn_keeps_well_formed(c, dir);
                lemma_edge_slice_follows_turn(c, dir);
            }
        }
    }
    lemma_follows_moves(edge_slice, genuine, cube, moves);
    if CubePositions::readable(cube) {
        lemma_positions_follow_moves(cube, moves);
    }
}

/// The positions of a cube follow the cube through any list of moves, for a
/// cube from which they can be read.
pub proof fn lemma_positions_follow_moves(cube: Cube, moves: Seq<FullMove>)
    requires
        CubePositions::readable(cube),
    ensures
        CubePositions::readable(apply_moves(cube, moves)),
        CubePositions::from_cube_spec(apply_moves(cube, moves)) == apply_moves(
            CubePositions::from_cube_spec(cube),
            moves,
        ),
{
    let legible = |c: Cube| CubePositions::readable(c);
    let positions = |c: Cube| CubePositions::from_cube_spec(c);
    assert(follows_turns(positions, legible)) by {
        assert forall|c: Cube, dir: Dir| #[trigger] follows_turn(positions, legible, c, dir) by {
            if CubePositions::readable(c) {
                lemma_positions_follow_turn(c, dir);
            }
        }
    }
    lemma_follows_moves(positions, legible, cube, moves);
}

/// The solved cube is made of genuine cubelets, and its states are the
/// solved states.
pub proof fn lemma_solved_cube_states(front: Facelet, top: Facelet)
    requires
        front.axis() != top.axis(),
    ensures
        Cube::solved(front, top).well_formed(),
        CubePositions::readable(Cube::solved(front, top)),
        CubePositions::from_cube_spec(Cube::solved(front, top)) == CubePositions::solved_spec(),
        EdgeOrientationState::from_cube_spec(Cube::solved(front, top))
            == EdgeOrientationState::solved_spec(),
        CornerOrientationState::from_cube_spec(Cube::solved(front, top))
            == CornerOrientationState::solved_spec(),
        EdgeMidSliceState::from_cube_spec(Cube::solved(front, top))
            == EdgeMidSliceState::solved_spec(),
{
    lemma_third_corner_defined(front, top);
    lemma_third_corner_cycle(front, top);
    reveal(crate::edge_position_state::edge_at);
    reveal(crate::corner_position_state::corner_at);
}

proof fn lemma_right_turn_keeps_physical(cube: Cube)
    requires
        cube.physical(),
    ensures
        cube.r_spec().physical(),
{
    lemma_right_turn_keeps_well_formed(cube);
    assert(cube.r_spec().corners_right_way_round());
}

proof fn lemma_left_turn_keeps_physical(cube: Cube)
    requires
        cube.physical(),
    ensures
        cube.l_spec().physical(),
{
    lemma_left_turn_keeps_well_formed(cube);
    assert(cube.l_spec().corners_right_way_round());
}

proof fn lemma_upper_turn_keeps_physical(cube: Cube)
    requires
        cube.physical(),
    ensures
        cube.u_spec().physical(),
{
    lemma_upper_turn_keeps_well_formed(cube);
    assert(cube.u_spec().corners_right_way_round());
}

proof fn lemma_lower_turn_keeps_physical(cube: Cube)
    requires
        cube.physical(),
    ensures
        cube.d_spec().physical(),
{
    lemma_lower_turn_keeps_well_formed(cube);
    assert(cube.d_spec().corners_right_way_round());
}

proof fn lemma_back_turn_keeps_physical(cube: Cube)
    requires
        cube.physical(),
    ensures
        cube.b_spec().physical(),
{
    lemma_back_turn_keeps_well_formed(cube);
    assert(cube.b_spec().corners_right_way_round());
}

proof fn lemma_front_turn_keeps_physical(cube: Cube)
    requires
        cube.physical(),
    ensures
        cube.f_spec().physical(),
{
    lemma_front_turn_keeps_well_formed(cube);
    assert(cube.f_spec().corners_right_way_round());
}

/// A quarter turn keeps a cube one that can be taken apart and put together
/// as it is.
pub proof fn lemma_turn_keeps_physical(cube: Cube, dir: Dir)
    requires
        cube.physical(),
    ensures
        turn(cube, dir).physical(),
{
    match dir {
        Dir::R => lemma_right_turn_keeps_physical(cube),
        Dir::L => lemma_left_turn_keeps_physical(cube),
        Dir::U => lemma_upper_turn_keeps_physical(cube),
        Dir::D => lemma_lower_turn_keeps_physical(cube),
        Dir::B => lemma_back_turn_keeps_physical(cube),
        Dir::F => lemma_front_turn_keeps_physical(cube),
    }
}

/// Moves keep a cube one that can be taken apart and put together as it
/// is.
pub proof fn lemma_moves_keep_physical(cube: Cube, moves: Seq<FullMove>)
    requires
        cube.physical(),
    ensures
        apply_moves(cube, moves).physical(),
    decreases moves.len(),
{
    if moves.len() > 0 {
        let c1 = turn(cube, moves[0].dir);
        let c2 = turn(c1, moves[0].dir);
        lemma_turn_keeps_physical(cube, moves[0].dir);
        lemma_turn_keeps_physical(c1, moves[0].dir);
        lemma_turn_keeps_physical(c2, moves[0].dir);
        lemma_moves_keep_physical(apply_move(cube, moves[0]), moves.drop_first());
    }
}

/// A solved cube can be taken apart and put together as it is.
pub proof fn lemma_solved_cube_is_physical(front: Facelet, top: Facelet)
    requires
        front.axis() != top.axis(),
    ensures
        Cube::solved(front, top).physical(),
{
    lemma_solved_cube_states(front, top);
}

/// An edge in its own place that is good shows on each face the color of
/// the face.
proof fn lemma_edges_at_home(cube: Cube)
    requires
        cube.well_formed(),
        CubeEdgePositions::readable(cube),
        CubeEdgePositions::from_cube_spec(cube) == CubeEdgePositions::solved_spec(),
        EdgeOrientationState::from_cube_spec(cube) == EdgeOrientationState::solved_spec(),
    ensures
        cube.u.fc == cube.u.cc && cube.f.uc == cube.f.cc,
        cube.u.rc == cube.u.cc && cube.r.uc == cube.r.cc,
        cube.u.bc == cube.u.cc && cube.b.uc == cube.b.cc,
        cube.u.lc == cube.u.cc && cube.l.uc == cube.l.cc,
        cube.f.lc == cube.f.cc && cube.l.fc == cube.l.cc,
        cube.f.rc == cube.f.cc && cube.r.fc == cube.r.cc,
        cube.b.lc == cube.b.cc && cube.l.bc == cube.l.cc,
        cube.b.rc == cube.b.cc && cube.r.bc == cube.r.cc,
        cube.d.fc == cube.d.cc && cube.f.dc == cube.f.cc,
        cube.d.rc == cube.d.cc && cube.r.dc == cube.r.cc,
        cube.d.bc == cube.d.cc && cube.b.dc == cube.b.cc,
        cube.d.lc == cube.d.cc && cube.l.dc == cube.l.cc,
{
    reveal(crate::edge_position_state::edge_at);
}

/// A corner in its own place that is not twisted and is no mirror image
/// shows on each face the color of the face.
proof fn lemma_corners_at_home(cube: Cube)
    requires
        cube.physical(),
        CubeCornerPositions::readable(cube),
        CubeCornerPositions::from_cube_spec(cube) == CubeCornerPositions::solved_spec(),
        CornerOrientationState::from_cube_spec(cube) == CornerOrientationState::solved_spec(),
    ensures
        cube.l.uf == cube.l.cc && cube.u.fl == cube.u.cc && cube.f.ul == cube.f.cc,
        cube.r.uf == cube.r.cc && cube.f.ur == cube.f.cc && cube.u.fr == cube.u.cc,
        cube.r.ub == cube.r.cc && cube.u.br == cube.u.cc && cube.b.ur == cube.b.cc,
        cube.l.ub == cube.l.cc && cube.b.ul == cube.b.cc && cube.u.bl == cube.u.cc,
        cube.l.df == cube.l.cc && cube.f.dl == cube.f.cc && cube.d.fl == cube.d.cc,
        cube.r.df == cube.r.cc && cube.d.fr == cube.d.cc && cube.f.dr == cube.f.cc,
        cube.r.db == cube.r.cc && cube.b.dr == cube.b.cc && cube.d.br == cube.d.cc,
        cube.l.db == cube.l.cc && cube.d.bl == cube.d.cc && cube.b.dl == cube.b.cc,
{
    reveal(crate::corner_position_state::corner_at);
}

/// A cube that can be taken apart and put together as it is, with every
/// cubelet in its own place, every edge good and no corner twisted, is
/// solved.
pub proof fn lemma_solved_states_mean_solved(cube: Cube)
    requires
        cube.physical(),
        CubePositions::readable(cube),
        CubePositions::from_cube_spec(cube) == CubePositions::solved_spec(),
        EdgeOrientationState::from_cube_spec(cube) == EdgeOrientationState::solved_spec(),
        CornerOrientationState::from_cube_spec(cube) == CornerOrientationState::solved_spec(),
    ensures
        cube.is_solved_spec(),
{
    lemma_edges_at_home(cube);
    lemma_corners_at_home(cube);
}

/// On every cube that moves make of a solved cube, the permutation of the
/// edges and that of the corners have the same parity, the number of bad
/// edges is even and the twists of the corners sum to a multiple of 3.
pub proof fn lemma_reachable_cube_is_solvable(front: Facelet, top: Facelet, moves: Seq<FullMove>)
    requires
        front.axis() != top.axis(),
    ensures
        CubePositions::readable(apply_moves(Cube::solved(front, top), moves)),
        CubePositions::from_cube_spec(
            apply_moves(Cube::solved(front, top), moves),
        ).is_permutation_spec(),
        CubePositions::from_cube_spec(
            apply_moves(Cube::solved(front, top), moves),
        ).directly_solvable_spec(),
        EdgeOrientationState::from_cube_spec(
            apply_moves(Cube::solved(front, top), moves),
        ).is_solvable_spec(),
        CornerOrientationState::from_cube_spec(
            apply_moves(Cube::solved(front, top), moves),
        ).is_solvable_spec(),
{
    let cube = Cube::solved(front, top);
    lemma_solved_cube_states(front, top);
    lemma_states_follow_moves(cube, moves);
    CubePositions::lemma_reachable_is_solvable(moves);
    lemma_edge_orientation_stays_solvable(EdgeOrientationState::solved_spec(), moves);
    lemma_corner_orientation_stays_solvable(CornerOrientationState::solved_spec(), moves);
    EdgeOrientationState::solved_spec().lemma_moves_keep_solvable(FullMove {
        dir: Dir::R,
        amt: crate::moves::Amt::One,
    });
    CornerOrientationState::solved_spec().lemma_moves_keep_solvable(FullMove {
        dir: Dir::R,
        amt: crate::moves::Amt::One,
    });
}

/// Moves keep an edge orientation state solvable or unsolvable as it was.
pub proof fn lemma_edge_orientation_stays_solvable(
    state: EdgeOrientationState,
    moves: Seq<FullMove>,
)
    ensures
        apply_moves(state, moves).is_solvable_spec() == state.is_solvable_spec(),
    decreases moves.len(),
{
    if moves.len() > 0 {
        state.lemma_moves_keep_solvable(moves[0]);
        lemma_edge_orientation_stays_solvable(apply_move(state, moves[0]), moves.drop_first());
    }
}

/// Moves keep a corner orientation state solvable or unsolvable as it was.
pub proof fn lemma_corner_orientation_stays_solvable(
    state: CornerOrientationState,
    moves: Seq<FullMove>,
)
    ensures
        apply_moves(state, moves).is_solvable_spec() == state.is_solvable_spec(),
    decreases moves.len(),
{
    if moves.len() > 0 {
        state.lemma_moves_keep_solvable(moves[0]);
        lemma_corner_orientation_stays_solvable(apply_move(state, moves[0]), moves.drop_first());
    }
}

} // verus!
