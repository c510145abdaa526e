//! Random solvable cubes, and cubes made from the states that describe them.

use crate::corner_orientation_state::{CornerOrientation, CornerOrientationState};
use crate::corner_position_state::{CornerCubelet, CubeCornerPositions};
use crate::cube::{
    corner_colors, corner_triple, Cube, edge_colors, edge_pair, Facelet, FBFace, LRFace, UDFace,
};
use crate::edge_orientation_state::{EdgeOrientationState, lr_good_spec, ud_mid_good_spec};
use crate::edge_position_state::{CubeEdgePositions, SideCubelet};
use crate::permutation::{identity, indices, is_even, is_permutation, lemma_swap_flips_any, swapped};
use crate::total_position_state::CubePositions;
use vstd::prelude::*;

verus! {

/// `rand::rngs::ThreadRng`, the generator of random numbers of the thread.
/// Nothing is known of a value of it.
#[verifier::external_type_specification]
#[verifier::external_body]
pub struct ExThreadRng(rand::rngs::ThreadRng);

/// `rand::thread_rng`: the generator of the thread.
#[verifier::external_body]
fn thread_generator() -> rand::rngs::ThreadRng {
    rand::thread_rng()
}

/// `SliceRandom::shuffle`: exchanges elements of the slice at random.
/// Afterwards it holds what it held, in some order.
#[verifier::external_body]
fn shuffle(v: &mut Vec<u8>, rng: &mut rand::rngs::ThreadRng)
    ensures
        final(v)@.to_multiset() == old(v)@.to_multiset(),
{
    rand::seq::SliceRandom::shuffle(v.as_mut_slice(), rng);
}

/// `Rng::gen::<bool>`: a random truth value. Nothing is known of it.
#[verifier::external_body]
fn random_bool(rng: &mut rand::rngs::ThreadRng) -> bool {
    rand::Rng::gen::<bool>(rng)
}

/// `Rng::gen_range` on the range from 0 up to, not including, `n`: a random
/// number of that range. An empty range is an error of the caller.
#[verifier::external_body]
fn random_below(rng: &mut rand::rngs::ThreadRng, n: u8) -> (out: u8)
    requires
        n > 0,
    ensures
        out < n,
{
    rand::Rng::gen_range(rng, 0..n)
}

/// The indices below `n` in a random order.
fn random_order(rng: &mut rand::rngs::ThreadRng, n: u8) -> (out: Vec<u8>)
    ensures
        out.len() == n,
        is_permutation(indices(out@)),
{
    let mut v: Vec<u8> = Vec::new();
    let mut i: u8 = 0;
    while i < n
        invariant
            i <= n,
            v.len() == i,
            forall|j: int| 0 <= j < i ==> v[j] == j,
        decreases n - i,
    {
        v.push(i);
        i += 1;
    }
    let ghost before = v@;
    shuffle(&mut v, rng);
    proof {
        broadcast use vstd::seq_lib::group_to_multiset_ensures;

        assert(before.no_duplicates());
        before.lemma_multiset_has_no_duplicates();
        v@.lemma_multiset_has_no_duplicates_conv();
        assert(v@.len() == before.len()) by {
            vstd::seq_lib::to_multiset_len(v@);
            vstd::seq_lib::to_multiset_len(before);
        }
        let p = indices(v@);
        assert(p.no_duplicates());
        assert forall|j: int| 0 <= j < p.len() implies 0 <= #[trigger] p[j] < p.len() by {
            vstd::seq_lib::to_multiset_contains(v@, v@[j]);
            vstd::seq_lib::to_multiset_contains(before, v@[j]);
            assert(v@.contains(v@[j]));
            assert(before.contains(v@[j]));
        }
    }
    v
}

/// The edge cubelet with index `i`.
#[verifier::opaque]
pub open spec fn edge_with_index(i: int) -> SideCubelet {
    if i == 0 {
        SideCubelet::UL
    } else if i == 1 {
        SideCubelet::FL
    } else if i == 2 {
        SideCubelet::DL
    } else if i == 3 {
        SideCubelet::BL
    } else if i == 4 {
        SideCubelet::UF
    } else if i == 5 {
        SideCubelet::DF
    } else if i == 6 {
        SideCubelet::DB
    } else if i == 7 {
        SideCubelet::UB
    } else if i == 8 {
        SideCubelet::UR
    } else if i == 9 {
        SideCubelet::BR
    } else if i == 10 {
        SideCubelet::DR
    } else {
        SideCubelet::FR
    }
}

/// The corner cubelet with index `i`.
#[verifier::opaque]
pub open spec fn corner_with_index(i: int) -> CornerCubelet {
    if i == 0 {
        CornerCubelet::FUL
    } else if i == 1 {
        CornerCubelet::FUR
    } else if i == 2 {
        CornerCubelet::BUL
    } else if i == 3 {
        CornerCubelet::BUR
    } else if i == 4 {
        CornerCubelet::FDL
    } else if i == 5 {
        CornerCubelet::FDR
    } else if i == 6 {
        CornerCubelet::BDL
    } else {
        CornerCubelet::BDR
    }
}

fn edge_of_index(i: u8) -> (out: SideCubelet)
    ensures
        out == edge_with_index(i as int),
        i < 12 ==> out.index() == i,
{
    reveal(edge_with_index);
    match i {
        0 => SideCubelet::UL,
        1 => SideCubelet::FL,
        2 => SideCubelet::DL,
        3 => SideCubelet::BL,
        4 => SideCubelet::UF,
        5 => SideCubelet::DF,
        6 => SideCubelet::DB,
        7 => SideCubelet::UB,
        8 => SideCubelet::UR,
        9 => SideCubelet::BR,
        10 => SideCubelet::DR,
        _ => SideCubelet::FR,
    }
}

fn corner_of_index(i: u8) -> (out: CornerCubelet)
    ensures
        out == corner_with_index(i as int),
        i < 8 ==> out.index() == i,
{
    reveal(corner_with_index);
    match i {
        0 => CornerCubelet::FUL,
        1 => CornerCubelet::FUR,
        2 => CornerCubelet::BUL,
        3 => CornerCubelet::BUR,
        4 => CornerCubelet::FDL,
        5 => CornerCubelet::FDR,
        6 => CornerCubelet::BDL,
        _ => CornerCubelet::BDR,
    }
}

/// The edge positions in which the place with index `i` holds the cubelet
/// with index `order[i]`.
pub open spec fn edge_positions_of(order: Seq<int>) -> CubeEdgePositions {
    CubeEdgePositions {
        ul: edge_with_index(order[0]),
        fl: edge_with_index(order[1]),
        dl: edge_with_index(order[2]),
        bl: edge_with_index(order[3]),
        uf: edge_with_index(order[4]),
        df: edge_with_index(order[5]),
        db: edge_with_index(order[6]),
        ub: edge_with_index(order[7]),
        ur: edge_with_index(order[8]),
        br: edge_with_index(order[9]),
        dr: edge_with_index(order[10]),
        fr: edge_with_index(order[11]),
    }
}

/// The corner positions in which the place with index `i` holds the cubelet
/// with index `order[i]`.
pub open spec fn corner_positions_of(order: Seq<int>) -> CubeCornerPositions {
    CubeCornerPositions {
        ful: corner_with_index(order[0]),
        fur: corner_with_index(order[1]),
        bul: corner_with_index(order[2]),
        bur: corner_with_index(order[3]),
        fdl: corner_with_index(order[4]),
        fdr: corner_with_index(order[5]),
        bdl: corner_with_index(order[6]),
        bdr: corner_with_index(order[7]),
    }
}

/// The edge positions in which the place with index `i` holds the cubelet
/// with index `order[i]`.
fn make_edge_pos(order: &Vec<u8>) -> (out: CubeEdgePositions)
    requires
        order.len() == 12,
        is_permutation(indices(order@)),
    ensures
        out == edge_positions_of(indices(order@)),
        out.perm() == indices(order@),
        out.is_permutation_spec(),
{
    let out = CubeEdgePositions {
        ul: edge_of_index(order[0]),
        fl: edge_of_index(order[1]),
        dl: edge_of_index(order[2]),
        bl: edge_of_index(order[3]),
        uf: edge_of_index(order[4]),
        df: edge_of_index(order[5]),
        db: edge_of_index(order[6]),
        ub: edge_of_index(order[7]),
        ur: edge_of_index(order[8]),
        br: edge_of_index(order[9]),
        dr: edge_of_index(order[10]),
        fr: edge_of_index(order[11]),
    };
    proof {
        let p = indices(order@);
        assert forall|i: int| 0 <= i < 12 implies out.perm()[i] == p[i] by {
            assert(0 <= p[i] < 12);
        }
        assert(out.perm() =~= p);
    }
    out
}

/// The corner positions in which the place with index `i` holds the cubelet
/// with index `order[i]`.
fn make_corner_pos(order: &Vec<u8>) -> (out: CubeCornerPositions)
    requires
        order.len() == 8,
        is_permutation(indices(order@)),
    ensures
        out == corner_positions_of(indices(order@)),
        out.perm() == indices(order@),
        out.is_permutation_spec(),
{
    let out = CubeCornerPositions {
        ful: corner_of_index(order[0]),
        fur: corner_of_index(order[1]),
        bul: corner_of_index(order[2]),
        bur: corner_of_index(order[3]),
        fdl: corner_of_index(order[4]),
        fdr: corner_of_index(order[5]),
        bdl: corner_of_index(order[6]),
        bdr: corner_of_index(order[7]),
    };
    proof {
        let p = indices(order@);
        assert forall|i: int| 0 <= i < 8 implies out.perm()[i] == p[i] by {
            assert(0 <= p[i] < 8);
        }
        assert(out.perm() =~= p);
    }
    out
}

/// The three colors of a corner cubelet as they show when it is put in a
/// place with the given orientation: first the facelet on the left or
/// right face, then the two others clockwise.
#[verifier::opaque]
pub open spec fn corner_facelets(
    cube: Cube,
    cubelet: CornerCubelet,
    orientation: CornerOrientation,
) -> (
    Facelet,
    Facelet,
    Facelet,
) {
    let colors = corner_triple(cubelet.index());
    // the place of the left/right color among the three
    let side = if cube.is_lr_color(colors[0]) {
        0int
    } else if cube.is_lr_color(colors[1]) {
        1int
    } else {
        2int
    };
    // a twisted corner shows on the side the color that comes before
    let first = (side + 3 - orientation.twist()) % 3;
    (colors[first], colors[(first + 1) % 3], colors[(first + 2) % 3])
}

fn get_corner_facelets(
    cube: &Cube,
    cubelet: CornerCubelet,
    orientation: CornerOrientation,
) -> (out: (
    Facelet,
    Facelet,
    Facelet,
))
    ensures
        out == corner_facelets(*cube, cubelet, orientation),
{
    reveal(corner_facelets);
    // this is the set of facelets that is this corner, but the offset is a little dubious
    let facelets = corner_colors(cubelet.to_index() as usize);

    // find the facelet that belongs on a side
    let good_offset: usize = if cube.lr_color(facelets[0]) {
        0
    } else if cube.lr_color(facelets[1]) {
        1
    } else {
        2
    };

    // then start with the one that, if placed in the side position, would result in the
    // desired orientation
    let offset: usize = match orientation {
        CornerOrientation::Good => 0,
        CornerOrientation::CW => 1,
        CornerOrientation::CCW => 2,
    };
    let first = (good_offset + 3 - offset) % 3;
    (facelets[first], facelets[(first + 1) % 3], facelets[(first + 2) % 3])
}

/// The two colors of an edge cubelet as they show when it is put in a place
/// of the left or right layer with the given orientation: first the facelet
/// on the left or right face.
#[verifier::opaque]
pub open spec fn side_edge_facelets(cube: Cube, cubelet: SideCubelet, good: bool) -> Two {
    let colors = edge_pair(cubelet.index());
    if good == lr_good_spec(cube, colors[0], colors[1]) {
        Two { first: colors[0], second: colors[1] }
    } else {
        Two { first: colors[1], second: colors[0] }
    }
}

/// The two colors of an edge cubelet as they show when it is put in a place
/// of the middle slice with the given orientation: first the facelet on the
/// upper or lower face.
#[verifier::opaque]
pub open spec fn mid_edge_facelets(cube: Cube, cubelet: SideCubelet, good: bool) -> Two {
    let colors = edge_pair(cubelet.index());
    if good == ud_mid_good_spec(cube, colors[0], colors[1]) {
        Two { first: colors[0], second: colors[1] }
    } else {
        Two { first: colors[1], second: colors[0] }
    }
}

fn get_side_edge_facelets(cube: &Cube, cubelet: SideCubelet, good: bool) -> (out: Two)
    ensures
        out == side_edge_facelets(*cube, cubelet, good),
{
    reveal(side_edge_facelets);
    let colors = edge_colors(cubelet.to_index() as usize);
    // if the orientation of the facelets doesn't match the desired orientation, flip them
    let as_listed = !cube.fb_color(colors[0]) && !(cube.ud_color(colors[0]) && cube.lr_color(
        colors[1],
    ));
    if good == as_listed {
        Two { first: colors[0], second: colors[1] }
    } else {
        Two { first: colors[1], second: colors[0] }
    }
}

fn get_mid_edge_facelets(cube: &Cube, cubelet: SideCubelet, good: bool) -> (out: Two)
    ensures
        out == mid_edge_facelets(*cube, cubelet, good),
{
    reveal(mid_edge_facelets);
    let colors = edge_colors(cubelet.to_index() as usize);
    // if the orientation of the facelets doesn't match the desired orientation, flip them
    let as_listed = !cube.fb_color(colors[0]) && !(cube.ud_color(colors[0]) && cube.lr_color(
        colors[1],
    ));
    if good == as_listed {
        Two { first: colors[0], second: colors[1] }
    } else {
        Two { first: colors[1], second: colors[0] }
    }
}

/// The colors of three facelets.
pub type Three = (Facelet, Facelet, Facelet);

/// The colors of the two facelets of an edge.
#[derive(Copy, Clone, PartialEq, Eq, Structural, Debug)]
pub struct Two {
    pub first: Facelet,
    pub second: Facelet,
}

/// The upper face with the facelets of its corners from the colors given
/// for each corner.
#[verifier::opaque]
pub open spec fn upper_with_corners(
    face: UDFace<Facelet>,
    bul: Three,
    bur: Three,
    ful: Three,
    fur: Three,
) -> UDFace<Facelet> {
    UDFace {
        bl: bul.2,
        br: bur.1,
        fl: ful.1,
        fr: fur.2,
        ..face
    }
}

fn set_corners_of_upper(
    face: UDFace<Facelet>,
    bul: Three,
    bur: Three,
    ful: Three,
    fur: Three,
) -> (out: UDFace<Facelet>)
    ensures
        out == upper_with_corners(face, bul, bur, ful, fur),
{
    reveal(upper_with_corners);
    UDFace {
        bl: bul.2,
        br: bur.1,
        fl: ful.1,
        fr: fur.2,
        ..face
    }
}

/// The lower face with the facelets of its corners from the colors given
/// for each corner.
#[verifier::opaque]
pub open spec fn lower_with_corners(
    face: UDFace<Facelet>,
    bdl: Three,
    bdr: Three,
    fdl: Three,
    fdr: Three,
) -> UDFace<Facelet> {
    UDFace {
        bl: bdl.1,
        br: bdr.2,
        fl: fdl.2,
        fr: fdr.1,
        ..face
    }
}

fn set_corners_of_lower(
    face: UDFace<Facelet>,
    bdl: Three,
    bdr: Three,
    fdl: Three,
    fdr: Three,
) -> (out: UDFace<Facelet>)
    ensures
        out == lower_with_corners(face, bdl, bdr, fdl, fdr),
{
    reveal(lower_with_corners);
    UDFace {
        bl: bdl.1,
        br: bdr.2,
        fl: fdl.2,
        fr: fdr.1,
        ..face
    }
}

/// The left face with the facelets of its corners from the colors given
/// for each corner.
#[verifier::opaque]
pub open spec fn left_with_corners(
    face: LRFace<Facelet>,
    bul: Three,
    ful: Three,
    bdl: Three,
    fdl: Three,
) -> LRFace<Facelet> {
    LRFace {
        ub: bul.0,
        uf: ful.0,
        db: bdl.0,
        df: fdl.0,
        ..face
    }
}

fn set_corners_of_left(
    face: LRFace<Facelet>,
    bul: Three,
    ful: Three,
    bdl: Three,
    fdl: Three,
) -> (out: LRFace<Facelet>)
    ensures
        out == left_with_corners(face, bul, ful, bdl, fdl),
{
    reveal(left_with_corners);
    LRFace {
        ub: bul.0,
        uf: ful.0,
        db: bdl.0,
        df: fdl.0,
        ..face
    }
}

/// The right face with the facelets of its corners from the colors given
/// for each corner.
#[verifier::opaque]
pub open spec fn right_with_corners(
    face: LRFace<Facelet>,
    bur: Three,
    fur: Three,
    bdr: Three,
    fdr: Three,
) -> LRFace<Facelet> {
    LRFace {
        ub: bur.0,
        uf: fur.0,
        db: bdr.0,
        df: fdr.0,
        ..face
    }
}

fn set_corners_of_right(
    face: LRFace<Facelet>,
    bur: Three,
    fur: Three,
    bdr: Three,
    fdr: Three,
) -> (out: LRFace<Facelet>)
    ensures
        out == right_with_corners(face, bur, fur, bdr, fdr),
{
    reveal(right_with_corners);
    LRFace {
        ub: bur.0,
        uf: fur.0,
        db: bdr.0,
        df: fdr.0,
        ..face
    }
}

/// The front face with the facelets of its corners from the colors given
/// for each corner.
#[verifier::opaque]
pub open spec fn front_with_corners(
    face: FBFace<Facelet>,
    ful: Three,
    fur: Three,
    fdl: Three,
    fdr: Three,
) -> FBFace<Facelet> {
    FBFace {
        ul: ful.2,
        ur: fur.1,
        dl: fdl.1,
        dr: fdr.2,
        ..face
    }
}

fn set_corners_of_front(
    face: FBFace<Facelet>,
    ful: Three,
    fur: Three,
    fdl: Three,
    fdr: Three,
) -> (out: FBFace<Facelet>)
    ensures
        out == front_with_corners(face, ful, fur, fdl, fdr),
{
    reveal(front_with_corners);
    FBFace {
        ul: ful.2,
        ur: fur.1,
        dl: fdl.1,
        dr: fdr.2,
        ..face
    }
}

/// The back face with the facelets of its corners from the colors given
/// for each corner.
#[verifier::opaque]
pub open spec fn back_with_corners(
    face: FBFace<Facelet>,
    bul: Three,
    bur: Three,
    bdl: Three,
    bdr: Three,
) -> FBFace<Facelet> {
    FBFace {
        ul: bul.1,
        ur: bur.2,
        dl: bdl.2,
        dr: bdr.1,
        ..face
    }
}

fn set_corners_of_back(
    face: FBFace<Facelet>,
    bul: Three,
    bur: Three,
    bdl: Three,
    bdr: Three,
) -> (out: FBFace<Facelet>)
    ensures
        out == back_with_corners(face, bul, bur, bdl, bdr),
{
    reveal(back_with_corners);
    FBFace {
        ul: bul.1,
        ur: bur.2,
        dl: bdl.2,
        dr: bdr.1,
        ..face
    }
}

/// The upper face with the facelets of its edges from the colors given
/// for each edge.
#[verifier::opaque]
pub open spec fn upper_with_edges(
    face: UDFace<Facelet>,
    ub: Two,
    ul: Two,
    ur: Two,
    uf: Two,
) -> UDFace<Facelet> {
    UDFace {
        bc: ub.first,
        lc: ul.second,
        rc: ur.second,
        fc: uf.first,
        ..face
    }
}

fn set_edges_of_upper(
    face: UDFace<Facelet>,
    ub: Two,
    ul: Two,
    ur: Two,
    uf: Two,
) -> (out: UDFace<Facelet>)
    ensures
        out == upper_with_edges(face, ub, ul, ur, uf),
{
    reveal(upper_with_edges);
    UDFace {
        bc: ub.first,
        lc: ul.second,
        rc: ur.second,
        fc: uf.first,
        ..face
    }
}

/// The lower face with the facelets of its edges from the colors given
/// for each edge.
#[verifier::opaque]
pub open spec fn lower_with_edges(
    face: UDFace<Facelet>,
    db: Two,
    dl: Two,
    dr: Two,
    df: Two,
) -> UDFace<Facelet> {
    UDFace {
        bc: db.first,
        lc: dl.second,
        rc: dr.second,
        fc: df.first,
        ..face
    }
}

fn set_edges_of_lower(
    face: UDFace<Facelet>,
    db: Two,
    dl: Two,
    dr: Two,
    df: Two,
) -> (out: UDFace<Facelet>)
    ensures
        out == lower_with_edges(face, db, dl, dr, df),
{
    reveal(lower_with_edges);
    UDFace {
        bc: db.first,
        lc: dl.second,
        rc: dr.second,
        fc: df.first,
        ..face
    }
}

/// The left face with the facelets of its edges from the colors given
/// for each edge.
#[verifier::opaque]
pub open spec fn left_with_edges(
    face: LRFace<Facelet>,
    ul: Two,
    bl: Two,
    fl: Two,
    dl: Two,
) -> LRFace<Facelet> {
    LRFace {
        uc: ul.first,
        bc: bl.first,
        fc: fl.first,
        dc: dl.first,
        ..face
    }
}

fn set_edges_of_left(
    face: LRFace<Facelet>,
    ul: Two,
    bl: Two,
    fl: Two,
    dl: Two,
) -> (out: LRFace<Facelet>)
    ensures
        out == left_with_edges(face, ul, bl, fl, dl),
{
    reveal(left_with_edges);
    LRFace {
        uc: ul.first,
        bc: bl.first,
        fc: fl.first,
        dc: dl.first,
        ..face
    }
}

/// The right face with the facelets of its edges from the colors given
/// for each edge.
#[verifier::opaque]
pub open spec fn right_with_edges(
    face: LRFace<Facelet>,
    ur: Two,
    br: Two,
    fr: Two,
    dr: Two,
) -> LRFace<Facelet> {
    LRFace {
        uc: ur.first,
        bc: br.first,
        fc: fr.first,
        dc: dr.first,
        ..face
    }
}

fn set_edges_of_right(
    face: LRFace<Facelet>,
    ur: Two,
    br: Two,
    fr: Two,
    dr: Two,
) -> (out: LRFace<Facelet>)
    ensures
        out == right_with_edges(face, ur, br, fr, dr),
{
    reveal(right_with_edges);
    LRFace {
        uc: ur.first,
        bc: br.first,
        fc: fr.first,
        dc: dr.first,
        ..face
    }
}

/// The front face with the facelets of its edges from the colors given
/// for each edge.
#[verifier::opaque]
pub open spec fn front_with_edges(
    face: FBFace<Facelet>,
    uf: Two,
    fl: Two,
    fr: Two,
    df: Two,
) -> FBFace<Facelet> {
    FBFace {
        uc: uf.second,
        lc: fl.second,
        rc: fr.second,
        dc: df.second,
        ..face
    }
}

fn set_edges_of_front(
    face: FBFace<Facelet>,
    uf: Two,
    fl: Two,
    fr: Two,
    df: Two,
) -> (out: FBFace<Facelet>)
    ensures
        out == front_with_edges(face, uf, fl, fr, df),
{
    reveal(front_with_edges);
    FBFace {
        uc: uf.second,
        lc: fl.second,
        rc: fr.second,
        dc: df.second,
        ..face
    }
}

/// The back face with the facelets of its edges from the colors given
/// for each edge.
#[verifier::opaque]
pub open spec fn back_with_edges(
    face: FBFace<Facelet>,
    ub: Two,
    bl: Two,
    br: Two,
    db: Two,
) -> FBFace<Facelet> {
    FBFace {
        uc: ub.second,
        lc: bl.second,
        rc: br.second,
        dc: db.second,
        ..face
    }
}

fn set_edges_of_back(
    face: FBFace<Facelet>,
    ub: Two,
    bl: Two,
    br: Two,
    db: Two,
) -> (out: FBFace<Facelet>)
    ensures
        out == back_with_edges(face, ub, bl, br, db),
{
    reveal(back_with_edges);
    FBFace {
        uc: ub.second,
        lc: bl.second,
        rc: br.second,
        dc: db.second,
        ..face
    }
}

/// The cube with the corners that the states ask for: in each corner place
/// the cubelet of `pos`, twisted as `orr` says.
pub open spec fn with_corners(
    cube: Cube,
    pos: CubeCornerPositions,
    orr: CornerOrientationState,
) -> Cube {
    Cube {
        u: upper_with_corners(
            cube.u,
            corner_facelets(cube, pos.bul, orr.bul),
            corner_facelets(cube, pos.bur, orr.bur),
            corner_facelets(cube, pos.ful, orr.ful),
            corner_facelets(cube, pos.fur, orr.fur),
        ),
        d: lower_with_corners(
            cube.d,
            corner_facelets(cube, pos.bdl, orr.bdl),
            corner_facelets(cube, pos.bdr, orr.bdr),
            corner_facelets(cube, pos.fdl, orr.fdl),
            corner_facelets(cube, pos.fdr, orr.fdr),
        ),
        l: left_with_corners(
            cube.l,
            corner_facelets(cube, pos.bul, orr.bul),
            corner_facelets(cube, pos.ful, orr.ful),
            corner_facelets(cube, pos.bdl, orr.bdl),
            corner_facelets(cube, pos.fdl, orr.fdl),
        ),
        r: right_with_corners(
            cube.r,
            corner_facelets(cube, pos.bur, orr.bur),
            corner_facelets(cube, pos.fur, orr.fur),
            corner_facelets(cube, pos.bdr, orr.bdr),
            corner_facelets(cube, pos.fdr, orr.fdr),
        ),
        f: front_with_corners(
            cube.f,
            corner_facelets(cube, pos.ful, orr.ful),
            corner_facelets(cube, pos.fur, orr.fur),
            corner_facelets(cube, pos.fdl, orr.fdl),
            corner_facelets(cube, pos.fdr, orr.fdr),
        ),
        b: back_with_corners(
            cube.b,
            corner_facelets(cube, pos.bul, orr.bul),
            corner_facelets(cube, pos.bur, orr.bur),
            corner_facelets(cube, pos.bdl, orr.bdl),
            corner_facelets(cube, pos.bdr, orr.bdr),
        ),
    }
}

fn set_corner_facelets(cube: &mut Cube, pos: CubeCornerPositions, orr: CornerOrientationState)
    ensures
        *final(cube) == with_corners(*old(cube), pos, orr),
{
    *cube = corners_set(*cube, pos, orr);
}

fn corners_set(cube: Cube, pos: CubeCornerPositions, orr: CornerOrientationState) -> (out: Cube)
    ensures
        out == with_corners(cube, pos, orr),
{
    let ful = get_corner_facelets(&cube, pos.ful, orr.ful);
    let fur = get_corner_facelets(&cube, pos.fur, orr.fur);
    let bur = get_corner_facelets(&cube, pos.bur, orr.bur);
    let bul = get_corner_facelets(&cube, pos.bul, orr.bul);
    let fdl = get_corner_facelets(&cube, pos.fdl, orr.fdl);
    let fdr = get_corner_facelets(&cube, pos.fdr, orr.fdr);
    let bdr = get_corner_facelets(&cube, pos.bdr, orr.bdr);
    let bdl = get_corner_facelets(&cube, pos.bdl, orr.bdl);
    let u = set_corners_of_upper(cube.u, bul, bur, ful, fur);
    let d = set_corners_of_lower(cube.d, bdl, bdr, fdl, fdr);
    let l = set_corners_of_left(cube.l, bul, ful, bdl, fdl);
    let r = set_corners_of_right(cube.r, bur, fur, bdr, fdr);
    let f = set_corners_of_front(cube.f, ful, fur, fdl, fdr);
    let b = set_corners_of_back(cube.b, bul, bur, bdl, bdr);
    Cube { u, d, l, r, f, b }
}

/// The cube with the edges that the states ask for: in each edge place the
/// cubelet of `pos`, good or bad as `orr` says.
pub open spec fn with_edges(cube: Cube, pos: CubeEdgePositions, orr: EdgeOrientationState) -> Cube {
    Cube {
        u: upper_with_edges(
            cube.u,
            mid_edge_facelets(cube, pos.ub, orr.ub),
            side_edge_facelets(cube, pos.ul, orr.ul),
            side_edge_facelets(cube, pos.ur, orr.ur),
            mid_edge_facelets(cube, pos.uf, orr.uf),
        ),
        d: lower_with_edges(
            cube.d,
            mid_edge_facelets(cube, pos.db, orr.db),
            side_edge_facelets(cube, pos.dl, orr.dl),
            side_edge_facelets(cube, pos.dr, orr.dr),
            mid_edge_facelets(cube, pos.df, orr.df),
        ),
        l: left_with_edges(
            cube.l,
            side_edge_facelets(cube, pos.ul, orr.ul),
            side_edge_facelets(cube, pos.bl, orr.bl),
            side_edge_facelets(cube, pos.fl, orr.fl),
            side_edge_facelets(cube, pos.dl, orr.dl),
        ),
        r: right_with_edges(
            cube.r,
            side_edge_facelets(cube, pos.ur, orr.ur),
            side_edge_facelets(cube, pos.br, orr.br),
            side_edge_facelets(cube, pos.fr, orr.fr),
            side_edge_facelets(cube, pos.dr, orr.dr),
        ),
        f: front_with_edges(
            cube.f,
            mid_edge_facelets(cube, pos.uf, orr.uf),
            side_edge_facelets(cube, pos.fl, orr.fl),
            side_edge_facelets(cube, pos.fr, orr.fr),
            mid_edge_facelets(cube, pos.df, orr.df),
        ),
        b: back_with_edges(
            cube.b,
            mid_edge_facelets(cube, pos.ub, orr.ub),
            side_edge_facelets(cube, pos.bl, orr.bl),
            side_edge_facelets(cube, pos.br, orr.br),
            mid_edge_facelets(cube, pos.db, orr.db),
        ),
    }
}

fn set_edge_facelets(cube: &mut Cube, pos: CubeEdgePositions, orr: EdgeOrientationState)
    ensures
        *final(cube) == with_edges(*old(cube), pos, orr),
{
    *cube = edges_set(*cube, pos, orr);
}

fn edges_of_upper(cube: &Cube, pos: CubeEdgePositions, orr: EdgeOrientationState) -> (out: UDFace<
    Facelet,
>)
    ensures
        out == with_edges(*cube, pos, orr).u,
{
    let ub = get_mid_edge_facelets(cube, pos.ub, orr.ub);
    let ul = get_side_edge_facelets(cube, pos.ul, orr.ul);
    let ur = get_side_edge_facelets(cube, pos.ur, orr.ur);
    let uf = get_mid_edge_facelets(cube, pos.uf, orr.uf);
    set_edges_of_upper(cube.u, ub, ul, ur, uf)
}

fn edges_of_lower(cube: &Cube, pos: CubeEdgePositions, orr: EdgeOrientationState) -> (out: UDFace<
    Facelet,
>)
    ensures
        out == with_edges(*cube, pos, orr).d,
{
    let db = get_mid_edge_facelets(cube, pos.db, orr.db);
    let dl = get_side_edge_facelets(cube, pos.dl, orr.dl);
    let dr = get_side_edge_facelets(cube, pos.dr, orr.dr);
    let df = get_mid_edge_facelets(cube, pos.df, orr.df);
    set_edges_of_lower(cube.d, db, dl, dr, df)
}

fn edges_of_left(cube: &Cube, pos: CubeEdgePositions, orr: EdgeOrientationState) -> (out: LRFace<
    Facelet,
>)
    ensures
        out == with_edges(*cube, pos, orr).l,
{
    let ul = get_side_edge_facelets(cube, pos.ul, orr.ul);
    let bl = get_side_edge_facelets(cube, pos.bl, orr.bl);
    let fl = get_side_edge_facelets(cube, pos.fl, orr.fl);
    let dl = get_side_edge_facelets(cube, pos.dl, orr.dl);
    set_edges_of_left(cube.l, ul, bl, fl, dl)
}

fn edges_of_right(cube: &Cube, pos: CubeEdgePositions, orr: EdgeOrientationState) -> (out: LRFace<
    Facelet,
>)
    ensures
        out == with_edges(*cube, pos, orr).r,
{
    let ur = get_side_edge_facelets(cube, pos.ur, orr.ur);
    let br = get_side_edge_facelets(cube, pos.br, orr.br);
    let fr = get_side_edge_facelets(cube, pos.fr, orr.fr);
    let dr = get_side_edge_facelets(cube, pos.dr, orr.dr);
    set_edges_of_right(cube.r, ur, br, fr, dr)
}

fn edges_of_front(cube: &Cube, pos: CubeEdgePositions, orr: EdgeOrientationState) -> (out: FBFace<
    Facelet,
>)
    ensures
        out == with_edges(*cube, pos, orr).f,
{
    let uf = get_mid_edge_facelets(cube, pos.uf, orr.uf);
    let fl = get_side_edge_facelets(cube, pos.fl, orr.fl);
    let fr = get_side_edge_facelets(cube, pos.fr, orr.fr);
    let df = get_mid_edge_facelets(cube, pos.df, orr.df);
    set_edges_of_front(cube.f, uf, fl, fr, df)
}

fn edges_of_back(cube: &Cube, pos: CubeEdgePositions, orr: EdgeOrientationState) -> (out: FBFace<
    Facelet,
>)
    ensures
        out == with_edges(*cube, pos, orr).b,
{
    let ub = get_mid_edge_facelets(cube, pos.ub, orr.ub);
    let bl = get_side_edge_facelets(cube, pos.bl, orr.bl);
    let br = get_side_edge_facelets(cube, pos.br, orr.br);
    let db = get_mid_edge_facelets(cube, pos.db, orr.db);
    set_edges_of_back(cube.b, ub, bl, br, db)
}

fn edges_set(cube: Cube, pos: CubeEdgePositions, orr: EdgeOrientationState) -> (out: Cube)
    ensures
        out == with_edges(cube, pos, orr),
{
    Cube {
        u: edges_of_upper(&cube, pos, orr),
        d: edges_of_lower(&cube, pos, orr),
        l: edges_of_left(&cube, pos, orr),
        r: edges_of_right(&cube, pos, orr),
        f: edges_of_front(&cube, pos, orr),
        b: edges_of_back(&cube, pos, orr),
    }
}

/// The cube that `make_cube` builds: the solved cube with green in front and
/// yellow on top, with the corners and then the edges that the states ask
/// for.
pub open spec fn made_cube(
    edge_pos: CubeEdgePositions,
    corner_pos: CubeCornerPositions,
    edge_or: EdgeOrientationState,
    corner_or: CornerOrientationState,
) -> Cube {
    with_edges(
        with_corners(Cube::solved(Facelet::Green, Facelet::Yellow), corner_pos, corner_or),
        edge_pos,
        edge_or,
    )
}

/// Whether the four states can be read from the cube as given.
pub open spec fn shows(
    cube: Cube,
    edge_pos: CubeEdgePositions,
    corner_pos: CubeCornerPositions,
    edge_or: EdgeOrientationState,
    corner_or: CornerOrientationState,
) -> bool {
    &&& CubeCornerPositions::readable(cube)
    &&& CubeCornerPositions::from_cube_spec(cube) == corner_pos
    &&& CubeEdgePositions::readable(cube)
    &&& CubeEdgePositions::from_cube_spec(cube) == edge_pos
    &&& CornerOrientationState::from_cube_spec(cube) == corner_or
    &&& EdgeOrientationState::from_cube_spec(cube) == edge_or
}

/// The solved cube with green in front and yellow on top.
pub open spec fn standard() -> Cube {
    Cube::solved(Facelet::Green, Facelet::Yellow)
}

/// The cube has the centers of the cube with green in front and yellow on
/// top.
pub open spec fn standard_centers(cube: Cube) -> bool {
    &&& cube.f.cc == Facelet::Green
    &&& cube.b.cc == Facelet::Blue
    &&& cube.u.cc == Facelet::Yellow
    &&& cube.d.cc == Facelet::White
    &&& cube.r.cc == Facelet::Orange
    &&& cube.l.cc == Facelet::Red
}

/// The solved cube with green in front and yellow on top has orange on the
/// right, red on the left, blue at the back and white below.
pub proof fn lemma_standard_centers()
    ensures
        standard_centers(standard()),
{
    crate::cube::lemma_third_corner_defined(Facelet::Green, Facelet::Yellow);
    crate::cube::lemma_third_corner_cycle(Facelet::Green, Facelet::Yellow);
    reveal_with_fuel(crate::cube::third_corner_from, 9);
}

/// The colors with which an edge cubelet is put in a place of the left or
/// right layer are those of the cubelet, and show the orientation asked
/// for.
pub proof fn lemma_side_edge_round_trip(cube: Cube, cubelet: SideCubelet, good: bool)
    requires
        standard_centers(cube),
    ensures
        crate::edge_position_state::edge_at(
            cube,
            side_edge_facelets(cube, cubelet, good).second,
            side_edge_facelets(cube, cubelet, good).first,
        ) == Some(cubelet),
        lr_good_spec(
            cube,
            side_edge_facelets(cube, cubelet, good).first,
            side_edge_facelets(cube, cubelet, good).second,
        ) == good,
{
    reveal(side_edge_facelets);
    reveal(crate::edge_position_state::edge_at);
}

/// The colors with which an edge cubelet is put in a place of the middle
/// slice are those of the cubelet, and show the orientation asked for.
pub proof fn lemma_mid_edge_round_trip(cube: Cube, cubelet: SideCubelet, good: bool)
    requires
        standard_centers(cube),
    ensures
        crate::edge_position_state::edge_at(
            cube,
            mid_edge_facelets(cube, cubelet, good).first,
            mid_edge_facelets(cube, cubelet, good).second,
        ) == Some(cubelet),
        ud_mid_good_spec(
            cube,
            mid_edge_facelets(cube, cubelet, good).first,
            mid_edge_facelets(cube, cubelet, good).second,
        ) == good,
{
    reveal(mid_edge_facelets);
    reveal(crate::edge_position_state::edge_at);
}

/// The colors with which a corner cubelet is put in a place are those of
/// the cubelet, and show the orientation asked for.
pub proof fn lemma_corner_round_trip(
    cube: Cube,
    cubelet: CornerCubelet,
    orientation: CornerOrientation,
)
    requires
        standard_centers(cube),
    ensures
        crate::corner_position_state::corner_at(
            cube,
            corner_facelets(cube, cubelet, orientation).0,
            corner_facelets(cube, cubelet, orientation).1,
            corner_facelets(cube, cubelet, orientation).2,
        ) == Some(cubelet),
        crate::corner_orientation_state::orientation_spec(
            cube,
            corner_facelets(cube, cubelet, orientation).0,
            corner_facelets(cube, cubelet, orientation).1,
        ) == orientation,
{
    reveal(corner_facelets);
    reveal(crate::corner_position_state::corner_at);
}

/// What `corner_facelets` and the like give depends on the centers of the
/// cube alone.
pub proof fn lemma_facelets_by_centers(c1: Cube, c2: Cube)
    requires
        crate::projection::same_centers(c1, c2),
    ensures
        forall|cubelet: CornerCubelet, orientation: CornerOrientation| #[trigger]
            corner_facelets(c1, cubelet, orientation) == corner_facelets(
                c2,
                cubelet,
                orientation,
            ),
        forall|cubelet: SideCubelet, good: bool| #[trigger]
            side_edge_facelets(c1, cubelet, good) == side_edge_facelets(c2, cubelet, good),
        forall|cubelet: SideCubelet, good: bool| #[trigger]
            mid_edge_facelets(c1, cubelet, good) == mid_edge_facelets(c2, cubelet, good),
{
    reveal(corner_facelets);
    reveal(side_edge_facelets);
    reveal(mid_edge_facelets);
}

/// The facelets of the upper face of the cube that `make_cube` builds.
proof fn lemma_upper_of_made_cube(
    ep: CubeEdgePositions,
    cp: CubeCornerPositions,
    eo: EdgeOrientationState,
    co: CornerOrientationState,
)
    ensures
        made_cube(ep, cp, eo, co).u.bl == corner_facelets(standard(), cp.bul, co.bul).2,
        made_cube(ep, cp, eo, co).u.bc
            == mid_edge_facelets(with_corners(standard(), cp, co), ep.ub, eo.ub).first,
        made_cube(ep, cp, eo, co).u.br == corner_facelets(standard(), cp.bur, co.bur).1,
        made_cube(ep, cp, eo, co).u.lc
            == side_edge_facelets(with_corners(standard(), cp, co), ep.ul, eo.ul).second,
        made_cube(ep, cp, eo, co).u.rc
            == side_edge_facelets(with_corners(standard(), cp, co), ep.ur, eo.ur).second,
        made_cube(ep, cp, eo, co).u.fl == corner_facelets(standard(), cp.ful, co.ful).1,
        made_cube(ep, cp, eo, co).u.fc
            == mid_edge_facelets(with_corners(standard(), cp, co), ep.uf, eo.uf).first,
        made_cube(ep, cp, eo, co).u.fr == corner_facelets(standard(), cp.fur, co.fur).2,
        made_cube(ep, cp, eo, co).u.cc == standard().u.cc,
        with_corners(standard(), cp, co).u.cc == standard().u.cc,
{
    reveal(upper_with_corners);
    reveal(upper_with_edges);
}

/// The facelets of the lower face of the cube that `make_cube` builds.
proof fn lemma_lower_of_made_cube(
    ep: CubeEdgePositions,
    cp: CubeCornerPositions,
    eo: EdgeOrientationState,
    co: CornerOrientationState,
)
    ensures
        made_cube(ep, cp, eo, co).d.bl == corner_facelets(standard(), cp.bdl, co.bdl).1,
        made_cube(ep, cp, eo, co).d.bc
            == mid_edge_facelets(with_corners(standard(), cp, co), ep.db, eo.db).first,
        made_cube(ep, cp, eo, co).d.br == corner_facelets(standard(), cp.bdr, co.bdr).2,
        made_cube(ep, cp, eo, co).d.lc
            == side_edge_facelets(with_corners(standard(), cp, co), ep.dl, eo.dl).second,
        made_cube(ep, cp, eo, co).d.rc
            == side_edge_facelets(with_corners(standard(), cp, co), ep.dr, eo.dr).second,
        made_cube(ep, cp, eo, co).d.fl == corner_facelets(standard(), cp.fdl, co.fdl).2,
        made_cube(ep, cp, eo, co).d.fc
            == mid_edge_facelets(with_corners(standard(), cp, co), ep.df, eo.df).first,
        made_cube(ep, cp, eo, co).d.fr == corner_facelets(standard(), cp.fdr, co.fdr).1,
        made_cube(ep, cp, eo, co).d.cc == standard().d.cc,
        with_corners(standard(), cp, co).d.cc == standard().d.cc,
{
    reveal(lower_with_corners);
    reveal(lower_with_edges);
}

/// The facelets of the left face of the cube that `make_cube` builds.
proof fn lemma_left_of_made_cube(
    ep: CubeEdgePositions,
    cp: CubeCornerPositions,
    eo: EdgeOrientationState,
    co: CornerOrientationState,
)
    ensures
        made_cube(ep, cp, eo, co).l.ub == corner_facelets(standard(), cp.bul, co.bul).0,
        made_cube(ep, cp, eo, co).l.uc
            == side_edge_facelets(with_corners(standard(), cp, co), ep.ul, eo.ul).first,
        made_cube(ep, cp, eo, co).l.uf == corner_facelets(standard(), cp.ful, co.ful).0,
        made_cube(ep, cp, eo, co).l.bc
            == side_edge_facelets(with_corners(standard(), cp, co), ep.bl, eo.bl).first,
        made_cube(ep, cp, eo, co).l.fc
            == side_edge_facelets(with_corners(standard(), cp, co), ep.fl, eo.fl).first,
        made_cube(ep, cp, eo, co).l.db == corner_facelets(standard(), cp.bdl, co.bdl).0,
        made_cube(ep, cp, eo, co).l.dc
            == side_edge_facelets(with_corners(standard(), cp, co), ep.dl, eo.dl).first,
        made_cube(ep, cp, eo, co).l.df == corner_facelets(standard(), cp.fdl, co.fdl).0,
        made_cube(ep, cp, eo, co).l.cc == standard().l.cc,
        with_corners(standard(), cp, co).l.cc == standard().l.cc,
{
    reveal(left_with_corners);
    reveal(left_with_edges);
}

/// The facelets of the right face of the cube that `make_cube` builds.
proof fn lemma_right_of_made_cube(
    ep: CubeEdgePositions,
    cp: CubeCornerPositions,
    eo: EdgeOrientationState,
    co: CornerOrientationState,
)
    ensures
        made_cube(ep, cp, eo, co).r.ub == corner_facelets(standard(), cp.bur, co.bur).0,
        made_cube(ep, cp, eo, co).r.uc
            == side_edge_facelets(with_corners(standard(), cp, co), ep.ur, eo.ur).first,
        made_cube(ep, cp, eo, co).r.uf == corner_facelets(standard(), cp.fur, co.fur).0,
        made_cube(ep, cp, eo, co).r.bc
            == side_edge_facelets(with_corners(standard(), cp, co), ep.br, eo.br).first,
        made_cube(ep, cp, eo, co).r.fc
            == side_edge_facelets(with_corners(standard(), cp, co), ep.fr, eo.fr).first,
        made_cube(ep, cp, eo, co).r.db == corner_facelets(standard(), cp.bdr, co.bdr).0,
        made_cube(ep, cp, eo, co).r.dc
            == side_edge_facelets(with_corners(standard(), cp, co), ep.dr, eo.dr).first,
        made_cube(ep, cp, eo, co).r.df == corner_facelets(standard(), cp.fdr, co.fdr).0,
        made_cube(ep, cp, eo, co).r.cc == standard().r.cc,
        with_corners(standard(), cp, co).r.cc == standard().r.cc,
{
    reveal(right_with_corners);
    reveal(right_with_edges);
}

/// The facelets of the front face of the cube that `make_cube` builds.
proof fn lemma_front_of_made_cube(
    ep: CubeEdgePositions,
    cp: CubeCornerPositions,
    eo: EdgeOrientationState,
    co: CornerOrientationState,
)
    ensures
        made_cube(ep, cp, eo, co).f.ul == corner_facelets(standard(), cp.ful, co.ful).2,
        made_cube(ep, cp, eo, co).f.uc
            == mid_edge_facelets(with_corners(standard(), cp, co), ep.uf, eo.uf).second,
        made_cube(ep, cp, eo, co).f.ur == corner_facelets(standard(), cp.fur, co.fur).1,
        made_cube(ep, cp, eo, co).f.lc
            == side_edge_facelets(with_corners(standard(), cp, co), ep.fl, eo.fl).second,
        made_cube(ep, cp, eo, co).f.rc
            == side_edge_facelets(with_corners(standard(), cp, co), ep.fr, eo.fr).second,
        made_cube(ep, cp, eo, co).f.dl == corner_facelets(standard(), cp.fdl, co.fdl).1,
        made_cube(ep, cp, eo, co).f.dc
            == mid_edge_facelets(with_corners(standard(), cp, co), ep.df, eo.df).second,
        made_cube(ep, cp, eo, co).f.dr == corner_facelets(standard(), cp.fdr, co.fdr).2,
        made_cube(ep, cp, eo, co).f.cc == standard().f.cc,
        with_corners(standard(), cp, co).f.cc == standard().f.cc,
{
    reveal(front_with_corners);
    reveal(front_with_edges);
}

/// The facelets of the back face of the cube that `make_cube` builds.
proof fn lemma_back_of_made_cube(
    ep: CubeEdgePositions,
    cp: CubeCornerPositions,
    eo: EdgeOrientationState,
    co: CornerOrientationState,
)
    ensures
        made_cube(ep, cp, eo, co).b.ul == corner_facelets(standard(), cp.bul, co.bul).1,
        made_cube(ep, cp, eo, co).b.uc
            == mid_edge_facelets(with_corners(standard(), cp, co), ep.ub, eo.ub).second,
        made_cube(ep, cp, eo, co).b.ur == corner_facelets(standard(), cp.bur, co.bur).2,
        made_cube(ep, cp, eo, co).b.lc
            == side_edge_facelets(with_corners(standard(), cp, co), ep.bl, eo.bl).second,
        made_cube(ep, cp, eo, co).b.rc
            == side_edge_facelets(with_corners(standard(), cp, co), ep.br, eo.br).second,
        made_cube(ep, cp, eo, co).b.dl == corner_facelets(standard(), cp.bdl, co.bdl).2,
        made_cube(ep, cp, eo, co).b.dc
            == mid_edge_facelets(with_corners(standard(), cp, co), ep.db, eo.db).second,
        made_cube(ep, cp, eo, co).b.dr == corner_facelets(standard(), cp.bdr, co.bdr).1,
        made_cube(ep, cp, eo, co).b.cc == standard().b.cc,
        with_corners(standard(), cp, co).b.cc == standard().b.cc,
{
    reveal(back_with_corners);
    reveal(back_with_edges);
}

/// The cube that `make_cube` builds and the cube with its corners alone have
/// the centers of the solved cube.
proof fn lemma_centers_of_made_cube(
    ep: CubeEdgePositions,
    cp: CubeCornerPositions,
    eo: EdgeOrientationState,
    co: CornerOrientationState,
)
    ensures
        standard_centers(made_cube(ep, cp, eo, co)),
        standard_centers(with_corners(standard(), cp, co)),
{
    lemma_standard_centers();
    lemma_upper_of_made_cube(ep, cp, eo, co);
    lemma_lower_of_made_cube(ep, cp, eo, co);
    lemma_left_of_made_cube(ep, cp, eo, co);
    lemma_right_of_made_cube(ep, cp, eo, co);
    lemma_front_of_made_cube(ep, cp, eo, co);
    lemma_back_of_made_cube(ep, cp, eo, co);
}

proof fn lemma_made_corner_ful(
    ep: CubeEdgePositions,
    cp: CubeCornerPositions,
    eo: EdgeOrientationState,
    co: CornerOrientationState,
)
    ensures
        crate::corner_position_state::corner_at(
            made_cube(ep, cp, eo, co),
            made_cube(ep, cp, eo, co).f.ul,
            made_cube(ep, cp, eo, co).u.fl,
            made_cube(ep, cp, eo, co).l.uf,
        ) == Some(cp.ful),
        crate::corner_orientation_state::orientation_spec(
            made_cube(ep, cp, eo, co),
            made_cube(ep, cp, eo, co).l.uf,
            made_cube(ep, cp, eo, co).u.fl,
        ) == co.ful,
{
    let made = made_cube(ep, cp, eo, co);
    lemma_centers_of_made_cube(ep, cp, eo, co);
    lemma_front_of_made_cube(ep, cp, eo, co);
    lemma_left_of_made_cube(ep, cp, eo, co);
    lemma_upper_of_made_cube(ep, cp, eo, co);
    lemma_facelets_by_centers(made, standard());
    lemma_corner_round_trip(made, cp.ful, co.ful);
    crate::projection::lemma_corner_at_symmetric(made, made.l.uf, made.u.fl, made.f.ul);
}

proof fn lemma_made_corner_fur(
    ep: CubeEdgePositions,
    cp: CubeCornerPositions,
    eo: EdgeOrientationState,
    co: CornerOrientationState,
)
    ensures
        crate::corner_position_state::corner_at(
            made_cube(ep, cp, eo, co),
            made_cube(ep, cp, eo, co).f.ur,
            made_cube(ep, cp, eo, co).u.fr,
            made_cube(ep, cp, eo, co).r.uf,
        ) == Some(cp.fur),
        crate::corner_orientation_state::orientation_spec(
            made_cube(ep, cp, eo, co),
            made_cube(ep, cp, eo, co).r.uf,
            made_cube(ep, cp, eo, co).f.ur,
        ) == co.fur,
{
    let made = made_cube(ep, cp, eo, co);
    lemma_centers_of_made_cube(ep, cp, eo, co);
    lemma_front_of_made_cube(ep, cp, eo, co);
    lemma_right_of_made_cube(ep, cp, eo, co);
    lemma_upper_of_made_cube(ep, cp, eo, co);
    lemma_facelets_by_centers(made, standard());
    lemma_corner_round_trip(made, cp.fur, co.fur);
    crate::projection::lemma_corner_at_symmetric(made, made.r.uf, made.f.ur, made.u.fr);
}

proof fn lemma_made_corner_bur(
    ep: CubeEdgePositions,
    cp: CubeCornerPositions,
    eo: EdgeOrientationState,
    co: CornerOrientationState,
)
    ensures
        crate::corner_position_state::corner_at(
            made_cube(ep, cp, eo, co),
            made_cube(ep, cp, eo, co).b.ur,
            made_cube(ep, cp, eo, co).u.br,
            made_cube(ep, cp, eo, co).r.ub,
        ) == Some(cp.bur),
        crate::corner_orientation_state::orientation_spec(
            made_cube(ep, cp, eo, co),
            made_cube(ep, cp, eo, co).r.ub,
            made_cube(ep, cp, eo, co).u.br,
        ) == co.bur,
{
    let made = made_cube(ep, cp, eo, co);
    lemma_centers_of_made_cube(ep, cp, eo, co);
    lemma_back_of_made_cube(ep, cp, eo, co);
    lemma_right_of_made_cube(ep, cp, eo, co);
    lemma_upper_of_made_cube(ep, cp, eo, co);
    lemma_facelets_by_centers(made, standard());
    lemma_corner_round_trip(made, cp.bur, co.bur);
    crate::projection::lemma_corner_at_symmetric(made, made.r.ub, made.u.br, made.b.ur);
}

proof fn lemma_made_corner_bul(
    ep: CubeEdgePositions,
    cp: CubeCornerPositions,
    eo: EdgeOrientationState,
    co: CornerOrientationState,
)
    ensures
        crate::corner_position_state::corner_at(
            made_cube(ep, cp, eo, co),
            made_cube(ep, cp, eo, co).b.ul,
            made_cube(ep, cp, eo, co).u.bl,
            made_cube(ep, cp, eo, co).l.ub,
        ) == Some(cp.bul),
        crate::corner_orientation_state::orientation_spec(
            made_cube(ep, cp, eo, co),
            made_cube(ep, cp, eo, co).l.ub,
            made_cube(ep, cp, eo, co).b.ul,
        ) == co.bul,
{
    let made = made_cube(ep, cp, eo, co);
    lemma_centers_of_made_cube(ep, cp, eo, co);
    lemma_back_of_made_cube(ep, cp, eo, co);
    lemma_left_of_made_cube(ep, cp, eo, co);
    lemma_upper_of_made_cube(ep, cp, eo, co);
    lemma_facelets_by_centers(made, standard());
    lemma_corner_round_trip(made, cp.bul, co.bul);
    crate::projection::lemma_corner_at_symmetric(made, made.l.ub, made.b.ul, made.u.bl);
}

proof fn lemma_made_corner_fdl(
    ep: CubeEdgePositions,
    cp: CubeCornerPositions,
    eo: EdgeOrientationState,
    co: CornerOrientationState,
)
    ensures
        crate::corner_position_state::corner_at(
            made_cube(ep, cp, eo, co),
            made_cube(ep, cp, eo, co).f.dl,
            made_cube(ep, cp, eo, co).d.fl,
            made_cube(ep, cp, eo, co).l.df,
        ) == Some(cp.fdl),
        crate::corner_orientation_state::orientation_spec(
            made_cube(ep, cp, eo, co),
            made_cube(ep, cp, eo, co).l.df,
            made_cube(ep, cp, eo, co).f.dl,
        ) == co.fdl,
{
    let made = made_cube(ep, cp, eo, co);
    lemma_centers_of_made_cube(ep, cp, eo, co);
    lemma_lower_of_made_cube(ep, cp, eo, co);
    lemma_front_of_made_cube(ep, cp, eo, co);
    lemma_left_of_made_cube(ep, cp, eo, co);
    lemma_facelets_by_centers(made, standard());
    lemma_corner_round_trip(made, cp.fdl, co.fdl);
    crate::projection::lemma_corner_at_symmetric(made, made.l.df, made.f.dl, made.d.fl);
}

proof fn lemma_made_corner_fdr(
    ep: CubeEdgePositions,
    cp: CubeCornerPositions,
    eo: EdgeOrientationState,
    co: CornerOrientationState,
)
    ensures
        crate::corner_position_state::corner_at(
            made_cube(ep, cp, eo, co),
            made_cube(ep, cp, eo, co).f.dr,
            made_cube(ep, cp, eo, co).d.fr,
            made_cube(ep, cp, eo, co).r.df,
        ) == Some(cp.fdr),
        crate::corner_orientation_state::orientation_spec(
            made_cube(ep, cp, eo, co),
            made_cube(ep, cp, eo, co).r.df,
            made_cube(ep, cp, eo, co).d.fr,
        ) == co.fdr,
{
    let made = made_cube(ep, cp, eo, co);
    lemma_centers_of_made_cube(ep, cp, eo, co);
    lemma_lower_of_made_cube(ep, cp, eo, co);
    lemma_front_of_made_cube(ep, cp, eo, co);
    lemma_right_of_made_cube(ep, cp, eo, co);
    lemma_facelets_by_centers(made, standard());
    lemma_corner_round_trip(made, cp.fdr, co.fdr);
    crate::projection::lemma_corner_at_symmetric(made, made.r.df, made.d.fr, made.f.dr);
}

proof fn lemma_made_corner_bdr(
    ep: CubeEdgePositions,
    cp: CubeCornerPositions,
    eo: EdgeOrientationState,
    co: CornerOrientationState,
)
    ensures
        crate::corner_position_state::corner_at(
            made_cube(ep, cp, eo, co),
            made_cube(ep, cp, eo, co).b.dr,
            made_cube(ep, cp, eo, co).d.br,
            made_cube(ep, cp, eo, co).r.db,
        ) == Some(cp.bdr),
        crate::corner_orientation_state::orientation_spec(
            made_cube(ep, cp, eo, co),
            made_cube(ep, cp, eo, co).r.db,
            made_cube(ep, cp, eo, co).b.dr,
        ) == co.bdr,
{
    let made = made_cube(ep, cp, eo, co);
    lemma_centers_of_made_cube(ep, cp, eo, co);
    lemma_back_of_made_cube(ep, cp, eo, co);
    lemma_lower_of_made_cube(ep, cp, eo, co);
    lemma_right_of_made_cube(ep, cp, eo, co);
    lemma_facelets_by_centers(made, standard());
    lemma_corner_round_trip(made, cp.bdr, co.bdr);
    crate::projection::lemma_corner_at_symmetric(made, made.r.db, made.b.dr, made.d.br);
}

proof fn lemma_made_corner_bdl(
    ep: CubeEdgePositions,
    cp: CubeCornerPositions,
    eo: EdgeOrientationState,
    co: CornerOrientationState,
)
    ensures
        crate::corner_position_state::corner_at(
            made_cube(ep, cp, eo, co),
            made_cube(ep, cp, eo, co).b.dl,
            made_cube(ep, cp, eo, co).d.bl,
            made_cube(ep, cp, eo, co).l.db,
        ) == Some(cp.bdl),
        crate::corner_orientation_state::orientation_spec(
            made_cube(ep, cp, eo, co),
            made_cube(ep, cp, eo, co).l.db,
            made_cube(ep, cp, eo, co).d.bl,
        ) == co.bdl,
{
    let made = made_cube(ep, cp, eo, co);
    lemma_centers_of_made_cube(ep, cp, eo, co);
    lemma_back_of_made_cube(ep, cp, eo, co);
    lemma_lower_of_made_cube(ep, cp, eo, co);
    lemma_left_of_made_cube(ep, cp, eo, co);
    lemma_facelets_by_centers(made, standard());
    lemma_corner_round_trip(made, cp.bdl, co.bdl);
    crate::projection::lemma_corner_at_symmetric(made, made.l.db, made.d.bl, made.b.dl);
}

proof fn lemma_made_edge_ul(
    ep: CubeEdgePositions,
    cp: CubeCornerPositions,
    eo: EdgeOrientationState,
    co: CornerOrientationState,
)
    ensures
        crate::edge_position_state::edge_at(
            made_cube(ep, cp, eo, co),
            made_cube(ep, cp, eo, co).u.lc,
            made_cube(ep, cp, eo, co).l.uc,
        ) == Some(ep.ul),
        lr_good_spec(
            made_cube(ep, cp, eo, co),
            made_cube(ep, cp, eo, co).l.uc,
            made_cube(ep, cp, eo, co).u.lc,
        ) == eo.ul,
{
    let made = made_cube(ep, cp, eo, co);
    lemma_centers_of_made_cube(ep, cp, eo, co);
    lemma_left_of_made_cube(ep, cp, eo, co);
    lemma_upper_of_made_cube(ep, cp, eo, co);
    lemma_facelets_by_centers(made, with_corners(standard(), cp, co));
    lemma_side_edge_round_trip(made, ep.ul, eo.ul);
    crate::projection::lemma_edge_at_symmetric(made, made.l.uc, made.u.lc);
}

proof fn lemma_made_edge_bl(
    ep: CubeEdgePositions,
    cp: CubeCornerPositions,
    eo: EdgeOrientationState,
    co: CornerOrientationState,
)
    ensures
        crate::edge_position_state::edge_at(
            made_cube(ep, cp, eo, co),
            made_cube(ep, cp, eo, co).b.lc,
            made_cube(ep, cp, eo, co).l.bc,
        ) == Some(ep.bl),
        lr_good_spec(
            made_cube(ep, cp, eo, co),
            made_cube(ep, cp, eo, co).l.bc,
            made_cube(ep, cp, eo, co).b.lc,
        ) == eo.bl,
{
    let made = made_cube(ep, cp, eo, co);
    lemma_centers_of_made_cube(ep, cp, eo, co);
    lemma_back_of_made_cube(ep, cp, eo, co);
    lemma_left_of_made_cube(ep, cp, eo, co);
    lemma_facelets_by_centers(made, with_corners(standard(), cp, co));
    lemma_side_edge_round_trip(made, ep.bl, eo.bl);
    crate::projection::lemma_edge_at_symmetric(made, made.l.bc, made.b.lc);
}

proof fn lemma_made_edge_dl(
    ep: CubeEdgePositions,
    cp: CubeCornerPositions,
    eo: EdgeOrientationState,
    co: CornerOrientationState,
)
    ensures
        crate::edge_position_state::edge_at(
            made_cube(ep, cp, eo, co),
            made_cube(ep, cp, eo, co).d.lc,
            made_cube(ep, cp, eo, co).l.dc,
        ) == Some(ep.dl),
        lr_good_spec(
            made_cube(ep, cp, eo, co),
            made_cube(ep, cp, eo, co).l.dc,
            made_cube(ep, cp, eo, co).d.lc,
        ) == eo.dl,
{
    let made = made_cube(ep, cp, eo, co);
    lemma_centers_of_made_cube(ep, cp, eo, co);
    lemma_lower_of_made_cube(ep, cp, eo, co);
    lemma_left_of_made_cube(ep, cp, eo, co);
    lemma_facelets_by_centers(made, with_corners(standard(), cp, co));
    lemma_side_edge_round_trip(made, ep.dl, eo.dl);
    crate::projection::lemma_edge_at_symmetric(made, made.l.dc, made.d.lc);
}

proof fn lemma_made_edge_fl(
    ep: CubeEdgePositions,
    cp: CubeCornerPositions,
    eo: EdgeOrientationState,
    co: CornerOrientationState,
)
    ensures
        crate::edge_position_state::edge_at(
            made_cube(ep, cp, eo, co),
            made_cube(ep, cp, eo, co).f.lc,
            made_cube(ep, cp, eo, co).l.fc,
        ) == Some(ep.fl),
        lr_good_spec(
            made_cube(ep, cp, eo, co),
            made_cube(ep, cp, eo, co).l.fc,
            made_cube(ep, cp, eo, co).f.lc,
        ) == eo.fl,
{
    let made = made_cube(ep, cp, eo, co);
    lemma_centers_of_made_cube(ep, cp, eo, co);
    lemma_front_of_made_cube(ep, cp, eo, co);
    lemma_left_of_made_cube(ep, cp, eo, co);
    lemma_facelets_by_centers(made, with_corners(standard(), cp, co));
    lemma_side_edge_round_trip(made, ep.fl, eo.fl);
    crate::projection::lemma_edge_at_symmetric(made, made.l.fc, made.f.lc);
}

proof fn lemma_made_edge_ur(
    ep: CubeEdgePositions,
    cp: CubeCornerPositions,
    eo: EdgeOrientationState,
    co: CornerOrientationState,
)
    ensures
        crate::edge_position_state::edge_at(
            made_cube(ep, cp, eo, co),
            made_cube(ep, cp, eo, co).u.rc,
            made_cube(ep, cp, eo, co).r.uc,
        ) == Some(ep.ur),
        lr_good_spec(
            made_cube(ep, cp, eo, co),
            made_cube(ep, cp, eo, co).r.uc,
            made_cube(ep, cp, eo, co).u.rc,
        ) == eo.ur,
{
    let made = made_cube(ep, cp, eo, co);
    lemma_centers_of_made_cube(ep, cp, eo, co);
    lemma_right_of_made_cube(ep, cp, eo, co);
    lemma_upper_of_made_cube(ep, cp, eo, co);
    lemma_facelets_by_centers(made, with_corners(standard(), cp, co));
    lemma_side_edge_round_trip(made, ep.ur, eo.ur);
    crate::projection::lemma_edge_at_symmetric(made, made.r.uc, made.u.rc);
}

proof fn lemma_made_edge_fr(
    ep: CubeEdgePositions,
    cp: CubeCornerPositions,
    eo: EdgeOrientationState,
    co: CornerOrientationState,
)
    ensures
        crate::edge_position_state::edge_at(
            made_cube(ep, cp, eo, co),
            made_cube(ep, cp, eo, co).f.rc,
            made_cube(ep, cp, eo, co).r.fc,
        ) == Some(ep.fr),
        lr_good_spec(
            made_cube(ep, cp, eo, co),
            made_cube(ep, cp, eo, co).r.fc,
            made_cube(ep, cp, eo, co).f.rc,
        ) == eo.fr,
{
    let made = made_cube(ep, cp, eo, co);
    lemma_centers_of_made_cube(ep, cp, eo, co);
    lemma_front_of_made_cube(ep, cp, eo, co);
    lemma_right_of_made_cube(ep, cp, eo, co);
    lemma_facelets_by_centers(made, with_corners(standard(), cp, co));
    lemma_side_edge_round_trip(made, ep.fr, eo.fr);
    crate::projection::lemma_edge_at_symmetric(made, made.r.fc, made.f.rc);
}

proof fn lemma_made_edge_dr(
    ep: CubeEdgePositions,
    cp: CubeCornerPositions,
    eo: EdgeOrientationState,
    co: CornerOrientationState,
)
    ensures
        crate::edge_position_state::edge_at(
            made_cube(ep, cp, eo, co),
            made_cube(ep, cp, eo, co).d.rc,
            made_cube(ep, cp, eo, co).r.dc,
        ) == Some(ep.dr),
        lr_good_spec(
            made_cube(ep, cp, eo, co),
            made_cube(ep, cp, eo, co).r.dc,
            made_cube(ep, cp, eo, co).d.rc,
        ) == eo.dr,
{
    let made = made_cube(ep, cp, eo, co);
    lemma_centers_of_made_cube(ep, cp, eo, co);
    lemma_lower_of_made_cube(ep, cp, eo, co);
    lemma_right_of_made_cube(ep, cp, eo, co);
    lemma_facelets_by_centers(made, with_corners(standard(), cp, co));
    lemma_side_edge_round_trip(made, ep.dr, eo.dr);
    crate::projection::lemma_edge_at_symmetric(made, made.r.dc, made.d.rc);
}

proof fn lemma_made_edge_br(
    ep: CubeEdgePositions,
    cp: CubeCornerPositions,
    eo: EdgeOrientationState,
    co: CornerOrientationState,
)
    ensures
        crate::edge_position_state::edge_at(
            made_cube(ep, cp, eo, co),
            made_cube(ep, cp, eo, co).b.rc,
            made_cube(ep, cp, eo, co).r.bc,
        ) == Some(ep.br),
        lr_good_spec(
            made_cube(ep, cp, eo, co),
            made_cube(ep, cp, eo, co).r.bc,
            made_cube(ep, cp, eo, co).b.rc,
        ) == eo.br,
{
    let made = made_cube(ep, cp, eo, co);
    lemma_centers_of_made_cube(ep, cp, eo, co);
    lemma_back_of_made_cube(ep, cp, eo, co);
    lemma_right_of_made_cube(ep, cp, eo, co);
    lemma_facelets_by_centers(made, with_corners(standard(), cp, co));
    lemma_side_edge_round_trip(made, ep.br, eo.br);
    crate::projection::lemma_edge_at_symmetric(made, made.r.bc, made.b.rc);
}

proof fn lemma_made_edge_uf(
    ep: CubeEdgePositions,
    cp: CubeCornerPositions,
    eo: EdgeOrientationState,
    co: CornerOrientationState,
)
    ensures
        crate::edge_position_state::edge_at(
            made_cube(ep, cp, eo, co),
            made_cube(ep, cp, eo, co).u.fc,
            made_cube(ep, cp, eo, co).f.uc,
        ) == Some(ep.uf),
        ud_mid_good_spec(
            made_cube(ep, cp, eo, co),
            made_cube(ep, cp, eo, co).u.fc,
            made_cube(ep, cp, eo, co).f.uc,
        ) == eo.uf,
{
    let made = made_cube(ep, cp, eo, co);
    lemma_centers_of_made_cube(ep, cp, eo, co);
    lemma_front_of_made_cube(ep, cp, eo, co);
    lemma_upper_of_made_cube(ep, cp, eo, co);
    lemma_facelets_by_centers(made, with_corners(standard(), cp, co));
    lemma_mid_edge_round_trip(made, ep.uf, eo.uf);
    crate::projection::lemma_edge_at_symmetric(made, made.u.fc, made.f.uc);
}

proof fn lemma_made_edge_ub(
    ep: CubeEdgePositions,
    cp: CubeCornerPositions,
    eo: EdgeOrientationState,
    co: CornerOrientationState,
)
    ensures
        crate::edge_position_state::edge_at(
            made_cube(ep, cp, eo, co),
            made_cube(ep, cp, eo, co).u.bc,
            made_cube(ep, cp, eo, co).b.uc,
        ) == Some(ep.ub),
        ud_mid_good_spec(
            made_cube(ep, cp, eo, co),
            made_cube(ep, cp, eo, co).u.bc,
            made_cube(ep, cp, eo, co).b.uc,
        ) == eo.ub,
{
    let made = made_cube(ep, cp, eo, co);
    lemma_centers_of_made_cube(ep, cp, eo, co);
    lemma_back_of_made_cube(ep, cp, eo, co);
    lemma_upper_of_made_cube(ep, cp, eo, co);
    lemma_facelets_by_centers(made, with_corners(standard(), cp, co));
    lemma_mid_edge_round_trip(made, ep.ub, eo.ub);
    crate::projection::lemma_edge_at_symmetric(made, made.u.bc, made.b.uc);
}

proof fn lemma_made_edge_db(
    ep: CubeEdgePositions,
    cp: CubeCornerPositions,
    eo: EdgeOrientationState,
    co: CornerOrientationState,
)
    ensures
        crate::edge_position_state::edge_at(
            made_cube(ep, cp, eo, co),
            made_cube(ep, cp, eo, co).d.bc,
            made_cube(ep, cp, eo, co).b.dc,
        ) == Some(ep.db),
        ud_mid_good_spec(
            made_cube(ep, cp, eo, co),
            made_cube(ep, cp, eo, co).d.bc,
            made_cube(ep, cp, eo, co).b.dc,
        ) == eo.db,
{
    let made = made_cube(ep, cp, eo, co);
    lemma_centers_of_made_cube(ep, cp, eo, co);
    lemma_back_of_made_cube(ep, cp, eo, co);
    lemma_lower_of_made_cube(ep, cp, eo, co);
    lemma_facelets_by_centers(made, with_corners(standard(), cp, co));
    lemma_mid_edge_round_trip(made, ep.db, eo.db);
    crate::projection::lemma_edge_at_symmetric(made, made.d.bc, made.b.dc);
}

proof fn lemma_made_edge_df(
    ep: CubeEdgePositions,
    cp: CubeCornerPositions,
    eo: EdgeOrientationState,
    co: CornerOrientationState,
)
    ensures
        crate::edge_position_state::edge_at(
            made_cube(ep, cp, eo, co),
            made_cube(ep, cp, eo, co).d.fc,
            made_cube(ep, cp, eo, co).f.dc,
        ) == Some(ep.df),
        ud_mid_good_spec(
            made_cube(ep, cp, eo, co),
            made_cube(ep, cp, eo, co).d.fc,
            made_cube(ep, cp, eo, co).f.dc,
        ) == eo.df,
{
    let made = made_cube(ep, cp, eo, co);
    lemma_centers_of_made_cube(ep, cp, eo, co);
    lemma_lower_of_made_cube(ep, cp, eo, co);
    lemma_front_of_made_cube(ep, cp, eo, co);
    lemma_facelets_by_centers(made, with_corners(standard(), cp, co));
    lemma_mid_edge_round_trip(made, ep.df, eo.df);
    crate::projection::lemma_edge_at_symmetric(made, made.d.fc, made.f.dc);
}

/// The corners from which `make_cube` builds a cube can be read from it.
proof fn lemma_made_cube_shows_corners(
    ep: CubeEdgePositions,
    cp: CubeCornerPositions,
    eo: EdgeOrientationState,
    co: CornerOrientationState,
)
    ensures
        CubeCornerPositions::readable(made_cube(ep, cp, eo, co)),
        CubeCornerPositions::from_cube_spec(made_cube(ep, cp, eo, co)) == cp,
        CornerOrientationState::from_cube_spec(made_cube(ep, cp, eo, co)) == co,
{
    lemma_made_corner_ful(ep, cp, eo, co);
    lemma_made_corner_fur(ep, cp, eo, co);
    lemma_made_corner_bur(ep, cp, eo, co);
    lemma_made_corner_bul(ep, cp, eo, co);
    lemma_made_corner_fdl(ep, cp, eo, co);
    lemma_made_corner_fdr(ep, cp, eo, co);
    lemma_made_corner_bdr(ep, cp, eo, co);
    lemma_made_corner_bdl(ep, cp, eo, co);
}

/// The edges from which `make_cube` builds a cube can be read from it.
proof fn lemma_made_cube_shows_edges(
    ep: CubeEdgePositions,
    cp: CubeCornerPositions,
    eo: EdgeOrientationState,
    co: CornerOrientationState,
)
    ensures
        CubeEdgePositions::readable(made_cube(ep, cp, eo, co)),
        CubeEdgePositions::from_cube_spec(made_cube(ep, cp, eo, co)) == ep,
        EdgeOrientationState::from_cube_spec(made_cube(ep, cp, eo, co)) == eo,
{
    lemma_made_edge_ul(ep, cp, eo, co);
    lemma_made_edge_bl(ep, cp, eo, co);
    lemma_made_edge_dl(ep, cp, eo, co);
    lemma_made_edge_fl(ep, cp, eo, co);
    lemma_made_edge_ur(ep, cp, eo, co);
    lemma_made_edge_fr(ep, cp, eo, co);
    lemma_made_edge_dr(ep, cp, eo, co);
    lemma_made_edge_br(ep, cp, eo, co);
    lemma_made_edge_uf(ep, cp, eo, co);
    lemma_made_edge_ub(ep, cp, eo, co);
    lemma_made_edge_db(ep, cp, eo, co);
    lemma_made_edge_df(ep, cp, eo, co);
}

/// The positions and orientations from which `make_cube` builds a cube can
/// be read from the cube again, whatever they are.
pub proof fn lemma_made_cube_shows(
    ep: CubeEdgePositions,
    cp: CubeCornerPositions,
    eo: EdgeOrientationState,
    co: CornerOrientationState,
)
    ensures
        shows(made_cube(ep, cp, eo, co), ep, cp, eo, co),
{
    lemma_made_cube_shows_corners(ep, cp, eo, co);
    lemma_made_cube_shows_edges(ep, cp, eo, co);
}

/// Makes the cube, with green in front and yellow on top, that has the
/// given positions and orientations: they can be read from it again.
pub fn make_cube(
    edge_pos: CubeEdgePositions,
    corner_pos: CubeCornerPositions,
    edge_or: EdgeOrientationState,
    corner_or: CornerOrientationState,
) -> (cube: Cube)
    ensures
        cube == made_cube(edge_pos, corner_pos, edge_or, corner_or),
        shows(cube, edge_pos, corner_pos, edge_or, corner_or),
{
    // i really don't see a way out of how much this function sucks to write out
    let mut cube = Cube::make_solved(Facelet::Green, Facelet::Yellow);

    set_corner_facelets(&mut cube, corner_pos, corner_or);
    set_edge_facelets(&mut cube, edge_pos, edge_or);

    proof {
        // the positions and orientations asked for are respected
        lemma_made_cube_shows(edge_pos, corner_pos, edge_or, corner_or);
    }
    cube
}

/// Exchanging the cubelets of two edge places flips the parity.
proof fn lemma_edge_swap_flips(before: CubeEdgePositions, after: CubeEdgePositions)
    requires
        before.is_permutation_spec(),
        after == (CubeEdgePositions { uf: before.ur, ur: before.uf, ..before }),
    ensures
        after.is_permutation_spec(),
        after.is_even_spec() == !before.is_even_spec(),
{
    let p = before.perm();
    assert(after.perm() =~= swapped(p, 4, 8));
    lemma_swap_flips_any(p, 4, 8);
    assert forall|i: int| 0 <= i < after.perm().len() implies 0 <= #[trigger] after.perm()[i]
        < after.perm().len() by {
        assert(0 <= p[i] < 12);
        assert(0 <= p[4] < 12);
        assert(0 <= p[8] < 12);
    }
}

/// What is left of the twists modulo 3 after so many rounds of twisting one
/// corner where the sum is not a multiple of 3.
pub open spec fn twists_left(at_first: int, rounds: int) -> int {
    if at_first == 0 || at_first + rounds >= 3 {
        0
    } else {
        at_first + rounds
    }
}

/// The edge positions put right: as they are if the edges and the corners
/// are permuted with the same parity, else with the cubelets of the upper
/// front and the upper right exchanged.
pub open spec fn edges_put_right(
    edges: CubeEdgePositions,
    corners: CubeCornerPositions,
) -> CubeEdgePositions {
    if edges.is_even_spec() == corners.is_even_spec() {
        edges
    } else {
        CubeEdgePositions { uf: edges.ur, ur: edges.uf, ..edges }
    }
}

/// The edge orientations put right: as they are if the number of bad edges
/// is even, else with the edge of the upper front flipped.
pub open spec fn edge_orientation_put_right(edge_or: EdgeOrientationState) -> EdgeOrientationState {
    if edge_or.is_solvable_spec() {
        edge_or
    } else {
        EdgeOrientationState { uf: !edge_or.uf, ..edge_or }
    }
}

/// How often one corner is twisted in so many rounds, where the twists sum
/// to `at_first` modulo 3 before the first.
pub open spec fn twists_added(at_first: int, rounds: int) -> int {
    if at_first == 0 {
        0
    } else if at_first + rounds >= 3 {
        3 - at_first
    } else {
        rounds
    }
}

/// The corner orientations put right: with the corner of the upper front
/// left twisted clockwise as often as makes the twists sum to a multiple of
/// 3.
pub open spec fn corner_orientation_put_right(
    corner_or: CornerOrientationState,
) -> CornerOrientationState {
    CornerOrientationState {
        ful: CornerOrientation::of_twist(
            corner_or.ful.twist() + twists_added(corner_or.twist_sum() % 3, 3),
        ),
        ..corner_or
    }
}

/// The cube that `scramble_from` makes of the orders and orientations that
/// chance gave.
pub open spec fn scrambled(
    edge_order: Seq<int>,
    corner_order: Seq<int>,
    edge_or: EdgeOrientationState,
    corner_or: CornerOrientationState,
) -> Cube {
    made_cube(
        edges_put_right(edge_positions_of(edge_order), corner_positions_of(corner_order)),
        corner_positions_of(corner_order),
        edge_orientation_put_right(edge_or),
        corner_orientation_put_right(corner_or),
    )
}

/// The cube is what `scramble_from` makes of some order of the edges, some
/// order of the corners and some orientations.
pub open spec fn is_scramble(cube: Cube) -> bool {
    exists|
        edge_order: Seq<int>,
        corner_order: Seq<int>,
        edge_or: EdgeOrientationState,
        corner_or: CornerOrientationState,
    |
        edge_order.len() == 12 && is_permutation(edge_order) && corner_order.len() == 8
            && is_permutation(corner_order) && cube == #[trigger] scrambled(
            edge_order,
            corner_order,
            edge_or,
            corner_or,
        )
}

fn put_edges_right(edges: CubeEdgePositions, corners: CubeCornerPositions) -> (out:
    CubeEdgePositions)
    requires
        edges.is_permutation_spec(),
        corners.is_permutation_spec(),
    ensures
        out == edges_put_right(edges, corners),
        out.is_permutation_spec(),
        out.is_even_spec() == corners.is_even_spec(),
{
    let total_pos = CubePositions { edges, corners };
    if total_pos.directly_solvable() {
        edges
    } else {
        let exchanged = CubeEdgePositions { uf: edges.ur, ur: edges.uf, ..edges };
        proof {
            lemma_edge_swap_flips(edges, exchanged);
        }
        exchanged
    }
}

fn put_edge_orientation_right(edge_or: EdgeOrientationState) -> (out: EdgeOrientationState)
    ensures
        out == edge_orientation_put_right(edge_or),
        out.is_solvable_spec(),
{
    if edge_or.is_solvable() {
        edge_or
    } else {
        let flipped = EdgeOrientationState { uf: !edge_or.uf, ..edge_or };
        proof {
            edge_or.lemma_solvable_is_xor();
            flipped.lemma_solvable_is_xor();
        }
        flipped
    }
}

/// The corner orientations after so many rounds of putting them right.
pub open spec fn after_rounds(corner_or: CornerOrientationState, rounds: int) -> CornerOrientationState {
    CornerOrientationState {
        ful: CornerOrientation::of_twist(
            corner_or.ful.twist() + twists_added(corner_or.twist_sum() % 3, rounds),
        ),
        ..corner_or
    }
}

/// The sum of the twists after so many rounds, modulo 3.
proof fn lemma_sum_after_rounds(corner_or: CornerOrientationState, rounds: int)
    requires
        0 <= rounds <= 3,
    ensures
        after_rounds(corner_or, rounds).twist_sum() % 3 == twists_left(
            corner_or.twist_sum() % 3,
            rounds,
        ),
{
    let added = twists_added(corner_or.twist_sum() % 3, rounds);
    let before = corner_or.ful.twist();
    let after = CornerOrientation::of_twist(before + added).twist();
    assert(after == (before + added) % 3);
    assert(after_rounds(corner_or, rounds).twist_sum() == corner_or.twist_sum() - before + after);
    lemma_sum_with_twists(corner_or.twist_sum(), before, added);
}

/// A sum of twists of which one is replaced by itself and some more, taken
/// modulo 3, is the sum and that many more, modulo 3.
proof fn lemma_sum_with_twists(sum: int, one: int, added: int)
    requires
        0 <= one < 3,
        0 <= added <= 3,
    ensures
        (sum - one + (one + added) % 3) % 3 == (sum + added) % 3,
{
}

/// One round: a sum that is a multiple of 3 is left as it is, else one
/// corner gets one more twist.
proof fn lemma_round(corner_or: CornerOrientationState, rounds: int)
    requires
        0 <= rounds < 3,
    ensures
        after_rounds(corner_or, rounds).is_solvable_spec() ==> after_rounds(corner_or, rounds + 1)
            == after_rounds(corner_or, rounds),
        !after_rounds(corner_or, rounds).is_solvable_spec() ==> after_rounds(
            corner_or,
            rounds + 1,
        ) == (CornerOrientationState {
            ful: CornerOrientation::of_twist(after_rounds(corner_or, rounds).ful.twist() + 1),
            ..after_rounds(corner_or, rounds)
        }),
{
    reveal(CornerOrientationState::is_solvable_spec);
    lemma_sum_after_rounds(corner_or, rounds);
    let at_first = corner_or.twist_sum() % 3;
    let added = twists_added(at_first, rounds);
    assert(CornerOrientation::of_twist(
        CornerOrientation::of_twist(corner_or.ful.twist() + added).twist() + 1,
    ) == CornerOrientation::of_twist(corner_or.ful.twist() + added + 1));
}

fn put_corner_orientation_right(corner_or: CornerOrientationState) -> (out:
    CornerOrientationState)
    ensures
        out == corner_orientation_put_right(corner_or),
        out.is_solvable_spec(),
{
    let mut corner_orientation = corner_or;
    let mut round: u8 = 0;
    assert(corner_or == after_rounds(corner_or, 0));
    while round < 3
        invariant
            round <= 3,
            corner_orientation == after_rounds(corner_or, round as int),
        decreases 3 - round,
    {
        proof {
            lemma_round(corner_or, round as int);
        }
        if !corner_orientation.is_solvable() {
            corner_orientation = CornerOrientationState {
                ful: corner_orientation.ful.add(CornerOrientation::CW),
                ..corner_orientation
            };
        }
        round += 1;
    }
    proof {
        reveal(CornerOrientationState::is_solvable_spec);
        lemma_sum_after_rounds(corner_or, 3);
    }
    corner_orientation
}

/// Puts right what chance gave: if the edges and the corners are permuted
/// with different parities, two edges change places; if the number of bad
/// edges is odd, one edge is flipped; if the twists of the corners do not
/// sum to a multiple of 3, one corner is twisted until they do. Then makes
/// the cube.
pub fn scramble_from(
    edge_order: &Vec<u8>,
    corner_order: &Vec<u8>,
    edge_or: EdgeOrientationState,
    corner_or: CornerOrientationState,
) -> (cube: Cube)
    requires
        edge_order.len() == 12,
        is_permutation(indices(edge_order@)),
        corner_order.len() == 8,
        is_permutation(indices(corner_order@)),
    ensures
        cube == scrambled(indices(edge_order@), indices(corner_order@), edge_or, corner_or),
        CubePositions::readable(cube),
        CubePositions::from_cube_spec(cube).is_permutation_spec(),
        CubePositions::from_cube_spec(cube).directly_solvable_spec(),
        EdgeOrientationState::from_cube_spec(cube).is_solvable_spec(),
        CornerOrientationState::from_cube_spec(cube).is_solvable_spec(),
{
    // starting with position ...
    let corner_pos = make_corner_pos(corner_order);
    let edge_pos = put_edges_right(make_edge_pos(edge_order), corner_pos);

    // then edge orientation ...
    let edge_orientation = put_edge_orientation_right(edge_or);

    // then corner orientation ...
    let corner_orientation = put_corner_orientation_right(corner_or);

    make_cube(edge_pos, corner_pos, edge_orientation, corner_orientation)
}

/// Gives a random solvable scramble of a cube with no restrictions, except the rotation is fixed
/// (green front and yellow top): each edge and each corner is put in at
/// random, with a random orientation, and what chance gave is put right so
/// that the cube can be solved.
pub fn scramble_any() -> (cube: Cube)
    ensures
        is_scramble(cube),
        CubePositions::readable(cube),
        CubePositions::from_cube_spec(cube).is_permutation_spec(),
        CubePositions::from_cube_spec(cube).directly_solvable_spec(),
        EdgeOrientationState::from_cube_spec(cube).is_solvable_spec(),
        CornerOrientationState::from_cube_spec(cube).is_solvable_spec(),
{
    let mut rng = thread_generator();

    let corners = random_order(&mut rng, 8);
    let edges = random_order(&mut rng, 12);

    let edge_orientation = EdgeOrientationState {
        uf: random_bool(&mut rng),
        ub: random_bool(&mut rng),
        ul: random_bool(&mut rng),
        ur: random_bool(&mut rng),
        fl: random_bool(&mut rng),
        fr: random_bool(&mut rng),
        bl: random_bool(&mut rng),
        br: random_bool(&mut rng),
        df: random_bool(&mut rng),
        db: random_bool(&mut rng),
        dl: random_bool(&mut rng),
        dr: random_bool(&mut rng),
    };

    let corner_orientation = CornerOrientationState {
        ful: rand_orientation(&mut rng),
        fur: rand_orientation(&mut rng),
        fdl: rand_orientation(&mut rng),
        fdr: rand_orientation(&mut rng),
        bul: rand_orientation(&mut rng),
        bur: rand_orientation(&mut rng),
        bdl: rand_orientation(&mut rng),
        bdr: rand_orientation(&mut rng),
    };

    let cube = scramble_from(&edges, &corners, edge_orientation, corner_orientation);
    assert(cube == scrambled(
        indices(edges@),
        indices(corners@),
        edge_orientation,
        corner_orientation,
    ));
    cube
}

/// One of the three orientations, each as likely as the others.
fn rand_orientation(rng: &mut rand::rngs::ThreadRng) -> CornerOrientation {
    let twists: u8 = random_below(rng, 3);
    CornerOrientation::with_twists(twists)
}

} // verus!
