//! The corner position state: which corner cubelet is in each corner place.

use crate::cube::{Cube, Facelet};
use crate::moves::{CanMove, Dir, turn};
use crate::permutation::{
    four_cycled, identity, indices, is_even, is_even_permutation, is_permutation,
    lemma_four_cycle_flips, lemma_identity_even,
};
use crate::state_key::{
    lemma_pow_values, lemma_with_digit_bound, lemma_with_digit_injective, pow, StateKey,
    with_digit,
};
use vstd::prelude::*;

verus! {

/// This indicates what the cubelet "is;" or equivalently, where it belongs.
/// 8 possible values, fits in a byte.
#[derive(Copy, Clone, PartialEq, Eq, Structural, Debug, Hash)]
pub enum CornerCubelet {
    FUL,
    FUR,
    BUL,
    BUR,
    FDL,
    FDR,
    BDL,
    BDR,
}

impl CornerCubelet {
    /// The index of the cubelet, which is also the index of its home place.
    pub open spec fn index(self) -> int {
        match self {
            CornerCubelet::FUL => 0,
            CornerCubelet::FUR => 1,
            CornerCubelet::BUL => 2,
            CornerCubelet::BUR => 3,
            CornerCubelet::FDL => 4,
            CornerCubelet::FDR => 5,
            CornerCubelet::BDL => 6,
            CornerCubelet::BDR => 7,
        }
    }

    /// The index of the cubelet, which is also the index of its home place.
    pub fn to_index(&self) -> (i: u8)
        ensures
            i == self.index(),
            i < 8,
    {
        match self {
            CornerCubelet::FUL => 0,
            CornerCubelet::FUR => 1,
            CornerCubelet::BUL => 2,
            CornerCubelet::BUR => 3,
            CornerCubelet::FDL => 4,
            CornerCubelet::FDR => 5,
            CornerCubelet::BDL => 6,
            CornerCubelet::BDR => 7,
        }
    }
}

#[derive(Copy, Clone, PartialEq, Eq, Structural, Debug, Hash)]
pub struct CubeCornerPositions {
    pub ful: CornerCubelet,
    pub fur: CornerCubelet,
    pub bul: CornerCubelet,
    pub bur: CornerCubelet,
    pub fdl: CornerCubelet,
    pub fdr: CornerCubelet,
    pub bdl: CornerCubelet,
    pub bdr: CornerCubelet,
}

/// Whether a corner shows the three colors `x`, `y` and `z`, in any order.
pub open spec fn is_corner_match(
    a: Facelet,
    b: Facelet,
    c: Facelet,
    x: Facelet,
    y: Facelet,
    z: Facelet,
) -> bool {
    ||| (a == x && b == y && c == z)
    ||| (a == x && b == z && c == y)
    ||| (a == y && b == x && c == z)
    ||| (a == y && b == z && c == x)
    ||| (a == z && b == x && c == y)
    ||| (a == z && b == y && c == x)
}

/// The corner cubelet that shows the colors `a`, `b` and `c`, named by the
/// three faces of `cube` whose centers have these colors.
#[verifier::opaque]
pub open spec fn corner_at(cube: Cube, a: Facelet, b: Facelet, c: Facelet) -> Option<
    CornerCubelet,
> {
    let l = cube.l.cc;
    let r = cube.r.cc;
    let u = cube.u.cc;
    let d = cube.d.cc;
    let f = cube.f.cc;
    let bk = cube.b.cc;
    if is_corner_match(a, b, c, f, u, r) {
        Some(CornerCubelet::FUR)
    } else if is_corner_match(a, b, c, f, u, l) {
        Some(CornerCubelet::FUL)
    } else if is_corner_match(a, b, c, f, d, r) {
        Some(CornerCubelet::FDR)
    } else if is_corner_match(a, b, c, f, d, l) {
        Some(CornerCubelet::FDL)
    } else if is_corner_match(a, b, c, bk, u, r) {
        Some(CornerCubelet::BUR)
    } else if is_corner_match(a, b, c, bk, u, l) {
        Some(CornerCubelet::BUL)
    } else if is_corner_match(a, b, c, bk, d, r) {
        Some(CornerCubelet::BDR)
    } else if is_corner_match(a, b, c, bk, d, l) {
        Some(CornerCubelet::BDL)
    } else {
        None
    }
}

/// `Itertools::permutations(3)` on an iterator over three colors, collected:
/// the six orders of the three, by the places they are taken from: 012, 021,
/// 102, 120, 201, 210.
#[verifier::external_body]
fn arrangements(x: Facelet, y: Facelet, z: Facelet) -> (out: Vec<Vec<Facelet>>)
    ensures
        out@.len() == 6,
        out@[0]@ == seq![x, y, z],
        out@[1]@ == seq![x, z, y],
        out@[2]@ == seq![y, x, z],
        out@[3]@ == seq![y, z, x],
        out@[4]@ == seq![z, x, y],
        out@[5]@ == seq![z, y, x],
{
    itertools::Itertools::permutations(vec![x, y, z].into_iter(), 3).collect()
}

fn is_match(
    a: Facelet,
    b: Facelet,
    c: Facelet,
    exp_a: Facelet,
    exp_b: Facelet,
    exp_c: Facelet,
) -> (r:
    bool)
    ensures
        r == is_corner_match(a, b, c, exp_a, exp_b, exp_c),
{
    let orders = arrangements(exp_a, exp_b, exp_c);
    let mut i: usize = 0;
    while i < orders.len()
        invariant
            i <= orders.len(),
            orders@.len() == 6,
            orders@[0]@ == seq![exp_a, exp_b, exp_c],
            orders@[1]@ == seq![exp_a, exp_c, exp_b],
            orders@[2]@ == seq![exp_b, exp_a, exp_c],
            orders@[3]@ == seq![exp_b, exp_c, exp_a],
            orders@[4]@ == seq![exp_c, exp_a, exp_b],
            orders@[5]@ == seq![exp_c, exp_b, exp_a],
            forall|j: int|
                0 <= j < i ==> !(orders@[j]@[0] == a && orders@[j]@[1] == b && orders@[j]@[2]
                    == c),
        decreases orders.len() - i,
    {
        let exp = &orders[i];
        assert(exp@.len() == 3);
        if exp[0] == a && exp[1] == b && exp[2] == c {
            return true;
        }
        i += 1;
    }
    false
}

fn find_pos(cube: &Cube, a_in: Facelet, b_in: Facelet, c_in: Facelet) -> (out: Option<
    CornerCubelet,
>)
    ensures
        out == corner_at(*cube, a_in, b_in, c_in),
{
    reveal(corner_at);
    let l = cube.l.cc;
    let r = cube.r.cc;
    let u = cube.u.cc;
    let d = cube.d.cc;
    let f = cube.f.cc;
    let b = cube.b.cc;
    if is_match(a_in, b_in, c_in, f, u, r) {
        Some(CornerCubelet::FUR)
    } else if is_match(a_in, b_in, c_in, f, u, l) {
        Some(CornerCubelet::FUL)
    } else if is_match(a_in, b_in, c_in, f, d, r) {
        Some(CornerCubelet::FDR)
    } else if is_match(a_in, b_in, c_in, f, d, l) {
        Some(CornerCubelet::FDL)
    } else if is_match(a_in, b_in, c_in, b, u, r) {
        Some(CornerCubelet::BUR)
    } else if is_match(a_in, b_in, c_in, b, u, l) {
        Some(CornerCubelet::BUL)
    } else if is_match(a_in, b_in, c_in, b, d, r) {
        Some(CornerCubelet::BDR)
    } else if is_match(a_in, b_in, c_in, b, d, l) {
        Some(CornerCubelet::BDL)
    } else {
        None
    }
}

impl CubeCornerPositions {
    /// The state in which every place holds its own cubelet.
    pub open spec fn solved_spec() -> Self {
        CubeCornerPositions {
            ful: CornerCubelet::FUL,
            fur: CornerCubelet::FUR,
            bul: CornerCubelet::BUL,
            bur: CornerCubelet::BUR,
            fdl: CornerCubelet::FDL,
            fdr: CornerCubelet::FDR,
            bdl: CornerCubelet::BDL,
            bdr: CornerCubelet::BDR,
        }
    }

    /// The state in which every place holds its own cubelet.
    pub fn make_solved() -> (out: Self)
        ensures
            out == Self::solved_spec(),
    {
        Self {
            ful: CornerCubelet::FUL,
            fur: CornerCubelet::FUR,
            bul: CornerCubelet::BUL,
            bur: CornerCubelet::BUR,
            fdl: CornerCubelet::FDL,
            fdr: CornerCubelet::FDR,
            bdl: CornerCubelet::BDL,
            bdr: CornerCubelet::BDR,
        }
    }

    /// The cubelet in the place that is home to the cubelet with index `index`.
    pub open spec fn ind_spec(self, index: int) -> CornerCubelet {
        if index == 0 {
            self.ful
        } else if index == 1 {
            self.fur
        } else if index == 2 {
            self.bul
        } else if index == 3 {
            self.bur
        } else if index == 4 {
            self.fdl
        } else if index == 5 {
            self.fdr
        } else if index == 6 {
            self.bdl
        } else {
            self.bdr
        }
    }

    /// The cubelet in the place that is home to the cubelet with index `index`.
    pub fn ind(&self, index: u8) -> (out: CornerCubelet)
        requires
            index < 8,
        ensures
            out == self.ind_spec(index as int),
    {
        match index {
            0 => self.ful,
            1 => self.fur,
            2 => self.bul,
            3 => self.bur,
            4 => self.fdl,
            5 => self.fdr,
            6 => self.bdl,
            _ => self.bdr,
        }
    }

    /// The state as a sequence of indices: at each place's index, the index
    /// of the cubelet that the place holds.
    pub open spec fn perm(self) -> Seq<int> {
        Seq::new(8, |i: int| self.ind_spec(i).index())
    }

    /// No cubelet is in two places.
    pub open spec fn is_permutation_spec(self) -> bool {
        is_permutation(self.perm())
    }

    /// The permutation is even.
    pub open spec fn is_even_spec(self) -> bool {
        is_even(self.perm())
    }

    /// Indicates if the corner position state is directly solvable: whether
    /// the permutation of the cubelets is even. For a state that holds a
    /// cubelet twice the answer says nothing.
    pub fn directly_solvable(&self) -> (b: bool)
        ensures
            self.is_permutation_spec() ==> b == self.is_even_spec(),
    {
        let mut v: Vec<u8> = Vec::new();
        let mut k: u8 = 0;
        while k < 8
            invariant
                k <= 8,
                v.len() == k,
                forall|j: int| 0 <= j < k ==> v[j] == self.ind_spec(j).index(),
            decreases 8 - k,
        {
            v.push(self.ind(k).to_index());
            k += 1;
        }
        assert(indices(v@) =~= self.perm());
        is_even_permutation(&v)
    }

    /// Every corner place of `cube` holds three colors of one of the eight
    /// corner cubelets.
    pub open spec fn readable(cube: Cube) -> bool {
        &&& corner_at(cube, cube.f.ur, cube.u.fr, cube.r.uf) is Some
        &&& corner_at(cube, cube.f.ul, cube.u.fl, cube.l.uf) is Some
        &&& corner_at(cube, cube.f.dr, cube.d.fr, cube.r.df) is Some
        &&& corner_at(cube, cube.f.dl, cube.d.fl, cube.l.df) is Some
        &&& corner_at(cube, cube.b.ur, cube.u.br, cube.r.ub) is Some
        &&& corner_at(cube, cube.b.ul, cube.u.bl, cube.l.ub) is Some
        &&& corner_at(cube, cube.b.dr, cube.d.br, cube.r.db) is Some
        &&& corner_at(cube, cube.b.dl, cube.d.bl, cube.l.db) is Some
    }

    /// The cubelet in each place of `cube`.
    pub open spec fn from_cube_spec(cube: Cube) -> Self {
        CubeCornerPositions {
            fur: corner_at(cube, cube.f.ur, cube.u.fr, cube.r.uf).unwrap(),
            ful: corner_at(cube, cube.f.ul, cube.u.fl, cube.l.uf).unwrap(),
            fdr: corner_at(cube, cube.f.dr, cube.d.fr, cube.r.df).unwrap(),
            fdl: corner_at(cube, cube.f.dl, cube.d.fl, cube.l.df).unwrap(),
            bur: corner_at(cube, cube.b.ur, cube.u.br, cube.r.ub).unwrap(),
            bul: corner_at(cube, cube.b.ul, cube.u.bl, cube.l.ub).unwrap(),
            bdr: corner_at(cube, cube.b.dr, cube.d.br, cube.r.db).unwrap(),
            bdl: corner_at(cube, cube.b.dl, cube.d.bl, cube.l.db).unwrap(),
        }
    }

    /// The cubelet in each place of `cube`, or `None` if some place holds
    /// colors that no corner cubelet has.
    pub fn try_from_cube(cube: &Cube) -> (out: Option<Self>)
        ensures
            out == (if Self::readable(*cube) {
                Some(Self::from_cube_spec(*cube))
            } else {
                None
            }),
    {
        let fur = find_pos(cube, cube.f.ur, cube.u.fr, cube.r.uf);
        let ful = find_pos(cube, cube.f.ul, cube.u.fl, cube.l.uf);
        let fdr = find_pos(cube, cube.f.dr, cube.d.fr, cube.r.df);
        let fdl = find_pos(cube, cube.f.dl, cube.d.fl, cube.l.df);
        let bur = find_pos(cube, cube.b.ur, cube.u.br, cube.r.ub);
        let bul = find_pos(cube, cube.b.ul, cube.u.bl, cube.l.ub);
        let bdr = find_pos(cube, cube.b.dr, cube.d.br, cube.r.db);
        let bdl = find_pos(cube, cube.b.dl, cube.d.bl, cube.l.db);
        match (fur, ful, fdr, fdl, bur, bul, bdr, bdl) {
            (
                Some(fur),
                Some(ful),
                Some(fdr),
                Some(fdl),
                Some(bur),
                Some(bul),
                Some(bdr),
                Some(bdl),
            ) => Some(Self { fur, ful, fdr, fdl, bur, bul, bdr, bdl }),
            _ => None,
        }
    }

    /// The cubelet in each corner place of `cube`.
    pub fn from_cube(cube: &Cube) -> (out: Self)
        requires
            Self::readable(*cube),
        ensures
            out == Self::from_cube_spec(*cube),
    {
        match Self::try_from_cube(cube) {
            Some(out) => out,
            None => vstd::pervasive::unreached(),
        }
    }

    /// The solved state is an even permutation.
    pub proof fn lemma_solved_even()
        ensures
            Self::solved_spec().is_permutation_spec(),
            Self::solved_spec().is_even_spec(),
    {
        assert(Self::solved_spec().perm() =~= identity(8));
        lemma_identity_even(8);
    }

    proof fn lemma_right_turn_flips(self)
        requires
            self.is_permutation_spec(),
        ensures
            self.r_spec().is_permutation_spec(),
            self.r_spec().is_even_spec() == !self.is_even_spec(),
    {
        let t = self.r_spec().perm();
        let c = four_cycled(self.perm(), 1, 5, 7, 3);
        assert(t[0] == c[0]);
        assert(t[1] == c[1]);
        assert(t[2] == c[2]);
        assert(t[3] == c[3]);
        assert(t[4] == c[4]);
        assert(t[5] == c[5]);
        assert(t[6] == c[6]);
        assert(t[7] == c[7]);
        assert(t =~= c);
        lemma_four_cycle_flips(self.perm(), 1, 5, 7, 3);
    }

    proof fn lemma_left_turn_flips(self)
        requires
            self.is_permutation_spec(),
        ensures
            self.l_spec().is_permutation_spec(),
            self.l_spec().is_even_spec() == !self.is_even_spec(),
    {
        let t = self.l_spec().perm();
        let c = four_cycled(self.perm(), 0, 2, 6, 4);
        assert(t[0] == c[0]);
        assert(t[1] == c[1]);
        assert(t[2] == c[2]);
        assert(t[3] == c[3]);
        assert(t[4] == c[4]);
        assert(t[5] == c[5]);
        assert(t[6] == c[6]);
        assert(t[7] == c[7]);
        assert(t =~= c);
        lemma_four_cycle_flips(self.perm(), 0, 2, 6, 4);
    }

    proof fn lemma_upper_turn_flips(self)
        requires
            self.is_permutation_spec(),
        ensures
            self.u_spec().is_permutation_spec(),
            self.u_spec().is_even_spec() == !self.is_even_spec(),
    {
        let t = self.u_spec().perm();
        let c = four_cycled(self.perm(), 1, 3, 2, 0);
        assert(t[0] == c[0]);
        assert(t[1] == c[1]);
        assert(t[2] == c[2]);
        assert(t[3] == c[3]);
        assert(t[4] == c[4]);
        assert(t[5] == c[5]);
        assert(t[6] == c[6]);
        assert(t[7] == c[7]);
        assert(t =~= c);
        lemma_four_cycle_flips(self.perm(), 1, 3, 2, 0);
    }

    proof fn lemma_lower_turn_flips(self)
        requires
            self.is_permutation_spec(),
        ensures
            self.d_spec().is_permutation_spec(),
            self.d_spec().is_even_spec() == !self.is_even_spec(),
    {
        let t = self.d_spec().perm();
        let c = four_cycled(self.perm(), 5, 4, 6, 7);
        assert(t[0] == c[0]);
        assert(t[1] == c[1]);
        assert(t[2] == c[2]);
        assert(t[3] == c[3]);
        assert(t[4] == c[4]);
        assert(t[5] == c[5]);
        assert(t[6] == c[6]);
        assert(t[7] == c[7]);
        assert(t =~= c);
        lemma_four_cycle_flips(self.perm(), 5, 4, 6, 7);
    }

    proof fn lemma_back_turn_flips(self)
        requires
            self.is_permutation_spec(),
        ensures
            self.b_spec().is_permutation_spec(),
            self.b_spec().is_even_spec() == !self.is_even_spec(),
    {
        let t = self.b_spec().perm();
        let c = four_cycled(self.perm(), 3, 7, 6, 2);
        assert(t[0] == c[0]);
        assert(t[1] == c[1]);
        assert(t[2] == c[2]);
        assert(t[3] == c[3]);
        assert(t[4] == c[4]);
        assert(t[5] == c[5]);
        assert(t[6] == c[6]);
        assert(t[7] == c[7]);
        assert(t =~= c);
        lemma_four_cycle_flips(self.perm(), 3, 7, 6, 2);
    }

    proof fn lemma_front_turn_flips(self)
        requires
            self.is_permutation_spec(),
        ensures
            self.f_spec().is_permutation_spec(),
            self.f_spec().is_even_spec() == !self.is_even_spec(),
    {
        let t = self.f_spec().perm();
        let c = four_cycled(self.perm(), 1, 0, 4, 5);
        assert(t[0] == c[0]);
        assert(t[1] == c[1]);
        assert(t[2] == c[2]);
        assert(t[3] == c[3]);
        assert(t[4] == c[4]);
        assert(t[5] == c[5]);
        assert(t[6] == c[6]);
        assert(t[7] == c[7]);
        assert(t =~= c);
        lemma_four_cycle_flips(self.perm(), 1, 0, 4, 5);
    }

    /// A quarter turn of any face takes a permutation to a permutation of
    /// the other parity.
    pub proof fn lemma_turn_flips_parity(self, dir: Dir)
        requires
            self.is_permutation_spec(),
        ensures
            turn(self, dir).is_permutation_spec(),
            turn(self, dir).is_even_spec() == !self.is_even_spec(),
    {
        match dir {
            Dir::R => self.lemma_right_turn_flips(),
            Dir::L => self.lemma_left_turn_flips(),
            Dir::U => self.lemma_upper_turn_flips(),
            Dir::D => self.lemma_lower_turn_flips(),
            Dir::B => self.lemma_back_turn_flips(),
            Dir::F => self.lemma_front_turn_flips(),
        }
    }

    /// The key is below 8 to the 8th.
    pub proof fn lemma_key_bound(self)
        ensures
            self.key_spec() < 16777216,
    {
        lemma_pow_values();
        self.lemma_key_prefix_bound(8);
    }
}

impl CanMove for CubeCornerPositions {
    /// The four corners of the right face go round.
    open spec fn r_spec(self) -> Self {
        CubeCornerPositions {
            fur: self.fdr,
            fdr: self.bdr,
            bdr: self.bur,
            bur: self.fur,
            ..self
        }
    }

    /// The four corners of the left face go round.
    open spec fn l_spec(self) -> Self {
        CubeCornerPositions {
            ful: self.bul,
            bul: self.bdl,
            bdl: self.fdl,
            fdl: self.ful,
            ..self
        }
    }

    /// The four corners of the upper face go round.
    open spec fn u_spec(self) -> Self {
        CubeCornerPositions {
            fur: self.bur,
            bur: self.bul,
            bul: self.ful,
            ful: self.fur,
            ..self
        }
    }

    /// The four corners of the lower face go round.
    open spec fn d_spec(self) -> Self {
        CubeCornerPositions {
            fdr: self.fdl,
            fdl: self.bdl,
            bdl: self.bdr,
            bdr: self.fdr,
            ..self
        }
    }

    /// The four corners of the back face go round.
    open spec fn b_spec(self) -> Self {
        CubeCornerPositions {
            bur: self.bdr,
            bdr: self.bdl,
            bdl: self.bul,
            bul: self.bur,
            ..self
        }
    }

    /// The four corners of the front face go round.
    open spec fn f_spec(self) -> Self {
        CubeCornerPositions {
            fur: self.ful,
            ful: self.fdl,
            fdl: self.fdr,
            fdr: self.fur,
            ..self
        }
    }

    fn r(self) -> (out: Self) {
        CubeCornerPositions {
            fur: self.fdr,
            fdr: self.bdr,
            bdr: self.bur,
            bur: self.fur,
            ..self
        }
    }

    fn l(self) -> (out: Self) {
        CubeCornerPositions {
            ful: self.bul,
            bul: self.bdl,
            bdl: self.fdl,
            fdl: self.ful,
            ..self
        }
    }

    fn u(self) -> (out: Self) {
        CubeCornerPositions {
            fur: self.bur,
            bur: self.bul,
            bul: self.ful,
            ful: self.fur,
            ..self
        }
    }

    fn d(self) -> (out: Self) {
        CubeCornerPositions {
            fdr: self.fdl,
            fdl: self.bdl,
            bdl: self.bdr,
            bdr: self.fdr,
            ..self
        }
    }

    fn b(self) -> (out: Self) {
        CubeCornerPositions {
            bur: self.bdr,
            bdr: self.bdl,
            bdl: self.bul,
            bul: self.bur,
            ..self
        }
    }

    fn f(self) -> (out: Self) {
        CubeCornerPositions {
            fur: self.ful,
            ful: self.fdl,
            fdl: self.fdr,
            fdr: self.fur,
            ..self
        }
    }

    proof fn lemma_four_turns(self) {
    }

    proof fn lemma_opposite_turns_commute(self) {
    }
}


impl CubeCornerPositions {
    /// The digit that field number `i` gives.
    #[verifier::opaque]
    pub open spec fn digit(self, i: int) -> int {
        if i == 0 {
            self.ful.index()
        } else if i == 1 {
            self.fur.index()
        } else if i == 2 {
            self.bul.index()
        } else if i == 3 {
            self.bur.index()
        } else if i == 4 {
            self.fdl.index()
        } else if i == 5 {
            self.fdr.index()
        } else if i == 6 {
            self.bdl.index()
        } else {
            self.bdr.index()
        }
    }

    fn digit_at(&self, i: usize) -> (d: u128)
        ensures
            d == self.digit(i as int),
            d < 8,
    {
        reveal(CubeCornerPositions::digit);
        match i {
            0 => (self.ful.to_index() as u128),
            1 => (self.fur.to_index() as u128),
            2 => (self.bul.to_index() as u128),
            3 => (self.bur.to_index() as u128),
            4 => (self.fdl.to_index() as u128),
            5 => (self.fdr.to_index() as u128),
            6 => (self.bdl.to_index() as u128),
            _ => (self.bdr.to_index() as u128),
        }
    }

    /// Every digit is below 8.
    pub proof fn lemma_digit_bound(self, i: int)
        ensures
            0 <= self.digit(i) < 8,
    {
        reveal(CubeCornerPositions::digit);
    }

    /// States with the same digits are the same state.
    pub proof fn lemma_digits_injective(self, other: Self)
        requires
            forall|i: int| 0 <= i < 8 ==> self.digit(i) == other.digit(i),
        ensures
            self == other,
    {
        reveal(CubeCornerPositions::digit);
        assert(self.digit(0) == other.digit(0));
        assert(self.digit(1) == other.digit(1));
        assert(self.digit(2) == other.digit(2));
        assert(self.digit(3) == other.digit(3));
        assert(self.digit(4) == other.digit(4));
        assert(self.digit(5) == other.digit(5));
        assert(self.digit(6) == other.digit(6));
        assert(self.digit(7) == other.digit(7));
    }

    /// The number that the digits of the first `n` fields make, the first
    /// field most significant.
    pub open spec fn key_prefix(self, n: int) -> int
        decreases n,
    {
        if n <= 0 {
            0
        } else {
            with_digit(self.key_prefix(n - 1), 8, self.digit(n - 1))
        }
    }

    /// The digits of `n` fields stay below 8 to the `n`th.
    pub proof fn lemma_key_prefix_bound(self, n: int)
        requires
            0 <= n <= 8,
        ensures
            0 <= self.key_prefix(n) < pow(n as nat, 8),
        decreases n,
    {
        reveal_with_fuel(pow, 2);
        if n > 0 {
            self.lemma_key_prefix_bound(n - 1);
            self.lemma_digit_bound(n - 1);
            lemma_with_digit_bound(
                self.key_prefix(n - 1),
                8,
                self.digit(n - 1),
                pow((n - 1) as nat, 8),
            );
        }
    }

    /// States with the same digits in the first `n` fields agree on them.
    pub proof fn lemma_key_prefix_injective(self, other: Self, n: int)
        requires
            0 <= n <= 8,
            self.key_prefix(n) == other.key_prefix(n),
        ensures
            forall|i: int| 0 <= i < n ==> self.digit(i) == other.digit(i),
        decreases n,
    {
        if n > 0 {
            self.lemma_digit_bound(n - 1);
            other.lemma_digit_bound(n - 1);
            lemma_with_digit_injective(
                self.key_prefix(n - 1),
                self.digit(n - 1),
                other.key_prefix(n - 1),
                other.digit(n - 1),
                8,
            );
            self.lemma_key_prefix_injective(other, n - 1);
        }
    }
}

impl StateKey for CubeCornerPositions {
    /// The eight cubelet indices as a number in base 8.
    open spec fn key_spec(self) -> u128 {
        self.key_prefix(8) as u128
    }

    fn key(&self) -> (k: u128) {
        let mut k: u128 = self.digit_at(0);
        assert(k == self.key_prefix(1) && k < 8) by {
            reveal_with_fuel(CubeCornerPositions::key_prefix, 2);
        }
        k = k * 8 + self.digit_at(1);
        assert(k == self.key_prefix(2) && k < 64);
        k = k * 8 + self.digit_at(2);
        assert(k == self.key_prefix(3) && k < 512);
        k = k * 8 + self.digit_at(3);
        assert(k == self.key_prefix(4) && k < 4096);
        k = k * 8 + self.digit_at(4);
        assert(k == self.key_prefix(5) && k < 32768);
        k = k * 8 + self.digit_at(5);
        assert(k == self.key_prefix(6) && k < 262144);
        k = k * 8 + self.digit_at(6);
        assert(k == self.key_prefix(7) && k < 2097152);
        k = k * 8 + self.digit_at(7);
        assert(k == self.key_prefix(8) && k < 16777216);
        k
    }

    proof fn lemma_key_injective(self, other: Self) {
        lemma_pow_values();
        self.lemma_key_prefix_bound(8);
        other.lemma_key_prefix_bound(8);
        self.lemma_key_prefix_injective(other, 8);
        self.lemma_digits_injective(other);
    }
}


} // verus!
