//! The edge position state: which edge cubelet is in each edge place.

use crate::cube::{Cube, Facelet};
use crate::moves::{CanMove, Dir, turn};
use crate::permutation::{
    four_cycled, identity, indices, is_even, is_even_permutation, is_permutation,
    lemma_four_cycle_flips, lemma_identity_even,
};
use crate::state_key::{
    lemma_pow_values, lemma_with_digit_bound, lemma_with_digit_injective, pow, StateKey,
    with_digit,
};
use vstd::prelude::*;

verus! {

/// This indicates what the cubelet "is;" or equivalently, where it belongs.
/// 12 possible values, fits in a byte.
#[derive(Copy, Clone, PartialEq, Eq, Structural, Debug, Hash)]
pub enum SideCubelet {
    UF,
    UR,
    UB,
    UL,
    FL,
    FR,
    BL,
    BR,
    DF,
    DR,
    DB,
    DL,
}

impl SideCubelet {
    /// The index of the cubelet, which is also the index of its home place.
    pub open spec fn index(self) -> int {
        match self {
            SideCubelet::UL => 0,
            SideCubelet::FL => 1,
            SideCubelet::DL => 2,
            SideCubelet::BL => 3,
            SideCubelet::UF => 4,
            SideCubelet::DF => 5,
            SideCubelet::DB => 6,
            SideCubelet::UB => 7,
            SideCubelet::UR => 8,
            SideCubelet::BR => 9,
            SideCubelet::DR => 10,
            SideCubelet::FR => 11,
        }
    }

    /// The index of the cubelet, which is also the index of its home place.
    pub fn to_index(&self) -> (i: u8)
        ensures
            i == self.index(),
            i < 12,
    {
        match self {
            SideCubelet::UL => 0,
            SideCubelet::FL => 1,
            SideCubelet::DL => 2,
            SideCubelet::BL => 3,
            SideCubelet::UF => 4,
            SideCubelet::DF => 5,
            SideCubelet::DB => 6,
            SideCubelet::UB => 7,
            SideCubelet::UR => 8,
            SideCubelet::BR => 9,
            SideCubelet::DR => 10,
            SideCubelet::FR => 11,
        }
    }
}

#[derive(Copy, Clone, PartialEq, Eq, Structural, Debug, Hash)]
pub struct CubeEdgePositions {
    pub uf: SideCubelet,
    pub ur: SideCubelet,
    pub ub: SideCubelet,
    pub ul: SideCubelet,
    pub fl: SideCubelet,
    pub fr: SideCubelet,
    pub bl: SideCubelet,
    pub br: SideCubelet,
    pub df: SideCubelet,
    pub dr: SideCubelet,
    pub db: SideCubelet,
    pub dl: SideCubelet,
}

/// Whether an edge shows the two colors `exp_a` and `exp_b`, either way
/// round.
pub open spec fn is_edge_match(a: Facelet, b: Facelet, exp_a: Facelet, exp_b: Facelet) -> bool {
    (a == exp_a && b == exp_b) || (a == exp_b && b == exp_a)
}

/// The edge cubelet that shows the colors `a` and `b`, named by the two
/// faces of `cube` whose centers have these colors.
#[verifier::opaque]
pub open spec fn edge_at(cube: Cube, a: Facelet, b: Facelet) -> Option<SideCubelet> {
    let l = cube.l.cc;
    let r = cube.r.cc;
    let u = cube.u.cc;
    let d = cube.d.cc;
    let f = cube.f.cc;
    let bk = cube.b.cc;
    if is_edge_match(a, b, u, f) {
        Some(SideCubelet::UF)
    } else if is_edge_match(a, b, u, r) {
        Some(SideCubelet::UR)
    } else if is_edge_match(a, b, u, l) {
        Some(SideCubelet::UL)
    } else if is_edge_match(a, b, u, bk) {
        Some(SideCubelet::UB)
    } else if is_edge_match(a, b, f, l) {
        Some(SideCubelet::FL)
    } else if is_edge_match(a, b, f, r) {
        Some(SideCubelet::FR)
    } else if is_edge_match(a, b, bk, l) {
        Some(SideCubelet::BL)
    } else if is_edge_match(a, b, bk, r) {
        Some(SideCubelet::BR)
    } else if is_edge_match(a, b, d, f) {
        Some(SideCubelet::DF)
    } else if is_edge_match(a, b, d, r) {
        Some(SideCubelet::DR)
    } else if is_edge_match(a, b, d, l) {
        Some(SideCubelet::DL)
    } else if is_edge_match(a, b, d, bk) {
        Some(SideCubelet::DB)
    } else {
        None
    }
}

fn is_match(a: Facelet, b: Facelet, exp_a: Facelet, exp_b: Facelet) -> (r: bool)
    ensures
        r == is_edge_match(a, b, exp_a, exp_b),
{
    (a == exp_a && b == exp_b) || (a == exp_b && b == exp_a)
}

fn find_pos(cube: &Cube, a_in: Facelet, b_in: Facelet) -> (out: Option<SideCubelet>)
    ensures
        out == edge_at(*cube, a_in, b_in),
{
    reveal(edge_at);
    let l = cube.l.cc;
    let r = cube.r.cc;
    let u = cube.u.cc;
    let d = cube.d.cc;
    let f = cube.f.cc;
    let b = cube.b.cc;
    if is_match(a_in, b_in, u, f) {
        Some(SideCubelet::UF)
    } else if is_match(a_in, b_in, u, r) {
        Some(SideCubelet::UR)
    } else if is_match(a_in, b_in, u, l) {
        Some(SideCubelet::UL)
    } else if is_match(a_in, b_in, u, b) {
        Some(SideCubelet::UB)
    } else if is_match(a_in, b_in, f, l) {
        Some(SideCubelet::FL)
    } else if is_match(a_in, b_in, f, r) {
        Some(SideCubelet::FR)
    } else if is_match(a_in, b_in, b, l) {
        Some(SideCubelet::BL)
    } else if is_match(a_in, b_in, b, r) {
        Some(SideCubelet::BR)
    } else if is_match(a_in, b_in, d, f) {
        Some(SideCubelet::DF)
    } else if is_match(a_in, b_in, d, r) {
        Some(SideCubelet::DR)
    } else if is_match(a_in, b_in, d, l) {
        Some(SideCubelet::DL)
    } else if is_match(a_in, b_in, d, b) {
        Some(SideCubelet::DB)
    } else {
        None
    }
}

impl CubeEdgePositions {
    /// The state in which every place holds its own cubelet.
    pub open spec fn solved_spec() -> Self {
        CubeEdgePositions {
            uf: SideCubelet::UF,
            ur: SideCubelet::UR,
            ub: SideCubelet::UB,
            ul: SideCubelet::UL,
            fl: SideCubelet::FL,
            fr: SideCubelet::FR,
            bl: SideCubelet::BL,
            br: SideCubelet::BR,
            df: SideCubelet::DF,
            dr: SideCubelet::DR,
            db: SideCubelet::DB,
            dl: SideCubelet::DL,
        }
    }

    /// The state in which every place holds its own cubelet.
    pub fn make_solved() -> (out: Self)
        ensures
            out == Self::solved_spec(),
    {
        Self {
            uf: SideCubelet::UF,
            ur: SideCubelet::UR,
            ub: SideCubelet::UB,
            ul: SideCubelet::UL,
            fl: SideCubelet::FL,
            fr: SideCubelet::FR,
            bl: SideCubelet::BL,
            br: SideCubelet::BR,
            df: SideCubelet::DF,
            dr: SideCubelet::DR,
            db: SideCubelet::DB,
            dl: SideCubelet::DL,
        }
    }

    /// The cubelet in the place that is home to the cubelet with index `index`.
    pub open spec fn ind_spec(self, index: int) -> SideCubelet {
        if index == 0 {
            self.ul
        } else if index == 1 {
            self.fl
        } else if index == 2 {
            self.dl
        } else if index == 3 {
            self.bl
        } else if index == 4 {
            self.uf
        } else if index == 5 {
            self.df
        } else if index == 6 {
            self.db
        } else if index == 7 {
            self.ub
        } else if index == 8 {
            self.ur
        } else if index == 9 {
            self.br
        } else if index == 10 {
            self.dr
        } else {
            self.fr
        }
    }

    /// The cubelet in the place that is home to the cubelet with index `index`.
    pub fn ind(&self, index: u8) -> (out: SideCubelet)
        requires
            index < 12,
        ensures
            out == self.ind_spec(index as int),
    {
        match index {
            0 => self.ul,
            1 => self.fl,
            2 => self.dl,
            3 => self.bl,
            4 => self.uf,
            5 => self.df,
            6 => self.db,
            7 => self.ub,
            8 => self.ur,
            9 => self.br,
            10 => self.dr,
            _ => self.fr,
        }
    }

    /// The state as a sequence of indices: at each place's index, the index
    /// of the cubelet that the place holds.
    pub open spec fn perm(self) -> Seq<int> {
        Seq::new(12, |i: int| self.ind_spec(i).index())
    }

    /// No cubelet is in two places.
    pub open spec fn is_permutation_spec(self) -> bool {
        is_permutation(self.perm())
    }

    /// The permutation is even.
    pub open spec fn is_even_spec(self) -> bool {
        is_even(self.perm())
    }

    /// Indicates if the edge position state is directly solvable: whether
    /// the permutation of the cubelets is even. For a state that holds a
    /// cubelet twice the answer says nothing.
    pub fn directly_solvable(&self) -> (b: bool)
        ensures
            self.is_permutation_spec() ==> b == self.is_even_spec(),
    {
        let mut v: Vec<u8> = Vec::new();
        let mut k: u8 = 0;
        while k < 12
            invariant
                k <= 12,
                v.len() == k,
                forall|j: int| 0 <= j < k ==> v[j] == self.ind_spec(j).index(),
            decreases 12 - k,
        {
            v.push(self.ind(k).to_index());
            k += 1;
        }
        assert(indices(v@) =~= self.perm());
        is_even_permutation(&v)
    }

    /// Every edge place of `cube` holds two colors of one of the twelve
    /// edge cubelets.
    pub open spec fn readable(cube: Cube) -> bool {
        &&& edge_at(cube, cube.u.fc, cube.f.uc) is Some
        &&& edge_at(cube, cube.u.rc, cube.r.uc) is Some
        &&& edge_at(cube, cube.u.bc, cube.b.uc) is Some
        &&& edge_at(cube, cube.u.lc, cube.l.uc) is Some
        &&& edge_at(cube, cube.f.lc, cube.l.fc) is Some
        &&& edge_at(cube, cube.f.rc, cube.r.fc) is Some
        &&& edge_at(cube, cube.b.lc, cube.l.bc) is Some
        &&& edge_at(cube, cube.b.rc, cube.r.bc) is Some
        &&& edge_at(cube, cube.d.fc, cube.f.dc) is Some
        &&& edge_at(cube, cube.d.rc, cube.r.dc) is Some
        &&& edge_at(cube, cube.d.bc, cube.b.dc) is Some
        &&& edge_at(cube, cube.d.lc, cube.l.dc) is Some
    }

    /// The cubelet in each place of `cube`.
    pub open spec fn from_cube_spec(cube: Cube) -> Self {
        CubeEdgePositions {
            uf: edge_at(cube, cube.u.fc, cube.f.uc).unwrap(),
            ur: edge_at(cube, cube.u.rc, cube.r.uc).unwrap(),
            ub: edge_at(cube, cube.u.bc, cube.b.uc).unwrap(),
            ul: edge_at(cube, cube.u.lc, cube.l.uc).unwrap(),
            fl: edge_at(cube, cube.f.lc, cube.l.fc).unwrap(),
            fr: edge_at(cube, cube.f.rc, cube.r.fc).unwrap(),
            bl: edge_at(cube, cube.b.lc, cube.l.bc).unwrap(),
            br: edge_at(cube, cube.b.rc, cube.r.bc).unwrap(),
            df: edge_at(cube, cube.d.fc, cube.f.dc).unwrap(),
            dr: edge_at(cube, cube.d.rc, cube.r.dc).unwrap(),
            db: edge_at(cube, cube.d.bc, cube.b.dc).unwrap(),
            dl: edge_at(cube, cube.d.lc, cube.l.dc).unwrap(),
        }
    }

    /// The cubelet in each place of `cube`, or `None` if some place holds
    /// colors that no edge cubelet has.
    pub fn try_from_cube(cube: &Cube) -> (out: Option<Self>)
        ensures
            out == (if Self::readable(*cube) {
                Some(Self::from_cube_spec(*cube))
            } else {
                None
            }),
    {
        let uf = find_pos(cube, cube.u.fc, cube.f.uc);
        let ur = find_pos(cube, cube.u.rc, cube.r.uc);
        let ub = find_pos(cube, cube.u.bc, cube.b.uc);
        let ul = find_pos(cube, cube.u.lc, cube.l.uc);
        let fl = find_pos(cube, cube.f.lc, cube.l.fc);
        let fr = find_pos(cube, cube.f.rc, cube.r.fc);
        let bl = find_pos(cube, cube.b.lc, cube.l.bc);
        let br = find_pos(cube, cube.b.rc, cube.r.bc);
        let df = find_pos(cube, cube.d.fc, cube.f.dc);
        let dr = find_pos(cube, cube.d.rc, cube.r.dc);
        let db = find_pos(cube, cube.d.bc, cube.b.dc);
        let dl = find_pos(cube, cube.d.lc, cube.l.dc);
        match (uf, ur, ub, ul, fl, fr, bl, br, df, dr, db, dl) {
            (
                Some(uf),
                Some(ur),
                Some(ub),
                Some(ul),
                Some(fl),
                Some(fr),
                Some(bl),
                Some(br),
                Some(df),
                Some(dr),
                Some(db),
                Some(dl),
            ) => Some(Self { uf, ur, ub, ul, fl, fr, bl, br, df, dr, db, dl }),
            _ => None,
        }
    }

    /// The cubelet in each edge place of `cube`.
    pub fn from_cube(cube: &Cube) -> (out: Self)
        requires
            Self::readable(*cube),
        ensures
            out == Self::from_cube_spec(*cube),
    {
        match Self::try_from_cube(cube) {
            Some(out) => out,
            None => vstd::pervasive::unreached(),
        }
    }

    /// The solved state is an even permutation.
    pub proof fn lemma_solved_even()
        ensures
            Self::solved_spec().is_permutation_spec(),
            Self::solved_spec().is_even_spec(),
    {
        assert(Self::solved_spec().perm() =~= identity(12));
        lemma_identity_even(12);
    }

    proof fn lemma_right_turn_flips(self)
        requires
            self.is_permutation_spec(),
        ensures
            self.r_spec().is_permutation_spec(),
            self.r_spec().is_even_spec() == !self.is_even_spec(),
    {
        let t = self.r_spec().perm();
        let c = four_cycled(self.perm(), 8, 11, 10, 9);
        assert(t[0] == c[0]);
        assert(t[1] == c[1]);
        assert(t[2] == c[2]);
        assert(t[3] == c[3]);
        assert(t[4] == c[4]);
        assert(t[5] == c[5]);
        assert(t[6] == c[6]);
        assert(t[7] == c[7]);
        assert(t[8] == c[8]);
        assert(t[9] == c[9]);
        assert(t[10] == c[10]);
        assert(t[11] == c[11]);
        assert(t =~= c);
        lemma_four_cycle_flips(self.perm(), 8, 11, 10, 9);
    }

    proof fn lemma_left_turn_flips(self)
        requires
            self.is_permutation_spec(),
        ensures
            self.l_spec().is_permutation_spec(),
            self.l_spec().is_even_spec() == !self.is_even_spec(),
    {
        let t = self.l_spec().perm();
        let c = four_cycled(self.perm(), 0, 3, 2, 1);
        assert(t[0] == c[0]);
        assert(t[1] == c[1]);
        assert(t[2] == c[2]);
        assert(t[3] == c[3]);
        assert(t[4] == c[4]);
        assert(t[5] == c[5]);
        assert(t[6] == c[6]);
        assert(t[7] == c[7]);
        assert(t[8] == c[8]);
        assert(t[9] == c[9]);
        assert(t[10] == c[10]);
        assert(t[11] == c[11]);
        assert(t =~= c);
        lemma_four_cycle_flips(self.perm(), 0, 3, 2, 1);
    }

    proof fn lemma_upper_turn_flips(self)
        requires
            self.is_permutation_spec(),
        ensures
            self.u_spec().is_permutation_spec(),
            self.u_spec().is_even_spec() == !self.is_even_spec(),
    {
        let t = self.u_spec().perm();
        let c = four_cycled(self.perm(), 4, 8, 7, 0);
        assert(t[0] == c[0]);
        assert(t[1] == c[1]);
        assert(t[2] == c[2]);
        assert(t[3] == c[3]);
        assert(t[4] == c[4]);
        assert(t[5] == c[5]);
        assert(t[6] == c[6]);
        assert(t[7] == c[7]);
        assert(t[8] == c[8]);
        assert(t[9] == c[9]);
        assert(t[10] == c[10]);
        assert(t[11] == c[11]);
        assert(t =~= c);
        lemma_four_cycle_flips(self.perm(), 4, 8, 7, 0);
    }

    proof fn lemma_lower_turn_flips(self)
        requires
            self.is_permutation_spec(),
        ensures
            self.d_spec().is_permutation_spec(),
            self.d_spec().is_even_spec() == !self.is_even_spec(),
    {
        let t = self.d_spec().perm();
        let c = four_cycled(self.perm(), 5, 2, 6, 10);
        assert(t[0] == c[0]);
        assert(t[1] == c[1]);
        assert(t[2] == c[2]);
        assert(t[3] == c[3]);
        assert(t[4] == c[4]);
        assert(t[5] == c[5]);
        assert(t[6] == c[6]);
        assert(t[7] == c[7]);
        assert(t[8] == c[8]);
        assert(t[9] == c[9]);
        assert(t[10] == c[10]);
        assert(t[11] == c[11]);
        assert(t =~= c);
        lemma_four_cycle_flips(self.perm(), 5, 2, 6, 10);
    }

    proof fn lemma_back_turn_flips(self)
        requires
            self.is_permutation_spec(),
        ensures
            self.b_spec().is_permutation_spec(),
            self.b_spec().is_even_spec() == !self.is_even_spec(),
    {
        let t = self.b_spec().perm();
        let c = four_cycled(self.perm(), 7, 9, 6, 3);
        assert(t[0] == c[0]);
        assert(t[1] == c[1]);
        assert(t[2] == c[2]);
        assert(t[3] == c[3]);
        assert(t[4] == c[4]);
        assert(t[5] == c[5]);
        assert(t[6] == c[6]);
        assert(t[7] == c[7]);
        assert(t[8] == c[8]);
        assert(t[9] == c[9]);
        assert(t[10] == c[10]);
        assert(t[11] == c[11]);
        assert(t =~= c);
        lemma_four_cycle_flips(self.perm(), 7, 9, 6, 3);
    }

    proof fn lemma_front_turn_flips(self)
        requires
            self.is_permutation_spec(),
        ensures
            self.f_spec().is_permutation_spec(),
            self.f_spec().is_even_spec() == !self.is_even_spec(),
    {
        let t = self.f_spec().perm();
        let c = four_cycled(self.perm(), 4, 1, 5, 11);
        assert(t[0] == c[0]);
        assert(t[1] == c[1]);
        assert(t[2] == c[2]);
        assert(t[3] == c[3]);
        assert(t[4] == c[4]);
        assert(t[5] == c[5]);
        assert(t[6] == c[6]);
        assert(t[7] == c[7]);
        assert(t[8] == c[8]);
        assert(t[9] == c[9]);
        assert(t[10] == c[10]);
        assert(t[11] == c[11]);
        assert(t =~= c);
        lemma_four_cycle_flips(self.perm(), 4, 1, 5, 11);
    }

    /// A quarter turn of any face takes a permutation to a permutation of
    /// the other parity.
    pub proof fn lemma_turn_flips_parity(self, dir: Dir)
        requires
            self.is_permutation_spec(),
        ensures
            turn(self, dir).is_permutation_spec(),
            turn(self, dir).is_even_spec() == !self.is_even_spec(),
    {
        match dir {
            Dir::R => self.lemma_right_turn_flips(),
            Dir::L => self.lemma_left_turn_flips(),
            Dir::U => self.lemma_upper_turn_flips(),
            Dir::D => self.lemma_lower_turn_flips(),
            Dir::B => self.lemma_back_turn_flips(),
            Dir::F => self.lemma_front_turn_flips(),
        }
    }

    /// The key is below 12 to the 12th.
    pub proof fn lemma_key_bound(self)
        ensures
            self.key_spec() < 8916100448256,
    {
        lemma_pow_values();
        self.lemma_key_prefix_bound(12);
    }
}

impl CanMove for CubeEdgePositions {
    /// The four edges of the right face go round.
    open spec fn r_spec(self) -> Self {
        CubeEdgePositions {
            ur: self.fr,
            fr: self.dr,
            dr: self.br,
            br: self.ur,
            ..self
        }
    }

    /// The four edges of the left face go round.
    open spec fn l_spec(self) -> Self {
        CubeEdgePositions {
            ul: self.bl,
            bl: self.dl,
            dl: self.fl,
            fl: self.ul,
            ..self
        }
    }

    /// The four edges of the upper face go round.
    open spec fn u_spec(self) -> Self {
        CubeEdgePositions {
            uf: self.ur,
            ur: self.ub,
            ub: self.ul,
            ul: self.uf,
            ..self
        }
    }

    /// The four edges of the lower face go round.
    open spec fn d_spec(self) -> Self {
        CubeEdgePositions {
            df: self.dl,
            dl: self.db,
            db: self.dr,
            dr: self.df,
            ..self
        }
    }

    /// The four edges of the back face go round.
    open spec fn b_spec(self) -> Self {
        CubeEdgePositions {
            ub: self.br,
            br: self.db,
            db: self.bl,
            bl: self.ub,
            ..self
        }
    }

    /// The four edges of the front face go round.
    open spec fn f_spec(self) -> Self {
        CubeEdgePositions {
            uf: self.fl,
            fl: self.df,
            df: self.fr,
            fr: self.uf,
            ..self
        }
    }

    fn r(self) -> (out: Self) {
        CubeEdgePositions {
            ur: self.fr,
            fr: self.dr,
            dr: self.br,
            br: self.ur,
            ..self
        }
    }

    fn l(self) -> (out: Self) {
        CubeEdgePositions {
            ul: self.bl,
            bl: self.dl,
            dl: self.fl,
            fl: self.ul,
            ..self
        }
    }

    fn u(self) -> (out: Self) {
        CubeEdgePositions {
            uf: self.ur,
            ur: self.ub,
            ub: self.ul,
            ul: self.uf,
            ..self
        }
    }

    fn d(self) -> (out: Self) {
        CubeEdgePositions {
            df: self.dl,
            dl: self.db,
            db: self.dr,
            dr: self.df,
            ..self
        }
    }

    fn b(self) -> (out: Self) {
        CubeEdgePositions {
            ub: self.br,
            br: self.db,
            db: self.bl,
            bl: self.ub,
            ..self
        }
    }

    fn f(self) -> (out: Self) {
        CubeEdgePositions {
            uf: self.fl,
            fl: self.df,
            df: self.fr,
            fr: self.uf,
            ..self
        }
    }

    proof fn lemma_four_turns(self) {
    }

    proof fn lemma_opposite_turns_commute(self) {
    }
}


impl CubeEdgePositions {
    /// The digit that field number `i` gives.
    #[verifier::opaque]
    pub open spec fn digit(self, i: int) -> int {
        if i == 0 {
            self.uf.index()
        } else if i == 1 {
            self.ur.index()
        } else if i == 2 {
            self.ub.index()
        } else if i == 3 {
            self.ul.index()
        } else if i == 4 {
            self.fl.index()
        } else if i == 5 {
            self.fr.index()
        } else if i == 6 {
            self.bl.index()
        } else if i == 7 {
            self.br.index()
        } else if i == 8 {
            self.df.index()
        } else if i == 9 {
            self.dr.index()
        } else if i == 10 {
            self.db.index()
        } else {
            self.dl.index()
        }
    }

    fn digit_at(&self, i: usize) -> (d: u128)
        ensures
            d == self.digit(i as int),
            d < 12,
    {
        reveal(CubeEdgePositions::digit);
        match i {
            0 => (self.uf.to_index() as u128),
            1 => (self.ur.to_index() as u128),
            2 => (self.ub.to_index() as u128),
            3 => (self.ul.to_index() as u128),
            4 => (self.fl.to_index() as u128),
            5 => (self.fr.to_index() as u128),
            6 => (self.bl.to_index() as u128),
            7 => (self.br.to_index() as u128),
            8 => (self.df.to_index() as u128),
            9 => (self.dr.to_index() as u128),
            10 => (self.db.to_index() as u128),
            _ => (self.dl.to_index() as u128),
        }
    }

    /// Every digit is below 12.
    pub proof fn lemma_digit_bound(self, i: int)
        ensures
            0 <= self.digit(i) < 12,
    {
        reveal(CubeEdgePositions::digit);
    }

    /// States with the same digits are the same state.
    pub proof fn lemma_digits_injective(self, other: Self)
        requires
            forall|i: int| 0 <= i < 12 ==> self.digit(i) == other.digit(i),
        ensures
            self == other,
    {
        reveal(CubeEdgePositions::digit);
        assert(self.digit(0) == other.digit(0));
        assert(self.digit(1) == other.digit(1));
        assert(self.digit(2) == other.digit(2));
        assert(self.digit(3) == other.digit(3));
        assert(self.digit(4) == other.digit(4));
        assert(self.digit(5) == other.digit(5));
        assert(self.digit(6) == other.digit(6));
        assert(self.digit(7) == other.digit(7));
        assert(self.digit(8) == other.digit(8));
        assert(self.digit(9) == other.digit(9));
        assert(self.digit(10) == other.digit(10));
        assert(self.digit(11) == other.digit(11));
    }

    /// The number that the digits of the first `n` fields make, the first
    /// field most significant.
    pub open spec fn key_prefix(self, n: int) -> int
        decreases n,
    {
        if n <= 0 {
            0
        } else {
            with_digit(self.key_prefix(n - 1), 12, self.digit(n - 1))
        }
    }

    /// The digits of `n` fields stay below 12 to the `n`th.
    pub proof fn lemma_key_prefix_bound(self, n: int)
        requires
            0 <= n <= 12,
        ensures
            0 <= self.key_prefix(n) < pow(n as nat, 12),
        decreases n,
    {
        reveal_with_fuel(pow, 2);
        if n > 0 {
            self.lemma_key_prefix_bound(n - 1);
            self.lemma_digit_bound(n - 1);
            lemma_with_digit_bound(
                self.key_prefix(n - 1),
                12,
                self.digit(n - 1),
                pow((n - 1) as nat, 12),
            );
        }
    }

    /// States with the same digits in the first `n` fields agree on them.
    pub proof fn lemma_key_prefix_injective(self, other: Self, n: int)
        requires
            0 <= n <= 12,
            self.key_prefix(n) == other.key_prefix(n),
        ensures
            forall|i: int| 0 <= i < n ==> self.digit(i) == other.digit(i),
        decreases n,
    {
        if n > 0 {
            self.lemma_digit_bound(n - 1);
            other.lemma_digit_bound(n - 1);
            lemma_with_digit_injective(
                self.key_prefix(n - 1),
                self.digit(n - 1),
                other.key_prefix(n - 1),
                other.digit(n - 1),
                12,
            );
            self.lemma_key_prefix_injective(other, n - 1);
        }
    }
}

impl StateKey for CubeEdgePositions {
    /// The twelve cubelet indices as a number in base 12.
    open spec fn key_spec(self) -> u128 {
        self.key_prefix(12) as u128
    }

    fn key(&self) -> (k: u128) {
        let mut k: u128 = self.digit_at(0);
        assert(k == self.key_prefix(1) && k < 12) by {
            reveal_with_fuel(CubeEdgePositions::key_prefix, 2);
        }
        k = k * 12 + self.digit_at(1);
        assert(k == self.key_prefix(2) && k < 144);
        k = k * 12 + self.digit_at(2);
        assert(k == self.key_prefix(3) && k < 1728);
        k = k * 12 + self.digit_at(3);
        assert(k == self.key_prefix(4) && k < 20736);
        k = k * 12 + self.digit_at(4);
        assert(k == self.key_prefix(5) && k < 248832);
        k = k * 12 + self.digit_at(5);
        assert(k == self.key_prefix(6) && k < 2985984);
        k = k * 12 + self.digit_at(6);
        assert(k == self.key_prefix(7) && k < 35831808);
        k = k * 12 + self.digit_at(7);
        assert(k == self.key_prefix(8) && k < 429981696);
        k = k * 12 + self.digit_at(8);
        assert(k == self.key_prefix(9) && k < 5159780352);
        k = k * 12 + self.digit_at(9);
        assert(k == self.key_prefix(10) && k < 61917364224);
        k = k * 12 + self.digit_at(10);
        assert(k == self.key_prefix(11) && k < 743008370688);
        k = k * 12 + self.digit_at(11);
        assert(k == self.key_prefix(12) && k < 8916100448256);
        k
    }

    proof fn lemma_key_injective(self, other: Self) {
        lemma_pow_values();
        self.lemma_key_prefix_bound(12);
        other.lemma_key_prefix_bound(12);
        self.lemma_key_prefix_injective(other, 12);
        self.lemma_digits_injective(other);
    }
}


} // verus!
