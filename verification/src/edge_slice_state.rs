//! The edge slice state: whether the edges that belong in the middle slice
//! (the slice between the left and the right face) are in it.

use crate::cube::{Cube, Facelet};
use crate::edge_orientation_state::{bit, bit_of};
use crate::moves::CanMove;
use crate::state_key::{
    lemma_pow_values, lemma_with_digit_bound, lemma_with_digit_injective, pow, StateKey,
    with_digit,
};
use vstd::prelude::*;

verus! {

#[derive(Copy, Clone, PartialEq, Eq, Structural, Debug, Hash)]
pub struct EdgeMidSliceState {
    // each field is "the edge in this place belongs in the middle slice (not on L or R)"
    // top layer
    pub uf: bool,
    pub ub: bool,
    pub ul: bool,
    pub ur: bool,
    // mid layer
    pub fl: bool,
    pub fr: bool,
    pub bl: bool,
    pub br: bool,
    // bot layer
    pub df: bool,
    pub db: bool,
    pub dl: bool,
    pub dr: bool,
}

/// An edge belongs in the middle slice if neither of its colors is that of
/// the left or of the right center.
pub open spec fn is_mid_slice_spec(cube: Cube, a: Facelet, b: Facelet) -> bool {
    !cube.is_lr_color(a) && !cube.is_lr_color(b)
}

fn is_mid_slice(cube: &Cube, a: Facelet, b: Facelet) -> (r: bool)
    ensures
        r == is_mid_slice_spec(*cube, a, b),
{
    !cube.lr_color(a) && !cube.lr_color(b)
}

impl EdgeMidSliceState {
    /// The state in which the four places of the middle slice, and no
    /// others, hold edges that belong in it.
    pub open spec fn solved_spec() -> Self {
        EdgeMidSliceState {
            uf: true,
            ub: true,
            ul: false,
            ur: false,
            fl: false,
            fr: false,
            bl: false,
            br: false,
            df: true,
            db: true,
            dl: false,
            dr: false,
        }
    }

    /// The state in which the four places of the middle slice, and no others,
    /// hold edges that belong in it.
    #[inline(always)]
    pub fn solved() -> (out: Self)
        ensures
            out == Self::solved_spec(),
    {
        Self {
            uf: true,
            ub: true,
            ul: false,
            ur: false,
            fl: false,
            fr: false,
            bl: false,
            br: false,
            df: true,
            db: true,
            dl: false,
            dr: false,
        }
    }

    /// Whether the middle slice holds the four edges that belong in it.
    pub fn is_solved(&self) -> (b: bool)
        ensures
            b == (*self == Self::solved_spec()),
    {
        *self == Self::solved()
    }

    /// For each place, whether the edge of `cube` in it belongs in the
    /// middle slice.
    pub open spec fn from_cube_spec(cube: Cube) -> Self {
        EdgeMidSliceState {
            uf: is_mid_slice_spec(cube, cube.u.fc, cube.f.uc),
            ub: is_mid_slice_spec(cube, cube.u.bc, cube.b.uc),
            ul: is_mid_slice_spec(cube, cube.u.lc, cube.l.uc),
            ur: is_mid_slice_spec(cube, cube.u.rc, cube.r.uc),
            fl: is_mid_slice_spec(cube, cube.f.lc, cube.l.fc),
            fr: is_mid_slice_spec(cube, cube.f.rc, cube.r.fc),
            bl: is_mid_slice_spec(cube, cube.b.lc, cube.l.bc),
            br: is_mid_slice_spec(cube, cube.b.rc, cube.r.bc),
            df: is_mid_slice_spec(cube, cube.d.fc, cube.f.dc),
            db: is_mid_slice_spec(cube, cube.d.bc, cube.b.dc),
            dl: is_mid_slice_spec(cube, cube.d.lc, cube.l.dc),
            dr: is_mid_slice_spec(cube, cube.d.rc, cube.r.dc),
        }
    }

    /// For each place, whether the edge of `cube` in it belongs in the middle
    /// slice.
    pub fn from_cube(cube: &Cube) -> (out: EdgeMidSliceState)
        ensures
            out == Self::from_cube_spec(*cube),
    {
        EdgeMidSliceState {
            uf: is_mid_slice(cube, cube.u.fc, cube.f.uc),
            ub: is_mid_slice(cube, cube.u.bc, cube.b.uc),
            ul: is_mid_slice(cube, cube.u.lc, cube.l.uc),
            ur: is_mid_slice(cube, cube.u.rc, cube.r.uc),
            fl: is_mid_slice(cube, cube.f.lc, cube.l.fc),
            fr: is_mid_slice(cube, cube.f.rc, cube.r.fc),
            bl: is_mid_slice(cube, cube.b.lc, cube.l.bc),
            br: is_mid_slice(cube, cube.b.rc, cube.r.bc),
            df: is_mid_slice(cube, cube.d.fc, cube.f.dc),
            db: is_mid_slice(cube, cube.d.bc, cube.b.dc),
            dl: is_mid_slice(cube, cube.d.lc, cube.l.dc),
            dr: is_mid_slice(cube, cube.d.rc, cube.r.dc),
        }
    }

    /// The key is below 2 to the 12th.
    pub proof fn lemma_key_bound(self)
        ensures
            self.key_spec() < 4096,
    {
        lemma_pow_values();
        self.lemma_key_prefix_bound(12);
    }
}

// all simple permutations, no tricks with this
impl CanMove for EdgeMidSliceState {
    /// The four edges of the right face go round.
    open spec fn r_spec(self) -> Self {
        EdgeMidSliceState {
            ur: self.fr,
            fr: self.dr,
            dr: self.br,
            br: self.ur,
            ..self
        }
    }

    /// The four edges of the left face go round.
    open spec fn l_spec(self) -> Self {
        EdgeMidSliceState {
            ul: self.bl,
            bl: self.dl,
            dl: self.fl,
            fl: self.ul,
            ..self
        }
    }

    /// The four edges of the upper face go round.
    open spec fn u_spec(self) -> Self {
        EdgeMidSliceState {
            uf: self.ur,
            ur: self.ub,
            ub: self.ul,
            ul: self.uf,
            ..self
        }
    }

    /// The four edges of the lower face go round.
    open spec fn d_spec(self) -> Self {
        EdgeMidSliceState {
            df: self.dl,
            dl: self.db,
            db: self.dr,
            dr: self.df,
            ..self
        }
    }

    /// The four edges of the back face go round.
    open spec fn b_spec(self) -> Self {
        EdgeMidSliceState {
            ub: self.br,
            br: self.db,
            db: self.bl,
            bl: self.ub,
            ..self
        }
    }

    /// The four edges of the front face go round.
    open spec fn f_spec(self) -> Self {
        EdgeMidSliceState {
            uf: self.fl,
            fl: self.df,
            df: self.fr,
            fr: self.uf,
            ..self
        }
    }

    fn r(self) -> (out: Self) {
        EdgeMidSliceState {
            ur: self.fr,
            fr: self.dr,
            dr: self.br,
            br: self.ur,
            ..self
        }
    }

    fn l(self) -> (out: Self) {
        EdgeMidSliceState {
            ul: self.bl,
            bl: self.dl,
            dl: self.fl,
            fl: self.ul,
            ..self
        }
    }

    fn u(self) -> (out: Self) {
        EdgeMidSliceState {
            uf: self.ur,
            ur: self.ub,
            ub: self.ul,
            ul: self.uf,
            ..self
        }
    }

    fn d(self) -> (out: Self) {
        EdgeMidSliceState {
            df: self.dl,
            dl: self.db,
            db: self.dr,
            dr: self.df,
            ..self
        }
    }

    fn b(self) -> (out: Self) {
        EdgeMidSliceState {
            ub: self.br,
            br: self.db,
            db: self.bl,
            bl: self.ub,
            ..self
        }
    }

    fn f(self) -> (out: Self) {
        EdgeMidSliceState {
            uf: self.fl,
            fl: self.df,
            df: self.fr,
            fr: self.uf,
            ..self
        }
    }

    proof fn lemma_four_turns(self) {
    }

    proof fn lemma_opposite_turns_commute(self) {
    }
}


impl EdgeMidSliceState {
    /// The digit that field number `i` gives.
    #[verifier::opaque]
    pub open spec fn digit(self, i: int) -> int {
        if i == 0 {
            bit(self.uf)
        } else if i == 1 {
            bit(self.ub)
        } else if i == 2 {
            bit(self.ul)
        } else if i == 3 {
            bit(self.ur)
        } else if i == 4 {
            bit(self.fl)
        } else if i == 5 {
            bit(self.fr)
        } else if i == 6 {
            bit(self.bl)
        } else if i == 7 {
            bit(self.br)
        } else if i == 8 {
            bit(self.df)
        } else if i == 9 {
            bit(self.db)
        } else if i == 10 {
            bit(self.dl)
        } else {
            bit(self.dr)
        }
    }

    fn digit_at(&self, i: usize) -> (d: u128)
        ensures
            d == self.digit(i as int),
            d < 2,
    {
        reveal(EdgeMidSliceState::digit);
        match i {
            0 => bit_of(self.uf),
            1 => bit_of(self.ub),
            2 => bit_of(self.ul),
            3 => bit_of(self.ur),
            4 => bit_of(self.fl),
            5 => bit_of(self.fr),
            6 => bit_of(self.bl),
            7 => bit_of(self.br),
            8 => bit_of(self.df),
            9 => bit_of(self.db),
            10 => bit_of(self.dl),
            _ => bit_of(self.dr),
        }
    }

    /// Every digit is below 2.
    pub proof fn lemma_digit_bound(self, i: int)
        ensures
            0 <= self.digit(i) < 2,
    {
        reveal(EdgeMidSliceState::digit);
    }

    /// States with the same digits are the same state.
    pub proof fn lemma_digits_injective(self, other: Self)
        requires
            forall|i: int| 0 <= i < 12 ==> self.digit(i) == other.digit(i),
        ensures
            self == other,
    {
        reveal(EdgeMidSliceState::digit);
        assert(self.digit(0) == other.digit(0));
        assert(self.digit(1) == other.digit(1));
        assert(self.digit(2) == other.digit(2));
        assert(self.digit(3) == other.digit(3));
        assert(self.digit(4) == other.digit(4));
        assert(self.digit(5) == other.digit(5));
        assert(self.digit(6) == other.digit(6));
        assert(self.digit(7) == other.digit(7));
        assert(self.digit(8) == other.digit(8));
        assert(self.digit(9) == other.digit(9));
        assert(self.digit(10) == other.digit(10));
        assert(self.digit(11) == other.digit(11));
    }

    /// The number that the digits of the first `n` fields make, the first
    /// field most significant.
    pub open spec fn key_prefix(self, n: int) -> int
        decreases n,
    {
        if n <= 0 {
            0
        } else {
            with_digit(self.key_prefix(n - 1), 2, self.digit(n - 1))
        }
    }

    /// The digits of `n` fields stay below 2 to the `n`th.
    pub proof fn lemma_key_prefix_bound(self, n: int)
        requires
            0 <= n <= 12,
        ensures
            0 <= self.key_prefix(n) < pow(n as nat, 2),
        decreases n,
    {
        reveal_with_fuel(pow, 2);
        if n > 0 {
            self.lemma_key_prefix_bound(n - 1);
            self.lemma_digit_bound(n - 1);
            lemma_with_digit_bound(
                self.key_prefix(n - 1),
                2,
                self.digit(n - 1),
                pow((n - 1) as nat, 2),
            );
        }
    }

    /// States with the same digits in the first `n` fields agree on them.
    pub proof fn lemma_key_prefix_injective(self, other: Self, n: int)
        requires
            0 <= n <= 12,
            self.key_prefix(n) == other.key_prefix(n),
        ensures
            forall|i: int| 0 <= i < n ==> self.digit(i) == other.digit(i),
        decreases n,
    {
        if n > 0 {
            self.lemma_digit_bound(n - 1);
            other.lemma_digit_bound(n - 1);
            lemma_with_digit_injective(
                self.key_prefix(n - 1),
                self.digit(n - 1),
                other.key_prefix(n - 1),
                other.digit(n - 1),
                2,
            );
            self.lemma_key_prefix_injective(other, n - 1);
        }
    }
}

impl StateKey for EdgeMidSliceState {
    /// The twelve bits as a binary number.
    open spec fn key_spec(self) -> u128 {
        self.key_prefix(12) as u128
    }

    fn key(&self) -> (k: u128) {
        let mut k: u128 = self.digit_at(0);
        assert(k == self.key_prefix(1) && k < 2) by {
            reveal_with_fuel(EdgeMidSliceState::key_prefix, 2);
        }
        k = k * 2 + self.digit_at(1);
        assert(k == self.key_prefix(2) && k < 4);
        k = k * 2 + self.digit_at(2);
        assert(k == self.key_prefix(3) && k < 8);
        k = k * 2 + self.digit_at(3);
        assert(k == self.key_prefix(4) && k < 16);
        k = k * 2 + self.digit_at(4);
        assert(k == self.key_prefix(5) && k < 32);
        k = k * 2 + self.digit_at(5);
        assert(k == self.key_prefix(6) && k < 64);
        k = k * 2 + self.digit_at(6);
        assert(k == self.key_prefix(7) && k < 128);
        k = k * 2 + self.digit_at(7);
        assert(k == self.key_prefix(8) && k < 256);
        k = k * 2 + self.digit_at(8);
        assert(k == self.key_prefix(9) && k < 512);
        k = k * 2 + self.digit_at(9);
        assert(k == self.key_prefix(10) && k < 1024);
        k = k * 2 + self.digit_at(10);
        assert(k == self.key_prefix(11) && k < 2048);
        k = k * 2 + self.digit_at(11);
        assert(k == self.key_prefix(12) && k < 4096);
        k
    }

    proof fn lemma_key_injective(self, other: Self) {
        lemma_pow_values();
        self.lemma_key_prefix_bound(12);
        other.lemma_key_prefix_bound(12);
        self.lemma_key_prefix_injective(other, 12);
        self.lemma_digits_injective(other);
    }
}


} // verus!
