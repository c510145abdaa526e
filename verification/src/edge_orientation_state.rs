//! The edge orientation state: which edges are "good", that is, would come
//! home the right way round if only left, right, front and back turns were
//! used to bring them there.

use crate::cube::{Cube, Facelet};
use crate::moves::{apply_move, CanMove, Dir, FullMove, lemma_kept_by_turns_kept_by_moves, turn};
use crate::state_key::{
    lemma_pow_values, lemma_with_digit_bound, lemma_with_digit_injective, pow, StateKey,
    with_digit,
};
use vstd::prelude::*;

verus! {

#[derive(Copy, Clone, PartialEq, Eq, Structural, Debug, Hash)]
pub struct EdgeOrientationState {
    // each field is "this edge is good"
    // top layer
    pub uf: bool,
    pub ub: bool,
    pub ul: bool,
    pub ur: bool,
    // mid layer
    pub fl: bool,
    pub fr: bool,
    pub bl: bool,
    pub br: bool,
    // bot layer
    pub df: bool,
    pub db: bool,
    pub dl: bool,
    pub dr: bool,
}

/// 1 for a bad edge, 0 for a good one.
#[verifier::opaque]
pub open spec fn bad(good: bool) -> int {
    if good {
        0
    } else {
        1
    }
}

/// An edge seen from the left or right face is good unless it shows a
/// front/back color there, or an up/down color there with a left/right color
/// on its other side.
pub open spec fn lr_good_spec(cube: Cube, lr: Facelet, other: Facelet) -> bool {
    !cube.is_fb_color(lr) && !(cube.is_ud_color(lr) && cube.is_lr_color(other))
}

/// An edge of the middle slice seen from the upper or lower face: the same
/// rule, with the front/back side as the other side.
pub open spec fn ud_mid_good_spec(cube: Cube, ud: Facelet, fb: Facelet) -> bool {
    !cube.is_fb_color(ud) && !(cube.is_ud_color(ud) && cube.is_lr_color(fb))
}

fn lr_good(cube: &Cube, lr: Facelet, other: Facelet) -> (b: bool)
    ensures
        b == lr_good_spec(*cube, lr, other),
{
    !cube.fb_color(lr) && !(cube.ud_color(lr) && cube.lr_color(other))
}

fn ud_mid_good(cube: &Cube, ud: Facelet, fb: Facelet) -> (b: bool)
    ensures
        b == ud_mid_good_spec(*cube, ud, fb),
{
    !cube.fb_color(ud) && !(cube.ud_color(ud) && cube.lr_color(fb))
}

/// Whether a number is even.
#[verifier::opaque]
pub open spec fn even(n: int) -> bool {
    n % 2 == 0
}

/// One more bit: the exclusive or of the bits so far goes on saying whether
/// the bad edges among them are even. `odd` says whether the number of bits
/// so far is odd.
pub proof fn lemma_xor_step(x: bool, c: int, odd: bool, b: bool)
    requires
        even(c) == (x == odd),
    ensures
        even(c + bad(b)) == ((x ^ b) == !odd),
{
    reveal(even);
    reveal(bad);
}

/// The exclusive or of twelve bits is false exactly if an even number of
/// them is clear.
#[verifier::spinoff_prover]
pub proof fn lemma_xor_of_twelve(
    b1: bool,
    b2: bool,
    b3: bool,
    b4: bool,
    b5: bool,
    b6: bool,
    b7: bool,
    b8: bool,
    b9: bool,
    b10: bool,
    b11: bool,
    b12: bool,
)
    ensures
        even(
            bad(b1) + bad(b2) + bad(b3) + bad(b4) + bad(b5) + bad(b6) + bad(b7) + bad(b8)
                + bad(b9) + bad(b10) + bad(b11) + bad(b12),
        ) == !(b1 ^ b2 ^ b3 ^ b4 ^ b5 ^ b6 ^ b7 ^ b8 ^ b9 ^ b10 ^ b11 ^ b12),
{
    // after each bit, the exclusive or so far says whether the clear bits so far are even
    assert(even(0)) by {
        reveal(even);
    }
    let c1 = 0 + bad(b1);
    let x1 = false ^ b1;
    lemma_xor_step(false, 0, false, b1);
    let c2 = c1 + bad(b2);
    let x2 = x1 ^ b2;
    lemma_xor_step(x1, c1, true, b2);
    let c3 = c2 + bad(b3);
    let x3 = x2 ^ b3;
    lemma_xor_step(x2, c2, false, b3);
    let c4 = c3 + bad(b4);
    let x4 = x3 ^ b4;
    lemma_xor_step(x3, c3, true, b4);
    let c5 = c4 + bad(b5);
    let x5 = x4 ^ b5;
    lemma_xor_step(x4, c4, false, b5);
    let c6 = c5 + bad(b6);
    let x6 = x5 ^ b6;
    lemma_xor_step(x5, c5, true, b6);
    let c7 = c6 + bad(b7);
    let x7 = x6 ^ b7;
    lemma_xor_step(x6, c6, false, b7);
    let c8 = c7 + bad(b8);
    let x8 = x7 ^ b8;
    lemma_xor_step(x7, c7, true, b8);
    let c9 = c8 + bad(b9);
    let x9 = x8 ^ b9;
    lemma_xor_step(x8, c8, false, b9);
    let c10 = c9 + bad(b10);
    let x10 = x9 ^ b10;
    lemma_xor_step(x9, c9, true, b10);
    let c11 = c10 + bad(b11);
    let x11 = x10 ^ b11;
    lemma_xor_step(x10, c10, false, b11);
    let c12 = c11 + bad(b12);
    let x12 = x11 ^ b12;
    lemma_xor_step(x11, c11, true, b12);
}

impl EdgeOrientationState {
    /// The orientation of each edge of `cube`.
    pub open spec fn from_cube_spec(cube: Cube) -> Self {
        EdgeOrientationState {
            uf: ud_mid_good_spec(cube, cube.u.fc, cube.f.uc),
            ub: ud_mid_good_spec(cube, cube.u.bc, cube.b.uc),
            df: ud_mid_good_spec(cube, cube.d.fc, cube.f.dc),
            db: ud_mid_good_spec(cube, cube.d.bc, cube.b.dc),
            ul: lr_good_spec(cube, cube.l.uc, cube.u.lc),
            fl: lr_good_spec(cube, cube.l.fc, cube.f.lc),
            bl: lr_good_spec(cube, cube.l.bc, cube.b.lc),
            dl: lr_good_spec(cube, cube.l.dc, cube.d.lc),
            ur: lr_good_spec(cube, cube.r.uc, cube.u.rc),
            fr: lr_good_spec(cube, cube.r.fc, cube.f.rc),
            br: lr_good_spec(cube, cube.r.bc, cube.b.rc),
            dr: lr_good_spec(cube, cube.r.dc, cube.d.rc),
        }
    }

    /// The orientation of each edge of `cube`.
    pub fn from_cube(cube: &Cube) -> (out: Self)
        ensures
            out == Self::from_cube_spec(*cube),
    {
        Self {
            // ud mid edges ...
            uf: ud_mid_good(cube, cube.u.fc, cube.f.uc),
            ub: ud_mid_good(cube, cube.u.bc, cube.b.uc),
            df: ud_mid_good(cube, cube.d.fc, cube.f.dc),
            db: ud_mid_good(cube, cube.d.bc, cube.b.dc),
            // l edges
            ul: lr_good(cube, cube.l.uc, cube.u.lc),
            fl: lr_good(cube, cube.l.fc, cube.f.lc),
            bl: lr_good(cube, cube.l.bc, cube.b.lc),
            dl: lr_good(cube, cube.l.dc, cube.d.lc),
            // r edges
            ur: lr_good(cube, cube.r.uc, cube.u.rc),
            fr: lr_good(cube, cube.r.fc, cube.f.rc),
            br: lr_good(cube, cube.r.bc, cube.b.rc),
            dr: lr_good(cube, cube.r.dc, cube.d.rc),
        }
    }

    /// The state in which every edge is good.
    pub open spec fn solved_spec() -> Self {
        EdgeOrientationState {
            uf: true,
            ub: true,
            ul: true,
            ur: true,
            fl: true,
            fr: true,
            bl: true,
            br: true,
            df: true,
            db: true,
            dl: true,
            dr: true,
        }
    }

    /// The state in which every edge is good.
    #[inline(always)]
    pub fn make_solved() -> (out: Self)
        ensures
            out == Self::solved_spec(),
    {
        Self {
            uf: true,
            ub: true,
            ul: true,
            ur: true,
            fl: true,
            fr: true,
            bl: true,
            br: true,
            df: true,
            db: true,
            dl: true,
            dr: true,
        }
    }

    /// The number of bad edges.
    pub open spec fn bad_count(self) -> int {
        bad(self.uf) + bad(self.ub) + bad(self.ul) + bad(self.ur) + bad(self.fl) + bad(self.fr)
            + bad(self.bl) + bad(self.br) + bad(self.df) + bad(self.db) + bad(self.dl) + bad(
            self.dr,
        )
    }

    /// The exclusive or of the twelve bits.
    pub open spec fn xor_of_bits(self) -> bool {
        self.uf ^ self.ub ^ self.ul ^ self.ur ^ self.fl ^ self.fr ^ self.bl ^ self.br ^ self.df
            ^ self.db ^ self.dl ^ self.dr
    }

    /// Solvable states are those with an even number of bad edges.
    #[verifier::opaque]
    pub open spec fn is_solvable_spec(self) -> bool {
        self.bad_count() % 2 == 0
    }

    /// Whether an even number of edges is bad, which is when the exclusive
    /// or of the twelve bits is false.
    pub fn is_solvable(&self) -> (b: bool)
        ensures
            b == self.is_solvable_spec(),
            b == (self.bad_count() % 2 == 0),
            b == !self.xor_of_bits(),
    {
        reveal(EdgeOrientationState::is_solvable_spec);
        proof {
            self.lemma_solvable_is_xor();
        }
        // solvable if an even number of pieces are out of orientation
        let is_flipped = self.uf ^ self.ub ^ self.ul ^ self.ur ^ self.fl ^ self.fr ^ self.bl
            ^ self.br ^ self.df ^ self.db ^ self.dl ^ self.dr;

        !is_flipped
    }

    /// Whether every edge is good.
    pub fn is_solved(&self) -> (b: bool)
        ensures
            b == (*self == Self::solved_spec()),
    {
        self.uf && self.ub && self.ul && self.ur && self.fl && self.fr && self.bl && self.br
            && self.df && self.db && self.dl && self.dr
    }

    /// An even number of bad edges is what a false exclusive or says.
    pub proof fn lemma_solvable_is_xor(self)
        ensures
            self.is_solvable_spec() == !self.xor_of_bits(),
    {
        lemma_xor_of_twelve(
            self.uf,
            self.ub,
            self.ul,
            self.ur,
            self.fl,
            self.fr,
            self.bl,
            self.br,
            self.df,
            self.db,
            self.dl,
            self.dr,
        );
        assert(even(self.bad_count()) == self.is_solvable_spec()) by {
            reveal(even);
            reveal(EdgeOrientationState::is_solvable_spec);
        }
    }

    /// No quarter turn changes the exclusive or of the twelve bits.
    pub proof fn lemma_turn_keeps_xor(self, dir: Dir)
        ensures
            turn(self, dir).xor_of_bits() == self.xor_of_bits(),
    {
        match dir {
            Dir::R => assert(self.r_spec().xor_of_bits() == self.xor_of_bits()),
            Dir::L => assert(self.l_spec().xor_of_bits() == self.xor_of_bits()),
            Dir::U => assert(self.u_spec().xor_of_bits() == self.xor_of_bits()),
            Dir::D => assert(self.d_spec().xor_of_bits() == self.xor_of_bits()),
            Dir::B => assert(self.b_spec().xor_of_bits() == self.xor_of_bits()),
            Dir::F => assert(self.f_spec().xor_of_bits() == self.xor_of_bits()),
        }
    }

    /// The solved state is solvable, and no move makes a solvable state
    /// unsolvable or an unsolvable one solvable.
    pub proof fn lemma_moves_keep_solvable(self, m: FullMove)
        ensures
            Self::solved_spec().is_solvable_spec(),
            apply_move(self, m).is_solvable_spec() == self.is_solvable_spec(),
    {
        let solvable = |t: EdgeOrientationState| t.is_solvable_spec();
        assert forall|t: EdgeOrientationState, dir: Dir| #[trigger]
            solvable(turn(t, dir)) == solvable(t) by {
            t.lemma_turn_keeps_solvable(dir);
        }
        lemma_kept_by_turns_kept_by_moves(solvable, self, m);
        Self::solved_spec().lemma_solvable_is_xor();
    }

    /// No quarter turn makes a solvable state unsolvable or an unsolvable
    /// one solvable.
    pub proof fn lemma_turn_keeps_solvable(self, dir: Dir)
        ensures
            turn(self, dir).is_solvable_spec() == self.is_solvable_spec(),
    {
        self.lemma_turn_keeps_xor(dir);
        self.lemma_solvable_is_xor();
        turn(self, dir).lemma_solvable_is_xor();
    }

    /// The key is below 2 to the 12th.
    pub proof fn lemma_key_bound(self)
        ensures
            self.key_spec() < 4096,
    {
        lemma_pow_values();
        self.lemma_key_prefix_bound(12);
    }
}

impl CanMove for EdgeOrientationState {
    /// The four edges of the right face go round; none of them flips.
    open spec fn r_spec(self) -> Self {
        EdgeOrientationState {
            ur: self.fr,
            fr: self.dr,
            dr: self.br,
            br: self.ur,
            ..self
        }
    }

    /// The four edges of the left face go round; none of them flips.
    open spec fn l_spec(self) -> Self {
        EdgeOrientationState {
            ul: self.bl,
            bl: self.dl,
            dl: self.fl,
            fl: self.ul,
            ..self
        }
    }

    /// The four edges of the upper face go round and each of them flips.
    open spec fn u_spec(self) -> Self {
        EdgeOrientationState {
            uf: !self.ur,
            ur: !self.ub,
            ub: !self.ul,
            ul: !self.uf,
            ..self
        }
    }

    /// The four edges of the lower face go round and each of them flips.
    open spec fn d_spec(self) -> Self {
        EdgeOrientationState {
            df: !self.dl,
            dl: !self.db,
            db: !self.dr,
            dr: !self.df,
            ..self
        }
    }

    /// The four edges of the back face go round; none of them flips.
    open spec fn b_spec(self) -> Self {
        EdgeOrientationState {
            ub: self.br,
            br: self.db,
            db: self.bl,
            bl: self.ub,
            ..self
        }
    }

    /// The four edges of the front face go round; none of them flips.
    open spec fn f_spec(self) -> Self {
        EdgeOrientationState {
            uf: self.fl,
            fl: self.df,
            df: self.fr,
            fr: self.uf,
            ..self
        }
    }

    fn r(self) -> (out: Self) {
        EdgeOrientationState {
            ur: self.fr,
            fr: self.dr,
            dr: self.br,
            br: self.ur,
            ..self
        }
    }

    fn l(self) -> (out: Self) {
        EdgeOrientationState {
            ul: self.bl,
            bl: self.dl,
            dl: self.fl,
            fl: self.ul,
            ..self
        }
    }

    fn u(self) -> (out: Self) {
        EdgeOrientationState {
            uf: !self.ur,
            ur: !self.ub,
            ub: !self.ul,
            ul: !self.uf,
            ..self
        }
    }

    fn d(self) -> (out: Self) {
        EdgeOrientationState {
            df: !self.dl,
            dl: !self.db,
            db: !self.dr,
            dr: !self.df,
            ..self
        }
    }

    fn b(self) -> (out: Self) {
        EdgeOrientationState {
            ub: self.br,
            br: self.db,
            db: self.bl,
            bl: self.ub,
            ..self
        }
    }

    fn f(self) -> (out: Self) {
        EdgeOrientationState {
            uf: self.fl,
            fl: self.df,
            df: self.fr,
            fr: self.uf,
            ..self
        }
    }

    proof fn lemma_four_turns(self) {
    }

    proof fn lemma_opposite_turns_commute(self) {
    }
}


/// 1 for a set bit, 0 for a clear one.
pub open spec fn bit(b: bool) -> int {
    if b {
        1
    } else {
        0
    }
}

/// 1 for a set bit, 0 for a clear one.
pub fn bit_of(b: bool) -> (d: u128)
    ensures
        d == bit(b),
{
    if b {
        1
    } else {
        0
    }
}

impl EdgeOrientationState {
    /// The digit that field number `i` gives.
    #[verifier::opaque]
    pub open spec fn digit(self, i: int) -> int {
        if i == 0 {
            bit(self.uf)
        } else if i == 1 {
            bit(self.ub)
        } else if i == 2 {
            bit(self.ul)
        } else if i == 3 {
            bit(self.ur)
        } else if i == 4 {
            bit(self.fl)
        } else if i == 5 {
            bit(self.fr)
        } else if i == 6 {
            bit(self.bl)
        } else if i == 7 {
            bit(self.br)
        } else if i == 8 {
            bit(self.df)
        } else if i == 9 {
            bit(self.db)
        } else if i == 10 {
            bit(self.dl)
        } else {
            bit(self.dr)
        }
    }

    fn digit_at(&self, i: usize) -> (d: u128)
        ensures
            d == self.digit(i as int),
            d < 2,
    {
        reveal(EdgeOrientationState::digit);
        match i {
            0 => bit_of(self.uf),
            1 => bit_of(self.ub),
            2 => bit_of(self.ul),
            3 => bit_of(self.ur),
            4 => bit_of(self.fl),
            5 => bit_of(self.fr),
            6 => bit_of(self.bl),
            7 => bit_of(self.br),
            8 => bit_of(self.df),
            9 => bit_of(self.db),
            10 => bit_of(self.dl),
            _ => bit_of(self.dr),
        }
    }

    /// Every digit is below 2.
    pub proof fn lemma_digit_bound(self, i: int)
        ensures
            0 <= self.digit(i) < 2,
    {
        reveal(EdgeOrientationState::digit);
    }

    /// States with the same digits are the same state.
    pub proof fn lemma_digits_injective(self, other: Self)
        requires
            forall|i: int| 0 <= i < 12 ==> self.digit(i) == other.digit(i),
        ensures
            self == other,
    {
        reveal(EdgeOrientationState::digit);
        assert(self.digit(0) == other.digit(0));
        assert(self.digit(1) == other.digit(1));
        assert(self.digit(2) == other.digit(2));
        assert(self.digit(3) == other.digit(3));
        assert(self.digit(4) == other.digit(4));
        assert(self.digit(5) == other.digit(5));
        assert(self.digit(6) == other.digit(6));
        assert(self.digit(7) == other.digit(7));
        assert(self.digit(8) == other.digit(8));
        assert(self.digit(9) == other.digit(9));
        assert(self.digit(10) == other.digit(10));
        assert(self.digit(11) == other.digit(11));
    }

    /// The number that the digits of the first `n` fields make, the first
    /// field most significant.
    pub open spec fn key_prefix(self, n: int) -> int
        decreases n,
    {
        if n <= 0 {
            0
        } else {
            with_digit(self.key_prefix(n - 1), 2, self.digit(n - 1))
        }
    }

    /// The digits of `n` fields stay below 2 to the `n`th.
    pub proof fn lemma_key_prefix_bound(self, n: int)
        requires
            0 <= n <= 12,
        ensures
            0 <= self.key_prefix(n) < pow(n as nat, 2),
        decreases n,
    {
        reveal_with_fuel(pow, 2);
        if n > 0 {
            self.lemma_key_prefix_bound(n - 1);
            self.lemma_digit_bound(n - 1);
            lemma_with_digit_bound(
                self.key_prefix(n - 1),
                2,
                self.digit(n - 1),
                pow((n - 1) as nat, 2),
            );
        }
    }

    /// States with the same digits in the first `n` fields agree on them.
    pub proof fn lemma_key_prefix_injective(self, other: Self, n: int)
        requires
            0 <= n <= 12,
            self.key_prefix(n) == other.key_prefix(n),
        ensures
            forall|i: int| 0 <= i < n ==> self.digit(i) == other.digit(i),
        decreases n,
    {
        if n > 0 {
            self.lemma_digit_bound(n - 1);
            other.lemma_digit_bound(n - 1);
            lemma_with_digit_injective(
                self.key_prefix(n - 1),
                self.digit(n - 1),
                other.key_prefix(n - 1),
                other.digit(n - 1),
                2,
            );
            self.lemma_key_prefix_injective(other, n - 1);
        }
    }
}

impl StateKey for EdgeOrientationState {
    /// The twelve bits as a binary number.
    open spec fn key_spec(self) -> u128 {
        self.key_prefix(12) as u128
    }

    fn key(&self) -> (k: u128) {
        let mut k: u128 = self.digit_at(0);
        assert(k == self.key_prefix(1) && k < 2) by {
            reveal_with_fuel(EdgeOrientationState::key_prefix, 2);
        }
        k = k * 2 + self.digit_at(1);
        assert(k == self.key_prefix(2) && k < 4);
        k = k * 2 + self.digit_at(2);
        assert(k == self.key_prefix(3) && k < 8);
        k = k * 2 + self.digit_at(3);
        assert(k == self.key_prefix(4) && k < 16);
        k = k * 2 + self.digit_at(4);
        assert(k == self.key_prefix(5) && k < 32);
        k = k * 2 + self.digit_at(5);
        assert(k == self.key_prefix(6) && k < 64);
        k = k * 2 + self.digit_at(6);
        assert(k == self.key_prefix(7) && k < 128);
        k = k * 2 + self.digit_at(7);
        assert(k == self.key_prefix(8) && k < 256);
        k = k * 2 + self.digit_at(8);
        assert(k == self.key_prefix(9) && k < 512);
        k = k * 2 + self.digit_at(9);
        assert(k == self.key_prefix(10) && k < 1024);
        k = k * 2 + self.digit_at(10);
        assert(k == self.key_prefix(11) && k < 2048);
        k = k * 2 + self.digit_at(11);
        assert(k == self.key_prefix(12) && k < 4096);
        k
    }

    proof fn lemma_key_injective(self, other: Self) {
        lemma_pow_values();
        self.lemma_key_prefix_bound(12);
        other.lemma_key_prefix_bound(12);
        self.lemma_key_prefix_injective(other, 12);
        self.lemma_digits_injective(other);
    }
}


} // verus!
