//! The corner orientation state: how far each corner is twisted away from
//! showing its left/right color on the left or right face.

use crate::cube::{Cube, Facelet};
use crate::moves::{apply_move, CanMove, Dir, FullMove, lemma_kept_by_turns_kept_by_moves, turn};
use crate::state_key::{
    lemma_pow_values, lemma_with_digit_bound, lemma_with_digit_injective, pow, StateKey,
    with_digit,
};
use vstd::prelude::*;

verus! {

#[derive(Copy, Clone, PartialEq, Eq, Structural, Debug, Hash)]
pub enum CornerOrientation {
    Good,
    // means it has been rotated once CW
    CW,
    // means it has been rotated once CCW
    CCW,
}

impl CornerOrientation {
    /// The number of clockwise twists: 0, 1 or 2.
    pub open spec fn twist(self) -> int {
        match self {
            CornerOrientation::Good => 0,
            CornerOrientation::CW => 1,
            CornerOrientation::CCW => 2,
        }
    }

    /// The orientation with `n` clockwise twists, counted modulo 3.
    pub open spec fn of_twist(n: int) -> Self {
        if n % 3 == 0 {
            CornerOrientation::Good
        } else if n % 3 == 1 {
            CornerOrientation::CW
        } else {
            CornerOrientation::CCW
        }
    }

    /// One more clockwise twist.
    pub open spec fn cw_spec(self) -> Self {
        match self {
            CornerOrientation::Good => CornerOrientation::CW,
            CornerOrientation::CW => CornerOrientation::CCW,
            CornerOrientation::CCW => CornerOrientation::Good,
        }
    }

    /// One more counterclockwise twist.
    pub open spec fn ccw_spec(self) -> Self {
        match self {
            CornerOrientation::Good => CornerOrientation::CCW,
            CornerOrientation::CW => CornerOrientation::Good,
            CornerOrientation::CCW => CornerOrientation::CW,
        }
    }

    /// A clockwise twist adds 1 to the twist modulo 3, a counterclockwise
    /// one adds 2.
    pub proof fn lemma_twists(self)
        ensures
            self.cw_spec() == Self::of_twist(self.twist() + 1),
            self.ccw_spec() == Self::of_twist(self.twist() + 2),
            self.cw_spec().twist() - self.twist() == 1 || self.cw_spec().twist() - self.twist()
                == -2,
            self.ccw_spec().twist() - self.twist() == -1 || self.ccw_spec().twist() - self.twist()
                == 2,
    {
    }

    /// The sum of two orientations: their twists added modulo 3.
    pub fn add(self, rhs: Self) -> (out: Self)
        ensures
            out == Self::of_twist(self.twist() + rhs.twist()),
    {
        match self {
            CornerOrientation::Good => rhs,
            CornerOrientation::CW => match rhs {
                CornerOrientation::Good => CornerOrientation::CW,
                CornerOrientation::CW => CornerOrientation::CCW,
                CornerOrientation::CCW => CornerOrientation::Good,
            },
            CornerOrientation::CCW => match rhs {
                CornerOrientation::Good => CornerOrientation::CCW,
                CornerOrientation::CW => CornerOrientation::Good,
                CornerOrientation::CCW => CornerOrientation::CW,
            },
        }
    }

    /// One more clockwise twist.
    pub fn cw(self) -> (out: Self)
        ensures
            out == self.cw_spec(),
    {
        match self {
            CornerOrientation::Good => CornerOrientation::CW,
            CornerOrientation::CW => CornerOrientation::CCW,
            CornerOrientation::CCW => CornerOrientation::Good,
        }
    }

    /// One more counterclockwise twist.
    pub fn ccw(self) -> (out: Self)
        ensures
            out == self.ccw_spec(),
    {
        match self {
            CornerOrientation::Good => CornerOrientation::CCW,
            CornerOrientation::CW => CornerOrientation::Good,
            CornerOrientation::CCW => CornerOrientation::CW,
        }
    }

    fn twist_digit(self) -> (d: u128)
        ensures
            d == self.twist(),
    {
        match self {
            CornerOrientation::Good => 0,
            CornerOrientation::CW => 1,
            CornerOrientation::CCW => 2,
        }
    }

    /// Addition of orientations is commutative and associative, and `Good`
    /// is its neutral element.
    pub proof fn lemma_add_laws(a: Self, b: Self, c: Self)
        ensures
            Self::of_twist(a.twist() + b.twist()) == Self::of_twist(b.twist() + a.twist()),
            Self::of_twist(Self::of_twist(a.twist() + b.twist()).twist() + c.twist())
                == Self::of_twist(a.twist() + Self::of_twist(b.twist() + c.twist()).twist()),
            Self::of_twist(a.twist() + CornerOrientation::Good.twist()) == a,
    {
    }
}

#[derive(Copy, Clone, PartialEq, Eq, Structural, Debug, Hash)]
pub struct CornerOrientationState {
    // each field is "the corner in this place is in this orientation"
    // F corners
    pub ful: CornerOrientation,
    pub fur: CornerOrientation,
    pub fdl: CornerOrientation,
    pub fdr: CornerOrientation,
    // B corners
    pub bul: CornerOrientation,
    pub bur: CornerOrientation,
    pub bdl: CornerOrientation,
    pub bdr: CornerOrientation,
}

/// The orientation of a corner, given the facelet it shows on the left or
/// right face and the next facelet clockwise from there.
pub open spec fn orientation_spec(cube: Cube, side: Facelet, next: Facelet) -> CornerOrientation {
    if cube.is_lr_color(side) {
        CornerOrientation::Good
    } else if cube.is_lr_color(next) {
        CornerOrientation::CW
    } else {
        CornerOrientation::CCW
    }
}

// feed it the side facelet, then the next facelet going CW from there, if you were
// looking at the cubelet straight on
fn orientation(cube: &Cube, side: Facelet, next: Facelet) -> (out: CornerOrientation)
    ensures
        out == orientation_spec(*cube, side, next),
{
    if cube.lr_color(side) {
        CornerOrientation::Good
    } else if cube.lr_color(next) {
        CornerOrientation::CW
    } else {
        CornerOrientation::CCW
    }
}

/// Two corners twisted one way and two the other keep the sum of the four
/// twists modulo 3. The first and the last are twisted clockwise.
pub proof fn lemma_four_twists(
    a: CornerOrientation,
    b: CornerOrientation,
    c: CornerOrientation,
    d: CornerOrientation,
)
    ensures
        (a.cw_spec().twist() + b.ccw_spec().twist() + c.ccw_spec().twist() + d.cw_spec().twist())
            % 3 == (a.twist() + b.twist() + c.twist() + d.twist()) % 3,
{
    a.lemma_twists();
    b.lemma_twists();
    c.lemma_twists();
    d.lemma_twists();
    let da = a.cw_spec().twist() - a.twist();
    let db = b.ccw_spec().twist() - b.twist();
    let dc = c.ccw_spec().twist() - c.twist();
    let dd = d.cw_spec().twist() - d.twist();
    let before = a.twist() + b.twist() + c.twist() + d.twist();
    assert(da + db == 3 || da + db == 0 || da + db == -3);
    assert(dc + dd == 3 || dc + dd == 0 || dc + dd == -3);
    lemma_mod3_shift(before, before + (da + db));
    lemma_mod3_shift(before + (da + db), before + (da + db) + (dc + dd));
}

/// Numbers that differ by 3 or not at all leave the same remainder.
pub proof fn lemma_mod3_shift(a: int, b: int)
    requires
        b - a == 3 || b - a == 0 || b - a == -3,
    ensures
        a % 3 == b % 3,
{
}

/// Adding the same number to two numbers with one remainder gives two
/// numbers with one remainder.
pub proof fn lemma_mod3_add(rest: int, x: int, y: int)
    requires
        x % 3 == y % 3,
    ensures
        (rest + x) % 3 == (rest + y) % 3,
{
}

impl CornerOrientationState {
    /// The state in which no corner is twisted.
    pub open spec fn solved_spec() -> Self {
        CornerOrientationState {
            ful: CornerOrientation::Good,
            fur: CornerOrientation::Good,
            fdl: CornerOrientation::Good,
            fdr: CornerOrientation::Good,
            bul: CornerOrientation::Good,
            bur: CornerOrientation::Good,
            bdl: CornerOrientation::Good,
            bdr: CornerOrientation::Good,
        }
    }

    /// The state in which no corner is twisted.
    #[inline(always)]
    pub fn solved() -> (out: Self)
        ensures
            out == Self::solved_spec(),
    {
        Self {
            ful: CornerOrientation::Good,
            fur: CornerOrientation::Good,
            fdl: CornerOrientation::Good,
            fdr: CornerOrientation::Good,
            bul: CornerOrientation::Good,
            bur: CornerOrientation::Good,
            bdl: CornerOrientation::Good,
            bdr: CornerOrientation::Good,
        }
    }

    /// The sum of the twists of the eight corners.
    pub open spec fn twist_sum(self) -> int {
        self.ful.twist() + self.fur.twist() + self.fdl.twist() + self.fdr.twist()
            + self.bul.twist() + self.bur.twist() + self.bdl.twist() + self.bdr.twist()
    }

    /// The sum of the eight orientations.
    pub fn total_orientation(&self) -> (out: CornerOrientation)
        ensures
            out == CornerOrientation::of_twist(self.twist_sum()),
    {
        let all = [
            self.ful,
            self.fur,
            self.fdl,
            self.fdr,
            self.bul,
            self.bur,
            self.bdl,
            self.bdr,
        ];
        let ghost sums = seq![
            0int,
            self.ful.twist(),
            self.ful.twist() + self.fur.twist(),
            self.ful.twist() + self.fur.twist() + self.fdl.twist(),
            self.ful.twist() + self.fur.twist() + self.fdl.twist() + self.fdr.twist(),
            self.ful.twist() + self.fur.twist() + self.fdl.twist() + self.fdr.twist()
                + self.bul.twist(),
            self.ful.twist() + self.fur.twist() + self.fdl.twist() + self.fdr.twist()
                + self.bul.twist() + self.bur.twist(),
            self.ful.twist() + self.fur.twist() + self.fdl.twist() + self.fdr.twist()
                + self.bul.twist() + self.bur.twist() + self.bdl.twist(),
            self.twist_sum(),
        ];
        let mut total = CornerOrientation::Good;
        let mut i: usize = 0;
        while i < 8
            invariant
                i <= 8,
                sums.len() == 9,
                total == CornerOrientation::of_twist(sums[i as int]),
                forall|j: int| 0 <= j < 8 ==> #[trigger] sums[j + 1] == sums[j] + all[j].twist(),
            decreases 8 - i,
        {
            total = total.add(all[i]);
            i += 1;
        }
        total
    }

    /// Solvable states are those whose twists sum to a multiple of 3.
    #[verifier::opaque]
    pub open spec fn is_solvable_spec(self) -> bool {
        self.twist_sum() % 3 == 0
    }

    /// Whether the twists of the corners sum to a multiple of 3.
    pub fn is_solvable(&self) -> (b: bool)
        ensures
            b == self.is_solvable_spec(),
            b == (self.twist_sum() % 3 == 0),
    {
        reveal(CornerOrientationState::is_solvable_spec);
        self.total_orientation() == CornerOrientation::Good
    }

    /// Whether no corner is twisted.
    pub fn is_solved(&self) -> (b: bool)
        ensures
            b == (*self == Self::solved_spec()),
    {
        *self == Self::solved()
    }

    /// The orientation of each corner of `cube`.
    pub open spec fn from_cube_spec(cube: Cube) -> Self {
        CornerOrientationState {
            ful: orientation_spec(cube, cube.l.uf, cube.u.fl),
            fur: orientation_spec(cube, cube.r.uf, cube.f.ur),
            fdl: orientation_spec(cube, cube.l.df, cube.f.dl),
            fdr: orientation_spec(cube, cube.r.df, cube.d.fr),
            bul: orientation_spec(cube, cube.l.ub, cube.b.ul),
            bur: orientation_spec(cube, cube.r.ub, cube.u.br),
            bdl: orientation_spec(cube, cube.l.db, cube.d.bl),
            bdr: orientation_spec(cube, cube.r.db, cube.b.dr),
        }
    }

    /// The orientation of each corner of `cube`.
    pub fn from_cube(cube: &Cube) -> (out: CornerOrientationState)
        ensures
            out == Self::from_cube_spec(*cube),
    {
        CornerOrientationState {
            ful: orientation(cube, cube.l.uf, cube.u.fl),
            fur: orientation(cube, cube.r.uf, cube.f.ur),
            fdl: orientation(cube, cube.l.df, cube.f.dl),
            fdr: orientation(cube, cube.r.df, cube.d.fr),
            bul: orientation(cube, cube.l.ub, cube.b.ul),
            bur: orientation(cube, cube.r.ub, cube.u.br),
            bdl: orientation(cube, cube.l.db, cube.d.bl),
            bdr: orientation(cube, cube.r.db, cube.b.dr),
        }
    }

    proof fn lemma_upper_keeps_sum(self)
        ensures
            self.u_spec().twist_sum() % 3 == self.twist_sum() % 3,
    {
        lemma_four_twists(self.ful, self.fur, self.bul, self.bur);
        let rest = self.fdl.twist() + self.fdr.twist() + self.bdl.twist() + self.bdr.twist();
        let old_four = self.ful.twist() + self.fur.twist() + self.bul.twist() + self.bur.twist();
        let new_four = self.ful.cw_spec().twist() + self.fur.ccw_spec().twist()
            + self.bul.ccw_spec().twist() + self.bur.cw_spec().twist();
        assert(self.twist_sum() == rest + old_four);
        assert(self.u_spec().twist_sum() == rest + new_four);
        lemma_mod3_add(rest, old_four, new_four);
    }

    proof fn lemma_lower_keeps_sum(self)
        ensures
            self.d_spec().twist_sum() % 3 == self.twist_sum() % 3,
    {
        lemma_four_twists(self.bdl, self.fdl, self.bdr, self.fdr);
        let rest = self.ful.twist() + self.fur.twist() + self.bul.twist() + self.bur.twist();
        let old_four = self.bdl.twist() + self.fdl.twist() + self.bdr.twist() + self.fdr.twist();
        let new_four = self.bdl.cw_spec().twist() + self.fdl.ccw_spec().twist()
            + self.bdr.ccw_spec().twist() + self.fdr.cw_spec().twist();
        assert(self.twist_sum() == rest + old_four);
        assert(self.d_spec().twist_sum() == rest + new_four);
        lemma_mod3_add(rest, old_four, new_four);
    }

    proof fn lemma_back_keeps_sum(self)
        ensures
            self.b_spec().twist_sum() % 3 == self.twist_sum() % 3,
    {
        lemma_four_twists(self.bul, self.bur, self.bdl, self.bdr);
        let rest = self.ful.twist() + self.fur.twist() + self.fdl.twist() + self.fdr.twist();
        let old_four = self.bul.twist() + self.bur.twist() + self.bdl.twist() + self.bdr.twist();
        let new_four = self.bul.cw_spec().twist() + self.bur.ccw_spec().twist()
            + self.bdl.ccw_spec().twist() + self.bdr.cw_spec().twist();
        assert(self.twist_sum() == rest + old_four);
        assert(self.b_spec().twist_sum() == rest + new_four);
        lemma_mod3_add(rest, old_four, new_four);
    }

    proof fn lemma_front_keeps_sum(self)
        ensures
            self.f_spec().twist_sum() % 3 == self.twist_sum() % 3,
    {
        lemma_four_twists(self.fdl, self.ful, self.fdr, self.fur);
        let rest = self.bul.twist() + self.bur.twist() + self.bdl.twist() + self.bdr.twist();
        let old_four = self.fdl.twist() + self.ful.twist() + self.fdr.twist() + self.fur.twist();
        let new_four = self.fdl.cw_spec().twist() + self.ful.ccw_spec().twist()
            + self.fdr.ccw_spec().twist() + self.fur.cw_spec().twist();
        assert(self.twist_sum() == rest + old_four);
        assert(self.f_spec().twist_sum() == rest + new_four);
        lemma_mod3_add(rest, old_four, new_four);
    }

    /// No quarter turn changes the sum of the twists modulo 3.
    pub proof fn lemma_turn_keeps_sum(self, dir: Dir)
        ensures
            turn(self, dir).twist_sum() % 3 == self.twist_sum() % 3,
    {
        match dir {
            Dir::R => assert(self.r_spec().twist_sum() == self.twist_sum()),
            Dir::L => assert(self.l_spec().twist_sum() == self.twist_sum()),
            Dir::U => self.lemma_upper_keeps_sum(),
            Dir::D => self.lemma_lower_keeps_sum(),
            Dir::B => self.lemma_back_keeps_sum(),
            Dir::F => self.lemma_front_keeps_sum(),
        }
    }

    /// No quarter turn makes a solvable state unsolvable or an unsolvable
    /// one solvable.
    pub proof fn lemma_turn_keeps_solvable(self, dir: Dir)
        ensures
            turn(self, dir).is_solvable_spec() == self.is_solvable_spec(),
    {
        reveal(CornerOrientationState::is_solvable_spec);
        self.lemma_turn_keeps_sum(dir);
    }

    /// The solved state is solvable, and no move makes a solvable state
    /// unsolvable or an unsolvable one solvable.
    pub proof fn lemma_moves_keep_solvable(self, m: FullMove)
        ensures
            Self::solved_spec().is_solvable_spec(),
            apply_move(self, m).is_solvable_spec() == self.is_solvable_spec(),
    {
        let solvable = |t: CornerOrientationState| t.is_solvable_spec();
        assert forall|t: CornerOrientationState, dir: Dir| #[trigger]
            solvable(turn(t, dir)) == solvable(t) by {
            t.lemma_turn_keeps_solvable(dir);
        }
        lemma_kept_by_turns_kept_by_moves(solvable, self, m);
        assert(Self::solved_spec().is_solvable_spec()) by {
            reveal(CornerOrientationState::is_solvable_spec);
        }
    }

    /// The key is below 3 to the 8th.
    pub proof fn lemma_key_bound(self)
        ensures
            self.key_spec() < 6561,
    {
        lemma_pow_values();
        self.lemma_key_prefix_bound(8);
    }
}

impl CanMove for CornerOrientationState {
    /// The four corners of the right face go round; none of them is twisted.
    open spec fn r_spec(self) -> Self {
        CornerOrientationState {
            fur: self.fdr,
            fdr: self.bdr,
            bdr: self.bur,
            bur: self.fur,
            ..self
        }
    }

    /// The four corners of the left face go round; none of them is twisted.
    open spec fn l_spec(self) -> Self {
        CornerOrientationState {
            ful: self.bul,
            bul: self.bdl,
            bdl: self.fdl,
            fdl: self.ful,
            ..self
        }
    }

    /// The four corners of the upper face go round, twisted one way and the other in turn.
    open spec fn u_spec(self) -> Self {
        CornerOrientationState {
            ful: self.fur.ccw_spec(),
            fur: self.bur.cw_spec(),
            bur: self.bul.ccw_spec(),
            bul: self.ful.cw_spec(),
            ..self
        }
    }

    /// The four corners of the lower face go round, twisted one way and the other in turn.
    open spec fn d_spec(self) -> Self {
        CornerOrientationState {
            fdl: self.bdl.cw_spec(),
            bdl: self.bdr.ccw_spec(),
            bdr: self.fdr.cw_spec(),
            fdr: self.fdl.ccw_spec(),
            ..self
        }
    }

    /// The four corners of the back face go round, twisted one way and the other in turn.
    open spec fn b_spec(self) -> Self {
        CornerOrientationState {
            bul: self.bur.ccw_spec(),
            bur: self.bdr.cw_spec(),
            bdr: self.bdl.ccw_spec(),
            bdl: self.bul.cw_spec(),
            ..self
        }
    }

    /// The four corners of the front face go round, twisted one way and the other in turn.
    open spec fn f_spec(self) -> Self {
        CornerOrientationState {
            ful: self.fdl.cw_spec(),
            fdl: self.fdr.ccw_spec(),
            fdr: self.fur.cw_spec(),
            fur: self.ful.ccw_spec(),
            ..self
        }
    }

    fn r(self) -> (out: Self) {
        CornerOrientationState {
            fur: self.fdr,
            fdr: self.bdr,
            bdr: self.bur,
            bur: self.fur,
            ..self
        }
    }

    fn l(self) -> (out: Self) {
        CornerOrientationState {
            ful: self.bul,
            bul: self.bdl,
            bdl: self.fdl,
            fdl: self.ful,
            ..self
        }
    }

    fn u(self) -> (out: Self) {
        CornerOrientationState {
            ful: self.fur.ccw(),
            fur: self.bur.cw(),
            bur: self.bul.ccw(),
            bul: self.ful.cw(),
            ..self
        }
    }

    fn u_two(self) -> (out: Self) {
        // two quarter turns twist each corner one way and back: a plain swap
        CornerOrientationState {
            ful: self.bur,
            bur: self.ful,
            fur: self.bul,
            bul: self.fur,
            ..self
        }
    }

    fn d(self) -> (out: Self) {
        CornerOrientationState {
            fdl: self.bdl.cw(),
            bdl: self.bdr.ccw(),
            bdr: self.fdr.cw(),
            fdr: self.fdl.ccw(),
            ..self
        }
    }

    fn b(self) -> (out: Self) {
        CornerOrientationState {
            bul: self.bur.ccw(),
            bur: self.bdr.cw(),
            bdr: self.bdl.ccw(),
            bdl: self.bul.cw(),
            ..self
        }
    }

    fn f(self) -> (out: Self) {
        CornerOrientationState {
            ful: self.fdl.cw(),
            fdl: self.fdr.ccw(),
            fdr: self.fur.cw(),
            fur: self.ful.ccw(),
            ..self
        }
    }

    proof fn lemma_four_turns(self) {
    }

    proof fn lemma_opposite_turns_commute(self) {
    }
}


impl CornerOrientationState {
    /// The digit that field number `i` gives.
    #[verifier::opaque]
    pub open spec fn digit(self, i: int) -> int {
        if i == 0 {
            self.ful.twist()
        } else if i == 1 {
            self.fur.twist()
        } else if i == 2 {
            self.fdl.twist()
        } else if i == 3 {
            self.fdr.twist()
        } else if i == 4 {
            self.bul.twist()
        } else if i == 5 {
            self.bur.twist()
        } else if i == 6 {
            self.bdl.twist()
        } else {
            self.bdr.twist()
        }
    }

    fn digit_at(&self, i: usize) -> (d: u128)
        ensures
            d == self.digit(i as int),
            d < 3,
    {
        reveal(CornerOrientationState::digit);
        match i {
            0 => self.ful.twist_digit(),
            1 => self.fur.twist_digit(),
            2 => self.fdl.twist_digit(),
            3 => self.fdr.twist_digit(),
            4 => self.bul.twist_digit(),
            5 => self.bur.twist_digit(),
            6 => self.bdl.twist_digit(),
            _ => self.bdr.twist_digit(),
        }
    }

    /// Every digit is below 3.
    pub proof fn lemma_digit_bound(self, i: int)
        ensures
            0 <= self.digit(i) < 3,
    {
        reveal(CornerOrientationState::digit);
    }

    /// States with the same digits are the same state.
    pub proof fn lemma_digits_injective(self, other: Self)
        requires
            forall|i: int| 0 <= i < 8 ==> self.digit(i) == other.digit(i),
        ensures
            self == other,
    {
        reveal(CornerOrientationState::digit);
        assert(self.digit(0) == other.digit(0));
        assert(self.digit(1) == other.digit(1));
        assert(self.digit(2) == other.digit(2));
        assert(self.digit(3) == other.digit(3));
        assert(self.digit(4) == other.digit(4));
        assert(self.digit(5) == other.digit(5));
        assert(self.digit(6) == other.digit(6));
        assert(self.digit(7) == other.digit(7));
    }

    /// The number that the digits of the first `n` fields make, the first
    /// field most significant.
    pub open spec fn key_prefix(self, n: int) -> int
        decreases n,
    {
        if n <= 0 {
            0
        } else {
            with_digit(self.key_prefix(n - 1), 3, self.digit(n - 1))
        }
    }

    /// The digits of `n` fields stay below 3 to the `n`th.
    pub proof fn lemma_key_prefix_bound(self, n: int)
        requires
            0 <= n <= 8,
        ensures
            0 <= self.key_prefix(n) < pow(n as nat, 3),
        decreases n,
    {
        reveal_with_fuel(pow, 2);
        if n > 0 {
            self.lemma_key_prefix_bound(n - 1);
            self.lemma_digit_bound(n - 1);
            lemma_with_digit_bound(
                self.key_prefix(n - 1),
                3,
                self.digit(n - 1),
                pow((n - 1) as nat, 3),
            );
        }
    }

    /// States with the same digits in the first `n` fields agree on them.
    pub proof fn lemma_key_prefix_injective(self, other: Self, n: int)
        requires
            0 <= n <= 8,
            self.key_prefix(n) == other.key_prefix(n),
        ensures
            forall|i: int| 0 <= i < n ==> self.digit(i) == other.digit(i),
        decreases n,
    {
        if n > 0 {
            self.lemma_digit_bound(n - 1);
            other.lemma_digit_bound(n - 1);
            lemma_with_digit_injective(
                self.key_prefix(n - 1),
                self.digit(n - 1),
                other.key_prefix(n - 1),
                other.digit(n - 1),
                3,
            );
            self.lemma_key_prefix_injective(other, n - 1);
        }
    }
}

impl StateKey for CornerOrientationState {
    /// The eight twists as a number in base 3.
    open spec fn key_spec(self) -> u128 {
        self.key_prefix(8) as u128
    }

    fn key(&self) -> (k: u128) {
        let mut k: u128 = self.digit_at(0);
        assert(k == self.key_prefix(1) && k < 3) by {
            reveal_with_fuel(CornerOrientationState::key_prefix, 2);
        }
        k = k * 3 + self.digit_at(1);
        assert(k == self.key_prefix(2) && k < 9);
        k = k * 3 + self.digit_at(2);
        assert(k == self.key_prefix(3) && k < 27);
        k = k * 3 + self.digit_at(3);
        assert(k == self.key_prefix(4) && k < 81);
        k = k * 3 + self.digit_at(4);
        assert(k == self.key_prefix(5) && k < 243);
        k = k * 3 + self.digit_at(5);
        assert(k == self.key_prefix(6) && k < 729);
        k = k * 3 + self.digit_at(6);
        assert(k == self.key_prefix(7) && k < 2187);
        k = k * 3 + self.digit_at(7);
        assert(k == self.key_prefix(8) && k < 6561);
        k
    }

    proof fn lemma_key_injective(self, other: Self) {
        lemma_pow_values();
        self.lemma_key_prefix_bound(8);
        other.lemma_key_prefix_bound(8);
        self.lemma_key_prefix_injective(other, 8);
        self.lemma_digits_injective(other);
    }
}

impl CornerOrientation {
    /// The orientation with `n` clockwise twists, counted modulo 3.
    pub fn with_twists(n: u8) -> (out: Self)
        ensures
            out == Self::of_twist(n as int),
    {
        let left: u8 = n % 3;
        if left == 0 {
            CornerOrientation::Good
        } else if left == 1 {
            CornerOrientation::CW
        } else {
            CornerOrientation::CCW
        }
    }
}

} // verus!
