//! The concrete cube: six faces of nine facelets each.
//!
//! Facelets on a face are named by two axial directions (`c` for "center"),
//! so `uf` on the left face is the facelet in the up/front corner of that face
//! and `uc` is the upper edge facelet.

use vstd::prelude::*;

verus! {

/// A facelet kind can be compared with another for compatibility.
pub trait FaceletKind: Sized {
    /// Whether the two facelets are compatible.
    spec fn matches_spec(&self, other: &Self) -> bool;

    fn matches(&self, other: &Self) -> (b: bool)
        ensures
            b == self.matches_spec(other),
    ;
}

/// A face knows whether all of its facelets agree with its center.
pub trait FaceKind {
    spec fn is_solved_spec(&self) -> bool;

    fn is_solved(&self) -> (b: bool)
        ensures
            b == self.is_solved_spec(),
    ;
}

/// The three axes of the cube, named by the pair of opposite colors on them.
#[derive(Clone, Copy, PartialEq, Eq, Structural, Debug, Hash)]
pub enum Axis {
    YellowWhite,
    GreenBlue,
    RedOrange,
}

/// Fully known facelet
#[derive(Clone, Copy, PartialEq, Eq, Structural, Debug, Hash)]
pub enum Facelet {
    Yellow,
    White,
    Green,
    Blue,
    Red,
    Orange,
}

impl Facelet {
    /// The color on the opposite face of a solved cube.
    pub open spec fn opposite(self) -> Facelet {
        match self {
            Facelet::Yellow => Facelet::White,
            Facelet::White => Facelet::Yellow,
            Facelet::Green => Facelet::Blue,
            Facelet::Blue => Facelet::Green,
            Facelet::Red => Facelet::Orange,
            Facelet::Orange => Facelet::Red,
        }
    }

    /// The axis a color lies on.
    pub open spec fn axis(self) -> Axis {
        match self {
            Facelet::Yellow | Facelet::White => Axis::YellowWhite,
            Facelet::Green | Facelet::Blue => Axis::GreenBlue,
            Facelet::Red | Facelet::Orange => Axis::RedOrange,
        }
    }
}

/// The eight legal corner color triples, each listed clockwise, for the cube
/// with green in front and yellow on top. Top corners first (FUL, FUR, BUL,
/// BUR), then the bottom corners (FDL, FDR, BDL, BDR): the order of the
/// corner cubelet indices.
pub open spec fn corner_triple(i: int) -> Seq<Facelet> {
    if i == 0 {
        seq![Facelet::Yellow, Facelet::Green, Facelet::Red]
    } else if i == 1 {
        seq![Facelet::Yellow, Facelet::Orange, Facelet::Green]
    } else if i == 2 {
        seq![Facelet::Yellow, Facelet::Red, Facelet::Blue]
    } else if i == 3 {
        seq![Facelet::Yellow, Facelet::Blue, Facelet::Orange]
    } else if i == 4 {
        seq![Facelet::White, Facelet::Red, Facelet::Green]
    } else if i == 5 {
        seq![Facelet::White, Facelet::Green, Facelet::Orange]
    } else if i == 6 {
        seq![Facelet::White, Facelet::Blue, Facelet::Red]
    } else {
        seq![Facelet::White, Facelet::Orange, Facelet::Blue]
    }
}

/// The twelve legal edge color pairs, for the cube with green in front and
/// yellow on top, in the order of the edge cubelet indices: the left layer
/// (UL, FL, DL, BL), the middle slice (FU, FD, BD, BU), the right layer (UR,
/// BR, DR, FR). The left or right color comes first, in the middle slice the
/// front or back color.
pub open spec fn edge_pair(i: int) -> Seq<Facelet> {
    if i == 0 {
        seq![Facelet::Red, Facelet::Yellow]
    } else if i == 1 {
        seq![Facelet::Red, Facelet::Green]
    } else if i == 2 {
        seq![Facelet::Red, Facelet::White]
    } else if i == 3 {
        seq![Facelet::Red, Facelet::Blue]
    } else if i == 4 {
        seq![Facelet::Green, Facelet::Yellow]
    } else if i == 5 {
        seq![Facelet::Green, Facelet::White]
    } else if i == 6 {
        seq![Facelet::Blue, Facelet::White]
    } else if i == 7 {
        seq![Facelet::Blue, Facelet::Yellow]
    } else if i == 8 {
        seq![Facelet::Orange, Facelet::Yellow]
    } else if i == 9 {
        seq![Facelet::Orange, Facelet::Blue]
    } else if i == 10 {
        seq![Facelet::Orange, Facelet::White]
    } else {
        seq![Facelet::Orange, Facelet::Green]
    }
}

/// The colors of corner `i`, clockwise.
pub fn corner_colors(i: usize) -> (c: [Facelet; 3])
    requires
        i < 8,
    ensures
        c@ == corner_triple(i as int),
{
    let c = match i {
        0 => [Facelet::Yellow, Facelet::Green, Facelet::Red],
        1 => [Facelet::Yellow, Facelet::Orange, Facelet::Green],
        2 => [Facelet::Yellow, Facelet::Red, Facelet::Blue],
        3 => [Facelet::Yellow, Facelet::Blue, Facelet::Orange],
        4 => [Facelet::White, Facelet::Red, Facelet::Green],
        5 => [Facelet::White, Facelet::Green, Facelet::Orange],
        6 => [Facelet::White, Facelet::Blue, Facelet::Red],
        _ => [Facelet::White, Facelet::Orange, Facelet::Blue],
    };
    assert(c@ =~= corner_triple(i as int));
    c
}

/// The colors of edge `i`.
pub fn edge_colors(i: usize) -> (c: [Facelet; 2])
    requires
        i < 12,
    ensures
        c@ == edge_pair(i as int),
{
    let c = match i {
        0 => [Facelet::Red, Facelet::Yellow],
        1 => [Facelet::Red, Facelet::Green],
        2 => [Facelet::Red, Facelet::White],
        3 => [Facelet::Red, Facelet::Blue],
        4 => [Facelet::Green, Facelet::Yellow],
        5 => [Facelet::Green, Facelet::White],
        6 => [Facelet::Blue, Facelet::White],
        7 => [Facelet::Blue, Facelet::Yellow],
        8 => [Facelet::Orange, Facelet::Yellow],
        9 => [Facelet::Orange, Facelet::Blue],
        10 => [Facelet::Orange, Facelet::White],
        _ => [Facelet::Orange, Facelet::Green],
    };
    assert(c@ =~= edge_pair(i as int));
    c
}

/// The color that follows `front` and `top` going clockwise round corner
/// `c`, if the two stand next to each other on it in that order.
pub open spec fn third_on_corner(c: Seq<Facelet>, front: Facelet, top: Facelet) -> Option<Facelet> {
    if c[0] == front && c[1] == top {
        Some(c[2])
    } else if c[1] == front && c[2] == top {
        Some(c[0])
    } else if c[2] == front && c[0] == top {
        Some(c[1])
    } else {
        None
    }
}

/// The first corner from index `from` on that has `front` and `top` next to
/// each other clockwise gives the third color.
pub open spec fn third_corner_from(from: int, front: Facelet, top: Facelet) -> Option<Facelet>
    decreases 8 - from,
{
    if from < 0 || from >= 8 {
        None
    } else if third_on_corner(corner_triple(from), front, top) is Some {
        third_on_corner(corner_triple(from), front, top)
    } else {
        third_corner_from(from + 1, front, top)
    }
}

/// The color of the face to the right of an observer who sees `front` in
/// front and `top` on top, as the legal corners determine it.
pub open spec fn third_corner(front: Facelet, top: Facelet) -> Option<Facelet> {
    third_corner_from(0, front, top)
}

/// A third color exists exactly for two colors on different axes.
pub proof fn lemma_third_corner_defined(front: Facelet, top: Facelet)
    ensures
        third_corner(front, top) is Some <==> front.axis() != top.axis(),
        third_corner(front, top) matches Some(t) ==> t.axis() != front.axis() && t.axis()
            != top.axis(),
{
    reveal_with_fuel(third_corner_from, 9);
}

/// Turning the observer by a quarter about `front` four times comes back to
/// `top`, and what lies opposite has the opposite color.
pub proof fn lemma_third_corner_cycle(front: Facelet, top: Facelet)
    requires
        front.axis() != top.axis(),
    ensures
        ({
            let right = third_corner(front, top).unwrap();
            let down = third_corner(front, right).unwrap();
            let left = third_corner(front, down).unwrap();
            let back = third_corner(right, top).unwrap();
            &&& down == top.opposite()
            &&& left == right.opposite()
            &&& back == front.opposite()
            &&& third_corner(front, left) == Some(top)
        }),
{
    reveal_with_fuel(third_corner_from, 9);
}

/// The color of the face to the right of an observer who sees `front` in
/// front and `top` on top.
pub fn get_third_corner(front: Facelet, top: Facelet) -> (third: Facelet)
    requires
        front.axis() != top.axis(),
    ensures
        third_corner(front, top) == Some(third),
{
    proof {
        lemma_third_corner_defined(front, top);
    }
    let mut i: usize = 0;
    while i < 8
        invariant
            i <= 8,
            third_corner_from(i as int, front, top) == third_corner(front, top),
            third_corner(front, top) is Some,
        decreases 8 - i,
    {
        let corner = corner_colors(i);
        if corner[0] == front && corner[1] == top {
            return corner[2];
        } else if corner[1] == front && corner[2] == top {
            return corner[0];
        } else if corner[2] == front && corner[0] == top {
            return corner[1];
        }
        i += 1;
    }
    // every pair of colors on different axes is found on some corner
    vstd::pervasive::unreached()
}

impl FaceletKind for Facelet {
    open spec fn matches_spec(&self, other: &Self) -> bool {
        *self == *other
    }

    fn matches(&self, other: &Self) -> (b: bool) {
        *self == *other
    }
}

/// Facelet which is allowed to have the state "unknown." Used for stepwise solving a cube,
/// e.g. white cross, F2L, where you don't care what happens to the irrelevant facelets.
#[derive(Clone, Copy, PartialEq, Eq, Structural, Debug, Hash)]
pub enum AmbigFacelet {
    Yellow,
    White,
    Green,
    Blue,
    Red,
    Orange,
    Unknown,
}

impl FaceletKind for AmbigFacelet {
    open spec fn matches_spec(&self, other: &Self) -> bool {
        *self == AmbigFacelet::Unknown || *other == AmbigFacelet::Unknown || *self == *other
    }

    fn matches(&self, other: &Self) -> (b: bool) {
        *self == AmbigFacelet::Unknown || *other == AmbigFacelet::Unknown || *self == *other
    }
}

/// The left or the right face.
#[derive(Clone, Copy, PartialEq, Eq, Structural, Debug, Hash)]
pub struct LRFace<FaceletType> {
    // Field precedence order: UD / FB / LR
    // "C" is used to denote center; so corners have two coordinates,
    // edges have one coordinate then center, and true center is just cc
    pub ub: FaceletType,
    pub uc: FaceletType,
    pub uf: FaceletType,
    pub bc: FaceletType,
    pub cc: FaceletType,
    pub fc: FaceletType,
    pub db: FaceletType,
    pub dc: FaceletType,
    pub df: FaceletType,
}

impl<FaceletType: FaceletKind + Copy> LRFace<FaceletType> {
    /// The face that shows `f` on each of its nine facelets.
    pub open spec fn uniform(f: FaceletType) -> Self {
        LRFace { ub: f, uc: f, uf: f, bc: f, cc: f, fc: f, db: f, dc: f, df: f }
    }

    /// The face that shows `f` on each of its nine facelets.
    pub fn make_solved(f: FaceletType) -> (face: Self)
        ensures
            face == Self::uniform(f),
    {
        Self { ub: f, uc: f, uf: f, bc: f, cc: f, fc: f, db: f, dc: f, df: f }
    }
}

impl<FaceletType: FaceletKind> FaceKind for LRFace<FaceletType> {
    open spec fn is_solved_spec(&self) -> bool {
        &&& self.cc.matches_spec(&self.ub)
        &&& self.cc.matches_spec(&self.uc)
        &&& self.cc.matches_spec(&self.uf)
        &&& self.cc.matches_spec(&self.bc)
        &&& self.cc.matches_spec(&self.fc)
        &&& self.cc.matches_spec(&self.db)
        &&& self.cc.matches_spec(&self.dc)
        &&& self.cc.matches_spec(&self.df)
    }

    fn is_solved(&self) -> (b: bool) {
        self.cc.matches(&self.ub) && self.cc.matches(&self.uc) && self.cc.matches(&self.uf)
            && self.cc.matches(&self.bc) && self.cc.matches(&self.fc) && self.cc.matches(
            &self.db,
        ) && self.cc.matches(&self.dc) && self.cc.matches(&self.df)
    }
}

/// The upper or the lower face.
#[derive(Clone, Copy, PartialEq, Eq, Structural, Debug, Hash)]
pub struct UDFace<FaceletType> {
    pub bl: FaceletType,
    pub bc: FaceletType,
    pub br: FaceletType,
    pub lc: FaceletType,
    pub cc: FaceletType,
    pub rc: FaceletType,
    pub fl: FaceletType,
    pub fc: FaceletType,
    pub fr: FaceletType,
}

impl<FaceletType: FaceletKind + Copy> UDFace<FaceletType> {
    /// The face that shows `f` on each of its nine facelets.
    pub open spec fn uniform(f: FaceletType) -> Self {
        UDFace { bl: f, bc: f, br: f, lc: f, cc: f, rc: f, fl: f, fc: f, fr: f }
    }

    /// The face that shows `f` on each of its nine facelets.
    pub fn make_solved(f: FaceletType) -> (face: Self)
        ensures
            face == Self::uniform(f),
    {
        Self { bl: f, bc: f, br: f, lc: f, cc: f, rc: f, fl: f, fc: f, fr: f }
    }
}

impl<FaceletType: FaceletKind> FaceKind for UDFace<FaceletType> {
    open spec fn is_solved_spec(&self) -> bool {
        &&& self.cc.matches_spec(&self.bl)
        &&& self.cc.matches_spec(&self.bc)
        &&& self.cc.matches_spec(&self.br)
        &&& self.cc.matches_spec(&self.lc)
        &&& self.cc.matches_spec(&self.rc)
        &&& self.cc.matches_spec(&self.fl)
        &&& self.cc.matches_spec(&self.fc)
        &&& self.cc.matches_spec(&self.fr)
    }

    fn is_solved(&self) -> (b: bool) {
        self.cc.matches(&self.bl) && self.cc.matches(&self.bc) && self.cc.matches(&self.br)
            && self.cc.matches(&self.lc) && self.cc.matches(&self.rc) && self.cc.matches(
            &self.fl,
        ) && self.cc.matches(&self.fc) && self.cc.matches(&self.fr)
    }
}

/// The front or the back face.
#[derive(Clone, Copy, PartialEq, Eq, Structural, Debug, Hash)]
pub struct FBFace<FaceletType> {
    pub ul: FaceletType,
    pub uc: FaceletType,
    pub ur: FaceletType,
    pub lc: FaceletType,
    pub cc: FaceletType,
    pub rc: FaceletType,
    pub dl: FaceletType,
    pub dc: FaceletType,
    pub dr: FaceletType,
}

impl<FaceletType: FaceletKind + Copy> FBFace<FaceletType> {
    /// The face that shows `f` on each of its nine facelets.
    pub open spec fn uniform(f: FaceletType) -> Self {
        FBFace { ul: f, uc: f, ur: f, lc: f, cc: f, rc: f, dl: f, dc: f, dr: f }
    }

    /// The face that shows `f` on each of its nine facelets.
    pub fn make_solved(f: FaceletType) -> (face: Self)
        ensures
            face == Self::uniform(f),
    {
        Self { ul: f, uc: f, ur: f, lc: f, cc: f, rc: f, dl: f, dc: f, dr: f }
    }
}

impl<FaceletType: FaceletKind> FaceKind for FBFace<FaceletType> {
    open spec fn is_solved_spec(&self) -> bool {
        &&& self.cc.matches_spec(&self.ul)
        &&& self.cc.matches_spec(&self.uc)
        &&& self.cc.matches_spec(&self.ur)
        &&& self.cc.matches_spec(&self.lc)
        &&& self.cc.matches_spec(&self.rc)
        &&& self.cc.matches_spec(&self.dl)
        &&& self.cc.matches_spec(&self.dc)
        &&& self.cc.matches_spec(&self.dr)
    }

    fn is_solved(&self) -> (b: bool) {
        self.cc.matches(&self.ul) && self.cc.matches(&self.uc) && self.cc.matches(&self.ur)
            && self.cc.matches(&self.lc) && self.cc.matches(&self.rc) && self.cc.matches(
            &self.dl,
        ) && self.cc.matches(&self.dc) && self.cc.matches(&self.dr)
    }
}

/// The whole cube. Centers never move: they give each face its target color.
#[derive(Clone, Copy, PartialEq, Eq, Structural, Debug, Hash)]
pub struct Cube<FaceletType = Facelet> {
    pub u: UDFace<FaceletType>,
    pub d: UDFace<FaceletType>,
    pub l: LRFace<FaceletType>,
    pub r: LRFace<FaceletType>,
    pub f: FBFace<FaceletType>,
    pub b: FBFace<FaceletType>,
}

impl Cube<Facelet> {
    /// The solved cube seen with `front` in front and `top` on top.
    pub open spec fn solved(front: Facelet, top: Facelet) -> Self {
        let right = third_corner(front, top).unwrap();
        Cube {
            u: UDFace::uniform(top),
            d: UDFace::uniform(top.opposite()),
            l: LRFace::uniform(right.opposite()),
            r: LRFace::uniform(right),
            f: FBFace::uniform(front),
            b: FBFace::uniform(front.opposite()),
        }
    }

    /// Builds the solved cube from its front and top colors; the other four
    /// centers follow from the legal corners.
    pub fn make_solved(front: Facelet, top: Facelet) -> (cube: Self)
        requires
            front.axis() != top.axis(),
        ensures
            cube == Self::solved(front, top),
            cube.is_solved_spec(),
    {
        proof {
            lemma_third_corner_defined(front, top);
            lemma_third_corner_cycle(front, top);
        }
        let right = get_third_corner(front, top);
        let down = get_third_corner(front, right);
        proof {
            lemma_third_corner_defined(front, right);
            lemma_third_corner_defined(front, down);
        }
        let left = get_third_corner(front, down);
        let back = get_third_corner(right, top);

        Self {
            u: UDFace::make_solved(top),
            d: UDFace::make_solved(down),
            l: LRFace::make_solved(left),
            r: LRFace::make_solved(right),
            f: FBFace::make_solved(front),
            b: FBFace::make_solved(back),
        }
    }
}

/// The colors `a`, `b`, `c` are the colors `x`, `y`, `z` in the same order
/// round, from one of the three on.
pub open spec fn is_turned(
    a: Facelet,
    b: Facelet,
    c: Facelet,
    x: Facelet,
    y: Facelet,
    z: Facelet,
) -> bool {
    (a == x && b == y && c == z) || (a == y && b == z && c == x) || (a == z && b == x && c == y)
}

impl Cube<Facelet> {
    /// Whether `f` is the color of the left or of the right center.
    pub open spec fn is_lr_color(&self, f: Facelet) -> bool {
        f == self.l.cc || f == self.r.cc
    }

    /// Whether `f` is the color of the upper or of the lower center.
    pub open spec fn is_ud_color(&self, f: Facelet) -> bool {
        f == self.u.cc || f == self.d.cc
    }

    /// Whether `f` is the color of the front or of the back center.
    pub open spec fn is_fb_color(&self, f: Facelet) -> bool {
        f == self.f.cc || f == self.b.cc
    }

    /// Whether `f` is the color of the left or of the right center.
    pub fn lr_color(&self, f: Facelet) -> (b: bool)
        ensures
            b == self.is_lr_color(f),
    {
        f == self.l.cc || f == self.r.cc
    }

    /// Whether `f` is the color of the upper or of the lower center.
    pub fn ud_color(&self, f: Facelet) -> (b: bool)
        ensures
            b == self.is_ud_color(f),
    {
        f == self.u.cc || f == self.d.cc
    }

    /// Whether `f` is the color of the front or of the back center.
    pub fn fb_color(&self, f: Facelet) -> (b: bool)
        ensures
            b == self.is_fb_color(f),
    {
        f == self.f.cc || f == self.b.cc
    }

    /// The six centers show six different colors.
    pub open spec fn centers_distinct(&self) -> bool {
        &&& self.l.cc != self.r.cc
        &&& self.u.cc != self.d.cc
        &&& self.f.cc != self.b.cc
        &&& !self.is_lr_color(self.u.cc) && !self.is_lr_color(self.d.cc)
        &&& !self.is_lr_color(self.f.cc) && !self.is_lr_color(self.b.cc)
        &&& !self.is_ud_color(self.f.cc) && !self.is_ud_color(self.b.cc)
    }

    /// The two colors lie on two different axes of this cube.
    pub open spec fn on_two_axes(&self, a: Facelet, b: Facelet) -> bool {
        &&& !(self.is_lr_color(a) && self.is_lr_color(b))
        &&& !(self.is_ud_color(a) && self.is_ud_color(b))
        &&& !(self.is_fb_color(a) && self.is_fb_color(b))
    }

    /// Every edge cubelet shows colors of two axes.
    pub open spec fn edges_genuine(&self) -> bool {
        &&& self.on_two_axes(self.u.fc, self.f.uc)
        &&& self.on_two_axes(self.u.rc, self.r.uc)
        &&& self.on_two_axes(self.u.bc, self.b.uc)
        &&& self.on_two_axes(self.u.lc, self.l.uc)
        &&& self.on_two_axes(self.f.lc, self.l.fc)
        &&& self.on_two_axes(self.f.rc, self.r.fc)
        &&& self.on_two_axes(self.b.lc, self.l.bc)
        &&& self.on_two_axes(self.b.rc, self.r.bc)
        &&& self.on_two_axes(self.d.fc, self.f.dc)
        &&& self.on_two_axes(self.d.rc, self.r.dc)
        &&& self.on_two_axes(self.d.bc, self.b.dc)
        &&& self.on_two_axes(self.d.lc, self.l.dc)
    }

    /// The three colors lie on the three axes of this cube, one on each.
    pub open spec fn on_three_axes(&self, a: Facelet, b: Facelet, c: Facelet) -> bool {
        &&& self.on_two_axes(a, b)
        &&& self.on_two_axes(b, c)
        &&& self.on_two_axes(a, c)
    }

    /// Every corner cubelet shows colors of all three axes.
    pub open spec fn corners_genuine(&self) -> bool {
        &&& self.on_three_axes(self.f.ur, self.u.fr, self.r.uf)
        &&& self.on_three_axes(self.f.ul, self.u.fl, self.l.uf)
        &&& self.on_three_axes(self.f.dr, self.d.fr, self.r.df)
        &&& self.on_three_axes(self.f.dl, self.d.fl, self.l.df)
        &&& self.on_three_axes(self.b.ur, self.u.br, self.r.ub)
        &&& self.on_three_axes(self.b.ul, self.u.bl, self.l.ub)
        &&& self.on_three_axes(self.b.dr, self.d.br, self.r.db)
        &&& self.on_three_axes(self.b.dl, self.d.bl, self.l.db)
    }

    /// The three colors, clockwise, are those of the centers round one of
    /// the eight corners, clockwise from one of the three.
    pub open spec fn right_way_round(&self, a: Facelet, b: Facelet, c: Facelet) -> bool {
        ||| is_turned(a, b, c, self.l.cc, self.u.cc, self.f.cc)
        ||| is_turned(a, b, c, self.r.cc, self.f.cc, self.u.cc)
        ||| is_turned(a, b, c, self.r.cc, self.u.cc, self.b.cc)
        ||| is_turned(a, b, c, self.l.cc, self.b.cc, self.u.cc)
        ||| is_turned(a, b, c, self.l.cc, self.f.cc, self.d.cc)
        ||| is_turned(a, b, c, self.r.cc, self.d.cc, self.f.cc)
        ||| is_turned(a, b, c, self.r.cc, self.b.cc, self.d.cc)
        ||| is_turned(a, b, c, self.l.cc, self.d.cc, self.b.cc)
    }

    /// Every corner cubelet shows its colors the right way round: no corner
    /// is the mirror image of a cubelet.
    pub open spec fn corners_right_way_round(&self) -> bool {
        &&& self.right_way_round(self.l.uf, self.u.fl, self.f.ul)
        &&& self.right_way_round(self.r.uf, self.f.ur, self.u.fr)
        &&& self.right_way_round(self.r.ub, self.u.br, self.b.ur)
        &&& self.right_way_round(self.l.ub, self.b.ul, self.u.bl)
        &&& self.right_way_round(self.l.df, self.f.dl, self.d.fl)
        &&& self.right_way_round(self.r.df, self.d.fr, self.f.dr)
        &&& self.right_way_round(self.r.db, self.b.dr, self.d.br)
        &&& self.right_way_round(self.l.db, self.d.bl, self.b.dl)
    }

    /// The cube can be taken apart and put together as it is: it is made of
    /// genuine cubelets, and none of its corners is a mirror image.
    pub open spec fn physical(&self) -> bool {
        self.well_formed() && self.corners_right_way_round()
    }

    /// The cube is made of genuine cubelets: six different centers, edges of
    /// two axes, corners of three.
    pub open spec fn well_formed(&self) -> bool {
        &&& self.centers_distinct()
        &&& self.edges_genuine()
        &&& self.corners_genuine()
    }
}

impl<F: FaceletKind> Cube<F> {
    /// Every facelet of every face matches the center of its face.
    pub open spec fn is_solved_spec(&self) -> bool {
        &&& self.u.is_solved_spec()
        &&& self.d.is_solved_spec()
        &&& self.f.is_solved_spec()
        &&& self.b.is_solved_spec()
        &&& self.l.is_solved_spec()
        &&& self.r.is_solved_spec()
    }

    /// Whether every facelet of every face matches the center of its face.
    pub fn is_solved(&self) -> (b: bool)
        ensures
            b == self.is_solved_spec(),
    {
        self.u.is_solved() && self.d.is_solved() && self.f.is_solved() && self.b.is_solved()
            && self.l.is_solved() && self.r.is_solved()
    }
}

} // verus!
