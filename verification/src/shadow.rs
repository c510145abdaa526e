//! Module for "shadowing" a cube. That is, blocking out "irrelevant" pieces for the purpose
//! of solving to a particular point, such as white cross, F2L, OLL, and so on.

use crate::cube::{AmbigFacelet, Cube, Facelet, FBFace, LRFace, UDFace};
use vstd::prelude::*;

verus! {

impl Facelet {
    /// The same color as a facelet that may be unknown.
    pub open spec fn to_ambig_spec(self) -> AmbigFacelet {
        match self {
            Facelet::Yellow => AmbigFacelet::Yellow,
            Facelet::White => AmbigFacelet::White,
            Facelet::Green => AmbigFacelet::Green,
            Facelet::Blue => AmbigFacelet::Blue,
            Facelet::Red => AmbigFacelet::Red,
            Facelet::Orange => AmbigFacelet::Orange,
        }
    }

    /// The same color as a facelet that may be unknown.
    pub fn into(self) -> (out: AmbigFacelet)
        ensures
            out == self.to_ambig_spec(),
    {
        match self {
            Facelet::Yellow => AmbigFacelet::Yellow,
            Facelet::White => AmbigFacelet::White,
            Facelet::Green => AmbigFacelet::Green,
            Facelet::Blue => AmbigFacelet::Blue,
            Facelet::Red => AmbigFacelet::Red,
            Facelet::Orange => AmbigFacelet::Orange,
        }
    }
}

/// The facelet if the mask keeps it, else an unknown one.
pub open spec fn apply_mask_spec(f: Facelet, mask: bool) -> AmbigFacelet {
    if mask {
        f.to_ambig_spec()
    } else {
        AmbigFacelet::Unknown
    }
}

/// The facelets that the mask keeps, and unknown ones for the others.
pub fn apply_mask(f: Facelet, mask: bool) -> (out: AmbigFacelet)
    ensures
        out == apply_mask_spec(f, mask),
{
    if mask {
        f.into()
    } else {
        AmbigFacelet::Unknown
    }
}

impl LRFace<Facelet> {
    /// Each facelet of the face if the mask keeps it, else an unknown one.
    pub open spec fn apply_mask_spec(self, mask: LRFace<bool>) -> LRFace<AmbigFacelet> {
        LRFace {
            ub: apply_mask_spec(self.ub, mask.ub),
            uc: apply_mask_spec(self.uc, mask.uc),
            uf: apply_mask_spec(self.uf, mask.uf),
            bc: apply_mask_spec(self.bc, mask.bc),
            cc: apply_mask_spec(self.cc, mask.cc),
            fc: apply_mask_spec(self.fc, mask.fc),
            db: apply_mask_spec(self.db, mask.db),
            dc: apply_mask_spec(self.dc, mask.dc),
            df: apply_mask_spec(self.df, mask.df),
        }
    }

    /// The facelets that the mask keeps, and unknown ones for the others.
    pub fn apply_mask(self, mask: LRFace<bool>) -> (out: LRFace<AmbigFacelet>)
        ensures
            out == self.apply_mask_spec(mask),
    {
        LRFace {
            ub: apply_mask(self.ub, mask.ub),
            uc: apply_mask(self.uc, mask.uc),
            uf: apply_mask(self.uf, mask.uf),
            bc: apply_mask(self.bc, mask.bc),
            cc: apply_mask(self.cc, mask.cc),
            fc: apply_mask(self.fc, mask.fc),
            db: apply_mask(self.db, mask.db),
            dc: apply_mask(self.dc, mask.dc),
            df: apply_mask(self.df, mask.df),
        }
    }
}

impl UDFace<Facelet> {
    /// Each facelet of the face if the mask keeps it, else an unknown one.
    pub open spec fn apply_mask_spec(self, mask: UDFace<bool>) -> UDFace<AmbigFacelet> {
        UDFace {
            bl: apply_mask_spec(self.bl, mask.bl),
            bc: apply_mask_spec(self.bc, mask.bc),
            br: apply_mask_spec(self.br, mask.br),
            lc: apply_mask_spec(self.lc, mask.lc),
            cc: apply_mask_spec(self.cc, mask.cc),
            rc: apply_mask_spec(self.rc, mask.rc),
            fl: apply_mask_spec(self.fl, mask.fl),
            fc: apply_mask_spec(self.fc, mask.fc),
            fr: apply_mask_spec(self.fr, mask.fr),
        }
    }

    /// The facelets that the mask keeps, and unknown ones for the others.
    pub fn apply_mask(self, mask: UDFace<bool>) -> (out: UDFace<AmbigFacelet>)
        ensures
            out == self.apply_mask_spec(mask),
    {
        UDFace {
            bl: apply_mask(self.bl, mask.bl),
            bc: apply_mask(self.bc, mask.bc),
            br: apply_mask(self.br, mask.br),
            lc: apply_mask(self.lc, mask.lc),
            cc: apply_mask(self.cc, mask.cc),
            rc: apply_mask(self.rc, mask.rc),
            fl: apply_mask(self.fl, mask.fl),
            fc: apply_mask(self.fc, mask.fc),
            fr: apply_mask(self.fr, mask.fr),
        }
    }
}

impl FBFace<Facelet> {
    /// Each facelet of the face if the mask keeps it, else an unknown one.
    pub open spec fn apply_mask_spec(self, mask: FBFace<bool>) -> FBFace<AmbigFacelet> {
        FBFace {
            ul: apply_mask_spec(self.ul, mask.ul),
            uc: apply_mask_spec(self.uc, mask.uc),
            ur: apply_mask_spec(self.ur, mask.ur),
            lc: apply_mask_spec(self.lc, mask.lc),
            cc: apply_mask_spec(self.cc, mask.cc),
            rc: apply_mask_spec(self.rc, mask.rc),
            dl: apply_mask_spec(self.dl, mask.dl),
            dc: apply_mask_spec(self.dc, mask.dc),
            dr: apply_mask_spec(self.dr, mask.dr),
        }
    }

    /// The facelets that the mask keeps, and unknown ones for the others.
    pub fn apply_mask(self, mask: FBFace<bool>) -> (out: FBFace<AmbigFacelet>)
        ensures
            out == self.apply_mask_spec(mask),
    {
        FBFace {
            ul: apply_mask(self.ul, mask.ul),
            uc: apply_mask(self.uc, mask.uc),
            ur: apply_mask(self.ur, mask.ur),
            lc: apply_mask(self.lc, mask.lc),
            cc: apply_mask(self.cc, mask.cc),
            rc: apply_mask(self.rc, mask.rc),
            dl: apply_mask(self.dl, mask.dl),
            dc: apply_mask(self.dc, mask.dc),
            dr: apply_mask(self.dr, mask.dr),
        }
    }
}

impl Cube {
    /// Each facelet of the cube if the mask keeps it, else an unknown one.
    pub open spec fn apply_mask_spec(self, mask: CubeMask) -> Cube<AmbigFacelet> {
        Cube {
            u: self.u.apply_mask_spec(mask.u),
            d: self.d.apply_mask_spec(mask.d),
            b: self.b.apply_mask_spec(mask.b),
            f: self.f.apply_mask_spec(mask.f),
            l: self.l.apply_mask_spec(mask.l),
            r: self.r.apply_mask_spec(mask.r),
        }
    }

    /// The facelets that the mask keeps, and unknown ones for the others.
    pub fn apply_mask(self, mask: CubeMask) -> (out: Cube<AmbigFacelet>)
        ensures
            out == self.apply_mask_spec(mask),
    {
        Cube {
            u: self.u.apply_mask(mask.u),
            d: self.d.apply_mask(mask.d),
            b: self.b.apply_mask(mask.b),
            f: self.f.apply_mask(mask.f),
            l: self.l.apply_mask(mask.l),
            r: self.r.apply_mask(mask.r),
        }
    }
}

pub type UDMask = UDFace<bool>;

impl UDFace<bool> {
    /// The mask that keeps every facelet of the face, or none.
    pub open spec fn all(val: bool) -> Self {
        UDFace { bl: val, bc: val, br: val, lc: val, cc: val, rc: val, fl: val, fc: val, fr: val }
    }

    /// The mask that keeps every facelet, or none.
    pub fn from_val(val: bool) -> (out: Self)
        ensures
            out == Self::all(val),
    {
        Self { bl: val, bc: val, br: val, lc: val, cc: val, rc: val, fl: val, fc: val, fr: val }
    }
}

pub type FBMask = FBFace<bool>;

impl FBFace<bool> {
    /// The mask that keeps every facelet of the face, or none.
    pub open spec fn all(val: bool) -> Self {
        FBFace { ul: val, uc: val, ur: val, lc: val, cc: val, rc: val, dl: val, dc: val, dr: val }
    }

    /// The mask that keeps every facelet, or none.
    pub fn from_val(val: bool) -> (out: Self)
        ensures
            out == Self::all(val),
    {
        Self { ul: val, uc: val, ur: val, lc: val, cc: val, rc: val, dl: val, dc: val, dr: val }
    }
}

pub type LRMask = LRFace<bool>;

impl LRFace<bool> {
    /// The mask that keeps every facelet of the face, or none.
    pub open spec fn all(val: bool) -> Self {
        LRFace { ub: val, uc: val, uf: val, bc: val, cc: val, fc: val, db: val, dc: val, df: val }
    }

    /// The mask that keeps every facelet, or none.
    pub fn from_val(val: bool) -> (out: Self)
        ensures
            out == Self::all(val),
    {
        Self { ub: val, uc: val, uf: val, bc: val, cc: val, fc: val, db: val, dc: val, df: val }
    }
}

pub type CubeMask = Cube<bool>;

/// Whether one of the two facelets of an edge is white.
pub open spec fn has_white(a: Facelet, b: Facelet) -> bool {
    a == Facelet::White || b == Facelet::White
}

fn has_white_facelet(a: Facelet, b: Facelet) -> (r: bool)
    ensures
        r == has_white(a, b),
{
    a == Facelet::White || b == Facelet::White
}

fn kept(before: bool, also: bool) -> (r: bool)
    ensures
        r == (before || also),
{
    before || also
}

/// The mask of the upper face that keeps the edge facelets on it whose edge
/// shows white, besides what `mask` keeps.
pub open spec fn upper_with_white_edges(mask: UDFace<bool>, cube: Cube) -> UDFace<bool> {
    UDFace {
        bc: mask.bc || has_white(cube.u.bc, cube.b.uc),
        lc: mask.lc || has_white(cube.u.lc, cube.l.uc),
        rc: mask.rc || has_white(cube.u.rc, cube.r.uc),
        fc: mask.fc || has_white(cube.u.fc, cube.f.uc),
        ..mask
    }
}

fn keep_white_edges_of_upper(mask: UDFace<bool>, cube: &Cube) -> (out: UDFace<bool>)
    ensures
        out == upper_with_white_edges(mask, *cube),
{
    UDFace {
        bc: kept(mask.bc, has_white_facelet(cube.u.bc, cube.b.uc)),
        lc: kept(mask.lc, has_white_facelet(cube.u.lc, cube.l.uc)),
        rc: kept(mask.rc, has_white_facelet(cube.u.rc, cube.r.uc)),
        fc: kept(mask.fc, has_white_facelet(cube.u.fc, cube.f.uc)),
        ..mask
    }
}

/// The mask of the lower face that keeps the edge facelets on it whose edge
/// shows white, besides what `mask` keeps.
pub open spec fn lower_with_white_edges(mask: UDFace<bool>, cube: Cube) -> UDFace<bool> {
    UDFace {
        bc: mask.bc || has_white(cube.d.bc, cube.b.dc),
        lc: mask.lc || has_white(cube.d.lc, cube.l.dc),
        rc: mask.rc || has_white(cube.d.rc, cube.r.dc),
        fc: mask.fc || has_white(cube.d.fc, cube.f.dc),
        ..mask
    }
}

fn keep_white_edges_of_lower(mask: UDFace<bool>, cube: &Cube) -> (out: UDFace<bool>)
    ensures
        out == lower_with_white_edges(mask, *cube),
{
    UDFace {
        bc: kept(mask.bc, has_white_facelet(cube.d.bc, cube.b.dc)),
        lc: kept(mask.lc, has_white_facelet(cube.d.lc, cube.l.dc)),
        rc: kept(mask.rc, has_white_facelet(cube.d.rc, cube.r.dc)),
        fc: kept(mask.fc, has_white_facelet(cube.d.fc, cube.f.dc)),
        ..mask
    }
}

/// The mask of the left face that keeps the edge facelets on it whose edge
/// shows white, besides what `mask` keeps.
pub open spec fn left_with_white_edges(mask: LRFace<bool>, cube: Cube) -> LRFace<bool> {
    LRFace {
        uc: mask.uc || has_white(cube.l.uc, cube.u.lc),
        bc: mask.bc || has_white(cube.l.bc, cube.b.lc),
        fc: mask.fc || has_white(cube.l.fc, cube.f.lc),
        dc: mask.dc || has_white(cube.l.dc, cube.d.lc),
        ..mask
    }
}

fn keep_white_edges_of_left(mask: LRFace<bool>, cube: &Cube) -> (out: LRFace<bool>)
    ensures
        out == left_with_white_edges(mask, *cube),
{
    LRFace {
        uc: kept(mask.uc, has_white_facelet(cube.l.uc, cube.u.lc)),
        bc: kept(mask.bc, has_white_facelet(cube.l.bc, cube.b.lc)),
        fc: kept(mask.fc, has_white_facelet(cube.l.fc, cube.f.lc)),
        dc: kept(mask.dc, has_white_facelet(cube.l.dc, cube.d.lc)),
        ..mask
    }
}

/// The mask of the right face that keeps the edge facelets on it whose edge
/// shows white, besides what `mask` keeps.
pub open spec fn right_with_white_edges(mask: LRFace<bool>, cube: Cube) -> LRFace<bool> {
    LRFace {
        uc: mask.uc || has_white(cube.r.uc, cube.u.rc),
        bc: mask.bc || has_white(cube.r.bc, cube.b.rc),
        fc: mask.fc || has_white(cube.r.fc, cube.f.rc),
        dc: mask.dc || has_white(cube.r.dc, cube.d.rc),
        ..mask
    }
}

fn keep_white_edges_of_right(mask: LRFace<bool>, cube: &Cube) -> (out: LRFace<bool>)
    ensures
        out == right_with_white_edges(mask, *cube),
{
    LRFace {
        uc: kept(mask.uc, has_white_facelet(cube.r.uc, cube.u.rc)),
        bc: kept(mask.bc, has_white_facelet(cube.r.bc, cube.b.rc)),
        fc: kept(mask.fc, has_white_facelet(cube.r.fc, cube.f.rc)),
        dc: kept(mask.dc, has_white_facelet(cube.r.dc, cube.d.rc)),
        ..mask
    }
}

/// The mask of the front face that keeps the edge facelets on it whose edge
/// shows white, besides what `mask` keeps.
pub open spec fn front_with_white_edges(mask: FBFace<bool>, cube: Cube) -> FBFace<bool> {
    FBFace {
        uc: mask.uc || has_white(cube.f.uc, cube.u.fc),
        lc: mask.lc || has_white(cube.f.lc, cube.l.fc),
        rc: mask.rc || has_white(cube.f.rc, cube.r.fc),
        dc: mask.dc || has_white(cube.f.dc, cube.d.fc),
        ..mask
    }
}

fn keep_white_edges_of_front(mask: FBFace<bool>, cube: &Cube) -> (out: FBFace<bool>)
    ensures
        out == front_with_white_edges(mask, *cube),
{
    FBFace {
        uc: kept(mask.uc, has_white_facelet(cube.f.uc, cube.u.fc)),
        lc: kept(mask.lc, has_white_facelet(cube.f.lc, cube.l.fc)),
        rc: kept(mask.rc, has_white_facelet(cube.f.rc, cube.r.fc)),
        dc: kept(mask.dc, has_white_facelet(cube.f.dc, cube.d.fc)),
        ..mask
    }
}

/// The mask of the back face that keeps the edge facelets on it whose edge
/// shows white, besides what `mask` keeps.
pub open spec fn back_with_white_edges(mask: FBFace<bool>, cube: Cube) -> FBFace<bool> {
    FBFace {
        uc: mask.uc || has_white(cube.b.uc, cube.u.bc),
        lc: mask.lc || has_white(cube.b.lc, cube.l.bc),
        rc: mask.rc || has_white(cube.b.rc, cube.r.bc),
        dc: mask.dc || has_white(cube.b.dc, cube.d.bc),
        ..mask
    }
}

fn keep_white_edges_of_back(mask: FBFace<bool>, cube: &Cube) -> (out: FBFace<bool>)
    ensures
        out == back_with_white_edges(mask, *cube),
{
    FBFace {
        uc: kept(mask.uc, has_white_facelet(cube.b.uc, cube.u.bc)),
        lc: kept(mask.lc, has_white_facelet(cube.b.lc, cube.l.bc)),
        rc: kept(mask.rc, has_white_facelet(cube.b.rc, cube.r.bc)),
        dc: kept(mask.dc, has_white_facelet(cube.b.dc, cube.d.bc)),
        ..mask
    }
}

impl Cube<bool> {
    /// The mask that keeps every facelet of the cube, or none.
    pub open spec fn all(val: bool) -> Self {
        Cube {
            u: UDFace::<bool>::all(val),
            d: UDFace::<bool>::all(val),
            b: FBFace::<bool>::all(val),
            f: FBFace::<bool>::all(val),
            l: LRFace::<bool>::all(val),
            r: LRFace::<bool>::all(val),
        }
    }

    /// The mask that keeps every facelet, or none.
    pub fn from_val(val: bool) -> (out: Self)
        ensures
            out == Self::all(val),
    {
        Cube {
            u: UDMask::from_val(val),
            d: UDMask::from_val(val),
            b: FBMask::from_val(val),
            f: FBMask::from_val(val),
            l: LRMask::from_val(val),
            r: LRMask::from_val(val),
        }
    }

    /// The mask that keeps the six centers besides what this one keeps.
    pub open spec fn with_centers(self) -> Self {
        Cube {
            u: UDFace { cc: true, ..self.u },
            d: UDFace { cc: true, ..self.d },
            l: LRFace { cc: true, ..self.l },
            r: LRFace { cc: true, ..self.r },
            f: FBFace { cc: true, ..self.f },
            b: FBFace { cc: true, ..self.b },
        }
    }

    /// Keeps the six centers.
    pub fn keep_centers(&mut self)
        ensures
            *final(self) == old(self).with_centers(),
    {
        self.u.cc = true;
        self.l.cc = true;
        self.r.cc = true;
        self.d.cc = true;
        self.f.cc = true;
        self.b.cc = true;
    }

    /// The mask that keeps both facelets of each edge of `cube` that shows
    /// white, besides what this one keeps.
    pub open spec fn with_white_edges(self, cube: Cube) -> Self {
        Cube {
            u: upper_with_white_edges(self.u, cube),
            d: lower_with_white_edges(self.d, cube),
            l: left_with_white_edges(self.l, cube),
            r: right_with_white_edges(self.r, cube),
            f: front_with_white_edges(self.f, cube),
            b: back_with_white_edges(self.b, cube),
        }
    }

    /// Keeps both facelets of each edge of `cube` that shows white.
    pub fn keep_white_edges(&mut self, cube: &Cube)
        ensures
            *final(self) == old(self).with_white_edges(*cube),
    {
        self.u = keep_white_edges_of_upper(self.u, cube);
        self.d = keep_white_edges_of_lower(self.d, cube);
        self.l = keep_white_edges_of_left(self.l, cube);
        self.r = keep_white_edges_of_right(self.r, cube);
        self.f = keep_white_edges_of_front(self.f, cube);
        self.b = keep_white_edges_of_back(self.b, cube);
    }
}

/// The cube with all facelets unknown but the centers and the edges that
/// show white.
pub open spec fn white_cross(cube: Cube) -> Cube<AmbigFacelet> {
    cube.apply_mask_spec(Cube::<bool>::all(false).with_centers().with_white_edges(cube))
}

/// The cube with all facelets unknown but the centers and the edges that
/// show white.
pub fn to_white_cross(cube: Cube) -> (out: Cube<AmbigFacelet>)
    ensures
        out == white_cross(cube),
{
    let mut mask = CubeMask::from_val(false);

    mask.keep_centers();
    mask.keep_white_edges(&cube);

    cube.apply_mask(mask)
}

} // verus!
