//! The positions of all cubelets: the edges and the corners together.

use crate::corner_position_state::CubeCornerPositions;
use crate::cube::Cube;
use crate::edge_position_state::CubeEdgePositions;
use crate::moves::{
    apply_move, apply_moves, CanMove, Dir, FullMove, lemma_kept_by_turns_kept_by_moves,
    lemma_turn_cycle, turn,
};
use crate::state_key::{lemma_with_digit_injective, StateKey, with_digit};
use vstd::prelude::*;

verus! {

#[derive(Copy, Clone, PartialEq, Eq, Structural, Debug, Hash)]
pub struct CubePositions {
    pub edges: CubeEdgePositions,
    pub corners: CubeCornerPositions,
}

impl CubePositions {
    /// The state in which every place holds its own cubelet.
    pub open spec fn solved_spec() -> Self {
        CubePositions {
            edges: CubeEdgePositions::solved_spec(),
            corners: CubeCornerPositions::solved_spec(),
        }
    }

    /// Whether every cubelet is in its own place.
    pub fn is_solved(&self) -> (b: bool)
        ensures
            b == (*self == Self::solved_spec()),
    {
        *self == CubePositions::make_solved()
    }

    /// No cubelet is in two places.
    pub open spec fn is_permutation_spec(self) -> bool {
        self.edges.is_permutation_spec() && self.corners.is_permutation_spec()
    }

    /// The edges and the corners are permuted with the same parity.
    pub open spec fn directly_solvable_spec(self) -> bool {
        self.edges.is_even_spec() == self.corners.is_even_spec()
    }

    /// Whether the permutation of the edges and that of the corners have the
    /// same parity. For a state that holds a cubelet twice the answer says
    /// nothing.
    pub fn directly_solvable(&self) -> (b: bool)
        ensures
            self.is_permutation_spec() ==> b == self.directly_solvable_spec(),
    {
        // if they're both solvable, great; you can do the permutation things
        // and solve them completely independently
        // if neither is solvable, also great; a single swap will fix both, and
        // there is a move which swaps one pair of edges and one pair of corners
        self.edges.directly_solvable() == self.corners.directly_solvable()
    }

    /// The state in which every place holds its own cubelet.
    pub fn make_solved() -> (out: CubePositions)
        ensures
            out == Self::solved_spec(),
    {
        CubePositions {
            edges: CubeEdgePositions::make_solved(),
            corners: CubeCornerPositions::make_solved(),
        }
    }

    /// Every place of `cube` holds the colors of a cubelet of its kind.
    pub open spec fn readable(cube: Cube) -> bool {
        CubeEdgePositions::readable(cube) && CubeCornerPositions::readable(cube)
    }

    /// The cubelet in each place of `cube`.
    pub open spec fn from_cube_spec(cube: Cube) -> Self {
        CubePositions {
            edges: CubeEdgePositions::from_cube_spec(cube),
            corners: CubeCornerPositions::from_cube_spec(cube),
        }
    }

    /// The cubelet in each place of `cube`, or `None` if some place holds
    /// colors that no cubelet of its kind has.
    pub fn try_from_cube(cube: &Cube) -> (out: Option<Self>)
        ensures
            out == (if Self::readable(*cube) {
                Some(Self::from_cube_spec(*cube))
            } else {
                None
            }),
    {
        match (CubeEdgePositions::try_from_cube(cube), CubeCornerPositions::try_from_cube(cube)) {
            (Some(edges), Some(corners)) => Some(Self { edges, corners }),
            _ => None,
        }
    }

    /// The cubelet in each place of `cube`.
    pub fn from_cube(cube: &Cube) -> (out: Self)
        requires
            Self::readable(*cube),
        ensures
            out == Self::from_cube_spec(*cube),
    {
        Self {
            edges: CubeEdgePositions::from_cube(cube),
            corners: CubeCornerPositions::from_cube(cube),
        }
    }

    /// A quarter turn acts on the edges and on the corners apart.
    pub proof fn lemma_turn_componentwise(self, dir: Dir)
        ensures
            turn(self, dir).edges == turn(self.edges, dir),
            turn(self, dir).corners == turn(self.corners, dir),
    {
    }

    /// A move acts on the edges and on the corners apart.
    pub proof fn lemma_apply_move_componentwise(self, m: FullMove)
        ensures
            apply_move(self, m).edges == apply_move(self.edges, m),
            apply_move(self, m).corners == apply_move(self.corners, m),
    {
        let s1 = turn(self, m.dir);
        let s2 = turn(s1, m.dir);
        self.lemma_turn_componentwise(m.dir);
        s1.lemma_turn_componentwise(m.dir);
        s2.lemma_turn_componentwise(m.dir);
    }

    /// Moves act on each part of the state apart.
    pub proof fn lemma_apply_moves_componentwise(self, moves: Seq<FullMove>)
        ensures
            apply_moves(self, moves).edges == apply_moves(self.edges, moves),
            apply_moves(self, moves).corners == apply_moves(self.corners, moves),
        decreases moves.len(),
    {
        if moves.len() > 0 {
            self.lemma_apply_move_componentwise(moves[0]);
            apply_move(self, moves[0]).lemma_apply_moves_componentwise(moves.drop_first());
        }
    }

    /// A quarter turn keeps permutations permutations and keeps the parities
    /// of edges and corners equal or unequal as they were.
    pub proof fn lemma_turn_keeps_solvable(self, dir: Dir)
        requires
            self.is_permutation_spec(),
        ensures
            turn(self, dir).is_permutation_spec(),
            turn(self, dir).directly_solvable_spec() == self.directly_solvable_spec(),
    {
        self.edges.lemma_turn_flips_parity(dir);
        self.corners.lemma_turn_flips_parity(dir);
        assert(turn(self, dir).edges == turn(self.edges, dir));
        assert(turn(self, dir).corners == turn(self.corners, dir));
    }

    /// A move keeps permutations permutations and keeps the parities of
    /// edges and corners equal or unequal as they were.
    pub proof fn lemma_move_keeps_solvable(self, m: FullMove)
        requires
            self.is_permutation_spec(),
        ensures
            apply_move(self, m).is_permutation_spec(),
            apply_move(self, m).directly_solvable_spec() == self.directly_solvable_spec(),
    {
        let kept = |t: CubePositions|
            t.is_permutation_spec() && (t.directly_solvable_spec()
                == self.directly_solvable_spec());
        assert forall|t: CubePositions, dir: Dir| #[trigger] kept(turn(t, dir)) == kept(t) by {
            if t.is_permutation_spec() {
                t.lemma_turn_keeps_solvable(dir);
            }
            if turn(t, dir).is_permutation_spec() {
                // three more quarter turns of the face lead back
                let t1 = turn(t, dir);
                let t2 = turn(t1, dir);
                let t3 = turn(t2, dir);
                t1.lemma_turn_keeps_solvable(dir);
                t2.lemma_turn_keeps_solvable(dir);
                t3.lemma_turn_keeps_solvable(dir);
                lemma_turn_cycle(t, dir);
            }
        }
        lemma_kept_by_turns_kept_by_moves(kept, self, m);
    }

    /// Whatever moves are made from the solved state, the permutation of the
    /// edges and that of the corners have the same parity.
    pub proof fn lemma_reachable_is_solvable(moves: Seq<FullMove>)
        ensures
            apply_moves(Self::solved_spec(), moves).is_permutation_spec(),
            apply_moves(Self::solved_spec(), moves).directly_solvable_spec(),
    {
        CubeEdgePositions::lemma_solved_even();
        CubeCornerPositions::lemma_solved_even();
        Self::lemma_moves_keep_solvable(Self::solved_spec(), moves);
    }

    /// Moves keep permutations permutations and keep the parities of edges
    /// and corners equal or unequal as they were.
    pub proof fn lemma_moves_keep_solvable(s: Self, moves: Seq<FullMove>)
        requires
            s.is_permutation_spec(),
        ensures
            apply_moves(s, moves).is_permutation_spec(),
            apply_moves(s, moves).directly_solvable_spec() == s.directly_solvable_spec(),
        decreases moves.len(),
    {
        if moves.len() > 0 {
            s.lemma_move_keeps_solvable(moves[0]);
            Self::lemma_moves_keep_solvable(apply_move(s, moves[0]), moves.drop_first());
        }
    }
}

impl CanMove for CubePositions {
    open spec fn r_spec(self) -> Self {
        CubePositions { edges: self.edges.r_spec(), corners: self.corners.r_spec() }
    }

    open spec fn l_spec(self) -> Self {
        CubePositions { edges: self.edges.l_spec(), corners: self.corners.l_spec() }
    }

    open spec fn u_spec(self) -> Self {
        CubePositions { edges: self.edges.u_spec(), corners: self.corners.u_spec() }
    }

    open spec fn d_spec(self) -> Self {
        CubePositions { edges: self.edges.d_spec(), corners: self.corners.d_spec() }
    }

    open spec fn b_spec(self) -> Self {
        CubePositions { edges: self.edges.b_spec(), corners: self.corners.b_spec() }
    }

    open spec fn f_spec(self) -> Self {
        CubePositions { edges: self.edges.f_spec(), corners: self.corners.f_spec() }
    }

    fn r(self) -> (out: Self) {
        Self { edges: self.edges.r(), corners: self.corners.r() }
    }

    fn l(self) -> (out: Self) {
        Self { edges: self.edges.l(), corners: self.corners.l() }
    }

    fn u(self) -> (out: Self) {
        Self { edges: self.edges.u(), corners: self.corners.u() }
    }

    fn d(self) -> (out: Self) {
        Self { edges: self.edges.d(), corners: self.corners.d() }
    }

    fn b(self) -> (out: Self) {
        Self { edges: self.edges.b(), corners: self.corners.b() }
    }

    fn f(self) -> (out: Self) {
        Self { edges: self.edges.f(), corners: self.corners.f() }
    }

    proof fn lemma_four_turns(self) {
        self.edges.lemma_four_turns();
        self.corners.lemma_four_turns();
    }

    proof fn lemma_opposite_turns_commute(self) {
        self.edges.lemma_opposite_turns_commute();
        self.corners.lemma_opposite_turns_commute();
    }
}

impl StateKey for CubePositions {
    /// The key of the edges above the key of the corners, which is below 8
    /// to the 8th.
    open spec fn key_spec(self) -> u128 {
        with_digit(self.edges.key_spec() as int, 16777216, self.corners.key_spec() as int) as u128
    }

    fn key(&self) -> (k: u128) {
        proof {
            self.edges.lemma_key_bound();
            self.corners.lemma_key_bound();
        }
        self.edges.key() * 16777216 + self.corners.key()
    }

    proof fn lemma_key_injective(self, other: Self) {
        self.edges.lemma_key_bound();
        self.corners.lemma_key_bound();
        other.edges.lemma_key_bound();
        other.corners.lemma_key_bound();
        lemma_with_digit_injective(
            self.edges.key_spec() as int,
            self.corners.key_spec() as int,
            other.edges.key_spec() as int,
            other.corners.key_spec() as int,
            16777216,
        );
        self.edges.lemma_key_injective(other.edges);
        self.corners.lemma_key_injective(other.corners);
    }
}

/// The states made of an edge arrangement of `edges` and a corner
/// arrangement of `corners`.
pub open spec fn pairs_of(
    edges: Set<CubeEdgePositions>,
    corners: Set<CubeCornerPositions>,
) -> Set<CubePositions> {
    Set::new(|s: CubePositions| edges.contains(s.edges) && corners.contains(s.corners))
}

/// There are as many pairs as the numbers of the edge arrangements and of
/// the corner arrangements multiply to.
pub proof fn lemma_pairs_count(edges: Set<CubeEdgePositions>, corners: Set<CubeCornerPositions>)
    requires
        edges.finite(),
        corners.finite(),
    ensures
        pairs_of(edges, corners).finite(),
        pairs_of(edges, corners).len() == edges.len() * corners.len(),
    decreases edges.len(),
{
    broadcast use vstd::set::group_set_axioms;

    if edges.len() == 0 {
        assert(edges =~= Set::<CubeEdgePositions>::empty());
        assert(pairs_of(edges, corners) =~= Set::<CubePositions>::empty());
        assert(edges.len() * corners.len() == 0) by (nonlinear_arith)
            requires
                edges.len() == 0,
        ;
    } else {
        let e = edges.choose();
        let rest = edges.remove(e);
        lemma_pairs_count(rest, corners);
        let with_e = |c: CubeCornerPositions| CubePositions { edges: e, corners: c };
        let row = corners.map(with_e);
        assert(vstd::relations::injective_on(with_e, corners)) by {
            assert forall|a: CubeCornerPositions, b: CubeCornerPositions|
                corners.contains(a) && corners.contains(b) && #[trigger] with_e(a)
                    == #[trigger] with_e(b) implies a == b by {
                assert(with_e(a).corners == with_e(b).corners);
            }
        }
        vstd::set_lib::lemma_map_size(corners, row, with_e);
        let others = pairs_of(rest, corners);
        assert(others.disjoint(row)) by {
            assert forall|s: CubePositions| !(others.contains(s) && row.contains(s)) by {
                if row.contains(s) {
                    let c = choose|c: CubeCornerPositions| corners.contains(c) && s == with_e(c);
                    assert(s.edges == e);
                }
            }
        }
        assert(pairs_of(edges, corners) =~= others + row) by {
            assert forall|s: CubePositions| pairs_of(edges, corners).contains(s) implies (others
                + row).contains(s) by {
                if s.edges == e {
                    assert(s == with_e(s.corners));
                    assert(row.contains(s));
                } else {
                    assert(others.contains(s));
                }
            }
            assert forall|s: CubePositions| (others + row).contains(s) implies pairs_of(
                edges,
                corners,
            ).contains(s) by {
                if row.contains(s) {
                    let c = choose|c: CubeCornerPositions| corners.contains(c) && s == with_e(c);
                    assert(s.edges == e && s.corners == c);
                }
            }
        }
        vstd::set_lib::lemma_set_disjoint_lens(others, row);
        assert(edges.len() * corners.len() == rest.len() * corners.len() + corners.len())
            by (nonlinear_arith)
            requires
                edges.len() == rest.len() + 1,
        ;
    }
}

/// A set of states that holds only pairs of given edge and corner
/// arrangements, and as many states as there are such pairs, holds every
/// such pair.
pub proof fn lemma_all_pairs(
    states: Set<CubePositions>,
    edges: Set<CubeEdgePositions>,
    corners: Set<CubeCornerPositions>,
)
    requires
        states.finite(),
        edges.finite(),
        corners.finite(),
        states.subset_of(pairs_of(edges, corners)),
        states.len() == edges.len() * corners.len(),
    ensures
        states == pairs_of(edges, corners),
{
    lemma_pairs_count(edges, corners);
    vstd::set_lib::lemma_subset_equality(states, pairs_of(edges, corners));
}

} // verus!
