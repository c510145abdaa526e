//! From a cube whose edges are all good to one whose corners, besides, are
//! untwisted and whose middle slice holds its own four edges.

use crate::corner_orientation_state::CornerOrientationState;
use crate::cube::Cube;
use crate::dfs_util::{
    admissible, found_or_exceeded, Goal, heuristic_closed, move_allowed, result_view, search,
    solve, SolveError, successors,
};
use crate::edge_slice_state::EdgeMidSliceState;
use crate::heuristic_caches::{Heuristic, HeuristicCache, path_in};
use crate::moves::{apply_move, apply_moves, CanMove, Dir, FullMove, turn};
use crate::projection::{lemma_positions_follow_moves, lemma_states_follow_moves};
use crate::canonical::{all_allowed, lemma_search_finds_shortest};
use vstd::prelude::*;

verus! {

pub const FREE_DIRS: [Dir; 4] = [Dir::B, Dir::F, Dir::L, Dir::R];

pub const HALF_DIRS: [Dir; 2] = [Dir::U, Dir::D];

/// The most moves that the stage may take.
pub const MAX_MOVES: usize = 11;

/// Invariants from a cube in G0 to describe what's left to get to G2
#[derive(Copy, Clone, PartialEq, Eq, Structural, Debug, Hash)]
pub struct G1State {
    pub edges: EdgeMidSliceState,
    pub corners: CornerOrientationState,
}

impl G1State {
    /// The state of a cube in G2.
    pub open spec fn solved_spec() -> Self {
        G1State {
            edges: EdgeMidSliceState::solved_spec(),
            corners: CornerOrientationState::solved_spec(),
        }
    }

    /// Whether the state is that of a cube in G2.
    pub fn is_solved(&self) -> (b: bool)
        ensures
            b == (*self == Self::solved_spec()),
    {
        self.edges.is_solved() && self.corners.is_solved()
    }

    /// The state of `cube`.
    pub open spec fn from_cube_spec(cube: Cube) -> Self {
        G1State {
            edges: EdgeMidSliceState::from_cube_spec(cube),
            corners: CornerOrientationState::from_cube_spec(cube),
        }
    }

    /// The state of `cube`.
    pub fn from_cube(cube: &Cube) -> (out: G1State)
        ensures
            out == Self::from_cube_spec(*cube),
    {
        G1State {
            edges: EdgeMidSliceState::from_cube(cube),
            corners: CornerOrientationState::from_cube(cube),
        }
    }

    /// A quarter turn acts on the edges and on the corners apart.
    pub proof fn lemma_turn_componentwise(self, dir: Dir)
        ensures
            turn(self, dir).edges == turn(self.edges, dir),
            turn(self, dir).corners == turn(self.corners, dir),
    {
    }

    /// A move acts on the edges and on the corners apart.
    pub proof fn lemma_apply_move_componentwise(self, m: FullMove)
        ensures
            apply_move(self, m).edges == apply_move(self.edges, m),
            apply_move(self, m).corners == apply_move(self.corners, m),
    {
        let s1 = turn(self, m.dir);
        let s2 = turn(s1, m.dir);
        self.lemma_turn_componentwise(m.dir);
        s1.lemma_turn_componentwise(m.dir);
        s2.lemma_turn_componentwise(m.dir);
    }

    /// Moves act on each part of the state apart.
    pub proof fn lemma_apply_moves_componentwise(self, moves: Seq<FullMove>)
        ensures
            apply_moves(self, moves).edges == apply_moves(self.edges, moves),
            apply_moves(self, moves).corners == apply_moves(self.corners, moves),
        decreases moves.len(),
    {
        if moves.len() > 0 {
            self.lemma_apply_move_componentwise(moves[0]);
            apply_move(self, moves[0]).lemma_apply_moves_componentwise(moves.drop_first());
        }
    }

}

impl CanMove for G1State {
    open spec fn r_spec(self) -> Self {
        G1State { corners: self.corners.r_spec(), edges: self.edges.r_spec() }
    }

    open spec fn l_spec(self) -> Self {
        G1State { corners: self.corners.l_spec(), edges: self.edges.l_spec() }
    }

    open spec fn u_spec(self) -> Self {
        G1State { corners: self.corners.u_spec(), edges: self.edges.u_spec() }
    }

    open spec fn d_spec(self) -> Self {
        G1State { corners: self.corners.d_spec(), edges: self.edges.d_spec() }
    }

    open spec fn b_spec(self) -> Self {
        G1State { corners: self.corners.b_spec(), edges: self.edges.b_spec() }
    }

    open spec fn f_spec(self) -> Self {
        G1State { corners: self.corners.f_spec(), edges: self.edges.f_spec() }
    }

    fn r(self) -> (out: Self) {
        Self { corners: self.corners.r(), edges: self.edges.r() }
    }

    fn l(self) -> (out: Self) {
        Self { corners: self.corners.l(), edges: self.edges.l() }
    }

    fn u(self) -> (out: Self) {
        Self { corners: self.corners.u(), edges: self.edges.u() }
    }

    fn u_two(self) -> (out: Self) {
        Self { corners: self.corners.u_two(), edges: self.edges.u_two() }
    }

    fn d(self) -> (out: Self) {
        Self { corners: self.corners.d(), edges: self.edges.d() }
    }

    fn d_two(self) -> (out: Self) {
        Self { corners: self.corners.d_two(), edges: self.edges.d_two() }
    }

    fn b(self) -> (out: Self) {
        Self { corners: self.corners.b(), edges: self.edges.b() }
    }

    fn f(self) -> (out: Self) {
        Self { corners: self.corners.f(), edges: self.edges.f() }
    }

    proof fn lemma_four_turns(self) {
        self.edges.lemma_four_turns();
        self.corners.lemma_four_turns();
    }

    proof fn lemma_opposite_turns_commute(self) {
        self.edges.lemma_opposite_turns_commute();
        self.corners.lemma_opposite_turns_commute();
    }
}

/// The goal of the stage: the state of a cube in G2.
pub struct InG2;

impl Goal<G1State> for InG2 {
    open spec fn accepts(&self, state: G1State) -> bool {
        state == G1State::solved_spec()
    }

    fn reached(&self, state: &G1State) -> (b: bool) {
        state.is_solved()
    }
}

/// The distances of the edge slice states and of the corner orientation
/// states from the solved ones, under the moves of the stage.
pub struct G1toG2Cache {
    edge_heuristic: HeuristicCache<EdgeMidSliceState>,
    corner_heuristic: HeuristicCache<CornerOrientationState>,
}

impl G1toG2Cache {
    /// The table of the edge slice states.
    pub closed spec fn edge_table(&self) -> HeuristicCache<EdgeMidSliceState> {
        self.edge_heuristic
    }

    /// The table of the corner orientation states.
    pub closed spec fn corner_table(&self) -> HeuristicCache<CornerOrientationState> {
        self.corner_heuristic
    }

    /// Both tables are finished, from the solved states, under the moves of
    /// the stage.
    pub open spec fn wf(&self) -> bool {
        &&& self.edge_table().wf()
        &&& self.edge_table().goals() == set![EdgeMidSliceState::solved_spec()]
        &&& self.edge_table().moves() == successors(FREE_DIRS@, HALF_DIRS@)
        &&& self.corner_table().wf()
        &&& self.corner_table().goals() == set![CornerOrientationState::solved_spec()]
        &&& self.corner_table().moves() == successors(FREE_DIRS@, HALF_DIRS@)
    }

    /// Fills the tables of the stage.
    pub fn initialize() -> (cache: Self)
        ensures
            cache.wf(),
    {
        let free: [Dir; 4] = FREE_DIRS;
        let half: [Dir; 2] = HALF_DIRS;
        Self {
            edge_heuristic: HeuristicCache::from_goal(
                EdgeMidSliceState::solved(),
                free.as_slice(),
                half.as_slice(),
            ),
            corner_heuristic: HeuristicCache::from_goal(
                CornerOrientationState::solved(),
                free.as_slice(),
                half.as_slice(),
            ),
        }
    }

    /// The heuristic of the stage never overestimates: it can be asked about
    /// every state from which moves of the stage lead to the solved state, and
    /// what it says is at most the number of the moves.
    pub proof fn lemma_admissible(&self, state: G1State, path: Seq<FullMove>)
        requires
            self.wf(),
            path_in(path, successors(FREE_DIRS@, HALF_DIRS@)),
            apply_moves(state, path) == G1State::solved_spec(),
        ensures
            self.covers(state),
            self.estimate(state) <= path.len(),
    {
        state.lemma_apply_moves_componentwise(path);
        self.edge_table().lemma_exact(state.edges, path);
        self.corner_table().lemma_exact(state.corners, path);
    }

    /// The heuristic of the stage is one of which the search finds shortest
    /// paths: it never overestimates, and says at least 1 of a state that
    /// is no goal.
    pub proof fn lemma_admissible_for_search(&self)
        requires
            self.wf(),
        ensures
            admissible::<G1State, _, G1toG2Cache>(&InG2, self, successors(FREE_DIRS@, HALF_DIRS@)),
    {
        let succ = successors(FREE_DIRS@, HALF_DIRS@);
        assert forall|s: G1State, path: Seq<FullMove>|
            (forall|k: int| 0 <= k < path.len() ==> succ.contains(#[trigger] path[k]))
                && #[trigger] InG2.accepts(apply_moves(s, path)) implies self.estimate(s)
            <= path.len() by {
            self.lemma_admissible(s, path);
        }
        assert forall|s: G1State| self.covers(
            s,
        ) && !InG2.accepts(s) implies #[trigger] self.estimate(
            s,
        ) >= 1 by {
            self.edge_table().lemma_exact(s.edges, Seq::empty());
            self.corner_table().lemma_exact(s.corners, Seq::empty());
            crate::heuristic_caches::lemma_no_cost_is_goal(
                self.edge_table().table(),
                self.edge_table().goals(),
                self.edge_table().moves(),
                s.edges,
            );
            crate::heuristic_caches::lemma_no_cost_is_goal(
                self.corner_table().table(),
                self.corner_table().goals(),
                self.corner_table().moves(),
                s.corners,
            );
        }
    }

    /// With a state the tables hold every state that a move of the stage
    /// makes of it.
    pub proof fn lemma_closed(&self)
        requires
            self.wf(),
        ensures
            heuristic_closed::<G1State, G1toG2Cache>(self, successors(FREE_DIRS@, HALF_DIRS@)),
    {
        let succ = successors(FREE_DIRS@, HALF_DIRS@);
        assert forall|s: G1State, i: int| self.covers(
            s,
        ) && 0 <= i < succ.len() implies #[trigger] self.covers(
            apply_move(s, succ[i]),
        ) by {
            s.lemma_apply_move_componentwise(succ[i]);
            self.edge_table().lemma_closed(s.edges, i);
            self.corner_table().lemma_closed(s.corners, i);
        }
    }
}

impl Heuristic<G1State> for G1toG2Cache {
    open spec fn covers(&self, state: G1State) -> bool {
        self.edge_table().contains(state.edges) && self.corner_table().contains(state.corners)
    }

    /// The greater of the two distances.
    open spec fn estimate(&self, state: G1State) -> nat {
        if self.edge_table().cost(state.edges) >= self.corner_table().cost(state.corners) {
            self.edge_table().cost(state.edges)
        } else {
            self.corner_table().cost(state.corners)
        }
    }

    fn evaluate(&self, state: &G1State) -> (cost: usize) {
        let e = self.edge_heuristic.evaluate(&state.edges);
        let c = self.corner_heuristic.evaluate(&state.corners);
        if e >= c {
            e
        } else {
            c
        }
    }
}

/// What `solve_to_g2` finds for a state.
pub open spec fn g2_search(cache: &G1toG2Cache, start: G1State) -> Option<Seq<FullMove>> {
    search(&InG2, cache, FREE_DIRS@, HALF_DIRS@, start, MAX_MOVES as nat)
}

/// The stage finds a shortest path: what comes back is no longer than any
/// path of moves of the stage from the state of the cube to the goal that
/// leaves one move of the cap to spare.
pub proof fn lemma_finds_shortest(cache: &G1toG2Cache, cube: Cube, path: Seq<FullMove>)
    requires
        cache.wf(),
        cache.covers(G1State::from_cube_spec(cube)),
        all_allowed(FREE_DIRS@, HALF_DIRS@, path),
        InG2.accepts(apply_moves(G1State::from_cube_spec(cube), path)),
        path.len() < MAX_MOVES,
    ensures
        solve_to_g2_spec(cube, cache) matches Ok(found) && found.len() <= path.len(),
{
    cache.lemma_admissible_for_search();
    cache.lemma_closed();
    lemma_search_finds_shortest(
        &InG2,
        cache,
        FREE_DIRS@,
        HALF_DIRS@,
        G1State::from_cube_spec(cube),
        MAX_MOVES as nat,
        path,
    );
}

/// What `solve_to_g2` returns: `UnsolvableInput` where the stage cannot start
/// from the cube, else the find of the search, or `SearchBudgetExceeded`.
pub open spec fn solve_to_g2_spec(
    cube: Cube,
    cache: &G1toG2Cache,
) -> Result<Seq<FullMove>, SolveError> {
    if cache.covers(G1State::from_cube_spec(cube)) {
        found_or_exceeded(g2_search(cache, G1State::from_cube_spec(cube)))
    } else {
        Err(SolveError::UnsolvableInput)
    }
}

/// Solve to G2: finds moves, with the upper and the lower face turned by
/// half turns only, after which no corner is twisted and the middle slice
/// holds its own edges. `UnsolvableInput` says that no such moves lead from
/// the state of the cube to the solved one; `SearchBudgetExceeded` that the
/// search found none within its cap.
pub fn solve_to_g2(cube: &Cube, cache: &G1toG2Cache) -> (res: Result<Vec<FullMove>, SolveError>)
    requires
        cache.wf(),
    ensures
        result_view(res) == solve_to_g2_spec(*cube, cache),
        res matches Ok(moves) ==> {
            &&& apply_moves(G1State::from_cube_spec(*cube), moves@) == G1State::solved_spec()
            &&& forall|k: int|
                0 <= k < moves.len() ==> move_allowed(FREE_DIRS@, HALF_DIRS@, #[trigger] moves[k])
            &&& moves.len() <= MAX_MOVES
            &&& cube.well_formed() ==> G1State::from_cube_spec(apply_moves(*cube, moves@))
                == G1State::solved_spec()
        },
{
    let start = G1State::from_cube(cube);
    if cache.edge_heuristic.lookup(&start.edges).is_none() || cache.corner_heuristic.lookup(
        &start.corners,
    ).is_none() {
        return Err(SolveError::UnsolvableInput);
    }
    let free: [Dir; 4] = FREE_DIRS;
    let half: [Dir; 2] = HALF_DIRS;
    proof {
        cache.lemma_closed();
    }
    let res = solve(start, free.as_slice(), half.as_slice(), &InG2, cache, MAX_MOVES);
    proof {
        if let Ok(moves) = &res {
            if cube.well_formed() {
                lemma_states_follow_moves(*cube, moves@);
                G1State::from_cube_spec(*cube).lemma_apply_moves_componentwise(moves@);
            }
        }
    }
    res
}

} // verus!
