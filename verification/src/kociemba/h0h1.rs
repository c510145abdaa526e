//! From any solvable cube to one in H1: all edges good, no corner twisted,
//! the middle slice holding its own four edges.

use crate::corner_orientation_state::CornerOrientationState;
use crate::cube::{Cube, Facelet};
use crate::dfs_util::{
    admissible, found_or_exceeded, Goal, heuristic_closed, move_allowed, result_view, search,
    solve, SolveError, successors,
};
use crate::edge_orientation_state::EdgeOrientationState;
use crate::edge_slice_state::EdgeMidSliceState;
use crate::heuristic_caches::{CappedHeuristicCache, Heuristic, HeuristicCache, path_in};
use crate::moves::{
    ALL_DIRS, apply_move, apply_moves, CanMove, Dir, FullMove, invert_spec, lemma_invert_undoes,
    lemma_pair_apply_moves, turn,
};
use crate::state_key::{lemma_with_digit_injective, StateKey, with_digit};
use crate::dfs_util::lemma_all_moves_allowed;
use crate::projection::{lemma_solved_cube_states, lemma_states_follow_moves};
use crate::canonical::{all_allowed, lemma_search_finds_shortest};
use vstd::prelude::*;

verus! {

/// The most moves that the stage may take.
pub const MAX_MOVES: usize = 17;

/// The three states of a cube together, as a pair of pairs.
pub type TotalState = (EdgeOrientationState, (CornerOrientationState, EdgeMidSliceState));

/// The cap of the table of the three states together.
pub const TOTAL_STATE_MAX_FUEL: usize = 6;

impl StateKey for (EdgeOrientationState, (CornerOrientationState, EdgeMidSliceState)) {
    /// The key of the edge orientation above that of the corner
    /// orientation, which is below 3 to the 8th, above that of the edge
    /// slice, which is below 2 to the 12th.
    open spec fn key_spec(self) -> u128 {
        with_digit(
            with_digit(self.0.key_spec() as int, 6561, self.1.0.key_spec() as int),
            4096,
            self.1.1.key_spec() as int,
        ) as u128
    }

    fn key(&self) -> (k: u128) {
        proof {
            self.0.lemma_key_bound();
            self.1.0.lemma_key_bound();
            self.1.1.lemma_key_bound();
        }
        (self.0.key() * 6561 + self.1.0.key()) * 4096 + self.1.1.key()
    }

    proof fn lemma_key_injective(self, other: Self) {
        self.0.lemma_key_bound();
        self.1.0.lemma_key_bound();
        self.1.1.lemma_key_bound();
        other.0.lemma_key_bound();
        other.1.0.lemma_key_bound();
        other.1.1.lemma_key_bound();
        lemma_with_digit_injective(
            with_digit(self.0.key_spec() as int, 6561, self.1.0.key_spec() as int),
            self.1.1.key_spec() as int,
            with_digit(other.0.key_spec() as int, 6561, other.1.0.key_spec() as int),
            other.1.1.key_spec() as int,
            4096,
        );
        lemma_with_digit_injective(
            self.0.key_spec() as int,
            self.1.0.key_spec() as int,
            other.0.key_spec() as int,
            other.1.0.key_spec() as int,
            6561,
        );
        self.0.lemma_key_injective(other.0);
        self.1.0.lemma_key_injective(other.1.0);
        self.1.1.lemma_key_injective(other.1.1);
    }
}

/// What is left of a cube on the way to H1.
#[derive(Copy, Clone, PartialEq, Eq, Structural, Debug, Hash)]
pub struct RunningState {
    pub edge_or: EdgeOrientationState,
    pub corner_or: CornerOrientationState,
    pub mid_slice: EdgeMidSliceState,
}

impl RunningState {
    /// The state of a cube in H1.
    pub open spec fn solved_spec() -> Self {
        RunningState {
            edge_or: EdgeOrientationState::solved_spec(),
            corner_or: CornerOrientationState::solved_spec(),
            mid_slice: EdgeMidSliceState::solved_spec(),
        }
    }

    /// The state of `cube`.
    pub open spec fn from_cube_spec(cube: Cube) -> Self {
        RunningState {
            edge_or: EdgeOrientationState::from_cube_spec(cube),
            corner_or: CornerOrientationState::from_cube_spec(cube),
            mid_slice: EdgeMidSliceState::from_cube_spec(cube),
        }
    }

    /// The state of `cube`.
    pub fn from_cube(cube: &Cube) -> (out: RunningState)
        ensures
            out == Self::from_cube_spec(*cube),
    {
        Self {
            edge_or: EdgeOrientationState::from_cube(cube),
            corner_or: CornerOrientationState::from_cube(cube),
            mid_slice: EdgeMidSliceState::from_cube(cube),
        }
    }

    /// Whether the state is that of a cube in H1.
    pub fn is_solved(&self) -> (b: bool)
        ensures
            b == (*self == Self::solved_spec()),
    {
        self.edge_or.is_solved() && self.corner_or.is_solved() && self.mid_slice.is_solved()
    }

    /// The three states as a pair of pairs.
    pub open spec fn total(self) -> TotalState {
        (self.edge_or, (self.corner_or, self.mid_slice))
    }

    /// A quarter turn acts on each of the three states apart.
    pub proof fn lemma_turn_componentwise(self, dir: Dir)
        ensures
            turn(self, dir).edge_or == turn(self.edge_or, dir),
            turn(self, dir).corner_or == turn(self.corner_or, dir),
            turn(self, dir).mid_slice == turn(self.mid_slice, dir),
    {
    }

    /// A move acts on each of the three states apart.
    pub proof fn lemma_apply_move_componentwise(self, m: FullMove)
        ensures
            apply_move(self, m).edge_or == apply_move(self.edge_or, m),
            apply_move(self, m).corner_or == apply_move(self.corner_or, m),
            apply_move(self, m).mid_slice == apply_move(self.mid_slice, m),
    {
        let s1 = turn(self, m.dir);
        let s2 = turn(s1, m.dir);
        self.lemma_turn_componentwise(m.dir);
        s1.lemma_turn_componentwise(m.dir);
        s2.lemma_turn_componentwise(m.dir);
    }

    /// Moves act on each part of the state apart.
    pub proof fn lemma_apply_moves_componentwise(self, moves: Seq<FullMove>)
        ensures
            apply_moves(self, moves).edge_or == apply_moves(self.edge_or, moves),
            apply_moves(self, moves).corner_or == apply_moves(self.corner_or, moves),
            apply_moves(self, moves).mid_slice == apply_moves(self.mid_slice, moves),
        decreases moves.len(),
    {
        if moves.len() > 0 {
            self.lemma_apply_move_componentwise(moves[0]);
            apply_move(self, moves[0]).lemma_apply_moves_componentwise(moves.drop_first());
        }
    }

}

impl CanMove for RunningState {
    open spec fn r_spec(self) -> Self {
        RunningState {
            edge_or: self.edge_or.r_spec(),
            corner_or: self.corner_or.r_spec(),
            mid_slice: self.mid_slice.r_spec(),
        }
    }

    open spec fn l_spec(self) -> Self {
        RunningState {
            edge_or: self.edge_or.l_spec(),
            corner_or: self.corner_or.l_spec(),
            mid_slice: self.mid_slice.l_spec(),
        }
    }

    open spec fn u_spec(self) -> Self {
        RunningState {
            edge_or: self.edge_or.u_spec(),
            corner_or: self.corner_or.u_spec(),
            mid_slice: self.mid_slice.u_spec(),
        }
    }

    open spec fn d_spec(self) -> Self {
        RunningState {
            edge_or: self.edge_or.d_spec(),
            corner_or: self.corner_or.d_spec(),
            mid_slice: self.mid_slice.d_spec(),
        }
    }

    open spec fn b_spec(self) -> Self {
        RunningState {
            edge_or: self.edge_or.b_spec(),
            corner_or: self.corner_or.b_spec(),
            mid_slice: self.mid_slice.b_spec(),
        }
    }

    open spec fn f_spec(self) -> Self {
        RunningState {
            edge_or: self.edge_or.f_spec(),
            corner_or: self.corner_or.f_spec(),
            mid_slice: self.mid_slice.f_spec(),
        }
    }

    fn r(self) -> (out: Self) {
        Self {
            edge_or: self.edge_or.r(),
            corner_or: self.corner_or.r(),
            mid_slice: self.mid_slice.r(),
        }
    }

    fn l(self) -> (out: Self) {
        Self {
            edge_or: self.edge_or.l(),
            corner_or: self.corner_or.l(),
            mid_slice: self.mid_slice.l(),
        }
    }

    fn u(self) -> (out: Self) {
        Self {
            edge_or: self.edge_or.u(),
            corner_or: self.corner_or.u(),
            mid_slice: self.mid_slice.u(),
        }
    }

    fn d(self) -> (out: Self) {
        Self {
            edge_or: self.edge_or.d(),
            corner_or: self.corner_or.d(),
            mid_slice: self.mid_slice.d(),
        }
    }

    fn b(self) -> (out: Self) {
        Self {
            edge_or: self.edge_or.b(),
            corner_or: self.corner_or.b(),
            mid_slice: self.mid_slice.b(),
        }
    }

    fn f(self) -> (out: Self) {
        Self {
            edge_or: self.edge_or.f(),
            corner_or: self.corner_or.f(),
            mid_slice: self.mid_slice.f(),
        }
    }

    proof fn lemma_four_turns(self) {
        self.edge_or.lemma_four_turns();
        self.corner_or.lemma_four_turns();
        self.mid_slice.lemma_four_turns();
    }

    proof fn lemma_opposite_turns_commute(self) {
        self.edge_or.lemma_opposite_turns_commute();
        self.corner_or.lemma_opposite_turns_commute();
        self.mid_slice.lemma_opposite_turns_commute();
    }
}

/// The goal of the stage: the state of a cube in H1.
pub struct InH1;

impl Goal<RunningState> for InH1 {
    open spec fn accepts(&self, state: RunningState) -> bool {
        state == RunningState::solved_spec()
    }

    fn reached(&self, state: &RunningState) -> (b: bool) {
        state.is_solved()
    }
}

/// The distances of each of the three states from its solved state under
/// turns of all six faces, and those of the three together up to a cap.
pub struct H0toH1Cache {
    edge_orientation: HeuristicCache<EdgeOrientationState>,
    corner_orientation: HeuristicCache<CornerOrientationState>,
    edge_slice_state: HeuristicCache<EdgeMidSliceState>,
    total_state: CappedHeuristicCache<TotalState>,
}

/// The greater of two numbers.
pub open spec fn max_of(a: nat, b: nat) -> nat {
    if a >= b {
        a
    } else {
        b
    }
}

fn larger(a: usize, b: usize) -> (m: usize)
    ensures
        m == max_of(a as nat, b as nat),
{
    if a >= b {
        a
    } else {
        b
    }
}

impl H0toH1Cache {
    /// The table of the edge orientation states.
    pub closed spec fn edge_table(&self) -> HeuristicCache<EdgeOrientationState> {
        self.edge_orientation
    }

    /// The table of the corner orientation states.
    pub closed spec fn corner_table(&self) -> HeuristicCache<CornerOrientationState> {
        self.corner_orientation
    }

    /// The table of the edge slice states.
    pub closed spec fn slice_table(&self) -> HeuristicCache<EdgeMidSliceState> {
        self.edge_slice_state
    }

    /// The capped table of the three states together.
    pub closed spec fn total_table(&self) -> CappedHeuristicCache<TotalState> {
        self.total_state
    }

    /// All four tables are finished, from the solved states, under turns of
    /// all six faces.
    pub open spec fn wf(&self) -> bool {
        &&& self.edge_table().wf()
        &&& self.edge_table().goals() == set![EdgeOrientationState::solved_spec()]
        &&& self.edge_table().moves() == successors(ALL_DIRS@, Seq::<Dir>::empty())
        &&& self.corner_table().wf()
        &&& self.corner_table().goals() == set![CornerOrientationState::solved_spec()]
        &&& self.corner_table().moves() == successors(ALL_DIRS@, Seq::<Dir>::empty())
        &&& self.slice_table().wf()
        &&& self.slice_table().goals() == set![EdgeMidSliceState::solved_spec()]
        &&& self.slice_table().moves() == successors(ALL_DIRS@, Seq::<Dir>::empty())
        &&& self.total_table().wf()
        &&& self.total_table().goals() == set![RunningState::solved_spec().total()]
        &&& self.total_table().moves() == successors(ALL_DIRS@, Seq::<Dir>::empty())
        &&& self.total_table().fuel() == TOTAL_STATE_MAX_FUEL
    }

    /// Fills the tables of the phase.
    pub fn initialize() -> (cache: Self)
        ensures
            cache.wf(),
    {
        let free: [Dir; 6] = ALL_DIRS;
        let half: [Dir; 0] = [];
        assert(half@ =~= Seq::<Dir>::empty());
        H0toH1Cache {
            edge_orientation: HeuristicCache::from_goal(
                EdgeOrientationState::make_solved(),
                free.as_slice(),
                half.as_slice(),
            ),
            corner_orientation: HeuristicCache::from_goal(
                CornerOrientationState::solved(),
                free.as_slice(),
                half.as_slice(),
            ),
            edge_slice_state: HeuristicCache::from_goal(
                EdgeMidSliceState::solved(),
                free.as_slice(),
                half.as_slice(),
            ),
            total_state: CappedHeuristicCache::from_goal(
                (
                    EdgeOrientationState::make_solved(),
                    (CornerOrientationState::solved(), EdgeMidSliceState::solved()),
                ),
                free.as_slice(),
                half.as_slice(),
                TOTAL_STATE_MAX_FUEL,
            ),
        }
    }

    /// The heuristic of the stage never overestimates: it can be asked about
    /// every state from which moves of the stage lead to the solved state, and
    /// what it says is at most the number of the moves.
    pub proof fn lemma_admissible(&self, state: RunningState, path: Seq<FullMove>)
        requires
            self.wf(),
            path_in(path, successors(ALL_DIRS@, Seq::<Dir>::empty())),
            apply_moves(state, path) == RunningState::solved_spec(),
        ensures
            self.covers(state),
            self.estimate(state) <= path.len(),
    {
        state.lemma_apply_moves_componentwise(path);
        self.edge_table().lemma_exact(state.edge_or, path);
        self.corner_table().lemma_exact(state.corner_or, path);
        self.slice_table().lemma_exact(state.mid_slice, path);
        lemma_pair_apply_moves(state.total(), path);
        lemma_pair_apply_moves(state.total().1, path);
        self.total_table().lemma_admissible(state.total(), path);
    }

    /// The heuristic of the stage is one of which the search finds shortest
    /// paths: it never overestimates, and says at least 1 of a state that
    /// is no goal.
    pub proof fn lemma_admissible_for_search(&self)
        requires
            self.wf(),
        ensures
            admissible::<RunningState, _, H0toH1Cache>(
                &InH1,
                self,
                successors(ALL_DIRS@, Seq::<Dir>::empty()),
            ),
    {
        let succ = successors(ALL_DIRS@, Seq::<Dir>::empty());
        assert forall|s: RunningState, path: Seq<FullMove>|
            (forall|k: int| 0 <= k < path.len() ==> succ.contains(#[trigger] path[k]))
                && #[trigger] InH1.accepts(apply_moves(s, path)) implies self.estimate(s)
            <= path.len() by {
            self.lemma_admissible(s, path);
        }
        assert forall|s: RunningState| self.covers(
            s,
        ) && !InH1.accepts(s) implies #[trigger] self.estimate(
            s,
        ) >= 1 by {
            self.edge_table().lemma_exact(s.edge_or, Seq::empty());
            self.corner_table().lemma_exact(s.corner_or, Seq::empty());
            self.slice_table().lemma_exact(s.mid_slice, Seq::empty());
            crate::heuristic_caches::lemma_no_cost_is_goal(
                self.edge_table().table(),
                self.edge_table().goals(),
                self.edge_table().moves(),
                s.edge_or,
            );
            crate::heuristic_caches::lemma_no_cost_is_goal(
                self.corner_table().table(),
                self.corner_table().goals(),
                self.corner_table().moves(),
                s.corner_or,
            );
            crate::heuristic_caches::lemma_no_cost_is_goal(
                self.slice_table().table(),
                self.slice_table().goals(),
                self.slice_table().moves(),
                s.mid_slice,
            );
        }
    }

    /// With a state the tables hold every state that a move makes of it.
    pub proof fn lemma_closed(&self)
        requires
            self.wf(),
        ensures
            heuristic_closed::<RunningState, H0toH1Cache>(
                self,
                successors(ALL_DIRS@, Seq::<Dir>::empty()),
            ),
    {
        let succ = successors(ALL_DIRS@, Seq::<Dir>::empty());
        assert forall|s: RunningState, i: int|
            self.covers(s) && 0 <= i < succ.len() implies #[trigger] self.covers(
            apply_move(s, succ[i]),
        ) by {
            s.lemma_apply_move_componentwise(succ[i]);
            self.edge_table().lemma_closed(s.edge_or, i);
            self.corner_table().lemma_closed(s.corner_or, i);
            self.slice_table().lemma_closed(s.mid_slice, i);
        }
    }
}

impl Heuristic<RunningState> for H0toH1Cache {
    open spec fn covers(&self, state: RunningState) -> bool {
        &&& self.edge_table().contains(state.edge_or)
        &&& self.corner_table().contains(state.corner_or)
        &&& self.slice_table().contains(state.mid_slice)
        &&& self.total_table().covers(state.total())
    }

    /// The greatest of the four distances.
    open spec fn estimate(&self, state: RunningState) -> nat {
        max_of(
            max_of(
                max_of(
                    self.slice_table().cost(state.mid_slice),
                    self.edge_table().cost(state.edge_or),
                ),
                self.corner_table().cost(state.corner_or),
            ),
            self.total_table().estimate(state.total()),
        )
    }

    fn evaluate(&self, s: &RunningState) -> (cost: usize) {
        let slice = self.edge_slice_state.evaluate(&s.mid_slice);
        let edges = self.edge_orientation.evaluate(&s.edge_or);
        let corners = self.corner_orientation.evaluate(&s.corner_or);
        let total_state = self.total_state.evaluate(&(s.edge_or, (s.corner_or, s.mid_slice)));

        larger(larger(larger(slice, edges), corners), total_state)
    }
}

/// What `solve_to_h1` finds for a state.
pub open spec fn h1_search(cache: &H0toH1Cache, start: RunningState) -> Option<Seq<FullMove>> {
    search(&InH1, cache, ALL_DIRS@, Seq::<Dir>::empty(), start, MAX_MOVES as nat)
}

/// The phase can start from every cube that moves make of a solved cube:
/// `UnsolvableInput` does not come back for it.
pub proof fn lemma_reachable_can_start(
    cache: &H0toH1Cache,
    front: Facelet,
    top: Facelet,
    moves: Seq<FullMove>,
)
    requires
        cache.wf(),
        front.axis() != top.axis(),
    ensures
        cache.covers(RunningState::from_cube_spec(apply_moves(Cube::solved(front, top), moves))),
{
    let cube = Cube::solved(front, top);
    lemma_solved_cube_states(front, top);
    lemma_states_follow_moves(cube, moves);
    let succ = successors(ALL_DIRS@, Seq::<Dir>::empty());
    let back = invert_spec(moves);
    assert(path_in(back, succ)) by {
        assert forall|k: int| 0 <= k < back.len() implies succ.contains(#[trigger] back[k]) by {
            lemma_all_moves_allowed(back[k]);
        }
    }
    lemma_invert_undoes(EdgeOrientationState::solved_spec(), moves);
    lemma_invert_undoes(CornerOrientationState::solved_spec(), moves);
    lemma_invert_undoes(EdgeMidSliceState::solved_spec(), moves);
    cache.edge_table().lemma_exact(apply_moves(EdgeOrientationState::solved_spec(), moves), back);
    cache.corner_table().lemma_exact(
        apply_moves(CornerOrientationState::solved_spec(), moves),
        back,
    );
    cache.slice_table().lemma_exact(apply_moves(EdgeMidSliceState::solved_spec(), moves), back);
}

/// The stage finds a shortest path: what comes back is no longer than any
/// path of moves of the stage from the state of the cube to the goal that
/// leaves one move of the cap to spare.
pub proof fn lemma_finds_shortest(cache: &H0toH1Cache, cube: Cube, path: Seq<FullMove>)
    requires
        cache.wf(),
        cache.covers(RunningState::from_cube_spec(cube)),
        all_allowed(ALL_DIRS@, Seq::<Dir>::empty(), path),
        InH1.accepts(apply_moves(RunningState::from_cube_spec(cube), path)),
        path.len() < MAX_MOVES,
    ensures
        solve_to_h1_spec(cube, cache) matches Ok(found) && found.len() <= path.len(),
{
    cache.lemma_admissible_for_search();
    cache.lemma_closed();
    lemma_search_finds_shortest(
        &InH1,
        cache,
        ALL_DIRS@,
        Seq::<Dir>::empty(),
        RunningState::from_cube_spec(cube),
        MAX_MOVES as nat,
        path,
    );
}

/// What `solve_to_h1` returns: `UnsolvableInput` where the stage cannot start
/// from the cube, else the find of the search, or `SearchBudgetExceeded`.
pub open spec fn solve_to_h1_spec(cube: Cube, cache: &H0toH1Cache) -> Result<
    Seq<FullMove>,
    SolveError,
> {
    if cache.covers(RunningState::from_cube_spec(cube)) {
        found_or_exceeded(h1_search(cache, RunningState::from_cube_spec(cube)))
    } else {
        Err(SolveError::UnsolvableInput)
    }
}

/// Solves a cube to H1: finds moves after which all edges are good, no
/// corner is twisted and the middle slice holds its own edges.
/// `UnsolvableInput` says that no moves lead from one of the three states of
/// the cube to its solved state; `SearchBudgetExceeded` that the search
/// found none within its cap.
pub fn solve_to_h1(cube: &Cube, cache: &H0toH1Cache) -> (res: Result<Vec<FullMove>, SolveError>)
    requires
        cache.wf(),
    ensures
        result_view(res) == solve_to_h1_spec(*cube, cache),
        res matches Ok(moves) ==> {
            &&& apply_moves(RunningState::from_cube_spec(*cube), moves@)
                == RunningState::solved_spec()
            &&& forall|k: int|
                0 <= k < moves.len() ==> move_allowed(
                    ALL_DIRS@,
                    Seq::<Dir>::empty(),
                    #[trigger] moves[k],
                )
            &&& moves.len() <= MAX_MOVES
            &&& cube.well_formed() ==> RunningState::from_cube_spec(apply_moves(*cube, moves@))
                == RunningState::solved_spec()
        },
{
    let start_state = RunningState::from_cube(cube);
    if cache.edge_orientation.lookup(&start_state.edge_or).is_none()
        || cache.corner_orientation.lookup(&start_state.corner_or).is_none()
        || cache.edge_slice_state.lookup(&start_state.mid_slice).is_none() {
        return Err(SolveError::UnsolvableInput);
    }
    let free: [Dir; 6] = ALL_DIRS;
    let half: [Dir; 0] = [];
    proof {
        assert(half@ =~= Seq::<Dir>::empty());
        cache.lemma_closed();
    }
    let res = solve(start_state, free.as_slice(), half.as_slice(), &InH1, cache, MAX_MOVES);
    proof {
        if let Ok(moves) = &res {
            if cube.well_formed() {
                lemma_states_follow_moves(*cube, moves@);
                RunningState::from_cube_spec(*cube).lemma_apply_moves_componentwise(moves@);
            }
        }
    }
    res
}

} // verus!
