//! From a cube in H1 to the solved cube, with only the left and the right
//! face turned by quarters.

use crate::corner_position_state::CubeCornerPositions;
use crate::cube::Cube;
use crate::dfs_util::{
    admissible, found_or_exceeded, Goal, heuristic_closed, move_allowed, result_view, search,
    solve, SolveError, successors,
};
use crate::edge_position_state::CubeEdgePositions;
use crate::heuristic_caches::{CappedHeuristicCache, Heuristic, HeuristicCache, path_in};
use crate::kociemba::h0h1::max_of;
use crate::moves::{apply_move, apply_moves, CanMove, Dir, FullMove, lemma_pair_apply_moves, turn};
use crate::state_key::{lemma_with_digit_injective, StateKey, with_digit};
use crate::projection::{lemma_positions_follow_moves, lemma_states_follow_moves};
use crate::total_position_state::CubePositions;
use crate::canonical::{all_allowed, lemma_search_finds_shortest};
use vstd::prelude::*;

verus! {

pub const FREE_DIRS: [Dir; 2] = [Dir::L, Dir::R];

pub const HALF_DIRS: [Dir; 4] = [Dir::U, Dir::D, Dir::F, Dir::B];

/// The most moves that the stage may take.
pub const MAX_MOVES: usize = 18;

/// The edge and the corner positions together, as a pair.
pub type TotalState = (CubeEdgePositions, CubeCornerPositions);

/// The cap of the table of the positions together.
pub const TOTAL_STATE_FUEL: usize = 7;

impl StateKey for (CubeEdgePositions, CubeCornerPositions) {
    /// The key of the edges above the key of the corners, which is below 8
    /// to the 8th.
    open spec fn key_spec(self) -> u128 {
        with_digit(self.0.key_spec() as int, 16777216, self.1.key_spec() as int) as u128
    }

    fn key(&self) -> (k: u128) {
        proof {
            self.0.lemma_key_bound();
            self.1.lemma_key_bound();
        }
        self.0.key() * 16777216 + self.1.key()
    }

    proof fn lemma_key_injective(self, other: Self) {
        self.0.lemma_key_bound();
        self.1.lemma_key_bound();
        other.0.lemma_key_bound();
        other.1.lemma_key_bound();
        lemma_with_digit_injective(
            self.0.key_spec() as int,
            self.1.key_spec() as int,
            other.0.key_spec() as int,
            other.1.key_spec() as int,
            16777216,
        );
        self.0.lemma_key_injective(other.0);
        self.1.lemma_key_injective(other.1);
    }
}

/// What is left of a cube in H1 on the way to the solved cube.
#[derive(Copy, Clone, PartialEq, Eq, Structural, Debug, Hash)]
pub struct RunningState {
    pub edge_pos: CubeEdgePositions,
    pub corner_pos: CubeCornerPositions,
}

impl RunningState {
    /// The state of the solved cube.
    pub open spec fn solved_spec() -> Self {
        RunningState {
            edge_pos: CubeEdgePositions::solved_spec(),
            corner_pos: CubeCornerPositions::solved_spec(),
        }
    }

    /// Every place of `cube` holds the colors of a cubelet of its kind.
    pub open spec fn readable(cube: Cube) -> bool {
        CubeEdgePositions::readable(cube) && CubeCornerPositions::readable(cube)
    }

    /// The state of `cube`.
    pub open spec fn from_cube_spec(cube: Cube) -> Self {
        RunningState {
            edge_pos: CubeEdgePositions::from_cube_spec(cube),
            corner_pos: CubeCornerPositions::from_cube_spec(cube),
        }
    }

    /// The state of `cube`, or `None` if some place holds colors that no
    /// cubelet of its kind has.
    pub fn try_from_cube(cube: &Cube) -> (out: Option<RunningState>)
        ensures
            out == (if Self::readable(*cube) {
                Some(Self::from_cube_spec(*cube))
            } else {
                None
            }),
    {
        match (CubeEdgePositions::try_from_cube(cube), CubeCornerPositions::try_from_cube(cube)) {
            (Some(edge_pos), Some(corner_pos)) => Some(Self { edge_pos, corner_pos }),
            _ => None,
        }
    }

    /// The state of `cube`.
    pub fn from_cube(cube: &Cube) -> (out: RunningState)
        requires
            Self::readable(*cube),
        ensures
            out == Self::from_cube_spec(*cube),
    {
        Self {
            edge_pos: CubeEdgePositions::from_cube(cube),
            corner_pos: CubeCornerPositions::from_cube(cube),
        }
    }

    /// Whether every cubelet is in its own place.
    pub fn is_solved(&self) -> (b: bool)
        ensures
            b == (*self == Self::solved_spec()),
    {
        self.edge_pos == CubeEdgePositions::make_solved() && self.corner_pos
            == CubeCornerPositions::make_solved()
    }

    /// The positions as a pair.
    pub open spec fn total(self) -> TotalState {
        (self.edge_pos, self.corner_pos)
    }

    /// A quarter turn acts on the edges and on the corners apart.
    pub proof fn lemma_turn_componentwise(self, dir: Dir)
        ensures
            turn(self, dir).edge_pos == turn(self.edge_pos, dir),
            turn(self, dir).corner_pos == turn(self.corner_pos, dir),
    {
    }

    /// A move acts on the edges and on the corners apart.
    pub proof fn lemma_apply_move_componentwise(self, m: FullMove)
        ensures
            apply_move(self, m).edge_pos == apply_move(self.edge_pos, m),
            apply_move(self, m).corner_pos == apply_move(self.corner_pos, m),
    {
        let s1 = turn(self, m.dir);
        let s2 = turn(s1, m.dir);
        self.lemma_turn_componentwise(m.dir);
        s1.lemma_turn_componentwise(m.dir);
        s2.lemma_turn_componentwise(m.dir);
    }

    /// Moves act on each part of the state apart.
    pub proof fn lemma_apply_moves_componentwise(self, moves: Seq<FullMove>)
        ensures
            apply_moves(self, moves).edge_pos == apply_moves(self.edge_pos, moves),
            apply_moves(self, moves).corner_pos == apply_moves(self.corner_pos, moves),
        decreases moves.len(),
    {
        if moves.len() > 0 {
            self.lemma_apply_move_componentwise(moves[0]);
            apply_move(self, moves[0]).lemma_apply_moves_componentwise(moves.drop_first());
        }
    }

}

impl CanMove for RunningState {
    open spec fn r_spec(self) -> Self {
        RunningState { edge_pos: self.edge_pos.r_spec(), corner_pos: self.corner_pos.r_spec() }
    }

    open spec fn l_spec(self) -> Self {
        RunningState { edge_pos: self.edge_pos.l_spec(), corner_pos: self.corner_pos.l_spec() }
    }

    open spec fn u_spec(self) -> Self {
        RunningState { edge_pos: self.edge_pos.u_spec(), corner_pos: self.corner_pos.u_spec() }
    }

    open spec fn d_spec(self) -> Self {
        RunningState { edge_pos: self.edge_pos.d_spec(), corner_pos: self.corner_pos.d_spec() }
    }

    open spec fn b_spec(self) -> Self {
        RunningState { edge_pos: self.edge_pos.b_spec(), corner_pos: self.corner_pos.b_spec() }
    }

    open spec fn f_spec(self) -> Self {
        RunningState { edge_pos: self.edge_pos.f_spec(), corner_pos: self.corner_pos.f_spec() }
    }

    fn r(self) -> (out: Self) {
        Self { edge_pos: self.edge_pos.r(), corner_pos: self.corner_pos.r() }
    }

    fn l(self) -> (out: Self) {
        Self { edge_pos: self.edge_pos.l(), corner_pos: self.corner_pos.l() }
    }

    fn u(self) -> (out: Self) {
        Self { edge_pos: self.edge_pos.u(), corner_pos: self.corner_pos.u() }
    }

    fn d(self) -> (out: Self) {
        Self { edge_pos: self.edge_pos.d(), corner_pos: self.corner_pos.d() }
    }

    fn b(self) -> (out: Self) {
        Self { edge_pos: self.edge_pos.b(), corner_pos: self.corner_pos.b() }
    }

    fn f(self) -> (out: Self) {
        Self { edge_pos: self.edge_pos.f(), corner_pos: self.corner_pos.f() }
    }

    proof fn lemma_four_turns(self) {
        self.edge_pos.lemma_four_turns();
        self.corner_pos.lemma_four_turns();
    }

    proof fn lemma_opposite_turns_commute(self) {
        self.edge_pos.lemma_opposite_turns_commute();
        self.corner_pos.lemma_opposite_turns_commute();
    }
}

/// The goal of the stage: every cubelet is in its own place.
pub struct InH2;

impl Goal<RunningState> for InH2 {
    open spec fn accepts(&self, state: RunningState) -> bool {
        state == RunningState::solved_spec()
    }

    fn reached(&self, state: &RunningState) -> (b: bool) {
        state.is_solved()
    }
}

/// The distances of the edge positions and of the corner positions from the
/// solved ones under the moves of the stage, and those of both together up
/// to a cap.
pub struct H1toH2Cache {
    edge_pos: HeuristicCache<CubeEdgePositions>,
    corner_pos: HeuristicCache<CubeCornerPositions>,
    total_pos: CappedHeuristicCache<TotalState>,
}

fn larger(a: usize, b: usize) -> (m: usize)
    ensures
        m == max_of(a as nat, b as nat),
{
    if a >= b {
        a
    } else {
        b
    }
}

impl H1toH2Cache {
    /// The table of the edge positions.
    pub closed spec fn edge_table(&self) -> HeuristicCache<CubeEdgePositions> {
        self.edge_pos
    }

    /// The table of the corner positions.
    pub closed spec fn corner_table(&self) -> HeuristicCache<CubeCornerPositions> {
        self.corner_pos
    }

    /// The capped table of the positions together.
    pub closed spec fn total_table(&self) -> CappedHeuristicCache<TotalState> {
        self.total_pos
    }

    /// All three tables are finished, from the solved positions, under the
    /// moves of the stage.
    pub open spec fn wf(&self) -> bool {
        &&& self.edge_table().wf()
        &&& self.edge_table().goals() == set![CubeEdgePositions::solved_spec()]
        &&& self.edge_table().moves() == successors(FREE_DIRS@, HALF_DIRS@)
        &&& self.corner_table().wf()
        &&& self.corner_table().goals() == set![CubeCornerPositions::solved_spec()]
        &&& self.corner_table().moves() == successors(FREE_DIRS@, HALF_DIRS@)
        &&& self.total_table().wf()
        &&& self.total_table().goals() == set![RunningState::solved_spec().total()]
        &&& self.total_table().moves() == successors(FREE_DIRS@, HALF_DIRS@)
        &&& self.total_table().fuel() == TOTAL_STATE_FUEL
    }

    /// Fills the tables of the phase.
    pub fn initialize() -> (cache: Self)
        ensures
            cache.wf(),
    {
        let free: [Dir; 2] = FREE_DIRS;
        let half: [Dir; 4] = HALF_DIRS;
        H1toH2Cache {
            edge_pos: HeuristicCache::from_goal(
                CubeEdgePositions::make_solved(),
                free.as_slice(),
                half.as_slice(),
            ),
            corner_pos: HeuristicCache::from_goal(
                CubeCornerPositions::make_solved(),
                free.as_slice(),
                half.as_slice(),
            ),
            total_pos: CappedHeuristicCache::from_goal(
                (CubeEdgePositions::make_solved(), CubeCornerPositions::make_solved()),
                free.as_slice(),
                half.as_slice(),
                TOTAL_STATE_FUEL,
            ),
        }
    }

    /// The heuristic of the stage never overestimates: it can be asked about
    /// every state from which moves of the stage lead to the solved state, and
    /// what it says is at most the number of the moves.
    pub proof fn lemma_admissible(&self, state: RunningState, path: Seq<FullMove>)
        requires
            self.wf(),
            path_in(path, successors(FREE_DIRS@, HALF_DIRS@)),
            apply_moves(state, path) == RunningState::solved_spec(),
        ensures
            self.covers(state),
            self.estimate(state) <= path.len(),
    {
        state.lemma_apply_moves_componentwise(path);
        self.edge_table().lemma_exact(state.edge_pos, path);
        self.corner_table().lemma_exact(state.corner_pos, path);
        lemma_pair_apply_moves(state.total(), path);
        self.total_table().lemma_admissible(state.total(), path);
    }

    /// The heuristic of the stage is one of which the search finds shortest
    /// paths: it never overestimates, and says at least 1 of a state that
    /// is no goal.
    pub proof fn lemma_admissible_for_search(&self)
        requires
            self.wf(),
        ensures
            admissible::<RunningState, _, H1toH2Cache>(
                &InH2,
                self,
                successors(FREE_DIRS@, HALF_DIRS@),
            ),
    {
        let succ = successors(FREE_DIRS@, HALF_DIRS@);
        assert forall|s: RunningState, path: Seq<FullMove>|
            (forall|k: int| 0 <= k < path.len() ==> succ.contains(#[trigger] path[k]))
                && #[trigger] InH2.accepts(apply_moves(s, path)) implies self.estimate(s)
            <= path.len() by {
            self.lemma_admissible(s, path);
        }
        assert forall|s: RunningState| self.covers(
            s,
        ) && !InH2.accepts(s) implies #[trigger] self.estimate(
            s,
        ) >= 1 by {
            self.edge_table().lemma_exact(s.edge_pos, Seq::empty());
            self.corner_table().lemma_exact(s.corner_pos, Seq::empty());
            crate::heuristic_caches::lemma_no_cost_is_goal(
                self.edge_table().table(),
                self.edge_table().goals(),
                self.edge_table().moves(),
                s.edge_pos,
            );
            crate::heuristic_caches::lemma_no_cost_is_goal(
                self.corner_table().table(),
                self.corner_table().goals(),
                self.corner_table().moves(),
                s.corner_pos,
            );
        }
    }

    /// With a state the tables hold every state that a move of the stage
    /// makes of it.
    pub proof fn lemma_closed(&self)
        requires
            self.wf(),
        ensures
            heuristic_closed::<RunningState, H1toH2Cache>(self, successors(FREE_DIRS@, HALF_DIRS@)),
    {
        let succ = successors(FREE_DIRS@, HALF_DIRS@);
        assert forall|s: RunningState, i: int|
            self.covers(s) && 0 <= i < succ.len() implies #[trigger] self.covers(
            apply_move(s, succ[i]),
        ) by {
            s.lemma_apply_move_componentwise(succ[i]);
            self.edge_table().lemma_closed(s.edge_pos, i);
            self.corner_table().lemma_closed(s.corner_pos, i);
        }
    }
}

impl Heuristic<RunningState> for H1toH2Cache {
    open spec fn covers(&self, state: RunningState) -> bool {
        &&& self.edge_table().contains(state.edge_pos)
        &&& self.corner_table().contains(state.corner_pos)
        &&& self.total_table().covers(state.total())
    }

    /// The greatest of the three distances.
    open spec fn estimate(&self, state: RunningState) -> nat {
        max_of(
            max_of(
                self.edge_table().cost(state.edge_pos),
                self.corner_table().cost(state.corner_pos),
            ),
            self.total_table().estimate(state.total()),
        )
    }

    fn evaluate(&self, s: &RunningState) -> (cost: usize) {
        let edges = self.edge_pos.evaluate(&s.edge_pos);
        let corners = self.corner_pos.evaluate(&s.corner_pos);
        let total = self.total_pos.evaluate(&(s.edge_pos, s.corner_pos));

        larger(larger(edges, corners), total)
    }
}

/// What `solve_to_h2` finds for a state.
pub open spec fn h2_search(cache: &H1toH2Cache, start: RunningState) -> Option<Seq<FullMove>> {
    search(&InH2, cache, FREE_DIRS@, HALF_DIRS@, start, MAX_MOVES as nat)
}

/// Whether the stage can start from the cube: its places hold the colors of
/// cubelets, and moves of the stage lead from their positions to the solved
/// ones, for the edges and for the corners.
pub open spec fn h2_ready(cache: &H1toH2Cache, cube: Cube) -> bool {
    RunningState::readable(cube) && cache.covers(RunningState::from_cube_spec(cube))
}

/// The stage finds a shortest path: what comes back is no longer than any
/// path of moves of the stage from the state of the cube to the goal that
/// leaves one move of the cap to spare.
pub proof fn lemma_finds_shortest(cache: &H1toH2Cache, cube: Cube, path: Seq<FullMove>)
    requires
        cache.wf(),
        h2_ready(cache, cube),
        all_allowed(FREE_DIRS@, HALF_DIRS@, path),
        InH2.accepts(apply_moves(RunningState::from_cube_spec(cube), path)),
        path.len() < MAX_MOVES,
    ensures
        solve_to_h2_spec(cube, cache) matches Ok(found) && found.len() <= path.len(),
{
    cache.lemma_admissible_for_search();
    cache.lemma_closed();
    lemma_search_finds_shortest(
        &InH2,
        cache,
        FREE_DIRS@,
        HALF_DIRS@,
        RunningState::from_cube_spec(cube),
        MAX_MOVES as nat,
        path,
    );
}

/// What `solve_to_h2` returns: `UnsolvableInput` where the stage cannot start
/// from the cube, else the find of the search, or `SearchBudgetExceeded`.
pub open spec fn solve_to_h2_spec(cube: Cube, cache: &H1toH2Cache) -> Result<
    Seq<FullMove>,
    SolveError,
> {
    if h2_ready(cache, cube) {
        found_or_exceeded(h2_search(cache, RunningState::from_cube_spec(cube)))
    } else {
        Err(SolveError::UnsolvableInput)
    }
}

/// Solves a cube in H1: finds moves of the stage after which every cubelet
/// is in its own place. `UnsolvableInput` says that the positions cannot be
/// read from the cube or that no moves of the stage lead from them to the
/// solved ones; `SearchBudgetExceeded` that the search found none within
/// its cap.
pub fn solve_to_h2(cube: &Cube, cache: &H1toH2Cache) -> (res: Result<Vec<FullMove>, SolveError>)
    requires
        cache.wf(),
    ensures
        result_view(res) == solve_to_h2_spec(*cube, cache),
        res matches Ok(moves) ==> {
            &&& apply_moves(RunningState::from_cube_spec(*cube), moves@)
                == RunningState::solved_spec()
            &&& forall|k: int|
                0 <= k < moves.len() ==> move_allowed(FREE_DIRS@, HALF_DIRS@, #[trigger] moves[k])
            &&& moves.len() <= MAX_MOVES
            &&& RunningState::readable(apply_moves(*cube, moves@)) && RunningState::from_cube_spec(
                apply_moves(*cube, moves@),
            ) == RunningState::solved_spec()
        },
{
    let start_state = match RunningState::try_from_cube(cube) {
        Some(start_state) => start_state,
        None => {
            return Err(SolveError::UnsolvableInput);
        },
    };
    if cache.edge_pos.lookup(&start_state.edge_pos).is_none() || cache.corner_pos.lookup(
        &start_state.corner_pos,
    ).is_none() {
        return Err(SolveError::UnsolvableInput);
    }
    let free: [Dir; 2] = FREE_DIRS;
    let half: [Dir; 4] = HALF_DIRS;
    proof {
        cache.lemma_closed();
    }
    let res = solve(start_state, free.as_slice(), half.as_slice(), &InH2, cache, MAX_MOVES);
    proof {
        if let Ok(moves) = &res {
            lemma_positions_follow_moves(*cube, moves@);
            RunningState::from_cube_spec(*cube).lemma_apply_moves_componentwise(moves@);
            CubePositions::from_cube_spec(*cube).lemma_apply_moves_componentwise(moves@);
        }
    }
    res
}

} // verus!
