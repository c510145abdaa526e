//! From any solvable cube to one whose edges are all good.

use crate::cube::{Cube, Facelet};
use crate::dfs_util::{admissible, 
    found_or_exceeded, Goal, heuristic_closed, move_allowed, result_view, search, solve,
    SolveError, successors,
};
use crate::edge_orientation_state::EdgeOrientationState;
use crate::heuristic_caches::{HeuristicCache, path_in};
use crate::moves::{
    ALL_DIRS, apply_move, apply_moves, Dir, FullMove, invert_spec, lemma_invert_undoes,
};
use crate::dfs_util::lemma_all_moves_allowed;
use crate::projection::{lemma_solved_cube_states, lemma_states_follow_moves};
use crate::canonical::{all_allowed, lemma_search_finds_shortest};
use crate::heuristic_caches::Heuristic;
use vstd::prelude::*;

verus! {

/// The most moves that the stage may take. No state is more than 7 moves
/// away; the search finds a path of `n` moves with a budget of `n + 1`.
pub const MAX_MOVES: usize = 8;

/// The distances of the edge orientation states from the solved one under
/// turns of all six faces.
pub struct G0toG1Cache {
    heuristic_cache: HeuristicCache<EdgeOrientationState>,
}

/// The goal of the stage: every edge is good.
pub struct EdgesOriented;

impl Goal<EdgeOrientationState> for EdgesOriented {
    open spec fn accepts(&self, state: EdgeOrientationState) -> bool {
        state == EdgeOrientationState::solved_spec()
    }

    fn reached(&self, state: &EdgeOrientationState) -> (b: bool) {
        state.is_solved()
    }
}

impl G0toG1Cache {
    /// The table of the stage.
    pub closed spec fn table(&self) -> HeuristicCache<EdgeOrientationState> {
        self.heuristic_cache
    }

    /// The table is finished, from the solved state, under all six faces.
    pub open spec fn wf(&self) -> bool {
        &&& self.table().wf()
        &&& self.table().goals() == set![EdgeOrientationState::solved_spec()]
        &&& self.table().moves() == successors(ALL_DIRS@, Seq::<Dir>::empty())
    }

    /// Fills the table of the stage.
    pub fn initialize() -> (cache: Self)
        ensures
            cache.wf(),
    {
        let free: [Dir; 6] = ALL_DIRS;
        let half: [Dir; 0] = [];
        assert(half@ =~= Seq::<Dir>::empty());
        G0toG1Cache {
            heuristic_cache: HeuristicCache::from_goal(
                EdgeOrientationState::make_solved(),
                free.as_slice(),
                half.as_slice(),
            ),
        }
    }
    /// The heuristic of the stage never overestimates: it can be asked about
    /// every state from which moves of the stage lead to the solved state, and
    /// what it says is at most the number of the moves.
    pub proof fn lemma_admissible(&self, state: EdgeOrientationState, path: Seq<FullMove>)
        requires
            self.wf(),
            path_in(path, successors(ALL_DIRS@, Seq::<Dir>::empty())),
            apply_moves(state, path) == EdgeOrientationState::solved_spec(),
        ensures
            self.table().contains(state),
            self.table().cost(state) <= path.len(),
    {
        self.table().lemma_exact(state, path);
    }
}

/// What `solve_to_g1` finds for an edge orientation state.
pub open spec fn g1_search(cache: &G0toG1Cache, start: EdgeOrientationState) -> Option<
    Seq<FullMove>,
> {
    search(
        &EdgesOriented,
        &cache.table(),
        ALL_DIRS@,
        Seq::<Dir>::empty(),
        start,
        MAX_MOVES as nat,
    )
}

/// The stage can start from every cube that moves make of a solved cube:
/// `UnsolvableInput` does not come back for it.
pub proof fn lemma_reachable_can_start(
    cache: &G0toG1Cache,
    front: Facelet,
    top: Facelet,
    moves: Seq<FullMove>,
)
    requires
        cache.wf(),
        front.axis() != top.axis(),
    ensures
        cache.table().contains(
            EdgeOrientationState::from_cube_spec(apply_moves(Cube::solved(front, top), moves)),
        ),
{
    let cube = Cube::solved(front, top);
    lemma_solved_cube_states(front, top);
    lemma_states_follow_moves(cube, moves);
    let state = apply_moves(EdgeOrientationState::solved_spec(), moves);
    let back = invert_spec(moves);
    lemma_invert_undoes(EdgeOrientationState::solved_spec(), moves);
    assert(path_in(back, cache.table().moves())) by {
        assert forall|k: int| 0 <= k < back.len() implies cache.table().moves().contains(
            #[trigger] back[k],
        ) by {
            lemma_all_moves_allowed(back[k]);
        }
    }
    cache.table().lemma_exact(state, back);
}

/// The table of the stage is a heuristic of which the search finds shortest
/// paths: it never overestimates, it says at least 1 of a state that is no
/// goal, and with a state it holds every state that a move makes of it.
pub proof fn lemma_table_for_search(cache: &G0toG1Cache)
    requires
        cache.wf(),
    ensures
        admissible::<EdgeOrientationState, _, _>(
            &EdgesOriented,
            &cache.table(),
            successors(ALL_DIRS@, Seq::<Dir>::empty()),
        ),
        heuristic_closed::<EdgeOrientationState, _>(
            &cache.table(),
            successors(ALL_DIRS@, Seq::<Dir>::empty()),
        ),
{
    let succ = successors(ALL_DIRS@, Seq::<Dir>::empty());
    let table = cache.table();
    assert forall|s: EdgeOrientationState, path: Seq<FullMove>|
        (forall|k: int| 0 <= k < path.len() ==> succ.contains(#[trigger] path[k]))
            && #[trigger] EdgesOriented.accepts(apply_moves(s, path)) implies table.estimate(s)
        <= path.len() by {
        table.lemma_exact(s, path);
    }
    assert forall|s: EdgeOrientationState|
        table.covers(s) && !EdgesOriented.accepts(s) implies #[trigger] table.estimate(s)
        >= 1 by {
        table.lemma_exact(s, Seq::empty());
        crate::heuristic_caches::lemma_no_cost_is_goal(
            table.table(),
            table.goals(),
            table.moves(),
            s,
        );
    }
    assert forall|s: EdgeOrientationState, i: int|
        table.covers(s) && 0 <= i < succ.len() implies #[trigger] table.covers(
        apply_move(s, succ[i]),
    ) by {
        table.lemma_closed(s, i);
    }
}

/// The stage finds a shortest path: what comes back is no longer than any
/// path from the state of the cube to the goal that leaves one move of the
/// cap to spare.
pub proof fn lemma_finds_shortest(cache: &G0toG1Cache, cube: Cube, path: Seq<FullMove>)
    requires
        cache.wf(),
        cache.table().contains(EdgeOrientationState::from_cube_spec(cube)),
        apply_moves(EdgeOrientationState::from_cube_spec(cube), path)
            == EdgeOrientationState::solved_spec(),
        path.len() < MAX_MOVES,
    ensures
        solve_to_g1_spec(cube, cache) matches Ok(found) && found.len() <= path.len(),
{
    lemma_table_for_search(cache);
    assert(all_allowed(ALL_DIRS@, Seq::<Dir>::empty(), path)) by {
        assert forall|k: int| 0 <= k < path.len() implies move_allowed(
            ALL_DIRS@,
            Seq::<Dir>::empty(),
            #[trigger] path[k],
        ) by {
            lemma_all_moves_allowed(path[k]);
            crate::dfs_util::lemma_successors_allowed(ALL_DIRS@, Seq::<Dir>::empty(), path[k]);
        }
    }
    lemma_search_finds_shortest(
        &EdgesOriented,
        &cache.table(),
        ALL_DIRS@,
        Seq::<Dir>::empty(),
        EdgeOrientationState::from_cube_spec(cube),
        MAX_MOVES as nat,
        path,
    );
}

/// What `solve_to_g1` returns: `UnsolvableInput` where the stage cannot start
/// from the cube, else the find of the search, or `SearchBudgetExceeded`.
pub open spec fn solve_to_g1_spec(
    cube: Cube,
    cache: &G0toG1Cache,
) -> Result<Seq<FullMove>, SolveError> {
    if cache.table().contains(EdgeOrientationState::from_cube_spec(cube)) {
        found_or_exceeded(g1_search(cache, EdgeOrientationState::from_cube_spec(cube)))
    } else {
        Err(SolveError::UnsolvableInput)
    }
}

/// Solves a given cube to G1: finds moves after which every edge is good.
/// `UnsolvableInput` says that no moves lead from the edge orientation of
/// the cube to the solved one; `SearchBudgetExceeded` that the search found
/// none within its cap.
pub fn solve_to_g1(cube: &Cube, cache: &G0toG1Cache) -> (res: Result<Vec<FullMove>, SolveError>)
    requires
        cache.wf(),
    ensures
        result_view(res) == solve_to_g1_spec(*cube, cache),
        res matches Ok(moves) ==> {
            &&& apply_moves(EdgeOrientationState::from_cube_spec(*cube), moves@)
                == EdgeOrientationState::solved_spec()
            &&& forall|k: int|
                0 <= k < moves.len() ==> move_allowed(
                    ALL_DIRS@,
                    Seq::<Dir>::empty(),
                    #[trigger] moves[k],
                )
            &&& moves.len() <= MAX_MOVES
            &&& cube.well_formed() ==> EdgeOrientationState::from_cube_spec(
                apply_moves(*cube, moves@),
            ) == EdgeOrientationState::solved_spec()
        },
{
    let start = EdgeOrientationState::from_cube(cube);
    if cache.heuristic_cache.lookup(&start).is_none() {
        return Err(SolveError::UnsolvableInput);
    }
    let free: [Dir; 6] = ALL_DIRS;
    let half: [Dir; 0] = [];
    proof {
        assert(half@ =~= Seq::<Dir>::empty());
        assert forall|s: EdgeOrientationState, i: int|
            cache.table().contains(s) && 0 <= i < cache.table().moves().len() implies #[trigger]
            cache.table().contains(apply_move(s, cache.table().moves()[i])) by {
            cache.table().lemma_closed(s, i);
        }
    }
    let res = solve(
        start,
        free.as_slice(),
        half.as_slice(),
        &EdgesOriented,
        &cache.heuristic_cache,
        MAX_MOVES,
    );
    proof {
        if let Ok(moves) = &res {
            if cube.well_formed() {
                lemma_states_follow_moves(*cube, moves@);
            }
        }
    }
    res
}

} // verus!
