//! From a cube in G3 to the solved cube, by half turns alone.
//!
//! G3 is the set of all configurations that half turns make of the solved
//! cube. Orientations cannot change there, so the positions of the cubelets
//! say all.

use crate::corner_position_state::CubeCornerPositions;
use crate::cube::Cube;
use crate::dfs_util::{
    admissible, found_or_exceeded, Goal, heuristic_closed, move_allowed, result_view, search,
    solve, SolveError, successors,
};
use crate::edge_position_state::CubeEdgePositions;
use crate::heuristic_caches::{Heuristic, HeuristicCache, path_in};
use crate::moves::{ALL_DIRS, apply_move, apply_moves, Dir, FullMove};
use crate::total_position_state::CubePositions;
use crate::projection::{lemma_positions_follow_moves, lemma_states_follow_moves};
use crate::canonical::{all_allowed, lemma_search_finds_shortest};
use crate::thistlethwaite::g2g3::{in_g3, is_g3_route};
use vstd::prelude::*;

verus! {

/// The most moves that the stage may take.
pub const MAX_MOVES: usize = 16;


/// The goal of the stage: every cubelet is in its own place.
pub struct AllHome;

impl Goal<CubePositions> for AllHome {
    open spec fn accepts(&self, state: CubePositions) -> bool {
        state == CubePositions::solved_spec()
    }

    fn reached(&self, state: &CubePositions) -> (b: bool) {
        state.is_solved()
    }
}

/// The distances of the corner positions and of the edge positions from the
/// solved ones under half turns.
pub struct G3toG4Cache {
    corner_heuristic: HeuristicCache<CubeCornerPositions>,
    edge_heuristic: HeuristicCache<CubeEdgePositions>,
}

impl G3toG4Cache {
    /// The table of the corner positions.
    pub closed spec fn corner_table(&self) -> HeuristicCache<CubeCornerPositions> {
        self.corner_heuristic
    }

    /// The table of the edge positions.
    pub closed spec fn edge_table(&self) -> HeuristicCache<CubeEdgePositions> {
        self.edge_heuristic
    }

    /// Both tables are finished, from the solved positions, under half
    /// turns of all faces.
    pub open spec fn wf(&self) -> bool {
        &&& self.edge_table().wf()
        &&& self.edge_table().goals() == set![CubeEdgePositions::solved_spec()]
        &&& self.edge_table().moves() == successors(Seq::<Dir>::empty(), ALL_DIRS@)
        &&& self.corner_table().wf()
        &&& self.corner_table().goals() == set![CubeCornerPositions::solved_spec()]
        &&& self.corner_table().moves() == successors(Seq::<Dir>::empty(), ALL_DIRS@)
    }

    /// Fills the tables of the stage.
    pub fn initialize() -> (cache: Self)
        ensures
            cache.wf(),
    {
        let free: [Dir; 0] = [];
        let half: [Dir; 6] = ALL_DIRS;
        assert(free@ =~= Seq::<Dir>::empty());
        Self {
            corner_heuristic: HeuristicCache::from_goal(
                CubeCornerPositions::make_solved(),
                free.as_slice(),
                half.as_slice(),
            ),
            edge_heuristic: HeuristicCache::from_goal(
                CubeEdgePositions::make_solved(),
                free.as_slice(),
                half.as_slice(),
            ),
        }
    }

    /// The heuristic of the stage never overestimates: it can be asked about
    /// every state from which moves of the stage lead to the solved state, and
    /// what it says is at most the number of the moves.
    pub proof fn lemma_admissible(&self, state: CubePositions, path: Seq<FullMove>)
        requires
            self.wf(),
            path_in(path, successors(Seq::<Dir>::empty(), ALL_DIRS@)),
            apply_moves(state, path) == CubePositions::solved_spec(),
        ensures
            self.covers(state),
            self.estimate(state) <= path.len(),
    {
        state.lemma_apply_moves_componentwise(path);
        self.edge_table().lemma_exact(state.edges, path);
        self.corner_table().lemma_exact(state.corners, path);
    }

    /// The heuristic of the stage is one of which the search finds shortest
    /// paths: it never overestimates, and says at least 1 of a state that
    /// is no goal.
    pub proof fn lemma_admissible_for_search(&self)
        requires
            self.wf(),
        ensures
            admissible::<CubePositions, _, G3toG4Cache>(
                &AllHome,
                self,
                successors(Seq::<Dir>::empty(), ALL_DIRS@),
            ),
    {
        let succ = successors(Seq::<Dir>::empty(), ALL_DIRS@);
        assert forall|s: CubePositions, path: Seq<FullMove>|
            (forall|k: int| 0 <= k < path.len() ==> succ.contains(#[trigger] path[k]))
                && #[trigger] AllHome.accepts(apply_moves(s, path)) implies self.estimate(s)
            <= path.len() by {
            self.lemma_admissible(s, path);
        }
        assert forall|s: CubePositions| self.covers(
            s,
        ) && !AllHome.accepts(s) implies #[trigger] self.estimate(
            s,
        ) >= 1 by {
            self.edge_table().lemma_exact(s.edges, Seq::empty());
            self.corner_table().lemma_exact(s.corners, Seq::empty());
            crate::heuristic_caches::lemma_no_cost_is_goal(
                self.edge_table().table(),
                self.edge_table().goals(),
                self.edge_table().moves(),
                s.edges,
            );
            crate::heuristic_caches::lemma_no_cost_is_goal(
                self.corner_table().table(),
                self.corner_table().goals(),
                self.corner_table().moves(),
                s.corners,
            );
        }
    }

    /// With a state the tables hold every state that a half turn makes of
    /// it.
    pub proof fn lemma_closed(&self)
        requires
            self.wf(),
        ensures
            heuristic_closed::<CubePositions, G3toG4Cache>(
                self,
                successors(Seq::<Dir>::empty(), ALL_DIRS@),
            ),
    {
        let succ = successors(Seq::<Dir>::empty(), ALL_DIRS@);
        assert forall|s: CubePositions, i: int|
            self.covers(s) && 0 <= i < succ.len() implies #[trigger] self.covers(
            apply_move(s, succ[i]),
        ) by {
            s.lemma_apply_move_componentwise(succ[i]);
            self.edge_table().lemma_closed(s.edges, i);
            self.corner_table().lemma_closed(s.corners, i);
        }
    }
}

impl Heuristic<CubePositions> for G3toG4Cache {
    open spec fn covers(&self, state: CubePositions) -> bool {
        self.edge_table().contains(state.edges) && self.corner_table().contains(state.corners)
    }

    /// The greater of the two distances.
    open spec fn estimate(&self, state: CubePositions) -> nat {
        if self.edge_table().cost(state.edges) >= self.corner_table().cost(state.corners) {
            self.edge_table().cost(state.edges)
        } else {
            self.corner_table().cost(state.corners)
        }
    }

    fn evaluate(&self, state: &CubePositions) -> (cost: usize) {
        let e = self.edge_heuristic.evaluate(&state.edges);
        let c = self.corner_heuristic.evaluate(&state.corners);
        if e >= c {
            e
        } else {
            c
        }
    }
}

/// What `solve_to_g4` finds for a state.
pub open spec fn g4_search(cache: &G3toG4Cache, start: CubePositions) -> Option<Seq<FullMove>> {
    search(&AllHome, cache, Seq::<Dir>::empty(), ALL_DIRS@, start, MAX_MOVES as nat)
}

/// Whether the stage can start from the cube: its places hold the colors of
/// cubelets, and half turns lead from their positions to the solved ones,
/// for the edges and for the corners.
pub open spec fn g4_ready(cache: &G3toG4Cache, cube: Cube) -> bool {
    CubePositions::readable(cube) && cache.covers(CubePositions::from_cube_spec(cube))
}

/// The stage finds a shortest path: what comes back is no longer than any
/// path of moves of the stage from the state of the cube to the goal that
/// leaves one move of the cap to spare.
pub proof fn lemma_finds_shortest(cache: &G3toG4Cache, cube: Cube, path: Seq<FullMove>)
    requires
        cache.wf(),
        g4_ready(cache, cube),
        all_allowed(Seq::<Dir>::empty(), ALL_DIRS@, path),
        AllHome.accepts(apply_moves(CubePositions::from_cube_spec(cube), path)),
        path.len() < MAX_MOVES,
    ensures
        solve_to_g4_spec(cube, cache) matches Ok(found) && found.len() <= path.len(),
{
    cache.lemma_admissible_for_search();
    cache.lemma_closed();
    lemma_search_finds_shortest(
        &AllHome,
        cache,
        Seq::<Dir>::empty(),
        ALL_DIRS@,
        CubePositions::from_cube_spec(cube),
        MAX_MOVES as nat,
        path,
    );
}

/// The stage can start from every cube of G3: it never says
/// `UnsolvableInput` of a cube whose positions half turns make of the
/// solved ones.
pub proof fn lemma_g3_can_start(cache: &G3toG4Cache, cube: Cube)
    requires
        cache.wf(),
        CubePositions::readable(cube),
        in_g3(CubePositions::from_cube_spec(cube)),
    ensures
        g4_ready(cache, cube),
        solve_to_g4_spec(cube, cache) != Err::<Seq<FullMove>, SolveError>(
            SolveError::UnsolvableInput,
        ),
{
    let state = CubePositions::from_cube_spec(cube);
    let path = choose|path: Seq<FullMove>| #[trigger] is_g3_route(path, state);
    cache.lemma_admissible(state, path);
}

/// What `solve_to_g4` returns: `UnsolvableInput` where the stage cannot start
/// from the cube, else the find of the search, or `SearchBudgetExceeded`.
pub open spec fn solve_to_g4_spec(
    cube: Cube,
    cache: &G3toG4Cache,
) -> Result<Seq<FullMove>, SolveError> {
    if g4_ready(cache, cube) {
        found_or_exceeded(g4_search(cache, CubePositions::from_cube_spec(cube)))
    } else {
        Err(SolveError::UnsolvableInput)
    }
}

/// Solves a cube in G3: finds half turns after which every cubelet is in
/// its own place. `UnsolvableInput` says that the positions cannot be read
/// from the cube or that no half turns lead from them to the solved ones;
/// `SearchBudgetExceeded` that the search found none within its cap.
pub fn solve_to_g4(cube: &Cube, cache: &G3toG4Cache) -> (res: Result<Vec<FullMove>, SolveError>)
    requires
        cache.wf(),
    ensures
        result_view(res) == solve_to_g4_spec(*cube, cache),
        res matches Ok(moves) ==> {
            &&& apply_moves(CubePositions::from_cube_spec(*cube), moves@)
                == CubePositions::solved_spec()
            &&& forall|k: int|
                0 <= k < moves.len() ==> move_allowed(
                    Seq::<Dir>::empty(),
                    ALL_DIRS@,
                    #[trigger] moves[k],
                )
            &&& moves.len() <= MAX_MOVES
            &&& CubePositions::readable(
                apply_moves(*cube, moves@),
            ) && CubePositions::from_cube_spec(
                apply_moves(*cube, moves@),
            ) == CubePositions::solved_spec()
        },
{
    let start = match CubePositions::try_from_cube(cube) {
        Some(start) => start,
        None => {
            return Err(SolveError::UnsolvableInput);
        },
    };
    if cache.edge_heuristic.lookup(&start.edges).is_none() || cache.corner_heuristic.lookup(
        &start.corners,
    ).is_none() {
        return Err(SolveError::UnsolvableInput);
    }
    let free: [Dir; 0] = [];
    let half: [Dir; 6] = ALL_DIRS;
    proof {
        assert(free@ =~= Seq::<Dir>::empty());
        cache.lemma_closed();
    }
    let res = solve(start, free.as_slice(), half.as_slice(), &AllHome, cache, MAX_MOVES);
    proof {
        if let Ok(moves) = &res {
            lemma_positions_follow_moves(*cube, moves@);
        }
    }
    res
}

} // verus!
