//! From a cube in G2 to one in G3: to positions that half turns make of the
//! solved ones.
//!
//! G3 has fewer than a million elements, so its positions are enumerated,
//! breadth first from the solved ones under half turns. Half turns act on
//! the edges and on the corners apart; the cache keeps the edge positions
//! and the corner positions of G3 and tests a state against both.

use crate::corner_position_state::CubeCornerPositions;
use crate::cube::Cube;
use crate::dfs_util::{
    admissible, found_or_exceeded, Goal, heuristic_closed, lemma_search_short, move_allowed,
    result_view, search, solve, SolveError, successors,
};
use crate::edge_position_state::CubeEdgePositions;
use crate::hashed::{key_set_contains, key_set_insert, key_set_new, KeySet};
use crate::heuristic_caches::{Heuristic, HeuristicCache, path_in};
use crate::moves::{ALL_DIRS, apply_move, apply_moves, Dir, FullMove};
use crate::state_key::StateKey;
use crate::total_position_state::{CubePositions, lemma_all_pairs, pairs_of};
use crate::projection::{lemma_positions_follow_moves, lemma_states_follow_moves};
use crate::canonical::{all_allowed, lemma_search_finds_shortest};
use vstd::prelude::*;

verus! {

pub const G2_FREE_DIRS: [Dir; 2] = [Dir::L, Dir::R];

pub const G2_DOUBLE_DIRS: [Dir; 4] = [Dir::U, Dir::D, Dir::F, Dir::B];

/// The most moves that the stage may take. The search finds only paths
/// shorter than its cap, so it runs with a cap of one more.
pub const MAX_MOVES: usize = 13;

/// The half turns of all six faces.
pub open spec fn half_turns() -> Seq<FullMove> {
    successors(Seq::<Dir>::empty(), ALL_DIRS@)
}

/// `path` is made of half turns and leads from `state` to the solved
/// positions.
pub open spec fn is_g3_route(path: Seq<FullMove>, state: CubePositions) -> bool {
    path_in(path, half_turns()) && apply_moves(state, path) == CubePositions::solved_spec()
}

/// The positions of a cube in G3: half turns lead from them to the solved
/// ones, and so from the solved ones to them.
pub open spec fn in_g3(state: CubePositions) -> bool {
    exists|path: Seq<FullMove>| #[trigger] is_g3_route(path, state)
}

/// The edge positions of some state of G3.
pub open spec fn is_g3_edges(edges: CubeEdgePositions) -> bool {
    exists|state: CubePositions| #[trigger] in_g3(state) && state.edges == edges
}

/// The corner positions of some state of G3.
pub open spec fn is_g3_corners(corners: CubeCornerPositions) -> bool {
    exists|state: CubePositions| #[trigger] in_g3(state) && state.corners == corners
}

/// The states of G3.
pub open spec fn g3_states() -> Set<CubePositions> {
    Set::new(|state: CubePositions| in_g3(state))
}

/// The edge positions of the states of G3.
pub open spec fn g3_edges() -> Set<CubeEdgePositions> {
    Set::new(|edges: CubeEdgePositions| is_g3_edges(edges))
}

/// The corner positions of the states of G3.
pub open spec fn g3_corners() -> Set<CubeCornerPositions> {
    Set::new(|corners: CubeCornerPositions| is_g3_corners(corners))
}

/// The edge and corner positions of G3, and for each their distances from
/// the positions of a cube under the moves of the stage.
pub struct G2toG3Cache {
    edges: KeySet,
    edge_heuristic: HeuristicCache<CubeEdgePositions>,
    corners: KeySet,
    corner_heuristic: HeuristicCache<CubeCornerPositions>,
}

impl G2toG3Cache {
    /// The keys of the edge positions of G3.
    pub closed spec fn edge_keys(&self) -> Set<u128> {
        self.edges@
    }

    /// The keys of the corner positions of G3.
    pub closed spec fn corner_keys(&self) -> Set<u128> {
        self.corners@
    }

    /// The table of the edge positions.
    pub closed spec fn edge_table(&self) -> HeuristicCache<CubeEdgePositions> {
        self.edge_heuristic
    }

    /// The table of the corner positions.
    pub closed spec fn corner_table(&self) -> HeuristicCache<CubeCornerPositions> {
        self.corner_heuristic
    }

    /// The sets hold the edge positions and the corner positions of G3, G3
    /// is all pairs of them, and the tables are finished from them under
    /// the moves of the stage.
    pub open spec fn wf(&self) -> bool {
        &&& g3_states() == pairs_of(g3_edges(), g3_corners())
        &&& forall|e: CubeEdgePositions| #[trigger]
            self.edge_keys().contains(e.key_spec()) <==> is_g3_edges(e)
        &&& forall|c: CubeCornerPositions| #[trigger]
            self.corner_keys().contains(c.key_spec()) <==> is_g3_corners(c)
        &&& self.edge_table().wf()
        &&& forall|e: CubeEdgePositions| #[trigger]
            self.edge_table().goals().contains(e) <==> is_g3_edges(e)
        &&& self.edge_table().moves() == successors(G2_FREE_DIRS@, G2_DOUBLE_DIRS@)
        &&& self.corner_table().wf()
        &&& forall|c: CubeCornerPositions| #[trigger]
            self.corner_table().goals().contains(c) <==> is_g3_corners(c)
        &&& self.corner_table().moves() == successors(G2_FREE_DIRS@, G2_DOUBLE_DIRS@)
    }

    /// Enumerates G3 and fills the tables. `InvariantViolated` says that the
    /// number of edge positions times the number of corner positions is not
    /// the number of states of G3: that G3 is not all pairs of them.
    pub fn initialize() -> (res: Result<Self, SolveError>)
        ensures
            match res {
                Ok(cache) => cache.wf(),
                Err(e) => e == SolveError::InvariantViolated,
            },
            res is Ok <==> g3_edges().len() * g3_corners().len() == g3_states().len(),
    {
        let none: [Dir; 0] = [];
        let all: [Dir; 6] = ALL_DIRS;
        let mut start: Vec<CubePositions> = Vec::new();
        start.push(CubePositions::make_solved());
        let (full, full_states) = HeuristicCache::from_list_with_states(
            &start,
            none.as_slice(),
            all.as_slice(),
        );
        proof {
            assert(none@ =~= Seq::<Dir>::empty());
            assert(start@.to_set() =~= set![CubePositions::solved_spec()]) by {
                assert(start@[0] == CubePositions::solved_spec());
            }
            // the enumeration holds G3 and nothing else
            assert forall|s: CubePositions| #[trigger] full_states@.contains(s) <==> in_g3(s) by {
                if full.contains(s) {
                    full.lemma_exact(s, Seq::empty());
                    let p = choose|p: Seq<FullMove>| #[trigger]
                        crate::heuristic_caches::is_route(
                            p,
                            s,
                            full.goals(),
                            full.moves(),
                            full.cost(s),
                        );
                    assert(is_g3_route(p, s));
                }
                if in_g3(s) {
                    let p = choose|p: Seq<FullMove>| #[trigger] is_g3_route(p, s);
                    full.lemma_exact(s, p);
                }
            }
        }

        let mut edges = key_set_new();
        let mut corners = key_set_new();
        let mut edge_states: Vec<CubeEdgePositions> = Vec::new();
        let mut corner_states: Vec<CubeCornerPositions> = Vec::new();
        let mut i: usize = 0;
        while i < full_states.len()
            invariant
                i <= full_states.len(),
                edge_states@.no_duplicates(),
                corner_states@.no_duplicates(),
                forall|e: CubeEdgePositions| #[trigger]
                    edges@.contains(e.key_spec()) <==> edge_states@.contains(e),
                forall|e: CubeEdgePositions| #[trigger]
                    edge_states@.contains(e) <==> exists|j: int|
                        0 <= j < i && (#[trigger] full_states@[j]).edges == e,
                forall|c: CubeCornerPositions| #[trigger]
                    corners@.contains(c.key_spec()) <==> corner_states@.contains(c),
                forall|c: CubeCornerPositions| #[trigger]
                    corner_states@.contains(c) <==> exists|j: int|
                        0 <= j < i && (#[trigger] full_states@[j]).corners == c,
            decreases full_states.len() - i,
        {
            let state = full_states[i];
            let ghost old_edges = edge_states@;
            let ghost old_edge_keys = edges@;
            let ghost old_corners = corner_states@;
            let ghost old_corner_keys = corners@;
            if key_set_insert(&mut edges, state.edges.key()) {
                edge_states.push(state.edges);
            }
            if key_set_insert(&mut corners, state.corners.key()) {
                corner_states.push(state.corners);
            }
            proof {
                assert(edge_states@.no_duplicates()) by {
                    if !old_edge_keys.contains(state.edges.key_spec()) {
                        assert(!old_edges.contains(state.edges));
                        assert forall|i: int, j: int|
                            0 <= i < edge_states@.len() && 0 <= j < edge_states@.len() && i
                                != j implies edge_states@[i] != edge_states@[j] by {
                            if i < old_edges.len() {
                                assert(old_edges.contains(old_edges[i]));
                            }
                            if j < old_edges.len() {
                                assert(old_edges.contains(old_edges[j]));
                            }
                        }
                    }
                }
                assert(corner_states@.no_duplicates()) by {
                    if !old_corner_keys.contains(state.corners.key_spec()) {
                        assert(!old_corners.contains(state.corners));
                        assert forall|i: int, j: int|
                            0 <= i < corner_states@.len() && 0 <= j < corner_states@.len() && i
                                != j implies corner_states@[i] != corner_states@[j] by {
                            if i < old_corners.len() {
                                assert(old_corners.contains(old_corners[i]));
                            }
                            if j < old_corners.len() {
                                assert(old_corners.contains(old_corners[j]));
                            }
                        }
                    }
                }
                assert forall|e: CubeEdgePositions| #[trigger]
                    edge_states@.contains(e) <==> (e == state.edges || old_edges.contains(e)) by {
                    if old_edges.contains(e) {
                        let j = choose|j: int| 0 <= j < old_edges.len() && old_edges[j] == e;
                        assert(edge_states@[j] == e);
                    }
                    if !old_edge_keys.contains(state.edges.key_spec()) {
                        assert(edge_states@[old_edges.len() as int] == state.edges);
                    } else {
                        assert(old_edges.contains(state.edges));
                    }
                }
                assert forall|e: CubeEdgePositions| #[trigger]
                    edges@.contains(e.key_spec()) <==> edge_states@.contains(e) by {
                    if e.key_spec() == state.edges.key_spec() {
                        e.lemma_key_injective(state.edges);
                    }
                    assert(old_edge_keys.contains(e.key_spec()) <==> old_edges.contains(e));
                }
                assert forall|e: CubeEdgePositions| #[trigger]
                    edge_states@.contains(e) <==> exists|j: int|
                        0 <= j < i + 1 && (#[trigger] full_states@[j]).edges == e by {
                    if edge_states@.contains(e) {
                        if e == state.edges {
                            assert(full_states@[i as int].edges == e);
                        } else {
                            let j = choose|j: int|
                                0 <= j < i && (#[trigger] full_states@[j]).edges == e;
                            assert(full_states@[j].edges == e);
                        }
                    }
                    if exists|j: int| 0 <= j < i + 1 && (#[trigger] full_states@[j]).edges == e {
                        let j = choose|j: int|
                            0 <= j < i + 1 && (#[trigger] full_states@[j]).edges == e;
                        if j < i {
                            assert(old_edges.contains(e));
                        }
                    }
                }
                assert forall|c: CubeCornerPositions| #[trigger]
                    corner_states@.contains(c) <==> (c == state.corners || old_corners.contains(
                        c,
                    )) by {
                    if old_corners.contains(c) {
                        let j = choose|j: int| 0 <= j < old_corners.len() && old_corners[j] == c;
                        assert(corner_states@[j] == c);
                    }
                    if !old_corner_keys.contains(state.corners.key_spec()) {
                        assert(corner_states@[old_corners.len() as int] == state.corners);
                    } else {
                        assert(old_corners.contains(state.corners));
                    }
                }
                assert forall|c: CubeCornerPositions| #[trigger]
                    corners@.contains(c.key_spec()) <==> corner_states@.contains(c) by {
                    if c.key_spec() == state.corners.key_spec() {
                        c.lemma_key_injective(state.corners);
                    }
                    assert(old_corner_keys.contains(c.key_spec()) <==> old_corners.contains(c));
                }
                assert forall|c: CubeCornerPositions| #[trigger]
                    corner_states@.contains(c) <==> exists|j: int|
                        0 <= j < i + 1 && (#[trigger] full_states@[j]).corners == c by {
                    if corner_states@.contains(c) {
                        if c == state.corners {
                            assert(full_states@[i as int].corners == c);
                        } else {
                            let j = choose|j: int|
                                0 <= j < i && (#[trigger] full_states@[j]).corners == c;
                            assert(full_states@[j].corners == c);
                        }
                    }
                    if exists|j: int|
                        0 <= j < i + 1 && (#[trigger] full_states@[j]).corners == c {
                        let j = choose|j: int|
                            0 <= j < i + 1 && (#[trigger] full_states@[j]).corners == c;
                        if j < i {
                            assert(old_corners.contains(c));
                        }
                    }
                }
            }
            i += 1;
        }

        proof {
            assert forall|e: CubeEdgePositions| #[trigger]
                edge_states@.contains(e) <==> is_g3_edges(e) by {
                if edge_states@.contains(e) {
                    let j = choose|j: int|
                        0 <= j < i && (#[trigger] full_states@[j]).edges == e;
                    assert(full_states@.contains(full_states@[j]));
                    assert(in_g3(full_states@[j]));
                }
                if is_g3_edges(e) {
                    let s = choose|s: CubePositions| #[trigger] in_g3(s) && s.edges == e;
                    assert(full_states@.contains(s));
                    let j = choose|j: int| 0 <= j < full_states@.len() && full_states@[j] == s;
                    assert(full_states@[j].edges == e);
                }
            }
            assert forall|c: CubeCornerPositions| #[trigger]
                corner_states@.contains(c) <==> is_g3_corners(c) by {
                if corner_states@.contains(c) {
                    let j = choose|j: int|
                        0 <= j < i && (#[trigger] full_states@[j]).corners == c;
                    assert(full_states@.contains(full_states@[j]));
                    assert(in_g3(full_states@[j]));
                }
                if is_g3_corners(c) {
                    let s = choose|s: CubePositions| #[trigger] in_g3(s) && s.corners == c;
                    assert(full_states@.contains(s));
                    let j = choose|j: int| 0 <= j < full_states@.len() && full_states@[j] == s;
                    assert(full_states@[j].corners == c);
                }
            }
        }
        proof {
            assert(full_states@.to_set() =~= g3_states());
            assert(edge_states@.to_set() =~= g3_edges());
            assert(corner_states@.to_set() =~= g3_corners());
            full_states@.unique_seq_to_set();
            edge_states@.unique_seq_to_set();
            corner_states@.unique_seq_to_set();
        }
        // G3 is all pairs of its edge positions and its corner positions
        // exactly if it has as many states as there are such pairs
        let edge_count = edge_states.len() as u128;
        let corner_count = corner_states.len() as u128;
        assert(edge_count * corner_count <= u128::MAX) by (nonlinear_arith)
            requires
                edge_count <= 0xffff_ffff_ffff_ffff,
                corner_count <= 0xffff_ffff_ffff_ffff,
        ;
        let pairs = edge_count * corner_count;
        if pairs != full_states.len() as u128 {
            return Err(SolveError::InvariantViolated);
        }
        proof {
            vstd::seq_lib::seq_to_set_is_finite(full_states@);
            vstd::seq_lib::seq_to_set_is_finite(edge_states@);
            vstd::seq_lib::seq_to_set_is_finite(corner_states@);
            assert(g3_states().subset_of(pairs_of(g3_edges(), g3_corners()))) by {
                assert forall|s: CubePositions| g3_states().contains(s) implies pairs_of(
                    g3_edges(),
                    g3_corners(),
                ).contains(s) by {
                    assert(in_g3(s) && s.edges == s.edges);
                    assert(is_g3_edges(s.edges));
                    assert(is_g3_corners(s.corners));
                }
            }
            lemma_all_pairs(g3_states(), g3_edges(), g3_corners());
        }
        let free: [Dir; 2] = G2_FREE_DIRS;
        let half: [Dir; 4] = G2_DOUBLE_DIRS;
        let corner_heuristic = HeuristicCache::from_list(
            &corner_states,
            free.as_slice(),
            half.as_slice(),
        );
        let edge_heuristic = HeuristicCache::from_list(
            &edge_states,
            free.as_slice(),
            half.as_slice(),
        );
        Ok(G2toG3Cache { edges, edge_heuristic, corners, corner_heuristic })
    }

    /// The goal of the stage is G3: the cache accepts the states that half
    /// turns make of the solved one, and no others.
    pub proof fn lemma_goal_is_g3(&self, state: CubePositions)
        requires
            self.wf(),
        ensures
            self.accepts(state) <==> in_g3(state),
    {
        if self.accepts(state) {
            assert(is_g3_edges(state.edges));
            assert(is_g3_corners(state.corners));
            assert(pairs_of(g3_edges(), g3_corners()).contains(state));
            assert(g3_states().contains(state));
        }
        if in_g3(state) {
            assert(is_g3_edges(state.edges));
            assert(is_g3_corners(state.corners));
        }
    }

    /// The heuristic of the stage never overestimates: it can be asked about
    /// every state from which moves of the stage lead to a state of G3, and
    /// what it says is at most the number of the moves.
    pub proof fn lemma_admissible(&self, state: CubePositions, path: Seq<FullMove>)
        requires
            self.wf(),
            path_in(path, successors(G2_FREE_DIRS@, G2_DOUBLE_DIRS@)),
            self.accepts(apply_moves(state, path)),
        ensures
            self.covers(state),
            self.estimate(state) <= path.len(),
    {
        state.lemma_apply_moves_componentwise(path);
        self.edge_table().lemma_exact(state.edges, path);
        self.corner_table().lemma_exact(state.corners, path);
    }

    /// The heuristic of the stage is one of which the search finds shortest
    /// paths: it never overestimates, and says at least 1 of a state that
    /// is no goal.
    pub proof fn lemma_admissible_for_search(&self)
        requires
            self.wf(),
        ensures
            admissible::<CubePositions, _, G2toG3Cache>(
                self,
                self,
                successors(G2_FREE_DIRS@, G2_DOUBLE_DIRS@),
            ),
    {
        let succ = successors(G2_FREE_DIRS@, G2_DOUBLE_DIRS@);
        assert forall|s: CubePositions, path: Seq<FullMove>|
            (forall|k: int| 0 <= k < path.len() ==> succ.contains(#[trigger] path[k]))
                && #[trigger] self.accepts(apply_moves(s, path)) implies self.estimate(s)
            <= path.len() by {
            self.lemma_admissible(s, path);
        }
        assert forall|s: CubePositions| self.covers(
            s,
        ) && !self.accepts(s) implies #[trigger] self.estimate(
            s,
        ) >= 1 by {
            self.edge_table().lemma_exact(s.edges, Seq::empty());
            self.corner_table().lemma_exact(s.corners, Seq::empty());
            crate::heuristic_caches::lemma_no_cost_is_goal(
                self.edge_table().table(),
                self.edge_table().goals(),
                self.edge_table().moves(),
                s.edges,
            );
            crate::heuristic_caches::lemma_no_cost_is_goal(
                self.corner_table().table(),
                self.corner_table().goals(),
                self.corner_table().moves(),
                s.corners,
            );
        }
    }

    /// With a state the tables hold every state that a move of the stage
    /// makes of it.
    pub proof fn lemma_closed(&self)
        requires
            self.wf(),
        ensures
            heuristic_closed::<CubePositions, G2toG3Cache>(
                self,
                successors(G2_FREE_DIRS@, G2_DOUBLE_DIRS@),
            ),
    {
        let succ = successors(G2_FREE_DIRS@, G2_DOUBLE_DIRS@);
        assert forall|s: CubePositions, i: int|
            self.covers(s) && 0 <= i < succ.len() implies #[trigger] self.covers(
            apply_move(s, succ[i]),
        ) by {
            s.lemma_apply_move_componentwise(succ[i]);
            self.edge_table().lemma_closed(s.edges, i);
            self.corner_table().lemma_closed(s.corners, i);
        }
    }
}

impl Goal<CubePositions> for G2toG3Cache {
    /// The edges are edge positions of G3 and the corners are corner
    /// positions of G3.
    open spec fn accepts(&self, state: CubePositions) -> bool {
        self.edge_keys().contains(state.edges.key_spec()) && self.corner_keys().contains(
            state.corners.key_spec(),
        )
    }

    fn reached(&self, state: &CubePositions) -> (b: bool) {
        key_set_contains(&self.edges, state.edges.key()) && key_set_contains(
            &self.corners,
            state.corners.key(),
        )
    }
}

impl Heuristic<CubePositions> for G2toG3Cache {
    open spec fn covers(&self, state: CubePositions) -> bool {
        self.edge_table().contains(state.edges) && self.corner_table().contains(state.corners)
    }

    /// The greater of the two distances.
    open spec fn estimate(&self, state: CubePositions) -> nat {
        if self.edge_table().cost(state.edges) >= self.corner_table().cost(state.corners) {
            self.edge_table().cost(state.edges)
        } else {
            self.corner_table().cost(state.corners)
        }
    }

    fn evaluate(&self, state: &CubePositions) -> (cost: usize) {
        let e = self.edge_heuristic.evaluate(&state.edges);
        let c = self.corner_heuristic.evaluate(&state.corners);
        if e >= c {
            e
        } else {
            c
        }
    }
}

/// What `solve_to_g3` finds for a state.
pub open spec fn g3_search(cache: &G2toG3Cache, start: CubePositions) -> Option<Seq<FullMove>> {
    search(cache, cache, G2_FREE_DIRS@, G2_DOUBLE_DIRS@, start, (MAX_MOVES + 1) as nat)
}

/// Whether the stage can start from the cube: its places hold the colors of
/// cubelets, and moves of the stage lead from their positions to positions
/// of G3, for the edges and for the corners.
pub open spec fn g3_ready(cache: &G2toG3Cache, cube: Cube) -> bool {
    CubePositions::readable(cube) && cache.covers(CubePositions::from_cube_spec(cube))
}

/// The stage finds a shortest path: what comes back is no longer than any
/// path of moves of the stage from the state of the cube to the goal that
/// has no more moves than the stage may take.
pub proof fn lemma_finds_shortest(cache: &G2toG3Cache, cube: Cube, path: Seq<FullMove>)
    requires
        cache.wf(),
        g3_ready(cache, cube),
        all_allowed(G2_FREE_DIRS@, G2_DOUBLE_DIRS@, path),
        cache.accepts(apply_moves(CubePositions::from_cube_spec(cube), path)),
        path.len() <= MAX_MOVES,
    ensures
        solve_to_g3_spec(cube, cache) matches Ok(found) && found.len() <= path.len(),
{
    cache.lemma_admissible_for_search();
    cache.lemma_closed();
    lemma_search_finds_shortest(
        cache,
        cache,
        G2_FREE_DIRS@,
        G2_DOUBLE_DIRS@,
        CubePositions::from_cube_spec(cube),
        (MAX_MOVES + 1) as nat,
        path,
    );
}

/// What `solve_to_g3` returns: `UnsolvableInput` where the stage cannot start
/// from the cube, else the find of the search, or `SearchBudgetExceeded`.
pub open spec fn solve_to_g3_spec(
    cube: Cube,
    cache: &G2toG3Cache,
) -> Result<Seq<FullMove>, SolveError> {
    if g3_ready(cache, cube) {
        found_or_exceeded(g3_search(cache, CubePositions::from_cube_spec(cube)))
    } else {
        Err(SolveError::UnsolvableInput)
    }
}

/// Given a cube in G2, solve to G3: finds moves, with only the left and the
/// right face turned by quarters, after which the positions are those of a
/// state of G3. `UnsolvableInput` says that the
/// positions cannot be read from the cube or that no such moves exist;
/// `SearchBudgetExceeded` that the search found none within its cap.
pub fn solve_to_g3(cube: &Cube, cache: &G2toG3Cache) -> (res: Result<Vec<FullMove>, SolveError>)
    requires
        cache.wf(),
    ensures
        result_view(res) == solve_to_g3_spec(*cube, cache),
        res matches Ok(moves) ==> {
            &&& cache.accepts(apply_moves(CubePositions::from_cube_spec(*cube), moves@))
            &&& forall|k: int|
                0 <= k < moves.len() ==> move_allowed(
                    G2_FREE_DIRS@,
                    G2_DOUBLE_DIRS@,
                    #[trigger] moves[k],
                )
            &&& moves.len() <= MAX_MOVES
            &&& CubePositions::readable(apply_moves(*cube, moves@)) && cache.accepts(
                CubePositions::from_cube_spec(apply_moves(*cube, moves@)),
            )
            &&& in_g3(CubePositions::from_cube_spec(apply_moves(*cube, moves@)))
        },
{
    let pos_state = match CubePositions::try_from_cube(cube) {
        Some(pos_state) => pos_state,
        None => {
            return Err(SolveError::UnsolvableInput);
        },
    };
    if cache.edge_heuristic.lookup(&pos_state.edges).is_none() || cache.corner_heuristic.lookup(
        &pos_state.corners,
    ).is_none() {
        return Err(SolveError::UnsolvableInput);
    }
    let free: [Dir; 2] = G2_FREE_DIRS;
    let half: [Dir; 4] = G2_DOUBLE_DIRS;
    proof {
        cache.lemma_closed();
    }
    let res = solve(pos_state, free.as_slice(), half.as_slice(), cache, cache, MAX_MOVES + 1);
    proof {
        if let Ok(moves) = &res {
            cache.lemma_admissible_for_search();
            lemma_search_short(
                cache,
                cache,
                G2_FREE_DIRS@,
                G2_DOUBLE_DIRS@,
                pos_state,
                (MAX_MOVES + 1) as nat,
            );
            lemma_positions_follow_moves(*cube, moves@);
            cache.lemma_goal_is_g3(CubePositions::from_cube_spec(apply_moves(*cube, moves@)));
        }
    }
    res
}

} // verus!
