//! Distance tables: for each state, the least number of moves of a move
//! generator that lead from it to a goal. A table is filled breadth first
//! from the goals; since every move of a generator can be undone by a move
//! of the generator, the distance from the goals is the distance to them.

use crate::dfs_util::{lemma_successors_allowed, move_allowed, successor_moves, successors};
use crate::hashed::{
    cost_map_get, cost_map_insert, cost_map_len, cost_map_new, CostMap, set_items,
};
use crate::moves::{
    apply_move, apply_moves, ApplyMove, CanMove, Dir, FullMove, lemma_apply_moves_push,
    lemma_inverse_undoes,
};
use crate::state_key::StateKey;
use std::collections::{HashSet, VecDeque};
use std::hash::Hash;
use vstd::prelude::*;

verus! {

/// A lower bound on the number of moves that a state is away from a goal.
pub trait Heuristic<StateType> {
    /// The states that the heuristic can be asked about.
    spec fn covers(&self, state: StateType) -> bool;

    /// The bound for a state.
    spec fn estimate(&self, state: StateType) -> nat;

    fn evaluate(&self, state: &StateType) -> (cost: usize)
        requires
            self.covers(*state),
        ensures
            cost == self.estimate(*state),
    ;
}

/// Every move of the path is one of `succ`.
pub open spec fn path_in(p: Seq<FullMove>, succ: Seq<FullMove>) -> bool {
    forall|k: int| 0 <= k < p.len() ==> succ.contains(#[trigger] p[k])
}

/// `p` is a path of `n` moves of `succ` that leads from `s` to a goal.
pub open spec fn is_route<S: CanMove>(
    p: Seq<FullMove>,
    s: S,
    goals: Set<S>,
    succ: Seq<FullMove>,
    n: nat,
) -> bool {
    path_in(p, succ) && p.len() == n && goals.contains(apply_moves(s, p))
}

/// Some path of `n` moves of `succ` leads from `s` to a goal.
pub open spec fn has_route<S: CanMove>(s: S, goals: Set<S>, succ: Seq<FullMove>, n: nat) -> bool {
    exists|p: Seq<FullMove>| #[trigger] is_route(p, s, goals, succ, n)
}

/// With each move, `succ` holds the move that undoes it.
pub open spec fn symmetric(succ: Seq<FullMove>) -> bool {
    forall|m: FullMove| succ.contains(m) ==> succ.contains(#[trigger] m.inverse())
}

/// The moves of a generator can be undone by moves of the generator.
pub proof fn lemma_successors_symmetric(free: Seq<Dir>, half: Seq<Dir>)
    ensures
        symmetric(successors(free, half)),
{
    assert forall|m: FullMove| successors(free, half).contains(m) implies successors(
        free,
        half,
    ).contains(#[trigger] m.inverse()) by {
        lemma_successors_allowed(free, half, m);
        lemma_successors_allowed(free, half, m.inverse());
    }
}

/// Whether the table holds a cost for the state.
pub open spec fn covered<S: StateKey>(m: Map<u128, usize>, s: S) -> bool {
    m.contains_key(s.key_spec())
}

/// The cost that the table holds for the state.
pub open spec fn cost_of<S: StateKey>(m: Map<u128, usize>, s: S) -> nat {
    m[s.key_spec()] as nat
}

/// Whether a state at this cost is expanded: always without a cap, with a
/// cap only below it.
pub open spec fn may_expand(cap: Option<nat>, cost: nat) -> bool {
    match cap {
        Some(c) => cost < c,
        None => true,
    }
}

/// Whether the cost is within the cap, if there is one.
pub open spec fn within(cap: Option<nat>, cost: nat) -> bool {
    match cap {
        Some(c) => cost <= c,
        None => true,
    }
}

/// A goal has cost 0.
pub open spec fn goal_ok<S: StateKey>(m: Map<u128, usize>, goals: Set<S>, g: S) -> bool {
    goals.contains(g) ==> covered(m, g) && cost_of(m, g) == 0
}

/// A state that is expanded has each of its neighbours in the table, at a
/// cost of at most one more.
pub open spec fn closed_at<S: CanMove + StateKey>(
    m: Map<u128, usize>,
    succ: Seq<FullMove>,
    cap: Option<nat>,
    s: S,
    i: int,
) -> bool {
    covered(m, s) && 0 <= i < succ.len() && may_expand(cap, cost_of(m, s)) ==> covered(
        m,
        apply_move(s, succ[i]),
    ) && cost_of(m, apply_move(s, succ[i])) <= cost_of(m, s) + 1
}

/// The cost of a state in the table is the length of a path from it to a
/// goal, and within the cap.
pub open spec fn entry_ok<S: CanMove + StateKey>(
    m: Map<u128, usize>,
    goals: Set<S>,
    succ: Seq<FullMove>,
    cap: Option<nat>,
    s: S,
) -> bool {
    covered(m, s) ==> has_route(s, goals, succ, cost_of(m, s)) && within(cap, cost_of(m, s))
}

/// What a finished table holds: each goal at cost 0; with each state that
/// is expanded its neighbours, at most one further; and for each state a
/// cost that some path to a goal has.
pub open spec fn table_wf<S: CanMove + StateKey>(
    m: Map<u128, usize>,
    goals: Set<S>,
    succ: Seq<FullMove>,
    cap: Option<nat>,
) -> bool {
    &&& forall|g: S| #[trigger] goal_ok(m, goals, g)
    &&& forall|s: S, i: int| #[trigger] closed_at(m, succ, cap, s, i)
    &&& forall|s: S| #[trigger] entry_ok(m, goals, succ, cap, s)
}

/// A finished table holds every state from which a path within the cap
/// leads to a goal, at a cost that is at most the length of the path: the
/// table never overestimates.
pub proof fn lemma_table_lower_bound<S: CanMove + StateKey>(
    m: Map<u128, usize>,
    goals: Set<S>,
    succ: Seq<FullMove>,
    cap: Option<nat>,
    s: S,
    p: Seq<FullMove>,
)
    requires
        table_wf(m, goals, succ, cap),
        symmetric(succ),
        path_in(p, succ),
        goals.contains(apply_moves(s, p)),
        within(cap, p.len()),
    ensures
        covered(m, s),
        cost_of(m, s) <= p.len(),
    decreases p.len(),
{
    if p.len() == 0 {
        assert(goal_ok(m, goals, s));
    } else {
        let first = p[0];
        let rest = p.drop_first();
        let mid = apply_move(s, first);
        assert(path_in(rest, succ)) by {
            assert forall|k: int| 0 <= k < rest.len() implies succ.contains(#[trigger] rest[k]) by {
                assert(rest[k] == p[k + 1]);
            }
        }
        lemma_table_lower_bound(m, goals, succ, cap, mid, rest);
        assert(succ.contains(first));
        assert(succ.contains(first.inverse()));
        let i = choose|i: int| 0 <= i < succ.len() && succ[i] == first.inverse();
        lemma_inverse_undoes(s, first);
        assert(closed_at(m, succ, cap, mid, i));
    }
}

/// The cost of a state in a finished table is the least length of a path
/// from it to a goal: some path has that length, and none within the cap is
/// shorter.
pub proof fn lemma_table_exact<S: CanMove + StateKey>(
    m: Map<u128, usize>,
    goals: Set<S>,
    succ: Seq<FullMove>,
    cap: Option<nat>,
    s: S,
)
    requires
        table_wf(m, goals, succ, cap),
        symmetric(succ),
        covered(m, s),
    ensures
        has_route(s, goals, succ, cost_of(m, s)),
        forall|p: Seq<FullMove>|
            path_in(p, succ) && #[trigger] goals.contains(apply_moves(s, p)) ==> cost_of(m, s)
                <= p.len(),
{
    assert(entry_ok(m, goals, succ, cap, s));
    assert forall|p: Seq<FullMove>|
        path_in(p, succ) && #[trigger] goals.contains(apply_moves(s, p)) implies cost_of(m, s)
        <= p.len() by {
        if within(cap, p.len()) {
            lemma_table_lower_bound(m, goals, succ, cap, s, p);
        }
    }
}

/// A state that a finished table holds at cost 0 is a goal.
pub proof fn lemma_no_cost_is_goal<S: CanMove + StateKey>(
    m: Map<u128, usize>,
    goals: Set<S>,
    succ: Seq<FullMove>,
    s: S,
)
    requires
        covered(m, s),
        has_route(s, goals, succ, cost_of(m, s)),
    ensures
        cost_of(m, s) == 0 ==> goals.contains(s),
{
    if cost_of(m, s) == 0 {
        let p = choose|p: Seq<FullMove>| #[trigger] is_route(p, s, goals, succ, 0);
        assert(apply_moves(s, p) == s);
    }
}

/// An entry of the queue: a state and the cost at which it was found.
pub type Entry<S> = (S, usize);

/// The queue holds the state, at a cost of at most `bound`.
pub open spec fn queued<S>(q: Seq<Entry<S>>, t: S, bound: nat) -> bool {
    exists|j: int| 0 <= j < q.len() && (#[trigger] q[j]).0 == t && q[j].1 <= bound
}

/// The state is in the table or in the queue, at a cost of at most `bound`.
pub open spec fn settled<S: StateKey>(
    m: Map<u128,
    usize>,
    q: Seq<Entry<S>>,
    t: S,
    bound: nat,
) -> bool {
    (covered(m, t) && cost_of(m, t) <= bound) || queued(q, t, bound)
}

/// A neighbour of a state that is expanded is in the table or in the queue,
/// at a cost of at most one more.
pub open spec fn step_settled<S: CanMove + StateKey>(
    m: Map<u128, usize>,
    q: Seq<Entry<S>>,
    succ: Seq<FullMove>,
    cap: Option<nat>,
    s: S,
    i: int,
) -> bool {
    covered(m, s) && 0 <= i < succ.len() && may_expand(cap, cost_of(m, s)) ==> settled(
        m,
        q,
        apply_move(s, succ[i]),
        cost_of(m, s) + 1,
    )
}

/// A goal is in the table or in the queue, at cost 0.
pub open spec fn goal_settled<S: StateKey>(
    m: Map<u128, usize>,
    q: Seq<Entry<S>>,
    goals: Set<S>,
    g: S,
) -> bool {
    goals.contains(g) ==> settled(m, q, g, 0)
}

/// Entry `j` of the queue stands at the level `cur` of the search or one
/// above it, at the length of a path to a goal, and within the cap.
pub open spec fn queue_ok<S: CanMove>(
    q: Seq<Entry<S>>,
    goals: Set<S>,
    succ: Seq<FullMove>,
    cap: Option<nat>,
    cur: nat,
    count: nat,
    j: int,
) -> bool {
    0 <= j < q.len() ==> {
        &&& cur <= q[j].1 <= cur + 1
        &&& (count == 0 ==> q[j].1 == 0)
        &&& has_route(q[j].0, goals, succ, q[j].1 as nat)
        &&& within(cap, q[j].1 as nat)
    }
}

/// What holds while a table is filled. `cur` is the cost of the state that
/// came into the table last.
pub open spec fn bfs_inv<S: CanMove + StateKey>(
    m: Map<u128, usize>,
    q: Seq<Entry<S>>,
    cur: nat,
    goals: Set<S>,
    succ: Seq<FullMove>,
    cap: Option<nat>,
) -> bool {
    &&& m.dom().finite()
    &&& (m.dom().len() == 0 ==> cur == 0)
    &&& (m.dom().len() > 0 ==> cur < m.dom().len())
    &&& forall|i: int, j: int| 0 <= i <= j < q.len() ==> (#[trigger] q[i]).1 <= (#[trigger] q[j]).1
    &&& forall|j: int| #[trigger] queue_ok(q, goals, succ, cap, cur, m.dom().len(), j)
    &&& forall|s: S| #[trigger] entry_ok(m, goals, succ, cap, s)
    &&& forall|s: S| #[trigger] covered(m, s) ==> cost_of(m, s) <= cur
    &&& forall|s: S, i: int| #[trigger] step_settled(m, q, succ, cap, s, i)
    &&& forall|g: S| #[trigger] goal_settled(m, q, goals, g)
}

/// The queue with which the filling of a table begins: each goal at cost 0.
pub open spec fn goal_entries<S>(goal_states: Seq<S>) -> Seq<Entry<S>> {
    Seq::new(goal_states.len(), |k: int| (goal_states[k], 0usize))
}

/// The entries by which a state at cost `cost - 1` is expanded: each of its
/// neighbours at `cost`.
pub open spec fn neighbours<S: CanMove>(s: S, succ: Seq<FullMove>, cost: usize) -> Seq<Entry<S>> {
    Seq::new(succ.len(), |k: int| (apply_move(s, succ[k]), cost))
}

/// The invariant holds at the beginning.
pub proof fn lemma_bfs_init<S: CanMove + StateKey>(
    goal_states: Seq<S>,
    succ: Seq<FullMove>,
    cap: Option<nat>,
)
    ensures
        bfs_inv(
            Map::<u128, usize>::empty(),
            goal_entries(goal_states),
            0,
            goal_states.to_set(),
            succ,
            cap,
        ),
{
    let m = Map::<u128, usize>::empty();
    let q = goal_entries(goal_states);
    let goals = goal_states.to_set();
    assert forall|j: int| #[trigger] queue_ok(q, goals, succ, cap, 0, 0, j) by {
        if 0 <= j < q.len() {
            assert(goals.contains(goal_states[j]));
            assert(is_route(Seq::<FullMove>::empty(), q[j].0, goals, succ, 0));
        }
    }
    assert forall|g: S| #[trigger] goal_settled(m, q, goals, g) by {
        if goals.contains(g) {
            let j = choose|j: int| 0 <= j < goal_states.len() && goal_states[j] == g;
            assert(q[j].0 == g);
        }
    }
    assert forall|s: S| #[trigger] entry_ok(m, goals, succ, cap, s) by {}
    assert forall|s: S, i: int| #[trigger] step_settled(m, q, succ, cap, s, i) by {}
}

/// The invariant holds on when an entry leaves the queue whose state the
/// table holds already.
pub proof fn lemma_bfs_skip<S: CanMove + StateKey>(
    m: Map<u128, usize>,
    q: Seq<Entry<S>>,
    cur: nat,
    goals: Set<S>,
    succ: Seq<FullMove>,
    cap: Option<nat>,
)
    requires
        bfs_inv(m, q, cur, goals, succ, cap),
        q.len() > 0,
        covered(m, q[0].0),
    ensures
        bfs_inv(m, q.drop_first(), cur, goals, succ, cap),
{
    let r = q.drop_first();
    let started = m.dom().len();
    assert(queue_ok(q, goals, succ, cap, cur, started, 0));
    assert forall|j: int| #[trigger] queue_ok(r, goals, succ, cap, cur, started, j) by {
        if 0 <= j < r.len() {
            assert(queue_ok(q, goals, succ, cap, cur, started, j + 1));
            assert(r[j] == q[j + 1]);
        }
    }
    assert forall|i: int, j: int| 0 <= i <= j < r.len() implies (#[trigger] r[i]).1 <= (
    #[trigger] r[j]).1 by {
        assert(r[i] == q[i + 1] && r[j] == q[j + 1]);
    }
    assert forall|t: S, bound: nat| settled(m, q, t, bound) implies #[trigger] settled(
        m,
        r,
        t,
        bound,
    ) by {
        if !(covered(m, t) && cost_of(m, t) <= bound) {
            let j = choose|j: int| 0 <= j < q.len() && (#[trigger] q[j]).0 == t && q[j].1 <= bound;
            if j == 0 {
                assert(covered(m, t));
            } else {
                assert(r[j - 1] == q[j]);
            }
        }
    }
    assert forall|s: S, i: int| #[trigger] step_settled(m, r, succ, cap, s, i) by {
        assert(step_settled(m, q, succ, cap, s, i));
    }
    assert forall|g: S| #[trigger] goal_settled(m, r, goals, g) by {
        assert(goal_settled(m, q, goals, g));
    }
}

/// The invariant holds on when the first entry of the queue, whose state the
/// table does not hold yet, comes into the table and its neighbours join the
/// queue.
pub proof fn lemma_bfs_visit<S: CanMove + StateKey>(
    m: Map<u128, usize>,
    q: Seq<Entry<S>>,
    cur: nat,
    goals: Set<S>,
    succ: Seq<FullMove>,
    cap: Option<nat>,
)
    requires
        bfs_inv(m, q, cur, goals, succ, cap),
        symmetric(succ),
        q.len() > 0,
        !covered(m, q[0].0),
        q[0].1 < usize::MAX,
    ensures
        bfs_inv(
            m.insert(q[0].0.key_spec(), q[0].1),
            q.drop_first() + (if may_expand(cap, q[0].1 as nat) {
                neighbours(q[0].0, succ, (q[0].1 + 1) as usize)
            } else {
                Seq::empty()
            }),
            q[0].1 as nat,
            goals,
            succ,
            cap,
        ),
        forall|t: S| #[trigger]
            covered(m.insert(q[0].0.key_spec(), q[0].1), t) <==> (t == q[0].0 || covered(m, t)),
{
    let s0 = q[0].0;
    let c = q[0].1;
    let m2 = m.insert(s0.key_spec(), c);
    let rest = q.drop_first();
    let extra = if may_expand(cap, c as nat) {
        neighbours(s0, succ, (c + 1) as usize)
    } else {
        Seq::<Entry<S>>::empty()
    };
    let q2 = rest + extra;
    let started = m.dom().len();
    assert(queue_ok(q, goals, succ, cap, cur, started, 0));
    // one state has one key: the table changes for the new state alone
    assert forall|t: S| #[trigger] covered(m2, t) == (t == s0 || covered(m, t)) by {
        if t.key_spec() == s0.key_spec() {
            t.lemma_key_injective(s0);
        }
    }
    assert forall|t: S| t != s0 && covered(m, t) implies #[trigger] cost_of(m2, t) == cost_of(
        m,
        t,
    ) by {
        if t.key_spec() == s0.key_spec() {
            t.lemma_key_injective(s0);
        }
    }
    assert(cost_of(m2, s0) == c);
    assert(m2.dom() =~= m.dom().insert(s0.key_spec()));
    assert forall|i: int, j: int| 0 <= i <= j < q2.len() implies (#[trigger] q2[i]).1 <= (
    #[trigger] q2[j]).1 by {
        if j < rest.len() {
            assert(q2[i] == q[i + 1] && q2[j] == q[j + 1]);
        } else if i < rest.len() {
            assert(q2[i] == q[i + 1]);
            assert(queue_ok(q, goals, succ, cap, cur, started, i + 1));
        }
    }
    let route0 = choose|p: Seq<FullMove>| #[trigger] is_route(p, s0, goals, succ, c as nat);
    assert forall|j: int| #[trigger] queue_ok(
        q2,
        goals,
        succ,
        cap,
        c as nat,
        m2.dom().len(),
        j,
    ) by {
        if 0 <= j < q2.len() {
            if j < rest.len() {
                assert(q2[j] == q[j + 1]);
                assert(queue_ok(q, goals, succ, cap, cur, started, j + 1));
                assert(q[0].1 <= q[j + 1].1);
            } else {
                // a neighbour comes back by the move undone, and goes on from there
                let k = j - rest.len();
                let mv = succ[k];
                let nb = apply_move(s0, mv);
                assert(q2[j] == extra[k]);
                assert(succ.contains(mv));
                let route = seq![mv.inverse()] + route0;
                assert(route.drop_first() =~= route0);
                lemma_inverse_undoes(s0, mv);
                assert(path_in(route, succ)) by {
                    assert forall|x: int| 0 <= x < route.len() implies succ.contains(
                        #[trigger] route[x],
                    ) by {
                        if x > 0 {
                            assert(route[x] == route0[x - 1]);
                        }
                    }
                }
                assert(is_route(route, nb, goals, succ, (c + 1) as nat));
            }
        }
    }
    assert forall|s: S| #[trigger] entry_ok(m2, goals, succ, cap, s) by {
        if covered(m2, s) {
            if s == s0 {
                assert(is_route(route0, s0, goals, succ, c as nat));
            } else {
                assert(entry_ok(m, goals, succ, cap, s));
            }
        }
    }
    assert forall|t: S, bound: nat| settled(m, q, t, bound) implies #[trigger] settled(
        m2,
        q2,
        t,
        bound,
    ) by {
        if covered(m, t) && cost_of(m, t) <= bound {
        } else {
            let j = choose|j: int| 0 <= j < q.len() && (#[trigger] q[j]).0 == t && q[j].1 <= bound;
            if j == 0 {
                assert(covered(m2, t));
            } else {
                assert(q2[j - 1] == q[j]);
            }
        }
    }
    assert forall|s: S, i: int| #[trigger] step_settled(m2, q2, succ, cap, s, i) by {
        if covered(m2, s) && 0 <= i < succ.len() && may_expand(cap, cost_of(m2, s)) {
            if s == s0 {
                assert(q2[rest.len() + i] == extra[i]);
                assert(q2[rest.len() + i].0 == apply_move(s, succ[i]));
            } else {
                assert(step_settled(m, q, succ, cap, s, i));
            }
        }
    }
    assert forall|g: S| #[trigger] goal_settled(m2, q2, goals, g) by {
        assert(goal_settled(m, q, goals, g));
    }
}

/// When the queue is empty the table is finished.
pub proof fn lemma_bfs_done<S: CanMove + StateKey>(
    m: Map<u128, usize>,
    cur: nat,
    goals: Set<S>,
    succ: Seq<FullMove>,
    cap: Option<nat>,
)
    requires
        bfs_inv(m, Seq::<Entry<S>>::empty(), cur, goals, succ, cap),
    ensures
        table_wf(m, goals, succ, cap),
{
    let q = Seq::<Entry<S>>::empty();
    assert forall|g: S| #[trigger] goal_ok(m, goals, g) by {
        assert(goal_settled(m, q, goals, g));
    }
    assert forall|s: S, i: int| #[trigger] closed_at(m, succ, cap, s, i) by {
        assert(step_settled(m, q, succ, cap, s, i));
    }
}

/// The cap as a number of moves.
pub open spec fn cap_of(cap: Option<usize>) -> Option<nat> {
    match cap {
        Some(c) => Some(c as nat),
        None => None,
    }
}

/// Fills a table breadth first from the goals: a state comes into the table
/// at the cost at which it leaves the queue first, and unless it stands at
/// the cap its neighbours join the queue at one more.
fn build_table<S: CanMove + StateKey + Copy>(
    goal_states: &Vec<S>,
    free_dirs: &[Dir],
    half_dirs: &[Dir],
    cap: Option<usize>,
) -> (res: (CostMap, Vec<S>))
    ensures
        table_wf(res.0@, goal_states@.to_set(), successors(free_dirs@, half_dirs@), cap_of(cap)),
        forall|t: S| #[trigger] covered(res.0@, t) <==> res.1@.contains(t),
        res.1@.no_duplicates(),
{
    let moves = successor_moves(free_dirs, half_dirs);
    let ghost succ = successors(free_dirs@, half_dirs@);
    let ghost goals = goal_states@.to_set();
    let mut known_costs = cost_map_new();
    let mut states: Vec<S> = Vec::new();
    let mut to_process: VecDeque<(S, usize)> = VecDeque::new();
    let mut g: usize = 0;
    while g < goal_states.len()
        invariant
            g <= goal_states.len(),
            to_process@ == goal_entries(goal_states@.take(g as int)),
        decreases goal_states.len() - g,
    {
        to_process.push_back((goal_states[g], 0));
        g += 1;
        assert(to_process@ =~= goal_entries(goal_states@.take(g as int)));
    }
    let ghost mut cur: nat = 0;
    let mut size: usize = 0;
    proof {
        assert(goal_states@.take(g as int) =~= goal_states@);
        lemma_bfs_init(goal_states@, succ, cap_of(cap));
        lemma_successors_symmetric(free_dirs@, half_dirs@);
        assert(known_costs@ =~= Map::<u128, usize>::empty());
    }
    loop
        invariant
            moves@ == succ,
            symmetric(succ),
            bfs_inv(known_costs@, to_process@, cur, goals, succ, cap_of(cap)),
            size == known_costs@.dom().len(),
            forall|t: S| #[trigger] covered(known_costs@, t) <==> states@.contains(t),
            states@.no_duplicates(),
        ensures
            table_wf(known_costs@, goals, succ, cap_of(cap)),
            forall|t: S| #[trigger] covered(known_costs@, t) <==> states@.contains(t),
            states@.no_duplicates(),
        decreases usize::MAX - size, to_process@.len(),
    {
        let ghost m = known_costs@;
        let ghost q = to_process@;
        match to_process.pop_front() {
            None => {
                proof {
                    assert(to_process@ =~= Seq::<Entry<S>>::empty());
                    lemma_bfs_done(m, cur, goals, succ, cap_of(cap));
                }
                break ;
            },
            Some((pos, cost)) => {
                assert(to_process@ =~= q.drop_first());
                let key = pos.key();
                // note that by use of the VecDeque as a queue, we guarantee that we generate
                // everything in the most efficient manner possible, so if we've seen it before,
                // this is not an improvement on the previous
                if cost_map_get(&known_costs, key).is_some() {
                    proof {
                        lemma_bfs_skip(m, q, cur, goals, succ, cap_of(cap));
                    }
                } else {
                    cost_map_insert(&mut known_costs, key, cost);
                    size = cost_map_len(&known_costs);
                    let ghost listed = states@;
                    states.push(pos);
                    proof {
                        assert forall|t: S| states@.contains(t) <==> (t == pos || listed.contains(
                            t,
                        )) by {
                            if listed.contains(t) {
                                let j = choose|j: int| 0 <= j < listed.len() && listed[j] == t;
                                assert(states@[j] == t);
                            }
                            assert(states@[listed.len() as int] == pos);
                        }
                        assert(states@.no_duplicates()) by {
                            assert(!covered(m, pos));
                            assert(!listed.contains(pos));
                            assert forall|i: int, j: int|
                                0 <= i < states@.len() && 0 <= j < states@.len() && i
                                    != j implies states@[i] != states@[j] by {
                                if i < listed.len() {
                                    assert(listed.contains(listed[i]));
                                }
                                if j < listed.len() {
                                    assert(listed.contains(listed[j]));
                                }
                            }
                        }
                        assert(queue_ok(q, goals, succ, cap_of(cap), cur, m.dom().len(), 0));
                        assert(known_costs@.dom() =~= m.dom().insert(key));
                        lemma_bfs_visit(m, q, cur, goals, succ, cap_of(cap));
                        cur = cost as nat;
                        assert forall|t: S| #[trigger]
                            covered(known_costs@, t) <==> states@.contains(t) by {
                            assert(covered(m, t) <==> listed.contains(t));
                        }
                    }
                    let expand = match cap {
                        Some(c) => cost < c,
                        None => true,
                    };
                    if expand {
                        let next_cost = cost + 1;
                        let mut i: usize = 0;
                        while i < moves.len()
                            invariant
                                i <= moves.len(),
                                moves@ == succ,
                                to_process@ == q.drop_first() + neighbours(
                                    pos,
                                    succ,
                                    next_cost,
                                ).take(i as int),
                            decreases moves.len() - i,
                        {
                            let next = pos.apply(moves[i]);
                            to_process.push_back((next, next_cost));
                            i += 1;
                            assert(to_process@ =~= q.drop_first() + neighbours(
                                pos,
                                succ,
                                next_cost,
                            ).take(i as int));
                        }
                        assert(neighbours(pos, succ, next_cost).take(i as int) =~= neighbours(
                            pos,
                            succ,
                            next_cost,
                        ));
                    } else {
                        assert(to_process@ =~= q.drop_first() + Seq::<Entry<S>>::empty());
                    }
                }
            },
        }
    }
    (known_costs, states)
}

/// The table of the distances to a set of goals under a move generator,
/// for every state from which moves of the generator lead to a goal.
#[verifier::reject_recursive_types(StateType)]
pub struct HeuristicCache<StateType> {
    known_costs: CostMap,
    goals: Ghost<Set<StateType>>,
    moves: Ghost<Seq<FullMove>>,
}

impl<StateType: CanMove + StateKey + Copy> HeuristicCache<StateType> {
    /// The goals from which the table was filled.
    pub closed spec fn goals(&self) -> Set<StateType> {
        self.goals@
    }

    /// The moves of the generator with which the table was filled.
    pub closed spec fn moves(&self) -> Seq<FullMove> {
        self.moves@
    }

    /// The table: the cost under the key of each state that it holds.
    pub closed spec fn table(&self) -> Map<u128, usize> {
        self.known_costs@
    }

    /// Whether the table holds the state.
    pub open spec fn contains(&self, state: StateType) -> bool {
        covered(self.table(), state)
    }

    /// The cost that the table holds for the state.
    pub open spec fn cost(&self, state: StateType) -> nat {
        cost_of(self.table(), state)
    }

    /// The table is finished, and the moves of its generator can be undone
    /// by moves of the generator.
    pub open spec fn wf(&self) -> bool {
        &&& table_wf(self.table(), self.goals(), self.moves(), None)
        &&& symmetric(self.moves())
    }

    /// The table of the distances to `goal_state` under the generator of
    /// `free_dirs` and `half_dirs`.
    pub fn from_goal(goal_state: StateType, free_dirs: &[Dir], half_dirs: &[Dir]) -> (cache: Self)
        ensures
            cache.wf(),
            cache.goals() == set![goal_state],
            cache.moves() == successors(free_dirs@, half_dirs@),
    {
        let mut goal_states = Vec::new();
        goal_states.push(goal_state);
        let cache = Self::from_list(&goal_states, free_dirs, half_dirs);
        assert(goal_states@.to_set() =~= set![goal_state]) by {
            assert(goal_states@[0] == goal_state);
        }
        cache
    }

    /// The table of the distances to the nearest of `goal_states` under the
    /// generator of `free_dirs` and `half_dirs`.
    pub fn from_set(
        goal_states: &HashSet<StateType, ahash::RandomState>,
        free_dirs: &[Dir],
        half_dirs: &[Dir],
    ) -> (cache: Self) where StateType: Eq + Hash
        ensures
            cache.wf(),
            cache.goals() == goal_states@,
            cache.moves() == successors(free_dirs@, half_dirs@),
    {
        let goals = set_items(goal_states);
        Self::from_list(&goals, free_dirs, half_dirs)
    }

    /// The table of the distances to the nearest of `goal_states`, given as
    /// a list, under the generator of `free_dirs` and `half_dirs`.
    pub fn from_list(goal_states: &Vec<StateType>, free_dirs: &[Dir], half_dirs: &[Dir]) -> (cache:
        Self)
        ensures
            cache.wf(),
            cache.goals() == goal_states@.to_set(),
            cache.moves() == successors(free_dirs@, half_dirs@),
    {
        Self::from_list_with_states(goal_states, free_dirs, half_dirs).0
    }

    /// The table, and with it the states that it holds, in the order in
    /// which they came into it: nearest first.
    pub fn from_list_with_states(
        goal_states: &Vec<StateType>,
        free_dirs: &[Dir],
        half_dirs: &[Dir],
    ) -> (res: (Self, Vec<StateType>))
        ensures
            res.0.wf(),
            res.0.goals() == goal_states@.to_set(),
            res.0.moves() == successors(free_dirs@, half_dirs@),
            forall|s: StateType| #[trigger] res.0.contains(s) <==> res.1@.contains(s),
            res.1@.no_duplicates(),
    {
        let (known_costs, states) = build_table(goal_states, free_dirs, half_dirs, None);
        proof {
            lemma_successors_symmetric(free_dirs@, half_dirs@);
        }
        (
            Self {
                known_costs,
                goals: Ghost(goal_states@.to_set()),
                moves: Ghost(successors(free_dirs@, half_dirs@)),
            },
            states,
        )
    }

    /// The cost of the state, if the table holds it.
    pub fn lookup(&self, state: &StateType) -> (cost: Option<usize>)
        ensures
            cost == (if self.contains(*state) {
                Some(self.cost(*state) as usize)
            } else {
                None
            }),
    {
        cost_map_get(&self.known_costs, state.key())
    }

    /// The number of states in the table.
    pub fn len(&self) -> (n: usize)
        ensures
            n == self.table().dom().len(),
    {
        cost_map_len(&self.known_costs)
    }

    /// The table holds exactly the states from which moves of the generator
    /// lead to a goal, each at the least number of moves that do: some path
    /// has that length, and no path is shorter.
    pub proof fn lemma_exact(&self, state: StateType, path: Seq<FullMove>)
        requires
            self.wf(),
        ensures
            self.contains(state) ==> has_route(state, self.goals(), self.moves(), self.cost(state)),
            path_in(path, self.moves()) && self.goals().contains(apply_moves(state, path))
                ==> self.contains(state) && self.cost(state) <= path.len(),
    {
        if self.contains(state) {
            assert(entry_ok(self.table(), self.goals(), self.moves(), None, state));
        }
        if path_in(path, self.moves()) && self.goals().contains(apply_moves(state, path)) {
            lemma_table_lower_bound(self.table(), self.goals(), self.moves(), None, state, path);
        }
    }

    /// The table never overestimates: where allowed moves lead from a state
    /// to a goal, the table holds the state and says of it no more than the
    /// number of those moves.
    pub proof fn lemma_never_overestimates(
        &self,
        free: Seq<Dir>,
        half: Seq<Dir>,
        state: StateType,
        path: Seq<FullMove>,
    )
        requires
            self.wf(),
            self.moves() == successors(free, half),
            forall|k: int| 0 <= k < path.len() ==> move_allowed(free, half, #[trigger] path[k]),
            self.goals().contains(apply_moves(state, path)),
        ensures
            self.covers(state),
            self.estimate(state) <= path.len(),
    {
        assert forall|k: int| 0 <= k < path.len() implies self.moves().contains(
            #[trigger] path[k],
        ) by {
            lemma_successors_allowed(free, half, path[k]);
        }
        self.lemma_exact(state, path);
    }

    /// With a state the table holds every state that a move of the
    /// generator makes of it.
    pub proof fn lemma_closed(&self, state: StateType, i: int)
        requires
            self.wf(),
            self.contains(state),
            0 <= i < self.moves().len(),
        ensures
            self.contains(apply_move(state, self.moves()[i])),
    {
        assert(closed_at(self.table(), self.moves(), None, state, i));
    }
}

impl<StateType: CanMove + StateKey + Copy> Heuristic<StateType> for HeuristicCache<StateType> {
    open spec fn covers(&self, state: StateType) -> bool {
        self.contains(state)
    }

    open spec fn estimate(&self, state: StateType) -> nat {
        self.cost(state)
    }

    fn evaluate(&self, state: &StateType) -> (cost: usize) {
        match cost_map_get(&self.known_costs, state.key()) {
            Some(cost) => cost,
            None => vstd::pervasive::unreached(),
        }
    }
}

/// The table of the distances to a set of goals under a move generator,
/// for the states that are at most `fuel` moves away. Every other state is
/// further away than that.
#[verifier::reject_recursive_types(StateType)]
pub struct CappedHeuristicCache<StateType> {
    known_costs: CostMap,
    fuel: usize,
    goals: Ghost<Set<StateType>>,
    moves: Ghost<Seq<FullMove>>,
}

impl<StateType: CanMove + StateKey + Copy> CappedHeuristicCache<StateType> {
    /// The goals from which the table was filled.
    pub closed spec fn goals(&self) -> Set<StateType> {
        self.goals@
    }

    /// The moves of the generator with which the table was filled.
    pub closed spec fn moves(&self) -> Seq<FullMove> {
        self.moves@
    }

    /// The table: the cost under the key of each state that it holds.
    pub closed spec fn table(&self) -> Map<u128, usize> {
        self.known_costs@
    }

    /// The greatest cost that the table holds.
    pub closed spec fn fuel(&self) -> nat {
        self.fuel as nat
    }

    /// Whether the table holds the state.
    pub open spec fn contains(&self, state: StateType) -> bool {
        covered(self.table(), state)
    }

    /// The cost that the table holds for the state.
    pub open spec fn cost(&self, state: StateType) -> nat {
        cost_of(self.table(), state)
    }

    /// The table is finished up to its cap, and the moves of its generator
    /// can be undone by moves of the generator.
    pub open spec fn wf(&self) -> bool {
        &&& table_wf(self.table(), self.goals(), self.moves(), Some(self.fuel()))
        &&& symmetric(self.moves())
        &&& self.fuel() < usize::MAX
    }

    /// The table of the distances to `goal_state` under the generator of
    /// `free_dirs` and `half_dirs`.
    pub fn from_goal(
        goal_state: StateType,
        free_dirs: &[Dir],
        half_dirs: &[Dir],
        fuel: usize,
    ) -> (cache: Self)
        requires
            fuel < usize::MAX,
        ensures
            cache.wf(),
            cache.goals() == set![goal_state],
            cache.moves() == successors(free_dirs@, half_dirs@),
            cache.fuel() == fuel,
    {
        let mut goal_states = Vec::new();
        goal_states.push(goal_state);
        let (known_costs, _) = build_table(&goal_states, free_dirs, half_dirs, Some(fuel));
        proof {
            lemma_successors_symmetric(free_dirs@, half_dirs@);
            assert(goal_states@.to_set() =~= set![goal_state]) by {
                assert(goal_states@[0] == goal_state);
            }
        }
        Self {
            known_costs,
            fuel,
            goals: Ghost(goal_states@.to_set()),
            moves: Ghost(successors(free_dirs@, half_dirs@)),
        }
    }

    /// What the table says of a state never exceeds the number of moves of
    /// a path from it to a goal; within the cap it is the least such number.
    pub proof fn lemma_admissible(&self, state: StateType, path: Seq<FullMove>)
        requires
            self.wf(),
            path_in(path, self.moves()),
            self.goals().contains(apply_moves(state, path)),
        ensures
            self.estimate(state) <= path.len(),
            self.contains(state) ==> has_route(state, self.goals(), self.moves(), self.cost(state)),
    {
        if self.contains(state) {
            assert(entry_ok(self.table(), self.goals(), self.moves(), Some(self.fuel()), state));
        }
        if path.len() <= self.fuel() {
            lemma_table_lower_bound(
                self.table(),
                self.goals(),
                self.moves(),
                Some(self.fuel()),
                state,
                path,
            );
        }
    }
}

impl<StateType: CanMove + StateKey + Copy> Heuristic<StateType> for CappedHeuristicCache<
    StateType,
> {
    open spec fn covers(&self, state: StateType) -> bool {
        self.fuel() < usize::MAX
    }

    /// The cost in the table, or one more than the cap for a state that the
    /// table does not hold.
    open spec fn estimate(&self, state: StateType) -> nat {
        if self.contains(state) {
            self.cost(state)
        } else {
            self.fuel() + 1
        }
    }

    fn evaluate(&self, state: &StateType) -> (cost: usize) {
        match cost_map_get(&self.known_costs, state.key()) {
            Some(cost) => cost,
            None => self.fuel + 1,
        }
    }
}

} // verus!
