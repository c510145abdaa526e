//! Iterative-deepening depth-first search with a pruning heuristic.

use crate::heuristic_caches::Heuristic;
use crate::moves::{Amt, apply_move, apply_moves, ApplyMove, CanMove, Dir, FullMove};
use vstd::prelude::*;

verus! {

/// Why no solution came back.
#[derive(Copy, Clone, PartialEq, Eq, Structural, Debug, Hash)]
pub enum SolveError {
    /// The state to start from cannot be reached from the goal with the
    /// moves of the stage.
    UnsolvableInput,
    /// No budget up to the cap gave a solution.
    SearchBudgetExceeded,
    /// What a stage promised of its result does not hold of it.
    InvariantViolated,
}

/// A result with the moves as a sequence.
pub open spec fn result_view(res: Result<Vec<FullMove>, SolveError>) -> Result<
    Seq<FullMove>,
    SolveError,
> {
    match res {
        Ok(moves) => Ok(moves@),
        Err(e) => Err(e),
    }
}

/// What a stage returns that can start: the find of its search, or that the
/// search found nothing within its cap.
pub open spec fn found_or_exceeded(find: Option<Seq<FullMove>>) -> Result<
    Seq<FullMove>,
    SolveError,
> {
    match find {
        Some(path) => Ok(path),
        None => Err(SolveError::SearchBudgetExceeded),
    }
}

/// What a search is to reach.
pub trait Goal<StateType> {
    /// Whether the state is a goal.
    spec fn accepts(&self, state: StateType) -> bool;

    fn reached(&self, state: &StateType) -> (b: bool)
        ensures
            b == self.accepts(*state),
    ;
}

/// Whether a turn of `next` may follow a turn of `last`: not the same face
/// again, and of two opposite faces, which commute, B before F, L before R,
/// D before U.
pub open spec fn can_follow_spec(last: Option<Dir>, next: Dir) -> bool {
    match last {
        None => true,
        Some(last) => !(last == next || (last == Dir::F && next == Dir::B) || (last == Dir::R
            && next == Dir::L) || (last == Dir::U && next == Dir::D)),
    }
}

/// Whether a turn of `next` may follow a turn of `last`.
pub fn can_follow(last: Option<Dir>, next: Dir) -> (b: bool)
    ensures
        b == can_follow_spec(last, next),
{
    if last.is_none() {
        return true;
    }
    let last = last.unwrap();

    // can't repeat a direction, and if two directions commute, have to pick an order
    // so with no significance -- B before F, L before R, D before U
    if last == next {
        false
    } else if last == Dir::F && next == Dir::B {
        false
    } else if last == Dir::R && next == Dir::L {
        false
    } else if last == Dir::U && next == Dir::D {
        false
    } else {
        true
    }
}

/// The three amounts in the order in which the search tries them.
pub open spec fn amt_at(i: int) -> Amt {
    if i == 0 {
        Amt::One
    } else if i == 1 {
        Amt::Two
    } else {
        Amt::Rev
    }
}

/// The moves that a move generator allows, in the order in which the search
/// tries them: a half turn of each direction of `half`, then each direction
/// of `free` by a quarter, a half and a quarter back.
pub open spec fn successors(free: Seq<Dir>, half: Seq<Dir>) -> Seq<FullMove> {
    Seq::new(half.len(), |i: int| FullMove { dir: half[i], amt: Amt::Two }) + Seq::new(
        3 * free.len(),
        |i: int| FullMove { dir: free[i / 3], amt: amt_at(i % 3) },
    )
}

/// Whether the generator of `free` and `half` allows the move.
pub open spec fn move_allowed(free: Seq<Dir>, half: Seq<Dir>, m: FullMove) -> bool {
    free.contains(m.dir) || (half.contains(m.dir) && m.amt == Amt::Two)
}

/// The successors are the moves that the generator allows.
pub proof fn lemma_successors_allowed(free: Seq<Dir>, half: Seq<Dir>, m: FullMove)
    ensures
        successors(free, half).contains(m) <==> move_allowed(free, half, m),
{
    let succ = successors(free, half);
    let halves = Seq::new(half.len(), |i: int| FullMove { dir: half[i], amt: Amt::Two });
    let frees = Seq::new(
        3 * free.len(),
        |i: int| FullMove { dir: free[i / 3], amt: amt_at(i % 3) },
    );
    if succ.contains(m) {
        let i = choose|i: int| 0 <= i < succ.len() && succ[i] == m;
        if i < half.len() {
            assert(half[i] == m.dir);
        } else {
            let j = i - half.len();
            assert(succ[i] == frees[j]);
            assert(free[j / 3] == m.dir);
        }
    }
    if move_allowed(free, half, m) {
        if free.contains(m.dir) {
            let k = choose|k: int| 0 <= k < free.len() && free[k] == m.dir;
            let a = match m.amt {
                Amt::One => 0int,
                Amt::Two => 1int,
                Amt::Rev => 2int,
            };
            let j = 3 * k + a;
            assert(j / 3 == k && j % 3 == a);
            assert(frees[j] == m);
            assert(succ[half.len() + j] == m);
        } else {
            let k = choose|k: int| 0 <= k < half.len() && half[k] == m.dir;
            assert(halves[k] == m);
            assert(succ[k] == m);
        }
    }
}

/// Every move is allowed where all six faces may be turned by quarters.
pub proof fn lemma_all_moves_allowed(m: FullMove)
    ensures
        successors(crate::moves::ALL_DIRS@, Seq::<Dir>::empty()).contains(m),
{
    let all = crate::moves::ALL_DIRS@;
    assert(all[0] == Dir::U && all[1] == Dir::D && all[2] == Dir::B && all[3] == Dir::F && all[4]
        == Dir::L && all[5] == Dir::R);
    assert(all.contains(m.dir)) by {
        match m.dir {
            Dir::U => assert(all[0] == m.dir),
            Dir::D => assert(all[1] == m.dir),
            Dir::B => assert(all[2] == m.dir),
            Dir::F => assert(all[3] == m.dir),
            Dir::L => assert(all[4] == m.dir),
            Dir::R => assert(all[5] == m.dir),
        }
    }
    lemma_successors_allowed(all, Seq::<Dir>::empty(), m);
}

/// The successors of a generator, in the order in which the search tries
/// them.
pub fn successor_moves(free_dirs: &[Dir], half_move_dirs: &[Dir]) -> (out: Vec<FullMove>)
    ensures
        out@ == successors(free_dirs@, half_move_dirs@),
{
    let mut out: Vec<FullMove> = Vec::new();
    let mut i: usize = 0;
    while i < half_move_dirs.len()
        invariant
            i <= half_move_dirs.len(),
            out@ == Seq::new(
                i as nat,
                |k: int| FullMove { dir: half_move_dirs@[k], amt: Amt::Two },
            ),
        decreases half_move_dirs.len() - i,
    {
        out.push(FullMove { dir: half_move_dirs[i], amt: Amt::Two });
        i += 1;
        assert(out@ =~= Seq::new(
            i as nat,
            |k: int| FullMove { dir: half_move_dirs@[k], amt: Amt::Two },
        ));
    }
    let ghost halves = out@;
    let mut j: usize = 0;
    while j < free_dirs.len()
        invariant
            j <= free_dirs.len(),
            out@ == halves + Seq::new(
                (3 * j) as nat,
                |k: int| FullMove { dir: free_dirs@[k / 3], amt: amt_at(k % 3) },
            ),
        decreases free_dirs.len() - j,
    {
        let dir = free_dirs[j];
        out.push(FullMove { dir, amt: Amt::One });
        out.push(FullMove { dir, amt: Amt::Two });
        out.push(FullMove { dir, amt: Amt::Rev });
        j += 1;
        assert(out@ =~= halves + Seq::new(
            (3 * j) as nat,
            |k: int| FullMove { dir: free_dirs@[k / 3], amt: amt_at(k % 3) },
        ));
    }
    out
}

/// The direction of the last move of a path, if it has a move.
pub open spec fn last_dir(path: Seq<FullMove>) -> Option<Dir> {
    if path.len() == 0 {
        None
    } else {
        Some(path.last().dir)
    }
}

/// The moves that the depth-first search with budget `fuel` finds from state
/// `s`, which it came to by `depth` moves, the last of them a turn of `last`.
/// A goal ends the search where it stands; a state from which the heuristic
/// says the budget cannot be met is given up; else the successors are tried
/// in their order, and the first that leads to a goal is taken.
pub open spec fn first_hit<S: CanMove, G: Goal<S>, H: Heuristic<S>>(
    goal: &G,
    heuristic: &H,
    succ: Seq<FullMove>,
    s: S,
    last: Option<Dir>,
    depth: nat,
    fuel: nat,
) -> Option<Seq<FullMove>>
    decreases fuel - depth, succ.len() + 1,
{
    if goal.accepts(s) {
        Some(Seq::empty())
    } else if depth + heuristic.estimate(s) >= fuel {
        None
    } else {
        first_hit_from(goal, heuristic, succ, s, last, depth, fuel, 0)
    }
}

/// What the search finds from `s` by way of a successor from number `i` on.
pub open spec fn first_hit_from<S: CanMove, G: Goal<S>, H: Heuristic<S>>(
    goal: &G,
    heuristic: &H,
    succ: Seq<FullMove>,
    s: S,
    last: Option<Dir>,
    depth: nat,
    fuel: nat,
    i: nat,
) -> Option<Seq<FullMove>>
    decreases fuel - depth, succ.len() - i,
{
    if i >= succ.len() || depth >= fuel {
        None
    } else if !can_follow_spec(last, succ[i as int].dir) {
        first_hit_from(goal, heuristic, succ, s, last, depth, fuel, i + 1)
    } else {
        match first_hit(
            goal,
            heuristic,
            succ,
            apply_move(s, succ[i as int]),
            Some(succ[i as int].dir),
            depth + 1,
            fuel,
        ) {
            Some(rest) => Some(seq![succ[i as int]] + rest),
            None => first_hit_from(goal, heuristic, succ, s, last, depth, fuel, i + 1),
        }
    }
}

/// What iterative deepening finds: the find of the least budget from `fuel`
/// to `max_fuel` that gives one.
pub open spec fn deepening<S: CanMove, G: Goal<S>, H: Heuristic<S>>(
    goal: &G,
    heuristic: &H,
    succ: Seq<FullMove>,
    start: S,
    fuel: nat,
    max_fuel: nat,
) -> Option<Seq<FullMove>>
    decreases max_fuel + 1 - fuel,
{
    if fuel > max_fuel {
        None
    } else {
        match first_hit(goal, heuristic, succ, start, None, 0, fuel) {
            Some(path) => Some(path),
            None => deepening(goal, heuristic, succ, start, fuel + 1, max_fuel),
        }
    }
}

/// What `solve` finds: the first solution in the order of the search, for
/// the least budget up to `max_fuel` that gives one.
pub open spec fn search<S: CanMove, G: Goal<S>, H: Heuristic<S>>(
    goal: &G,
    heuristic: &H,
    free: Seq<Dir>,
    half: Seq<Dir>,
    start: S,
    max_fuel: nat,
) -> Option<Seq<FullMove>> {
    deepening(goal, heuristic, successors(free, half), start, 0, max_fuel)
}

/// Each move of the path may follow the one before it, and the first may
/// follow a turn of `last`.
pub open spec fn canonical(path: Seq<FullMove>, last: Option<Dir>) -> bool
    decreases path.len(),
{
    path.len() > 0 ==> can_follow_spec(last, path[0].dir) && canonical(
        path.drop_first(),
        Some(path[0].dir),
    )
}

/// The heuristic can be asked about every state that a successor leads to
/// from a state that it can be asked about.
pub open spec fn heuristic_closed<S: CanMove, H: Heuristic<S>>(
    heuristic: &H,
    succ: Seq<FullMove>,
) -> bool {
    forall|s: S, i: int|
        heuristic.covers(s) && 0 <= i < succ.len() ==> #[trigger] heuristic.covers(
            apply_move(s, succ[i]),
        )
}

/// What the depth-first search finds leads to a goal, keeps within the
/// budget, is made of successors and holds no move that may not follow the
/// one before it.
pub proof fn lemma_first_hit_sound<S: CanMove, G: Goal<S>, H: Heuristic<S>>(
    goal: &G,
    heuristic: &H,
    succ: Seq<FullMove>,
    s: S,
    last: Option<Dir>,
    depth: nat,
    fuel: nat,
)
    ensures
        first_hit(goal, heuristic, succ, s, last, depth, fuel) matches Some(path) ==> {
            &&& goal.accepts(apply_moves(s, path))
            &&& depth + path.len() <= fuel || path.len() == 0
            &&& forall|k: int| 0 <= k < path.len() ==> succ.contains(#[trigger] path[k])
            &&& canonical(path, last)
        },
    decreases fuel - depth, succ.len() + 1,
{
    if !goal.accepts(s) && depth + heuristic.estimate(s) < fuel {
        lemma_first_hit_from_sound(goal, heuristic, succ, s, last, depth, fuel, 0);
    }
}

/// The same of what the search finds by way of a successor from `i` on.
pub proof fn lemma_first_hit_from_sound<S: CanMove, G: Goal<S>, H: Heuristic<S>>(
    goal: &G,
    heuristic: &H,
    succ: Seq<FullMove>,
    s: S,
    last: Option<Dir>,
    depth: nat,
    fuel: nat,
    i: nat,
)
    ensures
        first_hit_from(goal, heuristic, succ, s, last, depth, fuel, i) matches Some(path) ==> {
            &&& path.len() > 0
            &&& goal.accepts(apply_moves(s, path))
            &&& depth + path.len() <= fuel
            &&& forall|k: int| 0 <= k < path.len() ==> succ.contains(#[trigger] path[k])
            &&& canonical(path, last)
        },
    decreases fuel - depth, succ.len() - i,
{
    if i < succ.len() && depth < fuel {
        let m = succ[i as int];
        if can_follow_spec(last, m.dir) {
            lemma_first_hit_sound(
                goal,
                heuristic,
                succ,
                apply_move(s, m),
                Some(m.dir),
                depth + 1,
                fuel,
            );
            match first_hit(goal, heuristic, succ, apply_move(s, m), Some(m.dir), depth + 1, fuel) {
                Some(rest) => {
                    let path = seq![m] + rest;
                    assert(path.drop_first() =~= rest);
                    assert(path[0] == m);
                    assert forall|k: int| 0 <= k < path.len() implies succ.contains(
                        #[trigger] path[k],
                    ) by {
                        if k > 0 {
                            assert(path[k] == rest[k - 1]);
                        }
                    }
                },
                None => {
                    lemma_first_hit_from_sound(goal, heuristic, succ, s, last, depth, fuel, i + 1);
                },
            }
        } else {
            lemma_first_hit_from_sound(goal, heuristic, succ, s, last, depth, fuel, i + 1);
        }
    }
}

/// What `solve` finds leads from the start to a goal by at most `max_fuel`
/// moves, all of them allowed by the generator, none of them one that may
/// not follow the one before it.
pub proof fn lemma_search_sound<S: CanMove, G: Goal<S>, H: Heuristic<S>>(
    goal: &G,
    heuristic: &H,
    free: Seq<Dir>,
    half: Seq<Dir>,
    start: S,
    max_fuel: nat,
)
    ensures
        search(goal, heuristic, free, half, start, max_fuel) matches Some(path) ==> {
            &&& goal.accepts(apply_moves(start, path))
            &&& path.len() <= max_fuel
            &&& forall|k: int| 0 <= k < path.len() ==> move_allowed(free, half, #[trigger] path[k])
            &&& canonical(path, None)
        },
{
    lemma_deepening_sound(goal, heuristic, free, half, start, 0, max_fuel);
}

/// The same of the find of the least budget from `fuel` on.
pub proof fn lemma_deepening_sound<S: CanMove, G: Goal<S>, H: Heuristic<S>>(
    goal: &G,
    heuristic: &H,
    free: Seq<Dir>,
    half: Seq<Dir>,
    start: S,
    fuel: nat,
    max_fuel: nat,
)
    ensures
        deepening(goal, heuristic, successors(free, half), start, fuel, max_fuel) matches Some(
            path,
        ) ==> {
            &&& goal.accepts(apply_moves(start, path))
            &&& path.len() <= max_fuel
            &&& forall|k: int| 0 <= k < path.len() ==> move_allowed(free, half, #[trigger] path[k])
            &&& canonical(path, None)
        },
    decreases max_fuel + 1 - fuel,
{
    let succ = successors(free, half);
    if fuel <= max_fuel {
        lemma_first_hit_sound(goal, heuristic, succ, start, None, 0, fuel);
        match first_hit(goal, heuristic, succ, start, None, 0, fuel) {
            Some(path) => {
                assert forall|k: int| 0 <= k < path.len() implies move_allowed(
                    free,
                    half,
                    #[trigger] path[k],
                ) by {
                    lemma_successors_allowed(free, half, path[k]);
                }
            },
            None => {
                lemma_deepening_sound(goal, heuristic, free, half, start, fuel + 1, max_fuel);
            },
        }
    }
}

/// `path` is a path that the depth-first search with budget `fuel` walks
/// from `s` to a goal: it ends at the first goal on its way, every state
/// before that passes the heuristic, and every move is a successor that may
/// follow the move before it.
pub open spec fn is_hit<S: CanMove, G: Goal<S>, H: Heuristic<S>>(
    goal: &G,
    heuristic: &H,
    succ: Seq<FullMove>,
    s: S,
    last: Option<Dir>,
    depth: nat,
    fuel: nat,
    path: Seq<FullMove>,
) -> bool
    decreases path.len(),
{
    if path.len() == 0 {
        goal.accepts(s)
    } else {
        &&& !goal.accepts(s)
        &&& depth + heuristic.estimate(s) < fuel
        &&& succ.contains(path[0])
        &&& can_follow_spec(last, path[0].dir)
        &&& is_hit(
            goal,
            heuristic,
            succ,
            apply_move(s, path[0]),
            Some(path[0].dir),
            depth + 1,
            fuel,
            path.drop_first(),
        )
    }
}

/// Where the search from successor `i` on finds nothing, it finds nothing
/// by way of any later successor that may follow the last move.
pub proof fn lemma_first_hit_from_none<S: CanMove, G: Goal<S>, H: Heuristic<S>>(
    goal: &G,
    heuristic: &H,
    succ: Seq<FullMove>,
    s: S,
    last: Option<Dir>,
    depth: nat,
    fuel: nat,
    i: nat,
    j: nat,
)
    requires
        first_hit_from(goal, heuristic, succ, s, last, depth, fuel, i) is None,
        i <= j < succ.len(),
        depth < fuel,
        can_follow_spec(last, succ[j as int].dir),
    ensures
        first_hit(
            goal,
            heuristic,
            succ,
            apply_move(s, succ[j as int]),
            Some(succ[j as int].dir),
            depth + 1,
            fuel,
        ) is None,
    decreases j - i,
{
    if i < j {
        lemma_first_hit_from_none(goal, heuristic, succ, s, last, depth, fuel, i + 1, j);
    }
}

/// The depth-first search misses nothing: where it finds nothing, no path
/// is one that it walks to a goal.
pub proof fn lemma_first_hit_complete<S: CanMove, G: Goal<S>, H: Heuristic<S>>(
    goal: &G,
    heuristic: &H,
    succ: Seq<FullMove>,
    s: S,
    last: Option<Dir>,
    depth: nat,
    fuel: nat,
    path: Seq<FullMove>,
)
    requires
        first_hit(goal, heuristic, succ, s, last, depth, fuel) is None,
    ensures
        !is_hit(goal, heuristic, succ, s, last, depth, fuel, path),
    decreases path.len(),
{
    if is_hit(goal, heuristic, succ, s, last, depth, fuel, path) {
        // the path is not empty, since the search ends at a goal
        let m = path[0];
        let j = choose|j: int| 0 <= j < succ.len() && succ[j] == m;
        lemma_first_hit_from_none(goal, heuristic, succ, s, last, depth, fuel, 0, j as nat);
        lemma_first_hit_complete(
            goal,
            heuristic,
            succ,
            apply_move(s, m),
            Some(m.dir),
            depth + 1,
            fuel,
            path.drop_first(),
        );
    }
}

/// What the depth-first search finds is a path that it walks to a goal.
pub proof fn lemma_first_hit_is_hit<S: CanMove, G: Goal<S>, H: Heuristic<S>>(
    goal: &G,
    heuristic: &H,
    succ: Seq<FullMove>,
    s: S,
    last: Option<Dir>,
    depth: nat,
    fuel: nat,
)
    ensures
        first_hit(goal, heuristic, succ, s, last, depth, fuel) matches Some(path) ==> is_hit(
            goal,
            heuristic,
            succ,
            s,
            last,
            depth,
            fuel,
            path,
        ),
    decreases fuel - depth, succ.len() + 1,
{
    if !goal.accepts(s) && depth + heuristic.estimate(s) < fuel {
        lemma_first_hit_from_is_hit(goal, heuristic, succ, s, last, depth, fuel, 0);
    }
}

/// The same of what the search finds by way of a successor from `i` on.
pub proof fn lemma_first_hit_from_is_hit<S: CanMove, G: Goal<S>, H: Heuristic<S>>(
    goal: &G,
    heuristic: &H,
    succ: Seq<FullMove>,
    s: S,
    last: Option<Dir>,
    depth: nat,
    fuel: nat,
    i: nat,
)
    requires
        !goal.accepts(s),
        depth + heuristic.estimate(s) < fuel,
    ensures
        first_hit_from(goal, heuristic, succ, s, last, depth, fuel, i) matches Some(path)
            ==> is_hit(goal, heuristic, succ, s, last, depth, fuel, path),
    decreases fuel - depth, succ.len() - i,
{
    if i < succ.len() && depth < fuel {
        let m = succ[i as int];
        if can_follow_spec(last, m.dir) {
            lemma_first_hit_is_hit(
                goal,
                heuristic,
                succ,
                apply_move(s, m),
                Some(m.dir),
                depth + 1,
                fuel,
            );
            match first_hit(goal, heuristic, succ, apply_move(s, m), Some(m.dir), depth + 1, fuel) {
                Some(rest) => {
                    let path = seq![m] + rest;
                    assert(path.drop_first() =~= rest);
                    assert(path[0] == m);
                },
                None => {
                    lemma_first_hit_from_is_hit(goal, heuristic, succ, s, last, depth, fuel, i + 1);
                },
            }
        } else {
            lemma_first_hit_from_is_hit(goal, heuristic, succ, s, last, depth, fuel, i + 1);
        }
    }
}

/// `solve` fails exactly where no budget up to the cap has a path that the
/// search walks to a goal; and what it finds is such a path, for the least
/// budget that has one.
pub proof fn lemma_search_complete<S: CanMove, G: Goal<S>, H: Heuristic<S>>(
    goal: &G,
    heuristic: &H,
    free: Seq<Dir>,
    half: Seq<Dir>,
    start: S,
    max_fuel: nat,
    fuel: nat,
    path: Seq<FullMove>,
)
    requires
        fuel <= max_fuel,
        is_hit(goal, heuristic, successors(free, half), start, None, 0, fuel, path),
    ensures
        search(goal, heuristic, free, half, start, max_fuel) is Some,
{
    lemma_deepening_complete(
        goal,
        heuristic,
        successors(free, half),
        start,
        0,
        max_fuel,
        fuel,
        path,
    );
}

/// The same of the deepening from budget `from` on.
pub proof fn lemma_deepening_complete<S: CanMove, G: Goal<S>, H: Heuristic<S>>(
    goal: &G,
    heuristic: &H,
    succ: Seq<FullMove>,
    start: S,
    from: nat,
    max_fuel: nat,
    fuel: nat,
    path: Seq<FullMove>,
)
    requires
        from <= fuel <= max_fuel,
        is_hit(goal, heuristic, succ, start, None, 0, fuel, path),
    ensures
        deepening(goal, heuristic, succ, start, from, max_fuel) is Some,
    decreases fuel - from,
{
    if first_hit(goal, heuristic, succ, start, None, 0, from) is None {
        if from == fuel {
            lemma_first_hit_complete(goal, heuristic, succ, start, None, 0, fuel, path);
        } else {
            lemma_deepening_complete(goal, heuristic, succ, start, from + 1, max_fuel, fuel, path);
        }
    }
}

/// The heuristic never overestimates: what it says of a state is at most
/// the number of moves of any path of successors from it to a goal; and it
/// says at least 1 of a state that it can be asked about and that is no
/// goal.
pub open spec fn admissible<S: CanMove, G: Goal<S>, H: Heuristic<S>>(
    goal: &G,
    heuristic: &H,
    succ: Seq<FullMove>,
) -> bool {
    &&& forall|s: S, path: Seq<FullMove>|
        (forall|k: int| 0 <= k < path.len() ==> succ.contains(#[trigger] path[k]))
            && #[trigger] goal.accepts(apply_moves(s, path)) ==> heuristic.estimate(s)
            <= path.len()
    &&& forall|s: S|
        heuristic.covers(s) && !goal.accepts(s) ==> #[trigger] heuristic.estimate(s) >= 1
}

/// A path that a search walks to a goal is shorter than the budget, unless
/// it has no move.
pub proof fn lemma_hit_is_short<S: CanMove, G: Goal<S>, H: Heuristic<S>>(
    goal: &G,
    heuristic: &H,
    succ: Seq<FullMove>,
    s: S,
    last: Option<Dir>,
    depth: nat,
    fuel: nat,
    path: Seq<FullMove>,
)
    requires
        is_hit(goal, heuristic, succ, s, last, depth, fuel, path),
        heuristic.covers(s),
        heuristic_closed::<S, H>(heuristic, succ),
        forall|t: S|
            heuristic.covers(t) && !goal.accepts(t) ==> #[trigger] heuristic.estimate(t) >= 1,
    ensures
        path.len() == 0 || depth + path.len() < fuel,
    decreases path.len(),
{
    if path.len() > 0 {
        let i = choose|i: int| 0 <= i < succ.len() && succ[i] == path[0];
        assert(heuristic.covers(apply_move(s, succ[i])));
        lemma_hit_is_short(
            goal,
            heuristic,
            succ,
            apply_move(s, path[0]),
            Some(path[0].dir),
            depth + 1,
            fuel,
            path.drop_first(),
        );
    }
}

/// With a heuristic that never overestimates, some beginning of a path to a
/// goal whose moves may follow one another is a path that the search with
/// one more move of budget than the path has walks to a goal.
pub proof fn lemma_path_has_hit<S: CanMove, G: Goal<S>, H: Heuristic<S>>(
    goal: &G,
    heuristic: &H,
    succ: Seq<FullMove>,
    s: S,
    last: Option<Dir>,
    depth: nat,
    path: Seq<FullMove>,
) -> (hit: Seq<FullMove>)
    requires
        admissible(goal, heuristic, succ),
        forall|k: int| 0 <= k < path.len() ==> succ.contains(#[trigger] path[k]),
        canonical(path, last),
        goal.accepts(apply_moves(s, path)),
    ensures
        hit.len() <= path.len(),
        is_hit(goal, heuristic, succ, s, last, depth, depth + path.len() + 1, hit),
    decreases path.len(),
{
    if goal.accepts(s) {
        Seq::empty()
    } else {
        // no goal here, so the path has a move
        assert(path.len() > 0) by {
            if path.len() == 0 {
                assert(apply_moves(s, path) == s);
            }
        }
        let rest = path.drop_first();
        assert forall|k: int| 0 <= k < rest.len() implies succ.contains(#[trigger] rest[k]) by {
            assert(rest[k] == path[k + 1]);
        }
        let tail = lemma_path_has_hit(
            goal,
            heuristic,
            succ,
            apply_move(s, path[0]),
            Some(path[0].dir),
            depth + 1,
            rest,
        );
        let hit = seq![path[0]] + tail;
        assert(hit.drop_first() =~= tail);
        assert(hit[0] == path[0]);
        assert(heuristic.estimate(s) <= path.len());
        hit
    }
}

/// The least budget from `from` on that gives a find gives what the
/// deepening finds, and the find is shorter than that budget, or has no
/// move.
pub proof fn lemma_deepening_least<S: CanMove, G: Goal<S>, H: Heuristic<S>>(
    goal: &G,
    heuristic: &H,
    succ: Seq<FullMove>,
    start: S,
    from: nat,
    max_fuel: nat,
    fuel: nat,
    hit: Seq<FullMove>,
)
    requires
        from <= fuel <= max_fuel,
        is_hit(goal, heuristic, succ, start, None, 0, fuel, hit),
        heuristic.covers(start),
        heuristic_closed::<S, H>(heuristic, succ),
        forall|t: S|
            heuristic.covers(t) && !goal.accepts(t) ==> #[trigger] heuristic.estimate(t) >= 1,
    ensures
        deepening(goal, heuristic, succ, start, from, max_fuel) matches Some(found)
            && (found.len() == 0 || found.len() < fuel),
    decreases fuel - from,
{
    match first_hit(goal, heuristic, succ, start, None, 0, from) {
        Some(found) => {
            lemma_first_hit_is_hit(goal, heuristic, succ, start, None, 0, from);
            lemma_hit_is_short(goal, heuristic, succ, start, None, 0, from, found);
        },
        None => {
            if from == fuel {
                lemma_first_hit_complete(goal, heuristic, succ, start, None, 0, fuel, hit);
            } else {
                lemma_deepening_least(
                    goal,
                    heuristic,
                    succ,
                    start,
                    from + 1,
                    max_fuel,
                    fuel,
                    hit,
                );
            }
        },
    }
}

/// Where the heuristic says at least 1 of every state that is no goal, what
/// the deepening finds has no move or is shorter than the cap: the search
/// gives up a state that is no goal once one more move would fill the
/// budget.
pub proof fn lemma_deepening_short<S: CanMove, G: Goal<S>, H: Heuristic<S>>(
    goal: &G,
    heuristic: &H,
    succ: Seq<FullMove>,
    start: S,
    from: nat,
    max_fuel: nat,
)
    requires
        heuristic.covers(start),
        heuristic_closed::<S, H>(heuristic, succ),
        forall|t: S|
            heuristic.covers(t) && !goal.accepts(t) ==> #[trigger] heuristic.estimate(t) >= 1,
    ensures
        deepening(goal, heuristic, succ, start, from, max_fuel) matches Some(found) ==> found.len()
            == 0 || found.len() < max_fuel,
    decreases max_fuel + 1 - from,
{
    if from <= max_fuel {
        match first_hit(goal, heuristic, succ, start, None, 0, from) {
            Some(found) => {
                lemma_first_hit_is_hit(goal, heuristic, succ, start, None, 0, from);
                lemma_hit_is_short(goal, heuristic, succ, start, None, 0, from, found);
            },
            None => {
                lemma_deepening_short(goal, heuristic, succ, start, from + 1, max_fuel);
            },
        }
    }
}

/// Where the heuristic says at least 1 of every state that is no goal, what
/// `solve` finds has no move or is shorter than the cap.
pub proof fn lemma_search_short<S: CanMove, G: Goal<S>, H: Heuristic<S>>(
    goal: &G,
    heuristic: &H,
    free: Seq<Dir>,
    half: Seq<Dir>,
    start: S,
    max_fuel: nat,
)
    requires
        heuristic.covers(start),
        heuristic_closed::<S, H>(heuristic, successors(free, half)),
        forall|t: S|
            heuristic.covers(t) && !goal.accepts(t) ==> #[trigger] heuristic.estimate(t) >= 1,
    ensures
        search(goal, heuristic, free, half, start, max_fuel) matches Some(found) ==> found.len()
            == 0 || found.len() < max_fuel,
{
    lemma_deepening_short(goal, heuristic, successors(free, half), start, 0, max_fuel);
}

/// With a heuristic that never overestimates, what `solve` finds is no
/// longer than any path of allowed moves to a goal whose moves may follow
/// one another, if the cap leaves one move to spare for that path.
pub proof fn lemma_search_optimal<S: CanMove, G: Goal<S>, H: Heuristic<S>>(
    goal: &G,
    heuristic: &H,
    free: Seq<Dir>,
    half: Seq<Dir>,
    start: S,
    max_fuel: nat,
    path: Seq<FullMove>,
)
    requires
        admissible(goal, heuristic, successors(free, half)),
        heuristic.covers(start),
        heuristic_closed::<S, H>(heuristic, successors(free, half)),
        forall|k: int| 0 <= k < path.len() ==> move_allowed(free, half, #[trigger] path[k]),
        canonical(path, None),
        goal.accepts(apply_moves(start, path)),
        path.len() < max_fuel,
    ensures
        search(goal, heuristic, free, half, start, max_fuel) matches Some(found) && found.len()
            <= path.len(),
{
    let succ = successors(free, half);
    assert forall|k: int| 0 <= k < path.len() implies succ.contains(#[trigger] path[k]) by {
        lemma_successors_allowed(free, half, path[k]);
    }
    let hit = lemma_path_has_hit(goal, heuristic, succ, start, None, 0, path);
    lemma_deepening_least(goal, heuristic, succ, start, 0, max_fuel, path.len() + 1, hit);
}

/// The depth-first search from `cube` with budget `max_depth`. The moves
/// that led to `cube` stand in `running`; the moves of a find are added to
/// them.
fn ida<S: CanMove + Copy, G: Goal<S>, H: Heuristic<S>>(
    goal: &G,
    heuristic: &H,
    moves: &Vec<FullMove>,
    cube: &S,
    running: &mut Vec<FullMove>,
    max_depth: usize,
) -> (found: bool)
    requires
        heuristic.covers(*cube),
        heuristic_closed::<S, H>(heuristic, moves@),
        old(running).len() <= max_depth,
    ensures
        match first_hit(
            goal,
            heuristic,
            moves@,
            *cube,
            last_dir(old(running)@),
            old(running).len() as nat,
            max_depth as nat,
        ) {
            Some(rest) => found && final(running)@ == old(running)@ + rest,
            None => !found && final(running)@ == old(running)@,
        },
    decreases max_depth - old(running).len(),
{
    let ghost before = running@;
    let ghost last = last_dir(before);
    let ghost depth = before.len();
    if goal.reached(cube) {
        assert(before + Seq::<FullMove>::empty() =~= before);
        return true;
    } else if heuristic.evaluate(cube) >= max_depth - running.len() {
        return false;
    }
    let mut i: usize = 0;
    while i < moves.len()
        invariant
            i <= moves.len(),
            running@ == before,
            before == old(running)@,
            last == last_dir(before),
            depth == before.len(),
            depth < max_depth,
            heuristic.covers(*cube),
            heuristic_closed::<S, H>(heuristic, moves@),
            first_hit_from(goal, heuristic, moves@, *cube, last, depth, max_depth as nat, i as nat)
                == first_hit(goal, heuristic, moves@, *cube, last, depth, max_depth as nat),
        decreases moves.len() - i,
    {
        let fm = moves[i];
        let last_turned = if running.len() == 0 {
            None
        } else {
            Some(running[running.len() - 1].dir)
        };
        if can_follow(last_turned, fm.dir) {
            let next = (*cube).apply(fm);
            running.push(fm);
            assert(last_dir(running@) == Some(fm.dir));
            let found_solution = ida(goal, heuristic, moves, &next, running, max_depth);
            if found_solution {
                proof {
                    let rest = first_hit(
                        goal,
                        heuristic,
                        moves@,
                        next,
                        Some(fm.dir),
                        depth + 1,
                        max_depth as nat,
                    ).unwrap();
                    assert(before.push(fm) + rest =~= before + (seq![fm] + rest));
                }
                return true;
            }
            running.pop();
            assert(running@ =~= before);
        }
        i += 1;
    }
    false
}

/// Searches for moves that lead from `start_state` to a goal, with budgets
/// 0, 1, and so on up to `max_fuel`, and returns the first find.
pub fn solve<S: CanMove + Copy, G: Goal<S>, H: Heuristic<S>>(
    start_state: S,
    free_dirs: &[Dir],
    half_move_dirs: &[Dir],
    is_solved: &G,
    cost_heuristic: &H,
    max_fuel: usize,
) -> (res: Result<Vec<FullMove>, SolveError>)
    requires
        cost_heuristic.covers(start_state),
        heuristic_closed::<S, H>(cost_heuristic, successors(free_dirs@, half_move_dirs@)),
    ensures
        match res {
            Ok(moves) => {
                &&& search(
                    is_solved,
                    cost_heuristic,
                    free_dirs@,
                    half_move_dirs@,
                    start_state,
                    max_fuel as nat,
                ) == Some(moves@)
                &&& is_solved.accepts(apply_moves(start_state, moves@))
                &&& moves.len() <= max_fuel
                &&& forall|k: int|
                    0 <= k < moves.len() ==> move_allowed(
                        free_dirs@,
                        half_move_dirs@,
                        #[trigger] moves[k],
                    )
            },
            Err(e) => {
                &&& e == SolveError::SearchBudgetExceeded
                &&& search(
                    is_solved,
                    cost_heuristic,
                    free_dirs@,
                    half_move_dirs@,
                    start_state,
                    max_fuel as nat,
                ) is None
            },
        },
{
    let moves = successor_moves(free_dirs, half_move_dirs);
    let ghost succ = successors(free_dirs@, half_move_dirs@);
    proof {
        lemma_search_sound(
            is_solved,
            cost_heuristic,
            free_dirs@,
            half_move_dirs@,
            start_state,
            max_fuel as nat,
        );
    }
    let mut fuel: usize = 0;
    loop
        invariant
            fuel <= max_fuel,
            moves@ == succ,
            succ == successors(free_dirs@, half_move_dirs@),
            cost_heuristic.covers(start_state),
            heuristic_closed::<S, H>(cost_heuristic, succ),
            deepening(is_solved, cost_heuristic, succ, start_state, fuel as nat, max_fuel as nat)
                == search(
                is_solved,
                cost_heuristic,
                free_dirs@,
                half_move_dirs@,
                start_state,
                max_fuel as nat,
            ),
            search(
                is_solved,
                cost_heuristic,
                free_dirs@,
                half_move_dirs@,
                start_state,
                max_fuel as nat,
            ) matches Some(path) ==> {
                &&& is_solved.accepts(apply_moves(start_state, path))
                &&& path.len() <= max_fuel
                &&& forall|k: int|
                    0 <= k < path.len() ==> move_allowed(
                        free_dirs@,
                        half_move_dirs@,
                        #[trigger] path[k],
                    )
            },
        decreases max_fuel - fuel,
    {
        let mut running: Vec<FullMove> = Vec::new();
        let solved = ida(is_solved, cost_heuristic, &moves, &start_state, &mut running, fuel);
        if solved {
            proof {
                let path = first_hit(
                    is_solved,
                    cost_heuristic,
                    succ,
                    start_state,
                    None,
                    0,
                    fuel as nat,
                ).unwrap();
                assert(Seq::<FullMove>::empty() + path =~= path);
            }
            return Ok(running);
        }
        if fuel == max_fuel {
            assert(deepening(
                is_solved,
                cost_heuristic,
                succ,
                start_state,
                (fuel + 1) as nat,
                max_fuel as nat,
            ) is None);
            return Err(SolveError::SearchBudgetExceeded);
        }
        fuel += 1;
    }
}

} // verus!
