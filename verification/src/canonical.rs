//! Paths in canonical order. The search leaves out every path in which a
//! face is turned twice in a row, or in which of two opposite faces, whose
//! turns can be made in either order, the wrong one is turned first. It
//! misses nothing by that: every path has a path in canonical order that
//! does the same and is no longer.

use crate::dfs_util::{
    admissible, can_follow_spec, canonical, heuristic_closed, lemma_search_optimal, move_allowed,
    search, successors, Goal,
};
use crate::heuristic_caches::Heuristic;
use crate::moves::{apply_move, apply_moves, lemma_turn_cycle, turn, Amt, CanMove, Dir, FullMove};
use vstd::prelude::*;

verus! {

/// Two opposite faces.
pub open spec fn opposite(a: Dir, b: Dir) -> bool {
    ||| (a == Dir::R && b == Dir::L)
    ||| (a == Dir::L && b == Dir::R)
    ||| (a == Dir::U && b == Dir::D)
    ||| (a == Dir::D && b == Dir::U)
    ||| (a == Dir::F && b == Dir::B)
    ||| (a == Dir::B && b == Dir::F)
}

/// The number of quarter turns of an amount.
pub open spec fn quarters(amt: Amt) -> int {
    match amt {
        Amt::One => 1,
        Amt::Two => 2,
        Amt::Rev => 3,
    }
}

/// The one move that two moves of one face make together, or `None` if they
/// undo each other.
pub open spec fn merged(first: FullMove, second: FullMove) -> Option<FullMove> {
    let together = (quarters(first.amt) + quarters(second.amt)) % 4;
    if together == 0 {
        None
    } else if together == 1 {
        Some(FullMove { dir: first.dir, amt: Amt::One })
    } else if together == 2 {
        Some(FullMove { dir: first.dir, amt: Amt::Two })
    } else {
        Some(FullMove { dir: first.dir, amt: Amt::Rev })
    }
}

/// A path in canonical order that does what `m` and then the path `q` in
/// canonical order do: `m` goes together with a first move of its face, goes
/// before a first move that may follow it, and else goes behind the first
/// move, which turns the opposite face.
pub open spec fn put_first(m: FullMove, q: Seq<FullMove>) -> Seq<FullMove>
    decreases q.len(),
{
    if q.len() == 0 {
        seq![m]
    } else if q[0].dir == m.dir {
        match merged(m, q[0]) {
            None => q.drop_first(),
            Some(both) => seq![both] + q.drop_first(),
        }
    } else if can_follow_spec(Some(m.dir), q[0].dir) {
        seq![m] + q
    } else {
        seq![q[0]] + put_first(m, q.drop_first())
    }
}

/// A path in canonical order that does what `path` does.
pub open spec fn canonical_form(path: Seq<FullMove>) -> Seq<FullMove>
    decreases path.len(),
{
    if path.len() == 0 {
        Seq::empty()
    } else {
        put_first(path[0], canonical_form(path.drop_first()))
    }
}

/// Every move of the path is allowed by the generator.
pub open spec fn all_allowed(free: Seq<Dir>, half: Seq<Dir>, path: Seq<FullMove>) -> bool {
    forall|k: int| 0 <= k < path.len() ==> move_allowed(free, half, #[trigger] path[k])
}

/// Two moves of one face do what the move that they make together does, or
/// nothing.
pub proof fn lemma_merged_effect<T: CanMove>(s: T, first: FullMove, second: FullMove)
    requires
        first.dir == second.dir,
    ensures
        match merged(first, second) {
            None => apply_move(apply_move(s, first), second) == s,
            Some(both) => apply_move(apply_move(s, first), second) == apply_move(s, both),
        },
{
    let dir = first.dir;
    lemma_turn_cycle(s, dir);
    lemma_turn_cycle(turn(s, dir), dir);
    lemma_turn_cycle(turn(turn(s, dir), dir), dir);
}

/// A quarter turn after one, two or three quarter turns of the opposite
/// face is as well made before them.
pub proof fn lemma_turn_past_turns<T: CanMove>(s: T, a: Dir, b: Dir)
    requires
        opposite(a, b),
    ensures
        turn(turn(s, a), b) == turn(turn(s, b), a),
        turn(turn(turn(s, a), a), b) == turn(turn(turn(s, b), a), a),
        turn(turn(turn(turn(s, a), a), a), b) == turn(turn(turn(turn(s, b), a), a), a),
{
    s.lemma_opposite_turns_commute();
    turn(s, a).lemma_opposite_turns_commute();
    turn(turn(s, a), a).lemma_opposite_turns_commute();
}

/// Moves of two opposite faces can be made in either order.
pub proof fn lemma_opposite_moves_commute<T: CanMove>(s: T, m: FullMove, h: FullMove)
    requires
        opposite(m.dir, h.dir),
    ensures
        apply_move(apply_move(s, m), h) == apply_move(apply_move(s, h), m),
{
    let a = m.dir;
    let b = h.dir;
    lemma_turn_past_turns(s, a, b);
    lemma_turn_past_turns(turn(s, b), a, b);
    lemma_turn_past_turns(turn(turn(s, b), b), a, b);
}

/// The moves of a list with one move before it.
pub proof fn lemma_apply_moves_cons<T: CanMove>(s: T, m: FullMove, rest: Seq<FullMove>)
    ensures
        apply_moves(s, seq![m] + rest) == apply_moves(apply_move(s, m), rest),
{
    assert((seq![m] + rest).drop_first() =~= rest);
}

/// What `put_first` makes does what the move and then the path do.
pub proof fn lemma_put_first_effect<T: CanMove>(s: T, m: FullMove, q: Seq<FullMove>)
    ensures
        apply_moves(s, put_first(m, q)) == apply_moves(apply_move(s, m), q),
    decreases q.len(),
{
    if q.len() == 0 {
        lemma_apply_moves_cons(s, m, q);
        assert(seq![m] + q =~= seq![m]);
    } else if q[0].dir == m.dir {
        lemma_merged_effect(s, m, q[0]);
        match merged(m, q[0]) {
            None => {},
            Some(both) => {
                lemma_apply_moves_cons(s, both, q.drop_first());
            },
        }
    } else if can_follow_spec(Some(m.dir), q[0].dir) {
        lemma_apply_moves_cons(s, m, q);
    } else {
        lemma_apply_moves_cons(s, q[0], put_first(m, q.drop_first()));
        lemma_put_first_effect(apply_move(s, q[0]), m, q.drop_first());
        lemma_opposite_moves_commute(s, m, q[0]);
    }
}

/// What `put_first` makes is no longer than the move and the path, and made
/// of allowed moves if they are.
pub proof fn lemma_put_first_allowed(free: Seq<Dir>, half: Seq<Dir>, m: FullMove, q: Seq<FullMove>)
    requires
        move_allowed(free, half, m),
        all_allowed(free, half, q),
    ensures
        all_allowed(free, half, put_first(m, q)),
        put_first(m, q).len() <= q.len() + 1,
    decreases q.len(),
{
    let r = put_first(m, q);
    if q.len() == 0 {
    } else if q[0].dir == m.dir {
        assert(move_allowed(free, half, q[0]));
        assert forall|k: int| 0 <= k < r.len() implies move_allowed(free, half, #[trigger] r[k]) by {
            match merged(m, q[0]) {
                None => {
                    assert(r[k] == q[k + 1]);
                },
                Some(both) => {
                    if k > 0 {
                        assert(r[k] == q[k]);
                    }
                },
            }
        }
    } else if can_follow_spec(Some(m.dir), q[0].dir) {
        assert forall|k: int| 0 <= k < r.len() implies move_allowed(free, half, #[trigger] r[k]) by {
            if k > 0 {
                assert(r[k] == q[k - 1]);
            }
        }
    } else {
        let rest = q.drop_first();
        assert(all_allowed(free, half, rest)) by {
            assert forall|k: int| 0 <= k < rest.len() implies move_allowed(
                free,
                half,
                #[trigger] rest[k],
            ) by {
                assert(rest[k] == q[k + 1]);
            }
        }
        lemma_put_first_allowed(free, half, m, rest);
        assert(move_allowed(free, half, q[0]));
        assert forall|k: int| 0 <= k < r.len() implies move_allowed(free, half, #[trigger] r[k]) by {
            if k > 0 {
                assert(r[k] == put_first(m, rest)[k - 1]);
            }
        }
    }
}

/// What `put_first` makes of a move and a path in canonical order is in
/// canonical order. `last` is the face turned before, if one was: it is
/// then the face opposite to that of the move, turned first of the two.
pub proof fn lemma_put_first_canonical(last: Option<Dir>, m: FullMove, q: Seq<FullMove>)
    requires
        canonical(q, last),
        can_follow_spec(last, m.dir),
        last matches Some(d) ==> opposite(d, m.dir),
    ensures
        canonical(put_first(m, q), last),
    decreases q.len(),
{
    let r = put_first(m, q);
    if q.len() == 0 {
        assert(r.drop_first() =~= Seq::<FullMove>::empty());
        assert(canonical(r.drop_first(), Some(m.dir)));
    } else if q[0].dir == m.dir {
        let rest = q.drop_first();
        assert(canonical(rest, Some(m.dir)));
        match merged(m, q[0]) {
            None => {
                // what followed the face of the move may follow the face before it
                if rest.len() > 0 {
                    assert(can_follow_spec(Some(m.dir), rest[0].dir));
                    assert(can_follow_spec(last, rest[0].dir));
                }
            },
            Some(both) => {
                assert(r.drop_first() =~= rest);
                assert(r[0].dir == m.dir);
            },
        }
    } else if can_follow_spec(Some(m.dir), q[0].dir) {
        assert(r.drop_first() =~= q);
        assert(canonical(q.drop_first(), Some(q[0].dir)));
        assert(canonical(q, Some(m.dir)));
    } else {
        // the first move turns the face opposite to that of the move
        let rest = q.drop_first();
        assert(opposite(q[0].dir, m.dir));
        assert(last is None);
        assert(canonical(rest, Some(q[0].dir)));
        lemma_put_first_canonical(Some(q[0].dir), m, rest);
        assert(r.drop_first() =~= put_first(m, rest));
        assert(r[0] == q[0]);
    }
}

/// The canonical form of a path is in canonical order, no longer than the
/// path, and made of allowed moves if the path is.
pub proof fn lemma_canonical_form(free: Seq<Dir>, half: Seq<Dir>, path: Seq<FullMove>)
    requires
        all_allowed(free, half, path),
    ensures
        canonical(canonical_form(path), None),
        canonical_form(path).len() <= path.len(),
        all_allowed(free, half, canonical_form(path)),
    decreases path.len(),
{
    if path.len() > 0 {
        let rest = path.drop_first();
        assert(all_allowed(free, half, rest)) by {
            assert forall|k: int| 0 <= k < rest.len() implies move_allowed(
                free,
                half,
                #[trigger] rest[k],
            ) by {
                assert(rest[k] == path[k + 1]);
            }
        }
        lemma_canonical_form(free, half, rest);
        assert(move_allowed(free, half, path[0]));
        lemma_put_first_allowed(free, half, path[0], canonical_form(rest));
        lemma_put_first_canonical(None, path[0], canonical_form(rest));
    }
}

/// The canonical form of a path does what the path does.
pub proof fn lemma_canonical_form_effect<T: CanMove>(s: T, path: Seq<FullMove>)
    ensures
        apply_moves(s, canonical_form(path)) == apply_moves(s, path),
    decreases path.len(),
{
    if path.len() > 0 {
        lemma_put_first_effect(s, path[0], canonical_form(path.drop_first()));
        lemma_canonical_form_effect(apply_move(s, path[0]), path.drop_first());
    }
}

/// With a heuristic that never overestimates, what `solve` finds is no
/// longer than any path of allowed moves to a goal, if the cap leaves one
/// move to spare for that path: the order in which the search tries the
/// moves, and what it leaves out, cost nothing.
pub proof fn lemma_search_finds_shortest<S: CanMove, G: Goal<S>, H: Heuristic<S>>(
    goal: &G,
    heuristic: &H,
    free: Seq<Dir>,
    half: Seq<Dir>,
    start: S,
    max_fuel: nat,
    path: Seq<FullMove>,
)
    requires
        admissible(goal, heuristic, successors(free, half)),
        heuristic.covers(start),
        heuristic_closed::<S, H>(heuristic, successors(free, half)),
        all_allowed(free, half, path),
        goal.accepts(apply_moves(start, path)),
        path.len() < max_fuel,
    ensures
        search(goal, heuristic, free, half, start, max_fuel) matches Some(found) && found.len()
            <= path.len(),
{
    let ordered = canonical_form(path);
    lemma_canonical_form(free, half, path);
    lemma_canonical_form_effect(start, path);
    lemma_search_optimal(goal, heuristic, free, half, start, max_fuel, ordered);
}

} // verus!
