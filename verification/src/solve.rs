//! Module for solving cubes in various ways and to various degrees

use crate::cube::{AmbigFacelet, Cube};
use crate::dfs_util::{found_or_exceeded, result_view, SolveError, successor_moves, successors};
use crate::moves::{ALL_DIRS, apply_move, apply_moves, ApplyMove, Dir, FullMove};
use crate::shadow::{to_white_cross, white_cross};
use vstd::prelude::*;

verus! {

pub type MaskedCube = Cube<AmbigFacelet>;

/// The most moves that a white cross may take.
pub const MAX_MOVES: usize = 12;

/// Whether the search goes from `s` by the move `m` after a turn of `last`:
/// not the same face again, and no move that leaves what is known of the
/// cube as it was.
pub open spec fn worth_trying(s: MaskedCube, last: Option<Dir>, m: FullMove) -> bool {
    last != Some(m.dir) && apply_move(s, m) != s
}

/// The moves that the depth-first search with budget `fuel` finds from the
/// masked cube `s`, which it came to by `depth` moves, the last of them a
/// turn of `last`: none where all that is known of `s` is in place; else
/// those by way of the first successor worth trying that leads there.
pub open spec fn wc_first_hit(
    succ: Seq<FullMove>,
    s: MaskedCube,
    last: Option<Dir>,
    depth: nat,
    fuel: nat,
) -> Option<Seq<FullMove>>
    decreases fuel - depth, succ.len() + 1,
{
    if s.is_solved_spec() {
        Some(Seq::empty())
    } else if depth >= fuel {
        None
    } else {
        wc_first_hit_from(succ, s, last, depth, fuel, 0)
    }
}

/// What the search finds from `s` by way of a successor from number `i` on.
pub open spec fn wc_first_hit_from(
    succ: Seq<FullMove>,
    s: MaskedCube,
    last: Option<Dir>,
    depth: nat,
    fuel: nat,
    i: nat,
) -> Option<Seq<FullMove>>
    decreases fuel - depth, succ.len() - i,
{
    if i >= succ.len() || depth >= fuel {
        None
    } else if !worth_trying(s, last, succ[i as int]) {
        wc_first_hit_from(succ, s, last, depth, fuel, i + 1)
    } else {
        match wc_first_hit(
            succ,
            apply_move(s, succ[i as int]),
            Some(succ[i as int].dir),
            depth + 1,
            fuel,
        ) {
            Some(rest) => Some(seq![succ[i as int]] + rest),
            None => wc_first_hit_from(succ, s, last, depth, fuel, i + 1),
        }
    }
}

/// The find of the least budget from `fuel` to `max_fuel` that gives one.
pub open spec fn wc_deepening(
    succ: Seq<FullMove>,
    start: MaskedCube,
    fuel: nat,
    max_fuel: nat,
) -> Option<
    Seq<FullMove>,
>
    decreases max_fuel + 1 - fuel,
{
    if fuel > max_fuel {
        None
    } else {
        match wc_first_hit(succ, start, None, 0, fuel) {
            Some(path) => Some(path),
            None => wc_deepening(succ, start, fuel + 1, max_fuel),
        }
    }
}

/// What `solve_wc` finds: the first moves, in the order of the search and
/// for the least budget up to the cap, that put the white cross of the cube
/// in place.
pub open spec fn wc_search(cube: Cube) -> Option<Seq<FullMove>> {
    wc_deepening(
        successors(ALL_DIRS@, Seq::<Dir>::empty()),
        white_cross(cube),
        0,
        MAX_MOVES as nat,
    )
}

/// What the search finds puts all that is known of the cube in place, and
/// keeps within the budget.
pub proof fn lemma_wc_first_hit_sound(
    succ: Seq<FullMove>,
    s: MaskedCube,
    last: Option<Dir>,
    depth: nat,
    fuel: nat,
)
    ensures
        wc_first_hit(succ, s, last, depth, fuel) matches Some(path) ==> apply_moves(
            s,
            path,
        ).is_solved_spec() && (depth + path.len() <= fuel || path.len() == 0),
    decreases fuel - depth, succ.len() + 1,
{
    if !s.is_solved_spec() && depth < fuel {
        lemma_wc_first_hit_from_sound(succ, s, last, depth, fuel, 0);
    }
}

/// The same of what the search finds by way of a successor from `i` on.
pub proof fn lemma_wc_first_hit_from_sound(
    succ: Seq<FullMove>,
    s: MaskedCube,
    last: Option<Dir>,
    depth: nat,
    fuel: nat,
    i: nat,
)
    ensures
        wc_first_hit_from(succ, s, last, depth, fuel, i) matches Some(path) ==> apply_moves(
            s,
            path,
        ).is_solved_spec() && depth + path.len() <= fuel,
    decreases fuel - depth, succ.len() - i,
{
    if i < succ.len() && depth < fuel {
        let m = succ[i as int];
        if worth_trying(s, last, m) {
            lemma_wc_first_hit_sound(succ, apply_move(s, m), Some(m.dir), depth + 1, fuel);
            match wc_first_hit(succ, apply_move(s, m), Some(m.dir), depth + 1, fuel) {
                Some(rest) => {
                    assert((seq![m] + rest).drop_first() =~= rest);
                },
                None => {
                    lemma_wc_first_hit_from_sound(succ, s, last, depth, fuel, i + 1);
                },
            }
        } else {
            lemma_wc_first_hit_from_sound(succ, s, last, depth, fuel, i + 1);
        }
    }
}

/// What `solve_wc` finds puts the white cross in place by at most the cap
/// of moves.
pub proof fn lemma_wc_deepening_sound(
    succ: Seq<FullMove>,
    start: MaskedCube,
    fuel: nat,
    max_fuel: nat,
)
    ensures
        wc_deepening(succ, start, fuel, max_fuel) matches Some(path) ==> apply_moves(
            start,
            path,
        ).is_solved_spec() && path.len() <= max_fuel,
    decreases max_fuel + 1 - fuel,
{
    if fuel <= max_fuel {
        lemma_wc_first_hit_sound(succ, start, None, 0, fuel);
        if wc_first_hit(succ, start, None, 0, fuel) is None {
            lemma_wc_deepening_sound(succ, start, fuel + 1, max_fuel);
        }
    }
}

// iterative-deepening DFS; returns true if it found a solution, or false if not
fn ida(
    moves: &Vec<FullMove>,
    cube: &MaskedCube,
    running: &mut Vec<FullMove>,
    max_depth: usize,
) -> (found: bool)
    requires
        old(running).len() <= max_depth || cube.is_solved_spec(),
    ensures
        match wc_first_hit(
            moves@,
            *cube,
            crate::dfs_util::last_dir(old(running)@),
            old(running).len() as nat,
            max_depth as nat,
        ) {
            Some(rest) => found && final(running)@ == old(running)@ + rest,
            None => !found && final(running)@ == old(running)@,
        },
    decreases max_depth - old(running).len(),
{
    let ghost before = running@;
    let ghost last = crate::dfs_util::last_dir(before);
    let ghost depth = before.len();
    if cube.is_solved() {
        assert(before + Seq::<FullMove>::empty() =~= before);
        return true;
    } else if running.len() >= max_depth {
        return false;
    }
    let mut i: usize = 0;
    while i < moves.len()
        invariant
            i <= moves.len(),
            running@ == before,
            before == old(running)@,
            last == crate::dfs_util::last_dir(before),
            depth == before.len(),
            depth < max_depth,
            wc_first_hit_from(moves@, *cube, last, depth, max_depth as nat, i as nat)
                == wc_first_hit(moves@, *cube, last, depth, max_depth as nat),
        decreases moves.len() - i,
    {
        let fm = moves[i];
        let repeats = running.len() > 0 && running[running.len() - 1].dir == fm.dir;
        if !repeats {
            let next = (*cube).apply(fm);

            // for WC there are so many blanks there is a good chance an individual move
            // will be a no-op, so this cuts runtime by two thirds (!)
            if next != *cube {
                running.push(fm);
                assert(crate::dfs_util::last_dir(running@) == Some(fm.dir));
                let found_solution = ida(moves, &next, running, max_depth);
                if found_solution {
                    proof {
                        let rest = wc_first_hit(
                            moves@,
                            next,
                            Some(fm.dir),
                            depth + 1,
                            max_depth as nat,
                        ).unwrap();
                        assert(before.push(fm) + rest =~= before + (seq![fm] + rest));
                    }
                    return true;
                }
                running.pop();
                assert(running@ =~= before);
            }
        }
        i += 1;
    }
    false
}

/// Finds moves that put the white cross of the cube in place: the four
/// edges that show white, each between the white center and the center of
/// its other color. `SearchBudgetExceeded` says that the search found none
/// within its cap.
pub fn solve_wc(cube: Cube) -> (res: Result<Vec<FullMove>, SolveError>)
    ensures
        result_view(res) == found_or_exceeded(wc_search(cube)),
        res matches Ok(moves) ==> apply_moves(white_cross(cube), moves@).is_solved_spec()
            && moves.len() <= MAX_MOVES,
{
    let mask = to_white_cross(cube);
    let free: [Dir; 6] = ALL_DIRS;
    let half: [Dir; 0] = [];
    assert(half@ =~= Seq::<Dir>::empty());
    let moves = successor_moves(free.as_slice(), half.as_slice());
    let ghost succ = successors(ALL_DIRS@, Seq::<Dir>::empty());
    proof {
        lemma_wc_deepening_sound(succ, mask, 0, MAX_MOVES as nat);
    }
    let mut max_depth: usize = 0;
    loop
        invariant
            max_depth <= MAX_MOVES,
            moves@ == succ,
            succ == successors(ALL_DIRS@, Seq::<Dir>::empty()),
            mask == white_cross(cube),
            wc_deepening(succ, mask, max_depth as nat, MAX_MOVES as nat) == wc_search(cube),
            wc_search(cube) matches Some(path) ==> apply_moves(mask, path).is_solved_spec()
                && path.len() <= MAX_MOVES,
        decreases MAX_MOVES - max_depth,
    {
        let mut attempt: Vec<FullMove> = Vec::with_capacity(max_depth);
        let found = ida(&moves, &mask, &mut attempt, max_depth);
        if found {
            proof {
                let path = wc_first_hit(succ, mask, None, 0, max_depth as nat).unwrap();
                assert(Seq::<FullMove>::empty() + path =~= path);
            }
            return Ok(attempt);
        }
        if max_depth == MAX_MOVES {
            assert(wc_deepening(succ, mask, (max_depth + 1) as nat, MAX_MOVES as nat) is None);
            return Err(SolveError::SearchBudgetExceeded);
        }
        max_depth += 1;
    }
}

} // verus!
