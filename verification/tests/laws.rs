use cube_solver::corner_orientation_state::{CornerOrientation, CornerOrientationState};
use cube_solver::corner_position_state::{CornerCubelet, CubeCornerPositions};
use cube_solver::cube::{get_third_corner, Cube, Facelet};
use cube_solver::dfs_util::{can_follow, solve, successor_moves, SolveError};
use cube_solver::edge_orientation_state::EdgeOrientationState;
use cube_solver::edge_position_state::{CubeEdgePositions, SideCubelet};
use cube_solver::edge_slice_state::EdgeMidSliceState;
use cube_solver::heuristic_caches::{CappedHeuristicCache, Heuristic, HeuristicCache};
use cube_solver::moves::{
    invert, parse_many, to_nice_str, Amt, ApplyMove, CanMove, Dir, FullMove, ALL_AMTS, ALL_DIRS,
};
use cube_solver::permutation::is_even_permutation;
use cube_solver::state_key::StateKey;
use cube_solver::thistlethwaite::g0g1::{solve_to_g1, EdgesOriented, G0toG1Cache};
use cube_solver::total_position_state::CubePositions;

const SCRAMBLE: &str = "B U F' L U R' L' F2 D' F2 L F' R' D L' D U2 R' U2 F' D' R2 F2 B' U2";

fn scrambled(input: &str) -> Cube {
    let moves = parse_many(input).unwrap();
    Cube::make_solved(Facelet::Green, Facelet::Yellow).apply_many(&moves)
}

fn all_moves() -> Vec<FullMove> {
    let mut out = Vec::new();
    for dir in ALL_DIRS {
        for amt in ALL_AMTS {
            out.push(FullMove { dir, amt });
        }
    }
    out
}

#[test]
fn every_move_is_undone_by_its_inverse() {
    let cube = scrambled(SCRAMBLE);
    let positions = CubePositions::from_cube(&cube);
    let edges = EdgeOrientationState::from_cube(&cube);
    let corners = CornerOrientationState::from_cube(&cube);
    let slice = EdgeMidSliceState::from_cube(&cube);
    for m in all_moves() {
        let back = invert(&[m])[0];
        assert_eq!(back.dir, m.dir);
        assert_eq!(cube.clone().apply(m).apply(back), cube);
        assert_eq!(positions.clone().apply(m).apply(back), positions);
        assert_eq!(edges.clone().apply(m).apply(back), edges);
        assert_eq!(corners.clone().apply(m).apply(back), corners);
        assert_eq!(slice.clone().apply(m).apply(back), slice);
    }
}

#[test]
fn four_quarter_turns_and_two_half_turns_change_nothing() {
    let cube = scrambled(SCRAMBLE);
    let corners = CornerOrientationState::from_cube(&cube);
    let edges = EdgeOrientationState::from_cube(&cube);
    for dir in ALL_DIRS {
        let quarter = FullMove { dir, amt: Amt::One };
        let half = FullMove { dir, amt: Amt::Two };
        let back = FullMove { dir, amt: Amt::Rev };
        assert_eq!(cube.clone().apply_many(&[quarter, quarter, quarter, quarter]), cube);
        assert_eq!(cube.clone().apply_many(&[half, half]), cube);
        assert_eq!(cube.clone().apply_many(&[back, back, back, back]), cube);
        assert_eq!(corners.clone().apply_many(&[quarter, quarter, quarter, quarter]), corners);
        assert_eq!(corners.clone().apply_many(&[half, half]), corners);
        assert_eq!(edges.clone().apply_many(&[quarter, quarter, quarter, quarter]), edges);
        assert_eq!(cube.clone().apply(half), cube.clone().apply(quarter).apply(quarter));
        assert_eq!(cube.clone().apply(back), cube.clone().apply(half).apply(quarter));
    }
    assert_eq!(corners.clone().u_two(), corners.clone().u().u());
    assert_eq!(corners.clone().d_two(), corners.clone().d().d());
}

#[test]
fn every_legal_token_is_read_back() {
    let tokens = [
        "R", "R2", "R'", "L", "L2", "L'", "U", "U2", "U'", "D", "D2", "D'", "F", "F2", "F'", "B",
        "B2", "B'",
    ];
    let mut seen = Vec::new();
    for token in tokens {
        let m = FullMove::try_from(token).unwrap();
        assert_eq!(m.to_string(), token);
        assert!(!seen.contains(&m));
        seen.push(m);
    }
    assert_eq!(seen.len(), 18);
    assert_eq!(FullMove::try_from("R'").unwrap(), FullMove { dir: Dir::R, amt: Amt::Rev });
    assert_eq!(FullMove::try_from("D2").unwrap(), FullMove { dir: Dir::D, amt: Amt::Two });

    let moves = all_moves();
    assert_eq!(parse_many(&to_nice_str(&moves)).unwrap(), moves);
    assert_eq!(to_nice_str(&parse_many("  R\tU2\n F'  ").unwrap()), "R U2 F'");
    assert_eq!(to_nice_str(&[]), "");
    assert_eq!(parse_many("").unwrap(), vec![]);
    assert_eq!(parse_many(" \t\r\n\x0C").unwrap(), vec![]);
}

#[test]
fn anything_else_is_a_parse_error() {
    for token in ["X", "R3", "", "R2'", "RR", "r", "2", "'", "R ", "R'2", "Ü"] {
        assert_eq!(FullMove::try_from(token).unwrap_err().token, token);
    }
    assert_eq!(parse_many("R U2 Q F x").unwrap_err().token, "Q");
    assert_eq!(parse_many("R2U").unwrap_err().token, "R2U");
    assert_eq!(parse_many("R U'' F").unwrap_err().token, "U''");
    // only the five separators of ASCII part tokens
    assert_eq!(parse_many("R\u{a0}U").unwrap_err().token, "R\u{a0}U");
    assert_eq!(parse_many("R\x0BU").unwrap_err().token, "R\x0BU");
}

#[test]
fn the_inverse_of_moves_is_each_move_turned_back_last_first() {
    let moves = parse_many("R U2 F' D").unwrap();
    assert_eq!(to_nice_str(&invert(&moves)), "D' F U2 R'");
    assert_eq!(invert(&[]), vec![]);
    assert_eq!(invert(&invert(&moves)), moves);
}

#[test]
fn a_solution_and_then_its_inverse_lead_back() {
    let cube = scrambled(SCRAMBLE);
    let cache = G0toG1Cache::initialize();
    let solution = solve_to_g1(&cube, &cache).unwrap();
    let solved = cube.clone().apply_many(&solution);
    assert_ne!(solved, cube);
    assert_eq!(solved.apply_many(&invert(&solution)), cube);
    let scramble = parse_many(SCRAMBLE).unwrap();
    assert!(cube.clone().apply_many(&invert(&scramble)).is_solved());
}

#[test]
fn projecting_and_then_moving_is_moving_and_then_projecting() {
    let mut cube = scrambled(SCRAMBLE);
    for m in all_moves() {
        let after = cube.clone().apply(m);
        assert_eq!(EdgeOrientationState::from_cube(&after), EdgeOrientationState::from_cube(&cube).apply(m));
        assert_eq!(CornerOrientationState::from_cube(&after), CornerOrientationState::from_cube(&cube).apply(m));
        assert_eq!(EdgeMidSliceState::from_cube(&after), EdgeMidSliceState::from_cube(&cube).apply(m));
        assert_eq!(CubeEdgePositions::from_cube(&after), CubeEdgePositions::from_cube(&cube).apply(m));
        assert_eq!(CubeCornerPositions::from_cube(&after), CubeCornerPositions::from_cube(&cube).apply(m));
        assert_eq!(CubePositions::from_cube(&after), CubePositions::from_cube(&cube).apply(m));
        cube = after;
    }
}

#[test]
fn a_quarter_turn_of_the_right_face_moves_four_edges_and_four_corners() {
    let cube = scrambled("R");
    let edges = CubeEdgePositions::from_cube(&cube);
    let mut expected_edges = CubeEdgePositions::make_solved();
    expected_edges.ur = SideCubelet::FR;
    expected_edges.fr = SideCubelet::DR;
    expected_edges.dr = SideCubelet::BR;
    expected_edges.br = SideCubelet::UR;
    assert_eq!(edges, expected_edges);
    let corners = CubeCornerPositions::from_cube(&cube);
    let mut expected_corners = CubeCornerPositions::make_solved();
    expected_corners.fur = CornerCubelet::FDR;
    expected_corners.fdr = CornerCubelet::BDR;
    expected_corners.bdr = CornerCubelet::BUR;
    expected_corners.bur = CornerCubelet::FUR;
    assert_eq!(corners, expected_corners);
    assert!(CornerOrientationState::from_cube(&cube).is_solved());
    assert!(EdgeOrientationState::from_cube(&cube).is_solved());
    assert!(!edges.directly_solvable());
    assert!(!corners.directly_solvable());
}

#[test]
fn a_quarter_turn_of_the_back_face_takes_the_edges_the_way_of_the_cube() {
    let cube = scrambled("B");
    let mut expected = CubeEdgePositions::make_solved();
    expected.ub = SideCubelet::BR;
    expected.br = SideCubelet::DB;
    expected.db = SideCubelet::BL;
    expected.bl = SideCubelet::UB;
    assert_eq!(CubeEdgePositions::from_cube(&cube), expected);
    assert_eq!(CubeEdgePositions::make_solved().b(), expected);
}

#[test]
fn quarter_turns_of_the_upper_face_flip_edges_and_twist_corners() {
    let cube = scrambled("U");
    let edges = EdgeOrientationState::from_cube(&cube);
    assert!(!edges.uf && !edges.ub && !edges.ul && !edges.ur);
    assert!(edges.fl && edges.fr && edges.bl && edges.br);
    assert!(edges.df && edges.db && edges.dl && edges.dr);
    assert!(edges.is_solvable());
    let corners = CornerOrientationState::from_cube(&cube);
    assert_eq!(corners.ful, CornerOrientation::CCW);
    assert_eq!(corners.fur, CornerOrientation::CW);
    assert_eq!(corners.bur, CornerOrientation::CCW);
    assert_eq!(corners.bul, CornerOrientation::CW);
    assert_eq!(corners.fdl, CornerOrientation::Good);
    assert!(corners.is_solvable());
    assert!(EdgeOrientationState::from_cube(&scrambled("U2")).is_solved());
    assert!(CornerOrientationState::from_cube(&scrambled("U2")).is_solved());
    assert!(EdgeMidSliceState::from_cube(&scrambled("U2 R L'")).is_solved());
    assert!(!EdgeMidSliceState::from_cube(&scrambled("U")).is_solved());
}

#[test]
fn edge_orientation_is_solvable_exactly_if_the_bits_xor_to_false() {
    for bits in 0u32..4096 {
        let bit = |i: u32| bits & (1 << i) != 0;
        let state = EdgeOrientationState {
            uf: bit(0),
            ub: bit(1),
            ul: bit(2),
            ur: bit(3),
            fl: bit(4),
            fr: bit(5),
            bl: bit(6),
            br: bit(7),
            df: bit(8),
            db: bit(9),
            dl: bit(10),
            dr: bit(11),
        };
        assert_eq!(state.is_solvable(), bits.count_ones() % 2 == 0);
    }
}

fn orientation(n: u32) -> CornerOrientation {
    match n % 3 {
        0 => CornerOrientation::Good,
        1 => CornerOrientation::CW,
        _ => CornerOrientation::CCW,
    }
}

#[test]
fn corner_orientation_is_solvable_exactly_if_the_twists_sum_to_a_multiple_of_three() {
    for n in 0u32..6561 {
        let digit = |i: u32| (n / 3u32.pow(i)) % 3;
        let state = CornerOrientationState {
            ful: orientation(digit(0)),
            fur: orientation(digit(1)),
            fdl: orientation(digit(2)),
            fdr: orientation(digit(3)),
            bul: orientation(digit(4)),
            bur: orientation(digit(5)),
            bdl: orientation(digit(6)),
            bdr: orientation(digit(7)),
        };
        let sum: u32 = (0..8).map(digit).sum();
        assert_eq!(state.is_solvable(), sum % 3 == 0);
        assert_eq!(state.total_orientation(), orientation(sum));
    }
}

#[test]
fn adding_orientations_is_associative_and_commutative() {
    for a in 0..3 {
        for b in 0..3 {
            assert_eq!(orientation(a).add(orientation(b)), orientation(a + b));
            assert_eq!(orientation(a).add(orientation(b)), orientation(b).add(orientation(a)));
            for c in 0..3 {
                assert_eq!(
                    orientation(a).add(orientation(b)).add(orientation(c)),
                    orientation(a).add(orientation(b).add(orientation(c)))
                );
            }
        }
        assert_eq!(orientation(a).cw(), orientation(a + 1));
        assert_eq!(orientation(a).ccw(), orientation(a + 2));
    }
}

#[test]
fn edges_and_corners_have_one_parity_on_every_cube_that_moves_make() {
    let mut cube = Cube::make_solved(Facelet::Green, Facelet::Yellow);
    for m in parse_many(SCRAMBLE).unwrap() {
        cube = cube.apply(m);
        let positions = CubePositions::from_cube(&cube);
        assert!(positions.directly_solvable());
        assert_eq!(positions.edges.directly_solvable(), positions.corners.directly_solvable());
        assert!(EdgeOrientationState::from_cube(&cube).is_solvable());
        assert!(CornerOrientationState::from_cube(&cube).is_solvable());
    }
}

#[test]
fn the_parity_of_a_permutation_is_that_of_its_inversions() {
    assert!(is_even_permutation(&vec![]));
    assert!(is_even_permutation(&vec![0]));
    assert!(is_even_permutation(&vec![0, 1, 2]));
    assert!(!is_even_permutation(&vec![1, 0, 2]));
    assert!(is_even_permutation(&vec![1, 2, 0]));
    assert!(!is_even_permutation(&vec![1, 2, 3, 0]));
    assert!(is_even_permutation(&vec![1, 0, 3, 2]));
    assert!(!is_even_permutation(&vec![4, 8, 7, 0, 1, 11, 3, 9, 5, 10, 6, 2]));
}

#[test]
fn a_table_never_overestimates() {
    let table = HeuristicCache::from_goal(EdgeOrientationState::make_solved(), &ALL_DIRS, &[]);
    let mut state = EdgeOrientationState::make_solved();
    assert_eq!(table.lookup(&state), Some(0));
    let path = parse_many(SCRAMBLE).unwrap();
    for (done, m) in invert(&path).into_iter().enumerate() {
        state = state.apply(m);
        let cost = table.lookup(&state).unwrap();
        assert!(cost <= done + 1);
        assert_eq!(table.evaluate(&state), cost);
    }
    assert_eq!(table.lookup(&EdgeOrientationState::make_solved().u()), Some(1));
    // a move flips four edges at most, and here eight are bad
    assert_eq!(table.lookup(&EdgeOrientationState::make_solved().u().d()), Some(2));
    let mut odd = EdgeOrientationState::make_solved();
    odd.uf = false;
    assert_eq!(table.lookup(&odd), None);
}

#[test]
fn tables_hold_the_states_that_the_moves_reach() {
    let none: [Dir; 0] = [];
    assert_eq!(HeuristicCache::from_goal(EdgeOrientationState::make_solved(), &ALL_DIRS, &none).len(), 2048);
    assert_eq!(HeuristicCache::from_goal(CornerOrientationState::solved(), &ALL_DIRS, &none).len(), 2187);
    assert_eq!(HeuristicCache::from_goal(EdgeMidSliceState::solved(), &ALL_DIRS, &none).len(), 495);
    assert_eq!(HeuristicCache::from_goal(CubeCornerPositions::make_solved(), &ALL_DIRS, &none).len(), 40320);
    // half turns alone
    assert_eq!(HeuristicCache::from_goal(CubeCornerPositions::make_solved(), &none, &ALL_DIRS).len(), 96);
    assert_eq!(HeuristicCache::from_goal(CubeEdgePositions::make_solved(), &none, &ALL_DIRS).len(), 6912);
    let (table, states) =
        HeuristicCache::from_list_with_states(&vec![CubeCornerPositions::make_solved()], &none, &ALL_DIRS);
    assert_eq!(states.len(), table.len());
    assert_eq!(states[0], CubeCornerPositions::make_solved());
    assert!(states.iter().all(|s| table.lookup(s).is_some()));
    // no moves at all
    assert_eq!(HeuristicCache::from_goal(EdgeMidSliceState::solved(), &none, &none).len(), 1);
    // no goals at all
    assert_eq!(HeuristicCache::<EdgeMidSliceState>::from_list(&vec![], &ALL_DIRS, &none).len(), 0);
    let nothing: ahash::HashSet<EdgeMidSliceState> = ahash::HashSet::default();
    assert_eq!(HeuristicCache::from_set(&nothing, &ALL_DIRS, &none).len(), 0);
}

#[test]
fn a_table_from_a_set_of_goals_measures_to_the_nearest_goal() {
    let none: [Dir; 0] = [];
    let solved = EdgeOrientationState::make_solved();
    let mut goals: ahash::HashSet<EdgeOrientationState> = ahash::HashSet::default();
    goals.insert(solved);
    goals.insert(solved.u());
    let table = HeuristicCache::from_set(&goals, &ALL_DIRS, &none);
    assert_eq!(table.len(), 2048);
    assert_eq!(table.lookup(&solved), Some(0));
    assert_eq!(table.lookup(&solved.u()), Some(0));
    assert_eq!(table.lookup(&solved.d()), Some(1));
    assert_eq!(table.lookup(&solved.u().r()), Some(1));
    // with the solved state as the only goal the same state is a move away
    let from_solved = HeuristicCache::from_goal(solved, &ALL_DIRS, &none);
    assert_eq!(from_solved.lookup(&solved.u()), Some(1));
    assert_eq!(from_solved.lookup(&solved.u().r()), Some(2));
    // a list may name a goal twice
    let listed = HeuristicCache::from_list(&vec![solved, solved.u(), solved], &ALL_DIRS, &none);
    assert_eq!(listed.len(), 2048);
    assert_eq!(listed.lookup(&solved.d()), Some(1));
}

#[test]
fn a_capped_table_says_one_more_than_its_cap_of_what_it_does_not_hold() {
    let none: [Dir; 0] = [];
    let capped = CappedHeuristicCache::from_goal(EdgeOrientationState::make_solved(), &ALL_DIRS, &none, 2);
    let full = HeuristicCache::from_goal(EdgeOrientationState::make_solved(), &ALL_DIRS, &none);
    let mut state = EdgeOrientationState::make_solved();
    for m in parse_many(SCRAMBLE).unwrap() {
        state = state.apply(m);
        let cost = full.lookup(&state).unwrap();
        assert_eq!(capped.evaluate(&state), cost.min(3));
    }
    let at_once = CappedHeuristicCache::from_goal(EdgeOrientationState::make_solved(), &ALL_DIRS, &none, 0);
    assert_eq!(at_once.evaluate(&EdgeOrientationState::make_solved()), 0);
    assert_eq!(at_once.evaluate(&EdgeOrientationState::make_solved().u()), 1);
}

#[test]
fn different_states_have_different_keys() {
    let mut keys = Vec::new();
    let mut cube = Cube::make_solved(Facelet::Green, Facelet::Yellow);
    for m in parse_many(SCRAMBLE).unwrap() {
        cube = cube.apply(m);
        keys.push(CubePositions::from_cube(&cube).key());
    }
    let mut distinct = keys.clone();
    distinct.sort();
    distinct.dedup();
    assert_eq!(distinct.len(), keys.len());
    assert_eq!(EdgeOrientationState::make_solved().key(), 4095);
    assert_eq!(EdgeMidSliceState::solved().key(), 0b1100_0000_1100);
    assert_eq!(CornerOrientationState::solved().key(), 0);
    assert_eq!(CornerOrientationState::solved().f().key(), 1 * 2187 + 2 * 729 + 2 * 243 + 1 * 81);
    assert_eq!(CubeCornerPositions::make_solved().key(), 0o01234567);
    assert_eq!(SideCubelet::UF.to_index(), 4);
    assert_eq!(CornerCubelet::BDR.to_index(), 7);
}

#[test]
fn the_search_tries_half_turns_first_and_then_quarter_turns_in_order() {
    let moves = successor_moves(&[Dir::L, Dir::R], &[Dir::U, Dir::D]);
    assert_eq!(to_nice_str(&moves), "U2 D2 L L2 L' R R2 R'");
    assert!(can_follow(None, Dir::F));
    assert!(!can_follow(Some(Dir::F), Dir::F));
    assert!(!can_follow(Some(Dir::F), Dir::B));
    assert!(can_follow(Some(Dir::B), Dir::F));
    assert!(!can_follow(Some(Dir::R), Dir::L));
    assert!(can_follow(Some(Dir::L), Dir::R));
    assert!(!can_follow(Some(Dir::U), Dir::D));
    assert!(can_follow(Some(Dir::D), Dir::U));
    assert!(can_follow(Some(Dir::U), Dir::F));
}

#[test]
fn the_first_find_in_the_order_of_the_search_comes_back() {
    let cache = G0toG1Cache::initialize();
    // both U and U' undo the flips of U; U is tried first
    assert_eq!(to_nice_str(&solve_to_g1(&scrambled("U"), &cache).unwrap()), "U");
    assert_eq!(to_nice_str(&solve_to_g1(&scrambled("U'"), &cache).unwrap()), "U");
    assert_eq!(to_nice_str(&solve_to_g1(&scrambled("D"), &cache).unwrap()), "D");
    assert_eq!(to_nice_str(&solve_to_g1(&scrambled("U2 R F2"), &cache).unwrap()), "");
}

#[test]
fn too_small_a_budget_is_exceeded() {
    let cube = scrambled("U R2 F B R B2 R U2 L B2 R U' D' R2 F R' L B2 U2 F2");
    let table = HeuristicCache::from_goal(EdgeOrientationState::make_solved(), &ALL_DIRS, &[]);
    let start = EdgeOrientationState::from_cube(&cube);
    let none: [Dir; 0] = [];
    // a path of seven moves is found with a budget of eight
    assert_eq!(solve(start, &ALL_DIRS, &none, &EdgesOriented, &table, 7), Err(SolveError::SearchBudgetExceeded));
    assert_eq!(solve(start, &ALL_DIRS, &none, &EdgesOriented, &table, 8).unwrap().len(), 7);
    assert_eq!(solve(start, &ALL_DIRS, &none, &EdgesOriented, &table, 0), Err(SolveError::SearchBudgetExceeded));
    assert_eq!(solve(EdgeOrientationState::make_solved(), &ALL_DIRS, &none, &EdgesOriented, &table, 0), Ok(vec![]));
    // without quarter turns of the upper and the lower face no edge is flipped
    assert_eq!(
        solve(start, &[Dir::L, Dir::R, Dir::F, Dir::B], &[Dir::U, Dir::D], &EdgesOriented, &table, 4),
        Err(SolveError::SearchBudgetExceeded)
    );
}

#[test]
fn a_flipped_edge_cannot_be_solved() {
    let mut cube = Cube::make_solved(Facelet::Green, Facelet::Yellow);
    let upper = cube.u.fc;
    cube.u.fc = cube.f.uc;
    cube.f.uc = upper;
    let cache = G0toG1Cache::initialize();
    assert_eq!(solve_to_g1(&cube, &cache), Err(SolveError::UnsolvableInput));
}

#[test]
fn the_third_color_of_a_corner_follows_from_two() {
    assert_eq!(get_third_corner(Facelet::Green, Facelet::Yellow), Facelet::Orange);
    assert_eq!(get_third_corner(Facelet::Yellow, Facelet::Green), Facelet::Red);
    assert_eq!(get_third_corner(Facelet::White, Facelet::Blue), Facelet::Red);
    let cube = Cube::make_solved(Facelet::Green, Facelet::Yellow);
    assert_eq!(cube.f.cc, Facelet::Green);
    assert_eq!(cube.b.cc, Facelet::Blue);
    assert_eq!(cube.u.cc, Facelet::Yellow);
    assert_eq!(cube.d.cc, Facelet::White);
    assert_eq!(cube.r.cc, Facelet::Orange);
    assert_eq!(cube.l.cc, Facelet::Red);
    assert!(cube.is_solved());
}

#[test]
fn the_first_stage_takes_as_many_moves_as_the_table_says() {
    let cache = G0toG1Cache::initialize();
    let table = HeuristicCache::from_goal(EdgeOrientationState::make_solved(), &ALL_DIRS, &[]);
    let mut cube = Cube::make_solved(Facelet::Green, Facelet::Yellow);
    for m in parse_many(SCRAMBLE).unwrap() {
        cube = cube.apply(m);
        let start = EdgeOrientationState::from_cube(&cube);
        let solution = solve_to_g1(&cube, &cache).unwrap();
        assert_eq!(Some(solution.len()), table.lookup(&start));
    }
}
