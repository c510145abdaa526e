use cube_solver::corner_orientation_state::CornerOrientationState;
use cube_solver::cube::{Cube, Facelet};
use cube_solver::edge_orientation_state::EdgeOrientationState;
use cube_solver::edge_slice_state::EdgeMidSliceState;
use cube_solver::heuristic_caches::HeuristicCache;
use cube_solver::moves::{parse_many, Amt, ApplyMove, Dir, FullMove, ALL_DIRS};
use cube_solver::thistlethwaite::g0g1::{solve_to_g1, G0toG1Cache};
use cube_solver::thistlethwaite::g1g2::solve_to_g2;
use cube_solver::thistlethwaite::g2g3::{solve_to_g3, G2toG3Cache, MAX_MOVES};
use cube_solver::thistlethwaite::g3g4::solve_to_g4;
use cube_solver::thistlethwaite::{full_solve, ThistlethwaiteCaches};
use cube_solver::total_position_state::CubePositions;

const SUPERFLIP: &str = "U R2 F B R B2 R U2 L B2 R U' D' R2 F R' L B2 U2 F2";

const LONG_SCRAMBLE: &str =
    "B' L U2 R2 L' D L U F2 D' L2 D' L' R' B D' F2 B' U B' U L' U2 L F";

fn scrambled(input: &str) -> Cube {
    let moves = parse_many(input).unwrap();
    Cube::make_solved(Facelet::Green, Facelet::Yellow).apply_many(&moves)
}

fn solve_with_all_stages(input: &str) -> Vec<FullMove> {
    let caches = ThistlethwaiteCaches::initialize().unwrap();
    let cube = scrambled(input);
    let solution = full_solve(&cube, &caches).unwrap();
    assert!(cube.clone().apply_many(&solution).is_solved());
    solution
}

#[test]
fn thistlethwaite_solves_three_moves_in_at_most_five() {
    assert!(solve_with_all_stages("R U F").len() <= 5);
}

#[test]
fn thistlethwaite_solves_six_moves_in_at_most_thirty_two() {
    assert!(solve_with_all_stages("R U F R U F").len() <= 32);
}

#[test]
fn thistlethwaite_solves_nine_moves() {
    solve_with_all_stages("R U F R U F R U F");
}

#[test]
fn superflip_is_seven_moves_from_good_edges() {
    let cube = scrambled(SUPERFLIP);
    let table = HeuristicCache::from_goal(EdgeOrientationState::make_solved(), &ALL_DIRS, &[]);
    assert_eq!(table.lookup(&EdgeOrientationState::from_cube(&cube)), Some(7));
    assert_eq!(table.len(), 2048);

    let cache = G0toG1Cache::initialize();
    let solution = solve_to_g1(&cube, &cache).unwrap();
    assert_eq!(solution.len(), 7);
    let after = cube.clone().apply_many(&solution);
    assert!(EdgeOrientationState::from_cube(&after).is_solved());
}

#[test]
fn thistlethwaite_reaches_each_stage_goal() {
    let caches = ThistlethwaiteCaches::initialize().unwrap();
    let cube = scrambled(LONG_SCRAMBLE);

    let g1 = solve_to_g1(&cube, &caches.g0g1cache).unwrap();
    let g1_cube = cube.clone().apply_many(&g1);
    assert!(EdgeOrientationState::from_cube(&g1_cube).is_solved());

    let g2 = solve_to_g2(&g1_cube, &caches.g1g2cache).unwrap();
    let g2_cube = g1_cube.clone().apply_many(&g2);
    assert!(EdgeOrientationState::from_cube(&g2_cube).is_solved());
    assert!(CornerOrientationState::from_cube(&g2_cube).is_solved());
    assert!(EdgeMidSliceState::from_cube(&g2_cube).is_solved());

    let g3 = solve_to_g3(&g2_cube, &caches.g2g3cache).unwrap();
    let g3_cube = g2_cube.clone().apply_many(&g3);

    let g4 = solve_to_g4(&g3_cube, &caches.g3g4cache).unwrap();
    let g4_cube = g3_cube.clone().apply_many(&g4);
    assert!(CubePositions::from_cube(&g4_cube).is_solved());
    assert!(g4_cube.is_solved());

    let all = full_solve(&cube, &caches).unwrap();
    assert_eq!(all.len(), g1.len() + g2.len() + g3.len() + g4.len());
}

/// The moves of the third stage, chosen one after another by a fixed rule.
fn third_stage_moves(seed: u64, count: usize) -> Vec<FullMove> {
    let choices = [
        FullMove { dir: Dir::L, amt: Amt::One },
        FullMove { dir: Dir::L, amt: Amt::Two },
        FullMove { dir: Dir::L, amt: Amt::Rev },
        FullMove { dir: Dir::R, amt: Amt::One },
        FullMove { dir: Dir::R, amt: Amt::Two },
        FullMove { dir: Dir::R, amt: Amt::Rev },
        FullMove { dir: Dir::U, amt: Amt::Two },
        FullMove { dir: Dir::D, amt: Amt::Two },
        FullMove { dir: Dir::F, amt: Amt::Two },
        FullMove { dir: Dir::B, amt: Amt::Two },
    ];
    let mut state = seed;
    let mut moves = Vec::new();
    for _ in 0..count {
        state = state.wrapping_mul(6364136223846793005).wrapping_add(1442695040888963407);
        moves.push(choices[((state >> 33) % 10) as usize]);
    }
    moves
}

#[test]
fn the_third_stage_needs_no_more_than_thirteen_moves() {
    assert_eq!(MAX_MOVES, 13);
    let cache = G2toG3Cache::initialize().unwrap();
    let none: [Dir; 0] = [];
    let half_turned =
        HeuristicCache::from_goal(CubePositions::make_solved(), &none, &ALL_DIRS);
    assert_eq!(half_turned.len(), 663552);
    for seed in 0..8 {
        let scramble = third_stage_moves(seed, 40);
        let cube = Cube::make_solved(Facelet::Green, Facelet::Yellow).apply_many(&scramble);
        let found = solve_to_g3(&cube, &cache).unwrap();
        assert!(found.len() <= 13);
        assert!(found
            .iter()
            .all(|m| m.dir == Dir::L || m.dir == Dir::R || m.amt == Amt::Two));
        let after = CubePositions::from_cube(&cube.clone().apply_many(&found));
        assert_eq!(half_turned.lookup(&after).is_some(), true);
    }
}
