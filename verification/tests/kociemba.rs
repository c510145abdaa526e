use cube_solver::corner_orientation_state::CornerOrientationState;
use cube_solver::cube::{Cube, Facelet};
use cube_solver::edge_orientation_state::EdgeOrientationState;
use cube_solver::edge_slice_state::EdgeMidSliceState;
use cube_solver::kociemba::h0h1::solve_to_h1;
use cube_solver::kociemba::h1h2::solve_to_h2;
use cube_solver::kociemba::{full_solve, KociembaCaches};
use cube_solver::moves::{parse_many, ApplyMove, FullMove};

const LONG_SCRAMBLE: &str =
    "B' L U2 R2 L' D L U F2 D' L2 D' L' R' B D' F2 B' U B' U L' U2 L F";

fn scrambled(input: &str) -> Cube {
    let moves = parse_many(input).unwrap();
    Cube::make_solved(Facelet::Green, Facelet::Yellow).apply_many(&moves)
}

fn solve_in_two_phases(input: &str) -> Vec<FullMove> {
    let caches = KociembaCaches::initialize();
    let cube = scrambled(input);
    let solution = full_solve(&cube, &caches).unwrap();
    assert!(cube.clone().apply_many(&solution).is_solved());
    solution
}

#[test]
fn kociemba_solves_three_moves_in_at_most_five() {
    assert!(solve_in_two_phases("R U F").len() <= 5);
}

#[test]
fn kociemba_solves_six_moves_in_at_most_thirty_two() {
    assert!(solve_in_two_phases("R U F R U F").len() <= 32);
}

#[test]
fn kociemba_solves_nine_moves() {
    solve_in_two_phases("R U F R U F R U F");
}

#[test]
fn kociemba_reaches_each_phase_goal() {
    let caches = KociembaCaches::initialize();
    let cube = scrambled(LONG_SCRAMBLE);

    let h1 = solve_to_h1(&cube, &caches.h0h1cache).unwrap();
    let h1_cube = cube.clone().apply_many(&h1);
    assert!(EdgeOrientationState::from_cube(&h1_cube).is_solved());
    assert!(CornerOrientationState::from_cube(&h1_cube).is_solved());
    assert!(EdgeMidSliceState::from_cube(&h1_cube).is_solved());

    let h2 = solve_to_h2(&h1_cube, &caches.h1h2cache).unwrap();
    let h2_cube = h1_cube.clone().apply_many(&h2);
    assert!(h2_cube.is_solved());
}
