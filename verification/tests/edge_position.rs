use cube_solver::edge_position_state::{CubeEdgePositions, SideCubelet};
use cube_solver::total_position_state::CubePositions;

#[test]
fn edge_position_state_solved_test() {
    let input = CubeEdgePositions::make_solved();

    assert!(input.directly_solvable());
}

#[test]
fn edge_position_state_one_swap_test() {
    let mut input = CubeEdgePositions::make_solved();
    input.uf = SideCubelet::BR;
    input.br = SideCubelet::UF;

    assert!(!input.directly_solvable());
}

#[test]
fn edge_position_state_one_triple_test() {
    let mut input = CubeEdgePositions::make_solved();
    input.uf = SideCubelet::BR;
    input.br = SideCubelet::DL;
    input.dl = SideCubelet::UF;

    assert!(input.directly_solvable());
}

#[test]
fn edge_position_state_two_swap_test() {
    let mut input = CubeEdgePositions::make_solved();

    input.uf = SideCubelet::BR;
    input.br = SideCubelet::UF;

    input.ul = SideCubelet::FL;
    input.fl = SideCubelet::UL;

    assert!(input.directly_solvable());
}

#[test]
fn edge_position_state_four_cycle_test() {
    let mut input = CubeEdgePositions::make_solved();
    input.fr = SideCubelet::DR;
    input.dr = SideCubelet::DL;
    input.dl = SideCubelet::BL;
    input.bl = SideCubelet::FR;

    assert!(!input.directly_solvable());
}

#[test]
fn solved_is_solvable() {
    let input = CubePositions::make_solved();

    assert!(input.directly_solvable());
}
