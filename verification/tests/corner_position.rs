use cube_solver::corner_position_state::{CornerCubelet, CubeCornerPositions};

#[test]
fn corner_position_state_solved_test() {
    let input = CubeCornerPositions::make_solved();

    assert!(input.directly_solvable());
}

#[test]
fn corner_position_state_one_swap_test() {
    let mut input = CubeCornerPositions::make_solved();
    input.fdr = CornerCubelet::BDL;
    input.bdl = CornerCubelet::FDR;

    assert!(!input.directly_solvable());
}

#[test]
fn corner_position_state_one_triple_test() {
    let mut input = CubeCornerPositions::make_solved();
    input.fdr = CornerCubelet::BDR;
    input.bdr = CornerCubelet::BDL;
    input.bdl = CornerCubelet::FDR;

    assert!(input.directly_solvable());
}

#[test]
fn corner_position_state_two_swap_test() {
    let mut input = CubeCornerPositions::make_solved();

    input.fdr = CornerCubelet::BDR;
    input.bdr = CornerCubelet::FDR;

    input.bdl = CornerCubelet::BUR;
    input.bur = CornerCubelet::BDL;

    assert!(input.directly_solvable());
}

#[test]
fn corner_position_state_four_cycle_test() {
    let mut input = CubeCornerPositions::make_solved();
    input.fdr = CornerCubelet::BDR;
    input.bdr = CornerCubelet::BDL;
    input.bdl = CornerCubelet::BUR;
    input.bur = CornerCubelet::FDR;

    assert!(!input.directly_solvable());
}
