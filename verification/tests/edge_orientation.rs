use cube_solver::edge_orientation_state::EdgeOrientationState;

#[test]
fn edge_orientation_state_solved_test() {
    let input = EdgeOrientationState::make_solved();

    assert!(input.is_solvable());
}

#[test]
fn one_flip_test() {
    let mut input = EdgeOrientationState::make_solved();

    input.uf = false;

    assert!(!input.is_solvable());
}

#[test]
fn two_flip_test() {
    let mut input = EdgeOrientationState::make_solved();

    input.uf = false;
    input.db = false;

    assert!(input.is_solvable());
}

#[test]
fn three_flip_test() {
    let mut input = EdgeOrientationState::make_solved();

    input.uf = false;
    input.ul = false;
    input.fl = false;

    assert!(!input.is_solvable());
}
