use cube_solver::corner_orientation_state::{CornerOrientation, CornerOrientationState};

#[test]
fn corner_orientation_state_solved_test() {
    let input = CornerOrientationState::solved();

    assert!(input.is_solvable());
}

#[test]
fn one_rot_test() {
    let mut input = CornerOrientationState::solved();

    input.fdr = CornerOrientation::CCW;

    assert!(!input.is_solvable());

    input.fdr = CornerOrientation::CW;

    assert!(!input.is_solvable());

    input.fdr = CornerOrientation::Good;

    assert!(input.is_solvable());
}

#[test]
fn two_rot_test() {
    let mut input = CornerOrientationState::solved();

    input.fdr = CornerOrientation::CCW;
    input.bdl = CornerOrientation::CCW;

    // CCW + CCW = CW, not solvable
    assert!(!input.is_solvable());

    input.fdr = CornerOrientation::CW;
    input.bdl = CornerOrientation::CCW;

    // CCW + CW = Good, solvable
    assert!(input.is_solvable());

    input.fdr = CornerOrientation::CW;
    input.bdl = CornerOrientation::CW;

    // CW + CW = CCW, not solvable
    assert!(!input.is_solvable());
}

#[test]
fn three_rot_test() {
    let mut input = CornerOrientationState::solved();

    input.fdr = CornerOrientation::CCW;
    input.bdl = CornerOrientation::CCW;
    input.bdr = CornerOrientation::CCW;

    // CCW + CCW + CCW = Good, solvable
    assert!(input.is_solvable());

    input.fdr = CornerOrientation::CW;
    input.bdl = CornerOrientation::CCW;
    input.bdr = CornerOrientation::CCW;

    // CCW + CCW + CW = CCW, not solvable
    assert!(!input.is_solvable());

    input.fdr = CornerOrientation::CW;
    input.bdl = CornerOrientation::CW;
    input.bdr = CornerOrientation::CW;

    // CW + CW + CW = Good, solvable
    assert!(input.is_solvable());
}

#[test]
fn twists_are_counted_in_threes() {
    assert_eq!(CornerOrientation::with_twists(0), CornerOrientation::Good);
    assert_eq!(CornerOrientation::with_twists(1), CornerOrientation::CW);
    assert_eq!(CornerOrientation::with_twists(2), CornerOrientation::CCW);
    assert_eq!(CornerOrientation::with_twists(3), CornerOrientation::Good);
    assert_eq!(CornerOrientation::with_twists(4), CornerOrientation::CW);
    assert_eq!(CornerOrientation::with_twists(255), CornerOrientation::Good);
}
