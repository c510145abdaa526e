use cube_solver::corner_orientation_state::{CornerOrientation, CornerOrientationState};
use cube_solver::corner_position_state::{CornerCubelet, CubeCornerPositions};
use cube_solver::cube::{Cube, Facelet};
use cube_solver::edge_orientation_state::EdgeOrientationState;
use cube_solver::edge_position_state::{CubeEdgePositions, SideCubelet};
use cube_solver::scramble::{make_cube, scramble_any, scramble_from};
use cube_solver::thistlethwaite::{full_solve, ThistlethwaiteCaches};
use cube_solver::total_position_state::CubePositions;
use cube_solver::moves::ApplyMove;

/// strictly speaking this is a nondeterministic test but like ... whatever
#[test]
fn scramble_health_check() {
    const MAX_ATTEMPTS: usize = 100;

    for i in 0..MAX_ATTEMPTS {
        println!("Attempt {} of {}", i, MAX_ATTEMPTS);

        let cube = scramble_any();

        let pos = CubePositions::from_cube(&cube);
        assert!(pos.directly_solvable());

        let edge_or = EdgeOrientationState::from_cube(&cube);
        assert!(edge_or.is_solvable());

        let corner_or = CornerOrientationState::from_cube(&cube);
        assert!(corner_or.is_solvable());
    }
}

#[test]
fn random_scrambles_are_solved_by_four_stages() {
    let caches = ThistlethwaiteCaches::initialize().unwrap();
    for _ in 0..5 {
        let cube = scramble_any();
        let solution = full_solve(&cube, &caches).unwrap();
        assert!(cube.clone().apply_many(&solution).is_solved());
    }
}

#[test]
fn solved_states_make_the_solved_cube() {
    let cube = make_cube(
        CubeEdgePositions::make_solved(),
        CubeCornerPositions::make_solved(),
        EdgeOrientationState::make_solved(),
        CornerOrientationState::solved(),
    );
    assert_eq!(cube, Cube::make_solved(Facelet::Green, Facelet::Yellow));
}

#[test]
fn the_states_of_a_made_cube_are_those_it_was_made_from() {
    // not a cube that moves could make: a cubelet in two places, and one twisted corner
    let mut edges = CubeEdgePositions::make_solved();
    edges.uf = SideCubelet::UR;
    let mut corners = CubeCornerPositions::make_solved();
    corners.bdl = CornerCubelet::FUR;
    let mut edge_or = EdgeOrientationState::make_solved();
    edge_or.dr = false;
    edge_or.ub = false;
    edge_or.fl = false;
    let mut corner_or = CornerOrientationState::solved();
    corner_or.bul = CornerOrientation::CCW;
    let cube = make_cube(edges, corners, edge_or, corner_or);
    assert_eq!(CubeEdgePositions::from_cube(&cube), edges);
    assert_eq!(CubeCornerPositions::from_cube(&cube), corners);
    assert_eq!(EdgeOrientationState::from_cube(&cube), edge_or);
    assert_eq!(CornerOrientationState::from_cube(&cube), corner_or);
    // the flipped edge in the upper back shows the color of the back center on top
    assert_eq!(cube.u.bc, Facelet::Blue);
    assert_eq!(cube.b.uc, Facelet::Yellow);
    // the good edge from the upper right in the upper front shows its side color on top
    assert_eq!(cube.u.fc, Facelet::Orange);
    assert_eq!(cube.f.uc, Facelet::Yellow);
}

#[test]
fn what_chance_gave_is_put_right() {
    // an odd permutation of the edges, one bad edge, one twisted corner
    let edge_order: Vec<u8> = vec![1, 0, 2, 3, 4, 5, 6, 7, 8, 9, 10, 11];
    let corner_order: Vec<u8> = vec![0, 1, 2, 3, 4, 5, 6, 7];
    let mut edge_or = EdgeOrientationState::make_solved();
    edge_or.db = false;
    let mut corner_or = CornerOrientationState::solved();
    corner_or.bdr = CornerOrientation::CW;

    let cube = scramble_from(&edge_order, &corner_order, edge_or, corner_or);

    assert!(CubePositions::from_cube(&cube).directly_solvable());
    let edges = EdgeOrientationState::from_cube(&cube);
    assert!(edges.is_solvable());
    assert!(!edges.db && !edges.uf);
    let corners = CornerOrientationState::from_cube(&cube);
    assert!(corners.is_solvable());
    assert_eq!(corners.bdr, CornerOrientation::CW);
    assert_eq!(corners.ful, CornerOrientation::CCW);
}

#[test]
fn scrambles_differ_from_one_another() {
    let cubes: Vec<Cube> = (0..20).map(|_| scramble_any()).collect();
    let first = &cubes[0];
    assert!(cubes.iter().any(|c| CubePositions::from_cube(c) != CubePositions::from_cube(first)));
    assert!(cubes
        .iter()
        .any(|c| EdgeOrientationState::from_cube(c) != EdgeOrientationState::from_cube(first)));
    assert!(cubes
        .iter()
        .any(|c| CornerOrientationState::from_cube(c) != CornerOrientationState::from_cube(first)));
    assert!(cubes.iter().any(|c| !c.is_solved()));
}

#[test]
fn an_even_order_of_the_edges_is_left_as_chance_gave_it() {
    let edge_order: Vec<u8> = vec![1, 2, 0, 3, 4, 5, 6, 7, 8, 9, 10, 11];
    let corner_order: Vec<u8> = vec![0, 1, 2, 3, 4, 5, 6, 7];
    let cube = scramble_from(
        &edge_order,
        &corner_order,
        EdgeOrientationState::make_solved(),
        CornerOrientationState::solved(),
    );
    let edges = CubeEdgePositions::from_cube(&cube);
    // the place with index 0 is the upper left, that with index 1 the front left
    assert_eq!(edges.ul, SideCubelet::FL);
    assert_eq!(edges.fl, SideCubelet::DL);
    assert_eq!(edges.dl, SideCubelet::UL);
    assert_eq!(edges.uf, SideCubelet::UF);
    assert_eq!(edges.ur, SideCubelet::UR);
    assert!(CubeCornerPositions::from_cube(&cube) == CubeCornerPositions::make_solved());
}
