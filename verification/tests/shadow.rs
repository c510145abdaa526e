use cube_solver::cube::AmbigFacelet::{Blue, Green, Orange, Red, Unknown, White, Yellow};
use cube_solver::cube::{AmbigFacelet, Cube, FBFace, Facelet, LRFace, UDFace};
use cube_solver::moves::{parse_many, ApplyMove};
use cube_solver::shadow::to_white_cross;
use cube_solver::solve::solve_wc;

// messes up top layer; leaves first two layers alone
const OLL_SCRAMBLE: &'static str = "R U2 R' U' R U' R' U'";

// messes up bottom layer, leaves white cross alone
const FL_SCRAMBLE: &'static str = "U F' U' F";

// messes up second layer, leaves bottom layer alone
const F2L_SCRAMBLE: &'static str = "U F' U' F U R U' R'";

// messes up bottom layer, leaves white cross alone (OLL move that i flipped to the bottom)
const OBL_SCRAMBLE: &'static str = "R' D2 R D R' D R D";

// messes up yellow cross, leaves F2L alone
const YELLOW_CROSS_SCRAMBLE: &'static str = "F R U R' U' F'";

// messes up white cross, leaves other two layers alone
const WHITE_CROSS_SCRAMBLE: &'static str = "F L D L' D' F'";

#[test]
fn from_start_test() {
    let start = Cube::make_solved(Facelet::Orange, Facelet::White);

    let exp: Cube<AmbigFacelet> = Cube {
        // top : white
        u: UDFace {
            cc: White,
            // edges all kept (white) and center
            bc: White,
            lc: White,
            rc: White,
            fc: White,
            // corners blanked out
            bl: Unknown,
            br: Unknown,
            fl: Unknown,
            fr: Unknown,
        },
        // down: yellow
        d: UDFace {
            // center always kept (why not); others blanked out
            cc: Yellow,
            // everything else blanked out
            bl: Unknown,
            bc: Unknown,
            br: Unknown,
            lc: Unknown,
            rc: Unknown,
            fl: Unknown,
            fc: Unknown,
            fr: Unknown,
        },
        // left: blue face
        l: LRFace {
            // center kept
            cc: Blue,
            // top edge kept (white adjacent)
            uc: Blue,
            // everything else blank
            ub: Unknown,
            uf: Unknown,
            bc: Unknown,
            fc: Unknown,
            db: Unknown,
            dc: Unknown,
            df: Unknown,
        },
        // right: green
        r: LRFace {
            // keep center
            cc: Green,
            // keep top edge (white adjacent)
            uc: Green,
            // rest blank
            ub: Unknown,
            fc: Unknown,
            db: Unknown,
            dc: Unknown,
            uf: Unknown,
            bc: Unknown,
            df: Unknown,
        },
        // front: orange
        f: FBFace {
            // keep center
            cc: Orange,
            // keep top edge (white adjacent)
            uc: Orange,
            // rest blank
            ul: Unknown,
            ur: Unknown,
            lc: Unknown,
            rc: Unknown,
            dl: Unknown,
            dc: Unknown,
            dr: Unknown,
        },
        // back: red
        b: FBFace {
            // keep center
            cc: Red,
            // keep top edge (white adjacent)
            uc: Red,
            // rest blank
            ul: Unknown,
            ur: Unknown,
            lc: Unknown,
            rc: Unknown,
            dl: Unknown,
            dc: Unknown,
            dr: Unknown,
        },
    };

    let actual = to_white_cross(start.clone());

    assert_eq!(actual, exp);

    assert!(start.is_solved());
    assert!(actual.is_solved());
}

fn test_wc_state(start_state: Cube, moves: &str, should_be_solved: bool) {
    let parsed = parse_many(moves).unwrap();
    let end_state = start_state.clone().apply_many(&parsed);
    let wc_masked = to_white_cross(end_state);

    if should_be_solved {
        assert!(wc_masked.is_solved());
    } else {
        assert!(!wc_masked.is_solved());
    }
}

#[test]
fn oll_scramble_wc_solved() {
    // note white is on the bottom
    let start = Cube::make_solved(Facelet::Red, Facelet::Yellow);

    test_wc_state(start, OLL_SCRAMBLE, true);
}

#[test]
fn f2l_scramble_wc_solved() {
    // note white is on the bottom
    let start = Cube::make_solved(Facelet::Green, Facelet::Yellow);

    test_wc_state(start, F2L_SCRAMBLE, true);
}

#[test]
fn first_layer_scramble_wc_solved() {
    // note white is on the bottom
    let start = Cube::make_solved(Facelet::Green, Facelet::Yellow);

    test_wc_state(start, FL_SCRAMBLE, true);
}

#[test]
fn first_layer_scrambled() {
    // note white is on the bottom
    let start = Cube::make_solved(Facelet::Green, Facelet::Yellow);

    // there will still be a "white cross" on the bottom, but two center bits are in the
    // wrong place, so this actually does mess up the wc
    test_wc_state(start, OBL_SCRAMBLE, false);
}

#[test]
fn yc_scrambled() {
    // note white is on the bottom
    let start = Cube::make_solved(Facelet::Green, Facelet::Yellow);

    test_wc_state(start, YELLOW_CROSS_SCRAMBLE, true);
}

#[test]
fn first_layer_wc_scrambled() {
    // note white is on the bottom
    let start = Cube::make_solved(Facelet::Green, Facelet::Yellow);

    test_wc_state(start, WHITE_CROSS_SCRAMBLE, false);
}

#[test]
fn first_layer_wc_scrambled_flipped_cube() {
    // note white is on the TOP
    let start = Cube::make_solved(Facelet::Green, Facelet::White);

    // we scramble the bottom, so the white cross (which is on top) is unaffected
    test_wc_state(start, WHITE_CROSS_SCRAMBLE, true);
}

#[test]
fn white_cross_is_solved_with_fewer_moves_than_the_scramble() {
    let input = "U2 F L D L' D' F'";
    let scramble = parse_many(input).unwrap();
    let bot_messed = Cube::make_solved(Facelet::Green, Facelet::Yellow).apply_many(&scramble);

    let wc_solution = solve_wc(bot_messed.clone()).unwrap();

    // after applying the solution, the WC should be solved, but the whole cube probably is not
    let altered = bot_messed.clone().apply_many(&wc_solution);
    let altered_mask = to_white_cross(altered.clone());

    assert!(!altered.is_solved());
    assert!(altered_mask.is_solved());
    assert!(wc_solution.len() < scramble.len());
}

#[test]
fn solved_cube_needs_no_moves_for_its_white_cross() {
    let cube = Cube::make_solved(Facelet::Green, Facelet::Yellow);
    assert_eq!(solve_wc(cube).unwrap().len(), 0);
}
