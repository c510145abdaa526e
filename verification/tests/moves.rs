use cube_solver::cube::{Cube, Facelet};
use cube_solver::moves::{parse_many, ApplyMove, CanMove};

fn solved() -> Cube {
    return Cube::make_solved(Facelet::White, Facelet::Blue);
}

#[test]
fn simple_equality() {
    assert_eq!(solved(), solved())
}

#[test]
fn simple_circuit_r() {
    assert_eq!(solved(), solved().r().r().r().r())
}

#[test]
fn simple_circuit_l() {
    assert_eq!(solved(), solved().l().l().l().l())
}

#[test]
fn simple_circuit_rl() {
    // random set of R and L, total of four each
    assert_eq!(solved(), solved().r().l().l().r().l().r().r().l())
}

#[test]
fn simple_circuit_u() {
    assert_eq!(solved(), solved().u().u().u().u())
}

#[test]
fn simple_circuit_d() {
    assert_eq!(solved(), solved().d().d().d().d())
}

#[test]
fn simple_circuit_ud() {
    assert_eq!(solved(), solved().u().d().d().u().u().u().d().d())
}

#[test]
fn simple_circuit_b() {
    assert_eq!(solved(), solved().b().b().b().b())
}

#[test]
fn simple_circuit_f() {
    assert_eq!(solved(), solved().f().f().f().f())
}

#[test]
fn simple_circuit_fb() {
    assert_eq!(solved(), solved().f().b().b().f().b().f().f().b())
}

fn moves_unsolved(input: &str) {
    let moves = parse_many(input).unwrap();
    let actual = Cube::make_solved(Facelet::Orange, Facelet::White).apply_many(&moves);
    assert!(!actual.is_solved())
}

fn moves_solved(input: &str) {
    let moves = parse_many(input).unwrap();
    let actual = Cube::make_solved(Facelet::Yellow, Facelet::Red).apply_many(&moves);
    assert!(actual.is_solved());
}

#[test]
fn sanity_checks() {
    moves_unsolved("R2");
    moves_unsolved("L2 R2");
    moves_unsolved("R2 F");
    moves_unsolved("R2 B U D");

    moves_solved("R2 L R' L' R' F B F' B2 F2 B F2");
}
