//! The move algebra: six base turns, three amounts, and what it means to
//! apply them to anything that can be turned.

use crate::cube::{Cube, FBFace, LRFace, UDFace};
use vstd::prelude::*;
use vstd::std_specs::iter::IteratorSpec;
use vstd::string::*;

verus! {

/// The face that a move turns.
#[derive(Copy, Clone, PartialEq, Eq, Structural, Debug, Hash)]
pub enum Dir {
    R,
    L,
    D,
    U,
    F,
    B,
}

/// How far a move turns its face: a quarter, a half, or a quarter back.
#[derive(Copy, Clone, PartialEq, Eq, Structural, Debug, Hash)]
pub enum Amt {
    One,
    Two,
    Rev,
}

#[derive(Copy, Clone, PartialEq, Eq, Structural, Debug, Hash)]
pub struct FullMove {
    pub dir: Dir,
    pub amt: Amt,
}

pub const ALL_DIRS: [Dir; 6] = [Dir::U, Dir::D, Dir::B, Dir::F, Dir::L, Dir::R];

pub const ALL_AMTS: [Amt; 3] = [Amt::One, Amt::Two, Amt::Rev];

/// A move token that is not one of the eighteen legal ones.
#[derive(Clone, PartialEq, Eq, Debug)]
pub struct ParseError {
    /// The token as it stood in the input.
    pub token: String,
}

/// The letter of a face.
pub open spec fn dir_char(d: Dir) -> char {
    match d {
        Dir::R => 'R',
        Dir::L => 'L',
        Dir::D => 'D',
        Dir::U => 'U',
        Dir::F => 'F',
        Dir::B => 'B',
    }
}

/// The face that a letter names.
pub open spec fn char_dir(c: char) -> Option<Dir> {
    if c == 'R' {
        Some(Dir::R)
    } else if c == 'L' {
        Some(Dir::L)
    } else if c == 'D' {
        Some(Dir::D)
    } else if c == 'U' {
        Some(Dir::U)
    } else if c == 'F' {
        Some(Dir::F)
    } else if c == 'B' {
        Some(Dir::B)
    } else {
        None
    }
}

/// The token of a move: the letter of its face, then nothing, `2` or `'`.
pub open spec fn move_token(m: FullMove) -> Seq<char> {
    match m.amt {
        Amt::One => seq![dir_char(m.dir)],
        Amt::Two => seq![dir_char(m.dir), '2'],
        Amt::Rev => seq![dir_char(m.dir), '\''],
    }
}

/// The move that a token stands for, if it is a legal token.
pub open spec fn parse_token(t: Seq<char>) -> Option<FullMove> {
    if t.len() == 1 && char_dir(t[0]) is Some {
        Some(FullMove { dir: char_dir(t[0]).unwrap(), amt: Amt::One })
    } else if t.len() == 2 && char_dir(t[0]) is Some && t[1] == '2' {
        Some(FullMove { dir: char_dir(t[0]).unwrap(), amt: Amt::Two })
    } else if t.len() == 2 && char_dir(t[0]) is Some && t[1] == '\'' {
        Some(FullMove { dir: char_dir(t[0]).unwrap(), amt: Amt::Rev })
    } else {
        None
    }
}

/// Formatting a move and parsing the token gives the move back, and a token
/// that parses is the token of the move it gives.
pub proof fn lemma_token_round_trip(m: FullMove, t: Seq<char>)
    ensures
        parse_token(move_token(m)) == Some(m),
        parse_token(t) == Some(m) ==> t == move_token(m),
{
    if parse_token(t) == Some(m) {
        assert(t =~= move_token(m));
    }
}

/// The five characters that separate tokens: space, tab, line feed, form
/// feed and carriage return.
pub open spec fn is_space(c: char) -> bool {
    c == ' ' || c == '\t' || c == '\n' || c == '\x0C' || c == '\r'
}

/// The tokens of `s` from position `i` on, where `start` is the position at
/// which the token that `i` stands in began, if it stands in one.
pub open spec fn tokens_from(s: Seq<char>, i: int, start: Option<int>) -> Seq<Seq<char>>
    decreases s.len() - i,
{
    if i < 0 || i >= s.len() {
        match start {
            Some(a) => seq![s.subrange(a, s.len() as int)],
            None => Seq::empty(),
        }
    } else if is_space(s[i]) {
        match start {
            Some(a) => seq![s.subrange(a, i)] + tokens_from(s, i + 1, None),
            None => tokens_from(s, i + 1, None),
        }
    } else {
        tokens_from(s, i + 1, if start is Some { start } else { Some(i) })
    }
}

/// The maximal runs of characters of `s` that hold no separator, in order.
pub open spec fn tokens(s: Seq<char>) -> Seq<Seq<char>> {
    tokens_from(s, 0, None)
}

/// The moves of a list of tokens, or the first token that is not legal.
pub open spec fn parse_tokens(ts: Seq<Seq<char>>) -> Result<Seq<FullMove>, Seq<char>>
    decreases ts.len(),
{
    if ts.len() == 0 {
        Ok(Seq::empty())
    } else {
        match parse_token(ts[0]) {
            None => Err(ts[0]),
            Some(m) => match parse_tokens(ts.drop_first()) {
                Ok(rest) => Ok(seq![m] + rest),
                Err(t) => Err(t),
            },
        }
    }
}

/// What `parse_many` makes of an input.
pub open spec fn parse_many_spec(s: Seq<char>) -> Result<Seq<FullMove>, Seq<char>> {
    parse_tokens(tokens(s))
}

/// The moves `done` followed by what `rest` gives.
pub open spec fn after_moves(done: Seq<FullMove>, rest: Result<Seq<FullMove>, Seq<char>>) -> Result<
    Seq<FullMove>,
    Seq<char>,
> {
    match rest {
        Ok(r) => Ok(done + r),
        Err(t) => Err(t),
    }
}

/// Parses an input as a whitespace-separated list of moves. Gives the first
/// token that is no move as the error.
pub fn parse_many(input: &str) -> (res: Result<Vec<FullMove>, ParseError>)
    ensures
        match res {
            Ok(moves) => parse_many_spec(input@) == Ok::<Seq<FullMove>, Seq<char>>(moves@),
            Err(e) => parse_many_spec(input@) == Err::<Seq<FullMove>, Seq<char>>(e.token@),
        },
{
    let n = input.unicode_len();
    let mut out: Vec<FullMove> = Vec::new();
    let mut it = input.chars();
    let mut i: usize = 0;
    let mut start: Option<usize> = None;
    let ghost s = input@;
    proof {
        if let Ok(r) = parse_tokens(tokens(s)) {
            assert(Seq::<FullMove>::empty() + r =~= r);
        }
    }
    while i < n
        invariant
            s == input@,
            n == s.len(),
            i <= n,
            it.remaining() == s.subrange(i as int, n as int),
            start matches Some(a) ==> a < i,
            after_moves(
                out@,
                parse_tokens(
                    tokens_from(
                        s,
                        i as int,
                        match start {
                            Some(a) => Some(a as int),
                            None => None,
                        },
                    ),
                ),
            ) == parse_many_spec(s),
        decreases n - i,
    {
        let next = it.next();
        assert(next == Some(s[i as int]));
        assert(it.remaining() =~= s.subrange(i + 1, n as int));
        let c = match next {
            Some(c) => c,
            None => ' ',
        };
        if c == ' ' || c == '\t' || c == '\n' || c == '\x0C' || c == '\r' {
            if let Some(a) = start {
                let tok = input.substring_char(a, i);
                let ghost rest = tokens_from(s, i + 1, None);
                assert((seq![tok@] + rest).drop_first() =~= rest);
                match FullMove::try_from(tok) {
                    Ok(m) => {
                        proof {
                            if let Ok(r) = parse_tokens(rest) {
                                assert(out@.push(m) + r =~= out@ + (seq![m] + r));
                            }
                        }
                        out.push(m);
                    },
                    Err(e) => {
                        return Err(e);
                    },
                }
                start = None;
            }
        } else if start.is_none() {
            start = Some(i);
        }
        i += 1;
    }
    if let Some(a) = start {
        let tok = input.substring_char(a, n);
        proof {
            reveal_with_fuel(parse_tokens, 2);
            assert(tokens_from(s, n as int, Some(a as int)) =~= seq![tok@]);
            assert(seq![tok@].drop_first() =~= Seq::<Seq<char>>::empty());
        }
        match FullMove::try_from(tok) {
            Ok(m) => {
                assert(out@.push(m) =~= out@ + (seq![m] + Seq::<FullMove>::empty()));
                out.push(m);
            },
            Err(e) => {
                return Err(e);
            },
        }
    } else {
        assert(tokens_from(s, n as int, None) =~= Seq::<Seq<char>>::empty());
        assert(out@ + Seq::<FullMove>::empty() =~= out@);
    }
    Ok(out)
}

impl Amt {
    /// The amount that undoes this one.
    pub open spec fn inverse(self) -> Amt {
        match self {
            Amt::One => Amt::Rev,
            Amt::Two => Amt::Two,
            Amt::Rev => Amt::One,
        }
    }
}

impl FullMove {
    /// The move that undoes this one: the same face, turned back.
    pub open spec fn inverse(self) -> FullMove {
        FullMove { dir: self.dir, amt: self.amt.inverse() }
    }

    /// The move that undoes this one.
    pub fn inv_fm(self) -> (out: FullMove)
        ensures
            out == self.inverse(),
    {
        let rev_amt: Amt = match self.amt {
            Amt::Two => Amt::Two,
            Amt::One => Amt::Rev,
            Amt::Rev => Amt::One,
        };

        FullMove { dir: self.dir, amt: rev_amt }
    }

    /// The token of the move: `R`, `R2`, `R'` and so on.
    pub fn to_string(&self) -> (out: String)
        ensures
            out@ == move_token(*self),
    {
        let mut out = match self.dir {
            Dir::R => String::from_str("R"),
            Dir::L => String::from_str("L"),
            Dir::D => String::from_str("D"),
            Dir::U => String::from_str("U"),
            Dir::F => String::from_str("F"),
            Dir::B => String::from_str("B"),
        };
        proof {
            reveal_strlit("R");
            reveal_strlit("L");
            reveal_strlit("D");
            reveal_strlit("U");
            reveal_strlit("F");
            reveal_strlit("B");
            reveal_strlit("2");
            reveal_strlit("'");
        }
        assert(out@ =~= seq![dir_char(self.dir)]);
        match self.amt {
            Amt::One => {},
            Amt::Two => out.append("2"),
            Amt::Rev => out.append("'"),
        }
        assert(out@ =~= move_token(*self));
        out
    }

    /// Reads one token. The error holds the token that is no move.
    pub fn try_from(value: &str) -> (res: Result<FullMove, ParseError>)
        ensures
            match res {
                Ok(m) => parse_token(value@) == Some(m),
                Err(e) => parse_token(value@) is None && e.token@ == value@,
            },
    {
        let mut it = value.chars();
        let c0 = it.next();
        let c1 = it.next();
        let c2 = it.next();
        let dir = match c0 {
            Some('R') => Some(Dir::R),
            Some('L') => Some(Dir::L),
            Some('D') => Some(Dir::D),
            Some('U') => Some(Dir::U),
            Some('F') => Some(Dir::F),
            Some('B') => Some(Dir::B),
            _ => None,
        };
        let amt = match (c1, c2) {
            (None, _) => Some(Amt::One),
            (Some('2'), None) => Some(Amt::Two),
            (Some('\''), None) => Some(Amt::Rev),
            _ => None,
        };
        match (dir, amt) {
            (Some(dir), Some(amt)) => Ok(FullMove { dir, amt }),
            _ => Err(ParseError { token: value.to_owned() }),
        }
    }
}

/// The moves that undo `moves`: each move turned back, last move first.
pub open spec fn invert_spec(moves: Seq<FullMove>) -> Seq<FullMove> {
    Seq::new(moves.len(), |i: int| moves[moves.len() - 1 - i].inverse())
}

/// The moves that undo `fms`: each move turned back, last move first.
pub fn invert(fms: &[FullMove]) -> (out: Vec<FullMove>)
    ensures
        out@ == invert_spec(fms@),
{
    let n = fms.len();
    let mut out = Vec::with_capacity(n);
    let mut i: usize = 0;
    while i < n
        invariant
            n == fms.len(),
            i <= n,
            out.len() == i,
            forall|j: int| 0 <= j < i ==> out[j] == fms[n - 1 - j].inverse(),
        decreases n - i,
    {
        out.push(fms[n - 1 - i].inv_fm());
        i += 1;
    }
    assert(out@ =~= invert_spec(fms@));
    out
}

/// The tokens of `moves` with one space between each two.
pub open spec fn nice_str(moves: Seq<FullMove>) -> Seq<char>
    decreases moves.len(),
{
    if moves.len() == 0 {
        Seq::empty()
    } else if moves.len() == 1 {
        move_token(moves[0])
    } else {
        nice_str(moves.drop_last()) + seq![' '] + move_token(moves.last())
    }
}

/// The tokens of the moves with one space between each two.
pub fn to_nice_str(fms: &[FullMove]) -> (out: String)
    ensures
        out@ == nice_str(fms@),
{
    let mut out = String::new();
    let mut i: usize = 0;
    while i < fms.len()
        invariant
            i <= fms.len(),
            out@ == nice_str(fms@.take(i as int)),
        decreases fms.len() - i,
    {
        let tok = fms[i].to_string();
        proof {
            reveal_strlit(" ");
            assert(fms@.take(i + 1).drop_last() =~= fms@.take(i as int));
            assert(" "@ =~= seq![' ']);
        }
        if i > 0 {
            out.append(" ");
        }
        out.append(tok.as_str());
        proof {
            if i == 0 {
                assert(out@ =~= move_token(fms[0]));
            }
        }
        i += 1;
    }
    assert(fms@.take(i as int) =~= fms@);
    out
}

/// No character of a token is a separator, and a token has one or two
/// characters.
pub proof fn lemma_token_has_no_space(m: FullMove)
    ensures
        1 <= move_token(m).len() <= 2,
        forall|i: int| 0 <= i < move_token(m).len() ==> !is_space(#[trigger] move_token(m)[i]),
{
}

/// Where no separator stands from `a` on, the token that began at `a` runs
/// to the end of the text and is the last one.
proof fn lemma_tokens_of_last_token(s: Seq<char>, a: int, i: int)
    requires
        0 <= a <= i <= s.len(),
        forall|k: int| a <= k < s.len() ==> !is_space(#[trigger] s[k]),
        a < s.len(),
    ensures
        tokens_from(s, i, Some(a)) == seq![s.subrange(a, s.len() as int)],
    decreases s.len() - i,
{
    if i < s.len() {
        lemma_tokens_of_last_token(s, a, i + 1);
    }
}

/// The tokens of a text followed by a space and a token are the tokens of
/// the text and the token.
proof fn lemma_tokens_of_appended(a: Seq<char>, t: Seq<char>, i: int, start: Option<int>)
    requires
        0 <= i <= a.len(),
        t.len() > 0,
        forall|k: int| 0 <= k < t.len() ==> !is_space(#[trigger] t[k]),
        start matches Some(b) ==> 0 <= b <= i && b < a.len(),
    ensures
        tokens_from(a + seq![' '] + t, i, start) == tokens_from(a, i, start) + seq![t],
    decreases a.len() - i,
{
    let s = a + seq![' '] + t;
    if i < a.len() {
        assert(s[i] == a[i]);
        let next = if is_space(a[i]) {
            None
        } else if start is Some {
            start
        } else {
            Some(i)
        };
        lemma_tokens_of_appended(a, t, i + 1, next);
        if is_space(a[i]) {
            match start {
                Some(b) => {
                    assert(s.subrange(b, i) =~= a.subrange(b, i));
                    assert(seq![a.subrange(b, i)] + (tokens_from(a, i + 1, None) + seq![t]) =~= (
                    seq![a.subrange(b, i)] + tokens_from(a, i + 1, None)) + seq![t]);
                },
                None => {},
            }
        }
    } else {
        // the space after the text ends the token on hand; then comes the last token
        assert(s[i] == ' ');
        let j = i + 1;
        assert forall|k: int| j <= k < s.len() implies !is_space(#[trigger] s[k]) by {
            assert(s[k] == t[k - j]);
        }
        assert(s[j] == t[0]);
        assert(tokens_from(s, j, None) == tokens_from(s, j + 1, Some(j)));
        lemma_tokens_of_last_token(s, j, j + 1);
        assert(s.subrange(j, s.len() as int) =~= t);
        match start {
            Some(b) => {
                assert(s.subrange(b, i) =~= a.subrange(b, a.len() as int));
            },
            None => {
                assert(Seq::<Seq<char>>::empty() + seq![t] =~= seq![t]);
            },
        }
    }
}

/// The tokens of a list of moves.
pub open spec fn move_tokens(moves: Seq<FullMove>) -> Seq<Seq<char>> {
    Seq::new(moves.len(), |i: int| move_token(moves[i]))
}

/// The tokens of the text that `to_nice_str` makes of moves are the tokens
/// of the moves.
pub proof fn lemma_tokens_of_nice_str(moves: Seq<FullMove>)
    ensures
        tokens(nice_str(moves)) == move_tokens(moves),
    decreases moves.len(),
{
    if moves.len() == 0 {
        assert(move_tokens(moves) =~= Seq::<Seq<char>>::empty());
    } else {
        let t = move_token(moves.last());
        lemma_token_has_no_space(moves.last());
        if moves.len() == 1 {
            let s = nice_str(moves);
            assert(s == t);
            assert(tokens_from(s, 0, None) == tokens_from(s, 1, Some(0)));
            lemma_tokens_of_last_token(s, 0, 1);
            assert(s.subrange(0, s.len() as int) =~= s);
            assert(move_tokens(moves) =~= seq![t]);
        } else {
            let before = moves.drop_last();
            lemma_tokens_of_nice_str(before);
            lemma_tokens_of_appended(nice_str(before), t, 0, None);
            assert(move_tokens(moves) =~= move_tokens(before) + seq![t]);
        }
    }
}

/// What was read, with one more move.
pub open spec fn after_moves_of(read: Result<Seq<FullMove>, Seq<char>>, m: FullMove) -> Result<
    Seq<FullMove>,
    Seq<char>,
> {
    match read {
        Ok(moves) => Ok(moves.push(m)),
        Err(t) => Err(t),
    }
}

/// The moves of a list of tokens with one more legal token.
proof fn lemma_parse_one_more(ts: Seq<Seq<char>>, t: Seq<char>, m: FullMove)
    requires
        parse_token(t) == Some(m),
    ensures
        parse_tokens(ts + seq![t]) == after_moves_of(parse_tokens(ts), m),
    decreases ts.len(),
{
    let all = ts + seq![t];
    if ts.len() == 0 {
        let none_left = all.drop_first();
        assert(none_left.len() == 0);
        assert(parse_tokens(none_left) == Ok::<Seq<FullMove>, Seq<char>>(Seq::empty()));
        assert(all[0] == t);
        assert(seq![m] + Seq::<FullMove>::empty() =~= Seq::<FullMove>::empty().push(m));
    } else {
        assert(all.drop_first() =~= ts.drop_first() + seq![t]);
        assert(all[0] == ts[0]);
        lemma_parse_one_more(ts.drop_first(), t, m);
        if let Some(first) = parse_token(ts[0]) {
            if let Ok(rest) = parse_tokens(ts.drop_first()) {
                assert(seq![first] + rest.push(m) =~= (seq![first] + rest).push(m));
            }
        }
    }
}

/// The tokens of moves are read as the moves.
proof fn lemma_parse_move_tokens(moves: Seq<FullMove>)
    ensures
        parse_tokens(move_tokens(moves)) == Ok::<Seq<FullMove>, Seq<char>>(moves),
    decreases moves.len(),
{
    if moves.len() == 0 {
        assert(move_tokens(moves).len() == 0);
        assert(moves =~= Seq::<FullMove>::empty());
    } else {
        let before = moves.drop_last();
        lemma_parse_move_tokens(before);
        lemma_token_round_trip(moves.last(), move_token(moves.last()));
        lemma_parse_one_more(move_tokens(before), move_token(moves.last()), moves.last());
        assert(move_tokens(moves) =~= move_tokens(before) + seq![move_token(moves.last())]);
        assert(before.push(moves.last()) =~= moves);
        assert(parse_tokens(move_tokens(moves)) == after_moves_of(
            parse_tokens(move_tokens(before)),
            moves.last(),
        ));
    }
}

/// Reading what `to_nice_str` writes gives the moves back.
pub proof fn lemma_nice_str_round_trip(moves: Seq<FullMove>)
    ensures
        parse_many_spec(nice_str(moves)) == Ok::<Seq<FullMove>, Seq<char>>(moves),
{
    lemma_tokens_of_nice_str(moves);
    lemma_parse_move_tokens(moves);
}

/// A value that the six faces can turn. Each base turn is a quarter turn
/// clockwise, seen from outside the cube.
pub trait CanMove: Sized {
    spec fn r_spec(self) -> Self;

    spec fn l_spec(self) -> Self;

    spec fn u_spec(self) -> Self;

    spec fn d_spec(self) -> Self;

    spec fn b_spec(self) -> Self;

    spec fn f_spec(self) -> Self;

    fn r(self) -> (out: Self)
        ensures
            out == self.r_spec(),
    ;

    fn l(self) -> (out: Self)
        ensures
            out == self.l_spec(),
    ;

    fn u(self) -> (out: Self)
        ensures
            out == self.u_spec(),
    ;

    fn u_two(self) -> (out: Self)
        ensures
            out == self.u_spec().u_spec(),
    {
        self.u().u()
    }

    fn d(self) -> (out: Self)
        ensures
            out == self.d_spec(),
    ;

    fn d_two(self) -> (out: Self)
        ensures
            out == self.d_spec().d_spec(),
    {
        self.d().d()
    }

    fn b(self) -> (out: Self)
        ensures
            out == self.b_spec(),
    ;

    fn f(self) -> (out: Self)
        ensures
            out == self.f_spec(),
    ;

    /// Four quarter turns of one face change nothing.
    proof fn lemma_four_turns(self)
        ensures
            self.r_spec().r_spec().r_spec().r_spec() == self,
            self.l_spec().l_spec().l_spec().l_spec() == self,
            self.u_spec().u_spec().u_spec().u_spec() == self,
            self.d_spec().d_spec().d_spec().d_spec() == self,
            self.b_spec().b_spec().b_spec().b_spec() == self,
            self.f_spec().f_spec().f_spec().f_spec() == self,
    ;

    /// Quarter turns of two opposite faces can be made in either order.
    proof fn lemma_opposite_turns_commute(self)
        ensures
            self.r_spec().l_spec() == self.l_spec().r_spec(),
            self.u_spec().d_spec() == self.d_spec().u_spec(),
            self.f_spec().b_spec() == self.b_spec().f_spec(),
    ;
}

/// One quarter turn of the face `dir`.
pub open spec fn turn<T: CanMove>(s: T, dir: Dir) -> T {
    match dir {
        Dir::R => s.r_spec(),
        Dir::L => s.l_spec(),
        Dir::D => s.d_spec(),
        Dir::U => s.u_spec(),
        Dir::F => s.f_spec(),
        Dir::B => s.b_spec(),
    }
}

/// The value after move `m`: a half turn is two quarter turns, a turn back
/// is three.
pub open spec fn apply_move<T: CanMove>(s: T, m: FullMove) -> T {
    match m.amt {
        Amt::One => turn(s, m.dir),
        Amt::Two => turn(turn(s, m.dir), m.dir),
        Amt::Rev => turn(turn(turn(s, m.dir), m.dir), m.dir),
    }
}

/// The value after the moves of `moves`, first to last.
pub open spec fn apply_moves<T: CanMove>(s: T, moves: Seq<FullMove>) -> T
    decreases moves.len(),
{
    if moves.len() == 0 {
        s
    } else {
        apply_moves(apply_move(s, moves[0]), moves.drop_first())
    }
}

/// Applying moves to a value.
pub trait ApplyMove: Sized {
    spec fn apply_spec(self, m: FullMove) -> Self;

    spec fn apply_many_spec(self, moves: Seq<FullMove>) -> Self;

    fn apply_many(self, moves: &[FullMove]) -> (out: Self)
        ensures
            out == self.apply_many_spec(moves@),
    ;

    fn apply(self, m: FullMove) -> (out: Self)
        ensures
            out == self.apply_spec(m),
    ;
}

/// Moves applied one after another are the moves of the concatenation.
pub proof fn lemma_apply_moves_concat<T: CanMove>(s: T, a: Seq<FullMove>, b: Seq<FullMove>)
    ensures
        apply_moves(s, a + b) == apply_moves(apply_moves(s, a), b),
    decreases a.len(),
{
    if a.len() == 0 {
        assert(a + b =~= b);
    } else {
        assert((a + b).drop_first() =~= a.drop_first() + b);
        lemma_apply_moves_concat(apply_move(s, a[0]), a.drop_first(), b);
    }
}

/// One more move at the end is applied last.
pub proof fn lemma_apply_moves_push<T: CanMove>(s: T, a: Seq<FullMove>, m: FullMove)
    ensures
        apply_moves(s, a.push(m)) == apply_move(apply_moves(s, a), m),
{
    lemma_apply_moves_concat(s, a, seq![m]);
    assert(a.push(m) =~= a + seq![m]);
    assert(seq![m].drop_first() =~= Seq::<FullMove>::empty());
    reveal_with_fuel(apply_moves, 2);
}

/// Four quarter turns of any face change nothing, and so do two half turns.
pub proof fn lemma_turn_cycle<T: CanMove>(s: T, dir: Dir)
    ensures
        turn(turn(turn(turn(s, dir), dir), dir), dir) == s,
        apply_move(apply_move(s, FullMove { dir, amt: Amt::Two }), FullMove { dir, amt: Amt::Two })
            == s,
{
    s.lemma_four_turns();
}

/// What no quarter turn changes, no move changes.
pub proof fn lemma_kept_by_turns_kept_by_moves<T: CanMove>(
    property: spec_fn(T) -> bool,
    s: T,
    m: FullMove,
)
    requires
        forall|t: T, dir: Dir| #[trigger] property(turn(t, dir)) == property(t),
    ensures
        property(apply_move(s, m)) == property(s),
{
    let s1 = turn(s, m.dir);
    let s2 = turn(s1, m.dir);
    let s3 = turn(s2, m.dir);
    assert(property(s1) == property(s));
    assert(property(s2) == property(s1));
    assert(property(s3) == property(s2));
}

/// A move followed by its inverse changes nothing, whatever the value.
pub proof fn lemma_inverse_undoes<T: CanMove>(s: T, m: FullMove)
    ensures
        apply_move(apply_move(s, m), m.inverse()) == s,
        apply_move(apply_move(s, m.inverse()), m) == s,
        m.inverse().inverse() == m,
{
    lemma_turn_cycle(s, m.dir);
}

/// The inverse of a list of moves ends with the inverse of its first move.
pub proof fn lemma_invert_first(moves: Seq<FullMove>)
    requires
        moves.len() > 0,
    ensures
        invert_spec(moves) == invert_spec(moves.drop_first()).push(moves[0].inverse()),
{
    assert(invert_spec(moves) =~= invert_spec(moves.drop_first()).push(moves[0].inverse()));
}

/// Applying a list of moves and then its inverse returns to the start.
pub proof fn lemma_invert_undoes<T: CanMove>(s: T, moves: Seq<FullMove>)
    ensures
        apply_moves(apply_moves(s, moves), invert_spec(moves)) == s,
        invert_spec(invert_spec(moves)) == moves,
    decreases moves.len(),
{
    assert(invert_spec(invert_spec(moves)) =~= moves) by {
        assert forall|i: int| 0 <= i < moves.len() implies #[trigger] invert_spec(
            invert_spec(moves),
        )[i] == moves[i] by {
            lemma_inverse_undoes(s, moves[i]);
        }
    }
    if moves.len() == 0 {
        assert(invert_spec(moves) =~= Seq::<FullMove>::empty());
    } else {
        let first = moves[0];
        let rest = moves.drop_first();
        let mid = apply_move(s, first);
        lemma_invert_first(moves);
        lemma_apply_moves_push(apply_moves(mid, rest), invert_spec(rest), first.inverse());
        lemma_invert_undoes(mid, rest);
        lemma_inverse_undoes(s, first);
    }
}

impl<T: CanMove> ApplyMove for T {
    open spec fn apply_spec(self, m: FullMove) -> Self {
        apply_move(self, m)
    }

    open spec fn apply_many_spec(self, moves: Seq<FullMove>) -> Self {
        apply_moves(self, moves)
    }

    #[inline(never)]
    fn apply_many(self, moves: &[FullMove]) -> (out: Self) {
        let mut out = self;
        let mut i: usize = 0;
        while i < moves.len()
            invariant
                i <= moves.len(),
                out == apply_moves(self, moves@.take(i as int)),
            decreases moves.len() - i,
        {
            proof {
                lemma_apply_moves_push(self, moves@.take(i as int), moves@[i as int]);
                assert(moves@.take(i as int).push(moves@[i as int]) =~= moves@.take(i + 1));
            }
            out = out.apply(moves[i]);
            i += 1;
        }
        assert(moves@.take(i as int) =~= moves@);
        out
    }

    #[inline(never)]
    fn apply(self, m: FullMove) -> (out: Self) {
        let FullMove { dir, amt } = m;
        match dir {
            Dir::R => match amt {
                Amt::One => self.r(),
                Amt::Two => self.r().r(),
                Amt::Rev => self.r().r().r(),
            },
            Dir::L => match amt {
                Amt::One => self.l(),
                Amt::Two => self.l().l(),
                Amt::Rev => self.l().l().l(),
            },
            Dir::D => match amt {
                Amt::One => self.d(),
                Amt::Two => self.d_two(),
                Amt::Rev => self.d().d().d(),
            },
            Dir::U => match amt {
                Amt::One => self.u(),
                Amt::Two => self.u_two(),
                Amt::Rev => self.u().u().u(),
            },
            Dir::F => match amt {
                Amt::One => self.f(),
                Amt::Two => self.f().f(),
                Amt::Rev => self.f().f().f(),
            },
            Dir::B => match amt {
                Amt::One => self.b(),
                Amt::Two => self.b().b(),
                Amt::Rev => self.b().b().b(),
            },
        }
    }
}

/// Moves act on the two halves of a pair apart.
pub proof fn lemma_pair_apply_moves<A: CanMove, B: CanMove>(s: (A, B), moves: Seq<FullMove>)
    ensures
        apply_moves(s, moves) == (apply_moves(s.0, moves), apply_moves(s.1, moves)),
    decreases moves.len(),
{
    if moves.len() > 0 {
        let m = moves[0];
        let t0 = turn(s, m.dir);
        let t1 = turn(t0, m.dir);
        assert(apply_move(s, m) == (apply_move(s.0, m), apply_move(s.1, m)));
        lemma_pair_apply_moves(apply_move(s, m), moves.drop_first());
    }
}

impl<A: CanMove, B: CanMove> CanMove for (A, B) {
    open spec fn r_spec(self) -> Self {
        (self.0.r_spec(), self.1.r_spec())
    }

    open spec fn l_spec(self) -> Self {
        (self.0.l_spec(), self.1.l_spec())
    }

    open spec fn u_spec(self) -> Self {
        (self.0.u_spec(), self.1.u_spec())
    }

    open spec fn d_spec(self) -> Self {
        (self.0.d_spec(), self.1.d_spec())
    }

    open spec fn b_spec(self) -> Self {
        (self.0.b_spec(), self.1.b_spec())
    }

    open spec fn f_spec(self) -> Self {
        (self.0.f_spec(), self.1.f_spec())
    }

    fn r(self) -> (out: Self) {
        (self.0.r(), self.1.r())
    }

    fn l(self) -> (out: Self) {
        (self.0.l(), self.1.l())
    }

    fn u(self) -> (out: Self) {
        (self.0.u(), self.1.u())
    }

    fn u_two(self) -> (out: Self) {
        (self.0.u_two(), self.1.u_two())
    }

    fn d(self) -> (out: Self) {
        (self.0.d(), self.1.d())
    }

    fn d_two(self) -> (out: Self) {
        (self.0.d_two(), self.1.d_two())
    }

    fn b(self) -> (out: Self) {
        (self.0.b(), self.1.b())
    }

    fn f(self) -> (out: Self) {
        (self.0.f(), self.1.f())
    }

    proof fn lemma_four_turns(self) {
        self.0.lemma_four_turns();
        self.1.lemma_four_turns();
    }

    proof fn lemma_opposite_turns_commute(self) {
        self.0.lemma_opposite_turns_commute();
        self.1.lemma_opposite_turns_commute();
    }
}

impl<F: Copy> CanMove for Cube<F> {
    /// A quarter turn of the right face: its own facelets go round, and the
    /// three nearest facelets of each of the four faces around it move on.
    open spec fn r_spec(self) -> Self {
        Cube {
            l: self.l,
            r: LRFace {
                // rotate corners
                ub: self.r.uf,
                uf: self.r.df,
                df: self.r.db,
                db: self.r.ub,
                // rotate edges
                uc: self.r.fc,
                fc: self.r.dc,
                dc: self.r.bc,
                bc: self.r.uc,
                // the center abides
                cc: self.r.cc,
            },
            d: UDFace { fr: self.b.dr, rc: self.b.rc, br: self.b.ur, ..self.d },
            u: UDFace { fr: self.f.dr, rc: self.f.rc, br: self.f.ur, ..self.u },
            f: FBFace { ur: self.d.fr, rc: self.d.rc, dr: self.d.br, ..self.f },
            b: FBFace { ur: self.u.fr, rc: self.u.rc, dr: self.u.br, ..self.b },
        }
    }

    /// A quarter turn of the left face: its own facelets go round, and the
    /// three nearest facelets of each of the four faces around it move on.
    open spec fn l_spec(self) -> Self {
        Cube {
            r: self.r,
            l: LRFace {
                // rotate corners
                uf: self.l.ub,
                ub: self.l.db,
                db: self.l.df,
                df: self.l.uf,
                // rotate edges
                fc: self.l.uc,
                uc: self.l.bc,
                bc: self.l.dc,
                dc: self.l.fc,
                // the center abides
                cc: self.l.cc,
            },
            u: UDFace { fl: self.b.ul, lc: self.b.lc, bl: self.b.dl, ..self.u },
            d: UDFace { fl: self.f.ul, lc: self.f.lc, bl: self.f.dl, ..self.d },
            f: FBFace { ul: self.u.bl, lc: self.u.lc, dl: self.u.fl, ..self.f },
            b: FBFace { ul: self.d.bl, lc: self.d.lc, dl: self.d.fl, ..self.b },
        }
    }

    /// A quarter turn of the upper face: its own facelets go round, and the
    /// three nearest facelets of each of the four faces around it move on.
    open spec fn u_spec(self) -> Self {
        Cube {
            d: self.d,
            u: UDFace {
                // rotate corners
                fr: self.u.br,
                br: self.u.bl,
                bl: self.u.fl,
                fl: self.u.fr,
                // rotate edges
                fc: self.u.rc,
                rc: self.u.bc,
                bc: self.u.lc,
                lc: self.u.fc,
                // the center abides
                cc: self.u.cc,
            },
            r: LRFace { uf: self.b.ur, uc: self.b.uc, ub: self.b.ul, ..self.r },
            l: LRFace { uf: self.f.ur, uc: self.f.uc, ub: self.f.ul, ..self.l },
            f: FBFace { ul: self.r.uf, uc: self.r.uc, ur: self.r.ub, ..self.f },
            b: FBFace { ur: self.l.ub, uc: self.l.uc, ul: self.l.uf, ..self.b },
        }
    }

    /// A quarter turn of the lower face: its own facelets go round, and the
    /// three nearest facelets of each of the four faces around it move on.
    open spec fn d_spec(self) -> Self {
        Cube {
            u: self.u,
            d: UDFace {
                // rotate corners
                fr: self.d.fl,
                fl: self.d.bl,
                bl: self.d.br,
                br: self.d.fr,
                // rotate edges
                fc: self.d.lc,
                lc: self.d.bc,
                bc: self.d.rc,
                rc: self.d.fc,
                // the center abides
                cc: self.d.cc,
            },
            r: LRFace { db: self.f.dr, dc: self.f.dc, df: self.f.dl, ..self.r },
            l: LRFace { df: self.b.dl, dc: self.b.dc, db: self.b.dr, ..self.l },
            b: FBFace { dl: self.r.db, dc: self.r.dc, dr: self.r.df, ..self.b },
            f: FBFace { dl: self.l.db, dc: self.l.dc, dr: self.l.df, ..self.f },
        }
    }

    /// A quarter turn of the back face: its own facelets go round, and the
    /// three nearest facelets of each of the four faces around it move on.
    open spec fn b_spec(self) -> Self {
        Cube {
            f: self.f,
            b: FBFace {
                // rotate corners
                ul: self.b.ur,
                ur: self.b.dr,
                dr: self.b.dl,
                dl: self.b.ul,
                // rotate edges
                uc: self.b.rc,
                rc: self.b.dc,
                dc: self.b.lc,
                lc: self.b.uc,
                // the center abides
                cc: self.b.cc,
            },
            r: LRFace { ub: self.d.br, bc: self.d.bc, db: self.d.bl, ..self.r },
            l: LRFace { ub: self.u.br, bc: self.u.bc, db: self.u.bl, ..self.l },
            u: UDFace { bl: self.r.ub, bc: self.r.bc, br: self.r.db, ..self.u },
            d: UDFace { bl: self.l.ub, bc: self.l.bc, br: self.l.db, ..self.d },
        }
    }

    /// A quarter turn of the front face: its own facelets go round, and the
    /// three nearest facelets of each of the four faces around it move on.
    open spec fn f_spec(self) -> Self {
        Cube {
            b: self.b,
            f: FBFace {
                // rotate corners
                ul: self.f.dl,
                dl: self.f.dr,
                dr: self.f.ur,
                ur: self.f.ul,
                // rotate edges
                uc: self.f.lc,
                lc: self.f.dc,
                dc: self.f.rc,
                rc: self.f.uc,
                // the center abides
                cc: self.f.cc,
            },
            r: LRFace { uf: self.u.fl, fc: self.u.fc, df: self.u.fr, ..self.r },
            l: LRFace { df: self.d.fr, fc: self.d.fc, uf: self.d.fl, ..self.l },
            u: UDFace { fl: self.l.df, fc: self.l.fc, fr: self.l.uf, ..self.u },
            d: UDFace { fl: self.r.df, fc: self.r.fc, fr: self.r.uf, ..self.d },
        }
    }

    fn r(self) -> (out: Self) {
        Cube {
            l: self.l,
            r: LRFace {
                // rotate corners
                ub: self.r.uf,
                uf: self.r.df,
                df: self.r.db,
                db: self.r.ub,
                // rotate edges
                uc: self.r.fc,
                fc: self.r.dc,
                dc: self.r.bc,
                bc: self.r.uc,
                // the center abides
                cc: self.r.cc,
            },
            d: UDFace { fr: self.b.dr, rc: self.b.rc, br: self.b.ur, ..self.d },
            u: UDFace { fr: self.f.dr, rc: self.f.rc, br: self.f.ur, ..self.u },
            f: FBFace { ur: self.d.fr, rc: self.d.rc, dr: self.d.br, ..self.f },
            b: FBFace { ur: self.u.fr, rc: self.u.rc, dr: self.u.br, ..self.b },
        }
    }

    fn l(self) -> (out: Self) {
        Cube {
            r: self.r,
            l: LRFace {
                // rotate corners
                uf: self.l.ub,
                ub: self.l.db,
                db: self.l.df,
                df: self.l.uf,
                // rotate edges
                fc: self.l.uc,
                uc: self.l.bc,
                bc: self.l.dc,
                dc: self.l.fc,
                // the center abides
                cc: self.l.cc,
            },
            u: UDFace { fl: self.b.ul, lc: self.b.lc, bl: self.b.dl, ..self.u },
            d: UDFace { fl: self.f.ul, lc: self.f.lc, bl: self.f.dl, ..self.d },
            f: FBFace { ul: self.u.bl, lc: self.u.lc, dl: self.u.fl, ..self.f },
            b: FBFace { ul: self.d.bl, lc: self.d.lc, dl: self.d.fl, ..self.b },
        }
    }

    fn u(self) -> (out: Self) {
        Cube {
            d: self.d,
            u: UDFace {
                // rotate corners
                fr: self.u.br,
                br: self.u.bl,
                bl: self.u.fl,
                fl: self.u.fr,
                // rotate edges
                fc: self.u.rc,
                rc: self.u.bc,
                bc: self.u.lc,
                lc: self.u.fc,
                // the center abides
                cc: self.u.cc,
            },
            r: LRFace { uf: self.b.ur, uc: self.b.uc, ub: self.b.ul, ..self.r },
            l: LRFace { uf: self.f.ur, uc: self.f.uc, ub: self.f.ul, ..self.l },
            f: FBFace { ul: self.r.uf, uc: self.r.uc, ur: self.r.ub, ..self.f },
            b: FBFace { ur: self.l.ub, uc: self.l.uc, ul: self.l.uf, ..self.b },
        }
    }

    fn d(self) -> (out: Self) {
        Cube {
            u: self.u,
            d: UDFace {
                // rotate corners
                fr: self.d.fl,
                fl: self.d.bl,
                bl: self.d.br,
                br: self.d.fr,
                // rotate edges
                fc: self.d.lc,
                lc: self.d.bc,
                bc: self.d.rc,
                rc: self.d.fc,
                // the center abides
                cc: self.d.cc,
            },
            r: LRFace { db: self.f.dr, dc: self.f.dc, df: self.f.dl, ..self.r },
            l: LRFace { df: self.b.dl, dc: self.b.dc, db: self.b.dr, ..self.l },
            b: FBFace { dl: self.r.db, dc: self.r.dc, dr: self.r.df, ..self.b },
            f: FBFace { dl: self.l.db, dc: self.l.dc, dr: self.l.df, ..self.f },
        }
    }

    fn b(self) -> (out: Self) {
        Cube {
            f: self.f,
            b: FBFace {
                // rotate corners
                ul: self.b.ur,
                ur: self.b.dr,
                dr: self.b.dl,
                dl: self.b.ul,
                // rotate edges
                uc: self.b.rc,
                rc: self.b.dc,
                dc: self.b.lc,
                lc: self.b.uc,
                // the center abides
                cc: self.b.cc,
            },
            r: LRFace { ub: self.d.br, bc: self.d.bc, db: self.d.bl, ..self.r },
            l: LRFace { ub: self.u.br, bc: self.u.bc, db: self.u.bl, ..self.l },
            u: UDFace { bl: self.r.ub, bc: self.r.bc, br: self.r.db, ..self.u },
            d: UDFace { bl: self.l.ub, bc: self.l.bc, br: self.l.db, ..self.d },
        }
    }

    fn f(self) -> (out: Self) {
        Cube {
            b: self.b,
            f: FBFace {
                // rotate corners
                ul: self.f.dl,
                dl: self.f.dr,
                dr: self.f.ur,
                ur: self.f.ul,
                // rotate edges
                uc: self.f.lc,
                lc: self.f.dc,
                dc: self.f.rc,
                rc: self.f.uc,
                // the center abides
                cc: self.f.cc,
            },
            r: LRFace { uf: self.u.fl, fc: self.u.fc, df: self.u.fr, ..self.r },
            l: LRFace { df: self.d.fr, fc: self.d.fc, uf: self.d.fl, ..self.l },
            u: UDFace { fl: self.l.df, fc: self.l.fc, fr: self.l.uf, ..self.u },
            d: UDFace { fl: self.r.df, fc: self.r.fc, fr: self.r.uf, ..self.d },
        }
    }

    proof fn lemma_four_turns(self) {
    }

    proof fn lemma_opposite_turns_commute(self) {
    }
}

} // verus!
