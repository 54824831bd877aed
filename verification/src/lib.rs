//! Rules engines for two turn-based, two-player, perfect-information board
//! games: chess and tic-tac-toe.
//!
//! Each engine works on an explicit, immutable state value: it produces the
//! starting state, lists the legal move tokens of a state, applies a token
//! (returning the input unchanged when the token is malformed or illegal),
//! classifies terminal states and reports the winner.  The chess engine
//! drives the `chess` crate for move generation and position encoding; the
//! tic-tac-toe engine is self-contained.

use vstd::prelude::*;

pub mod chess_engine;
pub mod tictactoe;

verus! {

/// The views of a sequence of strings, e.g. a move history or a token
/// list, as the sequences of characters they hold.
pub open spec fn history(v: Seq<String>) -> Seq<Seq<char>> {
    v.map_values(|s: String| s@)
}

/// One of the two players.  The first player moves first from the initial
/// state of either game (white in chess, the `X` marker in tic-tac-toe).
#[derive(Clone, Copy, PartialEq, Eq, Structural, Debug)]
pub enum Player {
    One,
    Two,
}

/// The outcome reported for a state: still undecided, a draw, or a win for
/// one player.
#[derive(Clone, Copy, PartialEq, Eq, Structural, Debug)]
pub enum Winner {
    Undecided,
    Draw,
    Wins(Player),
}

impl Player {
    /// The wire label of the player: `"player1"` or `"player2"`.
    pub open spec fn spec_label(self) -> Seq<char> {
        match self {
            Player::One => "player1"@,
            Player::Two => "player2"@,
        }
    }

    pub fn label(self) -> (r: String)
        ensures
            r@ == self.spec_label(),
    {
        match self {
            Player::One => "player1".to_owned(),
            Player::Two => "player2".to_owned(),
        }
    }
}

/// The character of one decimal digit value.
pub open spec fn dec_digit(d: int) -> char {
    if d == 0 {
        '0'
    } else if d == 1 {
        '1'
    } else if d == 2 {
        '2'
    } else if d == 3 {
        '3'
    } else if d == 4 {
        '4'
    } else if d == 5 {
        '5'
    } else if d == 6 {
        '6'
    } else if d == 7 {
        '7'
    } else if d == 8 {
        '8'
    } else {
        '9'
    }
}

/// The decimal digits of a positive number, empty for zero.
pub open spec fn dec_rec(n: int) -> Seq<char>
    decreases n,
{
    if n <= 0 {
        Seq::empty()
    } else {
        dec_rec(n / 10) + seq![dec_digit(n % 10)]
    }
}

/// The decimal rendering of a non-negative number.
pub open spec fn dec_str(n: int) -> Seq<char> {
    if n == 0 {
        seq!['0']
    } else {
        dec_rec(n)
    }
}

/// The digits collected while peeling a number from the right, read back
/// most-significant first.
spec fn rev_digits(ds: Seq<u8>) -> Seq<char> {
    Seq::new(ds.len(), |i: int| dec_digit(ds[ds.len() - 1 - i] as int))
}

pub(crate) fn dec_digit_str(d: u8) -> (r: &'static str)
    requires
        d < 10,
    ensures
        r@ == seq![dec_digit(d as int)],
{
    proof {
        reveal_strlit("0");
        reveal_strlit("1");
        reveal_strlit("2");
        reveal_strlit("3");
        reveal_strlit("4");
        reveal_strlit("5");
        reveal_strlit("6");
        reveal_strlit("7");
        reveal_strlit("8");
        reveal_strlit("9");
    }
    let r = if d == 0 {
        "0"
    } else if d == 1 {
        "1"
    } else if d == 2 {
        "2"
    } else if d == 3 {
        "3"
    } else if d == 4 {
        "4"
    } else if d == 5 {
        "5"
    } else if d == 6 {
        "6"
    } else if d == 7 {
        "7"
    } else if d == 8 {
        "8"
    } else {
        "9"
    };
    proof {
        assert(r@ =~= seq![dec_digit(d as int)]);
    }
    r
}

/// Renders a number in decimal.
pub fn u32_dec(n: u32) -> (r: String)
    ensures
        r@ == dec_str(n as int),
{
    usize_dec(n as usize)
}

/// Renders a number in decimal.
pub fn usize_dec(n: usize) -> (r: String)
    ensures
        r@ == dec_str(n as int),
{
    if n == 0 {
        let r = "0".to_owned();
        proof {
            reveal_strlit("0");
            assert(r@ =~= dec_str(0));
        }
        return r;
    }
    let mut ds: Vec<u8> = Vec::new();
    let mut m = n;
    while m > 0
        invariant
            dec_rec(n as int) == dec_rec(m as int) + rev_digits(ds@),
            m == 0 ==> ds@.len() > 0,
            forall|i: int| 0 <= i < ds@.len() ==> ds@[i] < 10,
        decreases m,
    {
        let d = (m % 10) as u8;
        let ghost prev = ds@;
        ds.push(d);
        m = m / 10;
        proof {
            assert(rev_digits(ds@) =~= seq![dec_digit(d as int)] + rev_digits(prev));
            assert(dec_rec(n as int) == dec_rec(m as int) + rev_digits(ds@));
        }
    }
    let mut r = String::new();
    let k = ds.len();
    let mut i: usize = 0;
    while i < k
        invariant
            k == ds@.len(),
            0 <= i <= k,
            forall|j: int| 0 <= j < ds@.len() ==> ds@[j] < 10,
            r@ == rev_digits(ds@).take(i as int),
        decreases k - i,
    {
        r.append(dec_digit_str(ds[k - 1 - i]));
        proof {
            assert(r@ =~= rev_digits(ds@).take(i + 1));
        }
        i = i + 1;
    }
    proof {
        assert(r@ =~= dec_str(n as int));
    }
    r
}

/// Relies on std's `String::push`: appends one character.
#[verifier::external_body]
pub(crate) fn push_char(s: &mut String, c: char)
    ensures
        final(s)@ == old(s)@ + seq![c],
{
    s.push(c);
}

impl Winner {
    /// The wire label of the outcome: `""`, `"draw"`, `"player1"` or
    /// `"player2"`.
    pub open spec fn spec_label(self) -> Seq<char> {
        match self {
            Winner::Undecided => ""@,
            Winner::Draw => "draw"@,
            Winner::Wins(p) => p.spec_label(),
        }
    }

    pub fn label(self) -> (r: String)
        ensures
            r@ == self.spec_label(),
    {
        match self {
            Winner::Undecided => "".to_owned(),
            Winner::Draw => "draw".to_owned(),
            Winner::Wins(p) => p.label(),
        }
    }
}

} // verus!
