//! The chess rules engine.
//!
//! A position travels as its FEN record, the `fen` field of the state; move
//! generation, legality, position encoding and terminal classification are
//! done by the `chess` crate behind a small set of trusted wrappers.  Each
//! wrapper's contract speaks over `fen_of`, the name of a board's contents
//! as its canonical FEN record, so everything around the calls — the
//! fail-closed fallback to the starting position, the move-token guard, the
//! history and the turn counter — is verified against those contracts.

use vstd::prelude::*;

use crate::Player;
use crate::Winner;

verus! {

use vstd::utf8::is_ascii_chars;

/// The `chess` crate's board: a full position (placement, side to move,
/// castling rights, en-passant target).  Opaque here; read and written only
/// through the trusted wrappers below.
#[verifier::external_type_specification]
#[verifier::external_body]
pub struct ExBoard(chess::Board);

/// What a board holds, serialized: its canonical FEN record, as the `chess`
/// crate's own encoder writes it.
pub uninterp spec fn fen_of(b: chess::Board) -> Seq<char>;

/// Whether `chess::Board::from_str` accepts a record as a valid position.
pub uninterp spec fn fen_parses(f: Seq<char>) -> bool;

/// The canonical FEN of the position parsed from a record that
/// [`fen_parses`] accepts.
pub uninterp spec fn parsed_fen(f: Seq<char>) -> Seq<char>;

/// The UCI tokens of the legal moves of a position, in the order the
/// `chess` crate's `MoveGen` yields them.
pub uninterp spec fn legal_tokens(f: Seq<char>) -> Seq<Seq<char>>;

/// Whether a four- or five-character token parses as a UCI move that is
/// legal in the position.
pub uninterp spec fn token_legal(f: Seq<char>, t: Seq<char>) -> bool;

/// The canonical FEN of the position after playing a legal token.
pub uninterp spec fn next_fen(f: Seq<char>, t: Seq<char>) -> Seq<char>;

/// Whether white — the first player — is to move.
pub uninterp spec fn white_to_move(f: Seq<char>) -> bool;

/// Whether the side to move stands in check.
pub uninterp spec fn in_check(f: Seq<char>) -> bool;

/// The FEN record of the standard starting position.
pub open spec fn start_fen() -> Seq<char> {
    "rnbqkbnr/pppppppp/8/8/8/8/PPPPPPPP/RNBQKBNR w KQkq - 0 1"@
}

/// Terminal classification of a position.
#[derive(Clone, Copy, PartialEq, Eq, Structural, Debug)]
enum GameStatus {
    Ongoing,
    Checkmate,
    Stalemate,
}

/// Relies on `chess::Board::default`: the standard starting position, white
/// to move.
#[verifier::external_body]
fn board_start() -> (b: chess::Board)
    ensures
        fen_of(b) == start_fen(),
        white_to_move(fen_of(b)),
{
    chess::Board::default()
}

/// Relies on `chess::Board`'s `Display` impl (via `ToString`), which writes
/// the position as its FEN record: eight ranks of eight squares with a
/// king of each color (every board here passed the crate's sanity check),
/// and the crate re-reads what it writes, so the record parses back to
/// this very position.
#[verifier::external_body]
fn board_fen(b: &chess::Board) -> (r: String)
    ensures
        r@ == fen_of(*b),
        fen_parses(r@),
        parsed_fen(r@) == r@,
        fen_safe(r@),
{
    b.to_string()
}

/// Whether the placement field of a record — up to the first space — holds
/// a character.
pub open spec fn placement_has(s: Seq<char>, c: char) -> bool
    decreases s.len(),
{
    if s.len() == 0 {
        false
    } else if s[0] == ' ' {
        false
    } else if s[0] == c {
        true
    } else {
        placement_has(s.skip(1), c)
    }
}

/// The number of squares one placement character covers: a digit `1`..`8`
/// covers that many empty squares, a piece letter covers one, anything
/// else has no place in a placement field.
pub open spec fn fen_char_width(c: char) -> Option<int> {
    if '1' <= c && c <= '8' {
        Some(c as int - '0' as int)
    } else if c == 'p' || c == 'n' || c == 'b' || c == 'r' || c == 'q' || c == 'k' || c == 'P'
        || c == 'N' || c == 'B' || c == 'R' || c == 'Q' || c == 'K' {
        Some(1int)
    } else {
        None
    }
}

/// The rest of a placement field is exactly shaped: with `w` squares of
/// the current rank already covered and `rows` ranks still open, every
/// rank covers exactly eight squares and exactly eight ranks are
/// described.
pub open spec fn placement_shape(s: Seq<char>, w: int, rows: int) -> bool
    decreases s.len(),
{
    if s.len() == 0 || s[0] == ' ' {
        w == 8 && rows == 1
    } else if s[0] == '/' {
        w == 8 && rows > 1 && placement_shape(s.skip(1), 0, rows - 1)
    } else if fen_char_width(s[0]) is Some {
        w + fen_char_width(s[0])->0 <= 8 && placement_shape(
            s.skip(1),
            w + fen_char_width(s[0])->0,
            rows,
        )
    } else {
        false
    }
}

/// A record the `chess` crate's parser may be handed: the placement field
/// describes exactly eight ranks of exactly eight squares in valid
/// characters, and names a king of each color.  The crate's builder wraps
/// file indexes — an overlong rank would silently overwrite earlier
/// squares, a king among them — and computes pins from the king squares
/// before its sanity check, so a board missing a king indexes out of
/// bounds.  Under this shape every piece letter keeps its own square and
/// both kings are present.
pub open spec fn fen_safe(s: Seq<char>) -> bool {
    placement_shape(s, 0, 8) && placement_has(s, 'K') && placement_has(s, 'k')
}

fn placement_has_guard(s: &str, c: char) -> (r: bool)
    ensures
        r == placement_has(s@, c),
{
    let n = s.unicode_len();
    let mut i: usize = 0;
    proof {
        assert(s@.skip(0) =~= s@);
    }
    while i < n
        invariant
            n == s@.len(),
            0 <= i <= n,
            placement_has(s@, c) == placement_has(s@.skip(i as int), c),
        decreases n - i,
    {
        let ch = s.get_char(i);
        proof {
            assert(s@.skip(i as int)[0] == s@[i as int]);
            assert(s@.skip(i as int).skip(1) =~= s@.skip(i + 1));
        }
        if ch == ' ' {
            return false;
        }
        if ch == c {
            return true;
        }
        i = i + 1;
    }
    proof {
        assert(s@.skip(n as int) =~= Seq::<char>::empty());
    }
    false
}

fn shape_guard(s: &str) -> (r: bool)
    ensures
        r == placement_shape(s@, 0, 8),
{
    let n = s.unicode_len();
    let mut i: usize = 0;
    let mut w: u8 = 0;
    let mut rows: u8 = 8;
    proof {
        assert(s@.skip(0) =~= s@);
    }
    while i < n
        invariant
            n == s@.len(),
            0 <= i <= n,
            w <= 8,
            1 <= rows <= 8,
            placement_shape(s@, 0, 8) == placement_shape(s@.skip(i as int), w as int, rows as int),
        decreases n - i,
    {
        let ch = s.get_char(i);
        proof {
            assert(s@.skip(i as int)[0] == s@[i as int]);
            assert(s@.skip(i as int).skip(1) =~= s@.skip(i + 1));
        }
        if ch == ' ' {
            return w == 8 && rows == 1;
        }
        if ch == '/' {
            if w != 8 || rows == 1 {
                return false;
            }
            w = 0;
            rows = rows - 1;
        } else {
            let d: u8 = if '1' <= ch && ch <= '8' {
                (ch as u32 - '0' as u32) as u8
            } else if ch == 'p' || ch == 'n' || ch == 'b' || ch == 'r' || ch == 'q' || ch == 'k'
                || ch == 'P' || ch == 'N' || ch == 'B' || ch == 'R' || ch == 'Q' || ch == 'K' {
                1
            } else {
                return false;
            };
            if w + d > 8 {
                return false;
            }
            w = w + d;
        }
        i = i + 1;
    }
    proof {
        assert(s@.skip(n as int) =~= Seq::<char>::empty());
    }
    w == 8 && rows == 1
}

/// Whether a record may be handed to the `chess` crate's parser.
fn fen_guard(s: &str) -> (r: bool)
    ensures
        r == fen_safe(s@),
{
    shape_guard(s) && placement_has_guard(s, 'K') && placement_has_guard(s, 'k')
}

/// Relies on `chess::Board::from_str`, which accepts exactly the records
/// that describe a valid position; the standard start record parses to the
/// starting position.  The caller must have checked [`fen_safe`]: on any
/// other placement the crate's file wrapping or pin bookkeeping misreads
/// or overruns its tables.
#[verifier::external_body]
fn board_from_fen(s: &str) -> (r: Option<chess::Board>)
    requires
        fen_safe(s@),
    ensures
        r is Some <==> fen_parses(s@),
        (r matches Some(b) ==> fen_of(b) == parsed_fen(s@)),
        s@ == start_fen() ==> r is Some,
        s@ == start_fen() ==> (r matches Some(b) ==> fen_of(b) == start_fen()),
{
    <chess::Board as std::str::FromStr>::from_str(s).ok()
}

/// Relies on `chess::MoveGen::new_legal` and `chess::ChessMove`'s `Display`
/// impl: the UCI tokens of exactly the legal moves of the position.  Each
/// token is four or five ASCII characters, the tokens are pairwise
/// distinct, and a well-formed token outside this list is not legal here.
#[verifier::external_body]
fn board_legal_tokens(b: &chess::Board) -> (r: Vec<String>)
    ensures
        crate::history(r@) == legal_tokens(fen_of(*b)),
        forall|i: int|
            0 <= i < r@.len() ==> ((#[trigger] r@[i])@.len() == 4 || r@[i]@.len() == 5)
                && is_ascii_chars(r@[i]@) && token_legal(fen_of(*b), r@[i]@),
        forall|t: Seq<char>| token_legal(fen_of(*b), t) ==> crate::history(r@).contains(t),
        forall|i: int, j: int| 0 <= i < j < r@.len() ==> (#[trigger] r@[i])@ != (#[trigger] r@[j])@,
{
    chess::MoveGen::new_legal(b).map(|m| m.to_string()).collect()
}

/// Relies on `chess::ChessMove::from_str`, `chess::Board::legal` and
/// `chess::Board::make_move_new`: the result is the position after the move
/// exactly when the token parses as a UCI move that is legal here, and
/// nothing otherwise.  `legal` admits only generated moves, which never
/// capture a king, so `make_move_new` cannot panic; making a move hands the
/// turn to the other side.  The token must be ASCII: `from_str` slices by
/// bytes, so only then do its four- or five-byte cases line up with the
/// token's characters.
#[verifier::external_body]
fn board_try_move(b: &chess::Board, tok: &str) -> (r: Option<chess::Board>)
    requires
        tok@.len() == 4 || tok@.len() == 5,
        is_ascii_chars(tok@),
    ensures
        r is Some <==> token_legal(fen_of(*b), tok@),
        (r matches Some(nb) ==> fen_of(nb) == next_fen(fen_of(*b), tok@) && white_to_move(
            fen_of(nb),
        ) == !white_to_move(fen_of(*b))),
{
    match <chess::ChessMove as std::str::FromStr>::from_str(tok) {
        Ok(m) if b.legal(m) => Some(b.make_move_new(m)),
        _ => None,
    }
}

/// Relies on `chess::Board::checkers` and `chess::BitBoard::popcnt`: the
/// number of pieces giving check to the side to move, positive exactly when
/// that side stands in check.
#[verifier::external_body]
fn board_checkers(b: &chess::Board) -> (r: u32)
    ensures
        (r > 0) == in_check(fen_of(*b)),
{
    b.checkers().popcnt()
}

/// Relies on `chess::Board::side_to_move`; the starting position has white
/// to move.
#[verifier::external_body]
fn board_white_to_move(b: &chess::Board) -> (r: bool)
    ensures
        r == white_to_move(fen_of(*b)),
        fen_of(*b) == start_fen() ==> r,
{
    b.side_to_move() == chess::Color::White
}

/// Relies on `chess::Board::status`, whose source classifies the position
/// by exactly these two tests: whether any legal move is left, and whether
/// the side to move stands in check.
#[verifier::external_body]
fn board_status(b: &chess::Board) -> (r: GameStatus)
    ensures
        (r == GameStatus::Ongoing) <==> legal_tokens(fen_of(*b)).len() > 0,
        (r == GameStatus::Checkmate) <==> (legal_tokens(fen_of(*b)).len() == 0 && in_check(
            fen_of(*b),
        )),
        (r == GameStatus::Stalemate) <==> (legal_tokens(fen_of(*b)).len() == 0 && !in_check(
            fen_of(*b),
        )),
{
    match b.status() {
        chess::BoardStatus::Ongoing => GameStatus::Ongoing,
        chess::BoardStatus::Checkmate => GameStatus::Checkmate,
        chess::BoardStatus::Stalemate => GameStatus::Stalemate,
    }
}

/// One chess game state: the position as a FEN record, the tokens of the
/// moves played, and how many there were.  The current player, check and
/// the winner are always recomputed from the position.
#[derive(Clone)]
pub struct ChessState {
    pub fen: String,
    pub moves: Vec<String>,
    pub move_count: u32,
}

impl ChessState {
    /// The position this state denotes: the one its record describes, or
    /// the starting position when the record is not valid (the fail-closed
    /// policy — a malformed snapshot never raises an error).
    pub open spec fn pos(self) -> Seq<char> {
        if fen_safe(self.fen@) && fen_parses(self.fen@) {
            parsed_fen(self.fen@)
        } else {
            start_fen()
        }
    }

    /// States the engine itself produces: the record is canonical (so
    /// [`Self::pos`] is the record itself) and the side to move matches the
    /// parity of the move counter.
    pub open spec fn wf(self) -> bool {
        &&& fen_safe(self.fen@)
        &&& fen_parses(self.fen@)
        &&& parsed_fen(self.fen@) == self.fen@
        &&& white_to_move(self.fen@) == (self.move_count % 2 == 0)
    }
}

/// Whether `apply_move` plays a token on a state: the token must have the
/// four or five ASCII characters of a UCI move and be legal in the
/// position.
pub open spec fn move_accepted(st: ChessState, t: Seq<char>) -> bool {
    (t.len() == 4 || t.len() == 5) && is_ascii_chars(t) && token_legal(st.pos(), t)
}

/// The position a state denotes, loaded fail-closed: an unparseable record
/// falls back to the starting position.
fn load_board(st: &ChessState) -> (b: chess::Board)
    ensures
        fen_of(b) == st.pos(),
{
    if fen_guard(st.fen.as_str()) {
        match board_from_fen(st.fen.as_str()) {
            Some(b) => b,
            None => board_start(),
        }
    } else {
        board_start()
    }
}

/// The canonical starting state: the standard position, no moves played,
/// the first player (white) to move.
pub fn get_initial_state() -> (st: ChessState)
    ensures
        st.wf(),
        st.fen@ == start_fen(),
        st.moves@.len() == 0,
        st.move_count == 0,
{
    let b = board_start();
    let fen = board_fen(&b);
    ChessState { fen, moves: Vec::new(), move_count: 0 }
}

/// Loads a position from a FEN record, fail-closed: a record that does not
/// describe a valid position yields the canonical starting state instead of
/// an error.  A valid record is stored in its canonical re-encoding, with
/// an empty history and the move counter at the parity of the side to move,
/// so decoding the encoding of the initial state restores the initial
/// state.
pub fn state_from_fen(s: &str) -> (st: ChessState)
    ensures
        st.wf(),
        fen_safe(s@) && fen_parses(s@) ==> st.fen@ == parsed_fen(s@),
        !(fen_safe(s@) && fen_parses(s@)) ==> st.fen@ == start_fen(),
        s@ == start_fen() ==> st.fen@ == start_fen() && st.move_count == 0,
        st.move_count <= 1,
        st.moves@.len() == 0,
{
    let b = if fen_guard(s) {
        match board_from_fen(s) {
            Some(b) => b,
            None => board_start(),
        }
    } else {
        board_start()
    };
    let fen = board_fen(&b);
    let mc: u32 = if board_white_to_move(&b) {
        0
    } else {
        1
    };
    ChessState { fen, moves: Vec::new(), move_count: mc }
}

/// The position of a state as a FEN record.
pub fn get_fen(st: &ChessState) -> (r: String)
    ensures
        r@ == st.fen@,
{
    st.fen.clone()
}

/// The player to move, recomputed from the position; on the engine's own
/// states this is the first player exactly after an even number of moves.
pub fn get_current_player(st: &ChessState) -> (r: Player)
    ensures
        r == (if white_to_move(st.pos()) {
            Player::One
        } else {
            Player::Two
        }),
        st.wf() ==> r == (if st.move_count % 2 == 0 {
            Player::One
        } else {
            Player::Two
        }),
{
    let b = load_board(st);
    if board_white_to_move(&b) {
        Player::One
    } else {
        Player::Two
    }
}

/// Lists the legal move tokens of a state, in generation order: pairwise
/// distinct, each accepted by `apply_move`, and jointly exhaustive — a
/// token outside this list is never played.
pub fn get_valid_moves(st: &ChessState) -> (r: Vec<String>)
    ensures
        crate::history(r@) == legal_tokens(st.pos()),
        forall|i: int|
            0 <= i < r@.len() ==> ((#[trigger] r@[i])@.len() == 4 || r@[i]@.len() == 5)
                && is_ascii_chars(r@[i]@) && token_legal(st.pos(), r@[i]@),
        forall|t: Seq<char>| token_legal(st.pos(), t) ==> legal_tokens(st.pos()).contains(t),
        forall|i: int, j: int| 0 <= i < j < r@.len() ==> (#[trigger] r@[i])@ != (#[trigger] r@[j])@,
{
    let b = load_board(st);
    board_legal_tokens(&b)
}

/// Applies a UCI move token.  An accepted token advances the position,
/// appends itself to the history and bumps the counter; a malformed or
/// illegal token returns the input state unchanged, with no error raised.
pub fn apply_move(st: ChessState, tok: &str) -> (r: ChessState)
    requires
        st.move_count < 0xffff_ffffu32,
    ensures
        !move_accepted(st, tok@) ==> r == st,
        move_accepted(st, tok@) ==> r.fen@ == next_fen(st.pos(), tok@) && crate::history(r.moves@)
            == crate::history(st.moves@).push(tok@) && r.move_count == st.move_count + 1 && (st.wf()
            ==> r.wf()),
{
    let n = tok.unicode_len();
    if (n != 4 && n != 5) || !tok.is_ascii() {
        return st;
    }
    let b = load_board(&st);
    match board_try_move(&b, tok) {
        None => st,
        Some(nb) => {
            let fen = board_fen(&nb);
            let ghost old_moves = st.moves@;
            let mut st2 = st;
            st2.fen = fen;
            st2.moves.push(tok.to_owned());
            st2.move_count = st2.move_count + 1;
            proof {
                assert(crate::history(st2.moves@) =~= crate::history(old_moves).push(tok@));
            }
            st2
        },
    }
}

/// Whether the game is over: no legal move is left (checkmate or
/// stalemate).
pub fn is_game_over(st: &ChessState) -> (r: bool)
    ensures
        r == (legal_tokens(st.pos()).len() == 0),
{
    let b = load_board(st);
    let s = board_status(&b);
    !matches!(s, GameStatus::Ongoing)
}

/// The outcome a terminal position awards: on checkmate the side that just
/// moved wins (the mated side is to move), stalemate is a draw, and a
/// position with moves left is undecided.
pub open spec fn chess_winner(f: Seq<char>) -> Winner {
    if legal_tokens(f).len() == 0 && in_check(f) {
        if white_to_move(f) {
            Winner::Wins(Player::Two)
        } else {
            Winner::Wins(Player::One)
        }
    } else if legal_tokens(f).len() == 0 {
        Winner::Draw
    } else {
        Winner::Undecided
    }
}

/// The winner of a state, recomputed from the position.
pub fn get_winner(st: &ChessState) -> (r: Winner)
    ensures
        r == chess_winner(st.pos()),
{
    let b = load_board(st);
    match board_status(&b) {
        GameStatus::Checkmate => {
            if board_white_to_move(&b) {
                Winner::Wins(Player::Two)
            } else {
                Winner::Wins(Player::One)
            }
        },
        GameStatus::Stalemate => Winner::Draw,
        GameStatus::Ongoing => Winner::Undecided,
    }
}

/// Whether the side to move stands in check.
pub fn is_check(st: &ChessState) -> (r: bool)
    ensures
        r == in_check(st.pos()),
{
    let b = load_board(st);
    board_checkers(&b) > 0
}

/// Whether the position is checkmate: no legal move and in check.
pub fn is_checkmate(st: &ChessState) -> (r: bool)
    ensures
        r == (legal_tokens(st.pos()).len() == 0 && in_check(st.pos())),
{
    let b = load_board(st);
    matches!(board_status(&b), GameStatus::Checkmate)
}

/// Whether the position is stalemate: no legal move and not in check.
pub fn is_stalemate(st: &ChessState) -> (r: bool)
    ensures
        r == (legal_tokens(st.pos()).len() == 0 && !in_check(st.pos())),
{
    let b = load_board(st);
    matches!(board_status(&b), GameStatus::Stalemate)
}

/// A move token already is its UCI form: the identity pass-through.
pub fn get_move_uci(tok: String) -> (r: String)
    ensures
        r == tok,
{
    tok
}

/// The numeric value of a FEN digit character.
pub open spec fn fen_digit(c: char) -> int {
    c as int - '0' as int
}

/// A run of empty-square markers.
pub open spec fn dots(k: int) -> Seq<char> {
    Seq::new(
        if k < 0 {
            0
        } else {
            k as nat
        },
        |i: int| '.',
    )
}

/// Expands the placement field of a FEN record into one character per
/// square, top rank first: digits become that many empty squares, rank
/// separators vanish, and the field ends at the first space.
pub open spec fn expand_placement(s: Seq<char>) -> Seq<char>
    decreases s.len(),
{
    if s.len() == 0 {
        Seq::empty()
    } else if s[0] == ' ' {
        Seq::empty()
    } else if s[0] == '/' {
        expand_placement(s.skip(1))
    } else if '1' <= s[0] && s[0] <= '8' {
        dots(fen_digit(s[0])) + expand_placement(s.skip(1))
    } else {
        seq![s[0]] + expand_placement(s.skip(1))
    }
}

/// The 64 squares a record describes; anything that does not expand to
/// exactly 64 squares (impossible for a record the `chess` crate wrote)
/// shows as an empty board.
pub open spec fn board_cells(f: Seq<char>) -> Seq<char> {
    if expand_placement(f).len() == 64 {
        expand_placement(f)
    } else {
        dots(64)
    }
}

/// The first `k` squares of one diagram row, each followed by a space.
pub open spec fn row_cells(cells: Seq<char>, r: int, k: int) -> Seq<char>
    decreases k,
{
    if k <= 0 {
        Seq::empty()
    } else {
        row_cells(cells, r, k - 1) + seq![cells[8 * r + k - 1], ' ']
    }
}

/// One diagram row: the rank number on both margins around its squares.
pub open spec fn chess_row_text(cells: Seq<char>, r: int) -> Seq<char> {
    seq![crate::dec_digit(8 - r), ' '] + row_cells(cells, r, 8) + seq![' ', crate::dec_digit(8 - r), '\n']
}

/// The first `n` diagram rows, top rank first.
pub open spec fn rows_upto(cells: Seq<char>, n: int) -> Seq<char>
    decreases n,
{
    if n <= 0 {
        Seq::empty()
    } else {
        rows_upto(cells, n - 1) + chess_row_text(cells, n - 1)
    }
}

/// The fixed-width board diagram of a position: file letters above and
/// below, one row per rank from the eighth down.
pub open spec fn render_text(f: Seq<char>) -> Seq<char> {
    "  a b c d e f g h\n"@ + rows_upto(board_cells(f), 8) + "  a b c d e f g h\n"@
}

/// Reads the placement field of a FEN record into one character per
/// square.
fn extract_cells(fen: &str) -> (cells: Vec<char>)
    ensures
        cells@ == expand_placement(fen@),
{
    let n = fen.unicode_len();
    let mut cells: Vec<char> = Vec::new();
    let mut i: usize = 0;
    let mut stop = false;
    proof {
        assert(fen@.skip(0) =~= fen@);
    }
    while i < n && !stop
        invariant
            n == fen@.len(),
            0 <= i <= n,
            !stop ==> cells@ + expand_placement(fen@.skip(i as int)) == expand_placement(fen@),
            stop ==> cells@ == expand_placement(fen@),
        decreases n - i, (if stop {
            0int
        } else {
            1int
        }),
    {
        let c = fen.get_char(i);
        proof {
            assert(fen@.skip(i as int)[0] == fen@[i as int]);
            assert(fen@.skip(i as int).skip(1) =~= fen@.skip(i + 1));
        }
        if c == ' ' {
            stop = true;
        } else if c == '/' {
            i = i + 1;
        } else if '1' <= c && c <= '8' {
            let k = (c as u32 - '0' as u32) as usize;
            let ghost base = cells@;
            let mut j: usize = 0;
            while j < k
                invariant
                    0 <= j <= k,
                    cells@ == base + dots(j as int),
                decreases k - j,
            {
                cells.push('.');
                proof {
                    assert(cells@ =~= base + dots(j + 1));
                }
                j = j + 1;
            }
            proof {
                assert(base + dots(k as int) + expand_placement(fen@.skip(i + 1)) =~= base
                    + (dots(k as int) + expand_placement(fen@.skip(i + 1))));
            }
            i = i + 1;
        } else {
            let ghost base = cells@;
            cells.push(c);
            proof {
                assert(base + seq![c] + expand_placement(fen@.skip(i + 1)) =~= base + (seq![c]
                    + expand_placement(fen@.skip(i + 1))));
            }
            i = i + 1;
        }
    }
    proof {
        if !stop {
            assert(fen@.skip(n as int) =~= Seq::empty());
        }
    }
    cells
}

/// A fixed-width diagram of the position a state denotes, faithful to its
/// squares and nothing more: formatting only.
pub fn render(st: &ChessState) -> (r: String)
    ensures
        r@ == render_text(st.pos()),
{
    let b = load_board(st);
    let fen = board_fen(&b);
    let parsed = extract_cells(fen.as_str());
    let cells: Vec<char> = if parsed.len() == 64 {
        parsed
    } else {
        let mut empty: Vec<char> = Vec::new();
        let mut j: usize = 0;
        while j < 64
            invariant
                0 <= j <= 64,
                empty@ == dots(j as int),
            decreases 64 - j,
        {
            empty.push('.');
            proof {
                assert(empty@ =~= dots(j + 1));
            }
            j = j + 1;
        }
        empty
    };
    let mut out = String::new();
    proof {
        reveal_strlit(" ");
        reveal_strlit("\n");
    }
    out.append("  a b c d e f g h\n");
    let ghost header = "  a b c d e f g h\n"@;
    let mut row: usize = 0;
    while row < 8
        invariant
            cells@ == board_cells(st.pos()),
            cells@.len() == 64,
            0 <= row <= 8,
            out@ == header + rows_upto(cells@, row as int),
        decreases 8 - row,
    {
        out.append(crate::dec_digit_str((8 - row) as u8));
        out.append(" ");
        let ghost row_base = out@;
        let mut f: usize = 0;
        while f < 8
            invariant
                cells@.len() == 64,
                0 <= row < 8,
                0 <= f <= 8,
                out@ == row_base + row_cells(cells@, row as int, f as int),
            decreases 8 - f,
        {
            crate::push_char(&mut out, cells[8 * row + f]);
            out.append(" ");
            proof {
                reveal_strlit(" ");
                assert(out@ =~= row_base + row_cells(cells@, row as int, f + 1));
            }
            f = f + 1;
        }
        out.append(" ");
        out.append(crate::dec_digit_str((8 - row) as u8));
        out.append("\n");
        proof {
            reveal_strlit(" ");
            reveal_strlit("\n");
            assert(out@ =~= header + rows_upto(cells@, row + 1));
        }
        row = row + 1;
    }
    out.append("  a b c d e f g h\n");
    proof {
        assert(out@ =~= render_text(st.pos()));
    }
    out
}

/// A run of spaces.
pub open spec fn spaces(k: int) -> Seq<char>
    decreases k,
{
    if k <= 0 {
        Seq::empty()
    } else {
        spaces(k - 1) + " "@
    }
}

/// A token padded with spaces to the six-column grid cell.
pub open spec fn pad6(t: Seq<char>) -> Seq<char> {
    t + spaces(6 - t.len())
}

/// The first `n` history lines: each move numbered from one, one per line.
pub open spec fn move_lines(ms: Seq<Seq<char>>, n: int) -> Seq<char>
    decreases n,
{
    if n <= 0 {
        Seq::empty()
    } else {
        move_lines(ms, n - 1) + "  "@ + crate::dec_str(n) + ". "@ + ms[n - 1] + "\n"@
    }
}

/// The first `n` legal tokens laid out eight to a row in six-wide columns.
pub open spec fn token_grid(ms: Seq<Seq<char>>, n: int) -> Seq<char>
    decreases n,
{
    if n <= 0 {
        Seq::empty()
    } else {
        token_grid(ms, n - 1) + (if (n - 1) % 8 == 0 {
            "  "@
        } else {
            Seq::empty()
        }) + pad6(ms[n - 1]) + (if n % 8 == 0 {
            "\n"@
        } else {
            Seq::empty()
        })
    }
}

/// The debug dump of a state: the counter, the record, the player to move,
/// the numbered history, and the legal tokens of the position with their
/// count.
pub open spec fn transcript_text(st: ChessState) -> Seq<char> {
    "=== CHESS GAME TRANSCRIPT ===\n"@ + "Move count: "@ + crate::dec_str(st.move_count as int)
        + "\n"@ + "Current FEN: "@ + st.fen@ + "\n"@ + "Current player: "@ + (if white_to_move(
        st.pos(),
    ) {
        "player1"@
    } else {
        "player2"@
    }) + "\n"@ + "Moves played:\n"@ + move_lines(
        crate::history(st.moves@),
        st.moves@.len() as int,
    ) + "Valid moves ("@ + crate::dec_str(legal_tokens(st.pos()).len() as int) + "):\n"@
        + token_grid(legal_tokens(st.pos()), legal_tokens(st.pos()).len() as int) + (if legal_tokens(
        st.pos(),
    ).len() % 8 != 0 {
        "\n"@
    } else {
        Seq::empty()
    }) + "==============================\n"@
}

/// Emits one cell of the token grid: a row indent every eighth token, the
/// token padded to six columns, a line break after every eighth.
#[verifier::rlimit(50)]
fn append_grid_cell(out: &mut String, t: &str, i: usize)
    requires
        i < usize::MAX,
    ensures
        final(out)@ == old(out)@ + (if (i as int) % 8 == 0 {
            "  "@
        } else {
            Seq::<char>::empty()
        }) + pad6(t@) + (if ((i + 1) as int) % 8 == 0 {
            "\n"@
        } else {
            Seq::<char>::empty()
        }),
{
    if i % 8 == 0 {
        out.append("  ");
    }
    out.append(t);
    let ghost pad_base = out@;
    let w0 = t.unicode_len();
    let mut w = w0;
    while w < 6
        invariant
            w0 <= w,
            w0 < 6 ==> w <= 6,
            w0 >= 6 ==> w == w0,
            out@ == pad_base + spaces(w - w0),
        decreases 6 - w,
    {
        out.append(" ");
        proof {
            assert(out@ =~= pad_base + spaces(w + 1 - w0));
        }
        w = w + 1;
    }
    proof {
        if w0 >= 6 {
            assert(spaces(w - w0) =~= spaces(6 - t@.len()));
        }
        assert(out@ =~= old(out)@ + (if (i as int) % 8 == 0 {
            "  "@
        } else {
            Seq::<char>::empty()
        }) + pad6(t@));
    }
    if (i + 1) % 8 == 0 {
        out.append("\n");
    }
    proof {
        assert(out@ =~= old(out)@ + (if (i as int) % 8 == 0 {
            "  "@
        } else {
            Seq::<char>::empty()
        }) + pad6(t@) + (if ((i + 1) as int) % 8 == 0 {
            "\n"@
        } else {
            Seq::<char>::empty()
        }));
    }
}

/// A debug dump of a state, faithful to [`transcript_text`]: formatting
/// only, it decides nothing and changes nothing.
#[verifier::rlimit(50)]
pub fn log_transcript(st: &ChessState) -> (r: String)
    ensures
        r@ == transcript_text(*st),
{
    let mut out = String::new();
    out.append("=== CHESS GAME TRANSCRIPT ===\n");
    out.append("Move count: ");
    let mc = crate::u32_dec(st.move_count);
    out.append(mc.as_str());
    out.append("\n");
    out.append("Current FEN: ");
    out.append(st.fen.as_str());
    out.append("\n");
    out.append("Current player: ");
    let p = get_current_player(st).label();
    out.append(p.as_str());
    out.append("\n");
    out.append("Moves played:\n");
    let ghost hist_base = out@;
    let mut i: usize = 0;
    while i < st.moves.len()
        invariant
            i <= st.moves@.len(),
            out@ == hist_base + move_lines(crate::history(st.moves@), i as int),
        decreases st.moves@.len() - i,
    {
        out.append("  ");
        let num = crate::usize_dec(i + 1);
        out.append(num.as_str());
        out.append(". ");
        out.append(st.moves[i].as_str());
        out.append("\n");
        proof {
            assert(crate::history(st.moves@)[i as int] == st.moves@[i as int]@);
            assert(out@ =~= hist_base + move_lines(crate::history(st.moves@), i + 1));
        }
        i = i + 1;
    }
    let mv = get_valid_moves(st);
    out.append("Valid moves (");
    let num = crate::usize_dec(mv.len());
    out.append(num.as_str());
    out.append("):\n");
    let ghost grid_base = out@;
    let mut i: usize = 0;
    while i < mv.len()
        invariant
            i <= mv@.len(),
            crate::history(mv@) == legal_tokens(st.pos()),
            out@ == grid_base + token_grid(crate::history(mv@), i as int),
        decreases mv@.len() - i,
    {
        append_grid_cell(&mut out, mv[i].as_str(), i);
        proof {
            assert(crate::history(mv@)[i as int] == mv@[i as int]@);
            assert(out@ =~= grid_base + token_grid(crate::history(mv@), i + 1));
        }
        i = i + 1;
    }
    if mv.len() % 8 != 0 {
        out.append("\n");
    }
    out.append("==============================\n");
    proof {
        assert(out@ =~= transcript_text(*st));
    }
    out
}

pub fn get_game_name() -> (r: String)
    ensures
        r@ == "Chess"@,
{
    "Chess".to_owned()
}

pub fn get_game_description() -> (r: String)
    ensures
        r@ == "Classic chess game with full rules"@,
{
    "Classic chess game with full rules".to_owned()
}

} // verus!
