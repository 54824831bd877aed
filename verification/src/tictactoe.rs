//! The tic-tac-toe rules engine.
//!
//! A grid is nine cells in row-major order; a cell holds `0` (empty), `1`
//! (the first player's mark) or `2` (the second player's).  A state couples
//! a grid with the number of moves applied so far; the current player and
//! the winner are always recomputed from the grid, never stored.

use vstd::prelude::*;

use crate::Player;
use crate::Winner;

verus! {

/// A well-formed grid: nine cells, each empty or one player's mark.
pub open spec fn grid_wf(g: Seq<u8>) -> bool {
    g.len() == 9 && forall|i: int| 0 <= i < 9 ==> g[i] <= 2
}

/// The empty grid.
pub open spec fn empty_grid() -> Seq<u8> {
    Seq::new(9, |i: int| 0u8)
}

/// The number of marks among the first `n` cells.
pub open spec fn marks_upto(g: Seq<u8>, n: int) -> int
    decreases n,
{
    if n <= 0 {
        0
    } else {
        marks_upto(g, n - 1) + if g[n - 1] != 0 {
            1int
        } else {
            0int
        }
    }
}

/// The number of marks on the grid.
pub open spec fn marks(g: Seq<u8>) -> int {
    marks_upto(g, 9)
}

/// Cells `a`, `b` and `c` hold three equal, non-empty marks.
pub open spec fn line_win(g: Seq<u8>, a: int, b: int, c: int) -> bool {
    g[a] != 0 && g[a] == g[b] && g[b] == g[c]
}

/// Every cell is filled.
pub open spec fn full(g: Seq<u8>) -> bool {
    forall|i: int| 0 <= i < 9 ==> g[i] != 0
}

/// The player owning mark `m` (`1` or `2`) as a winner.
pub open spec fn mark_winner(m: u8) -> Winner {
    if m == 1 {
        Winner::Wins(Player::One)
    } else {
        Winner::Wins(Player::Two)
    }
}

/// The outcome of a grid: the three rows, the three columns and the two
/// diagonals are checked in that order for three identical non-empty marks;
/// absent a line win, a full grid is a draw and anything else is undecided.
pub open spec fn winner_of(g: Seq<u8>) -> Winner {
    if line_win(g, 0, 1, 2) {
        mark_winner(g[0])
    } else if line_win(g, 3, 4, 5) {
        mark_winner(g[3])
    } else if line_win(g, 6, 7, 8) {
        mark_winner(g[6])
    } else if line_win(g, 0, 3, 6) {
        mark_winner(g[0])
    } else if line_win(g, 1, 4, 7) {
        mark_winner(g[1])
    } else if line_win(g, 2, 5, 8) {
        mark_winner(g[2])
    } else if line_win(g, 0, 4, 8) {
        mark_winner(g[0])
    } else if line_win(g, 2, 4, 6) {
        mark_winner(g[2])
    } else if full(g) {
        Winner::Draw
    } else {
        Winner::Undecided
    }
}

/// One tic-tac-toe position: the grid and the number of moves applied to
/// reach it.  The current player and the winner are projections of these
/// two fields.
#[derive(Clone)]
pub struct TttState {
    pub board: Vec<u8>,
    pub move_count: u32,
}

impl TttState {
    /// The state invariant: the grid is well formed and the move counter
    /// equals the number of marks, so the counter can never drift from the
    /// grid it summarizes.
    pub open spec fn wf(self) -> bool {
        grid_wf(self.board@) && self.move_count == marks(self.board@)
    }

    /// The mark the player to move would place.
    pub open spec fn next_mark(self) -> u8 {
        if self.move_count % 2 == 0 {
            1u8
        } else {
            2u8
        }
    }
}

/// The number of marks never exceeds the number of cells counted.
proof fn lemma_marks_bound(g: Seq<u8>, n: int)
    requires
        0 <= n,
    ensures
        0 <= marks_upto(g, n) <= n,
    decreases n,
{
    if n > 0 {
        lemma_marks_bound(g, n - 1);
    }
}

/// Marking one empty cell raises the mark count by exactly one.
proof fn lemma_marks_update(g: Seq<u8>, i: int, m: u8, n: int)
    requires
        0 <= i < n <= g.len(),
        g[i] == 0,
        m != 0,
    ensures
        marks_upto(g.update(i, m), n) == marks_upto(g, n) + 1,
    decreases n,
{
    if i < n - 1 {
        lemma_marks_update(g, i, m, n - 1);
        assert(g.update(i, m)[n - 1] == g[n - 1]);
    } else {
        lemma_marks_agree(g, g.update(i, m), n - 1);
    }
}

/// Grids that agree on the first `n` cells count the same marks there.
proof fn lemma_marks_agree(g1: Seq<u8>, g2: Seq<u8>, n: int)
    requires
        forall|j: int| 0 <= j < n ==> g1[j] == g2[j],
    ensures
        marks_upto(g1, n) == marks_upto(g2, n),
    decreases n,
{
    if n > 0 {
        lemma_marks_agree(g1, g2, n - 1);
    }
}

/// The winner of a grid, scanning the eight lines in the fixed order that
/// [`winner_of`] states.
pub fn check_winner(board: &Vec<u8>) -> (r: Winner)
    requires
        grid_wf(board@),
    ensures
        r == winner_of(board@),
{
    let b = board;
    if b[0] != 0 && b[0] == b[1] && b[1] == b[2] {
        mark_label(b[0])
    } else if b[3] != 0 && b[3] == b[4] && b[4] == b[5] {
        mark_label(b[3])
    } else if b[6] != 0 && b[6] == b[7] && b[7] == b[8] {
        mark_label(b[6])
    } else if b[0] != 0 && b[0] == b[3] && b[3] == b[6] {
        mark_label(b[0])
    } else if b[1] != 0 && b[1] == b[4] && b[4] == b[7] {
        mark_label(b[1])
    } else if b[2] != 0 && b[2] == b[5] && b[5] == b[8] {
        mark_label(b[2])
    } else if b[0] != 0 && b[0] == b[4] && b[4] == b[8] {
        mark_label(b[0])
    } else if b[2] != 0 && b[2] == b[4] && b[4] == b[6] {
        mark_label(b[2])
    } else {
        let mut empty_cells: u32 = 0;
        let mut i: usize = 0;
        while i < 9
            invariant
                grid_wf(b@),
                0 <= i <= 9,
                empty_cells == i - marks_upto(b@, i as int),
            decreases 9 - i,
        {
            proof {
                lemma_marks_bound(b@, i as int);
            }
            if b[i] == 0 {
                empty_cells = empty_cells + 1;
            }
            i = i + 1;
        }
        if empty_cells == 0 {
            proof {
                lemma_marks_bound(b@, 9);
                assert forall|j: int| 0 <= j < 9 implies b@[j] != 0 by {
                    if b@[j] == 0 {
                        lemma_marks_split(b@, j, 9);
                    }
                }
            }
            Winner::Draw
        } else {
            proof {
                if full(b@) {
                    lemma_marks_full(b@, 9);
                }
            }
            Winner::Undecided
        }
    }
}

/// An empty cell below `n` keeps the mark count below `n`.
proof fn lemma_marks_split(g: Seq<u8>, i: int, n: int)
    requires
        0 <= i < n,
        g[i] == 0,
    ensures
        marks_upto(g, n) < n,
    decreases n,
{
    if i == n - 1 {
        lemma_marks_bound(g, n - 1);
    } else {
        lemma_marks_split(g, i, n - 1);
    }
}

/// On a full prefix every cell counts.
proof fn lemma_marks_full(g: Seq<u8>, n: int)
    requires
        0 <= n <= 9,
        full(g),
    ensures
        marks_upto(g, n) == n,
    decreases n,
{
    if n > 0 {
        lemma_marks_full(g, n - 1);
    }
}

fn mark_label(m: u8) -> (r: Winner)
    ensures
        r == mark_winner(m),
{
    if m == 1 {
        Winner::Wins(Player::One)
    } else {
        Winner::Wins(Player::Two)
    }
}

/// The canonical starting state: an empty grid, no moves played, the first
/// player to move.
pub fn get_initial_state() -> (st: TttState)
    ensures
        st.wf(),
        st.board@ == empty_grid(),
        st.move_count == 0,
{
    let mut board: Vec<u8> = Vec::new();
    let mut i: usize = 0;
    while i < 9
        invariant
            0 <= i <= 9,
            board@.len() == i,
            forall|j: int| 0 <= j < i ==> board@[j] == 0,
        decreases 9 - i,
    {
        board.push(0);
        i = i + 1;
    }
    proof {
        assert(board@ =~= empty_grid());
        lemma_marks_zero(board@, 9);
    }
    TttState { board, move_count: 0 }
}

/// A prefix of empty cells counts no marks.
proof fn lemma_marks_zero(g: Seq<u8>, n: int)
    requires
        0 <= n <= g.len(),
        forall|j: int| 0 <= j < g.len() ==> g[j] == 0,
    ensures
        marks_upto(g, n) == 0,
    decreases n,
{
    if n > 0 {
        lemma_marks_zero(g, n - 1);
    }
}

/// A decimal digit.
pub open spec fn is_digit(c: char) -> bool {
    '0' <= c && c <= '9'
}

/// The numeric value of a decimal digit.
pub open spec fn digit_val(c: char) -> int {
    c as int - '0' as int
}

/// The digit character for a coordinate value `0`, `1` or `2`.
pub open spec fn digit_char(d: int) -> char {
    if d == 0 {
        '0'
    } else if d == 1 {
        '1'
    } else {
        '2'
    }
}

/// A well-formed move token: exactly `<digit>,<digit>`.
pub open spec fn token_parses(s: Seq<char>) -> bool {
    s.len() == 3 && is_digit(s[0]) && s[1] == ',' && is_digit(s[2])
}

/// The row a well-formed token names.
pub open spec fn token_row(s: Seq<char>) -> int {
    digit_val(s[0])
}

/// The column a well-formed token names.
pub open spec fn token_col(s: Seq<char>) -> int {
    digit_val(s[2])
}

/// The canonical token of a cell.
pub open spec fn token_of(r: int, c: int) -> Seq<char> {
    seq![digit_char(r), ',', digit_char(c)]
}

/// Whether a token is accepted in a grid: the game is not over, the token
/// is well formed, the coordinates are on the board, and the cell is empty.
pub open spec fn accepts(g: Seq<u8>, s: Seq<char>) -> bool {
    &&& winner_of(g) == Winner::Undecided
    &&& token_parses(s)
    &&& token_row(s) < 3
    &&& token_col(s) < 3
    &&& g[3 * token_row(s) + token_col(s)] == 0
}

/// The tokens of the open cells among the first `n`, in row-major order.
pub open spec fn open_cells_upto(g: Seq<u8>, n: int) -> Seq<Seq<char>>
    decreases n,
{
    if n <= 0 {
        Seq::empty()
    } else {
        open_cells_upto(g, n - 1) + if g[n - 1] == 0 {
            seq![token_of((n - 1) / 3, (n - 1) % 3)]
        } else {
            Seq::empty()
        }
    }
}

/// The move tokens a state offers: every open cell in row-major order, or
/// nothing once the game is over.
pub open spec fn valid_tokens(g: Seq<u8>) -> Seq<Seq<char>> {
    if winner_of(g) == Winner::Undecided {
        open_cells_upto(g, 9)
    } else {
        Seq::empty()
    }
}

fn char_coord(c: char) -> (r: Option<u8>)
    ensures
        r is Some <==> (is_digit(c) && digit_val(c) < 3),
        r matches Some(v) ==> v == digit_val(c) && v < 3,
{
    if c == '0' {
        Some(0)
    } else if c == '1' {
        Some(1)
    } else if c == '2' {
        Some(2)
    } else {
        None
    }
}

fn digit_str(d: u8) -> (r: &'static str)
    requires
        d < 3,
    ensures
        r@ == seq![digit_char(d as int)],
{
    proof {
        reveal_strlit("0");
        reveal_strlit("1");
        reveal_strlit("2");
    }
    let r = if d == 0 {
        "0"
    } else if d == 1 {
        "1"
    } else {
        "2"
    };
    proof {
        assert(r@ =~= seq![digit_char(d as int)]);
    }
    r
}

/// The canonical token of an on-board cell, e.g. `"1,2"`.
pub fn make_token(row: u8, col: u8) -> (t: String)
    requires
        row < 3,
        col < 3,
    ensures
        t@ == token_of(row as int, col as int),
{
    proof {
        reveal_strlit(",");
    }
    let mut t = digit_str(row).to_owned();
    t.append(",");
    t.append(digit_str(col));
    proof {
        assert(t@ =~= token_of(row as int, col as int));
    }
    t
}

/// Parses a move token.  Returns the coordinates exactly when the token is
/// well formed and both coordinates are on the board.
pub fn parse_token(s: &str) -> (r: Option<(u8, u8)>)
    ensures
        r is Some <==> (token_parses(s@) && token_row(s@) < 3 && token_col(s@) < 3),
        r matches Some(p) ==> p.0 == token_row(s@) && p.1 == token_col(s@) && p.0 < 3 && p.1 < 3,
{
    let n = s.unicode_len();
    if n != 3 {
        return None;
    }
    if s.get_char(1) != ',' {
        return None;
    }
    let r0 = char_coord(s.get_char(0));
    let r1 = char_coord(s.get_char(2));
    match (r0, r1) {
        (Some(row), Some(col)) => Some((row, col)),
        _ => None,
    }
}

/// Lists the legal move tokens of a state: one token per empty cell in
/// row-major order, and none at all once the game is over.
pub fn get_valid_moves(st: &TttState) -> (r: Vec<String>)
    requires
        st.wf(),
    ensures
        crate::history(r@) == valid_tokens(st.board@),
        (r@.len() == 0) == (winner_of(st.board@) != Winner::Undecided),
{
    proof {
        lemma_moves_empty_iff_terminal(st.board@);
    }
    let w = check_winner(&st.board);
    let mut out: Vec<String> = Vec::new();
    if !matches!(w, Winner::Undecided) {
        proof {
            assert(crate::history(out@) =~= valid_tokens(st.board@));
        }
        return out;
    }
    let mut row: usize = 0;
    while row < 3
        invariant
            st.wf(),
            0 <= row <= 3,
            crate::history(out@) == open_cells_upto(st.board@, 3 * row),
        decreases 3 - row,
    {
        let mut col: usize = 0;
        while col < 3
            invariant
                st.wf(),
                0 <= row < 3,
                0 <= col <= 3,
                crate::history(out@) == open_cells_upto(st.board@, 3 * row + col),
            decreases 3 - col,
        {
            let idx: usize = 3 * row + col;
            if st.board[idx] == 0 {
                let t = make_token(row as u8, col as u8);
                out.push(t);
            }
            proof {
                assert(crate::history(out@) =~= open_cells_upto(st.board@, 3 * row + col + 1));
            }
            col = col + 1;
        }
        row = row + 1;
    }
    proof {
        assert(crate::history(out@) =~= valid_tokens(st.board@));
    }
    out
}

/// Applies a move token.  An accepted token marks its cell for the player
/// to move and advances the move counter; a malformed token, an off-board
/// or occupied cell, or a finished game returns the input state unchanged.
pub fn apply_move(st: TttState, tok: &str) -> (r: TttState)
    requires
        st.wf(),
    ensures
        r.wf(),
        accepts(st.board@, tok@) ==> r.board@ == st.board@.update(
            3 * token_row(tok@) + token_col(tok@),
            st.next_mark(),
        ) && r.move_count == st.move_count + 1,
        !accepts(st.board@, tok@) ==> r == st,
{
    let parsed = parse_token(tok);
    match parsed {
        None => st,
        Some((row, col)) => {
            let w = check_winner(&st.board);
            if !matches!(w, Winner::Undecided) {
                return st;
            }
            let idx: usize = 3 * (row as usize) + (col as usize);
            if st.board[idx] == 0 {
                proof {
                    lemma_marks_bound(st.board@, 9);
                    lemma_marks_update(st.board@, idx as int, st.next_mark(), 9);
                }
                let mark: u8 = if st.move_count % 2 == 0 {
                    1
                } else {
                    2
                };
                let mut st2 = st;
                st2.board[idx] = mark;
                st2.move_count = st2.move_count + 1;
                st2
            } else {
                st
            }
        },
    }
}

/// Whether the game is over: a line win or a full grid.
pub fn is_game_over(st: &TttState) -> (r: bool)
    requires
        st.wf(),
    ensures
        r == (winner_of(st.board@) != Winner::Undecided),
{
    let w = check_winner(&st.board);
    !matches!(w, Winner::Undecided)
}

/// The winner of a state, recomputed from the grid.
pub fn get_winner(st: &TttState) -> (r: Winner)
    requires
        st.wf(),
    ensures
        r == winner_of(st.board@),
{
    check_winner(&st.board)
}

/// The player to move: the first player when the number of applied moves
/// is even, the second when it is odd.  On a well-formed state the counter
/// equals the number of marks, so the answer is a projection of the grid
/// alone.
pub fn get_current_player(st: &TttState) -> (r: Player)
    ensures
        r == (if st.move_count % 2 == 0 {
            Player::One
        } else {
            Player::Two
        }),
        st.wf() ==> ((r == Player::One) <==> marks(st.board@) % 2 == 0),
{
    if st.move_count % 2 == 0 {
        Player::One
    } else {
        Player::Two
    }
}

pub fn get_game_name() -> (r: String)
    ensures
        r@ == "Tic-Tac-Toe"@,
{
    "Tic-Tac-Toe".to_owned()
}

pub fn get_game_description() -> (r: String)
    ensures
        r@ == "Classic 3x3 tic-tac-toe game"@,
{
    "Classic 3x3 tic-tac-toe game".to_owned()
}

/// The symbol of a cell in the board diagram.
pub open spec fn cell_sym(m: u8) -> Seq<char> {
    if m == 1 {
        "X"@
    } else if m == 2 {
        "O"@
    } else {
        " "@
    }
}

/// One row of the board diagram, with its index on both margins.
pub open spec fn row_text(g: Seq<u8>, r: int) -> Seq<char> {
    seq![digit_char(r)] + "  "@ + cell_sym(g[3 * r]) + " | "@ + cell_sym(g[3 * r + 1]) + " | "@
        + cell_sym(g[3 * r + 2]) + "  "@ + seq![digit_char(r)] + "\n"@
}

/// The fixed-width board diagram: column headers, the three rows separated
/// by rules, column footers.
pub open spec fn render_text(g: Seq<u8>) -> Seq<char> {
    "  0   1   2\n"@ + row_text(g, 0) + "  ---|---|---\n"@ + row_text(g, 1) + "  ---|---|---\n"@
        + row_text(g, 2) + "  0   1   2\n"@
}

fn cell_str(m: u8) -> (r: &'static str)
    ensures
        r@ == cell_sym(m),
{
    if m == 1 {
        "X"
    } else if m == 2 {
        "O"
    } else {
        " "
    }
}

#[verifier::rlimit(50)]
fn append_row(out: &mut String, g: &Vec<u8>, r: u8)
    requires
        grid_wf(g@),
        r < 3,
    ensures
        final(out)@ == old(out)@ + row_text(g@, r as int),
{
    let i: usize = 3 * (r as usize);
    out.append(digit_str(r));
    out.append("  ");
    out.append(cell_str(g[i]));
    out.append(" | ");
    out.append(cell_str(g[i + 1]));
    out.append(" | ");
    out.append(cell_str(g[i + 2]));
    out.append("  ");
    out.append(digit_str(r));
    out.append("\n");
    proof {
        assert(out@ =~= old(out)@ + row_text(g@, r as int));
    }
}

/// A fixed-width diagram of the grid, faithful to the cells and nothing
/// more: formatting only.
pub fn render(st: &TttState) -> (r: String)
    requires
        st.wf(),
    ensures
        r@ == render_text(st.board@),
{
    let mut out = String::new();
    out.append("  0   1   2\n");
    append_row(&mut out, &st.board, 0);
    out.append("  ---|---|---\n");
    append_row(&mut out, &st.board, 1);
    out.append("  ---|---|---\n");
    append_row(&mut out, &st.board, 2);
    out.append("  0   1   2\n");
    proof {
        assert(out@ =~= render_text(st.board@));
    }
    out
}

/// The dump symbol of a cell, with its trailing column space.
pub open spec fn dump_sym(m: u8) -> Seq<char> {
    if m == 0 {
        ". "@
    } else if m == 1 {
        "X "@
    } else {
        "O "@
    }
}

/// One indented row of the board dump.
pub open spec fn dump_row(g: Seq<u8>, r: int) -> Seq<char> {
    "  "@ + dump_sym(g[3 * r]) + dump_sym(g[3 * r + 1]) + dump_sym(g[3 * r + 2]) + "\n"@
}

/// The first `n` rows of the board dump.
pub open spec fn board_dump(g: Seq<u8>, n: int) -> Seq<char>
    decreases n,
{
    if n <= 0 {
        Seq::empty()
    } else {
        board_dump(g, n - 1) + dump_row(g, n - 1)
    }
}

/// The first `n` open tokens, quoted and comma-separated.
pub open spec fn token_list(ms: Seq<Seq<char>>, n: int) -> Seq<char>
    decreases n,
{
    if n <= 0 {
        Seq::empty()
    } else {
        token_list(ms, n - 1) + (if n > 1 {
            ", "@
        } else {
            Seq::empty()
        }) + "\""@ + ms[n - 1] + "\""@
    }
}

/// The debug dump of a state: the counter, the player to move, the winner
/// label (`None` while undecided), the grid, and the open tokens with
/// their count.
pub open spec fn transcript_text(st: TttState) -> Seq<char> {
    "=== TIC-TAC-TOE GAME TRANSCRIPT ===\n"@ + "Move count: "@ + crate::dec_str(
        st.move_count as int,
    ) + "\n"@ + "Current player: "@ + (if st.move_count % 2 == 0 {
        "player1"@
    } else {
        "player2"@
    }) + "\n"@ + "Winner: "@ + (if winner_of(st.board@) == Winner::Undecided {
        "None"@
    } else {
        winner_of(st.board@).spec_label()
    }) + "\n"@ + "Board state:\n"@ + board_dump(st.board@, 3) + "Valid moves ("@
        + crate::dec_str(valid_tokens(st.board@).len() as int) + "): ["@ + token_list(
        valid_tokens(st.board@),
        valid_tokens(st.board@).len() as int,
    ) + "]\n"@ + "===================================\n"@
}

fn dump_sym_str(m: u8) -> (r: &'static str)
    ensures
        r@ == dump_sym(m),
{
    if m == 0 {
        ". "
    } else if m == 1 {
        "X "
    } else {
        "O "
    }
}

/// A debug dump of a state, faithful to [`transcript_text`]: formatting
/// only, it decides nothing and changes nothing.
#[verifier::rlimit(50)]
pub fn log_transcript(st: &TttState) -> (r: String)
    requires
        st.wf(),
    ensures
        r@ == transcript_text(*st),
{
    let mut out = String::new();
    out.append("=== TIC-TAC-TOE GAME TRANSCRIPT ===\n");
    out.append("Move count: ");
    let mc = crate::u32_dec(st.move_count);
    out.append(mc.as_str());
    out.append("\n");
    out.append("Current player: ");
    let p = get_current_player(st).label();
    out.append(p.as_str());
    out.append("\n");
    out.append("Winner: ");
    let w = get_winner(st);
    if matches!(w, Winner::Undecided) {
        out.append("None");
    } else {
        let wl = w.label();
        out.append(wl.as_str());
    }
    out.append("\n");
    out.append("Board state:\n");
    let ghost dump_base = out@;
    let mut row: usize = 0;
    while row < 3
        invariant
            st.wf(),
            row <= 3,
            out@ == dump_base + board_dump(st.board@, row as int),
        decreases 3 - row,
    {
        out.append("  ");
        out.append(dump_sym_str(st.board[3 * row]));
        out.append(dump_sym_str(st.board[3 * row + 1]));
        out.append(dump_sym_str(st.board[3 * row + 2]));
        out.append("\n");
        proof {
            assert(out@ =~= dump_base + board_dump(st.board@, row + 1));
        }
        row = row + 1;
    }
    let moves = get_valid_moves(st);
    out.append("Valid moves (");
    let n = crate::usize_dec(moves.len());
    out.append(n.as_str());
    out.append("): [");
    let ghost list_base = out@;
    let mut i: usize = 0;
    while i < moves.len()
        invariant
            i <= moves@.len(),
            crate::history(moves@) == valid_tokens(st.board@),
            out@ == list_base + token_list(crate::history(moves@), i as int),
        decreases moves@.len() - i,
    {
        if i > 0 {
            out.append(", ");
        }
        out.append("\"");
        let t = &moves[i];
        out.append(t.as_str());
        out.append("\"");
        proof {
            assert(crate::history(moves@)[i as int] == moves@[i as int]@);
            assert(out@ =~= list_base + token_list(crate::history(moves@), i + 1));
        }
        i = i + 1;
    }
    out.append("]\n");
    out.append("===================================\n");
    proof {
        assert(out@ =~= transcript_text(*st));
    }
    out
}

/// The canonical encoding of a grid: one digit per cell, row-major.
pub open spec fn encode_grid(g: Seq<u8>) -> Seq<char> {
    Seq::new(g.len(), |i: int| digit_char(g[i] as int))
}

/// A string that decodes to a grid: nine cell digits.
pub open spec fn decode_ok(s: Seq<char>) -> bool {
    s.len() == 9 && forall|i: int| 0 <= i < 9 ==> is_digit(#[trigger] s[i]) && digit_val(s[i]) < 3
}

/// The grid a well-formed encoding denotes.
pub open spec fn decode_grid(s: Seq<char>) -> Seq<u8> {
    Seq::new(9, |i: int| digit_val(s[i]) as u8)
}

/// Serializes a position to its canonical nine-digit string.
pub fn encode(st: &TttState) -> (r: String)
    requires
        st.wf(),
    ensures
        r@ == encode_grid(st.board@),
{
    let mut r = String::new();
    let mut i: usize = 0;
    while i < 9
        invariant
            st.wf(),
            0 <= i <= 9,
            r@ == encode_grid(st.board@).take(i as int),
        decreases 9 - i,
    {
        r.append(digit_str(st.board[i]));
        proof {
            assert(r@ =~= encode_grid(st.board@).take(i + 1));
        }
        i = i + 1;
    }
    proof {
        assert(r@ =~= encode_grid(st.board@));
    }
    r
}

/// Deserializes a position.  A malformed string yields the canonical
/// starting state instead of an error; a well-formed one yields its grid,
/// with the move counter recomputed from the marks.
pub fn decode(s: &str) -> (st: TttState)
    ensures
        st.wf(),
        decode_ok(s@) ==> st.board@ == decode_grid(s@),
        !decode_ok(s@) ==> st.board@ == empty_grid() && st.move_count == 0,
{
    let n = s.unicode_len();
    if n != 9 {
        return get_initial_state();
    }
    let mut board: Vec<u8> = Vec::new();
    let mut cnt: u32 = 0;
    let mut i: usize = 0;
    while i < 9
        invariant
            0 <= i <= 9,
            s@.len() == 9,
            board@.len() == i,
            forall|j: int|
                0 <= j < i ==> is_digit(#[trigger] s@[j]) && digit_val(s@[j]) < 3 && board@[j]
                    == digit_val(s@[j]),
            cnt == marks_upto(board@, i as int),
        decreases 9 - i,
    {
        proof {
            lemma_marks_bound(board@, i as int);
        }
        let c = s.get_char(i);
        match char_coord(c) {
            None => {
                return get_initial_state();
            },
            Some(v) => {
                let ghost prev = board@;
                board.push(v);
                if v != 0 {
                    cnt = cnt + 1;
                }
                proof {
                    lemma_marks_agree(prev, board@, i as int);
                }
            },
        }
        i = i + 1;
    }
    proof {
        assert(board@ =~= decode_grid(s@));
    }
    TttState { board, move_count: cnt }
}

/// Round trip: decoding the encoding of any well-formed grid restores that
/// grid, and a well-formed state survives the codec whole, counter included.
pub proof fn lemma_codec_round_trip(g: Seq<u8>)
    requires
        grid_wf(g),
    ensures
        decode_ok(encode_grid(g)),
        decode_grid(encode_grid(g)) == g,
{
    assert forall|i: int| 0 <= i < 9 implies is_digit(#[trigger] encode_grid(g)[i]) && digit_val(
        encode_grid(g)[i],
    ) < 3 by {
        assert(g[i] <= 2);
    }
    assert(decode_grid(encode_grid(g)) =~= g);
}

/// Legality soundness: a token is listed by `valid_tokens` exactly when the
/// engine accepts it, so every listed token is applied and every other
/// token leaves the state unchanged.
pub proof fn lemma_legality_soundness(g: Seq<u8>, t: Seq<char>)
    requires
        grid_wf(g),
    ensures
        valid_tokens(g).contains(t) <==> accepts(g, t),
{
    lemma_open_cells(g, 9);
    if accepts(g, t) {
        let r = token_row(t);
        let c = token_col(t);
        assert(t =~= token_of(r, c));
        assert(open_cells_upto(g, 9).contains(token_of((3 * r + c) / 3, (3 * r + c) % 3)));
    }
    if valid_tokens(g).contains(t) {
        let i = choose|i: int| 0 <= i < 9 && g[i] == 0 && t == token_of(i / 3, i % 3);
        assert(token_row(t) == i / 3 && token_col(t) == i % 3);
    }
}

/// A state offers moves exactly while the game is not over: the token
/// list is empty if and only if the grid is terminal.
pub proof fn lemma_moves_empty_iff_terminal(g: Seq<u8>)
    requires
        grid_wf(g),
    ensures
        (valid_tokens(g).len() == 0) == (winner_of(g) != Winner::Undecided),
{
    if winner_of(g) == Winner::Undecided && valid_tokens(g).len() == 0 {
        lemma_open_cells(g, 9);
        assert forall|i: int| 0 <= i < 9 implies g[i] != 0 by {
            if g[i] == 0 {
                assert(open_cells_upto(g, 9).contains(token_of(i / 3, i % 3)));
            }
        }
        assert(full(g));
    }
}

/// Turn alternation: an accepted move raises the mark count — and with it
/// the move counter of the resulting well-formed state — by exactly one,
/// so the first player is to move exactly after an even number of applied
/// moves.
pub proof fn lemma_turn_alternation(st: TttState, t: Seq<char>)
    requires
        st.wf(),
        accepts(st.board@, t),
    ensures
        marks(st.board@.update(3 * token_row(t) + token_col(t), st.next_mark())) == st.move_count
            + 1,
        (marks(st.board@.update(3 * token_row(t) + token_col(t), st.next_mark())) % 2 == 0) == !(
        st.move_count % 2 == 0),
{
    lemma_marks_update(st.board@, 3 * token_row(t) + token_col(t), st.next_mark(), 9);
}

/// The open-cell token list contains exactly the canonical tokens of the
/// empty cells below `n`.
proof fn lemma_open_cells(g: Seq<u8>, n: int)
    requires
        0 <= n <= 9,
    ensures
        forall|t: Seq<char>|
            open_cells_upto(g, n).contains(t) <==> exists|i: int|
                0 <= i < n && g[i] == 0 && t == token_of(i / 3, i % 3),
    decreases n,
{
    if n > 0 {
        lemma_open_cells(g, n - 1);
        assert forall|t: Seq<char>| open_cells_upto(g, n).contains(t) implies exists|i: int|
            0 <= i < n && g[i] == 0 && t == token_of(i / 3, i % 3) by {
            let k = choose|k: int| 0 <= k < open_cells_upto(g, n).len() && #[trigger] open_cells_upto(g, n)[k] == t;
            if k < open_cells_upto(g, n - 1).len() {
                assert(open_cells_upto(g, n - 1).contains(t));
            } else {
                assert(g[n - 1] == 0 && t == token_of((n - 1) / 3, (n - 1) % 3));
            }
        }
        assert forall|t: Seq<char>|
            (exists|i: int| 0 <= i < n && g[i] == 0 && t == token_of(i / 3, i % 3)) implies
            open_cells_upto(g, n).contains(t) by {
            let i = choose|i: int| 0 <= i < n && g[i] == 0 && t == token_of(i / 3, i % 3);
            if i < n - 1 {
                assert(open_cells_upto(g, n - 1).contains(t));
                let k = choose|k: int|
                    0 <= k < open_cells_upto(g, n - 1).len() && #[trigger] open_cells_upto(
                        g,
                        n - 1,
                    )[k] == t;
                assert(open_cells_upto(g, n)[k] == t);
            } else {
                assert(open_cells_upto(g, n)[open_cells_upto(g, n).len() - 1] == t);
            }
        }
    }
}

} // verus!
