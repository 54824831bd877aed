use game_rules::tictactoe::{
    apply_move, check_winner, decode, encode, get_current_player, get_game_description,
    get_game_name, get_initial_state, get_valid_moves, get_winner, is_game_over, log_transcript,
    make_token, parse_token, render, TttState,
};
use game_rules::{Player, Winner};

fn same_state(a: &TttState, b: &TttState) -> bool {
    a.board == b.board && a.move_count == b.move_count
}

fn play(tokens: &[&str]) -> TttState {
    let mut st = get_initial_state();
    for t in tokens {
        let before = st.move_count;
        st = apply_move(st, t);
        assert_eq!(st.move_count, before + 1, "move {} was rejected", t);
    }
    st
}

#[test]
fn ttt_initial_state() {
    let st = get_initial_state();
    assert_eq!(st.board, vec![0u8; 9]);
    assert_eq!(st.move_count, 0);
    assert_eq!(get_current_player(&st), Player::One);
    assert_eq!(get_winner(&st), Winner::Undecided);
    assert!(!is_game_over(&st));
}

#[test]
fn ttt_initial_valid_moves() {
    let st = get_initial_state();
    let moves = get_valid_moves(&st);
    assert_eq!(moves.len(), 9);
    assert_eq!(moves[0], "0,0");
    assert_eq!(moves[4], "1,1");
    assert_eq!(moves[8], "2,2");
}

#[test]
fn ttt_game_metadata() {
    assert_eq!(get_game_name(), "Tic-Tac-Toe");
    assert_eq!(get_game_description(), "Classic 3x3 tic-tac-toe game");
}

#[test]
fn ttt_apply_move_marks_cell() {
    let st = get_initial_state();
    let st = apply_move(st, "1,1");
    assert_eq!(st.board[4], 1);
    assert_eq!(st.move_count, 1);
    assert_eq!(get_current_player(&st), Player::Two);
    let st = apply_move(st, "0,2");
    assert_eq!(st.board[2], 2);
    assert_eq!(st.move_count, 2);
    assert_eq!(get_current_player(&st), Player::One);
}

#[test]
fn ttt_top_row_win() {
    // (0,0) X, (1,1) O, (0,1) X, (1,0) O, (0,2) X completes the top row.
    let st = play(&["0,0", "1,1", "0,1", "1,0", "0,2"]);
    assert_eq!(get_winner(&st), Winner::Wins(Player::One));
    assert!(is_game_over(&st));
    assert!(get_valid_moves(&st).is_empty());
    // Any further move is a no-op.
    let before = st.clone();
    let st = apply_move(st, "2,2");
    assert!(same_state(&before, &st));
}

#[test]
fn ttt_column_and_diagonal_wins() {
    // Column 0 for the second player.
    let g = vec![2u8, 1, 1, 2, 1, 0, 2, 0, 0];
    assert_eq!(check_winner(&g), Winner::Wins(Player::Two));
    // Main diagonal.
    let g = vec![1u8, 2, 2, 0, 1, 0, 0, 0, 1];
    assert_eq!(check_winner(&g), Winner::Wins(Player::One));
    // Anti-diagonal.
    let g = vec![0u8, 0, 2, 1, 2, 1, 2, 0, 0];
    assert_eq!(check_winner(&g), Winner::Wins(Player::Two));
}

#[test]
fn ttt_scan_order_prefers_earlier_line() {
    // Two complete rows: the first row scanned decides.
    let g = vec![2u8, 2, 2, 1, 1, 1, 0, 0, 0];
    assert_eq!(check_winner(&g), Winner::Wins(Player::Two));
}

#[test]
fn ttt_draw_on_full_grid() {
    // X O X / X O O / O X X: full, no line.
    let st = play(&["0,0", "0,1", "0,2", "1,1", "1,0", "1,2", "2,1", "2,0", "2,2"]);
    assert_eq!(st.board, vec![1u8, 2, 1, 1, 2, 2, 2, 1, 1]);
    assert_eq!(get_winner(&st), Winner::Draw);
    assert!(is_game_over(&st));
    assert!(get_valid_moves(&st).is_empty());
}

#[test]
fn ttt_rejects_malformed_and_illegal_tokens() {
    let st = play(&["0,0", "1,1"]);
    let before = st.clone();
    let mut st = st;
    for t in [
        "", ",", "a,b", "3,0", "0,3", "9,9", "0,0", "1,1", "-1,0", "0,0 ", " 0,1", "0,,1", "01,1",
        "+1,2", "1;1", "22",
    ] {
        st = apply_move(st, t);
        assert!(same_state(&before, &st), "token {:?} was not a no-op", t);
    }
}

#[test]
fn ttt_turn_alternation() {
    let tokens = ["0,0", "0,1", "0,2", "1,1", "1,0", "1,2", "2,1"];
    let mut st = get_initial_state();
    for (k, t) in tokens.iter().enumerate() {
        let expected = if k % 2 == 0 { Player::One } else { Player::Two };
        assert_eq!(get_current_player(&st), expected);
        st = apply_move(st, t);
        assert_eq!(st.move_count as usize, k + 1);
    }
}

#[test]
fn ttt_token_codec() {
    assert_eq!(make_token(1, 2), "1,2");
    assert_eq!(parse_token("1,2"), Some((1, 2)));
    assert_eq!(parse_token("0,0"), Some((0, 0)));
    assert_eq!(parse_token("3,0"), None);
    assert_eq!(parse_token("+1,2"), None);
    assert_eq!(parse_token("1,10"), None);
    assert_eq!(parse_token(""), None);
}

#[test]
fn ttt_codec_round_trip() {
    let st = get_initial_state();
    assert_eq!(encode(&st), "000000000");
    let back = decode(&encode(&st));
    assert!(same_state(&st, &back));

    let st = play(&["0,0", "1,1", "2,2"]);
    assert_eq!(encode(&st), "100020001");
    let back = decode(&encode(&st));
    assert!(same_state(&st, &back));
}

#[test]
fn ttt_decode_malformed_falls_back_to_initial() {
    for s in ["", "abc", "12", "0000000003", "00000000x", "333333333"] {
        let st = decode(s);
        assert!(same_state(&st, &get_initial_state()), "input {:?}", s);
    }
}

#[test]
fn ttt_render_initial() {
    let st = get_initial_state();
    let lines = [
        "  0   1   2",
        "0    |   |    0",
        "  ---|---|---",
        "1    |   |    1",
        "  ---|---|---",
        "2    |   |    2",
        "  0   1   2",
    ];
    let expected = lines.join("\n") + "\n";
    assert_eq!(render(&st), expected);
}

#[test]
fn ttt_render_marks() {
    let st = play(&["0,0", "1,1"]);
    let r = render(&st);
    assert!(r.contains("0  X |   |    0"));
    assert!(r.contains("1    | O |    1"));
}

#[test]
fn ttt_transcript_mentions_state() {
    let st = play(&["0,0"]);
    let t = log_transcript(&st);
    assert!(t.contains("TIC-TAC-TOE"));
    assert!(t.contains("Move count: 1"));
    assert!(t.contains("Current player: player2"));
    assert!(t.contains("Valid moves (8)"));
}

#[test]
fn ttt_winner_labels() {
    assert_eq!(Winner::Undecided.label(), "");
    assert_eq!(Winner::Draw.label(), "draw");
    assert_eq!(Winner::Wins(Player::One).label(), "player1");
    assert_eq!(Winner::Wins(Player::Two).label(), "player2");
}
