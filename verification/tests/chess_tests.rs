use game_rules::chess_engine::{
    apply_move, get_current_player, get_fen, get_game_description, get_game_name,
    get_initial_state, get_move_uci, get_valid_moves, get_winner, is_check, is_checkmate,
    is_game_over, is_stalemate, log_transcript, render, state_from_fen, ChessState,
};
use game_rules::{u32_dec, Player, Winner};

const START_FEN: &str = "rnbqkbnr/pppppppp/8/8/8/8/PPPPPPPP/RNBQKBNR w KQkq - 0 1";

fn same_state(a: &ChessState, b: &ChessState) -> bool {
    a.fen == b.fen && a.moves == b.moves && a.move_count == b.move_count
}

fn play(tokens: &[&str]) -> ChessState {
    let mut st = get_initial_state();
    for t in tokens {
        let before = st.move_count;
        st = apply_move(st, t);
        assert_eq!(st.move_count, before + 1, "move {} was rejected", t);
    }
    st
}

#[test]
fn chess_initial_state() {
    let st = get_initial_state();
    assert_eq!(st.fen, START_FEN);
    assert!(st.moves.is_empty());
    assert_eq!(st.move_count, 0);
    assert_eq!(get_current_player(&st), Player::One);
    assert_eq!(get_winner(&st), Winner::Undecided);
    assert!(!is_game_over(&st));
    assert!(!is_check(&st));
    assert!(!is_checkmate(&st));
    assert!(!is_stalemate(&st));
}

#[test]
fn chess_game_metadata() {
    assert_eq!(get_game_name(), "Chess");
    assert_eq!(get_game_description(), "Classic chess game with full rules");
    assert_eq!(get_move_uci("e2e4".to_string()), "e2e4");
}

#[test]
fn chess_initial_valid_moves() {
    let st = get_initial_state();
    let moves = get_valid_moves(&st);
    assert_eq!(moves.len(), 20);
    assert!(moves.contains(&"e2e4".to_string()));
    assert!(moves.contains(&"g1f3".to_string()));
    assert!(!moves.contains(&"e2e5".to_string()));
}

#[test]
fn chess_apply_move_advances_state() {
    let st = get_initial_state();
    let st = apply_move(st, "e2e4");
    assert_ne!(st.fen, START_FEN, "the position must change");
    assert_eq!(st.moves, vec!["e2e4".to_string()]);
    assert_eq!(st.move_count, 1);
    assert_eq!(get_current_player(&st), Player::Two);
}

#[test]
fn chess_rejects_malformed_and_illegal_tokens() {
    let st = get_initial_state();
    let before = st.clone();
    let mut st = st;
    for t in [
        "", "e2", "e2e5", "e7e5", "e2e4q", "x1x2", "e2e4!!", "a1a1", "e2e4 ", "e9e4", "i2i4",
        "e2e3e4", "e2e4\u{e9}", "\u{e9}2e4", "e2e4\u{1f600}",
    ] {
        st = apply_move(st, t);
        assert!(same_state(&before, &st), "token {:?} was not a no-op", t);
    }
}

#[test]
fn chess_legality_soundness_from_start() {
    // Every listed token is accepted; a fresh state is used for each try.
    let tokens = get_valid_moves(&get_initial_state());
    for t in &tokens {
        let st = apply_move(get_initial_state(), t);
        assert_eq!(st.move_count, 1, "listed token {} was rejected", t);
        assert_eq!(st.moves, vec![t.clone()]);
    }
}

#[test]
fn chess_turn_alternation() {
    let tokens = ["e2e4", "e7e5", "g1f3", "b8c6", "f1c4"];
    let mut st = get_initial_state();
    for (k, t) in tokens.iter().enumerate() {
        let expected = if k % 2 == 0 { Player::One } else { Player::Two };
        assert_eq!(get_current_player(&st), expected);
        st = apply_move(st, t);
        assert_eq!(st.move_count as usize, k + 1);
    }
}

#[test]
fn chess_fen_round_trip() {
    let init = get_initial_state();
    let back = state_from_fen(&get_fen(&init));
    assert!(same_state(&init, &back));

    // A mid-game position also survives the codec.
    let st = play(&["e2e4", "c7c5"]);
    let back = state_from_fen(&get_fen(&st));
    assert_eq!(back.fen, st.fen);
    assert_eq!(back.move_count % 2, st.move_count % 2);
}

#[test]
fn chess_state_from_malformed_fen_falls_back() {
    let inputs = [
        "",
        "not a fen",
        "8/8/8/8/8/8/8/8 w - - 0 1",
        "rnbqkbnr w KQkq",
        // An overlong first rank would wrap the file index and overwrite
        // the white king inside the chess crate's builder.
        "Kpppppppp/8/8/8/8/8/8/7k w - - 0 1",
        "K7/8/8/8/8/8/8/7k/8 w - - 0 1",
        "K6/8/8/8/8/8/8/7k w - - 0 1",
        "KQkq/8/8/8/8/8/8/8 w - - 0 1",
    ];
    for s in inputs {
        let st = state_from_fen(s);
        assert_eq!(st.fen, START_FEN, "input {:?}", s);
        assert!(st.moves.is_empty());
    }
}

#[test]
fn chess_fools_mate_is_checkmate() {
    // 1. f3 e5 2. g4 Qh4#
    let st = play(&["f2f3", "e7e5", "g2g4", "d8h4"]);
    assert!(is_game_over(&st));
    assert!(is_check(&st));
    assert!(is_checkmate(&st));
    assert!(!is_stalemate(&st));
    assert_eq!(get_winner(&st), Winner::Wins(Player::Two));
    assert!(get_valid_moves(&st).is_empty());
}

#[test]
fn chess_stalemate_is_draw() {
    // White king a1, black king a3, black queen b3, white to move.
    let st = state_from_fen("8/8/8/8/8/kq6/8/K7 w - - 0 1");
    assert!(is_game_over(&st));
    assert!(!is_check(&st));
    assert!(!is_checkmate(&st));
    assert!(is_stalemate(&st));
    assert_eq!(get_winner(&st), Winner::Draw);
    assert!(get_valid_moves(&st).is_empty());
}

#[test]
fn chess_check_is_not_terminal() {
    // 1. e4 f6 2. Qh5+ : black is in check but can block with g6.
    let st = play(&["e2e4", "f7f6", "d1h5"]);
    assert!(is_check(&st));
    assert!(!is_game_over(&st));
    assert_eq!(get_winner(&st), Winner::Undecided);
    assert!(!get_valid_moves(&st).is_empty());
}

#[test]
fn chess_render_initial() {
    let st = get_initial_state();
    let lines = [
        "  a b c d e f g h",
        "8 r n b q k b n r  8",
        "7 p p p p p p p p  7",
        "6 . . . . . . . .  6",
        "5 . . . . . . . .  5",
        "4 . . . . . . . .  4",
        "3 . . . . . . . .  3",
        "2 P P P P P P P P  2",
        "1 R N B Q K B N R  1",
        "  a b c d e f g h",
    ];
    let expected = lines.join("\n") + "\n";
    assert_eq!(render(&st), expected);
}

#[test]
fn chess_render_reflects_moves() {
    let st = play(&["e2e4"]);
    let r = render(&st);
    assert!(r.contains("4 . . . . P . . .  4"));
    assert!(r.contains("2 P P P P . P P P  2"));
}

#[test]
fn chess_transcript_mentions_state() {
    let st = play(&["e2e4", "e7e5"]);
    let t = log_transcript(&st);
    assert!(t.contains("CHESS GAME TRANSCRIPT"));
    assert!(t.contains("Move count: 2"));
    assert!(t.contains("1. e2e4"));
    assert!(t.contains("2. e7e5"));
    assert!(t.contains("Current player: player1"));
}

#[test]
fn decimal_rendering() {
    assert_eq!(u32_dec(0), "0");
    assert_eq!(u32_dec(7), "7");
    assert_eq!(u32_dec(10), "10");
    assert_eq!(u32_dec(12345), "12345");
    assert_eq!(u32_dec(4294967295), "4294967295");
}
