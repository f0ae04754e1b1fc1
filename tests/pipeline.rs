use chess_replay::outcome::{normalize_result, result_to_label, GameOutcome};
use chess_replay::parser::PgnParser;
use chess_replay::piece::{PieceKind, Placed, Side};
use chess_replay::position::{MoveSpec, Position};
use chess_replay::record::{game_record_with_default_elo, parse_pgn_to_game_record, DEFAULT_ELO};
use chess_replay::replay::{matchable_form, Replay};
use chess_replay::scan::{movetext_tokens, split_games};
use chess_replay::tensor::{board_to_vector, generate_board_tensor, get_piece_value, square_to_rank_file};
use chess_replay::number::parse_i32;
use chess_replay::tags::parse_tag;

fn play(text: &str) -> Replay {
    let mut r = Replay::new();
    for t in movetext_tokens(text) {
        r.feed(&t);
    }
    r
}

fn square(name: &str) -> usize {
    let b = name.as_bytes();
    ((b[1] - b'1') as usize) * 8 + (b[0] - b'a') as usize
}

fn changed_cells(a: &Vec<Vec<Vec<i8>>>, b: &Vec<Vec<Vec<i8>>>) -> Vec<(usize, usize, usize)> {
    let mut out = Vec::new();
    for l in 0..6 {
        for r in 0..8 {
            for f in 0..8 {
                if a[l][r][f] != b[l][r][f] {
                    out.push((l, r, f));
                }
            }
        }
    }
    out
}

#[test]
fn end_to_end_queen_check() {
    let r = play("1. d4 c5 2. dxc5 Qa5+");
    assert_eq!(r.records.len(), 4);
    assert_eq!(r.unresolved, 0);
    let sans: Vec<&str> = r.records.iter().map(|m| m.san.as_str()).collect();
    assert_eq!(sans, vec!["d4", "c5", "dxc5", "Qa5+"]);
    for (i, m) in r.records.iter().enumerate() {
        assert_eq!(m.index, i + 1);
        assert_eq!(m.side, if i % 2 == 0 { Side::White } else { Side::Black });
    }
    assert_eq!(r.position.cells[square("a5")], Some(Placed { kind: PieceKind::Queen, side: Side::Black }));
    assert_eq!(r.position.cells[square("c5")], Some(Placed { kind: PieceKind::Pawn, side: Side::White }));
    assert_eq!(r.position.cells[square("d8")], None);
    assert!(r.records[2].capture);
    assert!(!r.records[0].capture);
    assert_eq!(r.records[3].piece, PieceKind::Queen);
    assert_eq!(r.records[2].mv.from as usize, square("d4"));
    assert_eq!(r.records[2].mv.to as usize, square("c5"));
    let g = generate_board_tensor(&r.position);
    assert_eq!(g[4][4][0], -1);
    assert_eq!(g[0][4][2], 1);
    assert!(r.records[0].fen.starts_with("rnbqkbnr/pppppppp/8/8/3P4/8/PPP1PPPP/RNBQKBNR b"));
    assert!(r.records[3].fen.starts_with("rnb1kbnr/pp1ppppp/8/q1P5/8/8/PPP1PPPP/RNBQKBNR w"));
}

#[test]
fn unresolvable_token_is_skipped() {
    let with_bad = play("1. e4 e5 2. Nf3 Qh4xz Nc6 3. Bb5");
    let without = play("1. e4 e5 2. Nf3 Nc6 3. Bb5");
    assert_eq!(with_bad.unresolved, 1);
    assert_eq!(without.unresolved, 0);
    assert_eq!(with_bad.records.len(), without.records.len());
    for (a, b) in with_bad.records.iter().zip(without.records.iter()) {
        assert_eq!(a.index, b.index);
        assert_eq!(a.side, b.side);
        assert_eq!(a.san, b.san);
        assert_eq!(a.mv, b.mv);
        assert_eq!(a.fen, b.fen);
    }
    assert_eq!(with_bad.position.cells, without.position.cells);
}

#[test]
fn illegal_move_is_skipped() {
    let r = play("1. e4 e5 2. Ke3 Nf3");
    assert_eq!(r.unresolved, 1);
    assert_eq!(r.records.len(), 3);
    assert_eq!(r.records[2].san, "Nf3");
    assert_eq!(r.records[2].side, Side::White);
}

#[test]
fn result_tokens_normalize() {
    assert_eq!(normalize_result("1-0"), GameOutcome::WhiteWin);
    assert_eq!(normalize_result("0-1"), GameOutcome::BlackWin);
    assert_eq!(normalize_result("1/2-1/2"), GameOutcome::Draw);
    assert_eq!(normalize_result("*"), GameOutcome::Unknown);
    assert_eq!(normalize_result(""), GameOutcome::Unknown);
    assert_eq!(normalize_result("1-0 "), GameOutcome::Unknown);
    assert_eq!(normalize_result("draw"), GameOutcome::Unknown);
    assert_eq!(GameOutcome::WhiteWin.describe(), "White wins");
    assert_eq!(GameOutcome::BlackWin.describe(), "Black wins");
    assert_eq!(GameOutcome::Draw.describe(), "Draw");
    assert_eq!(GameOutcome::Unknown.describe(), "Unknown");
}

#[test]
fn result_labels() {
    assert_eq!(result_to_label("1-0"), 1);
    assert_eq!(result_to_label("0-1"), 0);
    assert_eq!(result_to_label("1/2-1/2"), 2);
    assert_eq!(result_to_label("?"), 2);
}

#[test]
fn starting_grid() {
    let p = Position::initial();
    let g = generate_board_tensor(&p);
    assert_eq!(g, generate_board_tensor(&p));
    assert_eq!(g.len(), 6);
    for r in 0..8 {
        for f in 0..8 {
            let corner = (r == 0 || r == 7) && (f == 0 || f == 7);
            let expect = if !corner { 0 } else if r == 0 { 1 } else { -1 };
            assert_eq!(g[1][r][f], expect);
        }
    }
    assert_eq!(g[0][1], vec![1; 8]);
    assert_eq!(g[0][6], vec![-1; 8]);
    assert_eq!(g[5][0][4], 1);
    assert_eq!(g[5][7][4], -1);
    assert_eq!(g[4][0][3], 1);
    assert_eq!(g[4][7][3], -1);
    assert_eq!(g[2][0], vec![0, 1, 0, 0, 0, 0, 1, 0]);
    assert_eq!(g[3][7], vec![0, 0, -1, 0, 0, -1, 0, 0]);
    for l in 0..6 {
        for r in 2..6 {
            assert_eq!(g[l][r], vec![0; 8]);
        }
    }
}

#[test]
fn quiet_move_changes_two_cells() {
    let before = play("1. e4 e5");
    let after = play("1. e4 e5 2. Nf3");
    let d = changed_cells(&generate_board_tensor(&before.position), &generate_board_tensor(&after.position));
    assert_eq!(d, vec![(2, 0, 6), (2, 2, 5)]);
    assert_eq!(generate_board_tensor(&after.position)[2][2][5], 1);
}

#[test]
fn castling_changes_four_cells() {
    let line = "1. e4 e5 2. Nf3 Nc6 3. Bc4 Bc5";
    let before = play(line);
    let after = play(&format!("{} 4. O-O", line));
    assert_eq!(after.records.len(), 7);
    let d = changed_cells(&generate_board_tensor(&before.position), &generate_board_tensor(&after.position));
    assert_eq!(d, vec![(1, 0, 5), (1, 0, 7), (5, 0, 4), (5, 0, 6)]);
    let g = generate_board_tensor(&after.position);
    assert_eq!(g[5][0][6], 1);
    assert_eq!(g[1][0][5], 1);
    assert!(after.records[6].castling);
    assert_eq!(after.records[6].piece, PieceKind::King);
    assert!(!after.records[6].capture);
    assert!(!after.records[5].castling);
}

#[test]
fn en_passant_clears_taken_pawn() {
    let before = play("1. e4 a6 2. e5 d5");
    let after = play("1. e4 a6 2. e5 d5 3. exd6");
    assert_eq!(after.records.len(), 5);
    let d = changed_cells(&generate_board_tensor(&before.position), &generate_board_tensor(&after.position));
    assert_eq!(d, vec![(0, 4, 3), (0, 4, 4), (0, 5, 3)]);
    assert_eq!(after.position.cells[square("d5")], None);
    assert!(after.records[4].capture);
    assert_eq!(after.records[4].piece, PieceKind::Pawn);
    assert!(!after.records[3].capture);
}

#[test]
fn promotion_sets_promoted_layer() {
    let after = play("1. h4 g5 2. hxg5 h6 3. gxh6 Bg7 4. hxg7 Nf6 5. gxh8=Q");
    assert_eq!(after.unresolved, 0);
    assert_eq!(after.records.len(), 9);
    assert_eq!(after.records[8].mv.promotion, Some(PieceKind::Queen));
    let g = generate_board_tensor(&after.position);
    assert_eq!(g[4][7][7], 1);
    assert_eq!(g[0][7][7], 0);
    assert_eq!(g[1][7][7], 0);
    assert_eq!(g[0][6][6], 0);
}

#[test]
fn marks_are_removed_for_matching() {
    assert_eq!(matchable_form("Qa5+"), "Qa5");
    assert_eq!(matchable_form("O-O-O#"), "O-O-O");
    assert_eq!(matchable_form("e8=Q+"), "e8Q");
    assert_eq!(matchable_form("Nf3!?"), "Nf3");
    assert_eq!(matchable_form("e4"), "e4");
    assert_eq!(matchable_form(""), "");
}

#[test]
fn castling_with_check_mark() {
    let r = play("1. e4 e5 2. Nf3 Nc6 3. Bc4 Bc5 4. O-O+");
    assert_eq!(r.unresolved, 0);
    assert_eq!(r.records.len(), 7);
    assert_eq!(r.records[6].san, "O-O+");
}

#[test]
fn comments_and_result_end_movetext() {
    let r = play("1. e4 {a sharp start} e5 2. Nf3 $1 Nc6 1-0 3. Bb5");
    assert_eq!(r.records.len(), 4);
    assert!(r.finished);
    assert_eq!(r.unresolved, 0);
    let tokens = movetext_tokens("[Event \"x\"]\n1. e4 {c} e5\n");
    assert_eq!(tokens, vec!["1.", "e4", "e5"]);
}

#[test]
fn game_record_from_text() {
    let text = "[Event \"Rated Blitz game\"]\n[Result \"1-0\"]\n[WhiteElo \"2100\"]\n[BlackElo \"abc\"]\n[Opening \"Queen's Pawn\"]\n[TimeControl \"300+0\"]\n[Termination \"Normal\"]\n\n1. d4 c5 2. dxc5 Qa5+ 1-0\n";
    let g = parse_pgn_to_game_record(text).unwrap();
    assert_eq!(g.result, "White wins");
    assert_eq!(g.white_elo, 2100);
    assert_eq!(g.black_elo, DEFAULT_ELO);
    assert_eq!(g.opening, "Queen's Pawn");
    assert_eq!(g.time_control, "300+0");
    assert_eq!(g.termination, "Normal");
    assert_eq!(g.moves, vec!["d4", "c5", "dxc5", "Qa5+"]);
}

#[test]
fn game_record_defaults() {
    let g = parse_pgn_to_game_record("1. e4 *").unwrap();
    assert_eq!(g.result, "Unknown");
    assert_eq!(g.white_elo, 1600);
    assert_eq!(g.black_elo, 1600);
    assert_eq!(g.opening, "");
    assert_eq!(g.moves, vec!["e4"]);
}

#[test]
fn metadata_defaults_and_values() {
    let m = PgnParser::extract_game_record("[White \"Carlsen\"]\n[WhiteElo \"2850\"]\n[Result \"1/2-1/2\"]\n1. e4").unwrap();
    assert_eq!(m.white_player, "Carlsen");
    assert_eq!(m.black_player, "Unknown Player");
    assert_eq!(m.event, "Unknown Event");
    assert_eq!(m.site, "Unknown Site");
    assert_eq!(m.date, "????.??.??");
    assert_eq!(m.round, "-");
    assert_eq!(m.result, "1/2-1/2");
    assert_eq!(m.white_elo, Some(2850));
    assert_eq!(m.black_elo, None);
    assert_eq!(m.eco, "Unknown ECO");
    assert_eq!(m.time_control, "-");
    let moves = PgnParser::extract_moves_record("1. e4 e5 2. Nf3").unwrap();
    assert_eq!(moves.len(), 3);
    assert_eq!(moves[2].index, 3);
}

#[test]
fn last_tag_of_a_key_counts() {
    let m = PgnParser::extract_game_record("[Site \"a\"]\n[Site \"b\"]\n[Broken]\n").unwrap();
    assert_eq!(m.site, "b");
}

#[test]
fn tag_pair_parts() {
    assert_eq!(parse_tag("Event \"Casual\""), Some(("Event".to_string(), "Casual".to_string())));
    assert_eq!(parse_tag("Round \"\""), Some(("Round".to_string(), "".to_string())));
    assert_eq!(parse_tag("Event Casual"), None);
    assert_eq!(parse_tag("Event \"Casual"), None);
}

#[test]
fn decimal_ratings() {
    assert_eq!(parse_i32("2100"), Some(2100));
    assert_eq!(parse_i32("-5"), Some(-5));
    assert_eq!(parse_i32("+7"), Some(7));
    assert_eq!(parse_i32("2147483647"), Some(i32::MAX));
    assert_eq!(parse_i32("-2147483648"), Some(i32::MIN));
    assert_eq!(parse_i32("2147483648"), None);
    assert_eq!(parse_i32("99999999999999"), None);
    assert_eq!(parse_i32(""), None);
    assert_eq!(parse_i32("-"), None);
    assert_eq!(parse_i32("12a"), None);
    assert_eq!(parse_i32("?"), None);
}

#[test]
fn fen_names_position_after_move() {
    let r = play("1. e4");
    assert_eq!(r.records[0].fen, "rnbqkbnr/pppppppp/8/8/4P3/8/PPPP1PPP/RNBQKBNR b KQkq - 0 1");
}

#[test]
fn square_coordinates_and_values() {
    assert_eq!(square_to_rank_file(0), (0, 0));
    assert_eq!(square_to_rank_file(32), (4, 0));
    assert_eq!(square_to_rank_file(63), (7, 7));
    assert_eq!(get_piece_value(Side::White), 1);
    assert_eq!(get_piece_value(Side::Black), -1);
}

#[test]
fn occupancy_vector() {
    let v = board_to_vector(&Position::initial());
    assert_eq!(v.len(), 64);
    assert_eq!(v.iter().filter(|x| **x == 1).count(), 32);
    assert_eq!(&v[0..16], &[1u8; 16][..]);
    assert_eq!(&v[16..48], &[0u8; 32][..]);
    let r = play("1. e4");
    let w = board_to_vector(&r.position);
    assert_eq!(w[square("e2")], 0);
    assert_eq!(w[square("e4")], 1);
}

#[test]
fn games_split_at_event_lines() {
    let text = "[Event \"A\"]\n1. e4 e5\n\n[Event \"B\"]\n1. d4\n";
    let games = split_games(text);
    assert_eq!(games, vec!["[Event \"A\"]\n1. e4 e5\n\n", "[Event \"B\"]\n1. d4\n"]);
    assert_eq!(split_games(""), vec![""]);
    assert_eq!(split_games("x [Event"), vec!["x [Event"]);
}

#[test]
fn text_with_two_games() {
    let text = "[Event \"A\"]\n[White \"P\"]\n1. e4 e5\n\n[Event \"B\"]\n1. d4 d5 2. c4\n";
    let games = PgnParser::parse_pgn_text(text).unwrap();
    assert_eq!(games.len(), 2);
    assert_eq!(games[0].0.event, "A");
    assert_eq!(games[0].0.white_player, "P");
    assert_eq!(games[0].1.len(), 2);
    assert_eq!(games[1].0.event, "B");
    assert_eq!(games[1].0.white_player, "Unknown Player");
    assert_eq!(games[1].1.len(), 3);
    assert_eq!(games[1].1[2].san, "c4");
}

#[test]
fn settle_applies_or_counts() {
    let mut r = Replay::new();
    r.settle("zz", None);
    assert_eq!(r.unresolved, 1);
    assert_eq!(r.records.len(), 0);
    let e2e4 = MoveSpec { from: 12, to: 28, promotion: None };
    let next = "rnbqkbnr/pppppppp/8/8/4P3/8/PPPP1PPP/RNBQKBNR b KQkq - 0 1".to_string();
    r.settle("e4", Some((e2e4, next.clone())));
    assert_eq!(r.records.len(), 1);
    assert_eq!(r.records[0].index, 1);
    assert_eq!(r.records[0].san, "e4");
    assert_eq!(r.position.cells[28], Some(Placed { kind: PieceKind::Pawn, side: Side::White }));
    assert_eq!(r.position.cells[12], None);
    assert_eq!(r.position.to_move, Side::Black);
    let empty_source = MoveSpec { from: 20, to: 28, promotion: None };
    r.settle("x", Some((empty_source, next.clone())));
    assert_eq!(r.fen, next);
    assert_eq!(r.records[0].fen, next);
    assert_eq!(r.unresolved, 2);
    assert_eq!(r.records.len(), 1);
}

#[test]
fn caller_chosen_default_rating() {
    let g = game_record_with_default_elo("[WhiteElo \"1850\"]\n[BlackElo \"\"]\n1. e4 e5", 0);
    assert_eq!(g.white_elo, 1850);
    assert_eq!(g.black_elo, 0);
    assert_eq!(g.moves, vec!["e4", "e5"]);
}

#[test]
fn piece_capture_onto_empty_square_is_rejected() {
    let r = play("1. e4 e5 2. Nxf3");
    assert_eq!(r.unresolved, 1);
    assert_eq!(r.records.len(), 2);
}

#[test]
fn movetext_without_numbers() {
    let g = parse_pgn_to_game_record("[Result \"*\"]\n\ne4 e5 Nf3").unwrap();
    assert_eq!(g.moves, vec!["e4", "e5", "Nf3"]);
    let g = parse_pgn_to_game_record("1. e4 Ke3 e5 2. Nf3").unwrap();
    assert_eq!(g.moves, vec!["e4", "e5", "Nf3"]);
    let g = parse_pgn_to_game_record("[Result \"1/2-1/2\"]\n\n1. e4 e5").unwrap();
    assert_eq!(g.result, "Draw");
    assert_eq!(g.moves, vec!["e4", "e5"]);
}

#[test]
fn fens_alternate_side_to_move() {
    let moves = PgnParser::extract_moves_record("1. e4 e5 2. Nf3 Nc6 3. Bb5").unwrap();
    for (i, m) in moves.iter().enumerate() {
        let side = m.fen.split(' ').nth(1).unwrap();
        assert_eq!(side, if i % 2 == 0 { "b" } else { "w" });
    }
}

#[test]
fn settle_needs_the_fen_to_confirm_the_move() {
    let mut r = Replay::new();
    let e2e4 = MoveSpec { from: 12, to: 28, promotion: None };
    let unchanged = "rnbqkbnr/pppppppp/8/8/8/8/PPPPPPPP/RNBQKBNR b KQkq - 0 1".to_string();
    r.settle("e4", Some((e2e4, unchanged)));
    assert_eq!(r.unresolved, 1);
    assert_eq!(r.records.len(), 0);
    assert_eq!(r.position.cells, Position::initial().cells);
}
