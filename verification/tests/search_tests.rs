use fishermann::board::{Color, Piece, Position, Role};
use fishermann::eval::evaluate;
use fishermann::movegen::{apply_move, is_checkmate, position_from_fen};
use fishermann::score::{score_neg, SCORE_LOSS};
use fishermann::search::{negamax_basic, search};

fn checkmated_position() -> Position {
    // The fool's mate: white to move and checkmated.
    position_from_fen(b"rnb1kbnr/pppp1ppp/8/4p3/6Pq/5P2/PPPPP2P/RNBQKBNR w KQkq - 0 3")
        .expect("notation should parse")
}

#[test]
fn checkmate_scores_the_forced_loss_sentinel_at_any_depth() {
    let p = checkmated_position();
    assert!(is_checkmate(&p));
    for depth in [0, 1, 3] {
        let r = search(&p, depth);
        assert_eq!(r.score, SCORE_LOSS);
        assert!(r.moves.is_empty());
        let b = negamax_basic(&p, depth);
        assert_eq!(b.score, SCORE_LOSS);
        assert!(b.moves.is_empty());
    }
}

#[test]
fn pruning_never_changes_the_score() {
    // A sparse endgame keeps the exhaustive search cheap.
    let p = position_from_fen(b"8/8/k7/p7/2K5/1P6/8/8 w - - 0 1").expect("notation should parse");
    for depth in [0, 1, 2, 3] {
        let pruned = search(&p, depth);
        let exhaustive = negamax_basic(&p, depth);
        assert_eq!(pruned.score, exhaustive.score);
    }
}

#[test]
fn negamax_consistency_along_the_principal_variation() {
    let p = position_from_fen(b"8/8/k7/p7/2K5/1P6/8/8 w - - 0 1").expect("notation should parse");
    let depth = 3;
    let r = search(&p, depth);
    assert!(!r.moves.is_empty());
    // The move played at the root is the last entry of the deepest-first
    // sequence.
    let best = r.moves[r.moves.len() - 1];
    let child = apply_move(&p, &best);
    let cr = search(&child, depth - 1);
    assert_eq!(r.score, score_neg(cr.score));
}

#[test]
fn depth_four_search_from_the_start_returns_a_full_line() {
    let p = Position::initial();
    let r = search(&p, 4);
    assert_eq!(r.moves.len(), 4);
}

#[test]
fn hanging_pawn_capture_shows_a_positive_swing() {
    // White rook on a7 can take the black pawn still on b7, whose
    // mirrored table value is high; the searched score must beat the
    // standing evaluation and favor white.
    let mut p = Position::empty();
    p.set_piece(0, Some(Piece { color: Color::White, role: Role::King }));
    p.set_piece(48, Some(Piece { color: Color::White, role: Role::Rook }));
    p.set_piece(49, Some(Piece { color: Color::Black, role: Role::Pawn }));
    p.set_piece(63, Some(Piece { color: Color::Black, role: Role::King }));
    let before = evaluate(&p);
    let r = search(&p, 4);
    assert_eq!(r.moves.len(), 4);
    assert!(r.score > 0);
    assert!(r.score > before);
}

#[test]
fn search_by_notation_matches_the_direct_search() {
    let fen = b"8/8/k7/p7/2K5/1P6/8/8 w - - 0 1";
    let by_fen = fishermann::search::search_fen(fen, 3).expect("notation should parse");
    let direct = search(&position_from_fen(fen).unwrap(), 3);
    assert_eq!(by_fen.score, direct.score);
    assert!(fishermann::search::search_fen(b"not a position", 3).is_none());
}

#[test]
fn agreement_law_holds_on_a_real_position() {
    let p = position_from_fen(b"8/8/k7/p7/2K5/1P6/8/8 w - - 0 1").expect("notation should parse");
    let (pruned, exhaustive) = fishermann::search::searches_agree(&p, 2);
    assert_eq!(pruned, exhaustive);
}

#[test]
fn principal_variation_replays_as_a_legal_line() {
    let p = position_from_fen(b"8/8/k7/p7/2K5/1P6/8/8 w - - 0 1").expect("notation should parse");
    let r = search(&p, 3);
    assert_eq!(r.moves.len(), 3);
    let mut line = r.moves.clone();
    line.reverse();
    let mut cur = p;
    for mv in &line {
        assert!(fishermann::movegen::legal_moves(&cur).contains(mv));
        cur = apply_move(&cur, mv);
    }
}
