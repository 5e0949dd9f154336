use fishermann::board::{ChessMove, Color, Piece, Position, Role};
use fishermann::uci::{encode_command, parse_reply, Command, Reply};
use fishermann::util::{bucket_elo, moves2string, uci2move, Elo};

#[test]
fn commands_encode_to_their_exact_lines() {
    assert_eq!(encode_command(&Command::Init), b"uci\n");
    assert_eq!(encode_command(&Command::IsReady), b"isready\n");
    assert_eq!(encode_command(&Command::Stop), b"stop\n");
    assert_eq!(
        encode_command(&Command::SetOption { name: b"MultiPV".to_vec(), value: b"5".to_vec() }),
        b"setoption name MultiPV value 5\n"
    );
    assert_eq!(
        encode_command(&Command::SetPosition { fen: b"8/8/8/8/8/8/8/8 w - - 0 1".to_vec() }),
        b"position fen 8/8/8/8/8/8/8/8 w - - 0 1\n"
    );
    assert_eq!(encode_command(&Command::Go { depth: 10 }), b"go depth 10\n");
    assert_eq!(encode_command(&Command::Go { depth: 7 }), b"go depth 7\n");
    assert_eq!(encode_command(&Command::Go { depth: 255 }), b"go depth 255\n");
}

#[test]
fn simple_replies_classify_by_their_first_token() {
    assert!(matches!(parse_reply(b"uciok"), Reply::UciOk));
    assert!(matches!(parse_reply(b"uciok\n"), Reply::UciOk));
    assert!(matches!(parse_reply(b"readyok\r\n"), Reply::ReadyOk));
    assert!(matches!(parse_reply(b"id name Stockfish 15"), Reply::Id));
    assert!(matches!(parse_reply(b"option name Hash type spin"), Reply::Other));
    assert!(matches!(parse_reply(b""), Reply::Other));
    assert!(matches!(parse_reply(b"   "), Reply::Other));
}

#[test]
fn best_move_lines_carry_the_move() {
    match parse_reply(b"bestmove e2e4 ponder e7e5") {
        Reply::BestMove(mv) => {
            assert_eq!(mv.from, 12);
            assert_eq!(mv.to, 28);
            assert_eq!(mv.promotion, None);
        },
        _ => panic!("expected a best move"),
    }
    match parse_reply(b"bestmove e7e8q") {
        Reply::BestMove(mv) => {
            assert_eq!(mv.from, 52);
            assert_eq!(mv.to, 60);
            assert_eq!(mv.promotion, Some(Role::Queen));
        },
        _ => panic!("expected a best move"),
    }
    assert!(matches!(parse_reply(b"bestmove"), Reply::Other));
    assert!(matches!(parse_reply(b"bestmove x9z9"), Reply::Other));
}

#[test]
fn info_lines_fold_their_attributes() {
    match parse_reply(b"info depth 10 seldepth 12 multipv 2 score cp -35 nodes 4242 pv e2e4 e7e5")
    {
        Reply::Info(pm) => {
            assert_eq!(pm.depth, 10);
            assert_eq!(pm.multi_pv, 2);
            assert_eq!(pm.score, -35);
            assert_eq!(pm.moves.len(), 2);
            assert_eq!(pm.moves[0].from, 12);
            assert_eq!(pm.moves[0].to, 28);
            assert_eq!(pm.moves[1].from, 52);
            assert_eq!(pm.moves[1].to, 36);
        },
        _ => panic!("expected a candidate line"),
    }
}

#[test]
fn info_defaults_hold_when_attributes_are_absent() {
    match parse_reply(b"info score mate 5 string mating") {
        Reply::Info(pm) => {
            assert_eq!(pm.depth, 0);
            assert_eq!(pm.score, 0);
            assert_eq!(pm.multi_pv, 1);
            assert!(pm.moves.is_empty());
        },
        _ => panic!("expected a candidate line"),
    }
}

#[test]
fn moves2string_joins_origin_destination_notation() {
    let moves = vec![
        ChessMove::Normal { role: Role::Pawn, from: 12, to: 28, capture: None, promotion: None },
        ChessMove::Normal {
            role: Role::Pawn,
            from: 52,
            to: 60,
            capture: None,
            promotion: Some(Role::Queen),
        },
        ChessMove::Castle { king: 4, rook: 7 },
    ];
    assert_eq!(moves2string(&moves), "e2e4, e7e8q, e1g1");
    assert_eq!(moves2string(&Vec::new()), "");
}

#[test]
fn uci2move_reads_the_board() {
    let mut p = Position::empty();
    p.set_piece(12, Some(Piece { color: Color::White, role: Role::Knight }));
    p.set_piece(28, Some(Piece { color: Color::Black, role: Role::Bishop }));
    let mv = uci2move(12, 28, None, &p);
    assert_eq!(
        mv,
        ChessMove::Normal {
            role: Role::Knight,
            from: 12,
            to: 28,
            capture: Some(Role::Bishop),
            promotion: None,
        }
    );
}

#[test]
fn elo_buckets_split_at_their_bounds() {
    assert_eq!(bucket_elo(0), Elo::Beginner);
    assert_eq!(bucket_elo(1200), Elo::Beginner);
    assert_eq!(bucket_elo(1201), Elo::Intermediate);
    assert_eq!(bucket_elo(1800), Elo::Intermediate);
    assert_eq!(bucket_elo(1801), Elo::Advanced);
    assert_eq!(bucket_elo(2400), Elo::Advanced);
    assert_eq!(bucket_elo(2401), Elo::Master);
    assert!(Elo::Beginner < Elo::Master);
}
