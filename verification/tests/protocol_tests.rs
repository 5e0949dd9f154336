use fishermann::protocol::{
    analyze_commands, handshake_step, is_ready_ack, reader_step, set_option_commands,
    start_command, HandshakeState,
};
use fishermann::uci::{encode_command, Analysis, Command, MoveText, PossibleMove, Reply};

fn info_reply() -> Reply {
    Reply::Info(PossibleMove { depth: 3, score: 17, multi_pv: 1, moves: Vec::new() })
}

fn best_move_reply() -> Reply {
    Reply::BestMove(MoveText { from: 12, to: 28, promotion: None })
}

#[test]
fn handshake_reaches_ready_on_the_expected_replies() {
    let mut s = HandshakeState::AwaitId;
    // Engines may print banners before identifying themselves.
    let (s1, c1) = handshake_step(s, &Reply::Other);
    assert_eq!(s1, HandshakeState::AwaitId);
    assert!(c1.is_empty());
    s = s1;
    let (s2, c2) = handshake_step(s, &Reply::Id);
    assert_eq!(s2, HandshakeState::AwaitUciOk);
    assert!(c2.is_empty());
    s = s2;
    // Option announcements arrive before the options-complete mark.
    let (s3, _) = handshake_step(s, &Reply::Other);
    assert_eq!(s3, HandshakeState::AwaitUciOk);
    s = s3;
    let (s4, c4) = handshake_step(s, &Reply::UciOk);
    assert_eq!(s4, HandshakeState::AwaitFirstReady);
    assert_eq!(c4.len(), 1);
    assert_eq!(encode_command(&c4[0]), b"isready\n");
    s = s4;
    let (s5, c5) = handshake_step(s, &Reply::ReadyOk);
    assert_eq!(s5, HandshakeState::AwaitSecondReady);
    assert_eq!(c5.len(), 3);
    assert_eq!(encode_command(&c5[0]), b"setoption name Threads value 4\n");
    assert_eq!(
        encode_command(&c5[1]),
        b"setoption name UCI_AnalyseMode value true\n"
    );
    assert_eq!(encode_command(&c5[2]), b"isready\n");
    s = s5;
    let (s6, c6) = handshake_step(s, &Reply::ReadyOk);
    assert_eq!(s6, HandshakeState::Ready);
    assert!(c6.is_empty());
}

#[test]
fn handshake_fails_on_an_unexpected_reply_before_ready_ack() {
    let (s, _) = handshake_step(HandshakeState::AwaitFirstReady, &Reply::Other);
    assert_eq!(s, HandshakeState::Failed);
    let (s2, _) = handshake_step(HandshakeState::AwaitSecondReady, &info_reply());
    assert_eq!(s2, HandshakeState::Failed);
    // A failed handshake never recovers.
    let (s3, _) = handshake_step(HandshakeState::Failed, &Reply::ReadyOk);
    assert_eq!(s3, HandshakeState::Failed);
}

#[test]
fn start_command_opens_with_the_init_line() {
    let cs = start_command();
    assert_eq!(cs.len(), 1);
    assert_eq!(encode_command(&cs[0]), b"uci\n");
}

#[test]
fn dropped_stream_sends_stop_exactly_once() {
    // The consumer reads one candidate line, then goes away: the next
    // delivery attempt sends one stop command and the reader exits.
    let mut stops = 0;
    let st1 = reader_step(info_reply(), true);
    assert!(st1.emit.is_some());
    assert!(!st1.send_stop && !st1.exit && !st1.fatal);
    if st1.send_stop {
        stops += 1;
    }
    let st2 = reader_step(info_reply(), false);
    assert!(st2.emit.is_none());
    assert!(st2.send_stop && st2.exit && !st2.fatal);
    if st2.send_stop {
        stops += 1;
    }
    assert!(st2.exit);
    assert_eq!(stops, 1);
}

#[test]
fn completed_stream_ends_at_the_best_move_without_stop() {
    let st1 = reader_step(info_reply(), true);
    assert!(!st1.exit && !st1.send_stop);
    let st2 = reader_step(best_move_reply(), true);
    assert!(st2.exit && !st2.send_stop && !st2.fatal);
    match st2.emit {
        Some(Analysis::BestMove(mv)) => assert_eq!(mv.to, 28),
        _ => panic!("expected the terminal best move"),
    }
}

#[test]
fn unrecognized_reply_during_analysis_is_fatal() {
    let st = reader_step(Reply::Other, true);
    assert!(st.fatal && st.exit);
    assert!(st.emit.is_none() && !st.send_stop);
    // Fatal even when the consumer is gone: classification comes first.
    let st2 = reader_step(Reply::UciOk, false);
    assert!(st2.fatal && st2.exit);
}

#[test]
fn option_and_analyze_operations_build_their_command_pairs() {
    let cs = set_option_commands(b"MultiPV".to_vec(), b"3".to_vec());
    assert_eq!(cs.len(), 2);
    assert_eq!(encode_command(&cs[0]), b"setoption name MultiPV value 3\n");
    assert_eq!(encode_command(&cs[1]), b"isready\n");
    assert!(is_ready_ack(&Reply::ReadyOk));
    assert!(!is_ready_ack(&Reply::UciOk));

    let ac = analyze_commands(b"8/8/8/8/8/8/8/8 w - - 0 1".to_vec(), 9);
    assert_eq!(ac.len(), 2);
    assert_eq!(encode_command(&ac[0]), b"position fen 8/8/8/8/8/8/8/8 w - - 0 1\n");
    assert_eq!(encode_command(&ac[1]), b"go depth 9\n");
}

#[test]
fn analysis_exposes_its_candidate_line() {
    let a = Analysis::PossibleMove(PossibleMove {
        depth: 5,
        score: -12,
        multi_pv: 2,
        moves: vec![MoveText { from: 12, to: 28, promotion: None }],
    });
    let pm = a.as_possible_move();
    assert_eq!(pm.depth, 5);
    assert_eq!(pm.score, -12);
    assert_eq!(pm.multi_pv, 2);
    assert_eq!(pm.moves.len(), 1);
}
