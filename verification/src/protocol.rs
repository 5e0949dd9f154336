//! The engine process adapter's decision logic, as two state machines.
//!
//! The handshake machine drives startup: it skips preamble until an
//! identification line, waits for the options-complete acknowledgment,
//! probes readiness, applies the fixed default configuration, and probes
//! again; any unexpected reply where a ready acknowledgment is owed is
//! fatal. The reader machine drives one analysis stream: it classifies
//! each reply into a candidate line or the terminal best move, stops the
//! engine once when the consumer has gone away, and treats anything
//! outside the recognized subset as a fatal protocol error.
//!
//! The surrounding process, pipe and thread handling performs whatever
//! commands the machines emit; every decision is taken here.

use vstd::prelude::*;

use crate::uci::{Analysis, AnalysisV, Command, CommandV, PossibleMoveV, Reply, ReplyV};

verus! {

/// Where the startup handshake stands.
#[derive(Clone, Copy, PartialEq, Eq, Structural, Debug)]
pub enum HandshakeState {
    AwaitId,
    AwaitUciOk,
    AwaitFirstReady,
    AwaitSecondReady,
    Ready,
    Failed,
}

/// The views of a list of commands.
pub open spec fn deep_cmds(cs: Seq<Command>) -> Seq<CommandV> {
    cs.map_values(|c: Command| c@)
}

/// The bytes of `"Threads"`.
pub open spec fn threads_name() -> Seq<u8> {
    seq![84u8, 104u8, 114u8, 101u8, 97u8, 100u8, 115u8]
}

/// The bytes of `"4"`.
pub open spec fn threads_value() -> Seq<u8> {
    seq![52u8]
}

/// The bytes of `"UCI_AnalyseMode"`.
pub open spec fn analyse_mode_name() -> Seq<u8> {
    seq![85u8, 67u8, 73u8, 95u8, 65u8, 110u8, 97u8, 108u8, 121u8, 115u8, 101u8, 77u8, 111u8,
        100u8, 101u8]
}

/// The bytes of `"true"`.
pub open spec fn analyse_mode_value() -> Seq<u8> {
    seq![116u8, 114u8, 117u8, 101u8]
}

/// The fixed default configuration applied after the first ready
/// acknowledgment: a worker-thread count, the analysis-mode flag, and a
/// final ready probe.
pub open spec fn config_commands_spec() -> Seq<CommandV> {
    seq![
        CommandV::SetOption { name: threads_name(), value: threads_value() },
        CommandV::SetOption { name: analyse_mode_name(), value: analyse_mode_value() },
        CommandV::IsReady,
    ]
}

/// One step of the startup handshake: the next state, and the commands to
/// send before reading on. Preamble is skipped until the identification
/// line; anything is tolerated until the options-complete acknowledgment;
/// after that, only the owed ready acknowledgments are accepted.
pub open spec fn handshake_step_spec(s: HandshakeState, r: ReplyV) -> (HandshakeState, Seq<
    CommandV,
>) {
    match s {
        HandshakeState::AwaitId => match r {
            ReplyV::Id => (HandshakeState::AwaitUciOk, Seq::empty()),
            _ => (HandshakeState::AwaitId, Seq::empty()),
        },
        HandshakeState::AwaitUciOk => match r {
            ReplyV::UciOk => (HandshakeState::AwaitFirstReady, seq![CommandV::IsReady]),
            _ => (HandshakeState::AwaitUciOk, Seq::empty()),
        },
        HandshakeState::AwaitFirstReady => match r {
            ReplyV::ReadyOk => (HandshakeState::AwaitSecondReady, config_commands_spec()),
            _ => (HandshakeState::Failed, Seq::empty()),
        },
        HandshakeState::AwaitSecondReady => match r {
            ReplyV::ReadyOk => (HandshakeState::Ready, Seq::empty()),
            _ => (HandshakeState::Failed, Seq::empty()),
        },
        HandshakeState::Ready => (HandshakeState::Ready, Seq::empty()),
        HandshakeState::Failed => (HandshakeState::Failed, Seq::empty()),
    }
}

/// The command that opens the handshake.
pub fn start_command() -> (r: Vec<Command>)
    ensures
        deep_cmds(r@) == seq![CommandV::Init],
{
    let r = vec![Command::Init];
    proof {
        assert(deep_cmds(r@) =~= seq![CommandV::Init]);
    }
    r
}

/// The executable fixed default configuration.
fn config_commands() -> (r: Vec<Command>)
    ensures
        deep_cmds(r@) == config_commands_spec(),
{
    let threads_n = vec![84u8, 104, 114, 101, 97, 100, 115];
    let threads_v = vec![52u8];
    let analyse_n = vec![85u8, 67, 73, 95, 65, 110, 97, 108, 121, 115, 101, 77, 111, 100, 101];
    let analyse_v = vec![116u8, 114, 117, 101];
    proof {
        assert(threads_n@ =~= threads_name());
        assert(threads_v@ =~= threads_value());
        assert(analyse_n@ =~= analyse_mode_name());
        assert(analyse_v@ =~= analyse_mode_value());
    }
    let r = vec![
        Command::SetOption { name: threads_n, value: threads_v },
        Command::SetOption { name: analyse_n, value: analyse_v },
        Command::IsReady,
    ];
    proof {
        assert(deep_cmds(r@) =~= config_commands_spec());
    }
    r
}

/// Take one step of the startup handshake.
pub fn handshake_step(s: HandshakeState, r: &Reply) -> (res: (HandshakeState, Vec<Command>))
    ensures
        res.0 == handshake_step_spec(s, r@).0,
        deep_cmds(res.1@) == handshake_step_spec(s, r@).1,
{
    let res = match s {
        HandshakeState::AwaitId => match r {
            Reply::Id => (HandshakeState::AwaitUciOk, Vec::new()),
            _ => (HandshakeState::AwaitId, Vec::new()),
        },
        HandshakeState::AwaitUciOk => match r {
            Reply::UciOk => (HandshakeState::AwaitFirstReady, vec![Command::IsReady]),
            _ => (HandshakeState::AwaitUciOk, Vec::new()),
        },
        HandshakeState::AwaitFirstReady => match r {
            Reply::ReadyOk => (HandshakeState::AwaitSecondReady, config_commands()),
            _ => (HandshakeState::Failed, Vec::new()),
        },
        HandshakeState::AwaitSecondReady => match r {
            Reply::ReadyOk => (HandshakeState::Ready, Vec::new()),
            _ => (HandshakeState::Failed, Vec::new()),
        },
        HandshakeState::Ready => (HandshakeState::Ready, Vec::new()),
        HandshakeState::Failed => (HandshakeState::Failed, Vec::new()),
    };
    proof {
        assert(deep_cmds(res.1@) =~= handshake_step_spec(s, r@).1);
    }
    res
}

/// The state reached by feeding a sequence of replies to the handshake.
pub open spec fn run_handshake(s: HandshakeState, msgs: Seq<ReplyV>) -> HandshakeState
    decreases msgs.len(),
{
    if msgs.len() == 0 {
        s
    } else {
        run_handshake(handshake_step_spec(s, msgs[0]).0, msgs.drop_first())
    }
}

/// Running a handshake over two message lists in turn is running it over
/// their concatenation.
pub proof fn lemma_run_handshake_append(s: HandshakeState, a: Seq<ReplyV>, b: Seq<ReplyV>)
    ensures
        run_handshake(s, a + b) == run_handshake(run_handshake(s, a), b),
    decreases a.len(),
{
    if a.len() == 0 {
        assert(a + b =~= b);
    } else {
        assert((a + b).drop_first() =~= a.drop_first() + b);
        lemma_run_handshake_append(handshake_step_spec(s, a[0]).0, a.drop_first(), b);
    }
}

/// Preamble without an identification line is skipped.
proof fn lemma_handshake_skips_preamble(pre: Seq<ReplyV>)
    requires
        forall|i: int| 0 <= i < pre.len() ==> !(#[trigger] pre[i] is Id),
    ensures
        run_handshake(HandshakeState::AwaitId, pre) == HandshakeState::AwaitId,
    decreases pre.len(),
{
    if pre.len() > 0 {
        assert(!(pre[0] is Id));
        lemma_handshake_skips_preamble(pre.drop_first());
    }
}

/// Anything is tolerated while the options-complete acknowledgment is
/// awaited.
proof fn lemma_handshake_awaits_uciok(pre: Seq<ReplyV>)
    requires
        forall|i: int| 0 <= i < pre.len() ==> !(#[trigger] pre[i] is UciOk),
    ensures
        run_handshake(HandshakeState::AwaitUciOk, pre) == HandshakeState::AwaitUciOk,
    decreases pre.len(),
{
    if pre.len() > 0 {
        lemma_handshake_awaits_uciok(pre.drop_first());
    }
}

/// A failed handshake stays failed.
pub proof fn lemma_handshake_failed_absorbs(msgs: Seq<ReplyV>)
    ensures
        run_handshake(HandshakeState::Failed, msgs) == HandshakeState::Failed,
    decreases msgs.len(),
{
    if msgs.len() > 0 {
        lemma_handshake_failed_absorbs(msgs.drop_first());
    }
}

/// A process that emits a valid identification line, the options-complete
/// acknowledgment, and the two owed ready acknowledgments — with any
/// preamble before the identification line and any messages before the
/// options-complete acknowledgment — takes the handshake to a usable
/// session.
pub proof fn lemma_handshake_success(pre_id: Seq<ReplyV>, pre_ok: Seq<ReplyV>)
    requires
        forall|i: int| 0 <= i < pre_id.len() ==> !(#[trigger] pre_id[i] is Id),
        forall|i: int| 0 <= i < pre_ok.len() ==> !(#[trigger] pre_ok[i] is UciOk),
    ensures
        run_handshake(
            HandshakeState::AwaitId,
            pre_id + seq![ReplyV::Id] + pre_ok + seq![
                ReplyV::UciOk,
                ReplyV::ReadyOk,
                ReplyV::ReadyOk,
            ],
        ) == HandshakeState::Ready,
{
    let tail = seq![ReplyV::UciOk, ReplyV::ReadyOk, ReplyV::ReadyOk];
    lemma_run_handshake_append(HandshakeState::AwaitId, pre_id, seq![ReplyV::Id] + pre_ok + tail);
    lemma_handshake_skips_preamble(pre_id);
    lemma_run_handshake_append(HandshakeState::AwaitId, seq![ReplyV::Id], pre_ok + tail);
    assert(run_handshake(HandshakeState::AwaitId, seq![ReplyV::Id]) == HandshakeState::AwaitUciOk)
        by {
        let one = seq![ReplyV::Id];
        assert(one.drop_first() =~= Seq::<ReplyV>::empty());
        assert(one[0] == ReplyV::Id);
        assert(handshake_step_spec(HandshakeState::AwaitId, ReplyV::Id).0
            == HandshakeState::AwaitUciOk);
        assert(run_handshake(HandshakeState::AwaitId, one) == run_handshake(
            HandshakeState::AwaitUciOk,
            one.drop_first(),
        ));
        assert(run_handshake(HandshakeState::AwaitUciOk, Seq::<ReplyV>::empty())
            == HandshakeState::AwaitUciOk);
    }
    assert(pre_id + seq![ReplyV::Id] + pre_ok + tail =~= pre_id + (seq![ReplyV::Id] + (pre_ok
        + tail)));
    assert(seq![ReplyV::Id] + pre_ok + tail =~= seq![ReplyV::Id] + (pre_ok + tail));
    lemma_run_handshake_append(HandshakeState::AwaitId, seq![ReplyV::Id], pre_ok + tail);
    lemma_run_handshake_append(HandshakeState::AwaitUciOk, pre_ok, tail);
    lemma_handshake_awaits_uciok(pre_ok);
    assert(run_handshake(HandshakeState::AwaitUciOk, tail) == HandshakeState::Ready) by {
        let t1 = tail.drop_first();
        let t2 = t1.drop_first();
        let t3 = t2.drop_first();
        assert(t1 =~= seq![ReplyV::ReadyOk, ReplyV::ReadyOk]);
        assert(t2 =~= seq![ReplyV::ReadyOk]);
        assert(t3 =~= Seq::<ReplyV>::empty());
        assert(run_handshake(HandshakeState::AwaitUciOk, tail) == run_handshake(
            HandshakeState::AwaitFirstReady,
            t1,
        ));
        assert(run_handshake(HandshakeState::AwaitFirstReady, t1) == run_handshake(
            HandshakeState::AwaitSecondReady,
            t2,
        ));
        assert(run_handshake(HandshakeState::AwaitSecondReady, t2) == run_handshake(
            HandshakeState::Ready,
            t3,
        ));
        assert(run_handshake(HandshakeState::Ready, t3) == HandshakeState::Ready);
    }
}

/// A reply that is not the owed ready acknowledgment, arriving where one
/// is owed, fails the handshake for good: the session is never usable.
pub proof fn lemma_handshake_rejects(s: HandshakeState, m: ReplyV, rest: Seq<ReplyV>)
    requires
        s == HandshakeState::AwaitFirstReady || s == HandshakeState::AwaitSecondReady,
        !(m is ReadyOk),
    ensures
        run_handshake(s, seq![m] + rest) == HandshakeState::Failed,
{
    assert((seq![m] + rest).drop_first() =~= rest);
    lemma_handshake_failed_absorbs(rest);
}

/// What one step of the background reader decides.
pub struct ReaderStep {
    pub emit: Option<Analysis>,
    pub send_stop: bool,
    pub exit: bool,
    pub fatal: bool,
}

/// The mathematical value of a reader step.
pub struct ReaderStepV {
    pub emit: Option<AnalysisV>,
    pub send_stop: bool,
    pub exit: bool,
    pub fatal: bool,
}

impl View for ReaderStep {
    type V = ReaderStepV;

    open spec fn view(&self) -> ReaderStepV {
        ReaderStepV {
            emit: match &self.emit {
                Some(a) => Some(a@),
                None => None,
            },
            send_stop: self.send_stop,
            exit: self.exit,
            fatal: self.fatal,
        }
    }
}

/// How a reply is classified during analysis: a progress report becomes a
/// candidate line, the terminal message the best move, anything else is
/// outside the recognized set.
pub open spec fn classify_spec(r: ReplyV) -> Option<AnalysisV> {
    match r {
        ReplyV::Info(pm) => Some(AnalysisV::PossibleMove(pm)),
        ReplyV::BestMove(m) => Some(AnalysisV::BestMove(m)),
        _ => None,
    }
}

/// One step of the background reader. A reply outside the recognized set
/// is a fatal protocol error. With the consumer gone, nothing is
/// delivered: the engine is told to stop and the reader exits — so the
/// stop command is sent exactly once per abandoned stream. Otherwise the
/// message is delivered, and the best move ends the stream.
pub open spec fn reader_step_spec(r: ReplyV, consumer_alive: bool) -> ReaderStepV {
    match classify_spec(r) {
        None => ReaderStepV { emit: None, send_stop: false, exit: true, fatal: true },
        Some(a) => {
            if !consumer_alive {
                ReaderStepV { emit: None, send_stop: true, exit: true, fatal: false }
            } else {
                ReaderStepV {
                    emit: Some(a),
                    send_stop: false,
                    exit: a is BestMove,
                    fatal: false,
                }
            }
        },
    }
}

/// Take one step of the background reader.
pub fn reader_step(r: Reply, consumer_alive: bool) -> (res: ReaderStep)
    ensures
        res@ == reader_step_spec(r@, consumer_alive),
{
    let analysis = match r {
        Reply::Info(pm) => Analysis::PossibleMove(pm),
        Reply::BestMove(m) => Analysis::BestMove(m),
        _ => {
            return ReaderStep { emit: None, send_stop: false, exit: true, fatal: true };
        },
    };
    if !consumer_alive {
        ReaderStep { emit: None, send_stop: true, exit: true, fatal: false }
    } else {
        let exit = match &analysis {
            Analysis::BestMove(_) => true,
            Analysis::PossibleMove(_) => false,
        };
        ReaderStep { emit: Some(analysis), send_stop: false, exit, fatal: false }
    }
}

/// How many stop commands a reader run sends, reading replies from `i`
/// on, with `alive[j]` saying whether the consumer still reads when the
/// `j`-th reply is handled, until the first step that exits.
pub open spec fn reader_stops(msgs: Seq<ReplyV>, alive: Seq<bool>, i: int) -> int
    decreases msgs.len() - i,
{
    if i < 0 || i >= msgs.len() || i >= alive.len() {
        0
    } else {
        let st = reader_step_spec(msgs[i], alive[i]);
        (if st.send_stop {
            1int
        } else {
            0int
        }) + (if st.exit {
            0int
        } else {
            reader_stops(msgs, alive, i + 1)
        })
    }
}

/// Dropping the stream before the best move arrives makes the reader send
/// the stop command to the process exactly once: the run delivers the
/// candidate lines read while the consumer was there, and the first
/// delivery attempt after the drop sends one stop and ends the reader.
pub proof fn lemma_cancellation_stops_once(msgs: Seq<ReplyV>, alive: Seq<bool>, k: int)
    requires
        alive.len() == msgs.len(),
        0 <= k < msgs.len(),
        forall|i: int| 0 <= i < k ==> #[trigger] alive[i],
        !alive[k],
        forall|i: int| 0 <= i <= k ==> #[trigger] msgs[i] is Info,
    ensures
        reader_stops(msgs, alive, 0) == 1,
{
    lemma_cancellation_stops_once_from(msgs, alive, k, 0);
}

/// Helper for the cancellation law, generalized over the start index.
proof fn lemma_cancellation_stops_once_from(msgs: Seq<ReplyV>, alive: Seq<bool>, k: int, i: int)
    requires
        alive.len() == msgs.len(),
        0 <= i <= k < msgs.len(),
        forall|j: int| 0 <= j < k ==> #[trigger] alive[j],
        !alive[k],
        forall|j: int| 0 <= j <= k ==> #[trigger] msgs[j] is Info,
    ensures
        reader_stops(msgs, alive, i) == 1,
    decreases k - i,
{
    if i < k {
        lemma_cancellation_stops_once_from(msgs, alive, k, i + 1);
    }
}

/// A stream read to its end sends no stop command: the reader delivers
/// every candidate line and the one terminal best move, then exits.
pub proof fn lemma_completed_stream_no_stop(msgs: Seq<ReplyV>, alive: Seq<bool>, k: int)
    requires
        alive.len() == msgs.len(),
        0 <= k < msgs.len(),
        forall|i: int| 0 <= i <= k ==> #[trigger] alive[i],
        forall|i: int| 0 <= i < k ==> #[trigger] msgs[i] is Info,
        msgs[k] is BestMove,
    ensures
        reader_stops(msgs, alive, 0) == 0,
{
    lemma_completed_stream_no_stop_from(msgs, alive, k, 0);
}

/// Helper for the completed-stream law, generalized over the start index.
proof fn lemma_completed_stream_no_stop_from(msgs: Seq<ReplyV>, alive: Seq<bool>, k: int, i: int)
    requires
        alive.len() == msgs.len(),
        0 <= i <= k < msgs.len(),
        forall|j: int| 0 <= j <= k ==> #[trigger] alive[j],
        forall|j: int| 0 <= j < k ==> #[trigger] msgs[j] is Info,
        msgs[k] is BestMove,
    ensures
        reader_stops(msgs, alive, i) == 0,
    decreases k - i,
{
    if i < k {
        lemma_completed_stream_no_stop_from(msgs, alive, k, i + 1);
    }
}

/// The two commands of an option-set operation: the option, then the
/// ready probe whose acknowledgment the caller must await.
pub fn set_option_commands(name: Vec<u8>, value: Vec<u8>) -> (r: Vec<Command>)
    ensures
        deep_cmds(r@) == seq![
            CommandV::SetOption { name: name@, value: value@ },
            CommandV::IsReady,
        ],
{
    let ghost n = name@;
    let ghost v = value@;
    let r = vec![Command::SetOption { name, value }, Command::IsReady];
    proof {
        assert(deep_cmds(r@) =~= seq![CommandV::SetOption { name: n, value: v }, CommandV::IsReady]);
    }
    r
}

/// Whether a reply is the ready acknowledgment an option-set operation
/// waits for; anything else there is fatal.
pub fn is_ready_ack(r: &Reply) -> (b: bool)
    ensures
        b == (r@ is ReadyOk),
{
    match r {
        Reply::ReadyOk => true,
        _ => false,
    }
}

/// The two commands that begin one analysis: set the position by its
/// standard notation, then search to the fixed depth.
pub fn analyze_commands(fen: Vec<u8>, depth: u8) -> (r: Vec<Command>)
    ensures
        deep_cmds(r@) == seq![
            CommandV::SetPosition { fen: fen@ },
            CommandV::Go { depth },
        ],
{
    let ghost f = fen@;
    let r = vec![Command::SetPosition { fen }, Command::Go { depth }];
    proof {
        assert(deep_cmds(r@) =~= seq![CommandV::SetPosition { fen: f }, CommandV::Go { depth }]);
    }
    r
}

} // verus!
