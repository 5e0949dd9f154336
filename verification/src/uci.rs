//! The UCI message model and line codec: the command subset the adapter
//! sends, the reply subset it understands, and the exact bytes of each.
//! The protocol is line oriented; every command ends in a newline and
//! every reply arrives as one line, split into whitespace-separated
//! tokens.

use vstd::prelude::*;

use crate::board::Role;

verus! {

/// A move written in origin-destination notation: two squares and an
/// optional promotion role.
#[derive(Clone, Copy, PartialEq, Eq, Debug)]
pub struct MoveText {
    pub from: u8,
    pub to: u8,
    pub promotion: Option<Role>,
}

/// A candidate line reported by the engine while it searches: the depth
/// reached, the centipawn score, the multi-variation slot and the
/// principal variation.
#[derive(Clone, Debug)]
pub struct PossibleMove {
    pub depth: u8,
    pub score: i32,
    pub multi_pv: u16,
    pub moves: Vec<MoveText>,
}

/// The mathematical value of a candidate line.
pub struct PossibleMoveV {
    pub depth: u8,
    pub score: i32,
    pub multi_pv: u16,
    pub moves: Seq<MoveText>,
}

impl View for PossibleMove {
    type V = PossibleMoveV;

    open spec fn view(&self) -> PossibleMoveV {
        PossibleMoveV {
            depth: self.depth,
            score: self.score,
            multi_pv: self.multi_pv,
            moves: self.moves@,
        }
    }
}

/// One message of an analysis stream: a candidate line while the engine
/// searches, or the final best move, which ends the stream.
#[derive(Clone, Debug)]
pub enum Analysis {
    PossibleMove(PossibleMove),
    BestMove(MoveText),
}

/// The mathematical value of an analysis message.
pub enum AnalysisV {
    PossibleMove(PossibleMoveV),
    BestMove(MoveText),
}

impl View for Analysis {
    type V = AnalysisV;

    open spec fn view(&self) -> AnalysisV {
        match self {
            Analysis::PossibleMove(pm) => AnalysisV::PossibleMove(pm@),
            Analysis::BestMove(mv) => AnalysisV::BestMove(*mv),
        }
    }
}

impl Analysis {
    /// The candidate line inside this message. Asking this of a best-move
    /// message is a caller error, so that case is excluded.
    pub fn as_possible_move(&self) -> (r: &PossibleMove)
        requires
            self@ is PossibleMove,
        ensures
            AnalysisV::PossibleMove(r@) == self@,
    {
        match self {
            Analysis::PossibleMove(pmv) => pmv,
            Analysis::BestMove(_) => {
                proof {
                    assert(false);
                }
                unreached()
            },
        }
    }
}

/// A command sent to the engine.
#[derive(Clone, Debug)]
pub enum Command {
    Init,
    IsReady,
    SetOption { name: Vec<u8>, value: Vec<u8> },
    SetPosition { fen: Vec<u8> },
    Go { depth: u8 },
    Stop,
}

/// The mathematical value of a command.
pub enum CommandV {
    Init,
    IsReady,
    SetOption { name: Seq<u8>, value: Seq<u8> },
    SetPosition { fen: Seq<u8> },
    Go { depth: u8 },
    Stop,
}

impl View for Command {
    type V = CommandV;

    open spec fn view(&self) -> CommandV {
        match self {
            Command::Init => CommandV::Init,
            Command::IsReady => CommandV::IsReady,
            Command::SetOption { name, value } => CommandV::SetOption {
                name: name@,
                value: value@,
            },
            Command::SetPosition { fen } => CommandV::SetPosition { fen: fen@ },
            Command::Go { depth } => CommandV::Go { depth: *depth },
            Command::Stop => CommandV::Stop,
        }
    }
}

/// The bytes of `"uci\n"`.
pub open spec fn uci_line() -> Seq<u8> {
    seq![117u8, 99u8, 105u8, 10u8]
}

/// The bytes of `"isready\n"`.
pub open spec fn isready_line() -> Seq<u8> {
    seq![105u8, 115u8, 114u8, 101u8, 97u8, 100u8, 121u8, 10u8]
}

/// The bytes of `"stop\n"`.
pub open spec fn stop_line() -> Seq<u8> {
    seq![115u8, 116u8, 111u8, 112u8, 10u8]
}

/// The bytes of `"setoption name "`.
pub open spec fn setoption_prefix() -> Seq<u8> {
    seq![
        115u8, 101u8, 116u8, 111u8, 112u8, 116u8, 105u8, 111u8, 110u8, 32u8, 110u8, 97u8, 109u8,
        101u8, 32u8,
    ]
}

/// The bytes of `" value "`.
pub open spec fn value_infix() -> Seq<u8> {
    seq![32u8, 118u8, 97u8, 108u8, 117u8, 101u8, 32u8]
}

/// The bytes of `"position fen "`.
pub open spec fn position_prefix() -> Seq<u8> {
    seq![
        112u8, 111u8, 115u8, 105u8, 116u8, 105u8, 111u8, 110u8, 32u8, 102u8, 101u8, 110u8, 32u8,
    ]
}

/// The bytes of `"go depth "`.
pub open spec fn go_prefix() -> Seq<u8> {
    seq![103u8, 111u8, 32u8, 100u8, 101u8, 112u8, 116u8, 104u8, 32u8]
}

/// The decimal digits of a number, most significant first.
pub open spec fn dec_bytes(n: nat) -> Seq<u8>
    decreases n,
{
    if n < 10 {
        seq![(48 + n) as u8]
    } else {
        dec_bytes(n / 10) + seq![(48 + n % 10) as u8]
    }
}

/// Printing a number and reading the digits back gives the number: the
/// command encoder and the reply parser agree on decimals.
pub proof fn lemma_dec_round_trip(n: nat)
    ensures
        dec_val(dec_bytes(n)) == n,
    decreases n,
{
    if n >= 10 {
        lemma_dec_round_trip(n / 10);
        let t = dec_bytes(n / 10);
        let whole = t + seq![(48 + n % 10) as u8];
        assert(whole.drop_last() =~= t);
        assert(0 <= n % 10 < 10);
        assert(whole.last() == 48 + n % 10);
        assert(dec_val(whole) == dec_val(t) * 10 + (whole.last() - 48));
        assert(dec_val(whole) == (n / 10) * 10 + n % 10);
        vstd::arithmetic::div_mod::lemma_fundamental_div_mod(n as int, 10);
    } else {
        let s = dec_bytes(n);
        assert(s =~= seq![(48 + n) as u8]);
        assert(s.drop_last() =~= Seq::<u8>::empty());
        assert(dec_val(s) == dec_val(s.drop_last()) * 10 + (s.last() - 48));
        assert(dec_val(s.drop_last()) == 0);
        assert(s.last() == 48 + n);
    }
}

/// The exact line a command is sent as, newline included.
pub open spec fn command_bytes(c: CommandV) -> Seq<u8> {
    match c {
        CommandV::Init => uci_line(),
        CommandV::IsReady => isready_line(),
        CommandV::SetOption { name, value } => setoption_prefix() + name + value_infix() + value
            + seq![10u8],
        CommandV::SetPosition { fen } => position_prefix() + fen + seq![10u8],
        CommandV::Go { depth } => go_prefix() + dec_bytes(depth as nat) + seq![10u8],
        CommandV::Stop => stop_line(),
    }
}

/// Append a copy of a byte vector.
fn append_bytes(out: &mut Vec<u8>, src: &Vec<u8>)
    ensures
        final(out)@ == old(out)@ + src@,
{
    let mut i: usize = 0;
    while i < src.len()
        invariant
            0 <= i <= src@.len(),
            out@ == old(out)@ + src@.subrange(0, i as int),
        decreases src@.len() - i,
    {
        out.push(src[i]);
        i += 1;
        proof {
            assert(out@ =~= old(out)@ + src@.subrange(0, i as int));
        }
    }
    proof {
        assert(old(out)@ + src@.subrange(0, src@.len() as int) =~= old(out)@ + src@);
    }
}

/// Append the decimal digits of a byte-sized number.
fn append_decimal(out: &mut Vec<u8>, n: u8)
    ensures
        final(out)@ == old(out)@ + dec_bytes(n as nat),
{
    if n >= 100 {
        out.push(48 + n / 100);
        out.push(48 + (n / 10) % 10);
        out.push(48 + n % 10);
        proof {
            assert(n / 10 >= 10 && n / 10 < 26);
            assert(dec_bytes((n / 10) as nat) == dec_bytes(((n / 10) / 10) as nat) + seq![
                (48 + (n / 10) % 10) as u8,
            ]);
            assert((n / 10) / 10 == n / 100);
            assert(dec_bytes(n as nat) == dec_bytes((n / 10) as nat) + seq![(48 + n % 10) as u8]);
            assert(final(out)@ =~= old(out)@ + dec_bytes(n as nat));
        }
    } else if n >= 10 {
        out.push(48 + n / 10);
        out.push(48 + n % 10);
        proof {
            assert(dec_bytes(n as nat) == dec_bytes((n / 10) as nat) + seq![(48 + n % 10) as u8]);
            assert(final(out)@ =~= old(out)@ + dec_bytes(n as nat));
        }
    } else {
        out.push(48 + n);
        proof {
            assert(final(out)@ =~= old(out)@ + dec_bytes(n as nat));
        }
    }
}

/// Encode a command as the exact line the engine is sent.
pub fn encode_command(c: &Command) -> (r: Vec<u8>)
    ensures
        r@ == command_bytes(c@),
{
    let mut out: Vec<u8> = Vec::new();
    match c {
        Command::Init => {
            out.push(117);
            out.push(99);
            out.push(105);
            out.push(10);
            proof {
                assert(out@ =~= command_bytes(c@));
            }
        },
        Command::IsReady => {
            out.push(105);
            out.push(115);
            out.push(114);
            out.push(101);
            out.push(97);
            out.push(100);
            out.push(121);
            out.push(10);
            proof {
                assert(out@ =~= command_bytes(c@));
            }
        },
        Command::SetOption { name, value } => {
            out.push(115);
            out.push(101);
            out.push(116);
            out.push(111);
            out.push(112);
            out.push(116);
            out.push(105);
            out.push(111);
            out.push(110);
            out.push(32);
            out.push(110);
            out.push(97);
            out.push(109);
            out.push(101);
            out.push(32);
            proof {
                assert(out@ =~= setoption_prefix());
            }
            append_bytes(&mut out, name);
            out.push(32);
            out.push(118);
            out.push(97);
            out.push(108);
            out.push(117);
            out.push(101);
            out.push(32);
            proof {
                assert(out@ =~= setoption_prefix() + name@ + value_infix());
            }
            append_bytes(&mut out, value);
            out.push(10);
            proof {
                assert(out@ =~= command_bytes(c@));
            }
        },
        Command::SetPosition { fen } => {
            out.push(112);
            out.push(111);
            out.push(115);
            out.push(105);
            out.push(116);
            out.push(105);
            out.push(111);
            out.push(110);
            out.push(32);
            out.push(102);
            out.push(101);
            out.push(110);
            out.push(32);
            proof {
                assert(out@ =~= position_prefix());
            }
            append_bytes(&mut out, fen);
            out.push(10);
            proof {
                assert(out@ =~= command_bytes(c@));
            }
        },
        Command::Go { depth } => {
            out.push(103);
            out.push(111);
            out.push(32);
            out.push(100);
            out.push(101);
            out.push(112);
            out.push(116);
            out.push(104);
            out.push(32);
            proof {
                assert(out@ =~= go_prefix());
            }
            append_decimal(&mut out, *depth);
            out.push(10);
            proof {
                assert(out@ =~= command_bytes(c@));
            }
        },
        Command::Stop => {
            out.push(115);
            out.push(116);
            out.push(111);
            out.push(112);
            out.push(10);
            proof {
                assert(out@ =~= command_bytes(c@));
            }
        },
    }
    out
}

/// Whitespace for the purpose of splitting a protocol line into tokens:
/// control characters and the space.
pub open spec fn is_ws(c: u8) -> bool {
    c <= 32
}

/// The whitespace-separated tokens of a line, defined over its last byte:
/// whitespace closes the open token, any other byte extends it or opens
/// a new one.
pub open spec fn tokens_of(s: Seq<u8>) -> Seq<Seq<u8>>
    decreases s.len(),
{
    if s.len() == 0 {
        Seq::empty()
    } else {
        let n = s.len() as int;
        let c = s[n - 1];
        let rest = tokens_of(s.subrange(0, n - 1));
        if is_ws(c) {
            rest
        } else if n >= 2 && !is_ws(s[n - 2]) {
            rest.update(rest.len() - 1, rest.last().push(c))
        } else {
            rest.push(seq![c])
        }
    }
}

/// The views of a vector of byte vectors.
pub open spec fn deep_view(ts: Seq<Vec<u8>>) -> Seq<Seq<u8>> {
    ts.map_values(|t: Vec<u8>| t@)
}

/// Mapping to views commutes with appending one vector.
proof fn lemma_deep_push(ts: Seq<Vec<u8>>, v: Vec<u8>)
    ensures
        deep_view(ts.push(v)) == deep_view(ts).push(v@),
{
    assert(deep_view(ts.push(v)) =~= deep_view(ts).push(v@));
}

/// Split a line into its whitespace-separated tokens.
pub fn tokenize(line: &[u8]) -> (r: Vec<Vec<u8>>)
    ensures
        deep_view(r@) == tokens_of(line@),
{
    let mut out: Vec<Vec<u8>> = Vec::new();
    let mut cur: Vec<u8> = Vec::new();
    let mut i: usize = 0;
    while i < line.len()
        invariant
            0 <= i <= line@.len(),
            cur@.len() == 0 ==> deep_view(out@) == tokens_of(line@.subrange(0, i as int)) && (i
                == 0 || is_ws(line@[i as int - 1])),
            cur@.len() > 0 ==> deep_view(out@).push(cur@) == tokens_of(
                line@.subrange(0, i as int),
            ) && i > 0 && !is_ws(line@[i as int - 1]),
        decreases line@.len() - i,
    {
        let ghost pre = line@.subrange(0, i as int);
        let ghost post = line@.subrange(0, i as int + 1);
        proof {
            assert(post.subrange(0, i as int) =~= pre);
            assert(post[i as int] == line@[i as int]);
        }
        let c = line[i];
        if c <= 32 {
            if cur.len() > 0 {
                proof {
                    lemma_deep_push(out@, cur);
                }
                out.push(cur);
                cur = Vec::new();
            }
            proof {
                assert(tokens_of(post) == tokens_of(pre));
            }
        } else {
            if cur.len() == 0 {
                proof {
                    assert(tokens_of(post) == tokens_of(pre).push(seq![line@[i as int]]));
                }
            } else {
                proof {
                    let tk = tokens_of(pre);
                    assert(tk == deep_view(out@).push(cur@));
                    assert(tokens_of(post) == tk.update(tk.len() - 1, tk.last().push(
                        line@[i as int],
                    )));
                    assert(tk.update(tk.len() - 1, tk.last().push(line@[i as int])) =~= deep_view(
                        out@,
                    ).push(cur@.push(line@[i as int])));
                }
            }
            let ghost cur_old = cur@;
            cur.push(c);
            proof {
                assert(cur@ == cur_old.push(line@[i as int]));
                if cur_old.len() == 0 {
                    assert(cur@ =~= seq![line@[i as int]]);
                    assert(deep_view(out@).push(cur@) == tokens_of(post));
                } else {
                    assert(deep_view(out@).push(cur@) == tokens_of(post));
                }
            }
        }
        i += 1;
    }
    proof {
        assert(line@.subrange(0, line@.len() as int) =~= line@);
    }
    if cur.len() > 0 {
        proof {
            lemma_deep_push(out@, cur);
        }
        out.push(cur);
    }
    proof {
        assert(deep_view(out@) =~= tokens_of(line@));
    }
    out
}

/// A decimal digit.
pub open spec fn is_digit(c: u8) -> bool {
    48 <= c <= 57
}

/// A token of decimal digits only.
pub open spec fn all_digits(t: Seq<u8>) -> bool {
    forall|i: int| 0 <= i < t.len() ==> is_digit(#[trigger] t[i])
}

/// The number a digit string denotes, most significant digit first.
pub open spec fn dec_val(t: Seq<u8>) -> int
    decreases t.len(),
{
    if t.len() == 0 {
        0
    } else {
        dec_val(t.drop_last()) * 10 + (t.last() - 48)
    }
}

/// The number an unsigned decimal token denotes, when it is one and it
/// does not exceed the cap.
pub open spec fn parse_uint(t: Seq<u8>, max: int) -> Option<int> {
    if t.len() > 0 && all_digits(t) && dec_val(t) <= max {
        Some(dec_val(t))
    } else {
        None
    }
}

/// The number a signed decimal token denotes: an optional leading minus
/// sign, then digits, the magnitude capped.
pub open spec fn parse_int(t: Seq<u8>, max: int) -> Option<int> {
    if t.len() >= 2 && t[0] == 45 {
        match parse_uint(t.subrange(1, t.len() as int), max) {
            Some(v) => Some(-v),
            None => None,
        }
    } else {
        parse_uint(t, max)
    }
}

/// A digit string denotes a number that is not negative.
proof fn lemma_dec_val_nonneg(t: Seq<u8>)
    requires
        all_digits(t),
    ensures
        dec_val(t) >= 0,
    decreases t.len(),
{
    if t.len() > 0 {
        assert(all_digits(t.drop_last())) by {
            assert(forall|i: int|
                0 <= i < t.len() - 1 ==> is_digit(#[trigger] t.drop_last()[i]) == is_digit(t[i]));
        }
        lemma_dec_val_nonneg(t.drop_last());
    }
}

/// Extending a digit string can only grow the number it denotes.
proof fn lemma_dec_val_mono(t: Seq<u8>, n: int)
    requires
        0 <= n <= t.len(),
        all_digits(t),
    ensures
        dec_val(t.subrange(0, n)) <= dec_val(t),
    decreases t.len() - n,
{
    if n < t.len() {
        lemma_dec_val_mono(t, n + 1);
        let p = t.subrange(0, n + 1);
        assert(p.drop_last() =~= t.subrange(0, n));
        assert(all_digits(t.subrange(0, n))) by {
            assert(forall|i: int|
                0 <= i < n ==> is_digit(#[trigger] t.subrange(0, n)[i]) == is_digit(t[i]));
        }
        lemma_dec_val_nonneg(t.subrange(0, n));
        assert(dec_val(p) == dec_val(t.subrange(0, n)) * 10 + (p.last() - 48));
    } else {
        assert(t.subrange(0, n) =~= t);
    }
}

/// Parse an unsigned decimal number out of a token's tail, capped.
fn parse_uint_from(t: &Vec<u8>, start: usize, max: u32) -> (r: Option<u32>)
    requires
        start <= t@.len(),
    ensures
        match r {
            Some(v) => parse_uint(t@.subrange(start as int, t@.len() as int), max as int) == Some(
                v as int,
            ),
            None => parse_uint(t@.subrange(start as int, t@.len() as int), max as int)
                == None::<int>,
        },
{
    let ghost s = t@.subrange(start as int, t@.len() as int);
    if start == t.len() {
        return None;
    }
    let mut acc: u32 = 0;
    let mut i: usize = start;
    while i < t.len()
        invariant
            start <= i <= t@.len(),
            s == t@.subrange(start as int, t@.len() as int),
            acc <= max,
            acc == dec_val(s.subrange(0, i - start)),
            all_digits(s.subrange(0, i - start)),
        decreases t@.len() - i,
    {
        let c = t[i];
        proof {
            assert(s[i - start] == t@[i as int]);
        }
        if c < 48 || c > 57 {
            proof {
                assert(!is_digit(s[i - start]));
                assert(!all_digits(s));
            }
            return None;
        }
        let d: u32 = (c - 48) as u32;
        if d > max || acc > (max - d) / 10 {
            proof {
                let p = s.subrange(0, i - start + 1);
                assert(p.drop_last() =~= s.subrange(0, i - start));
                assert(dec_val(p) == acc * 10 + d);
                assert(dec_val(p) > max);
                if all_digits(s) {
                    lemma_dec_val_mono(s, i - start + 1);
                }
            }
            return None;
        }
        proof {
            let p = s.subrange(0, i - start + 1);
            assert(p.drop_last() =~= s.subrange(0, i - start));
            assert(acc * 10 <= ((max - d) / 10) * 10 <= max - d);
        }
        acc = acc * 10 + d;
        i += 1;
    }
    proof {
        assert(s.subrange(0, s.len() as int) =~= s);
    }
    Some(acc)
}

/// Parse a signed decimal number out of a token, its magnitude capped.
fn parse_int_tok(t: &Vec<u8>, max: u32) -> (r: Option<i32>)
    requires
        max <= 2147483647,
    ensures
        match r {
            Some(v) => parse_int(t@, max as int) == Some(v as int),
            None => parse_int(t@, max as int) == None::<int>,
        },
{
    if t.len() >= 2 && t[0] == 45 {
        match parse_uint_from(t, 1, max) {
            Some(v) => Some(-(v as i32)),
            None => None,
        }
    } else {
        match parse_uint_from(t, 0, max) {
            Some(v) => {
                proof {
                    assert(t@.subrange(0, t@.len() as int) =~= t@);
                }
                Some(v as i32)
            },
            None => {
                proof {
                    assert(t@.subrange(0, t@.len() as int) =~= t@);
                }
                None
            },
        }
    }
}

/// The square named by a file letter and a rank digit.
pub open spec fn square_of(file_c: u8, rank_c: u8) -> u8 {
    (((rank_c - 49) * 8 + (file_c - 97))) as u8
}

/// The move a token in origin-destination notation describes: two squares
/// and an optional promotion letter.
pub open spec fn parse_move_text(t: Seq<u8>) -> Option<MoveText> {
    if (t.len() == 4 || t.len() == 5) && 97 <= t[0] <= 104 && 49 <= t[1] <= 56 && 97 <= t[2] <= 104
        && 49 <= t[3] <= 56 {
        if t.len() == 5 {
            match Role::spec_from_lower(t[4]) {
                Some(r) => Some(
                    MoveText {
                        from: square_of(t[0], t[1]),
                        to: square_of(t[2], t[3]),
                        promotion: Some(r),
                    },
                ),
                None => None,
            }
        } else {
            Some(
                MoveText {
                    from: square_of(t[0], t[1]),
                    to: square_of(t[2], t[3]),
                    promotion: None,
                },
            )
        }
    } else {
        None
    }
}

/// A reply read from the engine, classified. Lines outside the
/// recognized subset are `Other`: tolerated as preamble during the
/// handshake, fatal during analysis.
#[derive(Clone, Debug)]
pub enum Reply {
    Id,
    UciOk,
    ReadyOk,
    Info(PossibleMove),
    BestMove(MoveText),
    Other,
}

/// The mathematical value of a reply.
pub enum ReplyV {
    Id,
    UciOk,
    ReadyOk,
    Info(PossibleMoveV),
    BestMove(MoveText),
    Other,
}

impl View for Reply {
    type V = ReplyV;

    open spec fn view(&self) -> ReplyV {
        match self {
            Reply::Id => ReplyV::Id,
            Reply::UciOk => ReplyV::UciOk,
            Reply::ReadyOk => ReplyV::ReadyOk,
            Reply::Info(pm) => ReplyV::Info(pm@),
            Reply::BestMove(mv) => ReplyV::BestMove(*mv),
            Reply::Other => ReplyV::Other,
        }
    }
}

/// The bytes of `"id"`.
pub open spec fn id_tok() -> Seq<u8> {
    seq![105u8, 100u8]
}

/// The bytes of `"uciok"`.
pub open spec fn uciok_tok() -> Seq<u8> {
    seq![117u8, 99u8, 105u8, 111u8, 107u8]
}

/// The bytes of `"readyok"`.
pub open spec fn readyok_tok() -> Seq<u8> {
    seq![114u8, 101u8, 97u8, 100u8, 121u8, 111u8, 107u8]
}

/// The bytes of `"bestmove"`.
pub open spec fn bestmove_tok() -> Seq<u8> {
    seq![98u8, 101u8, 115u8, 116u8, 109u8, 111u8, 118u8, 101u8]
}

/// The bytes of `"info"`.
pub open spec fn info_tok() -> Seq<u8> {
    seq![105u8, 110u8, 102u8, 111u8]
}

/// The bytes of `"depth"`.
pub open spec fn depth_tok() -> Seq<u8> {
    seq![100u8, 101u8, 112u8, 116u8, 104u8]
}

/// The bytes of `"multipv"`.
pub open spec fn multipv_tok() -> Seq<u8> {
    seq![109u8, 117u8, 108u8, 116u8, 105u8, 112u8, 118u8]
}

/// The bytes of `"score"`.
pub open spec fn score_tok() -> Seq<u8> {
    seq![115u8, 99u8, 111u8, 114u8, 101u8]
}

/// The bytes of `"cp"`.
pub open spec fn cp_tok() -> Seq<u8> {
    seq![99u8, 112u8]
}

/// The bytes of `"pv"`.
pub open spec fn pv_tok() -> Seq<u8> {
    seq![112u8, 118u8]
}

/// A candidate line before any attribute has been read: the
/// multi-variation slot defaults to the first, in case the engine never
/// names one.
pub open spec fn default_possible_move() -> PossibleMoveV {
    PossibleMoveV { depth: 0, score: 0, multi_pv: 1, moves: Seq::empty() }
}

/// The moves of a principal variation: the longest prefix of the
/// remaining tokens that reads as moves in origin-destination notation.
pub open spec fn pv_moves(toks: Seq<Seq<u8>>, i: int) -> Seq<MoveText>
    decreases toks.len() - i,
{
    if i < 0 || i >= toks.len() {
        Seq::empty()
    } else {
        match parse_move_text(toks[i]) {
            Some(m) => seq![m] + pv_moves(toks, i + 1),
            None => Seq::empty(),
        }
    }
}

/// Folding the attribute tokens of a progress report into a candidate
/// line: a recognized attribute with a readable value sets its field, the
/// principal variation takes the rest of the line, anything else is
/// skipped.
pub open spec fn info_fold(toks: Seq<Seq<u8>>, i: int, acc: PossibleMoveV) -> PossibleMoveV
    decreases toks.len() - i,
{
    if i < 0 || i >= toks.len() {
        acc
    } else {
        let t = toks[i];
        if t == depth_tok() && i + 1 < toks.len() && parse_uint(toks[i + 1], 255) is Some {
            info_fold(
                toks,
                i + 2,
                PossibleMoveV { depth: parse_uint(toks[i + 1], 255)->Some_0 as u8, ..acc },
            )
        } else if t == multipv_tok() && i + 1 < toks.len() && parse_uint(toks[i + 1], 65535)
            is Some {
            info_fold(
                toks,
                i + 2,
                PossibleMoveV { multi_pv: parse_uint(toks[i + 1], 65535)->Some_0 as u16, ..acc },
            )
        } else if t == score_tok() && i + 2 < toks.len() && toks[i + 1] == cp_tok() && parse_int(
            toks[i + 2],
            2147483647,
        ) is Some {
            info_fold(
                toks,
                i + 3,
                PossibleMoveV { score: parse_int(toks[i + 2], 2147483647)->Some_0 as i32, ..acc },
            )
        } else if t == pv_tok() {
            PossibleMoveV { moves: pv_moves(toks, i + 1), ..acc }
        } else {
            info_fold(toks, i + 1, acc)
        }
    }
}

/// The reply a line denotes: classified by its first token, with a
/// progress report's attributes folded into a candidate line.
pub open spec fn parse_reply_spec(s: Seq<u8>) -> ReplyV {
    let tk = tokens_of(s);
    if tk.len() == 0 {
        ReplyV::Other
    } else if tk[0] == id_tok() {
        ReplyV::Id
    } else if tk[0] == uciok_tok() {
        ReplyV::UciOk
    } else if tk[0] == readyok_tok() {
        ReplyV::ReadyOk
    } else if tk[0] == bestmove_tok() {
        if tk.len() >= 2 && parse_move_text(tk[1]) is Some {
            ReplyV::BestMove(parse_move_text(tk[1])->Some_0)
        } else {
            ReplyV::Other
        }
    } else if tk[0] == info_tok() {
        ReplyV::Info(info_fold(tk, 1, default_possible_move()))
    } else {
        ReplyV::Other
    }
}

/// Whether two byte vectors hold the same bytes.
fn bytes_eq(a: &Vec<u8>, b: &Vec<u8>) -> (r: bool)
    ensures
        r == (a@ == b@),
{
    if a.len() != b.len() {
        return false;
    }
    let mut i: usize = 0;
    while i < a.len()
        invariant
            a@.len() == b@.len(),
            0 <= i <= a@.len(),
            forall|k: int| 0 <= k < i ==> a@[k] == b@[k],
        decreases a@.len() - i,
    {
        if a[i] != b[i] {
            return false;
        }
        i += 1;
    }
    proof {
        assert(a@ =~= b@);
    }
    true
}

/// The executable `"id"` token.
fn id_token() -> (t: Vec<u8>)
    ensures
        t@ == id_tok(),
{
    let t = vec![105, 100];
    proof {
        assert(t@ =~= id_tok());
    }
    t
}

/// The executable `"uciok"` token.
fn uciok_token() -> (t: Vec<u8>)
    ensures
        t@ == uciok_tok(),
{
    let t = vec![117, 99, 105, 111, 107];
    proof {
        assert(t@ =~= uciok_tok());
    }
    t
}

/// The executable `"readyok"` token.
fn readyok_token() -> (t: Vec<u8>)
    ensures
        t@ == readyok_tok(),
{
    let t = vec![114, 101, 97, 100, 121, 111, 107];
    proof {
        assert(t@ =~= readyok_tok());
    }
    t
}

/// The executable `"bestmove"` token.
fn bestmove_token() -> (t: Vec<u8>)
    ensures
        t@ == bestmove_tok(),
{
    let t = vec![98, 101, 115, 116, 109, 111, 118, 101];
    proof {
        assert(t@ =~= bestmove_tok());
    }
    t
}

/// The executable `"info"` token.
fn info_token() -> (t: Vec<u8>)
    ensures
        t@ == info_tok(),
{
    let t = vec![105, 110, 102, 111];
    proof {
        assert(t@ =~= info_tok());
    }
    t
}

/// The executable `"depth"` token.
fn depth_token() -> (t: Vec<u8>)
    ensures
        t@ == depth_tok(),
{
    let t = vec![100, 101, 112, 116, 104];
    proof {
        assert(t@ =~= depth_tok());
    }
    t
}

/// The executable `"multipv"` token.
fn multipv_token() -> (t: Vec<u8>)
    ensures
        t@ == multipv_tok(),
{
    let t = vec![109, 117, 108, 116, 105, 112, 118];
    proof {
        assert(t@ =~= multipv_tok());
    }
    t
}

/// The executable `"score"` token.
fn score_token() -> (t: Vec<u8>)
    ensures
        t@ == score_tok(),
{
    let t = vec![115, 99, 111, 114, 101];
    proof {
        assert(t@ =~= score_tok());
    }
    t
}

/// The executable `"cp"` token.
fn cp_token() -> (t: Vec<u8>)
    ensures
        t@ == cp_tok(),
{
    let t = vec![99, 112];
    proof {
        assert(t@ =~= cp_tok());
    }
    t
}

/// The executable `"pv"` token.
fn pv_token() -> (t: Vec<u8>)
    ensures
        t@ == pv_tok(),
{
    let t = vec![112, 118];
    proof {
        assert(t@ =~= pv_tok());
    }
    t
}

/// Collect the principal variation from the remaining tokens.
fn collect_pv(toks: &Vec<Vec<u8>>, start: usize) -> (r: Vec<MoveText>)
    requires
        start <= toks@.len(),
    ensures
        r@ == pv_moves(deep_view(toks@), start as int),
{
    let ghost dv = deep_view(toks@);
    let mut out: Vec<MoveText> = Vec::new();
    let mut j: usize = start;
    while j < toks.len()
        invariant
            dv == deep_view(toks@),
            start <= j <= dv.len(),
            pv_moves(dv, start as int) == out@ + pv_moves(dv, j as int),
        decreases dv.len() - j,
    {
        proof {
            assert(dv[j as int] == toks@[j as int]@);
        }
        match parse_move_tok(&toks[j]) {
            Some(m) => {
                out.push(m);
                proof {
                    assert(pv_moves(dv, j as int) == seq![m] + pv_moves(dv, j as int + 1));
                    assert(out@ + pv_moves(dv, j as int + 1) =~= pv_moves(dv, start as int));
                }
            },
            None => {
                proof {
                    assert(pv_moves(dv, j as int) =~= Seq::<MoveText>::empty());
                    assert(out@ + pv_moves(dv, j as int) =~= out@);
                }
                return out;
            },
        }
        j += 1;
    }
    proof {
        assert(pv_moves(dv, j as int) =~= Seq::<MoveText>::empty());
        assert(out@ + pv_moves(dv, j as int) =~= out@);
    }
    out
}

/// Fold the attribute tokens of a progress report into a candidate line.
fn fold_info(toks: &Vec<Vec<u8>>) -> (r: PossibleMove)
    requires
        toks@.len() >= 1,
    ensures
        r@ == info_fold(deep_view(toks@), 1, default_possible_move()),
{
    let ghost dv = deep_view(toks@);
    let mut pm = PossibleMove { depth: 0, score: 0, multi_pv: 1, moves: Vec::new() };
    proof {
        assert(pm@ =~= default_possible_move());
    }
    let kw_depth = depth_token();
    let kw_multipv = multipv_token();
    let kw_score = score_token();
    let kw_cp = cp_token();
    let kw_pv = pv_token();
    let mut i: usize = 1;
    while i < toks.len()
        invariant
            dv == deep_view(toks@),
            1 <= i <= dv.len(),
            kw_depth@ == depth_tok(),
            kw_multipv@ == multipv_tok(),
            kw_score@ == score_tok(),
            kw_cp@ == cp_tok(),
            kw_pv@ == pv_tok(),
            info_fold(dv, 1, default_possible_move()) == info_fold(dv, i as int, pm@),
        decreases dv.len() - i,
    {
        proof {
            assert(dv[i as int] == toks@[i as int]@);
        }
        if bytes_eq(&toks[i], &kw_depth) && i + 1 < toks.len() {
            proof {
                assert(dv[i as int + 1] == toks@[i as int + 1]@);
            }
            match parse_uint_from(&toks[i + 1], 0, 255) {
                Some(v) => {
                    proof {
                        assert(toks@[i as int + 1]@.subrange(0, toks@[i as int + 1]@.len() as int)
                            =~= dv[i as int + 1]);
                    }
                    pm.depth = v as u8;
                    i += 2;
                    continue ;
                },
                None => {
                    proof {
                        assert(toks@[i as int + 1]@.subrange(0, toks@[i as int + 1]@.len() as int)
                            =~= dv[i as int + 1]);
                    }
                },
            }
        } else if bytes_eq(&toks[i], &kw_multipv) && i + 1 < toks.len() {
            proof {
                assert(dv[i as int + 1] == toks@[i as int + 1]@);
            }
            match parse_uint_from(&toks[i + 1], 0, 65535) {
                Some(v) => {
                    proof {
                        assert(toks@[i as int + 1]@.subrange(0, toks@[i as int + 1]@.len() as int)
                            =~= dv[i as int + 1]);
                    }
                    pm.multi_pv = v as u16;
                    i += 2;
                    continue ;
                },
                None => {
                    proof {
                        assert(toks@[i as int + 1]@.subrange(0, toks@[i as int + 1]@.len() as int)
                            =~= dv[i as int + 1]);
                    }
                },
            }
        } else if bytes_eq(&toks[i], &kw_score) && i + 1 < toks.len() && i + 2 < toks.len()
            && bytes_eq(&toks[i + 1], &kw_cp) {
            proof {
                assert(dv[i as int + 1] == toks@[i as int + 1]@);
                assert(dv[i as int + 2] == toks@[i as int + 2]@);
            }
            match parse_int_tok(&toks[i + 2], 2147483647) {
                Some(v) => {
                    pm.score = v;
                    i += 3;
                    continue ;
                },
                None => {},
            }
        } else if bytes_eq(&toks[i], &kw_pv) {
            let moves = collect_pv(toks, i + 1);
            pm.moves = moves;
            return pm;
        }
        i += 1;
    }
    pm
}

/// Classify one line read from the engine.
pub fn parse_reply(line: &[u8]) -> (r: Reply)
    ensures
        r@ == parse_reply_spec(line@),
{
    let toks = tokenize(line);
    let ghost dv = deep_view(toks@);
    if toks.len() == 0 {
        return Reply::Other;
    }
    proof {
        assert(dv[0] == toks@[0]@);
    }
    let first = &toks[0];
    if bytes_eq(first, &id_token()) {
        Reply::Id
    } else if bytes_eq(first, &uciok_token()) {
        Reply::UciOk
    } else if bytes_eq(first, &readyok_token()) {
        Reply::ReadyOk
    } else if bytes_eq(first, &bestmove_token()) {
        if toks.len() >= 2 {
            proof {
                assert(dv[1] == toks@[1]@);
            }
            match parse_move_tok(&toks[1]) {
                Some(m) => Reply::BestMove(m),
                None => Reply::Other,
            }
        } else {
            Reply::Other
        }
    } else if bytes_eq(first, &info_token()) {
        Reply::Info(fold_info(&toks))
    } else {
        Reply::Other
    }
}

/// Parse a move token in origin-destination notation.
pub fn parse_move_tok(t: &Vec<u8>) -> (r: Option<MoveText>)
    ensures
        r == parse_move_text(t@),
{
    if (t.len() == 4 || t.len() == 5) && 97 <= t[0] && t[0] <= 104 && 49 <= t[1] && t[1] <= 56
        && 97 <= t[2] && t[2] <= 104 && 49 <= t[3] && t[3] <= 56 {
        let from = (t[1] - 49) * 8 + (t[0] - 97);
        let to = (t[3] - 49) * 8 + (t[2] - 97);
        if t.len() == 5 {
            match Role::from_lower(t[4]) {
                Some(r) => Some(MoveText { from, to, promotion: Some(r) }),
                None => None,
            }
        } else {
            Some(MoveText { from, to, promotion: None })
        }
    } else {
        None
    }
}

} // verus!
