//! Small helpers around the engine: printing move lists, turning a move
//! written in origin-destination notation into a full move on a given
//! board, and bucketing player ratings.

use vstd::prelude::*;

use crate::board::{ChessMove, Position, PositionV, Role};

verus! {

/// The two characters naming a square: its file letter and its rank digit.
pub open spec fn square_bytes(sq: u8) -> Seq<u8> {
    seq![(97 + sq % 8) as u8, (49 + sq / 8) as u8]
}

/// The destination square of the king in a castling move: the g-file when
/// castling toward the higher rook square, the c-file otherwise.
pub open spec fn castle_target(king: u8, rook: u8) -> u8 {
    if rook > king {
        (king / 8 * 8 + 6) as u8
    } else {
        (king / 8 * 8 + 2) as u8
    }
}

/// A move in origin-destination notation: both squares, then the
/// lowercase letter of a promotion if there is one. A castling move is
/// written as the king's origin and destination.
pub open spec fn move_bytes(m: ChessMove) -> Seq<u8> {
    match m {
        ChessMove::Normal { role, from, to, capture, promotion } => square_bytes(from)
            + square_bytes(to) + match promotion {
            Some(r) => seq![r.spec_lower_char()],
            None => Seq::empty(),
        },
        ChessMove::EnPassant { from, to } => square_bytes(from) + square_bytes(to),
        ChessMove::Castle { king, rook } => square_bytes(king) + square_bytes(
            castle_target(king, rook),
        ),
    }
}

/// The first `n` moves of a list in origin-destination notation,
/// separated by a comma and a space.
pub open spec fn moves_line(ms: Seq<ChessMove>, n: int) -> Seq<u8>
    decreases n,
{
    if n <= 0 {
        Seq::empty()
    } else if n == 1 {
        move_bytes(ms[0])
    } else {
        moves_line(ms, n - 1) + seq![44u8, 32u8] + move_bytes(ms[n - 1])
    }
}

/// A move is well formed when its squares lie on the board.
pub open spec fn move_wf(m: ChessMove) -> bool {
    match m {
        ChessMove::Normal { from, to, .. } => from < 64 && to < 64,
        ChessMove::EnPassant { from, to } => from < 64 && to < 64,
        ChessMove::Castle { king, rook } => king < 64 && rook < 64,
    }
}

/// Append the two characters naming a square.
fn push_square(out: &mut Vec<u8>, sq: u8)
    requires
        sq < 64,
    ensures
        final(out)@ == old(out)@ + square_bytes(sq),
{
    out.push(97 + sq % 8);
    out.push(49 + sq / 8);
    proof {
        assert(final(out)@ =~= old(out)@ + square_bytes(sq));
    }
}

/// One move in origin-destination notation, as bytes.
pub fn move_to_bytes(m: &ChessMove) -> (r: Vec<u8>)
    requires
        move_wf(*m),
    ensures
        r@ == move_bytes(*m),
{
    let mut out: Vec<u8> = Vec::new();
    match m {
        ChessMove::Normal { role: _, from, to, capture: _, promotion } => {
            push_square(&mut out, *from);
            push_square(&mut out, *to);
            match promotion {
                Some(r) => {
                    out.push(r.lower_char());
                },
                None => {},
            }
        },
        ChessMove::EnPassant { from, to } => {
            push_square(&mut out, *from);
            push_square(&mut out, *to);
        },
        ChessMove::Castle { king, rook } => {
            push_square(&mut out, *king);
            let target: u8 = if *rook > *king {
                *king / 8 * 8 + 6
            } else {
                *king / 8 * 8 + 2
            };
            push_square(&mut out, target);
        },
    }
    proof {
        assert(out@ =~= move_bytes(*m));
    }
    out
}

/// Relies on `String::from_utf8`: a vector of ASCII bytes is valid UTF-8
/// and becomes the string of exactly those characters.
#[verifier::external_body]
fn ascii_string(bytes: Vec<u8>) -> (r: String)
    requires
        forall|i: int| 0 <= i < bytes@.len() ==> bytes@[i] < 128,
    ensures
        r@.len() == bytes@.len(),
        forall|i: int| 0 <= i < bytes@.len() ==> r@[i] == bytes@[i] as char,
{
    String::from_utf8(bytes).unwrap_or_default()
}

/// Every byte of a printed move is ASCII.
proof fn lemma_move_bytes_ascii(m: ChessMove)
    requires
        move_wf(m),
    ensures
        forall|i: int| 0 <= i < move_bytes(m).len() ==> #[trigger] move_bytes(m)[i] < 128,
{
    let mb = move_bytes(m);
    assert forall|i: int| 0 <= i < mb.len() implies #[trigger] mb[i] < 128 by {
        match m {
            ChessMove::Normal { promotion, from, to, .. } => {
                assert(mb[0] == 97 + from % 8);
                assert(mb[1] == 49 + from / 8);
                assert(mb[2] == 97 + to % 8);
                assert(mb[3] == 49 + to / 8);
                match promotion {
                    Some(r) => {
                        assert(mb[4] == r.spec_lower_char());
                        assert(r.spec_lower_char() < 128);
                    },
                    None => {},
                }
            },
            ChessMove::EnPassant { from, to } => {
                assert(mb[0] == 97 + from % 8);
                assert(mb[1] == 49 + from / 8);
                assert(mb[2] == 97 + to % 8);
                assert(mb[3] == 49 + to / 8);
            },
            ChessMove::Castle { king, rook } => {
                let target = castle_target(king, rook);
                assert(target < 64);
                assert(mb[0] == 97 + king % 8);
                assert(mb[1] == 49 + king / 8);
                assert(mb[2] == 97 + target % 8);
                assert(mb[3] == 49 + target / 8);
            },
        }
    }
}

/// Every byte of a printed move list is ASCII.
pub proof fn lemma_moves_line_ascii(ms: Seq<ChessMove>, n: int)
    requires
        forall|i: int| 0 <= i < n ==> move_wf(#[trigger] ms[i]),
        n <= ms.len(),
    ensures
        forall|i: int| 0 <= i < moves_line(ms, n).len() ==> #[trigger] moves_line(ms, n)[i] < 128,
    decreases n,
{
    if n > 0 {
        lemma_moves_line_ascii(ms, n - 1);
        lemma_move_bytes_ascii(ms[n - 1]);
        assert forall|i: int| 0 <= i < moves_line(ms, n).len() implies #[trigger] moves_line(
            ms,
            n,
        )[i] < 128 by {
            if n == 1 {
                assert(moves_line(ms, n)[i] == move_bytes(ms[0])[i]);
            } else {
                let a = moves_line(ms, n - 1);
                let b = move_bytes(ms[n - 1]);
                assert(moves_line(ms, n) == a + seq![44u8, 32u8] + b);
                if i < a.len() {
                    assert(moves_line(ms, n)[i] == a[i]);
                } else if i < a.len() + 2 {
                    assert(moves_line(ms, n)[i] == seq![44u8, 32u8][i - a.len()]);
                } else {
                    assert(moves_line(ms, n)[i] == b[i - a.len() - 2]);
                }
            }
        }
    }
}

/// Print a list of moves in the order given, separated by a comma and a
/// space, each in origin-destination notation.
pub fn moves2string(moves: &Vec<ChessMove>) -> (r: String)
    requires
        forall|i: int| 0 <= i < moves@.len() ==> move_wf(#[trigger] moves@[i]),
    ensures
        r@.len() == moves_line(moves@, moves@.len() as int).len(),
        forall|i: int|
            0 <= i < r@.len() ==> r@[i] == moves_line(moves@, moves@.len() as int)[i] as char,
{
    let mut out: Vec<u8> = Vec::new();
    let mut i: usize = 0;
    while i < moves.len()
        invariant
            forall|k: int| 0 <= k < moves@.len() ==> move_wf(#[trigger] moves@[k]),
            0 <= i <= moves@.len(),
            out@ == moves_line(moves@, i as int),
        decreases moves@.len() - i,
    {
        if i > 0 {
            out.push(44);
            out.push(32);
        }
        let mut mb = move_to_bytes(&moves[i]);
        out.append(&mut mb);
        i += 1;
        proof {
            assert(out@ =~= moves_line(moves@, i as int));
        }
    }
    proof {
        lemma_moves_line_ascii(moves@, moves@.len() as int);
    }
    ascii_string(out)
}

/// A rating bucket.
#[derive(Clone, Copy, PartialEq, Eq, PartialOrd, Ord, Structural, Debug)]
pub enum Elo {
    Beginner,
    Intermediate,
    Advanced,
    Master,
}

/// The bucket of a rating: up to 1200 beginner, up to 1800 intermediate,
/// up to 2400 advanced, above that master.
pub fn bucket_elo(elo: usize) -> (r: Elo)
    ensures
        r == Elo::Beginner <==> elo <= 1200,
        r == Elo::Intermediate <==> 1200 < elo <= 1800,
        r == Elo::Advanced <==> 1800 < elo <= 2400,
        r == Elo::Master <==> elo > 2400,
{
    if elo <= 1200 {
        Elo::Beginner
    } else if elo <= 1800 {
        Elo::Intermediate
    } else if elo <= 2400 {
        Elo::Advanced
    } else {
        Elo::Master
    }
}

/// The full move described by an origin square, a destination square and
/// an optional promotion on a given board: the moved role is read off the
/// origin square, the captured role off the destination square.
pub open spec fn uci_move_of(p: PositionV, from: u8, to: u8, promotion: Option<Role>) -> ChessMove {
    ChessMove::Normal {
        role: p.squares[from as int]->Some_0.role,
        from,
        to,
        capture: match p.squares[to as int] {
            Some(pc) => Some(pc.role),
            None => None,
        },
        promotion,
    }
}

/// Resolve a move given in origin-destination notation against a board.
pub fn uci2move(from: u8, to: u8, promotion: Option<Role>, p: &Position) -> (r: ChessMove)
    requires
        p.wf(),
        from < 64,
        to < 64,
        p@.squares[from as int] is Some,
    ensures
        r == uci_move_of(p@, from, to, promotion),
{
    let role = match p.piece_at(from) {
        Some(pc) => pc.role,
        None => Role::Pawn,
    };
    let capture = match p.piece_at(to) {
        Some(pc) => Some(pc.role),
        None => None,
    };
    ChessMove::Normal { role, from, to, capture, promotion }
}

} // verus!
