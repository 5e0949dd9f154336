//! The position capability: legal-move enumeration, move application and
//! checkmate detection. Chess rules are an external collaborator here:
//! the shakmaty crate computes them, behind trusted wrappers, and each
//! result is named by an uninterpreted function of the position alone, so
//! the search can be verified against those names.

use vstd::prelude::*;

use crate::board::{ChessMove, Color, Piece, Position, PositionV, Role, role_index, role_of_index, spec_role_index, spec_role_of_index};
use shakmaty::Position as _;
use shakmaty::FromSetup as _;

verus! {

/// The legal moves of a position, in the order the move generator yields
/// them: what `legal_moves` returns.
pub uninterp spec fn legal_moves_of(p: PositionV) -> Seq<ChessMove>;

/// The position reached by applying a legal move: what `apply_move`
/// returns.
pub uninterp spec fn applied(p: PositionV, m: ChessMove) -> PositionV;

/// Whether the side to move is checkmated: what `is_checkmate` returns.
pub uninterp spec fn checkmate_of(p: PositionV) -> bool;

/// The position a standard notation line describes, if it describes one:
/// what `position_from_fen` returns.
pub uninterp spec fn fen_position(s: Seq<u8>) -> Option<PositionV>;

#[verifier::external_type_specification]
#[verifier::external_body]
pub struct ExSetup(shakmaty::Setup);

#[verifier::external_type_specification]
#[verifier::external_body]
pub struct ExBoard(shakmaty::Board);

#[verifier::external_type_specification]
#[verifier::external_body]
pub struct ExMove(shakmaty::Move);

#[verifier::external_type_specification]
#[verifier::external_body]
pub struct ExSquare(shakmaty::Square);

/// Relies on shakmaty's board construction: rebuilds the occupancy of the
/// 64 squares, one piece at a time.
#[verifier::external_body]
fn board_of(p: &Position) -> shakmaty::Board
    requires
        p.wf(),
{
    let mut board = shakmaty::Board::empty();
    let mut i: usize = 0;
    while i < p.squares.len() {
        if let Some(pc) = p.squares[i] {
            let role = shakmaty::Role::from_char(pc.role.lower_char() as char).unwrap();
            let color = shakmaty::Color::from_white(matches!(pc.color, Color::White));
            board.set_piece_at(shakmaty::Square::new(i as u32), shakmaty::Piece { color, role });
        }
        i += 1;
    }
    board
}

/// Relies on shakmaty's `Setup`: copies the position's fields into it,
/// with the castling rights as the corner rook squares.
#[verifier::external_body]
fn setup_of(p: &Position) -> shakmaty::Setup
    requires
        p.wf(),
{
    let mut rights = shakmaty::Bitboard::EMPTY;
    if p.castle_wk { rights.set(shakmaty::Square::H1, true); }
    if p.castle_wq { rights.set(shakmaty::Square::A1, true); }
    if p.castle_bk { rights.set(shakmaty::Square::H8, true); }
    if p.castle_bq { rights.set(shakmaty::Square::A8, true); }
    shakmaty::Setup {
        board: board_of(p),
        turn: shakmaty::Color::from_white(matches!(p.turn, Color::White)),
        castling_rights: rights,
        ep_square: p.ep.map(|e| shakmaty::Square::new(e as u32)),
        halfmoves: p.halfmove,
        fullmoves: core::num::NonZeroU32::new(p.fullmove).unwrap_or(core::num::NonZeroU32::MIN),
        ..shakmaty::Setup::empty()
    }
}

/// Relies on shakmaty's `Square`: its index, as a plain square number.
#[verifier::external_body]
fn sq_back(s: shakmaty::Square) -> u8
{
    s.to_u32() as u8
}

/// Relies on shakmaty's `Board`: reads the piece on each square back out.
#[verifier::external_body]
fn squares_of_board(b: &shakmaty::Board) -> Vec<Option<Piece>>
{
    let mut squares: Vec<Option<Piece>> = Vec::new();
    let mut i: u32 = 0;
    while i < 64 {
        squares.push(b.piece_at(shakmaty::Square::new(i)).map(|pc| Piece {
            color: if pc.color.is_white() { Color::White } else { Color::Black },
            role: Role::from_lower(pc.role.char() as u8).unwrap_or(Role::Pawn),
        }));
        i += 1;
    }
    squares
}

/// Relies on shakmaty's `Setup`: reads the fields of a position back out,
/// each converted to its plain value.
#[verifier::external_body]
fn position_of_setup(s: shakmaty::Setup) -> (r: Position)
    ensures
        r.wf(),
{
    Position {
        squares: squares_of_board(&s.board),
        turn: if s.turn.is_white() { Color::White } else { Color::Black },
        castle_wk: s.castling_rights.contains(shakmaty::Square::H1),
        castle_wq: s.castling_rights.contains(shakmaty::Square::A1),
        castle_bk: s.castling_rights.contains(shakmaty::Square::H8),
        castle_bq: s.castling_rights.contains(shakmaty::Square::A8),
        ep: s.ep_square.map(|e| e.to_u32() as u8),
        halfmove: s.halfmoves,
        fullmove: s.fullmoves.get(),
    }
}

/// A move as plain numbers: a shape tag (zero an ordinary move, one an
/// en-passant capture, two a castling move), the moved role's code, the
/// two squares, and the codes of a capture and a promotion if any.
pub type MoveCode = (u8, u8, u8, u8, Option<u8>, Option<u8>);

/// An optional role code, decoded.
pub open spec fn spec_roles_of_code(c: Option<u8>) -> Option<Role> {
    match c {
        Some(i) => Some(spec_role_of_index(i)),
        None => None,
    }
}

/// The move a plain numeric code describes.
pub open spec fn spec_decode_move(c: MoveCode) -> ChessMove {
    if c.0 == 1 {
        ChessMove::EnPassant { from: c.2, to: c.3 }
    } else if c.0 == 2 {
        ChessMove::Castle { king: c.2, rook: c.3 }
    } else {
        ChessMove::Normal {
            role: spec_role_of_index(c.1),
            from: c.2,
            to: c.3,
            capture: spec_roles_of_code(c.4),
            promotion: spec_roles_of_code(c.5),
        }
    }
}

/// Decode a move handed over as plain numbers.
pub fn decode_move(c: MoveCode) -> (r: ChessMove)
    ensures
        r == spec_decode_move(c),
{
    if c.0 == 1 {
        ChessMove::EnPassant { from: c.2, to: c.3 }
    } else if c.0 == 2 {
        ChessMove::Castle { king: c.2, rook: c.3 }
    } else {
        let capture = match c.4 {
            Some(i) => Some(role_of_index(i)),
            None => None,
        };
        let promotion = match c.5 {
            Some(i) => Some(role_of_index(i)),
            None => None,
        };
        ChessMove::Normal { role: role_of_index(c.1), from: c.2, to: c.3, capture, promotion }
    }
}

/// The plain numeric code of a move.
pub open spec fn spec_encode_move(m: ChessMove) -> MoveCode {
    match m {
        ChessMove::Normal { role, from, to, capture, promotion } => (
            0u8,
            spec_role_index(role),
            from,
            to,
            (match capture {
                Some(r) => Some(spec_role_index(r)),
                None => None,
            }),
            (match promotion {
                Some(r) => Some(spec_role_index(r)),
                None => None,
            }),
        ),
        ChessMove::EnPassant { from, to } => (1u8, 1u8, from, to, None, None),
        ChessMove::Castle { king, rook } => (2u8, 6u8, king, rook, None, None),
    }
}

/// Encode a move as plain numbers for the move generator.
pub fn encode_move(m: &ChessMove) -> (r: MoveCode)
    ensures
        r == spec_encode_move(*m),
{
    match m {
        ChessMove::Normal { role, from, to, capture, promotion } => {
            let cap = match capture {
                Some(r) => Some(role_index(*r)),
                None => None,
            };
            let promo = match promotion {
                Some(r) => Some(role_index(*r)),
                None => None,
            };
            (0, role_index(*role), *from, *to, cap, promo)
        },
        ChessMove::EnPassant { from, to } => (1, 1, *from, *to, None, None),
        ChessMove::Castle { king, rook } => (2, 6, *king, *rook, None, None),
    }
}

/// Relies on shakmaty's `Move`: each variant's fields move over into the
/// plain numeric code, squares and roles as their indices. A drop, which
/// standard chess never generates, codes as an ordinary move from square
/// zero.
#[verifier::external_body]
fn move_code_of(m: &shakmaty::Move) -> MoveCode
{
    match m {
        shakmaty::Move::Normal { role, from, capture, to, promotion } =>
            (0, *role as u8, sq_back(*from), sq_back(*to), capture.map(|c| c as u8), promotion.map(|c| c as u8)),
        shakmaty::Move::EnPassant { from, to } => (1, 1, sq_back(*from), sq_back(*to), None, None),
        shakmaty::Move::Castle { king, rook } => (2, 6, sq_back(*king), sq_back(*rook), None, None),
        shakmaty::Move::Put { role, to } => (0, *role as u8, 0, sq_back(*to), None, None),
    }
}

/// Relies on shakmaty's `Move`: the inverse conversion, building the
/// move generator's move out of the plain numeric code. Square numbers
/// must be on the board: the square constructor stops on any other.
#[verifier::external_body]
fn outside_move(tag: u8, role: u8, a: u8, b: u8, cap: Option<u8>, promo: Option<u8>) -> shakmaty::Move
    requires
        a < 64,
        b < 64,
{
    match tag {
        1 => shakmaty::Move::EnPassant { from: shakmaty::Square::new(a as u32), to: shakmaty::Square::new(b as u32) },
        2 => shakmaty::Move::Castle { king: shakmaty::Square::new(a as u32), rook: shakmaty::Square::new(b as u32) },
        _ => shakmaty::Move::Normal {
            role: shakmaty::Role::try_from(role as u32).unwrap_or(shakmaty::Role::Pawn),
            from: shakmaty::Square::new(a as u32),
            to: shakmaty::Square::new(b as u32),
            capture: cap.map(|c| shakmaty::Role::try_from(c as u32).unwrap_or(shakmaty::Role::Pawn)),
            promotion: promo.map(|c| shakmaty::Role::try_from(c as u32).unwrap_or(shakmaty::Role::Pawn)),
        },
    }
}

/// Relies on shakmaty's `Position::legal_moves`: the returned list is a
/// deterministic function of the position's state, converted move by
/// move. A position the rules refuse yields the empty list.
#[verifier::external_body]
pub fn legal_moves(p: &Position) -> (r: Vec<ChessMove>)
    requires
        p.wf(),
    ensures
        r@ == legal_moves_of(p@),
{
    match shakmaty::Chess::from_setup(setup_of(p), shakmaty::CastlingMode::Standard) {
        Ok(chess) => {
            chess.legal_moves().iter().map(|m| decode_move(move_code_of(m))).collect()
        },
        Err(_) => Vec::new(),
    }
}

/// Relies on shakmaty's `Position::play_unchecked`: applying a legal move
/// yields the successor position, a deterministic function of position
/// and move. A position the rules refuse comes back unchanged.
#[verifier::external_body]
pub fn apply_move(p: &Position, m: &ChessMove) -> (r: Position)
    requires
        p.wf(),
        legal_moves_of(p@).contains(*m),
    ensures
        r@ == applied(p@, *m),
        r.wf(),
{
    match shakmaty::Chess::from_setup(setup_of(p), shakmaty::CastlingMode::Standard) {
        Ok(mut chess) => {
            let (tag, role, a, b, cap, promo) = encode_move(m);
            chess.play_unchecked(outside_move(tag, role, a, b, cap, promo));
            position_of_setup(chess.to_setup(shakmaty::EnPassantMode::Legal))
        },
        Err(_) => p.duplicate(),
    }
}

/// Relies on shakmaty's `Position::is_checkmate`: a deterministic
/// function of the position's state. A position the rules refuse counts
/// as not checkmate.
#[verifier::external_body]
pub fn is_checkmate(p: &Position) -> (r: bool)
    requires
        p.wf(),
    ensures
        r == checkmate_of(p@),
{
    match shakmaty::Chess::from_setup(setup_of(p), shakmaty::CastlingMode::Standard) {
        Ok(chess) => {
            chess.is_checkmate()
        },
        Err(_) => false,
    }
}

/// Relies on shakmaty's `Fen::from_ascii` and `Chess::from_setup`: reads
/// a position out of its standard notation, converted field by field;
/// text the notation or the rules refuse yields nothing.
#[verifier::external_body]
pub fn position_from_fen(s: &[u8]) -> (r: Option<Position>)
    ensures
        match r {
            Some(p) => fen_position(s@) == Some(p@) && p.wf(),
            None => fen_position(s@) == None::<PositionV>,
        },
{
    match shakmaty::fen::Fen::from_ascii(s) {
        Ok(fen) => match fen.into_position::<shakmaty::Chess>(shakmaty::CastlingMode::Standard) {
            Ok(chess) => {
                    Some(position_of_setup(chess.to_setup(shakmaty::EnPassantMode::Legal)))
            },
            Err(_) => None,
        },
        Err(_) => None,
    }
}

/// Encoding a move as plain numbers and decoding it gives the move back:
/// the numeric boundary loses nothing.
pub proof fn lemma_move_code_round_trip(m: ChessMove)
    ensures
        spec_decode_move(spec_encode_move(m)) == m,
{
}

} // verus!
