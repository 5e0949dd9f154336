//! The static evaluator: a pure function of the board contents and the
//! side to move. Each occupied square contributes a hand-tuned positional
//! value for the piece standing on it; white reads the tables at the
//! square's natural index, black after vertical mirroring. The result is
//! white's total minus black's total, plus a fixed tempo bonus for the
//! side to move.

use vstd::prelude::*;

use crate::board::{Color, Piece, Position, PositionV, Role, flip_vertical, spec_flip_vertical};
use crate::score::valid_score;

verus! {

/// Positional values for the king, a1 first, h8 last.
pub open spec fn king_values() -> Seq<i64> {
    seq![
        -30i64, -40i64, -40i64, -50i64, -50i64, -40i64, -40i64, -30i64,
        -30i64, -40i64, -40i64, -50i64, -50i64, -40i64, -40i64, -30i64,
        -30i64, -40i64, -40i64, -50i64, -50i64, -40i64, -40i64, -30i64,
        -30i64, -40i64, -40i64, -50i64, -50i64, -40i64, -40i64, -30i64,
        -20i64, -30i64, -30i64, -40i64, -40i64, -30i64, -30i64, -20i64,
        -10i64, -20i64, -20i64, -20i64, -20i64, -20i64, -20i64, -10i64,
         20i64,  20i64,   1i64,   1i64,   1i64,   1i64,  20i64,  20i64,
         20i64,  30i64,  10i64,   1i64,   1i64,  10i64,  30i64,  20i64,
    ]
}

/// Positional values for the queen.
pub open spec fn queen_values() -> Seq<i64> {
    seq![
        -20i64, -10i64, -10i64,  -5i64,  -5i64, -10i64, -10i64, -20i64,
        -10i64,   1i64,   1i64,   1i64,   1i64,   1i64,   1i64, -10i64,
        -10i64,   1i64,   5i64,   5i64,   5i64,   5i64,   1i64, -10i64,
         -5i64,   1i64,   5i64,   5i64,   5i64,   5i64,   1i64,  -5i64,
          1i64,   1i64,   5i64,   5i64,   5i64,   5i64,   1i64,  -5i64,
        -10i64,   5i64,   5i64,   5i64,   5i64,   5i64,   1i64, -10i64,
        -10i64,   1i64,   5i64,   1i64,   1i64,   1i64,   1i64, -10i64,
        -20i64, -10i64, -10i64,  -5i64,  -5i64, -10i64, -10i64, -20i64,
    ]
}

/// Positional values for the rook.
pub open spec fn rook_values() -> Seq<i64> {
    seq![
         1i64,  1i64,  1i64,  1i64,  1i64,  1i64,  1i64,  1i64,
         5i64, 10i64, 10i64, 10i64, 10i64, 10i64, 10i64,  5i64,
        -5i64,  1i64,  1i64,  1i64,  1i64,  1i64,  1i64, -5i64,
        -5i64,  1i64,  1i64,  1i64,  1i64,  1i64,  1i64, -5i64,
        -5i64,  1i64,  1i64,  1i64,  1i64,  1i64,  1i64, -5i64,
        -5i64,  1i64,  1i64,  1i64,  1i64,  1i64,  1i64, -5i64,
        -5i64,  1i64,  1i64,  1i64,  1i64,  1i64,  1i64, -5i64,
         1i64,  1i64,  1i64,  5i64,  5i64,  1i64,  1i64,  1i64,
    ]
}

/// Positional values for the bishop.
pub open spec fn bishop_values() -> Seq<i64> {
    seq![
        -20i64, -10i64, -10i64, -10i64, -10i64, -10i64, -10i64, -20i64,
        -10i64,   1i64,   1i64,   1i64,   1i64,   1i64,   1i64, -10i64,
        -10i64,   1i64,   5i64,  10i64,  10i64,   5i64,   1i64, -10i64,
        -10i64,   5i64,   5i64,  10i64,  10i64,   5i64,   5i64, -10i64,
        -10i64,   1i64,  10i64,  10i64,  10i64,  10i64,   1i64, -10i64,
        -10i64,  10i64,  10i64,  10i64,  10i64,  10i64,  10i64, -10i64,
        -10i64,   5i64,   1i64,   1i64,   1i64,   1i64,   5i64, -10i64,
        -20i64, -10i64, -10i64, -10i64, -10i64, -10i64, -10i64, -20i64,
    ]
}

/// Positional values for the knight.
pub open spec fn knight_values() -> Seq<i64> {
    seq![
        -50i64, -40i64, -30i64, -30i64, -30i64, -30i64, -40i64, -50i64,
        -40i64, -20i64,   1i64,   1i64,   1i64,   1i64, -20i64, -40i64,
        -30i64,   1i64,  10i64,  15i64,  15i64,  10i64,   1i64, -30i64,
        -30i64,   5i64,  15i64,  20i64,  20i64,  15i64,   5i64, -30i64,
        -30i64,   1i64,  15i64,  20i64,  20i64,  15i64,   1i64, -30i64,
        -30i64,   5i64,  10i64,  15i64,  15i64,  10i64,   5i64, -30i64,
        -40i64, -20i64,   1i64,   5i64,   5i64,   1i64, -20i64, -40i64,
        -50i64, -40i64, -30i64, -30i64, -30i64, -30i64, -40i64, -50i64,
    ]
}

/// Positional values for the pawn.
pub open spec fn pawn_values() -> Seq<i64> {
    seq![
         1i64,  1i64,   1i64,   1i64,   1i64,   1i64,  1i64,  1i64,
        50i64, 50i64,  50i64,  50i64,  50i64,  50i64, 50i64, 50i64,
        10i64, 10i64,  20i64,  30i64,  30i64,  20i64, 10i64, 10i64,
         5i64,  5i64,  10i64,  25i64,  25i64,  10i64,  5i64,  5i64,
         1i64,  1i64,   1i64,  20i64,  20i64,   1i64,  1i64,  1i64,
         5i64, -5i64, -10i64,   1i64,   1i64, -10i64, -5i64,  5i64,
         5i64, 10i64,  10i64, -20i64, -20i64,  10i64, 10i64,  5i64,
         1i64,  1i64,   1i64,   1i64,   1i64,   1i64,  1i64,  1i64,
    ]
}

/// The table that belongs to a role.
pub open spec fn table_for(role: Role) -> Seq<i64> {
    match role {
        Role::Pawn => pawn_values(),
        Role::Knight => knight_values(),
        Role::Bishop => bishop_values(),
        Role::Rook => rook_values(),
        Role::Queen => queen_values(),
        Role::King => king_values(),
    }
}

/// Every table has one value per square, and every value lies within
/// `[-50, 50]`.
pub proof fn lemma_table_bounds(role: Role)
    ensures
        table_for(role).len() == 64,
        forall|i: int| 0 <= i < 64 ==> -50 <= #[trigger] table_for(role)[i] <= 50,
{
    assert(table_for(role).len() == 64);
    assert forall|i: int| 0 <= i < 64 implies -50 <= #[trigger] table_for(role)[i] <= 50 by {
        assert(-50 <= table_for(role)[i] <= 50);
    }
}

/// What one square contributes to the evaluation: a white piece adds its
/// table value at the square's own index, a black piece subtracts its
/// table value at the vertically mirrored index, an empty square nothing.
pub open spec fn square_contrib(squares: Seq<Option<Piece>>, i: int) -> int {
    match squares[i] {
        Some(p) => match p.color {
            Color::White => table_for(p.role)[i] as int,
            Color::Black => -(table_for(p.role)[spec_flip_vertical(i)] as int),
        },
        None => 0,
    }
}

/// The summed contributions of the first `n` squares.
pub open spec fn contrib_sum(squares: Seq<Option<Piece>>, n: int) -> int
    decreases n,
{
    if n <= 0 {
        0
    } else {
        contrib_sum(squares, n - 1) + square_contrib(squares, n - 1)
    }
}

/// The fixed tempo bonus of the side to move, on the white-positive scale.
pub open spec fn tempo_bonus(turn: Color) -> int {
    match turn {
        Color::White => 10,
        Color::Black => -10,
    }
}

/// The evaluation of a position: white's total minus black's total plus
/// the tempo bonus, all folded into one signed sum.
pub open spec fn eval_of(p: PositionV) -> int {
    contrib_sum(p.squares, 64) + tempo_bonus(p.turn)
}

/// A prefix sum of contributions stays within `50` per square.
pub proof fn lemma_contrib_sum_bounds(squares: Seq<Option<Piece>>, n: int)
    requires
        0 <= n,
        squares.len() == 64,
        n <= 64,
    ensures
        -50 * n <= contrib_sum(squares, n) <= 50 * n,
    decreases n,
{
    if n > 0 {
        lemma_contrib_sum_bounds(squares, n - 1);
        match squares[n - 1] {
            Some(p) => {
                lemma_table_bounds(p.role);
                assert(0 <= spec_flip_vertical(n - 1) < 64);
            },
            None => {},
        }
    }
}

/// The evaluation of any well-formed position fits comfortably on the
/// score scale.
pub proof fn lemma_eval_bounds(p: PositionV)
    requires
        p.wf(),
    ensures
        -3210 <= eval_of(p) <= 3210,
{
    lemma_contrib_sum_bounds(p.squares, 64);
}

/// The pawn table as an executable vector.
fn pawn_table() -> (t: Vec<i64>)
    ensures
        t@ == pawn_values(),
{
    let t = vec![
         1,  1,   1,   1,   1,   1,  1,  1,
        50, 50,  50,  50,  50,  50, 50, 50,
        10, 10,  20,  30,  30,  20, 10, 10,
         5,  5,  10,  25,  25,  10,  5,  5,
         1,  1,   1,  20,  20,   1,  1,  1,
         5, -5, -10,   1,   1, -10, -5,  5,
         5, 10,  10, -20, -20,  10, 10,  5,
         1,  1,   1,   1,   1,   1,  1,  1,
    ];
    proof {
        assert(t@ =~= pawn_values());
    }
    t
}

/// The knight table as an executable vector.
fn knight_table() -> (t: Vec<i64>)
    ensures
        t@ == knight_values(),
{
    let t = vec![
        -50, -40, -30, -30, -30, -30, -40, -50,
        -40, -20,   1,   1,   1,   1, -20, -40,
        -30,   1,  10,  15,  15,  10,   1, -30,
        -30,   5,  15,  20,  20,  15,   5, -30,
        -30,   1,  15,  20,  20,  15,   1, -30,
        -30,   5,  10,  15,  15,  10,   5, -30,
        -40, -20,   1,   5,   5,   1, -20, -40,
        -50, -40, -30, -30, -30, -30, -40, -50,
    ];
    proof {
        assert(t@ =~= knight_values());
    }
    t
}

/// The bishop table as an executable vector.
fn bishop_table() -> (t: Vec<i64>)
    ensures
        t@ == bishop_values(),
{
    let t = vec![
        -20, -10, -10, -10, -10, -10, -10, -20,
        -10,   1,   1,   1,   1,   1,   1, -10,
        -10,   1,   5,  10,  10,   5,   1, -10,
        -10,   5,   5,  10,  10,   5,   5, -10,
        -10,   1,  10,  10,  10,  10,   1, -10,
        -10,  10,  10,  10,  10,  10,  10, -10,
        -10,   5,   1,   1,   1,   1,   5, -10,
        -20, -10, -10, -10, -10, -10, -10, -20,
    ];
    proof {
        assert(t@ =~= bishop_values());
    }
    t
}

/// The rook table as an executable vector.
fn rook_table() -> (t: Vec<i64>)
    ensures
        t@ == rook_values(),
{
    let t = vec![
         1,  1,  1,  1,  1,  1,  1,  1,
         5, 10, 10, 10, 10, 10, 10,  5,
        -5,  1,  1,  1,  1,  1,  1, -5,
        -5,  1,  1,  1,  1,  1,  1, -5,
        -5,  1,  1,  1,  1,  1,  1, -5,
        -5,  1,  1,  1,  1,  1,  1, -5,
        -5,  1,  1,  1,  1,  1,  1, -5,
         1,  1,  1,  5,  5,  1,  1,  1,
    ];
    proof {
        assert(t@ =~= rook_values());
    }
    t
}

/// The queen table as an executable vector.
fn queen_table() -> (t: Vec<i64>)
    ensures
        t@ == queen_values(),
{
    let t = vec![
        -20, -10, -10,  -5,  -5, -10, -10, -20,
        -10,   1,   1,   1,   1,   1,   1, -10,
        -10,   1,   5,   5,   5,   5,   1, -10,
         -5,   1,   5,   5,   5,   5,   1,  -5,
          1,   1,   5,   5,   5,   5,   1,  -5,
        -10,   5,   5,   5,   5,   5,   1, -10,
        -10,   1,   5,   1,   1,   1,   1, -10,
        -20, -10, -10,  -5,  -5, -10, -10, -20,
    ];
    proof {
        assert(t@ =~= queen_values());
    }
    t
}

/// The king table as an executable vector.
fn king_table() -> (t: Vec<i64>)
    ensures
        t@ == king_values(),
{
    let t = vec![
        -30, -40, -40, -50, -50, -40, -40, -30,
        -30, -40, -40, -50, -50, -40, -40, -30,
        -30, -40, -40, -50, -50, -40, -40, -30,
        -30, -40, -40, -50, -50, -40, -40, -30,
        -20, -30, -30, -40, -40, -30, -30, -20,
        -10, -20, -20, -20, -20, -20, -20, -10,
         20,  20,   1,   1,   1,   1,  20,  20,
         20,  30,  10,   1,   1,  10,  30,  20,
    ];
    proof {
        assert(t@ =~= king_values());
    }
    t
}

/// The positional value of a piece standing on a square, read from the
/// table of its role.
pub fn get_value(square: usize, piece: &Piece) -> (v: i64)
    requires
        square < 64,
    ensures
        v == table_for(piece.role)[square as int],
        -50 <= v <= 50,
{
    proof {
        lemma_table_bounds(piece.role);
    }
    let t = match piece.role {
        Role::Pawn => pawn_table(),
        Role::Knight => knight_table(),
        Role::Bishop => bishop_table(),
        Role::Rook => rook_table(),
        Role::Queen => queen_table(),
        Role::King => king_table(),
    };
    t[square]
}

/// Evaluate a position: a deterministic, pure function of the board
/// contents and the side to move, computed in one pass over the squares.
/// The result is white-positive: a positive score favors white.
pub fn evaluate(p: &Position) -> (r: i64)
    requires
        p.wf(),
    ensures
        r == eval_of(p@),
        -3210 <= r <= 3210,
        valid_score(r),
{
    let mut sum: i64 = 0;
    let mut i: usize = 0;
    while i < 64
        invariant
            p.wf(),
            0 <= i <= 64,
            sum == contrib_sum(p@.squares, i as int),
            -50 * i <= sum <= 50 * i,
        decreases 64 - i,
    {
        match p.squares[i] {
            Some(piece) => {
                match piece.color {
                    Color::White => {
                        let v = get_value(i, &piece);
                        sum = sum + v;
                    },
                    Color::Black => {
                        let v = get_value(flip_vertical(i as u8) as usize, &piece);
                        sum = sum - v;
                    },
                }
            },
            None => {},
        }
        i += 1;
    }
    let r = match p.turn {
        Color::White => sum + 10,
        Color::Black => sum - 10,
    };
    r
}

/// Evaluation is idempotent: a copy of a position evaluates exactly as
/// the original, because the evaluator is a pure function of the
/// position's state and keeps no hidden state of its own.
pub fn evaluate_copy_agrees(p: &Position) -> (r: (i64, i64))
    requires
        p.wf(),
    ensures
        r.0 == r.1,
        r.0 == eval_of(p@),
{
    let copy = p.duplicate();
    (evaluate(p), evaluate(&copy))
}

} // verus!
