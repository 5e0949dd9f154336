//! The board model: pieces, squares, moves and full position state.
//!
//! A `Position` holds as plain values everything the engine reads of a
//! chess position: the occupancy of the 64 squares, the side to move,
//! castling rights, the en-passant square and the move counters. Squares
//! are numbered 0..64, a1 = 0, b1 = 1, ..., h8 = 63.

use vstd::prelude::*;

verus! {

/// The two sides.
#[derive(Clone, Copy, PartialEq, Eq, Structural, Debug)]
pub enum Color {
    White,
    Black,
}

/// The six piece roles.
#[derive(Clone, Copy, PartialEq, Eq, Structural, Debug)]
pub enum Role {
    Pawn,
    Knight,
    Bishop,
    Rook,
    Queen,
    King,
}

/// A piece: a role owned by a side.
#[derive(Clone, Copy, PartialEq, Eq, Structural, Debug)]
pub struct Piece {
    pub color: Color,
    pub role: Role,
}

/// A transition between two positions: origin, destination, moved role,
/// optional captured role and optional promotion, plus the two special
/// shapes that plain origin/destination squares cannot carry.
#[derive(Clone, Copy, PartialEq, Eq, Debug)]
pub enum ChessMove {
    Normal { role: Role, from: u8, to: u8, capture: Option<Role>, promotion: Option<Role> },
    EnPassant { from: u8, to: u8 },
    Castle { king: u8, rook: u8 },
}

/// Vertical mirroring of a square index: the file is kept, the rank is
/// flipped, so the positional tables written from one side's perspective
/// can be reused for the other.
pub open spec fn spec_flip_vertical(sq: int) -> int {
    (7 - sq / 8) * 8 + sq % 8
}

/// Executable vertical mirroring.
pub fn flip_vertical(sq: u8) -> (r: u8)
    requires
        sq < 64,
    ensures
        r == spec_flip_vertical(sq as int),
        r < 64,
{
    let rank: u8 = sq / 8;
    let file: u8 = sq % 8;
    (7 - rank) * 8 + file
}

impl Role {
    /// The lowercase English letter of the role.
    pub open spec fn spec_lower_char(self) -> u8 {
        match self {
            Role::Pawn => 112,
            Role::Knight => 110,
            Role::Bishop => 98,
            Role::Rook => 114,
            Role::Queen => 113,
            Role::King => 107,
        }
    }

    /// Executable lowercase letter of the role.
    pub fn lower_char(self) -> (r: u8)
        ensures
            r == self.spec_lower_char(),
    {
        match self {
            Role::Pawn => 112,
            Role::Knight => 110,
            Role::Bishop => 98,
            Role::Rook => 114,
            Role::Queen => 113,
            Role::King => 107,
        }
    }

    /// The role named by a lowercase English letter, if any.
    pub open spec fn spec_from_lower(c: u8) -> Option<Role> {
        if c == 112 {
            Some(Role::Pawn)
        } else if c == 110 {
            Some(Role::Knight)
        } else if c == 98 {
            Some(Role::Bishop)
        } else if c == 114 {
            Some(Role::Rook)
        } else if c == 113 {
            Some(Role::Queen)
        } else if c == 107 {
            Some(Role::King)
        } else {
            None
        }
    }

    /// Executable parse of a lowercase role letter.
    pub fn from_lower(c: u8) -> (r: Option<Role>)
        ensures
            r == Role::spec_from_lower(c),
    {
        if c == 112 {
            Some(Role::Pawn)
        } else if c == 110 {
            Some(Role::Knight)
        } else if c == 98 {
            Some(Role::Bishop)
        } else if c == 114 {
            Some(Role::Rook)
        } else if c == 113 {
            Some(Role::Queen)
        } else if c == 107 {
            Some(Role::King)
        } else {
            None
        }
    }
}

/// The mathematical value of a position: what `Position` holds, with the
/// square list as a sequence.
pub struct PositionV {
    pub squares: Seq<Option<Piece>>,
    pub turn: Color,
    pub castle_wk: bool,
    pub castle_wq: bool,
    pub castle_bk: bool,
    pub castle_bq: bool,
    pub ep: Option<u8>,
    pub halfmove: u32,
    pub fullmove: u32,
}

/// Full position state, immutable during search: applying a move produces
/// a fresh position.
#[derive(Clone, Debug)]
pub struct Position {
    pub squares: Vec<Option<Piece>>,
    pub turn: Color,
    pub castle_wk: bool,
    pub castle_wq: bool,
    pub castle_bk: bool,
    pub castle_bq: bool,
    pub ep: Option<u8>,
    pub halfmove: u32,
    pub fullmove: u32,
}

impl View for Position {
    type V = PositionV;

    open spec fn view(&self) -> PositionV {
        PositionV {
            squares: self.squares@,
            turn: self.turn,
            castle_wk: self.castle_wk,
            castle_wq: self.castle_wq,
            castle_bk: self.castle_bk,
            castle_bq: self.castle_bq,
            ep: self.ep,
            halfmove: self.halfmove,
            fullmove: self.fullmove,
        }
    }
}

impl PositionV {
    /// Well-formedness: one entry per square, the en-passant square on the
    /// board, and the full-move counter starting at one.
    pub open spec fn wf(self) -> bool {
        &&& self.squares.len() == 64
        &&& match self.ep {
            Some(e) => e < 64,
            None => true,
        }
        &&& self.fullmove >= 1
    }
}

impl Position {
    /// Well-formedness of the concrete position.
    pub open spec fn wf(&self) -> bool {
        self@.wf()
    }

    /// An explicit, fully specified clone: the copy holds exactly the same
    /// state as the original.
    pub fn duplicate(&self) -> (r: Position)
        ensures
            r@ == self@,
    {
        let mut squares: Vec<Option<Piece>> = Vec::new();
        let mut i: usize = 0;
        while i < self.squares.len()
            invariant
                0 <= i <= self.squares@.len(),
                squares@ == self.squares@.subrange(0, i as int),
            decreases self.squares@.len() - i,
        {
            squares.push(self.squares[i]);
            i += 1;
        }
        proof {
            assert(squares@ =~= self.squares@);
        }
        let r = Position {
            squares,
            turn: self.turn,
            castle_wk: self.castle_wk,
            castle_wq: self.castle_wq,
            castle_bk: self.castle_bk,
            castle_bq: self.castle_bq,
            ep: self.ep,
            halfmove: self.halfmove,
            fullmove: self.fullmove,
        };
        proof {
            assert(r@ =~= self@);
        }
        r
    }

    /// A board with no pieces, white to move, no castling rights.
    pub fn empty() -> (r: Position)
        ensures
            r.wf(),
            r@.squares == Seq::new(64, |i: int| None::<Piece>),
            r@.turn == Color::White,
            !r@.castle_wk && !r@.castle_wq && !r@.castle_bk && !r@.castle_bq,
            r@.ep == None::<u8>,
            r@.halfmove == 0,
            r@.fullmove == 1,
    {
        let mut squares: Vec<Option<Piece>> = Vec::new();
        let mut i: usize = 0;
        while i < 64
            invariant
                0 <= i <= 64,
                squares@ == Seq::new(i as nat, |j: int| None::<Piece>),
            decreases 64 - i,
        {
            squares.push(None);
            i += 1;
            proof {
                assert(squares@ =~= Seq::new(i as nat, |j: int| None::<Piece>));
            }
        }
        Position {
            squares,
            turn: Color::White,
            castle_wk: false,
            castle_wq: false,
            castle_bk: false,
            castle_bq: false,
            ep: None,
            halfmove: 0,
            fullmove: 1,
        }
    }

    /// Put a piece on a square, or clear the square.
    pub fn set_piece(&mut self, sq: u8, piece: Option<Piece>)
        requires
            old(self).wf(),
            sq < 64,
        ensures
            final(self).wf(),
            final(self)@.squares == old(self)@.squares.update(sq as int, piece),
            final(self)@.turn == old(self)@.turn,
            final(self)@.castle_wk == old(self)@.castle_wk,
            final(self)@.castle_wq == old(self)@.castle_wq,
            final(self)@.castle_bk == old(self)@.castle_bk,
            final(self)@.castle_bq == old(self)@.castle_bq,
            final(self)@.ep == old(self)@.ep,
            final(self)@.halfmove == old(self)@.halfmove,
            final(self)@.fullmove == old(self)@.fullmove,
    {
        self.squares.set(sq as usize, piece);
    }

    /// Choose the side to move.
    pub fn set_turn(&mut self, turn: Color)
        requires
            old(self).wf(),
        ensures
            final(self).wf(),
            final(self)@ == (PositionV { turn, ..old(self)@ }),
    {
        self.turn = turn;
    }

    /// The piece standing on a square.
    pub fn piece_at(&self, sq: u8) -> (r: Option<Piece>)
        requires
            self.wf(),
            sq < 64,
        ensures
            r == self@.squares[sq as int],
    {
        self.squares[sq as usize]
    }
}

/// The piece standing on a square in the initial position.
pub open spec fn initial_square(i: int) -> Option<Piece> {
    let rank = i / 8;
    let file = i % 8;
    if rank == 1 {
        Some(Piece { color: Color::White, role: Role::Pawn })
    } else if rank == 6 {
        Some(Piece { color: Color::Black, role: Role::Pawn })
    } else if rank == 0 || rank == 7 {
        let color = if rank == 0 {
            Color::White
        } else {
            Color::Black
        };
        let role = if file == 0 || file == 7 {
            Role::Rook
        } else if file == 1 || file == 6 {
            Role::Knight
        } else if file == 2 || file == 5 {
            Role::Bishop
        } else if file == 3 {
            Role::Queen
        } else {
            Role::King
        };
        Some(Piece { color, role })
    } else {
        None
    }
}

/// The initial position's value: the standard starting array, white to
/// move, all castling rights, counters at their start.
pub open spec fn initial_position() -> PositionV {
    PositionV {
        squares: Seq::new(64, |i: int| initial_square(i)),
        turn: Color::White,
        castle_wk: true,
        castle_wq: true,
        castle_bk: true,
        castle_bq: true,
        ep: None,
        halfmove: 0,
        fullmove: 1,
    }
}

/// Executable twin of `initial_square`.
fn initial_square_at(i: u8) -> (r: Option<Piece>)
    requires
        i < 64,
    ensures
        r == initial_square(i as int),
{
    let rank: u8 = i / 8;
    let file: u8 = i % 8;
    if rank == 1 {
        Some(Piece { color: Color::White, role: Role::Pawn })
    } else if rank == 6 {
        Some(Piece { color: Color::Black, role: Role::Pawn })
    } else if rank == 0 || rank == 7 {
        let color = if rank == 0 {
            Color::White
        } else {
            Color::Black
        };
        let role = if file == 0 || file == 7 {
            Role::Rook
        } else if file == 1 || file == 6 {
            Role::Knight
        } else if file == 2 || file == 5 {
            Role::Bishop
        } else if file == 3 {
            Role::Queen
        } else {
            Role::King
        };
        Some(Piece { color, role })
    } else {
        None
    }
}

impl Position {
    /// The standard starting position.
    pub fn initial() -> (r: Position)
        ensures
            r.wf(),
            r@ == initial_position(),
    {
        let mut squares: Vec<Option<Piece>> = Vec::new();
        let mut i: usize = 0;
        while i < 64
            invariant
                0 <= i <= 64,
                squares@ == Seq::new(i as nat, |j: int| initial_square(j)),
            decreases 64 - i,
        {
            squares.push(initial_square_at(i as u8));
            i += 1;
            proof {
                assert(squares@ =~= Seq::new(i as nat, |j: int| initial_square(j)));
            }
        }
        let r = Position {
            squares,
            turn: Color::White,
            castle_wk: true,
            castle_wq: true,
            castle_bk: true,
            castle_bq: true,
            ep: None,
            halfmove: 0,
            fullmove: 1,
        };
        proof {
            assert(r@.squares =~= initial_position().squares);
            assert(r@ =~= initial_position());
        }
        r
    }
}

/// A numeric code for each role, from one for the pawn up to six for
/// the king.
pub open spec fn spec_role_index(r: Role) -> u8 {
    match r {
        Role::Pawn => 1,
        Role::Knight => 2,
        Role::Bishop => 3,
        Role::Rook => 4,
        Role::Queen => 5,
        Role::King => 6,
    }
}

/// Executable role code.
pub fn role_index(r: Role) -> (i: u8)
    ensures
        i == spec_role_index(r),
{
    match r {
        Role::Pawn => 1,
        Role::Knight => 2,
        Role::Bishop => 3,
        Role::Rook => 4,
        Role::Queen => 5,
        Role::King => 6,
    }
}

/// The role a numeric code names, a pawn for anything out of range.
pub open spec fn spec_role_of_index(i: u8) -> Role {
    if i == 2 {
        Role::Knight
    } else if i == 3 {
        Role::Bishop
    } else if i == 4 {
        Role::Rook
    } else if i == 5 {
        Role::Queen
    } else if i == 6 {
        Role::King
    } else {
        Role::Pawn
    }
}

/// Executable decode of a role code.
pub fn role_of_index(i: u8) -> (r: Role)
    ensures
        r == spec_role_of_index(i),
{
    if i == 2 {
        Role::Knight
    } else if i == 3 {
        Role::Bishop
    } else if i == 4 {
        Role::Rook
    } else if i == 5 {
        Role::Queen
    } else if i == 6 {
        Role::King
    } else {
        Role::Pawn
    }
}


} // verus!
