//! Squares, sides and piece kinds.

use vstd::prelude::*;

verus! {

/// The side a piece belongs to, and the side seen at the bottom of the board.
#[derive(Clone, Copy, Debug, PartialEq, Eq, Structural, Hash)]
pub enum Color {
    Black,
    White,
}

impl Color {
    /// `White` for `true`, `Black` for `false`.
    pub open spec fn spec_from_bool(white: bool) -> Color {
        if white {
            Color::White
        } else {
            Color::Black
        }
    }

    /// `White` for `true`, `Black` for `false`.
    pub fn from_bool(white: bool) -> (color: Color)
        ensures
            color == Color::spec_from_bool(white),
    {
        if white {
            Color::White
        } else {
            Color::Black
        }
    }

    /// The first value for white, the second for black.
    pub open spec fn spec_fold<T>(self, white: T, black: T) -> T {
        match self {
            Color::White => white,
            Color::Black => black,
        }
    }

    /// The first value for white, the second for black.
    pub fn fold<T>(self, white: T, black: T) -> (picked: T)
        ensures
            picked == self.spec_fold(white, black),
    {
        match self {
            Color::White => white,
            Color::Black => black,
        }
    }
}

/// A piece kind.  The variants stand in the order in which the picker shows
/// them, counted from the edge of the board that the pawn has reached.
#[derive(Clone, Copy, Debug, PartialEq, Eq, Structural, Hash)]
pub enum Role {
    Queen,
    Rook,
    Bishop,
    Knight,
    King,
    Pawn,
}

/// Number of piece kinds, and so of cells that the picker can show.
pub const ROLE_COUNT: u8 = 6;

impl Role {
    /// Place of the role in the picker: 0 for the queen, 5 for the pawn.
    pub open spec fn spec_offset(self) -> int {
        match self {
            Role::Queen => 0,
            Role::Rook => 1,
            Role::Bishop => 2,
            Role::Knight => 3,
            Role::King => 4,
            Role::Pawn => 5,
        }
    }

    /// The role shown at a place of the picker, if the place is one of the six.
    pub open spec fn spec_from_offset(offset: int) -> Option<Role> {
        if offset == 0 {
            Some(Role::Queen)
        } else if offset == 1 {
            Some(Role::Rook)
        } else if offset == 2 {
            Some(Role::Bishop)
        } else if offset == 3 {
            Some(Role::Knight)
        } else if offset == 4 {
            Some(Role::King)
        } else if offset == 5 {
            Some(Role::Pawn)
        } else {
            None
        }
    }

    /// Place of the role in the picker: 0 for the queen, 5 for the pawn.
    pub fn offset(self) -> (offset: u8)
        ensures
            offset == self.spec_offset(),
            offset < ROLE_COUNT,
    {
        match self {
            Role::Queen => 0,
            Role::Rook => 1,
            Role::Bishop => 2,
            Role::Knight => 3,
            Role::King => 4,
            Role::Pawn => 5,
        }
    }

    /// The role shown at a place of the picker, `None` past the sixth place.
    pub fn from_offset(offset: u8) -> (role: Option<Role>)
        ensures
            role == Role::spec_from_offset(offset as int),
            role is Some <==> offset < ROLE_COUNT,
    {
        match offset {
            0 => Some(Role::Queen),
            1 => Some(Role::Rook),
            2 => Some(Role::Bishop),
            3 => Some(Role::Knight),
            4 => Some(Role::King),
            5 => Some(Role::Pawn),
            _ => None,
        }
    }

    /// Offsets and roles correspond one to one.
    pub proof fn lemma_offset_round_trip(role: Role)
        ensures
            0 <= role.spec_offset() < 6,
            Role::spec_from_offset(role.spec_offset()) == Some(role),
    {
    }
}

/// One of the 64 squares, held as `rank * 8 + file`.
#[derive(Clone, Copy, Debug, PartialEq, Eq, Structural, PartialOrd, Ord, Hash)]
pub struct Square {
    index: u8,
}

impl Square {
    /// Every square that exists has an index below 64.
    #[verifier::type_invariant]
    pub closed spec fn wf(self) -> bool {
        self.index < 64
    }

    /// The square on a file and a rank.
    pub closed spec fn at(file: int, rank: int) -> Square {
        Square { index: (rank * 8 + file) as u8 }
    }

    /// File of the square, 0 for the a-file.
    pub closed spec fn spec_file(self) -> int {
        self.index as int % 8
    }

    /// Rank of the square, 0 for the first rank.
    pub closed spec fn spec_rank(self) -> int {
        self.index as int / 8
    }

    /// The square on a file and a rank, if both lie on the board.
    pub open spec fn spec_from_coords(file: int, rank: int) -> Option<Square> {
        if 0 <= file < 8 && 0 <= rank < 8 {
            Some(Square::at(file, rank))
        } else {
            None
        }
    }

    /// The square on a file and a rank, `None` when either is off the board.
    pub fn from_coords(file: i8, rank: i8) -> (square: Option<Square>)
        ensures
            square == Square::spec_from_coords(file as int, rank as int),
            square matches Some(s) ==> s.wf(),
    {
        if 0 <= file && file < 8 && 0 <= rank && rank < 8 {
            let index: u8 = (rank * 8 + file) as u8;
            Some(Square { index })
        } else {
            None
        }
    }

    /// File of the square, 0 for the a-file.
    pub fn file(self) -> (file: i8)
        ensures
            file == self.spec_file(),
            0 <= file < 8,
    {
        proof {
            use_type_invariant(&self);
        }
        (self.index % 8) as i8
    }

    /// Rank of the square, 0 for the first rank.
    pub fn rank(self) -> (rank: i8)
        ensures
            rank == self.spec_rank(),
            0 <= rank < 8,
    {
        proof {
            use_type_invariant(&self);
        }
        (self.index / 8) as i8
    }

    /// A square lies on the board, and `at` gives it back from its file and
    /// rank.
    pub proof fn lemma_coords(self)
        requires
            self.wf(),
        ensures
            0 <= self.spec_file() < 8,
            0 <= self.spec_rank() < 8,
            Square::at(self.spec_file(), self.spec_rank()) == self,
    {
    }

    /// `at` builds the square whose file and rank were given.
    pub proof fn lemma_at(file: int, rank: int)
        requires
            0 <= file < 8,
            0 <= rank < 8,
        ensures
            Square::at(file, rank).wf(),
            Square::at(file, rank).spec_file() == file,
            Square::at(file, rank).spec_rank() == rank,
    {
    }
}

} // verus!
