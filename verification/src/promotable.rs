//! The promotion picker: which promotion is being chosen, which square the
//! pointer hovers over and since when, what a click decides, and what is to
//! be painted.
//!
//! Every step exists twice.  The form whose name ends in `_at` takes the time
//! as an argument and has an exact contract.  The form without it reads the
//! monotonic clock and promises the same for some reading of the clock.

use vstd::prelude::*;
use crate::board::{Color, Role, Square, ROLE_COUNT};
use crate::clock;
use crate::util::{ease, floor_sqrt, is_floor_sqrt, spec_ease, EASE_MILLIS};

verus! {

/// Nanoseconds in a millisecond.
pub const NANOS_PER_MILLI: u64 = 1_000_000;

/// Opacity of the black veil that dims the board under the picker, in
/// thousandths.
pub const VEIL_ALPHA: i32 = 500;

/// Grey of the ground of a light cell, in thousandths of full brightness.
pub const LIGHT_GROUND: i32 = 250;

/// Grey of the ground of a dark cell, in thousandths of full brightness.
pub const DARK_GROUND: i32 = 180;

/// Grey of the disc behind a piece that is not hovered, in thousandths.
pub const DISC_GREY: i32 = 690;

/// Red of the disc behind the hovered piece once its animation has ended,
/// in thousandths.
pub const GLOW_RED: i32 = 1000;

/// Green of that disc, in thousandths.
pub const GLOW_GREEN: i32 = 650;

/// Blue of that disc, in thousandths.
pub const GLOW_BLUE: i32 = 0;

/// Radius of the disc behind a piece that is not hovered, in thousandths of
/// a square: the disc touches the sides of its cell.
pub const DISC_RADIUS: i32 = 500;

/// Radius of the disc behind the hovered piece once its animation has ended,
/// in thousandths of a square: the disc reaches the corners of its cell.
pub const GLOW_RADIUS: i32 = 707;

/// What the rules of chess say of the promotion that is being chosen: for
/// each role, whether the pawn may be promoted to it.
#[derive(Clone, Copy, Debug, PartialEq, Eq)]
pub struct LegalRoles {
    pub queen: bool,
    pub rook: bool,
    pub bishop: bool,
    pub knight: bool,
    pub king: bool,
    pub pawn: bool,
}

impl LegalRoles {
    /// Whether the pawn may be promoted to the role.
    pub open spec fn spec_allows(self, role: Role) -> bool {
        match role {
            Role::Queen => self.queen,
            Role::Rook => self.rook,
            Role::Bishop => self.bishop,
            Role::Knight => self.knight,
            Role::King => self.king,
            Role::Pawn => self.pawn,
        }
    }

    /// Whether the pawn may be promoted to the role.
    pub fn allows(&self, role: Role) -> (legal: bool)
        ensures
            legal == self.spec_allows(role),
    {
        match role {
            Role::Queen => self.queen,
            Role::Rook => self.rook,
            Role::Bishop => self.bishop,
            Role::Knight => self.knight,
            Role::King => self.king,
            Role::Pawn => self.pawn,
        }
    }
}

/// Rank of the cell that shows a role, for the side that promotes.  White
/// promotes on the eighth rank and its cells run down from there; black
/// promotes on the first rank and its cells run up.
pub open spec fn spec_role_rank(side: Color, role: Role) -> int {
    side.spec_fold::<int>(7 - role.spec_offset(), role.spec_offset())
}

/// The role shown on a rank, if the rank holds one of the six cells.
pub open spec fn spec_role_at_rank(side: Color, rank: int) -> Option<Role> {
    Role::spec_from_offset(side.spec_fold::<int>(7 - rank, rank))
}

/// A role is shown on its own rank and on no other.
pub proof fn lemma_role_rank(side: Color, role: Role, rank: int)
    ensures
        2 <= spec_role_rank(Color::White, role) <= 7,
        0 <= spec_role_rank(Color::Black, role) <= 5,
        spec_role_at_rank(side, rank) == Some(role) <==> rank == spec_role_rank(side, role),
{
}

/// Rank of the cell that shows a role, for the side that promotes.
pub fn role_rank(side: Color, role: Role) -> (rank: i8)
    ensures
        rank == spec_role_rank(side, role),
        0 <= rank < 8,
{
    let offset: i8 = role.offset() as i8;
    side.fold(7 - offset, offset)
}

/// The role shown on a rank, `None` where the rank holds no cell.
pub fn role_at_rank(side: Color, rank: i8) -> (role: Option<Role>)
    ensures
        role == spec_role_at_rank(side, rank as int),
{
    let offset: i16 = match side {
        Color::White => 7 - rank as i16,
        Color::Black => rank as i16,
    };
    if 0 <= offset && offset < 6 {
        Role::from_offset(offset as u8)
    } else {
        None
    }
}

/// Whether two optional squares are the same.
pub fn same_square(a: Option<Square>, b: Option<Square>) -> (same: bool)
    ensures
        same == (a == b),
{
    match (a, b) {
        (Some(x), Some(y)) => x == y,
        (None, None) => true,
        _ => false,
    }
}

/// A promotion that is being chosen.
#[derive(Clone, Copy, Debug, PartialEq, Eq)]
pub struct Promoting {
    /// Square that the pawn comes from.
    pub orig: Square,
    /// Square that the pawn moves to.
    pub dest: Square,
    /// Square under the pointer, `None` while the pointer is off the board.
    pub hover: Option<Square>,
    /// Reading of the monotonic clock, in nanoseconds, when `hover` last changed.
    pub time: u64,
}

impl Promoting {
    /// The side that promotes: white when the pawn arrives in the upper half.
    pub open spec fn spec_orientation(self) -> Color {
        Color::spec_from_bool(self.dest.spec_rank() > 4)
    }

    /// Whole milliseconds between the last change of `hover` and `now`,
    /// negative when `now` lies before it.
    pub open spec fn spec_elapsed(self, now: u64) -> int {
        if now >= self.time {
            (now - self.time) / NANOS_PER_MILLI as int
        } else {
            -((self.time - now) / NANOS_PER_MILLI as int)
        }
    }

    /// Whether the hover animation still runs at `now`.
    pub open spec fn spec_is_animating(self, now: u64) -> bool {
        self.hover is Some && self.spec_elapsed(now) < EASE_MILLIS
    }

    /// The same promotion with the pointer over another square since `now`;
    /// unchanged if the pointer has not left its square.
    pub open spec fn spec_hover(self, square: Option<Square>, now: u64) -> Promoting {
        if self.hover == square {
            self
        } else {
            Promoting { hover: square, time: now, ..self }
        }
    }

    /// Whether the pointer is over the cell on a rank of the picker.
    pub open spec fn spec_hovers(self, rank: int) -> bool {
        self.hover matches Some(square) && square.spec_file() == self.dest.spec_file()
            && square.spec_rank() == rank
    }

    /// The cell that offers a role, as it looks at `now`.  The disc of the
    /// hovered cell grows and turns from grey to gold while its animation
    /// runs.
    pub open spec fn spec_cell(self, role: Role, now: u64) -> Cell {
        let side = self.spec_orientation();
        let file = self.dest.spec_file();
        let rank = spec_role_rank(side, role);
        let hovered = self.spec_hovers(rank);
        let elapsed = self.spec_elapsed(now);
        Cell {
            role,
            side,
            file: file as i8,
            rank: rank as i8,
            light: (file + rank) % 2 == 1,
            hovered,
            radius: if hovered {
                spec_ease(DISC_RADIUS as int, GLOW_RADIUS as int, elapsed) as i32
            } else {
                DISC_RADIUS
            },
            red: if hovered {
                spec_ease(DISC_GREY as int, GLOW_RED as int, elapsed) as i32
            } else {
                DISC_GREY
            },
            green: if hovered {
                spec_ease(DISC_GREY as int, GLOW_GREEN as int, elapsed) as i32
            } else {
                DISC_GREY
            },
            blue: if hovered {
                spec_ease(DISC_GREY as int, GLOW_BLUE as int, elapsed) as i32
            } else {
                DISC_GREY
            },
        }
    }

    /// The cells of the legal roles among the first `count` roles, in the
    /// order of the roles.
    pub open spec fn spec_cells_upto(self, legal: LegalRoles, now: u64, count: int) -> Seq<Cell>
        decreases count,
    {
        if count <= 0 {
            Seq::empty()
        } else {
            let before = self.spec_cells_upto(legal, now, count - 1);
            match Role::spec_from_offset(count - 1) {
                Some(role) => if legal.spec_allows(role) {
                    before.push(self.spec_cell(role, now))
                } else {
                    before
                },
                None => before,
            }
        }
    }

    /// The cells of the picker at `now`: one for each legal role, the
    /// queen's first and the pawn's last.
    pub open spec fn spec_cells(self, legal: LegalRoles, now: u64) -> Seq<Cell> {
        self.spec_cells_upto(legal, now, 6)
    }

    /// The cells hold each legal role once and no other role, each as
    /// `spec_cell` describes it, in the order of the roles.
    pub proof fn lemma_cells(self, legal: LegalRoles, now: u64)
        ensures
            forall|i: int|
                0 <= i < self.spec_cells(legal, now).len() ==> {
                    let cell = #[trigger] self.spec_cells(legal, now)[i];
                    legal.spec_allows(cell.role) && cell == self.spec_cell(cell.role, now)
                },
            forall|i: int, j: int|
                0 <= i < j < self.spec_cells(legal, now).len() ==> (
                #[trigger] self.spec_cells(legal, now)[i]).role.spec_offset() < (
                #[trigger] self.spec_cells(legal, now)[j]).role.spec_offset(),
            forall|role: Role|
                legal.spec_allows(role) ==> self.spec_cells(legal, now).contains(
                    #[trigger] self.spec_cell(role, now),
                ),
    {
        self.lemma_cells_upto(legal, now, 6);
        assert forall|role: Role| legal.spec_allows(role) implies self.spec_cells(
            legal,
            now,
        ).contains(#[trigger] self.spec_cell(role, now)) by {
            Role::lemma_offset_round_trip(role);
        }
    }

    proof fn lemma_cells_upto(self, legal: LegalRoles, now: u64, count: int)
        requires
            0 <= count <= 6,
        ensures
            forall|i: int|
                0 <= i < self.spec_cells_upto(legal, now, count).len() ==> {
                    let cell = #[trigger] self.spec_cells_upto(legal, now, count)[i];
                    &&& legal.spec_allows(cell.role)
                    &&& cell == self.spec_cell(cell.role, now)
                    &&& cell.role.spec_offset() < count
                },
            forall|i: int, j: int|
                0 <= i < j < self.spec_cells_upto(legal, now, count).len() ==> (
                #[trigger] self.spec_cells_upto(legal, now, count)[i]).role.spec_offset() < (
                #[trigger] self.spec_cells_upto(legal, now, count)[j]).role.spec_offset(),
            forall|role: Role|
                legal.spec_allows(role) && role.spec_offset() < count ==> self.spec_cells_upto(
                    legal,
                    now,
                    count,
                ).contains(#[trigger] self.spec_cell(role, now)),
        decreases count,
    {
        if count > 0 {
            self.lemma_cells_upto(legal, now, count - 1);
            let before = self.spec_cells_upto(legal, now, count - 1);
            let cells = self.spec_cells_upto(legal, now, count);
            let last = Role::spec_from_offset(count - 1)->0;
            Role::lemma_offset_round_trip(last);
            assert(last.spec_offset() == count - 1);
            assert forall|role: Role|
                legal.spec_allows(role) && role.spec_offset() < count implies cells.contains(
                #[trigger] self.spec_cell(role, now),
            ) by {
                Role::lemma_offset_round_trip(role);
                if role.spec_offset() < count - 1 {
                    let i = choose|i: int|
                        0 <= i < before.len() && before[i] == self.spec_cell(role, now);
                    assert(cells[i] == self.spec_cell(role, now));
                } else {
                    assert(role == last);
                    assert(cells[cells.len() - 1] == self.spec_cell(role, now));
                }
            }
        }
    }

    /// The side that promotes.
    pub fn orientation(&self) -> (side: Color)
        ensures
            side == self.spec_orientation(),
    {
        Color::from_bool(self.dest.rank() > 4)
    }

    /// The cell that offers a role, as it looks at `now`.
    pub fn cell(&self, role: Role, now: u64) -> (cell: Cell)
        ensures
            cell == self.spec_cell(role, now),
    {
        let side = self.orientation();
        let file = self.dest.file();
        let rank = role_rank(side, role);
        let hovered = match self.hover {
            Some(square) => square.file() == file && square.rank() == rank,
            None => false,
        };
        let elapsed = self.elapsed(now);
        proof {
            crate::util::lemma_ease_range(500, 707, elapsed as int);
            crate::util::lemma_ease_range(690, 1000, elapsed as int);
            crate::util::lemma_ease_range(690, 650, elapsed as int);
            crate::util::lemma_ease_range(690, 0, elapsed as int);
        }
        Cell {
            role,
            side,
            file,
            rank,
            light: (file + rank) % 2 == 1,
            hovered,
            radius: if hovered {
                ease(DISC_RADIUS, GLOW_RADIUS, elapsed)
            } else {
                DISC_RADIUS
            },
            red: if hovered {
                ease(DISC_GREY, GLOW_RED, elapsed)
            } else {
                DISC_GREY
            },
            green: if hovered {
                ease(DISC_GREY, GLOW_GREEN, elapsed)
            } else {
                DISC_GREY
            },
            blue: if hovered {
                ease(DISC_GREY, GLOW_BLUE, elapsed)
            } else {
                DISC_GREY
            },
        }
    }

    /// The cells of the picker at `now`: one for each legal role, the
    /// queen's first and the pawn's last.
    pub fn cells(&self, legal: &LegalRoles, now: u64) -> (cells: Vec<Cell>)
        ensures
            cells@ == self.spec_cells(*legal, now),
    {
        let mut cells: Vec<Cell> = Vec::new();
        let mut offset: u8 = 0;
        while offset < ROLE_COUNT
            invariant
                offset <= ROLE_COUNT,
                cells@ == self.spec_cells_upto(*legal, now, offset as int),
            decreases ROLE_COUNT - offset,
        {
            match Role::from_offset(offset) {
                Some(role) => {
                    if legal.allows(role) {
                        cells.push(self.cell(role, now));
                    }
                },
                None => {},
            }
            offset += 1;
        }
        cells
    }

    /// Whole milliseconds between the last change of `hover` and `now`.
    pub fn elapsed(&self, now: u64) -> (millis: i64)
        ensures
            millis == self.spec_elapsed(now),
    {
        if now >= self.time {
            ((now - self.time) / NANOS_PER_MILLI) as i64
        } else {
            -(((self.time - now) / NANOS_PER_MILLI) as i64)
        }
    }
}

/// One cell of the picker, as it is to be painted.  Colours and the radius
/// are in thousandths: of full brightness, and of the side of a square.
#[derive(Clone, Copy, Debug, PartialEq, Eq)]
pub struct Cell {
    /// The role that the cell offers.
    pub role: Role,
    /// The side whose piece is shown.
    pub side: Color,
    /// File of the cell: that of the destination.
    pub file: i8,
    /// Rank of the cell.
    pub rank: i8,
    /// Whether the ground of the cell is the lighter one.
    pub light: bool,
    /// Whether the pointer is over the cell.
    pub hovered: bool,
    /// Radius of the disc behind the piece.
    pub radius: i32,
    /// Colour of the disc behind the piece.
    pub red: i32,
    pub green: i32,
    pub blue: i32,
}

impl Cell {
    /// Grey of the ground of the cell, in thousandths of full brightness.
    pub open spec fn spec_ground(self) -> int {
        if self.light {
            LIGHT_GROUND as int
        } else {
            DARK_GROUND as int
        }
    }

    /// Grey of the ground of the cell, in thousandths of full brightness.
    pub fn ground(&self) -> (grey: i32)
        ensures
            grey == self.spec_ground(),
    {
        if self.light {
            LIGHT_GROUND
        } else {
            DARK_GROUND
        }
    }

    /// Side of the square in which the piece is drawn, in thousandths of a
    /// square: the largest upright square that fits into the disc, rounded
    /// down.  Its middle is the middle of the cell.
    pub fn glyph_side(&self) -> (side: u32)
        ensures
            is_floor_sqrt(side as int, 2 * (self.radius * self.radius)),
    {
        let radius: u64 = if self.radius >= 0 {
            self.radius as u64
        } else {
            (-(self.radius as i64)) as u64
        };
        assert(radius * radius == self.radius * self.radius) by (nonlinear_arith)
            requires
                radius == self.radius || radius == -self.radius,
        ;
        assert(radius * radius <= 0x8000_0000 * 0x8000_0000) by (nonlinear_arith)
            requires
                0 <= radius <= 0x8000_0000,
        ;
        floor_sqrt(2 * (radius * radius)) as u32
    }
}

/// What is to be painted over the board while the picker is open: a black
/// veil over all of it, then the cells in the order given.
#[derive(Clone, Debug, PartialEq, Eq)]
pub struct Overlay {
    /// Opacity of the veil, in thousandths.
    pub veil: i32,
    /// The cells of the roles that are legal, the queen's first.
    pub cells: Vec<Cell>,
}

/// The squares to paint again after the pointer has moved.
#[derive(Clone, Copy, Debug, PartialEq, Eq)]
pub struct Redraw {
    /// Square that was hovered before the move.
    pub before: Option<Square>,
    /// Square that is hovered after the move.
    pub after: Option<Square>,
}

/// A promotion move that the user has chosen.
#[derive(Clone, Copy, Debug, PartialEq, Eq)]
pub struct UserMove {
    pub orig: Square,
    pub dest: Square,
    pub role: Role,
}

/// A piece to put back after a promotion was given up: the piece on `piece`
/// is shown on the middle of `to`, and its own animation starts at `time`.
#[derive(Clone, Copy, Debug, PartialEq, Eq)]
pub struct Reset {
    pub piece: Square,
    pub to: Square,
    pub time: u64,
}

/// What a click has decided.
#[derive(Clone, Copy, Debug, PartialEq, Eq)]
pub enum MouseDown {
    /// No promotion was being chosen; the click is not the picker's.
    Idle,
    /// The click chose a legal role: the move is to be announced, and the
    /// click is used up.
    Move(UserMove),
    /// The click chose nothing: the promotion is given up, the pawn goes
    /// back, and the click is left to others.
    Cancel(Reset),
}

impl MouseDown {
    /// Whether the click is used up and must not be handled further.
    pub open spec fn spec_handled(self) -> bool {
        self is Move
    }

    /// Whether the picker was open and the whole board is to be painted again.
    pub open spec fn spec_redraw_all(self) -> bool {
        !(self is Idle)
    }

    /// Whether the click is used up and must not be handled further.
    pub fn handled(&self) -> (handled: bool)
        ensures
            handled == self.spec_handled(),
    {
        match self {
            MouseDown::Move(_) => true,
            _ => false,
        }
    }

    /// Whether the picker was open and the whole board is to be painted again.
    pub fn redraw_all(&self) -> (all: bool)
        ensures
            all == self.spec_redraw_all(),
    {
        match self {
            MouseDown::Idle => false,
            _ => true,
        }
    }
}

/// The role that a click on a square chooses: the square lies on the file of
/// the destination, its rank shows a role, and the role is legal.
pub open spec fn spec_clicked_role(
    promoting: Promoting,
    legal: LegalRoles,
    square: Option<Square>,
) -> Option<Role> {
    match square {
        Some(sq) => {
            if sq.spec_file() == promoting.dest.spec_file() {
                match spec_role_at_rank(promoting.spec_orientation(), sq.spec_rank()) {
                    Some(role) => if legal.spec_allows(role) {
                        Some(role)
                    } else {
                        None
                    },
                    None => None,
                }
            } else {
                None
            }
        },
        None => None,
    }
}

/// What a click at `now` decides in a state of the picker.
pub open spec fn spec_mouse_down(
    state: Option<Promoting>,
    legal: LegalRoles,
    square: Option<Square>,
    now: u64,
) -> MouseDown {
    match state {
        None => MouseDown::Idle,
        Some(promoting) => match spec_clicked_role(promoting, legal, square) {
            Some(role) => MouseDown::Move(
                UserMove { orig: promoting.orig, dest: promoting.dest, role },
            ),
            None => MouseDown::Cancel(
                Reset { piece: promoting.orig, to: promoting.dest, time: now },
            ),
        },
    }
}

/// State of the picker after the pointer has moved at `now`.
pub open spec fn spec_mouse_move(state: Option<Promoting>, square: Option<Square>, now: u64) -> Option<
    Promoting,
> {
    match state {
        None => None,
        Some(promoting) => Some(promoting.spec_hover(square, now)),
    }
}

/// The hovered square of a state of the picker.
pub open spec fn spec_hovered(state: Option<Promoting>) -> Option<Square> {
    match state {
        None => None,
        Some(promoting) => promoting.hover,
    }
}

/// State of the picker after a promotion was started at `now`.
pub open spec fn spec_start_promoting(orig: Square, dest: Square, now: u64) -> Option<Promoting> {
    Some(Promoting { orig, dest, hover: Some(dest), time: now })
}

/// Whether a state of the picker holds the promotion of the pawn on `orig`.
pub open spec fn spec_is_promoting(state: Option<Promoting>, orig: Square) -> bool {
    state matches Some(promoting) && promoting.orig == orig
}

/// Whether the hover animation of a state of the picker still runs at `now`.
pub open spec fn spec_is_animating(state: Option<Promoting>, now: u64) -> bool {
    state matches Some(promoting) && promoting.spec_is_animating(now)
}

/// Once a promotion has been started, the picker holds the promotion of
/// the pawn on its origin and of no other square.
pub proof fn lemma_started_is_promoting(orig: Square, dest: Square, now: u64, square: Square)
    ensures
        spec_is_promoting(spec_start_promoting(orig, dest, now), square) <==> square == orig,
        spec_hovered(spec_start_promoting(orig, dest, now)) == Some(dest),
        spec_is_animating(spec_start_promoting(orig, dest, now), now),
{
}

/// A closed picker holds no promotion, animates nothing and leaves every
/// click alone.
pub proof fn lemma_idle(legal: LegalRoles, clicked: Option<Square>, square: Square, now: u64)
    ensures
        !spec_is_promoting(None, square),
        !spec_is_animating(None, now),
        spec_hovered(None) is None,
        spec_mouse_move(None, clicked, now) is None,
        spec_mouse_down(None, legal, clicked, now) == MouseDown::Idle,
{
}

/// A click on the cell of a legal role announces the move to that role and
/// is used up.
pub proof fn lemma_click_on_legal_role(
    promoting: Promoting,
    legal: LegalRoles,
    square: Square,
    role: Role,
    now: u64,
)
    requires
        square.spec_file() == promoting.dest.spec_file(),
        square.spec_rank() == spec_role_rank(promoting.spec_orientation(), role),
        legal.spec_allows(role),
    ensures
        spec_mouse_down(Some(promoting), legal, Some(square), now) == MouseDown::Move(
            UserMove { orig: promoting.orig, dest: promoting.dest, role },
        ),
        spec_mouse_down(Some(promoting), legal, Some(square), now).spec_handled(),
{
    lemma_role_rank(promoting.spec_orientation(), role, square.spec_rank());
}

/// A click that is off the board, on another file than the destination, on
/// a rank that shows no role, or on the cell of a role that is not legal,
/// announces no move: the promotion is given up, the piece on the origin is
/// put back, and the click is left to others.
pub proof fn lemma_click_elsewhere_cancels(
    promoting: Promoting,
    legal: LegalRoles,
    clicked: Option<Square>,
    now: u64,
)
    requires
        clicked matches Some(square) ==> {
            ||| square.spec_file() != promoting.dest.spec_file()
            ||| spec_role_at_rank(promoting.spec_orientation(), square.spec_rank()) is None
            ||| !legal.spec_allows(
                spec_role_at_rank(promoting.spec_orientation(), square.spec_rank())->0,
            )
        },
    ensures
        spec_mouse_down(Some(promoting), legal, clicked, now) == MouseDown::Cancel(
            Reset { piece: promoting.orig, to: promoting.dest, time: now },
        ),
        !spec_mouse_down(Some(promoting), legal, clicked, now).spec_handled(),
{
}

/// Every click on an open picker either announces a move to a legal role
/// whose cell was hit, or gives the promotion up.
pub proof fn lemma_click_decides(
    promoting: Promoting,
    legal: LegalRoles,
    clicked: Option<Square>,
    now: u64,
)
    ensures
        match spec_mouse_down(Some(promoting), legal, clicked, now) {
            MouseDown::Move(user_move) => {
                &&& user_move.orig == promoting.orig
                &&& user_move.dest == promoting.dest
                &&& legal.spec_allows(user_move.role)
                &&& clicked matches Some(square)
                &&& square.spec_file() == promoting.dest.spec_file()
                &&& square.spec_rank() == spec_role_rank(
                    promoting.spec_orientation(),
                    user_move.role,
                )
            },
            MouseDown::Cancel(reset) => {
                &&& reset.piece == promoting.orig
                &&& reset.to == promoting.dest
                &&& reset.time == now
            },
            MouseDown::Idle => false,
        },
{
    if let Some(square) = clicked {
        if let Some(role) = spec_role_at_rank(promoting.spec_orientation(), square.spec_rank()) {
            lemma_role_rank(promoting.spec_orientation(), role, square.spec_rank());
        }
    }
}

/// When the pointer comes to another square of the board, the animation
/// runs from that moment for one second and no longer.  When the pointer
/// stays where it is, nothing changes.
pub proof fn lemma_hover_animates(promoting: Promoting, square: Square, now: u64, later: u64)
    requires
        now <= later,
    ensures
        promoting.hover != Some(square) ==> (spec_is_animating(
            spec_mouse_move(Some(promoting), Some(square), now),
            later,
        ) <==> later - now < EASE_MILLIS * NANOS_PER_MILLI),
        promoting.hover == Some(square) ==> spec_mouse_move(Some(promoting), Some(square), now)
            == Some(promoting),
        spec_hovered(spec_mouse_move(Some(promoting), Some(square), now)) == Some(square),
{
    let elapsed = (later - now) as int;
    assert(elapsed / 1_000_000 < 1000 <==> elapsed < 1_000_000_000) by {
        vstd::arithmetic::div_mod::lemma_fundamental_div_mod(elapsed, 1_000_000);
        vstd::arithmetic::div_mod::lemma_mod_bound(elapsed, 1_000_000);
    }
}

/// While the pointer is off the board nothing is animated.
pub proof fn lemma_off_board_is_still(promoting: Promoting, now: u64, later: u64)
    ensures
        !spec_is_animating(spec_mouse_move(Some(promoting), None, now), later),
        spec_hovered(spec_mouse_move(Some(promoting), None, now)) is None,
{
}

/// The promotion picker of one board.
#[derive(Clone, Copy, Debug, PartialEq, Eq)]
pub struct Promotable {
    promoting: Option<Promoting>,
}

impl View for Promotable {
    type V = Option<Promoting>;

    closed spec fn view(&self) -> Option<Promoting> {
        self.promoting
    }
}

impl Promotable {
    /// A picker that is closed.
    pub fn new() -> (picker: Promotable)
        ensures
            picker@ is None,
    {
        Promotable { promoting: None }
    }

    /// The promotion that is being chosen, if any.
    pub fn promoting(&self) -> (promoting: Option<Promoting>)
        ensures
            promoting == self@,
    {
        self.promoting
    }

    /// Opens the picker at `now` for the pawn that moves from `orig` to
    /// `dest`, with the pointer taken to be over `dest`.
    pub fn start_promoting_at(&mut self, orig: Square, dest: Square, now: u64)
        ensures
            final(self)@ == spec_start_promoting(orig, dest, now),
    {
        self.promoting = Some(Promoting { orig, dest, hover: Some(dest), time: now });
    }

    /// Opens the picker for the pawn that moves from `orig` to `dest`.
    pub fn start_promoting(&mut self, orig: Square, dest: Square)
        ensures
            exists|now: u64| final(self)@ == spec_start_promoting(orig, dest, now),
    {
        let now = clock::now();
        self.start_promoting_at(orig, dest, now);
    }

    /// Whether the promotion of the pawn on `orig` is being chosen.
    pub fn is_promoting(&self, orig: Square) -> (promoting: bool)
        ensures
            promoting == spec_is_promoting(self@, orig),
    {
        match self.promoting {
            Some(p) => p.orig == orig,
            None => false,
        }
    }

    /// Whether the hover animation still runs at `now`: a square is hovered
    /// and less than a second has passed since the pointer came to it.
    pub fn is_animating_at(&self, now: u64) -> (animating: bool)
        ensures
            animating == spec_is_animating(self@, now),
    {
        match self.promoting {
            Some(p) => p.hover.is_some() && p.elapsed(now) < EASE_MILLIS,
            None => false,
        }
    }

    /// Whether the hover animation still runs.
    pub fn is_animating(&self) -> (animating: bool)
        ensures
            exists|now: u64| animating == spec_is_animating(self@, now),
    {
        let now = clock::now();
        self.is_animating_at(now)
    }

    /// The square to paint again while the animation runs: the hovered one.
    pub fn queue_animation(&self) -> (square: Option<Square>)
        ensures
            square == spec_hovered(self@),
    {
        match self.promoting {
            Some(p) => p.hover,
            None => None,
        }
    }

    /// Follows the pointer to `square` at `now`.  When the hovered square
    /// changes, its animation starts anew.  Hands back the squares hovered
    /// before and after, which are to be painted again.
    pub fn mouse_move_at(&mut self, square: Option<Square>, now: u64) -> (redraw: Redraw)
        ensures
            final(self)@ == spec_mouse_move(old(self)@, square, now),
            redraw.before == spec_hovered(old(self)@),
            redraw.after == spec_hovered(final(self)@),
    {
        let before = self.queue_animation();
        match self.promoting {
            Some(p) => {
                if !same_square(p.hover, square) {
                    self.promoting = Some(
                        Promoting { orig: p.orig, dest: p.dest, hover: square, time: now },
                    );
                }
            },
            None => {},
        }
        let after = self.queue_animation();
        Redraw { before, after }
    }

    /// Follows the pointer to `square`.
    pub fn mouse_move(&mut self, square: Option<Square>) -> (redraw: Redraw)
        ensures
            exists|now: u64| final(self)@ == spec_mouse_move(old(self)@, square, now),
            redraw.before == spec_hovered(old(self)@),
            redraw.after == spec_hovered(final(self)@),
    {
        let now = clock::now();
        self.mouse_move_at(square, now)
    }

    /// What is to be painted over the board at `now`: nothing while the
    /// picker is closed, else the veil and the cells of the legal roles.
    pub fn draw_at(&self, legal: &LegalRoles, now: u64) -> (overlay: Option<Overlay>)
        ensures
            overlay is Some <==> self@ is Some,
            overlay matches Some(o) ==> o.veil == VEIL_ALPHA && o.cells@ == self@->0.spec_cells(
                *legal,
                now,
            ),
    {
        match self.promoting {
            Some(p) => Some(Overlay { veil: VEIL_ALPHA, cells: p.cells(legal, now) }),
            None => None,
        }
    }

    /// What is to be painted over the board now.
    pub fn draw(&self, legal: &LegalRoles) -> (overlay: Option<Overlay>)
        ensures
            overlay is Some <==> self@ is Some,
            overlay matches Some(o) ==> o.veil == VEIL_ALPHA && exists|now: u64|
                o.cells@ == self@->0.spec_cells(*legal, now),
    {
        let now = clock::now();
        self.draw_at(legal, now)
    }

    /// Takes a click on `square` at `now` and closes the picker.  The click
    /// chooses a role if it hits the cell of a legal role; otherwise it
    /// gives the promotion up.
    pub fn mouse_down_at(&mut self, legal: &LegalRoles, square: Option<Square>, now: u64) -> (outcome:
        MouseDown)
        ensures
            final(self)@ is None,
            outcome == spec_mouse_down(old(self)@, *legal, square, now),
    {
        let state = self.promoting;
        self.promoting = None;
        match state {
            None => MouseDown::Idle,
            Some(p) => {
                let cancel = MouseDown::Cancel(Reset { piece: p.orig, to: p.dest, time: now });
                match square {
                    None => cancel,
                    Some(sq) => {
                        if sq.file() == p.dest.file() {
                            match role_at_rank(p.orientation(), sq.rank()) {
                                Some(role) => {
                                    if legal.allows(role) {
                                        MouseDown::Move(
                                            UserMove { orig: p.orig, dest: p.dest, role },
                                        )
                                    } else {
                                        cancel
                                    }
                                },
                                None => cancel,
                            }
                        } else {
                            cancel
                        }
                    },
                }
            },
        }
    }

    /// Takes a click on `square` and closes the picker.
    pub fn mouse_down(&mut self, legal: &LegalRoles, square: Option<Square>) -> (outcome: MouseDown)
        ensures
            final(self)@ is None,
            exists|now: u64| outcome == spec_mouse_down(old(self)@, *legal, square, now),
    {
        let now = clock::now();
        self.mouse_down_at(legal, square, now)
    }
}

} // verus!
