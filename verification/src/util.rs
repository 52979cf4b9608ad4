//! Mapping between device pixels and board squares.
//!
//! The board is eight units wide and high, with the a-file at `x = 0` and the
//! eighth rank at `y = 0`.  It is laid into the middle of the widget, scaled so
//! that the smaller side of the widget spans the eight units, and turned by
//! half a turn when black sits at the bottom.  All coordinates are exact
//! fractions, so a pixel on a grid line belongs to the cell that starts there.

use vstd::prelude::*;
use crate::board::{Color, Square};

verus! {

/// A point of the plane with the coordinates `x / den` and `y / den`.
pub struct Point {
    pub x: int,
    pub y: int,
    pub den: int,
}

impl Point {
    /// The point `(x / den, y / den)`.
    pub open spec fn new(x: int, y: int, den: int) -> Point {
        Point { x, y, den }
    }

    /// Both points have a positive denominator and name the same place.
    pub open spec fn same_place(self, other: Point) -> bool {
        &&& self.den > 0
        &&& other.den > 0
        &&& self.x * other.den == other.x * self.den
        &&& self.y * other.den == other.y * self.den
    }

    /// Whole part of the first coordinate, rounded down.
    pub open spec fn floor_x(self) -> int {
        self.x / self.den
    }

    /// Whole part of the second coordinate, rounded down.
    pub open spec fn floor_y(self) -> int {
        self.y / self.den
    }
}

/// A place on the widget, in device pixels.
#[derive(Clone, Copy, Debug, PartialEq, Eq)]
pub struct Pixel {
    x: i64,
    y: i64,
    den: i64,
}

impl View for Pixel {
    type V = Point;

    closed spec fn view(&self) -> Point {
        Point { x: self.x as int, y: self.y as int, den: self.den as int }
    }
}

impl Pixel {
    /// The denominator of a pixel is positive.
    #[verifier::type_invariant]
    pub closed spec fn wf(self) -> bool {
        self.den > 0
    }

    /// The pixel `(x / den, y / den)`, `None` unless `den` is positive.
    pub fn new(x: i64, y: i64, den: i64) -> (pixel: Option<Pixel>)
        ensures
            pixel is Some <==> den > 0,
            pixel matches Some(p) ==> p.wf() && p@ == Point::new(x as int, y as int, den as int),
    {
        if den > 0 {
            Some(Pixel { x, y, den })
        } else {
            None
        }
    }

    /// Numerator of the horizontal coordinate.
    pub fn x(&self) -> (x: i64)
        ensures
            x == self@.x,
    {
        self.x
    }

    /// Numerator of the vertical coordinate.
    pub fn y(&self) -> (y: i64)
        ensures
            y == self@.y,
    {
        self.y
    }

    /// Denominator of both coordinates.
    pub fn den(&self) -> (den: i64)
        ensures
            den == self@.den,
            den > 0,
    {
        proof {
            use_type_invariant(self);
        }
        self.den
    }
}

/// A place on the board, in board units.
#[derive(Clone, Copy, Debug, PartialEq, Eq)]
pub struct BoardPos {
    x: i128,
    y: i128,
    den: i128,
}

impl View for BoardPos {
    type V = Point;

    closed spec fn view(&self) -> Point {
        Point { x: self.x as int, y: self.y as int, den: self.den as int }
    }
}

impl BoardPos {
    /// The denominator of a board position is positive.
    #[verifier::type_invariant]
    pub closed spec fn wf(self) -> bool {
        self.den > 0
    }

    /// The position `(x / den, y / den)`, `None` unless `den` is positive.
    pub fn new(x: i128, y: i128, den: i128) -> (pos: Option<BoardPos>)
        ensures
            pos is Some <==> den > 0,
            pos matches Some(p) ==> p.wf() && p@ == Point::new(x as int, y as int, den as int),
    {
        if den > 0 {
            Some(BoardPos { x, y, den })
        } else {
            None
        }
    }

    /// Numerator of the horizontal coordinate.
    pub fn x(&self) -> (x: i128)
        ensures
            x == self@.x,
    {
        self.x
    }

    /// Numerator of the vertical coordinate.
    pub fn y(&self) -> (y: i128)
        ensures
            y == self@.y,
    {
        self.y
    }

    /// Denominator of both coordinates.
    pub fn den(&self) -> (den: i128)
        ensures
            den == self@.den,
            den > 0,
    {
        proof {
            use_type_invariant(self);
        }
        self.den
    }
}

/// Side of the board in device pixels: the smaller side of the widget.
pub open spec fn board_size(width: int, height: int) -> int {
    if width <= height {
        width
    } else {
        height
    }
}

/// Cosine of the angle by which the board is turned: 1 with white at the
/// bottom, -1 with black at the bottom.
pub open spec fn turn(orientation: Color) -> int {
    orientation.spec_fold::<int>(1, -1)
}

/// An affine map from board units to device pixels.  The entries are
/// eighths: the board point `(x, y)` lies at the pixel
/// `((xx * x + xy * y + x0) / 8, (yx * x + yy * y + y0) / 8)`.
#[derive(Clone, Copy, Debug, PartialEq, Eq)]
pub struct Matrix {
    pub xx: i64,
    pub yx: i64,
    pub xy: i64,
    pub yy: i64,
    pub x0: i64,
    pub y0: i64,
}

/// Denominator of the entries of a `Matrix`.
pub const MATRIX_DEN: i64 = 8;

impl Matrix {
    /// Image of a board point.
    pub open spec fn spec_transform_point(self, pos: Point) -> Point {
        Point {
            x: self.xx * pos.x + self.xy * pos.y + self.x0 * pos.den,
            y: self.yx * pos.x + self.yy * pos.y + self.y0 * pos.den,
            den: MATRIX_DEN * pos.den,
        }
    }

    /// The map that lays the board into a widget: it moves the middle of the
    /// board, the point (4, 4), to the middle of the widget, scales eight
    /// board units to the smaller side of the widget, and turns the board by
    /// half a turn about its middle when black sits at the bottom.
    pub open spec fn lays_board(self, width: int, height: int, orientation: Color) -> bool {
        let scale = turn(orientation) * board_size(width, height);
        &&& self.xx == scale
        &&& self.yx == 0
        &&& self.xy == 0
        &&& self.yy == scale
        &&& self.x0 == 4 * width - 4 * scale
        &&& self.y0 == 4 * height - 4 * scale
    }
}

/// The map that lays the board into a widget takes the middle of the board
/// to the middle of the widget, and the corners of the board to the corners
/// of a square whose side is the smaller side of the widget; with black at
/// the bottom the two corners change places.
pub proof fn lemma_board_in_widget(matrix: Matrix, width: int, height: int, orientation: Color)
    requires
        matrix.lays_board(width, height, orientation),
    ensures
        matrix.spec_transform_point(Point::new(4, 4, 1)).same_place(Point::new(width, height, 2)),
        matrix.spec_transform_point(Point::new(0, 0, 1)).same_place(
            Point::new(
                width - turn(orientation) * board_size(width, height),
                height - turn(orientation) * board_size(width, height),
                2,
            ),
        ),
        matrix.spec_transform_point(Point::new(8, 8, 1)).same_place(
            Point::new(
                width + turn(orientation) * board_size(width, height),
                height + turn(orientation) * board_size(width, height),
                2,
            ),
        ),
{
    let scale = turn(orientation) * board_size(width, height);
    lemma_image(matrix, scale, Point::new(4, 4, 1));
    lemma_image(matrix, scale, Point::new(0, 0, 1));
    lemma_image(matrix, scale, Point::new(8, 8, 1));
    let middle = matrix.spec_transform_point(Point::new(4, 4, 1));
    assert(middle.x == scale * 4 + matrix.x0 * 1);
    assert(middle.y == scale * 4 + matrix.y0 * 1);
    assert(middle.x * 2 == width * 8);
    assert(middle.y * 2 == height * 8);
    let near = matrix.spec_transform_point(Point::new(0, 0, 1));
    assert(near.x == scale * 0 + matrix.x0 * 1);
    assert(near.y == scale * 0 + matrix.y0 * 1);
    assert(near.x * 2 == (width - scale) * 8);
    assert(near.y * 2 == (height - scale) * 8);
    let far = matrix.spec_transform_point(Point::new(8, 8, 1));
    assert(far.x == scale * 8 + matrix.x0 * 1);
    assert(far.y == scale * 8 + matrix.y0 * 1);
    assert(far.x * 2 == (width + scale) * 8);
    assert(far.y * 2 == (height + scale) * 8);
}

proof fn lemma_image(matrix: Matrix, scale: int, pos: Point)
    requires
        matrix.xx == scale,
        matrix.yy == scale,
        matrix.xy == 0,
        matrix.yx == 0,
    ensures
        matrix.spec_transform_point(pos).x == scale * pos.x + matrix.x0 * pos.den,
        matrix.spec_transform_point(pos).y == scale * pos.y + matrix.y0 * pos.den,
        matrix.spec_transform_point(pos).den == 8 * pos.den,
{
    assert(matrix.xy * pos.y == 0) by (nonlinear_arith)
        requires
            matrix.xy == 0,
    ;
    assert(matrix.yx * pos.x == 0) by (nonlinear_arith)
        requires
            matrix.yx == 0,
    ;
}

/// The map from board units to device pixels for a widget of the given size.
pub fn compute_matrix(width: i32, height: i32, orientation: Color) -> (matrix: Matrix)
    ensures
        matrix.lays_board(width as int, height as int, orientation),
{
    let size: i64 = if width <= height {
        width as i64
    } else {
        height as i64
    };
    let scale: i64 = match orientation {
        Color::White => size,
        Color::Black => -size,
    };
    Matrix {
        xx: scale,
        yx: 0,
        xy: 0,
        yy: scale,
        x0: 4 * (width as i64) - 4 * scale,
        y0: 4 * (height as i64) - 4 * scale,
    }
}

/// The board point that lies under a pixel: the point whose image under the
/// map of `compute_matrix` is the pixel.  A widget without a positive size
/// shows no board, and the pixel is handed back as it is.
pub open spec fn spec_invert_pos(width: int, height: int, orientation: Color, pixel: Point) -> Point {
    let size = board_size(width, height);
    if size <= 0 {
        pixel
    } else {
        let den = size * pixel.den;
        Point {
            x: 4 * den + turn(orientation) * (8 * pixel.x - 4 * (width * pixel.den)),
            y: 4 * den + turn(orientation) * (8 * pixel.y - 4 * (height * pixel.den)),
            den,
        }
    }
}

/// The square in which a board point lies, if it lies on the board.  Ranks
/// grow upwards while `y` grows downwards.
pub open spec fn spec_inverted_to_square(pos: Point) -> Option<Square> {
    Square::spec_from_coords(pos.floor_x(), 7 - pos.floor_y())
}

/// The square under a pixel, if the widget shows a board and the pixel lies
/// on it.
pub open spec fn spec_pos_to_square(
    width: int,
    height: int,
    orientation: Color,
    pixel: Point,
) -> Option<Square> {
    if board_size(width, height) <= 0 {
        None
    } else {
        spec_inverted_to_square(spec_invert_pos(width, height, orientation, pixel))
    }
}

proof fn lemma_product_bounds(a: int, b: int, bound_a: int, bound_b: int)
    requires
        -bound_a <= a <= bound_a,
        -bound_b <= b <= bound_b,
    ensures
        -(bound_a * bound_b) <= a * b <= bound_a * bound_b,
{
    assert(-(bound_a * bound_b) <= a * b <= bound_a * bound_b) by (nonlinear_arith)
        requires
            -bound_a <= a <= bound_a,
            -bound_b <= b <= bound_b,
    ;
}

proof fn lemma_negative_floor(n: int, d: int)
    requires
        n < 0,
        d > 0,
    ensures
        n / d < 0,
{
    assert(n / d < 0) by (nonlinear_arith)
        requires
            n < 0,
            d > 0,
    ;
}

/// The board point that lies under a pixel, as an exact fraction; the pixel
/// itself where the widget has no positive size.
pub fn invert_pos(width: i32, height: i32, orientation: Color, pixel: Pixel) -> (pos: BoardPos)
    ensures
        pos.wf(),
        pos@ == spec_invert_pos(width as int, height as int, orientation, pixel@),
{
    proof {
        use_type_invariant(&pixel);
    }
    let size: i128 = if width <= height {
        width as i128
    } else {
        height as i128
    };
    let px: i128 = pixel.x as i128;
    let py: i128 = pixel.y as i128;
    let pd: i128 = pixel.den as i128;
    if size <= 0 {
        return BoardPos { x: px, y: py, den: pd };
    }
    proof {
        lemma_product_bounds(size as int, pd as int, 0x8000_0000, 0x8000_0000_0000_0000);
        lemma_product_bounds(width as int, pd as int, 0x8000_0000, 0x8000_0000_0000_0000);
        lemma_product_bounds(height as int, pd as int, 0x8000_0000, 0x8000_0000_0000_0000);
        assert(size * pd > 0) by (nonlinear_arith)
            requires
                size > 0,
                pd > 0,
        ;
    }
    let den: i128 = size * pd;
    let dx: i128 = 8 * px - 4 * ((width as i128) * pd);
    let dy: i128 = 8 * py - 4 * ((height as i128) * pd);
    match orientation {
        Color::White => {
            assert(turn(orientation) * dx == dx && turn(orientation) * dy == dy);
            BoardPos { x: 4 * den + dx, y: 4 * den + dy, den }
        },
        Color::Black => {
            assert(turn(orientation) * dx == -dx && turn(orientation) * dy == -dy);
            BoardPos { x: 4 * den - dx, y: 4 * den - dy, den }
        },
    }
}

/// The square in which a board point lies, `None` when the point lies off
/// the board.
pub fn inverted_to_square(pos: BoardPos) -> (square: Option<Square>)
    ensures
        square == spec_inverted_to_square(pos@),
{
    proof {
        use_type_invariant(&pos);
    }
    let x: i128 = pos.x;
    let y: i128 = pos.y;
    let den: i128 = pos.den;
    if x < 0 || y < 0 {
        proof {
            if x < 0 {
                lemma_negative_floor(x as int, den as int);
            }
            if y < 0 {
                lemma_negative_floor(y as int, den as int);
            }
        }
        return None;
    }
    let file: i128 = x / den;
    let row: i128 = y / den;
    if file > 7 || row > 7 {
        None
    } else {
        Square::from_coords(file as i8, (7 - row) as i8)
    }
}

/// The square under a pixel of a widget of the given size, `None` when the
/// widget has no positive size or the pixel lies off the board.
pub fn pos_to_square(width: i32, height: i32, orientation: Color, pixel: Pixel) -> (square: Option<
    Square,
>)
    ensures
        square == spec_pos_to_square(width as int, height as int, orientation, pixel@),
{
    if width <= 0 || height <= 0 {
        None
    } else {
        inverted_to_square(invert_pos(width, height, orientation, pixel))
    }
}

/// Middle of a square, in board units.
pub open spec fn spec_square_to_pos(square: Square) -> Point {
    Point { x: 2 * square.spec_file() + 1, y: 2 * (7 - square.spec_rank()) + 1, den: 2 }
}

/// Middle of a square, in board units.
pub fn square_to_pos(square: Square) -> (pos: BoardPos)
    ensures
        pos.wf(),
        pos@ == spec_square_to_pos(square),
{
    let file: i128 = square.file() as i128;
    let rank: i128 = square.rank() as i128;
    BoardPos { x: 2 * file + 1, y: 2 * (7 - rank) + 1, den: 2 }
}

/// Middle of a square, in device pixels: the image of its middle in board
/// units under the map of `compute_matrix`.
pub open spec fn spec_square_to_pixel_center(
    width: int,
    height: int,
    orientation: Color,
    square: Square,
) -> Point {
    let scale = turn(orientation) * board_size(width, height);
    let pos = spec_square_to_pos(square);
    Point {
        x: scale * pos.x + (4 * width - 4 * scale) * 2,
        y: scale * pos.y + (4 * height - 4 * scale) * 2,
        den: 16,
    }
}

/// Middle of a square, in device pixels of a widget of the given size.
pub fn square_to_pixel_center(width: i32, height: i32, orientation: Color, square: Square) -> (pixel:
    Pixel)
    ensures
        pixel.wf(),
        pixel@ == spec_square_to_pixel_center(width as int, height as int, orientation, square),
{
    let matrix = compute_matrix(width, height, orientation);
    let x: i64 = 2 * (square.file() as i64) + 1;
    let y: i64 = 2 * (7 - square.rank() as i64) + 1;
    proof {
        lemma_product_bounds(matrix.xx as int, x as int, 0x8000_0000, 15);
        lemma_product_bounds(matrix.yy as int, y as int, 0x8000_0000, 15);
    }
    Pixel { x: matrix.xx * x + matrix.x0 * 2, y: matrix.yy * y + matrix.y0 * 2, den: 16 }
}

/// The middle of a square in device pixels is the image of its middle in
/// board units under the map that lays the board into the widget.
pub proof fn lemma_center_is_image(
    matrix: Matrix,
    width: int,
    height: int,
    orientation: Color,
    square: Square,
)
    requires
        matrix.lays_board(width, height, orientation),
    ensures
        spec_square_to_pixel_center(width, height, orientation, square)
            == matrix.spec_transform_point(spec_square_to_pos(square)),
{
    let pos = spec_square_to_pos(square);
    assert(matrix.xy * pos.y == 0);
    assert(matrix.yx * pos.x == 0);
}

/// `spec_invert_pos` undoes the map that lays the board into the widget:
/// the image of the board point under a pixel is that pixel.
pub proof fn lemma_invert_pos_is_inverse(
    matrix: Matrix,
    width: int,
    height: int,
    orientation: Color,
    pixel: Point,
)
    requires
        matrix.lays_board(width, height, orientation),
        board_size(width, height) > 0,
        pixel.den > 0,
    ensures
        matrix.spec_transform_point(spec_invert_pos(width, height, orientation, pixel)).same_place(
            pixel,
        ),
{
    let size = board_size(width, height);
    let t = turn(orientation);
    let pos = spec_invert_pos(width, height, orientation, pixel);
    let image = matrix.spec_transform_point(pos);
    assert(pos.den > 0) by (nonlinear_arith)
        requires
            pos.den == size * pixel.den,
            size > 0,
            pixel.den > 0,
    ;
    assert(matrix.xy * pos.y == 0);
    assert(matrix.yx * pos.x == 0);
    assert(image.x == 8 * size * pixel.x) by (nonlinear_arith)
        requires
            t == 1 || t == -1,
            image.x == (t * size) * pos.x + (4 * width - 4 * (t * size)) * pos.den,
            pos.x == 4 * (size * pixel.den) + t * (8 * pixel.x - 4 * (width * pixel.den)),
            pos.den == size * pixel.den,
    ;
    assert(image.y == 8 * size * pixel.y) by (nonlinear_arith)
        requires
            t == 1 || t == -1,
            image.y == (t * size) * pos.y + (4 * height - 4 * (t * size)) * pos.den,
            pos.y == 4 * (size * pixel.den) + t * (8 * pixel.y - 4 * (height * pixel.den)),
            pos.den == size * pixel.den,
    ;
    assert(image.x * pixel.den == pixel.x * image.den) by (nonlinear_arith)
        requires
            image.x == 8 * size * pixel.x,
            image.den == 8 * (size * pixel.den),
    ;
    assert(image.y * pixel.den == pixel.y * image.den) by (nonlinear_arith)
        requires
            image.y == 8 * size * pixel.y,
            image.den == 8 * (size * pixel.den),
    ;
}

/// `spec_invert_pos` gives the only board point that lies under a pixel:
/// every board point whose image is the pixel names the same place.
pub proof fn lemma_invert_pos_is_unique(
    matrix: Matrix,
    width: int,
    height: int,
    orientation: Color,
    pixel: Point,
    pos: Point,
)
    requires
        matrix.lays_board(width, height, orientation),
        board_size(width, height) > 0,
        pixel.den > 0,
        pos.den > 0,
        matrix.spec_transform_point(pos).same_place(pixel),
    ensures
        pos.same_place(spec_invert_pos(width, height, orientation, pixel)),
{
    let size = board_size(width, height);
    let t = turn(orientation);
    let found = spec_invert_pos(width, height, orientation, pixel);
    let image = matrix.spec_transform_point(pos);
    assert(found.den > 0) by (nonlinear_arith)
        requires
            found.den == size * pixel.den,
            size > 0,
            pixel.den > 0,
    ;
    assert(matrix.xy * pos.y == 0);
    assert(matrix.yx * pos.x == 0);
    lemma_axis_is_unique(t, size, width, pos.x, pos.den, pixel.x, pixel.den);
    lemma_axis_is_unique(t, size, height, pos.y, pos.den, pixel.y, pixel.den);
}

proof fn lemma_axis_is_unique(t: int, size: int, extent: int, a: int, d: int, n: int, q: int)
    requires
        t == 1 || t == -1,
        ((t * size) * a + (4 * extent - 4 * (t * size)) * d) * q == n * (8 * d),
    ensures
        a * (size * q) == (4 * (size * q) + t * (8 * n - 4 * (extent * q))) * d,
{
    let saq = size * a * q;
    let sdq = size * d * q;
    let edq = extent * d * q;
    let nd = n * d;
    assert(n * (8 * d) == 8 * nd) by (nonlinear_arith)
        requires
            nd == n * d,
    ;
    assert(a * (size * q) == saq) by (nonlinear_arith)
        requires
            saq == size * a * q,
    ;
    if t == 1 {
        assert((t * size) * a == size * a && t * size == size);
        assert((size * a + (4 * extent - 4 * size) * d) * q == saq + 4 * edq - 4 * sdq)
            by (nonlinear_arith)
            requires
                saq == size * a * q,
                sdq == size * d * q,
                edq == extent * d * q,
        ;
        assert((4 * (size * q) + (8 * n - 4 * (extent * q))) * d == 4 * sdq + 8 * nd - 4 * edq)
            by (nonlinear_arith)
            requires
                nd == n * d,
                sdq == size * d * q,
                edq == extent * d * q,
        ;
        assert(t * (8 * n - 4 * (extent * q)) == 8 * n - 4 * (extent * q));
    } else {
        assert(t * size == -size) by (nonlinear_arith)
            requires
                t == -1,
        ;
        assert((t * size) * a == -(size * a)) by (nonlinear_arith)
            requires
                t * size == -size,
        ;
        assert((-(size * a) + (4 * extent + 4 * size) * d) * q == -saq + 4 * edq + 4 * sdq)
            by (nonlinear_arith)
            requires
                saq == size * a * q,
                sdq == size * d * q,
                edq == extent * d * q,
        ;
        assert((4 * (size * q) - (8 * n - 4 * (extent * q))) * d == 4 * sdq - 8 * nd + 4 * edq)
            by (nonlinear_arith)
            requires
                nd == n * d,
                sdq == size * d * q,
                edq == extent * d * q,
        ;
        assert(t * (8 * n - 4 * (extent * q)) == -(8 * n - 4 * (extent * q))) by (nonlinear_arith)
            requires
                t == -1,
        ;
    }
}

proof fn lemma_floor_between(n: int, d: int, q: int)
    requires
        d > 0,
        q * d <= n < (q + 1) * d,
    ensures
        n / d == q,
{
    assert((q + 1) * d == q * d + d) by (nonlinear_arith);
    vstd::arithmetic::div_mod::lemma_fundamental_div_mod_converse(n, d, q, n - q * d);
}

/// The pixel in the middle of a square lies in that square, whatever the
/// size of the board and whichever side sits at the bottom.
pub proof fn lemma_center_round_trip(width: int, height: int, orientation: Color, square: Square)
    requires
        square.wf(),
        board_size(width, height) > 0,
    ensures
        spec_pos_to_square(
            width,
            height,
            orientation,
            spec_square_to_pixel_center(width, height, orientation, square),
        ) == Some(square),
{
    let size = board_size(width, height);
    let t = turn(orientation);
    let file = square.spec_file();
    let rank = square.spec_rank();
    square.lemma_coords();
    let center = spec_square_to_pixel_center(width, height, orientation, square);
    let pos = spec_invert_pos(width, height, orientation, center);
    assert(pos.den == 16 * size);
    assert(pos.x == 8 * size * (2 * file + 1)) by (nonlinear_arith)
        requires
            t == 1 || t == -1,
            pos.x == 4 * (size * 16) + t * (8 * center.x - 4 * (width * 16)),
            center.x == (t * size) * (2 * file + 1) + (4 * width - 4 * (t * size)) * 2,
    ;
    assert(pos.y == 8 * size * (2 * (7 - rank) + 1)) by (nonlinear_arith)
        requires
            t == 1 || t == -1,
            pos.y == 4 * (size * 16) + t * (8 * center.y - 4 * (height * 16)),
            center.y == (t * size) * (2 * (7 - rank) + 1) + (4 * height - 4 * (t * size)) * 2,
    ;
    assert(file * (16 * size) <= pos.x < (file + 1) * (16 * size)) by (nonlinear_arith)
        requires
            pos.x == 8 * size * (2 * file + 1),
            size > 0,
    ;
    assert((7 - rank) * (16 * size) <= pos.y < (7 - rank + 1) * (16 * size)) by (nonlinear_arith)
        requires
            pos.y == 8 * size * (2 * (7 - rank) + 1),
            size > 0,
    ;
    lemma_floor_between(pos.x, pos.den, file);
    lemma_floor_between(pos.y, pos.den, 7 - rank);
}

/// A pixel lies on a square exactly if the board point under it has both
/// coordinates from 0 up to, but not including, 8; every other pixel, and
/// every pixel of a widget without a positive size, lies on none.
pub proof fn lemma_square_iff_on_board(width: int, height: int, orientation: Color, pixel: Point)
    requires
        pixel.den > 0,
    ensures
        spec_pos_to_square(width, height, orientation, pixel) is Some <==> {
            let pos = spec_invert_pos(width, height, orientation, pixel);
            &&& board_size(width, height) > 0
            &&& 0 <= pos.x < 8 * pos.den
            &&& 0 <= pos.y < 8 * pos.den
        },
{
    let size = board_size(width, height);
    let pos = spec_invert_pos(width, height, orientation, pixel);
    if size > 0 {
        assert(pos.den > 0) by (nonlinear_arith)
            requires
                pos.den == size * pixel.den,
                size > 0,
                pixel.den > 0,
        ;
        lemma_floor_in_range(pos.x, pos.den);
        lemma_floor_in_range(pos.y, pos.den);
    }
}

proof fn lemma_floor_in_range(n: int, d: int)
    requires
        d > 0,
    ensures
        0 <= n / d <= 7 <==> 0 <= n < 8 * d,
{
    vstd::arithmetic::div_mod::lemma_fundamental_div_mod(n, d);
    vstd::arithmetic::div_mod::lemma_mod_bound(n, d);
    let q = n / d;
    assert(q >= 8 ==> d * q >= 8 * d) by (nonlinear_arith)
        requires
            d > 0,
    ;
    assert(q <= 7 ==> d * q <= 7 * d) by (nonlinear_arith)
        requires
            d > 0,
    ;
    assert(q <= -1 ==> d * q <= -d) by (nonlinear_arith)
        requires
            d > 0,
    ;
    assert(q >= 0 ==> d * q >= 0) by (nonlinear_arith)
        requires
            d > 0,
    ;
}

/// Length of an eased transition, in milliseconds.
pub const EASE_MILLIS: i64 = 1000;

/// How far an eased transition has come after some milliseconds, in
/// billionths: a cubic curve that starts fast, slows down, and is complete
/// after `EASE_MILLIS`.
pub open spec fn spec_ease_progress(elapsed_ms: int) -> int {
    if elapsed_ms <= 0 {
        0
    } else if elapsed_ms >= EASE_MILLIS {
        1_000_000_000
    } else {
        let rest = EASE_MILLIS - elapsed_ms;
        1_000_000_000 - rest * rest * rest
    }
}

/// The value between `start` and `end` that an eased transition has reached
/// after some milliseconds.  The distance covered is rounded down.
pub open spec fn spec_ease(start: int, end: int, elapsed_ms: int) -> int {
    let progress = spec_ease_progress(elapsed_ms);
    if start <= end {
        start + ((end - start) * progress) / 1_000_000_000
    } else {
        start - ((start - end) * progress) / 1_000_000_000
    }
}

/// An eased transition has covered nothing before it starts, everything
/// after `EASE_MILLIS`, and never loses ground.
pub proof fn lemma_ease_progress(earlier_ms: int, later_ms: int)
    requires
        earlier_ms <= later_ms,
    ensures
        0 <= spec_ease_progress(earlier_ms) <= spec_ease_progress(later_ms) <= 1_000_000_000,
        earlier_ms <= 0 ==> spec_ease_progress(earlier_ms) == 0,
        later_ms >= EASE_MILLIS ==> spec_ease_progress(later_ms) == 1_000_000_000,
{
    lemma_cube_bounds(1000 - earlier_ms);
    lemma_cube_bounds(1000 - later_ms);
    if 0 < earlier_ms && later_ms < 1000 {
        let a = 1000 - later_ms;
        let b = 1000 - earlier_ms;
        assert(a * a * a <= b * b * b) by (nonlinear_arith)
            requires
                0 <= a <= b,
        ;
    }
}

proof fn lemma_cube_bounds(rest: int)
    ensures
        0 <= rest <= 1000 ==> 0 <= rest * rest * rest <= 1_000_000_000,
{
    if 0 <= rest <= 1000 {
        assert(0 <= rest * rest <= 1_000_000) by (nonlinear_arith)
            requires
                0 <= rest <= 1000,
        ;
        assert(0 <= rest * rest * rest <= 1_000_000_000) by (nonlinear_arith)
            requires
                0 <= rest <= 1000,
                0 <= rest * rest <= 1_000_000,
        ;
    }
}

proof fn lemma_covered(span: int, progress: int)
    requires
        0 <= span,
        0 <= progress <= 1_000_000_000,
    ensures
        0 <= (span * progress) / 1_000_000_000 <= span,
        progress == 0 ==> (span * progress) / 1_000_000_000 == 0,
        progress == 1_000_000_000 ==> (span * progress) / 1_000_000_000 == span,
        0 <= span * progress <= span * 1_000_000_000,
{
    assert(0 <= span * progress <= span * 1_000_000_000) by (nonlinear_arith)
        requires
            0 <= span,
            0 <= progress <= 1_000_000_000,
    ;
    vstd::arithmetic::div_mod::lemma_div_is_ordered(0, span * progress, 1_000_000_000);
    vstd::arithmetic::div_mod::lemma_div_is_ordered(
        span * progress,
        span * 1_000_000_000,
        1_000_000_000,
    );
    vstd::arithmetic::div_mod::lemma_div_by_multiple(span, 1_000_000_000);
    if progress == 0 {
        assert(span * progress == 0);
    }
}

/// An eased value starts at `start`, ends at `end`, and stays between them.
pub proof fn lemma_ease_range(start: int, end: int, elapsed_ms: int)
    ensures
        start <= end ==> start <= spec_ease(start, end, elapsed_ms) <= end,
        end <= start ==> end <= spec_ease(start, end, elapsed_ms) <= start,
        elapsed_ms <= 0 ==> spec_ease(start, end, elapsed_ms) == start,
        elapsed_ms >= EASE_MILLIS ==> spec_ease(start, end, elapsed_ms) == end,
{
    lemma_ease_progress(elapsed_ms, elapsed_ms);
    let progress = spec_ease_progress(elapsed_ms);
    if start <= end {
        lemma_covered(end - start, progress);
    } else {
        lemma_covered(start - end, progress);
    }
}

/// An eased value never moves back towards `start` as time goes on.
pub proof fn lemma_ease_monotonic(start: int, end: int, earlier_ms: int, later_ms: int)
    requires
        earlier_ms <= later_ms,
    ensures
        start <= end ==> spec_ease(start, end, earlier_ms) <= spec_ease(start, end, later_ms),
        end <= start ==> spec_ease(start, end, later_ms) <= spec_ease(start, end, earlier_ms),
{
    lemma_ease_progress(earlier_ms, later_ms);
    let p = spec_ease_progress(earlier_ms);
    let q = spec_ease_progress(later_ms);
    let span = if start <= end {
        end - start
    } else {
        start - end
    };
    assert(span * p <= span * q) by (nonlinear_arith)
        requires
            0 <= span,
            p <= q,
    ;
    vstd::arithmetic::div_mod::lemma_div_is_ordered(span * p, span * q, 1_000_000_000);
    lemma_covered(span, p);
    lemma_covered(span, q);
}

/// The value between `start` and `end` that an eased transition has reached
/// after `elapsed_ms` milliseconds.
pub fn ease(start: i32, end: i32, elapsed_ms: i64) -> (value: i32)
    ensures
        value == spec_ease(start as int, end as int, elapsed_ms as int),
{
    let progress: u64 = if elapsed_ms <= 0 {
        0
    } else if elapsed_ms >= EASE_MILLIS {
        1_000_000_000
    } else {
        let rest: u64 = (EASE_MILLIS - elapsed_ms) as u64;
        proof {
            lemma_cube_bounds(rest as int);
            assert(0 <= rest * rest <= 1_000_000) by (nonlinear_arith)
                requires
                    0 <= rest <= 1000,
            ;
        }
        1_000_000_000 - rest * rest * rest
    };
    proof {
        lemma_ease_progress(elapsed_ms as int, elapsed_ms as int);
    }
    if start <= end {
        let span: u64 = (end as i64 - start as i64) as u64;
        proof {
            lemma_covered(span as int, progress as int);
        }
        let covered: u64 = span * progress / 1_000_000_000;
        (start as i64 + covered as i64) as i32
    } else {
        let span: u64 = (start as i64 - end as i64) as u64;
        proof {
            lemma_covered(span as int, progress as int);
        }
        let covered: u64 = span * progress / 1_000_000_000;
        (start as i64 - covered as i64) as i32
    }
}

/// Whether `root` is the square root of `n`, rounded down.
pub open spec fn is_floor_sqrt(root: int, n: int) -> bool {
    0 <= root && root * root <= n < (root + 1) * (root + 1)
}

/// A number has at most one square root rounded down.
pub proof fn lemma_floor_sqrt_is_unique(first: int, second: int, n: int)
    requires
        is_floor_sqrt(first, n),
        is_floor_sqrt(second, n),
    ensures
        first == second,
{
    if first < second {
        assert((first + 1) * (first + 1) <= second * second) by (nonlinear_arith)
            requires
                0 <= first,
                first + 1 <= second,
        ;
    }
    if second < first {
        assert((second + 1) * (second + 1) <= first * first) by (nonlinear_arith)
            requires
                0 <= second,
                second + 1 <= first,
        ;
    }
}

/// The square root of `n`, rounded down.
pub fn floor_sqrt(n: u64) -> (root: u64)
    ensures
        is_floor_sqrt(root as int, n as int),
        root <= 0xffff_ffff,
{
    let mut low: u64 = 0;
    let mut high: u64 = 0x1_0000_0000;
    while high - low > 1
        invariant
            low < high <= 0x1_0000_0000,
            low * low <= n < high * high,
        decreases high - low,
    {
        let middle: u64 = low + (high - low) / 2;
        assert(middle * middle <= 0xffff_ffff * 0xffff_ffff) by (nonlinear_arith)
            requires
                0 <= middle <= 0xffff_ffff,
        ;
        if middle * middle <= n {
            low = middle;
        } else {
            high = middle;
        }
    }
    low
}

} // verus!
