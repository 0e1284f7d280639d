//! How a requested offset becomes a sampling geometry.
//!
//! The requested displacement between the two viewpoints is split evenly:
//! each offset is halved, rounding toward zero, before anything else is done
//! with it. The signs of the halves choose one of four directions, and their
//! magnitudes say how much of the input is cropped away.

use vstd::prelude::*;

verus! {

/// The corner of the input toward which the cropped output is anchored.
#[derive(Clone, Copy, Debug, PartialEq, Eq, Structural)]
pub enum Direction {
    BottomRight,
    TopRight,
    BottomLeft,
    TopLeft,
}

/// Half of a requested offset, rounded toward zero.
pub open spec fn spec_half(offset: int) -> int {
    if offset >= 0 {
        offset / 2
    } else {
        -((-offset) / 2)
    }
}

/// The absolute value of an integer.
pub open spec fn spec_magnitude(x: int) -> nat {
    if x >= 0 {
        x as nat
    } else {
        (-x) as nat
    }
}

/// The direction that a pair of halved offsets stands for. Zero counts as
/// positive on either axis.
pub open spec fn spec_classify(half_x: int, half_y: int) -> Direction {
    if half_x >= 0 {
        if half_y >= 0 {
            Direction::BottomRight
        } else {
            Direction::TopRight
        }
    } else {
        if half_y >= 0 {
            Direction::BottomLeft
        } else {
            Direction::TopLeft
        }
    }
}

/// The mathematical model of a sampling geometry: the size of the input in
/// pixels and the two halved offsets.
pub struct Shift {
    pub in_x: nat,
    pub in_y: nat,
    pub half_x: int,
    pub half_y: int,
}

impl Shift {
    /// The geometry for an input of `in_x` by `in_y` pixels and the
    /// requested offsets.
    pub open spec fn of(in_x: nat, in_y: nat, offset_x: int, offset_y: int) -> Shift {
        Shift { in_x, in_y, half_x: spec_half(offset_x), half_y: spec_half(offset_y) }
    }

    /// The number of pixel columns that are cropped away.
    pub open spec fn reach_x(self) -> nat {
        spec_magnitude(self.half_x)
    }

    /// The number of pixel rows that are cropped away.
    pub open spec fn reach_y(self) -> nat {
        spec_magnitude(self.half_y)
    }

    /// Whether the crop leaves at least one pixel in each dimension.
    pub open spec fn valid(self) -> bool {
        self.reach_x() < self.in_x && self.reach_y() < self.in_y
    }

    /// The width of the output in pixels.
    pub open spec fn out_x(self) -> int {
        self.in_x - self.reach_x()
    }

    /// The height of the output in pixels.
    pub open spec fn out_y(self) -> int {
        self.in_y - self.reach_y()
    }

    /// The number of bytes of the input.
    pub open spec fn in_len(self) -> nat {
        3 * self.in_x * self.in_y
    }

    /// The number of bytes of the output.
    pub open spec fn out_len(self) -> int {
        3 * self.out_x() * self.out_y()
    }

    /// The corner toward which the output is anchored.
    pub open spec fn direction(self) -> Direction {
        spec_classify(self.half_x, self.half_y)
    }

    /// The output row in which byte `i` of the output lies.
    pub open spec fn row(self, i: int) -> int {
        i / (3 * self.out_x())
    }

    /// The vertical part of a shift, in pixels of the flat input.
    pub open spec fn row_term(self) -> nat {
        self.reach_y() * self.in_x
    }

    /// The horizontal part of a shift, in pixels of the flat input: the
    /// horizontal reach times a row number. It grows by one reach with every
    /// row, since an input row is that much longer than an output row.
    ///
    /// The row number is a whole number, the quotient of [`Shift::row`]. The
    /// reach is multiplied by the row after that division, never by the
    /// byte index before it: `reach * i / (3 * out_x)`, taken from left to
    /// right, would round differently.
    pub open spec fn column_term(self, row: int) -> int {
        self.reach_x() * row
    }

    /// The place in the input of the sample that is weighed by the left
    /// colour, for byte `i` of the output.
    pub open spec fn left_address(self, i: int) -> int {
        let row = self.row(i);
        match self.direction() {
            Direction::BottomRight => i + 3 * (self.row_term() + self.column_term(row + 1)),
            Direction::TopRight => i + 3 * self.column_term(row + 1),
            Direction::BottomLeft => i + 3 * (self.row_term() + self.column_term(row)),
            Direction::TopLeft => i + 3 * self.column_term(row),
        }
    }

    /// The place in the input of the sample that is weighed by the right
    /// colour, for byte `i` of the output.
    pub open spec fn right_address(self, i: int) -> int {
        let row = self.row(i);
        match self.direction() {
            Direction::BottomRight => i + 3 * self.column_term(row),
            Direction::TopRight => i + 3 * (self.row_term() + self.column_term(row)),
            Direction::BottomLeft => i + 3 * self.column_term(row + 1),
            Direction::TopLeft => i + 3 * (self.row_term() + self.column_term(row + 1)),
        }
    }

    /// By how many pixel columns the left sample lies to the right of the
    /// output pixel's own column.
    pub open spec fn left_across(self) -> int {
        if self.half_x >= 0 {
            self.half_x
        } else {
            0
        }
    }

    /// By how many pixel rows the left sample lies below the output pixel's
    /// own row.
    pub open spec fn left_down(self) -> int {
        if self.half_y >= 0 {
            self.half_y
        } else {
            0
        }
    }

    /// By how many pixel columns the right sample lies to the right of the
    /// output pixel's own column.
    pub open spec fn right_across(self) -> int {
        if self.half_x >= 0 {
            0
        } else {
            -self.half_x
        }
    }

    /// By how many pixel rows the right sample lies below the output pixel's
    /// own row.
    pub open spec fn right_down(self) -> int {
        if self.half_y >= 0 {
            0
        } else {
            -self.half_y
        }
    }

    /// The place in the input of the byte that lies `down` rows below and
    /// `across` pixels to the right of byte `i` of the output, both images
    /// laid with their top left corners together.
    pub open spec fn translated(self, i: int, across: int, down: int) -> int {
        3 * self.in_x * (self.row(i) + down) + i % (3 * self.out_x()) + 3 * across
    }
}

/// Half of a requested offset, rounded toward zero.
pub fn half(offset: isize) -> (h: isize)
    ensures
        h == spec_half(offset as int),
{
    offset / 2
}

/// The absolute value of an integer.
pub fn magnitude(x: isize) -> (m: usize)
    ensures
        m == spec_magnitude(x as int),
{
    if x >= 0 {
        x as usize
    } else {
        (-(x + 1)) as usize + 1
    }
}

/// The direction that a pair of halved offsets stands for.
pub fn classify(half_x: isize, half_y: isize) -> (d: Direction)
    ensures
        d == spec_classify(half_x as int, half_y as int),
{
    if half_x >= 0 {
        if half_y >= 0 {
            Direction::BottomRight
        } else {
            Direction::TopRight
        }
    } else {
        if half_y >= 0 {
            Direction::BottomLeft
        } else {
            Direction::TopLeft
        }
    }
}

/// The crop that an offset asks for leaves nothing of the input: the halved
/// offset reaches as far as the input is wide, or as far as it is high.
#[derive(Clone, Copy, Debug, PartialEq, Eq, Structural)]
pub struct GeometryError {
    /// The width of the input in pixels.
    pub width: usize,
    /// The height of the input in pixels.
    pub height: usize,
    /// The halved horizontal offset.
    pub half_x: isize,
    /// The halved vertical offset.
    pub half_y: isize,
}

/// A sampling geometry that leaves at least one pixel of output.
#[derive(Clone, Copy, Debug)]
pub struct ShiftGeometry {
    in_x: usize,
    in_y: usize,
    half_x: isize,
    half_y: isize,
    reach_x: usize,
    reach_y: usize,
    direction: Direction,
}

impl View for ShiftGeometry {
    type V = Shift;

    closed spec fn view(&self) -> Shift {
        Shift {
            in_x: self.in_x as nat,
            in_y: self.in_y as nat,
            half_x: self.half_x as int,
            half_y: self.half_y as int,
        }
    }
}

impl ShiftGeometry {
    /// The crop leaves something, and the stored magnitudes and direction
    /// are those of the stored halves.
    #[verifier::type_invariant]
    pub closed spec fn inv(&self) -> bool {
        &&& self@.valid()
        &&& self.reach_x == self@.reach_x()
        &&& self.reach_y == self@.reach_y()
        &&& self.direction == self@.direction()
    }

    /// Derives the geometry for an input of `in_x` by `in_y` pixels from
    /// the requested offsets, or refuses them where the halved offset
    /// reaches as far as the input does in either dimension.
    pub fn resolve(in_x: usize, in_y: usize, offset_x: isize, offset_y: isize) -> (r: Result<
        ShiftGeometry,
        GeometryError,
    >)
        ensures
            match r {
                Ok(g) => {
                    &&& g@ == Shift::of(in_x as nat, in_y as nat, offset_x as int, offset_y as int)
                    &&& g@.valid()
                    &&& g@.out_x() == in_x - spec_magnitude(spec_half(offset_x as int))
                    &&& g@.out_y() == in_y - spec_magnitude(spec_half(offset_y as int))
                },
                Err(e) => {
                    &&& !Shift::of(
                        in_x as nat,
                        in_y as nat,
                        offset_x as int,
                        offset_y as int,
                    ).valid()
                    &&& e.width == in_x
                    &&& e.height == in_y
                    &&& e.half_x == spec_half(offset_x as int)
                    &&& e.half_y == spec_half(offset_y as int)
                },
            },
    {
        let half_x = half(offset_x);
        let half_y = half(offset_y);
        let reach_x = magnitude(half_x);
        let reach_y = magnitude(half_y);
        if reach_x >= in_x || reach_y >= in_y {
            return Err(GeometryError { width: in_x, height: in_y, half_x, half_y });
        }
        Ok(
            ShiftGeometry {
                in_x,
                in_y,
                half_x,
                half_y,
                reach_x,
                reach_y,
                direction: classify(half_x, half_y),
            },
        )
    }

    /// The width of the input in pixels.
    pub fn in_width(&self) -> (w: usize)
        ensures
            w == self@.in_x,
    {
        self.in_x
    }

    /// The height of the input in pixels.
    pub fn in_height(&self) -> (h: usize)
        ensures
            h == self@.in_y,
    {
        self.in_y
    }

    /// The width of the output in pixels.
    pub fn out_width(&self) -> (w: usize)
        ensures
            w == self@.out_x(),
            w > 0,
    {
        proof {
            use_type_invariant(self);
        }
        self.in_x - self.reach_x
    }

    /// The height of the output in pixels.
    pub fn out_height(&self) -> (h: usize)
        ensures
            h == self@.out_y(),
            h > 0,
    {
        proof {
            use_type_invariant(self);
        }
        self.in_y - self.reach_y
    }

    /// The halved horizontal offset.
    pub fn half_x(&self) -> (h: isize)
        ensures
            h == self@.half_x,
    {
        self.half_x
    }

    /// The halved vertical offset.
    pub fn half_y(&self) -> (h: isize)
        ensures
            h == self@.half_y,
    {
        self.half_y
    }

    /// The number of pixel columns that are cropped away.
    pub fn reach_x(&self) -> (r: usize)
        ensures
            r == self@.reach_x(),
            r < self@.in_x,
    {
        proof {
            use_type_invariant(self);
        }
        self.reach_x
    }

    /// The number of pixel rows that are cropped away.
    pub fn reach_y(&self) -> (r: usize)
        ensures
            r == self@.reach_y(),
            r < self@.in_y,
    {
        proof {
            use_type_invariant(self);
        }
        self.reach_y
    }

    /// The corner toward which the output is anchored.
    pub fn direction(&self) -> (d: Direction)
        ensures
            d == self@.direction(),
    {
        proof {
            use_type_invariant(self);
        }
        self.direction
    }
}

/// The direction depends on nothing but the signs of the two halved
/// offsets, and two zeros give the bottom right.
pub proof fn lemma_direction_by_signs(half_x: int, half_y: int, other_x: int, other_y: int)
    requires
        half_x >= 0 <==> other_x >= 0,
        half_y >= 0 <==> other_y >= 0,
    ensures
        spec_classify(half_x, half_y) == spec_classify(other_x, other_y),
        spec_classify(0, 0) == Direction::BottomRight,
{
}

/// Where byte `i` of a row-major image of `3 * out_x` bytes per row goes
/// when every row grows by `3 * reach` bytes.
proof fn lemma_widen_rows(out_x: int, out_y: int, reach: int, i: int)
    requires
        out_x > 0,
        reach >= 0,
        0 <= i < 3 * out_x * out_y,
    ensures
        0 <= i / (3 * out_x) < out_y,
        0 <= i % (3 * out_x) < 3 * out_x,
        i + 3 * (reach * (i / (3 * out_x))) == 3 * (out_x + reach) * (i / (3 * out_x)) + i % (3
            * out_x),
        (i % (3 * out_x)) % 3 == i % 3,
{
    let width = 3 * out_x;
    let row = i / width;
    let rest = i % width;
    vstd::arithmetic::div_mod::lemma_fundamental_div_mod(i, width);
    vstd::arithmetic::div_mod::lemma_mod_bound(i, width);
    assert(width * out_y == 3 * out_x * out_y) by (nonlinear_arith)
        requires
            width == 3 * out_x,
    ;
    assert(0 <= row < out_y) by (nonlinear_arith)
        requires
            width > 0,
            i == width * row + rest,
            0 <= rest < width,
            0 <= i < width * out_y,
    ;
    assert(3 * (reach * row) + width * row == 3 * (out_x + reach) * row) by (nonlinear_arith)
        requires
            width == 3 * out_x,
    ;
    assert(rest % 3 == i % 3) by {
        assert(width * row == 3 * (out_x * row)) by (nonlinear_arith)
            requires
                width == 3 * out_x,
        ;
        vstd::arithmetic::div_mod::lemma_mod_multiples_vanish(out_x * row, rest, 3);
    }
}

/// Each sample lies in the input, at the place of the output byte moved by
/// the sample's own shift: the left sample by the positive parts of the
/// halved offsets, the right sample by the negative parts. A sample keeps
/// the colour channel of the output byte.
pub proof fn lemma_sample_addresses(shift: Shift, i: int)
    requires
        shift.valid(),
        0 <= i < shift.out_len(),
    ensures
        0 <= shift.row(i) < shift.out_y(),
        shift.left_address(i) == shift.translated(i, shift.left_across(), shift.left_down()),
        shift.right_address(i) == shift.translated(i, shift.right_across(), shift.right_down()),
        0 <= shift.left_address(i) < shift.in_len(),
        0 <= shift.right_address(i) < shift.in_len(),
        shift.left_address(i) % 3 == i % 3,
        shift.right_address(i) % 3 == i % 3,
{
    let row = shift.row(i);
    let rest = i % (3 * shift.out_x());
    lemma_widen_rows(shift.out_x(), shift.out_y(), shift.reach_x() as int, i);
    assert(shift.column_term(row + 1) == shift.column_term(row) + shift.reach_x())
        by (nonlinear_arith)
        requires
            shift.column_term(row + 1) == shift.reach_x() * (row + 1),
            shift.column_term(row) == shift.reach_x() * row,
    ;
    lemma_translated_in_bounds(shift, i, shift.left_across(), shift.left_down());
    lemma_translated_in_bounds(shift, i, shift.right_across(), shift.right_down());
    assert(3 * shift.in_x * (row + shift.reach_y()) == 3 * shift.in_x * row + 3
        * shift.row_term()) by (nonlinear_arith)
        requires
            shift.row_term() == shift.reach_y() * shift.in_x,
    ;
    assert(3 * shift.in_x * (row + 0) == 3 * shift.in_x * row);
}

/// A byte of the output, moved by no more than the reach in either
/// dimension, lies in the input and keeps its colour channel.
proof fn lemma_translated_in_bounds(shift: Shift, i: int, across: int, down: int)
    requires
        shift.valid(),
        0 <= i < shift.out_len(),
        0 <= across <= shift.reach_x(),
        0 <= down <= shift.reach_y(),
    ensures
        0 <= shift.translated(i, across, down) < shift.in_len(),
        shift.translated(i, across, down) % 3 == i % 3,
{
    let row = shift.row(i);
    let rest = i % (3 * shift.out_x());
    let in_x = shift.in_x as int;
    let in_y = shift.in_y as int;
    lemma_widen_rows(shift.out_x(), shift.out_y(), shift.reach_x() as int, i);
    let line = row + down;
    let place = rest + 3 * across;
    assert(0 <= line < in_y);
    assert(0 <= place < 3 * in_x);
    assert(0 <= 3 * in_x * line + place < 3 * in_x * in_y) by (nonlinear_arith)
        requires
            0 <= line < in_y,
            0 <= place < 3 * in_x,
    ;
    assert((3 * in_x * line + place) % 3 == i % 3) by {
        assert(3 * in_x * line + 3 * across == 3 * (in_x * line + across)) by (nonlinear_arith);
        vstd::arithmetic::div_mod::lemma_mod_multiples_vanish(in_x * line + across, rest, 3);
    }
}

} // verus!
