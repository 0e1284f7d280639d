//! The compositor: two shifted samples per output byte, blended through a
//! pair of colours.

use vstd::prelude::*;

use crate::blend::{blend, lemma_blend_is_byte, spec_blend};
use crate::buffer::{PixelBuffer, Raster};
use crate::color::{ColorPair, Coloring};
use crate::geometry::{
    lemma_sample_addresses, spec_half, spec_magnitude, Direction, GeometryError, Shift,
    ShiftGeometry,
};

verus! {

/// The mathematical model of a compositor: an input image, a sampling
/// geometry and a pair of colours.
pub struct Composition {
    pub input: Raster,
    pub shift: Shift,
    pub colors: ColorPair,
}

impl Composition {
    /// The composition of `input` under `shift` through `colors`.
    pub open spec fn of(input: Raster, shift: Shift, colors: ColorPair) -> Composition {
        Composition { input, shift, colors }
    }

    /// Whether the geometry is valid and is that of the input, and the input
    /// holds three bytes for every pixel.
    pub open spec fn wf(self) -> bool {
        &&& self.input.wf()
        &&& self.shift.valid()
        &&& self.shift.in_x == self.input.width
        &&& self.shift.in_y == self.input.height
    }

    /// The sample that the left colour weighs in byte `i` of the output.
    pub open spec fn left_sample(self, i: int) -> u8 {
        self.input.data[self.shift.left_address(i)]
    }

    /// The sample that the right colour weighs in byte `i` of the output.
    pub open spec fn right_sample(self, i: int) -> u8 {
        self.input.data[self.shift.right_address(i)]
    }

    /// Byte `i` of the output: the two samples, each weighed by its colour's
    /// component for the channel of `i`, and blended.
    pub open spec fn byte(self, i: int) -> u8 {
        spec_blend(
            self.left_sample(i),
            self.right_sample(i),
            self.colors.left.channel(i % 3),
            self.colors.right.channel(i % 3),
        ) as u8
    }

    /// The first `n` bytes of the output.
    pub open spec fn bytes(self, n: nat) -> Seq<u8> {
        Seq::new(n, |i: int| self.byte(i))
    }

    /// The output image.
    pub open spec fn output(self) -> Raster {
        Raster::of(
            self.shift.out_x() as nat,
            self.shift.out_y() as nat,
            self.bytes(self.shift.out_len() as nat),
        )
    }
}

/// The output of a well-formed composition holds three bytes for each of
/// its pixels, and is no larger than the input.
pub proof fn lemma_output_wf(c: Composition)
    requires
        c.wf(),
    ensures
        c.output().wf(),
        0 < c.shift.out_len() <= c.input.data.len(),
{
    let out_x = c.shift.out_x();
    let out_y = c.shift.out_y();
    let in_x = c.shift.in_x as int;
    let in_y = c.shift.in_y as int;
    assert(0 < 3 * out_x * out_y <= 3 * in_x * in_y) by (nonlinear_arith)
        requires
            0 < out_x <= in_x,
            0 < out_y <= in_y,
    ;
}

/// With offsets that halve to zero nothing is cropped, both samples of a
/// byte are the input byte at the same place, and the output byte is that
/// one byte blended with itself through the two colours.
pub proof fn lemma_zero_offset(
    input: Raster,
    offset_x: int,
    offset_y: int,
    colors: ColorPair,
    i: int,
)
    requires
        input.wf(),
        input.width > 0,
        input.height > 0,
        spec_half(offset_x) == 0,
        spec_half(offset_y) == 0,
        0 <= i < input.data.len(),
    ensures
        ({
            let c = Composition::of(
                input,
                Shift::of(input.width, input.height, offset_x, offset_y),
                colors,
            );
            &&& c.wf()
            &&& c.output().width == input.width
            &&& c.output().height == input.height
            &&& c.output().data.len() == input.data.len()
            &&& c.output().data[i] == spec_blend(
                input.data[i],
                input.data[i],
                colors.left.channel(i % 3),
                colors.right.channel(i % 3),
            )
        }),
{
    let shift = Shift::of(input.width, input.height, offset_x, offset_y);
    let c = Composition::of(input, shift, colors);
    let row = shift.row(i);
    assert(shift.reach_x() == 0 && shift.reach_y() == 0);
    assert(shift.row_term() == 0) by (nonlinear_arith)
        requires
            shift.row_term() == shift.reach_y() * shift.in_x,
            shift.reach_y() == 0,
    ;
    assert(shift.column_term(row) == 0 && shift.column_term(row + 1) == 0) by (nonlinear_arith)
        requires
            shift.column_term(row) == shift.reach_x() * row,
            shift.column_term(row + 1) == shift.reach_x() * (row + 1),
            shift.reach_x() == 0,
    ;
    assert(shift.left_address(i) == i);
    assert(shift.right_address(i) == i);
    lemma_blend_is_byte(
        input.data[i],
        input.data[i],
        colors.left.channel(i % 3),
        colors.right.channel(i % 3),
    );
}

/// A compositor: a borrowed input image, the geometry derived for it from
/// the requested offsets, and the pair of colours of the chosen scheme.
pub struct Anaglyph<'a> {
    input: &'a PixelBuffer,
    geometry: ShiftGeometry,
    colors: ColorPair,
}

impl<'a> View for Anaglyph<'a> {
    type V = Composition;

    closed spec fn view(&self) -> Composition {
        Composition { input: self.input@, shift: self.geometry@, colors: self.colors }
    }
}

impl<'a> Anaglyph<'a> {
    #[verifier::type_invariant]
    pub open spec fn inv(&self) -> bool {
        self@.wf()
    }

    /// Sets up the composition of `input` for the requested offsets and
    /// colour scheme, or refuses the offsets where a halved offset reaches
    /// as far as the input does in its dimension.
    pub fn new(input: &'a PixelBuffer, offset_x: isize, offset_y: isize, coloring: Coloring) -> (r:
        Result<Anaglyph<'a>, GeometryError>)
        ensures
            match r {
                Ok(anaglyph) => {
                    &&& anaglyph@ == Composition::of(
                        input@,
                        Shift::of(
                            input@.width,
                            input@.height,
                            offset_x as int,
                            offset_y as int,
                        ),
                        coloring.spec_pair(),
                    )
                    &&& anaglyph@.wf()
                },
                Err(e) => {
                    &&& !Shift::of(
                        input@.width,
                        input@.height,
                        offset_x as int,
                        offset_y as int,
                    ).valid()
                    &&& e.width == input@.width
                    &&& e.height == input@.height
                    &&& e.half_x == spec_half(offset_x as int)
                    &&& e.half_y == spec_half(offset_y as int)
                },
            },
    {
        proof {
            use_type_invariant(input);
        }
        match ShiftGeometry::resolve(input.width(), input.height(), offset_x, offset_y) {
            Ok(geometry) => Ok(Anaglyph { input, geometry, colors: coloring.pair() }),
            Err(e) => Err(e),
        }
    }

    /// The width of the output in pixels.
    pub fn out_width(&self) -> (w: usize)
        ensures
            w == self@.shift.out_x(),
            w == self@.input.width - self@.shift.reach_x(),
    {
        proof {
            use_type_invariant(self);
        }
        self.geometry.out_width()
    }

    /// The height of the output in pixels.
    pub fn out_height(&self) -> (h: usize)
        ensures
            h == self@.shift.out_y(),
            h == self@.input.height - self@.shift.reach_y(),
    {
        proof {
            use_type_invariant(self);
        }
        self.geometry.out_height()
    }

    /// The number of bytes of the output.
    pub fn out_len(&self) -> (n: usize)
        ensures
            n == self@.shift.out_len(),
    {
        let out_x = self.geometry.out_width();
        let out_y = self.geometry.out_height();
        proof {
            use_type_invariant(self);
            self.input.lemma_len_fits();
            lemma_output_wf(self@);
            assert(0 < 3 * out_x <= 3 * out_x * out_y) by (nonlinear_arith)
                requires
                    0 < out_x,
                    0 < out_y,
            ;
        }
        3 * out_x * out_y
    }

    /// The two samples that go into byte `i` of the output: first the one
    /// that the left colour weighs, then the one that the right colour
    /// weighs.
    pub fn get(&self, i: usize) -> (pair: (u8, u8))
        requires
            i < self@.shift.out_len(),
        ensures
            pair.0 == self@.left_sample(i as int),
            pair.1 == self@.right_sample(i as int),
    {
        let data = self.input.as_raw();
        let out_x = self.geometry.out_width();
        let in_x = self.geometry.in_width();
        let reach_x = self.geometry.reach_x();
        let reach_y = self.geometry.reach_y();
        let ghost shift = self@.shift;
        proof {
            use_type_invariant(self);
            lemma_output_wf(self@);
            lemma_sample_addresses(shift, i as int);
            assert(0 < 3 * out_x <= 3 * out_x * shift.out_y()) by (nonlinear_arith)
                requires
                    0 < out_x,
                    0 < shift.out_y(),
            ;
        }
        let row = i / (out_x * 3);
        proof {
            let r = row as int;
            assert(r == shift.row(i as int));
            assert(0 <= reach_y * in_x && 0 <= reach_x * r && reach_x * (r + 1) == reach_x * r
                + reach_x) by (nonlinear_arith)
                requires
                    0 <= r,
            ;
            assert(reach_y * in_x < in_x * shift.in_y && reach_x * (r + 1) < in_x * shift.in_y
                && in_x * shift.in_y <= 3 * in_x * shift.in_y) by (nonlinear_arith)
                requires
                    0 <= reach_x < in_x,
                    0 <= reach_y < shift.in_y,
                    0 <= r < shift.out_y(),
                    shift.out_y() == shift.in_y - reach_y,
            ;
        }
        let row_term = reach_y * in_x;
        let this_row = reach_x * row;
        let next_row = reach_x * (row + 1);
        let (left, right): (usize, usize) = match self.geometry.direction() {
            Direction::BottomRight => (i + 3 * (row_term + next_row), i + 3 * this_row),
            Direction::TopRight => (i + 3 * next_row, i + 3 * (row_term + this_row)),
            Direction::BottomLeft => (i + 3 * (row_term + this_row), i + 3 * next_row),
            Direction::TopLeft => (i + 3 * this_row, i + 3 * (row_term + next_row)),
        };
        (data[left], data[right])
    }

    /// Overwrites every byte of `out_buf` with the output byte of the same
    /// index.
    pub fn fill(&self, out_buf: &mut Vec<u8>)
        requires
            old(out_buf)@.len() <= self@.shift.out_len(),
        ensures
            final(out_buf)@ == self@.bytes(old(out_buf)@.len()),
    {
        let n = out_buf.len();
        let mut i: usize = 0;
        while i < n
            invariant
                i <= n,
                n == out_buf@.len(),
                n <= self@.shift.out_len(),
                forall|k: int| 0 <= k < i ==> out_buf@[k] == self@.byte(k),
            decreases n - i,
        {
            let (v_left, v_right) = self.get(i);
            let byte = blend(
                v_left,
                v_right,
                self.colors.left.weight(i % 3),
                self.colors.right.weight(i % 3),
            );
            out_buf.set(i, byte);
            i = i + 1;
        }
        assert(out_buf@ =~= self@.bytes(n as nat));
    }

    /// The output image.
    pub fn render(&self) -> (out: PixelBuffer)
        ensures
            out@ == self@.output(),
            out@.wf(),
    {
        proof {
            use_type_invariant(self);
            lemma_output_wf(self@);
        }
        let mut out_buf: Vec<u8> = vec![0u8; self.out_len()];
        self.fill(&mut out_buf);
        PixelBuffer::new(self.out_width(), self.out_height(), out_buf).unwrap()
    }
}

/// Makes the anaglyph of `input`: an image cropped by the magnitude of each
/// halved offset, in which every byte blends two samples of the input that
/// lie the halved offsets apart, each weighed by one colour of the scheme.
///
/// Offsets whose halves reach as far as the input does, in either
/// dimension, are refused before anything is sampled.
pub fn compose(input: &PixelBuffer, offset_x: isize, offset_y: isize, coloring: Coloring) -> (r:
    Result<PixelBuffer, GeometryError>)
    ensures
        match r {
            Ok(out) => {
                &&& Shift::of(input@.width, input@.height, offset_x as int, offset_y as int).valid()
                &&& out@ == Composition::of(
                    input@,
                    Shift::of(input@.width, input@.height, offset_x as int, offset_y as int),
                    coloring.spec_pair(),
                ).output()
                &&& out@.wf()
                &&& out@.width == input@.width - spec_magnitude(spec_half(offset_x as int))
                &&& out@.height == input@.height - spec_magnitude(spec_half(offset_y as int))
            },
            Err(e) => {
                &&& spec_magnitude(spec_half(offset_x as int)) >= input@.width || spec_magnitude(
                    spec_half(offset_y as int),
                ) >= input@.height
                &&& e.width == input@.width
                &&& e.height == input@.height
                &&& e.half_x == spec_half(offset_x as int)
                &&& e.half_y == spec_half(offset_y as int)
            },
        },
{
    match Anaglyph::new(input, offset_x, offset_y, coloring) {
        Ok(anaglyph) => Ok(anaglyph.render()),
        Err(e) => Err(e),
    }
}

} // verus!
