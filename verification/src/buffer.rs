//! Pixel buffers: rows of interleaved red, green and blue bytes.

use vstd::prelude::*;

verus! {

/// The mathematical model of a pixel buffer: its size in pixels and its
/// bytes, row after row from the top, three bytes to a pixel.
pub struct Raster {
    pub width: nat,
    pub height: nat,
    pub data: Seq<u8>,
}

impl Raster {
    /// Whether there are exactly three bytes for every pixel.
    pub open spec fn wf(self) -> bool {
        self.data.len() == 3 * self.width * self.height
    }

    /// The image of `width` by `height` pixels with the bytes `data`.
    pub open spec fn of(width: nat, height: nat, data: Seq<u8>) -> Raster {
        Raster { width, height, data }
    }
}

/// An image of 8-bit RGB pixels that holds exactly three bytes for every
/// pixel.
#[derive(Debug)]
pub struct PixelBuffer {
    width: usize,
    height: usize,
    data: Vec<u8>,
}

impl View for PixelBuffer {
    type V = Raster;

    closed spec fn view(&self) -> Raster {
        Raster { width: self.width as nat, height: self.height as nat, data: self.data@ }
    }
}

impl PixelBuffer {
    #[verifier::type_invariant]
    pub open spec fn inv(&self) -> bool {
        self@.wf()
    }

    /// The number of bytes of a buffer fits the machine's word.
    pub proof fn lemma_len_fits(self)
        requires
            self.inv(),
        ensures
            3 * self@.width * self@.height <= usize::MAX,
    {
        assert(self.data@.len() == self.data.len());
    }

    /// Takes `data` as an image of `width` by `height` pixels, if it holds
    /// three bytes for each of them.
    pub fn new(width: usize, height: usize, data: Vec<u8>) -> (r: Option<PixelBuffer>)
        ensures
            match r {
                Some(buffer) => buffer@ == Raster::of(width as nat, height as nat, data@)
                    && buffer@.wf(),
                None => data@.len() != 3 * width * height,
            },
    {
        let len = data.len();
        let pixels: usize = match width.checked_mul(height) {
            Some(pixels) => pixels,
            None => {
                proof {
                    assert(3 * width * height > usize::MAX) by (nonlinear_arith)
                        requires
                            width * height > usize::MAX,
                    ;
                }
                return None;
            },
        };
        let bytes: usize = match pixels.checked_mul(3) {
            Some(bytes) => bytes,
            None => {
                proof {
                    assert(3 * width * height == pixels * 3) by (nonlinear_arith)
                        requires
                            pixels == width * height,
                    ;
                }
                return None;
            },
        };
        proof {
            assert(3 * width * height == bytes) by (nonlinear_arith)
                requires
                    pixels == width * height,
                    bytes == pixels * 3,
            ;
        }
        if len != bytes {
            return None;
        }
        Some(PixelBuffer { width, height, data })
    }

    /// The width in pixels.
    pub fn width(&self) -> (w: usize)
        ensures
            w == self@.width,
    {
        self.width
    }

    /// The height in pixels.
    pub fn height(&self) -> (h: usize)
        ensures
            h == self@.height,
    {
        self.height
    }

    /// The bytes.
    pub fn as_raw(&self) -> (data: &Vec<u8>)
        ensures
            data@ == self@.data,
            data@.len() == 3 * self@.width * self@.height,
            data@.len() <= usize::MAX,
    {
        proof {
            use_type_invariant(self);
            assert(self.data@.len() == self.data.len());
        }
        &self.data
    }

    /// Gives up the bytes.
    pub fn into_raw(self) -> (data: Vec<u8>)
        ensures
            data@ == self@.data,
            data@.len() == 3 * self@.width * self@.height,
    {
        proof {
            use_type_invariant(&self);
        }
        self.data
    }
}

} // verus!
