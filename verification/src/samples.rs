//! The image sample array: a dense height x width x 3 block of Q16.16
//! channel values, with clamped sampling and the conversions between 8-bit
//! channel bytes and fixed-point samples.

use vstd::prelude::*;

use crate::fixed::ONE;

verus! {

/// One RGB sample; each channel is a Q16.16 value in `[0, ONE]`.
#[derive(Clone, Copy, Debug, PartialEq, Eq, Structural)]
pub struct Rgb {
    pub r: u64,
    pub g: u64,
    pub b: u64,
}

impl Rgb {
    /// Channel `c` of the sample, counting R, G, B as 0, 1, 2.
    pub open spec fn channel(self, c: int) -> int {
        if c == 0 {
            self.r as int
        } else if c == 1 {
            self.g as int
        } else {
            self.b as int
        }
    }

    pub open spec fn wf(self) -> bool {
        self.r <= ONE && self.g <= ONE && self.b <= ONE
    }
}

/// Failure to reassemble a sample array from raw bytes.
#[derive(Clone, Copy, Debug, PartialEq, Eq, Structural)]
pub enum ImageError {
    /// The byte count does not match height x width x 3.
    ShapeMismatch,
}

/// Largest accepted image extent (2^30 rows or columns), so that every
/// coordinate computation fits comfortably in 64-bit machine arithmetic.
pub const EXTENT_MAX: usize = 0x4000_0000;

/// A dense (height, width, 3) array of Q16.16 samples in row-major order:
/// the channel `c` of the pixel at column `x` of row `y` sits at index
/// `3 * (y * width + x) + c`.
pub struct Image {
    pub height: usize,
    pub width: usize,
    pub data: Vec<u64>,
}

impl Image {
    /// Shape and range invariant: the flat buffer holds exactly
    /// height x width x 3 samples, each in `[0, ONE]`.
    pub open spec fn wf(&self) -> bool {
        &&& self.height <= EXTENT_MAX
        &&& self.width <= EXTENT_MAX
        &&& self.data@.len() == 3 * (self.height * self.width)
        &&& forall|i: int| 0 <= i < self.data@.len() ==> self.data@[i] <= ONE
    }

    /// Flat index of channel `c` at column `x`, row `y`.
    pub open spec fn index_spec(&self, x: int, y: int, c: int) -> int {
        3 * (y * self.width + x) + c
    }

    /// The three channels of the pixel at column `x`, row `y`.
    pub open spec fn sample_spec(&self, x: int, y: int) -> Rgb {
        Rgb {
            r: self.data@[self.index_spec(x, y, 0)],
            g: self.data@[self.index_spec(x, y, 1)],
            b: self.data@[self.index_spec(x, y, 2)],
        }
    }
}

/// Every in-range coordinate pair addresses three consecutive samples that
/// lie inside the flat buffer.
pub proof fn lemma_flat_index_in_bounds(x: int, y: int, w: int, h: int)
    by (nonlinear_arith)
    requires
        0 <= x < w,
        0 <= y < h,
    ensures
        0 <= 3 * (y * w + x),
        y * w + x < h * w,
        h * w <= 3 * (h * w),
        3 * (y * w + x) + 2 < 3 * (h * w),
{
}

/// A sample taken inside a well-formed array has channels in `[0, ONE]`.
pub proof fn lemma_sample_wf(img: Image, x: int, y: int)
    requires
        img.wf(),
        0 <= x < img.width,
        0 <= y < img.height,
    ensures
        img.sample_spec(x, y).wf(),
{
    lemma_flat_index_in_bounds(x, y, img.width as int, img.height as int);
}

/// Fetches the color triplet at an in-bounds coordinate. Callers clamp
/// coordinates first; this function does no bounds handling of its own.
pub fn get_color_triplet(img: &Image, x: usize, y: usize) -> (p: Rgb)
    requires
        img.wf(),
        x < img.width,
        y < img.height,
    ensures
        p == img.sample_spec(x as int, y as int),
        p.wf(),
{
    let len = img.data.len();
    proof {
        lemma_flat_index_in_bounds(x as int, y as int, img.width as int, img.height as int);
        assert(y * img.width + x < len);
    }
    let i = 3 * (y * img.width + x);
    Rgb { r: img.data[i], g: img.data[i + 1], b: img.data[i + 2] }
}

/// Edge-replicate clamping of a coordinate into `[0, max]`.
pub open spec fn clamp_spec(v: int, max: int) -> int {
    if v < 0 {
        0
    } else if v > max {
        max
    } else {
        v
    }
}

pub fn clamp_coord(v: i64, max: i64) -> (r: i64)
    requires
        max >= 0,
    ensures
        r == clamp_spec(v as int, max as int),
        0 <= r <= max,
{
    if v < 0 {
        0
    } else if v > max {
        max
    } else {
        v
    }
}

/// The Q16.16 sample standing for an 8-bit channel value: `b / 255`
/// rescaled to the unit, rounding up, so that the truncating encode below
/// inverts it exactly.
pub open spec fn sample_of_byte_spec(b: int) -> int {
    (b * ONE + 254) / 255
}

/// The 8-bit channel value standing for a Q16.16 sample: `v * 255` rescaled
/// down, truncating.
pub open spec fn byte_of_sample_spec(v: int) -> int {
    (v * 255) / (ONE as int)
}

/// Decoding a byte to a sample and encoding it again gives the byte back.
pub proof fn lemma_sample_byte_round_trip(b: int)
    requires
        0 <= b <= 255,
    ensures
        byte_of_sample_spec(sample_of_byte_spec(b)) == b,
{
    if b == 0 {
        assert(sample_of_byte_spec(0) == 0);
    } else {
        vstd::arithmetic::div_mod::lemma_fundamental_div_mod_converse(
            b * ONE + 254,
            255,
            257 * b + 1,
            b - 1,
        );
        assert(sample_of_byte_spec(b) == 257 * b + 1);
        vstd::arithmetic::div_mod::lemma_fundamental_div_mod_converse(
            (257 * b + 1) * 255,
            ONE as int,
            b,
            255 - b,
        );
    }
}

/// Rebuilds a sample array from a raw row-major byte buffer, as produced by
/// an 8-bit RGB decode. Fails exactly when the byte count does not match the
/// claimed shape.
pub fn from_bytes(height: usize, width: usize, bytes: &Vec<u8>) -> (result: Result<
    Image,
    ImageError,
>)
    requires
        height <= EXTENT_MAX,
        width <= EXTENT_MAX,
    ensures
        match result {
            Ok(img) => {
                &&& bytes@.len() == 3 * (height * width)
                &&& img.wf()
                &&& img.height == height
                &&& img.width == width
                &&& img.data@.len() == bytes@.len()
                &&& forall|i: int|
                    0 <= i < bytes@.len() ==> img.data@[i] == sample_of_byte_spec(
                        bytes@[i] as int,
                    )
            },
            Err(e) => {
                &&& bytes@.len() != 3 * (height * width)
                &&& e == ImageError::ShapeMismatch
            },
        },
{
    proof {
        crate::fixed::lemma_mul_le(height as int, width as int, EXTENT_MAX as int);
    }
    let expected: u64 = 3 * ((height as u64) * (width as u64));
    if bytes.len() as u64 != expected {
        return Err(ImageError::ShapeMismatch);
    }
    let mut data: Vec<u64> = Vec::new();
    let n = bytes.len();
    let mut i: usize = 0;
    while i < n
        invariant
            i <= n,
            n == bytes@.len(),
            data@.len() == i,
            forall|j: int|
                0 <= j < i ==> data@[j] == sample_of_byte_spec(bytes@[j] as int) && data@[j]
                    <= ONE,
        decreases n - i,
    {
        let v = ((bytes[i] as u64) * ONE + 254) / 255;
        data.push(v);
        i = i + 1;
    }
    Ok(Image { height, width, data })
}

impl Image {
    /// Flattens the sample array back to row-major 8-bit channel bytes.
    pub fn to_bytes(&self) -> (bytes: Vec<u8>)
        requires
            self.wf(),
        ensures
            bytes@.len() == self.data@.len(),
            forall|i: int|
                0 <= i < bytes@.len() ==> bytes@[i] == byte_of_sample_spec(self.data@[i] as int),
    {
        let mut bytes: Vec<u8> = Vec::new();
        let n = self.data.len();
        let mut i: usize = 0;
        while i < n
            invariant
                i <= n,
                n == self.data@.len(),
                self.wf(),
                bytes@.len() == i,
                forall|j: int|
                    0 <= j < i ==> bytes@[j] == byte_of_sample_spec(self.data@[j] as int),
            decreases n - i,
        {
            let v = self.data[i];
            let b = (v * 255) / ONE;
            bytes.push(b as u8);
            i = i + 1;
        }
        bytes
    }
}

} // verus!
