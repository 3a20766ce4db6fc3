//! Images as plain data: a grid of pixels with four 8-bit samples each, and
//! the rendering of one faded frame from such a grid.

use vstd::prelude::*;
use crate::factor::{lemma_scaled_bounds, scaled, Factor, Ratio};

verus! {

/// One pixel: red, green and blue colour samples, and alpha.
#[derive(Clone, Copy, Debug, PartialEq, Eq, Structural)]
pub struct Pixel {
    pub red: u8,
    pub green: u8,
    pub blue: u8,
    pub alpha: u8,
}

/// The pixel `p` at brightness `f`: each colour sample scaled, alpha kept.
pub open spec fn faded_pixel(p: Pixel, f: Ratio) -> Pixel {
    Pixel {
        red: scaled(p.red, f) as u8,
        green: scaled(p.green, f) as u8,
        blue: scaled(p.blue, f) as u8,
        alpha: p.alpha,
    }
}

impl Pixel {
    /// This pixel at the given brightness.
    pub fn faded(self, factor: Factor) -> (out: Pixel)
        ensures
            out == faded_pixel(self, factor@),
    {
        Pixel {
            red: factor.scale(self.red),
            green: factor.scale(self.green),
            blue: factor.scale(self.blue),
            alpha: self.alpha,
        }
    }
}

/// Whether position `i` of an interleaved RGBA sample sequence holds alpha.
pub open spec fn is_alpha(i: int) -> bool {
    i % 4 == 3
}

/// Interleaved RGBA samples at brightness `f`: the sequence keeps its length,
/// every alpha sample stays, every colour sample is scaled.
pub open spec fn faded_samples(samples: Seq<u8>, f: Ratio) -> Seq<u8> {
    Seq::new(
        samples.len(),
        |i: int|
            if is_alpha(i) {
                samples[i]
            } else {
                scaled(samples[i], f) as u8
            },
    )
}

/// Renders interleaved RGBA samples at the given brightness.
pub fn fade_samples(samples: &[u8], factor: Factor) -> (out: Vec<u8>)
    ensures
        out@ == faded_samples(samples@, factor@),
        out@.len() == samples@.len(),
        forall|i: int| 0 <= i < samples@.len() && is_alpha(i) ==> #[trigger] out@[i] == samples@[i],
        factor@.is_one() ==> out@ == samples@,
        factor@.is_zero() ==> forall|i: int|
            0 <= i < samples@.len() && !is_alpha(i) ==> #[trigger] out@[i] == 0,
{
    proof {
        use_type_invariant(&factor);
        if factor@.is_one() {
            lemma_full_brightness_keeps_samples(samples@, factor@);
        }
        if factor@.is_zero() {
            lemma_zero_brightness_blackens(samples@, factor@);
        }
    }
    let mut out: Vec<u8> = Vec::new();
    let mut i: usize = 0;
    while i < samples.len()
        invariant
            i <= samples@.len(),
            out@.len() == i,
            forall|k: int| 0 <= k < i ==> out@[k] == #[trigger] faded_samples(samples@, factor@)[k],
        decreases samples@.len() - i,
    {
        let sample: u8 = samples[i];
        if i % 4 == 3 {
            out.push(sample);
        } else {
            out.push(factor.scale(sample));
        }
        i = i + 1;
    }
    proof {
        assert(out@ =~= faded_samples(samples@, factor@));
        lemma_fade_keeps_alpha(samples@, factor@);
    }
    out
}

/// The number of samples of a grid of the given size, four per pixel, where a
/// `usize` can hold the number of samples of one row and of all rows.
pub(crate) fn sample_count(width: u32, height: u32) -> (count: Option<usize>)
    ensures
        count.is_some() <==> (4 * width <= usize::MAX && 4 * width * height <= usize::MAX),
        count matches Some(n) ==> n == 4 * width * height,
{
    let row: u64 = 4 * (width as u64);
    if row > usize::MAX as u64 {
        return None;
    }
    proof {
        assert(0 <= row as int * height as int <= 0x3_ffff_fffc * 0xffff_ffff) by (nonlinear_arith)
            requires
                0 <= row as int <= 0x3_ffff_fffc,
                0 <= height as int <= 0xffff_ffff,
        ;
    }
    let all: u128 = (row as u128) * (height as u128);
    if all > usize::MAX as u128 {
        return None;
    }
    Some(all as usize)
}

/// The mathematical value of a raster: its size and its samples, row by row
/// from the top, each row from the left, four samples (red, green, blue,
/// alpha) per pixel.
pub struct RasterView {
    pub width: nat,
    pub height: nat,
    pub samples: Seq<u8>,
}

impl RasterView {
    /// The sample sequence has exactly four entries per pixel of the grid.
    pub open spec fn well_formed(self) -> bool {
        self.samples.len() == 4 * self.width * self.height
    }

    /// The grid can be counted on this machine: a `usize` holds the number of
    /// samples of one row, and the number of all samples.
    pub open spec fn countable(self) -> bool {
        4 * self.width <= usize::MAX && self.samples.len() <= usize::MAX
    }

    /// Where the samples of the pixel in column `x` of row `y` begin.
    pub open spec fn offset(self, x: int, y: int) -> int {
        4 * (y * self.width + x)
    }

    /// The pixel in column `x` of row `y`.
    pub open spec fn pixel_at(self, x: int, y: int) -> Pixel {
        let at = self.offset(x, y);
        Pixel {
            red: self.samples[at],
            green: self.samples[at + 1],
            blue: self.samples[at + 2],
            alpha: self.samples[at + 3],
        }
    }

    /// This raster at brightness `f`.
    pub open spec fn faded(self, f: Ratio) -> RasterView {
        RasterView {
            width: self.width,
            height: self.height,
            samples: faded_samples(self.samples, f),
        }
    }
}

/// An image held as plain data. Its sample count always matches its size.
#[derive(Debug)]
pub struct Raster {
    width: u32,
    height: u32,
    samples: Vec<u8>,
}

impl View for Raster {
    type V = RasterView;

    closed spec fn view(&self) -> RasterView {
        RasterView {
            width: self.width as nat,
            height: self.height as nat,
            samples: self.samples@,
        }
    }
}

impl Raster {
    /// What holds of every raster: it has four samples per pixel, and a
    /// `usize` holds the number of samples of one row and of all rows.
    #[verifier::type_invariant]
    pub open spec fn in_range(self) -> bool {
        self@.well_formed() && self@.countable()
    }

    /// A raster of the given size over the given samples, where there are
    /// exactly four samples per pixel and the samples of one row can be
    /// counted in a `usize`.
    pub fn new(width: u32, height: u32, samples: Vec<u8>) -> (raster: Option<Raster>)
        ensures
            raster.is_some() <==> (4 * width <= usize::MAX && samples@.len() == 4 * width * height),
            raster matches Some(r) ==> r@ == (RasterView {
                width: width as nat,
                height: height as nat,
                samples: samples@,
            }),
    {
        let given: usize = samples.len();
        match sample_count(width, height) {
            Some(wanted) => {
                if given == wanted {
                    Some(Raster { width, height, samples })
                } else {
                    None
                }
            },
            None => None,
        }
    }

    /// The number of columns.
    pub fn width(&self) -> (width: u32)
        ensures
            width == self@.width,
    {
        self.width
    }

    /// The number of rows.
    pub fn height(&self) -> (height: u32)
        ensures
            height == self@.height,
    {
        self.height
    }

    /// The samples, four per pixel.
    pub fn samples(&self) -> (samples: &[u8])
        ensures
            samples@ == self@.samples,
            self@.well_formed(),
            self@.countable(),
    {
        proof {
            use_type_invariant(self);
        }
        self.samples.as_slice()
    }

    /// Gives up the raster for its samples.
    pub fn into_samples(self) -> (samples: Vec<u8>)
        ensures
            samples@ == self@.samples,
            self@.well_formed(),
            self@.countable(),
    {
        proof {
            use_type_invariant(&self);
        }
        self.samples
    }

    /// The pixel in column `x` of row `y`, where the raster has one there.
    pub fn pixel(&self, x: u32, y: u32) -> (pixel: Option<Pixel>)
        ensures
            pixel.is_some() <==> x < self@.width && y < self@.height,
            pixel matches Some(p) ==> p == self@.pixel_at(x as int, y as int),
    {
        if x >= self.width || y >= self.height {
            return None;
        }
        proof {
            use_type_invariant(self);
            lemma_offset_in_range(self@, x as int, y as int);
        }
        let at: usize = 4 * ((y as usize) * (self.width as usize) + (x as usize));
        Some(
            Pixel {
                red: self.samples[at],
                green: self.samples[at + 1],
                blue: self.samples[at + 2],
                alpha: self.samples[at + 3],
            },
        )
    }

    /// Renders this image at the given brightness into a new raster of the
    /// same size.
    pub fn faded(&self, factor: Factor) -> (out: Raster)
        ensures
            out@ == self@.faded(factor@),
    {
        proof {
            use_type_invariant(self);
        }
        Raster {
            width: self.width,
            height: self.height,
            samples: fade_samples(self.samples.as_slice(), factor),
        }
    }
}

/// The four samples of a pixel inside the grid lie inside the sample sequence,
/// and the intermediate products stay below the sample count.
pub proof fn lemma_offset_in_range(r: RasterView, x: int, y: int)
    requires
        r.well_formed(),
        0 <= x < r.width,
        0 <= y < r.height,
    ensures
        0 <= y * r.width,
        0 <= y * r.width + x,
        0 <= r.offset(x, y),
        r.offset(x, y) + 4 <= r.samples.len(),
{
    let w: int = r.width as int;
    let h: int = r.height as int;
    assert(0 <= y * w && y * w + w <= h * w) by (nonlinear_arith)
        requires
            0 <= y < h,
            0 <= w,
    ;
    assert(4 * (h * w) == 4 * w * h) by (nonlinear_arith);
}

/// Fading keeps the number of samples and every alpha sample.
pub proof fn lemma_fade_keeps_alpha(samples: Seq<u8>, f: Ratio)
    ensures
        faded_samples(samples, f).len() == samples.len(),
        forall|i: int|
            0 <= i < samples.len() && is_alpha(i) ==> #[trigger] faded_samples(samples, f)[i]
                == samples[i],
{
}

/// At full brightness every sample is reproduced exactly.
pub proof fn lemma_full_brightness_keeps_samples(samples: Seq<u8>, f: Ratio)
    requires
        0 < f.den,
        f.is_one(),
    ensures
        faded_samples(samples, f) == samples,
{
    assert forall|i: int| 0 <= i < samples.len() implies #[trigger] faded_samples(samples, f)[i]
        == samples[i] by {
        let s: int = samples[i] as int;
        assert((s * f.den) / f.den == s) by (nonlinear_arith)
            requires
                0 < f.den,
        ;
    }
}

/// At zero brightness every colour sample is black; alpha is kept.
pub proof fn lemma_zero_brightness_blackens(samples: Seq<u8>, f: Ratio)
    requires
        0 < f.den,
        f.is_zero(),
    ensures
        forall|i: int|
            0 <= i < samples.len() ==> #[trigger] faded_samples(samples, f)[i] == if is_alpha(i) {
                samples[i]
            } else {
                0u8
            },
{
    assert forall|i: int| 0 <= i < samples.len() implies #[trigger] faded_samples(samples, f)[i]
        == if is_alpha(i) {
        samples[i]
    } else {
        0u8
    } by {
        let s: int = samples[i] as int;
        assert((s * 0) / f.den == 0) by (nonlinear_arith)
            requires
                0 < f.den,
        ;
    }
}

/// Fading keeps the size of a raster and acts on each pixel by itself: the
/// pixel at a position of the faded raster is the faded pixel of that
/// position, with the alpha it had.
pub proof fn lemma_fade_acts_on_each_pixel(r: RasterView, f: Ratio, x: int, y: int)
    requires
        r.well_formed(),
        0 <= x < r.width,
        0 <= y < r.height,
    ensures
        r.faded(f).well_formed(),
        r.faded(f).width == r.width,
        r.faded(f).height == r.height,
        r.faded(f).pixel_at(x, y) == faded_pixel(r.pixel_at(x, y), f),
        r.faded(f).pixel_at(x, y).alpha == r.pixel_at(x, y).alpha,
{
    lemma_offset_in_range(r, x, y);
}

} // verus!
