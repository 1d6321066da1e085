use vstd::prelude::*;
use crate::pos::Pos;
use zune_jpeg::errors::DecodeErrors;
use zune_jpeg::JpegDecoder;
use zune_jpeg::zune_core::bytestream::ZCursor;
use zune_jpeg::zune_core::colorspace::ColorSpace;
use zune_jpeg::zune_core::options::DecoderOptions;

verus! {

/// Largest accepted image dimension, in pixels: small enough that a
/// buffer of four bytes per pixel is indexable on every architecture.
pub const MAX_DIM: usize = 16_384;

#[verifier::external_type_specification]
#[verifier::external_body]
pub struct ExDecodeErrors(DecodeErrors);

/// Why a bytestream could not become an image.
#[derive(Debug)]
pub enum DecodeError {
    /// The codec rejected the bytestream; carries the codec's message.
    Codec(String),
    /// The codec's output did not describe a usable RGBA image: zero or
    /// oversized dimensions, or a buffer without four bytes per pixel.
    Unsupported,
}

/// What the JPEG codec makes of a bytestream when the output colorspace
/// is forced to RGBA: the decoded width, height and pixel bytes, or
/// nothing where the codec rejects the stream or cannot report its
/// dimensions. With the options fixed, this is a function of the bytes
/// alone.
pub uninterp spec fn jpeg_rgba_of(bytes: Seq<u8>) -> Option<(usize, usize, Seq<u8>)>;

/// Relies on zune_jpeg::JpegDecoder — new_with_options, decode and
/// dimensions, with the output colorspace forced to RGBA: decodes a JPEG
/// bytestream into raw pixels and reports the decoded dimensions. The
/// result is `jpeg_rgba_of` the bytes: decoded values where that is
/// something, the codec's error where it is nothing.
#[verifier::external_body]
fn jpeg_decode_rgba(data: &[u8]) -> (r: Result<(usize, usize, Vec<u8>), DecodeErrors>)
    ensures
        r matches Ok((w, h, d)) ==> jpeg_rgba_of(data@) == Some((w, h, d@)),
        r is Err ==> jpeg_rgba_of(data@) is None,
{
    let options = DecoderOptions::default().jpeg_set_out_colorspace(ColorSpace::RGBA);
    let mut decoder = JpegDecoder::new_with_options(ZCursor::new(data), options);
    let pixels = match decoder.decode() {
        Ok(p) => p,
        Err(e) => {
            return Err(e);
        },
    };
    match decoder.dimensions() {
        Some((w, h)) => Ok((w, h, pixels)),
        None => Err(DecodeErrors::Format(String::from("cannot get dimensions"))),
    }
}

/// The named decode yielded an image the library can hold: nonzero
/// dimensions within `MAX_DIM` and exactly four bytes per pixel.
pub open spec fn decoded_usable(d: Option<(usize, usize, Seq<u8>)>) -> bool {
    match d {
        Some((w, h, px)) => 1 <= w <= MAX_DIM && 1 <= h <= MAX_DIM && px.len() == w * h * 4,
        None => false,
    }
}

/// Relies on the Display impl of zune_jpeg::errors::DecodeErrors: renders
/// the codec's error as text.
#[verifier::external_body]
fn decode_error_text(e: &DecodeErrors) -> String {
    format!("{}", e)
}

/// The pixel row or column a fixed-point coordinate falls in: floored to
/// a whole pixel, negative positions pinned to the first pixel and
/// positions past the image to the last — every real position samples
/// some pixel.
pub open spec fn clamp_axis(v: int, dim: int) -> int {
    if v < 0 {
        0
    } else if v / 1000 >= dim {
        dim - 1
    } else {
        v / 1000
    }
}

/// Floor a fixed-point coordinate to a whole pixel, clamped into the axis.
fn clamp_axis_exec(v: i64, dim: usize) -> (r: usize)
    requires
        1 <= dim <= MAX_DIM,
    ensures
        r == clamp_axis(v as int, dim as int),
        r < dim,
{
    if v < 0 {
        0
    } else {
        let px: u64 = (v as u64) / 1000;
        if px >= dim as u64 {
            dim - 1
        } else {
            px as usize
        }
    }
}

/// A decoded raster image: RGBA bytes, four per pixel, row-major, never
/// mutated after construction.
pub struct Image {
    pub width: usize,
    pub height: usize,
    pub data: Vec<u8>,
}

impl Image {
    /// A usable image: nonzero dimensions within `MAX_DIM`, and exactly
    /// four bytes per pixel.
    pub open spec fn wf(self) -> bool {
        &&& 1 <= self.width <= MAX_DIM
        &&& 1 <= self.height <= MAX_DIM
        &&& self.data@.len() == self.width * self.height * 4
    }

    pub fn new(width: usize, height: usize, data: Vec<u8>) -> (img: Image)
        requires
            1 <= width <= MAX_DIM,
            1 <= height <= MAX_DIM,
            data@.len() == width * height * 4,
        ensures
            img.width == width,
            img.height == height,
            img.data == data,
            img.wf(),
    {
        Image { width, height, data }
    }

    /// Validate a decoded buffer into an image: succeeds exactly when the
    /// dimensions are usable and the buffer holds four bytes per pixel.
    pub fn from_decoded(width: usize, height: usize, data: Vec<u8>) -> (r: Result<
        Image,
        DecodeError,
    >)
        ensures
            r is Ok <==> (1 <= width <= MAX_DIM && 1 <= height <= MAX_DIM && data@.len() == width
                * height * 4),
            r matches Ok(img) ==> img.width == width && img.height == height && img.data == data
                && img.wf(),
            r matches Err(e) ==> e is Unsupported,
    {
        if 1 <= width && width <= MAX_DIM && 1 <= height && height <= MAX_DIM {
            assert(width * height * 4 < 0x1_0000_0000) by (nonlinear_arith)
                requires
                    1 <= width <= 16_384,
                    1 <= height <= 16_384,
            ;
            let need = width * height * 4;
            if data.len() == need {
                Ok(Image::new(width, height, data))
            } else {
                Err(DecodeError::Unsupported)
            }
        } else {
            Err(DecodeError::Unsupported)
        }
    }

    /// Decode a JPEG bytestream into an RGBA image: succeeds exactly when
    /// the codec's decode of the bytes is a usable image, which is then
    /// held whole and well formed; a rejected stream is a codec error, a
    /// decode the library cannot hold is unsupported, and no partial
    /// image is ever returned.
    pub fn from_jpeg(jpeg_data: &[u8]) -> (r: Result<Image, DecodeError>)
        ensures
            r is Ok <==> decoded_usable(jpeg_rgba_of(jpeg_data@)),
            r matches Ok(img) ==> img.wf() && jpeg_rgba_of(jpeg_data@) == Some(
                (img.width, img.height, img.data@),
            ),
            r matches Err(e) ==> (if jpeg_rgba_of(jpeg_data@) is None {
                e is Codec
            } else {
                e is Unsupported
            }),
    {
        match jpeg_decode_rgba(jpeg_data) {
            Ok((w, h, data)) => Image::from_decoded(w, h, data),
            Err(e) => Err(DecodeError::Codec(decode_error_text(&e))),
        }
    }

    /// The byte index of the red channel of the pixel a fixed-point
    /// position samples.
    pub open spec fn index_at(self, vx: int, vy: int) -> int {
        4 * (clamp_axis(vx, self.width as int) + self.width * clamp_axis(vy, self.height as int))
    }

    /// The byte of channel `ch` (0 red, 1 green, 2 blue, 3 alpha) of the
    /// pixel a fixed-point position samples.
    pub open spec fn byte_at(self, vx: int, vy: int, ch: int) -> u8 {
        self.data@[self.index_at(vx, vy) + ch]
    }

    /// The byte of channel `ch` of the pixel `pos` samples.
    pub open spec fn sample_byte(self, pos: Pos, ch: int) -> u8 {
        self.byte_at(pos.x as int, pos.y as int, ch)
    }

    /// Point-sample the image: floor the position to a whole pixel,
    /// clamping both axes independently into the image, and read that
    /// pixel's channels. Total over every position; alpha is never read.
    pub fn sample(&self, pos: Pos) -> (s: Sampler)
        requires
            self.wf(),
        ensures
            s.red_b == self.sample_byte(pos, 0),
            s.green_b == self.sample_byte(pos, 1),
            s.blue_b == self.sample_byte(pos, 2),
    {
        let x = clamp_axis_exec(pos.x, self.width);
        let y = clamp_axis_exec(pos.y, self.height);
        assert(4 * (x + self.width * y) + 3 <= self.width * self.height * 4 && self.width
            * self.height * 4 < 0x1_0000_0000) by (nonlinear_arith)
            requires
                x < self.width,
                y < self.height,
                1 <= self.width <= 16_384,
                1 <= self.height <= 16_384,
        ;
        let idx = 4 * (x + self.width * y);
        Sampler { red_b: self.data[idx], green_b: self.data[idx + 1], blue_b: self.data[idx + 2] }
    }
}

/// Sampling at or below the image's left-top corner reads the same pixel
/// as sampling at the origin: negative positions clamp to pixel (0, 0).
pub proof fn lemma_sample_clamps_low(img: Image, p: Pos, ch: int)
    requires
        img.wf(),
        p.x <= 0,
        p.y <= 0,
    ensures
        img.sample_byte(p, ch) == img.sample_byte(Pos { x: 0, y: 0 }, ch),
{
    assert(clamp_axis(p.x as int, img.width as int) == 0);
    assert(clamp_axis(p.y as int, img.height as int) == 0);
}

/// Sampling at or past the image's right-bottom corner reads the same
/// pixel as sampling the last pixel: oversized positions clamp to
/// (width - 1, height - 1).
pub proof fn lemma_sample_clamps_high(img: Image, p: Pos, q: Pos, ch: int)
    requires
        img.wf(),
        p.x >= img.width * 1000,
        p.y >= img.height * 1000,
        q.x == (img.width - 1) * 1000,
        q.y == (img.height - 1) * 1000,
    ensures
        img.sample_byte(p, ch) == img.sample_byte(q, ch),
{
    lemma_clamp_axis_high(p.x as int, img.width as int);
    lemma_clamp_axis_high(p.y as int, img.height as int);
    lemma_clamp_axis_exact(img.width as int);
    lemma_clamp_axis_exact(img.height as int);
}

/// A coordinate at or past the axis's end clamps to the last pixel.
proof fn lemma_clamp_axis_high(v: int, dim: int)
    requires
        dim >= 1,
        v >= dim * 1000,
    ensures
        clamp_axis(v, dim) == dim - 1,
{
    assert(v / 1000 >= dim) by (nonlinear_arith)
        requires
            v >= dim * 1000,
            dim >= 1,
    ;
}

/// The coordinate of the last pixel falls in the last pixel.
proof fn lemma_clamp_axis_exact(dim: int)
    requires
        dim >= 1,
    ensures
        clamp_axis((dim - 1) * 1000, dim) == dim - 1,
{
    assert(((dim - 1) * 1000) / 1000 == dim - 1) by (nonlinear_arith)
        requires
            dim >= 1,
    ;
}

/// One sampled pixel's channels, read at sampling time from the image's
/// immutable buffer.
#[derive(Clone, Copy, PartialEq, Eq, Structural, Debug)]
pub struct Sampler {
    pub red_b: u8,
    pub green_b: u8,
    pub blue_b: u8,
}

impl Sampler {
    /// The red channel, as a fixed-point value in thousandths.
    pub fn red(self) -> (r: i64)
        ensures
            r == self.red_b as int * 1000,
    {
        (self.red_b as i64) * 1000
    }

    /// The green channel, as a fixed-point value in thousandths.
    pub fn green(self) -> (r: i64)
        ensures
            r == self.green_b as int * 1000,
    {
        (self.green_b as i64) * 1000
    }

    /// The blue channel, as a fixed-point value in thousandths.
    pub fn blue(self) -> (r: i64)
        ensures
            r == self.blue_b as int * 1000,
    {
        (self.blue_b as i64) * 1000
    }
}

} // verus!
