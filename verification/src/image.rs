use vstd::prelude::*;

verus! {

use png::{BitDepth, ColorType, Encoder, ScaledFloat, SourceChromaticities};

/// An image of `w` by `h` pixels stored row by row, four bytes (red, green, blue, alpha) per
/// pixel.
pub struct ImageBuffer {
    w: usize,
    h: usize,
    data: Vec<u8>,
}

/// Offset of the first byte of pixel `(x, y)` in an image `w` pixels wide.
pub open spec fn pixel_offset(w: int, x: int, y: int) -> int {
    (y * w + x) * 4
}

/// The four bytes of pixel `(x, y)`.
pub open spec fn pixel(bytes: Seq<u8>, w: int, x: int, y: int) -> Seq<u8> {
    bytes.subrange(pixel_offset(w, x, y), pixel_offset(w, x, y) + 4)
}

/// `bytes` with the four bytes of pixel `(x, y)` replaced by `colour`.
pub open spec fn with_pixel(bytes: Seq<u8>, w: int, x: int, y: int, colour: Seq<u8>) -> Seq<u8> {
    bytes.subrange(0, pixel_offset(w, x, y)) + colour + bytes.subrange(
        pixel_offset(w, x, y) + 4,
        bytes.len() as int,
    )
}

/// Whether the four bytes of pixel `(x, y)` lie within `bytes`.
pub open spec fn pixel_in(bytes: Seq<u8>, w: int, x: int, y: int) -> bool {
    pixel_offset(w, x, y) + 4 <= bytes.len()
}

impl ImageBuffer {
    /// Width in pixels.
    pub closed spec fn width(&self) -> nat {
        self.w as nat
    }

    /// Height in pixels.
    pub closed spec fn height(&self) -> nat {
        self.h as nat
    }

    /// The pixel bytes.
    pub closed spec fn bytes(&self) -> Seq<u8> {
        self.data@
    }

    /// A `w` by `h` image with every byte zero (transparent black).
    pub fn new(w: usize, h: usize) -> (img: Self)
        requires
            w * h * 4 <= usize::MAX,
        ensures
            img.width() == w,
            img.height() == h,
            img.bytes() == Seq::new((w * h * 4) as nat, |i: int| 0u8),
    {
        assert(0 <= w * h) by (nonlinear_arith);
        let img = ImageBuffer { w, h, data: vec![0; w * h * 4] };
        assert(img.bytes() =~= Seq::new((w * h * 4) as nat, |i: int| 0u8));
        img
    }

    /// The red, green, blue and alpha bytes of pixel `(x, y)`.
    pub fn get(&self, x: usize, y: usize) -> (c: [u8; 4])
        requires
            pixel_in(self.bytes(), self.width() as int, x as int, y as int),
        ensures
            c@ == pixel(self.bytes(), self.width() as int, x as int, y as int),
    {
        proof {
            let yw = y as int * self.w as int;
            assert(0 <= yw) by (nonlinear_arith)
                requires
                    yw == y as int * self.w as int,
                    0 <= y,
                    0 <= self.w,
            ;
            assert(pixel_offset(self.w as int, x as int, y as int) == (yw + x) * 4);
            assert(self.data.len() <= usize::MAX);
        }
        let idx = (y * self.w + x) * 4;
        let c = [self.data[idx], self.data[idx + 1], self.data[idx + 2], self.data[idx + 3]];
        assert(c@ =~= pixel(self.bytes(), self.width() as int, x as int, y as int));
        c
    }

    /// Sets the red, green, blue and alpha bytes of pixel `(x, y)`.
    pub fn set(&mut self, x: usize, y: usize, colour: [u8; 4])
        requires
            pixel_in(old(self).bytes(), old(self).width() as int, x as int, y as int),
        ensures
            final(self).width() == old(self).width(),
            final(self).height() == old(self).height(),
            final(self).bytes() == with_pixel(
                old(self).bytes(),
                old(self).width() as int,
                x as int,
                y as int,
                colour@,
            ),
    {
        proof {
            let yw = y as int * self.w as int;
            assert(0 <= yw) by (nonlinear_arith)
                requires
                    yw == y as int * self.w as int,
                    0 <= y,
                    0 <= self.w,
            ;
            assert(pixel_offset(self.w as int, x as int, y as int) == (yw + x) * 4);
            assert(self.data.len() <= usize::MAX);
        }
        let idx = (y * self.w + x) * 4;
        self.data.set(idx, colour[0]);
        self.data.set(idx + 1, colour[1]);
        self.data.set(idx + 2, colour[2]);
        self.data.set(idx + 3, colour[3]);
        assert(self.bytes() =~= with_pixel(
            old(self).bytes(),
            old(self).width() as int,
            x as int,
            y as int,
            colour@,
        ));
    }
}

/// What `png` 0.17 decodes from a PNG stream: the frame's width and height, the output
/// buffer the frame was decoded into, and how many bytes of that buffer the frame fills;
/// `None` when the stream cannot be decoded.
pub uninterp spec fn png_decoded(bytes: Seq<u8>) -> Option<(u32, u32, Seq<u8>, usize)>;

/// What `png` 0.17 encodes for an 8-bit RGBA image with the given size, source gamma
/// (scaled by 100000), source chromaticities (white, red, green, blue, each `x` then `y`,
/// scaled by 100000) and pixel bytes.
pub uninterp spec fn png_encoded(
    width: u32,
    height: u32,
    gamma: u32,
    chromaticities: Seq<u32>,
    pixels: Seq<u8>,
) -> Seq<u8>;

/// The eight signature bytes that open every PNG stream.
pub open spec fn png_signature() -> Seq<u8> {
    seq![137u8, 80, 78, 71, 13, 10, 26, 10]
}

/// Decodes the first frame of a PNG stream with `png::Decoder` (`read_info`, then
/// `next_frame` into a buffer of `output_buffer_size` bytes). The contract claims that the
/// outcome is the one `png_decoded` names for the input bytes; what those values are is
/// left to `png`.
#[verifier::external_body]
fn png_decode(bytes: &[u8]) -> (r: Option<(u32, u32, Vec<u8>, usize)>)
    ensures
        r is None <==> png_decoded(bytes@) is None,
        r matches Some(t) ==> png_decoded(bytes@) == Some((t.0, t.1, t.2@, t.3)),
{
    let mut reader = match png::Decoder::new(bytes).read_info() {
        Ok(reader) => reader,
        Err(_) => return None,
    };
    let mut buf = vec![0; reader.output_buffer_size()];
    match reader.next_frame(&mut buf) {
        Ok(info) => Some((info.width, info.height, buf, info.buffer_size())),
        Err(_) => None,
    }
}

/// Encodes 8-bit RGBA pixels as a PNG stream with `png::Encoder`, writing the source gamma
/// and the chromaticities `c` (white, red, green, blue, each `x` then `y`). The contract
/// claims that, for a non-empty image whose pixel bytes match its size (the inputs on which
/// `write_header` and `write_image_data` succeed), the output is the one `png_encoded` names
/// and begins with the PNG signature, which `Writer::init` writes first.
#[verifier::external_body]
fn png_encode_rgba8(
    width: u32,
    height: u32,
    gamma: u32,
    c: [u32; 8],
    pixels: &[u8],
) -> (out: Vec<u8>)
    requires
        0 < width,
        0 < height,
        pixels.len() == width * height * 4,
    ensures
        out@ == png_encoded(width, height, gamma, c@, pixels@),
        out@.len() >= 8,
        out@.subrange(0, 8) == png_signature(),
{
    let s = ScaledFloat::from_scaled;
    let mut out = Vec::new();
    let mut encoder = Encoder::new(&mut out, width, height);
    encoder.set_color(ColorType::Rgba);
    encoder.set_depth(BitDepth::Eight);
    encoder.set_source_gamma(s(gamma));
    let (white, red, green) = ((s(c[0]), s(c[1])), (s(c[2]), s(c[3])), (s(c[4]), s(c[5])));
    let blue = (s(c[6]), s(c[7]));
    encoder.set_source_chromaticities(SourceChromaticities { white, red, green, blue });
    let mut writer = encoder.write_header().unwrap();
    writer.write_image_data(pixels).unwrap();
    drop(writer);
    out
}

/// Source gamma written with encoded images: 1/2.2, scaled by 100000 and rounded down.
pub const SOURCE_GAMMA: u32 = 45454;

/// Source chromaticities written with encoded images (white point D65 and the sRGB
/// primaries), scaled by 100000: white, red, green, blue, each `x` then `y`.
pub open spec fn source_chromaticities() -> Seq<u32> {
    seq![31270u32, 32900, 64000, 33000, 30000, 60000, 15000, 6000]
}

/// The image a decoded PNG frame gives: its width and height, and the bytes of the
/// output buffer that the frame fills.
pub open spec fn decoded_bytes(d: (u32, u32, Seq<u8>, usize)) -> Seq<u8> {
    if d.3 <= d.2.len() {
        d.2.subrange(0, d.3 as int)
    } else {
        d.2
    }
}

impl ImageBuffer {
    /// Whether this image is the one a decoded PNG frame `d` gives.
    pub open spec fn is_decoded(&self, d: (u32, u32, Seq<u8>, usize)) -> bool {
        &&& self.width() == d.0
        &&& self.height() == d.1
        &&& self.bytes() == decoded_bytes(d)
    }

    /// Decodes a PNG stream into an image. The pixel bytes are the decoder's output, in
    /// whatever colour layout the stream has.
    pub fn from_bytes(png_bytes: &[u8]) -> (img: Self)
        requires
            png_decoded(png_bytes@) is Some,
        ensures
            img.is_decoded(png_decoded(png_bytes@).unwrap()),
    {
        match png_decode(png_bytes) {
            Some((w, h, data, used)) => Self::from_frame(w, h, data, used),
            None => {
                assert(false);
                ImageBuffer::new(0, 0)
            },
        }
    }

    /// Decodes a PNG stream into an image, or gives `None` when the stream cannot be
    /// decoded.
    pub fn try_from_bytes(png_bytes: &[u8]) -> (r: Option<Self>)
        ensures
            r is None <==> png_decoded(png_bytes@) is None,
            r matches Some(img) ==> img.is_decoded(png_decoded(png_bytes@).unwrap()),
    {
        match png_decode(png_bytes) {
            Some(_) => Some(Self::from_bytes(png_bytes)),
            None => None,
        }
    }

    /// The image of a decoded frame: the first `used` bytes of `data`.
    fn from_frame(w: u32, h: u32, data: Vec<u8>, used: usize) -> (img: Self)
        ensures
            img.is_decoded((w, h, data@, used)),
    {
        let mut data = data;
        data.truncate(used);
        ImageBuffer { w: w as usize, h: h as usize, data }
    }

    /// The image as an 8-bit RGBA PNG stream, tagged with source gamma 1/2.2 and the sRGB
    /// chromaticities.
    pub fn encode_png(&self) -> (out: Vec<u8>)
        requires
            0 < self.width() <= u32::MAX,
            0 < self.height() <= u32::MAX,
            self.bytes().len() == self.width() * self.height() * 4,
        ensures
            out@ == png_encoded(
                self.width() as u32,
                self.height() as u32,
                SOURCE_GAMMA,
                source_chromaticities(),
                self.bytes(),
            ),
            out@.len() >= 8,
            out@.subrange(0, 8) == png_signature(),
    {
        let chromaticities: [u32; 8] = [31270, 32900, 64000, 33000, 30000, 60000, 15000, 6000];
        assert(chromaticities@ =~= source_chromaticities());
        png_encode_rgba8(
            self.w as u32,
            self.h as u32,
            SOURCE_GAMMA,
            chromaticities,
            self.data.as_slice(),
        )
    }

    /// Width in pixels.
    pub fn width_px(&self) -> (w: usize)
        ensures
            w == self.width(),
    {
        self.w
    }

    /// The pixel bytes, row by row.
    pub fn as_bytes(&self) -> (b: &[u8])
        ensures
            b@ == self.bytes(),
    {
        self.data.as_slice()
    }

    /// Height in pixels.
    pub fn height_px(&self) -> (h: usize)
        ensures
            h == self.height(),
    {
        self.h
    }
}

/// Reading a pixel gives back the colour last written to it.
pub proof fn lemma_get_after_set(bytes: Seq<u8>, w: int, x: int, y: int, colour: Seq<u8>)
    requires
        0 <= pixel_offset(w, x, y),
        pixel_in(bytes, w, x, y),
        colour.len() == 4,
    ensures
        pixel(with_pixel(bytes, w, x, y, colour), w, x, y) == colour,
        with_pixel(bytes, w, x, y, colour).len() == bytes.len(),
{
    assert(pixel(with_pixel(bytes, w, x, y, colour), w, x, y) =~= colour);
}

/// Writing a pixel leaves every pixel whose bytes do not overlap it unchanged.
pub proof fn lemma_set_keeps_other_pixels(
    bytes: Seq<u8>,
    w: int,
    x: int,
    y: int,
    colour: Seq<u8>,
    x2: int,
    y2: int,
)
    requires
        0 <= pixel_offset(w, x, y),
        0 <= pixel_offset(w, x2, y2),
        pixel_in(bytes, w, x, y),
        pixel_in(bytes, w, x2, y2),
        colour.len() == 4,
        pixel_offset(w, x, y) + 4 <= pixel_offset(w, x2, y2) || pixel_offset(w, x2, y2) + 4
            <= pixel_offset(w, x, y),
    ensures
        pixel(with_pixel(bytes, w, x, y, colour), w, x2, y2) == pixel(bytes, w, x2, y2),
{
    assert(pixel(with_pixel(bytes, w, x, y, colour), w, x2, y2) =~= pixel(bytes, w, x2, y2));
}

} // verus!
