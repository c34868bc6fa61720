//! Converting a core's framebuffer into RGBA8 for display.
//!
//! Two traps live here:
//!
//! 1. **`pitch` is bytes per row and is not `width * bpp`.** Gambatte delivers
//!    160 pixels of 2-byte colour — 320 bytes — in rows of 512. Treating the
//!    buffer as packed shears the image diagonally.
//! 2. **Frame size comes from the video callback, not from `av_info`.** Stella
//!    advertises a 320×228 geometry and then hands over 160×228 frames.
//!
//! `convert` is stated pixel by pixel in `converted`: output pixel `(x, y)` is
//! decoded from the bytes at `y * pitch + x * bpp` and nowhere else, so row
//! padding can never reach the picture (`lemma_row_padding_is_ignored`).

use vstd::prelude::*;
use vstd::arithmetic::div_mod::lemma_fundamental_div_mod_converse;
use vstd::arithmetic::mul::{lemma_mul_inequality, lemma_mul_is_distributive_add};

use super::sys;

verus! {

/// Colour layout the core chose via `SET_PIXEL_FORMAT`.
#[derive(Debug, Clone, Copy, PartialEq, Eq, Structural)]
pub enum PixelFormat {
    /// The format a core gets if it never sets one. Five bits per channel in
    /// the low 15 bits of a 16-bit little-endian word.
    Rgb1555,
    /// 32-bit, blue in the low byte, top byte ignored. Used by FCEUmm and
    /// Stella.
    Xrgb8888,
    /// 16-bit 5-6-5. The common case: Gambatte, mGBA, Snes9x, Genesis Plus GX
    /// and ProSystem all pick it.
    Rgb565,
}

impl Default for PixelFormat {
    /// A core that never calls `SET_PIXEL_FORMAT` gets 0RGB1555.
    fn default() -> (f: Self)
        ensures
            f == PixelFormat::Rgb1555,
    {
        PixelFormat::Rgb1555
    }
}

/// The format a raw libretro value names, if it names one.
pub open spec fn format_of_raw(raw: u32) -> Option<PixelFormat> {
    if raw == sys::RETRO_PIXEL_FORMAT_0RGB1555 {
        Some(PixelFormat::Rgb1555)
    } else if raw == sys::RETRO_PIXEL_FORMAT_XRGB8888 {
        Some(PixelFormat::Xrgb8888)
    } else if raw == sys::RETRO_PIXEL_FORMAT_RGB565 {
        Some(PixelFormat::Rgb565)
    } else {
        None
    }
}

/// The raw libretro value of a format.
pub open spec fn raw_of_format(f: PixelFormat) -> u32 {
    match f {
        PixelFormat::Rgb1555 => sys::RETRO_PIXEL_FORMAT_0RGB1555,
        PixelFormat::Xrgb8888 => sys::RETRO_PIXEL_FORMAT_XRGB8888,
        PixelFormat::Rgb565 => sys::RETRO_PIXEL_FORMAT_RGB565,
    }
}

/// Bytes per pixel in the source buffer.
pub open spec fn bpp(f: PixelFormat) -> nat {
    match f {
        PixelFormat::Rgb1555 | PixelFormat::Rgb565 => 2,
        PixelFormat::Xrgb8888 => 4,
    }
}

pub open spec fn format_name(f: PixelFormat) -> Seq<char> {
    match f {
        PixelFormat::Rgb1555 => "0RGB1555"@,
        PixelFormat::Xrgb8888 => "XRGB8888"@,
        PixelFormat::Rgb565 => "RGB565"@,
    }
}

impl PixelFormat {
    pub fn from_raw(raw: u32) -> (f: Option<Self>)
        ensures
            f == format_of_raw(raw),
    {
        if raw == sys::RETRO_PIXEL_FORMAT_0RGB1555 {
            Some(PixelFormat::Rgb1555)
        } else if raw == sys::RETRO_PIXEL_FORMAT_XRGB8888 {
            Some(PixelFormat::Xrgb8888)
        } else if raw == sys::RETRO_PIXEL_FORMAT_RGB565 {
            Some(PixelFormat::Rgb565)
        } else {
            None
        }
    }

    /// Bytes per pixel in the *source* buffer.
    pub fn bytes_per_pixel(self) -> (n: usize)
        ensures
            n == bpp(self),
    {
        match self {
            PixelFormat::Rgb1555 | PixelFormat::Rgb565 => 2,
            PixelFormat::Xrgb8888 => 4,
        }
    }

    /// The libretro name, as shown in the diagnostics report.
    pub fn name(self) -> (s: &'static str)
        ensures
            s@ == format_name(self),
    {
        proof {
            reveal_strlit("0RGB1555");
            reveal_strlit("XRGB8888");
            reveal_strlit("RGB565");
        }
        match self {
            PixelFormat::Rgb1555 => "0RGB1555",
            PixelFormat::Xrgb8888 => "XRGB8888",
            PixelFormat::Rgb565 => "RGB565",
        }
    }
}

/// Every raw value a format reports maps back to that format.
pub proof fn lemma_pixel_format_raw_round_trip(f: PixelFormat)
    ensures
        format_of_raw(raw_of_format(f)) == Some(f),
{
}

/// A converted frame, ready to become a texture.
#[derive(Debug, Clone, PartialEq, Eq)]
pub struct Frame {
    pub width: usize,
    pub height: usize,
    /// Tightly packed RGBA, four bytes per pixel, `width * height * 4` long.
    pub rgba: Vec<u8>,
}

/// No pixel has any colour: every complete four-byte group has zero red,
/// green and blue. (Alpha is not looked at.)
pub open spec fn all_black(rgba: Seq<u8>) -> bool {
    forall|p: int|
        0 <= p < rgba.len() / 4 ==> #[trigger] rgba[4 * p] == 0 && rgba[4 * p + 1] == 0 && rgba[4
            * p + 2] == 0
}

impl Frame {
    /// Black from edge to edge. Used to catch the "core loaded but renders
    /// nothing" case, which otherwise looks exactly like success.
    pub fn is_blank(&self) -> (b: bool)
        ensures
            b == all_black(self.rgba@),
    {
        let len = self.rgba.len();
        let n = len / 4;
        let mut p: usize = 0;
        while p < n
            invariant
                p <= n,
                n == self.rgba@.len() / 4,
                len == self.rgba@.len(),
                forall|q: int|
                    0 <= q < p ==> #[trigger] self.rgba@[4 * q] == 0 && self.rgba@[4 * q + 1] == 0
                        && self.rgba@[4 * q + 2] == 0,
            decreases n - p,
        {
            assert(4 * p + 3 < self.rgba@.len()) by (nonlinear_arith)
                requires
                    p < n,
                    n == self.rgba@.len() / 4,
            ;
            let at = 4 * p;
            if self.rgba[at] != 0 || self.rgba[at + 1] != 0 || self.rgba[at + 2] != 0 {
                assert(0 <= p < self.rgba@.len() / 4);
                return false;
            }
            p += 1;
        }
        true
    }
}

/// Expand 5 bits to 8 by replicating the high bits into the low ones.
///
/// The naive `v << 3` never reaches 255, so white comes out as 248 and a whole
/// image is imperceptibly dark. Replication maps 31 to exactly 255.
pub open spec fn expand5_spec(v: u8) -> u8 {
    (v << 3u8) | (v >> 2u8)
}

pub open spec fn expand6_spec(v: u8) -> u8 {
    (v << 2u8) | (v >> 4u8)
}

fn expand5(v: u8) -> (r: u8)
    ensures
        r == expand5_spec(v),
{
    (v << 3u8) | (v >> 2u8)
}

fn expand6(v: u8) -> (r: u8)
    ensures
        r == expand6_spec(v),
{
    (v << 2u8) | (v >> 4u8)
}

/// Full-scale channels come out at full brightness and zero stays zero.
pub proof fn lemma_expansion_reaches_the_ends()
    ensures
        expand5_spec(31) == 255,
        expand6_spec(63) == 255,
        expand5_spec(0) == 0,
        expand6_spec(0) == 0,
{
    assert(((31u8 << 3u8) | (31u8 >> 2u8)) == 255u8) by (bit_vector);
    assert(((63u8 << 2u8) | (63u8 >> 4u8)) == 255u8) by (bit_vector);
    assert(((0u8 << 3u8) | (0u8 >> 2u8)) == 0u8) by (bit_vector);
    assert(((0u8 << 2u8) | (0u8 >> 4u8)) == 0u8) by (bit_vector);
}

/// The little-endian 16-bit word at `at`.
pub open spec fn word(src: Seq<u8>, at: int) -> u16 {
    (src[at] as u16) | ((src[at + 1] as u16) << 8u16)
}

/// Channel `c` (0 red, 1 green, 2 blue, 3 alpha) of the source pixel whose
/// first byte is at `at`.
pub open spec fn channel(f: PixelFormat, src: Seq<u8>, at: int, c: int) -> u8 {
    if c == 3 {
        255
    } else {
        match f {
            PixelFormat::Xrgb8888 => {
                // Little-endian XRGB: byte 0 is blue, byte 3 is the ignored X.
                if c == 0 {
                    src[at + 2]
                } else if c == 1 {
                    src[at + 1]
                } else {
                    src[at]
                }
            },
            PixelFormat::Rgb565 => {
                let v = word(src, at);
                if c == 0 {
                    expand5_spec(((v >> 11u16) & 0x1fu16) as u8)
                } else if c == 1 {
                    expand6_spec(((v >> 5u16) & 0x3fu16) as u8)
                } else {
                    expand5_spec((v & 0x1fu16) as u8)
                }
            },
            PixelFormat::Rgb1555 => {
                let v = word(src, at);
                if c == 0 {
                    expand5_spec(((v >> 10u16) & 0x1fu16) as u8)
                } else if c == 1 {
                    expand5_spec(((v >> 5u16) & 0x1fu16) as u8)
                } else {
                    expand5_spec((v & 0x1fu16) as u8)
                }
            },
        }
    }
}

/// Where output byte `i` of a `width`-wide frame is read from: its pixel's
/// row times the pitch, plus its column times the bytes per pixel.
pub open spec fn source_offset(i: int, width: int, pitch: int, bytes: int) -> int {
    let p = i / 4;
    (p / width) * pitch + (p % width) * bytes
}

/// The packed RGBA frame that `convert` produces.
pub open spec fn converted(
    src: Seq<u8>,
    width: int,
    height: int,
    pitch: int,
    f: PixelFormat,
) -> Seq<u8> {
    Seq::new(
        (width * height * 4) as nat,
        |i: int| channel(f, src, source_offset(i, width, pitch, bpp(f) as int), i % 4),
    )
}

/// Bytes the source buffer must hold: every row but the last at full pitch,
/// and the last only as far as its final pixel.
pub open spec fn required_len(width: int, height: int, pitch: int, f: PixelFormat) -> int {
    pitch * (height - 1) + width * bpp(f)
}

/// The geometry `convert` accepts: a non-empty frame whose rows hold their
/// pixels, whose source buffer holds every row, and whose RGBA output can be
/// addressed at all.
pub open spec fn geometry_ok(src_len: int, width: int, height: int, pitch: int, f: PixelFormat) -> bool {
    &&& width > 0
    &&& height > 0
    &&& pitch >= width * bpp(f)
    &&& src_len >= required_len(width, height, pitch, f)
    &&& width * height * 4 <= usize::MAX
}

proof fn lemma_pixel_index(y: int, x: int, k: int, w: int)
    requires
        0 <= x < w,
        0 <= y,
        0 <= k < 4,
    ensures
        ((y * w + x) * 4 + k) / 4 == y * w + x,
        ((y * w + x) * 4 + k) % 4 == k,
        (y * w + x) / w == y,
        (y * w + x) % w == x,
{
    lemma_fundamental_div_mod_converse((y * w + x) * 4 + k, 4, y * w + x, k);
    lemma_fundamental_div_mod_converse(y * w + x, w, y, x);
}

proof fn lemma_pixel_in_bounds(y: int, x: int, w: int, h: int, pitch: int, b: int)
    requires
        0 <= x < w,
        0 <= y < h,
        b > 0,
        pitch >= w * b,
    ensures
        y * pitch + x * b + b <= pitch * (h - 1) + w * b,
        (y * w + x) * 4 + 4 <= w * h * 4,
        y * pitch + x * b >= 0,
{
    lemma_mul_inequality(y, h - 1, pitch);
    lemma_mul_inequality(x + 1, w, b);
    lemma_mul_is_distributive_add(b, x, 1);
    lemma_mul_inequality(y, h - 1, w);
    assert(y * w + x + 1 <= (h - 1) * w + w);
    assert((h - 1) * w + w == w * h) by (nonlinear_arith);
    assert(w * h * 4 == (w * h) * 4) by (nonlinear_arith);
    assert(0 <= y * pitch) by (nonlinear_arith)
        requires
            y >= 0,
            pitch >= 0,
    ;
    assert(0 <= x * b) by (nonlinear_arith)
        requires
            x >= 0,
            b >= 0,
    ;
}

/// Decode one source pixel into red, green and blue.
fn decode(src: &[u8], at: usize, f: PixelFormat) -> (rgb: (u8, u8, u8))
    requires
        at + bpp(f) <= src@.len(),
    ensures
        rgb.0 == channel(f, src@, at as int, 0),
        rgb.1 == channel(f, src@, at as int, 1),
        rgb.2 == channel(f, src@, at as int, 2),
{
    match f {
        PixelFormat::Rgb565 => {
            let v: u16 = (src[at] as u16) | ((src[at + 1] as u16) << 8u16);
            (
                expand5(((v >> 11u16) & 0x1fu16) as u8),
                expand6(((v >> 5u16) & 0x3fu16) as u8),
                expand5((v & 0x1fu16) as u8),
            )
        },
        PixelFormat::Rgb1555 => {
            let v: u16 = (src[at] as u16) | ((src[at + 1] as u16) << 8u16);
            (
                expand5(((v >> 10u16) & 0x1fu16) as u8),
                expand5(((v >> 5u16) & 0x1fu16) as u8),
                expand5((v & 0x1fu16) as u8),
            )
        },
        PixelFormat::Xrgb8888 => {
            let len = src.len();
            assert(at + 4 <= len);
            (src[at + 2], src[at + 1], src[at])
        },
    }
}

/// Convert one frame from a core's buffer into packed RGBA.
///
/// `pitch` is bytes per row as libretro reports it. Returns `None` if the
/// geometry is empty, the pitch is narrower than a row of pixels, the source
/// buffer is too small for the stated geometry, or the frame is too large to
/// address — a core that lies about its dimensions produces a missing frame,
/// not an out-of-bounds read or an overflow.
pub fn convert(
    src: &[u8],
    width: usize,
    height: usize,
    pitch: usize,
    format: PixelFormat,
) -> (out: Option<Frame>)
    ensures
        out is Some <==> geometry_ok(src@.len() as int, width as int, height as int, pitch as int, format),
        out matches Some(f) ==> {
            &&& f.width == width
            &&& f.height == height
            &&& f.rgba@ == converted(src@, width as int, height as int, pitch as int, format)
        },
{
    let src_len = src.len();
    if width == 0 || height == 0 {
        return None;
    }
    let b = format.bytes_per_pixel();
    let row_bytes = match width.checked_mul(b) {
        Some(v) => v,
        None => return None,
    };
    if pitch < row_bytes {
        return None;
    }
    // The final row only needs `width * bpp` bytes, not a full pitch — cores
    // are entitled to end the buffer there and several do.
    let rows = match pitch.checked_mul(height - 1) {
        Some(v) => v,
        None => {
            proof {
                assert(0 <= width * b) by (nonlinear_arith)
                    requires
                        width >= 0,
                        b >= 0,
                ;
            }
            return None;
        },
    };
    let required = match rows.checked_add(row_bytes) {
        Some(v) => v,
        None => return None,
    };
    if src_len < required {
        return None;
    }
    let area = match width.checked_mul(height) {
        Some(v) => v,
        None => {
            proof {
                assert(width * height * 4 > usize::MAX) by (nonlinear_arith)
                    requires
                        width * height > usize::MAX,
                ;
            }
            return None;
        },
    };
    match area.checked_mul(4) {
        Some(_) => {},
        None => return None,
    }
    assert(width * height * 4 <= usize::MAX) by (nonlinear_arith)
        requires
            area == width * height,
            area * 4 <= usize::MAX,
    ;

    let ghost conv = converted(src@, width as int, height as int, pitch as int, format);
    let mut rgba: Vec<u8> = Vec::new();
    let mut y: usize = 0;
    while y < height
        invariant
            y <= height,
            b == bpp(format),
            row_bytes == width * b,
            pitch >= row_bytes,
            required == pitch * (height - 1) + row_bytes,
            src@.len() >= required,
            width > 0,
            height > 0,
            width * height * 4 <= usize::MAX,
            conv == converted(src@, width as int, height as int, pitch as int, format),
            rgba@.len() == y * width * 4,
            rgba@ == conv.take(rgba@.len() as int),
        decreases height - y,
    {
        let mut x: usize = 0;
        while x < width
            invariant
                y < height,
                x <= width,
                b == bpp(format),
                row_bytes == width * b,
                pitch >= row_bytes,
                required == pitch * (height - 1) + row_bytes,
                src@.len() >= required,
                width > 0,
                height > 0,
                width * height * 4 <= usize::MAX,
                conv == converted(src@, width as int, height as int, pitch as int, format),
                rgba@.len() == (y * width + x) * 4,
                rgba@ == conv.take(rgba@.len() as int),
            decreases width - x,
        {
            proof {
                lemma_pixel_in_bounds(
                    y as int,
                    x as int,
                    width as int,
                    height as int,
                    pitch as int,
                    b as int,
                );
            }
            let at = y * pitch + x * b;
            let (r, g, bl) = decode(src, at, format);
            let ghost base = (y * width + x) * 4;
            proof {
                assert forall|k: int| 0 <= k < 4 implies #[trigger] conv[base + k] == channel(
                    format,
                    src@,
                    at as int,
                    k,
                ) by {
                    lemma_pixel_index(y as int, x as int, k, width as int);
                }
            }
            rgba.push(r);
            assert(conv.take(base + 1) == conv.take(base).push(conv[base]));
            rgba.push(g);
            assert(conv.take(base + 2) == conv.take(base + 1).push(conv[base + 1]));
            rgba.push(bl);
            assert(conv.take(base + 3) == conv.take(base + 2).push(conv[base + 2]));
            rgba.push(255);
            assert(conv.take(base + 4) == conv.take(base + 3).push(conv[base + 3]));
            proof {
                assert((y * width + (x + 1)) * 4 == base + 4) by (nonlinear_arith)
                    requires
                        base == (y * width + x) * 4,
                ;
            }
            x += 1;
        }
        proof {
            assert((y * width + width) * 4 == (y + 1) * width * 4) by (nonlinear_arith);
        }
        y += 1;
    }
    proof {
        assert(conv.len() == width * height * 4) by (nonlinear_arith)
            requires
                conv.len() == (width * height * 4) as nat,
                width * height * 4 >= 0,
        ;
        assert(rgba@.len() == conv.len()) by (nonlinear_arith)
            requires
                rgba@.len() == height * width * 4,
                conv.len() == width * height * 4,
        ;
        assert(conv.take(conv.len() as int) == conv);
    }
    Some(Frame { width, height, rgba })
}

/// Row padding never reaches the picture: two source buffers of the same
/// length that agree on every pixel byte are accepted or refused alike, and
/// when accepted convert to the same frame, whatever their padding holds.
pub proof fn lemma_row_padding_is_ignored(
    a: Seq<u8>,
    b: Seq<u8>,
    width: int,
    height: int,
    pitch: int,
    f: PixelFormat,
)
    requires
        a.len() == b.len(),
        forall|y: int, k: int|
            0 <= y < height && 0 <= k < width * bpp(f) ==> #[trigger] a[y * pitch + k] == #[trigger] b[y
                * pitch + k],
    ensures
        geometry_ok(a.len() as int, width, height, pitch, f) == geometry_ok(
            b.len() as int,
            width,
            height,
            pitch,
            f,
        ),
        geometry_ok(a.len() as int, width, height, pitch, f) ==> converted(a, width, height, pitch, f)
            == converted(b, width, height, pitch, f),
{
    if geometry_ok(a.len() as int, width, height, pitch, f) {
        let ca = converted(a, width, height, pitch, f);
        let cb = converted(b, width, height, pitch, f);
        let n = bpp(f) as int;
        assert forall|i: int| 0 <= i < ca.len() implies ca[i] == cb[i] by {
            let p = i / 4;
            let y = p / width;
            let x = p % width;
            assert(0 <= i / 4);
            assert(0 <= x < width);
            assert(p < width * height) by (nonlinear_arith)
                requires
                    0 <= i < width * height * 4,
                    p == i / 4,
            ;
            assert(0 <= y < height) by (nonlinear_arith)
                requires
                    0 <= p < width * height,
                    y == p / width,
                    width > 0,
            ;
            assert(x * n + n <= width * n) by (nonlinear_arith)
                requires
                    x < width,
                    n > 0,
            ;
            assert(0 <= x * n) by (nonlinear_arith)
                requires
                    x >= 0,
                    n > 0,
            ;
            let at = y * pitch + x * n;
            assert forall|d: int| 0 <= d < n implies #[trigger] a[at + d] == b[at + d] by {
                assert(a[y * pitch + (x * n + d)] == b[y * pitch + (x * n + d)]);
            }
            if f is Xrgb8888 {
                assert(a[at + 2] == b[at + 2]);
                assert(a[at + 1] == b[at + 1]);
                assert(a[at + 0] == b[at + 0]);
            } else {
                assert(a[at + 1] == b[at + 1]);
                assert(a[at + 0] == b[at + 0]);
            }
        }
        assert(ca =~= cb);
    }
}

/// Five bits scaled to eight by copying the top bits into the bottom: 0 stays
/// 0 and 31 becomes 255.
proof fn lemma_scale5(x: u8)
    requires
        x < 32,
    ensures
        expand5_spec(x) == x * 8 + x / 4,
{
    assert(x < 32 ==> ((x << 3u8) | (x >> 2u8)) == x * 8 + x / 4) by (bit_vector);
}

/// Six bits scaled to eight the same way: 63 becomes 255.
proof fn lemma_scale6(x: u8)
    requires
        x < 64,
    ensures
        expand6_spec(x) == x * 4 + x / 16,
{
    assert(x < 64 ==> ((x << 2u8) | (x >> 4u8)) == x * 4 + x / 16) by (bit_vector);
}

/// The little-endian word of two bytes, and its bit fields, as numbers.
proof fn lemma_word_fields(lo: u8, hi: u8)
    ensures
        ({
            let w = (lo as u16) | ((hi as u16) << 8u16);
            let v = lo as int + 256 * hi as int;
            &&& w as int == v
            &&& (((w >> 11u16) & 0x1fu16) as u8) as int == (v / 2048) % 32
            &&& (((w >> 10u16) & 0x1fu16) as u8) as int == (v / 1024) % 32
            &&& (((w >> 5u16) & 0x3fu16) as u8) as int == (v / 32) % 64
            &&& (((w >> 5u16) & 0x1fu16) as u8) as int == (v / 32) % 32
            &&& ((w & 0x1fu16) as u8) as int == v % 32
        }),
{
    let w = (lo as u16) | ((hi as u16) << 8u16);
    assert(w == (lo as u16) + (hi as u16) * 256) by (bit_vector)
        requires
            w == (lo as u16) | ((hi as u16) << 8u16),
    ;
    assert((((w >> 11u16) & 0x1fu16) as u8) == ((w / 2048) % 32) as u8 && (w / 2048) % 32 < 32) by (bit_vector);
    assert((((w >> 10u16) & 0x1fu16) as u8) == ((w / 1024) % 32) as u8 && (w / 1024) % 32 < 32) by (bit_vector);
    assert((((w >> 5u16) & 0x3fu16) as u8) == ((w / 32) % 64) as u8 && (w / 32) % 64 < 64) by (bit_vector);
    assert((((w >> 5u16) & 0x1fu16) as u8) == ((w / 32) % 32) as u8 && (w / 32) % 32 < 32) by (bit_vector);
    assert(((w & 0x1fu16) as u8) == (w % 32) as u8 && w % 32 < 32) by (bit_vector);
}

/// Every pixel is decoded by its format, wherever it sits in the frame. The
/// output pixel at column `x`, row `y` comes from the source pixel at byte
/// `y * pitch + x * (bytes per pixel)`, is opaque, and:
/// - XRGB8888 (little-endian, so bytes B, G, R, X): red is the third byte,
///   green the second, blue the first;
/// - RGB565 (a little-endian 16-bit word): red is bits 11–15, green bits
///   5–10, blue bits 0–4;
/// - 0RGB1555 (a little-endian 16-bit word, top bit unused): red is bits
///   10–14, green bits 5–9, blue bits 0–4;
/// each field scaled to eight bits by copying its top bits into the bottom.
pub proof fn lemma_pixels_decode_by_their_format(
    src: Seq<u8>,
    width: int,
    height: int,
    pitch: int,
    f: PixelFormat,
    x: int,
    y: int,
)
    requires
        geometry_ok(src.len() as int, width, height, pitch, f),
        0 <= x < width,
        0 <= y < height,
    ensures
        ({
            let out = converted(src, width, height, pitch, f);
            let o = (y * width + x) * 4;
            let n: int = if f == PixelFormat::Xrgb8888 { 4 } else { 2 };
            let at = y * pitch + x * n;
            let v = src[at] as int + 256 * src[at + 1] as int;
            let (r5, g6, g5, b5) = ((v / 2048) % 32, (v / 32) % 64, (v / 32) % 32, v % 32);
            let r15 = (v / 1024) % 32;
            &&& out.len() == width * height * 4
            &&& out[o + 3] == 255
            &&& (f == PixelFormat::Xrgb8888 ==> out[o] == src[at + 2] && out[o + 1] == src[at + 1]
                && out[o + 2] == src[at])
            &&& (f == PixelFormat::Rgb565 ==> out[o] == r5 * 8 + r5 / 4 && out[o + 1] == g6 * 4 + g6
                / 16 && out[o + 2] == b5 * 8 + b5 / 4)
            &&& (f == PixelFormat::Rgb1555 ==> out[o] == r15 * 8 + r15 / 4 && out[o + 1] == g5 * 8
                + g5 / 4 && out[o + 2] == b5 * 8 + b5 / 4)
        }),
{
    let out = converted(src, width, height, pitch, f);
    let o = (y * width + x) * 4;
    let b = bpp(f) as int;
    let at = y * pitch + x * b;
    lemma_pixel_in_bounds(y, x, width, height, pitch, b);
    assert forall|k: int| 0 <= k < 4 implies #[trigger] out[o + k] == channel(f, src, at, k) by {
        lemma_pixel_index(y, x, k, width);
    }
    assert(out[o + 0] == channel(f, src, at, 0));
    assert(o + 0 == o);
    assert(out[o] == channel(f, src, at, 0));
    assert(out.len() == width * height * 4) by (nonlinear_arith)
        requires
            out.len() == (width * height * 4) as nat,
            width > 0,
            height > 0,
    ;
    if f != PixelFormat::Xrgb8888 {
        let lo = src[at];
        let hi = src[at + 1];
        lemma_word_fields(lo, hi);
        let w = word(src, at);
        let v = lo as int + 256 * hi as int;
        lemma_scale5(((w >> 11u16) & 0x1fu16) as u8);
        lemma_scale5(((w >> 10u16) & 0x1fu16) as u8);
        lemma_scale5(((w >> 5u16) & 0x1fu16) as u8);
        lemma_scale5((w & 0x1fu16) as u8);
        lemma_scale6(((w >> 5u16) & 0x3fu16) as u8);
    }
}

/// The unused top bit of a 0RGB1555 pixel never changes its colour: setting
/// it in the high byte leaves every channel as it was.
pub proof fn lemma_rgb1555_ignores_the_top_bit(a: Seq<u8>, at: int)
    requires
        0 <= at,
        at + 1 < a.len(),
    ensures
        forall|c: int|
            0 <= c < 4 ==> #[trigger] channel(PixelFormat::Rgb1555, a, at, c) == channel(
                PixelFormat::Rgb1555,
                a.update(at + 1, a[at + 1] | 0x80u8),
                at,
                c,
            ),
{
    let b = a.update(at + 1, a[at + 1] | 0x80u8);
    let lo = a[at];
    let hi = a[at + 1];
    assert(b[at] == lo);
    assert(b[at + 1] == hi | 0x80u8);
    assert(((((lo as u16) | ((hi as u16) << 8u16)) >> 10u16) & 0x1fu16) == (((((lo as u16) | (((hi
        | 0x80u8) as u16) << 8u16))) >> 10u16) & 0x1fu16)) by (bit_vector);
    assert(((((lo as u16) | ((hi as u16) << 8u16)) >> 5u16) & 0x1fu16) == (((((lo as u16) | (((hi
        | 0x80u8) as u16) << 8u16))) >> 5u16) & 0x1fu16)) by (bit_vector);
    assert((((lo as u16) | ((hi as u16) << 8u16)) & 0x1fu16) == ((((lo as u16) | (((hi | 0x80u8)
        as u16) << 8u16))) & 0x1fu16)) by (bit_vector);
}

} // verus!
