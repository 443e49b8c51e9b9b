//! Pixel format conversion to RGBA8.
//!
//! The core hands over `pitch` in **bytes**, not pixels: rows may carry padding, so each
//! row starts at `y * pitch`, never at `y * width * bpp`. All three formats are native
//! endian, which is little endian on every supported platform.

use vstd::prelude::*;

verus! {

/// The source pixel format a core announces through `RETRO_ENVIRONMENT_SET_PIXEL_FORMAT`.
#[derive(Debug, Clone, Copy, PartialEq, Eq, Structural)]
pub enum PixelFormat {
    /// `0RGB1555` — 15 bits, most significant bit unused.
    Rgb0555,
    /// `XRGB8888` — 32 bits, the most significant byte (X) ignored.
    Xrgb8888,
    /// `RGB565` — 16 bits, libretro's recommended format.
    Rgb565,
}

/// Bytes per pixel of a source format.
pub open spec fn bpp(format: PixelFormat) -> nat {
    match format {
        PixelFormat::Rgb0555 => 2,
        PixelFormat::Xrgb8888 => 4,
        PixelFormat::Rgb565 => 2,
    }
}

impl PixelFormat {
    /// Bytes per pixel in the source format.
    pub fn bytes_per_pixel(self) -> (n: usize)
        ensures
            n == bpp(self),
    {
        match self {
            PixelFormat::Rgb0555 => 2,
            PixelFormat::Xrgb8888 => 4,
            PixelFormat::Rgb565 => 2,
        }
    }
}

/// 5-bit to 8-bit by bit replication: `(v << 3) | (v >> 2)`, so 31 becomes exactly 255.
pub open spec fn scale5_spec(v: nat) -> u8 {
    (v * 8 + v / 4) as u8
}

/// 6-bit to 8-bit by bit replication: `(v << 2) | (v >> 4)`.
pub open spec fn scale6_spec(v: nat) -> u8 {
    (v * 4 + v / 16) as u8
}

/// The little-endian 16-bit value of the first two bytes.
pub open spec fn le16(px: Seq<u8>) -> nat {
    px[0] as nat + px[1] as nat * 256
}

/// An `RGB565` pixel as RGBA8.
pub open spec fn rgb565_spec(px: Seq<u8>) -> Seq<u8> {
    let v = le16(px);
    seq![scale5_spec(v / 2048), scale6_spec((v / 32) % 64), scale5_spec(v % 32), 255u8]
}

/// A `0RGB1555` pixel as RGBA8 (the top bit is ignored).
pub open spec fn rgb0555_spec(px: Seq<u8>) -> Seq<u8> {
    let v = le16(px);
    seq![scale5_spec((v / 1024) % 32), scale5_spec((v / 32) % 32), scale5_spec(v % 32), 255u8]
}

/// An `XRGB8888` pixel as RGBA8: in memory the bytes are `[B, G, R, X]`.
pub open spec fn xrgb8888_spec(px: Seq<u8>) -> Seq<u8> {
    seq![px[2], px[1], px[0], 255u8]
}

/// One source pixel (its `bpp` bytes) as RGBA8.
pub open spec fn pixel_spec(format: PixelFormat, px: Seq<u8>) -> Seq<u8> {
    match format {
        PixelFormat::Rgb565 => rgb565_spec(px),
        PixelFormat::Rgb0555 => rgb0555_spec(px),
        PixelFormat::Xrgb8888 => xrgb8888_spec(px),
    }
}

/// The source bytes of pixel `(x, y)`.
pub open spec fn source_pixel(src: Seq<u8>, format: PixelFormat, pitch: nat, x: int, y: int) -> Seq<u8> {
    let start = y * pitch + x * bpp(format);
    src.subrange(start, start + bpp(format))
}

/// Byte `k` of the RGBA8 conversion at destination index `i` of a `width`-wide frame.
pub open spec fn converted_byte(src: Seq<u8>, format: PixelFormat, width: nat, pitch: nat, i: int) -> u8 {
    let p = i / 4;
    let x = p % (width as int);
    let y = p / (width as int);
    pixel_spec(format, source_pixel(src, format, pitch, x, y))[i % 4]
}

/// Whether every row the conversion reads lies inside `src` and all offsets fit in `usize`.
pub open spec fn frame_fits(src_len: nat, format: PixelFormat, width: nat, height: nat, pitch: nat) -> bool {
    &&& width * height * 4 <= usize::MAX
    &&& height > 0 ==> (height - 1) * pitch + width * bpp(format) <= src_len
}

fn scale5(v: u16) -> (r: u8)
    requires
        v < 32,
    ensures
        r == scale5_spec(v as nat),
{
    (v * 8 + v / 4) as u8
}

fn scale6(v: u16) -> (r: u8)
    requires
        v < 64,
    ensures
        r == scale6_spec(v as nat),
{
    (v * 4 + v / 16) as u8
}

fn rgb565_to_rgba8(px: &[u8], at: usize) -> (r: [u8; 4])
    requires
        at + 2 <= px.len(),
    ensures
        r@ == rgb565_spec(px@.subrange(at as int, at + 2)),
{
    let value: u16 = px[at] as u16 + px[at + 1] as u16 * 256;
    let r5 = value / 2048;
    let g6 = (value / 32) % 64;
    let b5 = value % 32;
    let r = [scale5(r5), scale6(g6), scale5(b5), 255];
    assert(r@ =~= rgb565_spec(px@.subrange(at as int, at + 2)));
    r
}

fn rgb0555_to_rgba8(px: &[u8], at: usize) -> (r: [u8; 4])
    requires
        at + 2 <= px.len(),
    ensures
        r@ == rgb0555_spec(px@.subrange(at as int, at + 2)),
{
    let value: u16 = px[at] as u16 + px[at + 1] as u16 * 256;
    let r5 = (value / 1024) % 32;
    let g5 = (value / 32) % 32;
    let b5 = value % 32;
    let r = [scale5(r5), scale5(g5), scale5(b5), 255];
    assert(r@ =~= rgb0555_spec(px@.subrange(at as int, at + 2)));
    r
}

fn xrgb8888_to_rgba8(px: &[u8], at: usize) -> (r: [u8; 4])
    requires
        at + 4 <= px.len(),
    ensures
        r@ == xrgb8888_spec(px@.subrange(at as int, at + 4)),
{
    let r = [px[at + 2], px[at + 1], px[at], 255];
    assert(r@ =~= xrgb8888_spec(px@.subrange(at as int, at + 4)));
    r
}


/// Where destination byte `(p * 4 + k)` of pixel `p = y * width + x` comes from.
proof fn lemma_dst_index(width: int, y: int, x: int, k: int)
    requires
        0 <= x < width,
        0 <= y,
        0 <= k < 4,
    ensures
        ((y * width + x) * 4 + k) / 4 == y * width + x,
        ((y * width + x) * 4 + k) % 4 == k,
        (y * width + x) % width == x,
        (y * width + x) / width == y,
{
    vstd::arithmetic::div_mod::lemma_fundamental_div_mod_converse((y * width + x) * 4 + k, 4, y * width + x, k);
    vstd::arithmetic::div_mod::lemma_fundamental_div_mod_converse(y * width + x, width, y, x);
}

/// Row `y` starts inside the frame's source span.
proof fn lemma_row_in_bounds(src_len: int, b: int, width: int, height: int, pitch: int, y: int)
    requires
        0 <= y < height,
        0 <= pitch,
        0 <= width,
        b > 0,
        (height - 1) * pitch + width * b <= src_len,
    ensures
        0 <= y * pitch <= src_len,
{
    assert(y * pitch <= (height - 1) * pitch) by (nonlinear_arith)
        requires 0 <= y <= height - 1, 0 <= pitch;
    assert(0 <= y * pitch) by (nonlinear_arith)
        requires 0 <= y, 0 <= pitch;
    assert(0 <= width * b) by (nonlinear_arith)
        requires 0 <= width, b > 0;
}

/// Source offsets of pixel `(x, y)` stay inside `src`.
proof fn lemma_source_in_bounds(src_len: int, b: int, width: int, height: int, pitch: int, x: int, y: int)
    requires
        0 <= x < width,
        0 <= y < height,
        0 <= pitch,
        b > 0,
        (height - 1) * pitch + width * b <= src_len,
    ensures
        y * pitch + x * b + b <= src_len,
        0 <= y * pitch,
        y * pitch <= (height - 1) * pitch,
        x * b + b <= width * b,
{
    assert(y * pitch <= (height - 1) * pitch) by (nonlinear_arith)
        requires 0 <= y <= height - 1, 0 <= pitch;
    assert(x * b + b <= width * b) by (nonlinear_arith)
        requires 0 <= x < width, b > 0;
    assert(0 <= y * pitch) by (nonlinear_arith)
        requires 0 <= y, 0 <= pitch;
}

proof fn lemma_frame_bounds(width: int, height: int, y: int, x: int)
    requires
        0 <= x <= width,
        0 <= y < height,
        width * height * 4 <= usize::MAX,
    ensures
        (y * width + x) * 4 <= width * height * 4,
        x < width ==> (y * width + x) * 4 + 4 <= width * height * 4,
        y * width + width == (y + 1) * width,
{
    assert((y * width + x) * 4 <= width * height * 4) by (nonlinear_arith)
        requires 0 <= x <= width, 0 <= y < height;
    assert(x < width ==> (y * width + x) * 4 + 4 <= width * height * 4) by (nonlinear_arith)
        requires 0 <= x <= width, 0 <= y < height;
    assert(y * width + width == (y + 1) * width) by (nonlinear_arith);
}

/// Writes the RGBA8 conversion of a `width` × `height` frame into `dst`.
fn convert_rows(src: &[u8], format: PixelFormat, width: usize, height: usize, pitch: usize, dst: &mut [u8])
    requires
        frame_fits(src@.len(), format, width as nat, height as nat, pitch as nat),
        old(dst)@.len() >= width * height * 4,
    ensures
        final(dst)@.len() == old(dst)@.len(),
        forall|i: int| 0 <= i < width * height * 4 ==> #[trigger] final(dst)@[i] == converted_byte(src@, format, width as nat, pitch as nat, i),
        forall|i: int| width * height * 4 <= i < old(dst)@.len() ==> #[trigger] final(dst)@[i] == old(dst)@[i],
{
    let step = format.bytes_per_pixel();
    let src_len = src.len();
    let ghost total = width * height * 4;
    let mut y: usize = 0;
    while y < height
        invariant
            y <= height,
            src_len == src@.len(),
            step == bpp(format),
            total == width * height * 4,
            frame_fits(src@.len(), format, width as nat, height as nat, pitch as nat),
            dst@.len() == old(dst)@.len(),
            old(dst)@.len() >= total,
            forall|i: int| 0 <= i < y * width * 4 ==> #[trigger] dst@[i] == converted_byte(src@, format, width as nat, pitch as nat, i),
            forall|i: int| total <= i < old(dst)@.len() ==> #[trigger] dst@[i] == old(dst)@[i],
        decreases height - y,
    {
        proof {
            lemma_row_in_bounds(src@.len() as int, step as int, width as int, height as int, pitch as int, y as int);
        }
        let row_start = y * pitch;
        let mut x: usize = 0;
        while x < width
            invariant
                y < height,
                x <= width,
                src_len == src@.len(),
                step == bpp(format),
                row_start == y * pitch,
                total == width * height * 4,
                frame_fits(src@.len(), format, width as nat, height as nat, pitch as nat),
                dst@.len() == old(dst)@.len(),
                old(dst)@.len() >= total,
                forall|i: int| 0 <= i < (y * width + x) * 4 ==> #[trigger] dst@[i] == converted_byte(src@, format, width as nat, pitch as nat, i),
                forall|i: int| total <= i < old(dst)@.len() ==> #[trigger] dst@[i] == old(dst)@[i],
            decreases width - x,
        {
            proof {
                lemma_source_in_bounds(src@.len() as int, step as int, width as int, height as int, pitch as int, x as int, y as int);
                lemma_frame_bounds(width as int, height as int, y as int, x as int);
            }
            assert(x * step + step <= width * step);
            assert(row_start + x * step + step <= src@.len());
            let at = row_start + x * step;
            let px: [u8; 4] = match format {
                PixelFormat::Rgb565 => rgb565_to_rgba8(src, at),
                PixelFormat::Xrgb8888 => xrgb8888_to_rgba8(src, at),
                PixelFormat::Rgb0555 => rgb0555_to_rgba8(src, at),
            };
            let base = (y * width + x) * 4;
            let ghost before = dst@;
            dst[base] = px[0];
            dst[base + 1] = px[1];
            dst[base + 2] = px[2];
            dst[base + 3] = px[3];
            proof {
                assert forall|k: int| 0 <= k < 4 implies #[trigger] dst@[base + k] == converted_byte(src@, format, width as nat, pitch as nat, base + k) by {
                    lemma_dst_index(width as int, y as int, x as int, k);
                    assert(source_pixel(src@, format, pitch as nat, x as int, y as int) == src@.subrange(at as int, at + step));
                }
                assert forall|i: int| 0 <= i < (y * width + x + 1) * 4 implies #[trigger] dst@[i] == converted_byte(src@, format, width as nat, pitch as nat, i) by {
                    if i >= base {
                        assert(dst@[base + (i - base)] == converted_byte(src@, format, width as nat, pitch as nat, base + (i - base)));
                    } else {
                        assert(dst@[i] == before[i]);
                    }
                }
            }
            x += 1;
        }
        proof {
            lemma_frame_bounds(width as int, height as int, y as int, width as int);
        }
        y += 1;
    }
    assert(height * width * 4 == width * height * 4) by (nonlinear_arith);
}

/// Converts one frame into `dst`, which must hold at least `width * height * 4` bytes;
/// only that prefix is written. Byte `i` of the prefix is byte `i % 4` of the RGBA8 form
/// of pixel `(i / 4) % width` of row `(i / 4) / width`, whose source bytes start at
/// `row * pitch + column * bytes_per_pixel` — rows are `pitch` bytes apart.
pub fn convert_to_rgba8_into(src: &[u8], format: PixelFormat, width: u32, height: u32, pitch: usize, dst: &mut [u8])
    requires
        frame_fits(src@.len(), format, width as nat, height as nat, pitch as nat),
        old(dst)@.len() >= width * height * 4,
    ensures
        final(dst)@.len() == old(dst)@.len(),
        forall|i: int| 0 <= i < width * height * 4 ==> #[trigger] final(dst)@[i] == converted_byte(src@, format, width as nat, pitch as nat, i),
        forall|i: int| width * height * 4 <= i < old(dst)@.len() ==> #[trigger] final(dst)@[i] == old(dst)@[i],
{
    convert_rows(src, format, width as usize, height as usize, pitch, dst);
}

/// Converts one frame into a newly allocated RGBA8 buffer of `width * height * 4` bytes.
pub fn convert_to_rgba8(src: &[u8], format: PixelFormat, width: u32, height: u32, pitch: usize) -> (dst: Vec<u8>)
    requires
        frame_fits(src@.len(), format, width as nat, height as nat, pitch as nat),
    ensures
        dst@.len() == width * height * 4,
        forall|i: int| 0 <= i < dst@.len() ==> #[trigger] dst@[i] == converted_byte(src@, format, width as nat, pitch as nat, i),
{
    let n = width as usize * height as usize * 4;
    let mut dst: Vec<u8> = vec![0u8; n];
    convert_to_rgba8_into(src, format, width, height, pitch, dst.as_mut_slice());
    dst
}

} // verus!
