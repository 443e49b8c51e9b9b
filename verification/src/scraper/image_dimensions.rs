//! Width and height of a PNG or JPEG image read from its header bytes alone, without
//! decoding the image. Cover art proportions differ a lot between platforms, so the
//! library stores the real ones.

use vstd::prelude::*;
use crate::checksum::crc32_ieee;
use crate::video::png_encoder::{
    be32, chunk_spec, encodable, filtered_rows, ihdr_spec, lemma_zlib_stored_roundtrip, png_signature, png_spec,
    zlib_inflate, zlib_stored_spec,
};

verus! {

/// The big-endian 16-bit number at `data[at..at + 2]`.
pub open spec fn be16_at(data: Seq<u8>, at: int) -> u32 {
    ((data[at] as nat) * 256 + data[at + 1] as nat) as u32
}

/// The big-endian 32-bit number at `data[at..at + 4]`.
pub open spec fn be32_at(data: Seq<u8>, at: int) -> u32 {
    ((data[at] as nat) * 0x100_0000 + (data[at + 1] as nat) * 0x1_0000 + (data[at + 2] as nat) * 0x100
        + data[at + 3] as nat) as u32
}

/// PNG: the signature, then the IHDR chunk, which always comes first; its width and
/// height are the big-endian words at offsets 16 and 20.
pub open spec fn png_dimensions_spec(data: Seq<u8>) -> Option<(u32, u32)> {
    if data.len() < 24 || data.take(8) != png_signature() {
        None
    } else {
        Some((be32_at(data, 16), be32_at(data, 20)))
    }
}

/// Markers that stand alone, without a length field: TEM and RST0..RST7, SOI, EOI.
pub open spec fn is_standalone_marker(m: u8) -> bool {
    m == 0x01 || (0xD0 <= m && m <= 0xD9)
}

/// Start-of-frame markers, whose segment holds the image size.
pub open spec fn is_sof_marker(m: u8) -> bool {
    m == 0xC0 || m == 0xC1 || m == 0xC2 || m == 0xC3 || m == 0xC5 || m == 0xC6 || m == 0xC7 || m == 0xC9
        || m == 0xCA || m == 0xCB || m == 0xCD || m == 0xCE || m == 0xCF
}

/// The JPEG marker walk from `pos`: bytes other than `0xFF` are passed over one by one,
/// standalone markers two at a time, other segments by their length field, until a
/// start-of-frame segment gives height and width (big-endian at offsets 5 and 7 from the
/// marker). A segment cut short by the end of the data gives nothing.
pub open spec fn jpeg_walk(data: Seq<u8>, pos: int) -> Option<(u32, u32)>
    decreases data.len() - pos,
{
    if pos < 0 || pos + 1 >= data.len() {
        None
    } else if data[pos] != 0xFF {
        jpeg_walk(data, pos + 1)
    } else if is_standalone_marker(data[pos + 1]) {
        jpeg_walk(data, pos + 2)
    } else if pos + 4 > data.len() {
        None
    } else if is_sof_marker(data[pos + 1]) {
        if pos + 9 > data.len() {
            None
        } else {
            Some((be16_at(data, pos + 7), be16_at(data, pos + 5)))
        }
    } else {
        let next = pos + 2 + be16_at(data, pos + 2);
        if next >= data.len() { None } else { jpeg_walk(data, next) }
    }
}

/// JPEG: the SOI marker `FF D8`, then the marker walk.
pub open spec fn jpeg_dimensions_spec(data: Seq<u8>) -> Option<(u32, u32)> {
    if data.len() < 4 || data[0] != 0xFF || data[1] != 0xD8 { None } else { jpeg_walk(data, 2) }
}

/// PNG first, then JPEG.
pub open spec fn dimensions_spec(data: Seq<u8>) -> Option<(u32, u32)> {
    match png_dimensions_spec(data) {
        Some(d) => Some(d),
        None => jpeg_dimensions_spec(data),
    }
}

fn read_be16(data: &[u8], at: usize) -> (v: u32)
    requires
        at + 2 <= data.len(),
    ensures
        v == be16_at(data@, at as int),
{
    (data[at] as u32) * 256 + data[at + 1] as u32
}

fn read_be32(data: &[u8], at: usize) -> (v: u32)
    requires
        at + 4 <= data.len(),
    ensures
        v == be32_at(data@, at as int),
{
    let b0 = data[at] as u32;
    let b1 = data[at + 1] as u32;
    let b2 = data[at + 2] as u32;
    let b3 = data[at + 3] as u32;
    b0 * 0x100_0000 + b1 * 0x1_0000 + b2 * 0x100 + b3
}

/// The size of a PNG image (see [`png_dimensions_spec`]).
pub fn read_png_dimensions(data: &[u8]) -> (r: Option<(u32, u32)>)
    ensures
        r == png_dimensions_spec(data@),
{
    if data.len() < 24 {
        return None;
    }
    let signature = data[0] == 0x89 && data[1] == 0x50 && data[2] == 0x4E && data[3] == 0x47 && data[4]
        == 0x0D && data[5] == 0x0A && data[6] == 0x1A && data[7] == 0x0A;
    assert(signature <==> data@.take(8) == png_signature()) by {
        if data@.take(8) == png_signature() {
            assert(data@.take(8)[0] == 0x89 && data@.take(8)[1] == 0x50 && data@.take(8)[2] == 0x4E);
            assert(data@.take(8)[3] == 0x47 && data@.take(8)[4] == 0x0D && data@.take(8)[5] == 0x0A);
            assert(data@.take(8)[6] == 0x1A && data@.take(8)[7] == 0x0A);
        }
        if signature {
            assert(data@.take(8) =~= png_signature());
        }
    }
    if !signature {
        return None;
    }
    Some((read_be32(data, 16), read_be32(data, 20)))
}

/// The size of a JPEG image (see [`jpeg_dimensions_spec`]).
pub fn read_jpeg_dimensions(data: &[u8]) -> (r: Option<(u32, u32)>)
    ensures
        r == jpeg_dimensions_spec(data@),
{
    if data.len() < 4 || data[0] != 0xFF || data[1] != 0xD8 {
        return None;
    }
    let mut pos: usize = 2;
    while pos < data.len() - 1
        invariant
            data.len() >= 4,
            2 <= pos,
            pos <= data.len(),
            jpeg_dimensions_spec(data@) == jpeg_walk(data@, pos as int),
        decreases data.len() - pos,
    {
        if data[pos] != 0xFF {
            pos += 1;
            continue;
        }
        let marker = data[pos + 1];
        if marker == 0x01 || (0xD0 <= marker && marker <= 0xD9) {
            pos += 2;
            continue;
        }
        if pos > data.len() - 4 {
            return None;
        }
        let segment_len = read_be16(data, pos + 2);
        let is_sof = marker == 0xC0 || marker == 0xC1 || marker == 0xC2 || marker == 0xC3 || marker == 0xC5
            || marker == 0xC6 || marker == 0xC7 || marker == 0xC9 || marker == 0xCA || marker == 0xCB
            || marker == 0xCD || marker == 0xCE || marker == 0xCF;
        if is_sof {
            if data.len() < 9 || pos > data.len() - 9 {
                return None;
            }
            let height = read_be16(data, pos + 5);
            let width = read_be16(data, pos + 7);
            return Some((width, height));
        }
        if segment_len as usize >= data.len() - pos - 2 {
            return None;
        }
        pos = pos + 2 + segment_len as usize;
    }
    None
}

/// The size of a PNG or JPEG image (see [`dimensions_spec`]).
pub fn read_dimensions(data: &[u8]) -> (r: Option<(u32, u32)>)
    ensures
        r == dimensions_spec(data@),
{
    match read_png_dimensions(data) {
        Some(d) => Some(d),
        None => read_jpeg_dimensions(data),
    }
}

/// A JPEG whose first segment after SOI is a start-of-frame segment gives the size in
/// that segment (width at offset 7, height at offset 5 from the marker), for every
/// start-of-frame marker: baseline, extended, progressive and lossless (C0-C3), their
/// differential forms (C5-C7) and the arithmetic-coded ones (C9-CB, CD-CF). A
/// progressive JPEG (SOF2) is read like a baseline one.
pub proof fn lemma_every_frame_header_gives_the_size(m: u8, data: Seq<u8>)
    requires
        (0xC0 <= m <= 0xC3) || (0xC5 <= m <= 0xC7) || (0xC9 <= m <= 0xCB) || (0xCD <= m <= 0xCF),
        data.len() >= 11,
        data[0] == 0xFF,
        data[1] == 0xD8,
        data[2] == 0xFF,
        data[3] == m,
    ensures
        dimensions_spec(data) == Some((be16_at(data, 9), be16_at(data, 7))),
{
    assert(data.take(8)[0] != png_signature()[0]);
}

proof fn lemma_be32_roundtrip(v: u32, s: Seq<u8>, at: int)
    requires
        0 <= at,
        at + 4 <= s.len(),
        s.subrange(at, at + 4) == be32(v),
    ensures
        be32_at(s, at) == v,
{
    assert(s[at] == be32(v)[0]);
    assert(s[at + 1] == be32(v)[1]);
    assert(s[at + 2] == be32(v)[2]);
    assert(s[at + 3] == be32(v)[3]);
    let b0 = (v / 0x100_0000) as u8;
    let b1 = ((v / 0x1_0000) % 256) as u8;
    let b2 = ((v / 256) % 256) as u8;
    let b3 = (v % 256) as u8;
    assert((b0 as nat) * 0x100_0000 + (b1 as nat) * 0x1_0000 + (b2 as nat) * 0x100 + b3 as nat == v) by (nonlinear_arith)
        requires
            b0 == (v / 0x100_0000) as u8,
            b1 == ((v / 0x1_0000) % 256) as u8,
            b2 == ((v / 256) % 256) as u8,
            b3 == (v % 256) as u8,
    {
        assert(v / 0x100_0000 < 256);
    }
}

/// The size that [`read_dimensions`] reads from a PNG made by
/// [`crate::video::png_encoder::encode_rgba8`] is the size it was made with.
pub proof fn lemma_encoded_png_dimensions(width: u32, height: u32, rgba: Seq<u8>)
    ensures
        dimensions_spec(png_spec(width, height, rgba)) == Some((width, height)),
{
    let png = png_spec(width, height, rgba);
    let ihdr = crate::video::png_encoder::ihdr_spec(width, height);
    assert(png.take(8) =~= png_signature());
    assert(png.subrange(16, 20) =~= be32(width));
    assert(png.subrange(20, 24) =~= be32(height));
    lemma_be32_roundtrip(width, png, 16);
    lemma_be32_roundtrip(height, png, 20);
}

// ----- reading back a whole preview -----

/// Undoes the scanline filtering of `rows` rows of `row_bytes` bytes each, for the filter
/// this encoder uses: every row must start with filter type 0 (None), which is dropped.
/// Any other filter type, or a length that is not `rows` whole rows, is not read.
pub open spec fn unfilter_rows(raw: Seq<u8>, row_bytes: nat, rows: nat) -> Option<Seq<u8>>
    decreases rows,
{
    if rows == 0 {
        if raw.len() == 0 { Some(Seq::empty()) } else { None }
    } else {
        let stride = row_bytes + 1;
        if raw.len() != rows * stride {
            None
        } else {
            let last = raw.subrange((rows - 1) * stride, (rows * stride) as int);
            if last[0] != 0 {
                None
            } else {
                match unfilter_rows(raw.take((rows - 1) * stride), row_bytes, (rows - 1) as nat) {
                    Some(pixels) => Some(pixels + last.skip(1)),
                    None => None,
                }
            }
        }
    }
}

/// Decodes a PNG of the shape the preview encoder writes: the signature; an IHDR chunk
/// for 8-bit RGBA, no interlace, with a matching CRC; one IDAT chunk with a matching CRC
/// whose zlib stream holds stored blocks; an empty IEND chunk, and nothing after it.
/// The result is the width, the height and the RGBA pixels. Other PNGs (several IDAT
/// chunks, compressed blocks, other filters or colour types) are not read.
pub open spec fn png_decode(png: Seq<u8>) -> Option<(u32, u32, Seq<u8>)> {
    let l = be32_at(png, 33) as int;
    if png.len() < 45 || png.take(8) != png_signature() || be32_at(png, 8) != 13 || png.subrange(12, 16) != seq![
        0x49u8,
        0x48,
        0x44,
        0x52,
    ] || png.subrange(24, 29) != seq![8u8, 6, 0, 0, 0] || be32_at(png, 29) != crc32_ieee(png.subrange(12, 29))
        || png.subrange(37, 41) != seq![0x49u8, 0x44, 0x41, 0x54] || png.len() != 57 + l || be32_at(png, 41 + l)
        != crc32_ieee(png.subrange(37, 41 + l)) || png.subrange(45 + l, 57 + l) != chunk_spec(
        seq![0x49u8, 0x45, 0x4E, 0x44],
        Seq::empty(),
    ) {
        None
    } else {
        let width = be32_at(png, 16);
        let height = be32_at(png, 20);
        match zlib_inflate(png.subrange(41, 41 + l)) {
            Some(raw) => match unfilter_rows(raw, width as nat * 4, height as nat) {
                Some(pixels) => Some((width, height, pixels)),
                None => None,
            },
            None => None,
        }
    }
}

proof fn lemma_unfilter_filtered(rgba: Seq<u8>, row_bytes: nat, rows: nat)
    requires
        rows * row_bytes <= rgba.len(),
    ensures
        filtered_rows(rgba, row_bytes, rows).len() == rows * (row_bytes + 1),
        unfilter_rows(filtered_rows(rgba, row_bytes, rows), row_bytes, rows) == Some(rgba.take((rows * row_bytes) as int)),
    decreases rows,
{
    if rows > 0 {
        let r1 = (rows - 1) as nat;
        assert(r1 * row_bytes <= rows * row_bytes) by (nonlinear_arith)
            requires
                r1 + 1 == rows,
        ;
        assert(rows * row_bytes == r1 * row_bytes + row_bytes) by (nonlinear_arith)
            requires
                r1 + 1 == rows,
        ;
        assert(rows * (row_bytes + 1) == r1 * (row_bytes + 1) + row_bytes + 1) by (nonlinear_arith)
            requires
                r1 + 1 == rows,
        ;
        lemma_unfilter_filtered(rgba, row_bytes, r1);
        let prev = filtered_rows(rgba, row_bytes, r1);
        let row = rgba.subrange((r1 * row_bytes) as int, (rows * row_bytes) as int);
        let f = filtered_rows(rgba, row_bytes, rows);
        assert(f == prev + seq![0u8] + row);
        let stride = row_bytes + 1;
        assert((r1 * stride) as int == (rows - 1) * stride) by (nonlinear_arith)
            requires
                r1 + 1 == rows,
        ;
        assert(f.subrange((r1 * stride) as int, (rows * stride) as int) =~= seq![0u8] + row);
        assert(f.take((r1 * stride) as int) =~= prev);
        assert((seq![0u8] + row).skip(1) =~= row);
        assert(rgba.take((r1 * row_bytes) as int) + row =~= rgba.take((rows * row_bytes) as int));
        assert(f.subrange((rows - 1) * stride, (rows * stride) as int)[0] == 0);
        assert(unfilter_rows(f, row_bytes, rows) == Some(rgba.take((r1 * row_bytes) as int) + row));
    } else {
        assert(rows * row_bytes == 0) by (nonlinear_arith)
            requires
                rows == 0,
        ;
        assert(rgba.take(0) =~= Seq::<u8>::empty());
    }
}

/// A preview read back through [`png_decode`] gives exactly the frame it was made from,
/// with its width and height, for every frame [`crate::video::png_encoder::encode_rgba8`]
/// accepts whose compressed data fits the 32-bit chunk length of PNG.
pub proof fn lemma_encoded_png_decodes(width: u32, height: u32, rgba: Seq<u8>)
    requires
        encodable(width, height, rgba.len()),
        zlib_stored_spec(filtered_rows(rgba, width as nat * 4, height as nat)).len() <= u32::MAX,
    ensures
        png_decode(png_spec(width, height, rgba)) == Some((width, height, rgba)),
{
    let f = filtered_rows(rgba, width as nat * 4, height as nat);
    let z = zlib_stored_spec(f);
    let l = z.len() as int;
    let ihdr_kind = seq![0x49u8, 0x48, 0x44, 0x52];
    let idat_kind = seq![0x49u8, 0x44, 0x41, 0x54];
    let iend_kind = seq![0x49u8, 0x45, 0x4E, 0x44];
    let a = png_signature();
    let b = chunk_spec(ihdr_kind, ihdr_spec(width, height));
    let c = chunk_spec(idat_kind, z);
    let d = chunk_spec(iend_kind, Seq::empty());
    let png = png_spec(width, height, rgba);
    assert(png == a + b + c + d);
    assert(b.len() == 25);
    assert(c.len() == l + 12);
    assert(d.len() == 12);
    assert(png.len() == 57 + l);
    assert(png.take(8) =~= a);
    assert(png.subrange(8, 12) =~= be32(13));
    lemma_be32_roundtrip(13, png, 8);
    assert(png.subrange(12, 16) =~= ihdr_kind);
    assert(png.subrange(16, 20) =~= be32(width));
    lemma_be32_roundtrip(width, png, 16);
    assert(png.subrange(20, 24) =~= be32(height));
    lemma_be32_roundtrip(height, png, 20);
    assert(png.subrange(24, 29) =~= seq![8u8, 6, 0, 0, 0]);
    assert(png.subrange(12, 29) =~= ihdr_kind + ihdr_spec(width, height));
    assert(png.subrange(29, 33) =~= be32(crc32_ieee(ihdr_kind + ihdr_spec(width, height))));
    lemma_be32_roundtrip(crc32_ieee(ihdr_kind + ihdr_spec(width, height)), png, 29);
    assert(png.subrange(33, 37) =~= be32(l as u32));
    lemma_be32_roundtrip(l as u32, png, 33);
    assert(png.subrange(37, 41) =~= idat_kind);
    assert(png.subrange(41, 41 + l) =~= z);
    assert(png.subrange(37, 41 + l) =~= idat_kind + z);
    assert(png.subrange(41 + l, 45 + l) =~= be32(crc32_ieee(idat_kind + z)));
    lemma_be32_roundtrip(crc32_ieee(idat_kind + z), png, 41 + l);
    assert(png.subrange(45 + l, 57 + l) =~= d);
    lemma_zlib_stored_roundtrip(f);
    assert(height as nat * (width as nat * 4) == width * height * 4) by (nonlinear_arith);
    lemma_unfilter_filtered(rgba, width as nat * 4, height as nat);
    assert(rgba.take(rgba.len() as int) =~= rgba);
}

} // verus!
