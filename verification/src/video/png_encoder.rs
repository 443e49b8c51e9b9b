//! A minimal PNG encoder for save-state previews: an RGBA8 frame becomes PNG bytes using
//! DEFLATE "stored" (uncompressed) blocks, so the output is larger than a compressed PNG
//! but needs no compressor. Chunk checksums come from `crc32fast`.

use vstd::prelude::*;
use crate::checksum::{crc32, crc32_ieee};

verus! {

/// The 8-byte PNG file signature.
pub open spec fn png_signature() -> Seq<u8> {
    seq![0x89u8, 0x50, 0x4E, 0x47, 0x0D, 0x0A, 0x1A, 0x0A]
}

/// The largest DEFLATE stored block (its LEN field is 16 bits).
pub const MAX_STORED_BLOCK: usize = 65535;

/// `v` as four big-endian bytes.
pub open spec fn be32(v: u32) -> Seq<u8> {
    seq![(v / 0x100_0000) as u8, ((v / 0x1_0000) % 256) as u8, ((v / 256) % 256) as u8, (v % 256) as u8]
}

/// `v` as two little-endian bytes.
pub open spec fn le16_bytes(v: u16) -> Seq<u8> {
    seq![(v % 256) as u8, (v / 256) as u8]
}

/// The 13 bytes of an IHDR chunk: width, height, bit depth 8, colour type 6 (RGBA),
/// compression 0, filter 0, no interlace.
pub open spec fn ihdr_spec(width: u32, height: u32) -> Seq<u8> {
    be32(width) + be32(height) + seq![8u8, 6, 0, 0, 0]
}

/// A PNG chunk: length, type, data, and the CRC of type and data.
pub open spec fn chunk_spec(kind: Seq<u8>, data: Seq<u8>) -> Seq<u8> {
    be32(data.len() as u32) + kind + data + be32(crc32_ieee(kind + data))
}

/// The first `rows` scanlines, each prefixed with filter type 0 (None).
pub open spec fn filtered_rows(rgba: Seq<u8>, row_bytes: nat, rows: nat) -> Seq<u8>
    decreases rows,
{
    if rows == 0 {
        Seq::empty()
    } else {
        filtered_rows(rgba, row_bytes, (rows - 1) as nat) + seq![0u8]
            + rgba.subrange((rows - 1) * row_bytes, (rows * row_bytes) as int)
    }
}

/// The DEFLATE stored blocks holding `data` (non-empty), at most 65535 bytes each; the
/// last one carries BFINAL.
pub open spec fn stored_blocks(data: Seq<u8>) -> Seq<u8>
    decreases data.len(),
{
    if data.len() <= MAX_STORED_BLOCK {
        seq![1u8] + le16_bytes(data.len() as u16) + le16_bytes((0xFFFF - data.len()) as u16) + data
    } else {
        seq![0u8] + le16_bytes(0xFFFF) + le16_bytes(0) + data.take(MAX_STORED_BLOCK as int)
            + stored_blocks(data.skip(MAX_STORED_BLOCK as int))
    }
}

/// The Adler-32 running sums `(a, b)` of `data` (RFC 1950).
pub open spec fn adler_sums(data: Seq<u8>) -> (nat, nat)
    decreases data.len(),
{
    if data.len() == 0 {
        (1, 0)
    } else {
        let (a, b) = adler_sums(data.drop_last());
        let a2 = ((a + data.last()) % 65521) as nat;
        (a2, ((b + a2) % 65521) as nat)
    }
}

/// Adler-32 of `data`: `(b << 16) | a`.
pub open spec fn adler32_spec(data: Seq<u8>) -> u32 {
    (adler_sums(data).1 * 65536 + adler_sums(data).0) as u32
}

/// A zlib stream (RFC 1950) of stored blocks: header `78 01`, the blocks (one empty final
/// block for empty data), and the Adler-32 trailer.
pub open spec fn zlib_stored_spec(data: Seq<u8>) -> Seq<u8> {
    let blocks = if data.len() == 0 { seq![1u8, 0, 0, 0xFF, 0xFF] } else { stored_blocks(data) };
    seq![0x78u8, 0x01] + blocks + be32(adler32_spec(data))
}

/// The PNG file for a `width` × `height` RGBA8 frame.
pub open spec fn png_spec(width: u32, height: u32, rgba: Seq<u8>) -> Seq<u8> {
    png_signature()
        + chunk_spec(seq![0x49u8, 0x48, 0x44, 0x52], ihdr_spec(width, height))
        + chunk_spec(seq![0x49u8, 0x44, 0x41, 0x54], zlib_stored_spec(filtered_rows(rgba, width as nat * 4, height as nat)))
        + chunk_spec(seq![0x49u8, 0x45, 0x4E, 0x44], Seq::empty())
}

fn push_be32(out: &mut Vec<u8>, v: u32)
    ensures
        final(out)@ == old(out)@ + be32(v),
{
    out.push((v / 0x100_0000) as u8);
    out.push(((v / 0x1_0000) % 256) as u8);
    out.push(((v / 256) % 256) as u8);
    out.push((v % 256) as u8);
    assert(final(out)@ =~= old(out)@ + be32(v));
}

fn push_le16(out: &mut Vec<u8>, v: u16)
    ensures
        final(out)@ == old(out)@ + le16_bytes(v),
{
    out.push((v % 256) as u8);
    out.push((v / 256) as u8);
    assert(final(out)@ =~= old(out)@ + le16_bytes(v));
}

/// Appends `data[from..to]`.
fn extend_range(out: &mut Vec<u8>, data: &[u8], from: usize, to: usize)
    requires
        from <= to <= data@.len(),
    ensures
        final(out)@ == old(out)@ + data@.subrange(from as int, to as int),
{
    let mut i = from;
    while i < to
        invariant
            from <= i <= to <= data@.len(),
            out@ == old(out)@ + data@.subrange(from as int, i as int),
        decreases to - i,
    {
        out.push(data[i]);
        assert(old(out)@ + data@.subrange(from as int, i + 1) =~= (old(out)@ + data@.subrange(from as int, i as int)).push(data@[i as int]));
        i += 1;
    }
}

fn ihdr_data(width: u32, height: u32) -> (data: Vec<u8>)
    ensures
        data@ == ihdr_spec(width, height),
{
    let mut data: Vec<u8> = Vec::new();
    push_be32(&mut data, width);
    push_be32(&mut data, height);
    data.push(8);
    data.push(6);
    data.push(0);
    data.push(0);
    data.push(0);
    assert(data@ =~= ihdr_spec(width, height));
    data
}

proof fn lemma_row_range(row: int, rows: int, row_bytes: int)
    requires
        0 <= row < rows,
        0 <= row_bytes,
    ensures
        0 <= row * row_bytes,
        row * row_bytes + row_bytes == (row + 1) * row_bytes,
        (row + 1) * row_bytes <= rows * row_bytes,
{
    assert(0 <= row * row_bytes) by (nonlinear_arith) requires 0 <= row, 0 <= row_bytes;
    assert(row * row_bytes + row_bytes == (row + 1) * row_bytes) by (nonlinear_arith);
    assert((row + 1) * row_bytes <= rows * row_bytes) by (nonlinear_arith) requires row + 1 <= rows, 0 <= row_bytes;
}

/// Every scanline gets a filter-type byte of 0 (None) in front of it.
fn filtered_scanlines(width: u32, height: u32, rgba: &[u8]) -> (out: Vec<u8>)
    requires
        rgba@.len() == width * height * 4,
        height > 0,
    ensures
        out@ == filtered_rows(rgba@, width as nat * 4, height as nat),
{
    let total = rgba.len();
    assert(width * 4 <= width * height * 4) by (nonlinear_arith) requires height > 0;
    let row_bytes = width as usize * 4;
    let mut out: Vec<u8> = Vec::new();
    let mut row: usize = 0;
    assert(height * (width * 4) == width * height * 4) by (nonlinear_arith);
    while row < height as usize
        invariant
            row <= height,
            row_bytes == width * 4,
            rgba@.len() == height * row_bytes,
            total == rgba@.len(),
            out@ == filtered_rows(rgba@, row_bytes as nat, row as nat),
        decreases height - row,
    {
        proof { lemma_row_range(row as int, height as int, row_bytes as int); }
        out.push(0);
        extend_range(&mut out, rgba, row * row_bytes, (row + 1) * row_bytes);
        row += 1;
    }
    out
}

/// The Adler-32 checksum (RFC 1950), the zlib stream trailer.
pub fn adler32(data: &[u8]) -> (r: u32)
    ensures
        r == adler32_spec(data@),
{
    let mut a: u32 = 1;
    let mut b: u32 = 0;
    let mut i: usize = 0;
    while i < data.len()
        invariant
            i <= data@.len(),
            (a as nat, b as nat) == adler_sums(data@.take(i as int)),
            a < 65521,
            b < 65521,
        decreases data.len() - i,
    {
        assert(data@.take(i + 1).drop_last() =~= data@.take(i as int));
        a = (a + data[i] as u32) % 65521;
        b = (b + a) % 65521;
        i += 1;
    }
    assert(data@.take(data.len() as int) =~= data@);
    proof {
        assert((b as nat) * 65536 + (a as nat) < 0x1_0000_0000);
    }
    b * 65536 + a
}

/// Appends the stored blocks of `data[offset..]` (non-empty).
fn push_stored_blocks(out: &mut Vec<u8>, data: &[u8], offset: usize)
    requires
        offset < data@.len(),
    ensures
        final(out)@ == old(out)@ + stored_blocks(data@.skip(offset as int)),
    decreases data@.len() - offset,
{
    let remaining = data.len() - offset;
    if remaining <= MAX_STORED_BLOCK {
        out.push(1);
        let len = remaining as u16;
        push_le16(out, len);
        push_le16(out, 0xFFFF - len);
        extend_range(out, data, offset, data.len());
        assert(data@.subrange(offset as int, data@.len() as int) =~= data@.skip(offset as int));
    } else {
        out.push(0);
        push_le16(out, 0xFFFF);
        push_le16(out, 0);
        extend_range(out, data, offset, offset + MAX_STORED_BLOCK);
        let ghost mid = final(out)@;
        push_stored_blocks(out, data, offset + MAX_STORED_BLOCK);
        assert(data@.skip(offset as int).take(MAX_STORED_BLOCK as int) =~= data@.subrange(offset as int, offset + MAX_STORED_BLOCK));
        assert(data@.skip(offset as int).skip(MAX_STORED_BLOCK as int) =~= data@.skip(offset + MAX_STORED_BLOCK));
    }
    assert(final(out)@ =~= old(out)@ + stored_blocks(data@.skip(offset as int)));
}

/// A zlib stream (RFC 1950) of DEFLATE stored blocks (RFC 1951).
fn zlib_stored(data: &[u8]) -> (out: Vec<u8>)
    ensures
        out@ == zlib_stored_spec(data@),
{
    let mut out: Vec<u8> = Vec::new();
    out.push(0x78);
    out.push(0x01);
    if data.len() == 0 {
        out.push(0x01);
        push_le16(&mut out, 0);
        push_le16(&mut out, 0xFFFF);
    } else {
        push_stored_blocks(&mut out, data, 0);
        assert(data@.skip(0) =~= data@);
    }
    push_be32(&mut out, adler32(data));
    assert(out@ =~= zlib_stored_spec(data@));
    out
}

/// Appends one chunk: length, type, data, CRC of type and data.
fn write_chunk(out: &mut Vec<u8>, kind: [u8; 4], data: &[u8])
    ensures
        final(out)@ == old(out)@ + chunk_spec(kind@, data@),
{
    #[verifier::truncate]
    let len32 = data.len() as u32;
    push_be32(out, len32);
    let start = out.len();
    out.push(kind[0]);
    out.push(kind[1]);
    out.push(kind[2]);
    out.push(kind[3]);
    extend_range(out, data, 0, data.len());
    let crc = crc32(&out.as_slice()[start..out.len()]);
    assert(out@.subrange(start as int, out@.len() as int) =~= kind@ + data@);
    push_be32(out, crc);
    assert(data@.subrange(0, data@.len() as int) =~= data@);
    assert(final(out)@ =~= old(out)@ + chunk_spec(kind@, data@));
}


/// Whether [`encode_rgba8`] accepts a frame: non-zero dimensions and exactly
/// `width * height * 4` bytes.
pub open spec fn encodable(width: u32, height: u32, rgba_len: nat) -> bool {
    width != 0 && height != 0 && rgba_len == width * height * 4
}

/// Encodes an RGBA8 frame (`width * height * 4` bytes, rows without padding) as PNG
/// file bytes. `None` when a dimension is zero or the buffer length does not match —
/// the caller then simply skips the preview.
pub fn encode_rgba8(width: u32, height: u32, rgba: &[u8]) -> (png: Option<Vec<u8>>)
    requires
        width == 0 || height == 0 || width * height * 4 <= usize::MAX,
    ensures
        png is Some <==> encodable(width, height, rgba@.len()),
        png matches Some(bytes) ==> bytes@ == png_spec(width, height, rgba@),
{
    if width == 0 || height == 0 {
        return None;
    }
    let expected_len = width as usize * height as usize * 4;
    if rgba.len() != expected_len {
        return None;
    }
    let mut out: Vec<u8> = Vec::new();
    out.push(0x89);
    out.push(0x50);
    out.push(0x4E);
    out.push(0x47);
    out.push(0x0D);
    out.push(0x0A);
    out.push(0x1A);
    out.push(0x0A);
    assert(out@ =~= png_signature());
    let ihdr = ihdr_data(width, height);
    write_chunk(&mut out, [0x49, 0x48, 0x44, 0x52], ihdr.as_slice());
    let scanlines = filtered_scanlines(width, height, rgba);
    let idat = zlib_stored(scanlines.as_slice());
    write_chunk(&mut out, [0x49, 0x44, 0x41, 0x54], idat.as_slice());
    let iend: Vec<u8> = Vec::new();
    write_chunk(&mut out, [0x49, 0x45, 0x4E, 0x44], iend.as_slice());
    proof {
        let a: [u8; 4] = [0x49, 0x48, 0x44, 0x52];
        let b: [u8; 4] = [0x49, 0x44, 0x41, 0x54];
        let c: [u8; 4] = [0x49, 0x45, 0x4E, 0x44];
        assert(a@ =~= seq![0x49u8, 0x48, 0x44, 0x52]);
        assert(b@ =~= seq![0x49u8, 0x44, 0x41, 0x54]);
        assert(c@ =~= seq![0x49u8, 0x45, 0x4E, 0x44]);
        assert(iend@ =~= Seq::<u8>::empty());
    }
    Some(out)
}


/// Inflates a run of DEFLATE stored blocks (the only block type this encoder emits):
/// each block is a header byte (BFINAL in bit 0, BTYPE 00), LEN and its one's
/// complement NLEN (little endian), then LEN bytes. Returns the payload and the bytes
/// after the final block.
pub open spec fn inflate_stored(bytes: Seq<u8>) -> Option<(Seq<u8>, Seq<u8>)>
    decreases bytes.len(),
{
    if bytes.len() < 5 || bytes[0] > 1 {
        None
    } else {
        let len = bytes[1] as nat + bytes[2] as nat * 256;
        let nlen = bytes[3] as nat + bytes[4] as nat * 256;
        if len + nlen != 0xFFFF || bytes.len() < 5 + len {
            None
        } else {
            let payload = bytes.subrange(5, (5 + len) as int);
            let rest = bytes.subrange((5 + len) as int, bytes.len() as int);
            if bytes[0] == 1 {
                Some((payload, rest))
            } else {
                match inflate_stored(rest) {
                    Some((more, tail)) => Some((payload + more, tail)),
                    None => None,
                }
            }
        }
    }
}

/// Decodes a zlib stream of stored blocks: a header naming DEFLATE whose check bits
/// make `CMF * 256 + FLG` a multiple of 31, the blocks, and a matching Adler-32 trailer.
pub open spec fn zlib_inflate(z: Seq<u8>) -> Option<Seq<u8>> {
    if z.len() < 2 || z[0] % 16 != 8 || (z[0] as nat * 256 + z[1] as nat) % 31 != 0 {
        None
    } else {
        match inflate_stored(z.skip(2)) {
            Some((data, trailer)) => if trailer == be32(adler32_spec(data)) { Some(data) } else { None },
            None => None,
        }
    }
}

proof fn lemma_inflate_blocks(data: Seq<u8>, tail: Seq<u8>)
    requires
        data.len() > 0,
    ensures
        inflate_stored(stored_blocks(data) + tail) == Some((data, tail)),
    decreases data.len(),
{
    let bytes = stored_blocks(data) + tail;
    if data.len() <= MAX_STORED_BLOCK {
        let len = data.len();
        assert(bytes[0] == 1);
        assert(bytes[1] as nat + bytes[2] as nat * 256 == len);
        assert(bytes[3] as nat + bytes[4] as nat * 256 == 0xFFFF - len);
        assert(bytes.subrange(5, 5 + len as int) =~= data);
        assert(bytes.subrange(5 + len as int, bytes.len() as int) =~= tail);
    } else {
        let rest_data = data.skip(MAX_STORED_BLOCK as int);
        lemma_inflate_blocks(rest_data, tail);
        assert(bytes[0] == 0);
        assert(bytes[1] as nat + bytes[2] as nat * 256 == 0xFFFF);
        assert(bytes[3] as nat + bytes[4] as nat * 256 == 0);
        assert(bytes.subrange(5, 5 + 0xFFFFint) =~= data.take(MAX_STORED_BLOCK as int));
        assert(bytes.subrange(5 + 0xFFFFint, bytes.len() as int) =~= stored_blocks(rest_data) + tail);
        assert(data.take(MAX_STORED_BLOCK as int) + rest_data =~= data);
    }
}

/// Inflating the zlib stream of stored blocks gives back exactly the data that went in,
/// for every input, including the empty one.
pub proof fn lemma_zlib_stored_roundtrip(data: Seq<u8>)
    ensures
        zlib_inflate(zlib_stored_spec(data)) == Some(data),
{
    let z = zlib_stored_spec(data);
    let trailer = be32(adler32_spec(data));
    assert(z[0] == 0x78 && z[1] == 0x01);
    if data.len() == 0 {
        let body = z.skip(2);
        assert(body =~= seq![1u8, 0, 0, 0xFF, 0xFF] + trailer);
        assert(body.subrange(5, 5) =~= data);
        assert(body.subrange(5, body.len() as int) =~= trailer);
    } else {
        lemma_inflate_blocks(data, trailer);
        assert(z.skip(2) =~= stored_blocks(data) + trailer);
    }
}

} // verus!
