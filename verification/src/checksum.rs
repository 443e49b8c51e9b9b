//! Checksums and digests from outside crates: CRC-32 (`crc32fast`), MD5 (`md-5`) and
//! SHA-1 (`sha1`), with their lower- and upper-case hexadecimal spellings.

use vstd::prelude::*;
use md5::Digest;

verus! {

/// The reflected CRC-32 polynomial of IEEE 802.3.
pub open spec fn crc32_poly() -> u32 {
    0xEDB8_8320
}

/// `k` shifts of the reflected CRC register, each folding in the polynomial when the bit
/// shifted out is set.
pub open spec fn crc_shifts(c: u32, k: nat) -> u32
    decreases k,
{
    if k == 0 {
        c
    } else {
        let c1 = crc_shifts(c, (k - 1) as nat);
        if c1 & 1 == 1 { (c1 >> 1u32) ^ crc32_poly() } else { c1 >> 1u32 }
    }
}

/// The CRC register after `data`, starting from all ones: each byte is xored into the low
/// bits and shifted through eight times.
pub open spec fn crc_register(data: Seq<u8>) -> u32
    decreases data.len(),
{
    if data.len() == 0 {
        0xFFFF_FFFF
    } else {
        crc_shifts(crc_register(data.drop_last()) ^ (data.last() as u32), 8)
    }
}

/// The CRC-32 (IEEE 802.3, as in zlib and PNG) of a byte sequence: the final register with
/// all bits inverted.
pub open spec fn crc32_ieee(data: Seq<u8>) -> u32 {
    crc_register(data) ^ 0xFFFF_FFFF
}

/// The MD5 digest of a byte sequence, as `md-5` computes it.
pub uninterp spec fn md5_of(data: Seq<u8>) -> Seq<u8>;

/// The SHA-1 digest of a byte sequence, as `sha1` computes it.
pub uninterp spec fn sha1_of(data: Seq<u8>) -> Seq<u8>;

/// `crc32fast::hash`: the CRC-32 (IEEE) of the bytes, [`crc32_ieee`].
#[verifier::external_body]
pub(crate) fn crc32(data: &[u8]) -> (r: u32)
    ensures
        r == crc32_ieee(data@),
{
    crc32fast::hash(data)
}

/// `md5::Md5::digest`: the 16-byte MD5 digest, named [`md5_of`] of the bytes hashed.
#[verifier::external_body]
pub(crate) fn md5_digest(data: &[u8]) -> (r: Vec<u8>)
    ensures
        r@ == md5_of(data@),
        r@.len() == 16,
{
    md5::Md5::digest(data).to_vec()
}

/// `sha1::Sha1::digest`: the 20-byte SHA-1 digest, named [`sha1_of`] of the bytes hashed.
#[verifier::external_body]
pub(crate) fn sha1_digest(data: &[u8]) -> (r: Vec<u8>)
    ensures
        r@ == sha1_of(data@),
        r@.len() == 20,
{
    sha1::Sha1::digest(data).to_vec()
}

// ----- incremental hashing -----

#[verifier::external_type_specification]
#[verifier::external_body]
pub struct ExCrcHasher(crc32fast::Hasher);

/// The bytes a CRC hasher has been fed since it was made, in order.
pub uninterp spec fn crc_fed(h: crc32fast::Hasher) -> Seq<u8>;

/// `crc32fast::Hasher::new`: a hasher that has been fed nothing.
#[verifier::external_body]
pub(crate) fn crc_hasher_new() -> (h: crc32fast::Hasher)
    ensures
        crc_fed(h) == Seq::<u8>::empty(),
{
    crc32fast::Hasher::new()
}

/// `crc32fast::Hasher::update`: feeds `buf` after what was fed before. The hasher counts
/// the bytes in a `u64`, which must not overflow.
#[verifier::external_body]
pub(crate) fn crc_hasher_update(h: &mut crc32fast::Hasher, buf: &[u8])
    requires
        crc_fed(*old(h)).len() + buf.len() <= u64::MAX,
    ensures
        crc_fed(*final(h)) == crc_fed(*old(h)) + buf@,
{
    h.update(buf)
}

/// `crc32fast::Hasher::finalize`: the CRC-32 of everything fed, as `crc32fast::hash` of
/// the same bytes would give.
#[verifier::external_body]
pub(crate) fn crc_hasher_finalize(h: crc32fast::Hasher) -> (r: u32)
    ensures
        r == crc32_ieee(crc_fed(h)),
{
    h.finalize()
}

/// An MD5 computation in progress (`md5::Md5`, which Verus cannot declare: it is a
/// `digest` core wrapper whose bounds it does not take).
#[verifier::external_body]
pub struct Md5Stream {
    inner: md5::Md5,
}

/// The bytes an MD5 computation has been fed since it began, in order.
pub uninterp spec fn md5_fed(h: Md5Stream) -> Seq<u8>;

/// `Digest::new` for `md5::Md5`: fed nothing yet.
#[verifier::external_body]
pub(crate) fn md5_stream_new() -> (h: Md5Stream)
    ensures
        md5_fed(h) == Seq::<u8>::empty(),
{
    Md5Stream { inner: md5::Md5::new() }
}

/// `Digest::update` for `md5::Md5`: feeds `data` after what was fed before.
#[verifier::external_body]
pub(crate) fn md5_stream_update(h: &mut Md5Stream, data: &[u8])
    ensures
        md5_fed(*final(h)) == md5_fed(*old(h)) + data@,
{
    h.inner.update(data)
}

/// `Digest::finalize` for `md5::Md5`: the 16-byte digest of everything fed, as
/// `Md5::digest` of the same bytes would give.
#[verifier::external_body]
pub(crate) fn md5_stream_finish(h: Md5Stream) -> (r: Vec<u8>)
    ensures
        r@ == md5_of(md5_fed(h)),
        r@.len() == 16,
{
    h.inner.finalize().to_vec()
}

/// A SHA-1 computation in progress (`sha1::Sha1`, a `digest` core wrapper like MD5's).
#[verifier::external_body]
pub struct Sha1Stream {
    inner: sha1::Sha1,
}

/// The bytes a SHA-1 computation has been fed since it began, in order.
pub uninterp spec fn sha1_fed(h: Sha1Stream) -> Seq<u8>;

/// `Digest::new` for `sha1::Sha1`: fed nothing yet.
#[verifier::external_body]
pub(crate) fn sha1_stream_new() -> (h: Sha1Stream)
    ensures
        sha1_fed(h) == Seq::<u8>::empty(),
{
    Sha1Stream { inner: sha1::Sha1::new() }
}

/// `Digest::update` for `sha1::Sha1`: feeds `data` after what was fed before.
#[verifier::external_body]
pub(crate) fn sha1_stream_update(h: &mut Sha1Stream, data: &[u8])
    ensures
        sha1_fed(*final(h)) == sha1_fed(*old(h)) + data@,
{
    h.inner.update(data)
}

/// `Digest::finalize` for `sha1::Sha1`: the 20-byte digest of everything fed, as
/// `Sha1::digest` of the same bytes would give.
#[verifier::external_body]
pub(crate) fn sha1_stream_finish(h: Sha1Stream) -> (r: Vec<u8>)
    ensures
        r@ == sha1_of(sha1_fed(h)),
        r@.len() == 20,
{
    h.inner.finalize().to_vec()
}

/// The hexadecimal digit for `d < 16`, in lower or upper case.
pub open spec fn hex_digit(d: nat, upper: bool) -> char {
    if d < 10 {
        (0x30 + d) as char
    } else if upper {
        (0x41 + d - 10) as char
    } else {
        (0x61 + d - 10) as char
    }
}

/// Two lower-case hex digits per byte, most significant first (`format!("{b:02x}")`).
pub open spec fn hex_lower_spec(bytes: Seq<u8>) -> Seq<char>
    decreases bytes.len(),
{
    if bytes.len() == 0 {
        Seq::empty()
    } else {
        hex_lower_spec(bytes.drop_last()) + seq![
            hex_digit((bytes.last() / 16) as nat, false),
            hex_digit((bytes.last() % 16) as nat, false),
        ]
    }
}

/// Eight upper-case hex digits (`format!("{v:08X}")`).
pub open spec fn hex_upper_u32(v: u32) -> Seq<char> {
    Seq::new(8, |i: int| hex_digit(((v as nat) / pow16((7 - i) as nat)) % 16, true))
}

pub open spec fn pow16(n: nat) -> nat
    decreases n,
{
    if n == 0 { 1 } else { 16 * pow16((n - 1) as nat) }
}

proof fn lemma_pow16_pos(n: nat)
    ensures
        pow16(n) >= 1,
    decreases n,
{
    if n > 0 {
        lemma_pow16_pos((n - 1) as nat);
    }
}

fn hex_char(d: u8, upper: bool) -> (c: char)
    requires
        d < 16,
    ensures
        c == hex_digit(d as nat, upper),
{
    if d < 10 {
        crate::text::char_of_ascii(0x30 + d)
    } else if upper {
        crate::text::char_of_ascii(0x41 + d - 10)
    } else {
        crate::text::char_of_ascii(0x61 + d - 10)
    }
}

/// Lower-case hexadecimal spelling of `bytes`.
pub fn hex_lower(bytes: &[u8]) -> (s: String)
    ensures
        s@ == hex_lower_spec(bytes@),
{
    let mut out: Vec<char> = Vec::new();
    let mut i: usize = 0;
    while i < bytes.len()
        invariant
            i <= bytes.len(),
            out@ == hex_lower_spec(bytes@.take(i as int)),
        decreases bytes.len() - i,
    {
        let b = bytes[i];
        out.push(hex_char(b / 16, false));
        out.push(hex_char(b % 16, false));
        assert(bytes@.take(i + 1).drop_last() =~= bytes@.take(i as int));
        assert(out@ =~= hex_lower_spec(bytes@.take(i + 1)));
        i += 1;
    }
    assert(bytes@.take(bytes.len() as int) =~= bytes@);
    crate::text::string_of(&out)
}

/// Upper-case, zero-padded eight-digit hexadecimal spelling of `v`.
pub fn hex_upper_8(v: u32) -> (s: String)
    ensures
        s@ == hex_upper_u32(v),
{
    let mut out: Vec<char> = Vec::new();
    let mut k: usize = 0;
    let mut div: u32 = 0x1000_0000;
    assert(pow16(7) == 0x1000_0000) by {
        reveal_with_fuel(pow16, 8);
    }
    while k < 8
        invariant
            k <= 8,
            k < 8 ==> div as nat == pow16((7 - k) as nat),
            out@.len() == k,
            forall|j: int| 0 <= j < k ==> out@[j] == #[trigger] hex_upper_u32(v)[j],
        decreases 8 - k,
    {
        proof {
            lemma_pow16_pos((7 - k) as nat);
        }
        let d = ((v / div) % 16) as u8;
        out.push(hex_char(d, true));
        if k < 7 {
            assert(pow16((7 - k) as nat) == 16 * pow16((6 - k) as nat));
            div = div / 16;
        }
        k += 1;
    }
    assert(out@ =~= hex_upper_u32(v));
    crate::text::string_of(&out)
}

/// Lower-case hex spells each byte with two digits, so an MD5 digest reads as 32
/// characters and a SHA-1 digest as 40; a CRC is always eight.
pub proof fn lemma_hex_lengths(bytes: Seq<u8>, v: u32)
    ensures
        hex_lower_spec(bytes).len() == 2 * bytes.len(),
        hex_upper_u32(v).len() == 8,
    decreases bytes.len(),
{
    if bytes.len() > 0 {
        lemma_hex_lengths(bytes.drop_last(), v);
    }
}

} // verus!
