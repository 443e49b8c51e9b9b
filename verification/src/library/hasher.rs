//! ROM identity hashes: CRC-32, MD5 and SHA-1 of the ROM's content and its size. An iNES
//! header (NES dumps) is not part of the content: the databases hash what follows it.

use vstd::prelude::*;
use crate::checksum::{
    crc32, crc32_ieee, crc_fed, crc_hasher_finalize, crc_hasher_new, crc_hasher_update, hex_lower,
    hex_lower_spec, hex_upper_8, hex_upper_u32, md5_digest, md5_fed, md5_of, md5_stream_finish,
    md5_stream_new, md5_stream_update, sha1_digest, sha1_fed, sha1_of, sha1_stream_finish,
    sha1_stream_new, sha1_stream_update, Md5Stream, Sha1Stream,
};

verus! {

/// The identity of one ROM: hashes as hexadecimal text (CRC upper case, eight digits;
/// MD5 and SHA-1 lower case), the hashed size, and for a ROM inside an archive the name
/// of the file it came from.
#[derive(Debug)]
pub struct RomHashes {
    pub crc32: String,
    pub md5: String,
    pub sha1: String,
    pub size: u64,
    pub archive_inner: Option<String>,
}

/// Length of an iNES header.
pub const INES_HEADER_LEN: usize = 16;

/// Whether `data` starts with the iNES magic `NES\x1A` and has more than a header.
pub open spec fn has_ines_header(data: Seq<u8>) -> bool {
    data.len() > INES_HEADER_LEN && data[0] == 0x4E && data[1] == 0x45 && data[2] == 0x53 && data[3] == 0x1A
}

/// The bytes that are hashed: `data` without an iNES header.
pub open spec fn hashed_part(data: Seq<u8>) -> Seq<u8> {
    if has_ines_header(data) { data.subrange(INES_HEADER_LEN as int, data.len() as int) } else { data }
}

/// `data` without its iNES header, if it has one.
pub fn strip_known_header(data: &[u8]) -> (r: &[u8])
    ensures
        r@ == hashed_part(data@),
{
    if data.len() > INES_HEADER_LEN && data[0] == 0x4E && data[1] == 0x45 && data[2] == 0x53
        && data[3] == 0x1A {
        &data[INES_HEADER_LEN..data.len()]
    } else {
        data
    }
}

/// The hashes of an in-memory ROM (see [`hashed_part`]).
pub fn hash_bytes(data: &[u8]) -> (h: RomHashes)
    ensures
        h.crc32@ == hex_upper_u32(crc32_ieee(hashed_part(data@))),
        h.md5@ == hex_lower_spec(md5_of(hashed_part(data@))),
        h.sha1@ == hex_lower_spec(sha1_of(hashed_part(data@))),
        h.size == hashed_part(data@).len(),
        h.archive_inner is None,
{
    let body = strip_known_header(data);
    assert(usize::MAX <= u64::MAX);
    let crc = crc32(body);
    let md5 = md5_digest(body);
    let sha1 = sha1_digest(body);
    RomHashes {
        crc32: hex_upper_8(crc),
        md5: hex_lower(md5.as_slice()),
        sha1: hex_lower(sha1.as_slice()),
        size: body.len() as u64,
        archive_inner: None,
    }
}

/// What a fresh [`RomHasher`] has seen after being fed `chunks` in order: the first chunk
/// without its iNES header, the others whole.
pub open spec fn streamed_input(chunks: Seq<Seq<u8>>) -> Seq<u8> {
    if chunks.len() == 0 {
        Seq::empty()
    } else {
        hashed_part(chunks[0]) + chunks.drop_first().flatten()
    }
}

/// Hashing a file in chunks hashes what [`hash_bytes`] hashes for the whole file, as long
/// as the first chunk is longer than an iNES header (so that it holds the whole header,
/// if the file has one): the streamed input is the file without its header.
pub proof fn lemma_streamed_chunks_hash_as_whole(chunks: Seq<Seq<u8>>)
    requires
        chunks.len() == 0 || chunks[0].len() > INES_HEADER_LEN,
    ensures
        streamed_input(chunks) == hashed_part(chunks.flatten()),
{
    if chunks.len() > 0 {
        let c0 = chunks[0];
        let rest = chunks.drop_first().flatten();
        let whole = chunks.flatten();
        assert(whole == c0 + rest);
        assert(whole.len() > INES_HEADER_LEN);
        assert(whole[0] == c0[0] && whole[1] == c0[1] && whole[2] == c0[2] && whole[3] == c0[3]);
        if has_ines_header(c0) {
            assert(whole.subrange(INES_HEADER_LEN as int, whole.len() as int) =~= c0.subrange(
                INES_HEADER_LEN as int,
                c0.len() as int,
            ) + rest);
        }
    } else {
        assert(chunks.flatten() =~= Seq::<u8>::empty());
    }
}

/// The hashes of a ROM fed in chunks, for files too large to read whole. The first chunk
/// loses its iNES header as [`strip_known_header`] would take it off; the result is what
/// [`hash_bytes`] gives for the same content.
pub struct RomHasher {
    crc: crc32fast::Hasher,
    md5: Md5Stream,
    sha1: Sha1Stream,
    size: u64,
    started: bool,
}

impl RomHasher {
    #[verifier::type_invariant]
    spec fn fed_alike(self) -> bool {
        &&& md5_fed(self.md5) == crc_fed(self.crc)
        &&& sha1_fed(self.sha1) == crc_fed(self.crc)
        &&& self.size == crc_fed(self.crc).len()
        &&& !self.started ==> crc_fed(self.crc).len() == 0
    }

    /// The bytes hashed so far.
    pub closed spec fn seen(self) -> Seq<u8> {
        crc_fed(self.crc)
    }

    /// Whether a chunk was fed already (the next one keeps any header it has).
    pub closed spec fn started(self) -> bool {
        self.started
    }

    /// A hasher that has seen nothing.
    pub fn new() -> (h: RomHasher)
        ensures
            h.seen() == Seq::<u8>::empty(),
            !h.started(),
    {
        RomHasher { crc: crc_hasher_new(), md5: md5_stream_new(), sha1: sha1_stream_new(), size: 0, started: false }
    }

    /// Feeds the next chunk of the file; the first chunk is fed without its iNES header.
    pub fn update(&mut self, chunk: &[u8])
        requires
            old(self).seen().len() + chunk.len() <= u64::MAX,
        ensures
            final(self).started(),
            final(self).seen() == old(self).seen() + if old(self).started() {
                chunk@
            } else {
                hashed_part(chunk@)
            },
    {
        let mut current = RomHasher::new();
        std::mem::swap(&mut current, self);
        proof {
            use_type_invariant(&current);
        }
        let RomHasher { mut crc, mut md5, mut sha1, size, started } = current;
        let part = if started { chunk } else { strip_known_header(chunk) };
        crc_hasher_update(&mut crc, part);
        md5_stream_update(&mut md5, part);
        sha1_stream_update(&mut sha1, part);
        *self = RomHasher { crc, md5, sha1, size: size + part.len() as u64, started: true };
    }

    /// The hashes of everything fed, spelled as [`hash_bytes`] spells them.
    pub fn finish(self) -> (h: RomHashes)
        ensures
            h.crc32@ == hex_upper_u32(crc32_ieee(self.seen())),
            h.md5@ == hex_lower_spec(md5_of(self.seen())),
            h.sha1@ == hex_lower_spec(sha1_of(self.seen())),
            h.size == self.seen().len(),
            h.archive_inner is None,
    {
        proof {
            use_type_invariant(&self);
        }
        let size = self.size;
        let crc = crc_hasher_finalize(self.crc);
        let md5 = md5_stream_finish(self.md5);
        let sha1 = sha1_stream_finish(self.sha1);
        RomHashes {
            crc32: hex_upper_8(crc),
            md5: hex_lower(md5.as_slice()),
            sha1: hex_lower(sha1.as_slice()),
            size,
            archive_inner: None,
        }
    }
}

} // verus!
