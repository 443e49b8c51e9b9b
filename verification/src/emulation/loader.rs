//! What loading a game into a core decides before and after the libretro calls: the
//! extensions a core takes, how the ROM is handed over, and how a battery save is copied
//! into the core's memory.

use vstd::prelude::*;
use crate::library::scanner::split_on;
use crate::text::{chars_of, string_of};

verus! {

/// `retro_get_system_info` in owned form.
#[derive(Debug)]
pub struct CoreSystemInfo {
    pub library_name: String,
    pub library_version: String,
    /// The extensions the core takes, `|`-separated, e.g. `"smc|sfc|swc|fig|bs"`.
    pub valid_extensions: String,
    pub need_fullpath: bool,
    pub block_extract: bool,
}

pub open spec fn strings_view(v: Seq<String>) -> Seq<Seq<char>> {
    v.map_values(|s: String| s@)
}

/// The extensions of a core's `|`-separated list, empty entries dropped.
pub open spec fn valid_extensions_spec(list: Seq<char>) -> Seq<Seq<char>> {
    split_on(list, '|').filter(|e: Seq<char>| e.len() > 0)
}

/// The extensions a core takes (see [`valid_extensions_spec`]).
pub fn core_valid_extensions(list: &str) -> (v: Vec<String>)
    ensures
        strings_view(v@) == valid_extensions_spec(list@),
{
    let s = chars_of(list);
    let ghost pieces = split_on(list@, '|');
    let mut v: Vec<String> = Vec::new();
    let mut start: usize = 0;
    let mut i: usize = 0;
    let ghost mut done: Seq<Seq<char>> = Seq::empty();
    assert(s@.subrange(0, s.len() as int) =~= s@);
    while i < s.len()
        invariant
            start <= i <= s.len(),
            s@ == list@,
            forall|k: int| start <= k < i ==> s@[k] != '|',
            done + split_on(s@.subrange(start as int, s.len() as int), '|') == split_on(list@, '|'),
            strings_view(v@) == done.filter(|e: Seq<char>| e.len() > 0),
        decreases s.len() - i,
    {
        if s[i] == '|' {
            let ghost rest = s@.subrange(start as int, s.len() as int);
            proof {
                crate::pathname::lemma_first_index_bound(rest, '|');
                assert(rest[i - start] == '|');
                assert forall|k: int| 0 <= k < i - start implies rest[k] != '|' by {
                    assert(rest[k] == s@[start + k]);
                }
                if crate::pathname::first_index_of(rest, '|') != Some(i - start) {
                    match crate::pathname::first_index_of(rest, '|') {
                        Some(q) => {
                            assert(rest[q] == '|');
                        },
                        None => {},
                    }
                }
                assert(rest.take(i - start) =~= s@.subrange(start as int, i as int));
                assert(rest.subrange(i - start + 1, rest.len() as int) =~= s@.subrange(i + 1, s.len() as int));
            }
            let piece = crate::pathname::copy_range(s.as_slice(), start, i);
            proof {
                reveal(Seq::filter);
                assert((done + seq![piece@]).drop_last() =~= done);
            }
            if piece.len() > 0 {
                let ghost before = strings_view(v@);
                v.push(string_of(piece.as_slice()));
                assert(strings_view(v@) =~= before.push(piece@));
            }
            proof {
                assert(done + seq![piece@] + split_on(s@.subrange(i + 1, s.len() as int), '|') =~= done + (seq![piece@]
                    + split_on(s@.subrange(i + 1, s.len() as int), '|')));
                done = done + seq![piece@];
            }
            start = i + 1;
        }
        i += 1;
    }
    let ghost rest = s@.subrange(start as int, s.len() as int);
    proof {
        crate::pathname::lemma_first_index_bound(rest, '|');
        assert forall|k: int| 0 <= k < rest.len() implies rest[k] != '|' by {
            assert(rest[k] == s@[start + k]);
        }
        if crate::pathname::first_index_of(rest, '|') is Some {
            let q = crate::pathname::first_index_of(rest, '|').unwrap();
            assert(rest[q] == '|');
        }
    }
    let piece = crate::pathname::copy_range(s.as_slice(), start, s.len());
    proof {
        reveal(Seq::filter);
        assert((done + seq![piece@]).drop_last() =~= done);
    }
    if piece.len() > 0 {
        let ghost before = strings_view(v@);
        v.push(string_of(piece.as_slice()));
        assert(strings_view(v@) =~= before.push(piece@));
    }
    assert(done + seq![piece@] =~= split_on(list@, '|'));
    v
}

/// How a ROM is handed to a core.
#[derive(Debug, Clone, Copy, PartialEq, Eq, Structural)]
pub enum RomHandover {
    /// The core opens the file itself: the path as it is.
    Path,
    /// The core opens the file itself: the matching archive entry extracted to a
    /// temporary file first.
    ExtractedPath,
    /// The file's bytes in memory.
    Bytes,
    /// The matching archive entry's bytes in memory.
    ExtractedBytes,
}

/// How a ROM is handed over: cores that want a path get one (an archive's entry
/// extracted to a temporary file), the others get bytes (an archive's entry extracted).
pub fn rom_handover(need_fullpath: bool, is_archive: bool) -> (h: RomHandover)
    ensures
        h == (if need_fullpath {
            if is_archive { RomHandover::ExtractedPath } else { RomHandover::Path }
        } else {
            if is_archive { RomHandover::ExtractedBytes } else { RomHandover::Bytes }
        }),
{
    if need_fullpath {
        if is_archive { RomHandover::ExtractedPath } else { RomHandover::Path }
    } else {
        if is_archive { RomHandover::ExtractedBytes } else { RomHandover::Bytes }
    }
}

/// Copies a battery save file into the core's save memory: as much as both hold; the
/// rest of the memory stays as the core initialised it.
pub fn copy_sram(sram: &mut [u8], data: &[u8])
    ensures
        final(sram)@.len() == old(sram)@.len(),
        forall|i: int| 0 <= i < old(sram)@.len() ==> #[trigger] final(sram)@[i] == if i < data@.len() {
            data@[i]
        } else {
            old(sram)@[i]
        },
{
    let n = if data.len() < sram.len() { data.len() } else { sram.len() };
    let mut i: usize = 0;
    while i < n
        invariant
            n <= data.len(),
            n <= sram.len(),
            i <= n,
            sram@.len() == old(sram)@.len(),
            forall|k: int| 0 <= k < old(sram)@.len() ==> #[trigger] sram@[k] == if k < i {
                data@[k]
            } else {
                old(sram)@[k]
            },
        decreases n - i,
    {
        sram[i] = data[i];
        i += 1;
    }
}

} // verus!
