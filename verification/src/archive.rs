//! Which file of a ZIP or 7z archive holds the ROM: the first entry, in archive order,
//! that is not a directory and whose extension is one of the core's, in any case. The
//! application lists the archive's entries and extracts the one chosen here.

use vstd::prelude::*;
use crate::error::CoreError;
use crate::pathname::{extension, extension_spec, file_name, file_name_spec};
use crate::text::{chars_of, lowercase_of, push_str, string_of, to_lowercase};

verus! {

/// One entry of an archive's table of contents.
#[derive(Debug)]
pub struct ArchiveEntry {
    pub name: String,
    pub is_dir: bool,
}

/// The archive formats that are opened.
#[derive(Debug, Clone, Copy, PartialEq, Eq, Structural)]
pub enum ArchiveKind {
    Zip,
    SevenZip,
}

/// The archive format of a path, by its extension in any case.
pub open spec fn archive_kind_spec(path: Seq<char>) -> Option<ArchiveKind> {
    match extension_spec(path) {
        Some(e) => if lowercase_of(e) == "zip"@ {
            Some(ArchiveKind::Zip)
        } else if lowercase_of(e) == "7z"@ {
            Some(ArchiveKind::SevenZip)
        } else {
            None
        },
        None => None,
    }
}

/// The archive format of a path (see [`archive_kind_spec`]).
pub fn archive_kind(path: &str) -> (k: Option<ArchiveKind>)
    ensures
        k == archive_kind_spec(path@),
{
    match extension(chars_of(path).as_slice()) {
        Some(e) => {
            let lower = to_lowercase(string_of(e.as_slice()).as_str());
            if crate::text::str_eq(lower.as_str(), "zip") {
                Some(ArchiveKind::Zip)
            } else if crate::text::str_eq(lower.as_str(), "7z") {
                Some(ArchiveKind::SevenZip)
            } else {
                None
            }
        },
        None => None,
    }
}

pub open spec fn strings_view(v: Seq<String>) -> Seq<Seq<char>> {
    v.map_values(|s: String| s@)
}

/// Whether an entry name has one of `valid` as its extension, both lower-cased.
pub open spec fn has_valid_extension_spec(name: Seq<char>, valid: Seq<Seq<char>>) -> bool {
    match extension_spec(name) {
        Some(e) => exists|k: int| 0 <= k < valid.len() && lowercase_of(#[trigger] valid[k]) == lowercase_of(e),
        None => false,
    }
}

/// Whether an entry name has one of the extensions (see [`has_valid_extension_spec`]).
pub fn has_valid_extension(name: &str, valid_extensions: &[String]) -> (b: bool)
    ensures
        b == has_valid_extension_spec(name@, strings_view(valid_extensions@)),
{
    let ext = match extension(chars_of(name).as_slice()) {
        Some(e) => e,
        None => {
            return false;
        },
    };
    let ext = to_lowercase(string_of(ext.as_slice()).as_str());
    let ghost valid = strings_view(valid_extensions@);
    let mut k: usize = 0;
    while k < valid_extensions.len()
        invariant
            valid == strings_view(valid_extensions@),
            k <= valid_extensions.len(),
            extension_spec(name@) matches Some(e) && ext@ == lowercase_of(e),
            forall|j: int| 0 <= j < k ==> lowercase_of(#[trigger] valid[j]) != ext@,
        decreases valid_extensions.len() - k,
    {
        let v = to_lowercase(valid_extensions[k].as_str());
        assert(valid[k as int] == valid_extensions@[k as int]@);
        if crate::text::str_eq(v.as_str(), ext.as_str()) {
            return true;
        }
        k += 1;
    }
    false
}

/// The file name of an entry: its last path component, or the whole name.
pub open spec fn base_name_spec(name: Seq<char>) -> Seq<char> {
    match file_name_spec(name) {
        Some(f) => f,
        None => name,
    }
}

/// The file name of an entry (see [`base_name_spec`]).
pub fn base_name(name: &str) -> (b: String)
    ensures
        b@ == base_name_spec(name@),
{
    match file_name(chars_of(name).as_slice()) {
        Some(f) => string_of(f.as_slice()),
        None => String::from_str(name),
    }
}

/// `parts` joined with `sep` between them.
pub open spec fn join_spec(parts: Seq<Seq<char>>, sep: Seq<char>) -> Seq<char>
    decreases parts.len(),
{
    if parts.len() == 0 {
        Seq::empty()
    } else if parts.len() == 1 {
        parts[0]
    } else {
        join_spec(parts.drop_last(), sep) + sep + parts.last()
    }
}

pub(crate) fn join(parts: &[String], sep: &str) -> (s: String)
    ensures
        s@ == join_spec(strings_view(parts@), sep@),
{
    let mut s = String::new();
    let mut i: usize = 0;
    while i < parts.len()
        invariant
            i <= parts.len(),
            s@ == join_spec(strings_view(parts@.take(i as int)), sep@),
        decreases parts.len() - i,
    {
        if i > 0 {
            push_str(&mut s, sep);
        }
        push_str(&mut s, parts[i].as_str());
        proof {
            let before = strings_view(parts@.take(i as int));
            let after = strings_view(parts@.take(i + 1));
            assert(after.drop_last() =~= before);
            assert(after.last() == parts@[i as int]@);
            if i == 0 {
                assert(before =~= Seq::<Seq<char>>::empty());
            }
        }
        i += 1;
    }
    assert(parts@.take(parts.len() as int) =~= parts@);
    s
}

/// The message when no entry matches.
pub open spec fn no_match_message(archive_path: Seq<char>, valid: Seq<Seq<char>>) -> Seq<char> {
    "archyve "@ + archive_path + " nerasta tinkamo failo (laukiami plėtiniai: "@ + join_spec(valid, ", "@) + ")"@
}

/// The error when no entry matches, naming the archive and the extensions looked for.
pub fn no_match_error(archive_path: &str, valid_extensions: &[String]) -> (e: CoreError)
    ensures
        e matches CoreError::Other(m) && m@ == no_match_message(archive_path@, strings_view(valid_extensions@)),
{
    let mut m = String::from_str("archyve ");
    push_str(&mut m, archive_path);
    push_str(&mut m, " nerasta tinkamo failo (laukiami plėtiniai: ");
    let joined = join(valid_extensions, ", ");
    push_str(&mut m, joined.as_str());
    push_str(&mut m, ")");
    CoreError::Other(m)
}

/// The message for a path that is no supported archive.
pub open spec fn unsupported_message(archive_path: Seq<char>) -> Seq<char> {
    "nepalaikomas archyvo formatas: "@ + archive_path
}

/// Whether an entry can hold the ROM.
pub open spec fn entry_matches(e: ArchiveEntry, valid: Seq<Seq<char>>) -> bool {
    !e.is_dir && has_valid_extension_spec(e.name@, valid)
}

/// Chooses the entry to extract from the archive at `archive_path`, whose entries are
/// `entries`: the index of the first entry that can hold the ROM, with its base name. A
/// path that is no ZIP or 7z archive, or an archive without such an entry, is an error.
pub fn extract_first_match(archive_path: &str, entries: &[ArchiveEntry], valid_extensions: &[String]) -> (r: Result<
    (usize, String),
    CoreError,
>)
    ensures
        archive_kind_spec(archive_path@) is None ==> (r matches Err(CoreError::Other(m)) && m@
            == unsupported_message(archive_path@)),
        archive_kind_spec(archive_path@) is Some ==> match r {
            Ok((i, name)) => i < entries@.len() && entry_matches(entries@[i as int], strings_view(valid_extensions@))
                && (forall|j: int| 0 <= j < i ==> !entry_matches(entries@[j], strings_view(valid_extensions@)))
                && name@ == base_name_spec(entries@[i as int].name@),
            Err(e) => (forall|j: int| 0 <= j < entries@.len() ==> !entry_matches(entries@[j], strings_view(valid_extensions@)))
                && (e matches CoreError::Other(m) && m@ == no_match_message(archive_path@, strings_view(valid_extensions@))),
        },
{
    if archive_kind(archive_path).is_none() {
        let mut m = String::from_str("nepalaikomas archyvo formatas: ");
        push_str(&mut m, archive_path);
        return Err(CoreError::Other(m));
    }
    let mut i: usize = 0;
    while i < entries.len()
        invariant
            archive_kind_spec(archive_path@) is Some,
            i <= entries.len(),
            forall|j: int| 0 <= j < i ==> !entry_matches(entries@[j], strings_view(valid_extensions@)),
        decreases entries.len() - i,
    {
        if !entries[i].is_dir && has_valid_extension(entries[i].name.as_str(), valid_extensions) {
            return Ok((i, base_name(entries[i].name.as_str())));
        }
        i += 1;
    }
    Err(no_match_error(archive_path, valid_extensions))
}

} // verus!
