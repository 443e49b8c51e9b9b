//! Which media files of a game are downloaded, and under which names. Downloads
//! themselves are done by the application.

use vstd::prelude::*;
use crate::pathname::{extension, extension_spec, first_index_of, find_first};
use crate::scraper::screenscraper::{opt_view, region_priority};
use crate::scraper::types::Media;
use crate::text::{chars_eq, chars_of, decimal_digits, i64_decimal, lowercase_of, push_i64, push_str, str_eq, string_of, to_lowercase};

verus! {

/// Videos larger than this are not kept: 10 MiB.
pub const MAX_VIDEO_BYTES: u64 = 10485760;

/// Where a game's media live, relative to the media directory.
#[derive(Debug)]
pub struct MediaPaths {
    pub cover_path: Option<String>,
    pub screenshot_path: Option<String>,
    pub wheel_path: Option<String>,
    pub video_path: Option<String>,
}

/// The first media of type `ty` in region `region`.
pub open spec fn first_in_region(medias: Seq<Media>, ty: Seq<char>, region: Seq<char>) -> Option<int>
    decreases medias.len(),
{
    if medias.len() == 0 {
        None
    } else if medias[0].media_type@ == ty && opt_view(medias[0].region) == Some(region) {
        Some(0)
    } else {
        match first_in_region(medias.drop_first(), ty, region) {
            Some(i) => Some(i + 1),
            None => None,
        }
    }
}

/// The first media of type `ty`.
pub open spec fn first_of_type(medias: Seq<Media>, ty: Seq<char>) -> Option<int>
    decreases medias.len(),
{
    if medias.len() == 0 {
        None
    } else if medias[0].media_type@ == ty {
        Some(0)
    } else {
        match first_of_type(medias.drop_first(), ty) {
            Some(i) => Some(i + 1),
            None => None,
        }
    }
}

/// The media of type `ty` to download: the first one of the highest-priority region
/// present; failing that (no region, or regions outside the list), the first of the type.
pub open spec fn best_media(medias: Seq<Media>, ty: Seq<char>, priority: Seq<Seq<char>>) -> Option<int>
    decreases priority.len(),
{
    if priority.len() == 0 {
        first_of_type(medias, ty)
    } else {
        match first_in_region(medias, ty, priority[0]) {
            Some(i) => Some(i),
            None => best_media(medias, ty, priority.drop_first()),
        }
    }
}

proof fn lemma_first_in_region(medias: Seq<Media>, ty: Seq<char>, region: Seq<char>)
    ensures
        first_in_region(medias, ty, region) matches Some(i) ==> 0 <= i < medias.len() && medias[i].media_type@
            == ty && opt_view(medias[i].region) == Some(region) && forall|j: int|
            0 <= j < i ==> !(medias[j].media_type@ == ty && opt_view(medias[j].region) == Some(region)),
        first_in_region(medias, ty, region) is None ==> forall|j: int|
            0 <= j < medias.len() ==> !(medias[j].media_type@ == ty && opt_view(medias[j].region) == Some(region)),
    decreases medias.len(),
{
    if medias.len() > 0 && !(medias[0].media_type@ == ty && opt_view(medias[0].region) == Some(region)) {
        let t = medias.drop_first();
        lemma_first_in_region(t, ty, region);
        assert forall|j: int| 1 <= j < medias.len() implies medias[j] == #[trigger] t[j - 1] by {}
        match first_in_region(t, ty, region) {
            Some(i) => {
                assert forall|j: int| 0 <= j < i + 1 implies !(medias[j].media_type@ == ty && opt_view(medias[j].region) == Some(region)) by {
                    if j > 0 { assert(medias[j] == t[j - 1]); }
                }
            },
            None => {
                assert forall|j: int| 0 <= j < medias.len() implies !(medias[j].media_type@ == ty && opt_view(medias[j].region) == Some(region)) by {
                    if j > 0 { assert(medias[j] == t[j - 1]); }
                }
            },
        }
    }
}

proof fn lemma_first_of_type(medias: Seq<Media>, ty: Seq<char>)
    ensures
        first_of_type(medias, ty) matches Some(i) ==> 0 <= i < medias.len() && medias[i].media_type@ == ty
            && forall|j: int| 0 <= j < i ==> medias[j].media_type@ != ty,
        first_of_type(medias, ty) is None ==> forall|j: int| 0 <= j < medias.len() ==> medias[j].media_type@ != ty,
    decreases medias.len(),
{
    if medias.len() > 0 && medias[0].media_type@ != ty {
        let t = medias.drop_first();
        lemma_first_of_type(t, ty);
        assert forall|j: int| 1 <= j < medias.len() implies medias[j] == #[trigger] t[j - 1] by {}
        match first_of_type(t, ty) {
            Some(i) => {
                assert forall|j: int| 0 <= j < i + 1 implies medias[j].media_type@ != ty by {
                    if j > 0 { assert(medias[j] == t[j - 1]); }
                }
            },
            None => {
                assert forall|j: int| 0 <= j < medias.len() implies medias[j].media_type@ != ty by {
                    if j > 0 { assert(medias[j] == t[j - 1]); }
                }
            },
        }
    }
}

proof fn lemma_best_media_bound(medias: Seq<Media>, ty: Seq<char>, priority: Seq<Seq<char>>)
    ensures
        best_media(medias, ty, priority) matches Some(i) ==> 0 <= i < medias.len(),
    decreases priority.len(),
{
    lemma_first_of_type(medias, ty);
    if priority.len() > 0 {
        lemma_first_in_region(medias, ty, priority[0]);
        lemma_best_media_bound(medias, ty, priority.drop_first());
    }
}

fn opt_str_eq(a: &Option<String>, b: &[char]) -> (r: bool)
    ensures
        r == (opt_view(*a) == Some(b@)),
{
    match a {
        Some(s) => chars_eq(chars_of(s.as_str()).as_slice(), b),
        None => false,
    }
}

fn find_in_region(medias: &[Media], ty: &[char], region: &[char]) -> (r: Option<usize>)
    ensures
        r matches Some(i) ==> i < medias.len(),
        match r {
            Some(i) => first_in_region(medias@, ty@, region@) == Some(i as int),
            None => first_in_region(medias@, ty@, region@) is None,
        },
{
    proof {
        lemma_first_in_region(medias@, ty@, region@);
    }
    let mut i: usize = 0;
    while i < medias.len()
        invariant
            i <= medias.len(),
            forall|j: int|
                0 <= j < i ==> !(medias@[j].media_type@ == ty@ && opt_view(medias@[j].region) == Some(region@)),
        decreases medias.len() - i,
    {
        if chars_eq(chars_of(medias[i].media_type.as_str()).as_slice(), ty) && opt_str_eq(&medias[i].region, region) {
            proof {
                lemma_first_in_region(medias@, ty@, region@);
                if first_in_region(medias@, ty@, region@) != Some(i as int) {
                    assert(medias@[i as int].media_type@ == ty@);
                }
            }
            return Some(i);
        }
        i += 1;
    }
    None
}

fn find_of_type(medias: &[Media], ty: &[char]) -> (r: Option<usize>)
    ensures
        r matches Some(i) ==> i < medias.len(),
        match r {
            Some(i) => first_of_type(medias@, ty@) == Some(i as int),
            None => first_of_type(medias@, ty@) is None,
        },
{
    proof {
        lemma_first_of_type(medias@, ty@);
    }
    let mut i: usize = 0;
    while i < medias.len()
        invariant
            i <= medias.len(),
            forall|j: int| 0 <= j < i ==> medias@[j].media_type@ != ty@,
        decreases medias.len() - i,
    {
        if chars_eq(chars_of(medias[i].media_type.as_str()).as_slice(), ty) {
            proof {
                lemma_first_of_type(medias@, ty@);
                if first_of_type(medias@, ty@) != Some(i as int) {
                    assert(medias@[i as int].media_type@ == ty@);
                }
            }
            return Some(i);
        }
        i += 1;
    }
    None
}

fn region_key(k: usize) -> (r: &'static str)
    requires
        k < 5,
    ensures
        r@ == region_priority()[k as int],
{
    if k == 0 {
        "wor"
    } else if k == 1 {
        "eu"
    } else if k == 2 {
        "us"
    } else if k == 3 {
        "jp"
    } else {
        "ss"
    }
}

/// The media of type `media_type` to download, by region priority (see [`best_media`]).
pub fn pick_best<'a>(medias: &'a [Media], media_type: &str) -> (r: Option<&'a Media>)
    ensures
        match best_media(medias@, media_type@, region_priority()) {
            Some(i) => r matches Some(m) && *m == medias@[i],
            None => r is None,
        },
{
    let ty = chars_of(media_type);
    let ghost pr = region_priority();
    assert(pr.len() == 5);
    assert(pr.subrange(0, 5) =~= pr);
    proof {
        lemma_best_media_bound(medias@, media_type@, pr);
    }
    let mut k: usize = 0;
    while k < 5
        invariant
            k <= 5,
            pr == region_priority(),
            ty@ == media_type@,
            best_media(medias@, media_type@, pr) == best_media(medias@, media_type@, pr.subrange(k as int, 5)),
        decreases 5 - k,
    {
        assert(pr.len() == 5);
        let region = chars_of(region_key(k));
        let ghost tail = pr.subrange(k as int, 5);
        assert(tail[0] == pr[k as int]);
        assert(tail.drop_first() =~= pr.subrange(k + 1, 5));
        assert(region@ == tail[0]);
        match find_in_region(medias, ty.as_slice(), region.as_slice()) {
            Some(i) => {
                assert(best_media(medias@, media_type@, tail) == Some(i as int));
                return Some(&medias[i]);
            },
            None => {
                assert(best_media(medias@, media_type@, tail) == best_media(medias@, media_type@, tail.drop_first()));
            },
        }
        k += 1;
    }
    assert(pr.subrange(5, 5).len() == 0);
    assert(best_media(medias@, media_type@, pr.subrange(5, 5)) == first_of_type(medias@, media_type@));
    match find_of_type(medias, ty.as_slice()) {
        Some(i) => Some(&medias[i]),
        None => None,
    }
}

/// The video to download: a normalised one if there is one (smaller and uniform), else
/// a plain one.
pub fn pick_video(medias: &[Media]) -> (r: Option<&Media>)
    ensures
        match best_media(medias@, "video-normalized"@, region_priority()) {
            Some(i) => r matches Some(m) && *m == medias@[i],
            None => match best_media(medias@, "video"@, region_priority()) {
                Some(i) => r matches Some(m) && *m == medias@[i],
                None => r is None,
            },
        },
{
    match pick_best(medias, "video-normalized") {
        Some(m) => Some(m),
        None => pick_best(medias, "video"),
    }
}

/// The extension used when neither format nor URL gives one.
pub open spec fn default_extension_spec(media_type: Seq<char>) -> Seq<char> {
    if media_type == "video"@ || media_type == "video-normalized"@ { "mp4"@ } else { "png"@ }
}

/// The extension used when neither format nor URL gives one: `mp4` for videos, `png`
/// otherwise.
pub fn default_extension(media_type: &str) -> (e: &'static str)
    ensures
        e@ == default_extension_spec(media_type@),
{
    if str_eq(media_type, "video") || str_eq(media_type, "video-normalized") {
        "mp4"
    } else {
        "png"
    }
}

/// The URL without its query string.
pub open spec fn url_path(url: Seq<char>) -> Seq<char> {
    match first_index_of(url, '?') {
        Some(q) => url.take(q),
        None => url,
    }
}

/// The file extension of a media: its `format` when the API gives one, else the
/// extension of the URL's path (without the query), else the type's default; lower case
/// except for the default.
pub open spec fn extension_for_spec(m: Media) -> Seq<char> {
    match m.format {
        Some(f) => lowercase_of(f@),
        None => match extension_spec(url_path(m.url@)) {
            Some(e) => lowercase_of(e),
            None => default_extension_spec(m.media_type@),
        },
    }
}

/// The file extension of a media (see [`extension_for_spec`]).
pub fn extension_for(media: &Media) -> (e: String)
    ensures
        e@ == extension_for_spec(*media),
{
    if let Some(format) = &media.format {
        return to_lowercase(format.as_str());
    }
    let url = chars_of(media.url.as_str());
    proof {
        crate::pathname::lemma_first_index_bound(url@, '?');
    }
    let path_only = match find_first(url.as_slice(), 0, '?') {
        Some(q) => {
            assert(url@.subrange(0, url@.len() as int) =~= url@);
            crate::pathname::copy_range(url.as_slice(), 0, q)
        },
        None => {
            assert(url@.subrange(0, url@.len() as int) =~= url@);
            url
        },
    };
    assert(path_only@ =~= url_path(media.url@));
    match extension(path_only.as_slice()) {
        Some(ext) => to_lowercase(string_of(ext.as_slice()).as_str()),
        None => String::from_str(default_extension(media.media_type.as_str())),
    }
}

/// The path of a downloaded media relative to the media directory:
/// `{subdir}/{game_id}.{extension}`.
pub open spec fn media_relative_path_spec(subdir: Seq<char>, game_id: i64, ext: Seq<char>) -> Seq<char> {
    subdir + "/"@ + i64_decimal(game_id) + "."@ + ext
}

/// The path of a downloaded media relative to the media directory.
pub fn media_relative_path(subdir: &str, game_id: i64, ext: &str) -> (p: String)
    ensures
        p@ == media_relative_path_spec(subdir@, game_id, ext@),
{
    let mut p = String::from_str(subdir);
    push_str(&mut p, "/");
    let mut digits: Vec<char> = Vec::new();
    push_i64(&mut digits, game_id);
    assert(digits@ =~= i64_decimal(game_id));
    let d = string_of(digits.as_slice());
    push_str(&mut p, d.as_str());
    push_str(&mut p, ".");
    push_str(&mut p, ext);
    p
}

/// Whether a download of `total` bytes so far has gone past the size limit, if any.
pub fn over_limit(total: u64, size_limit: Option<u64>) -> (b: bool)
    ensures
        b == (size_limit matches Some(l) && total > l),
{
    match size_limit {
        Some(l) => total > l,
        None => false,
    }
}

} // verus!
