//! The shape of a ScreenScraper `jeuInfos.php` reply. Every text field is kept as the
//! API sent it; the library decodes entities and applies priorities when it extracts
//! metadata. The JSON decoding itself happens at the application edge, which fills
//! these types.

use vstd::prelude::*;

verus! {

/// A field that the API sends either as one object or as an array of them.
#[derive(Debug)]
pub enum OneOrMany<T> {
    One(T),
    Many(Vec<T>),
}

impl<T> OneOrMany<T> {
    /// The items, in order.
    pub open spec fn items(&self) -> Seq<T> {
        match self {
            OneOrMany::One(item) => seq![*item],
            OneOrMany::Many(items) => items@,
        }
    }

    /// The items as a vector: one item becomes a vector of one.
    pub fn into_vec(self) -> (v: Vec<T>)
        ensures
            v@ == self.items(),
    {
        match self {
            OneOrMany::One(item) => {
                let mut v = Vec::new();
                v.push(item);
                v
            },
            OneOrMany::Many(items) => items,
        }
    }

    /// An empty array, what a missing field stands for.
    pub fn empty() -> (r: Self)
        ensures
            r.items() == Seq::<T>::empty(),
    {
        OneOrMany::Many(Vec::new())
    }
}

#[derive(Debug)]
pub struct JeuInfosResponse {
    pub header: Header,
    pub response: Option<JeuInfosBody>,
}

#[derive(Debug)]
pub struct Header {
    pub success: String,
    pub error: String,
}

#[derive(Debug)]
pub struct JeuInfosBody {
    pub jeu: Jeu,
    pub serveurs: Option<Serveurs>,
    pub ssuser: Option<SsUser>,
}

/// Server state flags; `"1"` means closed.
#[derive(Debug)]
pub struct Serveurs {
    pub closefornomember: String,
    pub closeforleecher: String,
}

/// The caller's quota, every number as decimal text.
#[derive(Debug)]
pub struct SsUser {
    pub maxthreads: String,
    pub requeststoday: String,
    pub maxrequestsperday: String,
}

#[derive(Debug)]
pub struct RegionText {
    pub region: String,
    pub text: String,
}

#[derive(Debug)]
pub struct LangText {
    pub langue: String,
    pub text: String,
}

#[derive(Debug)]
pub struct IdText {
    pub id: String,
    pub text: String,
}

#[derive(Debug)]
pub struct TextOnly {
    pub text: String,
}

#[derive(Debug)]
pub struct Genre {
    pub noms: OneOrMany<LangText>,
}

/// One media file the API offers (box art, screenshot, video, ...).
#[derive(Debug)]
pub struct Media {
    pub media_type: String,
    pub region: Option<String>,
    pub url: String,
    pub format: Option<String>,
}

#[derive(Debug)]
pub struct RomMatch {
    pub romcrc: Option<String>,
    pub rommd5: Option<String>,
    pub romsha1: Option<String>,
    pub romfilename: Option<String>,
}

#[derive(Debug)]
pub struct Jeu {
    pub id: String,
    pub noms: OneOrMany<RegionText>,
    pub synopsis: OneOrMany<LangText>,
    pub developpeur: Option<IdText>,
    pub editeur: Option<IdText>,
    pub joueurs: Option<TextOnly>,
    pub note: Option<TextOnly>,
    pub dates: OneOrMany<RegionText>,
    pub genres: OneOrMany<Genre>,
    pub medias: OneOrMany<Media>,
    pub rom: Option<RomMatch>,
}

/// An equal copy of an optional string.
pub fn copy_opt_string(s: &Option<String>) -> (r: Option<String>)
    ensures
        r == *s,
{
    match s {
        Some(t) => Some(t.clone()),
        None => None,
    }
}

impl Media {
    /// An equal copy.
    pub fn duplicate(&self) -> (r: Media)
        ensures
            r == *self,
    {
        Media {
            media_type: self.media_type.clone(),
            region: copy_opt_string(&self.region),
            url: self.url.clone(),
            format: copy_opt_string(&self.format),
        }
    }
}

/// An equal copy of a list of media.
pub fn copy_medias(v: &[Media]) -> (r: Vec<Media>)
    ensures
        r@ == v@,
{
    let mut r: Vec<Media> = Vec::new();
    let mut i: usize = 0;
    while i < v.len()
        invariant
            i <= v.len(),
            r@ == v@.take(i as int),
        decreases v.len() - i,
    {
        r.push(v[i].duplicate());
        assert(v@.take(i as int).push(v@[i as int]) =~= v@.take(i + 1));
        i += 1;
    }
    assert(v@.take(v.len() as int) =~= v@);
    r
}

} // verus!
