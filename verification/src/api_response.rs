//! Responses of the nhentai.net API, in the shape the rest of the library
//! reads them, and the rows that one or more gallery responses turn into.
use vstd::prelude::*;
use crate::decimal::spec_parse_u32;
use crate::decimal::parse_u32;
use crate::text::{ascii_lower, chars_of, push_char, spec_trim, string_from_chars, to_ascii_lower, trim_bounds, trim_end, trim_start};

verus! {

/// File type of an image of a gallery.
#[derive(Clone, Copy, Debug, PartialEq, Eq, Structural)]
pub enum ImageType {
    Gif,
    Jpg,
    Png,
    Webp,
}

impl ImageType {
    /// The one-letter form used in the database: `g`, `j`, `p`, `w`.
    pub open spec fn spec_short_name(self) -> Seq<char> {
        match self {
            ImageType::Gif => seq!['g'],
            ImageType::Jpg => seq!['j'],
            ImageType::Png => seq!['p'],
            ImageType::Webp => seq!['w'],
        }
    }

    /// The file extension: `gif`, `jpg`, `png`, `webp`.
    pub open spec fn spec_long_name(self) -> Seq<char> {
        match self {
            ImageType::Gif => seq!['g', 'i', 'f'],
            ImageType::Jpg => seq!['j', 'p', 'g'],
            ImageType::Png => seq!['p', 'n', 'g'],
            ImageType::Webp => seq!['w', 'e', 'b', 'p'],
        }
    }

    pub open spec fn short_char(self) -> char {
        self.spec_short_name()[0]
    }

    /// The short form, as the type is written in the API's JSON and the database.
    pub fn short_name(&self) -> (r: String)
        ensures
            r@ == self.spec_short_name(),
    {
        let mut r = String::new();
        push_char(&mut r, self.short_code());
        r
    }

    /// The one letter of the short form.
    pub fn short_code(&self) -> (r: char)
        ensures
            r == self.short_char(),
    {
        match self {
            ImageType::Gif => 'g',
            ImageType::Jpg => 'j',
            ImageType::Png => 'p',
            ImageType::Webp => 'w',
        }
    }

    /// The long form, the extension of the image files.
    pub fn long_name(&self) -> (r: String)
        ensures
            r@ == self.spec_long_name(),
    {
        let v: Vec<char> = match self {
            ImageType::Gif => vec!['g', 'i', 'f'],
            ImageType::Jpg => vec!['j', 'p', 'g'],
            ImageType::Png => vec!['p', 'n', 'g'],
            ImageType::Webp => vec!['w', 'e', 'b', 'p'],
        };
        assert(v@ =~= self.spec_long_name());
        string_from_chars(&v)
    }

    /// The message of a string that names no image type.
    pub open spec fn spec_invalid_message(s: Seq<char>) -> Seq<char> {
        seq!['I', 'n', 'v', 'a', 'l', 'i', 'd', ' ', 'i', 'm', 'a', 'g', 'e', ' ', 't', 'y', 'p', 'e', ':', ' ', '"']
            + s + seq!['"']
    }

    /// Reads an image type: the string without surrounding white space, in
    /// any letter case, must be the short or the long form of a type.
    pub fn from_str(s: &str) -> (r: Result<ImageType, String>)
        ensures
            r matches Ok(t) ==> spec_image_type(s@) == Some(t),
            r matches Err(m) ==> spec_image_type(s@) is None && m@ == Self::spec_invalid_message(s@),
    {
        let v = chars_of(s);
        match image_type_of_chars(v.as_slice()) {
            Some(t) => Ok(t),
            None => {
                let prefix: Vec<char> = vec!['I', 'n', 'v', 'a', 'l', 'i', 'd', ' ', 'i', 'm', 'a', 'g', 'e', ' ', 't', 'y', 'p', 'e', ':', ' ', '"'];
                let mut m = string_from_chars(&prefix);
                m.append(s);
                push_char(&mut m, '"');
                assert(m@ =~= Self::spec_invalid_message(s@));
                Err(m)
            },
        }
    }
}

/// The image type a string names, as `ImageType::from_str` reads it: the string
/// is trimmed of white space and compared without regard to ASCII letter case.
/// (Full Unicode lower-casing gives the same answer: no character other than
/// an ASCII letter lower-cases to one of the ASCII letters of these names.)
pub open spec fn spec_image_type(s: Seq<char>) -> Option<ImageType> {
    let t = spec_trim(s).map_values(|c: char| ascii_lower(c));
    if t == seq!['g'] || t == seq!['g', 'i', 'f'] {
        Some(ImageType::Gif)
    } else if t == seq!['j'] || t == seq!['j', 'p', 'g'] {
        Some(ImageType::Jpg)
    } else if t == seq!['p'] || t == seq!['p', 'n', 'g'] {
        Some(ImageType::Png)
    } else if t == seq!['w'] || t == seq!['w', 'e', 'b', 'p'] {
        Some(ImageType::Webp)
    } else {
        None
    }
}

/// Whether the folded characters `v[a..b]` spell `target`.
fn folded_equals(v: &[char], a: usize, b: usize, target: &[char]) -> (r: bool)
    requires
        a <= b <= v@.len(),
    ensures
        r == (v@.subrange(a as int, b as int).map_values(|c: char| ascii_lower(c)) == target@),
{
    let ghost t = v@.subrange(a as int, b as int).map_values(|c: char| ascii_lower(c));
    if b - a != target.len() {
        assert(t.len() != target@.len());
        return false;
    }
    let mut i: usize = 0;
    while i < target.len()
        invariant
            b - a == target.len(),
            a <= b <= v@.len(),
            i <= target.len(),
            t == v@.subrange(a as int, b as int).map_values(|c: char| ascii_lower(c)),
            forall|j: int| 0 <= j < i ==> t[j] == target@[j],
        decreases target.len() - i,
    {
        if to_ascii_lower(v[a + i]) != target[i] {
            assert(t[i as int] != target@[i as int]);
            return false;
        }
        i = i + 1;
    }
    assert(t =~= target@);
    true
}

/// The image type that the characters `v` name.
pub fn image_type_of_chars(v: &[char]) -> (r: Option<ImageType>)
    ensures
        r == spec_image_type(v@),
{
    let (a, b) = trim_bounds(v);
    let ghost t = spec_trim(v@).map_values(|c: char| ascii_lower(c));
    assert(t == v@.subrange(a as int, b as int).map_values(|c: char| ascii_lower(c)));
    let g1: [char; 1] = ['g'];
    let g3: [char; 3] = ['g', 'i', 'f'];
    let j1: [char; 1] = ['j'];
    let j3: [char; 3] = ['j', 'p', 'g'];
    let p1: [char; 1] = ['p'];
    let p3: [char; 3] = ['p', 'n', 'g'];
    let w1: [char; 1] = ['w'];
    let w4: [char; 4] = ['w', 'e', 'b', 'p'];
    assert(g1@ =~= seq!['g']);
    assert(g3@ =~= seq!['g', 'i', 'f']);
    assert(j1@ =~= seq!['j']);
    assert(j3@ =~= seq!['j', 'p', 'g']);
    assert(p1@ =~= seq!['p']);
    assert(p3@ =~= seq!['p', 'n', 'g']);
    assert(w1@ =~= seq!['w']);
    assert(w4@ =~= seq!['w', 'e', 'b', 'p']);
    if folded_equals(v, a, b, &g1) || folded_equals(v, a, b, &g3) {
        Some(ImageType::Gif)
    } else if folded_equals(v, a, b, &j1) || folded_equals(v, a, b, &j3) {
        Some(ImageType::Jpg)
    } else if folded_equals(v, a, b, &p1) || folded_equals(v, a, b, &p3) {
        Some(ImageType::Png)
    } else if folded_equals(v, a, b, &w1) || folded_equals(v, a, b, &w4) {
        Some(ImageType::Webp)
    } else {
        None
    }
}

/// Reading the short or the long form of an image type gives that type back.
pub proof fn lemma_image_type_names_roundtrip(t: ImageType)
    ensures
        spec_image_type(t.spec_short_name()) == Some(t),
        spec_image_type(t.spec_long_name()) == Some(t),
{
    let s = t.spec_short_name();
    let l = t.spec_long_name();
    assert(trim_start(s) == s);
    assert(trim_end(s) == s);
    assert(trim_start(l) == l);
    assert(trim_end(l) == l);
    assert(s.map_values(|c: char| ascii_lower(c)) =~= s);
    assert(l.map_values(|c: char| ascii_lower(c)) =~= l);
}


/// Size and type of one image.
#[derive(Clone, Copy, Debug, PartialEq, Eq, Structural)]
pub struct Image {
    pub h: u32,
    pub t: ImageType,
    pub w: u32,
}

/// The images of a gallery: its cover, its pages in order, its thumbnail.
#[derive(Clone, Debug, PartialEq, Eq)]
pub struct Images {
    pub cover: Image,
    pub pages: Vec<Image>,
    pub thumbnail: Image,
}

/// A tag of nhentai.net. The type of the tag (`tag`, `artist`, `language`, ...)
/// stands in `tag_type`.
#[derive(Clone, Debug, PartialEq, Eq)]
pub struct Tag {
    pub id: u32,
    pub name: String,
    pub tag_type: String,
    pub url: String,
}

impl Tag {
    /// A copy of this tag with equal fields.
    pub fn duplicate(&self) -> (r: Tag)
        ensures
            r == *self,
    {
        Tag { id: self.id, name: self.name.clone(), tag_type: self.tag_type.clone(), url: self.url.clone() }
    }
}

/// The titles of a gallery.
#[derive(Clone, Debug, PartialEq, Eq)]
pub struct Title {
    pub english: Option<String>,
    pub japanese: Option<String>,
    pub pretty: Option<String>,
}

/// Gallery metadata as `nhentai.net/api/gallery/{id}` returns it. The upload
/// date is held as seconds since the Unix epoch.
#[derive(Clone, Debug, PartialEq, Eq)]
pub struct HentaiSearchResponse {
    pub id: u32,
    pub images: Images,
    pub media_id: u32,
    pub num_favorites: u32,
    pub num_pages: u16,
    pub scanlator: Option<String>,
    pub tags: Vec<Tag>,
    pub title: Title,
    pub upload_date: i64,
}

/// One page of results of `nhentai.net/api/galleries/search?query={tags}`.
#[derive(Clone, Debug, PartialEq, Eq)]
pub struct TagSearchResponse {
    pub num_pages: u32,
    pub per_page: u16,
    pub result: Vec<HentaiSearchResponse>,
}

/// A JSON value that should hold an identifier, as far as reading it needs:
/// a number (with its value if it is an integer that fits in a `u64`), a
/// string, or anything else.
pub enum IdValue {
    Number(Option<u64>),
    Text(String),
    Other,
}

/// Why an identifier could not be read.
#[derive(Clone, Copy, Debug, PartialEq, Eq, Structural)]
pub enum IdValueError {
    /// A number that is negative or not an integer.
    NumberNotU64,
    /// An integer above `u32::MAX`.
    NumberNotU32,
    /// A string that `str::parse::<u32>` refuses.
    StringNotU32,
    /// Neither a number nor a string.
    NeitherNumberNorString,
}

/// Reads an identifier that the API sends as a number or as a string. Only
/// what fits in a `u32` is read; anything else is an error, never altered.
pub fn try_str_to_u32(value: &IdValue) -> (r: Result<u32, IdValueError>)
    ensures
        r == match value {
            IdValue::Number(Some(n)) => if *n <= u32::MAX {
                Ok(*n as u32)
            } else {
                Err(IdValueError::NumberNotU32)
            },
            IdValue::Number(None) => Err(IdValueError::NumberNotU64),
            IdValue::Text(s) => match spec_parse_u32(s@) {
                Some(v) => Ok(v),
                None => Err(IdValueError::StringNotU32),
            },
            IdValue::Other => Err(IdValueError::NeitherNumberNorString),
        },
{
    match value {
        IdValue::Number(Some(n)) => if *n <= 0xffff_ffffu64 {
            Ok(*n as u32)
        } else {
            Err(IdValueError::NumberNotU32)
        },
        IdValue::Number(None) => Err(IdValueError::NumberNotU64),
        IdValue::Text(s) => {
            let v = chars_of(s.as_str());
            match parse_u32(v.as_slice()) {
                Some(x) => Ok(x),
                None => Err(IdValueError::StringNotU32),
            }
        },
        IdValue::Other => Err(IdValueError::NeitherNumberNorString),
    }
}


/// The page types of a gallery collapsed into one string of short forms, one
/// character per page, as the database stores them.
pub open spec fn spec_page_types(pages: Seq<Image>) -> Seq<char> {
    pages.map_values(|p: Image| p.t.short_char())
}

pub fn page_types_of(pages: &Vec<Image>) -> (r: String)
    ensures
        r@ == spec_page_types(pages@),
{
    let mut r = String::new();
    let mut i: usize = 0;
    while i < pages.len()
        invariant
            i <= pages@.len(),
            r@ == spec_page_types(pages@.take(i as int)),
        decreases pages.len() - i,
    {
        push_char(&mut r, pages[i].t.short_code());
        assert(spec_page_types(pages@.take(i + 1)) =~= spec_page_types(pages@.take(i as int)).push(
            pages@[i as int].t.short_char(),
        ));
        i = i + 1;
    }
    assert(pages@.take(pages.len() as int) =~= pages@);
    r
}

/// The characters of an optional string.
pub open spec fn opt_view(o: Option<String>) -> Option<Seq<char>> {
    match o {
        Some(s) => Some(s@),
        None => None,
    }
}

/// The characters of an optional string, with an empty string read as absent.
pub open spec fn nonempty_view(o: Option<String>) -> Option<Seq<char>> {
    match o {
        Some(s) => if s@.len() > 0 { Some(s@) } else { None },
        None => None,
    }
}

/// A copy of the string if there is one and it is not empty.
pub fn nonempty_or_none(o: &Option<String>) -> (r: Option<String>)
    ensures
        opt_view(r) == nonempty_view(*o),
{
    match o {
        Some(s) => if s.as_str().is_empty() { None } else { Some(s.clone()) },
        None => None,
    }
}

/// A row of the table `Hentai`.
#[derive(Clone, Debug, PartialEq, Eq)]
pub struct HentaiDbRow {
    pub id: u32,
    pub cover_type: String,
    pub media_id: u32,
    pub num_favorites: u32,
    pub num_pages: u16,
    pub page_types: String,
    pub scanlator: Option<String>,
    pub title_english: Option<String>,
    pub title_japanese: Option<String>,
    pub title_pretty: Option<String>,
    pub upload_date: i64,
}

/// What one write of search results does to the database: the rows of
/// `Hentai` and `Tag` to insert or replace, the galleries whose rows of
/// `Hentai_Tag` are deleted first, and the rows of `Hentai_Tag` then inserted.
#[derive(Clone, Debug, PartialEq, Eq)]
pub struct DbWriteBatch {
    pub hentai: Vec<HentaiDbRow>,
    pub tags: Vec<Tag>,
    pub hentai_tag_delete_ids: Vec<u32>,
    pub hentai_tags: Vec<(u32, u32)>,
}

/// Which statements of a write are run: a statement whose list of rows is
/// empty would hold no values, so it is left out.
#[derive(Clone, Copy, Debug, PartialEq, Eq, Structural)]
pub struct DbStatements {
    /// Insert or replace the rows of `Hentai`.
    pub hentai: bool,
    /// Insert or replace the rows of `Tag`.
    pub tags: bool,
    /// Delete the old rows of `Hentai_Tag` of the galleries written.
    pub hentai_tag_delete: bool,
    /// Insert the rows of `Hentai_Tag`.
    pub hentai_tag_insert: bool,
}

impl DbWriteBatch {
    /// The statements to run: exactly those whose list of rows is not empty.
    pub fn statements(&self) -> (r: DbStatements)
        ensures
            r.hentai == (self.hentai@.len() > 0),
            r.tags == (self.tags@.len() > 0),
            r.hentai_tag_delete == (self.hentai_tag_delete_ids@.len() > 0),
            r.hentai_tag_insert == (self.hentai_tags@.len() > 0),
    {
        DbStatements {
            hentai: self.hentai.len() > 0,
            tags: self.tags.len() > 0,
            hentai_tag_delete: self.hentai_tag_delete_ids.len() > 0,
            hentai_tag_insert: self.hentai_tags.len() > 0,
        }
    }
}

pub open spec fn has_pages(h: HentaiSearchResponse) -> bool {
    h.images.pages@.len() > 0
}

/// The galleries that have pages, in order.
pub open spec fn with_pages(hs: Seq<HentaiSearchResponse>) -> Seq<HentaiSearchResponse> {
    hs.filter(|h: HentaiSearchResponse| has_pages(h))
}

/// The tags of all galleries, in order.
pub open spec fn all_tags(hs: Seq<HentaiSearchResponse>) -> Seq<Tag> {
    hs.map_values(|h: HentaiSearchResponse| h.tags@).flatten()
}

/// The pairs (gallery, tag) of one gallery, in the order of its tags.
pub open spec fn tag_pairs(h: HentaiSearchResponse) -> Seq<(u32, u32)> {
    h.tags@.map_values(|t: Tag| (h.id, t.id))
}

/// The pairs (gallery, tag) of all galleries that have pages, in order.
pub open spec fn all_tag_pairs(hs: Seq<HentaiSearchResponse>) -> Seq<(u32, u32)> {
    with_pages(hs).map_values(|h: HentaiSearchResponse| tag_pairs(h)).flatten()
}

/// The row of `Hentai` that a gallery gives: page types collapsed, and empty
/// scanlator or titles stored as absent.
pub open spec fn row_matches(r: HentaiDbRow, h: HentaiSearchResponse) -> bool {
    &&& r.id == h.id
    &&& r.cover_type@ == h.images.cover.t.spec_short_name()
    &&& r.media_id == h.media_id
    &&& r.num_favorites == h.num_favorites
    &&& r.num_pages == h.num_pages
    &&& r.page_types@ == spec_page_types(h.images.pages@)
    &&& opt_view(r.scanlator) == nonempty_view(h.scanlator)
    &&& opt_view(r.title_english) == nonempty_view(h.title.english)
    &&& opt_view(r.title_japanese) == nonempty_view(h.title.japanese)
    &&& opt_view(r.title_pretty) == nonempty_view(h.title.pretty)
    &&& r.upload_date == h.upload_date
}

/// The row of `Hentai` for one gallery.
pub fn hentai_db_row(h: &HentaiSearchResponse) -> (r: HentaiDbRow)
    ensures
        row_matches(r, *h),
{
    HentaiDbRow {
        id: h.id,
        cover_type: h.images.cover.t.short_name(),
        media_id: h.media_id,
        num_favorites: h.num_favorites,
        num_pages: h.num_pages,
        page_types: page_types_of(&h.images.pages),
        scanlator: nonempty_or_none(&h.scanlator),
        title_english: nonempty_or_none(&h.title.english),
        title_japanese: nonempty_or_none(&h.title.japanese),
        title_pretty: nonempty_or_none(&h.title.pretty),
        upload_date: h.upload_date,
    }
}

impl TagSearchResponse {
    /// The rows that writing these galleries to the database inserts or
    /// deletes, in one transaction: every gallery's tags, every gallery's
    /// old tag links deleted, and rows and tag links only for galleries that
    /// have pages.
    pub fn db_write_batch(search_response: &Vec<HentaiSearchResponse>) -> (b: DbWriteBatch)
        ensures
            b.hentai@.len() == with_pages(search_response@).len(),
            forall|k: int| 0 <= k < b.hentai@.len() ==> row_matches(#[trigger] b.hentai@[k], with_pages(search_response@)[k]),
            b.tags@ == all_tags(search_response@),
            b.hentai_tag_delete_ids@ == search_response@.map_values(|h: HentaiSearchResponse| h.id),
            b.hentai_tags@ == all_tag_pairs(search_response@),
    {
        let ghost hs = search_response@;
        let mut hentai: Vec<HentaiDbRow> = Vec::new();
        let mut tags: Vec<Tag> = Vec::new();
        let mut ids: Vec<u32> = Vec::new();
        let mut pairs: Vec<(u32, u32)> = Vec::new();
        let mut i: usize = 0;
        while i < search_response.len()
            invariant
                hs == search_response@,
                i <= hs.len(),
                hentai@.len() == with_pages(hs.take(i as int)).len(),
                forall|k: int| 0 <= k < hentai@.len() ==> row_matches(#[trigger] hentai@[k], with_pages(hs.take(i as int))[k]),
                tags@ == all_tags(hs.take(i as int)),
                ids@ == hs.take(i as int).map_values(|h: HentaiSearchResponse| h.id),
                pairs@ == all_tag_pairs(hs.take(i as int)),
            decreases hs.len() - i,
        {
            let h = &search_response[i];
            let ghost prev = hs.take(i as int);
            let ghost next = hs.take(i + 1);
            assert(next =~= prev.push(*h));
            proof {
                prev.lemma_filter_push(*h, |h: HentaiSearchResponse| has_pages(h));
                prev.map_values(|h: HentaiSearchResponse| h.tags@).lemma_flatten_push(h.tags@);
                assert(next.map_values(|h: HentaiSearchResponse| h.tags@) =~= prev.map_values(|h: HentaiSearchResponse| h.tags@).push(h.tags@));
            }
            let ghost tags0 = tags@;
            let mut j: usize = 0;
            while j < h.tags.len()
                invariant
                    j <= h.tags@.len(),
                    tags@ == tags0 + h.tags@.take(j as int),
                decreases h.tags@.len() - j,
            {
                tags.push(h.tags[j].duplicate());
                assert(tags0 + h.tags@.take(j + 1) =~= (tags0 + h.tags@.take(j as int)).push(h.tags@[j as int]));
                j = j + 1;
            }
            assert(h.tags@.take(h.tags@.len() as int) =~= h.tags@);
            ids.push(h.id);
            assert(next.map_values(|h: HentaiSearchResponse| h.id) =~= prev.map_values(|h: HentaiSearchResponse| h.id).push(h.id));
            if h.images.pages.len() > 0 {
                let ghost hentai0 = hentai@;
                hentai.push(hentai_db_row(h));
                assert(with_pages(next) == with_pages(prev).push(*h));
                assert forall|k: int| 0 <= k < hentai@.len() implies row_matches(#[trigger] hentai@[k], with_pages(next)[k]) by {
                    if k < hentai0.len() {
                        assert(hentai@[k] == hentai0[k]);
                        assert(with_pages(next)[k] == with_pages(prev)[k]);
                    }
                }
                let ghost pairs0 = pairs@;
                let mut j: usize = 0;
                while j < h.tags.len()
                    invariant
                        j <= h.tags@.len(),
                        pairs@ == pairs0 + tag_pairs(*h).take(j as int),
                    decreases h.tags@.len() - j,
                {
                    pairs.push((h.id, h.tags[j].id));
                    assert(pairs0 + tag_pairs(*h).take(j + 1) =~= (pairs0 + tag_pairs(*h).take(j as int)).push((h.id, h.tags@[j as int].id)));
                    j = j + 1;
                }
                assert(tag_pairs(*h).take(tag_pairs(*h).len() as int) =~= tag_pairs(*h));
                proof {
                    with_pages(prev).map_values(|h: HentaiSearchResponse| tag_pairs(h)).lemma_flatten_push(tag_pairs(*h));
                    assert(with_pages(next).map_values(|h: HentaiSearchResponse| tag_pairs(h)) =~= with_pages(prev).map_values(|h: HentaiSearchResponse| tag_pairs(h)).push(tag_pairs(*h)));
                }
            } else {
                assert(with_pages(next) == with_pages(prev));
            }
            i = i + 1;
        }
        assert(hs.take(hs.len() as int) =~= hs);
        DbWriteBatch { hentai, tags, hentai_tag_delete_ids: ids, hentai_tags: pairs }
    }
}


proof fn lemma_tag_link_sources(hs: Seq<HentaiSearchResponse>, n: int)
    requires
        0 <= n < all_tag_pairs(hs).len(),
    ensures
        exists|k: int| 0 <= k < with_pages(hs).len() && #[trigger] with_pages(hs)[k].id == all_tag_pairs(hs)[n].0,
        exists|m: int| 0 <= m < all_tags(hs).len() && #[trigger] all_tags(hs)[m].id == all_tag_pairs(hs)[n].1,
    decreases hs.len(),
{
    if hs.len() == 0 {
        assert(with_pages(hs) =~= Seq::<HentaiSearchResponse>::empty()) by {
            reveal(Seq::filter);
        }
        assert(all_tag_pairs(hs) =~= Seq::<(u32, u32)>::empty());
    } else {
        let prev = hs.drop_last();
        let h = hs.last();
        assert(hs =~= prev.push(h));
        prev.lemma_filter_push(h, |h: HentaiSearchResponse| has_pages(h));
        prev.map_values(|h: HentaiSearchResponse| h.tags@).lemma_flatten_push(h.tags@);
        assert(hs.map_values(|h: HentaiSearchResponse| h.tags@) =~= prev.map_values(|h: HentaiSearchResponse| h.tags@).push(h.tags@));
        assert(all_tags(hs) =~= all_tags(prev) + h.tags@);
        let lp = all_tag_pairs(prev).len();
        if has_pages(h) {
            assert(with_pages(hs) == with_pages(prev).push(h));
            with_pages(prev).map_values(|h: HentaiSearchResponse| tag_pairs(h)).lemma_flatten_push(tag_pairs(h));
            assert(with_pages(hs).map_values(|h: HentaiSearchResponse| tag_pairs(h)) =~= with_pages(prev).map_values(|h: HentaiSearchResponse| tag_pairs(h)).push(tag_pairs(h)));
            assert(all_tag_pairs(hs) =~= all_tag_pairs(prev) + tag_pairs(h));
            if n < lp {
                lemma_tag_link_sources(prev, n);
                let k = choose|k: int| 0 <= k < with_pages(prev).len() && #[trigger] with_pages(prev)[k].id == all_tag_pairs(prev)[n].0;
                let m = choose|m: int| 0 <= m < all_tags(prev).len() && #[trigger] all_tags(prev)[m].id == all_tag_pairs(prev)[n].1;
                assert(with_pages(hs)[k] == with_pages(prev)[k]);
                assert(all_tags(hs)[m] == all_tags(prev)[m]);
            } else {
                let k = with_pages(prev).len() as int;
                assert(with_pages(hs)[k] == h);
                let m = all_tags(prev).len() + (n - lp);
                assert(all_tags(hs)[m] == h.tags@[n - lp]);
                assert(all_tag_pairs(hs)[n] == tag_pairs(h)[n - lp]);
            }
        } else {
            assert(with_pages(hs) == with_pages(prev));
            lemma_tag_link_sources(prev, n);
            let m = choose|m: int| 0 <= m < all_tags(prev).len() && #[trigger] all_tags(prev)[m].id == all_tag_pairs(prev)[n].1;
            assert(all_tags(hs)[m] == all_tags(prev)[m]);
        }
    }
}

/// Some gallery row of the batch has the gallery of this link.
pub open spec fn link_has_gallery_row(b: DbWriteBatch, link: (u32, u32)) -> bool {
    exists|k: int| 0 <= k < b.hentai@.len() && #[trigger] b.hentai@[k].id == link.0
}

/// Some tag row of the batch has the tag of this link.
pub open spec fn link_has_tag_row(b: DbWriteBatch, link: (u32, u32)) -> bool {
    exists|m: int| 0 <= m < b.tags@.len() && #[trigger] b.tags@[m].id == link.1
}

/// Law: in what one write of search results puts in the database, every link
/// between a gallery and a tag refers to a gallery row and a tag row of the
/// same write, and every gallery row has at least one page.
pub proof fn lemma_batch_links_refer_to_rows(hs: Seq<HentaiSearchResponse>, b: DbWriteBatch)
    requires
        b.hentai@.len() == with_pages(hs).len(),
        forall|k: int| 0 <= k < b.hentai@.len() ==> row_matches(#[trigger] b.hentai@[k], with_pages(hs)[k]),
        b.tags@ == all_tags(hs),
        b.hentai_tags@ == all_tag_pairs(hs),
    ensures
        forall|n: int| 0 <= n < b.hentai_tags@.len() ==> link_has_gallery_row(b, #[trigger] b.hentai_tags@[n]),
        forall|n: int| 0 <= n < b.hentai_tags@.len() ==> link_has_tag_row(b, #[trigger] b.hentai_tags@[n]),
        forall|k: int| 0 <= k < b.hentai@.len() ==> (#[trigger] b.hentai@[k]).page_types@.len() > 0,
{
    assert forall|n: int| 0 <= n < b.hentai_tags@.len() implies link_has_gallery_row(b, #[trigger] b.hentai_tags@[n]) by {
        lemma_tag_link_sources(hs, n);
        let k = choose|k: int| 0 <= k < with_pages(hs).len() && #[trigger] with_pages(hs)[k].id == all_tag_pairs(hs)[n].0;
        assert(row_matches(b.hentai@[k], with_pages(hs)[k]));
        assert(b.hentai@[k].id == b.hentai_tags@[n].0);
    }
    assert forall|n: int| 0 <= n < b.hentai_tags@.len() implies link_has_tag_row(b, #[trigger] b.hentai_tags@[n]) by {
        lemma_tag_link_sources(hs, n);
        let m = choose|m: int| 0 <= m < all_tags(hs).len() && #[trigger] all_tags(hs)[m].id == all_tag_pairs(hs)[n].1;
        assert(b.tags@[m].id == b.hentai_tags@[n].1);
    }
    assert forall|k: int| 0 <= k < b.hentai@.len() implies (#[trigger] b.hentai@[k]).page_types@.len() > 0 by {
        assert(row_matches(b.hentai@[k], with_pages(hs)[k]));
        hs.lemma_filter_pred(|h: HentaiSearchResponse| has_pages(h), k);
    }
}

} // verus!
