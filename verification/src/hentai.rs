//! A gallery ready to be downloaded: where its images come from, what they are
//! called, and where its CBZ file goes in the library.
use vstd::prelude::*;
use crate::api_response::{Tag, ImageType, image_type_of_chars, spec_image_type, nonempty_view};
use crate::config::TitleType;
use crate::decimal::{spec_decimal, pad_zeros, format_u32, format_u64, format_u64_padded5};
use crate::error::HentaiNewError;
use crate::text::{chars_of, push_char, graphemes, views, utf8_len, utf8_len_of, extended_graphemes, lemma_utf8_len_concat};
use vstd::seq_lib::lemma_flatten_concat;

verus! {

/// Longest title, in bytes, that a CBZ file name holds: 255 B for the whole
/// file name minus room for the identifier and the extension.
pub const TITLE_BYTES_MAX: u32 = 243;

/// A character that file names on Windows may not hold.
pub open spec fn is_forbidden_in_filename(c: char) -> bool {
    c == '\\' || c == '/' || c == ':' || c == '*' || c == '?' || c == '"' || c == '<' || c == '>'
        || c == '|' || c == '\t' || c == '\n'
}

/// `s` without the characters that file names may not hold.
pub open spec fn strip_forbidden(s: Seq<char>) -> Seq<char>
    decreases s.len(),
{
    if s.len() == 0 {
        s
    } else if is_forbidden_in_filename(s.last()) {
        strip_forbidden(s.drop_last())
    } else {
        strip_forbidden(s.drop_last()).push(s.last())
    }
}

pub fn strip_forbidden_chars(s: &str) -> (r: String)
    ensures
        r@ == strip_forbidden(s@),
{
    let v = chars_of(s);
    let mut r = String::new();
    let mut i: usize = 0;
    while i < v.len()
        invariant
            i <= v@.len(),
            v@ == s@,
            r@ == strip_forbidden(v@.take(i as int)),
        decreases v.len() - i,
    {
        let c = v[i];
        assert(v@.take(i + 1).drop_last() =~= v@.take(i as int));
        if !(c == '\\' || c == '/' || c == ':' || c == '*' || c == '?' || c == '"' || c == '<'
            || c == '>' || c == '|' || c == '\t' || c == '\n') {
            push_char(&mut r, c);
        }
        i = i + 1;
    }
    assert(v@.take(v.len() as int) =~= v@);
    r
}

/// The graphemes that fit in the title, counted the way the byte count of
/// each grapheme is added up in a 16-bit counter: each length is taken modulo
/// 2^16, and graphemes are kept while the running sum stays at most 243.
pub open spec fn kept_graphemes(gs: Seq<Seq<char>>, count: nat) -> Seq<Seq<char>>
    decreases gs.len(),
{
    if gs.len() == 0 {
        gs
    } else {
        let c = count + utf8_len(gs[0]) % 65536;
        if c <= TITLE_BYTES_MAX {
            seq![gs[0]] + kept_graphemes(gs.drop_first(), c)
        } else {
            Seq::empty()
        }
    }
}

/// Whether adding up the byte counts goes past what the 16-bit counter holds
/// before the running sum first exceeds 243.
pub open spec fn count_overflows(gs: Seq<Seq<char>>, count: nat) -> bool
    decreases gs.len(),
{
    if gs.len() == 0 {
        false
    } else {
        let c = count + utf8_len(gs[0]) % 65536;
        if c > 65535 {
            true
        } else if c <= TITLE_BYTES_MAX {
            count_overflows(gs.drop_first(), c)
        } else {
            false
        }
    }
}

/// The leading graphemes that fit in the title, joined.
pub fn take_graphemes_within(gs: &Vec<String>) -> (r: String)
    requires
        !count_overflows(views(gs@), 0),
    ensures
        r@ == kept_graphemes(views(gs@), 0).flatten(),
{
    let ghost all = views(gs@);
    let mut r = String::new();
    let mut count: u32 = 0;
    let mut i: usize = 0;
    let mut done = false;
    assert(all.skip(0) =~= all);
    while i < gs.len() && !done
        invariant
            all == views(gs@),
            i <= gs@.len(),
            count <= TITLE_BYTES_MAX,
            kept_graphemes(all, 0).flatten() == r@ + kept_graphemes(all.skip(i as int), count as nat).flatten(),
            !count_overflows(all.skip(i as int), count as nat),
            done ==> kept_graphemes(all.skip(i as int), count as nat) == Seq::<Seq<char>>::empty(),
        decreases gs.len() - i + (if done { 0int } else { 1int }),
    {
        let g = gs[i].as_str();
        let l = utf8_len_of(g) % 65536;
        let ghost rest = all.skip(i as int);
        assert(rest[0] == gs@[i as int]@);
        assert(rest.drop_first() =~= all.skip(i + 1));
        let c: u128 = count as u128 + l;
        if c <= 243 {
            let ghost kept_rest = kept_graphemes(all.skip(i + 1), c as nat);
            assert(kept_graphemes(rest, count as nat) == seq![rest[0]] + kept_rest);
            assert((seq![rest[0]] + kept_rest).drop_first() =~= kept_rest);
            assert((seq![rest[0]] + kept_rest).flatten() == rest[0] + kept_rest.flatten());
            r.append(g);
            count = c as u32;
            i = i + 1;
        } else {
            done = true;
        }
    }
    if !done {
        assert(all.skip(i as int) =~= Seq::<Seq<char>>::empty());
    }
    assert(kept_graphemes(all.skip(i as int), count as nat).flatten() =~= Seq::<char>::empty());
    assert(r@ + Seq::<char>::empty() =~= r@);
    r
}

/// The title as it stands in the CBZ file name: without forbidden characters,
/// and, where its byte length taken modulo 2^16 exceeds 243, cut to the
/// leading graphemes that fit.
pub open spec fn spec_cbz_title(raw: Seq<char>) -> Seq<char> {
    let f = strip_forbidden(raw);
    if utf8_len(f) % 65536 > TITLE_BYTES_MAX {
        kept_graphemes(extended_graphemes(f), 0).flatten()
    } else {
        f
    }
}

/// Whether shortening the title keeps the 16-bit byte counter from overflowing.
pub open spec fn title_count_fits(raw: Seq<char>) -> bool {
    let f = strip_forbidden(raw);
    !(utf8_len(f) % 65536 > TITLE_BYTES_MAX && count_overflows(extended_graphemes(f), 0))
}

/// Removing characters does not make a string longer in bytes.
proof fn lemma_strip_forbidden_shorter(s: Seq<char>)
    ensures
        utf8_len(strip_forbidden(s)) <= utf8_len(s),
    decreases s.len(),
{
    if s.len() > 0 {
        lemma_strip_forbidden_shorter(s.drop_last());
        let p = strip_forbidden(s.drop_last());
        assert(p.push(s.last()).drop_last() =~= p);
    }
}

/// The kept graphemes are the first graphemes.
proof fn lemma_kept_is_prefix(gs: Seq<Seq<char>>, count: nat)
    ensures
        kept_graphemes(gs, count).len() <= gs.len(),
        kept_graphemes(gs, count) == gs.take(kept_graphemes(gs, count).len() as int),
    decreases gs.len(),
{
    if gs.len() > 0 {
        let c = count + utf8_len(gs[0]) % 65536;
        if c <= TITLE_BYTES_MAX {
            lemma_kept_is_prefix(gs.drop_first(), c);
            let k = kept_graphemes(gs.drop_first(), c);
            assert(seq![gs[0]] + k =~= gs.take(k.len() as int + 1));
        } else {
            assert(gs.take(0) =~= Seq::<Seq<char>>::empty());
        }
    } else {
        assert(gs.take(0) =~= gs);
    }
}

/// Where the graphemes together are shorter than 2^16 bytes, the kept
/// graphemes add at most 243 bytes to what was counted before.
proof fn lemma_kept_within_limit(gs: Seq<Seq<char>>, count: nat)
    requires
        count <= TITLE_BYTES_MAX,
        utf8_len(gs.flatten()) < 65536,
    ensures
        utf8_len(kept_graphemes(gs, count).flatten()) + count <= TITLE_BYTES_MAX,
    decreases gs.len(),
{
    if gs.len() > 0 {
        let g = gs[0];
        let rest = gs.drop_first();
        assert(gs.flatten() == g + rest.flatten());
        lemma_utf8_len_concat(g, rest.flatten());
        let c = count + utf8_len(g) % 65536;
        assert(utf8_len(g) % 65536 == utf8_len(g));
        if c <= TITLE_BYTES_MAX {
            lemma_kept_within_limit(rest, c);
            let k = kept_graphemes(rest, c);
            assert((seq![g] + k).drop_first() =~= k);
            assert((seq![g] + k).flatten() == g + k.flatten());
            lemma_utf8_len_concat(g, k.flatten());
        } else {
            assert(kept_graphemes(gs, count).flatten() =~= Seq::<char>::empty());
        }
    } else {
        assert(kept_graphemes(gs, count).flatten() =~= Seq::<char>::empty());
    }
}

/// Law: stripping a title keeps, in order, exactly its characters other than
/// the eleven that Windows file names refuse: `\ / : * ? " < > |`, tab and
/// line feed.
pub proof fn lemma_strip_forbidden_drops_exactly_windows_chars(s: Seq<char>)
    ensures
        strip_forbidden(s) == s.filter(|c: char| !(c == '\\' || c == '/' || c == ':' || c == '*' || c == '?' || c == '"' || c == '<' || c == '>' || c == '|' || c == '\t' || c == '\n')),
        forall|i: int| 0 <= i < strip_forbidden(s).len() ==> {
            let c = #[trigger] strip_forbidden(s)[i];
            !(c == '\\' || c == '/' || c == ':' || c == '*' || c == '?' || c == '"' || c == '<' || c == '>' || c == '|' || c == '\t' || c == '\n')
        },
    decreases s.len(),
{
    let keep = |c: char| !(c == '\\' || c == '/' || c == ':' || c == '*' || c == '?' || c == '"' || c == '<' || c == '>' || c == '|' || c == '\t' || c == '\n');
    if s.len() == 0 {
        assert(s.filter(keep) =~= s) by {
            reveal(Seq::filter);
        }
    } else {
        lemma_strip_forbidden_drops_exactly_windows_chars(s.drop_last());
        assert(s =~= s.drop_last().push(s.last()));
        s.drop_last().lemma_filter_push(s.last(), keep);
    }
    assert forall|i: int| 0 <= i < strip_forbidden(s).len() implies #[trigger] keep(strip_forbidden(s)[i]) by {
        s.filter_lemma(keep);
    }
}

/// Law: a sequence of graphemes that together, with what was counted before,
/// stay under 2^16 bytes never overflows the 16-bit counter, however many
/// bytes past 243 they add up to.
pub proof fn lemma_short_graphemes_do_not_overflow(gs: Seq<Seq<char>>, count: nat)
    requires
        count <= TITLE_BYTES_MAX,
        utf8_len(gs.flatten()) + count < 65536,
    ensures
        !count_overflows(gs, count),
    decreases gs.len(),
{
    if gs.len() > 0 {
        let g = gs[0];
        let rest = gs.drop_first();
        assert(gs.flatten() == g + rest.flatten());
        lemma_utf8_len_concat(g, rest.flatten());
        assert(utf8_len(g) % 65536 == utf8_len(g));
        let c = count + utf8_len(g);
        if c <= TITLE_BYTES_MAX {
            lemma_short_graphemes_do_not_overflow(rest, c);
        }
    }
}

/// The title for the CBZ file name. It is the beginning of the title without
/// its forbidden characters, and where the title is shorter than 2^16 bytes,
/// it is at most 243 bytes long.
pub fn cbz_title(raw: &str) -> (r: String)
    requires
        title_count_fits(raw@),
    ensures
        r@ == spec_cbz_title(raw@),
        r@.len() <= strip_forbidden(raw@).len(),
        r@ == strip_forbidden(raw@).take(r@.len() as int),
        utf8_len(raw@) < 65536 ==> utf8_len(r@) <= TITLE_BYTES_MAX,
        forall|i: int| 0 <= i < r@.len() ==> {
            let c = #[trigger] r@[i];
            !(c == '\\' || c == '/' || c == ':' || c == '*' || c == '?' || c == '"' || c == '<' || c == '>' || c == '|' || c == '\t' || c == '\n')
        },
{
    let f = strip_forbidden_chars(raw);
    proof {
        lemma_strip_forbidden_shorter(raw@);
        lemma_strip_forbidden_drops_exactly_windows_chars(raw@);
    }
    if utf8_len_of(f.as_str()) % 65536 > 243 {
        let gs = graphemes(f.as_str());
        let r = take_graphemes_within(&gs);
        proof {
            let all = views(gs@);
            lemma_kept_is_prefix(all, 0);
            let k = kept_graphemes(all, 0);
            lemma_flatten_concat(k, all.skip(k.len() as int));
            assert(k + all.skip(k.len() as int) =~= all);
            assert(f@ == k.flatten() + all.skip(k.len() as int).flatten());
            assert(r@ =~= f@.take(r@.len() as int));
            if utf8_len(raw@) < 65536 {
                lemma_kept_within_limit(all, 0);
            }
        }
        r
    } else {
        proof {
            assert(f@.take(f@.len() as int) =~= f@);
        }
        f
    }
}

/// Whether the title can be shortened without overflowing the byte counter.
pub fn cbz_title_fits(raw: &str) -> (r: bool)
    ensures
        r == title_count_fits(raw@),
        utf8_len(raw@) < 65536 ==> r,
{
    let f = strip_forbidden_chars(raw);
    proof {
        lemma_strip_forbidden_shorter(raw@);
    }
    if utf8_len_of(f.as_str()) % 65536 > 243 {
        let gs = graphemes(f.as_str());
        proof {
            if utf8_len(raw@) < 65536 {
                lemma_short_graphemes_do_not_overflow(views(gs@), 0);
            }
        }
        !graphemes_count_overflows(&gs)
    } else {
        true
    }
}

/// Whether adding up the byte counts of `gs` overflows the 16-bit counter.
pub fn graphemes_count_overflows(gs: &Vec<String>) -> (r: bool)
    ensures
        r == count_overflows(views(gs@), 0),
{
    let ghost all = views(gs@);
    let mut count: u32 = 0;
    let mut i: usize = 0;
    assert(all.skip(0) =~= all);
    while i < gs.len()
        invariant
            all == views(gs@),
            i <= gs@.len(),
            count <= TITLE_BYTES_MAX,
            count_overflows(all, 0) == count_overflows(all.skip(i as int), count as nat),
        decreases gs.len() - i,
    {
        let l = utf8_len_of(gs[i].as_str()) % 65536;
        let ghost rest = all.skip(i as int);
        assert(rest[0] == gs@[i as int]@);
        assert(rest.drop_first() =~= all.skip(i + 1));
        let c: u128 = count as u128 + l;
        if c > 65535 {
            return true;
        } else if c > 243 {
            return false;
        }
        count = c as u32;
        i = i + 1;
    }
    assert(all.skip(i as int) =~= Seq::<Seq<char>>::empty());
    false
}


/// A row of the table `Hentai` as a gallery is loaded from it: the page types
/// are one short form per page. The upload date is in seconds since the Unix epoch.
#[derive(Clone, Debug, PartialEq, Eq)]
pub struct HentaiTableRow {
    pub id: u32,
    pub media_id: u32,
    pub num_pages: u16,
    pub page_types: String,
    pub scanlator: Option<String>,
    pub title_english: Option<String>,
    pub title_japanese: Option<String>,
    pub title_pretty: Option<String>,
    pub upload_date: i64,
}

/// A gallery ready to be downloaded.
#[derive(Clone, Debug, PartialEq, Eq)]
pub struct Hentai {
    /// Identifier on nhentai.net.
    pub id: u32,
    /// Path of the CBZ file.
    pub cbz_filepath: String,
    /// Address of the gallery on nhentai.net.
    pub gallery_url: String,
    /// File names of the images, the same in the download directory and in the CBZ file.
    pub images_filename: Vec<String>,
    /// Addresses of the images.
    pub images_url: Vec<String>,
    /// Directory of the library.
    pub library_path: String,
    pub num_pages: u16,
    pub scanlator: Option<String>,
    pub tags: Vec<Tag>,
    pub title_pretty: Option<String>,
    /// Upload date in seconds since the Unix epoch.
    pub upload_date: i64,
}

/// The English title, or nothing.
pub open spec fn english_or_empty(row: HentaiTableRow) -> Seq<char> {
    match row.title_english {
        Some(s) => s@,
        None => Seq::empty(),
    }
}

/// The title that names the CBZ file: the one that the setting chooses, or
/// the English title where the chosen one is absent or empty.
pub open spec fn spec_filename_title(row: HentaiTableRow, ty: TitleType) -> Seq<char> {
    match ty {
        TitleType::English => english_or_empty(row),
        TitleType::Japanese => match nonempty_view(row.title_japanese) {
            Some(t) => t,
            None => english_or_empty(row),
        },
        TitleType::Pretty => match nonempty_view(row.title_pretty) {
            Some(t) => t,
            None => english_or_empty(row),
        },
    }
}

/// Law: the file name takes the title that the setting chooses where it is
/// there and not empty, and the English title (or nothing) otherwise.
pub proof fn lemma_filename_title_follows_setting(row: HentaiTableRow, ty: TitleType)
    ensures
        ty == TitleType::Japanese && row.title_japanese is Some && row.title_japanese->0@.len() > 0
            ==> spec_filename_title(row, ty) == row.title_japanese->0@,
        ty == TitleType::Pretty && row.title_pretty is Some && row.title_pretty->0@.len() > 0
            ==> spec_filename_title(row, ty) == row.title_pretty->0@,
        (ty == TitleType::English
            || (ty == TitleType::Japanese && (row.title_japanese is None || row.title_japanese->0@.len() == 0))
            || (ty == TitleType::Pretty && (row.title_pretty is None || row.title_pretty->0@.len() == 0)))
            ==> spec_filename_title(row, ty) == (if row.title_english is Some {
                row.title_english->0@
            } else {
                Seq::<char>::empty()
            }),
{
}

/// First identifier of the directory of a split library that holds `id`.
pub open spec fn split_low(id: u32, split: u32) -> int {
    (id / split) * split
}

/// Last identifier of the directory of a split library that holds `id`.
pub open spec fn split_high(id: u32, split: u32) -> int {
    (id / split + 1) * split - 1
}

/// Whether the last identifier of the directory fits in a `u32`.
pub open spec fn split_fits(id: u32, split: u32) -> bool {
    split == 0 || (id / split + 1) * split <= u32::MAX
}

/// The directory of a split library that holds `id`: `"{low}~{high}/"`, or
/// nothing where the library is not split.
pub open spec fn spec_split_dir(id: u32, split: u32) -> Seq<char> {
    if split == 0 {
        Seq::empty()
    } else {
        spec_decimal(split_low(id, split) as nat) + "~"@ + spec_decimal(split_high(id, split) as nat) + "/"@
    }
}

/// Law: in a split library, the directory of a gallery starts at a multiple
/// of the split, holds exactly that many identifiers, and holds the gallery's.
pub proof fn lemma_split_dir_holds_id(id: u32, split: u32)
    requires
        split > 0,
    ensures
        split_low(id, split) <= id <= split_high(id, split),
        split_high(id, split) - split_low(id, split) + 1 == split,
        split_low(id, split) % (split as int) == 0,
{
    let q = id / split;
    let r = id % split;
    assert(id == q * split + r && 0 <= r < split) by (nonlinear_arith)
        requires split > 0, q == id / split, r == id % split;
    assert((q + 1) * split == q * split + split) by (nonlinear_arith);
    assert((q * split) % (split as int) == 0) by (nonlinear_arith)
        requires split > 0;
}

/// Law: in a split library every gallery, whatever its identifier (also one
/// below the split), lies in the directory `"{lo}~{hi}/"`, where `lo` is its
/// identifier rounded down to a multiple of the split and `hi` is `lo` plus
/// the split minus one.
pub proof fn lemma_split_dir_is_range(id: u32, split: u32)
    requires
        split > 0,
    ensures
        spec_split_dir(id, split) == spec_decimal((id - id % split) as nat) + "~"@
            + spec_decimal((id - id % split + split - 1) as nat) + "/"@,
        spec_split_dir(id, split).len() > 0,
{
    assert((id / split) * split == id - id % split) by (nonlinear_arith)
        requires split > 0;
    assert((id / split + 1) * split == (id / split) * split + split) by (nonlinear_arith);
    reveal_strlit("/");
}

/// Path of the CBZ file: `"{library}{split dir}{id} {title}.cbz"`.
pub open spec fn spec_cbz_filepath(library_path: Seq<char>, id: u32, split: u32, title: Seq<char>) -> Seq<char> {
    library_path + spec_split_dir(id, split) + spec_decimal(id as nat) + " "@ + spec_cbz_title(title) + ".cbz"@
}

/// The image type that a page type character names.
pub open spec fn page_type(c: char) -> ImageType {
    spec_image_type(seq![c])->0
}

/// Every character names an image type.
pub open spec fn valid_page_types(s: Seq<char>) -> bool {
    forall|i: int| 0 <= i < s.len() ==> (#[trigger] spec_image_type(seq![s[i]])) is Some
}

/// Address of image `i` (counting from 0).
pub open spec fn spec_image_url(media_id: u32, i: nat, t: ImageType) -> Seq<char> {
    "https://i.nhentai.net/galleries/"@ + spec_decimal(media_id as nat) + "/"@ + spec_decimal(i + 1) + "."@
        + t.spec_long_name()
}

/// File name of image `i` (counting from 0): the number is padded to five digits.
pub open spec fn spec_image_filename(id: u32, i: nat, t: ImageType) -> Seq<char> {
    spec_decimal(id as nat) + "-"@ + pad_zeros(spec_decimal(i + 1), 5) + "."@ + t.spec_long_name()
}

/// Address of the gallery.
pub open spec fn spec_gallery_url(id: u32) -> Seq<char> {
    "https://nhentai.net/g/"@ + spec_decimal(id as nat) + "/"@
}

pub fn gallery_url(id: u32) -> (r: String)
    ensures
        r@ == spec_gallery_url(id),
{
    let mut r = String::new();
    r.append("https://nhentai.net/g/");
    r.append(format_u32(id).as_str());
    r.append("/");
    r
}

pub fn image_url(media_id: u32, i: u64, t: ImageType) -> (r: String)
    requires
        i < u64::MAX,
    ensures
        r@ == spec_image_url(media_id, i as nat, t),
{
    let mut r = String::new();
    r.append("https://i.nhentai.net/galleries/");
    r.append(format_u32(media_id).as_str());
    r.append("/");
    r.append(format_u64(i + 1).as_str());
    r.append(".");
    r.append(t.long_name().as_str());
    r
}

pub fn image_filename(id: u32, i: u64, t: ImageType) -> (r: String)
    requires
        i < u64::MAX,
    ensures
        r@ == spec_image_filename(id, i as nat, t),
{
    let mut r = String::new();
    r.append(format_u32(id).as_str());
    r.append("-");
    r.append(format_u64_padded5(i + 1).as_str());
    r.append(".");
    r.append(t.long_name().as_str());
    r
}

/// Whether the last identifier of the directory that holds `id` fits in a `u32`.
pub fn library_split_fits(id: u32, split: u32) -> (r: bool)
    ensures
        r == split_fits(id, split),
{
    if split == 0 {
        true
    } else {
        let q: u64 = (id / split) as u64 + 1;
        assert(q * split <= 0x1_0000_0000u64 * 0xffff_ffffu64) by (nonlinear_arith)
            requires q <= 0x1_0000_0000u64, split <= 0xffff_ffffu64;
        q * (split as u64) <= 0xffff_ffffu64
    }
}

pub fn split_dir(id: u32, split: u32) -> (r: String)
    requires
        split_fits(id, split),
    ensures
        r@ == spec_split_dir(id, split),
{
    let mut r = String::new();
    if split != 0 {
        let q = id / split;
        assert((q + 1) * split <= u32::MAX);
        assert(q * split <= (q + 1) * split) by (nonlinear_arith)
            requires split > 0, q >= 0;
        assert(q + 1 <= (q + 1) * split) by (nonlinear_arith)
            requires split > 0, q >= 0;
        let low = q * split;
        let high = (q + 1) * split - 1;
        r.append(format_u32(low).as_str());
        r.append("~");
        r.append(format_u32(high).as_str());
        r.append("/");
    }
    r
}

/// The title that the setting chooses.
pub fn filename_title(row: &HentaiTableRow, ty: TitleType) -> (r: String)
    ensures
        r@ == spec_filename_title(*row, ty),
{
    let english = match &row.title_english {
        Some(s) => s.clone(),
        None => String::new(),
    };
    match ty {
        TitleType::English => english,
        TitleType::Japanese => match &row.title_japanese {
            Some(s) => if s.as_str().is_empty() { english } else { s.clone() },
            None => english,
        },
        TitleType::Pretty => match &row.title_pretty {
            Some(s) => if s.as_str().is_empty() { english } else { s.clone() },
            None => english,
        },
    }
}

/// What building a gallery from its row gives, field by field.
pub open spec fn hentai_built(
    h: Hentai,
    id: u32,
    row: HentaiTableRow,
    tags: Seq<Tag>,
    library_path: Seq<char>,
    split: u32,
    ty: TitleType,
) -> bool {
    let pt = row.page_types@;
    &&& h.id == id
    &&& h.cbz_filepath@ == spec_cbz_filepath(library_path, id, split, spec_filename_title(row, ty))
    &&& h.gallery_url@ == spec_gallery_url(id)
    &&& h.images_filename@.len() == pt.len()
    &&& h.images_url@.len() == pt.len()
    &&& forall|i: int| 0 <= i < pt.len() ==> (#[trigger] h.images_filename@[i])@ == spec_image_filename(id, i as nat, page_type(pt[i]))
    &&& forall|i: int| 0 <= i < pt.len() ==> (#[trigger] h.images_url@[i])@ == spec_image_url(row.media_id, i as nat, page_type(pt[i]))
    &&& h.library_path@ == library_path
    &&& h.num_pages == row.num_pages
    &&& h.scanlator == row.scanlator
    &&& h.tags@ == tags
    &&& h.title_pretty == row.title_pretty
    &&& h.upload_date == row.upload_date
}

/// The error of a row whose number of page types differs from its number of
/// pages: the number of page types cut to 16 bits, and the number of pages.
pub open spec fn is_length_error(e: HentaiNewError, row: HentaiTableRow) -> bool {
    &&& e matches HentaiNewError::HentaiLengthInconsistency { page_types, num_pages }
    &&& e->page_types == row.page_types@.len() % 65536
    &&& e->num_pages == row.num_pages
}

impl Hentai {
    /// Builds a gallery from its row of the table `Hentai` and its tags. The
    /// page types must each name an image type (they come from the
    /// database, which only holds short forms). Fails where the number of
    /// page types differs from the number of pages; the error carries that
    /// number cut to 16 bits.
    pub fn new(
        id: u32,
        row: HentaiTableRow,
        tags: Vec<Tag>,
        library_path: &str,
        library_split: u32,
        filename_title_type: TitleType,
    ) -> (r: Result<Hentai, HentaiNewError>)
        requires
            valid_page_types(row.page_types@),
            row.page_types@.len() == row.num_pages ==> split_fits(id, library_split),
            row.page_types@.len() == row.num_pages ==> title_count_fits(spec_filename_title(row, filename_title_type)),
        ensures
            r is Ok <==> row.page_types@.len() == row.num_pages,
            r matches Ok(h) ==> hentai_built(h, id, row, tags@, library_path@, library_split, filename_title_type),
            r matches Err(e) ==> is_length_error(e, row),
    {
        let pt = chars_of(row.page_types.as_str());
        let mut images_url: Vec<String> = Vec::new();
        let mut images_filename: Vec<String> = Vec::new();
        let mut i: usize = 0;
        while i < pt.len()
            invariant
                pt@ == row.page_types@,
                valid_page_types(pt@),
                i <= pt@.len(),
                images_url@.len() == i,
                images_filename@.len() == i,
                forall|k: int| 0 <= k < i ==> (#[trigger] images_filename@[k])@ == spec_image_filename(id, k as nat, page_type(pt@[k])),
                forall|k: int| 0 <= k < i ==> (#[trigger] images_url@[k])@ == spec_image_url(row.media_id, k as nat, page_type(pt@[k])),
            decreases pt.len() - i,
        {
            let one: [char; 1] = [pt[i]];
            assert(one@ =~= seq![pt@[i as int]]);
            assert(spec_image_type(seq![pt@[i as int]]) is Some);
            let t = match image_type_of_chars(&one) {
                Some(t) => t,
                None => ImageType::Jpg,
            };
            images_url.push(image_url(row.media_id, i as u64, t));
            images_filename.push(image_filename(id, i as u64, t));
            i = i + 1;
        }
        if pt.len() != row.num_pages as usize {
            return Err(HentaiNewError::HentaiLengthInconsistency { page_types: (pt.len() % 65536) as u16, num_pages: row.num_pages });
        }
        let title = filename_title(&row, filename_title_type);
        let mut cbz_filepath = String::new();
        cbz_filepath.append(library_path);
        cbz_filepath.append(split_dir(id, library_split).as_str());
        cbz_filepath.append(format_u32(id).as_str());
        cbz_filepath.append(" ");
        cbz_filepath.append(cbz_title(title.as_str()).as_str());
        cbz_filepath.append(".cbz");
        Ok(Hentai {
            id,
            cbz_filepath,
            gallery_url: gallery_url(id),
            images_filename,
            images_url,
            library_path: library_path.to_owned(),
            num_pages: row.num_pages,
            scanlator: row.scanlator,
            tags,
            title_pretty: row.title_pretty,
            upload_date: row.upload_date,
        })
    }

    /// Builds a gallery as `Hentai::new` does where nothing overflows; `None`
    /// where the lengths agree but the last identifier of the library
    /// directory does not fit in a `u32`, or the 16-bit byte counter that
    /// shortens the title would overflow.
    pub fn new_checked(
        id: u32,
        row: HentaiTableRow,
        tags: Vec<Tag>,
        library_path: &str,
        library_split: u32,
        filename_title_type: TitleType,
    ) -> (r: Option<Result<Hentai, HentaiNewError>>)
        requires
            valid_page_types(row.page_types@),
        ensures
            r is None <==> (row.page_types@.len() == row.num_pages
                && !(split_fits(id, library_split) && title_count_fits(spec_filename_title(row, filename_title_type)))),
            r matches Some(Ok(h)) ==> row.page_types@.len() == row.num_pages
                && hentai_built(h, id, row, tags@, library_path@, library_split, filename_title_type),
            r matches Some(Err(e)) ==> row.page_types@.len() != row.num_pages && is_length_error(e, row),
            split_fits(id, library_split) && utf8_len(spec_filename_title(row, filename_title_type)) < 65536
                ==> r is Some,
    {
        let pt = chars_of(row.page_types.as_str());
        if pt.len() == row.num_pages as usize {
            if !library_split_fits(id, library_split) {
                return None;
            }
            let title = filename_title(&row, filename_title_type);
            if !cbz_title_fits(title.as_str()) {
                return None;
            }
        }
        Some(Hentai::new(id, row, tags, library_path, library_split, filename_title_type))
    }
}


impl Hentai {
    /// Path at which image `i` is downloaded: `"{library}{id}/{file name}"`.
    pub fn image_filepath(&self, i: usize) -> (r: String)
        requires
            i < self.images_filename@.len(),
        ensures
            r@ == self.library_path@ + spec_decimal(self.id as nat) + "/"@ + self.images_filename@[i as int]@,
    {
        let mut r = String::new();
        r.append(self.library_path.as_str());
        r.append(format_u32(self.id).as_str());
        r.append("/");
        r.append(self.images_filename[i].as_str());
        r
    }

    /// Directory into which the images are downloaded: `"{library}{id}"`.
    pub fn images_dir(&self) -> (r: String)
        ensures
            r@ == self.library_path@ + spec_decimal(self.id as nat),
    {
        let mut r = String::new();
        r.append(self.library_path.as_str());
        r.append(format_u32(self.id).as_str());
        r
    }
}

/// Where the metadata of a gallery is loaded from.
#[derive(Clone, Copy, Debug, PartialEq, Eq, Structural)]
pub enum MetadataSource {
    /// Its row of the table `Hentai`.
    Database,
    /// The nhentai.net API, which also writes it to the database.
    Api,
}

/// The database comes first; the API is asked only where the gallery's row
/// could not be loaded from it.
pub fn metadata_source(row_loaded: bool) -> (r: MetadataSource)
    ensures
        r == (if row_loaded { MetadataSource::Database } else { MetadataSource::Api }),
{
    if row_loaded {
        MetadataSource::Database
    } else {
        MetadataSource::Api
    }
}

/// What stands at a path where a file is to be written.
#[derive(Clone, Copy, Debug, PartialEq, Eq, Structural)]
pub enum PathKind {
    /// Nothing, or nothing that could be read.
    Missing,
    File,
    Directory,
    /// Something else, such as a special file.
    Other,
}

/// What to do about a file that is to be written.
#[derive(Clone, Copy, Debug, PartialEq, Eq, Structural)]
pub enum ExistingPath {
    /// Download it.
    Download,
    /// It is there already: skip it.
    Skip,
    /// A directory stands in its way: fail.
    Blocked,
}

/// A file that exists is not downloaded again; a directory in its place is an
/// error; otherwise the file is downloaded.
pub fn existing_path_decision(kind: PathKind) -> (r: ExistingPath)
    ensures
        r == match kind {
            PathKind::File => ExistingPath::Skip,
            PathKind::Directory => ExistingPath::Blocked,
            _ => ExistingPath::Download,
        },
{
    match kind {
        PathKind::File => ExistingPath::Skip,
        PathKind::Directory => ExistingPath::Blocked,
        _ => ExistingPath::Download,
    }
}

/// How many times the images of a gallery are downloaded before giving up.
pub const DOWNLOAD_ATTEMPTS_MAX: u32 = 5;

/// What follows an attempt to download all images of a gallery.
#[derive(Clone, Copy, Debug, PartialEq, Eq, Structural)]
pub enum AttemptOutcome {
    /// All images are there: pack the CBZ file.
    Pack,
    /// Some image failed: try all again.
    Retry,
    /// Some image failed in the last attempt: fail.
    GiveUp,
}

/// After attempt `attempt` (counting from 1): pack once every image was
/// downloaded, otherwise try again until five attempts have failed.
pub fn after_download_attempt(attempt: u32, all_downloaded: bool) -> (r: AttemptOutcome)
    requires
        1 <= attempt <= DOWNLOAD_ATTEMPTS_MAX,
    ensures
        r == (if all_downloaded {
            AttemptOutcome::Pack
        } else if attempt < DOWNLOAD_ATTEMPTS_MAX {
            AttemptOutcome::Retry
        } else {
            AttemptOutcome::GiveUp
        }),
{
    if all_downloaded {
        AttemptOutcome::Pack
    } else if attempt < DOWNLOAD_ATTEMPTS_MAX {
        AttemptOutcome::Retry
    } else {
        AttemptOutcome::GiveUp
    }
}

} // verus!
