//! Searching nhentai.net: the addresses asked, what an answer's status means,
//! the row a gallery answer gives, and how the pages of a tag search are
//! walked and their identifiers gathered.
use vstd::prelude::*;
use vstd::seq_lib::{lemma_multiset_commutative, to_multiset_build};
use crate::api_response::{HentaiSearchResponse, Image, ImageType, page_types_of, spec_page_types, spec_image_type,
    lemma_image_type_names_roundtrip};
use crate::decimal::{spec_decimal, format_u32};
use crate::hentai::{HentaiTableRow, page_type, valid_page_types};

verus! {

/// The row of the table `Hentai` that a gallery answer gives.
pub fn hentai_table_row(r: HentaiSearchResponse) -> (row: HentaiTableRow)
    ensures
        row.id == r.id,
        row.media_id == r.media_id,
        row.num_pages == r.num_pages,
        row.page_types@ == spec_page_types(r.images.pages@),
        row.scanlator == r.scanlator,
        row.title_english == r.title.english,
        row.title_japanese == r.title.japanese,
        row.title_pretty == r.title.pretty,
        row.upload_date == r.upload_date,
{
    let page_types = page_types_of(&r.images.pages);
    HentaiTableRow {
        id: r.id,
        media_id: r.media_id,
        num_pages: r.num_pages,
        page_types,
        scanlator: r.scanlator,
        title_english: r.title.english,
        title_japanese: r.title.japanese,
        title_pretty: r.title.pretty,
        upload_date: r.upload_date,
    }
}

/// Law: the page types that a gallery answer is stored with each name an
/// image type, and reading them back gives the types of the pages in order.
pub proof fn lemma_page_types_roundtrip(pages: Seq<Image>)
    ensures
        spec_page_types(pages).len() == pages.len(),
        valid_page_types(spec_page_types(pages)),
        forall|i: int| 0 <= i < pages.len() ==> page_type(#[trigger] spec_page_types(pages)[i]) == pages[i].t,
{
    let pt = spec_page_types(pages);
    assert forall|i: int| 0 <= i < pages.len() implies spec_image_type(seq![pt[i]]) == Some(pages[i].t) by {
        let t = pages[i].t;
        lemma_image_type_names_roundtrip(t);
        assert(seq![pt[i]] =~= t.spec_short_name());
    }
    assert forall|i: int| 0 <= i < pt.len() implies (#[trigger] spec_image_type(seq![pt[i]])) is Some by {
        assert(spec_image_type(seq![pt[i]]) == Some(pages[i].t));
    }
}

/// Address of the metadata of gallery `id`: the search address followed by the identifier.
pub fn hentai_search_url(nhentai_hentai_search_url: &str, id: u32) -> (r: String)
    ensures
        r@ == nhentai_hentai_search_url@ + spec_decimal(id as nat),
{
    let mut r = String::new();
    r.append(nhentai_hentai_search_url);
    r.append(format_u32(id).as_str());
    r
}

/// The parts joined with `sep` between each two.
pub open spec fn spec_join(parts: Seq<Seq<char>>, sep: Seq<char>) -> Seq<char>
    decreases parts.len(),
{
    if parts.len() == 0 {
        Seq::empty()
    } else if parts.len() == 1 {
        parts[0]
    } else {
        spec_join(parts.drop_last(), sep) + sep + parts.last()
    }
}

/// The characters of each string.
pub open spec fn string_views(v: Seq<String>) -> Seq<Seq<char>> {
    v.map_values(|s: String| s@)
}

/// Address of one page of a tag search:
/// `"{url}?query={tag1}+{tag2}+...&page={page_no}"`. The tags are joined with a
/// literal `+`, which the API reads as "and".
pub fn tag_search_url(nhentai_tag_search_url: &str, nhentai_tags: &Vec<String>, page_no: u32) -> (r: String)
    ensures
        r@ == nhentai_tag_search_url@ + "?query="@ + spec_join(string_views(nhentai_tags@), "+"@) + "&page="@
            + spec_decimal(page_no as nat),
{
    let mut r = String::new();
    r.append(nhentai_tag_search_url);
    r.append("?query=");
    let ghost base = r@;
    let mut i: usize = 0;
    while i < nhentai_tags.len()
        invariant
            i <= nhentai_tags@.len(),
            r@ == base + spec_join(string_views(nhentai_tags@).take(i as int), "+"@),
        decreases nhentai_tags.len() - i,
    {
        let ghost parts = string_views(nhentai_tags@).take(i + 1);
        assert(parts.drop_last() =~= string_views(nhentai_tags@).take(i as int));
        assert(parts.last() == nhentai_tags@[i as int]@);
        if i > 0 {
            r.append("+");
        }
        r.append(nhentai_tags[i].as_str());
        i = i + 1;
    }
    assert(string_views(nhentai_tags@).take(nhentai_tags.len() as int) =~= string_views(nhentai_tags@));
    r.append("&page=");
    r.append(format_u32(page_no).as_str());
    r
}

/// What an answer to a request for a page of a tag search means.
#[derive(Clone, Copy, Debug, PartialEq, Eq, Structural)]
pub enum PageAnswer {
    /// 429 Too Many Requests: wait and ask again.
    RetryLater,
    /// Any other status but 200: the page failed.
    Failed,
    /// 200 OK: read the page.
    Read,
}

/// HTTP status 200 OK.
pub const STATUS_OK: u16 = 200;
/// HTTP status 404 Not Found.
pub const STATUS_NOT_FOUND: u16 = 404;
/// HTTP status 429 Too Many Requests.
pub const STATUS_TOO_MANY_REQUESTS: u16 = 429;

pub fn tag_page_answer(status: u16) -> (r: PageAnswer)
    ensures
        r == (if status == STATUS_TOO_MANY_REQUESTS {
            PageAnswer::RetryLater
        } else if status != STATUS_OK {
            PageAnswer::Failed
        } else {
            PageAnswer::Read
        }),
{
    if status == STATUS_TOO_MANY_REQUESTS {
        PageAnswer::RetryLater
    } else if status != STATUS_OK {
        PageAnswer::Failed
    } else {
        PageAnswer::Read
    }
}

/// Whether an answer to a request for the metadata of one gallery can be read:
/// only a 200 OK can.
pub fn hentai_answer_ok(status: u16) -> (r: bool)
    ensures
        r == (status == STATUS_OK),
{
    status == STATUS_OK
}

/// The identifiers of the galleries of a page of results, in order.
pub fn result_ids(result: &Vec<HentaiSearchResponse>) -> (r: Vec<u32>)
    ensures
        r@ == result@.map_values(|h: HentaiSearchResponse| h.id),
{
    let mut r: Vec<u32> = Vec::new();
    let mut i: usize = 0;
    while i < result.len()
        invariant
            i <= result@.len(),
            r@ == result@.take(i as int).map_values(|h: HentaiSearchResponse| h.id),
        decreases result.len() - i,
    {
        r.push(result[i].id);
        assert(result@.take(i + 1).map_values(|h: HentaiSearchResponse| h.id) =~= result@.take(i as int).map_values(
            |h: HentaiSearchResponse| h.id,
        ).push(result@[i as int].id));
        i = i + 1;
    }
    assert(result@.take(result.len() as int) =~= result@);
    r
}

/// Number of pages of a tag search that are tried one after the other until
/// one of them answers with the number of pages.
pub const SEQUENTIAL_PAGES_MAX: u32 = 10;

/// The next step of a tag search.
#[derive(Clone, Copy, Debug, PartialEq, Eq, Structural)]
pub enum TagSearchStep {
    /// Ask for this page alone.
    TryPage(u32),
    /// Ask for the pages `from..=to` in parallel; a page that fails is left out.
    SearchPages { from: u32, to: u32 },
    /// Every page tried failed: the search fails with the last page's error.
    GiveUp,
}

/// The first step of a tag search: page 1.
pub fn tag_search_start() -> (r: TagSearchStep)
    ensures
        r == TagSearchStep::TryPage(1),
{
    TagSearchStep::TryPage(1)
}

/// The step after page `page_no` was tried alone: `outcome` is the number of
/// pages it reported, or `None` where it failed.
pub open spec fn spec_tag_search_next(page_no: u32, outcome: Option<u32>) -> TagSearchStep {
    match outcome {
        Some(n) => TagSearchStep::SearchPages { from: (page_no + 1) as u32, to: n },
        None => if page_no < SEQUENTIAL_PAGES_MAX {
            TagSearchStep::TryPage((page_no + 1) as u32)
        } else {
            TagSearchStep::GiveUp
        },
    }
}

/// The first page that answers gives the number of pages, and the pages after
/// it are searched in parallel; a failed page is followed by the next, up to
/// page 10.
pub fn tag_search_next(page_no: u32, outcome: Option<u32>) -> (r: TagSearchStep)
    requires
        1 <= page_no <= SEQUENTIAL_PAGES_MAX,
    ensures
        r == spec_tag_search_next(page_no, outcome),
{
    match outcome {
        Some(n) => TagSearchStep::SearchPages { from: page_no + 1, to: n },
        None => if page_no < SEQUENTIAL_PAGES_MAX {
            TagSearchStep::TryPage(page_no + 1)
        } else {
            TagSearchStep::GiveUp
        },
    }
}

/// Where a tag search stands after going from `step` through the outcomes
/// of the pages tried alone, one outcome per page tried.
pub open spec fn tag_search_walk(step: TagSearchStep, outcomes: Seq<Option<u32>>) -> TagSearchStep
    decreases outcomes.len(),
{
    match step {
        TagSearchStep::TryPage(p) => if outcomes.len() > 0 && 1 <= p <= SEQUENTIAL_PAGES_MAX {
            tag_search_walk(spec_tag_search_next(p, outcomes[0]), outcomes.drop_first())
        } else {
            step
        },
        _ => step,
    }
}

proof fn lemma_tag_search_walk_from(p: u32, os: Seq<Option<u32>>)
    requires
        1 <= p <= SEQUENTIAL_PAGES_MAX,
        os.len() >= SEQUENTIAL_PAGES_MAX + 1 - p,
    ensures
        !(tag_search_walk(TagSearchStep::TryPage(p), os) is TryPage),
        tag_search_walk(TagSearchStep::TryPage(p), os) is GiveUp
            <==> forall|i: int| 0 <= i < SEQUENTIAL_PAGES_MAX + 1 - p ==> #[trigger] os[i] is None,
        tag_search_walk(TagSearchStep::TryPage(p), os) matches TagSearchStep::SearchPages { from, to }
            ==> exists|k: int| 0 <= k < SEQUENTIAL_PAGES_MAX + 1 - p && #[trigger] os[k] == Some(to)
                && from == p + k + 1 && forall|i: int| 0 <= i < k ==> #[trigger] os[i] is None,
    decreases SEQUENTIAL_PAGES_MAX - p,
{
    let w = tag_search_walk(TagSearchStep::TryPage(p), os);
    let rest = os.drop_first();
    match os[0] {
        Some(n) => {
            let next = TagSearchStep::SearchPages { from: (p + 1) as u32, to: n };
            assert(tag_search_walk(next, rest) == next);
            assert(w == next);
            assert(os[0] == Some(n));
        },
        None => {
            if p < SEQUENTIAL_PAGES_MAX {
                lemma_tag_search_walk_from((p + 1) as u32, rest);
                assert(w == tag_search_walk(TagSearchStep::TryPage((p + 1) as u32), rest));
                assert forall|i: int| 0 <= i < SEQUENTIAL_PAGES_MAX - p implies #[trigger] rest[i] == os[i + 1] by {}
                if w is GiveUp {
                    assert forall|i: int| 0 <= i < SEQUENTIAL_PAGES_MAX + 1 - p implies #[trigger] os[i] is None by {
                        if i > 0 {
                            assert(rest[i - 1] is None);
                        }
                    }
                } else {
                    assert(rest[SEQUENTIAL_PAGES_MAX - p - 1] == os[SEQUENTIAL_PAGES_MAX - p]);
                }
                if let TagSearchStep::SearchPages { from, to } = w {
                    let k = choose|k: int| 0 <= k < SEQUENTIAL_PAGES_MAX - p && #[trigger] rest[k] == Some(to)
                        && from == p + 1 + k + 1 && forall|i: int| 0 <= i < k ==> #[trigger] rest[i] is None;
                    assert(os[k + 1] == Some(to));
                    assert forall|i: int| 0 <= i < k + 1 implies #[trigger] os[i] is None by {
                        if i > 0 {
                            assert(rest[i - 1] is None);
                        }
                    }
                }
            } else {
                assert(tag_search_walk(TagSearchStep::GiveUp, rest) == TagSearchStep::GiveUp);
                assert(w == TagSearchStep::GiveUp);
            }
        },
    }
}

/// Law: a tag search that starts at page 1 has decided after at most ten
/// pages tried alone. It gives up exactly when each of pages 1 to 10 failed;
/// otherwise the first page `k` that answered gives the number of pages `to`,
/// and the search goes on with the pages `k + 1 ..= to`.
pub proof fn lemma_tag_search_decides_within_ten_pages(outcomes: Seq<Option<u32>>)
    requires
        outcomes.len() >= SEQUENTIAL_PAGES_MAX,
    ensures
        !(tag_search_walk(TagSearchStep::TryPage(1), outcomes) is TryPage),
        tag_search_walk(TagSearchStep::TryPage(1), outcomes) is GiveUp
            <==> forall|i: int| 0 <= i < SEQUENTIAL_PAGES_MAX ==> #[trigger] outcomes[i] is None,
        tag_search_walk(TagSearchStep::TryPage(1), outcomes) matches TagSearchStep::SearchPages { from, to }
            ==> exists|k: int| 1 <= k <= SEQUENTIAL_PAGES_MAX && #[trigger] outcomes[k - 1] == Some(to)
                && from == k + 1 && forall|i: int| 0 <= i < k - 1 ==> #[trigger] outcomes[i] is None,
{
    lemma_tag_search_walk_from(1, outcomes);
    if let TagSearchStep::SearchPages { from, to } = tag_search_walk(TagSearchStep::TryPage(1), outcomes) {
        let k = choose|k: int| 0 <= k < SEQUENTIAL_PAGES_MAX && #[trigger] outcomes[k] == Some(to)
            && from == 1 + k + 1 && forall|i: int| 0 <= i < k ==> #[trigger] outcomes[i] is None;
        assert(outcomes[(k + 1) - 1] == Some(to));
    }
}

/// In ascending order.
pub open spec fn sorted(s: Seq<u32>) -> bool {
    forall|i: int, j: int| 0 <= i <= j < s.len() ==> s[i] <= s[j]
}

/// The identifiers of the pages that answered, in order.
pub open spec fn page_ids(pages: Seq<Option<Vec<u32>>>) -> Seq<u32> {
    pages.map_values(
        |p: Option<Vec<u32>>|
            match p {
                Some(v) => v@,
                None => Seq::empty(),
            },
    ).flatten()
}

fn insert_sorted(v: &mut Vec<u32>, x: u32)
    requires
        sorted(old(v)@),
    ensures
        sorted(final(v)@),
        final(v)@.to_multiset() == old(v)@.to_multiset().insert(x),
{
    let mut p: usize = 0;
    while p < v.len() && v[p] <= x
        invariant
            p <= v@.len(),
            forall|k: int| 0 <= k < p ==> v@[k] <= x,
        decreases v.len() - p,
    {
        p = p + 1;
    }
    let ghost s = v@;
    v.insert(p, x);
    proof {
        assert(s.insert(p as int, x) =~= s.subrange(0, p as int).push(x) + s.subrange(p as int, s.len() as int));
        lemma_multiset_commutative(s.subrange(0, p as int).push(x), s.subrange(p as int, s.len() as int));
        to_multiset_build(s.subrange(0, p as int), x);
        lemma_multiset_commutative(s.subrange(0, p as int), s.subrange(p as int, s.len() as int));
        assert(s.subrange(0, p as int) + s.subrange(p as int, s.len() as int) =~= s);
        assert forall|i: int, j: int| 0 <= i <= j < v@.len() implies v@[i] <= v@[j] by {
            if p < s.len() {
                assert(x < s[p as int]);
            }
        }
    }
}

/// The identifiers sorted in ascending order.
pub fn sort_ids(ids: &Vec<u32>) -> (r: Vec<u32>)
    ensures
        sorted(r@),
        r@.to_multiset() == ids@.to_multiset(),
{
    let mut r: Vec<u32> = Vec::new();
    let mut i: usize = 0;
    assert(ids@.take(0) =~= r@);
    while i < ids.len()
        invariant
            i <= ids@.len(),
            sorted(r@),
            r@.to_multiset() == ids@.take(i as int).to_multiset(),
        decreases ids.len() - i,
    {
        insert_sorted(&mut r, ids[i]);
        proof {
            assert(ids@.take(i + 1) =~= ids@.take(i as int).push(ids@[i as int]));
            to_multiset_build(ids@.take(i as int), ids@[i as int]);
        }
        i = i + 1;
    }
    assert(ids@.take(ids.len() as int) =~= ids@);
    r
}

/// All identifiers that a tag search found, sorted in ascending order: those
/// of the page tried alone, then those of each page searched in parallel
/// that answered.
pub fn collect_search_ids(first: &Vec<u32>, pages: &Vec<Option<Vec<u32>>>) -> (r: Vec<u32>)
    ensures
        sorted(r@),
        r@.to_multiset() == (first@ + page_ids(pages@)).to_multiset(),
{
    let mut all: Vec<u32> = Vec::new();
    let mut i: usize = 0;
    while i < first.len()
        invariant
            i <= first@.len(),
            all@ == first@.take(i as int),
        decreases first.len() - i,
    {
        all.push(first[i]);
        assert(first@.take(i + 1) =~= first@.take(i as int).push(first@[i as int]));
        i = i + 1;
    }
    assert(first@.take(first.len() as int) =~= first@);
    let mut j: usize = 0;
    while j < pages.len()
        invariant
            j <= pages@.len(),
            all@ == first@ + page_ids(pages@.take(j as int)),
        decreases pages.len() - j,
    {
        let ghost before = all@;
        let ghost f = |p: Option<Vec<u32>>|
            match p {
                Some(v) => v@,
                None => Seq::<u32>::empty(),
            };
        proof {
            assert(pages@.take(j + 1).map_values(f) =~= pages@.take(j as int).map_values(f).push(f(pages@[j as int])));
            pages@.take(j as int).map_values(f).lemma_flatten_push(f(pages@[j as int]));
        }
        match &pages[j] {
            Some(v) => {
                let mut k: usize = 0;
                while k < v.len()
                    invariant
                        k <= v@.len(),
                        all@ == before + v@.take(k as int),
                    decreases v.len() - k,
                {
                    all.push(v[k]);
                    assert(before + v@.take(k + 1) =~= (before + v@.take(k as int)).push(v@[k as int]));
                    k = k + 1;
                }
                assert(v@.take(v.len() as int) =~= v@);
            },
            None => {
                assert(before + Seq::<u32>::empty() =~= before);
            },
        }
        j = j + 1;
    }
    assert(pages@.take(pages.len() as int) =~= pages@);
    sort_ids(&all)
}

} // verus!
