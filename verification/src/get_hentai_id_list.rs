//! Where the list of galleries to download comes from: the downloadme file,
//! a tag search, or the console; and which galleries it leaves out.
use vstd::prelude::*;
use crate::decimal::{spec_parse_u32, spec_decimal, parse_u32, decimal_chars, lemma_decimal_digits, lemma_parse_decimal};
use crate::search_api::spec_join;
use crate::text::{spec_lines, split_newlines, strip_cr, lines_of, spec_words, words_of, spec_trim, trim_bounds,
    chars_of, push_char, string_from_chars, lemma_split_newlines_nonempty};

verus! {

/// The identifiers that the lines of a downloadme file hold: each line that
/// `str::parse::<u32>` reads gives one; other lines are skipped.
pub open spec fn spec_downloadme_ids(content: Seq<char>) -> Seq<u32> {
    spec_lines(content).filter_map(|l: Seq<char>| spec_parse_u32(l))
}

/// Reads the identifiers of a downloadme file.
pub fn parse_downloadme(content: &str) -> (r: Vec<u32>)
    ensures
        r@ == spec_downloadme_ids(content@),
{
    let lines = lines_of(content);
    let ghost ls = lines@.map_values(|l: Vec<char>| l@);
    let mut r: Vec<u32> = Vec::new();
    let mut i: usize = 0;
    while i < lines.len()
        invariant
            i <= lines@.len(),
            ls == lines@.map_values(|l: Vec<char>| l@),
            ls == spec_lines(content@),
            r@ == ls.take(i as int).filter_map(|l: Seq<char>| spec_parse_u32(l)),
        decreases lines.len() - i,
    {
        assert(ls.take(i + 1).drop_last() =~= ls.take(i as int));
        assert(ls.take(i + 1).last() == lines@[i as int]@);
        match parse_u32(lines[i].as_slice()) {
            Some(x) => {
                r.push(x);
                assert(r@ =~= ls.take(i + 1).filter_map(|l: Seq<char>| spec_parse_u32(l)));
            },
            None => {},
        }
        i = i + 1;
    }
    assert(ls.take(lines.len() as int) =~= ls);
    r
}

/// The identifiers typed at the console, and the words that are no identifier.
pub struct ConsoleInput {
    pub ids: Vec<u32>,
    pub rejected: Vec<String>,
}

/// The words of a console line, as the line without surrounding white space
/// splits into them.
pub open spec fn spec_console_words(input: Seq<char>) -> Seq<Seq<char>> {
    spec_words(spec_trim(input))
}

pub open spec fn is_rejected(w: Seq<char>) -> bool {
    spec_parse_u32(w) is None
}

/// Reads the identifiers typed at the console, separated by white space;
/// words that are no identifier are set aside.
pub fn parse_console_input(input: &str) -> (r: ConsoleInput)
    ensures
        r.ids@ == spec_console_words(input@).filter_map(|w: Seq<char>| spec_parse_u32(w)),
        r.rejected@.map_values(|s: String| s@) == spec_console_words(input@).filter(|w: Seq<char>| is_rejected(w)),
{
    let v = chars_of(input);
    let (a, b) = trim_bounds(v.as_slice());
    let words = words_of(v.as_slice(), a, b);
    let ghost ws = words@.map_values(|w: Vec<char>| w@);
    assert(ws == spec_console_words(input@));
    let mut ids: Vec<u32> = Vec::new();
    let mut rejected: Vec<String> = Vec::new();
    let mut i: usize = 0;
    while i < words.len()
        invariant
            i <= words@.len(),
            ws == words@.map_values(|w: Vec<char>| w@),
            ids@ == ws.take(i as int).filter_map(|w: Seq<char>| spec_parse_u32(w)),
            rejected@.map_values(|s: String| s@) == ws.take(i as int).filter(|w: Seq<char>| is_rejected(w)),
        decreases words.len() - i,
    {
        let ghost t = ws.take(i + 1);
        assert(t.drop_last() =~= ws.take(i as int));
        assert(t.last() == words@[i as int]@);
        assert(t =~= ws.take(i as int).push(words@[i as int]@));
        proof {
            ws.take(i as int).lemma_filter_push(words@[i as int]@, |w: Seq<char>| is_rejected(w));
        }
        match parse_u32(words[i].as_slice()) {
            Some(x) => {
                ids.push(x);
                assert(ids@ =~= t.filter_map(|w: Seq<char>| spec_parse_u32(w)));
            },
            None => {
                let ghost before = rejected@;
                rejected.push(string_from_chars(&words[i]));
                assert(rejected@.map_values(|s: String| s@) =~= before.map_values(|s: String| s@).push(words@[i as int]@));
            },
        }
        i = i + 1;
    }
    assert(ws.take(words.len() as int) =~= ws);
    ConsoleInput { ids, rejected }
}

/// The decimal representations of the identifiers.
pub open spec fn decimals(ids: Seq<u32>) -> Seq<Seq<char>> {
    ids.map_values(|x: u32| spec_decimal(x as nat))
}

/// The text of a downloadme file: the identifiers in decimal, one per line,
/// without a line feed after the last.
pub open spec fn spec_downloadme_text(ids: Seq<u32>) -> Seq<char> {
    spec_join(decimals(ids), seq!['\n'])
}

/// Writes the text of a downloadme file.
pub fn format_downloadme(ids: &Vec<u32>) -> (r: String)
    ensures
        r@ == spec_downloadme_text(ids@),
{
    let mut r = String::new();
    let mut i: usize = 0;
    while i < ids.len()
        invariant
            i <= ids@.len(),
            r@ == spec_join(decimals(ids@.take(i as int)), seq!['\n']),
        decreases ids.len() - i,
    {
        assert(decimals(ids@.take(i + 1)).drop_last() =~= decimals(ids@.take(i as int)));
        assert(decimals(ids@.take(i + 1)).last() == spec_decimal(ids@[i as int] as nat));
        if i > 0 {
            push_char(&mut r, '\n');
        }
        let d = decimal_chars(ids[i] as u64);
        let mut k: usize = 0;
        let ghost before = r@;
        while k < d.len()
            invariant
                k <= d@.len(),
                r@ == before + d@.take(k as int),
            decreases d.len() - k,
        {
            push_char(&mut r, d[k]);
            assert(before + d@.take(k + 1) =~= (before + d@.take(k as int)).push(d@[k as int]));
            k = k + 1;
        }
        assert(d@.take(d.len() as int) =~= d@);
        proof {
            if i == 0 {
                assert(before =~= Seq::<char>::empty());
                assert(Seq::<char>::empty() + d@ =~= d@);
            }
        }
        i = i + 1;
    }
    assert(ids@.take(ids.len() as int) =~= ids@);
    r
}

/// `s` holds no line feed.
pub open spec fn no_newline(s: Seq<char>) -> bool {
    forall|i: int| 0 <= i < s.len() ==> s[i] != '\n'
}

/// Appending text without line feeds extends the last piece.
proof fn lemma_split_append_plain(a: Seq<char>, b: Seq<char>)
    requires
        no_newline(b),
    ensures
        split_newlines(a).len() >= 1,
        split_newlines(a + b) == split_newlines(a).update(
            split_newlines(a).len() - 1,
            split_newlines(a).last() + b,
        ),
    decreases b.len(),
{
    lemma_split_newlines_nonempty(a);
    if b.len() == 0 {
        assert(a + b =~= a);
        assert(split_newlines(a).last() + b =~= split_newlines(a).last());
        assert(split_newlines(a).update(split_newlines(a).len() - 1, split_newlines(a).last()) =~= split_newlines(a));
    } else {
        lemma_split_append_plain(a, b.drop_last());
        assert((a + b).drop_last() =~= a + b.drop_last());
        assert((a + b).last() == b.last());
        assert(b.last() != '\n');
        let p = split_newlines(a);
        assert(p.last() + b.drop_last() + seq![b.last()] =~= p.last() + b);
        assert(p.update(p.len() - 1, p.last() + b.drop_last()).update(p.len() - 1, p.last() + b.drop_last() + seq![b.last()])
            =~= p.update(p.len() - 1, p.last() + b));
        assert((p.last() + b.drop_last()).push(b.last()) =~= p.last() + b.drop_last() + seq![b.last()]);
    }
}

/// Splitting joined pieces that hold no line feed gives the pieces back.
proof fn lemma_split_join(parts: Seq<Seq<char>>)
    requires
        parts.len() >= 1,
        forall|i: int| 0 <= i < parts.len() ==> no_newline(#[trigger] parts[i]),
    ensures
        split_newlines(spec_join(parts, seq!['\n'])) == parts,
    decreases parts.len(),
{
    if parts.len() == 1 {
        lemma_split_append_plain(Seq::empty(), parts[0]);
        assert(Seq::<char>::empty() + parts[0] =~= parts[0]);
        assert(split_newlines(Seq::<char>::empty()) =~= seq![Seq::<char>::empty()]);
        assert(Seq::<char>::empty() + parts[0] =~= parts[0]);
        assert(seq![Seq::<char>::empty()].update(0, Seq::<char>::empty() + parts[0]) =~= parts);
    } else {
        let init = parts.drop_last();
        assert forall|i: int| 0 <= i < init.len() implies no_newline(#[trigger] init[i]) by {
            assert(init[i] == parts[i]);
        }
        lemma_split_join(init);
        let a = spec_join(init, seq!['\n']) + seq!['\n'];
        assert(a.drop_last() =~= spec_join(init, seq!['\n']));
        assert(split_newlines(a) == init.push(Seq::empty()));
        lemma_split_append_plain(a, parts.last());
        assert(init.push(Seq::empty()).update(init.len() as int, Seq::<char>::empty() + parts.last()) =~= parts);
    }
}

/// Law: a downloadme file written from a list of identifiers reads back as
/// the same list.
pub proof fn lemma_downloadme_roundtrip(ids: Seq<u32>)
    ensures
        spec_downloadme_ids(spec_downloadme_text(ids)) == ids,
{
    let parts = decimals(ids);
    if ids.len() == 0 {
        assert(spec_downloadme_text(ids) =~= Seq::<char>::empty());
        assert(split_newlines(Seq::<char>::empty()) =~= seq![Seq::<char>::empty()]);
        assert(spec_lines(Seq::<char>::empty()) =~= Seq::<Seq<char>>::empty());
        assert(spec_lines(Seq::<char>::empty()).filter_map(|l: Seq<char>| spec_parse_u32(l)) =~= Seq::<u32>::empty());
    } else {
        assert forall|i: int| 0 <= i < parts.len() implies no_newline(#[trigger] parts[i]) by {
            lemma_decimal_digits(ids[i] as nat);
        }
        lemma_split_join(parts);
        let text = spec_downloadme_text(ids);
        lemma_decimal_digits(ids.last() as nat);
        assert(parts.last().len() > 0);
        let ls = spec_lines(text);
        assert forall|i: int| 0 <= i < parts.len() - 1 implies strip_cr(#[trigger] parts[i]) == parts[i] by {
            lemma_decimal_digits(ids[i] as nat);
            assert(parts[i].last() != '\r');
        }
        assert(parts.drop_last().map_values(|l: Seq<char>| strip_cr(l)) =~= parts.drop_last());
        assert(ls =~= parts);
        lemma_filter_map_decimals(ids);
    }
}

proof fn lemma_filter_map_decimals(ids: Seq<u32>)
    ensures
        decimals(ids).filter_map(|l: Seq<char>| spec_parse_u32(l)) == ids,
    decreases ids.len(),
{
    if ids.len() > 0 {
        lemma_filter_map_decimals(ids.drop_last());
        assert(decimals(ids).drop_last() =~= decimals(ids.drop_last()));
        lemma_parse_decimal(ids.last());
        assert(ids.drop_last() + seq![ids.last()] =~= ids);
    } else {
        assert(decimals(ids).filter_map(|l: Seq<char>| spec_parse_u32(l)) =~= ids);
    }
}


/// The identifiers that are not on the dontdownloadme list, in order.
pub open spec fn spec_without_listed(ids: Seq<u32>, dontdownloadme: Seq<u32>) -> Seq<u32> {
    ids.filter(|x: u32| !dontdownloadme.contains(x))
}

fn contains_id(v: &Vec<u32>, x: u32) -> (r: bool)
    ensures
        r == v@.contains(x),
{
    let mut i: usize = 0;
    while i < v.len()
        invariant
            i <= v@.len(),
            forall|k: int| 0 <= k < i ==> v@[k] != x,
        decreases v.len() - i,
    {
        if v[i] == x {
            return true;
        }
        i = i + 1;
    }
    false
}

/// Leaves out the galleries of the dontdownloadme list, which takes
/// precedence over every source of the list to download.
pub fn remove_dontdownloadme(ids: &Vec<u32>, dontdownloadme: &Vec<u32>) -> (r: Vec<u32>)
    ensures
        r@ == spec_without_listed(ids@, dontdownloadme@),
{
    let mut r: Vec<u32> = Vec::new();
    let mut i: usize = 0;
    while i < ids.len()
        invariant
            i <= ids@.len(),
            r@ == spec_without_listed(ids@.take(i as int), dontdownloadme@),
        decreases ids.len() - i,
    {
        proof {
            assert(ids@.take(i + 1) =~= ids@.take(i as int).push(ids@[i as int]));
            ids@.take(i as int).lemma_filter_push(ids@[i as int], |x: u32| !dontdownloadme@.contains(x));
        }
        if !contains_id(dontdownloadme, ids[i]) {
            r.push(ids[i]);
        }
        i = i + 1;
    }
    assert(ids@.take(ids.len() as int) =~= ids@);
    r
}

/// Law: no gallery of the dontdownloadme list is left, and every other
/// gallery of the list is kept.
pub proof fn lemma_dontdownloadme_respected(ids: Seq<u32>, dontdownloadme: Seq<u32>)
    ensures
        forall|x: u32| #[trigger] spec_without_listed(ids, dontdownloadme).contains(x) <==> (ids.contains(x)
            && !dontdownloadme.contains(x)),
{
    assert forall|x: u32| #[trigger] spec_without_listed(ids, dontdownloadme).contains(x) <==> (ids.contains(x)
        && !dontdownloadme.contains(x)) by {
        let f = |y: u32| !dontdownloadme.contains(y);
        if spec_without_listed(ids, dontdownloadme).contains(x) {
            ids.lemma_filter_contains_rev(f, x);
        }
        if ids.contains(x) && !dontdownloadme.contains(x) {
            let k = choose|k: int| 0 <= k < ids.len() && ids[k] == x;
            ids.lemma_filter_contains(f, k);
        }
    }
}

/// Where the list of galleries to download came from.
#[derive(Clone, Copy, Debug, PartialEq, Eq, Structural)]
pub enum IdListSource {
    /// The downloadme file.
    Downloadme,
    /// A search by the tags of the settings.
    TagSearch,
    /// A line typed at the console.
    Console,
}

/// What to do once a source has given its list.
#[derive(Clone, Copy, Debug, PartialEq, Eq, Structural)]
pub enum IdListAction {
    /// Download the list.
    Download,
    /// Save the list as the downloadme file, then download it.
    SaveThenDownload,
    /// Search by the tags of the settings.
    SearchByTag,
    /// Ask at the console (again).
    AskConsole,
}

/// The order of the sources of the list: the downloadme file first, then a tag
/// search if tags are set, then the console until it gives at least one
/// gallery. The list of a tag search is saved as the downloadme file.
pub fn id_list_next(source: IdListSource, found_any: bool, tags_set: bool) -> (r: IdListAction)
    ensures
        r == match source {
            IdListSource::Downloadme => if found_any {
                IdListAction::Download
            } else if tags_set {
                IdListAction::SearchByTag
            } else {
                IdListAction::AskConsole
            },
            IdListSource::TagSearch => if found_any {
                IdListAction::SaveThenDownload
            } else {
                IdListAction::AskConsole
            },
            IdListSource::Console => if found_any {
                IdListAction::Download
            } else {
                IdListAction::AskConsole
            },
        },
{
    match source {
        IdListSource::Downloadme => if found_any {
            IdListAction::Download
        } else if tags_set {
            IdListAction::SearchByTag
        } else {
            IdListAction::AskConsole
        },
        IdListSource::TagSearch => if found_any {
            IdListAction::SaveThenDownload
        } else {
            IdListAction::AskConsole
        },
        IdListSource::Console => if found_any {
            IdListAction::Download
        } else {
            IdListAction::AskConsole
        },
    }
}

} // verus!
