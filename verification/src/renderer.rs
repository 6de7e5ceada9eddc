use vstd::prelude::*;

verus! {

use crate::book::{flatten_list, opt_str_view, Book, BookItem, SectionNumber};
use vstd::string::StrSliceExecFns;
use vstd::string::StringExecFns;

/// The HTML renderer.  The template engine itself is an outside
/// collaborator; what lives here is the logic the renderer feeds it: the
/// print page's concatenated content, the flat chapter list, and the
/// navigation lookups over it.
pub struct HtmlHandlebars;

impl HtmlHandlebars {
    /// A new renderer.
    pub fn new() -> HtmlHandlebars {
        HtmlHandlebars
    }

    /// Every chapter's raw content below `items`, concatenated in document
    /// order; `None` when there is none, so that no empty print page is
    /// emitted.
    pub fn collect_print_content_markdown(&self, items: &Vec<BookItem>) -> (r: Option<String>)
        ensures
            match r {
                Some(s) => s@ == spec_print_list(items@) && s@.len() > 0,
                None => spec_print_list(items@).len() == 0,
            },
    {
        let mut text = String::new();
        append_print_list(items, &mut text);
        if text.as_str().unicode_len() > 0 {
            Some(text)
        } else {
            None
        }
    }
}

/// The print page's text for one item: a chapter's content, then its
/// sub-items' in document order.
pub open spec fn spec_print_item(it: BookItem) -> Seq<char>
    decreases it,
{
    match it {
        BookItem::Separator => Seq::empty(),
        BookItem::Chapter(ch) => ch.content@ + spec_print_list(ch.sub_items@),
    }
}

/// The print page's text for a list of items.
pub open spec fn spec_print_list(items: Seq<BookItem>) -> Seq<char>
    decreases items,
{
    if items.len() == 0 {
        Seq::empty()
    } else {
        spec_print_item(items[0]) + spec_print_list(items.drop_first())
    }
}

/// Append one item's print text.
fn append_print_item(it: &BookItem, out: &mut String)
    ensures
        final (out)@ == old(out)@ + spec_print_item(*it),
    decreases *it,
{
    match it {
        BookItem::Separator => {},
        BookItem::Chapter(ch) => {
            out.append(ch.content.as_str());
            append_print_list(&ch.sub_items, out);
        },
    }
}

/// Append a list of items' print text.
fn append_print_list(items: &Vec<BookItem>, out: &mut String)
    ensures
        final (out)@ == old(out)@ + spec_print_list(items@),
    decreases *items,
{
    let n = items.len();
    let mut i: usize = 0;
    assert(items@.skip(0) =~= items@);
    while i < n
        invariant
            0 <= i <= n,
            n == items@.len(),
            out@ + spec_print_list(items@.skip(i as int)) =~= old(out)@ + spec_print_list(items@),
        decreases n - i,
    {
        proof {
            assert(items@.skip(i as int)[0] == items@[i as int]);
            assert(items@.skip(i as int).drop_first() =~= items@.skip(i + 1));
        }
        let sub = &items[i];
        assert(decreases_to!(*items => *sub));
        append_print_item(sub, out);
        i = i + 1;
    }
    assert(items@.skip(n as int) =~= Seq::<BookItem>::empty());
}

// ---------------------------------------------------------------------------
// Section numbers as text.
// ---------------------------------------------------------------------------

/// The decimal digit for a value below ten.
pub open spec fn spec_digit(n: u32) -> char {
    ((n + 48) as u32) as char
}

/// The decimal rendering of a number.
pub open spec fn spec_dec(n: u32) -> Seq<char>
    decreases n,
{
    if n < 10 {
        seq![spec_digit(n)]
    } else {
        spec_dec(n / 10) + seq![spec_digit(n % 10)]
    }
}

/// Append the decimal digits of `n`.
fn dec_digits(n: u32, out: &mut Vec<char>)
    ensures
        final (out)@ == old(out)@ + spec_dec(n),
    decreases n,
{
    if n < 10 {
        out.push(digit_char(n));
    } else {
        dec_digits(n / 10, out);
        out.push(digit_char(n % 10));
        assert(out@ =~= old(out)@ + spec_dec(n));
    }
}

/// The character of one digit.
fn digit_char(n: u32) -> (r: char)
    requires
        n < 10,
    ensures
        r == spec_digit(n),
{
    if n == 0 {
        '0'
    } else if n == 1 {
        '1'
    } else if n == 2 {
        '2'
    } else if n == 3 {
        '3'
    } else if n == 4 {
        '4'
    } else if n == 5 {
        '5'
    } else if n == 6 {
        '6'
    } else if n == 7 {
        '7'
    } else if n == 8 {
        '8'
    } else {
        '9'
    }
}

/// A section number rendered with dots: `[1, 2]` becomes `1.2`.
pub open spec fn spec_section_string(nums: Seq<u32>) -> Seq<char>
    decreases nums.len(),
{
    if nums.len() == 0 {
        Seq::empty()
    } else if nums.len() == 1 {
        spec_dec(nums[0])
    } else {
        spec_dec(nums[0]) + seq!['.'] + spec_section_string(nums.drop_first())
    }
}

/// Render a section number.
pub fn section_string(num: &SectionNumber) -> (r: String)
    ensures
        r@ == spec_section_string(num.0@),
{
    let n = num.0.len();
    let mut out: Vec<char> = Vec::new();
    let mut i: usize = 0;
    assert(num.0@.skip(0) =~= num.0@);
    while i < n
        invariant
            0 <= i <= n,
            n == num.0@.len(),
            spec_section_string(num.0@) =~= out@ + spec_section_string(num.0@.skip(i as int)),
        decreases n - i,
    {
        proof {
            assert(num.0@.skip(i as int)[0] == num.0@[i as int]);
            assert(num.0@.skip(i as int).drop_first() =~= num.0@.skip(i + 1));
        }
        let mut digits: Vec<char> = Vec::new();
        dec_digits(num.0[i], &mut digits);
        let mut k: usize = 0;
        let m = digits.len();
        let ghost mid = out@;
        while k < m
            invariant
                0 <= k <= m,
                m == digits@.len(),
                out@ =~= mid + digits@.subrange(0, k as int),
            decreases m - k,
        {
            out.push(digits[k]);
            k = k + 1;
        }
        assert(out@ =~= mid + digits@);
        if i + 1 < n {
            out.push('.');
        }
        i = i + 1;
    }
    assert(num.0@.skip(n as int) =~= Seq::<u32>::empty());
    crate::utils::chars_to_string(&out)
}

// ---------------------------------------------------------------------------
// The flat chapter list the templates and the navigation helpers consume.
// ---------------------------------------------------------------------------

/// One row of the flat table of contents: a chapter's title, output path
/// and section label, or a spacer.
pub struct TocEntry {
    pub title: String,
    pub path: Option<String>,
    pub section: Option<String>,
    pub spacer: bool,
}

/// What one flattened book item must produce.
pub open spec fn entry_matches(b: BookItem, e: TocEntry) -> bool {
    match b {
        BookItem::Separator => {
            &&& e.spacer
            &&& e.path is None
            &&& e.section is None
        },
        BookItem::Chapter(ch) => {
            &&& !e.spacer
            &&& e.title@ == ch.name@
            &&& opt_str_view(e.path) == opt_str_view(ch.dest_path)
            &&& match ch.number {
                Some(num) => opt_str_view(e.section) == Some(spec_section_string(num.0@)),
                None => e.section is None,
            }
        },
    }
}

/// The flat chapter list: one row per item of the depth-first traversal,
/// in document order.
pub fn items_to_chapters(items: &Vec<BookItem>) -> (r: Vec<TocEntry>)
    ensures
        r@.len() == flatten_list(items@).len(),
        forall|i: int|
            0 <= i < r@.len() ==> #[trigger] entry_matches(flatten_list(items@)[i], r@[i]),
{
    let mut out: Vec<TocEntry> = Vec::new();
    push_chapters_list(items, &mut out);
    proof {
        assert forall|i: int|
            0 <= i < out@.len() implies #[trigger] entry_matches(
            flatten_list(items@)[i],
            out@[i],
        ) by {
            assert(entry_matches(flatten_list(items@)[i], out@[0 + i]));
        }
    }
    out
}

/// The rows of one item: its own, then its sub-items'.
fn push_chapters_item(it: &BookItem, out: &mut Vec<TocEntry>)
    ensures
        final (out)@.len() == old(out)@.len() + crate::book::flatten_one(*it).len(),
        forall|i: int|
            0 <= i < old(out)@.len() ==> final (out)@[i] == old(out)@[i],
        forall|i: int|
            0 <= i < crate::book::flatten_one(*it).len() ==> #[trigger] entry_matches(
                crate::book::flatten_one(*it)[i],
                final (out)@[old(out)@.len() + i],
            ),
    decreases *it,
{
    match it {
        BookItem::Separator => {
            out.push(
                TocEntry { title: String::new(), path: None, section: None, spacer: true },
            );
            proof {
                assert(crate::book::flatten_one(*it) =~= seq![*it]);
                assert(entry_matches(*it, out@[old(out)@.len() as int]));
            }
        },
        BookItem::Chapter(ch) => {
            let section: Option<String> = match &ch.number {
                Some(num) => Some(section_string(num)),
                None => None,
            };
            let path: Option<String> = match &ch.dest_path {
                Some(p) => Some(p.clone()),
                None => None,
            };
            let entry = TocEntry { title: ch.name.clone(), path, section, spacer: false };
            out.push(entry);
            let ghost mid_len = out@.len() as int;
            proof {
                assert(entry_matches(*it, out@[old(out)@.len() as int]));
            }
            push_chapters_list(&ch.sub_items, out);
            proof {
                let fone = crate::book::flatten_one(*it);
                assert(fone =~= seq![*it] + flatten_list(ch.sub_items@));
                assert(out@[old(out)@.len() as int] == out@.subrange(0, mid_len)[old(
                    out,
                )@.len() as int]);
                assert forall|i: int|
                    0 <= i < fone.len() implies #[trigger] entry_matches(
                    fone[i],
                    out@[old(out)@.len() + i],
                ) by {
                    if i == 0 {
                        assert(fone[0] == *it);
                        assert(entry_matches(*it, out@[old(out)@.len() as int]));
                    } else {
                        assert(fone[i] == flatten_list(ch.sub_items@)[i - 1]);
                        assert(entry_matches(
                            flatten_list(ch.sub_items@)[i - 1],
                            out@[mid_len + (i - 1)],
                        ));
                    }
                }
            }
        },
    }
}

/// The rows of a list of items.
fn push_chapters_list(items: &Vec<BookItem>, out: &mut Vec<TocEntry>)
    ensures
        final (out)@.len() == old(out)@.len() + flatten_list(items@).len(),
        forall|i: int|
            0 <= i < old(out)@.len() ==> final (out)@[i] == old(out)@[i],
        forall|i: int|
            0 <= i < flatten_list(items@).len() ==> #[trigger] entry_matches(
                flatten_list(items@)[i],
                final (out)@[old(out)@.len() + i],
            ),
    decreases *items,
{
    let n = items.len();
    let ghost base = out@;
    let mut i: usize = 0;
    while i < n
        invariant
            0 <= i <= n,
            n == items@.len(),
            out@.len() == base.len() + flatten_list(items@.take(i as int)).len(),
            forall|k: int| 0 <= k < base.len() ==> out@[k] == base[k],
            forall|k: int|
                0 <= k < flatten_list(items@.take(i as int)).len() ==> #[trigger] entry_matches(
                    flatten_list(items@.take(i as int))[k],
                    out@[base.len() + k],
                ),
        decreases n - i,
    {
        let sub = &items[i];
        assert(decreases_to!(*items => *sub));
        let ghost prev_len = out@.len() as int;
        push_chapters_item(sub, out);
        proof {
            assert(items@.take(i + 1) =~= items@.take(i as int).push(items@[i as int]));
            crate::book::lemma_flatten_concat(items@.take(i as int), seq![items@[i as int]]);
            assert(items@.take(i as int) + seq![items@[i as int]] =~= items@.take(i + 1));
            assert(seq![items@[i as int]].drop_first() =~= Seq::<BookItem>::empty());
            assert(flatten_list(Seq::<BookItem>::empty()) == Seq::<BookItem>::empty());
            assert(flatten_list(seq![items@[i as int]]) =~= crate::book::flatten_one(
                items@[i as int],
            ));
            assert(flatten_list(items@.take(i + 1)) =~= flatten_list(items@.take(i as int))
                + crate::book::flatten_one(items@[i as int]));
            let fl_i = flatten_list(items@.take(i as int));
            let fone = crate::book::flatten_one(items@[i as int]);
            assert forall|k: int|
                0 <= k < flatten_list(items@.take(i + 1)).len() implies #[trigger] entry_matches(
                flatten_list(items@.take(i + 1))[k],
                out@[base.len() + k],
            ) by {
                if k < fl_i.len() {
                    assert(flatten_list(items@.take(i + 1))[k] == fl_i[k]);
                    assert(entry_matches(fl_i[k], out@[base.len() + k]));
                } else {
                    assert(flatten_list(items@.take(i + 1))[k] == fone[k - fl_i.len()]);
                    assert(entry_matches(fone[k - fl_i.len()], out@[prev_len + (k - fl_i.len())]));
                }
            }
        }
        i = i + 1;
    }
    proof {
        assert(items@.take(n as int) =~= items@);
    }
}

// ---------------------------------------------------------------------------
// Navigation: previous and next chapter relative to the current page.
// ---------------------------------------------------------------------------

/// Which neighbour a lookup wants.
pub enum Target {
    Previous,
    Next,
}

/// Whether a row takes part in navigation: it must carry a non-empty path.
pub open spec fn has_path(e: TocEntry) -> bool {
    match e.path {
        Some(p) => p@.len() > 0,
        None => false,
    }
}

/// The path of a row that has one.
pub open spec fn path_of(e: TocEntry) -> Seq<char> {
    match e.path {
        Some(p) => p@,
        None => Seq::empty(),
    }
}

/// The navigation scan: walk the rows that carry a path, remembering the
/// one before.  For `Previous`, the row before the first row whose path is
/// `base`; for `Next`, the row after it.
pub open spec fn spec_find(
    entries: Seq<TocEntry>,
    base: Seq<char>,
    prev: Option<TocEntry>,
    target: Target,
) -> Option<TocEntry>
    decreases entries.len(),
{
    if entries.len() == 0 {
        None
    } else {
        let e = entries[0];
        if !has_path(e) {
            spec_find(entries.drop_first(), base, prev, target)
        } else {
            match prev {
                Some(p) => match target {
                    Target::Previous => if path_of(e) == base {
                        Some(p)
                    } else {
                        spec_find(entries.drop_first(), base, Some(e), target)
                    },
                    Target::Next => if path_of(p) == base {
                        Some(e)
                    } else {
                        spec_find(entries.drop_first(), base, Some(e), target)
                    },
                },
                None => spec_find(entries.drop_first(), base, Some(e), target),
            }
        }
    }
}

/// Walk the flat chapter list for the neighbour of the page at `base_path`.
pub fn find_chapter<'a>(entries: &'a Vec<TocEntry>, base_path: &String, target: Target) -> (r:
    Option<&'a TocEntry>)
    ensures
        match r {
            Some(e) => spec_find(entries@, base_path@, None, target) == Some(*e),
            None => spec_find(entries@, base_path@, None, target) is None,
        },
{
    let n = entries.len();
    let mut prev: Option<&TocEntry> = None;
    let mut i: usize = 0;
    assert(entries@.skip(0) =~= entries@);
    while i < n
        invariant
            0 <= i <= n,
            n == entries@.len(),
            match prev {
                Some(p) => has_path(*p) && spec_find(entries@, base_path@, None, target)
                    == spec_find(entries@.skip(i as int), base_path@, Some(*p), target),
                None => spec_find(entries@, base_path@, None, target) == spec_find(
                    entries@.skip(i as int),
                    base_path@,
                    None,
                    target,
                ),
            },
        decreases n - i,
    {
        proof {
            assert(entries@.skip(i as int)[0] == entries@[i as int]);
            assert(entries@.skip(i as int).drop_first() =~= entries@.skip(i + 1));
        }
        let e = &entries[i];
        let e_has_path: bool = match &e.path {
            Some(p) => p.as_str().unicode_len() > 0,
            None => false,
        };
        if e_has_path {
            match prev {
                Some(p) => {
                    match target {
                        Target::Previous => {
                            if path_eq(e, base_path) {
                                return Some(p);
                            }
                        },
                        Target::Next => {
                            if path_eq(p, base_path) {
                                return Some(e);
                            }
                        },
                    }
                },
                None => {},
            }
            prev = Some(e);
        }
        i = i + 1;
    }
    None
}

/// Whether a row's path equals the given one.
fn path_eq(e: &TocEntry, base: &String) -> (r: bool)
    ensures
        r == (path_of(*e) == base@),
{
    match &e.path {
        Some(p) => *p == *base,
        None => {
            let r = base.as_str().unicode_len() == 0;
            proof {
                if base@.len() == 0 {
                    assert(base@ =~= Seq::<char>::empty());
                }
            }
            r
        },
    }
}

/// The chapter before the one at `base_path`, in document order.
pub fn previous<'a>(entries: &'a Vec<TocEntry>, base_path: &String) -> (r: Option<&'a TocEntry>)
    ensures
        match r {
            Some(e) => spec_find(entries@, base_path@, None, Target::Previous) == Some(*e),
            None => spec_find(entries@, base_path@, None, Target::Previous) is None,
        },
{
    find_chapter(entries, base_path, Target::Previous)
}

/// The chapter after the one at `base_path`, in document order.
pub fn next<'a>(entries: &'a Vec<TocEntry>, base_path: &String) -> (r: Option<&'a TocEntry>)
    ensures
        match r {
            Some(e) => spec_find(entries@, base_path@, None, Target::Next) == Some(*e),
            None => spec_find(entries@, base_path@, None, Target::Next) is None,
        },
{
    find_chapter(entries, base_path, Target::Next)
}

// ---------------------------------------------------------------------------
// The table of contents' active link.
// ---------------------------------------------------------------------------

/// A page path as its own link target: a trailing `.md` becomes `.html`
/// and backslashes turn into forward slashes.
pub open spec fn spec_active_link(p: Seq<char>) -> Seq<char> {
    crate::paths::spec_md_to_html(p).map_values(
        |c: char|
            if c == '\\' {
                '/'
            } else {
                c
            },
    )
}

/// Link to the current page.
pub fn active_link(path: &str) -> (r: String)
    ensures
        r@ == spec_active_link(path@),
{
    let html = crate::paths::md_to_html_name(path);
    let v = crate::utils::str_chars(html.as_str());
    let n = v.len();
    let mut out: Vec<char> = Vec::new();
    let mut i: usize = 0;
    while i < n
        invariant
            0 <= i <= n,
            n == v@.len(),
            v@ == crate::paths::spec_md_to_html(path@),
            out@ =~= v@.subrange(0, i as int).map_values(
                |c: char|
                    if c == '\\' {
                        '/'
                    } else {
                        c
                    },
            ),
        decreases n - i,
    {
        let c = v[i];
        if c == '\\' {
            out.push('/');
        } else {
            out.push(c);
        }
        proof {
            assert(v@.subrange(0, i + 1) =~= v@.subrange(0, i as int).push(v@[i as int]));
            assert(v@.subrange(0, i + 1).map_values(
                |c: char|
                    if c == '\\' {
                        '/'
                    } else {
                        c
                    },
            ) =~= v@.subrange(0, i as int).map_values(
                |c: char|
                    if c == '\\' {
                        '/'
                    } else {
                        c
                    },
            ).push(
                if v@[i as int] == '\\' {
                    '/'
                } else {
                    v@[i as int]
                },
            ));
        }
        i = i + 1;
    }
    assert(out@ =~= v@.map_values(
        |c: char|
            if c == '\\' {
                '/'
            } else {
                c
            },
    ));
    crate::utils::chars_to_string(&out)
}

} // verus!
