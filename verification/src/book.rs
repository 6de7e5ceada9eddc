use vstd::prelude::*;

verus! {

use crate::errors::{Error, ErrorV};
use crate::paths::{resolve_location, spec_resolve, md_to_html_name, spec_md_to_html};
use crate::store::{spec_assoc, FileStore};
use vstd::string::StrSliceExecFns;

/// A chapter's ordinal position in the numbering scheme: `[1, 2]` stands for
/// section "1.2".  Absent (at the `Option` level) for unnumbered entries.
#[derive(Clone, Debug, PartialEq, Eq)]
pub struct SectionNumber(pub Vec<u32>);

/// One entry of the table of contents before its content is loaded.
#[derive(Debug, PartialEq)]
pub enum SummaryItem {
    /// A chapter declaration.
    Link(Link),
    /// A section separator.
    Separator,
}

/// A chapter declaration in the table of contents: a human-readable name, the
/// location of the backing file (absolute, or relative to the source root),
/// an optional section number, and the nested entries below it.
#[derive(Debug, PartialEq)]
pub struct Link {
    pub name: String,
    pub location: String,
    pub number: Option<SectionNumber>,
    pub nested_items: Vec<SummaryItem>,
}

impl Link {
    /// A plain link with no number and no nested items.
    pub fn new(name: &str, location: &str) -> (r: Link)
        ensures
            r.name@ == name@,
            r.location@ == location@,
            r.number is None,
            r.nested_items@.len() == 0,
    {
        Link {
            name: name.to_owned(),
            location: location.to_owned(),
            number: None,
            nested_items: Vec::new(),
        }
    }

    /// Append a nested entry.
    pub fn push_item(&mut self, item: SummaryItem)
        ensures
            final(self).nested_items@ == old(self).nested_items@.push(item),
            final(self).name == old(self).name,
            final(self).location == old(self).location,
            final(self).number == old(self).number,
    {
        self.nested_items.push(item);
    }
}

/// The parsed table of contents: three fixed groups of entries that are
/// loaded in prefix, numbered, suffix order.
#[derive(Debug, PartialEq)]
pub struct Summary {
    pub title: Option<String>,
    pub prefix_chapters: Vec<SummaryItem>,
    pub numbered_chapters: Vec<SummaryItem>,
    pub suffix_chapters: Vec<SummaryItem>,
}

impl Default for Summary {
    /// An empty summary.
    fn default() -> (r: Summary)
        ensures
            r.title is None,
            r.prefix_chapters@.len() == 0,
            r.numbered_chapters@.len() == 0,
            r.suffix_chapters@.len() == 0,
    {
        Summary {
            title: None,
            prefix_chapters: Vec::new(),
            numbered_chapters: Vec::new(),
            suffix_chapters: Vec::new(),
        }
    }
}

/// Every summary entry in loading order.
pub open spec fn summary_all(s: Summary) -> Seq<SummaryItem> {
    s.prefix_chapters@ + s.numbered_chapters@ + s.suffix_chapters@
}

/// A dumb tree structure representing a book.
///
/// For the moment a book is just a collection of `BookItems`.
#[derive(Debug, PartialEq)]
pub struct Book {
    /// The sections in this book.
    pub sections: Vec<BookItem>,
}

impl Default for Book {
    /// A book with no sections.
    fn default() -> (r: Book)
        ensures
            r.sections@.len() == 0,
    {
        Book { sections: Vec::new() }
    }
}

impl Book {
    /// Create an empty book.
    pub fn new() -> (r: Book)
        ensures
            r.sections@.len() == 0,
    {
        Book::default()
    }

    /// Get a depth-first iterator over the items in the book.
    pub fn iter(&self) -> (r: BookItems<'_>)
        ensures
            remaining_of_stack(r.items@) == flatten_list(self.sections@),
    {
        let n = self.sections.len();
        let mut items: Vec<&BookItem> = Vec::new();
        assert(self.sections@.skip(n as int) =~= Seq::<BookItem>::empty());
        let mut i: usize = 0;
        while i < n
            invariant
                i <= n,
                n == self.sections@.len(),
                items@.len() == i,
                forall|j: int| 0 <= j < i ==> items@[j] == &self.sections@[n - 1 - j],
                remaining_of_stack(items@) == flatten_list(self.sections@.skip(n - i)),
            decreases n - i,
        {
            let item = &self.sections[n - 1 - i];
            let ghost st_before = items@;
            items.push(item);
            proof {
                lemma_remaining_push(st_before, item, items@);
                let j = n - 1 - i as int;
                assert(self.sections@.skip(j).drop_first() =~= self.sections@.skip(j + 1));
                assert(self.sections@.skip(j)[0] == self.sections@[j]);
            }
            i = i + 1;
        }
        assert(self.sections@.skip(0) =~= self.sections@);
        BookItems { items }
    }
}

/// Enum representing any type of item which can be added to a book.
#[derive(Debug, PartialEq)]
pub enum BookItem {
    /// A nested chapter.
    Chapter(Chapter),
    /// A section separator.
    Separator,
}

/// The representation of a "chapter", usually mapping to a single file on
/// disk however it may contain multiple sub-chapters.
///
/// A chapter whose `dest_path` is absent is a draft: present in the tree for
/// structure and numbering, but not rendered to a standalone file.
#[derive(Debug, PartialEq)]
pub struct Chapter {
    /// The chapter's name.
    pub name: String,
    /// The chapter's contents.
    pub content: String,
    /// The chapter's section number, if it has one.
    pub number: Option<SectionNumber>,
    /// Nested items.
    pub sub_items: Vec<BookItem>,
    /// The location of the backing source document, as the summary gave it.
    pub source_path: Option<String>,
    /// Where the rendered chapter goes, relative to the destination root.
    pub dest_path: Option<String>,
    /// Links to the same chapter in other translations.
    pub translation_links: Option<Vec<String>>,
}

impl Chapter {
    /// Create a new chapter with the provided content.
    pub fn new(name: &str, content: String) -> (r: Chapter)
        ensures
            r.name@ == name@,
            r.content == content,
            r.number is None,
            r.sub_items@.len() == 0,
            r.source_path is None,
            r.dest_path is None,
            r.translation_links is None,
    {
        Chapter {
            name: name.to_owned(),
            content,
            number: None,
            sub_items: Vec::new(),
            source_path: None,
            dest_path: None,
            translation_links: None,
        }
    }
}

/// The numbers a section number holds.
pub open spec fn opt_num_view(n: Option<SectionNumber>) -> Option<Seq<u32>> {
    match n {
        None => None,
        Some(sn) => Some(sn.0@),
    }
}

/// The characters an optional string holds.
pub open spec fn opt_str_view(s: Option<String>) -> Option<Seq<char>> {
    match s {
        None => None,
        Some(p) => Some(p@),
    }
}

/// Copy a section number exactly.
fn clone_number(n: &Option<SectionNumber>) -> (r: Option<SectionNumber>)
    ensures
        opt_num_view(r) == opt_num_view(*n),
{
    match n {
        None => None,
        Some(sn) => {
            let m = sn.0.len();
            let mut v: Vec<u32> = Vec::new();
            let mut i: usize = 0;
            while i < m
                invariant
                    i <= m,
                    m == sn.0@.len(),
                    v@ =~= sn.0@.subrange(0, i as int),
                decreases m - i,
            {
                v.push(sn.0[i]);
                i = i + 1;
            }
            assert(v@ =~= sn.0@);
            Some(SectionNumber(v))
        },
    }
}

// ---------------------------------------------------------------------------
// What loading means.
// ---------------------------------------------------------------------------

/// The first failure a link runs into, in depth-first order: its own file
/// missing (`ChapterNotFound`, reported with the logical location) or
/// unreadable (`IoFailure`), else the first failure among its nested items.
pub open spec fn link_outcome(
    l: Link,
    src_dir: Seq<char>,
    files: Seq<(String, Option<String>)>,
) -> Option<ErrorV>
    decreases l,
{
    match spec_assoc(files, spec_resolve(src_dir, l.location@)) {
        None => Some(ErrorV::ChapterNotFound(l.location@)),
        Some(None) => Some(ErrorV::IoFailure(l.location@)),
        Some(Some(_)) => list_outcome(l.nested_items@, src_dir, files),
    }
}

/// The first failure a summary item runs into.
pub open spec fn item_outcome(
    item: SummaryItem,
    src_dir: Seq<char>,
    files: Seq<(String, Option<String>)>,
) -> Option<ErrorV>
    decreases item,
{
    match item {
        SummaryItem::Separator => None,
        SummaryItem::Link(l) => link_outcome(l, src_dir, files),
    }
}

/// The first failure in a list of summary items.
pub open spec fn list_outcome(
    items: Seq<SummaryItem>,
    src_dir: Seq<char>,
    files: Seq<(String, Option<String>)>,
) -> Option<ErrorV>
    decreases items,
{
    if items.len() == 0 {
        None
    } else {
        match item_outcome(items[0], src_dir, files) {
            Some(e) => Some(e),
            None => list_outcome(items.drop_first(), src_dir, files),
        }
    }
}

/// What a successfully loaded chapter looks like: the link's name and number,
/// the exact content of the backing file, the location recorded as source
/// path, the `.html` name as destination, and each nested entry loaded below
/// it in order.
pub open spec fn chapter_loaded(
    l: Link,
    ch: Chapter,
    src_dir: Seq<char>,
    files: Seq<(String, Option<String>)>,
) -> bool
    decreases l,
{
    &&& ch.name@ == l.name@
    &&& opt_num_view(ch.number) == opt_num_view(l.number)
    &&& match spec_assoc(files, spec_resolve(src_dir, l.location@)) {
        Some(Some(c)) => ch.content@ == c@,
        _ => false,
    }
    &&& opt_str_view(ch.source_path) == Some(l.location@)
    &&& opt_str_view(ch.dest_path) == Some(spec_md_to_html(l.location@))
    &&& ch.translation_links is None
    &&& subs_loaded(l.nested_items@, ch.sub_items@, src_dir, files)
}

/// What a successfully loaded run of nested entries looks like, one book
/// item per summary entry, in order.
pub open spec fn subs_loaded(
    items: Seq<SummaryItem>,
    bs: Seq<BookItem>,
    src_dir: Seq<char>,
    files: Seq<(String, Option<String>)>,
) -> bool
    decreases items,
{
    if items.len() == 0 {
        bs.len() == 0
    } else {
        &&& bs.len() == items.len()
        &&& item_loaded(items[0], bs[0], src_dir, files)
        &&& subs_loaded(items.drop_first(), bs.drop_first(), src_dir, files)
    }
}

/// Pointwise loading of every entry gives `subs_loaded`.
pub proof fn lemma_subs_loaded_intro(
    items: Seq<SummaryItem>,
    bs: Seq<BookItem>,
    src_dir: Seq<char>,
    files: Seq<(String, Option<String>)>,
)
    requires
        bs.len() == items.len(),
        forall|j: int| 0 <= j < items.len() ==> #[trigger] item_loaded(items[j], bs[j], src_dir, files),
    ensures
        subs_loaded(items, bs, src_dir, files),
    decreases items.len(),
{
    if items.len() != 0 {
        assert(item_loaded(items[0], bs[0], src_dir, files));
        assert forall|j: int|
            0 <= j < items.drop_first().len() implies #[trigger] item_loaded(
            items.drop_first()[j],
            bs.drop_first()[j],
            src_dir,
            files,
        ) by {
            assert(items.drop_first()[j] == items[j + 1]);
            assert(bs.drop_first()[j] == bs[j + 1]);
            assert(item_loaded(items[j + 1], bs[j + 1], src_dir, files));
        }
        lemma_subs_loaded_intro(items.drop_first(), bs.drop_first(), src_dir, files);
    }
}

/// What a successfully loaded summary item looks like.
pub open spec fn item_loaded(
    item: SummaryItem,
    b: BookItem,
    src_dir: Seq<char>,
    files: Seq<(String, Option<String>)>,
) -> bool
    decreases item,
{
    match (item, b) {
        (SummaryItem::Separator, BookItem::Separator) => true,
        (SummaryItem::Link(l), BookItem::Chapter(ch)) => chapter_loaded(l, ch, src_dir, files),
        _ => false,
    }
}

/// What a successfully loaded list of summary items looks like.
pub open spec fn items_loaded(
    items: Seq<SummaryItem>,
    bs: Seq<BookItem>,
    src_dir: Seq<char>,
    files: Seq<(String, Option<String>)>,
) -> bool {
    &&& bs.len() == items.len()
    &&& forall|i: int|
        0 <= i < items.len() ==> #[trigger] item_loaded(items[i], bs[i], src_dir, files)
}

// ---------------------------------------------------------------------------
// The loader.
// ---------------------------------------------------------------------------

/// Load one chapter: read its backing file through the store, then its nested
/// items, depth first.
pub fn load_chapter(link: &Link, src_dir: &str, files: &FileStore) -> (r: Result<Chapter, Error>)
    ensures
        match r {
            Ok(ch) => link_outcome(*link, src_dir@, files.entries@) is None && chapter_loaded(
                *link,
                ch,
                src_dir@,
                files.entries@,
            ),
            Err(e) => link_outcome(*link, src_dir@, files.entries@) == Some(e@),
        },
    decreases *link,
{
    let location = resolve_location(src_dir, link.location.as_str());
    match files.get(&location) {
        None => Err(Error::ChapterNotFound(link.location.clone())),
        Some(stored) => match stored {
            None => Err(Error::IoFailure(link.location.clone())),
            Some(content) => {
                let n = link.nested_items.len();
                let mut subs: Vec<BookItem> = Vec::new();
                let mut i: usize = 0;
                assert(link.nested_items@.skip(0) =~= link.nested_items@);
                while i < n
                    invariant
                        i <= n,
                        n == link.nested_items@.len(),
                        subs@.len() == i,
                        link_outcome(*link, src_dir@, files.entries@) == list_outcome(
                            link.nested_items@,
                            src_dir@,
                            files.entries@,
                        ),
                        forall|j: int|
                            0 <= j < i ==> #[trigger] item_loaded(
                                link.nested_items@[j],
                                subs@[j],
                                src_dir@,
                                files.entries@,
                            ),
                        list_outcome(link.nested_items@, src_dir@, files.entries@) == list_outcome(
                            link.nested_items@.skip(i as int),
                            src_dir@,
                            files.entries@,
                        ),
                    decreases n - i,
                {
                    proof {
                        assert(link.nested_items@.skip(i as int).drop_first()
                            =~= link.nested_items@.skip(i + 1));
                        assert(link.nested_items@.skip(i as int)[0] == link.nested_items@[i as int]);
                    }
                    let sub = &link.nested_items[i];
                    assert(decreases_to!(*link => *sub));
                    match load_summary_item(sub, src_dir, files) {
                        Ok(item) => subs.push(item),
                        Err(e) => {
                            return Err(e);
                        },
                    }
                    i = i + 1;
                }
                assert(link.nested_items@.skip(n as int) =~= Seq::<SummaryItem>::empty());
                let mut ch = Chapter::new(link.name.as_str(), content.clone());
                ch.number = clone_number(&link.number);
                ch.source_path = Some(link.location.clone());
                ch.dest_path = Some(md_to_html_name(link.location.as_str()));
                let ghost subs_v = subs@;
                proof {
                    assert forall|j: int| 0 <= j < link.nested_items@.len() implies #[trigger] item_loaded(
                        link.nested_items@[j],
                        subs_v[j],
                        src_dir@,
                        files.entries@,
                    ) by {
                        assert(item_loaded(link.nested_items@[j], subs@[j], src_dir@, files.entries@));
                    }
                }
                ch.sub_items = subs;
                proof {
                    assert(ch.sub_items@ == subs_v);
                    lemma_subs_loaded_intro(link.nested_items@, subs_v, src_dir@, files.entries@);
                    assert(chapter_loaded(*link, ch, src_dir@, files.entries@));
                }
                Ok(ch)
            },
        },
    }
}

/// Load one summary entry: a separator stays a separator, a link becomes a
/// chapter.
pub fn load_summary_item(item: &SummaryItem, src_dir: &str, files: &FileStore) -> (r: Result<
    BookItem,
    Error,
>)
    ensures
        match r {
            Ok(b) => item_outcome(*item, src_dir@, files.entries@) is None && item_loaded(
                *item,
                b,
                src_dir@,
                files.entries@,
            ),
            Err(e) => item_outcome(*item, src_dir@, files.entries@) == Some(e@),
        },
    decreases *item,
{
    match item {
        SummaryItem::Separator => Ok(BookItem::Separator),
        SummaryItem::Link(link) => match load_chapter(link, src_dir, files) {
            Ok(ch) => Ok(BookItem::Chapter(ch)),
            Err(e) => Err(e),
        },
    }
}

/// Load one group of summary entries in order.
fn load_items(items: &Vec<SummaryItem>, src_dir: &str, files: &FileStore) -> (r: Result<
    Vec<BookItem>,
    Error,
>)
    ensures
        match r {
            Ok(bs) => list_outcome(items@, src_dir@, files.entries@) is None && items_loaded(
                items@,
                bs@,
                src_dir@,
                files.entries@,
            ),
            Err(e) => list_outcome(items@, src_dir@, files.entries@) == Some(e@),
        },
{
    let n = items.len();
    let mut out: Vec<BookItem> = Vec::new();
    let mut i: usize = 0;
    assert(items@.skip(0) =~= items@);
    while i < n
        invariant
            i <= n,
            n == items@.len(),
            out@.len() == i,
            forall|j: int|
                0 <= j < i ==> #[trigger] item_loaded(items@[j], out@[j], src_dir@, files.entries@),
            list_outcome(items@, src_dir@, files.entries@) == list_outcome(
                items@.skip(i as int),
                src_dir@,
                files.entries@,
            ),
        decreases n - i,
    {
        proof {
            assert(items@.skip(i as int).drop_first() =~= items@.skip(i + 1));
            assert(items@.skip(i as int)[0] == items@[i as int]);
        }
        match load_summary_item(&items[i], src_dir, files) {
            Ok(item) => out.push(item),
            Err(e) => {
                return Err(e);
            },
        }
        i = i + 1;
    }
    assert(items@.skip(n as int) =~= Seq::<SummaryItem>::empty());
    Ok(out)
}

/// `list_outcome` distributes over concatenation: the first failure of the
/// whole is the first failure of the front, else of the back.
pub proof fn lemma_list_outcome_concat(
    a: Seq<SummaryItem>,
    b: Seq<SummaryItem>,
    src_dir: Seq<char>,
    files: Seq<(String, Option<String>)>,
)
    ensures
        list_outcome(a + b, src_dir, files) == match list_outcome(a, src_dir, files) {
            Some(e) => Some(e),
            None => list_outcome(b, src_dir, files),
        },
    decreases a.len(),
{
    if a.len() == 0 {
        assert(a + b =~= b);
    } else {
        assert((a + b)[0] == a[0]);
        assert((a + b).drop_first() =~= a.drop_first() + b);
        lemma_list_outcome_concat(a.drop_first(), b, src_dir, files);
    }
}

/// Use the provided `Summary` to load a `Book`.
///
/// Every link location is resolved against the book's source directory,
/// because all the links in the summary give the chapter locations relative
/// to it; the caller supplies the outcome of reading each resolved location
/// in `files`.
pub fn load_book_from_disk(summary: &Summary, src_dir: &str, files: &FileStore) -> (r: Result<
    Book,
    Error,
>)
    ensures
        match r {
            Ok(book) => list_outcome(summary_all(*summary), src_dir@, files.entries@) is None
                && items_loaded(summary_all(*summary), book.sections@, src_dir@, files.entries@),
            Err(e) => list_outcome(summary_all(*summary), src_dir@, files.entries@) == Some(e@),
        },
{
    proof {
        lemma_list_outcome_concat(
            summary.prefix_chapters@ + summary.numbered_chapters@,
            summary.suffix_chapters@,
            src_dir@,
            files.entries@,
        );
        lemma_list_outcome_concat(
            summary.prefix_chapters@,
            summary.numbered_chapters@,
            src_dir@,
            files.entries@,
        );
        assert(summary_all(*summary) =~= (summary.prefix_chapters@ + summary.numbered_chapters@)
            + summary.suffix_chapters@);
    }
    let mut sections = match load_items(&summary.prefix_chapters, src_dir, files) {
        Ok(v) => v,
        Err(e) => {
            return Err(e);
        },
    };
    let mut numbered = match load_items(&summary.numbered_chapters, src_dir, files) {
        Ok(v) => v,
        Err(e) => {
            return Err(e);
        },
    };
    let mut suffix = match load_items(&summary.suffix_chapters, src_dir, files) {
        Ok(v) => v,
        Err(e) => {
            return Err(e);
        },
    };
    let ghost vp = sections@;
    let ghost vn = numbered@;
    let ghost vs = suffix@;
    sections.append(&mut numbered);
    sections.append(&mut suffix);
    proof {
        let all = summary_all(*summary);
        assert(sections@ =~= vp + vn + vs);
        assert forall|i: int| 0 <= i < all.len() implies #[trigger] item_loaded(
            all[i],
            sections@[i],
            src_dir@,
            files.entries@,
        ) by {
            let pl = summary.prefix_chapters@.len() as int;
            let nl = summary.numbered_chapters@.len() as int;
            if i < pl {
                assert(all[i] == summary.prefix_chapters@[i]);
                assert(sections@[i] == vp[i]);
            } else if i < pl + nl {
                assert(all[i] == summary.numbered_chapters@[i - pl]);
                assert(sections@[i] == vn[i - pl]);
            } else {
                assert(all[i] == summary.suffix_chapters@[i - pl - nl]);
                assert(sections@[i] == vs[i - pl - nl]);
            }
        }
    }
    Ok(Book { sections })
}

// ---------------------------------------------------------------------------
// Draft-file materialization: the stub files to create for summary entries
// whose backing file is missing, so that a fresh book builds.
// ---------------------------------------------------------------------------

/// The content a stub file gets: a heading with the chapter's name.
pub open spec fn spec_stub_content(name: Seq<char>) -> Seq<char> {
    "# "@ + name + "\n"@
}

/// The stub files one link asks for, in depth-first order: its own
/// resolved location when no read outcome is recorded for it, then its
/// nested entries'.
pub open spec fn spec_stubs_link(
    l: Link,
    src_dir: Seq<char>,
    files: Seq<(String, Option<String>)>,
) -> Seq<(Seq<char>, Seq<char>)>
    decreases l,
{
    let own: Seq<(Seq<char>, Seq<char>)> = if spec_assoc(
        files,
        spec_resolve(src_dir, l.location@),
    ) is None {
        seq![(spec_resolve(src_dir, l.location@), spec_stub_content(l.name@))]
    } else {
        Seq::empty()
    };
    own + spec_stubs_list(l.nested_items@, src_dir, files)
}

/// The stub files one summary entry asks for.
pub open spec fn spec_stubs_item(
    item: SummaryItem,
    src_dir: Seq<char>,
    files: Seq<(String, Option<String>)>,
) -> Seq<(Seq<char>, Seq<char>)>
    decreases item,
{
    match item {
        SummaryItem::Separator => Seq::empty(),
        SummaryItem::Link(l) => spec_stubs_link(l, src_dir, files),
    }
}

/// The stub files a list of summary entries asks for.
pub open spec fn spec_stubs_list(
    items: Seq<SummaryItem>,
    src_dir: Seq<char>,
    files: Seq<(String, Option<String>)>,
) -> Seq<(Seq<char>, Seq<char>)>
    decreases items,
{
    if items.len() == 0 {
        Seq::empty()
    } else {
        spec_stubs_item(items[0], src_dir, files) + spec_stubs_list(
            items.drop_first(),
            src_dir,
            files,
        )
    }
}

/// The pairs a stub plan holds, as character sequences.
pub open spec fn stubs_view(v: Seq<(String, String)>) -> Seq<(Seq<char>, Seq<char>)> {
    v.map_values(|p: (String, String)| (p.0@, p.1@))
}

/// Append one link's stubs.
fn push_stubs_link(
    link: &Link,
    src_dir: &str,
    files: &FileStore,
    out: &mut Vec<(String, String)>,
)
    ensures
        stubs_view(final (out)@) == stubs_view(old(out)@) + spec_stubs_link(
            *link,
            src_dir@,
            files.entries@,
        ),
    decreases *link,
{
    let ghost base = stubs_view(out@);
    let location = resolve_location(src_dir, link.location.as_str());
    match files.get(&location) {
        Some(_) => {},
        None => {
            let mut content = String::from_str("# ");
            content.append(link.name.as_str());
            content.append("\n");
            proof {
                reveal_strlit("# ");
                reveal_strlit("\n");
            }
            out.push((location, content));
        },
    }
    let ghost mid = stubs_view(out@);
    proof {
        assert(mid =~= base + (if spec_assoc(
            files.entries@,
            spec_resolve(src_dir@, link.location@),
        ) is None {
            seq![
                (
                    spec_resolve(src_dir@, link.location@),
                    spec_stub_content(link.name@),
                ),
            ]
        } else {
            Seq::<(Seq<char>, Seq<char>)>::empty()
        }));
    }
    let n = link.nested_items.len();
    let mut i: usize = 0;
    while i < n
        invariant
            0 <= i <= n,
            n == link.nested_items@.len(),
            stubs_view(out@) =~= mid + spec_stubs_list(
                link.nested_items@.take(i as int),
                src_dir@,
                files.entries@,
            ),
        decreases n - i,
    {
        let sub = &link.nested_items[i];
        assert(decreases_to!(*link => *sub));
        push_stubs_item(sub, src_dir, files, out);
        proof {
            lemma_stubs_list_snoc(link.nested_items@, i as int, src_dir@, files.entries@);
        }
        i = i + 1;
    }
    proof {
        assert(link.nested_items@.take(n as int) =~= link.nested_items@);
        assert(stubs_view(out@) =~= base + spec_stubs_link(*link, src_dir@, files.entries@));
    }
}

/// Append one entry's stubs.
fn push_stubs_item(
    item: &SummaryItem,
    src_dir: &str,
    files: &FileStore,
    out: &mut Vec<(String, String)>,
)
    ensures
        stubs_view(final (out)@) == stubs_view(old(out)@) + spec_stubs_item(
            *item,
            src_dir@,
            files.entries@,
        ),
    decreases *item,
{
    match item {
        SummaryItem::Separator => {
            assert(stubs_view(out@) =~= stubs_view(out@) + spec_stubs_item(
                *item,
                src_dir@,
                files.entries@,
            ));
        },
        SummaryItem::Link(link) => {
            push_stubs_link(link, src_dir, files, out);
        },
    }
}

/// The stubs of a list prefix grow at the back./// The stubs of a list prefix grow at the back.
proof fn lemma_stubs_list_snoc(
    items: Seq<SummaryItem>,
    i: int,
    src_dir: Seq<char>,
    files: Seq<(String, Option<String>)>,
)
    requires
        0 <= i < items.len(),
    ensures
        spec_stubs_list(items.take(i + 1), src_dir, files) == spec_stubs_list(
            items.take(i),
            src_dir,
            files,
        ) + spec_stubs_item(items[i], src_dir, files),
    decreases i,
{
    if i == 0 {
        assert(items.take(1).drop_first() =~= Seq::<SummaryItem>::empty());
        assert(items.take(1)[0] == items[0]);
        assert(items.take(0).len() == 0);
        assert(spec_stubs_list(Seq::<SummaryItem>::empty(), src_dir, files) == Seq::<(
            Seq<char>,
            Seq<char>,
        )>::empty());
        assert(spec_stubs_list(items.take(1), src_dir, files) =~= spec_stubs_list(
            items.take(0),
            src_dir,
            files,
        ) + spec_stubs_item(items[0], src_dir, files));
    } else {
        lemma_stubs_list_snoc(items.drop_first(), i - 1, src_dir, files);
        assert(items.take(i + 1).drop_first() =~= items.drop_first().take(i));
        assert(items.take(i).drop_first() =~= items.drop_first().take(i - 1));
        assert(items.take(i + 1)[0] == items[0]);
        assert(items.take(i)[0] == items[0]);
        assert(items.drop_first()[i - 1] == items[i]);
        assert(spec_stubs_list(items.take(i + 1), src_dir, files) =~= spec_stubs_list(
            items.take(i),
            src_dir,
            files,
        ) + spec_stubs_item(items[i], src_dir, files));
    }
}

/// The stub files to create before a fresh book is loaded: one per summary
/// entry whose backing file has no recorded read outcome, at its resolved
/// location, holding a heading with the entry's name, in depth-first
/// summary order.
pub fn missing_file_stubs(summary: &Summary, src_dir: &str, files: &FileStore) -> (r: Vec<
    (String, String),
>)
    ensures
        stubs_view(r@) == spec_stubs_list(summary_all(*summary), src_dir@, files.entries@),
{
    proof {
        lemma_stubs_list_concat(
            summary.prefix_chapters@ + summary.numbered_chapters@,
            summary.suffix_chapters@,
            src_dir@,
            files.entries@,
        );
        lemma_stubs_list_concat(
            summary.prefix_chapters@,
            summary.numbered_chapters@,
            src_dir@,
            files.entries@,
        );
        assert(summary_all(*summary) =~= (summary.prefix_chapters@ + summary.numbered_chapters@)
            + summary.suffix_chapters@);
    }
    let mut out: Vec<(String, String)> = Vec::new();
    push_stubs_group(&summary.prefix_chapters, src_dir, files, &mut out);
    push_stubs_group(&summary.numbered_chapters, src_dir, files, &mut out);
    push_stubs_group(&summary.suffix_chapters, src_dir, files, &mut out);
    out
}

/// Append one group's stubs.
fn push_stubs_group(
    items: &Vec<SummaryItem>,
    src_dir: &str,
    files: &FileStore,
    out: &mut Vec<(String, String)>,
)
    ensures
        stubs_view(final (out)@) == stubs_view(old(out)@) + spec_stubs_list(
            items@,
            src_dir@,
            files.entries@,
        ),
{
    let ghost base = stubs_view(out@);
    let n = items.len();
    let mut i: usize = 0;
    while i < n
        invariant
            0 <= i <= n,
            n == items@.len(),
            stubs_view(out@) =~= base + spec_stubs_list(
                items@.take(i as int),
                src_dir@,
                files.entries@,
            ),
        decreases n - i,
    {
        push_stubs_item(&items[i], src_dir, files, out);
        proof {
            lemma_stubs_list_snoc(items@, i as int, src_dir@, files.entries@);
        }
        i = i + 1;
    }
    proof {
        assert(items@.take(n as int) =~= items@);
    }
}

/// Stubs distribute over concatenated groups.
proof fn lemma_stubs_list_concat(
    a: Seq<SummaryItem>,
    b: Seq<SummaryItem>,
    src_dir: Seq<char>,
    files: Seq<(String, Option<String>)>,
)
    ensures
        spec_stubs_list(a + b, src_dir, files) == spec_stubs_list(a, src_dir, files)
            + spec_stubs_list(b, src_dir, files),
    decreases a.len(),
{
    if a.len() == 0 {
        assert(a + b =~= b);
        assert(spec_stubs_list(a, src_dir, files) + spec_stubs_list(b, src_dir, files)
            =~= spec_stubs_list(b, src_dir, files));
    } else {
        assert((a + b)[0] == a[0]);
        assert((a + b).drop_first() =~= a.drop_first() + b);
        lemma_stubs_list_concat(a.drop_first(), b, src_dir, files);
        assert(spec_stubs_list(a + b, src_dir, files) =~= spec_stubs_list(a, src_dir, files)
            + spec_stubs_list(b, src_dir, files));
    }
}

// ---------------------------------------------------------------------------
// The depth-first iterator.
// ---------------------------------------------------------------------------

/// The depth-first, document-order sequence of every item below `it`: the
/// item itself, then its loaded sub-items, recursively.
pub open spec fn flatten_one(it: BookItem) -> Seq<BookItem>
    decreases it,
{
    match it {
        BookItem::Chapter(ch) => seq![it] + flatten_list(ch.sub_items@),
        BookItem::Separator => seq![it],
    }
}

/// The depth-first sequence of a list of items.
pub open spec fn flatten_list(items: Seq<BookItem>) -> Seq<BookItem>
    decreases items,
{
    if items.len() == 0 {
        Seq::empty()
    } else {
        flatten_one(items[0]) + flatten_list(items.drop_first())
    }
}

/// What a traversal stack still yields, reading from the top (the end of the
/// vector) down.
pub open spec fn remaining_of_stack(st: Seq<&BookItem>) -> Seq<BookItem>
    decreases st.len(),
{
    if st.len() == 0 {
        Seq::empty()
    } else {
        flatten_one(*st.last()) + remaining_of_stack(st.drop_last())
    }
}

/// Pushing an item onto the stack puts its whole flattening in front of what
/// was already pending.
pub proof fn lemma_remaining_push<'a>(st: Seq<&'a BookItem>, it: &'a BookItem, pushed: Seq<
    &'a BookItem,
>)
    requires
        pushed == st.push(it),
    ensures
        remaining_of_stack(pushed) == flatten_one(*it) + remaining_of_stack(st),
{
    assert(pushed.len() == st.len() + 1);
    assert(*pushed.last() == *it);
    assert(pushed.drop_last() =~= st);
}

/// Flattening distributes over concatenation.
pub proof fn lemma_flatten_concat(a: Seq<BookItem>, b: Seq<BookItem>)
    ensures
        flatten_list(a + b) == flatten_list(a) + flatten_list(b),
    decreases a.len(),
{
    if a.len() == 0 {
        assert(a + b =~= b);
        assert(flatten_list(a) + flatten_list(b) =~= flatten_list(b));
    } else {
        assert((a + b)[0] == a[0]);
        assert((a + b).drop_first() =~= a.drop_first() + b);
        lemma_flatten_concat(a.drop_first(), b);
        assert(flatten_one(a[0]) + (flatten_list(a.drop_first()) + flatten_list(b)) =~= (
        flatten_one(a[0]) + flatten_list(a.drop_first())) + flatten_list(b));
    }
}

/// Depth-first order is pre-order: the traversal of a list splits around any
/// position `i` into the items before it, then the item itself immediately
/// followed by the traversal of its own sub-items, then the siblings after
/// it.
pub proof fn lemma_preorder(items: Seq<BookItem>, i: int)
    requires
        0 <= i < items.len(),
    ensures
        flatten_list(items) == flatten_list(items.take(i)) + flatten_one(items[i]) + flatten_list(
            items.skip(i + 1),
        ),
        match items[i] {
            BookItem::Chapter(ch) => flatten_one(items[i]) == seq![items[i]] + flatten_list(
                ch.sub_items@,
            ),
            BookItem::Separator => flatten_one(items[i]) == seq![items[i]],
        },
{
    assert(items =~= items.take(i) + items.skip(i));
    lemma_flatten_concat(items.take(i), items.skip(i));
    assert(items.skip(i)[0] == items[i]);
    assert(items.skip(i).drop_first() =~= items.skip(i + 1));
    assert(flatten_list(items.take(i)) + (flatten_one(items[i]) + flatten_list(items.skip(i + 1)))
        =~= flatten_list(items.take(i)) + flatten_one(items[i]) + flatten_list(items.skip(i + 1)));
}

/// A summary entry with nothing nested below it.
pub open spec fn item_flat(item: SummaryItem) -> bool {
    match item {
        SummaryItem::Separator => true,
        SummaryItem::Link(l) => l.nested_items@.len() == 0,
    }
}

/// A book item with no sub-items.
pub open spec fn book_item_flat(b: BookItem) -> bool {
    match b {
        BookItem::Separator => true,
        BookItem::Chapter(ch) => ch.sub_items@.len() == 0,
    }
}

/// Flattening a list of items without sub-items gives the list back.
pub proof fn lemma_flatten_flat(items: Seq<BookItem>)
    requires
        forall|i: int| 0 <= i < items.len() ==> #[trigger] book_item_flat(items[i]),
    ensures
        flatten_list(items) == items,
    decreases items.len(),
{
    if items.len() != 0 {
        assert(book_item_flat(items[0]));
        assert(flatten_one(items[0]) =~= seq![items[0]]);
        assert forall|i: int| 0 <= i < items.drop_first().len() implies #[trigger] book_item_flat(
            items.drop_first()[i],
        ) by {
            assert(items.drop_first()[i] == items[i + 1]);
            assert(book_item_flat(items[i + 1]));
        }
        lemma_flatten_flat(items.drop_first());
        assert(seq![items[0]] + items.drop_first() =~= items);
    }
}

/// For a summary with no nested entries, loading and then walking the book
/// depth-first yields exactly one book item per summary entry, in the
/// summary's prefix, numbered, suffix order.
pub proof fn lemma_flat_summary_order(
    summary: Summary,
    book: Book,
    src_dir: Seq<char>,
    files: Seq<(String, Option<String>)>,
)
    requires
        items_loaded(summary_all(summary), book.sections@, src_dir, files),
        forall|i: int|
            0 <= i < summary_all(summary).len() ==> #[trigger] item_flat(summary_all(summary)[i]),
    ensures
        flatten_list(book.sections@) == book.sections@,
        book.sections@.len() == summary_all(summary).len(),
        forall|i: int|
            0 <= i < summary_all(summary).len() ==> #[trigger] item_loaded(
                summary_all(summary)[i],
                flatten_list(book.sections@)[i],
                src_dir,
                files,
            ),
{
    let all = summary_all(summary);
    assert forall|i: int| 0 <= i < book.sections@.len() implies #[trigger] book_item_flat(
        book.sections@[i],
    ) by {
        assert(item_loaded(all[i], book.sections@[i], src_dir, files));
        assert(item_flat(all[i]));
        match book.sections@[i] {
            BookItem::Separator => {},
            BookItem::Chapter(ch) => {
                match all[i] {
                    SummaryItem::Link(l) => {
                        assert(subs_loaded(l.nested_items@, ch.sub_items@, src_dir, files));
                    },
                    SummaryItem::Separator => {},
                }
            },
        }
    }
    lemma_flatten_flat(book.sections@);
}

/// A depth-first iterator over the items in a book.
///
/// # Note
///
/// This struct shouldn't be created directly, instead prefer the
/// [`Book::iter()`] method.
pub struct BookItems<'a> {
    pub items: Vec<&'a BookItem>,
}

impl<'a> BookItems<'a> {
    /// The next item in document order: a chapter is yielded before its
    /// sub-items, and sub-items before the next sibling.
    pub fn next(&mut self) -> (r: Option<&'a BookItem>)
        ensures
            ({
                let before = remaining_of_stack(old(self).items@);
                let after = remaining_of_stack(final (self).items@);
                match r {
                    None => before.len() == 0 && after.len() == 0,
                    Some(it) => before.len() > 0 && *it == before[0] && after
                        == before.drop_first(),
                }
            }),
    {
        let popped = self.items.pop();
        match popped {
            None => None,
            Some(item) => {
                proof {
                    assert(old(self).items@ =~= self.items@.push(item));
                    lemma_remaining_push(self.items@, item, old(self).items@);
                }
                let ghost rest = remaining_of_stack(self.items@);
                match item {
                    BookItem::Separator => {
                        proof {
                            assert(flatten_one(*item) =~= seq![*item]);
                            assert(remaining_of_stack(old(self).items@).drop_first() =~= rest);
                        }
                        Some(item)
                    },
                    BookItem::Chapter(ch) => {
                        let n = ch.sub_items.len();
                        let mut k = n;
                        assert(ch.sub_items@.skip(n as int) =~= Seq::<BookItem>::empty());
                        while k > 0
                            invariant
                                k <= n,
                                n == ch.sub_items@.len(),
                                remaining_of_stack(self.items@) =~= flatten_list(
                                    ch.sub_items@.skip(k as int),
                                ) + rest,
                            decreases k,
                        {
                            k = k - 1;
                            let sub = &ch.sub_items[k];
                            let ghost st_before = self.items@;
                            self.items.push(sub);
                            proof {
                                lemma_remaining_push(st_before, sub, self.items@);
                                assert(ch.sub_items@.skip(k as int).drop_first()
                                    =~= ch.sub_items@.skip(k + 1));
                                assert(ch.sub_items@.skip(k as int)[0] == ch.sub_items@[k as int]);
                            }
                        }
                        proof {
                            assert(ch.sub_items@.skip(0) =~= ch.sub_items@);
                            let before = remaining_of_stack(old(self).items@);
                            assert(flatten_one(*item) == seq![*item] + flatten_list(ch.sub_items@));
                            assert(before =~= seq![*item] + (flatten_list(ch.sub_items@) + rest));
                            assert(remaining_of_stack(self.items@) =~= before.drop_first());
                        }
                        Some(item)
                    },
                }
            },
        }
    }

    /// Collect everything the iterator still yields, in order.
    pub fn collect_remaining(&mut self) -> (r: Vec<&'a BookItem>)
        ensures
            r@.len() == remaining_of_stack(old(self).items@).len(),
            forall|i: int|
                0 <= i < r@.len() ==> *r@[i] == remaining_of_stack(old(self).items@)[i],
            remaining_of_stack(final (self).items@).len() == 0,
    {
        let ghost orig = remaining_of_stack(self.items@);
        let mut out: Vec<&'a BookItem> = Vec::new();
        loop
            invariant
                orig == remaining_of_stack(old(self).items@),
                orig.len() == out@.len() + remaining_of_stack(self.items@).len(),
                forall|i: int| 0 <= i < out@.len() ==> *out@[i] == orig[i],
                forall|i: int|
                    0 <= i < remaining_of_stack(self.items@).len()
                        ==> #[trigger] remaining_of_stack(self.items@)[i] == orig[out@.len() + i],
            decreases remaining_of_stack(self.items@).len(),
        {
            let ghost pre = remaining_of_stack(self.items@);
            match self.next() {
                None => {
                    return out;
                },
                Some(item) => {
                    out.push(item);
                },
            }
        }
    }
}

} // verus!
