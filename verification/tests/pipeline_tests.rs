use mdbook::book::{load_book_from_disk, BookItem, Link, SectionNumber, Summary, SummaryItem};
use mdbook::links::{fix_dest, md_split, SymlinkResolveContext};
use mdbook::render::render_markdown;
use mdbook::renderer::{items_to_chapters, next, previous, HtmlHandlebars};
use mdbook::errors::Error;
use mdbook::store::{FileStore, NameTable};

fn two_chapter_summary() -> (Summary, FileStore) {
    let mut store = FileStore::new();
    store.insert(
        "intro.md".to_string(),
        Some("# Intro\n\nwelcome".to_string()),
    );
    store.insert(
        "chapter1.md".to_string(),
        Some("# One\n\nsee [the intro](intro.md)".to_string()),
    );
    let mut numbered = Link::new("Chapter 1", "chapter1.md");
    numbered.number = Some(SectionNumber(vec![1]));
    let summary = Summary {
        prefix_chapters: vec![SummaryItem::Link(Link::new("Intro", "intro.md"))],
        numbered_chapters: vec![SummaryItem::Link(numbered)],
        ..Default::default()
    };
    (summary, store)
}

#[test]
fn end_to_end_two_chapters_cross_link_and_print_page() {
    let (summary, store) = two_chapter_summary();
    let book = load_book_from_disk(&summary, "", &store).unwrap();

    // one output page per chapter, at the fingerprint-free `.html` name
    let mut pages: Vec<(String, String)> = Vec::new();
    let mut print_markdown = String::new();
    for section in &book.sections {
        if let BookItem::Chapter(ch) = section {
            let body = render_markdown(&ch.content, false, &None);
            pages.push((ch.dest_path.clone().unwrap(), body));
            print_markdown.push_str(&ch.content);
        }
    }
    assert_eq!(pages.len(), 2);
    assert_eq!(pages[0].0, "intro.html");
    assert_eq!(pages[1].0, "chapter1.html");
    // the cross-link resolves to the sibling's `.html` name
    assert!(pages[1].1.contains("<a href=\"intro.html\">the intro</a>"));

    // the print page holds both chapters' content, in order
    let renderer = HtmlHandlebars::new();
    let collected = renderer
        .collect_print_content_markdown(&book.sections)
        .unwrap();
    assert_eq!(collected, print_markdown);
    let print_html = render_markdown(&collected, false, &None);
    assert!(print_html.contains("welcome"));
    assert!(print_html.contains("see"));
    let intro_at = print_html.find("welcome").unwrap();
    let one_at = print_html.find("see").unwrap();
    assert!(intro_at < one_at);
}

#[test]
fn navigation_walks_the_flat_chapter_list() {
    let (summary, store) = two_chapter_summary();
    let book = load_book_from_disk(&summary, "", &store).unwrap();
    let entries = items_to_chapters(&book.sections);
    assert_eq!(entries.len(), 2);
    assert_eq!(entries[1].section.as_deref(), Some("1"));

    let prev = previous(&entries, &"chapter1.html".to_string()).unwrap();
    assert_eq!(prev.title, "Intro");
    let nxt = next(&entries, &"intro.html".to_string()).unwrap();
    assert_eq!(nxt.title, "Chapter 1");
    assert!(previous(&entries, &"intro.html".to_string()).is_none());
    assert!(next(&entries, &"chapter1.html".to_string()).is_none());
}

#[test]
fn fragment_links_on_the_print_page_point_back_at_the_chapter() {
    assert_eq!(fix_dest("#sec", Some("ch1.md"), &None), "ch1.html#sec");
    assert_eq!(fix_dest("#sec", None, &None), "#sec");
    assert_eq!(
        fix_dest("other.md#sec", Some("dir/ch1.md"), &None),
        "dir/other.html#sec"
    );
    assert_eq!(fix_dest("img.png", Some("dir/ch1.md"), &None), "dir/img.png");
    assert_eq!(fix_dest("https://example.com", None, &None), "https://example.com");
}

#[test]
fn md_destinations_split_around_the_last_occurrence() {
    assert_eq!(
        md_split("a.md#b.md"),
        Some(("a.md#b".to_string(), "".to_string()))
    );
    assert_eq!(
        md_split("example.md#anchor"),
        Some(("example".to_string(), "#anchor".to_string()))
    );
    assert_eq!(md_split("foo.html#phantomdata"), None);
}

fn aliasing_context() -> SymlinkResolveContext {
    let mut to_render = NameTable::new();
    to_render.insert(
        "/src/ch/doc.md".to_string(),
        "/out/ch/doc.html".to_string(),
    );
    to_render.insert(
        "/src/shared/real.md".to_string(),
        "/out/alias/page.html".to_string(),
    );
    let mut canonical = NameTable::new();
    canonical.insert("/src/ch/doc.md".to_string(), "/src/ch/doc.md".to_string());
    // the aliased entry: a symlinked path and its real target share one
    // canonical form
    canonical.insert(
        "/src/alias/page.md".to_string(),
        "/src/shared/real.md".to_string(),
    );
    SymlinkResolveContext {
        to_render_paths: to_render,
        canonical_paths: canonical,
        readme_paths: NameTable::new(),
        src_dir: "/src".to_string(),
        current_md_relative_path: "ch/doc.md".to_string(),
    }
}

#[test]
fn symlink_aliased_links_resolve_through_the_tables() {
    let ctx = Some(aliasing_context());
    // the aliased page resolves relative to the referring page's output
    // directory
    assert_eq!(fix_dest("alias/page.md", None, &ctx), "../alias/page.html");
    // a target outside the rendered tree degrades to the naive rewrite
    assert_eq!(fix_dest("unknown.md", None, &ctx), "unknown.html");
}

#[test]
fn error_messages_carry_the_logical_operation() {
    assert_eq!(
        Error::ChapterNotFound("a.md".to_string()).describe(),
        "Chapter file not found, a.md"
    );
    assert_eq!(
        Error::IoFailure("b.md".to_string()).describe(),
        "Unable to read or write, b.md"
    );
    assert_eq!(
        Error::PathEncodingError("c".to_string()).describe(),
        "Path is not valid utf-8, c"
    );
    assert_eq!(
        Error::AssetNameCollision("d.css".to_string()).describe(),
        "Two assets share the final name, d.css"
    );
    mdbook::errors::log_backtrace(&Error::ChapterNotFound("a.md".to_string()));
}

#[test]
fn active_links_use_forward_slashes() {
    assert_eq!(mdbook::renderer::active_link("dir\\page.md"), "dir/page.html");
    assert_eq!(mdbook::renderer::active_link("page.html"), "page.html");
}

#[test]
fn section_numbers_render_with_dots() {
    assert_eq!(
        mdbook::renderer::section_string(&SectionNumber(vec![1, 2])),
        "1.2"
    );
    assert_eq!(
        mdbook::renderer::section_string(&SectionNumber(vec![10])),
        "10"
    );
}
