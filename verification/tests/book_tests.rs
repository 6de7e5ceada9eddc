use mdbook::book::{
    load_book_from_disk, load_chapter, load_summary_item, Book, BookItem, Chapter, Link,
    SectionNumber, Summary, SummaryItem,
};
use mdbook::store::FileStore;

const DUMMY_SRC: &str = "
# Dummy Chapter

this is some dummy text.

And here is some more text.
";

/// A store holding the dummy chapter file.
fn dummy_store() -> FileStore {
    let mut store = FileStore::new();
    store.insert("chapter_1.md".to_string(), Some(DUMMY_SRC.to_string()));
    store
}

fn dummy_link() -> Link {
    Link::new("Chapter 1", "chapter_1.md")
}

/// A nested link: the dummy chapter with a numbered nested chapter, a
/// separator, and the same nested chapter again.
fn nested_links() -> (Link, FileStore) {
    let mut store = dummy_store();
    store.insert("second.md".to_string(), Some("Hello World!".to_string()));

    let mut root = dummy_link();
    root.push_item(SummaryItem::Link(second_link()));
    root.push_item(SummaryItem::Separator);
    root.push_item(SummaryItem::Link(second_link()));
    (root, store)
}

fn second_link() -> Link {
    let mut second = Link::new("Nested Chapter 1", "second.md");
    second.number = Some(SectionNumber(vec![1, 2]));
    second
}

/// What loading `second.md` must produce.
fn nested_chapter() -> Chapter {
    let mut ch = Chapter::new("Nested Chapter 1", String::from("Hello World!"));
    ch.number = Some(SectionNumber(vec![1, 2]));
    ch.source_path = Some("second.md".to_string());
    ch.dest_path = Some("second.html".to_string());
    ch
}

/// What loading the dummy chapter must produce, before nested items.
fn dummy_chapter() -> Chapter {
    let mut ch = Chapter::new("Chapter 1", DUMMY_SRC.to_string());
    ch.source_path = Some("chapter_1.md".to_string());
    ch.dest_path = Some("chapter_1.html".to_string());
    ch
}

#[test]
fn load_a_single_chapter_from_disk() {
    let link = dummy_link();
    let store = dummy_store();
    let should_be = dummy_chapter();

    let got = load_chapter(&link, "", &store).unwrap();
    assert_eq!(got, should_be);
}

#[test]
fn cant_load_a_nonexistent_chapter() {
    let link = Link::new("Chapter 1", "/foo/bar/baz.md");

    let got = load_chapter(&link, "", &FileStore::new());
    assert!(got.is_err());
}

#[test]
fn load_recursive_link_with_separators() {
    let (root, store) = nested_links();

    let mut inner = dummy_chapter();
    inner.sub_items = vec![
        BookItem::Chapter(nested_chapter()),
        BookItem::Separator,
        BookItem::Chapter(nested_chapter()),
    ];
    let should_be = BookItem::Chapter(inner);

    let got = load_summary_item(&SummaryItem::Link(root), "", &store).unwrap();
    assert_eq!(got, should_be);
}

#[test]
fn load_a_book_with_a_single_chapter() {
    let link = dummy_link();
    let store = dummy_store();
    let summary = Summary {
        numbered_chapters: vec![SummaryItem::Link(link)],
        ..Default::default()
    };
    let should_be = Book {
        sections: vec![BookItem::Chapter(dummy_chapter())],
    };

    let got = load_book_from_disk(&summary, "", &store).unwrap();

    assert_eq!(got, should_be);
}

#[test]
fn book_iter_iterates_over_sequential_items() {
    let book = Book {
        sections: vec![BookItem::Chapter(dummy_chapter()), BookItem::Separator],
    };

    let should_be: Vec<_> = book.sections.iter().collect();

    let mut iter = book.iter();
    let got: Vec<&BookItem> = iter.collect_remaining();

    assert_eq!(got, should_be);
}

#[test]
fn iterate_over_nested_book_items() {
    let mut top = dummy_chapter();
    top.sub_items = vec![
        BookItem::Chapter(Chapter::new("Hello World", String::new())),
        BookItem::Separator,
        BookItem::Chapter(Chapter::new("Goodbye World", String::new())),
    ];
    let book = Book {
        sections: vec![BookItem::Chapter(top), BookItem::Separator],
    };

    let mut iter = book.iter();
    let got: Vec<&BookItem> = iter.collect_remaining();

    assert_eq!(got.len(), 5);

    // checking the chapter names are in the order should be sufficient here...
    let chapter_names: Vec<String> = got
        .into_iter()
        .filter_map(|i| match *i {
            BookItem::Chapter(ref ch) => Some(ch.name.clone()),
            _ => None,
        })
        .collect();
    let should_be: Vec<_> = vec![
        String::from("Chapter 1"),
        String::from("Hello World"),
        String::from("Goodbye World"),
    ];

    assert_eq!(chapter_names, should_be);
}

#[test]
fn unreadable_chapter_is_an_io_failure() {
    let mut store = FileStore::new();
    store.insert("broken.md".to_string(), None);
    let link = Link::new("Broken", "broken.md");

    let got = load_chapter(&link, "", &store);
    match got {
        Err(mdbook::errors::Error::IoFailure(p)) => assert_eq!(p, "broken.md"),
        other => panic!("expected an IoFailure, got {:?}", other),
    }
}

#[test]
fn missing_chapter_reports_the_logical_path() {
    let link = Link::new("Chapter 1", "missing.md");
    let got = load_chapter(&link, "src", &FileStore::new());
    match got {
        Err(mdbook::errors::Error::ChapterNotFound(p)) => {
            assert_eq!(p, "missing.md");
        }
        other => panic!("expected ChapterNotFound, got {:?}", other),
    }
}

#[test]
fn locations_resolve_against_the_source_root() {
    let mut store = FileStore::new();
    store.insert("src/one.md".to_string(), Some("# One".to_string()));
    let link = Link::new("One", "one.md");
    let got = load_chapter(&link, "src", &store).unwrap();
    assert_eq!(got.content, "# One");
    assert_eq!(got.source_path.as_deref(), Some("one.md"));
    assert_eq!(got.dest_path.as_deref(), Some("one.html"));
}

#[test]
fn missing_backing_files_get_stub_plans() {
    let mut root = Link::new("Chapter 1", "chapter_1.md");
    root.push_item(SummaryItem::Link(Link::new("Deep", "deep.md")));
    let summary = Summary {
        numbered_chapters: vec![SummaryItem::Link(root), SummaryItem::Separator],
        ..Default::default()
    };
    let mut store = FileStore::new();
    store.insert("src/chapter_1.md".to_string(), Some("present".to_string()));

    let stubs = mdbook::book::missing_file_stubs(&summary, "src", &store);
    assert_eq!(stubs.len(), 1);
    assert_eq!(stubs[0].0, "src/deep.md");
    assert_eq!(stubs[0].1, "# Deep\n");
}
