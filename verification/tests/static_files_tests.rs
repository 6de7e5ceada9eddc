use mdbook::static_files::{
    FontAwesomeData, FontsData, HtmlConfig, OutputContent, PlaygroundEditorData, StaticFile,
    StaticFiles, Theme, ThemeExtras,
};
use mdbook::store::{BytesStore, NameTable};

fn empty_theme() -> Theme {
    Theme {
        index: Vec::new(),
        head: Vec::new(),
        redirect: Vec::new(),
        header: Vec::new(),
        chrome_css: Vec::new(),
        general_css: Vec::new(),
        print_css: Vec::new(),
        variables_css: Vec::new(),
        favicon_png: Some(Vec::new()),
        favicon_svg: Some(Vec::new()),
        js: Vec::new(),
        highlight_css: Vec::new(),
        tomorrow_night_css: Vec::new(),
        ayu_highlight_css: Vec::new(),
        highlight_js: Vec::new(),
        clipboard_js: Vec::new(),
    }
}

fn empty_extras() -> ThemeExtras {
    ThemeExtras {
        font_awesome: FontAwesomeData {
            css: Vec::new(),
            eot: Vec::new(),
            svg: Vec::new(),
            ttf: Vec::new(),
            woff: Vec::new(),
            woff2: Vec::new(),
        },
        fonts: FontsData {
            css: Vec::new(),
            licenses: Vec::new(),
            open_sans: Vec::new(),
            source_code_pro: ("fonts/source-code-pro.woff".to_string(), Vec::new()),
        },
        playground_editor: PlaygroundEditorData {
            js: Vec::new(),
            ace_js: Vec::new(),
            mode_rust_js: Vec::new(),
            theme_dawn_js: Vec::new(),
            theme_tomorrow_night_js: Vec::new(),
        },
    }
}

fn find_output<'a>(
    outs: &'a [mdbook::static_files::OutputFile],
    path: &str,
) -> &'a mdbook::static_files::OutputFile {
    for o in outs {
        if o.path == path {
            return o;
        }
    }
    panic!("no output named {}", path);
}

#[test]
fn test_write_directive() {
    let theme = empty_theme();
    let reference_js = "target/static-files-test-case-reference.js";
    let mut html_config = HtmlConfig::default();
    html_config.additional_js.push(reference_js.to_string());

    let mut sources = BytesStore::new();
    sources.insert(
        "./target/static-files-test-case-reference.js".to_string(),
        br#"{{ resource "book.js" }}"#.to_vec(),
    );

    let mut static_files =
        StaticFiles::new(&theme, &html_config, ".", &empty_extras()).unwrap();
    static_files.hash_files(&sources).unwrap();
    let (outputs, helper) = static_files.write_files(&sources).unwrap();

    // custom JS winds up referencing book.js
    let reference_out = find_output(
        &outputs,
        "target/static-files-test-case-reference-635c9cdc.js",
    );
    match &reference_out.content {
        OutputContent::Bytes(data) => assert_eq!(&br#"../book-e3b0c442.js"#[..], &data[..]),
        OutputContent::CopyFrom(_) => panic!("text asset must be written from bytes"),
    }

    // book.js winds up empty
    let book_js = find_output(&outputs, "book-e3b0c442.js");
    match &book_js.content {
        OutputContent::Bytes(data) => assert_eq!(&br#""#[..], &data[..]),
        OutputContent::CopyFrom(_) => panic!("builtin must be written from bytes"),
    }

    // and the name map records the rename
    assert_eq!(
        helper.hash_map.get(&"book.js".to_string()).map(|s| s.as_str()),
        Some("book-e3b0c442.js")
    );
}

#[test]
fn hashing_is_deterministic_and_content_addressed() {
    let same = b"alert('x');".to_vec();
    let same_again = b"alert('x');".to_vec();
    let changed = b"alert('y');".to_vec();
    let mut catalog = StaticFiles {
        static_files: vec![
            StaticFile::Builtin {
                data: same,
                filename: "a.js".to_string(),
            },
            StaticFile::Builtin {
                data: same_again,
                filename: "b.js".to_string(),
            },
            StaticFile::Builtin {
                data: changed,
                filename: "c.js".to_string(),
            },
        ],
        hash_map: NameTable::new(),
    };
    catalog.hash_files(&BytesStore::new()).unwrap();
    let name = |i: usize| match &catalog.static_files[i] {
        StaticFile::Builtin { filename, .. } => filename.clone(),
        StaticFile::Additional { filename, .. } => filename.clone(),
    };
    // names look like `a-12345678.js`: the digest sits between the dash
    // and the extension
    let digest = |n: String| n[2..n.len() - ".js".len()].to_string();
    // identical content under different names: identical digest
    assert_eq!(digest(name(0)), digest(name(1)));
    // one changed byte: a different filename
    assert_ne!(digest(name(0)), digest(name(2)));
}

#[test]
fn colliding_asset_names_are_a_configuration_error() {
    let theme = empty_theme();
    let mut html_config = HtmlConfig::default();
    html_config.additional_css.push("extra.css".to_string());
    html_config.additional_css.push("extra.css".to_string());

    let got = StaticFiles::new(&theme, &html_config, ".", &empty_extras());
    match got {
        Err(mdbook::errors::Error::AssetNameCollision(name)) => assert_eq!(name, "extra.css"),
        other => panic!("expected a collision, got {:?}", other.is_ok()),
    }
}

#[test]
fn hashing_a_missing_additional_source_fails() {
    let theme = empty_theme();
    let mut html_config = HtmlConfig::default();
    html_config.additional_css.push("style.css".to_string());

    let mut static_files =
        StaticFiles::new(&theme, &html_config, "book", &empty_extras()).unwrap();
    let got = static_files.hash_files(&BytesStore::new());
    match got {
        Err(mdbook::errors::Error::IoFailure(loc)) => assert_eq!(loc, "book/style.css"),
        other => panic!("expected an IoFailure, got {:?}", other.is_ok()),
    }
}

#[test]
fn license_files_keep_their_names() {
    let theme = empty_theme();
    let mut extras = empty_extras();
    extras
        .fonts
        .licenses
        .push(("fonts/OPEN-SANS-LICENSE.txt".to_string(), b"license".to_vec()));
    let html_config = HtmlConfig::default();

    let mut static_files = StaticFiles::new(&theme, &html_config, ".", &extras).unwrap();
    static_files.hash_files(&BytesStore::new()).unwrap();
    let mut found = false;
    for f in &static_files.static_files {
        if let StaticFile::Builtin { filename, .. } = f {
            if filename == "fonts/OPEN-SANS-LICENSE.txt" {
                found = true;
            }
            assert!(!filename.starts_with("FontAwesome/fonts/fontawesome-webfont-"));
        }
    }
    assert!(found, "the license file must keep its plain name");
}
