use vstd::prelude::*;

verus! {

use crate::links::{fix_dest, fix_html, opt_sv, spec_fix_dest, spec_fix_html, SymlinkResolveContext};
use crate::utils::{convert_quotes_to_curly, is_whitespace_char, spec_convert_quotes, str_chars};
use pulldown_cmark::{CodeBlockKind, Event, Options, Parser, Tag};

// ---------------------------------------------------------------------------
// The markdown parser's types, carried through opaquely.
// ---------------------------------------------------------------------------

#[verifier::external_type_specification]
#[verifier::external_body]
pub struct ExEvent<'a>(Event<'a>);

#[verifier::external_type_specification]
#[verifier::external_body]
pub struct ExParser<'input, 'callback>(Parser<'input, 'callback>);

/// Relies on `pulldown_cmark::Parser::new_ext` to parse the text with
/// tables, footnotes, strikethrough and tasklists enabled.
#[verifier::external_body]
pub fn new_cmark_parser<'input>(text: &'input str) -> Parser<'input, 'input> {
    let mut opts = Options::empty();
    opts.insert(Options::ENABLE_TABLES);
    opts.insert(Options::ENABLE_FOOTNOTES);
    opts.insert(Options::ENABLE_STRIKETHROUGH);
    opts.insert(Options::ENABLE_TASKLISTS);
    Parser::new_ext(text, opts)
}

/// Relies on `Iterator::collect` to drain the parser's events in order.
#[verifier::external_body]
fn collect_events<'input, 'callback>(p: Parser<'input, 'callback>) -> Vec<Event<'input>> {
    p.collect()
}

/// Relies on `pulldown_cmark::html::push_html` to serialise the events to
/// HTML.
#[verifier::external_body]
fn push_html_events<'a>(events: Vec<Event<'a>>) -> String {
    let mut s = String::new();
    pulldown_cmark::html::push_html(&mut s, events.into_iter());
    s
}

/// What one parser event holds, as plain values: the kinds of events whose
/// payload the rewriting rules read, and `Other` for everything else.
pub enum EventClass {
    /// A code block opens; the fenced info string, or `None` when indented.
    CodeBlockStart(Option<String>),
    /// A code block closes.
    CodeBlockEnd,
    /// A link opens, with its destination.
    LinkStart(String),
    /// An image, with its destination.
    ImageStart(String),
    /// A raw HTML fragment.
    HtmlChunk(String),
    /// A text node.
    Text(String),
    /// Any other event; the rewriting rules leave it alone.
    Other,
}

/// Tells the parser's event variants apart and hands their text payloads
/// over as plain values.
#[verifier::external_body]
fn classify_event(e: &Event<'_>) -> EventClass {
    match e {
        Event::Start(Tag::CodeBlock(CodeBlockKind::Fenced(info))) => EventClass::CodeBlockStart(
            Some(info.to_string()),
        ),
        Event::Start(Tag::CodeBlock(CodeBlockKind::Indented)) => EventClass::CodeBlockStart(None),
        Event::End(Tag::CodeBlock(_)) => EventClass::CodeBlockEnd,
        Event::Start(Tag::Link(_, dest, _)) => EventClass::LinkStart(dest.to_string()),
        Event::Start(Tag::Image(_, dest, _)) => EventClass::ImageStart(dest.to_string()),
        Event::Html(h) => EventClass::HtmlChunk(h.to_string()),
        Event::Text(t) => EventClass::Text(t.to_string()),
        _ => EventClass::Other,
    }
}

/// Puts a computed payload back into the event it came from; an event whose
/// class has no payload, or a `None` payload, passes through unchanged.
#[verifier::external_body]
fn replace_payload<'a>(e: Event<'a>, payload: Option<String>) -> Event<'a> {
    match (e, payload) {
        (Event::Start(Tag::CodeBlock(CodeBlockKind::Fenced(_))), Some(p)) => Event::Start(
            Tag::CodeBlock(CodeBlockKind::Fenced(p.into())),
        ),
        (Event::Start(Tag::Link(t, _, title)), Some(p)) => Event::Start(
            Tag::Link(t, p.into(), title),
        ),
        (Event::Start(Tag::Image(t, _, title)), Some(p)) => Event::Start(
            Tag::Image(t, p.into(), title),
        ),
        (Event::Html(_), Some(p)) => Event::Html(p.into()),
        (Event::Text(_), Some(p)) => Event::Text(p.into()),
        (e, _) => e,
    }
}

// ---------------------------------------------------------------------------
// The verified rewriting rules, one event at a time.
// ---------------------------------------------------------------------------

/// A fenced code block's info string with all whitespace stripped, so that
/// `rust, no_run` and `rust,no_run` name the same classes.
pub open spec fn spec_clean_info(s: Seq<char>) -> Seq<char>
    decreases s.len(),
{
    if s.len() == 0 {
        Seq::empty()
    } else {
        (if is_whitespace_char(s[0]) {
            Seq::<char>::empty()
        } else {
            seq![s[0]]
        }) + spec_clean_info(s.drop_first())
    }
}

/// Strip whitespace out of a fenced code block's info string.
pub fn clean_codeblock_info(info: &str) -> (r: String)
    ensures
        r@ == spec_clean_info(info@),
{
    let v = str_chars(info);
    let n = v.len();
    let mut out: Vec<char> = Vec::new();
    let mut i: usize = 0;
    assert(info@.skip(0) =~= info@);
    while i < n
        invariant
            i <= n,
            n == v@.len(),
            v@ == info@,
            spec_clean_info(info@) =~= out@ + spec_clean_info(info@.skip(i as int)),
        decreases n - i,
    {
        proof {
            assert(info@.skip(i as int)[0] == info@[i as int]);
            assert(info@.skip(i as int).drop_first() =~= info@.skip(i + 1));
        }
        let c = v[i];
        if !crate::utils::char_is_whitespace(c) {
            out.push(c);
        }
        i = i + 1;
    }
    assert(info@.skip(n as int) =~= Seq::<char>::empty());
    crate::utils::chars_to_string(&out)
}

/// Whether text events are converted after this event: a code block opening
/// turns conversion off, its closing turns it back on.
pub open spec fn spec_convert_text_after(c: EventClass, prev: bool) -> bool {
    match c {
        EventClass::CodeBlockStart(_) => false,
        EventClass::CodeBlockEnd => true,
        _ => prev,
    }
}

/// What the quote stage does to an event: only a text event outside code
/// blocks is touched.
pub open spec fn spec_quote_stage(c: EventClass, convert_text: bool) -> Option<Seq<char>> {
    match c {
        EventClass::Text(t) => if convert_text {
            Some(spec_convert_quotes(t@))
        } else {
            None
        },
        _ => None,
    }
}

/// Converts straight quotes in text events to curly ones, leaving text
/// inside code blocks alone.
pub struct EventQuoteConverter {
    pub enabled: bool,
    pub convert_text: bool,
}

impl EventQuoteConverter {
    /// A converter that starts outside any code block.
    pub fn new(enabled: bool) -> (r: EventQuoteConverter)
        ensures
            r.enabled == enabled,
            r.convert_text,
    {
        EventQuoteConverter { enabled, convert_text: true }
    }

    /// Pass one event through the quote stage: text outside code blocks
    /// gets curly quotes, and code block boundaries toggle the state.  A
    /// disabled converter changes nothing.
    pub fn convert(&mut self, c: &EventClass) -> (r: Option<String>)
        ensures
            final (self).enabled == old(self).enabled,
            !old(self).enabled ==> final (self).convert_text == old(self).convert_text && r
                is None,
            old(self).enabled ==> final (self).convert_text == spec_convert_text_after(
                *c,
                old(self).convert_text,
            ),
            old(self).enabled ==> match r {
                Some(s) => spec_quote_stage(*c, old(self).convert_text) == Some(s@),
                None => spec_quote_stage(*c, old(self).convert_text) is None,
            },
    {
        if !self.enabled {
            return None;
        }
        match c {
            EventClass::CodeBlockStart(_) => {
                self.convert_text = false;
                None
            },
            EventClass::CodeBlockEnd => {
                self.convert_text = true;
                None
            },
            EventClass::Text(t) => {
                if self.convert_text {
                    Some(convert_quotes_to_curly(t.as_str()))
                } else {
                    None
                }
            },
            _ => None,
        }
    }
}

/// The replacement payload an event gets, given the converter's state when
/// it arrives: fenced code block headers are cleaned, link and image
/// destinations and raw HTML fragments go through the destination-fixing
/// rules, text outside code blocks gets curly quotes when asked for, and
/// everything else passes through untouched.
pub open spec fn spec_transform_payload(
    c: EventClass,
    enabled: bool,
    convert_text: bool,
    path: Option<Seq<char>>,
    ctx: Option<SymlinkResolveContext>,
) -> Option<Seq<char>> {
    match c {
        EventClass::CodeBlockStart(info) => match info {
            Some(s) => Some(spec_clean_info(s@)),
            None => None,
        },
        EventClass::CodeBlockEnd => None,
        EventClass::LinkStart(d) => Some(spec_fix_dest(d@, path, ctx)),
        EventClass::ImageStart(d) => Some(spec_fix_dest(d@, path, ctx)),
        EventClass::HtmlChunk(h) => Some(spec_fix_html(h@, path, ctx)),
        EventClass::Text(t) => if enabled && convert_text {
            Some(spec_convert_quotes(t@))
        } else {
            None
        },
        EventClass::Other => None,
    }
}

/// Apply the three rewriting stages (code block header cleaning, link
/// fixing, quote conversion) to one classified event.
pub fn transform_event_class(
    c: &EventClass,
    conv: &mut EventQuoteConverter,
    path: Option<&str>,
    ctx: &Option<SymlinkResolveContext>,
) -> (r: Option<String>)
    ensures
        final (conv).enabled == old(conv).enabled,
        final (conv).convert_text == (if old(conv).enabled {
            spec_convert_text_after(*c, old(conv).convert_text)
        } else {
            old(conv).convert_text
        }),
        match r {
            Some(s) => spec_transform_payload(
                *c,
                old(conv).enabled,
                old(conv).convert_text,
                opt_sv(path),
                *ctx,
            ) == Some(s@),
            None => spec_transform_payload(
                *c,
                old(conv).enabled,
                old(conv).convert_text,
                opt_sv(path),
                *ctx,
            ) is None,
        },
{
    match c {
        EventClass::CodeBlockStart(info) => {
            let cleaned = match info {
                Some(s) => Some(clean_codeblock_info(s.as_str())),
                None => None,
            };
            let _ = conv.convert(c);
            cleaned
        },
        EventClass::CodeBlockEnd => {
            let _ = conv.convert(c);
            None
        },
        EventClass::LinkStart(d) => Some(fix_dest(d.as_str(), path, ctx)),
        EventClass::ImageStart(d) => Some(fix_dest(d.as_str(), path, ctx)),
        EventClass::HtmlChunk(h) => Some(fix_html(h.as_str(), path, ctx)),
        EventClass::Text(_) => conv.convert(c),
        EventClass::Other => None,
    }
}

/// Text inside a code block is left exactly as it is: while conversion is
/// off, the transform produces no replacement payload for a text event, so
/// the event passes through unchanged whatever the text holds.
pub proof fn lemma_code_block_text_unchanged(
    t: String,
    enabled: bool,
    path: Option<Seq<char>>,
    ctx: Option<SymlinkResolveContext>,
)
    ensures
        spec_transform_payload(EventClass::Text(t), enabled, false, path, ctx) is None,
        spec_quote_stage(EventClass::Text(t), false) is None,
{
}

// ---------------------------------------------------------------------------
// The renderer.
// ---------------------------------------------------------------------------

/// Render markdown to HTML, rewriting every link, image and raw `href`/
/// `src` destination through the fixing rules.
///
/// `path` is the path to the page being rendered relative to the root of
/// the book.  This is used for the print page so that links on the print
/// page go to the original location.  Normal page rendering sets `path` to
/// `None`.
///
/// The HTML text itself comes from the markdown parser; what this library
/// guarantees is how each event's payload is rewritten on the way through,
/// which is the contract of [`transform_event_class`].
pub fn render_markdown_with_path(
    text: &str,
    curly_quotes: bool,
    path: Option<&str>,
    symlink_resolve_ctx: &Option<SymlinkResolveContext>,
) -> String {
    let parser = new_cmark_parser(text);
    let mut events = collect_events(parser);
    let mut converter = EventQuoteConverter::new(curly_quotes);
    let mut out_events: Vec<Event<'_>> = Vec::new();
    while events.len() > 0
        decreases events@.len(),
    {
        let e = events.remove(0);
        let c = classify_event(&e);
        let payload = transform_event_class(&c, &mut converter, path, symlink_resolve_ctx);
        out_events.push(replace_payload(e, payload));
    }
    push_html_events(out_events)
}

/// Wrapper around the markdown parser for rendering markdown to HTML.
///
/// `symlink_resolve_ctx` is context to resolve markdown symlinks.  If it is
/// `None`, symlinks are not resolved.
pub fn render_markdown(
    text: &str,
    curly_quotes: bool,
    symlink_resolve_ctx: &Option<SymlinkResolveContext>,
) -> String {
    render_markdown_with_path(text, curly_quotes, None, symlink_resolve_ctx)
}

} // verus!
