use vstd::prelude::*;

verus! {

use vstd::string::StrSliceExecFns;

// ---------------------------------------------------------------------------
// Character classes.  The two Unicode character classes the transforms
// depend on are queried through the standard library and named, since their
// exact extent takes pages to state; ASCII lowercasing is stated exactly.
// ---------------------------------------------------------------------------

/// Whether a character has the Unicode `White_Space` property.
pub uninterp spec fn is_whitespace_char(c: char) -> bool;

/// Whether a character is Unicode alphanumeric.
pub uninterp spec fn is_alphanumeric_char(c: char) -> bool;

/// Relies on `char::is_whitespace`: the `White_Space` property is a function
/// of the character alone.
#[verifier::external_body]
pub fn char_is_whitespace(c: char) -> (r: bool)
    ensures
        r == is_whitespace_char(c),
{
    c.is_whitespace()
}

/// Relies on `char::is_alphanumeric`: the property is a function of the
/// character alone.
#[verifier::external_body]
pub fn char_is_alphanumeric(c: char) -> (r: bool)
    ensures
        r == is_alphanumeric_char(c),
{
    c.is_alphanumeric()
}

/// The ASCII lowercase mapping: `'A'` to `'Z'` move down to `'a'` to `'z'`,
/// every other character stays.
pub open spec fn spec_to_ascii_lower(c: char) -> char {
    if 'A' as u32 <= c as u32 && c as u32 <= 'Z' as u32 {
        ((c as u32) + 32) as char
    } else {
        c
    }
}

/// Relies on `char::to_ascii_lowercase`, whose documentation states exactly
/// this mapping.
#[verifier::external_body]
pub fn char_to_ascii_lowercase(c: char) -> (r: char)
    ensures
        r == spec_to_ascii_lower(c),
{
    c.to_ascii_lowercase()
}

// ---------------------------------------------------------------------------
// Moving between strings and character vectors.
// ---------------------------------------------------------------------------

/// The characters of a string slice, in order.
pub fn str_chars(s: &str) -> (r: Vec<char>)
    ensures
        r@ == s@,
{
    let n = s.unicode_len();
    let mut v: Vec<char> = Vec::new();
    let mut i: usize = 0;
    while i < n
        invariant
            i <= n,
            n == s@.len(),
            v@ =~= s@.subrange(0, i as int),
        decreases n - i,
    {
        v.push(s.get_char(i));
        i = i + 1;
    }
    assert(v@ =~= s@);
    v
}

/// Relies on `String`'s `FromIterator` impl: collecting characters
/// concatenates them in order.
#[verifier::external_body]
pub fn chars_to_string(v: &Vec<char>) -> (r: String)
    ensures
        r@ == v@,
{
    v.iter().collect()
}

// ---------------------------------------------------------------------------
// Whitespace collapsing.
// ---------------------------------------------------------------------------

/// What position `i` contributes to the collapsed text, given whether the
/// character before it was whitespace: a run of two or more whitespace
/// characters becomes one space, a lone whitespace character stays as it
/// is, everything else is copied.
pub open spec fn spec_collapse_from(s: Seq<char>, i: int, prev_ws: bool) -> Seq<char>
    decreases s.len() - i,
{
    if i < 0 || i >= s.len() {
        Seq::empty()
    } else {
        let c = s[i];
        let piece = if !is_whitespace_char(c) {
            seq![c]
        } else if prev_ws {
            Seq::<char>::empty()
        } else if i + 1 < s.len() && is_whitespace_char(s[i + 1]) {
            seq![' ']
        } else {
            seq![c]
        };
        piece + spec_collapse_from(s, i + 1, is_whitespace_char(c))
    }
}

/// The text with every run of two or more consecutive whitespace characters
/// replaced by a single space character.
pub open spec fn spec_collapse_whitespace(s: Seq<char>) -> Seq<char> {
    spec_collapse_from(s, 0, false)
}

/// Replaces multiple consecutive whitespace characters with a single space
/// character.
pub fn collapse_whitespace(text: &str) -> (r: String)
    ensures
        r@ == spec_collapse_whitespace(text@),
{
    let v = str_chars(text);
    let n = v.len();
    let mut out: Vec<char> = Vec::new();
    let mut i: usize = 0;
    let mut prev_ws = false;
    while i < n
        invariant
            i <= n,
            n == v@.len(),
            v@ == text@,
            spec_collapse_whitespace(text@) =~= out@ + spec_collapse_from(text@, i as int, prev_ws),
        decreases n - i,
    {
        let c = v[i];
        let ws = char_is_whitespace(c);
        if !ws {
            out.push(c);
        } else if prev_ws {
            // inside a run that is already collapsed
        } else if i + 1 < n && char_is_whitespace(v[i + 1]) {
            out.push(' ');
        } else {
            out.push(c);
        }
        prev_ws = ws;
        i = i + 1;
    }
    chars_to_string(&out)
}

// ---------------------------------------------------------------------------
// Identifier normalisation.
// ---------------------------------------------------------------------------

/// What one character contributes to a normalised ID: alphanumerics,
/// underscores and hyphens are kept (ASCII-lowercased), whitespace becomes a
/// hyphen, everything else is dropped.
pub open spec fn spec_norm_char(c: char) -> Seq<char> {
    if is_alphanumeric_char(c) || c == '_' || c == '-' {
        seq![spec_to_ascii_lower(c)]
    } else if is_whitespace_char(c) {
        seq!['-']
    } else {
        Seq::empty()
    }
}

/// The normalised form of a whole text.
pub open spec fn spec_normalize_id(s: Seq<char>) -> Seq<char>
    decreases s.len(),
{
    if s.len() == 0 {
        Seq::empty()
    } else {
        spec_norm_char(s[0]) + spec_normalize_id(s.drop_first())
    }
}

/// Convert the given string to a valid HTML element ID.
/// The only restriction is that the ID must not contain any ASCII whitespace.
pub fn normalize_id(content: &str) -> (r: String)
    ensures
        r@ == spec_normalize_id(content@),
{
    let v = str_chars(content);
    let n = v.len();
    let mut out: Vec<char> = Vec::new();
    let mut i: usize = 0;
    assert(content@.skip(0) =~= content@);
    while i < n
        invariant
            i <= n,
            n == v@.len(),
            v@ == content@,
            spec_normalize_id(content@) =~= out@ + spec_normalize_id(content@.skip(i as int)),
        decreases n - i,
    {
        proof {
            assert(content@.skip(i as int)[0] == content@[i as int]);
            assert(content@.skip(i as int).drop_first() =~= content@.skip(i + 1));
        }
        let c = v[i];
        if char_is_alphanumeric(c) || c == '_' || c == '-' {
            out.push(char_to_ascii_lowercase(c));
        } else if char_is_whitespace(c) {
            out.push('-');
        }
        i = i + 1;
    }
    assert(content@.skip(n as int) =~= Seq::<char>::empty());
    chars_to_string(&out)
}

// ---------------------------------------------------------------------------
// Removing fixed substrings, trimming, and anchor IDs.
// ---------------------------------------------------------------------------

/// The text with every occurrence of `pat` removed, scanning left to right
/// over non-overlapping occurrences.
pub open spec fn spec_remove_all(s: Seq<char>, pat: Seq<char>) -> Seq<char>
    decreases s.len(),
{
    if pat.len() == 0 || s.len() < pat.len() {
        s
    } else if s.subrange(0, pat.len() as int) == pat {
        spec_remove_all(s.skip(pat.len() as int), pat)
    } else {
        seq![s[0]] + spec_remove_all(s.drop_first(), pat)
    }
}

/// Whether `pat` occurs in `v` starting at `i`.
fn matches_at(v: &Vec<char>, i: usize, pat: &Vec<char>) -> (r: bool)
    requires
        i + pat@.len() <= v@.len(),
    ensures
        r == (v@.subrange(i as int, i + pat@.len()) == pat@),
{
    let m = pat.len();
    let n = v.len();
    let mut j: usize = 0;
    while j < m
        invariant
            j <= m,
            m == pat@.len(),
            n == v@.len(),
            i + m <= n,
            forall|k: int| 0 <= k < j ==> v@[i + k] == pat@[k],
        decreases m - j,
    {
        if v[i + j] != pat[j] {
            assert(v@.subrange(i as int, i + pat@.len())[j as int] == v@[i + j]);
            return false;
        }
        j = j + 1;
    }
    assert(v@.subrange(i as int, i + pat@.len()) =~= pat@);
    true
}

/// Remove every occurrence of `pat` from `v`.
fn remove_all(v: &Vec<char>, pat: &Vec<char>) -> (r: Vec<char>)
    requires
        pat@.len() > 0,
    ensures
        r@ == spec_remove_all(v@, pat@),
{
    let n = v.len();
    let m = pat.len();
    let mut out: Vec<char> = Vec::new();
    let mut i: usize = 0;
    assert(v@.skip(0) =~= v@);
    while i < n
        invariant
            i <= n,
            n == v@.len(),
            m == pat@.len(),
            m > 0,
            spec_remove_all(v@, pat@) =~= out@ + spec_remove_all(v@.skip(i as int), pat@),
        decreases n - i,
    {
        proof {
            assert(v@.skip(i as int)[0] == v@[i as int]);
            assert(v@.skip(i as int).drop_first() =~= v@.skip(i + 1));
        }
        if m <= n && i <= n - m && matches_at(v, i, pat) {
            proof {
                assert(v@.skip(i as int).subrange(0, m as int) =~= v@.subrange(i as int, i + m));
                assert(v@.skip(i as int).skip(m as int) =~= v@.skip(i + m));
            }
            i = i + m;
        } else {
            proof {
                if i + m <= n {
                    assert(v@.skip(i as int).subrange(0, m as int) =~= v@.subrange(
                        i as int,
                        i + m,
                    ));
                }
            }
            out.push(v[i]);
            i = i + 1;
        }
    }
    assert(v@.skip(n as int) =~= Seq::<char>::empty());
    out
}

/// The text without leading whitespace.
pub open spec fn spec_trim_start(s: Seq<char>) -> Seq<char>
    decreases s.len(),
{
    if s.len() > 0 && is_whitespace_char(s[0]) {
        spec_trim_start(s.drop_first())
    } else {
        s
    }
}

/// The text without trailing whitespace.
pub open spec fn spec_trim_end(s: Seq<char>) -> Seq<char>
    decreases s.len(),
{
    if s.len() > 0 && is_whitespace_char(s[s.len() - 1]) {
        spec_trim_end(s.drop_last())
    } else {
        s
    }
}

/// The text without leading or trailing whitespace.
pub open spec fn spec_trim(s: Seq<char>) -> Seq<char> {
    spec_trim_end(spec_trim_start(s))
}

/// The text without leading `'#'` characters.
pub open spec fn spec_trim_start_hashes(s: Seq<char>) -> Seq<char>
    decreases s.len(),
{
    if s.len() > 0 && s[0] == '#' {
        spec_trim_start_hashes(s.drop_first())
    } else {
        s
    }
}

/// Trim whitespace from both ends of a character vector.
fn trim_chars(v: &Vec<char>) -> (r: Vec<char>)
    ensures
        r@ == spec_trim(v@),
{
    let n = v.len();
    let mut lo: usize = 0;
    assert(v@.skip(0) =~= v@);
    while lo < n && char_is_whitespace(v[lo])
        invariant
            lo <= n,
            n == v@.len(),
            spec_trim_start(v@) == spec_trim_start(v@.skip(lo as int)),
        decreases n - lo,
    {
        proof {
            assert(v@.skip(lo as int)[0] == v@[lo as int]);
            assert(v@.skip(lo as int).drop_first() =~= v@.skip(lo + 1));
        }
        lo = lo + 1;
    }
    proof {
        if lo < n {
            assert(v@.skip(lo as int)[0] == v@[lo as int]);
        }
        assert(spec_trim_start(v@) == v@.skip(lo as int));
    }
    let mut hi: usize = n;
    while hi > lo && char_is_whitespace(v[hi - 1])
        invariant
            lo <= hi <= n,
            n == v@.len(),
            spec_trim_start(v@) == v@.skip(lo as int),
            spec_trim_end(v@.skip(lo as int)) == spec_trim_end(v@.subrange(lo as int, hi as int)),
        decreases hi,
    {
        proof {
            let t = v@.subrange(lo as int, hi as int);
            assert(t[t.len() - 1] == v@[hi - 1]);
            assert(t.drop_last() =~= v@.subrange(lo as int, hi - 1));
        }
        hi = hi - 1;
    }
    proof {
        let t = v@.subrange(lo as int, hi as int);
        if hi > lo {
            assert(t[t.len() - 1] == v@[hi - 1]);
        }
        assert(spec_trim_end(t) == t);
        assert(v@.skip(lo as int) =~= v@.subrange(lo as int, n as int));
    }
    let mut out: Vec<char> = Vec::new();
    let mut i: usize = lo;
    while i < hi
        invariant
            lo <= i <= hi <= n,
            n == v@.len(),
            out@ =~= v@.subrange(lo as int, i as int),
        decreases hi - i,
    {
        out.push(v[i]);
        i = i + 1;
    }
    assert(out@ =~= v@.subrange(lo as int, hi as int));
    out
}

/// Trim leading `'#'` characters from a character vector.
fn trim_start_hashes(v: &Vec<char>) -> (r: Vec<char>)
    ensures
        r@ == spec_trim_start_hashes(v@),
{
    let n = v.len();
    let mut lo: usize = 0;
    assert(v@.skip(0) =~= v@);
    while lo < n && v[lo] == '#'
        invariant
            lo <= n,
            n == v@.len(),
            spec_trim_start_hashes(v@) == spec_trim_start_hashes(v@.skip(lo as int)),
        decreases n - lo,
    {
        proof {
            assert(v@.skip(lo as int)[0] == v@[lo as int]);
            assert(v@.skip(lo as int).drop_first() =~= v@.skip(lo + 1));
        }
        lo = lo + 1;
    }
    proof {
        if lo < n {
            assert(v@.skip(lo as int)[0] == v@[lo as int]);
        }
        assert(spec_trim_start_hashes(v@) == v@.skip(lo as int));
    }
    let mut out: Vec<char> = Vec::new();
    let mut i: usize = lo;
    while i < n
        invariant
            lo <= i <= n,
            n == v@.len(),
            out@ =~= v@.subrange(lo as int, i as int),
        decreases n - i,
    {
        out.push(v[i]);
        i = i + 1;
    }
    assert(out@ =~= v@.skip(lo as int));
    out
}

/// The tag fragments and HTML entities that are stripped before an anchor ID
/// is derived from heading text.
pub open spec fn spec_strip_tags(s: Seq<char>) -> Seq<char> {
    let s = spec_remove_all(s, "<em>"@);
    let s = spec_remove_all(s, "</em>"@);
    let s = spec_remove_all(s, "<code>"@);
    let s = spec_remove_all(s, "</code>"@);
    let s = spec_remove_all(s, "<strong>"@);
    let s = spec_remove_all(s, "</strong>"@);
    let s = spec_remove_all(s, "&lt;"@);
    let s = spec_remove_all(s, "&gt;"@);
    let s = spec_remove_all(s, "&amp;"@);
    let s = spec_remove_all(s, "&#39;"@);
    let s = spec_remove_all(s, "&quot;"@);
    s
}

/// The anchor ID derived from heading content: tags and entities stripped,
/// surrounding whitespace and leading heading hashes removed, then
/// normalised.
pub open spec fn spec_id_from_content(s: Seq<char>) -> Seq<char> {
    spec_normalize_id(spec_trim(spec_trim_start_hashes(spec_trim(spec_strip_tags(s)))))
}

/// Generate an ID for use with anchors which is derived from a "normalised"
/// string.
pub fn id_from_content(content: &str) -> (r: String)
    ensures
        r@ == spec_id_from_content(content@),
{
    proof {
        reveal_strlit("<em>");
        reveal_strlit("</em>");
        reveal_strlit("<code>");
        reveal_strlit("</code>");
        reveal_strlit("<strong>");
        reveal_strlit("</strong>");
        reveal_strlit("&lt;");
        reveal_strlit("&gt;");
        reveal_strlit("&amp;");
        reveal_strlit("&#39;");
        reveal_strlit("&quot;");
    }
    let mut v = str_chars(content);
    v = remove_all(&v, &str_chars("<em>"));
    v = remove_all(&v, &str_chars("</em>"));
    v = remove_all(&v, &str_chars("<code>"));
    v = remove_all(&v, &str_chars("</code>"));
    v = remove_all(&v, &str_chars("<strong>"));
    v = remove_all(&v, &str_chars("</strong>"));
    v = remove_all(&v, &str_chars("&lt;"));
    v = remove_all(&v, &str_chars("&gt;"));
    v = remove_all(&v, &str_chars("&amp;"));
    v = remove_all(&v, &str_chars("&#39;"));
    v = remove_all(&v, &str_chars("&quot;"));
    let v = trim_chars(&v);
    let v = trim_start_hashes(&v);
    let v = trim_chars(&v);
    let s = chars_to_string(&v);
    let r = normalize_id(s.as_str());
    r
}

// ---------------------------------------------------------------------------
// Curly quotes.
// ---------------------------------------------------------------------------

/// The curly form of the text from one position on, given whether the
/// character before it was whitespace: a straight single or double quote
/// becomes the opening form after whitespace (or at the start) and the
/// closing form elsewhere.
pub open spec fn spec_convert_quotes_from(s: Seq<char>, prev_ws: bool) -> Seq<char>
    decreases s.len(),
{
    if s.len() == 0 {
        Seq::empty()
    } else {
        let c = s[0];
        let converted = if c == '\'' {
            if prev_ws {
                '\u{2018}'
            } else {
                '\u{2019}'
            }
        } else if c == '"' {
            if prev_ws {
                '\u{201c}'
            } else {
                '\u{201d}'
            }
        } else {
            c
        };
        seq![converted] + spec_convert_quotes_from(s.drop_first(), is_whitespace_char(c))
    }
}

/// The whole text with straight quotes made curly; the start counts as
/// preceded by whitespace.
pub open spec fn spec_convert_quotes(s: Seq<char>) -> Seq<char> {
    spec_convert_quotes_from(s, true)
}

/// Make straight quotes curly, opening after whitespace and closing
/// elsewhere.
pub fn convert_quotes_to_curly(original_text: &str) -> (r: String)
    ensures
        r@ == spec_convert_quotes(original_text@),
{
    let v = str_chars(original_text);
    let n = v.len();
    let mut out: Vec<char> = Vec::new();
    let mut prev_ws = true;
    let mut i: usize = 0;
    assert(original_text@.skip(0) =~= original_text@);
    while i < n
        invariant
            i <= n,
            n == v@.len(),
            v@ == original_text@,
            spec_convert_quotes(original_text@) =~= out@ + spec_convert_quotes_from(
                original_text@.skip(i as int),
                prev_ws,
            ),
        decreases n - i,
    {
        proof {
            assert(original_text@.skip(i as int)[0] == original_text@[i as int]);
            assert(original_text@.skip(i as int).drop_first() =~= original_text@.skip(i + 1));
        }
        let c = v[i];
        let converted = if c == '\'' {
            if prev_ws {
                '\u{2018}'
            } else {
                '\u{2019}'
            }
        } else if c == '"' {
            if prev_ws {
                '\u{201c}'
            } else {
                '\u{201d}'
            }
        } else {
            c
        };
        out.push(converted);
        prev_ws = char_is_whitespace(c);
        i = i + 1;
    }
    assert(original_text@.skip(n as int) =~= Seq::<char>::empty());
    chars_to_string(&out)
}

} // verus!
