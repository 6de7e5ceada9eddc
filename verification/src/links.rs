use vstd::prelude::*;

verus! {

use crate::paths::{
    join_path,
    is_absolute_path,
    md_to_html_name,
    seq_ends_with,
    spec_is_absolute,
    spec_join,
    spec_md_to_html,
};
use crate::store::{spec_assoc, NameTable};
use crate::utils::str_chars;
use vstd::string::StrSliceExecFns;
use vstd::string::StringExecFns;

// ---------------------------------------------------------------------------
// Scheme detection (RFC-3986 scheme grammar: a lowercase letter, then
// letters, digits, `+`, `.` or `-`, then a colon).
// ---------------------------------------------------------------------------

/// A lowercase ASCII letter.
pub open spec fn is_lower_alpha(c: char) -> bool {
    'a' as u32 <= c as u32 && c as u32 <= 'z' as u32
}

/// A character allowed after the first one in a URI scheme.
pub open spec fn is_scheme_char(c: char) -> bool {
    is_lower_alpha(c) || ('0' as u32 <= c as u32 && c as u32 <= '9' as u32) || c == '+' || c == '.'
        || c == '-'
}

/// Whether the destination starts with a URI scheme and a colon, and is
/// therefore an external link that must not be touched.
pub open spec fn spec_is_scheme_link(s: Seq<char>) -> bool {
    &&& s.len() > 0
    &&& is_lower_alpha(s[0])
    &&& exists|k: int|
        1 <= k < s.len() && s[k] == ':' && (forall|j: int| 1 <= j < k ==> is_scheme_char(#[trigger] s[j]))
}

/// Decide whether a character is a lowercase ASCII letter.
fn lower_alpha(c: char) -> (r: bool)
    ensures
        r == is_lower_alpha(c),
{
    let u = c as u32;
    97 <= u && u <= 122
}

/// Decide whether a character may continue a URI scheme.
fn scheme_char(c: char) -> (r: bool)
    ensures
        r == is_scheme_char(c),
{
    let u = c as u32;
    (97 <= u && u <= 122) || (48 <= u && u <= 57) || c == '+' || c == '.' || c == '-'
}

/// Decide whether a destination carries a URI scheme.
pub fn is_scheme_link(dest: &str) -> (r: bool)
    ensures
        r == spec_is_scheme_link(dest@),
{
    let v = str_chars(dest);
    let n = v.len();
    if n == 0 {
        return false;
    }
    if !lower_alpha(v[0]) {
        assert(!is_lower_alpha(dest@[0]));
        return false;
    }
    let mut i: usize = 1;
    while i < n && scheme_char(v[i])
        invariant
            1 <= i <= n,
            n == v@.len(),
            v@ == dest@,
            forall|j: int| 1 <= j < i ==> is_scheme_char(#[trigger] dest@[j]),
        decreases n - i,
    {
        i = i + 1;
    }
    if i < n && v[i] == ':' {
        assert(spec_is_scheme_link(dest@)) by {
            assert(dest@[i as int] == ':');
            assert(1 <= i < dest@.len() && dest@[i as int] == ':' && (forall|j: int|
                1 <= j < i ==> is_scheme_char(#[trigger] dest@[j])));
        }
        true
    } else {
        assert(!spec_is_scheme_link(dest@)) by {
            if spec_is_scheme_link(dest@) {
                let k = choose|k: int|
                    1 <= k < dest@.len() && dest@[k] == ':' && (forall|j: int|
                        1 <= j < k ==> is_scheme_char(#[trigger] dest@[j]));
                if k < i {
                    assert(is_scheme_char(dest@[k]));
                    assert(dest@[k] == ':');
                    assert(false);
                } else if k == i {
                    assert(i < n);
                    assert(false);
                } else {
                    // i < k: position i would have to be a scheme character,
                    // but the scan stopped there.
                    assert(i < n);
                    assert(is_scheme_char(dest@[i as int]));
                    assert(false);
                }
            }
        }
        false
    }
}

// ---------------------------------------------------------------------------
// Splitting `<stem>.md<#anchor>` destinations.
// ---------------------------------------------------------------------------

/// Whether `.md` occurs in `s` at position `e`.
pub open spec fn has_md_at(s: Seq<char>, e: int) -> bool {
    0 <= e && e + 3 <= s.len() && s.subrange(e, e + 3) == ".md"@
}

/// The largest position not above `from` where `.md` occurs.
pub open spec fn spec_last_md(s: Seq<char>, from: int) -> Option<int>
    decreases from + 1,
{
    if from < 0 {
        None
    } else if has_md_at(s, from) {
        Some(from)
    } else {
        spec_last_md(s, from - 1)
    }
}

/// How a destination splits around its last `.md`: the stem before it and
/// the anchor after it (empty when there is none; an anchor always starts
/// with `#`).  `None` when the destination holds no `.md` at all.
pub open spec fn spec_md_split(s: Seq<char>) -> Option<(Seq<char>, Seq<char>)> {
    match spec_last_md(s, s.len() - 3) {
        None => None,
        Some(e) => {
            let anchor = if e + 3 < s.len() && s[e + 3] == '#' {
                s.skip(e + 3)
            } else {
                Seq::<char>::empty()
            };
            Some((s.take(e), anchor))
        },
    }
}

/// Find the last `.md` in the destination and split around it.
pub fn md_split(dest: &str) -> (r: Option<(String, String)>)
    ensures
        match r {
            Some((stem, anchor)) => spec_md_split(dest@) == Some((stem@, anchor@)),
            None => spec_md_split(dest@) is None,
        },
{
    proof {
        reveal_strlit(".md");
    }
    let v = str_chars(dest);
    let n = v.len();
    if n < 3 {
        proof {
            lemma_last_md_none(dest@, n as int - 3);
        }
        return None;
    }
    let mut i: usize = n - 2;
    // `i - 1` walks down from `n - 3` to `-1`; the loop variable stays one
    // above the probed position so that it can stay a `usize`.
    while i > 0
        invariant
            0 <= i <= n - 2,
            n == v@.len(),
            n >= 3,
            v@ == dest@,
            spec_last_md(dest@, n - 3) == spec_last_md(dest@, i - 1),
        decreases i,
    {
        let e = i - 1;
        proof {
            reveal_strlit(".md");
        }
        if v[e] == '.' && v[e + 1] == 'm' && v[e + 2] == 'd' {
            assert(has_md_at(dest@, e as int)) by {
                reveal_strlit(".md");
                assert(dest@.subrange(e as int, e + 3) =~= ".md"@);
            }
            let stem = dest.substring_char(0, e).to_owned();
            let anchor = if e + 3 < n && v[e + 3] == '#' {
                dest.substring_char(e + 3, n).to_owned()
            } else {
                String::new()
            };
            proof {
                assert(dest@.take(e as int) == dest@.subrange(0, e as int));
                if e + 3 < n && dest@[e + 3] == '#' {
                    assert(dest@.skip(e + 3) =~= dest@.subrange(e + 3, n as int));
                }
            }
            return Some((stem, anchor));
        }
        proof {
            assert(!has_md_at(dest@, e as int)) by {
                reveal_strlit(".md");
                if has_md_at(dest@, e as int) {
                    assert(dest@.subrange(e as int, e + 3)[0] == dest@[e as int]);
                    assert(dest@.subrange(e as int, e + 3)[1] == dest@[e + 1]);
                    assert(dest@.subrange(e as int, e + 3)[2] == dest@[e + 2]);
                }
            }
        }
        i = i - 1;
    }
    proof {
        lemma_last_md_none(dest@, -1);
    }
    None
}

/// Below position zero there is no `.md` occurrence.
proof fn lemma_last_md_none(s: Seq<char>, from: int)
    requires
        from < 0,
    ensures
        spec_last_md(s, from) is None,
{
}

// ---------------------------------------------------------------------------
// Directory prefixes.
// ---------------------------------------------------------------------------

/// The largest position not above `from` holding `'/'`.
pub open spec fn spec_last_slash(s: Seq<char>, from: int) -> Option<int>
    decreases from + 1,
{
    if from < 0 {
        None
    } else if s[from] == '/' {
        Some(from)
    } else {
        spec_last_slash(s, from - 1)
    }
}

/// The directory part of a path: everything before the last separator, the
/// root for a path directly under it, and empty for a bare file name.
pub open spec fn spec_parent(p: Seq<char>) -> Seq<char> {
    match spec_last_slash(p, p.len() - 1) {
        None => Seq::<char>::empty(),
        Some(k) => if k == 0 {
            seq!['/']
        } else {
            p.take(k)
        },
    }
}

/// What a page's own directory contributes in front of a rewritten
/// destination: its parent directory and a separator, or nothing when the
/// page sits at the root.
pub open spec fn spec_dir_prefix(p: Seq<char>) -> Seq<char> {
    if spec_parent(p).len() == 0 {
        Seq::<char>::empty()
    } else {
        spec_parent(p) + seq!['/']
    }
}

/// The directory part of a path.
pub fn parent_dir(p: &str) -> (r: String)
    ensures
        r@ == spec_parent(p@),
{
    let v = str_chars(p);
    let n = v.len();
    let mut i: usize = n;
    while i > 0
        invariant
            0 <= i <= n,
            n == v@.len(),
            v@ == p@,
            spec_last_slash(p@, n - 1) == spec_last_slash(p@, i - 1),
        decreases i,
    {
        let k = i - 1;
        if v[k] == '/' {
            if k == 0 {
                let mut s = String::new();
                s.append("/");
                proof {
                    reveal_strlit("/");
                    assert(s@ =~= seq!['/']);
                }
                return s;
            }
            let stem = p.substring_char(0, k);
            assert(stem@ == p@.take(k as int));
            return stem.to_owned();
        }
        i = i - 1;
    }
    let r = String::new();
    assert(r@ =~= Seq::<char>::empty());
    r
}

// ---------------------------------------------------------------------------
// The symlink-aware resolution context and the destination fixer.
// ---------------------------------------------------------------------------

/// Context for resolving markdown symlinks.
///
/// The three tables are precomputed by the caller from the tree being
/// rendered, so that resolution is a pure function of them: which canonical
/// source file each rendered page comes from, what every source path's
/// canonical (symlink-free) form is, and which directories hide their
/// readme behind the generated `index.md` name.
pub struct SymlinkResolveContext {
    /// Canonicalized absolute path of a source markdown file, to the
    /// absolute path of its destination html file.
    pub to_render_paths: NameTable,
    /// Absolute source path to its canonical form; a path that is absent
    /// cannot be canonicalized.
    pub canonical_paths: NameTable,
    /// Directory to the readme file inside it that `index.md` stands for.
    pub readme_paths: NameTable,
    /// Path to the markdown source dir.
    pub src_dir: String,
    /// Current markdown relative path specified in the summary.
    pub current_md_relative_path: String,
}

/// Whether a path's final component is `index.md`.
pub open spec fn spec_is_index_md(p: Seq<char>) -> bool {
    p == "index.md"@ || seq_ends_with(p, "/index.md"@)
}

/// Decide whether a path's final component is `index.md`.
pub fn is_index_md(p: &str) -> (r: bool)
    ensures
        r == spec_is_index_md(p@),
{
    proof {
        reveal_strlit("index.md");
        reveal_strlit("/index.md");
    }
    let v = str_chars(p);
    let n = v.len();
    if n == 8 {
        let w = str_chars("index.md");
        assert(w@.len() == 8 && v@.len() == 8);
        let mut eq = true;
        let mut j: usize = 0;
        while j < 8
            invariant
                0 <= j <= 8,
                n == 8,
                v@ == p@,
                v@.len() == 8,
                w@ == "index.md"@,
                w@.len() == 8,
                eq == (forall|k: int| 0 <= k < j ==> v@[k] == w@[k]),
            decreases 8 - j,
        {
            if v[j] != w[j] {
                eq = false;
                assert(!(forall|k: int| 0 <= k < j + 1 ==> v@[k] == w@[k])) by {
                    assert(v@[j as int] != w@[j as int]);
                }
                j = 8;
            } else {
                j = j + 1;
            }
        }
        proof {
            if eq {
                assert(p@ =~= "index.md"@);
            } else {
                assert(p@ != "index.md"@);
                assert(!seq_ends_with(p@, "/index.md"@));
            }
        }
        eq
    } else if n >= 9 {
        let w = str_chars("/index.md");
        assert(w@.len() == 9);
        let base = n - 9;
        let mut eq = true;
        let mut j: usize = 0;
        while j < 9
            invariant
                0 <= j <= 9,
                n >= 9,
                base == n - 9,
                n == v@.len(),
                v@ == p@,
                w@ == "/index.md"@,
                w@.len() == 9,
                eq == (forall|k: int| 0 <= k < j ==> v@[base + k] == w@[k]),
            decreases 9 - j,
        {
            if v[base + j] != w[j] {
                eq = false;
                assert(!(forall|k: int| 0 <= k < j + 1 ==> v@[base + k] == w@[k])) by {
                    assert(v@[base + j as int] != w@[j as int]);
                }
                j = 9;
            } else {
                j = j + 1;
            }
        }
        proof {
            if eq {
                assert(p@.skip(n - 9) =~= "/index.md"@);
                assert(seq_ends_with(p@, "/index.md"@));
            } else {
                if seq_ends_with(p@, "/index.md"@) {
                    assert forall|k: int| 0 <= k < 9 implies v@[base + k] == w@[k] by {
                        assert(p@.skip(n - 9)[k] == p@[n - 9 + k]);
                    }
                }
                assert(p@.len() != "index.md"@.len());
            }
        }
        eq
    } else {
        proof {
            assert(p@.len() != "index.md"@.len());
            assert(!seq_ends_with(p@, "/index.md"@));
        }
        false
    }
}

/// A relative source path with the readme rename undone: when the path names
/// `index.md` and its directory is known to hide a readme, the readme's real
/// path takes its place.
pub open spec fn spec_readme_adjust(ctx: SymlinkResolveContext, p: Seq<char>) -> Seq<char> {
    if spec_is_index_md(p) {
        match spec_assoc(ctx.readme_paths.entries@, spec_parent(p)) {
            Some(readme) => readme@,
            None => p,
        }
    } else {
        p
    }
}

/// Undo the readme rename on a path.
fn readme_adjust(ctx: &SymlinkResolveContext, p: String) -> (r: String)
    ensures
        r@ == spec_readme_adjust(*ctx, p@),
{
    if is_index_md(p.as_str()) {
        let parent = parent_dir(p.as_str());
        match ctx.readme_paths.get(&parent) {
            Some(readme) => readme.clone(),
            None => p,
        }
    } else {
        p
    }
}

/// Where a symlink-aware resolution of `<stem>.md` lands, relative to the
/// current page's output directory: both the target and the current source
/// path are brought to canonical form through the context's tables, both
/// must be pages of the tree being rendered, and the target's output path
/// is then taken relative to the current page's output directory.  `None`
/// when any step has no answer; the caller then falls back to the naive
/// rewrite.
pub open spec fn spec_symlink_resolve(ctx: SymlinkResolveContext, stem: Seq<char>) -> Option<
    Seq<char>,
> {
    let target_rel = spec_readme_adjust(ctx, stem + ".md"@);
    let target_abs = if spec_is_absolute(target_rel) {
        target_rel
    } else {
        spec_join(ctx.src_dir@, target_rel)
    };
    let current_rel = spec_readme_adjust(ctx, ctx.current_md_relative_path@);
    let current_abs = if spec_is_absolute(current_rel) {
        current_rel
    } else {
        spec_join(ctx.src_dir@, current_rel)
    };
    match spec_assoc(ctx.canonical_paths.entries@, target_abs) {
        None => None,
        Some(target_canon) => match spec_assoc(ctx.canonical_paths.entries@, current_abs) {
            None => None,
            Some(current_canon) => match spec_assoc(ctx.to_render_paths.entries@, target_canon@) {
                None => None,
                Some(target_html) => match spec_assoc(
                    ctx.to_render_paths.entries@,
                    current_canon@,
                ) {
                    None => None,
                    Some(current_html) => diff_paths_of(
                        target_html@,
                        spec_parent(current_html@),
                    ),
                },
            },
        },
    }
}

/// Whether the resolution got far enough to know that the target is not a
/// page of the tree: both paths have canonical forms, but the target's is
/// not among the rendered pages.  This is the one non-fatal case that is
/// reported as a warning.
pub open spec fn spec_symlink_unresolved(ctx: SymlinkResolveContext, stem: Seq<char>) -> bool {
    let target_rel = spec_readme_adjust(ctx, stem + ".md"@);
    let target_abs = if spec_is_absolute(target_rel) {
        target_rel
    } else {
        spec_join(ctx.src_dir@, target_rel)
    };
    let current_rel = spec_readme_adjust(ctx, ctx.current_md_relative_path@);
    let current_abs = if spec_is_absolute(current_rel) {
        current_rel
    } else {
        spec_join(ctx.src_dir@, current_rel)
    };
    match spec_assoc(ctx.canonical_paths.entries@, target_abs) {
        None => false,
        Some(target_canon) => match spec_assoc(ctx.canonical_paths.entries@, current_abs) {
            None => false,
            Some(_) => spec_assoc(ctx.to_render_paths.entries@, target_canon@) is None,
        },
    }
}

/// The relative path from a base directory to a target path, as the
/// `pathdiff` crate computes it, rendered back to text.  The result is a
/// function of the two paths alone.
pub uninterp spec fn diff_paths_of(path: Seq<char>, base: Seq<char>) -> Option<Seq<char>>;

/// Relies on `pathdiff::diff_paths` to construct the relative path from
/// `base` to `path`.
#[verifier::external_body]
fn diff_paths(path: &str, base: &str) -> (r: Option<String>)
    ensures
        match r {
            Some(s) => diff_paths_of(path@, base@) == Some(s@),
            None => diff_paths_of(path@, base@) is None,
        },
{
    match pathdiff::diff_paths(path, base) {
        Some(p) => match p.to_str() {
            Some(s) => Some(s.to_string()),
            None => None,
        },
        None => None,
    }
}

/// Resolve `<stem>.md` through the symlink tables.
fn symlink_resolve(ctx: &SymlinkResolveContext, stem: &str) -> (r: Option<String>)
    ensures
        match r {
            Some(s) => spec_symlink_resolve(*ctx, stem@) == Some(s@),
            None => spec_symlink_resolve(*ctx, stem@) is None,
        },
{
    let mut target_rel = stem.to_owned();
    target_rel.append(".md");
    let target_rel = readme_adjust(ctx, target_rel);
    let target_abs = if is_absolute_path(target_rel.as_str()) {
        target_rel
    } else {
        join_path(ctx.src_dir.as_str(), target_rel.as_str())
    };
    let current_rel = readme_adjust(ctx, ctx.current_md_relative_path.clone());
    let current_abs = if is_absolute_path(current_rel.as_str()) {
        current_rel
    } else {
        join_path(ctx.src_dir.as_str(), current_rel.as_str())
    };
    let target_canon = match ctx.canonical_paths.get(&target_abs) {
        Some(c) => c,
        None => {
            return None;
        },
    };
    let current_canon = match ctx.canonical_paths.get(&current_abs) {
        Some(c) => c,
        None => {
            return None;
        },
    };
    let target_html = match ctx.to_render_paths.get(target_canon) {
        Some(h) => h,
        None => {
            return None;
        },
    };
    let current_html = match ctx.to_render_paths.get(current_canon) {
        Some(h) => h,
        None => {
            return None;
        },
    };
    let base = parent_dir(current_html.as_str());
    diff_paths(target_html.as_str(), base.as_str())
}

/// Where one destination string ends up after the fixing rules of the
/// renderer:
///
/// 1. A fragment-only destination is kept, unless a page path is supplied
///    (the print page), in which case it is re-anchored onto that page's
///    `.html` name.
/// 2. A destination with a URI scheme is external and kept as it is.
/// 3. Everything else is relative.  It is put behind the supplied page's
///    directory, if any; a `<stem>.md<#anchor>` destination resolves
///    through the symlink tables when they are given and answer, and falls
///    back to `<stem>.html<#anchor>` otherwise; any other relative
///    destination is kept (behind the directory prefix).
pub open spec fn spec_fix_dest(
    dest: Seq<char>,
    path: Option<Seq<char>>,
    ctx: Option<SymlinkResolveContext>,
) -> Seq<char> {
    if dest.len() > 0 && dest[0] == '#' {
        match path {
            Some(p) => spec_md_to_html(p) + dest,
            None => dest,
        }
    } else if spec_is_scheme_link(dest) {
        dest
    } else {
        let prefix = match path {
            Some(p) => spec_dir_prefix(p),
            None => Seq::<char>::empty(),
        };
        match spec_md_split(dest) {
            Some(split) => {
                let resolved = match ctx {
                    Some(c) => spec_symlink_resolve(c, split.0),
                    None => None,
                };
                match resolved {
                    Some(rel) => prefix + rel + split.1,
                    None => prefix + split.0 + ".html"@ + split.1,
                }
            },
            None => prefix + dest,
        }
    }
}

/// The view of an optional string slice.
pub open spec fn opt_sv(p: Option<&str>) -> Option<Seq<char>> {
    match p {
        Some(s) => Some(s@),
        None => None,
    }
}

/// Fix one link or image destination to the correct location.
///
/// `path` is the path of the page being rendered relative to the book root,
/// supplied only for the print page so that its links point back at the
/// per-chapter pages.  `ctx` carries the symlink tables, or `None` when
/// symlinks are not resolved.  An unresolvable `.md` destination degrades to
/// the naive `.html` rewrite and is reported on the diagnostic channel, not
/// an error.
pub fn fix_dest(dest: &str, path: Option<&str>, ctx: &Option<SymlinkResolveContext>) -> (r: String)
    ensures
        r@ == spec_fix_dest(dest@, opt_sv(path), *ctx),
{
    let v = str_chars(dest);
    let n = v.len();
    if n > 0 && v[0] == '#' {
        match path {
            Some(p) => {
                let mut base = md_to_html_name(p);
                base.append(dest);
                return base;
            },
            None => {
                return dest.to_owned();
            },
        }
    }
    if is_scheme_link(dest) {
        return dest.to_owned();
    }
    let mut fixed = String::new();
    match path {
        Some(p) => {
            let parent = parent_dir(p);
            if parent.as_str().unicode_len() > 0 {
                fixed.append(parent.as_str());
                fixed.append("/");
                proof {
                    reveal_strlit("/");
                    assert(fixed@ =~= spec_dir_prefix(p@));
                }
            } else {
                assert(fixed@ =~= spec_dir_prefix(p@));
            }
        },
        None => {},
    }
    match md_split(dest) {
        Some((stem, anchor)) => {
            let mut resolved: Option<String> = None;
            match ctx {
                Some(c) => {
                    resolved = symlink_resolve(c, stem.as_str());
                    if resolved.is_none() && symlink_unresolved_check(c, stem.as_str()) {
                        let mut line = String::from_str("Links to markdown file ");
                        line.append(stem.as_str());
                        line.append(".md, which is not translated.");
                        crate::errors::log_line(line.as_str());
                    }
                },
                None => {},
            }
            match resolved {
                Some(rel) => {
                    fixed.append(rel.as_str());
                    fixed.append(anchor.as_str());
                    fixed
                },
                None => {
                    fixed.append(stem.as_str());
                    fixed.append(".html");
                    fixed.append(anchor.as_str());
                    fixed
                },
            }
        },
        None => {
            fixed.append(dest);
            fixed
        },
    }
}

/// Decide whether the unresolved-target warning applies.
fn symlink_unresolved_check(ctx: &SymlinkResolveContext, stem: &str) -> (r: bool)
    ensures
        r == spec_symlink_unresolved(*ctx, stem@),
{
    let mut target_rel = stem.to_owned();
    target_rel.append(".md");
    let target_rel = readme_adjust(ctx, target_rel);
    let target_abs = if is_absolute_path(target_rel.as_str()) {
        target_rel
    } else {
        join_path(ctx.src_dir.as_str(), target_rel.as_str())
    };
    let current_rel = readme_adjust(ctx, ctx.current_md_relative_path.clone());
    let current_abs = if is_absolute_path(current_rel.as_str()) {
        current_rel
    } else {
        join_path(ctx.src_dir.as_str(), current_rel.as_str())
    };
    let target_canon = match ctx.canonical_paths.get(&target_abs) {
        Some(c) => c,
        None => {
            return false;
        },
    };
    match ctx.canonical_paths.get(&current_abs) {
        Some(_) => ctx.to_render_paths.get(target_canon).is_none(),
        None => false,
    }
}

// ---------------------------------------------------------------------------
// Rewriting destinations inside raw HTML fragments.
//
// The fragments the markdown parser hands over are narrow in shape, so this
// scanner recognises `<a ` and `<img ` tags and rewrites the first
// `src="..."` or `href="..."` attribute value in each.  It is deliberately
// a small, isolated approximation of an HTML parser, so a full fragment
// parser could replace it without touching the call sites.
// ---------------------------------------------------------------------------

/// Whether `lit` occurs in `s` at position `i`.
pub open spec fn starts_at(s: Seq<char>, i: int, lit: Seq<char>) -> bool {
    0 <= i && i + lit.len() <= s.len() && s.subrange(i, i + lit.len()) == lit
}

/// The position right after the opening quote of the first `src="` or
/// `href="` at or after `i`, provided no `>` comes first.
pub open spec fn spec_attr_from(s: Seq<char>, i: int) -> Option<int>
    decreases s.len() - i,
{
    if i < 0 || i >= s.len() {
        None
    } else if s[i] == '>' {
        None
    } else if starts_at(s, i, "src=\""@) {
        Some(i + 5)
    } else if starts_at(s, i, "href=\""@) {
        Some(i + 6)
    } else {
        spec_attr_from(s, i + 1)
    }
}

/// The position of the first `"` at or after `i`.
pub open spec fn spec_quote_from(s: Seq<char>, i: int) -> Option<int>
    decreases s.len() - i,
{
    if i < 0 || i >= s.len() {
        None
    } else if s[i] == '"' {
        Some(i)
    } else {
        spec_quote_from(s, i + 1)
    }
}

/// The attribute value of a rewritable tag beginning at `i`: the range of a
/// non-empty destination inside the tag's first `src` or `href` attribute.
pub open spec fn spec_html_match_at(s: Seq<char>, i: int) -> Option<(int, int)> {
    let head = if starts_at(s, i, "<a "@) {
        Some(i + 3)
    } else if starts_at(s, i, "<img "@) {
        Some(i + 5)
    } else {
        None
    };
    match head {
        None => None,
        Some(h) => match spec_attr_from(s, h) {
            None => None,
            Some(ds) => match spec_quote_from(s, ds) {
                None => None,
                Some(de) => if de > ds {
                    Some((ds, de))
                } else {
                    None
                },
            },
        },
    }
}

/// A found attribute start lies between the scan start and the end.
proof fn lemma_attr_from_bounds(s: Seq<char>, i: int)
    ensures
        match spec_attr_from(s, i) {
            Some(ds) => i < ds <= s.len(),
            None => true,
        },
    decreases s.len() - i,
{
    if i < 0 || i >= s.len() {
    } else if s[i] == '>' {
    } else if starts_at(s, i, "src=\""@) {
        reveal_strlit("src=\"");
    } else if starts_at(s, i, "href=\""@) {
        reveal_strlit("href=\"");
    } else {
        lemma_attr_from_bounds(s, i + 1);
    }
}

/// A found quote lies between the scan start and the end.
proof fn lemma_quote_from_bounds(s: Seq<char>, i: int)
    ensures
        match spec_quote_from(s, i) {
            Some(de) => i <= de < s.len(),
            None => true,
        },
    decreases s.len() - i,
{
    if i < 0 || i >= s.len() {
    } else if s[i] == '"' {
    } else {
        lemma_quote_from_bounds(s, i + 1);
    }
}

/// A successful match lies strictly inside the fragment.
proof fn lemma_html_match_bounds(s: Seq<char>, i: int)
    ensures
        match spec_html_match_at(s, i) {
            Some(m) => i < m.0 && m.0 < m.1 && m.1 < s.len(),
            None => true,
        },
{
    if starts_at(s, i, "<a "@) || starts_at(s, i, "<img "@) {
        reveal_strlit("<a ");
        reveal_strlit("<img ");
        let h = if starts_at(s, i, "<a "@) {
            i + 3
        } else {
            i + 5
        };
        lemma_attr_from_bounds(s, h);
        match spec_attr_from(s, h) {
            Some(ds) => {
                lemma_quote_from_bounds(s, ds);
            },
            None => {},
        }
    }
}

/// The fragment from position `i` on, with every recognised destination
/// rewritten by the destination-fixing rules.
pub open spec fn spec_fix_html_from(
    s: Seq<char>,
    i: int,
    path: Option<Seq<char>>,
    ctx: Option<SymlinkResolveContext>,
) -> Seq<char>
    decreases s.len() - i,
{
    if i < 0 || i >= s.len() {
        Seq::empty()
    } else {
        match spec_html_match_at(s, i) {
            Some(m) => if i < m.0 && m.0 < m.1 && m.1 < s.len() {
                s.subrange(i, m.0) + spec_fix_dest(s.subrange(m.0, m.1), path, ctx) + seq!['"']
                    + spec_fix_html_from(s, m.1 + 1, path, ctx)
            } else {
                seq![s[i]] + spec_fix_html_from(s, i + 1, path, ctx)
            },
            None => seq![s[i]] + spec_fix_html_from(s, i + 1, path, ctx),
        }
    }
}

/// The whole fragment, rewritten.
pub open spec fn spec_fix_html(
    s: Seq<char>,
    path: Option<Seq<char>>,
    ctx: Option<SymlinkResolveContext>,
) -> Seq<char> {
    spec_fix_html_from(s, 0, path, ctx)
}

/// Whether `lit` occurs in `v` at `i`, decided character by character.
fn exec_starts_at(v: &Vec<char>, i: usize, lit: &Vec<char>) -> (r: bool)
    ensures
        r == starts_at(v@, i as int, lit@),
{
    let n = v.len();
    let m = lit.len();
    if m > n || i > n - m {
        proof {
            assert(!(i + lit@.len() <= v@.len()));
        }
        return false;
    }
    let mut j: usize = 0;
    while j < m
        invariant
            0 <= j <= m,
            n == v@.len(),
            m == lit@.len(),
            i + m <= n,
            forall|k: int| 0 <= k < j ==> v@[i + k] == lit@[k],
        decreases m - j,
    {
        if v[i + j] != lit[j] {
            assert(v@.subrange(i as int, i + lit@.len())[j as int] == v@[i + j]);
            return false;
        }
        j = j + 1;
    }
    assert(v@.subrange(i as int, i + lit@.len()) =~= lit@);
    true
}

/// Find the first rewritable attribute value at or after `h`, staying
/// inside the current tag.
fn find_attr(v: &Vec<char>, h: usize, src_lit: &Vec<char>, href_lit: &Vec<char>) -> (r: Option<
    usize,
>)
    requires
        src_lit@ == "src=\""@,
        href_lit@ == "href=\""@,
    ensures
        match r {
            Some(ds) => spec_attr_from(v@, h as int) == Some(ds as int),
            None => spec_attr_from(v@, h as int) is None,
        },
{
    let n = v.len();
    let mut i: usize = h;
    while i < n
        invariant
            h <= i,
            n == v@.len(),
            src_lit@ == "src=\""@,
            href_lit@ == "href=\""@,
            spec_attr_from(v@, h as int) == spec_attr_from(v@, i as int),
        decreases n - i,
    {
        if v[i] == '>' {
            return None;
        }
        if exec_starts_at(v, i, src_lit) {
            proof { reveal_strlit("src=\""); }
            return Some(i + 5);
        }
        if exec_starts_at(v, i, href_lit) {
            proof { reveal_strlit("href=\""); }
            return Some(i + 6);
        }
        i = i + 1;
    }
    None
}

/// Find the first `"` at or after `from`.
fn find_quote(v: &Vec<char>, from: usize) -> (r: Option<usize>)
    ensures
        match r {
            Some(q) => spec_quote_from(v@, from as int) == Some(q as int),
            None => spec_quote_from(v@, from as int) is None,
        },
{
    let n = v.len();
    let mut i: usize = from;
    while i < n
        invariant
            from <= i,
            n == v@.len(),
            spec_quote_from(v@, from as int) == spec_quote_from(v@, i as int),
        decreases n - i,
    {
        if v[i] == '"' {
            return Some(i);
        }
        i = i + 1;
    }
    None
}

/// Copy `v[from..to]` into a fresh vector.
fn subvec(v: &Vec<char>, from: usize, to: usize) -> (r: Vec<char>)
    requires
        from <= to <= v@.len(),
    ensures
        r@ == v@.subrange(from as int, to as int),
{
    let mut out: Vec<char> = Vec::new();
    let mut i: usize = from;
    while i < to
        invariant
            from <= i <= to <= v@.len(),
            out@ =~= v@.subrange(from as int, i as int),
        decreases to - i,
    {
        out.push(v[i]);
        i = i + 1;
    }
    assert(out@ =~= v@.subrange(from as int, to as int));
    out
}

/// Append every character of `v` to `out`.
fn push_all(out: &mut Vec<char>, v: &Vec<char>)
    ensures
        final (out)@ == old(out)@ + v@,
{
    let n = v.len();
    let ghost base = out@;
    let mut k: usize = 0;
    while k < n
        invariant
            0 <= k <= n,
            n == v@.len(),
            out@ =~= base + v@.subrange(0, k as int),
        decreases n - k,
    {
        out.push(v[k]);
        k = k + 1;
    }
    assert(out@ =~= base + v@);
}

/// Fix every recognised `href`/`src` destination inside a raw HTML
/// fragment.
pub fn fix_html(html: &str, path: Option<&str>, ctx: &Option<SymlinkResolveContext>) -> (r:
    String)
    ensures
        r@ == spec_fix_html(html@, opt_sv(path), *ctx),
{
    let v = str_chars(html);
    let n = v.len();
    let a_lit = str_chars("<a ");
    let img_lit = str_chars("<img ");
    let src_lit = str_chars("src=\"");
    let href_lit = str_chars("href=\"");
    let mut out: Vec<char> = Vec::new();
    let mut i: usize = 0;
    assert(out@ + spec_fix_html_from(html@, 0, opt_sv(path), *ctx) =~= spec_fix_html(
        html@,
        opt_sv(path),
        *ctx,
    ));
    while i < n
        invariant
            0 <= i <= n,
            n == v@.len(),
            v@ == html@,
            a_lit@ == "<a "@,
            img_lit@ == "<img "@,
            src_lit@ == "src=\""@,
            href_lit@ == "href=\""@,
            spec_fix_html(html@, opt_sv(path), *ctx) =~= out@ + spec_fix_html_from(
                html@,
                i as int,
                opt_sv(path),
                *ctx,
            ),
        decreases n - i,
    {
        proof {
            reveal_strlit("<a ");
            reveal_strlit("<img ");
        }
        let head: Option<usize> = if exec_starts_at(&v, i, &a_lit) {
            Some(i + 3)
        } else if exec_starts_at(&v, i, &img_lit) {
            Some(i + 5)
        } else {
            None
        };
        let mut matched: Option<(usize, usize)> = None;
        match head {
            Some(h) => {
                match find_attr(&v, h, &src_lit, &href_lit) {
                    Some(ds) => {
                        match find_quote(&v, ds) {
                            Some(de) => {
                                if de > ds {
                                    matched = Some((ds, de));
                                }
                            },
                            None => {},
                        }
                    },
                    None => {},
                }
            },
            None => {},
        }
        match matched {
            Some((ds, de)) => {
                proof {
                    assert(spec_html_match_at(html@, i as int) == Some((ds as int, de as int)));
                    lemma_html_match_bounds(html@, i as int);
                }
                let pre = subvec(&v, i, ds);
                let destv = subvec(&v, ds, de);
                let dest = crate::utils::chars_to_string(&destv);
                let fixed = fix_dest(dest.as_str(), path, ctx);
                let fixedv = str_chars(fixed.as_str());
                push_all(&mut out, &pre);
                push_all(&mut out, &fixedv);
                out.push('"');
                i = de + 1;
            },
            None => {
                proof {
                    assert(spec_html_match_at(html@, i as int) is None || !(match spec_html_match_at(
                        html@,
                        i as int,
                    ) {
                        Some(m) => i < m.0 && m.0 < m.1 && m.1 < html@.len(),
                        None => false,
                    }));
                }
                out.push(v[i]);
                i = i + 1;
            },
        }
    }
    crate::utils::chars_to_string(&out)
}

} // verus!
