use vstd::prelude::*;

verus! {

use vstd::string::StrSliceExecFns;
use vstd::string::StringExecFns;

/// A path is absolute when it starts with the separator.
pub open spec fn spec_is_absolute(p: Seq<char>) -> bool {
    p.len() > 0 && p[0] == '/'
}

/// Joining a relative location onto a base directory.
pub open spec fn spec_join(base: Seq<char>, rel: Seq<char>) -> Seq<char> {
    if base.len() == 0 {
        rel
    } else if base[base.len() - 1] == '/' {
        base + rel
    } else {
        base.push('/') + rel
    }
}

/// A summary location resolves against the source root unless it is already
/// absolute.
pub open spec fn spec_resolve(src_dir: Seq<char>, location: Seq<char>) -> Seq<char> {
    if spec_is_absolute(location) {
        location
    } else {
        spec_join(src_dir, location)
    }
}

/// Whether `s` ends with `suffix`.
pub open spec fn seq_ends_with(s: Seq<char>, suffix: Seq<char>) -> bool {
    s.len() >= suffix.len() && s.skip(s.len() - suffix.len()) == suffix
}

/// The output name of a source document: a trailing `.md` becomes `.html`;
/// any other name is kept as it is.
pub open spec fn spec_md_to_html(p: Seq<char>) -> Seq<char> {
    if seq_ends_with(p, ".md"@) {
        p.take(p.len() - 3) + ".html"@
    } else {
        p
    }
}

pub fn is_absolute_path(p: &str) -> (r: bool)
    ensures
        r == spec_is_absolute(p@),
{
    let n = p.unicode_len();
    n > 0 && p.get_char(0) == '/'
}

pub fn join_path(base: &str, rel: &str) -> (r: String)
    ensures
        r@ == spec_join(base@, rel@),
{
    let n = base.unicode_len();
    if n == 0 {
        rel.to_owned()
    } else if base.get_char(n - 1) == '/' {
        let mut s = base.to_owned();
        s.append(rel);
        s
    } else {
        let mut s = base.to_owned();
        s.append("/");
        s.append(rel);
        proof {
            reveal_strlit("/");
            assert(s@ =~= base@.push('/') + rel@);
        }
        s
    }
}

pub fn resolve_location(src_dir: &str, location: &str) -> (r: String)
    ensures
        r@ == spec_resolve(src_dir@, location@),
{
    if is_absolute_path(location) {
        location.to_owned()
    } else {
        join_path(src_dir, location)
    }
}

/// Whether the string ends in `.md`.
pub fn ends_with_md(p: &str) -> (r: bool)
    ensures
        r == seq_ends_with(p@, ".md"@),
{
    proof {
        reveal_strlit(".md");
    }
    let n = p.unicode_len();
    if n < 3 {
        return false;
    }
    let r = p.get_char(n - 3) == '.' && p.get_char(n - 2) == 'm' && p.get_char(n - 1) == 'd';
    proof {
        if r {
            assert(p@.skip(p@.len() - 3) =~= ".md"@);
        } else {
            assert(p@.skip(p@.len() - 3) != ".md"@) by {
                if p@.skip(p@.len() - 3) == ".md"@ {
                    assert(p@[p@.len() - 3] == ".md"@[0]);
                    assert(p@[p@.len() - 2] == ".md"@[1]);
                    assert(p@[p@.len() - 1] == ".md"@[2]);
                }
            }
        }
    }
    r
}

pub fn md_to_html_name(p: &str) -> (r: String)
    ensures
        r@ == spec_md_to_html(p@),
{
    proof {
        reveal_strlit(".md");
        reveal_strlit(".html");
    }
    let n = p.unicode_len();
    if ends_with_md(p) {
        let mut s = p.substring_char(0, n - 3).to_owned();
        s.append(".html");
        assert(s@ =~= p@.take(p@.len() - 3) + ".html"@);
        s
    } else {
        p.to_owned()
    }
}

} // verus!
