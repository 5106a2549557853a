//! File names: extensions, the temporary-file rule, and path joining.
use crate::text::{chars_of, joined};
use vstd::prelude::*;

verus! {

/// The extension std's `Path::extension` reads from `path`, without the dot.
pub uninterp spec fn path_extension(path: Seq<char>) -> Option<Seq<char>>;

/// Relies on std::path::Path::extension, read back as a `String` (the path
/// is UTF-8, so its extension is too).
#[verifier::external_body]
fn extension_of(path: &str) -> (r: Option<String>)
    ensures
        match r {
            Some(e) => path_extension(path@) == Some(e@),
            None => path_extension(path@) is None,
        },
{
    match std::path::Path::new(path).extension() {
        Some(e) => e.to_str().map(String::from),
        None => None,
    }
}

/// The extension with its leading dot, or nothing.
pub open spec fn dotted(ext: Option<Seq<char>>) -> Seq<char> {
    match ext {
        Some(e) => seq!['.'] + e,
        None => Seq::empty(),
    }
}

/// The extension of `path` with its leading dot, or an empty string.
pub fn file_extension(path: &str) -> (r: String)
    ensures
        r@ == dotted(path_extension(path@)),
{
    match extension_of(path) {
        Some(e) => {
            proof {
                reveal_strlit(".");
            }
            let r = joined(".", e.as_str());
            assert(r@ =~= seq!['.'] + e@);
            r
        },
        None => String::new(),
    }
}

/// An ASCII letter or digit.
pub open spec fn is_alnum(c: char) -> bool {
    ('a' <= c && c <= 'z') || ('A' <= c && c <= 'Z') || ('0' <= c && c <= '9')
}

/// `s` ends with a `-` followed by four or more ASCII letters or digits: the
/// mark of a partial or editor-generated file.
pub open spec fn is_temp_name(s: Seq<char>) -> bool {
    exists|i: int|
        0 <= i < s.len() && s[i] == '-' && s.len() - (i + 1) >= 4 && forall|j: int|
            i < j < s.len() ==> is_alnum(#[trigger] s[j])
}

fn alnum(c: char) -> (r: bool)
    ensures
        r == is_alnum(c),
{
    ('a' <= c && c <= 'z') || ('A' <= c && c <= 'Z') || ('0' <= c && c <= '9')
}

/// Whether `path` ends the way temporary files do.
pub fn matches_temp_pattern(path: &str) -> (r: bool)
    ensures
        r == is_temp_name(path@),
{
    let cs = chars_of(path);
    let n = cs.len();
    // `k` is where the trailing run of letters and digits starts.
    let mut k: usize = n;
    while k > 0 && alnum(cs[k - 1])
        invariant
            cs@ == path@,
            n == cs.len(),
            k <= n,
            forall|j: int| k <= j < n ==> is_alnum(#[trigger] cs@[j]),
        decreases k,
    {
        k = k - 1;
    }
    if k > 0 && cs[k - 1] == '-' && n - k >= 4 {
        assert(forall|j: int| (k - 1) < j < n ==> is_alnum(#[trigger] cs@[j]));
        assert(is_temp_name(path@));
        return true;
    }
    assert(!is_temp_name(path@)) by {
        if is_temp_name(path@) {
            let i = choose|i: int|
                0 <= i < cs.len() && cs@[i] == '-' && cs.len() - (i + 1) >= 4 && forall|j: int|
                    i < j < cs.len() ==> is_alnum(#[trigger] cs@[j]);
            assert(!is_alnum(cs@[i]));
            if i < k - 1 {
                assert(is_alnum(cs@[k - 1]));
            }
            assert(i == k - 1);
        }
    }
    false
}

/// `part` appended to `base` as a path: `part` alone when it is absolute,
/// else with one `/` between them unless `base` is empty or ends with one.
pub open spec fn path_join(base: Seq<char>, part: Seq<char>) -> Seq<char> {
    if part.len() > 0 && part[0] == '/' {
        part
    } else if base.len() == 0 || base.last() == '/' {
        base + part
    } else {
        base + seq!['/'] + part
    }
}

/// `part` appended to `base` as a path.
pub fn join_path(base: &str, part: &str) -> (r: String)
    ensures
        r@ == path_join(base@, part@),
{
    let p = chars_of(part);
    if p.len() > 0 && p[0] == '/' {
        let mut r = String::new();
        r.append(part);
        assert(r@ =~= part@);
        return r;
    }
    let b = chars_of(base);
    if b.len() == 0 || b[b.len() - 1] == '/' {
        joined(base, part)
    } else {
        proof {
            reveal_strlit("/");
        }
        let with_slash = joined(base, "/");
        let r = joined(with_slash.as_str(), part);
        assert(r@ =~= base@ + seq!['/'] + part@);
        r
    }
}

} // verus!
