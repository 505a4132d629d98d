//! The operating system family a decision is made for, and its path conventions.
use vstd::prelude::*;
use crate::text::append_str;

verus! {

/// The operating system family the process runs on.
#[derive(Debug, Clone, Copy, PartialEq, Eq, Structural)]
pub enum Platform {
    Windows,
    Linux,
    MacOs,
    Other,
}

/// Whether `c` separates path components on `p`.
pub open spec fn is_sep(p: Platform, c: char) -> bool {
    c == '/' || (p == Platform::Windows && c == '\\')
}

/// Whether `s` is a bare Windows drive such as `C:`.
pub open spec fn is_bare_drive(s: Seq<char>) -> bool {
    s.len() == 2 && s[1] == ':' && (('A' <= s[0] && s[0] <= 'Z') || ('a' <= s[0] && s[0] <= 'z'))
}

/// `base` joined with the relative component `comp`: nothing is inserted after an empty base
/// or a trailing separator; otherwise the platform's separator goes between them. A bare
/// Windows drive gets one too, so the result is rooted at that drive (`C:` and `Users` give
/// `C:\Users`, not the drive-relative `C:Users`).
pub open spec fn join(p: Platform, base: Seq<char>, comp: Seq<char>) -> Seq<char> {
    if base.len() == 0 || is_sep(p, base.last()) {
        base + comp
    } else {
        base + seq![if p == Platform::Windows { '\\' } else { '/' }] + comp
    }
}

/// Appends `comp` to the path in `out` as `join` does.
pub fn push_component(p: Platform, out: &mut Vec<char>, comp: &str)
    ensures
        final(out)@ == join(p, old(out)@, comp@),
{
    let n = out.len();
    let trailing_sep = n > 0 && (out[n - 1] == '/' || (p == Platform::Windows && out[n - 1]
        == '\\'));
    if !(n == 0 || trailing_sep) {
        if p == Platform::Windows {
            out.push('\\');
        } else {
            out.push('/');
        }
    }
    append_str(out, comp);
}

/// Where the last separator of `s` is, if any.
pub open spec fn last_sep(p: Platform, s: Seq<char>) -> Option<int>
    decreases s.len(),
{
    if s.len() == 0 {
        None
    } else if is_sep(p, s.last()) {
        Some(s.len() - 1)
    } else {
        last_sep(p, s.drop_last())
    }
}

/// The parent of a path without a trailing separator: everything before its last separator,
/// keeping that separator when what is left is a root (`\`, `/`) or a drive root (`C:\`).
/// A path with no separator has no parent here.
pub open spec fn parent(p: Platform, s: Seq<char>) -> Option<Seq<char>> {
    match last_sep(p, s) {
        None => None,
        Some(i) => {
            let head = s.subrange(0, i);
            if head.len() == 0 || (p == Platform::Windows && is_bare_drive(head)) {
                Some(s.subrange(0, i + 1))
            } else {
                Some(head)
            }
        },
    }
}

proof fn lemma_last_sep_is(p: Platform, s: Seq<char>, i: int)
    requires
        0 <= i < s.len(),
        is_sep(p, s[i]),
        forall|k: int| i < k < s.len() ==> !is_sep(p, s[k]),
    ensures
        last_sep(p, s) == Some(i),
    decreases s.len(),
{
    if i < s.len() - 1 {
        assert(s.drop_last()[i] == s[i]);
        lemma_last_sep_is(p, s.drop_last(), i);
    }
}

proof fn lemma_no_sep(p: Platform, s: Seq<char>)
    requires
        forall|k: int| 0 <= k < s.len() ==> !is_sep(p, s[k]),
    ensures
        last_sep(p, s) is None,
    decreases s.len(),
{
    if s.len() > 0 {
        lemma_no_sep(p, s.drop_last());
    }
}

/// The parent directory of `s` (see `parent`).
pub fn path_parent(p: Platform, s: &str) -> (r: Option<String>)
    ensures
        match r {
            Some(t) => parent(p, s@) == Some(t@),
            None => parent(p, s@) is None,
        },
{
    let v = crate::text::chars_of(s);
    let mut j: usize = v.len();
    while j > 0
        invariant
            j <= v.len(),
            v@ == s@,
            forall|k: int| j <= k < v.len() ==> !is_sep(p, v@[k]),
        decreases j,
    {
        let c = v[j - 1];
        if c == '/' || (p == Platform::Windows && c == '\\') {
            proof {
                lemma_last_sep_is(p, v@, j - 1);
            }
            let i = j - 1;
            let bare = p == Platform::Windows && i == 2 && v[1] == ':' && (('A' <= v[0] && v[0]
                <= 'Z') || ('a' <= v[0] && v[0] <= 'z'));
            let end = if i == 0 || bare {
                i + 1
            } else {
                i
            };
            assert(bare == (p == Platform::Windows && is_bare_drive(v@.subrange(0, i as int))));
            return Some(crate::text::string_of(vstd::slice::slice_subrange(v.as_slice(), 0, end)));
        }
        j = j - 1;
    }
    proof {
        lemma_no_sep(p, v@);
    }
    None
}

/// `name` in the directory of the Unix path `path`: everything up to and including its last
/// `/`, then `name`; a path without a `/` is replaced by `name`.
pub open spec fn sibling(path: Seq<char>, name: Seq<char>) -> Seq<char> {
    match last_sep(Platform::Linux, path) {
        Some(i) => path.subrange(0, i + 1) + name,
        None => name,
    }
}

/// The Unix path `path` with its file name replaced by `name` (see `sibling`).
pub fn with_file_name(path: &str, name: &str) -> (r: String)
    ensures
        r@ == sibling(path@, name@),
{
    let v = crate::text::chars_of(path);
    let mut j: usize = v.len();
    while j > 0
        invariant
            j <= v.len(),
            v@ == path@,
            forall|k: int| j <= k < v.len() ==> !is_sep(Platform::Linux, v@[k]),
        decreases j,
    {
        if v[j - 1] == '/' {
            proof {
                lemma_last_sep_is(Platform::Linux, v@, j - 1);
            }
            let mut out = crate::text::slice_chars(v.as_slice(), 0, j);
            crate::text::append_str(&mut out, name);
            return crate::text::string_of(out.as_slice());
        }
        j = j - 1;
    }
    proof {
        lemma_no_sep(Platform::Linux, v@);
    }
    String::from_str(name)
}

} // verus!
