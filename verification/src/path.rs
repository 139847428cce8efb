//! The final component of an executable path, as `Path::file_name` gives it
//! on Unix and on Windows.

use vstd::prelude::*;
use crate::text::chars_of;

verus! {

/// The path syntax of a platform.
#[derive(Debug, Clone, Copy, PartialEq, Eq, Structural)]
pub enum PathStyle {
    /// `/` separates components.
    Unix,
    /// `\` and `/` separate components, after an optional prefix (`C:`,
    /// `\\server\share`, `\\.\device`, or a verbatim `\\?\` prefix, after
    /// which only `\` separates).
    Windows,
}

/// Whether `c` is `\` or `/`.
pub open spec fn is_any_sep(c: char) -> bool {
    c == '\\' || c == '/'
}

/// Whether `c` separates path components: `/` on Unix; `\` on Windows, and
/// `/` too unless the path is verbatim.
pub open spec fn is_path_sep(style: PathStyle, verbatim: bool, c: char) -> bool {
    match style {
        PathStyle::Unix => c == '/',
        PathStyle::Windows => c == '\\' || (!verbatim && c == '/'),
    }
}

/// An ASCII letter.
pub open spec fn is_ascii_alpha(c: char) -> bool {
    ('a' <= c && c <= 'z') || ('A' <= c && c <= 'Z')
}

/// The number of characters of `s` before its first Windows separator (only
/// `\` when `verbatim`).
pub open spec fn sep_free_len(s: Seq<char>, verbatim: bool) -> nat
    decreases s.len(),
{
    if s.len() == 0 || is_path_sep(PathStyle::Windows, verbatim, s[0]) {
        0
    } else {
        1 + sep_free_len(s.drop_first(), verbatim)
    }
}

/// The length of the Windows prefix of `s`, and whether it is verbatim:
/// `\\?\UNC\server\share`, `\\?\C:`, `\\?\name` (verbatim), `\\.\device`,
/// `\\server\share` (with `/` also taken as `\` in the leading separators),
/// `C:`, or none.
pub open spec fn windows_prefix(s: Seq<char>) -> (int, bool) {
    if s.len() >= 2 && is_any_sep(s[0]) && is_any_sep(s[1]) {
        if s.len() >= 4 && s[0] == '\\' && s[1] == '\\' && s[2] == '?' && s[3] == '\\' {
            if s.len() >= 8 && s[4] == 'U' && s[5] == 'N' && s[6] == 'C' && is_any_sep(s[7]) {
                let server: int = sep_free_len(s.skip(8), true) as int;
                let share: int = if 8 + server < s.len() {
                    sep_free_len(s.skip(8 + server + 1), true) as int
                } else {
                    0
                };
                (8 + server + if share > 0 {
                    1 + share
                } else {
                    0
                }, true)
            } else if s.len() >= 6 && is_ascii_alpha(s[4]) && s[5] == ':' && (s.len() == 6
                || is_any_sep(s[6])) {
                (6, true)
            } else {
                (4 + sep_free_len(s.skip(4), true) as int, true)
            }
        } else if s.len() >= 4 && s[2] == '.' && is_any_sep(s[3]) {
            (4 + sep_free_len(s.skip(4), false) as int, false)
        } else {
            let server: int = sep_free_len(s.skip(2), false) as int;
            let share: int = if 2 + server < s.len() {
                sep_free_len(s.skip(2 + server + 1), false) as int
            } else {
                0
            };
            if server > 0 && share > 0 {
                (2 + server + 1 + share, false)
            } else {
                (0, false)
            }
        }
    } else if s.len() >= 2 && is_ascii_alpha(s[0]) && s[1] == ':' {
        (2, false)
    } else {
        (0, false)
    }
}

/// A run of non-separators stays inside the text.
pub proof fn lemma_sep_free_len_bound(s: Seq<char>, verbatim: bool)
    ensures
        sep_free_len(s, verbatim) <= s.len(),
    decreases s.len(),
{
    if s.len() > 0 && !is_path_sep(PathStyle::Windows, verbatim, s[0]) {
        lemma_sep_free_len_bound(s.drop_first(), verbatim);
    }
}

/// The prefix stays inside the text.
pub proof fn lemma_windows_prefix_bound(s: Seq<char>)
    ensures
        0 <= windows_prefix(s).0 <= s.len(),
{
    if s.len() >= 4 {
        lemma_sep_free_len_bound(s.skip(4), true);
        lemma_sep_free_len_bound(s.skip(4), false);
    }
    if s.len() >= 8 {
        lemma_sep_free_len_bound(s.skip(8), true);
        let server: int = sep_free_len(s.skip(8), true) as int;
        if 8 + server < s.len() {
            lemma_sep_free_len_bound(s.skip(8 + server + 1), true);
        }
    }
    if s.len() >= 2 {
        lemma_sep_free_len_bound(s.skip(2), false);
        let server: int = sep_free_len(s.skip(2), false) as int;
        if 2 + server < s.len() {
            lemma_sep_free_len_bound(s.skip(2 + server + 1), false);
        }
    }
}

/// The index of the last separator of `p`, or `-1`.
pub open spec fn last_sep(style: PathStyle, verbatim: bool, p: Seq<char>) -> int
    decreases p.len(),
{
    if p.len() == 0 {
        -1
    } else if is_path_sep(style, verbatim, p.last()) {
        p.len() - 1
    } else {
        last_sep(style, verbatim, p.drop_last())
    }
}

/// `last_sep` lies in the text.
pub proof fn lemma_last_sep_bound(style: PathStyle, verbatim: bool, p: Seq<char>)
    ensures
        -1 <= last_sep(style, verbatim, p) < p.len(),
    decreases p.len(),
{
    if p.len() > 0 && !is_path_sep(style, verbatim, p.last()) {
        lemma_last_sep_bound(style, verbatim, p.drop_last());
    }
}

/// The last component of the part `p` of a path after its prefix: trailing
/// separators are passed over, and so are trailing `.` components unless the
/// path is verbatim; a last component `..` or `.`, or none, gives `None`.
pub open spec fn last_name(style: PathStyle, verbatim: bool, p: Seq<char>) -> Option<Seq<char>>
    decreases p.len(),
{
    if p.len() == 0 {
        None
    } else if is_path_sep(style, verbatim, p.last()) {
        last_name(style, verbatim, p.drop_last())
    } else {
        let i = last_sep(style, verbatim, p);
        let comp = p.skip(i + 1);
        if comp == seq!['.'] {
            if verbatim || i < 0 {
                None
            } else {
                proof {
                    lemma_last_sep_bound(style, verbatim, p);
                }
                last_name(style, verbatim, p.take(i))
            }
        } else if comp == seq!['.', '.'] {
            None
        } else {
            Some(comp)
        }
    }
}

/// The final component of a path in the given syntax, as `Path::file_name`
/// gives it on that platform.
pub open spec fn path_file_name(style: PathStyle, p: Seq<char>) -> Option<Seq<char>> {
    match style {
        PathStyle::Unix => last_name(style, false, p),
        PathStyle::Windows => {
            let (len, verbatim) = windows_prefix(p);
            last_name(style, verbatim, p.skip(len))
        },
    }
}

/// Whether `c` separates components.
fn path_sep(style: PathStyle, verbatim: bool, c: char) -> (b: bool)
    ensures
        b == is_path_sep(style, verbatim, c),
{
    match style {
        PathStyle::Unix => c == '/',
        PathStyle::Windows => c == '\\' || (!verbatim && c == '/'),
    }
}

/// The number of characters of `v` from `from` on before a Windows separator.
fn sep_free_run(v: &Vec<char>, from: usize, verbatim: bool) -> (n: usize)
    requires
        from <= v.len(),
    ensures
        n == sep_free_len(v@.skip(from as int), verbatim),
        from + n <= v.len(),
{
    let mut i = from;
    while i < v.len() && !path_sep(PathStyle::Windows, verbatim, v[i])
        invariant
            from <= i <= v.len(),
            sep_free_len(v@.skip(from as int), verbatim) == (i - from) + sep_free_len(
                v@.skip(i as int),
                verbatim,
            ),
        decreases v.len() - i,
    {
        assert(v@.skip(i as int).drop_first() =~= v@.skip(i + 1));
        i = i + 1;
    }
    assert(i < v.len() ==> v@.skip(i as int)[0] == v@[i as int]);
    i - from
}

fn ascii_alpha(c: char) -> (b: bool)
    ensures
        b == is_ascii_alpha(c),
{
    ('a' <= c && c <= 'z') || ('A' <= c && c <= 'Z')
}

fn any_sep(c: char) -> (b: bool)
    ensures
        b == is_any_sep(c),
{
    c == '\\' || c == '/'
}

/// The length of the Windows prefix of `v`, and whether it is verbatim.
fn windows_prefix_of(v: &Vec<char>) -> (r: (usize, bool))
    ensures
        r.0 as int == windows_prefix(v@).0,
        r.1 == windows_prefix(v@).1,
        r.0 <= v.len(),
{
    proof {
        lemma_windows_prefix_bound(v@);
    }
    let n = v.len();
    if n >= 2 && any_sep(v[0]) && any_sep(v[1]) {
        if n >= 4 && v[0] == '\\' && v[1] == '\\' && v[2] == '?' && v[3] == '\\' {
            if n >= 8 && v[4] == 'U' && v[5] == 'N' && v[6] == 'C' && any_sep(v[7]) {
                let server = sep_free_run(v, 8, true);
                let share = if 8 + server < n {
                    sep_free_run(v, 8 + server + 1, true)
                } else {
                    0
                };
                (8 + server + if share > 0 {
                    1 + share
                } else {
                    0
                }, true)
            } else if n >= 6 && ascii_alpha(v[4]) && v[5] == ':' && (n == 6 || any_sep(v[6])) {
                (6, true)
            } else {
                (4 + sep_free_run(v, 4, true), true)
            }
        } else if n >= 4 && v[2] == '.' && any_sep(v[3]) {
            (4 + sep_free_run(v, 4, false), false)
        } else {
            let server = sep_free_run(v, 2, false);
            let share = if 2 + server < n {
                sep_free_run(v, 2 + server + 1, false)
            } else {
                0
            };
            if server > 0 && share > 0 {
                (2 + server + 1 + share, false)
            } else {
                (0, false)
            }
        }
    } else if n >= 2 && ascii_alpha(v[0]) && v[1] == ':' {
        (2, false)
    } else {
        (0, false)
    }
}

/// The final component of `path` in the given syntax, if it has one.
pub fn file_name(path: &str, style: PathStyle) -> (r: Option<&str>)
    ensures
        match path_file_name(style, path@) {
            Some(n) => r is Some && r->0@ == n,
            None => r is None,
        },
{
    let v = chars_of(path);
    let (start, verbatim) = match style {
        PathStyle::Unix => (0, false),
        PathStyle::Windows => windows_prefix_of(&v),
    };
    let ghost body = v@.skip(start as int);
    assert(style is Unix ==> body =~= v@);
    let mut end = v.len();
    assert(v@.subrange(start as int, end as int) =~= body);
    loop
        invariant
            v@ == path@,
            start <= end <= v.len(),
            body == v@.skip(start as int),
            path_file_name(style, v@) == last_name(style, verbatim, body),
            last_name(style, verbatim, body) == last_name(
                style,
                verbatim,
                v@.subrange(start as int, end as int),
            ),
        decreases end,
    {
        let ghost p = v@.subrange(start as int, end as int);
        if end == start {
            return None;
        }
        if path_sep(style, verbatim, v[end - 1]) {
            assert(p.drop_last() =~= v@.subrange(start as int, end - 1));
            end = end - 1;
            continue;
        }
        let mut j = end;
        while j > start && !path_sep(style, verbatim, v[j - 1])
            invariant
                start <= j <= end <= v.len(),
                end > start,
                !is_path_sep(style, verbatim, v@[end - 1]),
                p == v@.subrange(start as int, end as int),
                last_sep(style, verbatim, p) == last_sep(
                    style,
                    verbatim,
                    v@.subrange(start as int, j as int),
                ),
            decreases j,
        {
            assert(v@.subrange(start as int, j as int).drop_last() =~= v@.subrange(
                start as int,
                j - 1,
            ));
            j = j - 1;
        }
        assert(j > start ==> v@.subrange(start as int, j as int).last() == v@[j - 1]);
        assert(last_sep(style, verbatim, p) == j - start - 1);
        let ghost comp = p.skip(j - start);
        assert(comp =~= v@.subrange(j as int, end as int));
        if end - j == 1 && v[j] == '.' {
            assert(comp =~= seq!['.']);
            if verbatim || j == start {
                return None;
            }
            assert(p.take(j - start - 1) =~= v@.subrange(start as int, j - 1));
            end = j - 1;
            continue;
        }
        if end - j == 2 && v[j] == '.' && v[j + 1] == '.' {
            assert(comp =~= seq!['.', '.']);
            return None;
        }
        assert(comp != seq!['.']) by {
            if end - j == 1 {
                assert(comp[0] != '.');
            }
        }
        assert(comp != seq!['.', '.']) by {
            if end - j == 2 {
                assert(comp[0] != '.' || comp[1] != '.');
            }
        }
        return Some(path.substring_char(j, end));
    }
}

} // verus!
