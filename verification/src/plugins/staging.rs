//! Staging-tree rules shared by the packagers: which ancillary files are man
//! pages (and of which section) or license texts, glob detection, and the
//! join of an installed path onto the staging root that refuses to escape
//! it.
use vstd::prelude::*;

use crate::text::{
    chars_of, ends_with, ends_with_exec, rfind_exec, rfind_str, split_class, split_class_exec,
    starts_with, starts_with_exec, string_of, strip_start, strip_start_slice, to_upper,
    upper_vec,
};

verus! {

/// The final component of a path, as `std::path::Path::file_name` reads it
/// with `/` as the separator: trailing separators and trailing `.`
/// components are normalised away, and a path that ends in `..`, or has no
/// normal final component (empty, `/`, `.`), has none.
pub open spec fn path_file_name_in(p: Seq<char>) -> Option<Seq<char>>
    decreases p.len(),
{
    if p.len() == 0 {
        None
    } else if p.last() == '/' {
        path_file_name_in(p.drop_last())
    } else if p == "."@ {
        None
    } else if p.len() >= 2 && p.last() == '.' && p[p.len() - 2] == '/' {
        path_file_name_in(p.drop_last())
    } else {
        let seg = p.skip(rfind_str(p, "/"@) + 1);
        if seg == ".."@ {
            None
        } else {
            Some(seg)
        }
    }
}

/// `std::path::Path::file_name` on a Unix path: its documentation (with
/// that of `Path::components`) gives the final component as
/// `path_file_name_in` states it. A `&str` path is valid UTF-8, so the name
/// always converts back to a `String`.
#[verifier::external_body]
fn path_file_name(p: &str) -> (r: Option<String>)
    ensures
        match r {
            Some(f) => path_file_name_in(p@) == Some(f@),
            None => path_file_name_in(p@) is None,
        },
{
    std::path::Path::new(p).file_name().and_then(|n| n.to_str()).map(|n| n.to_string())
}

/// The extension of a file name, as `Path::extension` defines it: the text
/// after the final `.`, none when there is no `.` or the only one leads the
/// name.
pub open spec fn extension_in(file_name: Seq<char>) -> Option<Seq<char>> {
    let i = rfind_str(file_name, "."@);
    if i <= 0 {
        None
    } else {
        Some(file_name.skip(i + 1))
    }
}

/// The man section an ancillary file belongs to: its name without a `.gz`
/// suffix must end in a one-digit extension `1`..`9`.
pub open spec fn man_section_of(name: Seq<char>) -> Option<u8> {
    let stem = if ends_with(name, ".gz"@) {
        name.take(name.len() - 3)
    } else {
        name
    };
    match path_file_name_in(stem) {
        Some(f) => match extension_in(f) {
            Some(e) => if e.len() == 1 && '1' <= e[0] && e[0] <= '9' {
                Some(((e[0] as u32) - ('0' as u32)) as u8)
            } else {
                None
            },
            None => None,
        },
        None => None,
    }
}

/// The man section of an ancillary file (`foo.1`, `foo.8.gz`), if it is a
/// man page.
pub fn man_section(name: &str) -> (r: Option<u8>)
    ensures
        r == man_section_of(name@),
{
    let v = chars_of(name);
    let gz = chars_of(".gz");
    proof {
        reveal_strlit(".gz");
        reveal_strlit(".");
    }
    let stem_chars = if ends_with_exec(v.as_slice(), gz.as_slice()) {
        vstd::slice::slice_subrange(v.as_slice(), 0, v.len() - 3)
    } else {
        v.as_slice()
    };
    let stem = string_of(stem_chars);
    let file = match path_file_name(stem.as_str()) {
        Some(f) => f,
        None => return None,
    };
    let f = chars_of(file.as_str());
    let dot = chars_of(".");
    let i = match rfind_exec(f.as_slice(), dot.as_slice()) {
        Some(i) => i,
        None => return None,
    };
    if i == 0 {
        return None;
    }
    if f.len() - i - 1 != 1 {
        return None;
    }
    let c = f[i + 1];
    assert(f@.skip(i + 1)[0] == c);
    if '1' <= c && c <= '9' {
        let d: u32 = (c as u32) - ('0' as u32);
        Some(d as u8)
    } else {
        None
    }
}

/// Whether a file name, upper-cased, starts with `LICENSE`, `COPYING` or
/// `NOTICE`.
pub open spec fn license_like(name: Seq<char>) -> bool {
    let upper = to_upper(name);
    starts_with(upper, "LICENSE"@) || starts_with(upper, "COPYING"@) || starts_with(
        upper,
        "NOTICE"@,
    )
}

/// Whether an ancillary file is a license text.
pub fn is_license_like(name: &str) -> (r: bool)
    ensures
        r == license_like(name@),
{
    let upper = upper_vec(chars_of(name).as_slice());
    starts_with_exec(upper.as_slice(), chars_of("LICENSE").as_slice()) || starts_with_exec(
        upper.as_slice(),
        chars_of("COPYING").as_slice(),
    ) || starts_with_exec(upper.as_slice(), chars_of("NOTICE").as_slice())
}

/// Whether `s` holds a glob meta-character (`*`, `?`, `[`).
pub fn is_glob_pattern(s: &str) -> (r: bool)
    ensures
        r == (s@.contains('*') || s@.contains('?') || s@.contains('[')),
{
    let v = chars_of(s);
    let mut i: usize = 0;
    while i < v.len()
        invariant
            i <= v@.len(),
            v@ == s@,
            forall|j: int| 0 <= j < i ==> v@[j] != '*' && v@[j] != '?' && v@[j] != '[',
        decreases v@.len() - i,
    {
        if v[i] == '*' || v[i] == '?' || v[i] == '[' {
            return true;
        }
        i = i + 1;
    }
    false
}

/// `Path::join` of a relative path: `rel` appended to `root` with one `/`
/// between them unless `root` is empty or already ends in `/`.
pub open spec fn join_path(root: Seq<char>, rel: Seq<char>) -> Seq<char> {
    if starts_with(rel, "/"@) {
        rel
    } else if root.len() > 0 && root.last() != '/' {
        root + "/"@ + rel
    } else {
        root + rel
    }
}

/// `Path::join` on text: `rel` replaces `root` when absolute, else is
/// appended with one `/` between them.
pub fn path_join(root: &str, rel: &str) -> (r: String)
    ensures
        r@ == join_path(root@, rel@),
{
    let rv = chars_of(rel);
    let slash = chars_of("/");
    proof {
        reveal_strlit("/");
    }
    if starts_with_exec(rv.as_slice(), slash.as_slice()) {
        return String::from_str(rel);
    }
    let mut out = String::from_str(root);
    let n = root.unicode_len();
    if n > 0 && root.get_char(n - 1) != '/' {
        out.append("/");
    }
    out.append(rel);
    out
}

/// Why an installed path was refused.
#[derive(Debug, PartialEq, Eq, Clone)]
pub enum StagingError {
    /// The installed path does not start with `/`.
    NotAbsolute(String),
    /// The joined path has a `..` component.
    EscapesRoot(String),
}

/// What `safe_join` gives: the installed path (absolute) with its leading
/// `/`s removed joined onto `root`, refused when it is not absolute or when
/// the result has a `..` component.
pub open spec fn safe_join_of(root: Seq<char>, installed_abs: Seq<char>) -> Option<Seq<char>> {
    if !starts_with(installed_abs, "/"@) {
        None
    } else {
        let joined = join_path(root, strip_start(installed_abs, false, seq!['/']));
        if split_class(joined, false, seq!['/']).contains(".."@) {
            None
        } else {
            Some(joined)
        }
    }
}

/// Join an absolute installed path onto the staging root, rejecting any
/// attempt to escape it (`..` components).
pub fn safe_join(root: &str, installed_abs: &str) -> (r: Result<String, StagingError>)
    ensures
        match r {
            Ok(p) => safe_join_of(root@, installed_abs@) == Some(p@),
            Err(StagingError::NotAbsolute(s)) => !starts_with(installed_abs@, "/"@) && s@
                == installed_abs@,
            Err(StagingError::EscapesRoot(s)) => starts_with(installed_abs@, "/"@)
                && safe_join_of(root@, installed_abs@) is None && s@ == installed_abs@,
        },
{
    let abs = chars_of(installed_abs);
    let slash = chars_of("/");
    proof {
        reveal_strlit("/");
    }
    if !starts_with_exec(abs.as_slice(), slash.as_slice()) {
        return Err(StagingError::NotAbsolute(String::from_str(installed_abs)));
    }
    let sep: Vec<char> = vec!['/'];
    assert(sep@ =~= seq!['/']);
    let rel = strip_start_slice(abs.as_slice(), false, sep.as_slice());
    let r = chars_of(root);
    let mut joined: Vec<char> = Vec::new();
    if starts_with_exec(rel, slash.as_slice()) {
        crate::text::append_chars(&mut joined, rel);
    } else {
        crate::text::append_chars(&mut joined, r.as_slice());
        if r.len() > 0 && r[r.len() - 1] != '/' {
            joined.push('/');
        }
        crate::text::append_chars(&mut joined, rel);
    }
    assert(joined@ =~= join_path(root@, rel@));
    let parts = split_class_exec(joined.as_slice(), false, sep.as_slice());
    let dots = chars_of("..");
    let mut i: usize = 0;
    while i < parts.len()
        invariant
            i <= parts.len(),
            dots@ == ".."@,
            starts_with(installed_abs@, "/"@),
            parts.deep_view() == split_class(
                join_path(root@, strip_start(installed_abs@, false, seq!['/'])),
                false,
                seq!['/'],
            ),
            forall|j: int| 0 <= j < i ==> parts.deep_view()[j] != ".."@,
        decreases parts.len() - i,
    {
        assert(parts.deep_view()[i as int] == parts@[i as int]@);
        if crate::text::seq_eq(parts[i].as_slice(), dots.as_slice()) {
            assert(parts.deep_view().contains(".."@));
            return Err(StagingError::EscapesRoot(String::from_str(installed_abs)));
        }
        i = i + 1;
    }
    assert(!parts.deep_view().contains(".."@)) by {
        if parts.deep_view().contains(".."@) {
            let j = choose|j: int| 0 <= j < parts.deep_view().len() && parts.deep_view()[j] == ".."@;
        }
    }
    Ok(string_of(joined.as_slice()))
}

} // verus!
