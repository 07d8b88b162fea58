//! The `python` registry source.
use vstd::prelude::*;

use super::RegistrySource;
use crate::plugins::plugin::Plugin;
use crate::text::{
    chars_of, ends_with, ends_with_exec, first_some, is_digit, lines, lines_exec, seq_eq,
    slice_to_vec, split_once_char, split_once_class, starts_with, starts_with_exec, string_of,
    strip, trim, trim_char, trim_slice,
};

verus! {

/// Fetches packages from the `python` registry.
pub struct PythonRegistrySource;

impl Plugin for PythonRegistrySource {
    open spec fn spec_name(&self) -> Seq<char> {
        "python"@
    }

    fn name(&self) -> (r: &'static str) {
        "python"
    }

    open spec fn spec_description(&self) -> Seq<char> {
        "Python (pip) \u{2014} pip download + extract"@
    }

    fn description(&self) -> (r: &'static str) {
        "Python (pip) \u{2014} pip download + extract"
    }
}

impl RegistrySource for PythonRegistrySource {
    fn required_tools(&self) -> (r: Vec<&'static str>)
        ensures
            r.deep_view() == seq!["pip"@, "python3"@],
    {
        let r = vec!["pip", "python3"];
        assert(r.deep_view() =~= seq!["pip"@, "python3"@]);
        r
    }
}

/// An sdist file name without its archive suffix (`.tar.gz`, `.tgz`,
/// `.zip`, `.tar.bz2`, tried in that order).
pub open spec fn sdist_stem(f: Seq<char>) -> Option<Seq<char>> {
    if ends_with(f, ".tar.gz"@) {
        Some(f.take(f.len() - 7))
    } else if ends_with(f, ".tgz"@) {
        Some(f.take(f.len() - 4))
    } else if ends_with(f, ".zip"@) {
        Some(f.take(f.len() - 4))
    } else if ends_with(f, ".tar.bz2"@) {
        Some(f.take(f.len() - 8))
    } else {
        None
    }
}

/// Whether a `-` at `i` starts the version (a digit follows it).
pub open spec fn version_dash(stem: Seq<char>, i: int) -> bool {
    0 <= i && i + 1 < stem.len() && stem[i] == '-' && is_digit(stem[i + 1])
}

/// Index of the last version-starting `-` before `k`, or -1.
pub open spec fn last_version_dash(stem: Seq<char>, k: int) -> int
    decreases k,
{
    if k <= 0 {
        -1
    } else if version_dash(stem, k - 1) {
        k - 1
    } else {
        last_version_dash(stem, k - 1)
    }
}

/// The version of an sdist file name (`foo-bar-1.2.3.tar.gz` -> `1.2.3`):
/// after the last `-` that a digit follows.
pub open spec fn sdist_version_of(f: Seq<char>) -> Option<Seq<char>> {
    match sdist_stem(f) {
        None => None,
        Some(stem) => {
            let i = last_version_dash(stem, stem.len() as int);
            if i < 0 {
                None
            } else {
                Some(stem.skip(i + 1))
            }
        },
    }
}

/// Extract the version from an sdist file name like `foo-1.2.3.tar.gz`.
pub fn extract_sdist_version(file_name: &str) -> (r: Option<String>)
    ensures
        match r {
            Some(v) => sdist_version_of(file_name@) == Some(v@),
            None => sdist_version_of(file_name@) is None,
        },
{
    let f = chars_of(file_name);
    proof {
        reveal_strlit(".tar.gz");
        reveal_strlit(".tgz");
        reveal_strlit(".zip");
        reveal_strlit(".tar.bz2");
    }
    let n = f.len();
    let stem_len: usize = if ends_with_exec(f.as_slice(), chars_of(".tar.gz").as_slice()) {
        n - 7
    } else if ends_with_exec(f.as_slice(), chars_of(".tgz").as_slice()) {
        n - 4
    } else if ends_with_exec(f.as_slice(), chars_of(".zip").as_slice()) {
        n - 4
    } else if ends_with_exec(f.as_slice(), chars_of(".tar.bz2").as_slice()) {
        n - 8
    } else {
        return None;
    };
    let stem = vstd::slice::slice_subrange(f.as_slice(), 0, stem_len);
    assert(sdist_stem(file_name@) == Some(stem@));
    let mut i: usize = stem.len();
    while i > 0
        invariant
            i <= stem@.len(),
            sdist_stem(file_name@) == Some(stem@),
            last_version_dash(stem@, stem@.len() as int) == last_version_dash(stem@, i as int),
        decreases i,
    {
        let k = i - 1;
        if stem[k] == '-' && k + 1 < stem.len() && '0' <= stem[k + 1] && stem[k + 1] <= '9' {
            assert(version_dash(stem@, k as int));
            assert(stem@.subrange(k + 1, stem@.len() as int) =~= stem@.skip(k + 1));
            return Some(string_of(vstd::slice::slice_subrange(stem, k + 1, stem.len())));
        }
        i = k;
    }
    None
}

// ---------------------------------------------------------------------------
// The description of an sdist
// ---------------------------------------------------------------------------

/// The value of a `key = value` line whose key (trimmed) is `description`.
pub open spec fn description_value(line: Seq<char>) -> Option<Seq<char>> {
    match split_once_class(line, seq!['=']) {
        Some((k, v)) => if trim(k) == "description"@ {
            Some(trim(v))
        } else {
            None
        },
        None => None,
    }
}

/// The `description` of the `[project]` table of a `pyproject.toml`,
/// unquoted, reading from `in_project` on.
pub open spec fn pyproject_description_in(ls: Seq<Seq<char>>, in_project: bool) -> Option<Seq<char>>
    decreases ls.len(),
{
    if ls.len() == 0 {
        None
    } else {
        let t = trim(ls[0]);
        if t == "[project]"@ {
            pyproject_description_in(ls.drop_first(), true)
        } else if starts_with(t, "["@) {
            pyproject_description_in(ls.drop_first(), false)
        } else if in_project && description_value(t) is Some {
            Some(strip(strip(description_value(t)->0, false, seq!['"']), false, seq!['\'']))
        } else {
            pyproject_description_in(ls.drop_first(), in_project)
        }
    }
}

/// The `description` of a `setup.cfg`: the first `description = ...` line.
pub open spec fn setup_cfg_description(ls: Seq<Seq<char>>) -> Option<Seq<char>> {
    first_some(ls, |l: Seq<char>| description_value(l))
}

/// The `description=` argument of a `setup.py`, stripped of a trailing
/// comma and quotes.
pub open spec fn setup_py_value(line: Seq<char>) -> Option<Seq<char>> {
    match description_value(trim(line)) {
        Some(v) => Some(strip(strip(strip(v, false, seq![',']), false, seq!['"']), false, seq!['\''])),
        None => None,
    }
}

/// The description of a Python sdist: the configured one when set, else
/// from `pyproject.toml`, `setup.cfg` or `setup.py` (each file only when
/// present), else empty.
pub open spec fn sdist_description_of(
    configured: Seq<char>,
    pyproject: Option<Seq<char>>,
    setup_cfg: Option<Seq<char>>,
    setup_py: Option<Seq<char>>,
) -> Seq<char> {
    let a = match pyproject {
        Some(t) => pyproject_description_in(lines(t), false),
        None => None,
    };
    let b = match setup_cfg {
        Some(t) => setup_cfg_description(lines(t)),
        None => None,
    };
    let c = match setup_py {
        Some(t) => first_some(lines(t), |l: Seq<char>| setup_py_value(l)),
        None => None,
    };
    if configured.len() > 0 {
        configured
    } else if a is Some {
        a->0
    } else if b is Some {
        b->0
    } else if c is Some {
        c->0
    } else {
        Seq::empty()
    }
}

fn description_value_exec(line: &[char]) -> (r: Option<Vec<char>>)
    ensures
        match r {
            Some(v) => description_value(line@) == Some(v@),
            None => description_value(line@) is None,
        },
{
    match split_once_char(line, '=') {
        Some((k, v)) => {
            if seq_eq(trim_slice(k), chars_of("description").as_slice()) {
                Some(slice_to_vec(trim_slice(v)))
            } else {
                None
            }
        },
        None => None,
    }
}

fn pyproject_description(text: &str) -> (r: Option<Vec<char>>)
    ensures
        match r {
            Some(v) => pyproject_description_in(lines(text@), false) == Some(v@),
            None => pyproject_description_in(lines(text@), false) is None,
        },
{
    let t = chars_of(text);
    let ls = lines_exec(t.as_slice());
    let ghost all = ls.deep_view();
    let project = chars_of("[project]");
    let bracket = chars_of("[");
    let mut in_project = false;
    let mut i: usize = 0;
    assert(all.skip(0) =~= all);
    while i < ls.len()
        invariant
            i <= ls.len(),
            all == ls.deep_view(),
            all == lines(text@),
            project@ == "[project]"@,
            bracket@ == "["@,
            pyproject_description_in(all, false) == pyproject_description_in(all.skip(i as int), in_project),
        decreases ls.len() - i,
    {
        let ghost rest = all.skip(i as int);
        assert(rest[0] == ls@[i as int]@);
        assert(rest.drop_first() =~= all.skip(i + 1));
        let t = trim_slice(ls[i].as_slice());
        if seq_eq(t, project.as_slice()) {
            in_project = true;
        } else if starts_with_exec(t, bracket.as_slice()) {
            in_project = false;
        } else if in_project {
            match description_value_exec(t) {
                Some(v) => {
                    let a = trim_char(v.as_slice(), '"');
                    let b = trim_char(a, '\'');
                    return Some(slice_to_vec(b));
                },
                None => {},
            }
        }
        i = i + 1;
    }
    None
}

fn first_description(text: &str, setup_py: bool) -> (r: Option<Vec<char>>)
    ensures
        match r {
            Some(v) => (if setup_py { first_some(lines(text@), |l: Seq<char>| setup_py_value(l)) } else { setup_cfg_description(lines(text@)) }) == Some(v@),
            None => (if setup_py { first_some(lines(text@), |l: Seq<char>| setup_py_value(l)) } else { setup_cfg_description(lines(text@)) }) is None,
        },
{
    let t = chars_of(text);
    let ls = lines_exec(t.as_slice());
    let ghost all = ls.deep_view();
    let ghost f = if setup_py { |l: Seq<char>| setup_py_value(l) } else { |l: Seq<char>| description_value(l) };
    assert(setup_py ==> f == (|l: Seq<char>| setup_py_value(l)));
    assert(!setup_py ==> f == (|l: Seq<char>| description_value(l)));
    let mut i: usize = 0;
    assert(all.skip(0) =~= all);
    while i < ls.len()
        invariant
            i <= ls.len(),
            all == ls.deep_view(),
            all == lines(text@),
            setup_py ==> f == (|l: Seq<char>| setup_py_value(l)),
            !setup_py ==> f == (|l: Seq<char>| description_value(l)),
            first_some(all, f) == first_some(all.skip(i as int), f),
        decreases ls.len() - i,
    {
        let ghost rest = all.skip(i as int);
        assert(rest[0] == ls@[i as int]@);
        assert(rest.drop_first() =~= all.skip(i + 1));
        let line = if setup_py {
            trim_slice(ls[i].as_slice())
        } else {
            ls[i].as_slice()
        };
        match description_value_exec(line) {
            Some(v) => {
                if setup_py {
                    let a = trim_char(v.as_slice(), ',');
                    let b = trim_char(a, '"');
                    let c = trim_char(b, '\'');
                    return Some(slice_to_vec(c));
                }
                return Some(v);
            },
            None => {},
        }
        i = i + 1;
    }
    None
}

/// The description of a Python sdist from the configured one and the
/// texts of its `pyproject.toml`, `setup.cfg` and `setup.py` (`None` for a
/// file the sdist lacks).
pub fn read_sdist_description(
    configured: &str,
    pyproject: Option<&str>,
    setup_cfg: Option<&str>,
    setup_py: Option<&str>,
) -> (r: String)
    ensures
        r@ == sdist_description_of(
            configured@,
            crate::text::opt_str_view(pyproject),
            crate::text::opt_str_view(setup_cfg),
            crate::text::opt_str_view(setup_py),
        ),
{
    if !configured.is_empty() {
        return configured.to_string();
    }
    match pyproject {
        Some(t) => match pyproject_description(t) {
            Some(v) => {
                return string_of(v.as_slice());
            },
            None => {},
        },
        None => {},
    }
    match setup_cfg {
        Some(t) => match first_description(t, false) {
            Some(v) => {
                return string_of(v.as_slice());
            },
            None => {},
        },
        None => {},
    }
    match setup_py {
        Some(t) => match first_description(t, true) {
            Some(v) => {
                return string_of(v.as_slice());
            },
            None => {},
        },
        None => {},
    }
    String::new()
}

} // verus!
