//! The `cargo` registry source.
use vstd::prelude::*;

use super::RegistrySource;
use crate::plugins::plugin::Plugin;
use crate::text::{
    chars_of, first_some, lines, lines_exec, second_piece, second_piece_exec, split_ws,
    split_ws_exec, starts_with, starts_with_exec, string_of, trim, trim_slice,
};

verus! {

/// Fetches packages from the `cargo` registry.
pub struct CargoRegistrySource;

impl Plugin for CargoRegistrySource {
    open spec fn spec_name(&self) -> Seq<char> {
        "cargo"@
    }

    fn name(&self) -> (r: &'static str) {
        "cargo"
    }

    open spec fn spec_description(&self) -> Seq<char> {
        "crates.io (Rust) \u{2014} download .crate + extract"@
    }

    fn description(&self) -> (r: &'static str) {
        "crates.io (Rust) \u{2014} download .crate + extract"
    }
}

impl RegistrySource for CargoRegistrySource {
    fn required_tools(&self) -> (r: Vec<&'static str>)
        ensures
            r.deep_view() == seq!["cargo"@],
    {
        let r = vec!["cargo"];
        assert(r.deep_view() =~= seq!["cargo"@]);
        r
    }
}

/// The version an `installs` key of `.crates2.json` gives
/// (`name version (source)`) when it starts with the package name.
pub open spec fn crates2_key_version(key: Seq<char>, package: Seq<char>) -> Option<Seq<char>> {
    if starts_with(key, package) && split_ws(key).len() >= 2 {
        Some(split_ws(key)[1])
    } else {
        None
    }
}

/// The version a `.crates.toml` line gives: a trimmed `version...` line's
/// text between its first two `"`.
pub open spec fn crates_toml_line_version(line: Seq<char>) -> Option<Seq<char>> {
    let t = trim(line);
    if starts_with(t, "version"@) {
        second_piece(t, "\""@)
    } else {
        None
    }
}

/// The installed version of a crate: from the `installs` keys of
/// `.crates2.json` (when it was read), else from `.crates.toml` (when
/// present), else `0.0.0`.
pub open spec fn cargo_version_of(
    install_keys: Option<Seq<Seq<char>>>,
    crates_toml: Option<Seq<char>>,
    package: Seq<char>,
) -> Seq<char> {
    let a = match install_keys {
        Some(ks) => first_some(ks, |k: Seq<char>| crates2_key_version(k, package)),
        None => None,
    };
    let b = match crates_toml {
        Some(t) => first_some(lines(t), |l: Seq<char>| crates_toml_line_version(l)),
        None => None,
    };
    if a is Some {
        a->0
    } else if b is Some {
        b->0
    } else {
        "0.0.0"@
    }
}

/// The text of `.crates2.json`, read as its `installs` keys.
pub fn crates2_install_keys(text: &str) -> (r: Option<Vec<String>>)
    ensures
        match r {
            Some(ks) => super::json::json_object_keys_of(text@, "installs"@) == Some(ks.deep_view()),
            None => super::json::json_object_keys_of(text@, "installs"@) is None,
        },
{
    super::json::json_object_keys(text, "installs")
}

/// The installed version of a crate from the `installs` keys of
/// `.crates2.json` and the text of `.crates.toml`.
pub fn extract_cargo_version(install_keys: Option<&Vec<String>>, crates_toml: Option<&str>, package: &str) -> (r: String)
    ensures
        r@ == cargo_version_of(
            match install_keys { Some(ks) => Some(ks.deep_view()), None => None },
            crate::text::opt_str_view(crates_toml),
            package@,
        ),
{
    let p = chars_of(package);
    match install_keys {
        Some(ks) => {
            let ghost all = ks.deep_view();
            let ghost f = |k: Seq<char>| crates2_key_version(k, package@);
            let mut i: usize = 0;
            assert(all.skip(0) =~= all);
            while i < ks.len()
                invariant
                    i <= ks.len(),
                    all == ks.deep_view(),
                    install_keys == Some(ks),
                    p@ == package@,
                    f == (|k: Seq<char>| crates2_key_version(k, package@)),
                    first_some(all, f) == first_some(all.skip(i as int), f),
                decreases ks.len() - i,
            {
                let ghost rest = all.skip(i as int);
                assert(rest[0] == ks@[i as int]@);
                assert(rest.drop_first() =~= all.skip(i + 1));
                let k = chars_of(ks[i].as_str());
                if starts_with_exec(k.as_slice(), p.as_slice()) {
                    let ws = split_ws_exec(k.as_slice());
                    if ws.len() >= 2 {
                        assert(ws.deep_view()[1] == ws@[1]@);
                        return string_of(ws[1].as_slice());
                    }
                }
                i = i + 1;
            }
        },
        None => {},
    }
    match crates_toml {
        Some(text) => {
            let quote = chars_of("\"");
            let version = chars_of("version");
            let t = chars_of(text);
            let ls = lines_exec(t.as_slice());
            let ghost all = ls.deep_view();
            let ghost f = |l: Seq<char>| crates_toml_line_version(l);
            let mut i: usize = 0;
            assert(all.skip(0) =~= all);
            while i < ls.len()
                invariant
                    i <= ls.len(),
                    all == ls.deep_view(),
                    all == lines(text@),
                    crates_toml == Some(text),
                    quote@ == "\""@,
                    version@ == "version"@,
                    f == (|l: Seq<char>| crates_toml_line_version(l)),
                    first_some(all, f) == first_some(all.skip(i as int), f),
                    first_some(match install_keys { Some(ks) => ks.deep_view(), None => Seq::empty() }, |k: Seq<char>| crates2_key_version(k, package@)) is None,
                decreases ls.len() - i,
            {
                let ghost rest = all.skip(i as int);
                assert(rest[0] == ls@[i as int]@);
                assert(rest.drop_first() =~= all.skip(i + 1));
                let l = trim_slice(ls[i].as_slice());
                if starts_with_exec(l, version.as_slice()) {
                    match second_piece_exec(l, quote.as_slice()) {
                        Some(v) => {
                            return string_of(v);
                        },
                        None => {},
                    }
                }
                i = i + 1;
            }
        },
        None => {},
    }
    "0.0.0".to_string()
}

/// The `cargo install` argument: `package` or `package@version`.
pub fn cargo_install_spec(package: &str, version: &str) -> (r: String)
    ensures
        r@ == (if trim(version@).len() == 0 { package@ } else { package@ + "@"@ + version@ }),
{
    let v = chars_of(version);
    let mut s = package.to_string();
    if trim_slice(v.as_slice()).len() > 0 {
        s.append("@");
        s.append(version);
    }
    s
}

} // verus!
