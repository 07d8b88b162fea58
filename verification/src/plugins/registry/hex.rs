//! The `hex` registry source.
use vstd::prelude::*;

use super::RegistrySource;
use crate::plugins::plugin::Plugin;
use crate::text::{
    chars_of, contains_exec, contains_str, first_some, lines, lines_exec, seq_eq, split_class,
    split_class_exec, string_of, trim, trim_slice,
};

verus! {

/// Fetches packages from the `hex` registry.
pub struct HexRegistrySource;

impl Plugin for HexRegistrySource {
    open spec fn spec_name(&self) -> Seq<char> {
        "hex"@
    }

    fn name(&self) -> (r: &'static str) {
        "hex"
    }

    open spec fn spec_description(&self) -> Seq<char> {
        "Hex (Elixir/Erlang) \u{2014} mix deps.get + stage"@
    }

    fn description(&self) -> (r: &'static str) {
        "Hex (Elixir/Erlang) \u{2014} mix deps.get + stage"
    }
}

impl RegistrySource for HexRegistrySource {
    fn required_tools(&self) -> (r: Vec<&'static str>)
        ensures
            r.deep_view() == seq!["mix"@, "elixir"@],
    {
        let r = vec!["mix", "elixir"];
        assert(r.deep_view() =~= seq!["mix"@, "elixir"@]);
        r
    }
}

/// After the first `package` among the `"`-separated pieces that has two
/// pieces after it, the second of those, trimmed.
pub open spec fn mix_lock_piece(parts: Seq<Seq<char>>, package: Seq<char>) -> Option<Seq<char>>
    decreases parts.len(),
{
    if parts.len() == 0 {
        None
    } else if parts[0] == package && 2 < parts.len() {
        Some(trim(parts[2]))
    } else {
        mix_lock_piece(parts.drop_first(), package)
    }
}

/// The version `mix.lock` records for `package`: on the first line naming
/// the package whose quoted pieces hold it followed by a version.
pub open spec fn mix_lock_line(line: Seq<char>, package: Seq<char>) -> Option<Seq<char>> {
    if contains_str(line, package) {
        mix_lock_piece(split_class(line, false, seq!['"']), package)
    } else {
        None
    }
}

/// The installed version of a Hex package, from the text of `mix.lock`
/// (when present); `0.0.0` when it records none.
pub open spec fn hex_version_of(lock: Option<Seq<char>>, package: Seq<char>) -> Seq<char> {
    match lock {
        Some(t) => match first_some(lines(t), |l: Seq<char>| mix_lock_line(l, package)) {
            Some(v) => v,
            None => "0.0.0"@,
        },
        None => "0.0.0"@,
    }
}

/// Reads the installed version of a Hex package from `mix.lock`.
pub fn hex_version(lock: Option<&str>, package: &str) -> (r: String)
    ensures
        r@ == hex_version_of(crate::text::opt_str_view(lock), package@),
{
    let text = match lock {
        Some(t) => t,
        None => {
            return "0.0.0".to_string();
        },
    };
    let p = chars_of(package);
    let quote: Vec<char> = vec!['"'];
    assert(quote@ =~= seq!['"']);
    let t = chars_of(text);
    let ls = lines_exec(t.as_slice());
    let ghost all = ls.deep_view();
    let ghost f = |l: Seq<char>| mix_lock_line(l, package@);
    let mut i: usize = 0;
    assert(all.skip(0) =~= all);
    while i < ls.len()
        invariant
            i <= ls.len(),
            all == ls.deep_view(),
            all == lines(text@),
            lock == Some(text),
            p@ == package@,
            quote@ == seq!['"'],
            f == (|l: Seq<char>| mix_lock_line(l, package@)),
            first_some(all, f) == first_some(all.skip(i as int), f),
        decreases ls.len() - i,
    {
        let ghost rest = all.skip(i as int);
        assert(rest[0] == ls@[i as int]@);
        assert(rest.drop_first() =~= all.skip(i + 1));
        let line = ls[i].as_slice();
        assert(f(rest[0]) == mix_lock_line(rest[0], package@));
        if contains_exec(line, p.as_slice()) {
            let parts = split_class_exec(line, false, quote.as_slice());
            let ghost ps = parts.deep_view();
            let mut j: usize = 0;
            assert(ps.skip(0) =~= ps);
            while j < parts.len()
                invariant
                    j <= parts.len(),
                    ps == parts.deep_view(),
                    ps == split_class(rest[0], false, seq!['"']),
                    rest == all.skip(i as int),
                    rest.len() > 0,
                    contains_str(rest[0], package@),
                    f == (|l: Seq<char>| mix_lock_line(l, package@)),
                    first_some(all, f) == first_some(rest, f),
                    all == lines(text@),
                    lock == Some(text),
                    p@ == package@,
                    mix_lock_piece(ps, package@) == mix_lock_piece(ps.skip(j as int), package@),
                decreases parts.len() - j,
            {
                let ghost pr = ps.skip(j as int);
                assert(pr[0] == parts@[j as int]@);
                assert(pr.drop_first() =~= ps.skip(j + 1));
                if seq_eq(parts[j].as_slice(), p.as_slice()) && parts.len() - j > 2 {
                    assert(pr[2] == parts@[j + 2]@);
                    assert(mix_lock_piece(pr, package@) == Some(trim(pr[2])));
                    assert(f(rest[0]) == Some(trim(pr[2])));
                    assert(crate::text::opt_str_view(lock) == Some(text@));
                    return string_of(trim_slice(parts[j + 2].as_slice()));
                }
                j = j + 1;
            }
        }
        i = i + 1;
    }
    "0.0.0".to_string()
}

/// Whether a `deps/` directory name is the package (an `_` in it standing
/// for a `-` of the package name).
pub open spec fn hex_dir_matches(name: Seq<char>, package: Seq<char>) -> bool {
    name == package || crate::text::replace_char(name, '_', "-"@) == package
}

/// Whether the `deps/` directory `name` holds `package`.
pub fn hex_dir_is(name: &str, package: &str) -> (r: bool)
    ensures
        r == hex_dir_matches(name@, package@),
{
    let n = chars_of(name);
    let p = chars_of(package);
    if seq_eq(n.as_slice(), p.as_slice()) {
        return true;
    }
    let dash = chars_of("-");
    let replaced = crate::text::replace_char_exec(n.as_slice(), '_', dash.as_slice());
    seq_eq(replaced.as_slice(), p.as_slice())
}

} // verus!
