//! The `dart` registry source.
use vstd::prelude::*;

use super::RegistrySource;
use crate::plugins::plugin::Plugin;
use crate::text::{
    chars_of, contains_exec, contains_str, lines, lines_exec, seq_eq, starts_with,
    starts_with_exec, string_of, strip, strip_prefix_all, strip_prefix_all_exec, trim, trim_char,
    trim_slice,
};

verus! {

/// Fetches packages from the `dart` registry.
pub struct DartRegistrySource;

impl Plugin for DartRegistrySource {
    open spec fn spec_name(&self) -> Seq<char> {
        "dart"@
    }

    fn name(&self) -> (r: &'static str) {
        "dart"
    }

    open spec fn spec_description(&self) -> Seq<char> {
        "pub.dev (Dart/Flutter) \u{2014} dart pub cache add + stage"@
    }

    fn description(&self) -> (r: &'static str) {
        "pub.dev (Dart/Flutter) \u{2014} dart pub cache add + stage"
    }
}

impl RegistrySource for DartRegistrySource {
    fn required_tools(&self) -> (r: Vec<&'static str>)
        ensures
            r.deep_view() == seq!["dart"@],
    {
        let r = vec!["dart"];
        assert(r.deep_view() =~= seq!["dart"@]);
        r
    }
}

/// The version `pubspec.lock` gives for the package whose entry line is
/// `key` (`  <package>:`), reading from `in_package` on: lines are trimmed
/// first, the entry's `version:` value is unquoted, and any other non-blank
/// line ends the entry.
pub open spec fn pubspec_lock_version(ls: Seq<Seq<char>>, key: Seq<char>, in_package: bool) -> Option<Seq<char>>
    decreases ls.len(),
{
    if ls.len() == 0 {
        None
    } else {
        let t = trim(ls[0]);
        if starts_with(t, key) {
            pubspec_lock_version(ls.drop_first(), key, true)
        } else if in_package && starts_with(t, "version:"@) {
            Some(strip(trim(strip_prefix_all(t, "version:"@)), false, seq!['"']))
        } else if in_package && t.len() > 0 {
            pubspec_lock_version(ls.drop_first(), key, false)
        } else {
            pubspec_lock_version(ls.drop_first(), key, in_package)
        }
    }
}

/// The installed version of a Dart package, from the text of
/// `pubspec.lock` (when present); `0.0.0` when it records none.
pub open spec fn dart_version_of(lock: Option<Seq<char>>, package: Seq<char>) -> Seq<char> {
    match lock {
        Some(t) => match pubspec_lock_version(lines(t), "  "@ + package + ":"@, false) {
            Some(v) => v,
            None => "0.0.0"@,
        },
        None => "0.0.0"@,
    }
}

/// Reads the installed version of a Dart package from `pubspec.lock`.
pub fn dart_version(lock: Option<&str>, package: &str) -> (r: String)
    ensures
        r@ == dart_version_of(crate::text::opt_str_view(lock), package@),
{
    let text = match lock {
        Some(t) => t,
        None => {
            return "0.0.0".to_string();
        },
    };
    let mut key = chars_of("  ");
    crate::text::append_chars(&mut key, chars_of(package).as_slice());
    key.push(':');
    proof {
        reveal_strlit(":");
    }
    assert(key@ =~= "  "@ + package@ + ":"@);
    let vkey = chars_of("version:");
    let t = chars_of(text);
    let ls = lines_exec(t.as_slice());
    let ghost all = ls.deep_view();
    let mut in_package = false;
    let mut i: usize = 0;
    assert(all.skip(0) =~= all);
    while i < ls.len()
        invariant
            i <= ls.len(),
            all == ls.deep_view(),
            all == lines(text@),
            lock == Some(text),
            key@ == "  "@ + package@ + ":"@,
            vkey@ == "version:"@,
            pubspec_lock_version(all, key@, false) == pubspec_lock_version(all.skip(i as int), key@, in_package),
        decreases ls.len() - i,
    {
        let ghost rest = all.skip(i as int);
        assert(rest[0] == ls@[i as int]@);
        assert(rest.drop_first() =~= all.skip(i + 1));
        let l = trim_slice(ls[i].as_slice());
        if starts_with_exec(l, key.as_slice()) {
            in_package = true;
        } else if in_package && starts_with_exec(l, vkey.as_slice()) {
            let v = trim_slice(strip_prefix_all_exec(l, vkey.as_slice()));
            let w = trim_char(v, '"');
            assert(pubspec_lock_version(rest, key@, in_package) == Some(w@));
            assert(crate::text::opt_str_view(lock) == Some(text@));
            return string_of(w);
        } else if in_package && l.len() > 0 {
            in_package = false;
        }
        i = i + 1;
    }
    "0.0.0".to_string()
}

/// Whether a pub cache directory holds `package` at `version` (`any`
/// accepting every version).
pub open spec fn dart_cache_matches(name: Seq<char>, package: Seq<char>, version: Seq<char>) -> bool {
    starts_with(name, package + "-"@) && (version == "any"@ || contains_str(name, "-"@ + version))
}

/// Whether the pub cache directory `name` holds `package` at `version`.
pub fn dart_cache_is(name: &str, package: &str, version: &str) -> (r: bool)
    ensures
        r == dart_cache_matches(name@, package@, version@),
{
    let n = chars_of(name);
    let mut prefix = chars_of(package);
    prefix.push('-');
    let mut dashed = chars_of("-");
    crate::text::append_chars(&mut dashed, chars_of(version).as_slice());
    proof {
        reveal_strlit("-");
    }
    assert(prefix@ =~= package@ + "-"@);
    starts_with_exec(n.as_slice(), prefix.as_slice()) && (seq_eq(chars_of(version).as_slice(), chars_of("any").as_slice())
        || contains_exec(n.as_slice(), dashed.as_slice()))
}

} // verus!
