//! The `composer` registry source.
use vstd::prelude::*;

use super::RegistrySource;
use crate::plugins::plugin::Plugin;
use crate::text::{after_last, after_last_exec, chars_of, seq_eq, string_of, strip_start};

verus! {

/// Fetches packages from the `composer` registry.
pub struct ComposerRegistrySource;

impl Plugin for ComposerRegistrySource {
    open spec fn spec_name(&self) -> Seq<char> {
        "composer"@
    }

    fn name(&self) -> (r: &'static str) {
        "composer"
    }

    open spec fn spec_description(&self) -> Seq<char> {
        "Composer (PHP) \u{2014} composer install + extract"@
    }

    fn description(&self) -> (r: &'static str) {
        "Composer (PHP) \u{2014} composer install + extract"
    }
}

impl RegistrySource for ComposerRegistrySource {
    fn required_tools(&self) -> (r: Vec<&'static str>)
        ensures
            r.deep_view() == seq!["composer"@],
    {
        let r = vec!["composer"];
        assert(r.deep_view() =~= seq!["composer"@]);
        r
    }
}

/// The directory name composer installs `vendor/name` under: the text after
/// the last `/`.
pub open spec fn composer_package_dir(package: Seq<char>) -> Seq<char> {
    after_last(package, "/"@)
}

/// The directory name composer installs a package under.
pub fn composer_dir_name(package: &str) -> (r: String)
    ensures
        r@ == composer_package_dir(package@),
{
    let p = chars_of(package);
    string_of(after_last_exec(p.as_slice(), chars_of("/").as_slice()))
}

/// The version of `package` among `composer.lock` entries: the first entry
/// named so that has a version, without its leading `v`s.
pub open spec fn lock_entry_version(
    entries: Seq<(Option<Seq<char>>, Option<Seq<char>>)>,
    package: Seq<char>,
) -> Option<Seq<char>>
    decreases entries.len(),
{
    if entries.len() == 0 {
        None
    } else {
        match entries[0] {
            (Some(n), Some(v)) if n == package => Some(strip_start(v, false, seq!['v'])),
            _ => lock_entry_version(entries.drop_first(), package),
        }
    }
}

/// The installed version of a composer package from `composer.lock`
/// (when present): its `packages`, then its `packages-dev`; `0.0.0` when the
/// lock is not JSON or lists no version for it.
pub open spec fn composer_version_of(lock: Option<Seq<char>>, package: Seq<char>) -> Seq<char> {
    match lock {
        None => "0.0.0"@,
        Some(t) => match super::json::json_array_pairs_of(t, "packages"@, "name"@, "version"@) {
            None => "0.0.0"@,
            Some(main) => {
                let a = match main {
                    Some(es) => lock_entry_version(es, package),
                    None => None,
                };
                let b = match super::json::json_array_pairs_of(t, "packages-dev"@, "name"@, "version"@) {
                    Some(Some(es)) => lock_entry_version(es, package),
                    _ => None,
                };
                if a is Some {
                    a->0
                } else if b is Some {
                    b->0
                } else {
                    "0.0.0"@
                }
            },
        },
    }
}

fn lock_entry_version_exec(entries: &Vec<(Option<String>, Option<String>)>, package: &str) -> (r: Option<String>)
    ensures
        crate::text::opt_view(r) == lock_entry_version(super::json::opt_pair_views(entries@), package@),
{
    let ghost es = super::json::opt_pair_views(entries@);
    let p = chars_of(package);
    let v_set: Vec<char> = vec!['v'];
    assert(v_set@ =~= seq!['v']);
    let mut i: usize = 0;
    assert(es.skip(0) =~= es);
    while i < entries.len()
        invariant
            i <= entries.len(),
            es == super::json::opt_pair_views(entries@),
            p@ == package@,
            v_set@ == seq!['v'],
            lock_entry_version(es, package@) == lock_entry_version(es.skip(i as int), package@),
        decreases entries.len() - i,
    {
        let ghost rest = es.skip(i as int);
        assert(rest[0] == (crate::text::opt_view(entries@[i as int].0), crate::text::opt_view(entries@[i as int].1)));
        assert(rest.drop_first() =~= es.skip(i + 1));
        match (&entries[i].0, &entries[i].1) {
            (Some(n), Some(v)) => {
                if seq_eq(chars_of(n.as_str()).as_slice(), p.as_slice()) {
                    let vc = chars_of(v.as_str());
                    return Some(string_of(crate::text::strip_start_slice(vc.as_slice(), false, v_set.as_slice())));
                }
            },
            _ => {},
        }
        i = i + 1;
    }
    None
}

/// Reads the installed version of a composer package from `composer.lock`.
pub fn extract_composer_version(lock: Option<&str>, package: &str) -> (r: String)
    ensures
        r@ == composer_version_of(crate::text::opt_str_view(lock), package@),
{
    let text = match lock {
        Some(t) => t,
        None => {
            return "0.0.0".to_string();
        },
    };
    let main = match super::json::json_array_pairs(text, "packages", "name", "version") {
        Some(m) => m,
        None => {
            return "0.0.0".to_string();
        },
    };
    match &main {
        Some(es) => match lock_entry_version_exec(es, package) {
            Some(v) => {
                return v;
            },
            None => {},
        },
        None => {},
    }
    match super::json::json_array_pairs(text, "packages-dev", "name", "version") {
        Some(Some(es)) => match lock_entry_version_exec(&es, package) {
            Some(v) => v,
            None => "0.0.0".to_string(),
        },
        _ => "0.0.0".to_string(),
    }
}

} // verus!
