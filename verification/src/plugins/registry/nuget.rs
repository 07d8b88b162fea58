//! The `nuget` registry source.
use vstd::prelude::*;

use super::RegistrySource;
use crate::plugins::plugin::Plugin;
use crate::text::{
    chars_of, ends_with, ends_with_exec, first_some, lines, lines_exec, starts_with,
    starts_with_exec, string_of, strip_prefix_all, strip_prefix_all_exec, strip_suffix_all,
    strip_suffix_all_exec, trim, trim_slice,
};

verus! {

/// Fetches packages from the `nuget` registry.
pub struct NugetRegistrySource;

impl Plugin for NugetRegistrySource {
    open spec fn spec_name(&self) -> Seq<char> {
        "nuget"@
    }

    fn name(&self) -> (r: &'static str) {
        "nuget"
    }

    open spec fn spec_description(&self) -> Seq<char> {
        "NuGet (.NET) \u{2014} nuget install + extract"@
    }

    fn description(&self) -> (r: &'static str) {
        "NuGet (.NET) \u{2014} nuget install + extract"
    }
}

impl RegistrySource for NugetRegistrySource {
    fn required_tools(&self) -> (r: Vec<&'static str>)
        ensures
            r.deep_view() == seq!["nuget"@],
    {
        let r = vec!["nuget"];
        assert(r.deep_view() =~= seq!["nuget"@]);
        r
    }
}

/// The version a `.nuspec` line gives: a trimmed line that is
/// `<version>...</version>`.
pub open spec fn nuspec_line_version(line: Seq<char>) -> Option<Seq<char>> {
    let t = trim(line);
    if starts_with(t, "<version>"@) && ends_with(t, "</version>"@) {
        Some(trim(strip_suffix_all(strip_prefix_all(t, "<version>"@), "</version>"@)))
    } else {
        None
    }
}

/// The version a `.nuspec` file declares, if any.
pub fn nuspec_version(text: &str) -> (r: Option<String>)
    ensures
        crate::text::opt_view(r) == first_some(lines(text@), |l: Seq<char>| nuspec_line_version(l)),
{
    let open_tag = chars_of("<version>");
    let close_tag = chars_of("</version>");
    let t = chars_of(text);
    let ls = lines_exec(t.as_slice());
    let ghost all = ls.deep_view();
    let ghost f = |l: Seq<char>| nuspec_line_version(l);
    let mut i: usize = 0;
    assert(all.skip(0) =~= all);
    while i < ls.len()
        invariant
            i <= ls.len(),
            all == ls.deep_view(),
            all == lines(text@),
            open_tag@ == "<version>"@,
            close_tag@ == "</version>"@,
            f == (|l: Seq<char>| nuspec_line_version(l)),
            first_some(all, f) == first_some(all.skip(i as int), f),
        decreases ls.len() - i,
    {
        let ghost rest = all.skip(i as int);
        assert(rest[0] == ls@[i as int]@);
        assert(rest.drop_first() =~= all.skip(i + 1));
        let l = trim_slice(ls[i].as_slice());
        if starts_with_exec(l, open_tag.as_slice()) && ends_with_exec(l, close_tag.as_slice()) {
            let a = strip_prefix_all_exec(l, open_tag.as_slice());
            let b = strip_suffix_all_exec(a, close_tag.as_slice());
            return Some(string_of(trim_slice(b)));
        }
        i = i + 1;
    }
    None
}

} // verus!
