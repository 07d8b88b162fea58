//! RPM packages built in-process.
use vstd::prelude::*;

use crate::plugins::plugin::Plugin;
use crate::plugins::{dash_glob_exec, dash_glob, Packager};
use crate::text::{chars_of, trim, trim_slice};

verus! {

/// The RPM packager.
pub struct RpmPackager;

impl Plugin for RpmPackager {
    open spec fn spec_name(&self) -> Seq<char> {
        "rpm"@
    }

    fn name(&self) -> (r: &'static str) {
        "rpm"
    }

    open spec fn spec_description(&self) -> Seq<char> {
        "RPM package (.rpm) \u{2014} genuine RPM via lx_lib::rpmarchive"@
    }

    fn description(&self) -> (r: &'static str) {
        "RPM package (.rpm) \u{2014} genuine RPM via lx_lib::rpmarchive"
    }
}

impl Packager for RpmPackager {
    open spec fn spec_extension(&self) -> Seq<char> {
        "rpm"@
    }

    fn file_extension(&self) -> (r: &'static str) {
        "rpm"
    }

    fn arch_supported_for_dist(&self, arch: &str, dist: &str) -> (b: bool)
        ensures
            b,
    {
        true
    }

    fn artifact_glob(&self, package: &str) -> (r: String)
        ensures
            r@ == dash_glob(package@, "rpm"@),
    {
        dash_glob_exec(package, "rpm")
    }
}

/// Prefer `preferred` when it is not blank, else `fallback` (both are
/// script paths).
pub fn pick<'a>(preferred: &'a str, fallback: &'a str) -> (r: &'a str)
    ensures
        r@ == (if trim(preferred@).len() == 0 {
            fallback@
        } else {
            preferred@
        }),
{
    let p = chars_of(preferred);
    if trim_slice(p.as_slice()).len() == 0 {
        fallback
    } else {
        preferred
    }
}

} // verus!
