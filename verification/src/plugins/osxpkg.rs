//! macOS flat packages (`.pkg`).
use vstd::prelude::*;

use crate::plugins::plugin::Plugin;
use crate::plugins::{dash_glob_exec, dash_glob, Packager};

verus! {

/// The macOS flat-package packager.
pub struct OsxPkgPackager;

impl Plugin for OsxPkgPackager {
    open spec fn spec_name(&self) -> Seq<char> {
        "osxpkg"@
    }

    fn name(&self) -> (r: &'static str) {
        "osxpkg"
    }

    open spec fn spec_description(&self) -> Seq<char> {
        "macOS flat package (.pkg) \u{2014} xar + cpio payload (unsigned)"@
    }

    fn description(&self) -> (r: &'static str) {
        "macOS flat package (.pkg) \u{2014} xar + cpio payload (unsigned)"
    }
}

impl Packager for OsxPkgPackager {
    open spec fn spec_extension(&self) -> Seq<char> {
        "pkg"@
    }

    fn file_extension(&self) -> (r: &'static str) {
        "pkg"
    }

    fn arch_supported_for_dist(&self, arch: &str, dist: &str) -> (b: bool)
        ensures
            b,
    {
        true
    }

    fn artifact_glob(&self, package: &str) -> (r: String)
        ensures
            r@ == dash_glob(package@, "pkg"@),
    {
        dash_glob_exec(package, "pkg")
    }
}

} // verus!
