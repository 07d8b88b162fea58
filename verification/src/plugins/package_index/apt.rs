//! The apt repository writer (`Packages`, `Release`, `InRelease`).
use vstd::prelude::*;

use super::{Capabilities, PackageIndex};
use crate::plugins::plugin::Plugin;

verus! {

/// Debian/Ubuntu apt repository: `Packages`, `Packages.gz`, `Release`, and a clearsigned `InRelease` when a key is given.
pub struct AptIndexer;

impl Plugin for AptIndexer {
    open spec fn spec_name(&self) -> Seq<char> {
        "apt"@
    }

    fn name(&self) -> (r: &'static str) {
        "apt"
    }

    open spec fn spec_description(&self) -> Seq<char> {
        "apt repository (Packages, Packages.gz, Release, InRelease)"@
    }

    fn description(&self) -> (r: &'static str) {
        "apt repository (Packages, Packages.gz, Release, InRelease)"
    }
}

impl PackageIndex for AptIndexer {
    open spec fn spec_capabilities(&self) -> u8 {
        2
    }

    fn capabilities(&self) -> (c: Capabilities) {
        Capabilities::write()
    }

    open spec fn spec_extension(&self) -> Option<Seq<char>> {
        Some("deb"@)
    }

    fn file_extension(&self) -> (r: Option<&'static str>) {
        Some("deb")
    }
}

} // verus!
