//! Debian/Ubuntu apt repository: `Packages`, `Packages.gz`, `Release`, and a clearsigned `InRelease` when a key is given.
use vstd::prelude::*;

use super::RepoIndexer;

verus! {

/// Debian/Ubuntu apt repository: `Packages`, `Packages.gz`, `Release`, and a clearsigned `InRelease` when a key is given.
pub struct AptIndexer;

impl RepoIndexer for AptIndexer {
    open spec fn spec_name(&self) -> Seq<char> {
        "apt"@
    }

    fn name(&self) -> (r: &'static str) {
        "apt"
    }

    open spec fn spec_format(&self) -> Seq<char> {
        "deb"@
    }

    fn format(&self) -> (r: &'static str) {
        "deb"
    }

    open spec fn spec_description(&self) -> Seq<char> {
        "apt repository (Packages, Packages.gz, Release, InRelease)"@
    }

    fn description(&self) -> (r: &'static str) {
        "apt repository (Packages, Packages.gz, Release, InRelease)"
    }

    open spec fn spec_extension(&self) -> Seq<char> {
        "deb"@
    }

    fn file_extension(&self) -> (r: &'static str) {
        "deb"
    }
}

} // verus!
