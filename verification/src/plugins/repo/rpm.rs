//! RPM repository: `repodata/` metadata.
use vstd::prelude::*;

use super::RepoIndexer;

verus! {

/// RPM repository: `repodata/` metadata.
pub struct RpmIndexer;

impl RepoIndexer for RpmIndexer {
    open spec fn spec_name(&self) -> Seq<char> {
        "rpm"@
    }

    fn name(&self) -> (r: &'static str) {
        "rpm"
    }

    open spec fn spec_format(&self) -> Seq<char> {
        "rpm"@
    }

    fn format(&self) -> (r: &'static str) {
        "rpm"
    }

    open spec fn spec_description(&self) -> Seq<char> {
        "rpm repository (repodata/)"@
    }

    fn description(&self) -> (r: &'static str) {
        "rpm repository (repodata/)"
    }

    open spec fn spec_extension(&self) -> Seq<char> {
        "rpm"@
    }

    fn file_extension(&self) -> (r: &'static str) {
        "rpm"
    }
}

} // verus!
