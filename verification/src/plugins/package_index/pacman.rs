//! The pacman `<repo>.db.tar.gz` writer.
use vstd::prelude::*;

use super::{Capabilities, PackageIndex};
use crate::plugins::plugin::Plugin;

verus! {

/// pacman repository: `<repo>.db.tar.gz` built from each package's `.PKGINFO`.
pub struct PacmanIndexer;

impl Plugin for PacmanIndexer {
    open spec fn spec_name(&self) -> Seq<char> {
        "pacman"@
    }

    fn name(&self) -> (r: &'static str) {
        "pacman"
    }

    open spec fn spec_description(&self) -> Seq<char> {
        "pacman repository (<repo>.db.tar.gz from .PKGINFO)"@
    }

    fn description(&self) -> (r: &'static str) {
        "pacman repository (<repo>.db.tar.gz from .PKGINFO)"
    }
}

impl PackageIndex for PacmanIndexer {
    open spec fn spec_capabilities(&self) -> u8 {
        2
    }

    fn capabilities(&self) -> (c: Capabilities) {
        Capabilities::write()
    }

    open spec fn spec_extension(&self) -> Option<Seq<char>> {
        Some("zst"@)
    }

    fn file_extension(&self) -> (r: Option<&'static str>) {
        Some("zst")
    }
}

} // verus!
