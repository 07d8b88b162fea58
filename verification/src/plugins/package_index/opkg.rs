//! The opkg `Packages` writer.
use vstd::prelude::*;

use super::{Capabilities, PackageIndex};
use crate::plugins::plugin::Plugin;

verus! {

/// opkg repository: `Packages` and `Packages.gz` built from each `.ipk`'s control file.
pub struct OpkgIndexer;

impl Plugin for OpkgIndexer {
    open spec fn spec_name(&self) -> Seq<char> {
        "opkg"@
    }

    fn name(&self) -> (r: &'static str) {
        "opkg"
    }

    open spec fn spec_description(&self) -> Seq<char> {
        "opkg repository (Packages, Packages.gz)"@
    }

    fn description(&self) -> (r: &'static str) {
        "opkg repository (Packages, Packages.gz)"
    }
}

impl PackageIndex for OpkgIndexer {
    open spec fn spec_capabilities(&self) -> u8 {
        2
    }

    fn capabilities(&self) -> (c: Capabilities) {
        Capabilities::write()
    }

    open spec fn spec_extension(&self) -> Option<Seq<char>> {
        Some("ipk"@)
    }

    fn file_extension(&self) -> (r: Option<&'static str>) {
        Some("ipk")
    }
}

} // verus!
