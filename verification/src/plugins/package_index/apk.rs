//! The Alpine `APKINDEX.tar.gz` writer.
use vstd::prelude::*;

use super::{Capabilities, PackageIndex};
use crate::plugins::plugin::Plugin;

verus! {

/// Alpine apk repository: an `APKINDEX.tar.gz` archive built from each `.apk`'s `.PKGINFO`.
pub struct ApkIndexer;

impl Plugin for ApkIndexer {
    open spec fn spec_name(&self) -> Seq<char> {
        "apk"@
    }

    fn name(&self) -> (r: &'static str) {
        "apk"
    }

    open spec fn spec_description(&self) -> Seq<char> {
        "Alpine repository (APKINDEX.tar.gz from .PKGINFO; RSA-signed index)"@
    }

    fn description(&self) -> (r: &'static str) {
        "Alpine repository (APKINDEX.tar.gz from .PKGINFO; RSA-signed index)"
    }
}

impl PackageIndex for ApkIndexer {
    open spec fn spec_capabilities(&self) -> u8 {
        2
    }

    fn capabilities(&self) -> (c: Capabilities) {
        Capabilities::write()
    }

    open spec fn spec_extension(&self) -> Option<Seq<char>> {
        Some("apk"@)
    }

    fn file_extension(&self) -> (r: Option<&'static str>) {
        Some("apk")
    }
}

} // verus!
