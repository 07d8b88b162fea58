//! Alpine apk repository: `APKINDEX.tar.gz`.
use vstd::prelude::*;

use super::RepoIndexer;

verus! {

/// Alpine apk repository: `APKINDEX.tar.gz`.
pub struct ApkIndexer;

impl RepoIndexer for ApkIndexer {
    open spec fn spec_name(&self) -> Seq<char> {
        "apk"@
    }

    fn name(&self) -> (r: &'static str) {
        "apk"
    }

    open spec fn spec_format(&self) -> Seq<char> {
        "apk"@
    }

    fn format(&self) -> (r: &'static str) {
        "apk"
    }

    open spec fn spec_description(&self) -> Seq<char> {
        "apk repository (APKINDEX.tar.gz)"@
    }

    fn description(&self) -> (r: &'static str) {
        "apk repository (APKINDEX.tar.gz)"
    }

    open spec fn spec_extension(&self) -> Seq<char> {
        "apk"@
    }

    fn file_extension(&self) -> (r: &'static str) {
        "apk"
    }
}

} // verus!
