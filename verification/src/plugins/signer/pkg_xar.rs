//! Native macOS flat-package (`.pkg`) signing: a `Signature` member over
//! the xar archive checksum, embedding the X.509 certificate chain.
use vstd::prelude::*;

use super::Signer;
use crate::plugins::plugin::Plugin;
use crate::text::{chars_of, lower_vec, seq_eq, to_lower, trim, trim_slice};

verus! {

/// Native macOS flat-package signature via apple-xar.
pub struct PkgXar;

impl Plugin for PkgXar {
    open spec fn spec_name(&self) -> Seq<char> {
        "pkg-xar"@
    }

    fn name(&self) -> (r: &'static str) {
        "pkg-xar"
    }

    open spec fn spec_description(&self) -> Seq<char> {
        "Native macOS flat-package (xar) signature via apple-xar"@
    }

    fn description(&self) -> (r: &'static str) {
        "Native macOS flat-package (xar) signature via apple-xar"
    }
}

impl Signer for PkgXar {
    /// Only the `osxpkg` format (any case, surrounding whitespace ignored).
    open spec fn supports_spec(&self, format: Seq<char>, method: Seq<char>) -> bool {
        to_lower(trim(format)) == "osxpkg"@
    }

    fn supports(&self, format: &str, method: &str) -> (r: bool) {
        let raw = chars_of(format);
        let f = lower_vec(trim_slice(raw.as_slice()));
        seq_eq(f.as_slice(), chars_of("osxpkg").as_slice())
    }

    open spec fn embedded_spec(&self) -> bool {
        false
    }

    fn embedded(&self) -> (r: bool) {
        false
    }
}

} // verus!
