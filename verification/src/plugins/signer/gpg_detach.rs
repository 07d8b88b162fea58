//! Detached OpenPGP signatures via `gpg --detach-sign`.
use vstd::prelude::*;

use super::Signer;
use crate::plugins::plugin::Plugin;
use crate::text::{chars_of, eq_ignore_case, lower_vec, seq_eq, to_lower};

verus! {

/// Detached OpenPGP signature via `gpg --detach-sign`, written as a sibling
/// `<artifact>.sig`. Works for deb, rpm, arch, apk and ipk alike; it is not
/// offered for `msix`/`osxpkg`, whose formats carry native signatures.
pub struct GpgDetach;

impl Plugin for GpgDetach {
    open spec fn spec_name(&self) -> Seq<char> {
        "gpg-detach"@
    }

    fn name(&self) -> (r: &'static str) {
        "gpg-detach"
    }

    open spec fn spec_description(&self) -> Seq<char> {
        "Detached OpenPGP signature (gpg --detach-sign \u{2192} <artifact>.sig)"@
    }

    fn description(&self) -> (r: &'static str) {
        "Detached OpenPGP signature (gpg --detach-sign \u{2192} <artifact>.sig)"
    }
}

/// Formats with a native signature, never signed detached.
pub open spec fn natively_signed(lower_format: Seq<char>) -> bool {
    lower_format == "msix"@ || lower_format == "osxpkg"@ || lower_format == "pkg"@
}

impl Signer for GpgDetach {
    open spec fn supports_spec(&self, format: Seq<char>, method: Seq<char>) -> bool {
        to_lower(method) == to_lower("detach"@) && !natively_signed(to_lower(format))
    }

    fn supports(&self, format: &str, method: &str) -> (r: bool) {
        if !eq_ignore_case(chars_of(method).as_slice(), chars_of("detach").as_slice()) {
            return false;
        }
        let f = lower_vec(chars_of(format).as_slice());
        let native = seq_eq(f.as_slice(), chars_of("msix").as_slice()) || seq_eq(
            f.as_slice(),
            chars_of("osxpkg").as_slice(),
        ) || seq_eq(f.as_slice(), chars_of("pkg").as_slice());
        !native
    }

    open spec fn embedded_spec(&self) -> bool {
        false
    }

    fn embedded(&self) -> (r: bool) {
        false
    }
}

} // verus!
