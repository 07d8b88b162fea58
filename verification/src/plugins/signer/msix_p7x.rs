//! Native MSIX signing: the packager embeds `AppxSignature.p7x`.
use vstd::prelude::*;

use super::Signer;
use crate::plugins::plugin::Plugin;
use crate::text::{chars_of, eq_ignore_case, to_lower};

verus! {

/// Native MSIX signing: the packager embeds `AppxSignature.p7x`.
pub struct MsixP7x;

impl Plugin for MsixP7x {
    open spec fn spec_name(&self) -> Seq<char> {
        "msix-p7x"@
    }

    fn name(&self) -> (r: &'static str) {
        "msix-p7x"
    }

    open spec fn spec_description(&self) -> Seq<char> {
        "Native MSIX AppxSignature.p7x (embedded by the packager)"@
    }

    fn description(&self) -> (r: &'static str) {
        "Native MSIX AppxSignature.p7x (embedded by the packager)"
    }
}

impl Signer for MsixP7x {
    open spec fn supports_spec(&self, format: Seq<char>, method: Seq<char>) -> bool {
        to_lower(format) == to_lower("msix"@)
    }

    fn supports(&self, format: &str, method: &str) -> (r: bool) {
        eq_ignore_case(chars_of(format).as_slice(), chars_of("msix").as_slice())
    }

    open spec fn embedded_spec(&self) -> bool {
        true
    }

    fn embedded(&self) -> (r: bool) {
        true
    }
}

} // verus!
