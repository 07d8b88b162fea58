//! Embedded RPM PGP signature: the rpm builder writes it into the package header, so this backend declares how RPM signing works rather than adding a post-build step.
use vstd::prelude::*;

use super::Signer;
use crate::plugins::plugin::Plugin;
use crate::text::{chars_of, eq_ignore_case, to_lower};

verus! {

/// Embedded RPM PGP signature: the rpm builder writes it into the package header, so this backend declares how RPM signing works rather than adding a post-build step.
pub struct RpmPgp;

impl Plugin for RpmPgp {
    open spec fn spec_name(&self) -> Seq<char> {
        "rpm-pgp"@
    }

    fn name(&self) -> (r: &'static str) {
        "rpm-pgp"
    }

    open spec fn spec_description(&self) -> Seq<char> {
        "Embedded RPM PGP signature (written into the package header)"@
    }

    fn description(&self) -> (r: &'static str) {
        "Embedded RPM PGP signature (written into the package header)"
    }
}

impl Signer for RpmPgp {
    open spec fn supports_spec(&self, format: Seq<char>, method: Seq<char>) -> bool {
        to_lower(format) == to_lower("rpm"@)
    }

    fn supports(&self, format: &str, method: &str) -> (r: bool) {
        eq_ignore_case(chars_of(format).as_slice(), chars_of("rpm").as_slice())
    }

    open spec fn embedded_spec(&self) -> bool {
        true
    }

    fn embedded(&self) -> (r: bool) {
        true
    }
}

} // verus!
