//! Embedded `.deb` signing (`_gpg{role}` ar member), written by the deb packager while it builds the ar container.
use vstd::prelude::*;

use super::Signer;
use crate::plugins::plugin::Plugin;
use crate::text::{chars_of, eq_ignore_case, to_lower};

verus! {

/// Embedded `.deb` signing (`_gpg{role}` ar member), written by the deb packager while it builds the ar container.
pub struct DebDebsign;

impl Plugin for DebDebsign {
    open spec fn spec_name(&self) -> Seq<char> {
        "deb-debsign"@
    }

    fn name(&self) -> (r: &'static str) {
        "deb-debsign"
    }

    open spec fn spec_description(&self) -> Seq<char> {
        "Embedded `.deb` signature (`_gpg{origin,maint,archive}` ar member)"@
    }

    fn description(&self) -> (r: &'static str) {
        "Embedded `.deb` signature (`_gpg{origin,maint,archive}` ar member)"
    }
}

impl Signer for DebDebsign {
    open spec fn supports_spec(&self, format: Seq<char>, method: Seq<char>) -> bool {
        to_lower(format) == to_lower("deb"@) && to_lower(method) == to_lower("debsign"@)
    }

    fn supports(&self, format: &str, method: &str) -> (r: bool) {
        eq_ignore_case(chars_of(format).as_slice(), chars_of("deb").as_slice()) && eq_ignore_case(chars_of(method).as_slice(), chars_of("debsign").as_slice())
    }

    open spec fn embedded_spec(&self) -> bool {
        true
    }

    fn embedded(&self) -> (r: bool) {
        true
    }
}

} // verus!
