//! Alpine apk v2 signing: an RSA/SHA-1 signature over the control segment, written by the packager as a `.SIGN.RSA.<keyname>` member.
use vstd::prelude::*;

use super::Signer;
use crate::plugins::plugin::Plugin;
use crate::text::{chars_of, eq_ignore_case, to_lower};

verus! {

/// Alpine apk v2 signing: an RSA/SHA-1 signature over the control segment, written by the packager as a `.SIGN.RSA.<keyname>` member.
pub struct ApkRsa;

impl Plugin for ApkRsa {
    open spec fn spec_name(&self) -> Seq<char> {
        "apk-rsa"@
    }

    fn name(&self) -> (r: &'static str) {
        "apk-rsa"
    }

    open spec fn spec_description(&self) -> Seq<char> {
        "Alpine apk v2 RSA/SHA-1 signature (`.SIGN.RSA.<keyname>`, in-process)"@
    }

    fn description(&self) -> (r: &'static str) {
        "Alpine apk v2 RSA/SHA-1 signature (`.SIGN.RSA.<keyname>`, in-process)"
    }
}

impl Signer for ApkRsa {
    open spec fn supports_spec(&self, format: Seq<char>, method: Seq<char>) -> bool {
        to_lower(format) == to_lower("apk"@)
    }

    fn supports(&self, format: &str, method: &str) -> (r: bool) {
        eq_ignore_case(chars_of(format).as_slice(), chars_of("apk").as_slice())
    }

    open spec fn embedded_spec(&self) -> bool {
        true
    }

    fn embedded(&self) -> (r: bool) {
        true
    }
}

} // verus!
