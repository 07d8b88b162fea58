//! Signing-backend plugins.
//!
//! Signing happens after the packager has produced an artifact. Two kinds of
//! backend exist: detached ones write a sibling signature file after the
//! build (`gpg-detach`); embedded ones describe a signature the packager
//! writes into the artifact while building it (`rpm-pgp`, `deb-debsign`).
//! [`signer_for`] is the single place that decides how a format is signed:
//! the first registered backend whose `supports` holds.
pub mod apk_rsa;
pub mod deb_debsign;
pub mod gpg_detach;
pub mod msix_p7x;
pub mod pkg_xar;
pub mod rpm_pgp;

use vstd::prelude::*;

use crate::plugins::plugin::{names_of, normalized, normalize, Plugin, PluginSet};
use crate::text::{chars_of, seq_eq};

verus! {

/// Everything a signer needs, resolved from config and CLI by the caller.
pub struct SignContext<'a> {
    pub key_file: &'a str,
    pub key_id: &'a str,
    pub passphrase: Option<&'a str>,
    /// debsign role (`origin` / `maint` / `archive`).
    pub sign_type: &'a str,
}

/// What a signer did (or that the packager already did it).
#[derive(Debug, PartialEq, Eq)]
pub enum SignOutcome {
    /// A detached signature was written next to the artifact, at this path.
    Detached(String),
    /// The artifact already carries an embedded signature.
    Embedded,
}

/// A signing backend.
pub trait Signer: Plugin {
    /// The `(format, method)` pairs this backend signs.
    spec fn supports_spec(&self, format: Seq<char>, method: Seq<char>) -> bool;

    /// True when this backend can sign `format` under `method`.
    fn supports(&self, format: &str, method: &str) -> (r: bool)
        ensures
            r == self.supports_spec(format@, method@),
    ;

    /// Whether the packager writes the signature while building.
    spec fn embedded_spec(&self) -> bool;

    /// True when the packager writes the signature into the artifact while
    /// building it (no post-build step).
    fn embedded(&self) -> (r: bool)
        ensures
            r == self.embedded_spec(),
    ;
}

/// Every signing backend.
pub enum SignerPlugin {
    RpmPgp(rpm_pgp::RpmPgp),
    DebDebsign(deb_debsign::DebDebsign),
    GpgDetach(gpg_detach::GpgDetach),
    ApkRsa(apk_rsa::ApkRsa),
    MsixP7x(msix_p7x::MsixP7x),
    PkgXar(pkg_xar::PkgXar),
}

impl Plugin for SignerPlugin {
    open spec fn spec_name(&self) -> Seq<char> {
        match self {
            SignerPlugin::RpmPgp(p) => p.spec_name(),
            SignerPlugin::DebDebsign(p) => p.spec_name(),
            SignerPlugin::GpgDetach(p) => p.spec_name(),
            SignerPlugin::ApkRsa(p) => p.spec_name(),
            SignerPlugin::MsixP7x(p) => p.spec_name(),
            SignerPlugin::PkgXar(p) => p.spec_name(),
        }
    }

    fn name(&self) -> (r: &'static str) {
        match self {
            SignerPlugin::RpmPgp(p) => p.name(),
            SignerPlugin::DebDebsign(p) => p.name(),
            SignerPlugin::GpgDetach(p) => p.name(),
            SignerPlugin::ApkRsa(p) => p.name(),
            SignerPlugin::MsixP7x(p) => p.name(),
            SignerPlugin::PkgXar(p) => p.name(),
        }
    }

    open spec fn spec_description(&self) -> Seq<char> {
        match self {
            SignerPlugin::RpmPgp(p) => p.spec_description(),
            SignerPlugin::DebDebsign(p) => p.spec_description(),
            SignerPlugin::GpgDetach(p) => p.spec_description(),
            SignerPlugin::ApkRsa(p) => p.spec_description(),
            SignerPlugin::MsixP7x(p) => p.spec_description(),
            SignerPlugin::PkgXar(p) => p.spec_description(),
        }
    }

    fn description(&self) -> (r: &'static str) {
        match self {
            SignerPlugin::RpmPgp(p) => p.description(),
            SignerPlugin::DebDebsign(p) => p.description(),
            SignerPlugin::GpgDetach(p) => p.description(),
            SignerPlugin::ApkRsa(p) => p.description(),
            SignerPlugin::MsixP7x(p) => p.description(),
            SignerPlugin::PkgXar(p) => p.description(),
        }
    }
}

impl Signer for SignerPlugin {
    open spec fn supports_spec(&self, format: Seq<char>, method: Seq<char>) -> bool {
        match self {
            SignerPlugin::RpmPgp(p) => p.supports_spec(format, method),
            SignerPlugin::DebDebsign(p) => p.supports_spec(format, method),
            SignerPlugin::GpgDetach(p) => p.supports_spec(format, method),
            SignerPlugin::ApkRsa(p) => p.supports_spec(format, method),
            SignerPlugin::MsixP7x(p) => p.supports_spec(format, method),
            SignerPlugin::PkgXar(p) => p.supports_spec(format, method),
        }
    }

    fn supports(&self, format: &str, method: &str) -> (r: bool) {
        match self {
            SignerPlugin::RpmPgp(p) => p.supports(format, method),
            SignerPlugin::DebDebsign(p) => p.supports(format, method),
            SignerPlugin::GpgDetach(p) => p.supports(format, method),
            SignerPlugin::ApkRsa(p) => p.supports(format, method),
            SignerPlugin::MsixP7x(p) => p.supports(format, method),
            SignerPlugin::PkgXar(p) => p.supports(format, method),
        }
    }

    open spec fn embedded_spec(&self) -> bool {
        match self {
            SignerPlugin::RpmPgp(p) => p.embedded_spec(),
            SignerPlugin::DebDebsign(p) => p.embedded_spec(),
            SignerPlugin::GpgDetach(p) => p.embedded_spec(),
            SignerPlugin::ApkRsa(p) => p.embedded_spec(),
            SignerPlugin::MsixP7x(p) => p.embedded_spec(),
            SignerPlugin::PkgXar(p) => p.embedded_spec(),
        }
    }

    fn embedded(&self) -> (r: bool) {
        match self {
            SignerPlugin::RpmPgp(p) => p.embedded(),
            SignerPlugin::DebDebsign(p) => p.embedded(),
            SignerPlugin::GpgDetach(p) => p.embedded(),
            SignerPlugin::ApkRsa(p) => p.embedded(),
            SignerPlugin::MsixP7x(p) => p.embedded(),
            SignerPlugin::PkgXar(p) => p.embedded(),
        }
    }
}

/// The registered backends, in selection order (embedded/most-specific
/// first, generic detached last).
pub open spec fn registered_signers() -> Seq<SignerPlugin> {
    seq![
        SignerPlugin::RpmPgp(rpm_pgp::RpmPgp),
        SignerPlugin::DebDebsign(deb_debsign::DebDebsign),
        SignerPlugin::GpgDetach(gpg_detach::GpgDetach),
    ]
}

/// All known signing backends, in selection order.
pub fn all_signers() -> (r: Vec<SignerPlugin>)
    ensures
        r@ == registered_signers(),
{
    let r = vec![
        SignerPlugin::RpmPgp(rpm_pgp::RpmPgp),
        SignerPlugin::DebDebsign(deb_debsign::DebDebsign),
        SignerPlugin::GpgDetach(gpg_detach::GpgDetach),
    ];
    assert(r@ =~= registered_signers());
    r
}

/// The first registered backend at or after `i` that signs `(format,
/// method)`.
pub open spec fn first_supporting(format: Seq<char>, method: Seq<char>, i: int) -> Option<
    SignerPlugin,
>
    decreases registered_signers().len() - i,
{
    if i < 0 || i >= registered_signers().len() {
        None
    } else if registered_signers()[i].supports_spec(format, method) {
        Some(registered_signers()[i])
    } else {
        first_supporting(format, method, i + 1)
    }
}

/// Look up a signing backend by name (case-insensitive, surrounding
/// whitespace ignored).
pub fn get_signer(name: &str) -> (r: Option<SignerPlugin>)
    ensures
        match r {
            Some(p) => registered_signers().contains(p) && p.spec_name() == normalized(name@),
            None => !names_of(registered_signers()).contains(normalized(name@)),
        },
{
    let want = normalize(name);
    let mut all = all_signers();
    let mut i: usize = 0;
    while i < all.len()
        invariant
            i <= all@.len(),
            all@ == registered_signers(),
            want@ == normalized(name@),
            forall|j: int| 0 <= j < i ==> (#[trigger] all@[j]).spec_name() != want@,
        decreases all@.len() - i,
    {
        if seq_eq(chars_of(all[i].name()).as_slice(), want.as_slice()) {
            let ghost s = all@;
            let p = all.swap_remove(i);
            assert(p == s[i as int]);
            return Some(p);
        }
        i = i + 1;
    }
    assert(!names_of(registered_signers()).contains(normalized(name@))) by {
        if names_of(registered_signers()).contains(normalized(name@)) {
            let j = choose|j: int|
                0 <= j < names_of(registered_signers()).len() && names_of(registered_signers())[j]
                    == normalized(name@);
            assert(all@[j].spec_name() == want@);
        }
    }
    None
}

/// Pick the backend for a `(format, method)` pair: the first registered one
/// that supports it.
pub fn signer_for(format: &str, method: &str) -> (r: Option<SignerPlugin>)
    ensures
        r == first_supporting(format@, method@, 0),
{
    let mut all = all_signers();
    let mut i: usize = 0;
    while i < all.len()
        invariant
            i <= all@.len(),
            all@ == registered_signers(),
            first_supporting(format@, method@, 0) == first_supporting(format@, method@, i as int),
        decreases all@.len() - i,
    {
        if all[i].supports(format, method) {
            let ghost s = all@;
            let p = all.swap_remove(i);
            assert(p == s[i as int]);
            return Some(p);
        }
        i = i + 1;
    }
    None
}

/// The registered backend names, in selection order.
pub fn signer_names() -> (r: Vec<&'static str>)
    ensures
        r.deep_view() == names_of(registered_signers()),
{
    PluginSet::new(all_signers()).names()
}

} // verus!
