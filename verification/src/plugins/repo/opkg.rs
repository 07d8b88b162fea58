//! opkg repository: `Packages` and `Packages.gz` built from each `.ipk`'s control file.
use vstd::prelude::*;

use super::RepoIndexer;

verus! {

/// opkg repository: `Packages` and `Packages.gz` built from each `.ipk`'s control file.
pub struct OpkgIndexer;

impl RepoIndexer for OpkgIndexer {
    open spec fn spec_name(&self) -> Seq<char> {
        "opkg"@
    }

    fn name(&self) -> (r: &'static str) {
        "opkg"
    }

    open spec fn spec_format(&self) -> Seq<char> {
        "ipk"@
    }

    fn format(&self) -> (r: &'static str) {
        "ipk"
    }

    open spec fn spec_description(&self) -> Seq<char> {
        "opkg repository (Packages, Packages.gz)"@
    }

    fn description(&self) -> (r: &'static str) {
        "opkg repository (Packages, Packages.gz)"
    }

    open spec fn spec_extension(&self) -> Seq<char> {
        "ipk"@
    }

    fn file_extension(&self) -> (r: &'static str) {
        "ipk"
    }
}

/// The `Packages` stanza of one `.ipk`, without its final newline.
pub open spec fn ipk_stanza_text(
    ctrl: Map<Seq<char>, Seq<char>>,
    file_name: Seq<char>,
    size: u64,
    sha256: Seq<char>,
) -> Seq<char> {
    crate::text::strip_suffix_all(
        "Package: "@ + crate::repo::field_or_empty(ctrl, "Package"@) + "\nVersion: "@
            + crate::repo::field_or_empty(ctrl, "Version"@) + "\nArchitecture: "@
            + crate::repo::field_or_empty(ctrl, "Architecture"@) + "\nMaintainer: "@
            + crate::repo::field_or_empty(ctrl, "Maintainer"@) + "\nDepends: "@
            + crate::repo::field_or_empty(ctrl, "Depends"@) + "\nProvides: "@
            + crate::repo::field_or_empty(ctrl, "Provides"@) + "\nSection: "@
            + crate::repo::field_or_empty(ctrl, "Section"@) + "\nDescription: "@
            + crate::repo::field_or_empty(ctrl, "Description"@) + "\nFilename: "@ + file_name
            + "\nSize: "@ + crate::text::decimal(size as nat) + "\nSHA256: "@ + sha256 + "\n"@,
        "\n"@,
    )
}

fn field_of(ctrl: &crate::plugins::package_index::keyvalue::KeyValues, k: &str) -> (r: String)
    ensures
        r@ == crate::repo::field_or_empty(ctrl@, k@),
{
    match ctrl.get(k) {
        Some(v) => v.clone(),
        None => String::new(),
    }
}

/// Renders the opkg `Packages` stanza of one `.ipk` from its control
/// fields, file name, size and SHA-256.
pub fn ipk_stanza(
    ctrl: &crate::plugins::package_index::keyvalue::KeyValues,
    file_name: &str,
    size: u64,
    sha256: &str,
) -> (r: String)
    ensures
        r@ == ipk_stanza_text(ctrl@, file_name@, size, sha256@),
{
    let mut s = String::from_str("Package: ");
    s.append(field_of(ctrl, "Package").as_str());
    s.append("\nVersion: ");
    s.append(field_of(ctrl, "Version").as_str());
    s.append("\nArchitecture: ");
    s.append(field_of(ctrl, "Architecture").as_str());
    s.append("\nMaintainer: ");
    s.append(field_of(ctrl, "Maintainer").as_str());
    s.append("\nDepends: ");
    s.append(field_of(ctrl, "Depends").as_str());
    s.append("\nProvides: ");
    s.append(field_of(ctrl, "Provides").as_str());
    s.append("\nSection: ");
    s.append(field_of(ctrl, "Section").as_str());
    s.append("\nDescription: ");
    s.append(field_of(ctrl, "Description").as_str());
    s.append("\nFilename: ");
    s.append(file_name);
    s.append("\nSize: ");
    s.append(crate::text::string_of(crate::text::decimal_exec(size).as_slice()).as_str());
    s.append("\nSHA256: ");
    s.append(sha256);
    s.append("\n");
    let v = crate::text::chars_of(s.as_str());
    let nl = crate::text::chars_of("\n");
    crate::text::string_of(crate::text::strip_suffix_all_exec(v.as_slice(), nl.as_slice()))
}

} // verus!
