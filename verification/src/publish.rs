//! `lx publish`: build every requested package format, then generate that
//! format's repository index. This module holds the command's arguments and
//! the `--formats` selection rule.
use vstd::prelude::*;

use crate::plugins::{packager_name_strings, packager_names_spec};
use crate::text::{
    chars_of, eq_ignore_case, non_empty, split_class, split_class_exec, strings_of, to_lower,
    trim, trim_all, trim_slice, trimmed_non_empty,
};

verus! {

/// Arguments of `lx publish`.
#[derive(Debug, Clone)]
pub struct PublishArgs {
    /// Path to package.yaml.
    pub config: String,
    /// Version of the software to build (defaults to the latest release).
    pub version: Option<String>,
    /// Build version/revision (defaults to "1").
    pub build_version: String,
    /// Directory to write packages and per-format repository indexes into.
    pub output: String,
    /// Comma-separated package formats, or `all`.
    pub formats: String,
    /// Origin/Label recorded in the generated repository indexes.
    pub origin: String,
    /// Suite name for single-suite indexes.
    pub suite: String,
    /// Sign built packages and the generated indexes with this key.
    pub sign_key: Option<String>,
    /// Signing key id / fingerprint.
    pub sign_key_id: Option<String>,
    /// Emit SPDX SBOM + SLSA-style provenance alongside the packages.
    pub sbom: bool,
    /// Sign packages with cosign.
    pub cosign: bool,
    /// Proceed when an upstream asset has no checksum sidecar.
    pub allow_unverified: bool,
    /// Build only the host architecture.
    pub host: bool,
    /// Build packages but skip repository index generation.
    pub no_index: bool,
    /// Print the per-format plan without building or indexing.
    pub dry_run: bool,
}

/// Why `lx publish` refused its arguments.
#[derive(Debug, PartialEq, Eq, Structural, Clone, Copy)]
pub enum PublishError {
    /// `--formats` named no format.
    NoFormatsSelected,
}

impl PublishError {
    /// The message shown to the user.
    pub fn message(&self) -> (r: &'static str)
        ensures
            r@ == "no formats selected (expected e.g. deb,rpm,arch or all)"@,
    {
        "no formats selected (expected e.g. deb,rpm,arch or all)"
    }
}

/// The formats `--formats` selects: `all` (any case, surrounding whitespace
/// ignored) is every registered packager; otherwise the non-empty trimmed
/// comma-separated entries, `None` when there are none.
pub open spec fn resolve_formats_of(value: Seq<char>) -> Option<Seq<Seq<char>>> {
    let v = trim(value);
    if to_lower(v) == to_lower("all"@) {
        Some(packager_names_spec())
    } else {
        let list = non_empty(trim_all(split_class(v, false, seq![','])));
        if list.len() > 0 {
            Some(list)
        } else {
            None
        }
    }
}

/// Resolve the `--formats` value into a concrete list, rejecting an empty
/// selection. `all` expands to every registered packager.
pub fn resolve_formats(value: &str) -> (r: Result<Vec<String>, PublishError>)
    ensures
        match r {
            Ok(list) => resolve_formats_of(value@) == Some(list.deep_view()),
            Err(e) => resolve_formats_of(value@) is None && e == PublishError::NoFormatsSelected,
        },
{
    let raw = chars_of(value);
    let v = trim_slice(raw.as_slice());
    if eq_ignore_case(v, chars_of("all").as_slice()) {
        return Ok(packager_name_strings());
    }
    let comma = vec![','];
    assert(comma@ =~= seq![',']);
    let pieces = split_class_exec(v, false, comma.as_slice());
    let list = trimmed_non_empty(&pieces);
    if list.len() == 0 {
        return Err(PublishError::NoFormatsSelected);
    }
    Ok(strings_of(&list))
}

} // verus!
