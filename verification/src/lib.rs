//! Verified core of the `lx` packaging plugins: the parsers, registries and
//! selection rules behind package indexes, signers, registry sources and the
//! publish pipeline.
use vstd::prelude::*;

pub mod assoc;
pub mod debversion;
pub mod digests;
pub mod plugins;
pub mod pattern;
pub mod progress;
pub mod publish;
pub mod release;
pub mod relocatable;
pub mod repo;
pub mod repology_depmap;
pub mod rpmarchive;
pub mod sbom;
pub mod search;
pub mod scandeps;
pub mod shlibdeps;
pub mod show;
pub mod sign;
pub mod sorted;
pub mod source;
pub mod sourcebuild;
pub mod text;

verus! {

} // verus!
