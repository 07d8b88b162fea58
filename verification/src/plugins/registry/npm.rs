//! The `npm` registry source.
use vstd::prelude::*;

use super::RegistrySource;
use crate::plugins::plugin::Plugin;

verus! {

/// Fetches packages from the `npm` registry.
pub struct NpmRegistrySource;

impl Plugin for NpmRegistrySource {
    open spec fn spec_name(&self) -> Seq<char> {
        "npm"@
    }

    fn name(&self) -> (r: &'static str) {
        "npm"
    }

    open spec fn spec_description(&self) -> Seq<char> {
        "npm (Node.js) \u{2014} npm pack + extract"@
    }

    fn description(&self) -> (r: &'static str) {
        "npm (Node.js) \u{2014} npm pack + extract"
    }
}

impl RegistrySource for NpmRegistrySource {
    fn required_tools(&self) -> (r: Vec<&'static str>)
        ensures
            r.deep_view() == seq!["npm"@],
    {
        let r = vec!["npm"];
        assert(r.deep_view() =~= seq!["npm"@]);
        r
    }
}

} // verus!
