//! The `gem` registry source.
use vstd::prelude::*;

use super::RegistrySource;
use crate::plugins::plugin::Plugin;

verus! {

/// Fetches packages from the `gem` registry.
pub struct GemRegistrySource;

impl Plugin for GemRegistrySource {
    open spec fn spec_name(&self) -> Seq<char> {
        "gem"@
    }

    fn name(&self) -> (r: &'static str) {
        "gem"
    }

    open spec fn spec_description(&self) -> Seq<char> {
        "RubyGems (Ruby) \u{2014} gem install + extract"@
    }

    fn description(&self) -> (r: &'static str) {
        "RubyGems (Ruby) \u{2014} gem install + extract"
    }
}

impl RegistrySource for GemRegistrySource {
    fn required_tools(&self) -> (r: Vec<&'static str>)
        ensures
            r.deep_view() == seq!["gem"@],
    {
        let r = vec!["gem"];
        assert(r.deep_view() =~= seq!["gem"@]);
        r
    }
}

} // verus!
