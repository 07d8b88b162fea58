//! Registry source plugins for language package managers: each ecosystem
//! (cargo, pip, maven, ...) is a plugin that fetches a package into a local
//! payload directory. This module holds their registry and the shared
//! payload type.
pub mod cargo;
pub mod composer;
pub mod cpan;
pub mod dart;
pub mod gem;
pub mod go;
pub mod hex;
pub mod json;
pub mod maven;
pub mod npm;
pub mod nuget;
pub mod python;

use vstd::prelude::*;

use crate::plugins::plugin::{names_of, Plugin, PluginSet};
use crate::text::{chars_of, lower_vec, seq_eq, to_lower};

verus! {

/// Output of a registry source plugin: a local directory ready for packaging.
pub struct RegistryPayload {
    /// Directory containing the files to package.
    pub files_dir: String,
    /// Resolved package version (may differ from requested if "latest").
    pub resolved_version: String,
    /// Detected or configured description.
    pub description: String,
}

/// A registry source plugin.
pub trait RegistrySource: Plugin {
    /// Host tools this registry source requires on `PATH`.
    fn required_tools(&self) -> Vec<&'static str>;
}

/// Every registered registry source.
pub enum RegistrySourcePlugin {
    Cargo(cargo::CargoRegistrySource),
    Composer(composer::ComposerRegistrySource),
    Cpan(cpan::CpanRegistrySource),
    Dart(dart::DartRegistrySource),
    Gem(gem::GemRegistrySource),
    Go(go::GoRegistrySource),
    Hex(hex::HexRegistrySource),
    Maven(maven::MavenRegistrySource),
    Npm(npm::NpmRegistrySource),
    Nuget(nuget::NugetRegistrySource),
    Python(python::PythonRegistrySource),
}

impl Plugin for RegistrySourcePlugin {
    open spec fn spec_name(&self) -> Seq<char> {
        match self {
            RegistrySourcePlugin::Cargo(_) => "cargo"@,
            RegistrySourcePlugin::Composer(_) => "composer"@,
            RegistrySourcePlugin::Cpan(_) => "cpan"@,
            RegistrySourcePlugin::Dart(_) => "dart"@,
            RegistrySourcePlugin::Gem(_) => "gem"@,
            RegistrySourcePlugin::Go(_) => "go"@,
            RegistrySourcePlugin::Hex(_) => "hex"@,
            RegistrySourcePlugin::Maven(_) => "maven"@,
            RegistrySourcePlugin::Npm(_) => "npm"@,
            RegistrySourcePlugin::Nuget(_) => "nuget"@,
            RegistrySourcePlugin::Python(_) => "python"@,
        }
    }

    fn name(&self) -> (r: &'static str) {
        match self {
            RegistrySourcePlugin::Cargo(p) => p.name(),
            RegistrySourcePlugin::Composer(p) => p.name(),
            RegistrySourcePlugin::Cpan(p) => p.name(),
            RegistrySourcePlugin::Dart(p) => p.name(),
            RegistrySourcePlugin::Gem(p) => p.name(),
            RegistrySourcePlugin::Go(p) => p.name(),
            RegistrySourcePlugin::Hex(p) => p.name(),
            RegistrySourcePlugin::Maven(p) => p.name(),
            RegistrySourcePlugin::Npm(p) => p.name(),
            RegistrySourcePlugin::Nuget(p) => p.name(),
            RegistrySourcePlugin::Python(p) => p.name(),
        }
    }

    open spec fn spec_description(&self) -> Seq<char> {
        match self {
            RegistrySourcePlugin::Cargo(p) => p.spec_description(),
            RegistrySourcePlugin::Composer(p) => p.spec_description(),
            RegistrySourcePlugin::Cpan(p) => p.spec_description(),
            RegistrySourcePlugin::Dart(p) => p.spec_description(),
            RegistrySourcePlugin::Gem(p) => p.spec_description(),
            RegistrySourcePlugin::Go(p) => p.spec_description(),
            RegistrySourcePlugin::Hex(p) => p.spec_description(),
            RegistrySourcePlugin::Maven(p) => p.spec_description(),
            RegistrySourcePlugin::Npm(p) => p.spec_description(),
            RegistrySourcePlugin::Nuget(p) => p.spec_description(),
            RegistrySourcePlugin::Python(p) => p.spec_description(),
        }
    }

    fn description(&self) -> (r: &'static str) {
        match self {
            RegistrySourcePlugin::Cargo(p) => p.description(),
            RegistrySourcePlugin::Composer(p) => p.description(),
            RegistrySourcePlugin::Cpan(p) => p.description(),
            RegistrySourcePlugin::Dart(p) => p.description(),
            RegistrySourcePlugin::Gem(p) => p.description(),
            RegistrySourcePlugin::Go(p) => p.description(),
            RegistrySourcePlugin::Hex(p) => p.description(),
            RegistrySourcePlugin::Maven(p) => p.description(),
            RegistrySourcePlugin::Npm(p) => p.description(),
            RegistrySourcePlugin::Nuget(p) => p.description(),
            RegistrySourcePlugin::Python(p) => p.description(),
        }
    }
}

impl RegistrySourcePlugin {
    /// The host tools each registered source needs on `PATH`.
    pub open spec fn tools_spec(&self) -> Seq<Seq<char>> {
        match self {
            RegistrySourcePlugin::Cargo(_) => seq!["cargo"@],
            RegistrySourcePlugin::Composer(_) => seq!["composer"@],
            RegistrySourcePlugin::Cpan(_) => seq!["cpanm"@, "perl"@],
            RegistrySourcePlugin::Dart(_) => seq!["dart"@],
            RegistrySourcePlugin::Gem(_) => seq!["gem"@],
            RegistrySourcePlugin::Go(_) => seq!["go"@],
            RegistrySourcePlugin::Hex(_) => seq!["mix"@, "elixir"@],
            RegistrySourcePlugin::Maven(_) => seq!["mvn"@],
            RegistrySourcePlugin::Npm(_) => seq!["npm"@],
            RegistrySourcePlugin::Nuget(_) => seq!["nuget"@],
            RegistrySourcePlugin::Python(_) => seq!["pip"@, "python3"@],
        }
    }

    /// Host tools the selected source requires on `PATH`.
    pub fn required_tools(&self) -> (r: Vec<&'static str>)
        ensures
            r.deep_view() == self.tools_spec(),
    {
        match self {
            RegistrySourcePlugin::Cargo(p) => p.required_tools(),
            RegistrySourcePlugin::Composer(p) => p.required_tools(),
            RegistrySourcePlugin::Cpan(p) => p.required_tools(),
            RegistrySourcePlugin::Dart(p) => p.required_tools(),
            RegistrySourcePlugin::Gem(p) => p.required_tools(),
            RegistrySourcePlugin::Go(p) => p.required_tools(),
            RegistrySourcePlugin::Hex(p) => p.required_tools(),
            RegistrySourcePlugin::Maven(p) => p.required_tools(),
            RegistrySourcePlugin::Npm(p) => p.required_tools(),
            RegistrySourcePlugin::Nuget(p) => p.required_tools(),
            RegistrySourcePlugin::Python(p) => p.required_tools(),
        }
    }
}

/// Registered registry source names, in registration order.
pub open spec fn registry_names_spec() -> Seq<Seq<char>> {
    seq!["cargo"@, "composer"@, "cpan"@, "dart"@, "gem"@, "go"@, "hex"@, "maven"@, "npm"@, "nuget"@, "python"@]
}

/// All known registry source plugins, in registration order.
pub fn all_registry_sources() -> (r: Vec<RegistrySourcePlugin>)
    ensures
        names_of(r@) == registry_names_spec(),
{
    let r = vec![
        RegistrySourcePlugin::Cargo(cargo::CargoRegistrySource),
        RegistrySourcePlugin::Composer(composer::ComposerRegistrySource),
        RegistrySourcePlugin::Cpan(cpan::CpanRegistrySource),
        RegistrySourcePlugin::Dart(dart::DartRegistrySource),
        RegistrySourcePlugin::Gem(gem::GemRegistrySource),
        RegistrySourcePlugin::Go(go::GoRegistrySource),
        RegistrySourcePlugin::Hex(hex::HexRegistrySource),
        RegistrySourcePlugin::Maven(maven::MavenRegistrySource),
        RegistrySourcePlugin::Npm(npm::NpmRegistrySource),
        RegistrySourcePlugin::Nuget(nuget::NugetRegistrySource),
        RegistrySourcePlugin::Python(python::PythonRegistrySource),
    ];
    assert(names_of(r@) =~= registry_names_spec());
    r
}

/// Look up a registry source by name (ASCII case-insensitive, not trimmed).
pub fn get_registry_source(name: &str) -> (r: Option<RegistrySourcePlugin>)
    ensures
        match r {
            Some(p) => registry_names_spec().contains(to_lower(name@)) && p.spec_name()
                == to_lower(name@),
            None => !registry_names_spec().contains(to_lower(name@)),
        },
{
    let lower = lower_vec(chars_of(name).as_slice());
    let all = all_registry_sources();
    let set = PluginSet::new(all);
    let ghost items = set.items@;
    let mut i: usize = 0;
    while i < set.items.len()
        invariant
            i <= set.items@.len(),
            items == set.items@,
            lower@ == to_lower(name@),
            names_of(items) == registry_names_spec(),
            forall|j: int| 0 <= j < i ==> (#[trigger] items[j]).spec_name() != lower@,
        decreases set.items@.len() - i,
    {
        if seq_eq(chars_of(set.items[i].name()).as_slice(), lower.as_slice()) {
            proof {
                assert(names_of(items)[i as int] == items[i as int].spec_name());
                assert(registry_names_spec()[i as int] == lower@);
            }
            let mut items_v = set.items;
            let p = items_v.swap_remove(i);
            assert(p == items[i as int]);
            return Some(p);
        }
        i = i + 1;
    }
    assert(!registry_names_spec().contains(lower@)) by {
        if registry_names_spec().contains(lower@) {
            let j = choose|j: int| 0 <= j < registry_names_spec().len() && registry_names_spec()[j] == lower@;
            assert(names_of(items)[j] == items[j].spec_name());
        }
    }
    None
}

/// Available registry source names for error messages / help text.
pub fn registry_source_names() -> (r: Vec<&'static str>)
    ensures
        r.deep_view() == registry_names_spec(),
{
    PluginSet::new(all_registry_sources()).names()
}

/// The description to record: the configured one when set, else `detect()`.
pub fn description_or<F: FnOnce() -> String>(configured: &str, detect: F) -> (r: String)
    requires
        configured@.len() == 0 ==> detect.requires(()),
    ensures
        configured@.len() > 0 ==> r@ == configured@,
        configured@.len() == 0 ==> detect.ensures((), r),
{
    if configured.is_empty() {
        detect()
    } else {
        String::from_str(configured)
    }
}

} // verus!
