//! Packager architecture: each package format is a plugin with a name, a file
//! extension and an artifact naming convention, registered in a static,
//! ordered list. This module holds the registry and the shared helpers that
//! render release strings and expand `--format` selections.
pub mod msix;
pub mod osxpkg;
pub mod package_index;
pub mod plugin;
pub mod registry;
pub mod repo;
pub mod rpm;
pub mod signer;
pub mod source;
pub mod staging;

use vstd::prelude::*;

use crate::plugins::msix::MsixPackager;
use crate::plugins::osxpkg::OsxPkgPackager;
use crate::plugins::package_index::keyvalue::KeyValues;
use crate::plugins::plugin::{names_of, Plugin, PluginSet};
use crate::sorted::strictly_sorted;
use crate::plugins::rpm::RpmPackager;
use crate::text::{
    chars_of, eq_ignore_case, find_class_from, lower_vec, seq_eq, non_empty, split_class, split_class_exec,
    string_of, strings_of, to_lower, trim, trim_all, trim_slice, trimmed_non_empty,
};

verus! {

/// The extended-description continuation line shared by every rendered
/// control file.
pub const PACKAGED_FROM_LINE: &'static str = " Packaged from the upstream release for Debian.";

/// A package-format plugin.
pub trait Packager: Plugin {
    /// The file extension, as text.
    spec fn spec_extension(&self) -> Seq<char>;

    /// File extension without dot (e.g. `"deb"`, `"rpm"`).
    fn file_extension(&self) -> (r: &'static str)
        ensures
            r@ == self.spec_extension(),
    ;

    /// Whether an architecture is supported for a given distribution.
    fn arch_supported_for_dist(&self, arch: &str, dist: &str) -> bool;

    /// Glob (relative to the output directory) matching the artifacts this
    /// packager wrote for `package`.
    fn artifact_glob(&self, package: &str) -> String;
}

/// `{package}_*.{ext}`: the default artifact glob.
pub open spec fn underscore_glob(package: Seq<char>, ext: Seq<char>) -> Seq<char> {
    package + "_*."@ + ext
}

/// `{package}-*.{ext}`: the artifact glob of formats named `name-version`.
pub open spec fn dash_glob(package: Seq<char>, ext: Seq<char>) -> Seq<char> {
    package + "-*."@ + ext
}

pub fn underscore_glob_exec(package: &str, ext: &str) -> (r: String)
    ensures
        r@ == underscore_glob(package@, ext@),
{
    let mut s = String::from_str(package);
    s.append("_*.");
    s.append(ext);
    s
}

pub fn dash_glob_exec(package: &str, ext: &str) -> (r: String)
    ensures
        r@ == dash_glob(package@, ext@),
{
    let mut s = String::from_str(package);
    s.append("-*.");
    s.append(ext);
    s
}

/// The Debian `.deb` packager.
pub struct DebPackager;

/// The Arch Linux package packager.
pub struct ArchPackager;

/// The Alpine `.apk` packager.
pub struct ApkPackager;

/// The opkg `.ipk` packager.
pub struct IpkPackager;

/// Every registered packager.
pub enum PackagerPlugin {
    Deb(DebPackager),
    Rpm(RpmPackager),
    Arch(ArchPackager),
    Apk(ApkPackager),
    Ipk(IpkPackager),
    Msix(MsixPackager),
    OsxPkg(OsxPkgPackager),
}

impl Plugin for PackagerPlugin {
    open spec fn spec_name(&self) -> Seq<char> {
        match self {
            PackagerPlugin::Deb(_) => "deb"@,
            PackagerPlugin::Rpm(_) => "rpm"@,
            PackagerPlugin::Arch(_) => "arch"@,
            PackagerPlugin::Apk(_) => "apk"@,
            PackagerPlugin::Ipk(_) => "ipk"@,
            PackagerPlugin::Msix(_) => "msix"@,
            PackagerPlugin::OsxPkg(_) => "osxpkg"@,
        }
    }

    fn name(&self) -> (r: &'static str) {
        match self {
            PackagerPlugin::Deb(_) => "deb",
            PackagerPlugin::Rpm(p) => p.name(),
            PackagerPlugin::Arch(_) => "arch",
            PackagerPlugin::Apk(_) => "apk",
            PackagerPlugin::Ipk(_) => "ipk",
            PackagerPlugin::Msix(p) => p.name(),
            PackagerPlugin::OsxPkg(p) => p.name(),
        }
    }

    open spec fn spec_description(&self) -> Seq<char> {
        match self {
            PackagerPlugin::Deb(_) => "Debian package (.deb)"@,
            PackagerPlugin::Rpm(p) => p.spec_description(),
            PackagerPlugin::Arch(_) => "Arch Linux package (.pkg.tar.zst)"@,
            PackagerPlugin::Apk(_) => "Alpine package (.apk)"@,
            PackagerPlugin::Ipk(_) => "opkg package (.ipk)"@,
            PackagerPlugin::Msix(p) => p.spec_description(),
            PackagerPlugin::OsxPkg(p) => p.spec_description(),
        }
    }

    fn description(&self) -> (r: &'static str) {
        match self {
            PackagerPlugin::Deb(_) => "Debian package (.deb)",
            PackagerPlugin::Rpm(p) => p.description(),
            PackagerPlugin::Arch(_) => "Arch Linux package (.pkg.tar.zst)",
            PackagerPlugin::Apk(_) => "Alpine package (.apk)",
            PackagerPlugin::Ipk(_) => "opkg package (.ipk)",
            PackagerPlugin::Msix(p) => p.description(),
            PackagerPlugin::OsxPkg(p) => p.description(),
        }
    }
}

/// Registered packager names, in registration order.
pub open spec fn packager_names_spec() -> Seq<Seq<char>> {
    seq!["deb"@, "rpm"@, "arch"@, "apk"@, "ipk"@, "msix"@, "osxpkg"@]
}

/// All known packagers, in registration order.
pub fn all_packagers() -> (r: Vec<PackagerPlugin>)
    ensures
        names_of(r@) == packager_names_spec(),
{
    let r = vec![
        PackagerPlugin::Deb(DebPackager),
        PackagerPlugin::Rpm(RpmPackager),
        PackagerPlugin::Arch(ArchPackager),
        PackagerPlugin::Apk(ApkPackager),
        PackagerPlugin::Ipk(IpkPackager),
        PackagerPlugin::Msix(MsixPackager),
        PackagerPlugin::OsxPkg(OsxPkgPackager),
    ];
    assert(names_of(r@) =~= packager_names_spec());
    r
}

/// Available packager names for error messages / help text.
pub fn packager_names() -> (r: Vec<&'static str>)
    ensures
        r.deep_view() == packager_names_spec(),
{
    PluginSet::new(all_packagers()).names()
}

/// `{build_version}+{dist}` with every `+` replaced by `.` (RPM/Arch release
/// strings).
pub open spec fn format_release_of(build_version: Seq<char>, dist: Seq<char>) -> Seq<char> {
    (build_version + seq!['+'] + dist).map_values(|c: char| if c == '+' { '.' } else { c })
}

/// Compute `{build_version}+{dist}` formatted for non-debian release strings
/// (the `+` is replaced with `.` per RPM/Arch conventions).
pub fn format_release(build_version: &str, dist: &str) -> (r: String)
    ensures
        r@ == format_release_of(build_version@, dist@),
{
    let mut v = chars_of(build_version);
    v.push('+');
    let d = chars_of(dist);
    let mut k: usize = 0;
    while k < d.len()
        invariant
            k <= d.len(),
            v@ == build_version@ + seq!['+'] + d@.take(k as int),
        decreases d.len() - k,
    {
        v.push(d[k]);
        k = k + 1;
        assert(v@ =~= build_version@ + seq!['+'] + d@.take(k as int));
    }
    assert(d@.take(d@.len() as int) =~= d@);
    let ghost src = v@;
    let mut i: usize = 0;
    while i < v.len()
        invariant
            i <= v.len(),
            v@.len() == src.len(),
            forall|j: int| 0 <= j < i ==> v@[j] == (if src[j] == '+' { '.' } else { src[j] }),
            forall|j: int| i <= j < src.len() ==> v@[j] == src[j],
        decreases v.len() - i,
    {
        if v[i] == '+' {
            v.set(i, '.');
        }
        i = i + 1;
    }
    assert(v@ =~= format_release_of(build_version@, dist@));
    string_of(v.as_slice())
}

/// What `expand_formats` selects: `all` (any case) is every packager; a
/// comma-separated list is split and trimmed; anything else is `None`.
pub open spec fn expand_formats_of(value: Seq<char>) -> Option<Seq<Seq<char>>> {
    let v = trim(value);
    if to_lower(v) == to_lower("all"@) {
        Some(packager_names_spec())
    } else if v.contains(',') {
        let list = non_empty(trim_all(split_class(v, false, seq![','])));
        if list.len() > 0 {
            Some(list)
        } else {
            None
        }
    } else {
        None
    }
}

/// Every registered packager name as an owned string.
pub(crate) fn packager_name_strings() -> (r: Vec<String>)
    ensures
        r.deep_view() == packager_names_spec(),
{
    let names = packager_names();
    let mut out: Vec<String> = Vec::new();
    let mut i: usize = 0;
    while i < names.len()
        invariant
            i <= names@.len(),
            names.deep_view() == packager_names_spec(),
            out.deep_view() == packager_names_spec().take(i as int),
        decreases names@.len() - i,
    {
        let ghost before = out.deep_view();
        out.push(String::from_str(names[i]));
        assert(out.deep_view() =~= before.push(packager_names_spec()[i as int]));
        assert(packager_names_spec().take(i + 1) =~= packager_names_spec().take(i as int).push(
            packager_names_spec()[i as int],
        ));
        i = i + 1;
    }
    assert(packager_names_spec().take(7) =~= packager_names_spec());
    out
}

/// Expand a user-supplied `--format` value into the concrete formats to
/// build. `all` expands to every registered packager; a comma-separated list
/// is split and trimmed; a single format returns `None` so the caller can
/// pass it through unchanged.
pub fn expand_formats(value: &str) -> (r: Option<Vec<String>>)
    ensures
        match r {
            Some(list) => expand_formats_of(value@) == Some(list.deep_view()),
            None => expand_formats_of(value@) is None,
        },
{
    let raw = chars_of(value);
    let v = trim_slice(raw.as_slice());
    if eq_ignore_case(v, chars_of("all").as_slice()) {
        return Some(packager_name_strings());
    }
    let comma = vec![','];
    assert(comma@ =~= seq![',']);
    let i = find_class_from(v, 0, false, comma.as_slice());
    if i < v.len() {
        assert(v@.contains(','));
        let pieces = split_class_exec(v, false, comma.as_slice());
        let list = trimmed_non_empty(&pieces);
        if list.len() > 0 {
            return Some(strings_of(&list));
        }
        return None;
    }
    assert(!v@.contains(',')) by {
        if v@.contains(',') {
            let j = choose|j: int| 0 <= j < v@.len() && v@[j] == ',';
            assert(v@[j] == comma@[0]);
            assert(!crate::text::in_class(v@[j], false, comma@));
        }
    }
    None
}

/// Control fields rendered explicitly, never repeated as extra fields.
pub open spec fn core_control_fields() -> Seq<Seq<char>> {
    seq![
        "package"@,
        "version"@,
        "architecture"@,
        "maintainer"@,
        "description"@,
        "section"@,
        "priority"@,
        "homepage"@,
        "depends"@,
        "recommends"@,
        "suggests"@,
        "conflicts"@,
        "replaces"@,
        "provides"@,
        "breaks"@,
        "pre-depends"@,
        "pre_depends"@,
        "predepends"@,
        "source"@,
        "standards-version"@,
        "build-depends"@,
    ]
}

/// The control line an extra field renders to: `Key: value` (both trimmed)
/// unless either is blank or the key (lower-cased) is a core field.
pub open spec fn extra_field_line(k: Seq<char>, v: Seq<char>) -> Seq<char> {
    if trim(k).len() == 0 || trim(v).len() == 0 || core_control_fields().contains(to_lower(k)) {
        seq![]
    } else {
        trim(k) + ": "@ + trim(v) + "\n"@
    }
}

/// The lines of the fields `ks` (in that order) of `m`.
pub open spec fn render_fields(ks: Seq<Seq<char>>, m: Map<Seq<char>, Seq<char>>) -> Seq<char>
    decreases ks.len(),
{
    if ks.len() == 0 {
        seq![]
    } else {
        render_fields(ks.drop_last(), m) + extra_field_line(ks.last(), m[ks.last()])
    }
}

fn core_field_list() -> (r: Vec<&'static str>)
    ensures
        r.deep_view() == core_control_fields(),
{
    let r = vec![
        "package",
        "version",
        "architecture",
        "maintainer",
        "description",
        "section",
        "priority",
        "homepage",
        "depends",
        "recommends",
        "suggests",
        "conflicts",
        "replaces",
        "provides",
        "breaks",
        "pre-depends",
        "pre_depends",
        "predepends",
        "source",
        "standards-version",
        "build-depends",
    ];
    assert(r.deep_view() =~= core_control_fields());
    r
}

/// The keys of `m` in sorted order.
pub open spec fn sorted_key_list(m: Map<Seq<char>, Seq<char>>) -> Seq<Seq<char>> {
    choose|ks: Seq<Seq<char>>| strictly_sorted(ks) && ks.to_set() == m.dom()
}

/// The extra control fields of `m`: one line per key in sorted order.
pub open spec fn extra_fields_text(m: Map<Seq<char>, Seq<char>>) -> Seq<char> {
    render_fields(sorted_key_list(m), m)
}

/// Render the extra control fields sorted by key, skipping blank ones and
/// the core fields already rendered explicitly.
pub fn render_extra_fields(fields: &KeyValues) -> (r: String)
    ensures
        r@ == extra_fields_text(fields@),
        forall|ks: Seq<Seq<char>>|
            strictly_sorted(ks) && ks.to_set() == fields@.dom() ==> r@ == render_fields(
                ks,
                fields@,
            ),
{
    let keys = fields.sorted_keys();
    let ghost kv = keys.deep_view();
    let core = core_field_list();
    let mut out: Vec<char> = Vec::new();
    let mut i: usize = 0;
    proof {
        reveal_strlit(": ");
        reveal_strlit("\n");
    }
    assert(kv.take(0) =~= Seq::<Seq<char>>::empty());
    while i < keys.len()
        invariant
            i <= keys.len(),
            kv == keys.deep_view(),
            kv.to_set() == fields@.dom(),
            core.deep_view() == core_control_fields(),
            out@ == render_fields(kv.take(i as int), fields@),
        decreases keys.len() - i,
    {
        assert(kv.take(i + 1).drop_last() =~= kv.take(i as int));
        assert(kv[i as int] == keys@[i as int]@);
        let k = &keys[i];
        assert(kv.to_set().contains(k@));
        let v = match fields.get(k.as_str()) {
            Some(v) => v,
            None => {
                assert(false);
                return String::new();
            },
        };
        let kc = chars_of(k.as_str());
        let vc = chars_of(v.as_str());
        let kt = trim_slice(kc.as_slice());
        let vt = trim_slice(vc.as_slice());
        let lower = lower_vec(kc.as_slice());
        let mut is_core = false;
        let mut c: usize = 0;
        while c < core.len()
            invariant
                c <= core.len(),
                !is_core ==> forall|j: int| 0 <= j < c ==> core.deep_view()[j] != lower@,
                is_core ==> core.deep_view().contains(lower@),
            decreases core.len() - c,
        {
            if seq_eq(chars_of(core[c]).as_slice(), lower.as_slice()) {
                assert(core.deep_view()[c as int] == lower@);
                is_core = true;
            }
            c = c + 1;
        }
        let ghost before = out@;
        if kt.len() > 0 && vt.len() > 0 && !is_core {
            crate::text::append_chars(&mut out, kt);
            out.push(':');
            out.push(' ');
            crate::text::append_chars(&mut out, vt);
            out.push('\n');
            proof {
                reveal_strlit(": ");
                reveal_strlit("\n");
            }
            assert(out@ =~= before + (kt@ + ": "@ + vt@ + "\n"@));
        } else {
            assert(out@ =~= before + Seq::<char>::empty());
        }
        i = i + 1;
    }
    assert(kv.take(kv.len() as int) =~= kv);
    proof {
        assert forall|ks: Seq<Seq<char>>|
            strictly_sorted(ks) && ks.to_set() == fields@.dom() implies out@ == render_fields(
                ks,
                fields@,
            ) by {
            crate::sorted::lemma_strictly_sorted_unique(ks, kv);
        }
        assert(strictly_sorted(kv) && kv.to_set() == fields@.dom());
        let ks = sorted_key_list(fields@);
        assert(strictly_sorted(ks) && ks.to_set() == fields@.dom());
    }
    string_of(out.as_slice())
}

} // verus!
