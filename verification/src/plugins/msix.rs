//! MSIX (Windows) packages: version and architecture mapping.
use vstd::prelude::*;

use crate::plugins::plugin::Plugin;
use crate::plugins::{underscore_glob_exec, underscore_glob, Packager};
use crate::text::{
    after_last,
    after_last_exec,
    chars_of,
    decimal,
    decimal_exec,
    is_digit,
    leading_digits,
    leading_digits_exec,
    parse_u64_or_zero,
    parse_u64_or_zero_exec,
    seq_eq,
    split_class,
    split_class_exec,
    string_of,
    trim,
    trim_slice,
};

verus! {

/// The MSIX packager.
pub struct MsixPackager;

impl Plugin for MsixPackager {
    open spec fn spec_name(&self) -> Seq<char> {
        "msix"@
    }

    fn name(&self) -> (r: &'static str) {
        "msix"
    }

    open spec fn spec_description(&self) -> Seq<char> {
        "MSIX (Windows) package \u{2014} unsigned OPC zip (AppxManifest/BlockMap)"@
    }

    fn description(&self) -> (r: &'static str) {
        "MSIX (Windows) package \u{2014} unsigned OPC zip (AppxManifest/BlockMap)"
    }
}

impl Packager for MsixPackager {
    open spec fn spec_extension(&self) -> Seq<char> {
        "msix"@
    }

    fn file_extension(&self) -> (r: &'static str) {
        "msix"
    }

    fn arch_supported_for_dist(&self, arch: &str, dist: &str) -> (b: bool)
        ensures
            b,
    {
        true
    }

    fn artifact_glob(&self, package: &str) -> (r: String)
        ensures
            r@ == underscore_glob(package@, "msix"@),
    {
        underscore_glob_exec(package, "msix")
    }
}

/// The numeric value of the `i`-th dotted component (0 when absent,
/// digit-less or too large).
pub open spec fn msix_part(parts: Seq<Seq<char>>, i: int) -> nat {
    if i < parts.len() {
        parse_u64_or_zero(leading_digits(parts[i]))
    } else {
        0
    }
}

/// The four-part MSIX version of a package version: the epoch prefix is
/// dropped, each of the first four dotted components keeps its leading
/// digits, and missing parts are 0.
pub open spec fn msix_version_of(version: Seq<char>) -> Seq<char> {
    let parts = split_class(after_last(version, ":"@), false, seq!['.']);
    decimal(msix_part(parts, 0)) + seq!['.'] + decimal(msix_part(parts, 1)) + seq!['.']
        + decimal(msix_part(parts, 2)) + seq!['.'] + decimal(msix_part(parts, 3))
}

proof fn lemma_leading_digits_are_digits(s: Seq<char>)
    ensures
        forall|j: int| 0 <= j < leading_digits(s).len() ==> is_digit(#[trigger] leading_digits(s)[j]),
    decreases s.len(),
{
    if s.len() > 0 && is_digit(s[0]) {
        lemma_leading_digits_are_digits(s.drop_first());
        let t = leading_digits(s.drop_first());
        assert forall|j: int| 0 <= j < leading_digits(s).len() implies is_digit(
            #[trigger] leading_digits(s)[j],
        ) by {
            if j > 0 {
                assert(leading_digits(s)[j] == t[j - 1]);
            }
        }
    }
}

fn msix_part_exec(parts: &Vec<Vec<char>>, i: usize) -> (r: u64)
    ensures
        r == msix_part(parts.deep_view(), i as int),
{
    if i < parts.len() {
        assert(parts.deep_view()[i as int] =~= parts@[i as int]@);
        let d = leading_digits_exec(parts[i].as_slice());
        proof {
            lemma_leading_digits_are_digits(parts@[i as int]@);
        }
        parse_u64_or_zero_exec(d)
    } else {
        0
    }
}

/// Convert a package version into MSIX's four-part numeric `Version`.
pub fn to_msix_version(version: &str) -> (r: String)
    ensures
        r@ == msix_version_of(version@),
{
    let v = chars_of(version);
    let colon = chars_of(":");
    let tail = after_last_exec(v.as_slice(), colon.as_slice());
    let dot = vec!['.'];
    assert(dot@ =~= seq!['.']);
    let parts = split_class_exec(tail, false, dot.as_slice());
    let mut out: Vec<char> = decimal_exec(msix_part_exec(&parts, 0));
    out.push('.');
    crate::text::append_chars(&mut out, decimal_exec(msix_part_exec(&parts, 1)).as_slice());
    out.push('.');
    crate::text::append_chars(&mut out, decimal_exec(msix_part_exec(&parts, 2)).as_slice());
    out.push('.');
    crate::text::append_chars(&mut out, decimal_exec(msix_part_exec(&parts, 3)).as_slice());
    assert(out@ =~= msix_version_of(version@));
    string_of(out.as_slice())
}

/// MSIX's `ProcessorArchitecture` for a Debian architecture, unless an
/// explicit (non-blank) override is given.
pub open spec fn msix_arch_of(override_arch: Seq<char>, debian_arch: Seq<char>) -> Seq<char> {
    let o = trim(override_arch);
    if o.len() > 0 {
        o
    } else if debian_arch == "amd64"@ {
        "x64"@
    } else if debian_arch == "i386"@ || debian_arch == "i686"@ {
        "x86"@
    } else if debian_arch == "arm64"@ {
        "arm64"@
    } else if debian_arch == "armhf"@ || debian_arch == "armel"@ || debian_arch == "arm"@ {
        "arm"@
    } else {
        "neutral"@
    }
}

fn is(a: &[char], lit: &str) -> (b: bool)
    ensures
        b == (a@ == lit@),
{
    seq_eq(a, chars_of(lit).as_slice())
}

/// Map a Debian architecture to MSIX's `ProcessorArchitecture` value,
/// honoring an explicit `msix.arch` override.
pub fn msix_arch(override_arch: &str, debian_arch: &str) -> (r: String)
    ensures
        r@ == msix_arch_of(override_arch@, debian_arch@),
{
    let ov = chars_of(override_arch);
    let o = trim_slice(ov.as_slice());
    if o.len() > 0 {
        return string_of(o);
    }
    let d = chars_of(debian_arch);
    let d = d.as_slice();
    let r = if is(d, "amd64") {
        "x64"
    } else if is(d, "i386") || is(d, "i686") {
        "x86"
    } else if is(d, "arm64") {
        "arm64"
    } else if is(d, "armhf") || is(d, "armel") || is(d, "arm") {
        "arm"
    } else {
        "neutral"
    };
    String::from_str(r)
}
// ---------------------------------------------------------------------------
// The manifest
// ---------------------------------------------------------------------------

/// One entry of `msix.applications`, with its visual elements.
#[derive(Debug, Clone)]
pub struct MsixAppConfig {
    pub id: String,
    pub executable: String,
    pub entry_point: String,
    pub display_name: String,
    pub description: String,
    pub background_color: String,
    pub square150x150_logo: String,
    pub square44x44_logo: String,
}

/// A target device family (`Windows.Desktop` and its version bounds).
#[derive(Debug, Clone)]
pub struct DeviceFamily {
    pub name: String,
    pub min_version: String,
    pub max_version_tested: String,
}

/// The `msix:` block of the package config.
#[derive(Debug, Clone)]
pub struct MsixConfig {
    pub publisher: String,
    pub arch: String,
    pub resource_id: String,
    pub display_name: String,
    pub publisher_display_name: String,
    pub logo: String,
    pub pfx_file: String,
    pub applications: Vec<MsixAppConfig>,
    pub target_device_families: Vec<DeviceFamily>,
    pub capabilities: Vec<String>,
    pub device_capabilities: Vec<String>,
    pub restricted: Vec<String>,
}

/// An application entry of the manifest.
#[derive(Debug, Clone)]
pub struct MsixApplication {
    pub id: String,
    pub executable: String,
    pub entry_point: String,
    pub display_name: String,
    pub description: String,
    pub background_color: String,
    pub square150x150_logo: String,
    pub square44x44_logo: String,
}

/// What `AppxManifest.xml` is written from.
#[derive(Debug, Clone)]
pub struct MsixManifest {
    pub name: String,
    pub version: String,
    pub publisher: String,
    pub arch: String,
    pub resource_id: String,
    pub display_name: String,
    pub publisher_display_name: String,
    pub description: String,
    pub logo: String,
    pub applications: Vec<MsixApplication>,
    pub device_families: Vec<DeviceFamily>,
    pub capabilities: Vec<String>,
    pub device_capabilities: Vec<String>,
    pub restricted: Vec<String>,
}

/// Why an MSIX cannot be built from the config.
#[derive(Debug, Clone, Copy, PartialEq, Eq, Structural)]
pub enum MsixError {
    /// `msix.publisher` is empty.
    MissingPublisher,
    /// `msix.applications` lists nothing.
    NoApplications,
    /// `msix.signature.pfx_file` is set; `.pfx` signing is not supported.
    PfxUnsupported,
}

impl MsixError {
    /// The error's message.
    pub fn message(&self) -> (r: &'static str)
        ensures
            r@ == match *self {
                MsixError::MissingPublisher => "msix.publisher is required to build an MSIX package"@,
                MsixError::NoApplications => "msix.applications must list at least one application"@,
                MsixError::PfxUnsupported => "msix.signature.pfx_file is not supported; use signature.key_file (PKCS#8 RSA private key, PEM) plus signature.cert_file (X.509 cert, PEM) for native AppxSignature.p7x signing"@,
            },
    {
        match self {
            MsixError::MissingPublisher => "msix.publisher is required to build an MSIX package",
            MsixError::NoApplications => "msix.applications must list at least one application",
            MsixError::PfxUnsupported =>
                "msix.signature.pfx_file is not supported; use signature.key_file (PKCS#8 RSA private key, PEM) plus signature.cert_file (X.509 cert, PEM) for native AppxSignature.p7x signing",
        }
    }
}

/// The checks made before an MSIX is built, in order: a publisher, at least
/// one application, no `.pfx` file.
pub open spec fn msix_config_error(msix: MsixConfig) -> Option<MsixError> {
    if trim(msix.publisher@).len() == 0 {
        Some(MsixError::MissingPublisher)
    } else if msix.applications.len() == 0 {
        Some(MsixError::NoApplications)
    } else if trim(msix.pfx_file@).len() > 0 {
        Some(MsixError::PfxUnsupported)
    } else {
        None
    }
}

/// Checks that the `msix:` block can be built.
pub fn check_msix_config(msix: &MsixConfig) -> (r: Result<(), MsixError>)
    ensures
        match r {
            Ok(()) => msix_config_error(*msix) is None,
            Err(e) => msix_config_error(*msix) == Some(e),
        },
{
    let p = chars_of(msix.publisher.as_str());
    if trim_slice(p.as_slice()).len() == 0 {
        return Err(MsixError::MissingPublisher);
    }
    if msix.applications.len() == 0 {
        return Err(MsixError::NoApplications);
    }
    let f = chars_of(msix.pfx_file.as_str());
    if trim_slice(f.as_slice()).len() > 0 {
        return Err(MsixError::PfxUnsupported);
    }
    Ok(())
}

/// The entry point of an application: the configured one, or
/// `Windows.FullTrustApplication` when it is blank.
pub open spec fn entry_point_of(configured: Seq<char>) -> Seq<char> {
    if trim(configured).len() == 0 {
        "Windows.FullTrustApplication"@
    } else {
        configured
    }
}

/// A tile logo: the application's own when it is not blank, else the
/// package logo when that is not blank, else nothing.
pub open spec fn logo_or(own: Seq<char>, package_logo: Seq<char>) -> Seq<char> {
    if trim(own).len() > 0 {
        own
    } else if trim(package_logo).len() > 0 {
        package_logo
    } else {
        Seq::empty()
    }
}

/// The manifest entry `out` is made from the config entry `app`.
pub open spec fn application_of(out: MsixApplication, app: MsixAppConfig, package_logo: Seq<char>) -> bool {
    &&& out.id@ == app.id@
    &&& out.executable@ == app.executable@
    &&& out.entry_point@ == entry_point_of(app.entry_point@)
    &&& out.display_name@ == app.display_name@
    &&& out.description@ == app.description@
    &&& out.background_color@ == app.background_color@
    &&& out.square150x150_logo@ == logo_or(app.square150x150_logo@, package_logo)
    &&& out.square44x44_logo@ == logo_or(app.square44x44_logo@, package_logo)
}

/// Some application runs as a full-trust desktop process.
pub open spec fn needs_full_trust(apps: Seq<MsixAppConfig>) -> bool {
    exists|i: int|
        0 <= i < apps.len() && entry_point_of(#[trigger] apps[i].entry_point@)
            == "Windows.FullTrustApplication"@
}

/// The restricted capabilities: the configured ones, plus `runFullTrust`
/// when a full-trust application needs it and it is not listed yet.
pub open spec fn restricted_of(configured: Seq<Seq<char>>, full_trust: bool) -> Seq<Seq<char>> {
    if full_trust && !configured.contains("runFullTrust"@) {
        configured.push("runFullTrust"@)
    } else {
        configured
    }
}

/// The device family used when none is configured.
pub open spec fn default_family(d: DeviceFamily) -> bool {
    d.name@ == "Windows.Desktop"@ && d.min_version@ == "10.0.17763.0"@ && d.max_version_tested@
        == "10.0.22621.0"@
}

/// Two device families say the same.
pub open spec fn same_family(a: DeviceFamily, b: DeviceFamily) -> bool {
    a.name@ == b.name@ && a.min_version@ == b.min_version@ && a.max_version_tested@
        == b.max_version_tested@
}

/// The device families of the manifest: the configured ones, or the
/// Windows desktop default when none is configured.
pub open spec fn families_of(out: Seq<DeviceFamily>, configured: Seq<DeviceFamily>) -> bool {
    if configured.len() == 0 {
        out.len() == 1 && default_family(out[0])
    } else {
        out.len() == configured.len() && forall|i: int|
            0 <= i < out.len() ==> same_family(#[trigger] out[i], configured[i])
    }
}

/// A copy of a string list.
fn copy_strings(v: &Vec<String>) -> (r: Vec<String>)
    ensures
        r.deep_view() == v.deep_view(),
{
    let mut out: Vec<String> = Vec::new();
    let mut i: usize = 0;
    while i < v.len()
        invariant
            i <= v.len(),
            out.deep_view() == v.deep_view().take(i as int),
        decreases v.len() - i,
    {
        let ghost before = out.deep_view();
        let c = v[i].clone();
        out.push(c);
        assert(out.deep_view() =~= before.push(v.deep_view()[i as int]));
        assert(v.deep_view().take(i + 1) =~= v.deep_view().take(i as int).push(
            v.deep_view()[i as int],
        ));
        i = i + 1;
    }
    assert(v.deep_view().take(v.len() as int) =~= v.deep_view());
    out
}

/// `own` when it is not blank, else the package logo when that is not
/// blank, else nothing.
fn logo_or_exec(own: &String, package_logo: &String) -> (r: String)
    ensures
        r@ == logo_or(own@, package_logo@),
{
    let o = chars_of(own.as_str());
    if trim_slice(o.as_slice()).len() > 0 {
        return own.clone();
    }
    let l = chars_of(package_logo.as_str());
    if trim_slice(l.as_slice()).len() > 0 {
        package_logo.clone()
    } else {
        String::new()
    }
}

/// The manifest entry for one configured application.
fn application_from(app: &MsixAppConfig, package_logo: &String) -> (r: MsixApplication)
    ensures
        application_of(r, *app, package_logo@),
{
    let e = chars_of(app.entry_point.as_str());
    let entry_point = if trim_slice(e.as_slice()).len() == 0 {
        "Windows.FullTrustApplication".to_string()
    } else {
        app.entry_point.clone()
    };
    MsixApplication {
        id: app.id.clone(),
        executable: app.executable.clone(),
        entry_point,
        display_name: app.display_name.clone(),
        description: app.description.clone(),
        background_color: app.background_color.clone(),
        square150x150_logo: logo_or_exec(&app.square150x150_logo, package_logo),
        square44x44_logo: logo_or_exec(&app.square44x44_logo, package_logo),
    }
}

/// The device families of the manifest.
fn families_from(configured: &Vec<DeviceFamily>) -> (r: Vec<DeviceFamily>)
    ensures
        families_of(r@, configured@),
{
    let mut out: Vec<DeviceFamily> = Vec::new();
    if configured.len() == 0 {
        out.push(
            DeviceFamily {
                name: "Windows.Desktop".to_string(),
                min_version: "10.0.17763.0".to_string(),
                max_version_tested: "10.0.22621.0".to_string(),
            },
        );
        return out;
    }
    let mut i: usize = 0;
    while i < configured.len()
        invariant
            i <= configured.len(),
            out@.len() == i,
            forall|k: int| 0 <= k < i ==> same_family(#[trigger] out@[k], configured@[k]),
        decreases configured.len() - i,
    {
        let d = &configured[i];
        out.push(
            DeviceFamily {
                name: d.name.clone(),
                min_version: d.min_version.clone(),
                max_version_tested: d.max_version_tested.clone(),
            },
        );
        i = i + 1;
    }
    out
}

/// Builds the manifest of package `name` at MSIX `version` for `arch` from
/// the `msix:` block: blank entry points become full-trust desktop
/// applications, blank tile logos fall back to the package logo, a missing
/// device family list becomes Windows desktop, and `runFullTrust` is added
/// to the restricted capabilities when a full-trust application needs it.
pub fn build_manifest(
    name: &str,
    description: &str,
    msix: &MsixConfig,
    version: &str,
    arch: &str,
) -> (r: MsixManifest)
    ensures
        r.name@ == name@,
        r.version@ == version@,
        r.publisher@ == msix.publisher@,
        r.arch@ == arch@,
        r.resource_id@ == msix.resource_id@,
        r.display_name@ == msix.display_name@,
        r.publisher_display_name@ == msix.publisher_display_name@,
        r.description@ == description@,
        r.logo@ == msix.logo@,
        r.applications.len() == msix.applications.len(),
        forall|i: int|
            0 <= i < r.applications.len() ==> application_of(
                #[trigger] r.applications@[i],
                msix.applications@[i],
                msix.logo@,
            ),
        families_of(r.device_families@, msix.target_device_families@),
        r.capabilities.deep_view() == msix.capabilities.deep_view(),
        r.device_capabilities.deep_view() == msix.device_capabilities.deep_view(),
        r.restricted.deep_view() == restricted_of(
            msix.restricted.deep_view(),
            needs_full_trust(msix.applications@),
        ),
{
    let mut applications: Vec<MsixApplication> = Vec::new();
    let mut full_trust = false;
    let full = chars_of("Windows.FullTrustApplication");
    let mut i: usize = 0;
    while i < msix.applications.len()
        invariant
            i <= msix.applications.len(),
            full@ == "Windows.FullTrustApplication"@,
            applications@.len() == i,
            forall|k: int|
                0 <= k < i ==> application_of(
                    #[trigger] applications@[k],
                    msix.applications@[k],
                    msix.logo@,
                ),
            full_trust <==> exists|k: int|
                0 <= k < i && entry_point_of(#[trigger] msix.applications@[k].entry_point@)
                    == "Windows.FullTrustApplication"@,
        decreases msix.applications.len() - i,
    {
        let app = application_from(&msix.applications[i], &msix.logo);
        if seq_eq(chars_of(app.entry_point.as_str()).as_slice(), full.as_slice()) {
            full_trust = true;
        }
        applications.push(app);
        i = i + 1;
    }
    let mut restricted = copy_strings(&msix.restricted);
    if full_trust {
        let run = "runFullTrust";
        let mut listed = false;
        let mut k: usize = 0;
        while k < restricted.len()
            invariant
                k <= restricted.len(),
                restricted.deep_view() == msix.restricted.deep_view(),
                listed <==> exists|j: int| 0 <= j < k && restricted.deep_view()[j] == run@,
            decreases restricted.len() - k,
        {
            assert(restricted.deep_view()[k as int] == restricted@[k as int]@);
            if seq_eq(chars_of(restricted[k].as_str()).as_slice(), chars_of(run).as_slice()) {
                listed = true;
            }
            k = k + 1;
        }
        if !listed {
            let ghost before = restricted.deep_view();
            restricted.push(run.to_string());
            assert(restricted.deep_view() =~= before.push(run@));
        }
    }
    MsixManifest {
        name: name.to_string(),
        version: version.to_string(),
        publisher: msix.publisher.clone(),
        arch: arch.to_string(),
        resource_id: msix.resource_id.clone(),
        display_name: msix.display_name.clone(),
        publisher_display_name: msix.publisher_display_name.clone(),
        description: description.to_string(),
        logo: msix.logo.clone(),
        applications,
        device_families: families_from(&msix.target_device_families),
        capabilities: copy_strings(&msix.capabilities),
        device_capabilities: copy_strings(&msix.device_capabilities),
        restricted,
    }
}

/// The file name of the built package: `<package>_<version>_<arch>.msix`.
pub fn msix_file_name(package: &str, version: &str, arch: &str) -> (r: String)
    ensures
        r@ == package@ + "_"@ + version@ + "_"@ + arch@ + ".msix"@,
{
    let mut s = package.to_string();
    s.append("_");
    s.append(version);
    s.append("_");
    s.append(arch);
    s.append(".msix");
    s
}

} // verus!
