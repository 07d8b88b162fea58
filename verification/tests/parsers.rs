use lx_plugins::plugins::registry::cargo::{
    cargo_install_spec, crates2_install_keys, extract_cargo_version,
};
use lx_plugins::plugins::registry::composer::{composer_dir_name, extract_composer_version};
use lx_plugins::plugins::registry::cpan::cpan_version;
use lx_plugins::plugins::registry::dart::{dart_cache_is, dart_version};
use lx_plugins::plugins::registry::go::{
    finalize_main_packages, go_dep_spec, go_description, go_package_path, go_resolved_version,
    is_go_source, skip_go_dir,
};
use lx_plugins::plugins::registry::hex::{hex_dir_is, hex_version};
use lx_plugins::plugins::registry::maven::{is_main_jar, pom_xml};
use lx_plugins::plugins::registry::nuget::nuspec_version;
use lx_plugins::plugins::registry::python::read_sdist_description;
use lx_plugins::scandeps::{pacman_depends, pkg_file_list, pkg_owner, rpm_requires, PkgMgr};

fn strings(v: &[&str]) -> Vec<String> {
    v.iter().map(|s| s.to_string()).collect()
}

#[test]
fn cargo_versions() {
    let json = r#"{"installs":{"ripgrep 14.1.0 (registry+https://github.com/rust-lang/crates.io-index)":{}}}"#;
    let keys = crates2_install_keys(json).unwrap();
    assert_eq!(keys, strings(&["ripgrep 14.1.0 (registry+https://github.com/rust-lang/crates.io-index)"]));
    assert_eq!(crates2_install_keys("not json"), None);
    assert_eq!(crates2_install_keys(r#"{"other":1}"#), None);
    assert_eq!(extract_cargo_version(Some(&keys), None, "ripgrep"), "14.1.0");
    let toml = "[v1]\n  version = \"2.0.1\"\n";
    assert_eq!(extract_cargo_version(None, Some(toml), "ripgrep"), "2.0.1");
    assert_eq!(extract_cargo_version(Some(&strings(&["fd 1.0"])), Some("x"), "ripgrep"), "0.0.0");
    assert_eq!(cargo_install_spec("ripgrep", " "), "ripgrep");
    assert_eq!(cargo_install_spec("ripgrep", "14.1.0"), "ripgrep@14.1.0");
}

#[test]
fn composer_versions() {
    assert_eq!(composer_dir_name("vendor/tool"), "tool");
    assert_eq!(composer_dir_name("tool"), "tool");
    let lock = r#"{"packages":[{"name":"a/b","version":"v1.2.0"}],"packages-dev":[{"name":"c/d","version":"2.0"}]}"#;
    assert_eq!(extract_composer_version(Some(lock), "a/b"), "1.2.0");
    assert_eq!(extract_composer_version(Some(lock), "c/d"), "2.0");
    assert_eq!(extract_composer_version(Some(lock), "x/y"), "0.0.0");
    assert_eq!(extract_composer_version(Some("{"), "a/b"), "0.0.0");
    assert_eq!(extract_composer_version(None, "a/b"), "0.0.0");
}

#[test]
fn cpan_versions() {
    let pod = "=head2 Wed Jan 1 2025: C<Module> L<App::Tool|App::Tool>\n\n  * \"VERSION: 1.23\"\n";
    assert_eq!(cpan_version(Some("L<App::Tool> VERSION: 1.23 more"), None, "App::Tool"), "1.23");
    assert_eq!(cpan_version(Some(pod), Some("4.5\n"), "App::Tool"), "4.5");
    assert_eq!(cpan_version(None, Some(" 0.0.0 "), "App::Tool"), "0.0.0");
    assert_eq!(cpan_version(None, None, "App::Tool"), "0.0.0");
}

#[test]
fn dart_and_hex_versions() {
    let lock = "packages:\n  args:\n    dependency: transitive\n    version: \"2.4.2\"\n  tool:\n    dependency: \"direct main\"\n    version: \"1.0.0\"\n";
    // The entry key is looked for with its two-space indent at the start of
    // the trimmed line, which never holds it: the lock gives no version.
    assert_eq!(dart_version(Some(lock), "tool"), "0.0.0");
    assert_eq!(dart_version(Some(lock), "args"), "0.0.0");
    assert_eq!(dart_version(None, "tool"), "0.0.0");
    assert!(dart_cache_is("tool-1.0.0", "tool", "1.0.0"));
    assert!(dart_cache_is("tool-9", "tool", "any"));
    assert!(!dart_cache_is("tooling-1.0.0", "tool", "1.0.0"));
    let mix = "%{\n  \"jason\": {:hex, :jason, \"1.4.1\", \"hash\", [:mix], [], \"hexpm\", \"x\"},\n}\n";
    assert_eq!(hex_version(Some(mix), "jason"), "1.4.1");
    assert_eq!(hex_version(Some(mix), "plug"), "0.0.0");
    assert_eq!(hex_version(None, "jason"), "0.0.0");
    assert!(hex_dir_is("my_app", "my-app"));
    assert!(hex_dir_is("my-app", "my-app"));
    assert!(!hex_dir_is("other", "my-app"));
}

#[test]
fn nuget_and_maven() {
    assert_eq!(
        nuspec_version("<package>\n  <metadata>\n    <version> 6.0.1 </version>\n").as_deref(),
        Some("6.0.1")
    );
    assert_eq!(nuspec_version("<metadata/>"), None);
    assert!(is_main_jar("tool-1.0.jar"));
    assert!(!is_main_jar("tool-1.0-sources.jar"));
    assert!(!is_main_jar("tool-1.0-javadoc.jar"));
    let pom = pom_xml("g", "a", "1.0");
    assert!(pom.starts_with("<?xml version=\"1.0\" encoding=\"UTF-8\"?>\n"));
    assert!(pom.contains("<groupId>g</groupId>\n            <artifactId>a</artifactId>\n            <version>1.0</version>"));
    assert!(pom.ends_with("</project>\n"));
}

#[test]
fn go_modules() {
    assert_eq!(go_dep_spec("example.com/m", " "), "example.com/m");
    assert_eq!(go_dep_spec("example.com/m", " v1.2.0 "), "example.com/m@v1.2.0");
    assert_eq!(go_resolved_version(true, br#"{"Path":"m","Version":"v1.2.0"}"#, "x"), "v1.2.0");
    assert_eq!(go_resolved_version(true, b"garbage", "x"), "0.0.0");
    assert_eq!(go_resolved_version(false, b"", " latest "), "latest");
    assert_eq!(go_description("", "example.com/m"), "Go CLI tool from example.com/m");
    assert_eq!(go_description("mine", "example.com/m"), "mine");
    assert!(is_go_source("main.go"));
    assert!(!is_go_source("main_test.go"));
    assert!(!is_go_source("README.md"));
    assert!(skip_go_dir("vendor") && skip_go_dir(".git") && skip_go_dir("testdata"));
    assert!(!skip_go_dir("cmd"));
    assert_eq!(go_package_path("example.com/m", "."), "example.com/m");
    assert_eq!(go_package_path("example.com/m", "cmd\\tool"), "example.com/m/cmd/tool");
    let found = strings(&["example.com/m/cmd/tool", "example.com/m/cmd/a", "example.com/m/cmd/tool"]);
    assert_eq!(
        finalize_main_packages(&found, "example.com/m"),
        strings(&["example.com/m", "example.com/m/cmd", "example.com/m/cmd/a", "example.com/m/cmd/tool"])
    );
    assert_eq!(
        finalize_main_packages(&strings(&["a/x", "a/y", "a/x"]), "b"),
        strings(&["a/x", "a/y", "a/x"])
    );
}

#[test]
fn python_descriptions() {
    let pyproject = "[build-system]\ndescription = \"no\"\n[project]\nname = \"x\"\ndescription = \"A tool\"\n";
    assert_eq!(read_sdist_description("", Some(pyproject), None, None), "A tool");
    assert_eq!(read_sdist_description("given", Some(pyproject), None, None), "given");
    let cfg = "[metadata]\ndescription = From cfg \n";
    assert_eq!(read_sdist_description("", Some("[tool]\n"), Some(cfg), None), "From cfg");
    let py = "setup(\n    description='From py',\n)\n";
    assert_eq!(read_sdist_description("", None, None, Some(py)), "From py");
    assert_eq!(read_sdist_description("", None, None, None), "");
}

#[test]
fn host_package_queries() {
    let req = "/bin/sh\nrpmlib(PayloadIsZstd) <= 5.4.18-1\nconfig(tool) = 1.0\nlibfoo >= 1.0\n\nglibc\n";
    assert_eq!(rpm_requires(req), strings(&["libfoo", "glibc"]));
    let qi = "Name            : tool\nDepends On      : glibc  openssl>=3.0\n                  zlib\nOptional Deps   : None\n";
    // The field name pads to the colon with five spaces, as pacman prints it.
    let qi = qi.replace("Depends On      :", "Depends On     :");
    assert_eq!(pacman_depends(&qi), strings(&["glibc", "openssl", "zlib"]));
    assert_eq!(pacman_depends("Depends On     : None\n"), strings(&[]));
    assert_eq!(
        pkg_file_list(PkgMgr::Pacman, "tool /usr/\ntool /usr/bin/tool\n"),
        strings(&["/usr/", "/usr/bin/tool"])
    );
    assert_eq!(pkg_file_list(PkgMgr::Dpkg, " /.\n/usr/bin/tool \n"), strings(&["/.", "/usr/bin/tool"]));
    assert_eq!(
        pkg_owner(Some("libssl3:amd64: /usr/lib/libssl.so.3\n"), Some("openssl-libs-3-1.x86_64\n"), None).as_deref(),
        Some("libssl3")
    );
    assert_eq!(pkg_owner(None, Some("zlib-1.2\n"), None).as_deref(), Some("zlib"));
    assert_eq!(
        pkg_owner(Some(""), Some("no package provides x\n"), Some("/usr/lib/x is owned by foo 1-1\n")).as_deref(),
        Some("foo")
    );
    assert_eq!(pkg_owner(None, None, None), None);
}
