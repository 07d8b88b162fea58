use lx_plugins::plugins::package_index::keyvalue::KeyValues;
use lx_plugins::rpmarchive::PackageMeta;
use lx_plugins::source::{
    debian_source_names, find_ref_arch, find_ref_deb, find_ref_rpm, license_or, quote_array,
    render_control, render_dsc, render_pkgbuild, render_rpm_spec, srpm_description, srpm_names,
    unique_dists, unique_dists_rpm, DebianConstants, DscFile, PacmanRelations, Pkg,
};

fn names(v: &[&str]) -> Vec<String> {
    v.iter().map(|s| s.to_string()).collect()
}

fn pkg() -> Pkg {
    Pkg {
        name: "eza".to_string(),
        github_repo: "eza-community/eza".to_string(),
        description: "A modern \"ls\"".to_string(),
        maintainer: "Jane <jane@example.org>".to_string(),
        version: "0.23.5".to_string(),
        build_version: "1".to_string(),
        epoch: String::new(),
        license_spdx: "MIT".to_string(),
        depends: String::new(),
        recommends: String::new(),
        suggests: String::new(),
        conflicts: String::new(),
        replaces: String::new(),
        provides: String::new(),
        breaks: String::new(),
        predepends: String::new(),
        section: String::new(),
        priority: " optional ".to_string(),
        fields: KeyValues { pairs: vec![] },
        published_at: None,
        license: None,
    }
}

fn constants() -> DebianConstants {
    DebianConstants {
        standards_version: "4.7.0".to_string(),
        build_depends: "debhelper-compat (= 13)".to_string(),
        default_section: "utils".to_string(),
        default_priority: "optional".to_string(),
    }
}

#[test]
fn debian_dists_are_listed_once_in_order() {
    let files = names(&[
        "eza_0.23.5-1+bookworm_amd64.deb",
        "eza_0.23.5-1+trixie_arm64.deb",
        "eza_0.23.5-1+bookworm_arm64.deb",
        "other_1.0-1+sid_amd64.deb",
        "eza_0.23.5-1+noble_amd64.rpm",
        "eza_0.23.5-1_amd64.deb",
    ]);
    // The last name has no '+': the whole "<ver>-<build>" counts as the dist,
    // as `rsplit('+').next()` gives it.
    assert_eq!(unique_dists(&files, "eza"), names(&["bookworm", "trixie", "0.23.5-1"]));
}

#[test]
fn reference_deb_prefers_amd64() {
    let files = names(&[
        "eza_0.23.5-1+bookworm_arm64.deb",
        "eza_0.23.5-1+bookworm_amd64.deb",
        "eza_0.23.5-1+trixie_arm64.deb",
    ]);
    assert_eq!(
        find_ref_deb(&files, "eza", "bookworm").as_deref(),
        Some("eza_0.23.5-1+bookworm_amd64.deb")
    );
    assert_eq!(
        find_ref_deb(&files, "eza", "trixie").as_deref(),
        Some("eza_0.23.5-1+trixie_arm64.deb")
    );
    assert_eq!(find_ref_deb(&files, "eza", "sid"), None);
}

#[test]
fn rpm_dists_and_reference_rpm() {
    let files = names(&[
        "eza-0.23.5-1.fc41.aarch64.rpm",
        "eza-0.23.5-1.fc41.x86_64.rpm",
        "eza-0.23.5-1.el9.aarch64.rpm",
        "eza-0.23.5-1.fc41.src.rpm",
        "eza-notes.txt",
    ]);
    assert_eq!(unique_dists_rpm(&files, "eza"), names(&["fc41", "el9"]));
    assert_eq!(
        find_ref_rpm(&files, "eza", "0.23.5", "fc41"),
        Some(("eza-0.23.5-1.fc41.x86_64.rpm".to_string(), "1.fc41".to_string()))
    );
    assert_eq!(
        find_ref_rpm(&files, "eza", "0.23.5", "el9"),
        Some(("eza-0.23.5-1.el9.aarch64.rpm".to_string(), "1.el9".to_string()))
    );
    assert_eq!(find_ref_rpm(&files, "eza", "0.23.5", "fc40"), None);
}

#[test]
fn reference_arch_package_with_and_without_epoch() {
    let files = names(&[
        "eza-0.23.5-1-aarch64.pkg.tar.zst",
        "eza-0.23.5-1-x86_64.pkg.tar.zst",
        "eza-2:0.23.5-3-aarch64.pkg.tar.zst",
    ]);
    assert_eq!(
        find_ref_arch(&files, "eza", "0.23.5", ""),
        Some(("eza-0.23.5-1-x86_64.pkg.tar.zst".to_string(), "1".to_string()))
    );
    assert_eq!(
        find_ref_arch(&files, "eza", "0.23.5", " 2 "),
        Some(("eza-2:0.23.5-3-aarch64.pkg.tar.zst".to_string(), "3".to_string()))
    );
    assert_eq!(find_ref_arch(&files, "eza", "0.24.0", ""), None);
}

#[test]
fn debian_source_file_names() {
    let n = debian_source_names("eza", "0.23.5", "1", "bookworm");
    assert_eq!(n.src_version, "0.23.5-1+bookworm");
    assert_eq!(n.tree, "eza-0.23.5-1+bookworm");
    assert_eq!(n.orig_name, "eza_0.23.5.orig.tar.xz");
    assert_eq!(n.debian_tar_name, "eza_0.23.5-1+bookworm.debian.tar.xz");
    assert_eq!(n.dsc_name, "eza_0.23.5-1+bookworm.dsc");
}

#[test]
fn dsc_file_digests() {
    let f = DscFile::from_bytes("a.tar.xz".to_string(), b"abc");
    assert_eq!(f.name, "a.tar.xz");
    assert_eq!(f.size, 3);
    assert_eq!(f.md5, "900150983cd24fb0d6963f7d28e17f72");
    assert_eq!(f.sha1, "a9993e364706816aba3e25717850c26c9cd0d89d");
    assert_eq!(f.sha256, "ba7816bf8f01cfea414140de5dae2223b00361a396177a9cb410ff61f20015ad");
    let e = DscFile::from_bytes("e".to_string(), b"");
    assert_eq!(e.md5, "d41d8cd98f00b204e9800998ecf8427e");
    assert_eq!(e.sha1, "da39a3ee5e6b4b0d3255bfef95601890afd80709");
    assert_eq!(e.sha256, "e3b0c44298fc1c149afbf4c8996fb92427ae41e4649b934ca495991b7852b855");
}

#[test]
fn dsc_text_lists_orig_before_debian() {
    let orig = DscFile::from_bytes("eza_0.23.5.orig.tar.xz".to_string(), b"abc");
    let deb = DscFile::from_bytes("eza_0.23.5-1+bookworm.debian.tar.xz".to_string(), b"");
    let text = render_dsc(
        &pkg(),
        "0.23.5-1+bookworm",
        "https://github.com/eza-community/eza",
        &constants(),
        &orig,
        &deb,
    );
    let expected = "Format: 3.0 (quilt)\n\
Source: eza\n\
Binary: eza\n\
Architecture: any\n\
Version: 0.23.5-1+bookworm\n\
Maintainer: Jane <jane@example.org>\n\
Homepage: https://github.com/eza-community/eza\n\
Standards-Version: 4.7.0\n\
Build-Depends: debhelper-compat (= 13)\n\
Package-List:\n \
eza deb utils optional arch=any\n\
Checksums-Sha1:\n \
a9993e364706816aba3e25717850c26c9cd0d89d 3 eza_0.23.5.orig.tar.xz\n \
da39a3ee5e6b4b0d3255bfef95601890afd80709 0 eza_0.23.5-1+bookworm.debian.tar.xz\n\
Checksums-Sha256:\n \
ba7816bf8f01cfea414140de5dae2223b00361a396177a9cb410ff61f20015ad 3 eza_0.23.5.orig.tar.xz\n \
e3b0c44298fc1c149afbf4c8996fb92427ae41e4649b934ca495991b7852b855 0 eza_0.23.5-1+bookworm.debian.tar.xz\n\
Files:\n \
900150983cd24fb0d6963f7d28e17f72 3 eza_0.23.5.orig.tar.xz\n \
d41d8cd98f00b204e9800998ecf8427e 0 eza_0.23.5-1+bookworm.debian.tar.xz\n";
    assert_eq!(text, expected);
}

#[test]
fn control_text_with_relations_and_fields() {
    let mut p = pkg();
    p.fields = KeyValues {
        pairs: vec![("X-Origin".to_string(), "lx".to_string())],
    };
    let text = render_control(&p, "https://example.org", "Depends: libc6\n", &constants());
    assert_eq!(
        text,
        "Source: eza\nSection: utils\nPriority: optional\nMaintainer: Jane <jane@example.org>\n\
Homepage: https://example.org\nStandards-Version: 4.7.0\nBuild-Depends: debhelper-compat (= 13)\n\n\
Package: eza\nArchitecture: any\nDescription: A modern \"ls\"\n \
Packaged from the upstream release for Debian.\nDepends: libc6\nX-Origin: lx\n"
    );
}

#[test]
fn srpm_naming_and_texts() {
    assert_eq!(
        srpm_description("tool", "https://h"),
        "tool\nPackaged from the upstream release (https://h) for RPM-based distributions."
    );
    assert_eq!(license_or("  ", "NOASSERTION"), "NOASSERTION");
    assert_eq!(license_or(" MIT ", "NOASSERTION"), "MIT");
    let (spec, source, srpm) = srpm_names("eza", "0.23.5", "1.fc41");
    assert_eq!(spec, "eza.spec");
    assert_eq!(source, "eza-0.23.5.tar.xz");
    assert_eq!(srpm, "eza-0.23.5-1.fc41.src.rpm");
}

#[test]
fn rpm_spec_text_with_changelog_date() {
    let meta = PackageMeta {
        name: "eza",
        version: "0.23.5",
        release: "1.fc41",
        summary: "ls",
        description: "ls\nmore",
        license: "MIT",
        vendor: None,
        packager: Some("J"),
    };
    let spec = render_rpm_spec(&meta, "J <j@x>", "https://h", "eza-0.23.5.tar.xz", 0);
    let expected = "Name: eza\nVersion: 0.23.5\nRelease: 1.fc41\nSummary: ls\nLicense: MIT\nURL: https://h\n\
Source0: eza-0.23.5.tar.xz\n\n%description\nls\nmore\n\n%prep\n%setup -q -c -n eza-0.23.5\n\n\
%build\n# Pre-built upstream binary; nothing to compile.\n\n%install\nrm -rf %{buildroot}\n\
mkdir -p %{buildroot}\ncp -a usr %{buildroot}/\n\n%files\n/usr/*\n\n%changelog\n\
* Thu Jan 01 1970 J <j@x>\n- Packaged 0.23.5-1.fc41 from the upstream release for RPM-based distributions.\n";
    assert_eq!(spec, expected);
}

#[test]
fn quote_array_escapes_single_quotes() {
    assert_eq!(quote_array(&names(&[])), "");
    assert_eq!(quote_array(&names(&["glibc", "it's"])), "'glibc' 'it'\\''s'");
}

#[test]
fn pkgbuild_text() {
    let mut p = pkg();
    p.epoch = " 2 ".to_string();
    let rel = PacmanRelations {
        depends: names(&["glibc"]),
        recommends: names(&["git"]),
        suggests: names(&["fzf"]),
        provides: vec![],
        conflicts: names(&["exa"]),
        breaks: vec![],
        replaces: vec![],
    };
    let text = render_pkgbuild(
        &p,
        "0.23.5",
        "1",
        "https://h",
        "MIT",
        "eza-0.23.5.tar.xz",
        "abc",
        &rel,
    );
    let expected = "# Packaged from the upstream release for Arch Linux (generated by lx).\n\
pkgname=eza\npkgver=0.23.5\npkgrel=1\nepoch=2\npkgdesc=\"A modern \\\"ls\\\"\"\n\
arch=('x86_64' 'aarch64')\nurl=\"https://h\"\nlicense=('MIT')\n\
depends=('glibc')\noptdepends=('git' 'fzf')\nconflicts=('exa')\n\
source=(\"eza-0.23.5.tar.xz\")\nsha256sums=('abc')\n\npackage() {\n\tcp -a usr \"$pkgdir/\"\n}\n";
    assert_eq!(text, expected);
}
