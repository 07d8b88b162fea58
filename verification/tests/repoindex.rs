use lx_plugins::plugins::package_index::keyvalue::KeyValues;
use lx_plugins::plugins::repo::opkg::ipk_stanza;
use lx_plugins::plugins::repo::pacman::{desc_member, pacman_desc, pkginfo_depends};
use lx_plugins::repo::{
    packages_index, suite_index_path, union_archs, DebIndexEntry,
    components_of, discover_suites, index_hashes, package_stanza, packages_text, single_release,
    suite_release, top_release,
};

fn strings(v: &[&str]) -> Vec<String> {
    v.iter().map(|s| s.to_string()).collect()
}

fn kv(pairs: &[(&str, &str)]) -> KeyValues {
    KeyValues {
        pairs: pairs.iter().map(|(k, v)| (k.to_string(), v.to_string())).collect(),
    }
}

#[test]
fn index_hash_blocks() {
    assert_eq!(
        index_hashes("main/binary-amd64/Packages", b"abc"),
        "MD5Sum:\n 900150983cd24fb0d6963f7d28e17f72 3 main/binary-amd64/Packages\n\
SHA1:\n a9993e364706816aba3e25717850c26c9cd0d89d 3 main/binary-amd64/Packages\n\
SHA256:\n ba7816bf8f01cfea414140de5dae2223b00361a396177a9cb410ff61f20015ad 3 main/binary-amd64/Packages\n"
    );
}

#[test]
fn package_stanzas_and_index() {
    let ctrl = kv(&[
        ("Package", "eza"),
        ("Version", "0.23.5-1"),
        ("Architecture", "amd64"),
        ("Maintainer", "J"),
        ("Description", "ls"),
    ]);
    let flat = package_stanza(&ctrl, "eza.deb", "", 10, "ff");
    assert_eq!(
        flat,
        "Package: eza\nVersion: 0.23.5-1\nArchitecture: amd64\nMaintainer: J\nDepends: \n\
Description: ls\nFilename: eza.deb\nSize: 10\nSHA256: ff"
    );
    let suite = package_stanza(&ctrl, "eza.deb", "bookworm", 0, "00");
    assert!(suite.contains("\nFilename: dists/bookworm/eza.deb\nSize: 0\n"));
    assert_eq!(packages_text(&strings(&["A: 1", "B: 2"])), "A: 1\n\nB: 2\n");
    assert_eq!(packages_text(&strings(&[])), "\n");
}

#[test]
fn release_files() {
    assert_eq!(components_of("main, contrib,,non-free "), strings(&["main", "contrib", "non-free"]));
    assert_eq!(
        single_release("lx", "stable", "Thu, 01 Jan 1970 00:00:00 UTC", &strings(&["amd64", "arm64"])),
        "Origin: lx\nLabel: lx\nSuite: stable\nCodename: stable\nDate: Thu, 01 Jan 1970 00:00:00 UTC\n\
Architectures: amd64 arm64\nComponents: main\nDescription: lx prebuilt repository (generated by lx repo)\n"
    );
    assert_eq!(
        suite_release("lx", "trixie", "D", &strings(&["amd64"]), &strings(&["main", "contrib"])),
        "Origin: lx\nLabel: lx\nSuite: trixie\nCodename: trixie\nDate: D\nArchitectures: amd64\n\
Components: main contrib\nDescription: lx suite trixie (generated by lx repo)\n"
    );
    assert_eq!(
        top_release("lx", "D", &strings(&["amd64"]), &strings(&["main"]), &strings(&["bookworm", "trixie"])),
        "Origin: lx\nLabel: lx\nDate: D\nArchitectures: amd64\nComponents: main\n\
Suites: bookworm trixie\nDescription: lx multi-suite repository (generated by lx repo)\n"
    );
}

#[test]
fn suites_come_from_visible_directories() {
    assert_eq!(
        discover_suites(&strings(&["trixie", ".git", "bookworm"]), true),
        (strings(&["bookworm", "trixie"]), false)
    );
    assert_eq!(discover_suites(&strings(&[".cache"]), true), (strings(&["stable"]), true));
    assert_eq!(discover_suites(&strings(&[]), false), (strings(&[]), false));
}

#[test]
fn opkg_stanza() {
    let ctrl = kv(&[("Package", "eza"), ("Version", "1"), ("Architecture", "x86_64"), ("Section", "utils")]);
    assert_eq!(
        ipk_stanza(&ctrl, "eza_1_x86_64.ipk", 5, "ab"),
        "Package: eza\nVersion: 1\nArchitecture: x86_64\nMaintainer: \nDepends: \nProvides: \n\
Section: utils\nDescription: \nFilename: eza_1_x86_64.ipk\nSize: 5\nSHA256: ab"
    );
}

#[test]
fn pacman_database_entries() {
    let pkginfo = "pkgname = eza\npkgver = 1-1\n depend = glibc\ndepend = gcc-libs\nmakedepend = cargo\n";
    assert_eq!(pkginfo_depends(pkginfo), strings(&["glibc", "gcc-libs"]));
    let info = kv(&[("pkgname", "eza"), ("pkgver", "1-1"), ("pkgdesc", "ls"), ("arch", "x86_64")]);
    assert_eq!(
        pacman_desc(&info, &strings(&["glibc"]), "eza-1-1-x86_64.pkg.tar.zst", 7, "cd"),
        "%FILENAME%\neza-1-1-x86_64.pkg.tar.zst\n\n%NAME%\neza\n\n%BASE%\neza\n\n%VERSION%\n1-1\n\n\
%DESC%\nls\n\n%CSIZE%\n7\n\n%ISIZE%\n0\n\n%SHA256SUM%\ncd\n\n%ARCH%\nx86_64\n\n%DEPENDS%\nglibc\n\n"
    );
    let info = kv(&[("pkgname", "x"), ("size", "42"), ("license", "MIT")]);
    assert_eq!(
        pacman_desc(&info, &strings(&[]), "f", 0, "s"),
        "%FILENAME%\nf\n\n%NAME%\nx\n\n%BASE%\nx\n\n%VERSION%\n\n\n%DESC%\n\n\n%CSIZE%\n0\n\n\
%ISIZE%\n42\n\n%SHA256SUM%\ns\n\n%ARCH%\n\n\n%LICENSE%\nMIT\n\n"
    );
    assert_eq!(desc_member("eza", "1-1"), "eza-1-1/desc");
}

#[test]
fn package_indexes_and_architectures() {
    let entry = |name: &str, arch: &str| DebIndexEntry {
        control: kv(&[("Package", name), ("Architecture", arch)]),
        file_name: format!("{name}_{arch}.deb"),
        size: 1,
        sha256: "00".to_string(),
    };
    let debs = vec![entry("b", "arm64"), entry("a", "amd64"), entry("c", "amd64")];
    let (packages, archs) = packages_index(&debs, "trixie");
    assert_eq!(archs, strings(&["amd64", "arm64"]));
    assert!(packages.starts_with("Package: b\n"));
    assert!(packages.contains("\nFilename: dists/trixie/a_amd64.deb\n"));
    assert_eq!(packages.matches("\n\nPackage: ").count(), 2);
    assert!(packages.ends_with("SHA256: 00\n"));
    let (flat, _) = packages_index(&debs[..1].to_vec(), "");
    assert!(flat.contains("\nFilename: b_arm64.deb\n"));
    assert_eq!(
        union_archs(&vec![strings(&["arm64", "amd64"]), strings(&["riscv64", "amd64"]), vec![]]),
        strings(&["amd64", "arm64", "riscv64"])
    );
    assert_eq!(suite_index_path("trixie", "Packages.gz"), "dists/trixie/Packages.gz");
}
