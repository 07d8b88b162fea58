use std::cmp::Ordering;

use lx_plugins::debversion::{compare_version_part, debian_version_cmp};
use lx_plugins::shlibdeps::{
    find_shlibs_local, parse_shlibs_file, soname_key, split_relation, LibNeeded, ShlibsDb,
};

#[test]
fn debian_versions_order_like_dpkg() {
    assert_eq!(debian_version_cmp("1.0", "1.0"), Ordering::Equal);
    assert_eq!(debian_version_cmp("1.0", "1.0.1"), Ordering::Less);
    assert_eq!(debian_version_cmp("1.0~rc1", "1.0"), Ordering::Less);
    assert_eq!(debian_version_cmp("1:0.1", "2.0"), Ordering::Greater);
    assert_eq!(debian_version_cmp("1.0-1", "1.0-2"), Ordering::Less);
    assert_eq!(debian_version_cmp("2.10", "2.9"), Ordering::Greater);
    assert_eq!(debian_version_cmp("01", "1"), Ordering::Equal);
    assert_eq!(debian_version_cmp("1.0a", "1.0"), Ordering::Greater);
    assert_eq!(debian_version_cmp("1.0+b1", "1.0"), Ordering::Greater);
    assert_eq!(debian_version_cmp("2.36-9+deb12u4", "2.36-9"), Ordering::Greater);
}

#[test]
fn version_parts_compare_by_bytes_and_numbers() {
    assert_eq!(compare_version_part(b"", b""), 0);
    assert_eq!(compare_version_part(b"~", b""), -1);
    assert_eq!(compare_version_part(b"a", b"+"), -1);
    assert_eq!(compare_version_part(b"10", b"9"), 1);
}

#[test]
fn soname_keys_and_relations() {
    assert_eq!(soname_key("libfoo.so.1").as_deref(), Some("libfoo 1"));
    assert_eq!(soname_key("libstdc++.so.6.0.30").as_deref(), Some("libstdc++ 6.0.30"));
    assert_eq!(soname_key("libfoo.so"), None);
    assert_eq!(
        split_relation("libc6 (>= 2.36) | libc6-udeb"),
        ("libc6".to_string(), Some("2.36".to_string()))
    );
    assert_eq!(split_relation("libfoo1"), ("libfoo1".to_string(), None));
    assert_eq!(split_relation("libbar (= )"), ("libbar".to_string(), None));
}

#[test]
fn shlibs_files_list_relations() {
    let text = "# comment\nlibfoo 1 libfoo1 (>= 1.0)\nlibbar 2\n\n  libbaz 3 libbaz3\n";
    assert_eq!(
        parse_shlibs_file(text),
        vec![
            ("libfoo 1".to_string(), "libfoo1 (>= 1.0)".to_string()),
            ("libbaz 3".to_string(), "libbaz3".to_string()),
        ]
    );
}

#[test]
fn shlibs_local_lookup_order() {
    assert_eq!(find_shlibs_local(|p: &str| p == "shlibs.local"), Some("shlibs.local"));
    assert_eq!(find_shlibs_local(|_p: &str| true), Some("debian/shlibs.local"));
    assert_eq!(find_shlibs_local(|_p: &str| false), None);
}

#[test]
fn bare_needs_and_empty_databases() {
    let n = LibNeeded::bare("libz.so.1");
    assert_eq!(n.soname, "libz.so.1");
    assert!(n.symbols.is_empty());
    assert!(ShlibsDb::default().is_empty());
}
