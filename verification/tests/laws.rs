use lx_plugins::debversion::debian_version_cmp;
use lx_plugins::digests::{md5_hex, sha1_hex, sha256_hex};
use lx_plugins::plugins::package_index::{backend_ids, canonical_id, resolve_format};
use lx_plugins::plugins::package_index::rpm::xml_escape;
use lx_plugins::plugins::plugin::Plugin;
use lx_plugins::plugins::registry::{get_registry_source, registry_source_names};
use lx_plugins::progress::{Outcome, Progress};
use lx_plugins::sbom::sanitize;
use lx_plugins::sorted::{sort_texts, sorted_set_exec, sorted_unique, sorts_before};
use lx_plugins::source::{unique_dists, unique_dists_rpm};

fn strings(v: &[&str]) -> Vec<String> {
    v.iter().map(|s| s.to_string()).collect()
}

#[test]
fn version_order_is_antisymmetric_on_examples() {
    let vs = ["1.0", "1.0~rc1", "1:0.9", "1.0-1", "1.0-2", "1.0a", "1.0+b1", "", "0"];
    for a in vs {
        assert_eq!(debian_version_cmp(a, a), std::cmp::Ordering::Equal);
        for b in vs {
            assert_eq!(debian_version_cmp(a, b), debian_version_cmp(b, a).reverse(), "{a} vs {b}");
        }
    }
}

#[test]
fn digests_are_lower_case_hex_of_twice_the_length() {
    for data in [&b""[..], &b"abc"[..], &[0xffu8, 0x00, 0x7f][..]] {
        for (h, n) in [(md5_hex(data), 16), (sha1_hex(data), 20), (sha256_hex(data), 32)] {
            assert_eq!(h.len(), 2 * n);
            assert!(h.chars().all(|c| c.is_ascii_digit() || ('a'..='f').contains(&c)));
        }
    }
}

#[test]
fn sanitizing_keeps_length_and_alphabet() {
    for s in ["eza_0.23.5-1+bookworm_amd64.deb", "ä ö/ü", ""] {
        let r = sanitize(s);
        assert_eq!(r.chars().count(), s.chars().count());
        assert!(r.chars().all(|c| c.is_alphanumeric() || c == '-'));
    }
}

#[test]
fn collected_dists_never_repeat() {
    let debs = strings(&[
        "x_1-1+a_amd64.deb",
        "x_1-1+b_amd64.deb",
        "x_1-1+a_arm64.deb",
        "x_1-2+a_amd64.deb",
    ]);
    assert_eq!(unique_dists(&debs, "x"), strings(&["a", "b"]));
    let rpms = strings(&["x-1-1.f1.x86_64.rpm", "x-1-1.f1.aarch64.rpm", "x-1-2.f2.x86_64.rpm"]);
    assert_eq!(unique_dists_rpm(&rpms, "x"), strings(&["f1", "f2"]));
}

#[test]
fn lookups_find_what_they_name() {
    for name in registry_source_names() {
        let found = get_registry_source(name).unwrap();
        assert_eq!(found.name(), name);
    }
    assert!(get_registry_source("no-such-registry").is_none());
}

#[test]
fn escaped_xml_holds_no_markup() {
    let e = xml_escape("<a href=\"x\">Tom & 'Jerry'</a>");
    assert!(!e.contains('<') && !e.contains('>') && !e.contains('"') && !e.contains('\''));
    assert_eq!(xml_escape("a&b"), "a&amp;b");
}

#[test]
fn backend_ids_round_trip_and_aliases_resolve_to_backends() {
    let ids = backend_ids();
    for id in &ids {
        assert_eq!(canonical_id(id), Some(*id));
    }
    for alias in ["deb", "ipk", "arch", "apk", "rpm", " DEB "] {
        let id = resolve_format(alias).unwrap();
        assert!(ids.contains(&id));
    }
}

#[test]
fn sorted_sets_are_strictly_increasing() {
    let v = strings(&["b", "a", "b", "ab", ""]);
    let s = sorted_unique(&v);
    assert_eq!(s, strings(&["", "a", "ab", "b"]));
    assert_eq!(sorted_set_exec(&v), s);
    for w in s.windows(2) {
        assert!(w[0] < w[1]);
    }
    // Sorting alone keeps the duplicates.
    assert_eq!(sort_texts(&v), strings(&["", "a", "ab", "b", "b"]));
}

#[test]
fn text_order_is_total() {
    let xs = ["", "a", "ab", "b", "B", "ä"];
    for a in xs {
        for b in xs {
            let (ca, cb): (Vec<char>, Vec<char>) = (a.chars().collect(), b.chars().collect());
            assert!(a == b || sorts_before(&ca, &cb) || sorts_before(&cb, &ca));
        }
    }
}

#[test]
fn a_later_status_replaces_the_earlier_one() {
    let mut p = Progress::new(2, "v1", "eza", "f".to_string(), false);
    p.set_arch("amd64", "running");
    p.finish_arch("amd64", Outcome::Failed);
    assert_eq!(p.states, vec![("amd64".to_string(), "failed".to_string())]);
    assert_eq!(p.counts(), (0, 1, 0, 0));
}

#[test]
fn finishing_an_arch_records_the_outcome_status() {
    let mut a = Progress::new(3, "v1.0", "eza", "/tmp/p.json".to_string(), true);
    a.set_arch("amd64", "running");
    a.set_arch("arm64", "running");
    let mut b = a.clone();
    a.finish_arch("amd64", Outcome::Completed);
    b.set_arch("amd64", "completed");
    a.finish_arch("riscv64", Outcome::Failed);
    b.set_arch("riscv64", "failed");
    assert_eq!(a.states, b.states);
    assert_eq!(
        a.states,
        vec![
            ("amd64".to_string(), "completed".to_string()),
            ("arm64".to_string(), "running".to_string()),
            ("riscv64".to_string(), "failed".to_string()),
        ]
    );
    assert_eq!((a.file.as_str(), a.package.as_str(), a.version.as_str()), ("/tmp/p.json", "eza", "v1.0"));
    assert_eq!((a.total_archs, a.tty, a.last_len), (b.total_archs, b.tty, b.last_len));
}

#[test]
fn version_order_is_transitive_on_examples() {
    let vs = ["1.0~rc1", "1.0", "1.0-1", "1.00", "1.0a", "1.0+b1", "1:0.1", "2.0", "", "0", "01"];
    for a in vs {
        for b in vs {
            for c in vs {
                if debian_version_cmp(a, b) != std::cmp::Ordering::Greater && debian_version_cmp(b, c) != std::cmp::Ordering::Greater {
                    assert_ne!(debian_version_cmp(a, c), std::cmp::Ordering::Greater, "{a} {b} {c}");
                }
            }
        }
    }
}
