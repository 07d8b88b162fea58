use lx_plugins::plugins::package_index::{
    all_index_backends, backend_ids, canonical_id, get_index_backend, resolve_format, Capabilities,
};

#[test]
fn format_aliases_resolve_to_canonical_ids() {
    assert_eq!(resolve_format("deb"), Some("apt"));
    assert_eq!(resolve_format("ipk"), Some("opkg"));
    assert_eq!(resolve_format("arch"), Some("pacman"));
    assert_eq!(resolve_format("apk"), Some("apk"));
    assert_eq!(resolve_format("rpm"), Some("rpm"));
    assert_eq!(resolve_format("  DEB "), Some("apt"));
    assert_eq!(resolve_format("lx-community"), None);
    assert_eq!(resolve_format("nope"), None);
}

#[test]
fn canonical_id_accepts_ids_and_format_aliases() {
    for id in backend_ids() {
        assert_eq!(canonical_id(id), Some(id), "id {id} did not round-trip");
    }
    assert_eq!(canonical_id("arch"), Some("pacman"));
    assert_eq!(canonical_id("PACMAN"), Some("pacman"));
    assert_eq!(canonical_id(" repology "), Some("repology"));
    assert_eq!(canonical_id("not-a-backend"), None);
}

#[test]
fn capabilities_report_roles() {
    assert!(Capabilities::read().can_read());
    assert!(!Capabilities::read().can_write());
    assert!(Capabilities::write().can_write());
    assert!(!Capabilities::write().can_read());
    assert!(Capabilities::read_write().can_read());
    assert!(Capabilities::read_write().can_write());
    assert!(Capabilities::none().is_empty());
    assert_eq!(
        Capabilities::read().union(Capabilities::write()),
        Capabilities::read_write()
    );
    assert_eq!(Capabilities::read_write().role_name(), "read+write");
    assert_eq!(Capabilities::write().role_name(), "write");
}

#[test]
fn registry_covers_backend_ids() {
    let ids: Vec<&str> = all_index_backends().iter().map(|b| b.id).collect();
    assert_eq!(ids, backend_ids());
    for id in backend_ids() {
        let backend = get_index_backend(id).unwrap_or_else(|| panic!("missing backend {id}"));
        assert_eq!(backend.id, id);
        assert!(!backend.capabilities.is_empty());
    }
}
