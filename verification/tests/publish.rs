use lx_plugins::publish::{resolve_formats, PublishError};

#[test]
fn resolves_comma_separated_formats() {
    assert_eq!(resolve_formats("deb,rpm").unwrap(), vec!["deb", "rpm"]);
    assert_eq!(
        resolve_formats(" deb , arch ").unwrap(),
        vec!["deb", "arch"]
    );
}

#[test]
fn resolves_single_format() {
    assert_eq!(resolve_formats("deb").unwrap(), vec!["deb"]);
}

#[test]
fn resolves_all_to_every_packager() {
    let all = resolve_formats("all").unwrap();
    assert!(all.contains(&"deb".to_string()));
    assert!(all.contains(&"rpm".to_string()));
    assert!(all.contains(&"arch".to_string()));
}

#[test]
fn empty_selection_is_rejected() {
    assert!(resolve_formats("").is_err());
    assert!(resolve_formats(" , ").is_err());
}

#[test]
fn all_is_case_insensitive_and_trimmed() {
    let all = resolve_formats("  ALL ").unwrap();
    assert_eq!(all, vec!["deb", "rpm", "arch", "apk", "ipk", "msix", "osxpkg"]);
}

#[test]
fn empty_selection_reports_the_error() {
    assert_eq!(resolve_formats(",,").unwrap_err(), PublishError::NoFormatsSelected);
    assert_eq!(
        PublishError::NoFormatsSelected.message(),
        "no formats selected (expected e.g. deb,rpm,arch or all)"
    );
}
