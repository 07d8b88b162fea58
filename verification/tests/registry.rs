use lx_plugins::plugins::package_index::aur::AurSource;
use lx_plugins::plugins::package_index::rpm::xml_escape;
use lx_plugins::plugins::registry::maven::{parse_maven_coordinates, MavenError};
use lx_plugins::plugins::registry::python::extract_sdist_version;
use lx_plugins::plugins::rpm::pick;

#[test]
fn maven_coordinates() {
    assert_eq!(
        parse_maven_coordinates("org.apache.commons:commons-lang3", " 3.12.0 ").unwrap(),
        ("org.apache.commons".into(), "commons-lang3".into(), "3.12.0".into())
    );
    assert_eq!(
        parse_maven_coordinates("g:a", "  ").unwrap(),
        ("g".into(), "a".into(), "latest.release".into())
    );
    assert_eq!(
        parse_maven_coordinates("g:a:1.0", "2.0").unwrap(),
        ("g".into(), "a".into(), "1.0".into())
    );
    assert_eq!(
        parse_maven_coordinates("just-a-name", ""),
        Err(MavenError::BadCoordinates("just-a-name".into()))
    );
    assert!(parse_maven_coordinates("a:b:c:d", "").is_err());
}

#[test]
fn sdist_versions() {
    assert_eq!(extract_sdist_version("foo-1.2.3.tar.gz").as_deref(), Some("1.2.3"));
    assert_eq!(extract_sdist_version("foo-bar-2.0.zip").as_deref(), Some("2.0"));
    assert_eq!(extract_sdist_version("foo-bar.tgz"), None);
    assert_eq!(extract_sdist_version("foo-1.0.whl"), None);
    assert_eq!(extract_sdist_version("a-1-b-2.tar.bz2").as_deref(), Some("2"));
}

#[test]
fn xml_text_is_escaped() {
    assert_eq!(xml_escape("a<b & \"c\" 'd'>"), "a&lt;b &amp; &quot;c&quot; &apos;d&apos;&gt;");
    assert_eq!(xml_escape("plain"), "plain");
}

#[test]
fn preferred_script_unless_blank() {
    assert_eq!(pick("pre.sh", "post.sh"), "pre.sh");
    assert_eq!(pick("  ", "post.sh"), "post.sh");
}

#[test]
fn aur_urls() {
    assert_eq!(AurSource::rpc_url("type=info&arg[]=yay"), "https://aur.archlinux.org/rpc/?v=5&type=info&arg[]=yay");
    assert_eq!(
        AurSource::pkgbuild_url("yay"),
        "https://aur.archlinux.org/cgit/aur.git/plain/PKGBUILD?h=yay"
    );
}
