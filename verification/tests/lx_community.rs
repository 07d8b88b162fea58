use lx_plugins::plugins::package_index::lx_community::{
    parse_checksums, parse_prebuilt_name, plan_prebuilt, select_prebuilt, ChecksumError,
    LxCommunitySource, ParsedName, PrebuiltPlan,
};

#[test]
fn prebuilt_names_carry_arch_and_dist() {
    assert_eq!(
        parse_prebuilt_name("eza_0.20.0-1+bookworm_amd64.deb"),
        Some(ParsedName { arch: "amd64".into(), dist: "bookworm".into() })
    );
    assert_eq!(
        parse_prebuilt_name("eza_0.20.0-1_arm64.deb"),
        Some(ParsedName { arch: "arm64".into(), dist: "".into() })
    );
    assert_eq!(
        parse_prebuilt_name("eza_0.20.0-1+arch_x86_64.pkg.tar.zst"),
        Some(ParsedName { arch: "x86_64".into(), dist: "arch".into() })
    );
    assert_eq!(parse_prebuilt_name("noextension"), None);
    assert_eq!(parse_prebuilt_name("no-underscore.deb"), None);
}

#[test]
fn x86_64_prebuilt_names_keep_the_whole_arch() {
    assert_eq!(
        parse_prebuilt_name("eza_1.0-1+fc40_x86_64.rpm"),
        Some(ParsedName { arch: "x86_64".into(), dist: "fc40".into() })
    );
    assert_eq!(
        parse_prebuilt_name("eza_1.0-1_x86_64.deb"),
        Some(ParsedName { arch: "x86_64".into(), dist: "".into() })
    );
    assert_eq!(parse_prebuilt_name("README"), None);
    // without `-{build}` the arch follows the last `_`
    assert_eq!(
        parse_prebuilt_name("tool_1.0_amd64.deb"),
        Some(ParsedName { arch: "amd64".into(), dist: "".into() })
    );
    assert_eq!(
        parse_prebuilt_name("tool_1-1_hurd-i386.deb"),
        Some(ParsedName { arch: "hurd-i386".into(), dist: "".into() })
    );
}

#[test]
fn selects_an_x86_64_prebuilt() {
    let a = "a".repeat(64);
    let b = "b".repeat(64);
    let text = format!("{a}  eza_1.0-1+fc40_x86_64.rpm\n{b}  eza_1.0-1+fc40_aarch64.rpm\n");
    let kv = parse_checksums(&text).unwrap();
    let picked = select_prebuilt(&kv, ".rpm", "x86_64", "fc40").unwrap();
    assert_eq!(picked, ("eza_1.0-1+fc40_x86_64.rpm".to_string(), a));
    assert_eq!(select_prebuilt(&kv, ".rpm", "x86_64", "fc41"), None);
}

#[test]
fn checksum_lists_map_names_to_digests() {
    let sha = "a".repeat(64);
    let text = format!("# comment\n\n{sha}  *eza_1_amd64.deb\nshort  skipped.deb\n");
    let kv = parse_checksums(&text).unwrap();
    assert_eq!(kv.get("eza_1_amd64.deb").map(|s| s.as_str()), Some(sha.as_str()));
    assert_eq!(kv.get("skipped.deb"), None);
    assert_eq!(parse_checksums("deadbeef-no-separator").unwrap_err(), ChecksumError::MissingFilename);
}

#[test]
fn selects_the_first_fitting_prebuilt_by_name() {
    let a = "a".repeat(64);
    let b = "b".repeat(64);
    let c = "c".repeat(64);
    let text = format!(
        "{c}  tool_1-1+bookworm_amd64.deb\n{a}  tool_1-1_amd64.deb\n{b}  tool_1-1_arm64.deb\n"
    );
    let kv = parse_checksums(&text).unwrap();
    let picked = select_prebuilt(&kv, ".deb", "amd64", "bookworm").unwrap();
    assert_eq!(picked, ("tool_1-1+bookworm_amd64.deb".to_string(), c.clone()));
    let picked = select_prebuilt(&kv, ".deb", "amd64", "trixie").unwrap();
    assert_eq!(picked, ("tool_1-1_amd64.deb".to_string(), a));
    assert_eq!(select_prebuilt(&kv, ".rpm", "amd64", "trixie"), None);
}

#[test]
fn descriptions_come_from_the_recipe() {
    let yaml = "name: eza\n  description: \"A modern ls\"\nsummary: other\n";
    assert_eq!(LxCommunitySource::desc_from_yaml(yaml), "A modern ls");
    assert_eq!(LxCommunitySource::desc_from_yaml("summary: \"\"\nsummary: x\n"), "x");
    assert_eq!(LxCommunitySource::desc_from_yaml("name: y\n"), "");
}

#[test]
fn prebuilt_dirs_and_staleness() {
    let s = LxCommunitySource::with_cache_base("lx", Some("/c".to_string()));
    assert_eq!(s.cache, "/c/lx/index");
    assert_eq!(s.prebuilt_dir("eza", "v1.0"), "/c/lx/index/recipes/eza/releases/v1.0");
    assert_eq!(LxCommunitySource::stale(Some(3600 * 30)), Some(30));
    assert_eq!(LxCommunitySource::stale(Some(3600 * 2)), None);
    assert_eq!(LxCommunitySource::stale(None), None);
}

#[test]
fn releases_are_tried_in_order_before_building() {
    let a = "a".repeat(64);
    let b = "b".repeat(64);
    let old = parse_checksums(&format!("{a}  eza_1-1_amd64.deb\n")).unwrap();
    let other = parse_checksums(&format!("{b}  eza_2-1_arm64.deb\n")).unwrap();
    let releases = vec![None, Some(other.clone()), Some(old.clone())];
    assert_eq!(
        plan_prebuilt(&releases, ".deb", "amd64", "bookworm", false),
        PrebuiltPlan::Install { tag: 2, filename: "eza_1-1_amd64.deb".to_string(), sha: a }
    );
    let only_other = vec![Some(other)];
    assert_eq!(plan_prebuilt(&only_other, ".deb", "amd64", "bookworm", true), PrebuiltPlan::NoPrebuiltForTag);
    assert_eq!(plan_prebuilt(&only_other, ".deb", "amd64", "bookworm", false), PrebuiltPlan::BuildFromRecipe);
    assert_eq!(plan_prebuilt(&vec![], ".deb", "amd64", "bookworm", false), PrebuiltPlan::BuildFromRecipe);
}
