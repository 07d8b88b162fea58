use lx_plugins::plugins::package_index::repology::{RepologyPackage, RepologyProject, RepologySource};
use lx_plugins::plugins::package_index::SearchError as RepologySearchError;
use lx_plugins::plugins::package_index::aur::{AurResult, AurSource};
use lx_plugins::plugins::package_index::lx_community::{LxCommunitySource, RecipeEntry};
use lx_plugins::relocatable::{is_dynamic_elf, is_elf_magic, patchelf_names, RELOCATABLE_RPATH};
use lx_plugins::search::{
    hit_order, listing, org_hits, org_package, render_hit_line, template_description,
    template_hits, template_short_name, Hit, OrgEntry, SearchError, TemplateEntry,
};
use lx_plugins::show::elf_needs_report;

fn strings(v: &[&str]) -> Vec<String> {
    v.iter().map(|s| s.to_string()).collect()
}

fn package(repo: &str, version: &str, status: &str, summary: Option<&str>, srcname: Option<&str>) -> RepologyPackage {
    RepologyPackage {
        repo: repo.into(),
        srcname: srcname.map(String::from),
        binname: None,
        version: version.into(),
        status: status.into(),
        summary: summary.map(String::from),
        categories: None,
        licenses: None,
        maintainers: None,
    }
}

fn cache() -> Vec<(String, RepologyProject)> {
    vec![
        (
            "eza".to_string(),
            RepologyProject {
                packages: vec![
                    package("arch", "0.23", "newest", Some("modern ls"), Some("eza")),
                    package("debian_12", "0.10", "outdated", None, None),
                ],
                last_updated: 0,
            },
        ),
        (
            "fd".to_string(),
            RepologyProject {
                packages: vec![package("debian_12", "9.0", "newest", None, Some("fd-find"))],
                last_updated: 0,
            },
        ),
    ]
}

#[test]
fn repology_hits_carry_the_summary() {
    let src = RepologySource::with_cache_base("repology", None);
    let c = cache();
    let h = src.project_hit("eza", &c[0].1, Some("debian_12"), true);
    assert_eq!(h.name, "eza");
    assert_eq!(h.description, "modern ls");
    assert_eq!(h.source, "repology");
    assert!(h.installed);
    assert_eq!(h.available, strings(&["0.23"]));
    assert_eq!(h.newest.as_deref(), Some("0.23"));
    assert_eq!((h.repos, h.outdated, h.vulnerable), (2, 1, 0));
    assert_eq!(h.host_version.as_deref(), Some("0.10"));
    assert_eq!(h.host_status.as_deref(), Some("outdated"));
    let h = src.project_hit("eza", &c[0].1, None, false);
    assert_eq!(h.host_version, None);
    assert!(src.info("none", None, None, false).is_none());
    assert_eq!(src.info("fd", Some(&c[1].1), Some("arch"), false).unwrap().host_status, None);
}

#[test]
fn repology_search_matches_names_summaries_and_source_names() {
    let src = RepologySource::with_cache_base("repology", None);
    let c = cache();
    let all = src.search(&c, None, None, &strings(&["fd"])).unwrap();
    assert_eq!(all.len(), 2);
    assert!(!all[0].installed && all[1].installed);
    let by_summary = src.search(&c, Some("MODERN"), None, &vec![]).unwrap();
    assert_eq!(by_summary.len(), 1);
    assert_eq!(by_summary[0].name, "eza");
    let by_src = src.search(&c, Some("find$"), None, &vec![]).unwrap();
    assert_eq!(by_src.len(), 1);
    assert_eq!(by_src[0].name, "fd");
    assert!(src.search(&c, Some("zzz"), None, &vec![]).unwrap().is_empty());
    match src.search(&c, Some("("), None, &vec![]) {
        Err(RepologySearchError::BadPattern(p)) => assert_eq!(p, "("),
        Ok(_) => panic!("an unbalanced group must not compile"),
    }
}

#[test]
fn outdated_packages_list_the_lagging_host_versions() {
    let c = cache();
    let hits = RepologySource::outdated_packages(&c, Some("debian_12"), &strings(&["eza"]));
    assert_eq!(hits.len(), 1);
    let h = &hits[0];
    assert_eq!(h.name, "eza");
    assert_eq!(h.source, "repology");
    assert!(h.installed);
    assert_eq!(h.host_version.as_deref(), Some("0.10"));
    assert_eq!(h.newest.as_deref(), Some("0.23"));
    assert!(RepologySource::outdated_packages(&c, None, &vec![]).is_empty());
}

fn hit(name: &str, desc: &str, installed: bool, iv: Option<&str>, cand: Option<&str>) -> Hit {
    Hit {
        name: name.to_string(),
        desc: desc.to_string(),
        installed,
        installed_version: iv.map(String::from),
        candidate: cand.map(String::from),
    }
}

#[test]
fn exact_matches_come_first_then_names() {
    let hits = vec![
        hit("zoxide", "", false, None, None),
        hit("Eza", "", false, None, None),
        hit("bat", "", false, None, None),
        hit("bat", "second", false, None, None),
    ];
    assert_eq!(hit_order(&hits, Some("eza")), vec![1, 2, 3, 0]);
    assert_eq!(hit_order(&hits, None), vec![1, 2, 3, 0]);
    assert_eq!(hit_order(&hits, Some("bat")), vec![2, 3, 1, 0]);
}

#[test]
fn listing_lines() {
    let hits = vec![
        hit("eza", "A modern ls\nmore text", true, Some("0.23"), Some("0.23")),
        hit("fd", "", false, None, Some("9.0")),
        hit("bat", "cat clone", true, None, None),
    ];
    assert_eq!(
        listing(&hits, false, "none", Some("fd")),
        strings(&["fd  [ candidate 9.0 ]", "bat  cat clone [ installed ]", "eza  A modern ls [ installed 0.23 ]"])
    );
    assert_eq!(listing(&hits, true, "none", None), strings(&["bat", "eza", "fd"]));
    assert_eq!(listing(&vec![], false, "no packages matched", None), strings(&["no packages matched"]));
    assert_eq!(render_hit_line(&hits[1], 5), "fd    [ candidate 9.0 ]");
    assert_eq!(render_hit_line(&hit("x", "", false, None, None), 0), "x");
}

#[test]
fn index_entries() {
    assert_eq!(
        template_description("name: eza\n  description: \"A modern ls\"\nsummary: other\n"),
        "A modern ls"
    );
    assert_eq!(template_description("summary:  short \n"), "short");
    assert_eq!(template_description("name: x\n"), "");
    assert_eq!(org_package("eza-debian").as_deref(), Some("eza"));
    assert_eq!(org_package("eza"), None);
    assert_eq!(template_short_name("rust/eza"), "eza");
    assert_eq!(template_short_name("eza"), "eza");
}

fn org(repo: &str, desc: Option<&str>, full: Option<&str>, iv: Option<&str>, managed: bool, rec: Option<&str>) -> OrgEntry {
    OrgEntry {
        repo_name: repo.to_string(),
        description: desc.map(String::from),
        full_description: full.map(String::from),
        installed_version: iv.map(String::from),
        managed,
        recorded_version: rec.map(String::from),
    }
}

#[test]
fn org_hits_filter_by_pattern_and_state() {
    let entries = vec![
        org("eza-debian", Some("modern ls"), None, Some("0.23"), true, Some("0.23")),
        org("fd-debian", None, Some("simple find"), None, false, Some("")),
        org(".github", Some("profile"), None, None, false, None),
    ];
    let all = org_hits(&entries, None, false, false).unwrap();
    assert_eq!(all.len(), 2);
    assert_eq!(all[0].candidate.as_deref(), Some("0.23"));
    assert_eq!(all[1].desc, "simple find");
    assert_eq!(all[1].candidate, None);
    let found = org_hits(&entries, Some("FIND"), false, false).unwrap();
    assert_eq!(found.len(), 1);
    assert_eq!(found[0].name, "fd");
    let installed = org_hits(&entries, None, true, false).unwrap();
    assert_eq!(installed.len(), 1);
    assert_eq!(installed[0].name, "eza");
    let not_installed = org_hits(&entries, None, false, true).unwrap();
    assert_eq!(not_installed.len(), 1);
    assert_eq!(not_installed[0].name, "fd");
    match org_hits(&entries, Some("["), false, false) {
        Err(SearchError::BadPattern(p)) => assert_eq!(p, "["),
        Ok(_) => panic!("an open class must not compile"),
    }
}

#[test]
fn template_hits_search_the_whole_text() {
    let entries = vec![
        TemplateEntry {
            name: "rust/eza".to_string(),
            body: "description: modern ls\nbuild: cargo\n".to_string(),
            installed_version: None,
            managed: false,
        },
        TemplateEntry {
            name: "go/fzf".to_string(),
            body: "summary: fuzzy finder\n".to_string(),
            installed_version: Some("0.50".to_string()),
            managed: false,
        },
    ];
    let hits = template_hits(&entries, Some("cargo"), false, false).unwrap();
    assert_eq!(hits.len(), 1);
    assert_eq!(hits[0].name, "rust/eza");
    assert_eq!(hits[0].desc, "modern ls (template)");
    assert!(!hits[0].installed);
    let hits = template_hits(&entries, None, true, false).unwrap();
    assert_eq!(hits.len(), 1);
    assert_eq!(hits[0].name, "go/fzf");
    assert_eq!(hits[0].installed_version.as_deref(), Some("0.50"));
    assert!(template_hits(&entries, Some("eza$"), false, false).unwrap().len() == 1);
}

#[test]
fn elf_needs_against_declared_depends() {
    let owners = vec![
        ("libc.so.6".to_string(), Some("libc6:amd64".to_string())),
        ("libself.so.1".to_string(), Some("EZA".to_string())),
        ("libssl.so.3".to_string(), Some("libssl3".to_string())),
        ("libweird.so".to_string(), None),
    ];
    let report = elf_needs_report("eza", &strings(&["LIBC6", "zlib1g"]), &owners);
    assert_eq!(
        report,
        strings(&[
            "\nelf_needs: libc6, libssl3",
            "  \u{26a0} not declared in depends: libssl3",
            "  \u{2139} declared but not in ELF needs: zlib1g",
            "  \u{2139} sonames not resolved locally: libweird.so",
        ])
    );
    assert!(elf_needs_report("eza", &vec![], &vec![]).is_empty());
    let only_self = vec![("libself.so.1".to_string(), Some("eza".to_string()))];
    assert_eq!(elf_needs_report("eza", &vec![], &only_self), strings(&["\nelf_needs: "]));
}

#[test]
fn relocatable_targets() {
    let mut elf = vec![0x7f, b'E', b'L', b'F'];
    elf.extend(vec![0u8; 15]);
    elf[16] = 3;
    assert!(is_elf_magic(&elf));
    assert!(is_dynamic_elf(&elf));
    elf[16] = 1;
    assert!(!is_dynamic_elf(&elf));
    assert!(!is_elf_magic(b"\x7fEL"));
    assert!(!is_dynamic_elf(&elf[..18]));
    assert_eq!(RELOCATABLE_RPATH, "$ORIGIN/../lib");
    assert_eq!(patchelf_names(), vec!["patchelf", "patchelf-stable"]);
}

#[test]
fn community_recipes_match_name_description_or_readme() {
    let recipes = vec![
        ("eza".to_string(), RecipeEntry { yaml: "name: eza\ndescription: modern ls\n".to_string(), readme: None }),
        ("fd".to_string(), RecipeEntry { yaml: "name: fd\n".to_string(), readme: Some("Find files fast".to_string()) }),
    ];
    assert_eq!(LxCommunitySource::search_matches(&recipes, None).unwrap(), vec![0, 1]);
    assert_eq!(LxCommunitySource::search_matches(&recipes, Some("MODERN")).unwrap(), vec![0]);
    assert_eq!(LxCommunitySource::search_matches(&recipes, Some("fast")).unwrap(), vec![1]);
    assert!(LxCommunitySource::search_matches(&recipes, Some("(")).is_err());
    let src = LxCommunitySource::with_cache_base("lx-community", None);
    let hit = src.recipe_hit("eza", &recipes[0].1, strings(&["v0.23.0"]), true);
    assert_eq!(hit.description, "modern ls");
    assert_eq!(hit.source, "lx-community");
    assert_eq!(hit.available, strings(&["v0.23.0"]));
    assert!(hit.installed);
}

#[test]
fn aur_search_hits() {
    assert_eq!(AurSource::search_query(Some("eza")), "type=search&arg=eza");
    assert_eq!(AurSource::search_query(None), "type=info&arg[]=__none__");
    let src = AurSource::new("aur");
    let results = vec![
        AurResult { name: "eza-git".to_string(), description: "ls".to_string(), votes: 12, maintainer: String::new() },
        AurResult { name: String::new(), description: "x".to_string(), votes: 0, maintainer: "m".to_string() },
        AurResult { name: "fd-bin".to_string(), description: "find".to_string(), votes: 0, maintainer: "alice".to_string() },
    ];
    let hits = src.search_hits(&results, &strings(&["fd-bin"]));
    assert_eq!(hits.len(), 2);
    assert_eq!(hits[0].description, "ls (12 votes, maintainer: none)");
    assert!(!hits[0].installed);
    assert_eq!(hits[1].description, "find (0 votes, maintainer: alice)");
    assert!(hits[1].installed);
    assert_eq!(hits[1].available, strings(&["build-from-pkgbuild"]));
    assert_eq!(hits[1].source, "aur");
}
