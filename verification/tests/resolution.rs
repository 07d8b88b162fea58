use lx_plugins::progress::{Outcome, Progress};
use lx_plugins::shlibdeps::{
    choose_alternative, resolve, resolve_symbols, virtual_real_name, LibNeeded, ShlibsDb,
    SymbolsStanza,
};

fn strings(v: &[&str]) -> Vec<String> {
    v.iter().map(|s| s.to_string()).collect()
}

fn pair(a: &str, b: &str) -> (String, String) {
    (a.to_string(), b.to_string())
}

fn foo_stanza() -> SymbolsStanza {
    SymbolsStanza {
        soname: "libfoo.so.1".to_string(),
        package: "libfoo1".to_string(),
        min_version: Some("1.0".to_string()),
        symbols: vec![
            (pair("foo", "Base"), "1.2".to_string()),
            (pair("bar", "Base"), "1.5".to_string()),
            (pair("old", "Base"), String::new()),
        ],
    }
}

fn db() -> ShlibsDb {
    ShlibsDb {
        symbols: vec![foo_stanza()],
        shlibs: vec![pair("libbar 2", "libbar2 (>= 2.0) | libbar2t64")],
        local: vec![pair("libold 1", "libold1 (>= 3)")],
        packages: strings(&["libfoo1", "libbar2t64"]),
        provides: vec![pair("libold1", "libold1t64")],
    }
}

#[test]
fn symbols_give_the_highest_minimum() {
    let st = foo_stanza();
    let (rel, missing) = resolve_symbols(&st, &vec![pair("foo", "Base"), pair("baz", "Base")]);
    assert_eq!(rel.as_deref(), Some("libfoo1 (>= 1.2)"));
    assert_eq!(missing, vec![pair("baz", "Base")]);
    let (rel, missing) = resolve_symbols(&st, &vec![pair("foo", "Base"), pair("bar", "Base")]);
    assert_eq!(rel.as_deref(), Some("libfoo1 (>= 1.5)"));
    assert!(missing.is_empty());
    // A known symbol under another tag is not reported; no match falls back
    // to the header minimum.
    let (rel, missing) = resolve_symbols(&st, &vec![pair("foo", "V2"), pair("old", "Base")]);
    assert_eq!(rel.as_deref(), Some("libfoo1 (>= 1.0)"));
    assert!(missing.is_empty());
    let mut anon = foo_stanza();
    anon.package = String::new();
    assert_eq!(resolve_symbols(&anon, &vec![pair("foo", "Base")]), (None, vec![]));
}

#[test]
fn alternatives_prefer_installed_packages() {
    let installed = strings(&["libbar2t64"]);
    assert_eq!(choose_alternative("libbar2 (>= 2.0) | libbar2t64", &installed), "libbar2t64");
    assert_eq!(choose_alternative("libbar2 (>= 2.0) | libbar2t64", &vec![]), "libbar2 (>= 2.0)");
    assert_eq!(choose_alternative(" libx1 ", &installed), "libx1");
    assert_eq!(choose_alternative(" | ", &installed), "|");
    assert_eq!(choose_alternative("a:amd64 | libbar2t64:amd64", &installed), "libbar2t64:amd64");
}

#[test]
fn virtual_packages_map_to_their_provider() {
    let d = db();
    assert_eq!(virtual_real_name(&d, "libold1").as_deref(), Some("libold1t64"));
    assert_eq!(virtual_real_name(&d, "libold1:arm64").as_deref(), Some("libold1t64:arm64"));
    assert_eq!(virtual_real_name(&d, "libfoo1"), None);
    assert_eq!(virtual_real_name(&d, "libnone"), None);
}

#[test]
fn resolution_combines_local_symbols_and_shlibs() {
    let needs = vec![
        LibNeeded { soname: "libfoo.so.1".to_string(), symbols: vec![pair("baz", "Base"), pair("foo", "Base")] },
        LibNeeded::bare("libc.so.6"),
        LibNeeded::bare("libbar.so.2"),
        LibNeeded::bare("libunk.so.1"),
        LibNeeded::bare("libself.so.0"),
        LibNeeded::bare("libold.so.1"),
        LibNeeded { soname: "libfoo.so.1".to_string(), symbols: vec![pair("bar", "Base")] },
    ];
    let essential = strings(&["libc.so.6"]);
    let provided = strings(&["libself.so.0"]);
    let installed = strings(&["libbar2t64"]);
    let r = resolve(&needs, &db(), None, &provided, &essential, &installed);
    assert_eq!(r.relations, strings(&["libbar2t64", "libfoo1 (>= 1.5)", "libold1t64 (>= 3)"]));
    assert_eq!(r.resolved_names, strings(&["libbar2t64", "libfoo1", "libold1t64"]));
    assert_eq!(r.unresolved, strings(&["libunk.so.1"]));
    assert_eq!(r.missing_symbols, strings(&["baz@Base (from libfoo.so.1)"]));

    let r = resolve(&needs, &db(), Some("libfoo1"), &provided, &essential, &installed);
    assert_eq!(r.relations, strings(&["libbar2t64", "libold1t64 (>= 3)"]));
    assert_eq!(r.resolved_names, strings(&["libbar2t64", "libold1t64"]));
}

#[test]
fn tracks_status_and_writes_json() {
    let mut p = Progress::new(3, "v1.0", "eza", "state.json".to_string(), false);
    assert_eq!(p.total_archs, 3);
    assert_eq!(p.pending_total(), 3);
    assert_eq!(p.package, "eza");

    p.set_arch("amd64", "running");
    p.finish_arch("amd64", Outcome::Completed);
    p.finish_arch("arm64", Outcome::Failed);
    p.set_arch("armhf", "running");

    let (completed, failed, running, _) = p.counts();
    assert_eq!(completed, 1);
    assert_eq!(failed, 1);
    assert_eq!(running, 1);
    let status = |arch: &str| {
        p.states.iter().find(|(a, _)| a == arch).map(|(_, s)| s.clone())
    };
    assert_eq!(status("amd64").as_deref(), Some("completed"));
    assert_eq!(status("arm64").as_deref(), Some("failed"));
    assert_eq!(p.pending_total(), 0);
}

#[test]
fn tty_render_clears_line() {
    let mut p = Progress::new(1, "v1.0", "eza", "state.json".to_string(), true);
    p.finish_arch("amd64", Outcome::Completed);
    assert_eq!(
        p.progress_line(),
        format!("\r  [{}] 100% (1/1), 0 failed", "\u{2588}".repeat(25))
    );
}

#[test]
fn progress_line_shows_running_groups() {
    let mut p = Progress::new(4, "v1.0", "eza", "state.json".to_string(), true);
    p.finish_arch("amd64", Outcome::Failed);
    p.set_arch("arm64", "running");
    assert_eq!(
        p.progress_line(),
        format!(
            "\r  [{}{}]  25% (1/4), 1 failed building (1 running)",
            "\u{2588}".repeat(6),
            "\u{2591}".repeat(19)
        )
    );
    let empty = Progress::new(0, "v1.0", "eza", "s".to_string(), true);
    assert_eq!(
        empty.progress_line(),
        format!("\r  [{}] 100% (0/0), 0 failed", "\u{2588}".repeat(25))
    );
}

#[test]
fn each_package_keeps_its_highest_minimum() {
    let needs = vec![
        LibNeeded { soname: "libfoo.so.1".to_string(), symbols: vec![pair("bar", "Base")] },
        LibNeeded { soname: "libfoo.so.1".to_string(), symbols: vec![pair("foo", "Base")] },
    ];
    let r = resolve(&needs, &db(), None, &vec![], &vec![], &vec![]);
    assert_eq!(r.relations, strings(&["libfoo1 (>= 1.5)"]));
}
