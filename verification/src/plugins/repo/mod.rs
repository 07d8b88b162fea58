//! Repository-indexer plugins: turn a directory of built artifacts into a
//! servable package index for one target format. Each format's repository
//! layout differs, so each is a [`RepoIndexer`] selected by `lx repo
//! --format`, keyed by its `package_format` value.
pub mod apk;
pub mod apt;
pub mod opkg;
pub mod pacman;
pub mod rpm;

use vstd::prelude::*;

use crate::plugins::package_index::keyvalue::KeyValues;
use crate::text::{chars_of, lower_vec, seq_eq, to_lower, trim, trim_slice};

verus! {

/// Repository-level metadata passed from `lx repo`.
pub struct IndexOptions<'a> {
    /// Suite/repository name (`stable`, `openwrt`, `core`, ...).
    pub suite: &'a str,
    /// Origin/label recorded in the index (when the format has one).
    pub origin: &'a str,
    /// Components (apt `--components`).
    pub components: &'a str,
    /// Optional signing key for the index.
    pub sign_key: Option<&'a str>,
    pub sign_key_id: &'a str,
}

/// A package-index writer for one target format.
pub trait RepoIndexer: Sized {
    /// The canonical name, as text.
    spec fn spec_name(&self) -> Seq<char>;

    /// Canonical name (`apt`, `opkg`, `pacman`, `apk`, `rpm`).
    fn name(&self) -> (r: &'static str)
        ensures
            r@ == self.spec_name(),
    ;

    /// The `package_format` served, as text.
    spec fn spec_format(&self) -> Seq<char>;

    /// The `package_format` this indexer serves.
    fn format(&self) -> (r: &'static str)
        ensures
            r@ == self.spec_format(),
    ;

    /// The description, as text.
    spec fn spec_description(&self) -> Seq<char>;

    /// Human-readable description.
    fn description(&self) -> (r: &'static str)
        ensures
            r@ == self.spec_description(),
    ;

    /// The artifact extension consumed, as text.
    spec fn spec_extension(&self) -> Seq<char>;

    /// Artifact file extension it consumes (without dot).
    fn file_extension(&self) -> (r: &'static str)
        ensures
            r@ == self.spec_extension(),
    ;
}

/// Every registered repository indexer.
pub enum RepoIndexerPlugin {
    Apt(apt::AptIndexer),
    Opkg(opkg::OpkgIndexer),
    Pacman(pacman::PacmanIndexer),
    Apk(apk::ApkIndexer),
    Rpm(rpm::RpmIndexer),
}

impl RepoIndexer for RepoIndexerPlugin {
    open spec fn spec_name(&self) -> Seq<char> {
        match self {
            RepoIndexerPlugin::Apt(p) => p.spec_name(),
            RepoIndexerPlugin::Opkg(p) => p.spec_name(),
            RepoIndexerPlugin::Pacman(p) => p.spec_name(),
            RepoIndexerPlugin::Apk(p) => p.spec_name(),
            RepoIndexerPlugin::Rpm(p) => p.spec_name(),
        }
    }

    fn name(&self) -> (r: &'static str) {
        match self {
            RepoIndexerPlugin::Apt(p) => p.name(),
            RepoIndexerPlugin::Opkg(p) => p.name(),
            RepoIndexerPlugin::Pacman(p) => p.name(),
            RepoIndexerPlugin::Apk(p) => p.name(),
            RepoIndexerPlugin::Rpm(p) => p.name(),
        }
    }

    open spec fn spec_format(&self) -> Seq<char> {
        match self {
            RepoIndexerPlugin::Apt(p) => p.spec_format(),
            RepoIndexerPlugin::Opkg(p) => p.spec_format(),
            RepoIndexerPlugin::Pacman(p) => p.spec_format(),
            RepoIndexerPlugin::Apk(p) => p.spec_format(),
            RepoIndexerPlugin::Rpm(p) => p.spec_format(),
        }
    }

    fn format(&self) -> (r: &'static str) {
        match self {
            RepoIndexerPlugin::Apt(p) => p.format(),
            RepoIndexerPlugin::Opkg(p) => p.format(),
            RepoIndexerPlugin::Pacman(p) => p.format(),
            RepoIndexerPlugin::Apk(p) => p.format(),
            RepoIndexerPlugin::Rpm(p) => p.format(),
        }
    }

    open spec fn spec_description(&self) -> Seq<char> {
        match self {
            RepoIndexerPlugin::Apt(p) => p.spec_description(),
            RepoIndexerPlugin::Opkg(p) => p.spec_description(),
            RepoIndexerPlugin::Pacman(p) => p.spec_description(),
            RepoIndexerPlugin::Apk(p) => p.spec_description(),
            RepoIndexerPlugin::Rpm(p) => p.spec_description(),
        }
    }

    fn description(&self) -> (r: &'static str) {
        match self {
            RepoIndexerPlugin::Apt(p) => p.description(),
            RepoIndexerPlugin::Opkg(p) => p.description(),
            RepoIndexerPlugin::Pacman(p) => p.description(),
            RepoIndexerPlugin::Apk(p) => p.description(),
            RepoIndexerPlugin::Rpm(p) => p.description(),
        }
    }

    open spec fn spec_extension(&self) -> Seq<char> {
        match self {
            RepoIndexerPlugin::Apt(p) => p.spec_extension(),
            RepoIndexerPlugin::Opkg(p) => p.spec_extension(),
            RepoIndexerPlugin::Pacman(p) => p.spec_extension(),
            RepoIndexerPlugin::Apk(p) => p.spec_extension(),
            RepoIndexerPlugin::Rpm(p) => p.spec_extension(),
        }
    }

    fn file_extension(&self) -> (r: &'static str) {
        match self {
            RepoIndexerPlugin::Apt(p) => p.file_extension(),
            RepoIndexerPlugin::Opkg(p) => p.file_extension(),
            RepoIndexerPlugin::Pacman(p) => p.file_extension(),
            RepoIndexerPlugin::Apk(p) => p.file_extension(),
            RepoIndexerPlugin::Rpm(p) => p.file_extension(),
        }
    }
}

/// The registered indexers, in registration order.
pub open spec fn registered_repo_indexers() -> Seq<RepoIndexerPlugin> {
    seq![
        RepoIndexerPlugin::Apt(apt::AptIndexer),
        RepoIndexerPlugin::Opkg(opkg::OpkgIndexer),
        RepoIndexerPlugin::Pacman(pacman::PacmanIndexer),
        RepoIndexerPlugin::Apk(apk::ApkIndexer),
        RepoIndexerPlugin::Rpm(rpm::RpmIndexer),
    ]
}

/// The `package_format` of each registered indexer, in order.
pub open spec fn repo_formats() -> Seq<Seq<char>> {
    registered_repo_indexers().map_values(|p: RepoIndexerPlugin| p.spec_format())
}

/// All known indexers, in registration order.
pub fn all_repo_indexers() -> (r: Vec<RepoIndexerPlugin>)
    ensures
        r@ == registered_repo_indexers(),
{
    let r = vec![
        RepoIndexerPlugin::Apt(apt::AptIndexer),
        RepoIndexerPlugin::Opkg(opkg::OpkgIndexer),
        RepoIndexerPlugin::Pacman(pacman::PacmanIndexer),
        RepoIndexerPlugin::Apk(apk::ApkIndexer),
        RepoIndexerPlugin::Rpm(rpm::RpmIndexer),
    ];
    assert(r@ =~= registered_repo_indexers());
    r
}

/// Look up an indexer by `package_format` (case-insensitive, surrounding
/// whitespace ignored).
pub fn get_repo_indexer(format: &str) -> (r: Option<RepoIndexerPlugin>)
    ensures
        match r {
            Some(p) => registered_repo_indexers().contains(p) && p.spec_format() == to_lower(
                trim(format@),
            ),
            None => !repo_formats().contains(to_lower(trim(format@))),
        },
{
    let raw = chars_of(format);
    let want = lower_vec(trim_slice(raw.as_slice()));
    let mut all = all_repo_indexers();
    let mut i: usize = 0;
    while i < all.len()
        invariant
            i <= all@.len(),
            all@ == registered_repo_indexers(),
            want@ == to_lower(trim(format@)),
            forall|j: int| 0 <= j < i ==> (#[trigger] all@[j]).spec_format() != want@,
        decreases all@.len() - i,
    {
        if seq_eq(chars_of(all[i].format()).as_slice(), want.as_slice()) {
            let ghost s = all@;
            let p = all.swap_remove(i);
            assert(p == s[i as int]);
            return Some(p);
        }
        i = i + 1;
    }
    assert(!repo_formats().contains(want@)) by {
        if repo_formats().contains(want@) {
            let j = choose|j: int| 0 <= j < repo_formats().len() && repo_formats()[j] == want@;
            assert(all@[j].spec_format() == want@);
        }
    }
    None
}

/// The registered indexer names, in order.
pub open spec fn repo_indexer_names_spec() -> Seq<Seq<char>> {
    registered_repo_indexers().map_values(|p: RepoIndexerPlugin| p.spec_name())
}

/// Available indexer names for error messages / help text.
pub fn repo_indexer_names() -> (r: Vec<&'static str>)
    ensures
        r.deep_view() == repo_indexer_names_spec(),
{
    let all = all_repo_indexers();
    let mut out: Vec<&'static str> = Vec::new();
    let mut i: usize = 0;
    while i < all.len()
        invariant
            i <= all@.len(),
            all@ == registered_repo_indexers(),
            out.deep_view() == repo_indexer_names_spec().take(i as int),
        decreases all@.len() - i,
    {
        let ghost before = out.deep_view();
        out.push(all[i].name());
        assert(out.deep_view() =~= before.push(repo_indexer_names_spec()[i as int]));
        assert(repo_indexer_names_spec().take(i + 1) =~= repo_indexer_names_spec().take(
            i as int,
        ).push(repo_indexer_names_spec()[i as int]));
        i = i + 1;
    }
    assert(repo_indexer_names_spec().take(5) =~= repo_indexer_names_spec());
    out
}

/// Parse `key = value` lines (used for `.PKGINFO` and apk control
/// metadata): the same reading as the package-index parser.
pub fn parse_key_value(text: &str) -> (r: KeyValues)
    ensures
        crate::plugins::package_index::keyvalue::pairs_view(r.pairs@)
            == crate::plugins::package_index::keyvalue::kv_pairs(crate::text::lines(text@)),
{
    crate::plugins::package_index::parse_key_value(text)
}

} // verus!
