//! Package-index plugin dimension: one backend per package index, covering
//! the write side (publishing a repository index: `apt`, `opkg`, `pacman`,
//! `apk`, `rpm`) and the read side (consuming an upstream index:
//! `lx-community`, `aur`, `repology`). Selection is by canonical id; the
//! user-facing `--format` vocabulary (`deb`/`ipk`/`arch`/...) is an alias.
pub mod apk;
pub mod apt;
pub mod keyvalue;
pub mod lx_community;
pub mod aur;
pub mod debget;
pub mod opkg;
pub mod pacman;
pub mod repology;
pub mod rpm;

use vstd::prelude::*;

use crate::plugins::package_index::keyvalue::{kv_pairs, pairs_view, KeyValues};
use crate::plugins::plugin::Plugin;
use crate::text::{
    chars_of, find_class_from, lines, lines_exec, lower_vec, seq_eq, string_of, to_lower, trim,
    trim_slice,
};

verus! {

/// The user's cache directory, as `dirs::cache_dir` finds it (it depends on
/// the environment and the platform); nothing is claimed of the result.
#[verifier::external_body]
pub(crate) fn user_cache_dir() -> Option<String> {
    dirs::cache_dir().and_then(|p| p.into_os_string().into_string().ok())
}

/// Which roles a backend implements: bit 0 is read, bit 1 is write.
#[derive(Debug, Clone, Copy, PartialEq, Eq, Structural)]
pub struct Capabilities {
    pub bits: u8,
}

impl Capabilities {
    /// No role implemented.
    pub fn none() -> (c: Self)
        ensures
            c.bits == 0,
    {
        Capabilities { bits: 0 }
    }

    /// Can consume an upstream index.
    pub fn read() -> (c: Self)
        ensures
            c.bits == 1,
    {
        Capabilities { bits: 1 }
    }

    /// Can publish a local index.
    pub fn write() -> (c: Self)
        ensures
            c.bits == 2,
    {
        Capabilities { bits: 2 }
    }

    /// Both roles.
    pub fn read_write() -> (c: Self)
        ensures
            c.bits == 3,
    {
        Capabilities { bits: 3 }
    }

    /// True when the read role is implemented.
    pub fn can_read(self) -> (b: bool)
        ensures
            b == (self.bits & 1 != 0),
    {
        self.bits & 1 != 0
    }

    /// True when the write role is implemented.
    pub fn can_write(self) -> (b: bool)
        ensures
            b == (self.bits & 2 != 0),
    {
        self.bits & 2 != 0
    }

    /// True when no role is implemented.
    pub fn is_empty(self) -> (b: bool)
        ensures
            b == (self.bits == 0),
    {
        self.bits == 0
    }

    /// The union of two role sets.
    pub fn union(self, rhs: Self) -> (c: Self)
        ensures
            c.bits == self.bits | rhs.bits,
    {
        Capabilities { bits: self.bits | rhs.bits }
    }

    /// `read+write`, `read`, `write` or `none`.
    pub fn role_name(self) -> (r: &'static str)
        ensures
            r@ == (if self.bits & 1 != 0 && self.bits & 2 != 0 {
                "read+write"@
            } else if self.bits & 1 != 0 {
                "read"@
            } else if self.bits & 2 != 0 {
                "write"@
            } else {
                "none"@
            }),
    {
        if self.can_read() && self.can_write() {
            "read+write"
        } else if self.can_read() {
            "read"
        } else if self.can_write() {
            "write"
        } else {
            "none"
        }
    }
}

/// Repository-level metadata passed from `lx repo` to a write backend.
pub struct IndexOptions {
    /// Suite/repository name (`stable`, `openwrt`, `core`, ...).
    pub suite: String,
    /// Origin/label recorded in the index.
    pub origin: String,
    /// Components (apt `--components`).
    pub components: String,
    /// Optional signing key file for the index.
    pub sign_key: Option<String>,
    pub sign_key_id: String,
}

/// One package-index backend: its identity and roles.
pub trait PackageIndex: Plugin {
    /// The roles, as a bit set.
    spec fn spec_capabilities(&self) -> u8;

    /// Roles this backend implements.
    fn capabilities(&self) -> (c: Capabilities)
        ensures
            c.bits == self.spec_capabilities(),
    ;

    /// The artifact extension consumed, if any, as text.
    spec fn spec_extension(&self) -> Option<Seq<char>>;

    /// Artifact file extension this backend consumes (without dot), if it
    /// can publish an index.
    fn file_extension(&self) -> (r: Option<&'static str>)
        ensures
            crate::text::opt_str_view(r) == self.spec_extension(),
    ;
}

/// A registered backend: its canonical id, description and capabilities.
#[derive(Debug, Clone, Copy)]
pub struct IndexBackend {
    pub id: &'static str,
    pub description: &'static str,
    pub capabilities: Capabilities,
}

/// What `IndexBackend::make` produces: the backend id and the label of the
/// instance (read backends carry the configured name; write backends, being
/// stateless, are labelled with their id).
pub struct IndexInstance {
    pub id: &'static str,
    pub instance_name: String,
}

impl IndexBackend {
    /// Instantiate this backend, labelling the instance with `name`.
    pub fn make(&self, name: &str) -> (r: IndexInstance)
        ensures
            r.id == self.id,
            r.instance_name@ == (if self.capabilities.bits & 1 != 0 {
                name@
            } else {
                self.id@
            }),
    {
        let label = if self.capabilities.can_read() {
            String::from_str(name)
        } else {
            String::from_str(self.id)
        };
        IndexInstance { id: self.id, instance_name: label }
    }
}

/// Canonical backend ids, in registration order.
pub open spec fn backend_ids_spec() -> Seq<Seq<char>> {
    seq![
        "apt"@,
        "opkg"@,
        "pacman"@,
        "apk"@,
        "rpm"@,
        "lx-community"@,
        "aur"@,
        "repology"@,
    ]
}

/// Backend descriptions, in registration order.
pub open spec fn backend_descriptions_spec() -> Seq<Seq<char>> {
    seq![
        "apt repository (Packages, Packages.gz, Release, InRelease)"@,
        "opkg repository (Packages, Packages.gz)"@,
        "pacman repository (<repo>.db.tar.gz from .PKGINFO)"@,
        "Alpine repository (APKINDEX.tar.gz from .PKGINFO)"@,
        "RPM repository (repodata/repomd.xml + primary.xml.gz)"@,
        "LX community index (recipes + per-release prebuilts)"@,
        "Arch User Repository (PKGBUILD \u{2192} native build)"@,
        "Repology cross-distro metadata (read-only)"@,
    ]
}

/// The registered backend at position `i`.
pub open spec fn backend_at(b: IndexBackend, i: int) -> bool {
    &&& b.id@ == backend_ids_spec()[i]
    &&& b.description@ == backend_descriptions_spec()[i]
    &&& b.capabilities.bits == (if i < 5 {
        2u8
    } else {
        1u8
    })
}

/// Canonical backend ids, in registration order.
pub fn backend_ids() -> (r: Vec<&'static str>)
    ensures
        r.deep_view() == backend_ids_spec(),
{
    let r = vec!["apt", "opkg", "pacman", "apk", "rpm", "lx-community", "aur", "repology"];
    assert(r.deep_view() =~= backend_ids_spec());
    r
}

/// User-facing `package_format` aliases mapped to canonical ids.
pub fn format_aliases() -> (r: Vec<(&'static str, &'static str)>)
    ensures
        r@.len() == 5,
        forall|i: int|
            0 <= i < 5 ==> (#[trigger] r@[i]).0@ == alias_names()[i] && r@[i].1@
                == alias_ids()[i],
{
    let r = vec![("deb", "apt"), ("ipk", "opkg"), ("arch", "pacman"), ("apk", "apk"), ("rpm", "rpm")];
    assert(r@[0].0@ == alias_names()[0] && r@[0].1@ == alias_ids()[0]);
    assert(r@[1].0@ == alias_names()[1] && r@[1].1@ == alias_ids()[1]);
    assert(r@[2].0@ == alias_names()[2] && r@[2].1@ == alias_ids()[2]);
    assert(r@[3].0@ == alias_names()[3] && r@[3].1@ == alias_ids()[3]);
    assert(r@[4].0@ == alias_names()[4] && r@[4].1@ == alias_ids()[4]);
    r
}

/// The ids the aliases map to, in order (`alias_target` of each alias).
pub open spec fn alias_ids() -> Seq<Seq<char>> {
    seq!["apt"@, "opkg"@, "pacman"@, "apk"@, "rpm"@]
}

/// The alias spellings, in order.
pub open spec fn alias_names() -> Seq<Seq<char>> {
    seq!["deb"@, "ipk"@, "arch"@, "apk"@, "rpm"@]
}

/// The canonical id a (normalized) format alias maps to.
pub open spec fn alias_target(l: Seq<char>) -> Option<Seq<char>> {
    if l == "deb"@ {
        Some("apt"@)
    } else if l == "ipk"@ {
        Some("opkg"@)
    } else if l == "arch"@ {
        Some("pacman"@)
    } else if l == "apk"@ {
        Some("apk"@)
    } else if l == "rpm"@ {
        Some("rpm"@)
    } else {
        None
    }
}

/// A `package_format`, trimmed and lower-cased, mapped to its backend id.
pub open spec fn resolve_format_of(format: Seq<char>) -> Option<Seq<char>> {
    alias_target(to_lower(trim(format)))
}

/// A canonical id or a format alias (trimmed, case-insensitive) mapped to the id.
pub open spec fn canonical_id_of(name: Seq<char>) -> Option<Seq<char>> {
    let l = to_lower(trim(name));
    if backend_ids_spec().contains(l) {
        Some(l)
    } else {
        alias_target(l)
    }
}

fn alias_lookup(l: &[char]) -> (r: Option<&'static str>)
    ensures
        match r {
            Some(id) => alias_target(l@) == Some(id@),
            None => alias_target(l@) is None,
        },
{
    if seq_eq(l, chars_of("deb").as_slice()) {
        Some("apt")
    } else if seq_eq(l, chars_of("ipk").as_slice()) {
        Some("opkg")
    } else if seq_eq(l, chars_of("arch").as_slice()) {
        Some("pacman")
    } else if seq_eq(l, chars_of("apk").as_slice()) {
        Some("apk")
    } else if seq_eq(l, chars_of("rpm").as_slice()) {
        Some("rpm")
    } else {
        None
    }
}

/// Map a `package_format` to its canonical backend id.
pub fn resolve_format(format: &str) -> (r: Option<&'static str>)
    ensures
        match r {
            Some(id) => resolve_format_of(format@) == Some(id@),
            None => resolve_format_of(format@) is None,
        },
{
    let v = chars_of(format);
    let lower = lower_vec(trim_slice(v.as_slice()));
    alias_lookup(lower.as_slice())
}

/// Resolve either a canonical id or a `package_format` alias to the id.
/// Case-insensitive.
pub fn canonical_id(name: &str) -> (r: Option<&'static str>)
    ensures
        match r {
            Some(id) => canonical_id_of(name@) == Some(id@),
            None => canonical_id_of(name@) is None,
        },
{
    let v = chars_of(name);
    let lower = lower_vec(trim_slice(v.as_slice()));
    let ids = backend_ids();
    let mut i: usize = 0;
    while i < ids.len()
        invariant
            i <= ids@.len(),
            ids.deep_view() == backend_ids_spec(),
            lower@ == to_lower(trim(name@)),
            forall|j: int| 0 <= j < i ==> backend_ids_spec()[j] != lower@,
        decreases ids@.len() - i,
    {
        let id = ids[i];
        assert(ids.deep_view()[i as int] == id@);
        if seq_eq(chars_of(id).as_slice(), lower.as_slice()) {
            assert(lower@ == to_lower(trim(name@)));
            assert(id@ == lower@);
            assert(backend_ids_spec()[i as int] == lower@);
            assert(backend_ids_spec().contains(lower@));
            return Some(id);
        }
        i = i + 1;
    }
    assert(!backend_ids_spec().contains(lower@)) by {
        if backend_ids_spec().contains(lower@) {
            let j = choose|j: int| 0 <= j < 8 && backend_ids_spec()[j] == lower@;
            assert(backend_ids_spec()[j] != lower@);
        }
    }
    alias_lookup(lower.as_slice())
}

/// All known backends, in registration order.
pub fn all_index_backends() -> (r: Vec<IndexBackend>)
    ensures
        r@.len() == 8,
        forall|i: int| 0 <= i < 8 ==> backend_at(#[trigger] r@[i], i),
{
    let r = vec![
        IndexBackend {
            id: "apt",
            description: "apt repository (Packages, Packages.gz, Release, InRelease)",
            capabilities: Capabilities::write(),
        },
        IndexBackend {
            id: "opkg",
            description: "opkg repository (Packages, Packages.gz)",
            capabilities: Capabilities::write(),
        },
        IndexBackend {
            id: "pacman",
            description: "pacman repository (<repo>.db.tar.gz from .PKGINFO)",
            capabilities: Capabilities::write(),
        },
        IndexBackend {
            id: "apk",
            description: "Alpine repository (APKINDEX.tar.gz from .PKGINFO)",
            capabilities: Capabilities::write(),
        },
        IndexBackend {
            id: "rpm",
            description: "RPM repository (repodata/repomd.xml + primary.xml.gz)",
            capabilities: Capabilities::write(),
        },
        IndexBackend {
            id: "lx-community",
            description: "LX community index (recipes + per-release prebuilts)",
            capabilities: Capabilities::read(),
        },
        IndexBackend {
            id: "aur",
            description: "Arch User Repository (PKGBUILD \u{2192} native build)",
            capabilities: Capabilities::read(),
        },
        IndexBackend {
            id: "repology",
            description: "Repology cross-distro metadata (read-only)",
            capabilities: Capabilities::read(),
        },
    ];
    r
}

/// Look up a backend by canonical id or `package_format` alias,
/// case-insensitively.
pub fn get_index_backend(name_or_format: &str) -> (r: Option<IndexBackend>)
    ensures
        match canonical_id_of(name_or_format@) {
            None => r is None,
            Some(id) => r matches Some(b) && b.id@ == id && exists|i: int|
                0 <= i < 8 && backend_at(b, i),
        },
{
    let id = match canonical_id(name_or_format) {
        Some(id) => id,
        None => {
            return None;
        },
    };
    let all = all_index_backends();
    let mut i: usize = 0;
    while i < all.len()
        invariant
            i <= all@.len(),
            all@.len() == 8,
            forall|k: int| 0 <= k < 8 ==> backend_at(#[trigger] all@[k], k),
            forall|j: int| 0 <= j < i ==> backend_ids_spec()[j] != id@,
            canonical_id_of(name_or_format@) == Some(id@),
        decreases all@.len() - i,
    {
        let b = all[i];
        assert(backend_at(all@[i as int], i as int));
        if seq_eq(chars_of(b.id).as_slice(), chars_of(id).as_slice()) {
            assert(backend_at(b, i as int));
            return Some(b);
        }
        i = i + 1;
    }
    proof {
        // Every canonical id is one of the registered ids.
        let l = to_lower(trim(name_or_format@));
        if backend_ids_spec().contains(l) {
            let j = choose|j: int| 0 <= j < 8 && backend_ids_spec()[j] == l;
            assert(backend_ids_spec()[j] != id@);
        } else {
            reveal_strlit("deb");
            reveal_strlit("ipk");
            reveal_strlit("arch");
            reveal_strlit("apk");
            reveal_strlit("rpm");
            reveal_strlit("apt");
            reveal_strlit("opkg");
            reveal_strlit("pacman");
            assert(backend_ids_spec()[0] != id@);
            assert(backend_ids_spec()[1] != id@);
            assert(backend_ids_spec()[2] != id@);
            assert(backend_ids_spec()[3] != id@);
            assert(backend_ids_spec()[4] != id@);
        }
    }
    None
}

/// Parse `key = value` lines (used for `.PKGINFO` and apk control metadata):
/// blank lines and `#` comments are skipped, as are lines without `=`.
pub fn parse_key_value(text: &str) -> (r: KeyValues)
    ensures
        pairs_view(r.pairs@) == kv_pairs(lines(text@)),
{
    let t = chars_of(text);
    let ls = lines_exec(t.as_slice());
    let ghost all = ls.deep_view();
    let eq: Vec<char> = vec!['='];
    assert(eq@ =~= seq!['=']);
    let mut pairs: Vec<(String, String)> = Vec::new();
    let mut i: usize = 0;
    assert(all.take(0) =~= Seq::<Seq<char>>::empty());
    while i < ls.len()
        invariant
            i <= ls.len(),
            all == ls.deep_view(),
            eq@ == seq!['='],
            pairs_view(pairs@) == kv_pairs(all.take(i as int)),
        decreases ls.len() - i,
    {
        assert(all.take(i + 1).drop_last() =~= all.take(i as int));
        assert(all[i as int] == ls@[i as int]@);
        let line = trim_slice(ls[i].as_slice());
        if line.len() > 0 && line[0] != '#' {
            let p = find_class_from(line, 0, false, eq.as_slice());
            assert(line@.skip(0) =~= line@);
            if p < line.len() {
                let key = trim_slice(vstd::slice::slice_subrange(line, 0, p));
                let value = trim_slice(vstd::slice::slice_subrange(line, p + 1, line.len()));
                let ghost before = pairs@;
                pairs.push((string_of(key), string_of(value)));
                assert(pairs_view(pairs@) =~= pairs_view(before).push((key@, value@)));
            }
        }
        i = i + 1;
    }
    assert(all.take(ls.len() as int) =~= all);
    KeyValues { pairs }
}

/// Every backend id names itself: `canonical_id` maps each registered id
/// back to that id.
pub proof fn lemma_backend_ids_round_trip(i: int)
    requires
        0 <= i < backend_ids_spec().len(),
    ensures
        canonical_id_of(backend_ids_spec()[i]) == Some(backend_ids_spec()[i]),
{
    reveal_strlit("apt");
    reveal_strlit("opkg");
    reveal_strlit("pacman");
    reveal_strlit("apk");
    reveal_strlit("rpm");
    reveal_strlit("lx-community");
    reveal_strlit("aur");
    reveal_strlit("repology");
    let id = backend_ids_spec()[i];
    assert(id.len() > 0);
    assert(!crate::text::is_ws(id[0]));
    assert(!crate::text::is_ws(id[id.len() - 1]));
    assert(trim(id) =~= id) by {
        crate::text::lemma_strip_start(id, true, Seq::empty(), 0);
        crate::text::lemma_strip_end(id, true, Seq::empty(), id.len() as int);
    }
    assert(to_lower(id) =~= id);
    assert(backend_ids_spec().contains(id));
}

/// Every format alias resolves to a registered backend id, and so does
/// every name `canonical_id` accepts.
pub proof fn lemma_canonical_ids_are_backends(name: Seq<char>)
    ensures
        resolve_format_of(name) matches Some(id) ==> backend_ids_spec().contains(id),
        canonical_id_of(name) matches Some(id) ==> backend_ids_spec().contains(id),
{
    reveal_strlit("apt");
    reveal_strlit("opkg");
    reveal_strlit("pacman");
    reveal_strlit("apk");
    reveal_strlit("rpm");
    assert(backend_ids_spec()[0] == "apt"@);
    assert(backend_ids_spec()[1] == "opkg"@);
    assert(backend_ids_spec()[2] == "pacman"@);
    assert(backend_ids_spec()[3] == "apk"@);
    assert(backend_ids_spec()[4] == "rpm"@);
}

/// What a search, an `info` lookup or an upgrade listing shows of one
/// package.
#[derive(Debug, Clone)]
pub struct IndexHit {
    pub name: String,
    pub description: String,
    pub source: String,
    pub installed: bool,
    /// Versions the index offers.
    pub available: Vec<String>,
    pub newest: Option<String>,
    /// Repositories tracking the project.
    pub repos: usize,
    /// Of those, how many lag behind.
    pub outdated: usize,
    /// Of those, how many carry a known vulnerability.
    pub vulnerable: usize,
    /// The host repository's version and status.
    pub host_version: Option<String>,
    pub host_status: Option<String>,
}

/// Why an index search failed.
#[derive(Debug, Clone)]
pub enum SearchError {
    /// The pattern is not a valid regular expression.
    BadPattern(String),
}

} // verus!
