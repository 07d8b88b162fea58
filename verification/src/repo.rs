//! `lx repo`: turn a directory of built packages into a servable repository
//! index. This module holds the command's arguments, which backend and
//! artifact extension a `--format` selects, and the RFC-2822-style control
//! file reading the apt and opkg indexers share.
use vstd::prelude::*;

use crate::plugins::package_index::keyvalue::{pairs_view, KeyValues};
use crate::plugins::package_index::{
    backend_at, backend_ids_spec, canonical_id_of, get_index_backend,
};
use crate::text::{
    chars_of, find_class_from, starts_with, starts_with_exec, lines, lines_exec, seq_eq, split_once_class, string_of, trim,
    trim_slice, is_ws, lemma_find_class_after, lemma_lines_cons, lemma_single_class, lemma_trim_pad,
};

verus! {

/// Arguments of `lx repo`.
#[derive(Debug, Clone)]
pub struct RepoArgs {
    /// Directory containing the built packages (also receives the index).
    pub dir: String,
    /// Package format to index; the host's native format when absent.
    pub format: Option<String>,
    /// Suite name recorded in `Release`.
    pub suite: String,
    /// Treat `dists/<suite>/` subdirectories as separate suites.
    pub multi_suite: bool,
    /// Components to list in `Release` (comma-separated).
    pub components: String,
    /// Origin label for the `Release` file.
    pub origin: String,
    /// ASCII-armored secret key for clearsigning `InRelease`.
    pub sign_key: Option<String>,
    /// Signing key id / fingerprint.
    pub sign_key_id: Option<String>,
}

/// The artifact extension each writing backend indexes.
pub open spec fn write_extension(id: Seq<char>) -> Option<Seq<char>> {
    if id == "apt"@ {
        Some("deb"@)
    } else if id == "opkg"@ {
        Some("ipk"@)
    } else if id == "pacman"@ {
        Some("zst"@)
    } else if id == "apk"@ {
        Some("apk"@)
    } else if id == "rpm"@ {
        Some("rpm"@)
    } else {
        None
    }
}

/// The artifact extension a writing backend indexes, if it writes.
pub fn write_extension_of(id: &str) -> (r: Option<&'static str>)
    ensures
        match r {
            Some(e) => write_extension(id@) == Some(e@),
            None => write_extension(id@) is None,
        },
{
    let v = chars_of(id);
    if seq_eq(v.as_slice(), chars_of("apt").as_slice()) {
        Some("deb")
    } else if seq_eq(v.as_slice(), chars_of("opkg").as_slice()) {
        Some("ipk")
    } else if seq_eq(v.as_slice(), chars_of("pacman").as_slice()) {
        Some("zst")
    } else if seq_eq(v.as_slice(), chars_of("apk").as_slice()) {
        Some("apk")
    } else if seq_eq(v.as_slice(), chars_of("rpm").as_slice()) {
        Some("rpm")
    } else {
        None
    }
}

/// The backend and artifact extension a `--format` publishes with.
#[derive(Debug, Clone, Copy, PartialEq, Eq)]
pub struct WriteTarget {
    pub backend_id: &'static str,
    pub extension: &'static str,
}

/// Why a `--format` cannot publish a repository index.
#[derive(Debug, Clone, PartialEq, Eq)]
pub enum RepoError {
    /// No backend has this id or format alias; carries the format and the
    /// accepted aliases.
    UnsupportedFormat(String, String),
    /// The backend only reads indexes; carries the format and the id.
    CannotPublish(String, String),
    /// The backend names no artifact extension; carries the id.
    NoExtension(String),
}

/// The accepted `--format` aliases, as listed in the error message.
pub open spec fn alias_list() -> Seq<char> {
    "deb, ipk, arch, apk, rpm"@
}

/// Which backend and artifact extension a `--format` (default `deb`)
/// publishes with.
pub fn plan_format(format: Option<&str>) -> (r: Result<WriteTarget, RepoError>)
    ensures
        ({
            let f = match format {
                Some(s) => s@,
                None => "deb"@,
            };
            match r {
                Ok(t) => canonical_id_of(f) == Some(t.backend_id@) && (exists|i: int|
                    0 <= i < 5 && backend_ids_spec()[i] == t.backend_id@) && write_extension(
                    t.backend_id@,
                ) == Some(t.extension@),
                Err(RepoError::UnsupportedFormat(g, expected)) => canonical_id_of(f) is None && g@
                    == f && expected@ == alias_list(),
                Err(RepoError::CannotPublish(g, id)) => g@ == f && canonical_id_of(f) == Some(id@)
                    && (exists|i: int| 5 <= i < 8 && backend_ids_spec()[i] == id@),
                Err(RepoError::NoExtension(id)) => canonical_id_of(f) == Some(id@)
                    && write_extension(id@) is None,
            }
        }),
{
    let f: &str = match format {
        Some(s) => s,
        None => "deb",
    };
    let backend = match get_index_backend(f) {
        Some(b) => b,
        None => {
            return Err(
                RepoError::UnsupportedFormat(
                    String::from_str(f),
                    String::from_str("deb, ipk, arch, apk, rpm"),
                ),
            );
        },
    };
    let ghost i = choose|i: int| 0 <= i < 8 && backend_at(backend, i);
    if !backend.capabilities.can_write() {
        proof {
            if i < 5 {
                assert(backend.capabilities.bits == 2u8);
                assert(2u8 & 2u8 != 0) by (bit_vector);
            }
        }
        return Err(RepoError::CannotPublish(String::from_str(f), String::from_str(backend.id)));
    }
    proof {
        if i >= 5 {
            assert(backend.capabilities.bits == 1u8);
            assert(1u8 & 2u8 == 0) by (bit_vector);
        }
    }
    match write_extension_of(backend.id) {
        Some(ext) => Ok(WriteTarget { backend_id: backend.id, extension: ext }),
        None => Err(RepoError::NoExtension(String::from_str(backend.id))),
    }
}

/// Whether a line continues the previous field (starts with a space or tab).
pub open spec fn continues(line: Seq<char>) -> bool {
    line.len() > 0 && (line[0] == ' ' || line[0] == '\t')
}

/// The fields of a control file, in order: a `key: value` line starts a
/// field (key and value trimmed); a continuation line appends a newline and
/// its trimmed text to the latest field unless that field's key is empty;
/// other lines are ignored.
pub open spec fn control_pairs(ls: Seq<Seq<char>>) -> Seq<(Seq<char>, Seq<char>)>
    decreases ls.len(),
{
    if ls.len() == 0 {
        seq![]
    } else {
        let p = control_pairs(ls.drop_last());
        let line = ls.last();
        if continues(line) {
            if p.len() > 0 && p.last().0.len() > 0 {
                p.update(p.len() - 1, (p.last().0, p.last().1 + seq!['\n'] + trim(line)))
            } else {
                p
            }
        } else {
            match split_once_class(line, seq![':']) {
                Some((k, v)) => p.push((trim(k), trim(v))),
                None => p,
            }
        }
    }
}

/// A continuation line (one that starts with a space or tab) after a field
/// with a key extends that field: its value gains a newline and the line's
/// trimmed text, and every other field stays as it was.
pub proof fn lemma_continuation_extends_field(ls: Seq<Seq<char>>, line: Seq<char>)
    requires
        line.len() > 0,
        line[0] == ' ' || line[0] == '\t',
        control_pairs(ls).len() > 0,
        control_pairs(ls).last().0.len() > 0,
    ensures
        ({
            let before = control_pairs(ls);
            let after = control_pairs(ls.push(line));
            &&& after.len() == before.len()
            &&& after.drop_last() == before.drop_last()
            &&& after.last().0 == before.last().0
            &&& after.last().1 == before.last().1 + seq!['\n'] + trim(line)
        }),
{
    assert(ls.push(line).drop_last() =~= ls);
    let before = control_pairs(ls);
    let after = control_pairs(ls.push(line));
    assert(after.drop_last() =~= before.drop_last());
}

/// A key that can open a control field: not blank-padded, without `:` or a
/// line break.
pub open spec fn control_text_ok(t: Seq<char>) -> bool {
    &&& t.len() > 0
    &&& !is_ws(t[0])
    &&& !is_ws(t.last())
    &&& forall|j: int| 0 <= j < t.len() ==> #[trigger] t[j] != ':' && t[j] != '\n'
}

/// `K: v` followed by the continuation line ` c` parses to the single field
/// `K` whose value is `v`, a newline, and `c`: no text of the continuation
/// line is lost.
pub proof fn lemma_control_continuation(k: Seq<char>, v: Seq<char>, c: Seq<char>)
    requires
        control_text_ok(k),
        control_text_ok(v),
        control_text_ok(c),
    ensures
        control_pairs(lines(k + ": "@ + v + "\n "@ + c + "\n"@)) == seq![(k, v + "\n"@ + c)],
{
    reveal_strlit(": ");
    reveal_strlit("\n ");
    reveal_strlit("\n");
    let a = k + seq![':', ' '] + v;
    let b = seq![' '] + c;
    assert(k + ": "@ + v + "\n "@ + c + "\n"@ =~= a + seq!['\n'] + (b + seq!['\n'] + Seq::<char>::empty()));
    assert forall|j: int| 0 <= j < a.len() implies #[trigger] a[j] != '\n' by {
        if j < k.len() {
            assert(a[j] == k[j]);
        } else if j >= k.len() + 2 {
            assert(a[j] == v[j - k.len() - 2]);
        }
    }
    assert forall|j: int| 0 <= j < b.len() implies #[trigger] b[j] != '\n' by {
        if j >= 1 {
            assert(b[j] == c[j - 1]);
        }
    }
    assert(a.last() == v.last());
    assert(b.last() == c.last());
    assert(is_ws('\r'));
    lemma_lines_cons(b, Seq::empty());
    lemma_lines_cons(a, b + seq!['\n'] + Seq::<char>::empty());
    let ls = seq![a, b];
    assert(lines(k + ": "@ + v + "\n "@ + c + "\n"@) == ls);
    // the key line opens the field
    assert forall|j: int| 0 <= j < k.len() implies !crate::text::in_class(#[trigger] k[j], false, seq![':'])
        by {
        lemma_single_class(k[j], ':');
    }
    lemma_single_class(':', ':');
    assert(a =~= k + seq![':'] + (seq![' '] + v));
    lemma_find_class_after(k, ':', seq![' '] + v, false, seq![':']);
    assert(a.take(k.len() as int) =~= k);
    assert(a.skip(k.len() as int + 1) =~= seq![' '] + v);
    lemma_trim_pad(k);
    lemma_trim_pad(v);
    lemma_trim_pad(c);
    crate::text::lemma_trim_id(k);
    assert(a[0] == k[0]);
    assert(!continues(a));
    assert(split_once_class(a, seq![':']) == Some((k, seq![' '] + v)));
    let one = seq![a];
    assert(one.drop_last() =~= Seq::<Seq<char>>::empty());
    assert(one.last() == a);
    assert(control_pairs(one.drop_last()) == Seq::<(Seq<char>, Seq<char>)>::empty());
    assert(control_pairs(one) =~= seq![(k, v)]);
    assert(ls.drop_last() =~= seq![a]);
    assert(continues(b));
    assert(ls.last() == b);
    assert(control_pairs(ls) =~= seq![(k, v + seq!['\n'] + c)]);
    assert(v + "\n"@ + c =~= v + seq!['\n'] + c);
}

/// Parse RFC-2822-style control fields (with continuation lines). Shared
/// with the `opkg` indexer (`.ipk` controls use the same syntax).
pub fn parse_control(text: &str) -> (r: KeyValues)
    ensures
        pairs_view(r.pairs@) == control_pairs(lines(text@)),
{
    let t = chars_of(text);
    let ls = lines_exec(t.as_slice());
    let ghost all = ls.deep_view();
    let colon: Vec<char> = vec![':'];
    assert(colon@ =~= seq![':']);
    let mut pairs: Vec<(String, String)> = Vec::new();
    let mut i: usize = 0;
    assert(all.take(0) =~= Seq::<Seq<char>>::empty());
    while i < ls.len()
        invariant
            i <= ls.len(),
            all == ls.deep_view(),
            colon@ == seq![':'],
            pairs_view(pairs@) == control_pairs(all.take(i as int)),
        decreases ls.len() - i,
    {
        assert(all.take(i + 1).drop_last() =~= all.take(i as int));
        assert(all[i as int] == ls@[i as int]@);
        let line = ls[i].as_slice();
        let ghost before = pairs_view(pairs@);
        if line.len() > 0 && (line[0] == ' ' || line[0] == '\t') {
            let n = pairs.len();
            if n > 0 && pairs[n - 1].0.unicode_len() > 0 {
                let ghost old_pairs = pairs@;
                let (k, v) = pairs.pop().unwrap();
                assert((k, v) == old_pairs.last());
                assert(pairs@ == old_pairs.drop_last());
                let mut nv = chars_of(v.as_str());
                nv.push('\n');
                crate::text::append_chars(&mut nv, trim_slice(line));
                let ghost last = before.last();
                assert(last == (k@, v@));
                assert(nv@ == v@ + seq!['\n'] + trim(all[i as int]));
                pairs.push((k, string_of(nv.as_slice())));
                assert(pairs_view(pairs@) =~= pairs_view(old_pairs.drop_last()).push((k@, nv@)));
                assert(pairs_view(pairs@) =~= before.update(
                    before.len() - 1,
                    (last.0, last.1 + seq!['\n'] + trim(all[i as int])),
                ));
            }
        } else {
            let p = find_class_from(line, 0, false, colon.as_slice());
            assert(line@.skip(0) =~= line@);
            if p < line.len() {
                let key = trim_slice(vstd::slice::slice_subrange(line, 0, p));
                let value = trim_slice(vstd::slice::slice_subrange(line, p + 1, line.len()));
                pairs.push((string_of(key), string_of(value)));
                assert(pairs_view(pairs@) =~= before.push((key@, value@)));
            }
        }
        i = i + 1;
    }
    assert(all.take(ls.len() as int) =~= all);
    KeyValues { pairs }
}

// ---------------------------------------------------------------------------
// The apt index files: Packages stanzas, Release files and their hashes
// ---------------------------------------------------------------------------

/// The hash block a `Release` file lists for one index file: its MD5, SHA-1
/// and SHA-256, each with the file's size and name.
pub open spec fn index_hashes_text(name: Seq<char>, bytes: Seq<u8>) -> Seq<char> {
    let size = crate::text::decimal(bytes.len());
    "MD5Sum:\n "@ + crate::digests::hex_lower(crate::digests::md5_digest(bytes)) + " "@ + size
        + " "@ + name + "\nSHA1:\n "@ + crate::digests::hex_lower(
        crate::digests::sha1_digest(bytes),
    ) + " "@ + size + " "@ + name + "\nSHA256:\n "@ + crate::digests::hex_lower(
        crate::digests::sha256_digest(bytes),
    ) + " "@ + size + " "@ + name + "\n"@
}

/// The hash block of one index file for a `Release` file.
pub fn index_hashes(name: &str, bytes: &[u8]) -> (r: String)
    ensures
        r@ == index_hashes_text(name@, bytes@),
{
    let size = string_of(crate::text::decimal_exec(bytes.len() as u64).as_slice());
    let mut s = String::from_str("MD5Sum:\n ");
    s.append(crate::digests::md5_hex(bytes).as_str());
    s.append(" ");
    s.append(size.as_str());
    s.append(" ");
    s.append(name);
    s.append("\nSHA1:\n ");
    s.append(crate::digests::sha1_hex(bytes).as_str());
    s.append(" ");
    s.append(size.as_str());
    s.append(" ");
    s.append(name);
    s.append("\nSHA256:\n ");
    s.append(crate::digests::sha256_hex(bytes).as_str());
    s.append(" ");
    s.append(size.as_str());
    s.append(" ");
    s.append(name);
    s.append("\n");
    s
}

/// A control field's value, empty when the field is absent.
pub open spec fn field_or_empty(m: Map<Seq<char>, Seq<char>>, k: Seq<char>) -> Seq<char> {
    if m.contains_key(k) {
        m[k]
    } else {
        Seq::empty()
    }
}

fn field_or_empty_exec(ctrl: &KeyValues, k: &str) -> (r: String)
    ensures
        r@ == field_or_empty(ctrl@, k@),
{
    match ctrl.get(k) {
        Some(v) => v.clone(),
        None => String::new(),
    }
}

/// Where a package file is found from the repository root: `dists/<suite>/`
/// in front of its name for a multi-suite layout.
pub open spec fn pool_path(suite: Seq<char>, file_name: Seq<char>) -> Seq<char> {
    if suite.len() == 0 {
        file_name
    } else {
        "dists/"@ + suite + "/"@ + file_name
    }
}

/// The `Packages` stanza of one package, without its final newline.
pub open spec fn package_stanza_text(
    ctrl: Map<Seq<char>, Seq<char>>,
    file_name: Seq<char>,
    suite: Seq<char>,
    size: u64,
    sha256: Seq<char>,
) -> Seq<char> {
    crate::text::strip_suffix_all(
        "Package: "@ + field_or_empty(ctrl, "Package"@) + "\nVersion: "@ + field_or_empty(
            ctrl,
            "Version"@,
        ) + "\nArchitecture: "@ + field_or_empty(ctrl, "Architecture"@) + "\nMaintainer: "@
            + field_or_empty(ctrl, "Maintainer"@) + "\nDepends: "@ + field_or_empty(
            ctrl,
            "Depends"@,
        ) + "\nDescription: "@ + field_or_empty(ctrl, "Description"@) + "\nFilename: "@
            + pool_path(suite, file_name) + "\nSize: "@ + crate::text::decimal(size as nat)
            + "\nSHA256: "@ + sha256 + "\n"@,
        "\n"@,
    )
}

/// Renders the `Packages` stanza of one package from its control fields,
/// file name, size and SHA-256.
pub fn package_stanza(ctrl: &KeyValues, file_name: &str, suite: &str, size: u64, sha256: &str) -> (r: String)
    ensures
        r@ == package_stanza_text(ctrl@, file_name@, suite@, size, sha256@),
{
    let mut s = String::from_str("Package: ");
    s.append(field_or_empty_exec(ctrl, "Package").as_str());
    s.append("\nVersion: ");
    s.append(field_or_empty_exec(ctrl, "Version").as_str());
    s.append("\nArchitecture: ");
    s.append(field_or_empty_exec(ctrl, "Architecture").as_str());
    s.append("\nMaintainer: ");
    s.append(field_or_empty_exec(ctrl, "Maintainer").as_str());
    s.append("\nDepends: ");
    s.append(field_or_empty_exec(ctrl, "Depends").as_str());
    s.append("\nDescription: ");
    s.append(field_or_empty_exec(ctrl, "Description").as_str());
    s.append("\nFilename: ");
    let ghost pre = s@;
    if suite.is_empty() {
        s.append(file_name);
    } else {
        s.append("dists/");
        s.append(suite);
        s.append("/");
        s.append(file_name);
    }
    assert(s@ == pre + pool_path(suite@, file_name@));
    s.append("\nSize: ");
    s.append(string_of(crate::text::decimal_exec(size).as_slice()).as_str());
    s.append("\nSHA256: ");
    s.append(sha256);
    s.append("\n");
    let v = chars_of(s.as_str());
    let nl = chars_of("\n");
    string_of(crate::text::strip_suffix_all_exec(v.as_slice(), nl.as_slice()))
}

/// The `Packages` file: the stanzas separated by blank lines, ending in a
/// newline.
pub fn packages_text(stanzas: &Vec<String>) -> (r: String)
    ensures
        r@ == crate::text::join(stanzas.deep_view(), "\n\n"@) + "\n"@,
{
    let mut parts: Vec<Vec<char>> = Vec::new();
    let mut i: usize = 0;
    while i < stanzas.len()
        invariant
            i <= stanzas.len(),
            parts.deep_view() == stanzas.deep_view().take(i as int),
        decreases stanzas.len() - i,
    {
        let c = chars_of(stanzas[i].as_str());
        let ghost cv = c@;
        assert(cv == stanzas.deep_view()[i as int]);
        assert(c.deep_view() =~= cv);
        let ghost before = parts.deep_view();
        parts.push(c);
        assert(parts.deep_view() =~= before.push(cv));
        assert(stanzas.deep_view().take(i + 1) =~= stanzas.deep_view().take(i as int).push(cv));
        i = i + 1;
    }
    assert(stanzas.deep_view().take(stanzas.len() as int) =~= stanzas.deep_view());
    let sep = chars_of("\n\n");
    let mut j = crate::text::join_exec(&parts, sep.as_slice());
    j.push('\n');
    proof {
        reveal_strlit("\n");
    }
    assert(j@ =~= crate::text::join(stanzas.deep_view(), "\n\n"@) + "\n"@);
    string_of(j.as_slice())
}

/// The components a multi-suite `Release` lists: the comma-separated
/// pieces, trimmed, blank ones dropped.
pub open spec fn component_list(s: Seq<char>) -> Seq<Seq<char>> {
    crate::text::non_empty(crate::sourcebuild::comma_list(s))
}

/// Splits `--components` into its names.
pub fn components_of(s: &str) -> (r: Vec<String>)
    ensures
        r.deep_view() == component_list(s@),
{
    let pieces = crate::sourcebuild::split_comma_list(s);
    let ghost ps = pieces.deep_view();
    let mut cs: Vec<String> = Vec::new();
    let mut i: usize = 0;
    assert(ps.take(0) =~= Seq::<Seq<char>>::empty());
    while i < pieces.len()
        invariant
            i <= pieces.len(),
            ps == pieces.deep_view(),
            cs.deep_view() == crate::text::non_empty(ps.take(i as int)),
        decreases pieces.len() - i,
    {
        assert(ps.take(i + 1).drop_last() =~= ps.take(i as int));
        assert(ps.take(i + 1).last() == pieces@[i as int]@);
        if !pieces[i].as_str().is_empty() {
            let ghost before = cs.deep_view();
            cs.push(pieces[i].clone());
            assert(cs.deep_view() =~= before.push(ps[i as int]));
        }
        i = i + 1;
    }
    assert(ps.take(pieces.len() as int) =~= ps);
    cs
}

/// The `Release` of a single-suite repository.
pub open spec fn single_release_text(origin: Seq<char>, suite: Seq<char>, date: Seq<char>, archs: Seq<Seq<char>>) -> Seq<char> {
    "Origin: "@ + origin + "\nLabel: "@ + origin + "\nSuite: "@ + suite + "\nCodename: "@ + suite
        + "\nDate: "@ + date + "\nArchitectures: "@ + crate::text::join(archs, " "@)
        + "\nComponents: main\nDescription: "@ + origin
        + " prebuilt repository (generated by lx repo)\n"@
}

pub(crate) fn join_strings(v: &Vec<String>, sep: &str) -> (r: String)
    ensures
        r@ == crate::text::join(v.deep_view(), sep@),
{
    let mut parts: Vec<Vec<char>> = Vec::new();
    let mut i: usize = 0;
    while i < v.len()
        invariant
            i <= v.len(),
            parts.deep_view() == v.deep_view().take(i as int),
        decreases v.len() - i,
    {
        let c = chars_of(v[i].as_str());
        let ghost cv = c@;
        assert(cv == v.deep_view()[i as int]);
        assert(c.deep_view() =~= cv);
        let ghost before = parts.deep_view();
        parts.push(c);
        assert(parts.deep_view() =~= before.push(cv));
        assert(v.deep_view().take(i + 1) =~= v.deep_view().take(i as int).push(cv));
        i = i + 1;
    }
    assert(v.deep_view().take(v.len() as int) =~= v.deep_view());
    let j = crate::text::join_exec(&parts, chars_of(sep).as_slice());
    string_of(j.as_slice())
}

/// Renders the `Release` of a single-suite repository (without its hash
/// blocks); `archs` are the architectures, sorted.
pub fn single_release(origin: &str, suite: &str, date: &str, archs: &Vec<String>) -> (r: String)
    ensures
        r@ == single_release_text(origin@, suite@, date@, archs.deep_view()),
{
    let mut s = String::from_str("Origin: ");
    s.append(origin);
    s.append("\nLabel: ");
    s.append(origin);
    s.append("\nSuite: ");
    s.append(suite);
    s.append("\nCodename: ");
    s.append(suite);
    s.append("\nDate: ");
    s.append(date);
    s.append("\nArchitectures: ");
    s.append(join_strings(archs, " ").as_str());
    s.append("\nComponents: main\nDescription: ");
    s.append(origin);
    s.append(" prebuilt repository (generated by lx repo)\n");
    s
}

/// The `Release` of one suite of a multi-suite repository.
pub open spec fn suite_release_text(
    origin: Seq<char>,
    suite: Seq<char>,
    date: Seq<char>,
    archs: Seq<Seq<char>>,
    components: Seq<Seq<char>>,
) -> Seq<char> {
    "Origin: "@ + origin + "\nLabel: "@ + origin + "\nSuite: "@ + suite + "\nCodename: "@ + suite
        + "\nDate: "@ + date + "\nArchitectures: "@ + crate::text::join(archs, " "@)
        + "\nComponents: "@ + crate::text::join(components, " "@) + "\nDescription: "@ + origin
        + " suite "@ + suite + " (generated by lx repo)\n"@
}

/// Renders the `Release` of one suite (without its hash blocks).
pub fn suite_release(
    origin: &str,
    suite: &str,
    date: &str,
    archs: &Vec<String>,
    components: &Vec<String>,
) -> (r: String)
    ensures
        r@ == suite_release_text(origin@, suite@, date@, archs.deep_view(), components.deep_view()),
{
    let mut s = String::from_str("Origin: ");
    s.append(origin);
    s.append("\nLabel: ");
    s.append(origin);
    s.append("\nSuite: ");
    s.append(suite);
    s.append("\nCodename: ");
    s.append(suite);
    s.append("\nDate: ");
    s.append(date);
    s.append("\nArchitectures: ");
    s.append(join_strings(archs, " ").as_str());
    s.append("\nComponents: ");
    s.append(join_strings(components, " ").as_str());
    s.append("\nDescription: ");
    s.append(origin);
    s.append(" suite ");
    s.append(suite);
    s.append(" (generated by lx repo)\n");
    s
}

/// The top-level `Release` of a multi-suite repository.
pub open spec fn top_release_text(
    origin: Seq<char>,
    date: Seq<char>,
    archs: Seq<Seq<char>>,
    components: Seq<Seq<char>>,
    suites: Seq<Seq<char>>,
) -> Seq<char> {
    "Origin: "@ + origin + "\nLabel: "@ + origin + "\nDate: "@ + date + "\nArchitectures: "@
        + crate::text::join(archs, " "@) + "\nComponents: "@ + crate::text::join(components, " "@)
        + "\nSuites: "@ + crate::text::join(suites, " "@) + "\nDescription: "@ + origin
        + " multi-suite repository (generated by lx repo)\n"@
}

/// Renders the top-level `Release` of a multi-suite repository (without its
/// hash blocks).
pub fn top_release(
    origin: &str,
    date: &str,
    archs: &Vec<String>,
    components: &Vec<String>,
    suites: &Vec<String>,
) -> (r: String)
    ensures
        r@ == top_release_text(origin@, date@, archs.deep_view(), components.deep_view(), suites.deep_view()),
{
    let mut s = String::from_str("Origin: ");
    s.append(origin);
    s.append("\nLabel: ");
    s.append(origin);
    s.append("\nDate: ");
    s.append(date);
    s.append("\nArchitectures: ");
    s.append(join_strings(archs, " ").as_str());
    s.append("\nComponents: ");
    s.append(join_strings(components, " ").as_str());
    s.append("\nSuites: ");
    s.append(join_strings(suites, " ").as_str());
    s.append("\nDescription: ");
    s.append(origin);
    s.append(" multi-suite repository (generated by lx repo)\n");
    s
}

/// The suites of a repository: the non-hidden subdirectories of `dists/`,
/// sorted; without any, the root itself as `stable` when it holds `.deb`s.
/// The flag tells whether the root is that fallback suite.
pub open spec fn suites_of(dir_names: Seq<Seq<char>>, root_has_debs: bool) -> (Seq<Seq<char>>, bool) {
    let visible = dir_names.filter(|n: Seq<char>| !starts_with(n, "."@));
    if visible.len() > 0 {
        (crate::sorted::sorted_texts(visible), false)
    } else if root_has_debs {
        (seq!["stable"@], true)
    } else {
        (Seq::empty(), false)
    }
}

/// Finds the suites of a repository from the names of the directories in
/// `dists/` and whether the root holds `.deb` files.
pub fn discover_suites(dir_names: &Vec<String>, root_has_debs: bool) -> (r: (Vec<String>, bool))
    ensures
        r.0.deep_view() == suites_of(dir_names.deep_view(), root_has_debs).0,
        r.1 == suites_of(dir_names.deep_view(), root_has_debs).1,
{
    let ghost all = dir_names.deep_view();
    let ghost pred = |n: Seq<char>| !starts_with(n, "."@);
    let dot = chars_of(".");
    let mut visible: Vec<String> = Vec::new();
    let mut i: usize = 0;
    assert(all.take(0).filter(pred) =~= Seq::<Seq<char>>::empty());
    while i < dir_names.len()
        invariant
            i <= dir_names.len(),
            all == dir_names.deep_view(),
            dot@ == "."@,
            pred == (|n: Seq<char>| !starts_with(n, "."@)),
            visible.deep_view() == all.take(i as int).filter(pred),
        decreases dir_names.len() - i,
    {
        assert(all.take(i + 1).drop_last() =~= all.take(i as int));
        assert(all.take(i + 1).last() == dir_names@[i as int]@);
        reveal(Seq::filter);
        if !starts_with_exec(chars_of(dir_names[i].as_str()).as_slice(), dot.as_slice()) {
            let ghost before = visible.deep_view();
            visible.push(dir_names[i].clone());
            assert(visible.deep_view() =~= before.push(all[i as int]));
        }
        i = i + 1;
    }
    assert(all.take(dir_names.len() as int) =~= all);
    if visible.len() > 0 {
        (crate::sorted::sort_texts(&visible), false)
    } else if root_has_debs {
        let r = vec!["stable".to_string()];
        assert(r.deep_view() =~= seq!["stable"@]);
        (r, true)
    } else {
        let r: Vec<String> = Vec::new();
        assert(r.deep_view() =~= Seq::<Seq<char>>::empty());
        (r, false)
    }
}

// ---------------------------------------------------------------------------
// Package indexes
// ---------------------------------------------------------------------------

/// What the index records of one `.deb`: its control fields, file name,
/// size and SHA-256.
#[derive(Debug, Clone)]
pub struct DebIndexEntry {
    pub control: KeyValues,
    pub file_name: String,
    pub size: u64,
    pub sha256: String,
}

/// The stanzas of the `.deb`s, in order.
pub open spec fn stanzas_of(debs: Seq<DebIndexEntry>, suite: Seq<char>) -> Seq<Seq<char>> {
    debs.map_values(|d: DebIndexEntry| package_stanza_text(d.control@, d.file_name@, suite, d.size, d.sha256@))
}

/// The architectures the `.deb`s name, in order.
pub open spec fn deb_archs(debs: Seq<DebIndexEntry>) -> Seq<Seq<char>> {
    debs.map_values(|d: DebIndexEntry| field_or_empty(d.control@, "Architecture"@))
}

/// The `Packages` index of the `.deb`s (their stanzas, in order, with the
/// `dists/<suite>/` prefix when a suite is given) and their architectures,
/// sorted and each once.
pub fn packages_index(debs: &Vec<DebIndexEntry>, suite: &str) -> (r: (String, Vec<String>))
    ensures
        r.0@ == crate::text::join(stanzas_of(debs@, suite@), "\n\n"@) + "\n"@,
        r.1.deep_view() == crate::sorted::sorted_set(deb_archs(debs@)),
{
    let mut stanzas: Vec<String> = Vec::new();
    let mut archs: Vec<String> = Vec::new();
    let mut i: usize = 0;
    while i < debs.len()
        invariant
            i <= debs@.len(),
            stanzas.deep_view() == stanzas_of(debs@.take(i as int), suite@),
            archs.deep_view() == deb_archs(debs@.take(i as int)),
        decreases debs@.len() - i,
    {
        let d = &debs[i];
        let st = package_stanza(&d.control, d.file_name.as_str(), suite, d.size, d.sha256.as_str());
        let a = field_or_empty_exec(&d.control, "Architecture");
        let ghost (sv, av) = (st@, a@);
        let ghost (s0, a0) = (stanzas.deep_view(), archs.deep_view());
        stanzas.push(st);
        archs.push(a);
        assert(stanzas.deep_view() =~= s0.push(sv));
        assert(archs.deep_view() =~= a0.push(av));
        assert(debs@.take(i + 1) =~= debs@.take(i as int).push(debs@[i as int]));
        assert(stanzas_of(debs@.take(i + 1), suite@) =~= stanzas_of(debs@.take(i as int), suite@).push(sv));
        assert(deb_archs(debs@.take(i + 1)) =~= deb_archs(debs@.take(i as int)).push(av));
        i = i + 1;
    }
    assert(debs@.take(debs@.len() as int) =~= debs@);
    (packages_text(&stanzas), crate::sorted::sorted_set_exec(&archs))
}

/// All the suites' architectures together.
pub open spec fn flatten_archs(lists: Seq<Seq<Seq<char>>>) -> Seq<Seq<char>>
    decreases lists.len(),
{
    if lists.len() == 0 {
        Seq::empty()
    } else {
        flatten_archs(lists.drop_last()) + lists.last()
    }
}

/// The architectures of every suite, sorted and each once (the top-level
/// `Release` lists them).
pub fn union_archs(lists: &Vec<Vec<String>>) -> (r: Vec<String>)
    ensures
        r.deep_view() == crate::sorted::sorted_set(flatten_archs(lists.deep_view())),
{
    let mut all: Vec<String> = Vec::new();
    let mut i: usize = 0;
    while i < lists.len()
        invariant
            i <= lists@.len(),
            all.deep_view() == flatten_archs(lists.deep_view().take(i as int)),
        decreases lists@.len() - i,
    {
        let ghost start = all.deep_view();
        let l = &lists[i];
        let mut j: usize = 0;
        while j < l.len()
            invariant
                j <= l@.len(),
                all.deep_view() == start + l.deep_view().take(j as int),
            decreases l@.len() - j,
        {
            let ghost before = all.deep_view();
            all.push(l[j].clone());
            assert(all.deep_view() =~= before.push(l.deep_view()[j as int]));
            assert(l.deep_view().take(j + 1) =~= l.deep_view().take(j as int).push(l.deep_view()[j as int]));
            j = j + 1;
        }
        assert(l.deep_view().take(l@.len() as int) =~= l.deep_view());
        assert(lists.deep_view().take(i + 1).drop_last() =~= lists.deep_view().take(i as int));
        assert(lists.deep_view()[i as int] == l.deep_view());
        i = i + 1;
    }
    assert(lists.deep_view().take(lists@.len() as int) =~= lists.deep_view());
    crate::sorted::sorted_set_exec(&all)
}

/// Where the top-level `Release` finds one index of a suite.
pub fn suite_index_path(suite: &str, index: &str) -> (r: String)
    ensures
        r@ == "dists/"@ + suite@ + "/"@ + index@,
{
    let mut s = String::from_str("dists/");
    s.append(suite);
    s.append("/");
    s.append(index);
    s
}

} // verus!
