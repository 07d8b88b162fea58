//! Post-build artifact signing: the request type, where a detached
//! signature goes, the `gpg` command line, and how the signing key's
//! fingerprint is read back from `gpg --list-secret-keys --with-colons`.
use vstd::prelude::*;

use crate::text::{
    chars_of, lines, lines_exec, seq_eq, split_class, split_class_exec, string_of, trim,
    trim_slice, in_class, is_ws, lemma_lines_cons, lemma_single_class, lemma_split_class_cons,
    lemma_trim_id,
};

verus! {

/// Everything needed to sign one artifact.
#[derive(Debug, Clone)]
pub struct SignRequest<'a> {
    /// Path to an ASCII-armored secret key.
    pub key_file: &'a str,
    /// Optional key id / fingerprint (gpg `--local-user`).
    pub key_id: &'a str,
    /// Passphrase, if the key needs one.
    pub passphrase: Option<&'a str>,
}

/// `<file>.deb` -> sibling `<file>.deb.sig`.
pub fn sig_path_for(artifact: &str) -> (r: String)
    ensures
        r@ == artifact@ + ".sig"@,
{
    let mut p = String::from_str(artifact);
    p.append(".sig");
    p
}

/// The passphrase arguments: none for an absent or empty passphrase.
pub open spec fn passphrase_args(passphrase: Option<Seq<char>>) -> Seq<Seq<char>> {
    match passphrase {
        Some(p) if p.len() > 0 => seq!["--pinentry-mode"@, "loopback"@, "--passphrase"@, p],
        _ => seq![],
    }
}

/// The shared `gpg` arguments: batch mode, the signing identity, and the
/// passphrase when there is one.
pub open spec fn gpg_base_args(local_user: Seq<char>, passphrase: Option<Seq<char>>) -> Seq<
    Seq<char>,
> {
    seq!["--batch"@, "--yes"@, "--local-user"@, local_user] + passphrase_args(passphrase)
}

/// The `gpg` arguments shared by every signing call (the program name not
/// included).
pub fn gpg_base_command(local_user: &str, passphrase: Option<&str>) -> (r: Vec<String>)
    ensures
        r.deep_view() == gpg_base_args(
            local_user@,
            match passphrase {
                Some(p) => Some(p@),
                None => None,
            },
        ),
{
    let mut out: Vec<String> = Vec::new();
    out.push(String::from_str("--batch"));
    out.push(String::from_str("--yes"));
    out.push(String::from_str("--local-user"));
    out.push(String::from_str(local_user));
    match passphrase {
        Some(p) => {
            if p.unicode_len() > 0 {
                out.push(String::from_str("--pinentry-mode"));
                out.push(String::from_str("loopback"));
                out.push(String::from_str("--passphrase"));
                out.push(String::from_str(p));
            }
        },
        None => {},
    }
    let ghost pv = match passphrase {
        Some(p) => Some(p@),
        None => None,
    };
    assert(out.deep_view() =~= gpg_base_args(local_user@, pv));
    out
}

/// The full `gpg` arguments of a detached signature of `artifact` written
/// to `sig_path`.
pub fn detach_sign_command(
    local_user: &str,
    passphrase: Option<&str>,
    sig_path: &str,
    artifact: &str,
) -> (r: Vec<String>)
    ensures
        r.deep_view() == gpg_base_args(
            local_user@,
            match passphrase {
                Some(p) => Some(p@),
                None => None,
            },
        ) + seq!["--detach-sign"@, "--output"@, sig_path@, artifact@],
{
    let mut out = gpg_base_command(local_user, passphrase);
    let ghost base = out.deep_view();
    out.push(String::from_str("--detach-sign"));
    out.push(String::from_str("--output"));
    out.push(String::from_str(sig_path));
    out.push(String::from_str(artifact));
    assert(out.deep_view() =~= base + seq!["--detach-sign"@, "--output"@, sig_path@, artifact@]);
    out
}

/// The fingerprint a `--with-colons` line carries: field 5 of a `sec`
/// record, trimmed, when it is not blank.
pub open spec fn sec_fingerprint(line: Seq<char>) -> Option<Seq<char>> {
    let f = split_class(line, false, seq![':']);
    if f.len() > 4 && f[0] == "sec"@ && trim(f[4]).len() > 0 {
        Some(trim(f[4]))
    } else {
        None
    }
}

/// The first fingerprint among `ls`.
pub open spec fn first_fingerprint(ls: Seq<Seq<char>>) -> Option<Seq<char>>
    decreases ls.len(),
{
    if ls.len() == 0 {
        None
    } else {
        match sec_fingerprint(ls[0]) {
            Some(f) => Some(f),
            None => first_fingerprint(ls.drop_first()),
        }
    }
}

/// Text without a `:` or a line break: one field of a colon record.
pub open spec fn colon_field_ok(t: Seq<char>) -> bool {
    forall|j: int| 0 <= j < t.len() ==> #[trigger] t[j] != ':' && t[j] != '\n'
}

proof fn lemma_colon_field(t: Seq<char>)
    requires
        colon_field_ok(t),
    ensures
        forall|j: int| 0 <= j < t.len() ==> !in_class(#[trigger] t[j], false, seq![':']),
{
    assert forall|j: int| 0 <= j < t.len() implies !in_class(#[trigger] t[j], false, seq![':']) by {
        lemma_single_class(t[j], ':');
    }
}

/// `sec:f1:f2:f3:K:rest` as one line.
pub open spec fn sec_record(f1: Seq<char>, f2: Seq<char>, f3: Seq<char>, key: Seq<char>, rest: Seq<char>) -> Seq<char> {
    seq!['s', 'e', 'c', ':'] + f1 + seq![':'] + f2 + seq![':'] + f3 + seq![':'] + key + seq![':'] + rest
}

proof fn lemma_sec_record_one_line(f1: Seq<char>, f2: Seq<char>, f3: Seq<char>, key: Seq<char>, rest: Seq<char>)
    requires
        colon_field_ok(f1),
        colon_field_ok(f2),
        colon_field_ok(f3),
        colon_field_ok(key),
        forall|j: int| 0 <= j < rest.len() ==> #[trigger] rest[j] != '\n',
    ensures
        forall|j: int| 0 <= j < sec_record(f1, f2, f3, key, rest).len() ==> #[trigger] sec_record(f1, f2, f3, key, rest)[j] != '\n',
{
    let line = sec_record(f1, f2, f3, key, rest);
    assert forall|j: int| 0 <= j < line.len() implies #[trigger] line[j] != '\n' by {
        let a = 4 + f1.len();
        let b = a + 1 + f2.len();
        let c = b + 1 + f3.len();
        let d = c + 1 + key.len();
        if j < 4 {
        } else if j < a {
            assert(line[j] == f1[j - 4]);
        } else if j == a {
        } else if j < b {
            assert(line[j] == f2[j - a - 1]);
        } else if j == b {
        } else if j < c {
            assert(line[j] == f3[j - b - 1]);
        } else if j == c {
        } else if j < d {
            assert(line[j] == key[j - c - 1]);
        } else if j == d {
        } else {
            assert(line[j] == rest[j - d - 1]);
        }
    }
}

proof fn lemma_sec_record_fields(f1: Seq<char>, f2: Seq<char>, f3: Seq<char>, key: Seq<char>, rest: Seq<char>)
    requires
        colon_field_ok(f1),
        colon_field_ok(f2),
        colon_field_ok(f3),
        colon_field_ok(key),
    ensures
        split_class(sec_record(f1, f2, f3, key, rest), false, seq![':']) == seq![seq!['s', 'e', 'c'], f1, f2, f3, key]
            + split_class(rest, false, seq![':']),
{
    let sec = seq!['s', 'e', 'c'];
    let col = seq![':'];
    lemma_single_class(':', ':');
    lemma_colon_field(f1);
    lemma_colon_field(f2);
    lemma_colon_field(f3);
    lemma_colon_field(key);
    assert forall|j: int| 0 <= j < sec.len() implies !in_class(#[trigger] sec[j], false, seq![':']) by {
        lemma_single_class(sec[j], ':');
    }
    let t4 = key + col + rest;
    let t3 = f3 + col + t4;
    let t2 = f2 + col + t3;
    let t1 = f1 + col + t2;
    assert(sec_record(f1, f2, f3, key, rest) =~= sec + seq![':'] + t1);
    lemma_split_class_cons(sec, ':', t1, false, seq![':']);
    lemma_split_class_cons(f1, ':', t2, false, seq![':']);
    lemma_split_class_cons(f2, ':', t3, false, seq![':']);
    lemma_split_class_cons(f3, ':', t4, false, seq![':']);
    lemma_split_class_cons(key, ':', rest, false, seq![':']);
    assert(split_class(sec_record(f1, f2, f3, key, rest), false, seq![':']) =~= seq![sec, f1, f2, f3, key]
        + split_class(rest, false, seq![':']));
}

/// The key id is the fifth field of the listing's first `sec` record: for a
/// listing that starts with `sec:f1:f2:f3:K:rest`, the key id is `K`,
/// whatever the other fields and the lines after it hold.
pub proof fn lemma_sec_record_key_id(
    f1: Seq<char>,
    f2: Seq<char>,
    f3: Seq<char>,
    key: Seq<char>,
    rest: Seq<char>,
    more: Seq<char>,
)
    requires
        colon_field_ok(f1),
        colon_field_ok(f2),
        colon_field_ok(f3),
        colon_field_ok(key),
        key.len() > 0,
        !is_ws(key[0]),
        !is_ws(key.last()),
        forall|j: int| 0 <= j < rest.len() ==> #[trigger] rest[j] != '\n',
        rest.len() == 0 || rest.last() != '\r',
    ensures
        first_fingerprint(
            lines("sec:"@ + f1 + ":"@ + f2 + ":"@ + f3 + ":"@ + key + ":"@ + rest + "\n"@ + more),
        ) == Some(key),
{
    reveal_strlit("sec:");
    reveal_strlit("sec");
    reveal_strlit(":");
    reveal_strlit("\n");
    let line = sec_record(f1, f2, f3, key, rest);
    assert("sec:"@ + f1 + ":"@ + f2 + ":"@ + f3 + ":"@ + key + ":"@ + rest + "\n"@ + more
        =~= line + seq!['\n'] + more);
    lemma_sec_record_one_line(f1, f2, f3, key, rest);
    if rest.len() > 0 {
        assert(line.last() == rest.last());
    } else {
        assert(line.last() == ':');
    }
    lemma_lines_cons(line, more);
    lemma_sec_record_fields(f1, f2, f3, key, rest);
    let fs = split_class(line, false, seq![':']);
    assert(fs[0] == seq!['s', 'e', 'c']);
    assert(fs[4] == key);
    assert(fs.len() > 4);
    assert("sec"@ =~= seq!['s', 'e', 'c']);
    assert(fs[0] == "sec"@);
    lemma_trim_id(key);
    assert(sec_fingerprint(line) == Some(key));
    let ls = seq![line] + lines(more);
    assert(ls[0] == line);
}

/// The first secret-key fingerprint in a `gpg --list-secret-keys
/// --with-colons` listing.
pub fn key_id_from_listing(listing: &str) -> (r: Option<String>)
    ensures
        match r {
            Some(k) => first_fingerprint(lines(listing@)) == Some(k@),
            None => first_fingerprint(lines(listing@)) is None,
        },
{
    let text = chars_of(listing);
    let ls = lines_exec(text.as_slice());
    let ghost all = ls.deep_view();
    let colon: Vec<char> = vec![':'];
    assert(colon@ =~= seq![':']);
    let sec = chars_of("sec");
    let mut i: usize = 0;
    assert(all.skip(0) =~= all);
    while i < ls.len()
        invariant
            i <= ls.len(),
            all == ls.deep_view(),
            all == lines(listing@),
            colon@ == seq![':'],
            sec@ == "sec"@,
            first_fingerprint(all) == first_fingerprint(all.skip(i as int)),
        decreases ls.len() - i,
    {
        assert(all[i as int] == ls@[i as int]@);
        assert(all.skip(i as int).drop_first() =~= all.skip(i + 1));
        assert(all.skip(i as int)[0] == all[i as int]);
        let fields = split_class_exec(ls[i].as_slice(), false, colon.as_slice());
        if fields.len() > 4 {
            let f0 = &fields[0];
            let f4 = trim_slice(fields[4].as_slice());
            assert(fields.deep_view()[0] == fields@[0]@);
            assert(fields.deep_view()[4] == fields@[4]@);
            if seq_eq(f0.as_slice(), sec.as_slice()) && f4.len() > 0 {
                return Some(string_of(f4));
            }
        }
        i = i + 1;
    }
    None
}

} // verus!
