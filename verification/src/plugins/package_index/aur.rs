//! The Arch User Repository backend: reading a PKGBUILD (fields, bash arrays,
//! the upstream GitHub repository) and converting it into a starter
//! `package.yaml`. The RPC and PKGBUILD downloads are HTTP and stay outside.
use vstd::prelude::*;

use crate::text::{
    occurs_at,
    after_last, after_last_exec, append_chars, before_class, before_class_exec, chars_of,
    ends_with, ends_with_exec, find_class, find_class_from, find_exec, find_str,
    first_with_prefix, is_alnum, is_ascii_alnum, join, join_exec, lemma_first_with_prefix, lines,
    lines_exec, non_empty, push_chars, seq_eq, slice_to_vec, split_class, split_class_exec,
    split_ws, split_ws_exec, starts_with, starts_with_exec, string_of, strings_of, strip,
    strip_prefix_exec, strip_prefix_or, strip_slice, strip_suffix_all, strip_suffix_all_exec, trim,
    trim_slice,
};

verus! {

/// A configured AUR source (its `indexes.yaml` instance name).
pub struct AurSource {
    pub name: String,
}

impl AurSource {
    pub fn new(name: &str) -> (s: Self)
        ensures
            s.name@ == name@,
    {
        AurSource { name: String::from_str(name) }
    }

    /// The configured instance label.
    pub fn instance_name(&self) -> (r: &str)
        ensures
            r@ == self.name@,
    {
        self.name.as_str()
    }

    /// The AUR RPC request URL for `query` (`type=info&arg[]=...`).
    pub fn rpc_url(query: &str) -> (r: String)
        ensures
            r@ == "https://aur.archlinux.org/rpc/?v=5&"@ + query@,
    {
        let mut u = String::from_str("https://aur.archlinux.org/rpc/?v=5&");
        u.append(query);
        u
    }

    /// The URL of a package's PKGBUILD in the AUR git web view.
    pub fn pkgbuild_url(package: &str) -> (r: String)
        ensures
            r@ == "https://aur.archlinux.org/cgit/aur.git/plain/PKGBUILD?h="@ + package@,
    {
        let mut u = String::from_str("https://aur.archlinux.org/cgit/aur.git/plain/PKGBUILD?h=");
        u.append(package);
        u
    }
}

// ---------------------------------------------------------------------------
// What the functions compute
// ---------------------------------------------------------------------------

/// Quotes and parentheses trimmed off a field value.
pub open spec fn value_set() -> Seq<char> {
    seq!['(', ')', '\'', '"']
}

/// A raw field value with whitespace, quotes and parentheses trimmed.
pub open spec fn clean_value(v: Seq<char>) -> Seq<char> {
    trim(strip(trim(v), false, value_set()))
}

/// The value of the first line (trimmed) that starts with `prefix`; empty
/// when there is none.
pub open spec fn field_of(ls: Seq<Seq<char>>, prefix: Seq<char>) -> Seq<char> {
    let i = first_with_prefix(ls, prefix);
    if i < 0 || i >= ls.len() {
        seq![]
    } else {
        clean_value(trim(ls[i]).skip(prefix.len() as int))
    }
}

pub open spec fn pkgbuild_field_of(pkgbuild: Seq<char>, prefix: Seq<char>) -> Seq<char> {
    field_of(lines(pkgbuild), prefix)
}

/// Characters trimmed off a URL token before it is read.
pub open spec fn url_trim_set() -> Seq<char> {
    seq!['"', '\'', ',']
}

pub open spec fn is_repo_char(c: char) -> bool {
    is_ascii_alnum(c) || c == '-' || c == '_' || c == '.'
}

/// A GitHub owner or repository path segment.
pub open spec fn is_repo_component_spec(s: Seq<char>) -> bool {
    s.len() > 0 && s != seq!['.'] && s != seq!['.', '.'] && forall|i: int|
        0 <= i < s.len() ==> is_repo_char(#[trigger] s[i])
}

/// `owner/repo` of a GitHub URL token, if it names one.
pub open spec fn github_repo_of(url: Seq<char>) -> Option<Seq<char>> {
    let u0 = strip(url, true, url_trim_set());
    let u1 = after_last(u0, "::"@);
    let u2 = strip_prefix_or(u1, "git+"@);
    let idx = find_str(u2, "github.com/"@);
    if idx < 0 {
        None
    } else if !ends_with(u2.take(idx), "/"@) {
        None
    } else {
        let rest = u2.skip(idx + "github.com/"@.len());
        let parts = split_class(rest, false, seq!['/']);
        let owner = parts[0];
        let repo0 = if parts.len() > 1 {
            parts[1]
        } else {
            seq![]
        };
        let repo = before_class(strip_suffix_all(repo0, ".git"@), seq!['?', '#']);
        if is_repo_component_spec(owner) && is_repo_component_spec(repo) {
            Some(owner + "/"@ + repo)
        } else {
            None
        }
    }
}

/// Text of the array body: lines up to the first `)`, each whole line
/// followed by a newline.
pub open spec fn body_lines(texts: Seq<Seq<char>>) -> Seq<char>
    decreases texts.len(),
{
    if texts.len() == 0 {
        seq![]
    } else {
        let e = find_class(texts[0], false, seq![')']);
        if e >= 0 {
            texts[0].take(e)
        } else {
            texts[0] + seq!['\n'] + body_lines(texts.drop_first())
        }
    }
}

/// The raw body of `name=( ... )`.
pub open spec fn bash_array_body_of(pkgbuild: Seq<char>, name: Seq<char>) -> Option<Seq<char>> {
    let prefix = name + "=("@;
    let ls = lines(pkgbuild);
    let start = first_with_prefix(ls, prefix);
    if start < 0 || start >= ls.len() {
        None
    } else {
        Some(
            body_lines(seq![trim(ls[start]).skip(prefix.len() as int)] + ls.skip(start + 1)),
        )
    }
}

/// An array entry without a version constraint.
pub open spec fn dep_name(v: Seq<char>) -> Seq<char> {
    trim(before_class(trim(v), seq!['>', '=', '<']))
}

/// The entries of `name=( ... )`, unquoted and without version constraints.
pub open spec fn bash_array_of(pkgbuild: Seq<char>, name: Seq<char>) -> Seq<Seq<char>> {
    match bash_array_body_of(pkgbuild, name) {
        None => seq![],
        Some(b) => non_empty(
            split_class(b, false, seq!['\'', '"']).map_values(|p: Seq<char>| dep_name(p)),
        ),
    }
}

/// The first token naming a GitHub repository.
pub open spec fn first_repo(tokens: Seq<Seq<char>>) -> Option<Seq<char>>
    decreases tokens.len(),
{
    if tokens.len() == 0 {
        None
    } else {
        match github_repo_of(tokens[0]) {
            Some(r) => Some(r),
            None => first_repo(tokens.drop_first()),
        }
    }
}

/// The upstream repository: the first GitHub URL in `source=()`, else a
/// GitHub `url=`.
pub open spec fn upstream_repo_of(pkgbuild: Seq<char>) -> Option<Seq<char>> {
    let from_source = match bash_array_body_of(pkgbuild, "source"@) {
        Some(b) => first_repo(split_ws(b)),
        None => None,
    };
    match from_source {
        Some(r) => Some(r),
        None => github_repo_of(pkgbuild_field_of(pkgbuild, "url="@)),
    }
}

/// `a + v + b` when `v` is non-empty, else nothing.
pub open spec fn yaml_opt(a: Seq<char>, v: Seq<char>, b: Seq<char>) -> Seq<char> {
    if v.len() > 0 {
        a + v + b
    } else {
        seq![]
    }
}

/// `a + xs.join(", ") + b` when `xs` is non-empty, else nothing.
pub open spec fn yaml_list(a: Seq<char>, xs: Seq<Seq<char>>, b: Seq<char>) -> Seq<char> {
    if xs.len() > 0 {
        a + join(xs, ", "@) + b
    } else {
        seq![]
    }
}

pub open spec fn yaml_head(package: Seq<char>) -> Seq<char> {
    "# Converted from AUR PKGBUILD for '"@ + package + "' \u{2014} REVIEW ME.\n"@
        + "package_name: "@ + package + "\n"@
}

pub open spec fn yaml_repo(package: Seq<char>, url: Seq<char>, repo: Option<Seq<char>>) -> Seq<
    char,
> {
    match repo {
        Some(r) => "github_repo: "@ + r + "\n"@,
        None => "# Could not determine an upstream GitHub repository from the PKGBUILD.\n# Upstream url: "@
            + url + "\n# Scaffold a reviewed config with `lx init --from-aur "@ + package
            + "`.\n"@,
    }
}

pub open spec fn yaml_rename(package: Seq<char>) -> Seq<char> {
    "binary_rename: "@ + package + "   # install the single binary as the command name\n"@
}

pub open spec fn yaml_tail() -> Seq<char> {
    "# This PKGBUILD compiles from source. Consider:\n#   build_mode: source\n#   build_system: cmake   # or: custom + build_commands/install_commands\n#   build_suites: [trixie, forky, sid]\n#   architectures: [<this-host-arch>]\n"@
}

/// The starter `package.yaml` for `package`.
pub open spec fn yaml_of(package: Seq<char>, pkgbuild: Seq<char>) -> Seq<char> {
    yaml_head(package) + yaml_repo(
        package,
        pkgbuild_field_of(pkgbuild, "url="@),
        upstream_repo_of(pkgbuild),
    ) + yaml_opt("version: \""@, pkgbuild_field_of(pkgbuild, "pkgver="@), "\"\n"@) + yaml_opt(
        "license_spdx: "@,
        pkgbuild_field_of(pkgbuild, "license="@),
        "   # AUR license field, verify SPDX\n"@,
    ) + yaml_rename(package) + yaml_list(
        "# WARNING: Arch dependency names kept verbatim \u{2014} map to host names:\ndepends: \""@,
        bash_array_of(pkgbuild, "depends"@),
        "\"\n"@,
    ) + yaml_list(
        "# WARNING: Arch makedepends kept verbatim \u{2014} map to host-distro names:\nbuild_depends: ["@,
        bash_array_of(pkgbuild, "makedepends"@),
        "]\n"@,
    ) + yaml_tail()
}

/// Every dependency the PKGBUILD's `depends` array names reaches the
/// starter config: when the array has entries, the YAML holds the line
/// `depends: "d1, d2, ..."` with all of them, in order.
pub proof fn lemma_yaml_keeps_all_depends(package: Seq<char>, pkgbuild: Seq<char>)
    requires
        bash_array_of(pkgbuild, "depends"@).len() > 0,
    ensures
        ({
            let y = yaml_of(package, pkgbuild);
            let line = "depends: \""@ + join(bash_array_of(pkgbuild, "depends"@), ", "@) + "\"\n"@;
            exists|i: int| #[trigger] occurs_at(y, line, i)
        }),
{
    let deps = bash_array_of(pkgbuild, "depends"@);
    let j = join(deps, ", "@);
    let head = "# WARNING: Arch dependency names kept verbatim \u{2014} map to host names:\ndepends: \""@;
    let tag = "depends: \""@;
    reveal_strlit("# WARNING: Arch dependency names kept verbatim \u{2014} map to host names:\ndepends: \"");
    reveal_strlit("depends: \"");
    let w = head.take(head.len() - tag.len());
    assert(head =~= w + tag);
    let before = yaml_head(package) + yaml_repo(
        package,
        pkgbuild_field_of(pkgbuild, "url="@),
        upstream_repo_of(pkgbuild),
    ) + yaml_opt("version: \""@, pkgbuild_field_of(pkgbuild, "pkgver="@), "\"\n"@) + yaml_opt(
        "license_spdx: "@,
        pkgbuild_field_of(pkgbuild, "license="@),
        "   # AUR license field, verify SPDX\n"@,
    ) + yaml_rename(package);
    let after = yaml_list(
        "# WARNING: Arch makedepends kept verbatim \u{2014} map to host-distro names:\nbuild_depends: ["@,
        bash_array_of(pkgbuild, "makedepends"@),
        "]\n"@,
    ) + yaml_tail();
    let line = tag + j + "\"\n"@;
    let y = yaml_of(package, pkgbuild);
    assert(yaml_list(head, deps, "\"\n"@) == head + j + "\"\n"@);
    assert(y =~= (before + w) + line + after);
    let i = (before + w).len() as int;
    assert(y.subrange(i, i + line.len()) =~= line);
    assert(occurs_at(y, line, i));
}

/// Every build dependency the PKGBUILD's `makedepends` array names
/// reaches the starter config: when the array has entries, the YAML holds
/// the line `build_depends: [m1, m2, ...]` with all of them, in order.
pub proof fn lemma_yaml_keeps_all_makedepends(package: Seq<char>, pkgbuild: Seq<char>)
    requires
        bash_array_of(pkgbuild, "makedepends"@).len() > 0,
    ensures
        ({
            let y = yaml_of(package, pkgbuild);
            let line = "build_depends: ["@ + join(bash_array_of(pkgbuild, "makedepends"@), ", "@) + "]\n"@;
            exists|i: int| #[trigger] occurs_at(y, line, i)
        }),
{
    let deps = bash_array_of(pkgbuild, "makedepends"@);
    let j = join(deps, ", "@);
    let head = "# WARNING: Arch makedepends kept verbatim \u{2014} map to host-distro names:\nbuild_depends: ["@;
    let tag = "build_depends: ["@;
    reveal_strlit("# WARNING: Arch makedepends kept verbatim \u{2014} map to host-distro names:\nbuild_depends: [");
    reveal_strlit("build_depends: [");
    let w = head.take(head.len() - tag.len());
    assert(head =~= w + tag);
    let before = yaml_head(package) + yaml_repo(
        package,
        pkgbuild_field_of(pkgbuild, "url="@),
        upstream_repo_of(pkgbuild),
    ) + yaml_opt("version: \""@, pkgbuild_field_of(pkgbuild, "pkgver="@), "\"\n"@) + yaml_opt(
        "license_spdx: "@,
        pkgbuild_field_of(pkgbuild, "license="@),
        "   # AUR license field, verify SPDX\n"@,
    ) + yaml_rename(package) + yaml_list(
        "# WARNING: Arch dependency names kept verbatim \u{2014} map to host names:\ndepends: \""@,
        bash_array_of(pkgbuild, "depends"@),
        "\"\n"@,
    );
    let line = tag + j + "]\n"@;
    let y = yaml_of(package, pkgbuild);
    assert(yaml_list(head, deps, "]\n"@) == head + j + "]\n"@);
    assert(y =~= (before + w) + line + yaml_tail());
    let i = (before + w).len() as int;
    assert(y.subrange(i, i + line.len()) =~= line);
    assert(occurs_at(y, line, i));
}

/// A bash array written on one line: each name single-quoted, separated
/// by one blank (`'a' 'b' 'c'`).
pub open spec fn quoted_words(ns: Seq<Seq<char>>) -> Seq<char>
    decreases ns.len(),
{
    if ns.len() == 0 {
        seq![]
    } else if ns.len() == 1 {
        seq!['\''] + ns[0] + seq!['\'']
    } else {
        seq!['\''] + ns[0] + seq!['\'', ' '] + quoted_words(ns.drop_first())
    }
}

/// A plain package name in a PKGBUILD array: not blank-padded, without
/// quotes, `)`, a line break or a version operator.
pub open spec fn array_name_ok(n: Seq<char>) -> bool {
    &&& n.len() > 0
    &&& !crate::text::is_ws(n[0])
    &&& !crate::text::is_ws(n.last())
    &&& forall|j: int|
        0 <= j < n.len() ==> #[trigger] n[j] != '\'' && n[j] != '"' && n[j] != ')' && n[j] != '\n'
            && n[j] != '>' && n[j] != '=' && n[j] != '<'
}

/// The pieces the quotes cut `quoted_words(ns)` into, after the empty one
/// before the first quote.
pub open spec fn quoted_pieces(ns: Seq<Seq<char>>) -> Seq<Seq<char>>
    decreases ns.len(),
{
    if ns.len() == 0 {
        seq![]
    } else if ns.len() == 1 {
        seq![ns[0], seq![]]
    } else {
        seq![ns[0], seq![' ']] + quoted_pieces(ns.drop_first())
    }
}

proof fn lemma_quote_class(c: char)
    ensures
        crate::text::in_class(c, false, seq!['\'', '"']) <==> (c == '\'' || c == '"'),
{
    let q = seq!['\'', '"'];
    if c == '\'' {
        assert(q[0] == c);
    } else if c == '"' {
        assert(q[1] == c);
    }
}

proof fn lemma_name_quote_free(n: Seq<char>)
    requires
        array_name_ok(n),
    ensures
        forall|j: int| 0 <= j < n.len() ==> !crate::text::in_class(#[trigger] n[j], false, seq!['\'', '"']),
{
    assert forall|j: int| 0 <= j < n.len() implies !crate::text::in_class(#[trigger] n[j], false, seq!['\'', '"']) by {
        lemma_quote_class(n[j]);
    }
}

/// Quoted words start with a quote and hold no `)` or line break.
proof fn lemma_quoted_words_chars(ns: Seq<Seq<char>>)
    requires
        ns.len() > 0,
        forall|i: int| 0 <= i < ns.len() ==> array_name_ok(#[trigger] ns[i]),
    ensures
        quoted_words(ns)[0] == '\'',
        forall|j: int| 0 <= j < quoted_words(ns).len() ==> #[trigger] quoted_words(ns)[j] != ')'
            && quoted_words(ns)[j] != '\n',
    decreases ns.len(),
{
    let q = quoted_words(ns);
    let n = ns[0];
    assert(array_name_ok(n));
    if ns.len() == 1 {
        assert forall|j: int| 0 <= j < q.len() implies #[trigger] q[j] != ')' && q[j] != '\n' by {
            if 1 <= j < q.len() - 1 {
                assert(q[j] == n[j - 1]);
            }
        }
    } else {
        let t = ns.drop_first();
        assert forall|i: int| 0 <= i < t.len() implies array_name_ok(#[trigger] t[i]) by {
            assert(t[i] == ns[i + 1]);
        }
        lemma_quoted_words_chars(t);
        let r = quoted_words(t);
        assert forall|j: int| 0 <= j < q.len() implies #[trigger] q[j] != ')' && q[j] != '\n' by {
            if 1 <= j < n.len() + 1 {
                assert(q[j] == n[j - 1]);
            } else if j >= n.len() + 3 {
                assert(q[j] == r[j - n.len() - 3]);
            }
        }
    }
}

/// The quotes cut quoted words into an empty piece and then
/// [`quoted_pieces`].
proof fn lemma_split_quoted_words(ns: Seq<Seq<char>>)
    requires
        ns.len() > 0,
        forall|i: int| 0 <= i < ns.len() ==> array_name_ok(#[trigger] ns[i]),
    ensures
        split_class(quoted_words(ns), false, seq!['\'', '"']) == seq![seq![]] + quoted_pieces(ns),
        split_class(quoted_words(ns).drop_first(), false, seq!['\'', '"']) == quoted_pieces(ns),
    decreases ns.len(),
{
    let qs = seq!['\'', '"'];
    let n = ns[0];
    assert(array_name_ok(n));
    lemma_name_quote_free(n);
    lemma_quote_class('\'');
    let e = Seq::<char>::empty();
    let q = quoted_words(ns);
    if ns.len() == 1 {
        assert(q.drop_first() =~= n + seq!['\''] + e);
        crate::text::lemma_split_class_cons(n, '\'', e, false, qs);
        crate::text::lemma_split_class_single(e, false, qs);
        assert(split_class(q.drop_first(), false, qs) =~= quoted_pieces(ns));
    } else {
        let t = ns.drop_first();
        assert forall|i: int| 0 <= i < t.len() implies array_name_ok(#[trigger] t[i]) by {
            assert(t[i] == ns[i + 1]);
        }
        lemma_split_quoted_words(t);
        let x = quoted_words(t).drop_first();
        lemma_quote_class(' ');
        let sp = seq![' '];
        assert forall|j: int| 0 <= j < sp.len() implies !crate::text::in_class(#[trigger] sp[j], false, qs) by {}
        lemma_quoted_words_chars(t);
        assert(quoted_words(t) =~= seq!['\''] + x);
        assert(q.drop_first() =~= n + seq!['\''] + (sp + seq!['\''] + x));
        crate::text::lemma_split_class_cons(n, '\'', sp + seq!['\''] + x, false, qs);
        crate::text::lemma_split_class_cons(sp, '\'', x, false, qs);
        assert(split_class(q.drop_first(), false, qs) =~= quoted_pieces(ns));
    }
    lemma_quoted_words_chars(ns);
    assert(q =~= e + seq!['\''] + q.drop_first());
    crate::text::lemma_split_class_cons(e, '\'', q.drop_first(), false, qs);
}

proof fn lemma_non_empty_one(x: Seq<char>)
    ensures
        non_empty(seq![x]) == (if x.len() == 0 {
            Seq::<Seq<char>>::empty()
        } else {
            seq![x]
        }),
{
    let one = seq![x];
    assert(one.drop_last() =~= Seq::<Seq<char>>::empty());
    assert(one.last() == x);
    assert(non_empty(Seq::<Seq<char>>::empty()) == Seq::<Seq<char>>::empty());
    assert(Seq::<Seq<char>>::empty().push(x) =~= one);
}

/// `non_empty` of a concatenation is the concatenation of the parts'.
proof fn lemma_non_empty_concat(a: Seq<Seq<char>>, b: Seq<Seq<char>>)
    ensures
        non_empty(a + b) == non_empty(a) + non_empty(b),
    decreases b.len(),
{
    if b.len() == 0 {
        assert(a + b =~= a);
        assert(non_empty(a) + non_empty(b) =~= non_empty(a));
    } else {
        lemma_non_empty_concat(a, b.drop_last());
        assert((a + b).drop_last() =~= a + b.drop_last());
        assert((a + b).last() == b.last());
        if b.last().len() == 0 {
        } else {
            assert(non_empty(a) + non_empty(b.drop_last()).push(b.last()) =~= (non_empty(a)
                + non_empty(b.drop_last())).push(b.last()));
        }
    }
}

proof fn lemma_dep_name_blank()
    ensures
        dep_name(seq![]) == Seq::<char>::empty(),
        dep_name(seq![' ']) == Seq::<char>::empty(),
{
    let e = Seq::<char>::empty();
    assert(crate::text::strip_start(e, true, e) == e);
    assert(crate::text::strip_end(e, true, e) == e);
    let sp = seq![' '];
    assert(crate::text::is_ws(' '));
    crate::text::lemma_strip_start(sp, true, e, 1);
    assert(sp.skip(1) =~= e);
    assert(trim(sp) == e);
    crate::text::lemma_find_class_none(e, false, seq!['>', '=', '<']);
    assert(before_class(e, seq!['>', '=', '<']) == e);
}

proof fn lemma_dep_name_plain(n: Seq<char>)
    requires
        array_name_ok(n),
    ensures
        dep_name(n) == n,
{
    crate::text::lemma_trim_id(n);
    let ops = seq!['>', '=', '<'];
    assert forall|j: int| 0 <= j < n.len() implies !crate::text::in_class(#[trigger] n[j], false, ops) by {
        if ops.contains(n[j]) {
            let k = choose|k: int| 0 <= k < ops.len() && ops[k] == n[j];
            assert(k == 0 || k == 1 || k == 2);
        }
    }
    crate::text::lemma_find_class_none(n, false, ops);
}

/// The quoted pieces, with their version constraints cut off and the blank
/// ones dropped, are the names.
proof fn lemma_quoted_pieces_names(ns: Seq<Seq<char>>)
    requires
        ns.len() > 0,
        forall|i: int| 0 <= i < ns.len() ==> array_name_ok(#[trigger] ns[i]),
    ensures
        non_empty(quoted_pieces(ns).map_values(|p: Seq<char>| dep_name(p))) == ns,
    decreases ns.len(),
{
    lemma_dep_name_blank();
    let n = ns[0];
    assert(array_name_ok(n));
    lemma_dep_name_plain(n);
    let e = Seq::<char>::empty();
    if ns.len() == 1 {
        let m = quoted_pieces(ns).map_values(|p: Seq<char>| dep_name(p));
        assert(m =~= seq![n] + seq![e]);
        lemma_non_empty_concat(seq![n], seq![e]);
        lemma_non_empty_one(n);
        lemma_non_empty_one(e);
        assert(ns =~= seq![n]);
    } else {
        let t = ns.drop_first();
        assert forall|i: int| 0 <= i < t.len() implies array_name_ok(#[trigger] t[i]) by {
            assert(t[i] == ns[i + 1]);
        }
        lemma_quoted_pieces_names(t);
        let head = seq![n, seq![' ']].map_values(|p: Seq<char>| dep_name(p));
        let tail = quoted_pieces(t).map_values(|p: Seq<char>| dep_name(p));
        assert(quoted_pieces(ns).map_values(|p: Seq<char>| dep_name(p)) =~= head + tail);
        lemma_non_empty_concat(head, tail);
        assert(head =~= seq![n] + seq![e]);
        lemma_non_empty_concat(seq![n], seq![e]);
        lemma_non_empty_one(n);
        lemma_non_empty_one(e);
        assert(non_empty(head) =~= seq![n]);
        assert(ns =~= seq![n] + t);
    }
}

/// A PKGBUILD whose first line writes an array on one line,
/// `depends=('a' 'b' 'c')`, gives exactly those names, in order: none is
/// lost or added.
pub proof fn lemma_bash_array_reads_every_name(ns: Seq<Seq<char>>, more: Seq<char>)
    requires
        ns.len() > 0,
        forall|i: int| 0 <= i < ns.len() ==> array_name_ok(#[trigger] ns[i]),
    ensures
        bash_array_of("depends=("@ + quoted_words(ns) + ")\n"@ + more, "depends"@) == ns,
{
    reveal_strlit("depends=(");
    reveal_strlit("depends");
    reveal_strlit("=(");
    reveal_strlit(")\n");
    let q = quoted_words(ns);
    let prefix = "depends"@ + "=("@;
    assert(prefix =~= "depends=("@);
    let line = prefix + q + seq![')'];
    let pkgbuild = "depends=("@ + q + ")\n"@ + more;
    assert(pkgbuild =~= line + seq!['\n'] + more);
    lemma_quoted_words_chars(ns);
    assert forall|j: int| 0 <= j < line.len() implies #[trigger] line[j] != '\n' by {
        if 9 <= j < 9 + q.len() {
            assert(line[j] == q[j - 9]);
        }
    }
    crate::text::lemma_lines_cons(line, more);
    let ls = lines(pkgbuild);
    assert(ls[0] == line);
    assert(line[0] == 'd');
    assert(!crate::text::is_ws(')'));
    crate::text::lemma_trim_id(line);
    assert(line.take(prefix.len() as int) =~= prefix);
    crate::text::lemma_first_with_prefix(ls, prefix, 0);
    let first = trim(ls[0]).skip(prefix.len() as int);
    assert(first =~= q + seq![')']);
    assert forall|j: int| 0 <= j < q.len() implies !crate::text::in_class(#[trigger] q[j], false, seq![')']) by {
        crate::text::lemma_single_class(q[j], ')');
    }
    crate::text::lemma_single_class(')', ')');
    assert(q + seq![')'] =~= q + seq![')'] + Seq::<char>::empty());
    crate::text::lemma_find_class_after(q, ')', Seq::<char>::empty(), false, seq![')']);
    let texts = seq![first] + ls.skip(1);
    assert(texts[0] == first);
    assert(first.take(q.len() as int) =~= q);
    assert(body_lines(texts) == q);
    assert(bash_array_body_of(pkgbuild, "depends"@) == Some(q));
    lemma_split_quoted_words(ns);
    let pieces = seq![Seq::<char>::empty()] + quoted_pieces(ns);
    let mapped = pieces.map_values(|p: Seq<char>| dep_name(p));
    let rest = quoted_pieces(ns).map_values(|p: Seq<char>| dep_name(p));
    lemma_dep_name_blank();
    assert(mapped =~= seq![Seq::<char>::empty()] + rest);
    lemma_non_empty_concat(seq![Seq::<char>::empty()], rest);
    lemma_non_empty_one(Seq::<char>::empty());
    lemma_quoted_pieces_names(ns);
    assert(non_empty(mapped) =~= ns);
}

// ---------------------------------------------------------------------------
// Field reading
// ---------------------------------------------------------------------------

fn field_from_lines(ls: &Vec<Vec<char>>, prefix: &[char]) -> (r: Vec<char>)
    ensures
        r@ == field_of(ls.deep_view(), prefix@),
{
    let ghost d = ls.deep_view();
    let mut i: usize = 0;
    while i < ls.len()
        invariant
            i <= ls.len(),
            d == ls.deep_view(),
            forall|j: int| 0 <= j < i ==> !starts_with(trim(#[trigger] d[j]), prefix@),
        decreases ls.len() - i,
    {
        assert(d[i as int] =~= ls@[i as int]@);
        let t = trim_slice(ls[i].as_slice());
        if starts_with_exec(t, prefix) {
            proof {
                lemma_first_with_prefix(d, prefix@, i as int);
            }
            let rest = vstd::slice::slice_subrange(t, prefix.len(), t.len());
            assert(rest@ =~= trim(d[i as int]).skip(prefix@.len() as int));
            return clean_value_exec(rest);
        }
        i = i + 1;
    }
    proof {
        lemma_first_with_prefix(d, prefix@, i as int);
    }
    Vec::new()
}

fn clean_value_exec(v: &[char]) -> (r: Vec<char>)
    ensures
        r@ == clean_value(v@),
{
    let vs = vec!['(', ')', '\'', '"'];
    assert(vs@ =~= value_set());
    let a = trim_slice(v);
    let b = strip_slice(a, false, vs.as_slice());
    slice_to_vec(trim_slice(b))
}

/// The value of the first `prefix...` assignment in a PKGBUILD, with quotes
/// and parentheses trimmed; empty when absent.
pub fn pkgbuild_field(pkgbuild: &str, prefix: &str) -> (r: String)
    ensures
        r@ == pkgbuild_field_of(pkgbuild@, prefix@),
{
    let v = chars_of(pkgbuild);
    let p = chars_of(prefix);
    let ls = lines_exec(v.as_slice());
    let f = field_from_lines(&ls, p.as_slice());
    string_of(f.as_slice())
}

fn pkgbuild_field_chars(pkgbuild: &[char], prefix: &str) -> (r: Vec<char>)
    ensures
        r@ == pkgbuild_field_of(pkgbuild@, prefix@),
{
    let p = chars_of(prefix);
    let ls = lines_exec(pkgbuild);
    field_from_lines(&ls, p.as_slice())
}

// ---------------------------------------------------------------------------
// GitHub repositories
// ---------------------------------------------------------------------------

fn is_repo_component_chars(s: &[char]) -> (b: bool)
    ensures
        b == is_repo_component_spec(s@),
{
    if s.len() == 0 {
        return false;
    }
    let dot = vec!['.'];
    let dotdot = vec!['.', '.'];
    assert(dot@ =~= seq!['.']);
    assert(dotdot@ =~= seq!['.', '.']);
    if seq_eq(s, dot.as_slice()) || seq_eq(s, dotdot.as_slice()) {
        return false;
    }
    let mut i: usize = 0;
    while i < s.len()
        invariant
            i <= s.len(),
            forall|j: int| 0 <= j < i ==> is_repo_char(#[trigger] s@[j]),
        decreases s.len() - i,
    {
        let c = s[i];
        if !(is_alnum(c) || c == '-' || c == '_' || c == '.') {
            assert(!is_repo_char(s@[i as int]));
            return false;
        }
        i = i + 1;
    }
    true
}

/// True when `s` looks like a GitHub owner/repo path segment.
pub fn is_repo_component(s: &str) -> (b: bool)
    ensures
        b == is_repo_component_spec(s@),
{
    let v = chars_of(s);
    is_repo_component_chars(v.as_slice())
}

fn github_repo_chars(url: &[char]) -> (r: Option<Vec<char>>)
    ensures
        match r {
            Some(x) => github_repo_of(url@) == Some(x@),
            None => github_repo_of(url@) is None,
        },
{
    let trims = vec!['"', '\'', ','];
    assert(trims@ =~= url_trim_set());
    let u0 = strip_slice(url, true, trims.as_slice());
    let sep = chars_of("::");
    let u1 = after_last_exec(u0, sep.as_slice());
    let gitp = chars_of("git+");
    let u2 = strip_prefix_exec(u1, gitp.as_slice());
    let host = chars_of("github.com/");
    let idx = match find_exec(u2, host.as_slice()) {
        Some(i) => i,
        None => {
            return None;
        },
    };
    assert(occurs_at(u2@, host@, idx as int));
    let n2 = u2.len();
    assert(idx + host.len() <= n2);
    let slash = chars_of("/");
    let head = vstd::slice::slice_subrange(u2, 0, idx);
    if !ends_with_exec(head, slash.as_slice()) {
        return None;
    }
    let rest = vstd::slice::slice_subrange(u2, idx + host.len(), u2.len());
    let sl = vec!['/'];
    assert(sl@ =~= seq!['/']);
    let parts = split_class_exec(rest, false, sl.as_slice());
    let ghost pd = parts.deep_view();
    assert(pd.len() >= 1);
    assert(pd[0] =~= parts@[0]@);
    let empty: Vec<char> = Vec::new();
    let repo0: &[char] = if parts.len() > 1 {
        assert(pd[1] =~= parts@[1]@);
        parts[1].as_slice()
    } else {
        assert(empty@ =~= Seq::<char>::empty());
        empty.as_slice()
    };
    let dotgit = chars_of(".git");
    let repo1 = strip_suffix_all_exec(repo0, dotgit.as_slice());
    let qh = vec!['?', '#'];
    assert(qh@ =~= seq!['?', '#']);
    let repo = before_class_exec(repo1, qh.as_slice());
    let owner = parts[0].as_slice();
    if !is_repo_component_chars(owner) || !is_repo_component_chars(repo) {
        return None;
    }
    let mut out = slice_to_vec(owner);
    append_chars(&mut out, slash.as_slice());
    append_chars(&mut out, repo);
    Some(out)
}

/// `owner/repo` from a GitHub URL (https, `git+https`, the bash array
/// `name::url` form, `.git` suffixes and `/archive/...` paths); `None` when
/// the string names no GitHub repository.
pub fn github_repo_from_url(url: &str) -> (r: Option<String>)
    ensures
        match r {
            Some(x) => github_repo_of(url@) == Some(x@),
            None => github_repo_of(url@) is None,
        },
{
    let v = chars_of(url);
    match github_repo_chars(v.as_slice()) {
        Some(x) => Some(string_of(x.as_slice())),
        None => None,
    }
}

// ---------------------------------------------------------------------------
// Bash arrays
// ---------------------------------------------------------------------------

fn bash_array_body_chars(pkgbuild: &[char], name: &[char]) -> (r: Option<Vec<char>>)
    ensures
        match r {
            Some(x) => bash_array_body_of(pkgbuild@, name@) == Some(x@),
            None => bash_array_body_of(pkgbuild@, name@) is None,
        },
{
    let mut prefix = slice_to_vec(name);
    let tail = chars_of("=(");
    append_chars(&mut prefix, tail.as_slice());
    let ls = lines_exec(pkgbuild);
    let ghost d = ls.deep_view();
    let mut start: usize = 0;
    loop
        invariant
            start <= ls.len(),
            d == ls.deep_view(),
            forall|j: int| 0 <= j < start ==> !starts_with(trim(#[trigger] d[j]), prefix@),
        ensures
            start <= ls.len(),
            forall|j: int| 0 <= j < start ==> !starts_with(trim(#[trigger] d[j]), prefix@),
            start == ls.len() || starts_with(trim(d[start as int]), prefix@),
        decreases ls.len() - start,
    {
        if start == ls.len() {
            break;
        }
        assert(d[start as int] =~= ls@[start as int]@);
        if starts_with_exec(trim_slice(ls[start].as_slice()), prefix.as_slice()) {
            break;
        }
        start = start + 1;
    }
    proof {
        lemma_first_with_prefix(d, prefix@, start as int);
    }
    if start == ls.len() {
        return None;
    }
    assert(d[start as int] =~= ls@[start as int]@);
    let t = trim_slice(ls[start].as_slice());
    let first = vstd::slice::slice_subrange(t, prefix.len(), t.len());
    let ghost texts = seq![first@] + d.skip(start + 1);
    assert(prefix@ =~= name@ + "=("@);
    assert(first@ =~= trim(d[start as int]).skip(prefix@.len() as int));
    let close = vec![')'];
    assert(close@ =~= seq![')']);
    let mut body: Vec<char> = Vec::new();
    let mut k: usize = start;
    assert(texts.skip(0) =~= texts);
    assert(body@ + body_lines(texts) =~= body_lines(texts));
    while k < ls.len()
        invariant
            start <= k <= ls.len(),
            start < ls.len(),
            d == ls.deep_view(),
            texts == seq![first@] + d.skip(start + 1),
            close@ == seq![')'],
            d == lines(pkgbuild@),
            first_with_prefix(d, prefix@) == start,
            prefix@ == name@ + "=("@,
            first@ == trim(d[start as int]).skip(prefix@.len() as int),
            body_lines(texts) == body@ + body_lines(texts.skip(k - start)),
        decreases ls.len() - k,
    {
        let text: &[char] = if k == start {
            first
        } else {
            ls[k].as_slice()
        };
        assert(text@ == texts[k - start]) by {
            if k != start {
                assert(d[k as int] =~= ls@[k as int]@);
            }
        }
        let ghost rest = texts.skip(k - start);
        assert(rest[0] == texts[k - start]);
        assert(rest.drop_first() =~= texts.skip(k - start + 1));
        let e = find_class_from(text, 0, false, close.as_slice());
        assert(text@.skip(0) =~= text@);
        assert(rest.len() > 0);
        if e < text.len() {
            assert(body_lines(rest) == text@.take(e as int));
            append_chars(&mut body, vstd::slice::slice_subrange(text, 0, e));
            assert(text@.subrange(0, e as int) =~= text@.take(e as int));
            assert(body@ == body_lines(texts));
            assert(first_with_prefix(d, prefix@) == start);
            assert(lines(pkgbuild@) == d);
            assert(bash_array_body_of(pkgbuild@, name@) == Some(body_lines(texts)));
            return Some(body);
        }
        assert(body_lines(rest) == text@ + seq!['\n'] + body_lines(rest.drop_first()));
        let ghost before = body@;
        append_chars(&mut body, text);
        body.push('\n');
        assert(body@ =~= before + text@ + seq!['\n']);
        k = k + 1;
    }
    assert(texts.skip(k - start) =~= Seq::<Seq<char>>::empty());
    Some(body)
}

/// The raw body of a bash array assignment `name=( ... )`, spanning multiple
/// lines: the text between `(` and the first closing `)`.
pub fn bash_array_body(pkgbuild: &str, name: &str) -> (r: Option<String>)
    ensures
        match r {
            Some(x) => bash_array_body_of(pkgbuild@, name@) == Some(x@),
            None => bash_array_body_of(pkgbuild@, name@) is None,
        },
{
    let v = chars_of(pkgbuild);
    let n = chars_of(name);
    match bash_array_body_chars(v.as_slice(), n.as_slice()) {
        Some(b) => Some(string_of(b.as_slice())),
        None => None,
    }
}

fn dep_name_exec(v: &[char]) -> (r: Vec<char>)
    ensures
        r@ == dep_name(v@),
{
    let ops = vec!['>', '=', '<'];
    assert(ops@ =~= seq!['>', '=', '<']);
    let t = trim_slice(v);
    slice_to_vec(trim_slice(before_class_exec(t, ops.as_slice())))
}

fn bash_array_chars(pkgbuild: &[char], name: &[char]) -> (r: Vec<Vec<char>>)
    ensures
        r.deep_view() == bash_array_of(pkgbuild@, name@),
{
    let body = match bash_array_body_chars(pkgbuild, name) {
        Some(b) => b,
        None => {
            return Vec::new();
        },
    };
    let quotes = vec!['\'', '"'];
    assert(quotes@ =~= seq!['\'', '"']);
    let pieces = split_class_exec(body.as_slice(), false, quotes.as_slice());
    let ghost pd = pieces.deep_view();
    let ghost mapped = pd.map_values(|p: Seq<char>| dep_name(p));
    let mut out: Vec<Vec<char>> = Vec::new();
    let mut i: usize = 0;
    assert(mapped.take(0) =~= Seq::<Seq<char>>::empty());
    assert(out.deep_view() =~= Seq::<Seq<char>>::empty());
    while i < pieces.len()
        invariant
            i <= pieces.len(),
            pd == pieces.deep_view(),
            mapped == pd.map_values(|p: Seq<char>| dep_name(p)),
            out.deep_view() == non_empty(mapped.take(i as int)),
        decreases pieces.len() - i,
    {
        assert(pd[i as int] =~= pieces@[i as int]@);
        let n = dep_name_exec(pieces[i].as_slice());
        assert(mapped.take(i + 1).drop_last() =~= mapped.take(i as int));
        assert(mapped.take(i + 1).last() == n@);
        if n.len() > 0 {
            let ghost before = out.deep_view();
            assert(n.deep_view() =~= n@);
            out.push(n);
            assert(out.deep_view() =~= before.push(mapped[i as int]));
        }
        i = i + 1;
    }
    assert(mapped.take(pieces.len() as int) =~= mapped);
    out
}

/// A bash array assignment (`name=(...)`) as a list, with quotes and any
/// version constraint stripped. Handles multi-line arrays.
pub fn bash_array(pkgbuild: &str, name: &str) -> (r: Vec<String>)
    ensures
        r.deep_view() == bash_array_of(pkgbuild@, name@),
{
    let v = chars_of(pkgbuild);
    let n = chars_of(name);
    let a = bash_array_chars(v.as_slice(), n.as_slice());
    strings_of(&a)
}

// ---------------------------------------------------------------------------
// Upstream repository and package.yaml
// ---------------------------------------------------------------------------

fn upstream_repo_chars(pkgbuild: &[char]) -> (r: Option<Vec<char>>)
    ensures
        match r {
            Some(x) => upstream_repo_of(pkgbuild@) == Some(x@),
            None => upstream_repo_of(pkgbuild@) is None,
        },
{
    let source = chars_of("source");
    if let Some(body) = bash_array_body_chars(pkgbuild, source.as_slice()) {
        let tokens = split_ws_exec(body.as_slice());
        let ghost td = tokens.deep_view();
        let mut i: usize = 0;
        assert(td.skip(0) =~= td);
        while i < tokens.len()
            invariant
                i <= tokens.len(),
                td == tokens.deep_view(),
                first_repo(td) == first_repo(td.skip(i as int)),
                td == split_ws(body@),
                bash_array_body_of(pkgbuild@, "source"@) == Some(body@),
            decreases tokens.len() - i,
        {
            assert(td[i as int] =~= tokens@[i as int]@);
            assert(td.skip(i as int)[0] == td[i as int]);
            assert(td.skip(i as int).drop_first() =~= td.skip(i + 1));
            if let Some(repo) = github_repo_chars(tokens[i].as_slice()) {
                assert(first_repo(td.skip(i as int)) == Some(repo@));
                assert(first_repo(td) == Some(repo@));
                return Some(repo);
            }
            i = i + 1;
        }
        assert(td.skip(i as int) =~= Seq::<Seq<char>>::empty());
    }
    let url = pkgbuild_field_chars(pkgbuild, "url=");
    github_repo_chars(url.as_slice())
}

/// The upstream GitHub repository (`owner/repo`) a PKGBUILD builds from: the
/// first GitHub URL in `source=()`, else a GitHub `url=`.
pub fn upstream_github_repo(pkgbuild: &str) -> (r: Option<String>)
    ensures
        match r {
            Some(x) => upstream_repo_of(pkgbuild@) == Some(x@),
            None => upstream_repo_of(pkgbuild@) is None,
        },
{
    let v = chars_of(pkgbuild);
    match upstream_repo_chars(v.as_slice()) {
        Some(x) => Some(string_of(x.as_slice())),
        None => None,
    }
}

fn yaml_opt_exec(a: &str, v: &[char], b: &str) -> (r: String)
    ensures
        r@ == yaml_opt(a@, v@, b@),
{
    let mut out = String::new();
    if v.len() > 0 {
        out.append(a);
        push_chars(&mut out, v);
        out.append(b);
    }
    out
}

fn yaml_list_exec(a: &str, xs: &Vec<Vec<char>>, b: &str) -> (r: String)
    ensures
        r@ == yaml_list(a@, xs.deep_view(), b@),
{
    let mut out = String::new();
    if xs.len() > 0 {
        let comma = chars_of(", ");
        out.append(a);
        push_chars(&mut out, join_exec(xs, comma.as_slice()).as_slice());
        out.append(b);
    }
    out
}

fn yaml_repo_exec(package: &str, url: &[char], repo: Option<Vec<char>>) -> (r: String)
    ensures
        r@ == yaml_repo(
            package@,
            url@,
            match repo {
                Some(x) => Some(x@),
                None => None,
            },
        ),
{
    let mut out = String::new();
    match repo {
        Some(r) => {
            out.append("github_repo: ");
            push_chars(&mut out, r.as_slice());
            out.append("\n");
        },
        None => {
            out.append(
                "# Could not determine an upstream GitHub repository from the PKGBUILD.\n# Upstream url: ",
            );
            push_chars(&mut out, url);
            out.append("\n# Scaffold a reviewed config with `lx init --from-aur ");
            out.append(package);
            out.append("`.\n");
        },
    }
    out
}

/// Best-effort conversion of a PKGBUILD into a starter `package.yaml`. Arch
/// dependency names are kept verbatim with a warning.
pub fn pkgbuild_to_yaml(package: &str, pkgbuild: &str) -> (r: String)
    ensures
        r@ == yaml_of(package@, pkgbuild@),
{
    let v = chars_of(pkgbuild);
    let pkgver = pkgbuild_field_chars(v.as_slice(), "pkgver=");
    let url = pkgbuild_field_chars(v.as_slice(), "url=");
    let license = pkgbuild_field_chars(v.as_slice(), "license=");
    let depends = bash_array_chars(v.as_slice(), chars_of("depends").as_slice());
    let makedepends = bash_array_chars(v.as_slice(), chars_of("makedepends").as_slice());
    let repo = upstream_repo_chars(v.as_slice());
    let ghost repo_v = upstream_repo_of(pkgbuild@);
    let mut out = String::new();
    out.append("# Converted from AUR PKGBUILD for '");
    out.append(package);
    out.append("' \u{2014} REVIEW ME.\n");
    out.append("package_name: ");
    out.append(package);
    out.append("\n");
    assert(out@ =~= yaml_head(package@));
    let part = yaml_repo_exec(package, url.as_slice(), repo);
    assert(part@ == yaml_repo(package@, url@, repo_v));
    out.append(part.as_str());
    let part = yaml_opt_exec("version: \"", pkgver.as_slice(), "\"\n");
    out.append(part.as_str());
    let part = yaml_opt_exec(
        "license_spdx: ",
        license.as_slice(),
        "   # AUR license field, verify SPDX\n",
    );
    out.append(part.as_str());
    let mut part = String::new();
    part.append("binary_rename: ");
    part.append(package);
    part.append("   # install the single binary as the command name\n");
    out.append(part.as_str());
    let part = yaml_list_exec(
        "# WARNING: Arch dependency names kept verbatim \u{2014} map to host names:\ndepends: \"",
        &depends,
        "\"\n",
    );
    out.append(part.as_str());
    let part = yaml_list_exec(
        "# WARNING: Arch makedepends kept verbatim \u{2014} map to host-distro names:\nbuild_depends: [",
        &makedepends,
        "]\n",
    );
    out.append(part.as_str());
    out.append(
        "# This PKGBUILD compiles from source. Consider:\n#   build_mode: source\n#   build_system: cmake   # or: custom + build_commands/install_commands\n#   build_suites: [trixie, forky, sid]\n#   architectures: [<this-host-arch>]\n",
    );
    out
}

// ---------------------------------------------------------------------------
// Search
// ---------------------------------------------------------------------------

/// One result of an AUR RPC search.
#[derive(Debug, Clone)]
pub struct AurResult {
    pub name: String,
    pub description: String,
    pub votes: u64,
    pub maintainer: String,
}

/// How a search hit describes an AUR package: its description, its votes
/// and its maintainer (`none` when orphaned).
pub open spec fn aur_description(r: AurResult) -> Seq<char> {
    r.description@ + " ("@ + crate::text::decimal(r.votes as nat) + " votes, maintainer: "@ + (if r.maintainer@.len() == 0 {
        "none"@
    } else {
        r.maintainer@
    }) + ")"@
}

/// The results that name a package, in order.
pub open spec fn named_results(rs: Seq<AurResult>) -> Seq<AurResult>
    decreases rs.len(),
{
    if rs.len() == 0 {
        Seq::empty()
    } else if rs.last().name@.len() == 0 {
        named_results(rs.drop_last())
    } else {
        named_results(rs.drop_last()).push(rs.last())
    }
}

/// `hit` shows AUR result `r` for source `source`.
pub open spec fn aur_hit_of(hit: crate::plugins::package_index::IndexHit, r: AurResult, source: Seq<char>, installed: Seq<Seq<char>>) -> bool {
    &&& hit.name@ == r.name@
    &&& hit.description@ == aur_description(r)
    &&& hit.source@ == source
    &&& hit.installed == installed.contains(r.name@)
    &&& hit.available.deep_view() == seq!["build-from-pkgbuild"@]
    &&& hit.newest is None
    &&& hit.repos == 0 && hit.outdated == 0 && hit.vulnerable == 0
    &&& hit.host_version is None
    &&& hit.host_status is None
}

impl AurSource {
    /// The RPC query of a search: by keyword, or (without one) an info
    /// query that matches nothing.
    pub fn search_query(pattern: Option<&str>) -> (r: String)
        ensures
            match pattern {
                Some(p) => r@ == "type=search&arg="@ + p@,
                None => r@ == "type=info&arg[]=__none__"@,
            },
    {
        match pattern {
            Some(p) => {
                let mut q = String::from_str("type=search&arg=");
                q.append(p);
                q
            },
            None => String::from_str("type=info&arg[]=__none__"),
        }
    }

    /// The hits of an RPC search's results: one per result that names a
    /// package; `installed` lists the host's installed package names.
    pub fn search_hits(&self, results: &Vec<AurResult>, installed: &Vec<String>) -> (r: Vec<crate::plugins::package_index::IndexHit>)
        ensures
            r@.len() == named_results(results@).len(),
            forall|i: int| 0 <= i < r@.len() ==> aur_hit_of(#[trigger] r@[i], named_results(results@)[i], self.name@, installed.deep_view()),
    {
        let mut hits: Vec<crate::plugins::package_index::IndexHit> = Vec::new();
        let mut i: usize = 0;
        while i < results.len()
            invariant
                i <= results@.len(),
                hits@.len() == named_results(results@.take(i as int)).len(),
                forall|j: int| 0 <= j < hits@.len() ==> aur_hit_of(#[trigger] hits@[j], named_results(results@.take(i as int))[j], self.name@, installed.deep_view()),
            decreases results@.len() - i,
        {
            assert(results@.take(i + 1).drop_last() =~= results@.take(i as int));
            assert(results@.take(i + 1).last() == results@[i as int]);
            let r = &results[i];
            if !r.name.as_str().is_empty() {
                let mut d = r.description.clone();
                d.append(" (");
                d.append(string_of(crate::text::decimal_exec(r.votes).as_slice()).as_str());
                d.append(" votes, maintainer: ");
                if r.maintainer.as_str().is_empty() {
                    d.append("none");
                } else {
                    d.append(r.maintainer.as_str());
                }
                d.append(")");
                let mut available: Vec<String> = Vec::new();
                available.push(String::from_str("build-from-pkgbuild"));
                assert(available.deep_view() =~= seq!["build-from-pkgbuild"@]);
                let hit = crate::plugins::package_index::IndexHit {
                    name: r.name.clone(),
                    description: d,
                    source: self.name.clone(),
                    installed: crate::sorted::holds(installed, chars_of(r.name.as_str()).as_slice()),
                    available,
                    newest: None,
                    repos: 0,
                    outdated: 0,
                    vulnerable: 0,
                    host_version: None,
                    host_status: None,
                };
                let ghost before = hits@;
                hits.push(hit);
                proof {
                    let now = named_results(results@.take(i + 1));
                    assert(now == named_results(results@.take(i as int)).push(results@[i as int]));
                    assert forall|j: int| 0 <= j < hits@.len() implies aur_hit_of(#[trigger] hits@[j], now[j], self.name@, installed.deep_view()) by {
                        if j < before.len() {
                            assert(hits@[j] == before[j]);
                        }
                    }
                }
            }
            i = i + 1;
        }
        assert(results@.take(results@.len() as int) =~= results@);
        hits
    }
}

} // verus!
