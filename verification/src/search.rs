//! `lx search`: how the hits are listed (exact-name matches first, then by
//! name; names padded to one column; the install state and candidate
//! version as tags), and what the index entries say. Fetching the index,
//! matching patterns and asking dpkg stay outside.
use vstd::prelude::*;

use crate::pattern::{regex_compiles, regex_compiles_of, regex_is_match, regex_is_match_of};
use crate::plugins::package_index::repology::search_pattern;
use crate::sorted::{lemma_seq_lt_total, lemma_seq_lt_transitive, seq_lt, sorts_before};
use crate::text::{
    chars_of,
    join,
    join_exec,
    lines,
    lines_exec,
    lower_vec,
    seq_eq,
    starts_with,
    starts_with_exec,
    string_of,
    strip,
    strip_slice,
    to_lower,
    trim,
    trim_slice,
};

verus! {

/// One search hit: display name, blurb, install state and versions.
#[derive(Debug, Clone)]
pub struct Hit {
    pub name: String,
    pub desc: String,
    pub installed: bool,
    pub installed_version: Option<String>,
    pub candidate: Option<String>,
}

// ---------------------------------------------------------------------------
// Order
// ---------------------------------------------------------------------------

/// The name equals the pattern, ASCII case aside.
pub open spec fn exact_match(name: Seq<char>, pattern: Option<Seq<char>>) -> bool {
    match pattern {
        Some(p) => to_lower(name) == to_lower(p),
        None => false,
    }
}

/// What the order looks at: whether each hit's name is the pattern, and
/// the name.
pub open spec fn hit_keys(hits: Seq<Hit>, pattern: Option<Seq<char>>) -> Seq<(bool, Seq<char>)> {
    hits.map_values(|h: Hit| (exact_match(h.name@, pattern), h.name@))
}

/// Hit `a` is listed before hit `b`: an exact-name match first, then the
/// smaller name, and between equal names the earlier hit.
pub open spec fn listed_before(k: Seq<(bool, Seq<char>)>, a: int, b: int) -> bool {
    (k[a].0 && !k[b].0) || (k[a].0 == k[b].0 && (seq_lt(k[a].1, k[b].1) || (k[a].1 == k[b].1
        && a < b)))
}

/// `order` lists every hit once, in listing order.
pub open spec fn listing_order(k: Seq<(bool, Seq<char>)>, order: Seq<usize>) -> bool {
    &&& order.len() == k.len()
    &&& order.no_duplicates()
    &&& forall|i: int| 0 <= i < order.len() ==> (#[trigger] order[i] as int) < k.len()
    &&& forall|i: int, j: int|
        0 <= i < j < order.len() ==> listed_before(k, #[trigger] order[i] as int, #[trigger] order[j] as int)
}

proof fn lemma_listed_before_transitive(k: Seq<(bool, Seq<char>)>, a: int, b: int, c: int)
    requires
        listed_before(k, a, b),
        listed_before(k, b, c),
    ensures
        listed_before(k, a, c),
{
    if k[a].0 == k[b].0 && k[b].0 == k[c].0 {
        if seq_lt(k[a].1, k[b].1) && seq_lt(k[b].1, k[c].1) {
            lemma_seq_lt_transitive(k[a].1, k[b].1, k[c].1);
        }
    }
}

proof fn lemma_listed_before_total(k: Seq<(bool, Seq<char>)>, a: int, b: int)
    requires
        a != b,
    ensures
        listed_before(k, a, b) || listed_before(k, b, a),
{
    lemma_seq_lt_total(k[a].1, k[b].1);
}

/// The keys of the hits given as their exact-match flags and names.
pub open spec fn keys_of(exact: Seq<bool>, names: Seq<Seq<char>>) -> Seq<(bool, Seq<char>)> {
    Seq::new(exact.len(), |i: int| (exact[i], names[i]))
}

/// The listing order of items given by their exact-match flags and names:
/// the flagged ones first, then by name, ties in the given order.
pub fn key_order(exact: &Vec<bool>, names: &Vec<Vec<char>>) -> (r: Vec<usize>)
    requires
        exact@.len() == names@.len(),
    ensures
        listing_order(keys_of(exact@, names.deep_view()), r@),
{
    let ghost k = keys_of(exact@, names.deep_view());
    proof {
        assert forall|j: int| 0 <= j < exact@.len() implies #[trigger] exact@[j] == k[j].0 && names@[j]@ == k[j].1 by {
            assert(names.deep_view()[j] == names@[j]@);
        }
    }
    let mut out: Vec<usize> = Vec::new();
    let mut x: usize = 0;
    while x < exact.len()
        invariant
            x <= exact@.len(),
            k.len() == exact@.len(),
            k == keys_of(exact@, names.deep_view()),
            exact@.len() == exact@.len(),
            names@.len() == exact@.len(),
            forall|j: int| 0 <= j < exact@.len() ==> #[trigger] exact@[j] == k[j].0,
            forall|j: int| 0 <= j < exact@.len() ==> #[trigger] names@[j]@ == k[j].1,
            out@.len() == x,
            out@.no_duplicates(),
            forall|j: int| 0 <= j < out@.len() ==> (#[trigger] out@[j] as int) < x,
            forall|a: int, b: int|
                0 <= a < b < out@.len() ==> listed_before(k, #[trigger] out@[a] as int, #[trigger] out@[b] as int),
        decreases exact@.len() - x,
    {
        let ghost o = out@;
        let mut p: usize = 0;
        while p < out.len() && !((exact[x] && !exact[out[p]]) || (exact[x] == exact[out[p]]
            && sorts_before(names[x].as_slice(), names[out[p]].as_slice())))
            invariant
                p <= out@.len(),
                o == out@,
                x < exact@.len(),
            k == keys_of(exact@, names.deep_view()),
                k.len() == exact@.len(),
            k == keys_of(exact@, names.deep_view()),
                exact@.len() == exact@.len(),
                names@.len() == exact@.len(),
                forall|j: int| 0 <= j < exact@.len() ==> #[trigger] exact@[j] == k[j].0,
            forall|j: int| 0 <= j < exact@.len() ==> #[trigger] names@[j]@ == k[j].1,
                forall|j: int| 0 <= j < out@.len() ==> (#[trigger] out@[j] as int) < x,
                forall|j: int| 0 <= j < p ==> !listed_before(k, x as int, #[trigger] o[j] as int),
            decreases out@.len() - p,
        {
            p = p + 1;
        }
        proof {
            if p < out@.len() {
                assert(listed_before(k, x as int, o[p as int] as int));
            }
            assert forall|j: int| 0 <= j < p implies listed_before(k, #[trigger] o[j] as int, x as int) by {
                lemma_listed_before_total(k, x as int, o[j] as int);
            }
        }
        out.insert(p, x);
        let ghost n = out@;
        assert(n =~= o.insert(p as int, x));
        proof {
            assert forall|a: int, b: int| 0 <= a < b < n.len() implies listed_before(k, #[trigger] n[a] as int, #[trigger] n[b] as int) by {
                if a < p && b < p {
                    assert(n[a] == o[a] && n[b] == o[b]);
                } else if a < p && b == p {
                    assert(n[a] == o[a]);
                } else if a < p {
                    assert(n[a] == o[a] && n[b] == o[b - 1]);
                } else if a == p {
                    assert(n[b] == o[b - 1]);
                    if b - 1 > p {
                        lemma_listed_before_transitive(k, x as int, o[p as int] as int, o[b - 1] as int);
                    }
                } else {
                    assert(n[a] == o[a - 1] && n[b] == o[b - 1]);
                }
            }
            assert forall|a: int, b: int| 0 <= a < n.len() && 0 <= b < n.len() && a != b implies n[a] != n[b] by {
                if a != p && b != p {
                    let a1 = if a < p { a } else { a - 1 };
                    let b1 = if b < p { b } else { b - 1 };
                    assert(n[a] == o[a1] && n[b] == o[b1]);
                } else if a == p {
                    let b1 = if b < p { b } else { b - 1 };
                    assert(n[b] == o[b1]);
                } else {
                    let a1 = if a < p { a } else { a - 1 };
                    assert(n[a] == o[a1]);
                }
            }
            assert forall|j: int| 0 <= j < n.len() implies (#[trigger] n[j] as int) < x + 1 by {
                if j < p {
                    assert(n[j] == o[j]);
                } else if j > p {
                    assert(n[j] == o[j - 1]);
                }
            }
        }
        x = x + 1;
    }
    out
}

/// The order in which the hits are listed.
pub fn hit_order(hits: &Vec<Hit>, pattern: Option<&str>) -> (r: Vec<usize>)
    ensures
        listing_order(hit_keys(hits@, crate::text::opt_str_view(pattern)), r@),
{
    let ghost k = hit_keys(hits@, crate::text::opt_str_view(pattern));
    let lowered: Option<Vec<char>> = match pattern {
        Some(p) => Some(lower_vec(chars_of(p).as_slice())),
        None => None,
    };
    let mut exact: Vec<bool> = Vec::new();
    let mut names: Vec<Vec<char>> = Vec::new();
    let mut i: usize = 0;
    while i < hits.len()
        invariant
            i <= hits@.len(),
            k == hit_keys(hits@, crate::text::opt_str_view(pattern)),
            match pattern {
                Some(p) => lowered matches Some(l) && l@ == to_lower(p@),
                None => lowered is None,
            },
            exact@.len() == i,
            names@.len() == i,
            forall|j: int| 0 <= j < i ==> #[trigger] exact@[j] == k[j].0,
            forall|j: int| 0 <= j < i ==> #[trigger] names@[j]@ == k[j].1,
        decreases hits@.len() - i,
    {
        let n = chars_of(hits[i].name.as_str());
        let e = match &lowered {
            Some(l) => seq_eq(lower_vec(n.as_slice()).as_slice(), l.as_slice()),
            None => false,
        };
        exact.push(e);
        names.push(n);
        i = i + 1;
    }
    proof {
        assert(keys_of(exact@, names.deep_view()) =~= k) by {
            assert forall|j: int| 0 <= j < k.len() implies #[trigger] keys_of(exact@, names.deep_view())[j] == k[j] by {
                assert(names.deep_view()[j] == names@[j]@);
            }
        }
    }
    key_order(&exact, &names)
}

// ---------------------------------------------------------------------------
// Lines
// ---------------------------------------------------------------------------

/// The first line of a text, as `str::lines` splits it, or nothing.
pub open spec fn first_line(s: Seq<char>) -> Seq<char> {
    if lines(s).len() > 0 {
        lines(s)[0]
    } else {
        Seq::empty()
    }
}

/// `s` padded with spaces to `width` characters (`{:<width$}`).
pub open spec fn pad_right(s: Seq<char>, width: int) -> Seq<char> {
    if s.len() < width {
        s + Seq::new((width - s.len()) as nat, |i: int| ' ')
    } else {
        s
    }
}

/// The tags of a hit: its installed version (or just `installed`), and the
/// candidate version when it differs from the installed one.
pub open spec fn hit_tags(h: Hit) -> Seq<Seq<char>> {
    let a = match h.installed_version {
        Some(v) => seq!["installed "@ + v@],
        None => if h.installed {
            seq!["installed"@]
        } else {
            Seq::empty()
        },
    };
    let b = match h.candidate {
        Some(c) => if crate::text::opt_view(h.installed_version) != Some(c@) {
            seq!["candidate "@ + c@]
        } else {
            Seq::empty()
        },
        None => Seq::empty(),
    };
    a + b
}

/// The tags as shown after the blurb: ` [ a, b ]`, or nothing.
pub open spec fn tag_text(tags: Seq<Seq<char>>) -> Seq<char> {
    if tags.len() == 0 {
        Seq::empty()
    } else {
        " [ "@ + join(tags, ", "@) + " ]"@
    }
}

/// The listing line of a hit, its name padded to `width`: the first line
/// of its description when there is one, then the tags.
pub open spec fn hit_line(h: Hit, width: int) -> Seq<char> {
    let blurb = first_line(h.desc@);
    if blurb.len() == 0 {
        pad_right(h.name@, width) + tag_text(hit_tags(h))
    } else {
        pad_right(h.name@, width) + "  "@ + blurb + tag_text(hit_tags(h))
    }
}

/// The length in bytes of a name (`str::len`).
pub open spec fn byte_len(s: Seq<char>) -> int {
    (vstd::utf8::encode_utf8(s).len() as usize) as int
}

/// The widest name, in bytes.
pub open spec fn name_width(hits: Seq<Hit>) -> int
    decreases hits.len(),
{
    if hits.len() == 0 {
        0
    } else {
        let w = name_width(hits.drop_last());
        let b = byte_len(hits.last().name@);
        if b > w {
            b
        } else {
            w
        }
    }
}

/// What `lx search` prints for the hits taken in `order`: the message when
/// there are none, the bare names with `raw`, else one line per hit.
pub open spec fn listing_of(hits: Seq<Hit>, raw: bool, empty_msg: Seq<char>, order: Seq<usize>) -> Seq<Seq<char>> {
    if hits.len() == 0 {
        seq![empty_msg]
    } else if raw {
        order.map_values(|i: usize| hits[i as int].name@)
    } else {
        order.map_values(|i: usize| hit_line(hits[i as int], name_width(hits)))
    }
}

/// The first line of a text.
fn first_line_exec(s: &str) -> (r: Vec<char>)
    ensures
        r@ == first_line(s@),
{
    let ls = lines_exec(chars_of(s).as_slice());
    if ls.len() > 0 {
        assert(ls.deep_view()[0] == ls@[0]@);
        ls[0].clone()
    } else {
        Vec::new()
    }
}

/// The tags of a hit.
fn hit_tags_exec(h: &Hit) -> (r: Vec<Vec<char>>)
    ensures
        r.deep_view() == hit_tags(*h),
{
    let mut tags: Vec<Vec<char>> = Vec::new();
    match &h.installed_version {
        Some(v) => {
            let mut t = chars_of("installed ");
            crate::text::append_chars(&mut t, chars_of(v.as_str()).as_slice());
            let ghost tv = t@;
            assert(t.deep_view() =~= tv);
            tags.push(t);
            assert(tags.deep_view() =~= seq![tv]);
        },
        None => {
            if h.installed {
                let t = chars_of("installed");
                let ghost tv = t@;
                assert(t.deep_view() =~= tv);
                tags.push(t);
                assert(tags.deep_view() =~= seq![tv]);
            } else {
                assert(tags.deep_view() =~= Seq::<Seq<char>>::empty());
            }
        },
    }
    let ghost a = tags.deep_view();
    match &h.candidate {
        Some(c) => {
            let same = match &h.installed_version {
                Some(v) => seq_eq(chars_of(v.as_str()).as_slice(), chars_of(c.as_str()).as_slice()),
                None => false,
            };
            if !same {
                let mut t = chars_of("candidate ");
                crate::text::append_chars(&mut t, chars_of(c.as_str()).as_slice());
                let ghost tv = t@;
                assert(tv == "candidate "@ + c@);
                assert(t.deep_view() =~= tv);
                tags.push(t);
                assert(tags.deep_view() =~= a.push(tv));
                assert(tags.deep_view() =~= a + seq!["candidate "@ + c@]);
            } else {
                assert(tags.deep_view() =~= a + Seq::<Seq<char>>::empty());
            }
        },
        None => {
            assert(tags.deep_view() =~= a + Seq::<Seq<char>>::empty());
        },
    }
    assert(tags.deep_view() =~= hit_tags(*h));
    tags
}

/// Renders the listing line of a hit, its name padded to `width`.
pub fn render_hit_line(h: &Hit, width: usize) -> (r: String)
    ensures
        r@ == hit_line(*h, width as int),
{
    let mut line = chars_of(h.name.as_str());
    let ghost name = line@;
    while line.len() < width
        invariant
            name.len() <= line@.len(),
            line@.len() <= width || line@ == name,
            line@ == name + Seq::new((line@.len() - name.len()) as nat, |i: int| ' '),
        decreases width - line@.len(),
    {
        let ghost before = line@;
        line.push(' ');
        assert(line@ =~= name + Seq::new((line@.len() - name.len()) as nat, |i: int| ' '));
    }
    proof {
        if name.len() < width {
            assert(line@.len() == width);
        } else {
            assert(line@ =~= name);
        }
        assert(line@ =~= pad_right(name, width as int));
    }
    let blurb = first_line_exec(h.desc.as_str());
    if blurb.len() > 0 {
        crate::text::append_chars(&mut line, chars_of("  ").as_slice());
        crate::text::append_chars(&mut line, blurb.as_slice());
    }
    let tags = hit_tags_exec(h);
    if tags.len() > 0 {
        crate::text::append_chars(&mut line, chars_of(" [ ").as_slice());
        crate::text::append_chars(&mut line, join_exec(&tags, chars_of(", ").as_slice()).as_slice());
        crate::text::append_chars(&mut line, chars_of(" ]").as_slice());
    }
    string_of(line.as_slice())
}

/// What `lx search` prints, one entry per line: `empty_msg` when nothing
/// matched, else the hits in listing order ([`hit_order`]), as bare names
/// with `raw` or as padded lines with blurb and tags.
pub fn listing(hits: &Vec<Hit>, raw: bool, empty_msg: &str, pattern: Option<&str>) -> (r: Vec<String>)
    ensures
        exists|order: Seq<usize>| #[trigger] listing_order(hit_keys(hits@, crate::text::opt_str_view(pattern)), order)
            && r.deep_view() == listing_of(hits@, raw, empty_msg@, order),
{
    let ghost k = hit_keys(hits@, crate::text::opt_str_view(pattern));
    if hits.len() == 0 {
        let r = vec![empty_msg.to_string()];
        let ghost e = Seq::<usize>::empty();
        assert(listing_order(k, e));
        assert(r.deep_view() =~= listing_of(hits@, raw, empty_msg@, e));
        return r;
    }
    let order = hit_order(hits, pattern);
    let mut width: usize = 0;
    let mut i: usize = 0;
    while i < hits.len()
        invariant
            i <= hits@.len(),
            width == name_width(hits@.take(i as int)),
        decreases hits@.len() - i,
    {
        let b = hits[i].name.as_str().len();
        assert(hits@.take(i + 1).drop_last() =~= hits@.take(i as int));
        if b > width {
            width = b;
        }
        i = i + 1;
    }
    assert(hits@.take(hits@.len() as int) =~= hits@);
    let mut out: Vec<String> = Vec::new();
    let mut j: usize = 0;
    while j < order.len()
        invariant
            j <= order@.len(),
            listing_order(k, order@),
            k.len() == hits@.len(),
            width == name_width(hits@),
            out.deep_view() == (if raw {
                order@.take(j as int).map_values(|i: usize| hits@[i as int].name@)
            } else {
                order@.take(j as int).map_values(|i: usize| hit_line(hits@[i as int], name_width(hits@)))
            }),
        decreases order@.len() - j,
    {
        let ix = order[j];
        assert((ix as int) < k.len());
        let ghost before = out.deep_view();
        let item = if raw {
            hits[ix].name.clone()
        } else {
            render_hit_line(&hits[ix], width)
        };
        let ghost iv = item@;
        assert(iv == (if raw { hits@[ix as int].name@ } else { hit_line(hits@[ix as int], name_width(hits@)) }));
        out.push(item);
        assert(out.deep_view() =~= before.push(iv));
        assert(order@.take(j + 1) =~= order@.take(j as int).push(ix));
        assert(out.deep_view() =~= (if raw {
            order@.take(j + 1).map_values(|i: usize| hits@[i as int].name@)
        } else {
            order@.take(j + 1).map_values(|i: usize| hit_line(hits@[i as int], name_width(hits@)))
        }));
        j = j + 1;
    }
    assert(order@.take(order@.len() as int) =~= order@);
    assert(out.deep_view() == listing_of(hits@, raw, empty_msg@, order@));
    out
}

// ---------------------------------------------------------------------------
// Index entries
// ---------------------------------------------------------------------------

/// What one template line says of the template: the value of a
/// `description:` (else `summary:`) line, trimmed and unquoted.
pub open spec fn template_line_description(l: Seq<char>) -> Option<Seq<char>> {
    let t = trim(l);
    if starts_with(t, "description:"@) {
        Some(strip(trim(t.skip(12)), false, seq!['"']))
    } else if starts_with(t, "summary:"@) {
        Some(strip(trim(t.skip(8)), false, seq!['"']))
    } else {
        None
    }
}

/// The description of the first line among `ls` that gives one, or
/// nothing.
pub open spec fn template_description_in(ls: Seq<Seq<char>>) -> Seq<char>
    decreases ls.len(),
{
    if ls.len() == 0 {
        Seq::empty()
    } else {
        match template_line_description(ls[0]) {
            Some(v) => v,
            None => template_description_in(ls.drop_first()),
        }
    }
}

/// The description of a bundled recipe template: its first `description:`
/// or `summary:` line.
pub fn template_description(body: &str) -> (r: String)
    ensures
        r@ == template_description_in(lines(body@)),
{
    let bv = chars_of(body);
    let ls = lines_exec(bv.as_slice());
    let ghost all = ls.deep_view();
    assert(all == lines(body@));
    let desc = chars_of("description:");
    let summ = chars_of("summary:");
    let quote: Vec<char> = vec!['"'];
    assert(quote@ =~= seq!['"']);
    proof {
        reveal_strlit("description:");
        reveal_strlit("summary:");
    }
    let mut i: usize = 0;
    assert(all.skip(0) =~= all);
    while i < ls.len()
        invariant
            i <= ls@.len(),
            all == ls.deep_view(),
            all == lines(body@),
            desc@ == "description:"@,
            summ@ == "summary:"@,
            desc@.len() == 12,
            summ@.len() == 8,
            quote@ == seq!['"'],
            template_description_in(all) == template_description_in(all.skip(i as int)),
        decreases ls@.len() - i,
    {
        assert(all.skip(i as int)[0] == ls@[i as int]@);
        assert(all.skip(i as int).drop_first() =~= all.skip(i + 1));
        let t = trim_slice(ls[i].as_slice());
        if starts_with_exec(t, desc.as_slice()) {
            let v = strip_slice(trim_slice(vstd::slice::slice_subrange(t, 12, t.len())), false, quote.as_slice());
            assert(t@.subrange(12, t@.len() as int) =~= t@.skip(12));
            assert(template_line_description(all[i as int]) == Some(v@));
            assert(template_description_in(all.skip(i as int)) == v@);
            return string_of(v);
        }
        if starts_with_exec(t, summ.as_slice()) {
            let v = strip_slice(trim_slice(vstd::slice::slice_subrange(t, 8, t.len())), false, quote.as_slice());
            assert(t@.subrange(8, t@.len() as int) =~= t@.skip(8));
            assert(template_line_description(all[i as int]) == Some(v@));
            assert(template_description_in(all.skip(i as int)) == v@);
            return string_of(v);
        }
        i = i + 1;
    }
    String::new()
}

/// The package an index repository publishes: its name without the
/// `-debian` suffix (`None` for other repositories).
pub fn org_package(repo_name: &str) -> (r: Option<String>)
    ensures
        match r {
            Some(p) => crate::text::ends_with(repo_name@, "-debian"@) && p@ == repo_name@.take(repo_name@.len() - 7),
            None => !crate::text::ends_with(repo_name@, "-debian"@),
        },
{
    let v = chars_of(repo_name);
    let suffix = chars_of("-debian");
    proof {
        reveal_strlit("-debian");
    }
    if crate::text::ends_with_exec(v.as_slice(), suffix.as_slice()) {
        let n = v.len();
        let p = vstd::slice::slice_subrange(v.as_slice(), 0, n - 7);
        assert(p@ =~= repo_name@.take(repo_name@.len() - 7));
        Some(string_of(p))
    } else {
        None
    }
}

/// The short name of a template (`<lang>/<app>` gives `<app>`).
pub fn template_short_name(name: &str) -> (r: String)
    ensures
        r@ == crate::text::after_last(name@, "/"@),
{
    let v = chars_of(name);
    string_of(crate::text::after_last_exec(v.as_slice(), chars_of("/").as_slice()))
}

// ---------------------------------------------------------------------------
// Which entries are hits
// ---------------------------------------------------------------------------

/// What a hit holds, as values.
pub open spec fn hit_view(h: Hit) -> (Seq<char>, Seq<char>, bool, Option<Seq<char>>, Option<Seq<char>>) {
    (h.name@, h.desc@, h.installed, crate::text::opt_view(h.installed_version), crate::text::opt_view(h.candidate))
}

pub open spec fn hits_view(hs: Seq<Hit>) -> Seq<(Seq<char>, Seq<char>, bool, Option<Seq<char>>, Option<Seq<char>>)> {
    hs.map_values(|h: Hit| hit_view(h))
}

/// Why a search could not run.
#[derive(Debug, Clone)]
pub enum SearchError {
    /// The pattern is not a valid regular expression.
    BadPattern(String),
}

/// A text, or nothing for `None`.
pub open spec fn opt_text(o: Option<Seq<char>>) -> Seq<char> {
    match o {
        Some(s) => s,
        None => Seq::empty(),
    }
}

/// The `--installed` / `--not-installed` filters keep a package in this
/// install state.
pub open spec fn state_kept(installed: bool, installed_only: bool, not_installed_only: bool) -> bool {
    !(installed_only && !installed) && !(not_installed_only && installed)
}

/// One repository of the package index, with what the host says of its
/// package.
#[derive(Debug, Clone)]
pub struct OrgEntry {
    /// The repository name (`<package>-debian`).
    pub repo_name: String,
    /// The repository's description.
    pub description: Option<String>,
    /// The installed package's full dpkg description.
    pub full_description: Option<String>,
    /// The installed version, per dpkg.
    pub installed_version: Option<String>,
    /// Whether lx manages the package.
    pub managed: bool,
    /// The version lx recorded for it.
    pub recorded_version: Option<String>,
}

/// The package an index repository publishes.
pub open spec fn org_package_of(repo: Seq<char>) -> Option<Seq<char>> {
    if crate::text::ends_with(repo, "-debian"@) {
        Some(repo.take(repo.len() - 7))
    } else {
        None
    }
}

/// The pattern finds the package by name, by the repository's description
/// or by the installed package's full description.
pub open spec fn org_matches(pat: Option<Seq<char>>, package: Seq<char>, desc: Seq<char>, full: Option<Seq<char>>) -> bool {
    match pat {
        None => true,
        Some(p) => regex_is_match_of(p, package) || regex_is_match_of(p, desc) || (full matches Some(f)
            && regex_is_match_of(p, f)),
    }
}

/// The hit an index repository gives, if any: the repository's blurb (the
/// full description when it has none), and the recorded version as the
/// candidate when not blank.
pub open spec fn org_entry_hit(e: OrgEntry, pat: Option<Seq<char>>, io: bool, nio: bool) -> Option<
    (Seq<char>, Seq<char>, bool, Option<Seq<char>>, Option<Seq<char>>),
> {
    match org_package_of(e.repo_name@) {
        None => None,
        Some(package) => {
            let desc = opt_text(crate::text::opt_view(e.description));
            let full = crate::text::opt_view(e.full_description);
            let installed = e.installed_version is Some || e.managed;
            if !org_matches(pat, package, desc, full) || !state_kept(installed, io, nio) {
                None
            } else {
                Some(
                    (
                        package,
                        if desc.len() == 0 {
                            opt_text(full)
                        } else {
                            desc
                        },
                        installed,
                        crate::text::opt_view(e.installed_version),
                        match crate::text::opt_view(e.recorded_version) {
                            Some(v) => if v.len() > 0 {
                                Some(v)
                            } else {
                                None
                            },
                            None => None,
                        },
                    ),
                )
            }
        },
    }
}

/// The hits of the index repositories, in order.
pub open spec fn org_hits_of(es: Seq<OrgEntry>, pat: Option<Seq<char>>, io: bool, nio: bool) -> Seq<
    (Seq<char>, Seq<char>, bool, Option<Seq<char>>, Option<Seq<char>>),
>
    decreases es.len(),
{
    if es.len() == 0 {
        Seq::empty()
    } else {
        let r = org_hits_of(es.drop_last(), pat, io, nio);
        match org_entry_hit(es.last(), pat, io, nio) {
            Some(h) => r.push(h),
            None => r,
        }
    }
}

/// A bundled recipe template, with what the host says of its package.
#[derive(Debug, Clone)]
pub struct TemplateEntry {
    /// `<lang>/<app>`.
    pub name: String,
    pub body: String,
    /// The installed version of `<app>`, per dpkg.
    pub installed_version: Option<String>,
    /// Whether lx manages `<app>`.
    pub managed: bool,
}

/// The hit a template gives, if any: the pattern finds it by its name, its
/// short name, its description or its text.
pub open spec fn template_entry_hit(e: TemplateEntry, pat: Option<Seq<char>>, io: bool, nio: bool) -> Option<
    (Seq<char>, Seq<char>, bool, Option<Seq<char>>, Option<Seq<char>>),
> {
    let short = crate::text::after_last(e.name@, "/"@);
    let desc = template_description_in(lines(e.body@));
    let matched = match pat {
        None => true,
        Some(p) => regex_is_match_of(p, e.name@) || regex_is_match_of(p, short) || regex_is_match_of(p, desc)
            || regex_is_match_of(p, e.body@),
    };
    let installed = e.installed_version is Some || e.managed;
    if !matched || !state_kept(installed, io, nio) {
        None
    } else {
        Some((e.name@, desc + " (template)"@, installed, crate::text::opt_view(e.installed_version), None))
    }
}

/// The hits of the templates, in order.
pub open spec fn template_hits_of(es: Seq<TemplateEntry>, pat: Option<Seq<char>>, io: bool, nio: bool) -> Seq<
    (Seq<char>, Seq<char>, bool, Option<Seq<char>>, Option<Seq<char>>),
>
    decreases es.len(),
{
    if es.len() == 0 {
        Seq::empty()
    } else {
        let r = template_hits_of(es.drop_last(), pat, io, nio);
        match template_entry_hit(es.last(), pat, io, nio) {
            Some(h) => r.push(h),
            None => r,
        }
    }
}

/// The compiled search pattern, if the user gave one: `None` inside when
/// there is none, an error when it does not compile.
fn compile_pattern(pattern: Option<&str>) -> (r: Result<Option<String>, SearchError>)
    ensures
        match pattern {
            None => r matches Ok(None),
            Some(p) => match r {
                Ok(Some(f)) => f@ == search_pattern(p@) && regex_compiles_of(f@),
                Ok(None) => false,
                Err(SearchError::BadPattern(q)) => !regex_compiles_of(search_pattern(p@)) && q@ == p@,
            },
        },
{
    match pattern {
        None => Ok(None),
        Some(p) => {
            let mut f = String::from_str("(?i)");
            f.append(p);
            if regex_compiles(f.as_str()) {
                Ok(Some(f))
            } else {
                Err(SearchError::BadPattern(p.to_string()))
            }
        },
    }
}

/// Whether the optional compiled pattern matches the text.
fn pattern_matches(pat: &Option<String>, text: &str) -> (r: bool)
    requires
        pat matches Some(f) ==> regex_compiles_of(f@),
    ensures
        pat matches Some(f) ==> r == regex_is_match_of(f@, text@),
        pat is None ==> r,
{
    match pat {
        Some(f) => regex_is_match(f.as_str(), text),
        None => true,
    }
}

/// The search hits among the index repositories: those the pattern (if
/// any) finds, matched case-insensitively, in the install state asked for.
pub fn org_hits(entries: &Vec<OrgEntry>, pattern: Option<&str>, installed_only: bool, not_installed_only: bool) -> (r: Result<Vec<Hit>, SearchError>)
    ensures
        match pattern {
            None => r matches Ok(hs) && hits_view(hs@) == org_hits_of(entries@, None, installed_only, not_installed_only),
            Some(p) => match r {
                Ok(hs) => regex_compiles_of(search_pattern(p@)) && hits_view(hs@) == org_hits_of(
                    entries@,
                    Some(search_pattern(p@)),
                    installed_only,
                    not_installed_only,
                ),
                Err(SearchError::BadPattern(q)) => !regex_compiles_of(search_pattern(p@)) && q@ == p@,
            },
        },
{
    let pat = match compile_pattern(pattern) {
        Ok(x) => x,
        Err(e) => {
            return Err(e);
        },
    };
    let ghost pv = crate::text::opt_view(pat);
    let mut hits: Vec<Hit> = Vec::new();
    let mut i: usize = 0;
    while i < entries.len()
        invariant
            i <= entries@.len(),
            pv == crate::text::opt_view(pat),
            pat matches Some(f) ==> regex_compiles_of(f@),
            hits_view(hits@) == org_hits_of(entries@.take(i as int), pv, installed_only, not_installed_only),
        decreases entries@.len() - i,
    {
        assert(entries@.take(i + 1).drop_last() =~= entries@.take(i as int));
        assert(entries@.take(i + 1).last() == entries@[i as int]);
        let e = &entries[i];
        let ghost before = hits_view(hits@);
        match org_package(e.repo_name.as_str()) {
            None => {},
            Some(package) => {
                let desc = match &e.description {
                    Some(d) => d.clone(),
                    None => String::new(),
                };
                let matched = match &pat {
                    None => true,
                    Some(_) => pattern_matches(&pat, package.as_str()) || pattern_matches(&pat, desc.as_str())
                        || match &e.full_description {
                        Some(f) => pattern_matches(&pat, f.as_str()),
                        None => false,
                    },
                };
                let installed = e.installed_version.is_some() || e.managed;
                if matched && !(installed_only && !installed) && !(not_installed_only && installed) {
                    let blurb = if desc.as_str().is_empty() {
                        match &e.full_description {
                            Some(f) => f.clone(),
                            None => String::new(),
                        }
                    } else {
                        desc
                    };
                    let candidate = match &e.recorded_version {
                        Some(v) => if v.as_str().is_empty() {
                            None
                        } else {
                            Some(v.clone())
                        },
                        None => None,
                    };
                    let hit = Hit {
                        name: package,
                        desc: blurb,
                        installed,
                        installed_version: e.installed_version.clone(),
                        candidate,
                    };
                    hits.push(hit);
                    assert(hits_view(hits@) =~= before.push(hit_view(hit)));
                }
            },
        }
        i = i + 1;
    }
    assert(entries@.take(entries@.len() as int) =~= entries@);
    Ok(hits)
}

/// The search hits among the bundled templates: those the pattern (if any)
/// finds, matched case-insensitively, in the install state asked for.
pub fn template_hits(entries: &Vec<TemplateEntry>, pattern: Option<&str>, installed_only: bool, not_installed_only: bool) -> (r: Result<Vec<Hit>, SearchError>)
    ensures
        match pattern {
            None => r matches Ok(hs) && hits_view(hs@) == template_hits_of(entries@, None, installed_only, not_installed_only),
            Some(p) => match r {
                Ok(hs) => regex_compiles_of(search_pattern(p@)) && hits_view(hs@) == template_hits_of(
                    entries@,
                    Some(search_pattern(p@)),
                    installed_only,
                    not_installed_only,
                ),
                Err(SearchError::BadPattern(q)) => !regex_compiles_of(search_pattern(p@)) && q@ == p@,
            },
        },
{
    let pat = match compile_pattern(pattern) {
        Ok(x) => x,
        Err(e) => {
            return Err(e);
        },
    };
    let ghost pv = crate::text::opt_view(pat);
    let mut hits: Vec<Hit> = Vec::new();
    let mut i: usize = 0;
    while i < entries.len()
        invariant
            i <= entries@.len(),
            pv == crate::text::opt_view(pat),
            pat matches Some(f) ==> regex_compiles_of(f@),
            hits_view(hits@) == template_hits_of(entries@.take(i as int), pv, installed_only, not_installed_only),
        decreases entries@.len() - i,
    {
        assert(entries@.take(i + 1).drop_last() =~= entries@.take(i as int));
        assert(entries@.take(i + 1).last() == entries@[i as int]);
        let e = &entries[i];
        let ghost before = hits_view(hits@);
        let short = template_short_name(e.name.as_str());
        let desc = template_description(e.body.as_str());
        let matched = match &pat {
            None => true,
            Some(_) => pattern_matches(&pat, e.name.as_str()) || pattern_matches(&pat, short.as_str())
                || pattern_matches(&pat, desc.as_str()) || pattern_matches(&pat, e.body.as_str()),
        };
        let installed = e.installed_version.is_some() || e.managed;
        if matched && !(installed_only && !installed) && !(not_installed_only && installed) {
            let mut d = desc;
            d.append(" (template)");
            let hit = Hit {
                name: e.name.clone(),
                desc: d,
                installed,
                installed_version: e.installed_version.clone(),
                candidate: None,
            };
            hits.push(hit);
            assert(hits_view(hits@) =~= before.push(hit_view(hit)));
        }
        i = i + 1;
    }
    assert(entries@.take(entries@.len() as int) =~= entries@);
    Ok(hits)
}

} // verus!
