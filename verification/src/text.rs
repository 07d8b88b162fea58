//! Text primitives shared by the plugin parsers: the meaning of `trim`,
//! `lines`, `split`, prefix/suffix tests and ASCII case folding, stated over
//! `Seq<char>`, with executable versions over `&[char]` and `&str`.
use vstd::prelude::*;

verus! {

// ---------------------------------------------------------------------------
// Character classes
// ---------------------------------------------------------------------------

/// Unicode `White_Space`, the set `char::is_whitespace` tests.
pub open spec fn is_ws(c: char) -> bool {
    let u = c as u32;
    (0x09 <= u && u <= 0x0d) || u == 0x20 || u == 0x85 || u == 0xa0 || u == 0x1680 || (0x2000
        <= u && u <= 0x200a) || u == 0x2028 || u == 0x2029 || u == 0x202f || u == 0x205f || u
        == 0x3000
}

/// A character class: whitespace when `ws` holds, plus every char of `set`.
pub open spec fn in_class(c: char, ws: bool, set: Seq<char>) -> bool {
    (ws && is_ws(c)) || set.contains(c)
}

pub open spec fn lower_char(c: char) -> char {
    if 'A' <= c && c <= 'Z' {
        ((c as u8) + 32) as char
    } else {
        c
    }
}

pub open spec fn upper_char(c: char) -> char {
    if 'a' <= c && c <= 'z' {
        ((c as u8) - 32) as char
    } else {
        c
    }
}

pub open spec fn to_lower(s: Seq<char>) -> Seq<char> {
    s.map_values(|c: char| lower_char(c))
}

pub open spec fn to_upper(s: Seq<char>) -> Seq<char> {
    s.map_values(|c: char| upper_char(c))
}

pub open spec fn is_ascii_alnum(c: char) -> bool {
    ('a' <= c && c <= 'z') || ('A' <= c && c <= 'Z') || ('0' <= c && c <= '9')
}

// ---------------------------------------------------------------------------
// Trimming
// ---------------------------------------------------------------------------

/// Drop leading characters of the class.
pub open spec fn strip_start(s: Seq<char>, ws: bool, set: Seq<char>) -> Seq<char>
    decreases s.len(),
{
    if s.len() > 0 && in_class(s[0], ws, set) {
        strip_start(s.drop_first(), ws, set)
    } else {
        s
    }
}

/// Drop trailing characters of the class.
pub open spec fn strip_end(s: Seq<char>, ws: bool, set: Seq<char>) -> Seq<char>
    decreases s.len(),
{
    if s.len() > 0 && in_class(s.last(), ws, set) {
        strip_end(s.drop_last(), ws, set)
    } else {
        s
    }
}

/// `str::trim_matches` for a character class.
pub open spec fn strip(s: Seq<char>, ws: bool, set: Seq<char>) -> Seq<char> {
    strip_end(strip_start(s, ws, set), ws, set)
}

/// `str::trim`.
pub open spec fn trim(s: Seq<char>) -> Seq<char> {
    strip(s, true, Seq::empty())
}

pub proof fn lemma_strip_start(s: Seq<char>, ws: bool, set: Seq<char>, i: int)
    requires
        0 <= i <= s.len(),
        forall|j: int| 0 <= j < i ==> in_class(#[trigger] s[j], ws, set),
        i == s.len() || !in_class(s[i], ws, set),
    ensures
        strip_start(s, ws, set) == s.skip(i),
    decreases i,
{
    if i > 0 {
        let t = s.drop_first();
        assert forall|j: int| 0 <= j < i - 1 implies in_class(#[trigger] t[j], ws, set) by {
            assert(t[j] == s[j + 1]);
        }
        if i < s.len() {
            assert(t[i - 1] == s[i]);
        }
        lemma_strip_start(t, ws, set, i - 1);
        assert(t.skip(i - 1) =~= s.skip(i));
    } else {
        assert(s.skip(0) =~= s);
    }
}

pub proof fn lemma_strip_end(s: Seq<char>, ws: bool, set: Seq<char>, i: int)
    requires
        0 <= i <= s.len(),
        forall|j: int| i <= j < s.len() ==> in_class(#[trigger] s[j], ws, set),
        i == 0 || !in_class(s[i - 1], ws, set),
    ensures
        strip_end(s, ws, set) == s.take(i),
    decreases s.len() - i,
{
    if i < s.len() {
        let t = s.drop_last();
        assert forall|j: int| i <= j < t.len() implies in_class(#[trigger] t[j], ws, set) by {
            assert(t[j] == s[j]);
        }
        if i > 0 {
            assert(t[i - 1] == s[i - 1]);
        }
        lemma_strip_end(t, ws, set, i);
        assert(t.take(i) =~= s.take(i));
    } else {
        assert(s.take(s.len() as int) =~= s);
    }
}

// ---------------------------------------------------------------------------
// Searching
// ---------------------------------------------------------------------------

/// Index of the first character of the class, or -1.
pub open spec fn find_class(s: Seq<char>, ws: bool, set: Seq<char>) -> int
    decreases s.len(),
{
    if s.len() == 0 {
        -1
    } else if in_class(s[0], ws, set) {
        0
    } else {
        let r = find_class(s.drop_first(), ws, set);
        if r < 0 {
            -1
        } else {
            r + 1
        }
    }
}

pub proof fn lemma_find_class_range(s: Seq<char>, ws: bool, set: Seq<char>)
    ensures
        -1 <= find_class(s, ws, set) < s.len(),
        find_class(s, ws, set) >= 0 ==> in_class(s[find_class(s, ws, set)], ws, set),
    decreases s.len(),
{
    if s.len() > 0 {
        lemma_find_class_range(s.drop_first(), ws, set);
    }
}

/// The first class character is at `k` (or there is none when `k` is the length).
pub proof fn lemma_find_class(s: Seq<char>, ws: bool, set: Seq<char>, k: int)
    requires
        0 <= k <= s.len(),
        forall|j: int| 0 <= j < k ==> !in_class(#[trigger] s[j], ws, set),
        k == s.len() || in_class(s[k], ws, set),
    ensures
        find_class(s, ws, set) == (if k == s.len() {
            -1
        } else {
            k
        }),
    decreases s.len(),
{
    if s.len() > 0 && k > 0 {
        let t = s.drop_first();
        assert forall|j: int| 0 <= j < k - 1 implies !in_class(#[trigger] t[j], ws, set) by {
            assert(t[j] == s[j + 1]);
        }
        if k < s.len() {
            assert(t[k - 1] == s[k]);
        }
        lemma_find_class(t, ws, set, k - 1);
        assert(!in_class(s[0], ws, set));
    }
}

/// `pat` occurs in `s` at `j`.
pub open spec fn occurs_at(s: Seq<char>, pat: Seq<char>, j: int) -> bool {
    0 <= j && j + pat.len() <= s.len() && s.subrange(j, j + pat.len()) == pat
}

/// `str::contains` for a string pattern.
pub open spec fn contains_str(s: Seq<char>, pat: Seq<char>) -> bool {
    exists|j: int| occurs_at(s, pat, j)
}

pub open spec fn starts_with(s: Seq<char>, pat: Seq<char>) -> bool {
    pat.len() <= s.len() && s.take(pat.len() as int) == pat
}

pub open spec fn ends_with(s: Seq<char>, pat: Seq<char>) -> bool {
    pat.len() <= s.len() && s.skip(s.len() - pat.len()) == pat
}

/// Index of the first occurrence of `pat`, or -1 (`str::find`).
pub open spec fn find_str(s: Seq<char>, pat: Seq<char>) -> int
    decreases s.len(),
{
    if pat.len() > s.len() {
        -1
    } else if s.take(pat.len() as int) == pat {
        0
    } else if s.len() == 0 {
        -1
    } else {
        let r = find_str(s.drop_first(), pat);
        if r < 0 {
            -1
        } else {
            r + 1
        }
    }
}

pub proof fn lemma_find_str(s: Seq<char>, pat: Seq<char>, k: int)
    requires
        0 <= k,
        forall|j: int| 0 <= j < k ==> !occurs_at(s, pat, j),
        occurs_at(s, pat, k) || k + pat.len() > s.len(),
    ensures
        find_str(s, pat) == (if occurs_at(s, pat, k) {
            k
        } else {
            -1
        }),
    decreases s.len(),
{
    if pat.len() > s.len() {
    } else if s.take(pat.len() as int) == pat {
        assert(s.subrange(0, pat.len() as int) =~= s.take(pat.len() as int));
        assert(occurs_at(s, pat, 0));
        if k > 0 {
            assert(!occurs_at(s, pat, 0));
        }
    } else {
        assert(s.subrange(0, pat.len() as int) =~= s.take(pat.len() as int));
        assert(!occurs_at(s, pat, 0));
        assert(k > 0);
        if s.len() == 0 {
            assert(s.take(0) =~= pat);
        }
        let t = s.drop_first();
        assert forall|j: int| 0 <= j < k - 1 implies !occurs_at(t, pat, j) by {
            if occurs_at(t, pat, j) {
                assert forall|m: int| 0 <= m < pat.len() implies #[trigger] t.subrange(j, j + pat.len())[m]
                    == s.subrange(j + 1, j + 1 + pat.len())[m] by {
                    assert(t[j + m] == s[j + 1 + m]);
                }
                assert(t.subrange(j, j + pat.len()) =~= s.subrange(j + 1, j + 1 + pat.len()));
                assert(occurs_at(s, pat, j + 1));
            }
        }
        if occurs_at(s, pat, k) {
            assert(t.subrange(k - 1, k - 1 + pat.len()) =~= s.subrange(k, k + pat.len()));
        }
        lemma_find_str(t, pat, k - 1);
        assert(occurs_at(s, pat, k) == occurs_at(t, pat, k - 1)) by {
            if k + pat.len() <= s.len() {
                assert(t.subrange(k - 1, k - 1 + pat.len()) =~= s.subrange(k, k + pat.len()));
            }
        }
    }
}

/// Index of the last occurrence of `pat`, or -1 (`str::rfind`).
pub open spec fn rfind_str(s: Seq<char>, pat: Seq<char>) -> int
    decreases s.len(),
{
    if pat.len() > s.len() {
        -1
    } else if s.skip(s.len() - pat.len()) == pat {
        s.len() - pat.len()
    } else if s.len() == 0 {
        -1
    } else {
        rfind_str(s.drop_last(), pat)
    }
}

pub proof fn lemma_rfind_str(s: Seq<char>, pat: Seq<char>, k: int)
    requires
        -1 <= k,
        forall|j: int| k < j ==> !occurs_at(s, pat, j),
        k == -1 || occurs_at(s, pat, k),
    ensures
        rfind_str(s, pat) == k,
    decreases s.len(),
{
    if pat.len() > s.len() {
    } else {
        let top = s.len() - pat.len();
        assert(s.subrange(top, top + pat.len()) =~= s.skip(top));
        if s.skip(top) == pat {
            assert(occurs_at(s, pat, top));
        } else {
            assert(!occurs_at(s, pat, top));
            if s.len() > 0 {
                let t = s.drop_last();
                assert forall|j: int| k < j implies !occurs_at(t, pat, j) by {
                    if occurs_at(t, pat, j) {
                        assert(t.subrange(j, j + pat.len()) =~= s.subrange(j, j + pat.len()));
                        assert(occurs_at(s, pat, j));
                    }
                }
                if k >= 0 {
                    assert(k < top);
                    assert(t.subrange(k, k + pat.len()) =~= s.subrange(k, k + pat.len()));
                }
                lemma_rfind_str(t, pat, k);
            }
        }
    }
}

// ---------------------------------------------------------------------------
// Splitting
// ---------------------------------------------------------------------------

/// `str::split` on a character class: `n` separators give `n + 1` pieces.
pub open spec fn split_class(s: Seq<char>, ws: bool, set: Seq<char>) -> Seq<Seq<char>>
    decreases s.len(),
{
    let i = find_class(s, ws, set);
    if i < 0 || i >= s.len() {
        seq![s]
    } else {
        seq![s.take(i)] + split_class(s.skip(i + 1), ws, set)
    }
}

/// Drop a trailing `'\r'`.
pub open spec fn strip_cr(s: Seq<char>) -> Seq<char> {
    if s.len() > 0 && s.last() == '\r' {
        s.drop_last()
    } else {
        s
    }
}

/// `str::lines`: split at `'\n'` (a `"\r\n"` ending loses its `'\r'`); the
/// final line ending is optional and an empty string has no lines.
pub open spec fn lines(s: Seq<char>) -> Seq<Seq<char>>
    decreases s.len(),
{
    if s.len() == 0 {
        seq![]
    } else {
        let i = find_class(s, false, seq!['\n']);
        if i < 0 || i >= s.len() {
            seq![s]
        } else {
            seq![strip_cr(s.take(i))] + lines(s.skip(i + 1))
        }
    }
}

/// The non-empty pieces, in order.
pub open spec fn non_empty(ps: Seq<Seq<char>>) -> Seq<Seq<char>>
    decreases ps.len(),
{
    if ps.len() == 0 {
        seq![]
    } else if ps.last().len() == 0 {
        non_empty(ps.drop_last())
    } else {
        non_empty(ps.drop_last()).push(ps.last())
    }
}

/// Every piece trimmed.
pub open spec fn trim_all(ps: Seq<Seq<char>>) -> Seq<Seq<char>> {
    ps.map_values(|p: Seq<char>| trim(p))
}

/// `str::split_whitespace`.
pub open spec fn split_ws(s: Seq<char>) -> Seq<Seq<char>> {
    non_empty(split_class(s, true, Seq::empty()))
}

/// `parts.join(sep)`.
pub open spec fn join(parts: Seq<Seq<char>>, sep: Seq<char>) -> Seq<char>
    decreases parts.len(),
{
    if parts.len() == 0 {
        seq![]
    } else if parts.len() == 1 {
        parts[0]
    } else {
        join(parts.drop_last(), sep) + sep + parts.last()
    }
}

// ---------------------------------------------------------------------------
// Executable primitives
// ---------------------------------------------------------------------------

/// Appends one char to a `String` (`String::push`).
#[verifier::external_body]
fn push_char(s: &mut String, c: char)
    ensures
        final(s)@ == old(s)@.push(c),
{
    s.push(c);
}

/// The characters of `s`.
pub fn chars_of(s: &str) -> (v: Vec<char>)
    ensures
        v@ == s@,
{
    let n = s.unicode_len();
    let mut v: Vec<char> = Vec::new();
    let mut i: usize = 0;
    while i < n
        invariant
            n == s@.len(),
            i <= n,
            v@ == s@.take(i as int),
        decreases n - i,
    {
        v.push(s.get_char(i));
        i = i + 1;
        assert(v@ =~= s@.take(i as int));
    }
    assert(s@.take(n as int) =~= s@);
    v
}

/// A `String` holding `v`.
pub fn string_of(v: &[char]) -> (s: String)
    ensures
        s@ == v@,
{
    let mut s = String::new();
    let mut i: usize = 0;
    while i < v.len()
        invariant
            i <= v.len(),
            s@ == v@.take(i as int),
        decreases v.len() - i,
    {
        push_char(&mut s, v[i]);
        i = i + 1;
        assert(s@ =~= v@.take(i as int));
    }
    assert(v@.take(v@.len() as int) =~= v@);
    s
}

/// Appends `v` to `s`.
pub fn push_chars(s: &mut String, v: &[char])
    ensures
        final(s)@ == old(s)@ + v@,
{
    let ghost s0 = s@;
    let mut i: usize = 0;
    while i < v.len()
        invariant
            i <= v.len(),
            s@ == s0 + v@.take(i as int),
        decreases v.len() - i,
    {
        push_char(s, v[i]);
        i = i + 1;
        assert(s@ =~= s0 + v@.take(i as int));
    }
    assert(v@.take(v@.len() as int) =~= v@);
}

pub fn is_ws_char(c: char) -> (b: bool)
    ensures
        b == is_ws(c),
{
    let u = c as u32;
    (0x09 <= u && u <= 0x0d) || u == 0x20 || u == 0x85 || u == 0xa0 || u == 0x1680 || (0x2000
        <= u && u <= 0x200a) || u == 0x2028 || u == 0x2029 || u == 0x202f || u == 0x205f || u
        == 0x3000
}

pub fn class_has(c: char, ws: bool, set: &[char]) -> (b: bool)
    ensures
        b == in_class(c, ws, set@),
{
    if ws && is_ws_char(c) {
        return true;
    }
    let mut i: usize = 0;
    while i < set.len()
        invariant
            i <= set.len(),
            forall|j: int| 0 <= j < i ==> set@[j] != c,
        decreases set.len() - i,
    {
        if set[i] == c {
            assert(set@[i as int] == c);
            return true;
        }
        i = i + 1;
    }
    false
}

pub fn lower_of(c: char) -> (r: char)
    ensures
        r == lower_char(c),
{
    if 'A' <= c && c <= 'Z' {
        ((c as u8) + 32) as char
    } else {
        c
    }
}

pub fn upper_of(c: char) -> (r: char)
    ensures
        r == upper_char(c),
{
    if 'a' <= c && c <= 'z' {
        ((c as u8) - 32) as char
    } else {
        c
    }
}

pub fn is_alnum(c: char) -> (b: bool)
    ensures
        b == is_ascii_alnum(c),
{
    ('a' <= c && c <= 'z') || ('A' <= c && c <= 'Z') || ('0' <= c && c <= '9')
}

pub fn lower_vec(v: &[char]) -> (r: Vec<char>)
    ensures
        r@ == to_lower(v@),
{
    let mut r: Vec<char> = Vec::new();
    let mut i: usize = 0;
    while i < v.len()
        invariant
            i <= v.len(),
            r@ == to_lower(v@.take(i as int)),
        decreases v.len() - i,
    {
        r.push(lower_of(v[i]));
        i = i + 1;
        assert(r@ =~= to_lower(v@.take(i as int)));
    }
    assert(v@.take(v@.len() as int) =~= v@);
    r
}

pub fn upper_vec(v: &[char]) -> (r: Vec<char>)
    ensures
        r@ == to_upper(v@),
{
    let mut r: Vec<char> = Vec::new();
    let mut i: usize = 0;
    while i < v.len()
        invariant
            i <= v.len(),
            r@ == to_upper(v@.take(i as int)),
        decreases v.len() - i,
    {
        r.push(upper_of(v[i]));
        i = i + 1;
        assert(r@ =~= to_upper(v@.take(i as int)));
    }
    assert(v@.take(v@.len() as int) =~= v@);
    r
}

/// `a == b` on character sequences.
pub fn seq_eq(a: &[char], b: &[char]) -> (r: bool)
    ensures
        r == (a@ == b@),
{
    if a.len() != b.len() {
        return false;
    }
    let mut i: usize = 0;
    while i < a.len()
        invariant
            a.len() == b.len(),
            i <= a.len(),
            forall|j: int| 0 <= j < i ==> a@[j] == b@[j],
        decreases a.len() - i,
    {
        if a[i] != b[i] {
            return false;
        }
        i = i + 1;
    }
    assert(a@ =~= b@);
    true
}

/// `pat` occurs in `v` at `j`.
pub fn occurs_at_exec(v: &[char], pat: &[char], j: usize) -> (r: bool)
    ensures
        r == occurs_at(v@, pat@, j as int),
{
    if j > v.len() || pat.len() > v.len() - j {
        return false;
    }
    let mut i: usize = 0;
    while i < pat.len()
        invariant
            j + pat.len() <= v.len(),
            i <= pat.len(),
            forall|k: int| 0 <= k < i ==> v@[j + k] == pat@[k],
        decreases pat.len() - i,
    {
        if v[j + i] != pat[i] {
            assert(v@.subrange(j as int, j + pat.len())[i as int] != pat@[i as int]);
            return false;
        }
        i = i + 1;
    }
    assert(v@.subrange(j as int, j + pat.len()) =~= pat@);
    true
}

pub fn starts_with_exec(v: &[char], pat: &[char]) -> (r: bool)
    ensures
        r == starts_with(v@, pat@),
{
    let r = occurs_at_exec(v, pat, 0);
    assert(v@.subrange(0, pat@.len() as int) =~= v@.take(pat@.len() as int));
    r
}

pub fn ends_with_exec(v: &[char], pat: &[char]) -> (r: bool)
    ensures
        r == ends_with(v@, pat@),
{
    if pat.len() > v.len() {
        return false;
    }
    let j = v.len() - pat.len();
    let r = occurs_at_exec(v, pat, j);
    assert(v@.subrange(j as int, v@.len() as int) =~= v@.skip(j as int));
    r
}

pub fn contains_exec(v: &[char], pat: &[char]) -> (r: bool)
    ensures
        r == contains_str(v@, pat@),
{
    match find_exec(v, pat) {
        Some(_) => true,
        None => {
            assert forall|j: int| !occurs_at(v@, pat@, j) by {
                if 0 <= j && j + pat@.len() <= v@.len() {
                    assert(!occurs_at(v@, pat@, j));
                }
            }
            false
        },
    }
}

/// `str::find` for a string pattern.
pub fn find_exec(v: &[char], pat: &[char]) -> (r: Option<usize>)
    ensures
        r is None ==> find_str(v@, pat@) == -1 && forall|j: int|
            0 <= j && j + pat@.len() <= v@.len() ==> !occurs_at(v@, pat@, j),
        r matches Some(k) ==> find_str(v@, pat@) == k && occurs_at(v@, pat@, k as int),
{
    if pat.len() > v.len() {
        proof {
            lemma_find_str(v@, pat@, 0);
        }
        return None;
    }
    let last = v.len() - pat.len();
    let mut j: usize = 0;
    loop
        invariant
            last + pat.len() == v.len(),
            j <= last,
            forall|k: int| 0 <= k < j ==> !occurs_at(v@, pat@, k),
        decreases last - j,
    {
        if occurs_at_exec(v, pat, j) {
            proof {
                lemma_find_str(v@, pat@, j as int);
            }
            return Some(j);
        }
        if j == last {
            proof {
                lemma_find_str(v@, pat@, j + 1);
            }
            return None;
        }
        j = j + 1;
    }
}

/// `str::rfind` for a string pattern.
pub fn rfind_exec(v: &[char], pat: &[char]) -> (r: Option<usize>)
    ensures
        r is None ==> rfind_str(v@, pat@) == -1,
        r matches Some(k) ==> rfind_str(v@, pat@) == k && occurs_at(v@, pat@, k as int),
{
    if pat.len() > v.len() {
        proof {
            lemma_rfind_str(v@, pat@, -1);
        }
        return None;
    }
    let mut j: usize = v.len() - pat.len();
    loop
        invariant
            j + pat.len() <= v.len(),
            forall|k: int| j < k ==> !occurs_at(v@, pat@, k),
        decreases j,
    {
        if occurs_at_exec(v, pat, j) {
            proof {
                lemma_rfind_str(v@, pat@, j as int);
            }
            return Some(j);
        }
        if j == 0 {
            proof {
                lemma_rfind_str(v@, pat@, -1);
            }
            return None;
        }
        j = j - 1;
    }
}

/// The first index at or after `from` whose char is in the class, else the length.
pub fn find_class_from(v: &[char], from: usize, ws: bool, set: &[char]) -> (r: usize)
    requires
        from <= v.len(),
    ensures
        from <= r <= v.len(),
        find_class(v@.skip(from as int), ws, set@) == (if r == v.len() {
            -1
        } else {
            r - from
        }),
        forall|j: int| from <= j < r ==> !in_class(#[trigger] v@[j], ws, set@),
        r < v.len() ==> in_class(v@[r as int], ws, set@),
{
    let mut i = from;
    loop
        invariant
            from <= i <= v.len(),
            forall|j: int| from <= j < i ==> !in_class(#[trigger] v@[j], ws, set@),
        ensures
            from <= i <= v.len(),
            forall|j: int| from <= j < i ==> !in_class(#[trigger] v@[j], ws, set@),
            i < v.len() ==> in_class(v@[i as int], ws, set@),
        decreases v.len() - i,
    {
        if i == v.len() {
            break;
        }
        if class_has(v[i], ws, set) {
            break;
        }
        i = i + 1;
    }
    proof {
        let t = v@.skip(from as int);
        assert forall|j: int| 0 <= j < i - from implies !in_class(#[trigger] t[j], ws, set@) by {
            assert(t[j] == v@[from + j]);
        }
        lemma_find_class(t, ws, set@, i - from);
    }
    i
}

/// The bounds of `strip(v, ws, set)` inside `v`.
pub fn strip_bounds(v: &[char], ws: bool, set: &[char]) -> (r: (usize, usize))
    ensures
        r.0 <= r.1 <= v.len(),
        v@.subrange(r.0 as int, r.1 as int) == strip(v@, ws, set@),
{
    let mut a: usize = 0;
    loop
        invariant
            a <= v.len(),
            forall|j: int| 0 <= j < a ==> in_class(#[trigger] v@[j], ws, set@),
        ensures
            a <= v.len(),
            forall|j: int| 0 <= j < a ==> in_class(#[trigger] v@[j], ws, set@),
            a == v.len() || !in_class(v@[a as int], ws, set@),
        decreases v.len() - a,
    {
        if a == v.len() {
            break;
        }
        if !class_has(v[a], ws, set) {
            break;
        }
        a = a + 1;
    }
    proof {
        lemma_strip_start(v@, ws, set@, a as int);
    }
    let ghost t = v@.skip(a as int);
    let mut b: usize = v.len();
    loop
        invariant
            a <= b <= v.len(),
            t == v@.skip(a as int),
            forall|j: int| b <= j < v.len() ==> in_class(#[trigger] v@[j], ws, set@),
        ensures
            a <= b <= v.len(),
            forall|j: int| b <= j < v.len() ==> in_class(#[trigger] v@[j], ws, set@),
            b == a || !in_class(v@[b - 1], ws, set@),
        decreases b,
    {
        if b == a {
            break;
        }
        if !class_has(v[b - 1], ws, set) {
            break;
        }
        b = b - 1;
    }
    proof {
        assert forall|j: int| b - a <= j < t.len() implies in_class(#[trigger] t[j], ws, set@) by {
            assert(t[j] == v@[a + j]);
        }
        if b > a {
            assert(t[b - a - 1] == v@[b - 1]);
        }
        lemma_strip_end(t, ws, set@, b - a);
        assert(t.take(b - a) =~= v@.subrange(a as int, b as int));
    }
    (a, b)
}

/// `v` without its leading characters of the class (`trim_start_matches`).
pub fn strip_start_slice<'a>(v: &'a [char], ws: bool, set: &[char]) -> (r: &'a [char])
    ensures
        r@ == strip_start(v@, ws, set@),
{
    let mut a: usize = 0;
    while a < v.len() && class_has(v[a], ws, set)
        invariant
            a <= v.len(),
            forall|j: int| 0 <= j < a ==> in_class(#[trigger] v@[j], ws, set@),
        decreases v.len() - a,
    {
        a = a + 1;
    }
    proof {
        lemma_strip_start(v@, ws, set@, a as int);
    }
    vstd::slice::slice_subrange(v, a, v.len())
}

/// `v` without its trailing characters of the class (`trim_end_matches`).
pub fn strip_end_slice<'a>(v: &'a [char], ws: bool, set: &[char]) -> (r: &'a [char])
    ensures
        r@ == strip_end(v@, ws, set@),
{
    let mut b: usize = v.len();
    while b > 0 && class_has(v[b - 1], ws, set)
        invariant
            b <= v.len(),
            forall|j: int| b <= j < v.len() ==> in_class(#[trigger] v@[j], ws, set@),
        decreases b,
    {
        b = b - 1;
    }
    proof {
        lemma_strip_end(v@, ws, set@, b as int);
    }
    vstd::slice::slice_subrange(v, 0, b)
}

/// `strip(v, ws, set)` as a slice of `v`.
pub fn strip_slice<'a>(v: &'a [char], ws: bool, set: &[char]) -> (r: &'a [char])
    ensures
        r@ == strip(v@, ws, set@),
{
    let (a, b) = strip_bounds(v, ws, set);
    vstd::slice::slice_subrange(v, a, b)
}

/// `str::trim` as a slice of `v`.
pub fn trim_slice<'a>(v: &'a [char]) -> (r: &'a [char])
    ensures
        r@ == trim(v@),
{
    let empty: Vec<char> = Vec::new();
    assert(empty@ =~= Seq::<char>::empty());
    strip_slice(v, true, empty.as_slice())
}

pub proof fn lemma_split_class_step(s: Seq<char>, ws: bool, set: Seq<char>, k: int)
    requires
        0 <= k < s.len(),
        find_class(s, ws, set) == k,
    ensures
        split_class(s, ws, set) == seq![s.take(k)] + split_class(s.skip(k + 1), ws, set),
{
}

/// `str::split` on a character class.
pub fn split_class_exec(v: &[char], ws: bool, set: &[char]) -> (r: Vec<Vec<char>>)
    ensures
        r.deep_view() == split_class(v@, ws, set@),
{
    let mut out: Vec<Vec<char>> = Vec::new();
    let mut p: usize = 0;
    assert(v@.skip(0) =~= v@);
    assert(out.deep_view() =~= Seq::<Seq<char>>::empty());
    loop
        invariant
            p <= v.len(),
            split_class(v@, ws, set@) == out.deep_view() + split_class(v@.skip(p as int), ws, set@),
        decreases v.len() - p,
    {
        let i = find_class_from(v, p, ws, set);
        let ghost t = v@.skip(p as int);
        let piece = slice_to_vec(vstd::slice::slice_subrange(v, p, i));
        assert(piece.deep_view() =~= piece@);
        if i == v.len() {
            assert(t =~= v@.subrange(p as int, i as int));
            let ghost before = out.deep_view();
            out.push(piece);
            assert(out.deep_view() =~= before.push(t));
            return out;
        }
        proof {
            lemma_split_class_step(t, ws, set@, i - p);
            assert(t.take(i - p) =~= v@.subrange(p as int, i as int));
            assert(t.skip(i - p + 1) =~= v@.skip(i + 1));
        }
        let ghost before = out.deep_view();
        out.push(piece);
        assert(out.deep_view() =~= before.push(v@.subrange(p as int, i as int)));
        p = i + 1;
    }
}

/// A `Vec` copy of a slice.
pub fn slice_to_vec(v: &[char]) -> (r: Vec<char>)
    ensures
        r@ == v@,
{
    let mut r: Vec<char> = Vec::new();
    let mut i: usize = 0;
    while i < v.len()
        invariant
            i <= v.len(),
            r@ == v@.take(i as int),
        decreases v.len() - i,
    {
        r.push(v[i]);
        i = i + 1;
        assert(r@ =~= v@.take(i as int));
    }
    assert(v@.take(v@.len() as int) =~= v@);
    r
}

/// Index of the first line whose trimmed text starts with `prefix`, or -1.
pub open spec fn first_with_prefix(ls: Seq<Seq<char>>, prefix: Seq<char>) -> int
    decreases ls.len(),
{
    if ls.len() == 0 {
        -1
    } else if starts_with(trim(ls[0]), prefix) {
        0
    } else {
        let r = first_with_prefix(ls.drop_first(), prefix);
        if r < 0 {
            -1
        } else {
            r + 1
        }
    }
}

pub proof fn lemma_first_with_prefix(ls: Seq<Seq<char>>, prefix: Seq<char>, k: int)
    requires
        0 <= k <= ls.len(),
        forall|j: int| 0 <= j < k ==> !starts_with(trim(#[trigger] ls[j]), prefix),
        k == ls.len() || starts_with(trim(ls[k]), prefix),
    ensures
        first_with_prefix(ls, prefix) == (if k == ls.len() {
            -1
        } else {
            k
        }),
    decreases ls.len(),
{
    if ls.len() > 0 && k > 0 {
        let t = ls.drop_first();
        assert forall|j: int| 0 <= j < k - 1 implies !starts_with(trim(#[trigger] t[j]), prefix) by {
            assert(t[j] == ls[j + 1]);
        }
        if k < ls.len() {
            assert(t[k - 1] == ls[k]);
        }
        lemma_first_with_prefix(t, prefix, k - 1);
        assert(!starts_with(trim(ls[0]), prefix));
    }
}

/// Index of the first line that starts with `prefix` as it stands, or -1.
pub open spec fn first_starting_with(ls: Seq<Seq<char>>, prefix: Seq<char>) -> int
    decreases ls.len(),
{
    if ls.len() == 0 {
        -1
    } else if starts_with(ls[0], prefix) {
        0
    } else {
        let r = first_starting_with(ls.drop_first(), prefix);
        if r < 0 {
            -1
        } else {
            r + 1
        }
    }
}

pub proof fn lemma_first_starting_with(ls: Seq<Seq<char>>, prefix: Seq<char>, k: int)
    requires
        0 <= k <= ls.len(),
        forall|j: int| 0 <= j < k ==> !starts_with(#[trigger] ls[j], prefix),
        k == ls.len() || starts_with(ls[k], prefix),
    ensures
        first_starting_with(ls, prefix) == (if k == ls.len() {
            -1
        } else {
            k
        }),
    decreases ls.len(),
{
    if ls.len() > 0 && k > 0 {
        let t = ls.drop_first();
        assert forall|j: int| 0 <= j < k - 1 implies !starts_with(#[trigger] t[j], prefix) by {
            assert(t[j] == ls[j + 1]);
        }
        if k < ls.len() {
            assert(t[k - 1] == ls[k]);
        }
        lemma_first_starting_with(t, prefix, k - 1);
        assert(!starts_with(ls[0], prefix));
    }
}

/// The text of an optional string.
pub open spec fn opt_view(o: Option<String>) -> Option<Seq<char>> {
    match o {
        Some(s) => Some(s@),
        None => None,
    }
}

/// The text of an optional string slice.
pub open spec fn opt_str_view(o: Option<&str>) -> Option<Seq<char>> {
    match o {
        Some(s) => Some(s@),
        None => None,
    }
}

/// `s` with `prefix` removed when it starts with it.
pub open spec fn strip_prefix_or(s: Seq<char>, prefix: Seq<char>) -> Seq<char> {
    if starts_with(s, prefix) {
        s.skip(prefix.len() as int)
    } else {
        s
    }
}

/// `str::trim_end_matches` for a string pattern: every trailing copy removed.
pub open spec fn strip_suffix_all(s: Seq<char>, pat: Seq<char>) -> Seq<char>
    decreases s.len(),
{
    if pat.len() > 0 && ends_with(s, pat) {
        strip_suffix_all(s.take(s.len() - pat.len()), pat)
    } else {
        s
    }
}

/// `str::trim_start_matches` for a string pattern: every leading copy
/// removed.
pub open spec fn strip_prefix_all(s: Seq<char>, pat: Seq<char>) -> Seq<char>
    decreases s.len(),
{
    if pat.len() > 0 && starts_with(s, pat) {
        strip_prefix_all(s.skip(pat.len() as int), pat)
    } else {
        s
    }
}

/// The text before the first `pat` (`split(pat).next()`).
pub open spec fn before_str(s: Seq<char>, pat: Seq<char>) -> Seq<char> {
    let i = find_str(s, pat);
    if i < 0 {
        s
    } else {
        s.take(i)
    }
}

/// The text between the first and second `pat` (`split(pat).nth(1)`).
pub open spec fn second_piece(s: Seq<char>, pat: Seq<char>) -> Option<Seq<char>> {
    let i = find_str(s, pat);
    if i < 0 {
        None
    } else {
        Some(before_str(s.skip(i + pat.len()), pat))
    }
}

/// The text before the first char of `set` (`split(set).next()`).
pub open spec fn before_class(s: Seq<char>, set: Seq<char>) -> Seq<char> {
    let i = find_class(s, false, set);
    if i < 0 {
        s
    } else {
        s.take(i)
    }
}

/// The text after the last `pat` (`rsplit(pat).next()`).
pub open spec fn after_last(s: Seq<char>, pat: Seq<char>) -> Seq<char> {
    let j = rfind_str(s, pat);
    if j < 0 {
        s
    } else {
        s.skip(j + pat.len())
    }
}

/// `str::split_once` on a character class.
pub open spec fn split_once_class(s: Seq<char>, set: Seq<char>) -> Option<(Seq<char>, Seq<char>)> {
    let i = find_class(s, false, set);
    if i < 0 {
        None
    } else {
        Some((s.take(i), s.skip(i + 1)))
    }
}

/// The lines of `v` (`str::lines`).
pub fn lines_exec(v: &[char]) -> (r: Vec<Vec<char>>)
    ensures
        r.deep_view() == lines(v@),
{
    let nl = vec!['\n'];
    assert(nl@ =~= seq!['\n']);
    let mut out: Vec<Vec<char>> = Vec::new();
    let mut p: usize = 0;
    assert(v@.skip(0) =~= v@);
    assert(out.deep_view() =~= Seq::<Seq<char>>::empty());
    while p < v.len()
        invariant
            p <= v.len(),
            nl@ == seq!['\n'],
            lines(v@) == out.deep_view() + lines(v@.skip(p as int)),
        decreases v.len() - p,
    {
        let i = find_class_from(v, p, false, nl.as_slice());
        let ghost t = v@.skip(p as int);
        let mut piece = slice_to_vec(vstd::slice::slice_subrange(v, p, i));
        if i == v.len() {
            assert(t =~= v@.subrange(p as int, i as int));
            assert(piece.deep_view() =~= piece@);
            let ghost before = out.deep_view();
            out.push(piece);
            assert(out.deep_view() =~= before.push(t));
            assert(v@.skip(v@.len() as int) =~= Seq::<char>::empty());
            p = v.len();
        } else {
            let ghost raw = piece@;
            if piece.len() > 0 && piece[piece.len() - 1] == '\r' {
                piece.pop();
            }
            assert(piece@ =~= strip_cr(raw));
            assert(piece.deep_view() =~= piece@);
            assert(t.take(i - p) =~= v@.subrange(p as int, i as int));
            assert(t.skip(i - p + 1) =~= v@.skip(i + 1));
            let ghost before = out.deep_view();
            out.push(piece);
            assert(out.deep_view() =~= before.push(strip_cr(t.take(i - p))));
            p = i + 1;
        }
    }
    assert(v@.skip(p as int) =~= Seq::<char>::empty());
    assert(out.deep_view() + Seq::<Seq<char>>::empty() =~= out.deep_view());
    out
}

/// `parts.join(sep)`.
pub fn join_exec(parts: &Vec<Vec<char>>, sep: &[char]) -> (r: Vec<char>)
    ensures
        r@ == join(parts.deep_view(), sep@),
{
    let ghost ps = parts.deep_view();
    let mut out: Vec<char> = Vec::new();
    let mut i: usize = 0;
    while i < parts.len()
        invariant
            i <= parts.len(),
            ps == parts.deep_view(),
            out@ == join(ps.take(i as int), sep@),
        decreases parts.len() - i,
    {
        let ghost before = out@;
        if i > 0 {
            append_chars(&mut out, sep);
        }
        append_chars(&mut out, parts[i].as_slice());
        proof {
            assert(ps[i as int] == parts@[i as int]@);
            assert(ps.take(i + 1).drop_last() =~= ps.take(i as int));
            if i == 0 {
                assert(out@ =~= ps.take(1)[0]);
            } else {
                assert(out@ =~= before + sep@ + ps.take(i + 1).last());
            }
        }
        i = i + 1;
    }
    assert(ps.take(parts.len() as int) =~= ps);
    out
}

/// Appends `v` to `out`.
pub fn append_chars(out: &mut Vec<char>, v: &[char])
    ensures
        final(out)@ == old(out)@ + v@,
{
    let ghost o = out@;
    let mut i: usize = 0;
    while i < v.len()
        invariant
            i <= v.len(),
            out@ == o + v@.take(i as int),
        decreases v.len() - i,
    {
        out.push(v[i]);
        i = i + 1;
        assert(out@ =~= o + v@.take(i as int));
    }
    assert(v@.take(v@.len() as int) =~= v@);
}

/// Strings holding each of `ps`.
pub fn strings_of(ps: &Vec<Vec<char>>) -> (r: Vec<String>)
    ensures
        r.deep_view() == ps.deep_view(),
{
    let mut out: Vec<String> = Vec::new();
    let mut i: usize = 0;
    while i < ps.len()
        invariant
            i <= ps.len(),
            out.deep_view() == ps.deep_view().take(i as int),
        decreases ps.len() - i,
    {
        let ghost before = out.deep_view();
        let one = string_of(ps[i].as_slice());
        assert(ps.deep_view()[i as int] =~= ps@[i as int]@);
        out.push(one);
        assert(out.deep_view() =~= before.push(ps.deep_view()[i as int]));
        assert(ps.deep_view().take(i + 1) =~= ps.deep_view().take(i as int).push(
            ps.deep_view()[i as int],
        ));
        i = i + 1;
    }
    assert(ps.deep_view().take(ps.len() as int) =~= ps.deep_view());
    out
}

/// `str::split_whitespace`.
pub fn split_ws_exec(v: &[char]) -> (r: Vec<Vec<char>>)
    ensures
        r.deep_view() == split_ws(v@),
{
    let empty: Vec<char> = Vec::new();
    assert(empty@ =~= Seq::<char>::empty());
    let pieces = split_class_exec(v, true, empty.as_slice());
    keep_non_empty(&pieces)
}

/// The non-empty members of `ps`, in order.
pub fn keep_non_empty(ps: &Vec<Vec<char>>) -> (r: Vec<Vec<char>>)
    ensures
        r.deep_view() == non_empty(ps.deep_view()),
{
    let ghost all = ps.deep_view();
    let mut out: Vec<Vec<char>> = Vec::new();
    let mut i: usize = 0;
    assert(all.take(0) =~= Seq::<Seq<char>>::empty());
    assert(out.deep_view() =~= Seq::<Seq<char>>::empty());
    while i < ps.len()
        invariant
            i <= ps.len(),
            all == ps.deep_view(),
            out.deep_view() == non_empty(all.take(i as int)),
        decreases ps.len() - i,
    {
        assert(all.take(i + 1).drop_last() =~= all.take(i as int));
        assert(all[i as int] == ps@[i as int]@);
        if ps[i].len() > 0 {
            let ghost before = out.deep_view();
            let piece = slice_to_vec(ps[i].as_slice());
            assert(piece.deep_view() =~= piece@);
            out.push(piece);
            assert(out.deep_view() =~= before.push(all[i as int]));
        }
        i = i + 1;
    }
    assert(all.take(ps.len() as int) =~= all);
    out
}

/// `s` with every trailing copy of `pat` removed (`str::trim_end_matches`).
pub fn strip_suffix_all_exec<'a>(v: &'a [char], pat: &[char]) -> (r: &'a [char])
    ensures
        r@ == strip_suffix_all(v@, pat@),
{
    let mut cur = v;
    if pat.len() == 0 {
        return cur;
    }
    loop
        invariant
            pat@.len() > 0,
            strip_suffix_all(v@, pat@) == strip_suffix_all(cur@, pat@),
        decreases cur@.len(),
    {
        if !ends_with_exec(cur, pat) {
            return cur;
        }
        cur = vstd::slice::slice_subrange(cur, 0, cur.len() - pat.len());
    }
}

/// `s` with every leading copy of `pat` removed (`str::trim_start_matches`).
pub fn strip_prefix_all_exec<'a>(v: &'a [char], pat: &[char]) -> (r: &'a [char])
    ensures
        r@ == strip_prefix_all(v@, pat@),
{
    let mut cur = v;
    if pat.len() == 0 {
        return cur;
    }
    loop
        invariant
            pat@.len() > 0,
            strip_prefix_all(v@, pat@) == strip_prefix_all(cur@, pat@),
        decreases cur@.len(),
    {
        if !starts_with_exec(cur, pat) {
            return cur;
        }
        cur = vstd::slice::slice_subrange(cur, pat.len(), cur.len());
    }
}

/// The text before the first `pat`.
pub fn before_str_exec<'a>(v: &'a [char], pat: &[char]) -> (r: &'a [char])
    ensures
        r@ == before_str(v@, pat@),
{
    match find_exec(v, pat) {
        Some(i) => vstd::slice::slice_subrange(v, 0, i),
        None => v,
    }
}

/// The text between the first and second `pat`.
pub fn second_piece_exec<'a>(v: &'a [char], pat: &[char]) -> (r: Option<&'a [char]>)
    ensures
        match r {
            Some(x) => second_piece(v@, pat@) == Some(x@),
            None => second_piece(v@, pat@) is None,
        },
{
    match find_exec(v, pat) {
        None => None,
        Some(i) => {
            let n = v.len();
            assert(i + pat@.len() <= n);
            Some(before_str_exec(vstd::slice::slice_subrange(v, i + pat.len(), n), pat))
        },
    }
}

/// The text before the first char of `set`.
pub fn before_class_exec<'a>(v: &'a [char], set: &[char]) -> (r: &'a [char])
    ensures
        r@ == before_class(v@, set@),
{
    let i = find_class_from(v, 0, false, set);
    assert(v@.skip(0) =~= v@);
    if i == v.len() {
        assert(v@.subrange(0, i as int) =~= v@);
    }
    vstd::slice::slice_subrange(v, 0, i)
}

/// The text after the last `pat`.
pub fn after_last_exec<'a>(v: &'a [char], pat: &[char]) -> (r: &'a [char])
    ensures
        r@ == after_last(v@, pat@),
{
    match rfind_exec(v, pat) {
        Some(j) => {
            assert(occurs_at(v@, pat@, j as int));
            let n = v.len();
            assert(j + pat.len() <= n);
            vstd::slice::slice_subrange(v, j + pat.len(), n)
        },
        None => v,
    }
}

/// `s` without `prefix` when it starts with it.
pub fn strip_prefix_exec<'a>(v: &'a [char], prefix: &[char]) -> (r: &'a [char])
    ensures
        r@ == strip_prefix_or(v@, prefix@),
{
    if starts_with_exec(v, prefix) {
        vstd::slice::slice_subrange(v, prefix.len(), v.len())
    } else {
        v
    }
}

// ---------------------------------------------------------------------------
// Decimal numbers
// ---------------------------------------------------------------------------

pub open spec fn is_digit(c: char) -> bool {
    '0' <= c && c <= '9'
}

pub open spec fn digit_value(c: char) -> nat {
    ((c as u32) - ('0' as u32)) as nat
}

/// The value of a string of decimal digits.
pub open spec fn digits_value(s: Seq<char>) -> nat
    decreases s.len(),
{
    if s.len() == 0 {
        0
    } else {
        digits_value(s.drop_last()) * 10 + digit_value(s.last())
    }
}

/// The leading run of ASCII digits.
pub open spec fn leading_digits(s: Seq<char>) -> Seq<char>
    decreases s.len(),
{
    if s.len() > 0 && is_digit(s[0]) {
        seq![s[0]] + leading_digits(s.drop_first())
    } else {
        seq![]
    }
}

/// `str::parse::<u64>()` on a digit string, with 0 for an empty or
/// overflowing one.
pub open spec fn parse_u64_or_zero(digits: Seq<char>) -> nat {
    if digits.len() > 0 && digits_value(digits) <= u64::MAX {
        digits_value(digits)
    } else {
        0
    }
}

/// The decimal spelling of `n`.
pub open spec fn decimal(n: nat) -> Seq<char>
    decreases n,
{
    if n < 10 {
        seq![('0' as u32 + n) as char]
    } else {
        decimal(n / 10) + seq![('0' as u32 + (n % 10)) as char]
    }
}

pub proof fn lemma_digits_value_grows(s: Seq<char>, i: int)
    requires
        0 <= i <= s.len(),
    ensures
        digits_value(s.take(i)) <= digits_value(s),
    decreases s.len() - i,
{
    if i < s.len() {
        lemma_digits_value_grows(s.drop_last(), i);
        assert(s.drop_last().take(i) =~= s.take(i));
    } else {
        assert(s.take(i) =~= s);
    }
}

/// The leading digits of `v`, as a slice.
pub fn leading_digits_exec(v: &[char]) -> (r: &[char])
    ensures
        r@ == leading_digits(v@),
{
    let mut i: usize = 0;
    while i < v.len() && '0' <= v[i] && v[i] <= '9'
        invariant
            i <= v.len(),
            forall|j: int| 0 <= j < i ==> is_digit(#[trigger] v@[j]),
        decreases v.len() - i,
    {
        i = i + 1;
    }
    proof {
        lemma_leading_digits(v@, i as int);
    }
    vstd::slice::slice_subrange(v, 0, i)
}

pub proof fn lemma_leading_digits(s: Seq<char>, i: int)
    requires
        0 <= i <= s.len(),
        forall|j: int| 0 <= j < i ==> is_digit(#[trigger] s[j]),
        i == s.len() || !is_digit(s[i]),
    ensures
        leading_digits(s) == s.take(i),
    decreases i,
{
    if i > 0 {
        let t = s.drop_first();
        assert forall|j: int| 0 <= j < i - 1 implies is_digit(#[trigger] t[j]) by {
            assert(t[j] == s[j + 1]);
        }
        if i < s.len() {
            assert(t[i - 1] == s[i]);
        }
        lemma_leading_digits(t, i - 1);
        assert(seq![s[0]] + t.take(i - 1) =~= s.take(i));
    } else {
        assert(s.take(0) =~= Seq::<char>::empty());
    }
}

/// `digits.parse::<u64>().unwrap_or(0)` for a string of ASCII digits.
pub fn parse_u64_or_zero_exec(digits: &[char]) -> (r: u64)
    requires
        forall|j: int| 0 <= j < digits@.len() ==> is_digit(#[trigger] digits@[j]),
    ensures
        r == parse_u64_or_zero(digits@),
{
    if digits.len() == 0 {
        return 0;
    }
    let mut acc: u64 = 0;
    let mut i: usize = 0;
    while i < digits.len()
        invariant
            i <= digits.len(),
            forall|j: int| 0 <= j < digits@.len() ==> is_digit(#[trigger] digits@[j]),
            acc == digits_value(digits@.take(i as int)),
        decreases digits.len() - i,
    {
        let d = (digits[i] as u32 - '0' as u32) as u64;
        assert(digits@.take(i + 1).drop_last() =~= digits@.take(i as int));
        assert(digit_value(digits@[i as int]) == d);
        match acc.checked_mul(10) {
            Some(m) => match m.checked_add(d) {
                Some(n) => {
                    acc = n;
                },
                None => {
                    proof {
                        lemma_digits_value_grows(digits@, i + 1);
                    }
                    return 0;
                },
            },
            None => {
                proof {
                    lemma_digits_value_grows(digits@, i + 1);
                }
                return 0;
            },
        }
        i = i + 1;
    }
    assert(digits@.take(digits@.len() as int) =~= digits@);
    acc
}

/// The decimal spelling of `n`.
pub fn decimal_exec(n: u64) -> (r: Vec<char>)
    ensures
        r@ == decimal(n as nat),
    decreases n,
{
    if n < 10 {
        let c = ((n as u8) + 48) as char;
        assert(c == ('0' as u32 + n) as char);
        vec![c]
    } else {
        let mut r = decimal_exec(n / 10);
        let c = (((n % 10) as u8) + 48) as char;
        assert(c == ('0' as u32 + (n % 10)) as char);
        r.push(c);
        r
    }
}

/// Each of `ps` trimmed, the empty ones dropped.
pub fn trimmed_non_empty(ps: &Vec<Vec<char>>) -> (r: Vec<Vec<char>>)
    ensures
        r.deep_view() == non_empty(trim_all(ps.deep_view())),
{
    let ghost all = trim_all(ps.deep_view());
    let mut out: Vec<Vec<char>> = Vec::new();
    let mut i: usize = 0;
    assert(all.take(0) =~= Seq::<Seq<char>>::empty());
    assert(out.deep_view() =~= Seq::<Seq<char>>::empty());
    while i < ps.len()
        invariant
            i <= ps.len(),
            all == trim_all(ps.deep_view()),
            out.deep_view() == non_empty(all.take(i as int)),
        decreases ps.len() - i,
    {
        assert(all.take(i + 1).drop_last() =~= all.take(i as int));
        assert(ps.deep_view()[i as int] =~= ps@[i as int]@);
        let t = slice_to_vec(trim_slice(ps[i].as_slice()));
        assert(t@ == all[i as int]);
        if t.len() > 0 {
            let ghost before = out.deep_view();
            assert(t.deep_view() =~= t@);
            out.push(t);
            assert(out.deep_view() =~= before.push(all[i as int]));
        }
        i = i + 1;
    }
    assert(all.take(ps.len() as int) =~= all);
    out
}

/// `a.eq_ignore_ascii_case(b)`.
pub fn eq_ignore_case(a: &[char], b: &[char]) -> (r: bool)
    ensures
        r == (to_lower(a@) == to_lower(b@)),
{
    let la = lower_vec(a);
    let lb = lower_vec(b);
    seq_eq(la.as_slice(), lb.as_slice())
}

/// `str::rsplit_once` on a string pattern: the text before and after the
/// last `pat`.
pub open spec fn rsplit_once(s: Seq<char>, pat: Seq<char>) -> Option<(Seq<char>, Seq<char>)> {
    let j = rfind_str(s, pat);
    if j < 0 {
        None
    } else {
        Some((s.take(j), s.skip(j + pat.len())))
    }
}

/// `str::rsplit_once`.
pub fn rsplit_once_exec<'a>(v: &'a [char], pat: &[char]) -> (r: Option<(&'a [char], &'a [char])>)
    ensures
        match r {
            Some((a, b)) => rsplit_once(v@, pat@) == Some((a@, b@)),
            None => rsplit_once(v@, pat@) is None,
        },
{
    match rfind_exec(v, pat) {
        Some(j) => {
            assert(occurs_at(v@, pat@, j as int));
            let n = v.len();
            let a = vstd::slice::slice_subrange(v, 0, j);
            let b = vstd::slice::slice_subrange(v, j + pat.len(), n);
            assert(a@ =~= v@.take(j as int));
            assert(b@ =~= v@.skip(j + pat.len()));
            Some((a, b))
        },
        None => None,
    }
}

/// `s` with every `c` replaced by `with` (`str::replace` on a char).
pub open spec fn replace_char(s: Seq<char>, c: char, with: Seq<char>) -> Seq<char>
    decreases s.len(),
{
    if s.len() == 0 {
        Seq::empty()
    } else {
        replace_char(s.drop_last(), c, with) + if s.last() == c {
            with
        } else {
            seq![s.last()]
        }
    }
}

/// Replaces every `c` in `v` by `with`.
pub fn replace_char_exec(v: &[char], c: char, with: &[char]) -> (r: Vec<char>)
    ensures
        r@ == replace_char(v@, c, with@),
{
    let mut out: Vec<char> = Vec::new();
    let mut i: usize = 0;
    while i < v.len()
        invariant
            i <= v.len(),
            out@ == replace_char(v@.take(i as int), c, with@),
        decreases v.len() - i,
    {
        assert(v@.take(i + 1).drop_last() =~= v@.take(i as int));
        assert(v@.take(i + 1).last() == v@[i as int]);
        if v[i] == c {
            append_chars(&mut out, with);
        } else {
            out.push(v[i]);
            assert(out@ =~= replace_char(v@.take(i as int), c, with@) + seq![v@[i as int]]);
        }
        i = i + 1;
    }
    assert(v@.take(v.len() as int) =~= v@);
    out
}

/// The index of the first member of `s` that satisfies `p`, or -1.
pub open spec fn first_where(s: Seq<Seq<char>>, p: spec_fn(Seq<char>) -> bool) -> int
    decreases s.len(),
{
    if s.len() == 0 {
        -1
    } else if p(s[0]) {
        0
    } else {
        let k = first_where(s.drop_first(), p);
        if k < 0 {
            -1
        } else {
            k + 1
        }
    }
}

pub proof fn lemma_first_where(s: Seq<Seq<char>>, p: spec_fn(Seq<char>) -> bool)
    ensures
        -1 <= first_where(s, p) < s.len(),
        first_where(s, p) >= 0 ==> p(s[first_where(s, p)]),
        forall|j: int| 0 <= j < s.len() && (first_where(s, p) < 0 || j < first_where(s, p)) ==> !p(#[trigger] s[j]),
    decreases s.len(),
{
    if s.len() > 0 {
        lemma_first_where(s.drop_first(), p);
        assert forall|j: int| 0 <= j < s.len() && (first_where(s, p) < 0 || j < first_where(s, p)) implies !p(#[trigger] s[j]) by {
            if j > 0 {
                assert(s.drop_first()[j - 1] == s[j]);
            }
        }
    }
}

/// The first line for which `f` gives a value, with that value.
pub open spec fn first_some(ls: Seq<Seq<char>>, f: spec_fn(Seq<char>) -> Option<Seq<char>>) -> Option<
    Seq<char>,
>
    decreases ls.len(),
{
    if ls.len() == 0 {
        None
    } else {
        match f(ls[0]) {
            Some(v) => Some(v),
            None => first_some(ls.drop_first(), f),
        }
    }
}

/// `str::split_once` on one char, the text on both sides.
pub fn split_once_char<'a>(v: &'a [char], c: char) -> (r: Option<(&'a [char], &'a [char])>)
    ensures
        match r {
            Some((a, b)) => split_once_class(v@, seq![c]) == Some((a@, b@)),
            None => split_once_class(v@, seq![c]) is None,
        },
{
    let set: Vec<char> = vec![c];
    assert(set@ =~= seq![c]);
    let k = find_class_from(v, 0, false, set.as_slice());
    assert(v@.skip(0) =~= v@);
    if k < v.len() {
        let a = vstd::slice::slice_subrange(v, 0, k);
        let b = vstd::slice::slice_subrange(v, k + 1, v.len());
        assert(a@ =~= v@.take(k as int));
        assert(b@ =~= v@.skip(k + 1));
        Some((a, b))
    } else {
        None
    }
}

/// `s` with every leading and trailing `c` removed (`str::trim_matches`).
pub fn trim_char<'a>(v: &'a [char], c: char) -> (r: &'a [char])
    ensures
        r@ == strip(v@, false, seq![c]),
{
    let set: Vec<char> = vec![c];
    assert(set@ =~= seq![c]);
    strip_slice(v, false, set.as_slice())
}


// ---------------------------------------------------------------------------
// Facts about text built by concatenation
// ---------------------------------------------------------------------------

/// A one-character class holds exactly that character.
pub proof fn lemma_single_class(c: char, d: char)
    ensures
        in_class(c, false, seq![d]) <==> c == d,
{
    if c == d {
        assert(seq![d][0] == c);
    }
}

/// Text that neither starts nor ends with whitespace is its own trim.
pub proof fn lemma_trim_id(s: Seq<char>)
    requires
        s.len() > 0,
        !is_ws(s[0]),
        !is_ws(s.last()),
    ensures
        trim(s) == s,
{
    lemma_strip_start(s, true, Seq::empty(), 0);
    assert(s.skip(0) =~= s);
    lemma_strip_end(s, true, Seq::empty(), s.len() as int);
    assert(s.take(s.len() as int) =~= s);
}

/// Leading blanks before untrimmable text are trimmed away: `trim(" " + s)`
/// is `s`, and so is `trim(s + " ")`.
pub proof fn lemma_trim_pad(s: Seq<char>)
    requires
        s.len() > 0,
        !is_ws(s[0]),
        !is_ws(s.last()),
    ensures
        trim(seq![' '] + s) == s,
        trim(s + seq![' ']) == s,
{
    let a = seq![' '] + s;
    assert(is_ws(' '));
    lemma_strip_start(a, true, Seq::empty(), 1);
    assert(a.skip(1) =~= s);
    lemma_trim_id(s);
    let b = s + seq![' '];
    lemma_strip_start(b, true, Seq::empty(), 0);
    assert(b.skip(0) =~= b);
    lemma_strip_end(b, true, Seq::empty(), s.len() as int);
    assert(b.take(s.len() as int) =~= s);
}

/// No character of `s` is in the class, so there is none to find.
pub proof fn lemma_find_class_none(s: Seq<char>, ws: bool, set: Seq<char>)
    requires
        forall|j: int| 0 <= j < s.len() ==> !in_class(#[trigger] s[j], ws, set),
    ensures
        find_class(s, ws, set) == -1,
{
    lemma_find_class(s, ws, set, s.len() as int);
}

/// The first class character of `x + [c] + y`, where `x` holds none and `c`
/// is one, is at `x.len()`.
pub proof fn lemma_find_class_after(x: Seq<char>, c: char, y: Seq<char>, ws: bool, set: Seq<char>)
    requires
        forall|j: int| 0 <= j < x.len() ==> !in_class(#[trigger] x[j], ws, set),
        in_class(c, ws, set),
    ensures
        find_class(x + seq![c] + y, ws, set) == x.len(),
{
    let s = x + seq![c] + y;
    assert forall|j: int| 0 <= j < x.len() implies !in_class(#[trigger] s[j], ws, set) by {
        assert(s[j] == x[j]);
    }
    assert(s[x.len() as int] == c);
    lemma_find_class(s, ws, set, x.len() as int);
}

/// Splitting `x + [c] + y` at class characters, where `x` holds none and
/// `c` is one, gives `x` and then the pieces of `y`.
pub proof fn lemma_split_class_cons(x: Seq<char>, c: char, y: Seq<char>, ws: bool, set: Seq<char>)
    requires
        forall|j: int| 0 <= j < x.len() ==> !in_class(#[trigger] x[j], ws, set),
        in_class(c, ws, set),
    ensures
        split_class(x + seq![c] + y, ws, set) == seq![x] + split_class(y, ws, set),
{
    let s = x + seq![c] + y;
    lemma_find_class_after(x, c, y, ws, set);
    assert(s.take(x.len() as int) =~= x);
    assert(s.skip(x.len() as int + 1) =~= y);
}

/// `x` holds no class character: it is a single piece.
pub proof fn lemma_split_class_single(x: Seq<char>, ws: bool, set: Seq<char>)
    requires
        forall|j: int| 0 <= j < x.len() ==> !in_class(#[trigger] x[j], ws, set),
    ensures
        split_class(x, ws, set) == seq![x],
{
    lemma_find_class_none(x, ws, set);
}

/// The first line of `a + "\n" + rest` is `a` (no newline, no trailing
/// carriage return), followed by the lines of `rest`.
pub proof fn lemma_lines_cons(a: Seq<char>, rest: Seq<char>)
    requires
        forall|j: int| 0 <= j < a.len() ==> #[trigger] a[j] != '\n',
        a.len() == 0 || a.last() != '\r',
    ensures
        lines(a + seq!['\n'] + rest) == seq![a] + lines(rest),
{
    let s = a + seq!['\n'] + rest;
    assert forall|j: int| 0 <= j < a.len() implies !in_class(#[trigger] a[j], false, seq!['\n']) by {
        lemma_single_class(a[j], '\n');
    }
    lemma_single_class('\n', '\n');
    lemma_find_class_after(a, '\n', rest, false, seq!['\n']);
    assert(s.take(a.len() as int) =~= a);
    assert(s.skip(a.len() as int + 1) =~= rest);
    assert(strip_cr(a) == a);
}

} // verus!
