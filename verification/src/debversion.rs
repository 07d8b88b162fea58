//! Debian version ordering (dpkg's algorithm): epoch, upstream version and
//! revision, where `~` sorts before everything and digit runs compare
//! numerically. The text parts compare byte by byte on the UTF-8 encoding.
use vstd::prelude::*;

use std::cmp::Ordering;

use vstd::utf8::encode_utf8;

use crate::text::{
    chars_of, find_class, find_class_from, is_digit, parse_u64_or_zero, parse_u64_or_zero_exec,
    rfind_exec, rfind_str, string_of,
};

verus! {

/// An ASCII digit byte.
pub open spec fn is_digit_byte(c: u8) -> bool {
    48 <= c && c <= 57
}

/// An ASCII letter byte.
pub open spec fn is_alpha_byte(c: u8) -> bool {
    (65 <= c && c <= 90) || (97 <= c && c <= 122)
}

/// The weight of a non-digit byte: `~` first, then letters, then every
/// other byte.
pub open spec fn rank(c: u8) -> int {
    if is_digit_byte(c) {
        0
    } else if c == 126 {
        -1
    } else if is_alpha_byte(c) {
        c as int
    } else {
        c as int + 256
    }
}

/// -1, 0 or 1 by the sign of `x`.
pub open spec fn sign(x: int) -> int {
    if x < 0 {
        -1
    } else if x > 0 {
        1
    } else {
        0
    }
}

/// `s` without its leading `0` bytes.
pub open spec fn skip_zeros(s: Seq<u8>) -> Seq<u8>
    decreases s.len(),
{
    if s.len() > 0 && s[0] == 48 {
        skip_zeros(s.drop_first())
    } else {
        s
    }
}

/// The length of the leading run of digit bytes.
pub open spec fn digit_run(s: Seq<u8>) -> nat
    decreases s.len(),
{
    if s.len() > 0 && is_digit_byte(s[0]) {
        1 + digit_run(s.drop_first())
    } else {
        0
    }
}

/// Byte-wise lexicographic comparison.
pub open spec fn lex(a: Seq<u8>, b: Seq<u8>) -> int
    decreases a.len(),
{
    if a.len() == 0 || b.len() == 0 {
        sign(a.len() - b.len())
    } else if a[0] != b[0] {
        sign(a[0] - b[0])
    } else {
        lex(a.drop_first(), b.drop_first())
    }
}

pub proof fn lemma_skip_zeros_len(s: Seq<u8>)
    ensures
        skip_zeros(s).len() <= s.len(),
        s.len() > 0 && s[0] == 48 ==> skip_zeros(s).len() < s.len(),
        skip_zeros(s).len() > 0 ==> skip_zeros(s)[0] != 48,
        skip_zeros(s) == s.skip(s.len() - skip_zeros(s).len()),
    decreases s.len(),
{
    if s.len() > 0 && s[0] == 48 {
        lemma_skip_zeros_len(s.drop_first());
        assert(s.drop_first().skip(s.drop_first().len() - skip_zeros(s.drop_first()).len())
            =~= s.skip(s.len() - skip_zeros(s).len()));
    } else {
        assert(s.skip(0) =~= s);
    }
}

pub proof fn lemma_digit_run_len(s: Seq<u8>)
    ensures
        digit_run(s) <= s.len(),
        s.len() > 0 && is_digit_byte(s[0]) ==> digit_run(s) >= 1,
        forall|k: int| 0 <= k < digit_run(s) ==> is_digit_byte(#[trigger] s[k]),
        digit_run(s) < s.len() ==> !is_digit_byte(s[digit_run(s) as int]),
    decreases s.len(),
{
    if s.len() > 0 && is_digit_byte(s[0]) {
        let t = s.drop_first();
        lemma_digit_run_len(t);
        assert forall|k: int| 0 <= k < digit_run(s) implies is_digit_byte(#[trigger] s[k]) by {
            if k > 0 {
                assert(s[k] == t[k - 1]);
            }
        }
        if digit_run(s) < s.len() {
            assert(s[digit_run(s) as int] == t[digit_run(t) as int]);
        }
    }
}

/// dpkg's comparison of two upstream versions or revisions.
pub open spec fn part_order(a: Seq<u8>, b: Seq<u8>) -> int
    decreases a.len() + b.len(), 2int,
{
    if a.len() == 0 && b.len() == 0 {
        0
    } else {
        text_order(a, b)
    }
}

/// The comparison from a point where the non-digit prefixes are compared.
pub open spec fn text_order(a: Seq<u8>, b: Seq<u8>) -> int
    decreases a.len() + b.len(), 1int,
{
    let an = a.len() > 0 && !is_digit_byte(a[0]);
    let bn = b.len() > 0 && !is_digit_byte(b[0]);
    if an || bn {
        let ac = if an {
            rank(a[0])
        } else {
            0
        };
        let bc = if bn {
            rank(b[0])
        } else {
            0
        };
        if ac != bc {
            sign(ac - bc)
        } else {
            text_order(
                if an {
                    a.drop_first()
                } else {
                    a
                },
                if bn {
                    b.drop_first()
                } else {
                    b
                },
            )
        }
    } else {
        number_order(a, b)
    }
}

/// The comparison from a point where both sides are empty or start with a
/// digit: leading zeros are dropped, then the longer digit run is larger,
/// then equal-length runs compare byte-wise.
pub open spec fn number_order(a: Seq<u8>, b: Seq<u8>) -> int
    decreases a.len() + b.len(), 0int,
{
    if (a.len() == 0 && b.len() == 0) || (a.len() > 0 && !is_digit_byte(a[0])) || (b.len() > 0
        && !is_digit_byte(b[0])) {
        0
    } else {
        let a1 = skip_zeros(a);
        let b1 = skip_zeros(b);
        let da = digit_run(a1);
        let db = digit_run(b1);
        if da != db {
            sign(da - db)
        } else {
            let c = lex(a1.take(da as int), b1.take(db as int));
            if c != 0 {
                c
            } else {
                proof {
                    lemma_skip_zeros_len(a);
                    lemma_skip_zeros_len(b);
                    lemma_digit_run_len(a1);
                    lemma_digit_run_len(b1);
                }
                part_order(a1.skip(da as int), b1.skip(db as int))
            }
        }
    }
}

/// The weight of a byte, as an integer.
fn byte_rank(c: u8) -> (r: i32)
    ensures
        r == rank(c),
{
    if 48 <= c && c <= 57 {
        0
    } else if c == 126 {
        -1
    } else if (65 <= c && c <= 90) || (97 <= c && c <= 122) {
        c as i32
    } else {
        c as i32 + 256
    }
}

/// dpkg's comparison of two version parts (upstream version or revision):
/// -1, 0 or 1.
pub fn compare_version_part(a: &[u8], b: &[u8]) -> (r: i8)
    ensures
        r == part_order(a@, b@),
{
    let la = a.len();
    let lb = b.len();
    let mut i: usize = 0;
    let mut j: usize = 0;
    assert(a@.skip(0) =~= a@);
    assert(b@.skip(0) =~= b@);
    while i < la || j < lb
        invariant
            la == a@.len(),
            lb == b@.len(),
            i <= la,
            j <= lb,
            part_order(a@, b@) == part_order(a@.skip(i as int), b@.skip(j as int)),
        decreases la + lb - i - j,
    {
        let ghost i_top = i;
        let ghost j_top = j;
        // Non-digit prefixes.
        assert(part_order(a@.skip(i as int), b@.skip(j as int)) == text_order(
            a@.skip(i as int),
            b@.skip(j as int),
        ));
        while (i < la && !(48 <= a[i] && a[i] <= 57)) || (j < lb && !(48 <= b[j] && b[j] <= 57))
            invariant
                la == a@.len(),
                lb == b@.len(),
                i <= la,
                j <= lb,
                i_top <= i,
                j_top <= j,
                part_order(a@, b@) == text_order(a@.skip(i as int), b@.skip(j as int)),
            decreases la + lb - i - j,
        {
            let an = i < la && !(48 <= a[i] && a[i] <= 57);
            let bn = j < lb && !(48 <= b[j] && b[j] <= 57);
            let ac: i32 = if an {
                byte_rank(a[i])
            } else {
                0
            };
            let bc: i32 = if bn {
                byte_rank(b[j])
            } else {
                0
            };
            proof {
                if an {
                    assert(a@.skip(i as int)[0] == a@[i as int]);
                }
                if bn {
                    assert(b@.skip(j as int)[0] == b@[j as int]);
                }
                if !an && i < la {
                    assert(a@.skip(i as int)[0] == a@[i as int]);
                }
                if !bn && j < lb {
                    assert(b@.skip(j as int)[0] == b@[j as int]);
                }
            }
            if ac != bc {
                return if ac < bc {
                    -1
                } else {
                    1
                };
            }
            if an {
                assert(a@.skip(i as int).drop_first() =~= a@.skip(i + 1));
                i = i + 1;
            }
            if bn {
                assert(b@.skip(j as int).drop_first() =~= b@.skip(j + 1));
                j = j + 1;
            }
        }
        proof {
            if i < la {
                assert(a@.skip(i as int)[0] == a@[i as int]);
            }
            if j < lb {
                assert(b@.skip(j as int)[0] == b@[j as int]);
            }
        }
        let ghost a0 = a@.skip(i as int);
        let ghost b0 = b@.skip(j as int);
        let ghost i_mid = i;
        let ghost j_mid = j;
        assert(part_order(a@, b@) == number_order(a0, b0));
        if i == la && j == lb {
            assert(a0.len() == 0 && b0.len() == 0);
            return 0;
        }
        // Leading zeros.
        while i < la && a[i] == 48
            invariant
                la == a@.len(),
                i_mid <= i <= la,
                skip_zeros(a0) == skip_zeros(a@.skip(i as int)),
            decreases la - i,
        {
            assert(a@.skip(i as int)[0] == a@[i as int]);
            assert(a@.skip(i as int).drop_first() =~= a@.skip(i + 1));
            i = i + 1;
        }
        while j < lb && b[j] == 48
            invariant
                lb == b@.len(),
                j_mid <= j <= lb,
                skip_zeros(b0) == skip_zeros(b@.skip(j as int)),
            decreases lb - j,
        {
            assert(b@.skip(j as int)[0] == b@[j as int]);
            assert(b@.skip(j as int).drop_first() =~= b@.skip(j + 1));
            j = j + 1;
        }
        proof {
            if i < la {
                assert(a@.skip(i as int)[0] == a@[i as int]);
            }
            if j < lb {
                assert(b@.skip(j as int)[0] == b@[j as int]);
            }
        }
        let ghost a1 = a@.skip(i as int);
        let ghost b1 = b@.skip(j as int);
        assert(skip_zeros(a0) == a1);
        assert(skip_zeros(b0) == b1);
        // Digit runs.
        let si = i;
        let sj = j;
        while i < la && 48 <= a[i] && a[i] <= 57
            invariant
                la == a@.len(),
                si <= i <= la,
                a1 == a@.skip(si as int),
                digit_run(a1) == (i - si) + digit_run(a@.skip(i as int)),
            decreases la - i,
        {
            assert(a@.skip(i as int)[0] == a@[i as int]);
            assert(a@.skip(i as int).drop_first() =~= a@.skip(i + 1));
            i = i + 1;
        }
        while j < lb && 48 <= b[j] && b[j] <= 57
            invariant
                lb == b@.len(),
                sj <= j <= lb,
                b1 == b@.skip(sj as int),
                digit_run(b1) == (j - sj) + digit_run(b@.skip(j as int)),
            decreases lb - j,
        {
            assert(b@.skip(j as int)[0] == b@[j as int]);
            assert(b@.skip(j as int).drop_first() =~= b@.skip(j + 1));
            j = j + 1;
        }
        proof {
            if i < la {
                assert(a@.skip(i as int)[0] == a@[i as int]);
            }
            if j < lb {
                assert(b@.skip(j as int)[0] == b@[j as int]);
            }
        }
        let da = i - si;
        let db = j - sj;
        assert(digit_run(a1) == da);
        assert(digit_run(b1) == db);
        proof {
            lemma_digit_run_len(a1);
            lemma_digit_run_len(b1);
            if si == i_mid && i_mid < la {
                assert(a1[0] == a@[i_mid as int]);
            }
            if sj == j_mid && j_mid < lb {
                assert(b1[0] == b@[j_mid as int]);
            }
        }
        assert(i + j > i_top + j_top);
        if da != db {
            return if da < db {
                -1
            } else {
                1
            };
        }
        // Equal-length digit runs, byte-wise.
        let mut k: usize = 0;
        let ghost ra = a1.take(da as int);
        let ghost rb = b1.take(db as int);
        assert(ra.skip(0) =~= ra);
        assert(rb.skip(0) =~= rb);
        assert(part_order(a@, b@) == (if lex(ra, rb) != 0 {
            lex(ra, rb)
        } else {
            part_order(a1.skip(da as int), b1.skip(db as int))
        }));
        while k < da
            invariant
                la == a@.len(),
                lb == b@.len(),
                si + da <= la,
                sj + db <= lb,
                da == db,
                k <= da,
                ra == a@.subrange(si as int, si + da),
                rb == b@.subrange(sj as int, sj + db),
                part_order(a@, b@) == (if lex(ra, rb) != 0 {
                    lex(ra, rb)
                } else {
                    part_order(a1.skip(da as int), b1.skip(db as int))
                }),
                lex(ra, rb) == lex(ra.skip(k as int), rb.skip(k as int)),
            decreases da - k,
        {
            assert(ra.skip(k as int)[0] == a@[si + k]);
            assert(rb.skip(k as int)[0] == b@[sj + k]);
            if a[si + k] != b[sj + k] {
                return if a[si + k] < b[sj + k] {
                    -1
                } else {
                    1
                };
            }
            assert(ra.skip(k as int).drop_first() =~= ra.skip(k + 1));
            assert(rb.skip(k as int).drop_first() =~= rb.skip(k + 1));
            k = k + 1;
        }
        assert(ra.skip(da as int).len() == 0 && rb.skip(db as int).len() == 0);
        assert(lex(ra, rb) == 0);
        assert(a1.skip(da as int) =~= a@.skip(i as int));
        assert(b1.skip(db as int) =~= b@.skip(j as int));
    }
    assert(a@.skip(i as int).len() == 0 && b@.skip(j as int).len() == 0);
    0
}

/// A version split at its epoch: the number before the first `:` when that
/// text is a non-empty run of digits (0 when it does not fit a `u64`), and
/// the rest; else epoch 0 and the whole version.
pub open spec fn epoch_split(v: Seq<char>) -> (nat, Seq<char>) {
    let k = find_class(v, false, seq![':']);
    if k > 0 && forall|j: int| 0 <= j < k ==> is_digit(#[trigger] v[j]) {
        (parse_u64_or_zero(v.take(k)), v.skip(k + 1))
    } else {
        (0, v)
    }
}

/// The upstream version and revision: around the last `-`, else the whole
/// text and an empty revision.
pub open spec fn revision_split(rest: Seq<char>) -> (Seq<char>, Seq<char>) {
    let d = rfind_str(rest, "-"@);
    if d < 0 {
        (rest, seq![])
    } else {
        (rest.take(d), rest.skip(d + 1))
    }
}

/// dpkg's ordering of two versions: -1, 0 or 1.
pub open spec fn version_order(a: Seq<char>, b: Seq<char>) -> int {
    let (ea, ra) = epoch_split(a);
    let (eb, rb) = epoch_split(b);
    if ea != eb {
        sign(ea - eb)
    } else {
        let (ua, va) = revision_split(ra);
        let (ub, vb) = revision_split(rb);
        let c = part_order(encode_utf8(ua), encode_utf8(ub));
        if c != 0 {
            c
        } else {
            part_order(encode_utf8(va), encode_utf8(vb))
        }
    }
}

/// The epoch, upstream version and revision of a version.
fn split_version(v: &str) -> (r: (u64, String, String))
    ensures
        r.0 == epoch_split(v@).0,
        (r.1@, r.2@) == revision_split(epoch_split(v@).1),
{
    let c = chars_of(v);
    let colon: Vec<char> = vec![':'];
    assert(colon@ =~= seq![':']);
    let k = find_class_from(c.as_slice(), 0, false, colon.as_slice());
    assert(c@.skip(0) =~= c@);
    let mut all_digits = k > 0 && k < c.len();
    let mut i: usize = 0;
    while all_digits && i < k
        invariant
            k <= c@.len(),
            i <= k,
            all_digits ==> k > 0 && k < c@.len(),
            all_digits ==> forall|j: int| 0 <= j < i ==> is_digit(#[trigger] c@[j]),
            !all_digits ==> !(k > 0 && k < c@.len() && forall|j: int| 0 <= j < k ==> is_digit(
                #[trigger] c@[j],
            )),
        decreases k - i,
    {
        if !('0' <= c[i] && c[i] <= '9') {
            all_digits = false;
        }
        i = i + 1;
    }
    let (epoch, rest): (u64, &[char]) = if all_digits {
        let e = vstd::slice::slice_subrange(c.as_slice(), 0, k);
        (parse_u64_or_zero_exec(e), vstd::slice::slice_subrange(c.as_slice(), k + 1, c.len()))
    } else {
        (0, c.as_slice())
    };
    let dash = chars_of("-");
    proof {
        reveal_strlit("-");
    }
    match rfind_exec(rest, dash.as_slice()) {
        Some(d) => (
            epoch,
            string_of(vstd::slice::slice_subrange(rest, 0, d)),
            string_of(vstd::slice::slice_subrange(rest, d + 1, rest.len())),
        ),
        None => (epoch, string_of(rest), String::new()),
    }
}

/// The ordering a -1/0/1 comparison denotes.
pub open spec fn ordering_of(x: int) -> Ordering {
    if x < 0 {
        Ordering::Less
    } else if x > 0 {
        Ordering::Greater
    } else {
        Ordering::Equal
    }
}

/// Compare two Debian version strings per dpkg's algorithm (epoch, upstream
/// version, revision; `~` sorts before everything, digits compare
/// numerically).
pub fn debian_version_cmp(a: &str, b: &str) -> (r: Ordering)
    ensures
        r == ordering_of(version_order(a@, b@)),
{
    let (ea, ua, ra) = split_version(a);
    let (eb, ub, rb) = split_version(b);
    if ea < eb {
        return Ordering::Less;
    }
    if ea > eb {
        return Ordering::Greater;
    }
    let c = compare_version_part(ua.as_str().as_bytes(), ub.as_str().as_bytes());
    let d = if c != 0 {
        c
    } else {
        compare_version_part(ra.as_str().as_bytes(), rb.as_str().as_bytes())
    };
    if d < 0 {
        Ordering::Less
    } else if d > 0 {
        Ordering::Greater
    } else {
        Ordering::Equal
    }
}

/// Whether version `a` is newer than `b` in dpkg's order.
pub fn is_newer(a: &str, b: &str) -> (r: bool)
    ensures
        r == (version_order(a@, b@) > 0),
{
    match debian_version_cmp(a, b) {
        Ordering::Greater => true,
        _ => false,
    }
}

// ---------------------------------------------------------------------------
// The order is antisymmetric and every version equals itself
// ---------------------------------------------------------------------------

proof fn lemma_lex_antisymmetric(a: Seq<u8>, b: Seq<u8>)
    ensures
        lex(a, b) == -lex(b, a),
        lex(a, a) == 0,
    decreases a.len(),
{
    if a.len() > 0 && b.len() > 0 && a[0] == b[0] {
        lemma_lex_antisymmetric(a.drop_first(), b.drop_first());
    }
    if a.len() > 0 {
        lemma_lex_antisymmetric(a.drop_first(), a.drop_first());
    }
}

proof fn lemma_part_antisymmetric(a: Seq<u8>, b: Seq<u8>)
    ensures
        part_order(a, b) == -part_order(b, a),
    decreases a.len() + b.len(), 2int,
{
    if !(a.len() == 0 && b.len() == 0) {
        lemma_text_antisymmetric(a, b);
    }
}

proof fn lemma_text_antisymmetric(a: Seq<u8>, b: Seq<u8>)
    ensures
        text_order(a, b) == -text_order(b, a),
    decreases a.len() + b.len(), 1int,
{
    let an = a.len() > 0 && !is_digit_byte(a[0]);
    let bn = b.len() > 0 && !is_digit_byte(b[0]);
    if an || bn {
        let a2 = if an { a.drop_first() } else { a };
        let b2 = if bn { b.drop_first() } else { b };
        lemma_text_antisymmetric(a2, b2);
    } else {
        lemma_number_antisymmetric(a, b);
    }
}

proof fn lemma_number_antisymmetric(a: Seq<u8>, b: Seq<u8>)
    ensures
        number_order(a, b) == -number_order(b, a),
    decreases a.len() + b.len(), 0int,
{
    if !((a.len() == 0 && b.len() == 0) || (a.len() > 0 && !is_digit_byte(a[0])) || (b.len() > 0
        && !is_digit_byte(b[0]))) {
        let a1 = skip_zeros(a);
        let b1 = skip_zeros(b);
        lemma_skip_zeros_len(a);
        lemma_skip_zeros_len(b);
        lemma_digit_run_len(a1);
        lemma_digit_run_len(b1);
        let da = digit_run(a1);
        let db = digit_run(b1);
        lemma_lex_antisymmetric(a1.take(da as int), b1.take(db as int));
        if da == db && lex(a1.take(da as int), b1.take(db as int)) == 0 {
            lemma_part_antisymmetric(a1.skip(da as int), b1.skip(db as int));
        }
    }
}

proof fn lemma_part_reflexive(a: Seq<u8>)
    ensures
        part_order(a, a) == 0,
    decreases a.len(), 2int,
{
    if a.len() > 0 {
        lemma_text_reflexive(a);
    }
}

proof fn lemma_text_reflexive(a: Seq<u8>)
    ensures
        text_order(a, a) == 0,
    decreases a.len(), 1int,
{
    if a.len() > 0 && !is_digit_byte(a[0]) {
        lemma_text_reflexive(a.drop_first());
    } else {
        lemma_number_reflexive(a);
    }
}

proof fn lemma_number_reflexive(a: Seq<u8>)
    ensures
        number_order(a, a) == 0,
    decreases a.len(), 0int,
{
    if a.len() > 0 && is_digit_byte(a[0]) {
        let a1 = skip_zeros(a);
        lemma_skip_zeros_len(a);
        lemma_digit_run_len(a1);
        let da = digit_run(a1);
        lemma_lex_antisymmetric(a1.take(da as int), a1.take(da as int));
        lemma_part_reflexive(a1.skip(da as int));
    }
}

/// Comparing two versions the other way round gives the reverse answer,
/// and every version compares equal to itself: dpkg's order is
/// antisymmetric and reflexive.
pub proof fn lemma_version_order_antisymmetric(a: Seq<char>, b: Seq<char>)
    ensures
        version_order(a, b) == -version_order(b, a),
        version_order(a, a) == 0,
{
    let (ea, ra) = epoch_split(a);
    let (eb, rb) = epoch_split(b);
    let (ua, va) = revision_split(ra);
    let (ub, vb) = revision_split(rb);
    lemma_part_antisymmetric(encode_utf8(ua), encode_utf8(ub));
    lemma_part_antisymmetric(encode_utf8(va), encode_utf8(vb));
    lemma_part_reflexive(encode_utf8(ua));
    lemma_part_reflexive(encode_utf8(va));
}

// ---------------------------------------------------------------------------
// The order is transitive
// ---------------------------------------------------------------------------

proof fn lemma_lex_transitive(a: Seq<u8>, b: Seq<u8>, c: Seq<u8>)
    requires
        lex(a, b) <= 0,
        lex(b, c) <= 0,
    ensures
        lex(a, c) <= 0,
    decreases a.len(),
{
    if a.len() > 0 && b.len() > 0 && c.len() > 0 && a[0] == b[0] && b[0] == c[0] {
        lemma_lex_transitive(a.drop_first(), b.drop_first(), c.drop_first());
    }
}

proof fn lemma_lex_zero(a: Seq<u8>, b: Seq<u8>)
    requires
        lex(a, b) == 0,
    ensures
        a == b,
    decreases a.len(),
{
    if a.len() > 0 && b.len() > 0 {
        lemma_lex_zero(a.drop_first(), b.drop_first());
        assert(a =~= seq![a[0]] + a.drop_first());
        assert(b =~= seq![b[0]] + b.drop_first());
    } else {
        assert(a =~= b);
    }
}

/// What the comparison of two parts looks at first: the weight of a
/// leading non-digit, 0 for a leading digit or an empty part.
spec fn lead_key(a: Seq<u8>) -> int {
    if a.len() > 0 && !is_digit_byte(a[0]) {
        rank(a[0])
    } else {
        0
    }
}

/// A part that does not start with a non-digit.
spec fn digit_or_empty(a: Seq<u8>) -> bool {
    !(a.len() > 0 && !is_digit_byte(a[0]))
}

/// The number comparison unfolded, for parts starting with digits or
/// empty.
spec fn number_steps(a: Seq<u8>, b: Seq<u8>) -> int {
    let a1 = skip_zeros(a);
    let b1 = skip_zeros(b);
    let da = digit_run(a1);
    let db = digit_run(b1);
    if da != db {
        sign(da - db)
    } else {
        let c = lex(a1.take(da as int), b1.take(db as int));
        if c != 0 {
            c
        } else {
            part_order(a1.skip(da as int), b1.skip(db as int))
        }
    }
}

proof fn lemma_number_steps(a: Seq<u8>, b: Seq<u8>)
    requires
        digit_or_empty(a),
        digit_or_empty(b),
    ensures
        number_order(a, b) == number_steps(a, b),
{
    if a.len() == 0 && b.len() == 0 {
        assert(skip_zeros(a) =~= a);
        assert(skip_zeros(b) =~= b);
        assert(a.take(0) =~= a && b.take(0) =~= b && a.skip(0) =~= a && b.skip(0) =~= b);
    }
}

/// What is left of a part after its leading number: no longer, and shorter
/// when the part is not empty.
proof fn lemma_number_rest_len(a: Seq<u8>)
    requires
        digit_or_empty(a),
    ensures
        skip_zeros(a).skip(digit_run(skip_zeros(a)) as int).len() <= a.len(),
        a.len() > 0 ==> skip_zeros(a).skip(digit_run(skip_zeros(a)) as int).len() < a.len(),
{
    lemma_skip_zeros_len(a);
    lemma_digit_run_len(skip_zeros(a));
    if a.len() > 0 && a[0] != 48 {
        assert(skip_zeros(a) == a);
        lemma_digit_run_len(a);
    }
}

proof fn lemma_part_is_text(a: Seq<u8>, b: Seq<u8>)
    ensures
        part_order(a, b) == text_order(a, b),
{
    if a.len() == 0 && b.len() == 0 {
        assert(number_order(a, b) == 0);
    }
}

proof fn lemma_part_transitive(a: Seq<u8>, b: Seq<u8>, c: Seq<u8>)
    requires
        part_order(a, b) <= 0,
        part_order(b, c) <= 0,
    ensures
        part_order(a, c) <= 0,
    decreases a.len() + b.len() + c.len(), 2int,
{
    lemma_part_is_text(a, b);
    lemma_part_is_text(b, c);
    lemma_part_is_text(a, c);
    lemma_text_transitive(a, b, c);
}

proof fn lemma_text_transitive(a: Seq<u8>, b: Seq<u8>, c: Seq<u8>)
    requires
        text_order(a, b) <= 0,
        text_order(b, c) <= 0,
    ensures
        text_order(a, c) <= 0,
    decreases a.len() + b.len() + c.len(), 1int,
{
    let ka = lead_key(a);
    let kb = lead_key(b);
    let kc = lead_key(c);
    if ka == kb && kb == kc {
        if ka == 0 {
            lemma_number_transitive(a, b, c);
        } else {
            lemma_text_transitive(a.drop_first(), b.drop_first(), c.drop_first());
        }
    }
}

proof fn lemma_number_transitive(a: Seq<u8>, b: Seq<u8>, c: Seq<u8>)
    requires
        digit_or_empty(a),
        digit_or_empty(b),
        digit_or_empty(c),
        number_order(a, b) <= 0,
        number_order(b, c) <= 0,
    ensures
        number_order(a, c) <= 0,
    decreases a.len() + b.len() + c.len(), 0int,
{
    if a.len() == 0 && b.len() == 0 && c.len() == 0 {
        return;
    }
    lemma_number_steps(a, b);
    lemma_number_steps(b, c);
    lemma_number_steps(a, c);
    let a1 = skip_zeros(a);
    let b1 = skip_zeros(b);
    let c1 = skip_zeros(c);
    let da = digit_run(a1);
    let db = digit_run(b1);
    let dc = digit_run(c1);
    if da == db && db == dc {
        let x = a1.take(da as int);
        let y = b1.take(db as int);
        let z = c1.take(dc as int);
        lemma_lex_antisymmetric(x, y);
        lemma_lex_antisymmetric(y, z);
        lemma_lex_antisymmetric(x, z);
        if lex(x, y) != 0 {
            if lex(y, z) != 0 {
                lemma_lex_transitive(x, y, z);
                if lex(x, z) == 0 {
                    lemma_lex_zero(x, z);
                }
            } else {
                lemma_lex_zero(y, z);
            }
        } else {
            lemma_lex_zero(x, y);
            if lex(y, z) == 0 {
                lemma_lex_zero(y, z);
                lemma_number_rest_len(a);
                lemma_number_rest_len(b);
                lemma_number_rest_len(c);
                lemma_part_transitive(a1.skip(da as int), b1.skip(db as int), c1.skip(dc as int));
            }
        }
    }
}

/// Transitivity with the strict and the equal cases, from transitivity
/// and antisymmetry.
proof fn lemma_part_chain(a: Seq<u8>, b: Seq<u8>, c: Seq<u8>)
    requires
        part_order(a, b) <= 0,
        part_order(b, c) <= 0,
    ensures
        part_order(a, c) <= 0,
        part_order(a, b) < 0 ==> part_order(a, c) < 0,
        part_order(b, c) < 0 ==> part_order(a, c) < 0,
        part_order(a, b) == 0 && part_order(b, c) == 0 ==> part_order(a, c) == 0,
{
    lemma_part_transitive(a, b, c);
    lemma_part_antisymmetric(a, b);
    lemma_part_antisymmetric(b, c);
    lemma_part_antisymmetric(a, c);
    if part_order(a, c) == 0 {
        // With a and c equal, c ≤ a ≤ b gives c ≤ b, and b ≤ c ≤ a gives
        // b ≤ a: neither step is strict.
        lemma_part_transitive(c, a, b);
        lemma_part_transitive(b, c, a);
    }
    if part_order(a, b) == 0 && part_order(b, c) == 0 {
        // c ≤ b ≤ a, so a and c are equal.
        lemma_part_transitive(c, b, a);
    }
}

/// dpkg's order is transitive: a version at most a second one, itself at
/// most a third, is at most the third. With antisymmetry this makes it a
/// total preorder.
pub proof fn lemma_version_order_transitive(a: Seq<char>, b: Seq<char>, c: Seq<char>)
    requires
        version_order(a, b) <= 0,
        version_order(b, c) <= 0,
    ensures
        version_order(a, c) <= 0,
{
    let (ea, ra) = epoch_split(a);
    let (eb, rb) = epoch_split(b);
    let (ec, rc) = epoch_split(c);
    if ea == eb && eb == ec {
        let (ua, va) = revision_split(ra);
        let (ub, vb) = revision_split(rb);
        let (uc, vc) = revision_split(rc);
        let (xa, xb, xc) = (encode_utf8(ua), encode_utf8(ub), encode_utf8(uc));
        lemma_part_chain(xa, xb, xc);
        if part_order(xa, xb) == 0 && part_order(xb, xc) == 0 {
            lemma_part_chain(encode_utf8(va), encode_utf8(vb), encode_utf8(vc));
        }
    }
}

} // verus!
