//! Message digests (MD5, SHA-1, SHA-256) of byte strings and their
//! lower-case hexadecimal form, as the `.dsc`, `PKGBUILD` and SBOM files
//! list them.
use vstd::prelude::*;

use sha2::Digest;

verus! {

/// The MD5 digest of `data` (RFC 1321), as the `md5` crate computes it.
pub uninterp spec fn md5_digest(data: Seq<u8>) -> Seq<u8>;

/// The SHA-1 digest of `data` (FIPS 180-4), as the `sha1` crate computes it.
pub uninterp spec fn sha1_digest(data: Seq<u8>) -> Seq<u8>;

/// The SHA-256 digest of `data` (FIPS 180-4), as the `sha2` crate computes
/// it.
pub uninterp spec fn sha256_digest(data: Seq<u8>) -> Seq<u8>;

/// `md5::compute`: the 16-byte MD5 digest of `data`. The contract names the
/// digest and states its length (the crate returns a `[u8; 16]`); the
/// algorithm itself is not restated.
#[verifier::external_body]
pub(crate) fn md5_of(data: &[u8]) -> (r: Vec<u8>)
    ensures
        r@ == md5_digest(data@),
        r@.len() == 16,
{
    md5::compute(data).0.to_vec()
}

/// `sha1::Sha1::digest`: the 20-byte SHA-1 digest of `data`. The contract
/// names the digest and states its length (the crate's output array has 20
/// bytes); the algorithm itself is not restated.
#[verifier::external_body]
pub(crate) fn sha1_of(data: &[u8]) -> (r: Vec<u8>)
    ensures
        r@ == sha1_digest(data@),
        r@.len() == 20,
{
    sha1::Sha1::digest(data).to_vec()
}

/// `sha2::Sha256::digest`: the 32-byte SHA-256 digest of `data`. The
/// contract names the digest and states its length (the crate's output
/// array has 32 bytes); the algorithm itself is not restated.
#[verifier::external_body]
pub(crate) fn sha256_of(data: &[u8]) -> (r: Vec<u8>)
    ensures
        r@ == sha256_digest(data@),
        r@.len() == 32,
{
    sha2::Sha256::digest(data).to_vec()
}

/// The lower-case hexadecimal digit of `n` (below 16).
pub open spec fn hex_digit(n: u8) -> char {
    if n < 10 {
        (48 + n) as char
    } else {
        (87 + n) as char
    }
}

/// Lower-case hexadecimal text of `bytes`, two digits per byte, high nibble
/// first (`hex::encode`, `format!("{:x}")` of a digest).
pub open spec fn hex_lower(bytes: Seq<u8>) -> Seq<char>
    decreases bytes.len(),
{
    if bytes.len() == 0 {
        Seq::empty()
    } else {
        hex_lower(bytes.drop_last()) + seq![
            hex_digit(bytes.last() / 16),
            hex_digit(bytes.last() % 16),
        ]
    }
}

fn hex_digit_exec(n: u8) -> (c: char)
    requires
        n < 16,
    ensures
        c == hex_digit(n),
{
    if n < 10 {
        (48 + n) as char
    } else {
        (87 + n) as char
    }
}

/// The lower-case hexadecimal text of `bytes`.
pub fn hex_encode(bytes: &[u8]) -> (r: String)
    ensures
        r@ == hex_lower(bytes@),
{
    let mut out: Vec<char> = Vec::new();
    let mut i: usize = 0;
    while i < bytes.len()
        invariant
            i <= bytes.len(),
            out@ == hex_lower(bytes@.take(i as int)),
        decreases bytes.len() - i,
    {
        assert(bytes@.take(i + 1).drop_last() =~= bytes@.take(i as int));
        assert(bytes@.take(i + 1).last() == bytes@[i as int]);
        let b = bytes[i];
        out.push(hex_digit_exec(b / 16));
        out.push(hex_digit_exec(b % 16));
        assert(out@ =~= hex_lower(bytes@.take(i + 1)));
        i = i + 1;
    }
    assert(bytes@.take(bytes.len() as int) =~= bytes@);
    crate::text::string_of(out.as_slice())
}

/// Lower-case hexadecimal MD5 of `data`.
pub fn md5_hex(data: &[u8]) -> (r: String)
    ensures
        r@ == hex_lower(md5_digest(data@)),
{
    let d = md5_of(data);
    hex_encode(d.as_slice())
}

/// Lower-case hexadecimal SHA-1 of `data`.
pub fn sha1_hex(data: &[u8]) -> (r: String)
    ensures
        r@ == hex_lower(sha1_digest(data@)),
{
    let d = sha1_of(data);
    hex_encode(d.as_slice())
}

/// Lower-case hexadecimal SHA-256 of `data`.
pub fn sha256_hex(data: &[u8]) -> (r: String)
    ensures
        r@ == hex_lower(sha256_digest(data@)),
{
    let d = sha256_of(data);
    hex_encode(d.as_slice())
}

/// Hexadecimal text has two lower-case hex digits per byte.
pub proof fn lemma_hex_lower_shape(bytes: Seq<u8>)
    ensures
        hex_lower(bytes).len() == 2 * bytes.len(),
        forall|i: int|
            0 <= i < hex_lower(bytes).len() ==> {
                let c = #[trigger] hex_lower(bytes)[i];
                ('0' <= c && c <= '9') || ('a' <= c && c <= 'f')
            },
    decreases bytes.len(),
{
    if bytes.len() > 0 {
        lemma_hex_lower_shape(bytes.drop_last());
        let a = hex_lower(bytes.drop_last());
        let hi = hex_digit(bytes.last() / 16);
        let lo = hex_digit(bytes.last() % 16);
        assert forall|i: int| 0 <= i < hex_lower(bytes).len() implies {
            let c = #[trigger] hex_lower(bytes)[i];
            ('0' <= c && c <= '9') || ('a' <= c && c <= 'f')
        } by {
            if i < a.len() {
                assert(hex_lower(bytes)[i] == a[i]);
            } else if i == a.len() {
                assert(hex_lower(bytes)[i] == hi);
            } else {
                assert(hex_lower(bytes)[i] == lo);
            }
        }
    }
}

} // verus!
