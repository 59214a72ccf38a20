//! Content digests: SHA-256 over in-memory bytes, printed as lowercase hex.

use vstd::prelude::*;

verus! {

/// The SHA-256 digest (32 raw bytes) of a byte string. Named, not spelled
/// out: the algorithm is the outside crate's concern; all this library needs
/// is that the digest is a function of the bytes alone.
pub uninterp spec fn sha256_of(data: Seq<u8>) -> Seq<u8>;

/// Relies on sha2's `Sha256::digest`: the SHA-256 digest of the input, 32
/// bytes long, depending on the input bytes alone.
#[verifier::external_body]
fn sha256_digest(data: &Vec<u8>) -> (r: Vec<u8>)
    ensures
        r@ == sha256_of(data@),
        r@.len() == 32,
{
    <sha2::Sha256 as sha2::Digest>::digest(data.as_slice()).to_vec()
}

/// The lowercase hex digit for a value below 16.
pub open spec fn hex_digit(n: u8) -> u8 {
    if n < 10 {
        (48 + n) as u8
    } else {
        (87 + n) as u8
    }
}

/// Lowercase hex spelling of a byte string: two digits per byte, high
/// nibble first.
pub open spec fn hex_of_bytes(s: Seq<u8>) -> Seq<u8>
    decreases s.len(),
{
    if s.len() == 0 {
        Seq::empty()
    } else {
        hex_of_bytes(s.drop_last()) + seq![
            hex_digit(s.last() / 16),
            hex_digit((s.last() % 16) as u8),
        ]
    }
}

/// Lowercase hex spelling of a byte string.
pub fn to_hex(s: &Vec<u8>) -> (r: Vec<u8>)
    ensures
        r@ == hex_of_bytes(s@),
        r@.len() == 2 * s@.len(),
{
    let mut out: Vec<u8> = Vec::new();
    let n = s.len();
    for i in 0..n
        invariant
            n == s.len(),
            out@ =~= hex_of_bytes(s@.take(i as int)),
            out@.len() == 2 * i,
    {
        proof {
            lemma_hex_len(s@.take(i as int));
            assert(s@.take(i + 1).drop_last() =~= s@.take(i as int));
            assert(s@.take(i + 1).last() == s@[i as int]);
        }
        let b = s[i];
        let hi = b / 16;
        let lo = b % 16;
        if hi < 10 {
            out.push(48 + hi);
        } else {
            out.push(87 + hi);
        }
        if lo < 10 {
            out.push(48 + lo);
        } else {
            out.push(87 + lo);
        }
        proof {
            assert(out@ =~= hex_of_bytes(s@.take(i + 1)));
        }
    }
    proof {
        assert(s@.take(n as int) =~= s@);
        lemma_hex_len(s@);
    }
    out
}

proof fn lemma_hex_len(s: Seq<u8>)
    ensures
        hex_of_bytes(s).len() == 2 * s.len(),
    decreases s.len(),
{
    if s.len() > 0 {
        lemma_hex_len(s.drop_last());
    }
}

/// The digest an installed copy is checked under: SHA-256, as lowercase hex.
pub open spec fn spec_sha256_hex(data: Seq<u8>) -> Seq<u8> {
    hex_of_bytes(sha256_of(data))
}

/// Computes the lowercase-hex SHA-256 digest of a byte string, as recorded
/// in the release manifest and compared against local copies.
pub fn sha256_hex(data: &Vec<u8>) -> (r: Vec<u8>)
    ensures
        r@ == spec_sha256_hex(data@),
        r@.len() == 64,
{
    let d = sha256_digest(data);
    proof {
        lemma_hex_len(d@);
    }
    to_hex(&d)
}

/// Digest verification is deterministic: identical bytes always yield the
/// identical digest, in whatever process the digest is computed.
pub proof fn lemma_digest_deterministic(a: Seq<u8>, b: Seq<u8>)
    requires
        a == b,
    ensures
        spec_sha256_hex(a) == spec_sha256_hex(b),
{
}

} // verus!
