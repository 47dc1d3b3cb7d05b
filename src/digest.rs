//! Content hashes of carved bytes, and their lowercase hex form.
use vstd::prelude::*;
use sha2::Digest;

verus! {

/// The MD5 digest of a byte sequence.
pub uninterp spec fn md5_of(data: Seq<u8>) -> Seq<u8>;

/// The SHA-256 digest of a byte sequence.
pub uninterp spec fn sha256_of(data: Seq<u8>) -> Seq<u8>;

/// The lowercase hex digit for `v < 16`.
pub open spec fn hex_digit(v: u8) -> char {
    if v < 10 {
        (v + 48) as char
    } else {
        (v + 87) as char
    }
}

/// Two lowercase hex digits per byte, most significant nibble first.
pub open spec fn hex_chars(b: Seq<u8>) -> Seq<char>
    decreases b.len(),
{
    if b.len() == 0 {
        Seq::empty()
    } else {
        seq![hex_digit(b[0] / 16), hex_digit(b[0] % 16)] + hex_chars(b.drop_first())
    }
}

/// Relies on md5::compute, which returns the 16-byte MD5 digest of its input.
#[verifier::external_body]
fn md5_digest(data: &[u8]) -> (r: Vec<u8>)
    ensures
        r@ == md5_of(data@),
        r@.len() == 16,
{
    md5::compute(data).0.to_vec()
}

/// Relies on sha2::Sha256::digest, which returns the 32-byte SHA-256 digest of its input.
#[verifier::external_body]
fn sha256_digest(data: &[u8]) -> (r: Vec<u8>)
    ensures
        r@ == sha256_of(data@),
        r@.len() == 32,
{
    sha2::Sha256::digest(data).to_vec()
}

/// Relies on hex::encode, which writes each byte as two lowercase hex digits.
#[verifier::external_body]
fn hex_encode(b: &[u8]) -> (r: String)
    ensures
        r@ == hex_chars(b@),
{
    hex::encode(b)
}

/// Lowercase hex of the MD5 digest of `data`.
pub fn md5_hex(data: &[u8]) -> (r: String)
    ensures
        r@ == hex_chars(md5_of(data@)),
{
    let d = md5_digest(data);
    hex_encode(d.as_slice())
}

/// Lowercase hex of the SHA-256 digest of `data`.
pub fn sha256_hex(data: &[u8]) -> (r: String)
    ensures
        r@ == hex_chars(sha256_of(data@)),
{
    let d = sha256_digest(data);
    hex_encode(d.as_slice())
}

/// Value of an ASCII hex digit of either case.
pub open spec fn hex_val(c: u8) -> Option<u8> {
    if 48 <= c <= 57 {
        Some((c - 48) as u8)
    } else if 97 <= c <= 102 {
        Some((c - 87) as u8)
    } else if 65 <= c <= 70 {
        Some((c - 55) as u8)
    } else {
        None
    }
}

/// The bytes that a text of hex digit pairs spells, if it is one.
pub open spec fn hex_decoded(b: Seq<u8>) -> Option<Seq<u8>>
    decreases b.len(),
{
    if b.len() % 2 != 0 {
        None
    } else if b.len() == 0 {
        Some(Seq::empty())
    } else {
        match (hex_val(b[0]), hex_val(b[1]), hex_decoded(b.subrange(2, b.len() as int))) {
            (Some(hi), Some(lo), Some(rest)) => Some(seq![(hi * 16 + lo) as u8] + rest),
            _ => None,
        }
    }
}

/// Relies on hex::decode, which fails on odd length or a non-hex-digit
/// byte and otherwise turns each pair of digits (either case) into a byte.
#[verifier::external_body]
pub(crate) fn hex_decode(text: &[u8]) -> (r: Option<Vec<u8>>)
    ensures
        match hex_decoded(text@) {
            None => r is None,
            Some(v) => r matches Some(x) && x@ == v,
        },
{
    hex::decode(text).ok()
}

/// Big-endian bytes of the low `k` bytes of `v`.
pub open spec fn be_bytes(v: nat, k: nat) -> Seq<u8>
    decreases k,
{
    if k == 0 {
        Seq::empty()
    } else {
        be_bytes(v / 256, (k - 1) as nat).push((v % 256) as u8)
    }
}

/// Sixteen lowercase hex digits of `v`, zero-padded.
pub open spec fn hex16(v: u64) -> Seq<char> {
    hex_chars(be_bytes(v as nat, 8))
}

/// Writes `v` as sixteen zero-padded lowercase hex digits.
pub fn to_hex16(v: u64) -> (r: String)
    ensures
        r@ == hex16(v),
{
    let mut bytes: Vec<u8> = Vec::new();
    let mut x: u64 = v;
    let mut i: usize = 0;
    while i < 8
        invariant
            i <= 8,
            bytes@.len() == i,
            be_bytes(v as nat, 8) == be_bytes(x as nat, (8 - i) as nat) + bytes@,
        decreases 8 - i,
    {
        let ghost before = bytes@;
        let ghost k = (8 - i - 1) as nat;
        proof {
            assert(be_bytes(x as nat, (k + 1) as nat) == be_bytes((x / 256) as nat, k).push(
                (x % 256) as u8,
            ));
        }
        bytes.insert(0, (x % 256) as u8);
        proof {
            assert(be_bytes((x / 256) as nat, k).push((x % 256) as u8) + before =~= be_bytes(
                (x / 256) as nat,
                k,
            ) + bytes@);
        }
        x = x / 256;
        i = i + 1;
    }
    proof {
        assert(be_bytes(v as nat, 8) =~= bytes@);
    }
    hex_encode(bytes.as_slice())
}

} // verus!
