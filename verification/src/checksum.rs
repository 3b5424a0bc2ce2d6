//! Content digests: MD5 and SHA-256 over whole byte sequences, and the
//! normalisation of a remote entity tag into the same shape.

use vstd::prelude::*;
use vstd::slice::slice_subrange;
use vstd::string::*;
use vstd::utf8::encode_utf8;
use md5::Md5;
use sha2::Sha256;
use sha2::Digest as HashFunction;
use crate::store::StoreError;

verus! {

/// The digest algorithms the library knows.
#[derive(Clone, Copy, Debug, PartialEq, Eq, Structural)]
pub enum Algorithm {
    Md5,
    Sha256,
}

/// The number of bytes in a full digest of `algorithm`.
pub open spec fn digest_len(algorithm: Algorithm) -> nat {
    match algorithm {
        Algorithm::Md5 => 16,
        Algorithm::Sha256 => 32,
    }
}

/// The MD5 digest of a byte sequence, as the `md-5` crate computes it.
pub uninterp spec fn md5_of(data: Seq<u8>) -> Seq<u8>;

/// The SHA-256 digest of a byte sequence, as the `sha2` crate computes it.
pub uninterp spec fn sha256_of(data: Seq<u8>) -> Seq<u8>;

/// The digest of `data` under `algorithm`.
pub open spec fn digest_of(algorithm: Algorithm, data: Seq<u8>) -> Seq<u8> {
    match algorithm {
        Algorithm::Md5 => md5_of(data),
        Algorithm::Sha256 => sha256_of(data),
    }
}

/// Calls `md5::Md5::digest` (the `Digest::digest` method of the `md-5` crate)
/// on the whole input. Trusted: the result is the MD5 digest of the input,
/// and it has the 16 bytes of the crate's fixed output size.
#[verifier::external_body]
fn md5_bytes(data: &[u8]) -> (out: Vec<u8>)
    ensures
        out@ == md5_of(data@),
        out@.len() == 16,
{
    Md5::digest(data).to_vec()
}

/// Calls `sha2::Sha256::digest` (the `Digest::digest` method of the `sha2`
/// crate) on the whole input. Trusted: the result is the SHA-256 digest of
/// the input, and it has the 32 bytes of the crate's fixed output size.
#[verifier::external_body]
fn sha256_bytes(data: &[u8]) -> (out: Vec<u8>)
    ensures
        out@ == sha256_of(data@),
        out@.len() == 32,
{
    Sha256::digest(data).to_vec()
}

/// Whether two byte sequences are the same.
pub fn same_bytes(a: &Vec<u8>, b: &Vec<u8>) -> (same: bool)
    ensures
        same == (a@ == b@),
{
    if a.len() != b.len() {
        return false;
    }
    let mut i: usize = 0;
    while i < a.len()
        invariant
            i <= a@.len(),
            a@.len() == b@.len(),
            forall|k: int| 0 <= k < i ==> a@[k] == b@[k],
        decreases a@.len() - i,
    {
        if a[i] != b[i] {
            return false;
        }
        i += 1;
    }
    assert(a@ =~= b@);
    true
}

/// A digest: the algorithm and its full output.
#[derive(Clone, Debug, PartialEq, Eq)]
pub struct Digest {
    pub algorithm: Algorithm,
    pub bytes: Vec<u8>,
}

impl Digest {
    /// A digest is well formed when it has every byte of its algorithm's
    /// output: never a shortened one.
    pub open spec fn wf(&self) -> bool {
        self.bytes@.len() == digest_len(self.algorithm)
    }

    /// Checks content against the digest: `ChecksumMismatch` exactly when
    /// the digest of `data` under the same algorithm is another one.
    pub fn verify(&self, data: &[u8]) -> (r: Result<(), StoreError>)
        ensures
            r == (if self.bytes@ == digest_of(self.algorithm, data@) {
                Ok::<(), StoreError>(())
            } else {
                Err::<(), StoreError>(StoreError::ChecksumMismatch)
            }),
    {
        let actual = compute_digest(self.algorithm, data);
        if same_bytes(&self.bytes, &actual.bytes) {
            Ok(())
        } else {
            Err(StoreError::ChecksumMismatch)
        }
    }

    /// The number of bytes held.
    pub fn len(&self) -> (n: usize)
        ensures
            n == self.bytes@.len(),
    {
        self.bytes.len()
    }
}

/// The value of a hexadecimal digit, given as its ASCII code.
pub open spec fn hex_digit_value(b: u8) -> Option<u8> {
    if 48 <= b <= 57 {
        Some((b - 48) as u8)
    } else if 97 <= b <= 102 {
        Some((b - 87) as u8)
    } else if 65 <= b <= 70 {
        Some((b - 55) as u8)
    } else {
        None
    }
}

/// Whether every byte of `s` is a hexadecimal digit.
pub open spec fn is_hex(s: Seq<u8>) -> bool {
    forall|i: int| 0 <= i < s.len() ==> (#[trigger] hex_digit_value(s[i])) is Some
}

/// The bytes that the digit pairs of `s` spell.
pub open spec fn hex_decoded(s: Seq<u8>) -> Seq<u8> {
    Seq::new(
        s.len() / 2,
        |i: int|
            (hex_digit_value(s[2 * i]).unwrap() * 16 + hex_digit_value(s[2 * i + 1]).unwrap()) as u8,
    )
}

/// An entity tag without the double quotes that surround it, if they do.
pub open spec fn unquoted(tag: Seq<u8>) -> Seq<u8> {
    if tag.len() >= 2 && tag[0] == 34 && tag.last() == 34 {
        tag.subrange(1, tag.len() - 1)
    } else {
        tag
    }
}

/// The digest that stands for an entity tag. A tag that spells 16 or 32
/// bytes in hexadecimal is that MD5 or SHA-256 digest; any other tag is
/// opaque, and the MD5 digest of its own bytes stands for it.
pub open spec fn entity_tag_digest(tag: Seq<u8>) -> (Algorithm, Seq<u8>) {
    let t = unquoted(tag);
    if t.len() == 32 && is_hex(t) {
        (Algorithm::Md5, hex_decoded(t))
    } else if t.len() == 64 && is_hex(t) {
        (Algorithm::Sha256, hex_decoded(t))
    } else {
        (Algorithm::Md5, md5_of(tag))
    }
}

/// Reads one hexadecimal digit.
pub fn hex_digit(b: u8) -> (v: Option<u8>)
    ensures
        v == hex_digit_value(b),
        v is Some ==> v->Some_0 < 16,
{
    if 48 <= b && b <= 57 {
        Some(b - 48)
    } else if 97 <= b && b <= 102 {
        Some(b - 87)
    } else if 65 <= b && b <= 70 {
        Some(b - 55)
    } else {
        None
    }
}

/// Decodes hexadecimal digits, two to a byte. Fails where their number is
/// odd or one of them is no hexadecimal digit.
pub fn decode_hex(text: &[u8]) -> (out: Option<Vec<u8>>)
    ensures
        out is Some <==> text@.len() % 2 == 0 && is_hex(text@),
        out is Some ==> out->Some_0@ == hex_decoded(text@),
{
    let n = text.len();
    if n % 2 != 0 {
        return None;
    }
    let mut bytes: Vec<u8> = Vec::new();
    let mut i: usize = 0;
    while i < n
        invariant
            i <= n,
            n == text@.len(),
            i % 2 == 0,
            n % 2 == 0,
            bytes@.len() == i / 2,
            forall|k: int| 0 <= k < i ==> (#[trigger] hex_digit_value(text@[k])) is Some,
            forall|k: int| 0 <= k < bytes@.len() ==> bytes@[k] == hex_decoded(text@)[k],
        decreases n - i,
    {
        let hi = hex_digit(text[i]);
        let lo = hex_digit(text[i + 1]);
        match (hi, lo) {
            (Some(h), Some(l)) => {
                bytes.push(h * 16 + l);
            },
            _ => {
                assert(!is_hex(text@));
                return None;
            },
        }
        i += 2;
    }
    assert(is_hex(text@));
    assert(bytes@ =~= hex_decoded(text@));
    Some(bytes)
}

impl Digest {
    /// Brings the entity tag of a remote object into the shape of a digest.
    ///
    /// The value may differ from the digest that a local backend reports for
    /// the same content: a remote backend need not reveal a content hash.
    pub fn from_entity_tag(tag: &str) -> (d: Digest)
        ensures
            d.wf(),
            d.algorithm == entity_tag_digest(encode_utf8(tag@)).0,
            d.bytes@ == entity_tag_digest(encode_utf8(tag@)).1,
    {
        let raw = tag.as_bytes();
        let n = raw.len();
        let quoted = n >= 2 && raw[0] == 34 && raw[n - 1] == 34;
        let from: usize = if quoted { 1 } else { 0 };
        let to: usize = if quoted { n - 1 } else { n };
        let digits = slice_subrange(raw, from, to);
        assert(digits@ =~= unquoted(raw@));
        if to - from == 32 || to - from == 64 {
            if let Some(bytes) = decode_hex(digits) {
                let algorithm = if to - from == 32 {
                    Algorithm::Md5
                } else {
                    Algorithm::Sha256
                };
                return Digest { algorithm, bytes };
            }
        }
        Digest { algorithm: Algorithm::Md5, bytes: md5_bytes(raw) }
    }
}

/// The same content has the same digest, of the algorithm's full length.
pub proof fn lemma_digest_deterministic(a: Digest, b: Digest, data: Seq<u8>)
    requires
        a.wf(),
        b.wf(),
        a.algorithm == b.algorithm,
        a.bytes@ == digest_of(a.algorithm, data),
        b.bytes@ == digest_of(b.algorithm, data),
    ensures
        a.bytes@ == b.bytes@,
        a.bytes@.len() == digest_len(a.algorithm),
        a.bytes@.len() == 16 || a.bytes@.len() == 32,
{
}

/// The chunks joined in their order.
pub open spec fn joined(chunks: Seq<Vec<u8>>) -> Seq<u8>
    decreases chunks.len(),
{
    if chunks.len() == 0 {
        Seq::<u8>::empty()
    } else {
        joined(chunks.drop_last()) + chunks.last()@
    }
}

/// Computes the digest of content that comes in chunks: every chunk is
/// taken, in the order given, and the digest is that of the chunks joined.
pub fn digest_chunks(algorithm: Algorithm, chunks: &Vec<Vec<u8>>) -> (d: Digest)
    ensures
        d.wf(),
        d.algorithm == algorithm,
        d.bytes@ == digest_of(algorithm, joined(chunks@)),
{
    let mut content: Vec<u8> = Vec::new();
    let mut i: usize = 0;
    assert(chunks@.take(0) =~= Seq::<Vec<u8>>::empty());
    while i < chunks.len()
        invariant
            i <= chunks@.len(),
            content@ == joined(chunks@.take(i as int)),
        decreases chunks@.len() - i,
    {
        let ghost before = content@;
        content.extend_from_slice(chunks[i].as_slice());
        proof {
            let upto = chunks@.take(i + 1);
            assert(upto.drop_last() =~= chunks@.take(i as int));
            assert(upto.last() == chunks@[i as int]);
            assert(content@ =~= before + chunks@[i as int]@);
        }
        i += 1;
    }
    assert(chunks@.take(chunks@.len() as int) =~= chunks@);
    compute_digest(algorithm, content.as_slice())
}

/// Computes the digest of all of `data`.
pub fn compute_digest(algorithm: Algorithm, data: &[u8]) -> (d: Digest)
    ensures
        d.wf(),
        d.algorithm == algorithm,
        d.bytes@ == digest_of(algorithm, data@),
{
    let bytes = match algorithm {
        Algorithm::Md5 => md5_bytes(data),
        Algorithm::Sha256 => sha256_bytes(data),
    };
    Digest { algorithm, bytes }
}

} // verus!
