use filestore::checksum::{
    compute_digest, decode_hex, digest_chunks, hex_digit, same_bytes, Algorithm, Digest,
};
use filestore::store::StoreError;
use filestore::filesystemstore::FileSystemStore;
use filestore::s3store::S3Store;

fn unhex(text: &str) -> Vec<u8> {
    decode_hex(text.as_bytes()).unwrap()
}

#[test]
fn sha256_of_hello_is_the_full_digest() {
    let d = compute_digest(Algorithm::Sha256, b"hello");
    assert_eq!(d.algorithm, Algorithm::Sha256);
    assert_eq!(d.bytes.len(), 32);
    assert_eq!(d.len(), 32);
    assert_eq!(
        d.bytes,
        unhex("2cf24dba5fb0a30e26e83b2ac5b9e29e1b161e5c1fa7425e73043362938b9824")
    );
}

#[test]
fn md5_of_hello_is_the_full_digest() {
    let d = compute_digest(Algorithm::Md5, b"hello");
    assert_eq!(d.algorithm, Algorithm::Md5);
    assert_eq!(d.bytes.len(), 16);
    assert_eq!(d.bytes, unhex("5d41402abc4b2a76b9719d911017c592"));
    assert_ne!(d.bytes[15], 0);
}

#[test]
fn digests_of_no_bytes() {
    let m = compute_digest(Algorithm::Md5, b"");
    assert_eq!(m.bytes, unhex("d41d8cd98f00b204e9800998ecf8427e"));
    let s = compute_digest(Algorithm::Sha256, b"");
    assert_eq!(
        s.bytes,
        unhex("e3b0c44298fc1c149afbf4c8996fb92427ae41e4649b934ca495991b7852b855")
    );
}

#[test]
fn same_content_gives_the_same_digest() {
    let data = vec![7u8; 4096];
    let a = compute_digest(Algorithm::Sha256, &data);
    let b = compute_digest(Algorithm::Sha256, &data);
    assert_eq!(a, b);
    let c = compute_digest(Algorithm::Md5, &data);
    let d = compute_digest(Algorithm::Md5, &data);
    assert_eq!(c, d);
    assert_ne!(a.bytes, compute_digest(Algorithm::Sha256, &data[1..]).bytes);
}

#[test]
fn put_output_is_sha256_of_what_was_stored() {
    let out = FileSystemStore::put_output(b"hello");
    assert_eq!(out.digest, compute_digest(Algorithm::Sha256, b"hello"));
    assert_eq!(out.digest.bytes.len(), 32);
}

#[test]
fn file_md5sum_is_md5_of_the_content() {
    let out = FileSystemStore::file_md5sum(b"hello");
    assert_eq!(out.digest.algorithm, Algorithm::Md5);
    assert_eq!(out.digest.bytes, unhex("5d41402abc4b2a76b9719d911017c592"));
}

#[test]
fn hex_digits() {
    assert_eq!(hex_digit(b'0'), Some(0));
    assert_eq!(hex_digit(b'9'), Some(9));
    assert_eq!(hex_digit(b'a'), Some(10));
    assert_eq!(hex_digit(b'f'), Some(15));
    assert_eq!(hex_digit(b'A'), Some(10));
    assert_eq!(hex_digit(b'F'), Some(15));
    assert_eq!(hex_digit(b'g'), None);
    assert_eq!(hex_digit(b'/'), None);
    assert_eq!(hex_digit(b':'), None);
    assert_eq!(hex_digit(b'@'), None);
    assert_eq!(hex_digit(b'G'), None);
    assert_eq!(hex_digit(b'`'), None);
}

#[test]
fn decode_hex_reads_pairs() {
    assert_eq!(decode_hex(b"00ff10Ab"), Some(vec![0x00, 0xff, 0x10, 0xab]));
    assert_eq!(decode_hex(b"0a0b"), Some(vec![0x0a, 0x0b]));
    assert_eq!(decode_hex(b""), Some(vec![]));
    assert_eq!(decode_hex(b"abc"), None);
    assert_eq!(decode_hex(b"0g"), None);
    assert_eq!(decode_hex(b"g0"), None);
    assert_eq!(decode_hex(b"\"0a\""), None);
}

#[test]
fn entity_tag_that_spells_an_md5() {
    let d = Digest::from_entity_tag("\"5d41402abc4b2a76b9719d911017c592\"");
    assert_eq!(d.algorithm, Algorithm::Md5);
    assert_eq!(d.bytes, unhex("5d41402abc4b2a76b9719d911017c592"));
    let bare = Digest::from_entity_tag("5D41402ABC4B2A76B9719D911017C592");
    assert_eq!(bare, d);
}

#[test]
fn entity_tag_that_spells_a_sha256() {
    let text = "2cf24dba5fb0a30e26e83b2ac5b9e29e1b161e5c1fa7425e73043362938b9824";
    let d = Digest::from_entity_tag(text);
    assert_eq!(d.algorithm, Algorithm::Sha256);
    assert_eq!(d.bytes.len(), 32);
    assert_eq!(d.bytes, unhex(text));
}

#[test]
fn opaque_entity_tag_has_digest_shape() {
    let tag = "\"9b2cf535f27731c974343645a3985328-12\"";
    let d = Digest::from_entity_tag(tag);
    assert_eq!(d.algorithm, Algorithm::Md5);
    assert_eq!(d.bytes.len(), 16);
    assert_eq!(d, compute_digest(Algorithm::Md5, tag.as_bytes()));
    let e = Digest::from_entity_tag("");
    assert_eq!(e.bytes, unhex("d41d8cd98f00b204e9800998ecf8427e"));
    let g = Digest::from_entity_tag("zz41402abc4b2a76b9719d911017c592");
    assert_eq!(g, compute_digest(Algorithm::Md5, b"zz41402abc4b2a76b9719d911017c592"));
}

#[test]
fn remote_put_output_follows_the_entity_tag() {
    let out = S3Store::put_output(&Some("\"5d41402abc4b2a76b9719d911017c592\"".to_string()));
    assert_eq!(out.digest.bytes, unhex("5d41402abc4b2a76b9719d911017c592"));
    let none = S3Store::put_output(&None);
    assert_eq!(none.digest, Digest::from_entity_tag(""));
    assert_eq!(none.digest.bytes.len(), 16);
}

#[test]
fn verify_accepts_only_the_digested_content() {
    let d = compute_digest(Algorithm::Sha256, b"hello");
    assert_eq!(d.verify(b"hello"), Ok(()));
    assert_eq!(d.verify(b"hellp"), Err(StoreError::ChecksumMismatch));
    assert_eq!(d.verify(b""), Err(StoreError::ChecksumMismatch));
    let short = Digest { algorithm: Algorithm::Md5, bytes: unhex("5d41402abc4b2a76b9719d911017c5") };
    assert_eq!(short.verify(b"hello"), Err(StoreError::ChecksumMismatch));
    let full = Digest { algorithm: Algorithm::Md5, bytes: unhex("5d41402abc4b2a76b9719d911017c592") };
    assert_eq!(full.verify(b"hello"), Ok(()));
}

#[test]
fn same_bytes_compares_every_byte() {
    assert!(same_bytes(&vec![1, 2, 3], &vec![1, 2, 3]));
    assert!(!same_bytes(&vec![1, 2, 3], &vec![1, 2, 4]));
    assert!(!same_bytes(&vec![1, 2, 3], &vec![1, 2]));
    assert!(!same_bytes(&vec![0, 2, 3], &vec![1, 2, 3]));
    assert!(same_bytes(&vec![], &vec![]));
}

#[test]
fn chunks_digest_as_their_concatenation() {
    let chunks = vec![b"he".to_vec(), Vec::new(), b"ll".to_vec(), b"o".to_vec()];
    assert_eq!(digest_chunks(Algorithm::Sha256, &chunks), compute_digest(Algorithm::Sha256, b"hello"));
    assert_eq!(digest_chunks(Algorithm::Md5, &chunks), compute_digest(Algorithm::Md5, b"hello"));
    assert_eq!(digest_chunks(Algorithm::Md5, &Vec::new()), compute_digest(Algorithm::Md5, b""));
    let swapped = vec![b"ll".to_vec(), b"he".to_vec(), b"o".to_vec()];
    assert_ne!(digest_chunks(Algorithm::Md5, &swapped), compute_digest(Algorithm::Md5, b"hello"));
}

#[test]
fn every_error_has_its_words() {
    assert_eq!(StoreError::NotFound.message(), "not found");
    assert_eq!(StoreError::AlreadyExists.message(), "already exists");
    assert_eq!(StoreError::PermissionDenied.message(), "permission denied");
    assert_eq!(StoreError::InvalidTarget.message(), "invalid target");
    assert_eq!(StoreError::IoFailure.message(), "i/o failure");
    assert_eq!(StoreError::BackendUnavailable.message(), "backend unavailable");
    assert_eq!(StoreError::ChecksumMismatch.message(), "checksum mismatch");
    assert_eq!(StoreError::ConflictingUpload.message(), "conflicting upload");
    assert_eq!(StoreError::InvalidState.message(), "invalid state");
    assert_eq!(StoreError::PartialUpload.message(), "partial upload");
}
