//! Content fingerprints: MD5 and SHA-256 digests in lower-case hex, and the
//! canonical `md5:<hex>` identity shared by local files and Google Drive.

use vstd::prelude::*;
use digest::Digest;
use crate::text::{
    ascii_lower_char, ascii_lowercase, concat2, is_ascii_text, is_white_space, lowercase_of, push_char, spec_trim,
    to_lowercase, trim, trim_end_spec, trim_start_spec,
};

verus! {

/// The error a file fingerprint can end in: reading the file failed.
#[verifier::external_type_specification]
#[verifier::external_body]
pub struct ExIoError(std::io::Error);

#[derive(Debug)]
pub enum HashError {
    Io(std::io::Error),
}

/// Result of fingerprinting a file for cross-source duplicate matching.
#[derive(Debug, Clone)]
pub struct FileFingerprint {
    /// Canonical identity used for duplicate grouping (`md5:hex`).
    pub content_hash: String,
    /// Raw MD5 hex (lowercase).
    pub md5_hex: String,
    /// SHA-256 hex for optional verification receipts.
    pub sha256_hex: String,
}

/// The MD5 digest of a byte sequence (RFC 1321), as the `md-5` crate computes it.
pub uninterp spec fn spec_md5(data: Seq<u8>) -> Seq<u8>;

/// The SHA-256 digest of a byte sequence (FIPS 180-4), as the `sha2` crate computes it.
pub uninterp spec fn spec_sha256(data: Seq<u8>) -> Seq<u8>;

/// `<md5::Md5 as Digest>::digest`: the 16-byte MD5 digest of `data`.
#[verifier::external_body]
fn md5_digest(data: &[u8]) -> (r: Vec<u8>)
    ensures
        r@ == spec_md5(data@),
        r@.len() == 16,
{
    md5::Md5::digest(data).to_vec()
}

/// `<sha2::Sha256 as Digest>::digest`: the 32-byte SHA-256 digest of `data`.
#[verifier::external_body]
fn sha256_digest(data: &[u8]) -> (r: Vec<u8>)
    ensures
        r@ == spec_sha256(data@),
        r@.len() == 32,
{
    sha2::Sha256::digest(data).to_vec()
}

/// The lower-case hex digit for a nibble.
pub open spec fn hex_char(n: nat) -> char {
    if n < 10 {
        ((n + 48) as u8) as char
    } else {
        ((n + 87) as u8) as char
    }
}

/// Bytes written as lower-case hex, two digits per byte, high nibble first
/// (what `{:x}` prints for a digest).
pub open spec fn hex_lower(bytes: Seq<u8>) -> Seq<char>
    decreases bytes.len(),
{
    if bytes.len() == 0 {
        Seq::empty()
    } else {
        hex_lower(bytes.drop_last()).push(hex_char((bytes.last() / 16) as nat)).push(
            hex_char((bytes.last() % 16) as nat),
        )
    }
}

fn hex_digit(n: u8) -> (c: char)
    requires
        n < 16,
    ensures
        c == hex_char(n as nat),
{
    if n < 10 {
        (n + 48) as char
    } else {
        (n + 87) as char
    }
}

/// Bytes as lower-case hex.
pub fn to_hex_lower(bytes: &[u8]) -> (r: String)
    ensures
        r@ == hex_lower(bytes@),
{
    let mut r = String::new();
    let mut i: usize = 0;
    while i < bytes.len()
        invariant
            i <= bytes@.len(),
            r@ == hex_lower(bytes@.take(i as int)),
        decreases bytes.len() - i,
    {
        assert(bytes@.take(i + 1).drop_last() =~= bytes@.take(i as int));
        let b = bytes[i];
        push_char(&mut r, hex_digit(b / 16));
        push_char(&mut r, hex_digit(b % 16));
        i += 1;
    }
    assert(bytes@.take(bytes@.len() as int) =~= bytes@);
    r
}

/// The SHA-256 digest of `data` in lower-case hex.
pub fn hash_bytes(data: &[u8]) -> (r: String)
    ensures
        r@ == hex_lower(spec_sha256(data@)),
{
    let d = sha256_digest(data);
    to_hex_lower(d.as_slice())
}

/// A Drive `md5Checksum`, trimmed and lower-cased.
pub open spec fn normalized_md5(raw: Seq<char>) -> Seq<char> {
    lowercase_of(spec_trim(raw))
}

/// The canonical content identity of an MD5 hex digest: `md5:` and the normalized digest.
pub open spec fn md5_identity(md5_hex: Seq<char>) -> Seq<char> {
    "md5:"@ + normalized_md5(md5_hex)
}

/// Normalize Drive md5Checksum to lowercase hex.
pub fn normalize_md5(raw: &str) -> (r: String)
    ensures
        r@ == normalized_md5(raw@),
{
    to_lowercase(trim(raw))
}

/// Canonical content identity shared by Google Drive metadata and local files.
pub fn content_identity_from_md5(md5_hex: &str) -> (r: String)
    ensures
        r@ == md5_identity(md5_hex@),
{
    let n = normalize_md5(md5_hex);
    concat2("md5:", n.as_str())
}

pub fn content_identity_from_drive_checksum(raw: &str) -> (r: String)
    ensures
        r@ == md5_identity(raw@),
{
    content_identity_from_md5(raw)
}

/// The fingerprint of a file's bytes.
pub open spec fn fingerprint_of(data: Seq<u8>, fp: FileFingerprint) -> bool {
    &&& fp.md5_hex@ == hex_lower(spec_md5(data))
    &&& fp.sha256_hex@ == hex_lower(spec_sha256(data))
    &&& fp.content_hash@ == md5_identity(hex_lower(spec_md5(data)))
}

/// Computes MD5 and SHA-256 of a file's contents and its content identity.
pub fn fingerprint_bytes(data: &[u8]) -> (r: FileFingerprint)
    ensures
        fingerprint_of(data@, r),
{
    let md5 = md5_digest(data);
    let sha = sha256_digest(data);
    let md5_hex = to_hex_lower(md5.as_slice());
    let sha256_hex = to_hex_lower(sha.as_slice());
    let content_hash = content_identity_from_md5(md5_hex.as_str());
    FileFingerprint { content_hash, md5_hex, sha256_hex }
}

/// A local file and a Google Drive file get the same content identity whenever
/// Drive's `md5Checksum` is the hex MD5 of the local file's bytes: duplicates are
/// matched across sources by one key.
pub proof fn law_local_and_drive_identity_agree(data: Seq<u8>, fp: FileFingerprint, checksum: Seq<char>)
    requires
        fingerprint_of(data, fp),
        checksum == hex_lower(spec_md5(data)),
    ensures
        fp.content_hash@ == md5_identity(checksum),
{
}

/// Whether a character is a lower-case hex digit.
pub open spec fn is_hex_digit(c: char) -> bool {
    (48 <= (c as u32) <= 57) || (97 <= (c as u32) <= 102)
}

proof fn lemma_hex_lower_digits(bytes: Seq<u8>)
    ensures
        forall|i: int| 0 <= i < hex_lower(bytes).len() ==> is_hex_digit(#[trigger] hex_lower(bytes)[i]),
        hex_lower(bytes).len() == 2 * bytes.len(),
    decreases bytes.len(),
{
    if bytes.len() > 0 {
        lemma_hex_lower_digits(bytes.drop_last());
        let b = bytes.last();
        assert(b / 16 < 16);
        assert(b % 16 < 16);
    }
}

proof fn lemma_trim_start_skips(pre: Seq<char>, x: Seq<char>)
    requires
        forall|i: int| 0 <= i < pre.len() ==> is_white_space(#[trigger] pre[i]),
    ensures
        trim_start_spec(pre + x) == trim_start_spec(x),
    decreases pre.len(),
{
    if pre.len() > 0 {
        assert((pre + x)[0] == pre[0]);
        assert((pre + x).drop_first() =~= pre.drop_first() + x);
        lemma_trim_start_skips(pre.drop_first(), x);
    } else {
        assert(pre + x =~= x);
    }
}

proof fn lemma_trim_end_skips(x: Seq<char>, post: Seq<char>)
    requires
        forall|i: int| 0 <= i < post.len() ==> is_white_space(#[trigger] post[i]),
    ensures
        trim_end_spec(x + post) == trim_end_spec(x),
    decreases post.len(),
{
    if post.len() > 0 {
        assert((x + post).last() == post.last());
        assert((x + post).drop_last() =~= x + post.drop_last());
        lemma_trim_end_skips(x, post.drop_last());
    } else {
        assert(x + post =~= x);
    }
}

/// Trimming a text made of white space, a word that neither starts nor ends
/// with white space, and white space leaves the word.
proof fn lemma_trim_word(pre: Seq<char>, x: Seq<char>, post: Seq<char>)
    requires
        forall|i: int| 0 <= i < pre.len() ==> is_white_space(#[trigger] pre[i]),
        forall|i: int| 0 <= i < post.len() ==> is_white_space(#[trigger] post[i]),
        forall|i: int| 0 <= i < x.len() ==> !is_white_space(#[trigger] x[i]),
    ensures
        spec_trim(pre + x + post) == x,
{
    lemma_trim_start_skips(pre, x + post);
    assert(pre + x + post =~= pre + (x + post));
    if x.len() > 0 {
        assert((x + post)[0] == x[0]);
        assert(trim_start_spec(x + post) == x + post);
        lemma_trim_end_skips(x, post);
        assert(x.last() == x[x.len() - 1]);
    } else {
        assert(x + post =~= post);
        lemma_trim_start_skips(post, Seq::<char>::empty());
        assert(post + Seq::<char>::empty() =~= post);
        assert(trim_end_spec(Seq::<char>::empty()) == Seq::<char>::empty());
    }
}

/// A Drive checksum gives a file the same identity as its bytes even when it
/// is written in upper or mixed case and has white space around it: any
/// `pre + digits + post` whose outer parts are white space and whose digits,
/// lower-cased, are the hex MD5 of the bytes.
pub proof fn law_drive_checksum_in_any_case(
    data: Seq<u8>,
    fp: FileFingerprint,
    pre: Seq<char>,
    digits: Seq<char>,
    post: Seq<char>,
)
    requires
        fingerprint_of(data, fp),
        forall|i: int| 0 <= i < pre.len() ==> is_white_space(#[trigger] pre[i]),
        forall|i: int| 0 <= i < post.len() ==> is_white_space(#[trigger] post[i]),
        is_ascii_text(digits),
        ascii_lowercase(digits) == hex_lower(spec_md5(data)),
    ensures
        md5_identity(pre + digits + post) == fp.content_hash@,
{
    let hex = hex_lower(spec_md5(data));
    lemma_hex_lower_digits(spec_md5(data));
    assert forall|i: int| 0 <= i < digits.len() implies !is_white_space(#[trigger] digits[i]) by {
        assert(ascii_lowercase(digits)[i] == ascii_lower_char(digits[i]));
        assert(is_hex_digit(hex[i]));
    }
    lemma_trim_word(pre, digits, post);
    assert forall|i: int| 0 <= i < hex.len() implies !is_white_space(#[trigger] hex[i]) by {
        assert(is_hex_digit(hex[i]));
    }
    lemma_trim_word(Seq::empty(), hex, Seq::empty());
    assert(Seq::<char>::empty() + hex + Seq::<char>::empty() =~= hex);
    assert(is_ascii_text(hex)) by {
        assert forall|i: int| 0 <= i < hex.len() implies (#[trigger] hex[i] as u32) < 128 by {
            assert(is_hex_digit(hex[i]));
        }
    }
    assert(ascii_lowercase(hex) =~= hex) by {
        assert forall|i: int| 0 <= i < hex.len() implies #[trigger] ascii_lowercase(hex)[i] == hex[i] by {
            assert(is_hex_digit(hex[i]));
        }
    }
}

} // verus!
