//! Names for finished thumbnails: a thumbnail is kept under a name that is
//! computed from the content of the file it was made for, so that a changed
//! file finds no stale thumbnail and an unchanged one finds its own.
//!
//! The name is the SHA-256 digest of a short fingerprint of the file: its
//! length, its first 4 KiB and, for files over 8 KiB, its last 4 KiB. Only
//! where the file cannot be read is the digest taken of its path.

use vstd::bytes::*;
use vstd::prelude::*;
use vstd::string::*;

use crate::strutil::{lowercase, to_lowercase};

verus! {

/// How many bytes of each end of a file go into its fingerprint.
pub const SAMPLE_BYTES: usize = 4096;

/// Files longer than this contribute their last bytes as well as their first.
pub const TAIL_THRESHOLD: u64 = 8192;

/// The SHA-256 digest of a byte sequence, as the `sha2` crate computes it.
pub uninterp spec fn sha256(data: Seq<u8>) -> Seq<u8>;

/// The lower-case hexadecimal digit for a value below sixteen.
pub open spec fn hex_digit(n: int) -> char {
    if n < 10 {
        ('0' as int + n) as char
    } else {
        ('a' as int + n - 10) as char
    }
}

/// Two lower-case hexadecimal digits for each byte, the high one first.
pub open spec fn hex_lower(data: Seq<u8>) -> Seq<char> {
    Seq::new(
        2 * data.len(),
        |i: int|
            if i % 2 == 0 {
                hex_digit(data[i / 2] as int / 16)
            } else {
                hex_digit(data[i / 2] as int % 16)
            },
    )
}

/// Calls `Sha256::digest` of the `sha2` crate on `data`. Trusted: that the
/// result is the SHA-256 digest of exactly these bytes, and that such a
/// digest has 32 bytes.
#[verifier::external_body]
fn sha256_digest(data: &[u8]) -> (digest: Vec<u8>)
    ensures
        digest@ == sha256(data@),
        digest@.len() == 32,
{
    <sha2::Sha256 as sha2::Digest>::digest(data).to_vec()
}

/// Calls `hex::encode` on `data`. Trusted: that the result holds, for each
/// byte in order, its high and then its low hexadecimal digit, in lower case.
#[verifier::external_body]
fn hex_encode(data: &[u8]) -> (text: String)
    ensures
        text@ == hex_lower(data@),
{
    hex::encode(data)
}

/// What is known of a file when its thumbnail is looked up or stored.
pub enum FileSample {
    /// The file was opened. `len` is its length, `head` what was read from
    /// its start and `tail` what was read from its end (nothing for a file
    /// of at most [`TAIL_THRESHOLD`] bytes).
    Content { len: u64, head: Vec<u8>, tail: Vec<u8> },
    /// The file could not be read; this is its path.
    Path(String),
    /// The file could not be read and its path is not valid Unicode; this is
    /// the path with each invalid part replaced.
    LossyPath(String),
}

/// The first bytes of a file's content that go into its fingerprint.
pub open spec fn head_of(content: Seq<u8>) -> Seq<u8> {
    if content.len() <= SAMPLE_BYTES {
        content
    } else {
        content.take(SAMPLE_BYTES as int)
    }
}

/// The last bytes of a file's content that go into its fingerprint.
pub open spec fn tail_of(content: Seq<u8>) -> Seq<u8> {
    if content.len() > TAIL_THRESHOLD {
        content.skip(content.len() - SAMPLE_BYTES)
    } else {
        Seq::empty()
    }
}

/// The fingerprint of a file with the given content: its length as eight
/// little-endian bytes, then its first and last bytes.
pub open spec fn content_fingerprint(content: Seq<u8>) -> Seq<u8> {
    spec_u64_to_le_bytes(content.len() as u64) + head_of(content) + tail_of(content)
}

impl FileSample {
    /// The bytes whose digest names the thumbnail. A path goes in as its
    /// UTF-8 bytes, in lower case where it was valid Unicode.
    pub open spec fn fingerprint(&self) -> Seq<u8> {
        match *self {
            FileSample::Content { len, head, tail } => spec_u64_to_le_bytes(len) + head@ + tail@,
            FileSample::Path(path) => vstd::utf8::encode_utf8(lowercase(path@)),
            FileSample::LossyPath(path) => vstd::utf8::encode_utf8(path@),
        }
    }

    /// The sample of a file whose whole content is at hand.
    pub fn of_content(content: &[u8]) -> (sample: FileSample)
        ensures
            sample.fingerprint() == content_fingerprint(content@),
            sample == (FileSample::Content {
                len: content@.len() as u64,
                head: sample->head,
                tail: sample->tail,
            }),
            sample->head@ == head_of(content@),
            sample->tail@ == tail_of(content@),
    {
        let n: usize = content.len();
        let head_len: usize = if n <= SAMPLE_BYTES {
            n
        } else {
            SAMPLE_BYTES
        };
        let mut head: Vec<u8> = Vec::new();
        let mut i: usize = 0;
        while i < head_len
            invariant
                i <= head_len,
                head_len <= n,
                n == content@.len(),
                head@ == content@.take(i as int),
            decreases head_len - i,
        {
            head.push(content[i]);
            assert(content@.take(i + 1) =~= content@.take(i as int).push(content@[i as int]));
            i += 1;
        }
        assert(content@.take(n as int) =~= content@);
        let mut tail: Vec<u8> = Vec::new();
        if n as u64 > TAIL_THRESHOLD {
            let start: usize = n - SAMPLE_BYTES;
            let mut j: usize = start;
            while j < n
                invariant
                    start <= j <= n,
                    n == content@.len(),
                    tail@ == content@.subrange(start as int, j as int),
                decreases n - j,
            {
                tail.push(content[j]);
                assert(content@.subrange(start as int, j + 1) =~= content@.subrange(
                    start as int,
                    j as int,
                ).push(content@[j as int]));
                j += 1;
            }
            assert(content@.subrange(start as int, n as int) =~= content@.skip(start as int));
        }
        FileSample::Content { len: n as u64, head, tail }
    }
}

/// The name of a thumbnail: a SHA-256 digest.
pub struct CacheKey {
    digest: Vec<u8>,
}

impl View for CacheKey {
    type V = Seq<u8>;

    /// The 32 bytes of the digest.
    closed spec fn view(&self) -> Seq<u8> {
        self.digest@
    }
}

/// The file name under which the thumbnail with the given digest is stored.
pub open spec fn cache_file_name(digest: Seq<u8>) -> Seq<char> {
    hex_lower(digest) + ".png"@
}

impl CacheKey {
    /// Every key holds a digest of 32 bytes.
    #[verifier::type_invariant]
    spec fn well_formed(self) -> bool {
        self.digest@.len() == 32
    }

    /// The key for a file of which `sample` is known.
    pub fn for_sample(sample: &FileSample) -> (key: CacheKey)
        ensures
            key@ == sha256(sample.fingerprint()),
    {
        let mut material: Vec<u8> = Vec::new();
        match sample {
            FileSample::Content { len, head, tail } => {
                let prefix = u64_to_le_bytes(*len);
                material.extend_from_slice(prefix.as_slice());
                material.extend_from_slice(head.as_slice());
                material.extend_from_slice(tail.as_slice());
                assert(material@ =~= spec_u64_to_le_bytes(*len) + head@ + tail@);
            },
            FileSample::Path(path) => {
                let lower = to_lowercase(path.as_str());
                material.extend_from_slice(lower.as_str().as_bytes());
                assert(material@ =~= vstd::utf8::encode_utf8(lowercase(path@)));
            },
            FileSample::LossyPath(path) => {
                material.extend_from_slice(path.as_str().as_bytes());
                assert(material@ =~= vstd::utf8::encode_utf8(path@));
            },
        }
        CacheKey { digest: sha256_digest(material.as_slice()) }
    }

    /// The key for a file whose whole content is at hand.
    pub fn for_content(content: &[u8]) -> (key: CacheKey)
        ensures
            key@ == sha256(content_fingerprint(content@)),
    {
        let sample = FileSample::of_content(content);
        CacheKey::for_sample(&sample)
    }

    /// The digest, 32 bytes.
    pub fn digest(&self) -> (bytes: &[u8])
        ensures
            bytes@ == self@,
            bytes@.len() == 32,
    {
        proof {
            use_type_invariant(self);
        }
        self.digest.as_slice()
    }

    /// The file name of the thumbnail: the digest in 64 hexadecimal digits,
    /// then `.png`.
    pub fn file_name(&self) -> (name: String)
        ensures
            name@ == cache_file_name(self@),
    {
        let hex = hex_encode(self.digest.as_slice());
        hex.concat(".png")
    }
}

/// Two contents of one length that differ in one of their first
/// [`SAMPLE_BYTES`] bytes have different fingerprints. Their keys are the
/// SHA-256 digests of different byte sequences, and so differ unless the
/// digest collides.
pub proof fn lemma_fingerprint_tells_heads_apart(a: Seq<u8>, b: Seq<u8>, i: int)
    requires
        a.len() == b.len(),
        0 <= i < a.len(),
        i < SAMPLE_BYTES,
        a[i] != b[i],
    ensures
        content_fingerprint(a) != content_fingerprint(b),
{
    lemma_auto_spec_u64_to_from_le_bytes();
    let prefix = spec_u64_to_le_bytes(a.len() as u64);
    assert(prefix.len() == 8);
    assert(head_of(a)[i] == a[i]);
    assert(head_of(b)[i] == b[i]);
    assert(content_fingerprint(a)[8 + i] == a[i]);
    assert(content_fingerprint(b)[8 + i] == b[i]);
}

/// Two contents of different lengths, both below 2^64 bytes, have different
/// fingerprints.
pub proof fn lemma_fingerprint_tells_lengths_apart(a: Seq<u8>, b: Seq<u8>)
    requires
        a.len() != b.len(),
        a.len() <= u64::MAX,
        b.len() <= u64::MAX,
    ensures
        content_fingerprint(a) != content_fingerprint(b),
{
    lemma_auto_spec_u64_to_from_le_bytes();
    let pa = spec_u64_to_le_bytes(a.len() as u64);
    let pb = spec_u64_to_le_bytes(b.len() as u64);
    if content_fingerprint(a) == content_fingerprint(b) {
        assert(content_fingerprint(a).subrange(0, 8) =~= pa);
        assert(content_fingerprint(b).subrange(0, 8) =~= pb);
        assert(spec_u64_from_le_bytes(pa) == spec_u64_from_le_bytes(pb));
    }
}

/// The fingerprint, and so the key, is a function of the content alone: two
/// files with the same bytes get the same key, whatever their names.
pub proof fn lemma_same_content_same_key(a: Seq<u8>, b: Seq<u8>)
    requires
        a =~= b,
    ensures
        sha256(content_fingerprint(a)) == sha256(content_fingerprint(b)),
        cache_file_name(sha256(content_fingerprint(a))) == cache_file_name(
            sha256(content_fingerprint(b)),
        ),
{
}

} // verus!
