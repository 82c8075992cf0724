use crate::hexcode::{
    blob_refusal, bytes_of_text, check_blob_width, encode, hex_text, lemma_hex_round_trip,
    parse_fixed, text_refusal,
};
use crate::parse_error::ParseHashError;
use crate::text::strip_prefix;
use vstd::prelude::*;
use vstd::slice::slice_subrange;

verus! {

/// The BLAKE3 digest of `data`: thirty-two bytes.
pub uninterp spec fn blake3_digest(data: Seq<u8>) -> Seq<u8>;

/// Calls `blake3::hash` and takes the digest's bytes with `Hash::as_bytes`.
/// The digest depends on the data alone.
#[verifier::external_body]
fn blake3_of(data: &[u8]) -> (digest: [u8; 32])
    ensures
        digest@ == blake3_digest(data@),
{
    *::blake3::hash(data).as_bytes()
}

/// A file hash in text: the algorithm's prefix, then the digest in lowercase
/// hexadecimal.
pub open spec fn file_hash_text(digest: Seq<u8>) -> Seq<char> {
    "blake3:"@ + hex_text(digest)
}

/// The digest that a text stands for: the prefix `blake3:`, then exactly
/// sixty-four characters, each one of `0`-`9`, `a`-`f`.
pub open spec fn file_hash_of_text(s: Seq<char>) -> Option<Seq<u8>> {
    if "blake3:"@.is_prefix_of(s) {
        bytes_of_text(s.skip("blake3:"@.len() as int), 32)
    } else {
        None
    }
}

/// A file hash as the catalog stores it: the two bytes `"01"`, which stand
/// for BLAKE3, then the digest.
pub open spec fn file_hash_blob(digest: Seq<u8>) -> Seq<u8> {
    seq![0x30u8, 0x31u8] + digest
}

/// Whether a stored blob begins with the two bytes that stand for BLAKE3.
pub open spec fn has_blake3_tag(blob: Seq<u8>) -> bool {
    blob.len() >= 2 && blob[0] == 0x30 && blob[1] == 0x31
}

/// The digest that a stored blob stands for: the two tag bytes, then exactly
/// thirty-two bytes.
pub open spec fn file_hash_of_blob(blob: Seq<u8>) -> Option<Seq<u8>> {
    if has_blake3_tag(blob) && blob.len() == 34 {
        Some(blob.skip(2))
    } else {
        None
    }
}

fn array_of(source: &[u8]) -> (array: [u8; 32])
    requires
        source@.len() == 32,
    ensures
        array@ == source@,
{
    let array: [u8; 32] = [
        source[0],
        source[1],
        source[2],
        source[3],
        source[4],
        source[5],
        source[6],
        source[7],
        source[8],
        source[9],
        source[10],
        source[11],
        source[12],
        source[13],
        source[14],
        source[15],
        source[16],
        source[17],
        source[18],
        source[19],
        source[20],
        source[21],
        source[22],
        source[23],
        source[24],
        source[25],
        source[26],
        source[27],
        source[28],
        source[29],
        source[30],
        source[31],
    ];
    assert(array@ =~= source@);
    array
}

/// A BLAKE3 digest.
#[derive(Clone, Debug, PartialEq, Eq)]
pub struct Blake3Hash {
    bytes: [u8; 32],
}

impl Blake3Hash {
    /// The prefix of a BLAKE3 hash in text.
    pub const PREFIX: &'static str = "blake3:";

    /// The width of this hash, in bytes.
    pub const BYTES: usize = 32;

    /// The thirty-two bytes of the digest.
    pub closed spec fn digest(&self) -> Seq<u8> {
        self.bytes@
    }

    /// Creates a hash from the bytes of a digest.
    pub fn from_be_bytes(bytes: [u8; 32]) -> (hash: Self)
        ensures
            hash.digest() == bytes@,
    {
        Self { bytes }
    }

    /// Returns the bytes of the digest.
    pub fn to_be_bytes(&self) -> (bytes: [u8; 32])
        ensures
            bytes@ == self.digest(),
    {
        self.bytes
    }

    /// Hashes `data`.
    pub fn of_content(data: &[u8]) -> (hash: Self)
        ensures
            hash.digest() == blake3_digest(data@),
    {
        Self { bytes: blake3_of(data) }
    }

    /// Writes the digest as sixty-four lowercase hexadecimal digits.
    pub fn to_text(&self) -> (text: String)
        ensures
            text@ == hex_text(self.digest()),
    {
        encode(self.bytes.as_slice())
    }

    /// Reads a digest from sixty-four lowercase hexadecimal digits.
    pub fn parse(s: &str) -> (parsed: Result<Self, ParseHashError>)
        ensures
            match bytes_of_text(s@, 32) {
                Some(digest) => parsed matches Ok(hash) && hash.digest() == digest,
                None => parsed matches Err(e) && e.spec_description() == "blake3 hash"@
                    && e.spec_input() == s@ && e.spec_error_string() == text_refusal(s@, 32),
            },
    {
        match parse_fixed("blake3 hash", s, 32) {
            Ok(bytes) => Ok(Self { bytes: array_of(bytes.as_slice()) }),
            Err(e) => Err(e),
        }
    }

    /// Reads a digest from thirty-two stored bytes.
    pub fn from_blob(blob: &[u8]) -> (parsed: Result<Self, ParseHashError>)
        ensures
            blob@.len() == 32 ==> (parsed matches Ok(hash) && hash.digest() == blob@),
            blob@.len() != 32 ==> (parsed matches Err(e) && e.spec_description() == "blake3 hash"@
                && e.spec_input() == hex_text(blob@) && e.spec_error_string() == blob_refusal(
                blob@,
                32,
            )),
    {
        match check_blob_width("blake3 hash", blob, 32) {
            Ok(()) => Ok(Self { bytes: array_of(blob) }),
            Err(e) => Err(e),
        }
    }
}

/// Whether `e` is the error for a stored blob that is no file hash: one
/// without a known tag is refused as a `binary hash`; one with the tag and
/// a digest of the wrong length, as a `blake3 hash`, the error then holding
/// the bytes behind the tag.
pub open spec fn refuses_blob(e: ParseHashError, blob: Seq<u8>) -> bool {
    if has_blake3_tag(blob) {
        &&& e.spec_description() == "blake3 hash"@
        &&& e.spec_input() == hex_text(blob.skip(2))
        &&& e.spec_error_string() == blob_refusal(blob.skip(2), 32)
    } else {
        &&& e.spec_description() == "binary hash"@
        &&& e.spec_input() == hex_text(blob)
        &&& e.spec_error_string() == "hash prefix not recognized"@
    }
}

/// The hash of an installed file's content.
#[derive(Clone, Debug, PartialEq, Eq)]
#[non_exhaustive]
pub enum FileHash {
    Blake3(Blake3Hash),
}

impl FileHash {
    /// The bytes of the digest.
    pub open spec fn digest(&self) -> Seq<u8> {
        match self {
            FileHash::Blake3(hash) => hash.digest(),
        }
    }

    /// Hashes the content of a file.
    pub fn of_content(data: &[u8]) -> (hash: Self)
        ensures
            hash.digest() == blake3_digest(data@),
    {
        FileHash::Blake3(Blake3Hash::of_content(data))
    }

    /// A copy of this hash.
    pub fn duplicate(&self) -> (copy: Self)
        ensures
            copy == *self,
    {
        match self {
            FileHash::Blake3(hash) => FileHash::Blake3(Blake3Hash { bytes: hash.bytes }),
        }
    }

    /// Writes the hash as `blake3:` and sixty-four lowercase hexadecimal digits.
    pub fn to_text(&self) -> (text: String)
        ensures
            text@ == file_hash_text(self.digest()),
    {
        match self {
            FileHash::Blake3(hash) => {
                let mut text = Blake3Hash::PREFIX.to_owned();
                text.append(hash.to_text().as_str());
                text
            },
        }
    }

    /// Reads a hash from its text. A text without a known prefix is refused as
    /// a `binary hash`; one with the prefix and a malformed digest, as a
    /// `blake3 hash`, the error then holding the text behind the prefix.
    pub fn parse(s: &str) -> (parsed: Result<Self, ParseHashError>)
        ensures
            match file_hash_of_text(s@) {
                Some(digest) => parsed matches Ok(hash) && hash.digest() == digest,
                None => parsed matches Err(e) && if "blake3:"@.is_prefix_of(s@) {
                    let rest = s@.skip("blake3:"@.len() as int);
                    &&& e.spec_description() == "blake3 hash"@
                    &&& e.spec_input() == rest
                    &&& e.spec_error_string() == text_refusal(rest, 32)
                } else {
                    &&& e.spec_description() == "binary hash"@
                    &&& e.spec_input() == s@
                    &&& e.spec_error_string() == "hash prefix unrecognized"@
                },
            },
    {
        match strip_prefix(s, Blake3Hash::PREFIX) {
            Some(rest) => match Blake3Hash::parse(rest.as_str()) {
                Ok(hash) => Ok(FileHash::Blake3(hash)),
                Err(e) => Err(e),
            },
            None => Err(
                ParseHashError::new("binary hash", s, "hash prefix unrecognized".to_owned()),
            ),
        }
    }

    /// The form in which the catalog stores the hash: the two tag bytes, then
    /// the digest.
    pub fn to_blob(&self) -> (blob: Vec<u8>)
        ensures
            blob@ == file_hash_blob(self.digest()),
    {
        match self {
            FileHash::Blake3(hash) => {
                let mut blob: Vec<u8> = Vec::new();
                blob.push(0x30);
                blob.push(0x31);
                blob.extend_from_slice(hash.bytes.as_slice());
                assert(blob@ =~= file_hash_blob(self.digest()));
                blob
            },
        }
    }

    /// Reads a hash from the form in which the catalog stores it. A blob
    /// without a known tag is refused as a `binary hash`; one with the tag and
    /// a digest of the wrong length, as a `blake3 hash`, the error then
    /// holding the bytes behind the tag.
    pub fn from_blob(blob: &[u8]) -> (parsed: Result<Self, ParseHashError>)
        ensures
            match file_hash_of_blob(blob@) {
                Some(digest) => parsed matches Ok(hash) && hash.digest() == digest,
                None => parsed matches Err(e) && refuses_blob(e, blob@),
            },
    {
        if blob.len() >= 2 && blob[0] == 0x30 && blob[1] == 0x31 {
            let rest = slice_subrange(blob, 2, blob.len());
            assert(rest@ =~= blob@.skip(2));
            match Blake3Hash::from_blob(rest) {
                Ok(hash) => Ok(FileHash::Blake3(hash)),
                Err(e) => Err(e),
            }
        } else {
            Err(
                ParseHashError::from_blob(
                    "binary hash",
                    blob,
                    "hash prefix not recognized".to_owned(),
                ),
            )
        }
    }
}

/// Writing a file hash as text and reading the text back gives the hash of
/// the same thirty-two bytes.
pub proof fn lemma_file_hash_text_round_trip(digest: Seq<u8>)
    requires
        digest.len() == 32,
    ensures
        file_hash_of_text(file_hash_text(digest)) == Some(digest),
{
    lemma_hex_round_trip(digest);
    let text = file_hash_text(digest);
    assert(text.subrange(0, "blake3:"@.len() as int) =~= "blake3:"@);
    assert(text.skip("blake3:"@.len() as int) =~= hex_text(digest));
}

/// Storing a file hash as a blob and reading the blob back gives the hash of
/// the same thirty-two bytes.
pub proof fn lemma_file_hash_blob_round_trip(digest: Seq<u8>)
    requires
        digest.len() == 32,
    ensures
        file_hash_of_blob(file_hash_blob(digest)) == Some(digest),
{
    assert(file_hash_blob(digest).skip(2) =~= digest);
}

} // verus!
