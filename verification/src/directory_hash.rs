use crate::hexcode::{
    blob_refusal, bytes_of_text, check_blob_width, encode, hex_text, lemma_hex_round_trip,
    parse_fixed, text_refusal,
};
use crate::parse_error::ParseHashError;
use vstd::prelude::*;

verus! {

/// The eight bytes of `n`, the most significant first.
pub open spec fn be_bytes(n: u64) -> Seq<u8> {
    seq![
        (n / 0x100_0000_0000_0000) as u8,
        (n / 0x1_0000_0000_0000 % 0x100) as u8,
        (n / 0x100_0000_0000 % 0x100) as u8,
        (n / 0x1_0000_0000 % 0x100) as u8,
        (n / 0x100_0000 % 0x100) as u8,
        (n / 0x1_0000 % 0x100) as u8,
        (n / 0x100 % 0x100) as u8,
        (n % 0x100) as u8,
    ]
}

/// The number that eight bytes stand for, the most significant first.
pub open spec fn be_value(bytes: Seq<u8>) -> int {
    bytes[0] * 0x100_0000_0000_0000 + bytes[1] * 0x1_0000_0000_0000 + bytes[2] * 0x100_0000_0000
        + bytes[3] * 0x1_0000_0000 + bytes[4] * 0x100_0000 + bytes[5] * 0x1_0000 + bytes[6] * 0x100
        + bytes[7]
}

/// A directory hash in text: sixteen lowercase hexadecimal digits, the most
/// significant first.
pub open spec fn hash_text(n: u64) -> Seq<char> {
    hex_text(be_bytes(n))
}

/// The directory hash that a text stands for: exactly sixteen characters, each
/// one of `0`-`9`, `a`-`f`.
pub open spec fn hash_of_text(s: Seq<char>) -> Option<u64> {
    match bytes_of_text(s, 8) {
        Some(bytes) => Some(be_value(bytes) as u64),
        None => None,
    }
}

/// The directory hash that a stored blob stands for: exactly eight bytes.
pub open spec fn hash_of_blob(blob: Seq<u8>) -> Option<u64> {
    if blob.len() == 8 {
        Some(be_value(blob) as u64)
    } else {
        None
    }
}

/// The bytes of a number stand for that number.
pub proof fn lemma_be_round_trip(n: u64)
    ensures
        be_bytes(n).len() == 8,
        be_value(be_bytes(n)) == n,
{
    assert((n / 0x100_0000_0000_0000) as u8 * 0x100_0000_0000_0000 + (n / 0x1_0000_0000_0000
        % 0x100) as u8 * 0x1_0000_0000_0000 + (n / 0x100_0000_0000 % 0x100) as u8
        * 0x100_0000_0000 + (n / 0x1_0000_0000 % 0x100) as u8 * 0x1_0000_0000 + (n / 0x100_0000
        % 0x100) as u8 * 0x100_0000 + (n / 0x1_0000 % 0x100) as u8 * 0x1_0000 + (n / 0x100
        % 0x100) as u8 * 0x100 + (n % 0x100) as u8 == n) by (bit_vector);
}

/// Eight bytes stand for a number that has those bytes.
pub proof fn lemma_be_bytes_of_value(bytes: Seq<u8>)
    requires
        bytes.len() == 8,
    ensures
        0 <= be_value(bytes) <= u64::MAX,
        be_bytes(be_value(bytes) as u64) == bytes,
{
    let (b0, b1, b2, b3) = (bytes[0], bytes[1], bytes[2], bytes[3]);
    let (b4, b5, b6, b7) = (bytes[4], bytes[5], bytes[6], bytes[7]);
    let n = be_value(bytes) as u64;
    assert(0 <= be_value(bytes) <= u64::MAX);
    assert(n == b0 * 0x100_0000_0000_0000 + b1 * 0x1_0000_0000_0000 + b2 * 0x100_0000_0000 + b3
        * 0x1_0000_0000 + b4 * 0x100_0000 + b5 * 0x1_0000 + b6 * 0x100 + b7);
    assert((n / 0x100_0000_0000_0000) as u8 == b0 && (n / 0x1_0000_0000_0000 % 0x100) as u8 == b1
        && (n / 0x100_0000_0000 % 0x100) as u8 == b2 && (n / 0x1_0000_0000 % 0x100) as u8 == b3
        && (n / 0x100_0000 % 0x100) as u8 == b4 && (n / 0x1_0000 % 0x100) as u8 == b5 && (n
        / 0x100 % 0x100) as u8 == b6 && (n % 0x100) as u8 == b7) by (bit_vector)
        requires
            n == b0 * 0x100_0000_0000_0000 + b1 * 0x1_0000_0000_0000 + b2 * 0x100_0000_0000 + b3
                * 0x1_0000_0000 + b4 * 0x100_0000 + b5 * 0x1_0000 + b6 * 0x100 + b7,
    ;
    assert(be_bytes(n) =~= bytes);
}

/// A directory hash: the 64-bit digest that keys an install path.
///
/// The hash is stable for a given input, but may change from one version of
/// the engine to the next.
#[derive(Copy, Clone, Debug, PartialEq, Eq, Structural, PartialOrd, Ord, Hash)]
pub struct DirectoryHash {
    numeric: u64,
}

impl DirectoryHash {
    /// The width of a directory hash, in bytes.
    pub const BYTES: usize = 8;

    /// The numeric value that this hash stands for.
    pub closed spec fn value(self) -> u64 {
        self.numeric
    }

    /// Creates a hash from its numeric representation.
    pub fn new(numeric: u64) -> (hash: Self)
        ensures
            hash.value() == numeric,
    {
        Self { numeric }
    }

    /// Creates a hash from its bytes, the most significant first.
    pub fn from_be_bytes(bytes: [u8; 8]) -> (hash: Self)
        ensures
            hash.value() == be_value(bytes@),
    {
        let numeric: u64 = (bytes[0] as u64) * 0x100_0000_0000_0000 + (bytes[1] as u64)
            * 0x1_0000_0000_0000 + (bytes[2] as u64) * 0x100_0000_0000 + (bytes[3] as u64)
            * 0x1_0000_0000 + (bytes[4] as u64) * 0x100_0000 + (bytes[5] as u64) * 0x1_0000 + (
        bytes[6] as u64) * 0x100 + (bytes[7] as u64);
        Self { numeric }
    }

    /// Returns the bytes of the hash, the most significant first.
    pub fn to_be_bytes(&self) -> (bytes: [u8; 8])
        ensures
            bytes@ == be_bytes(self.value()),
    {
        let n = self.numeric;
        let bytes: [u8; 8] = [
            (n / 0x100_0000_0000_0000) as u8,
            (n / 0x1_0000_0000_0000 % 0x100) as u8,
            (n / 0x100_0000_0000 % 0x100) as u8,
            (n / 0x1_0000_0000 % 0x100) as u8,
            (n / 0x100_0000 % 0x100) as u8,
            (n / 0x1_0000 % 0x100) as u8,
            (n / 0x100 % 0x100) as u8,
            (n % 0x100) as u8,
        ];
        assert(bytes@ =~= be_bytes(n));
        bytes
    }

    /// Returns the numeric representation of the hash.
    pub fn numeric(&self) -> (numeric: u64)
        ensures
            numeric == self.value(),
    {
        self.numeric
    }

    /// Writes the hash as sixteen lowercase hexadecimal digits.
    pub fn to_text(&self) -> (text: String)
        ensures
            text@ == hash_text(self.value()),
    {
        let bytes = self.to_be_bytes();
        encode(bytes.as_slice())
    }

    /// Reads a hash from sixteen lowercase hexadecimal digits.
    pub fn parse(s: &str) -> (parsed: Result<Self, ParseHashError>)
        ensures
            match hash_of_text(s@) {
                Some(n) => parsed matches Ok(hash) && hash.value() == n,
                None => parsed matches Err(e) && e.spec_description() == "directory hash"@
                    && e.spec_input() == s@ && e.spec_error_string() == text_refusal(s@, 8),
            },
    {
        match parse_fixed("directory hash", s, 8) {
            Ok(bytes) => {
                let array: [u8; 8] = [
                    bytes[0],
                    bytes[1],
                    bytes[2],
                    bytes[3],
                    bytes[4],
                    bytes[5],
                    bytes[6],
                    bytes[7],
                ];
                assert(array@ =~= bytes@);
                proof {
                    lemma_be_bytes_of_value(bytes@);
                }
                Ok(Self::from_be_bytes(array))
            },
            Err(e) => Err(e),
        }
    }

    /// The form in which the catalog stores the hash: eight bytes, the most
    /// significant first.
    pub fn to_blob(&self) -> (blob: Vec<u8>)
        ensures
            blob@ == be_bytes(self.value()),
    {
        let bytes = self.to_be_bytes();
        let mut blob: Vec<u8> = Vec::new();
        blob.extend_from_slice(bytes.as_slice());
        assert(blob@ =~= bytes@);
        blob
    }

    /// Reads a hash from the form in which the catalog stores it.
    pub fn from_blob(blob: &[u8]) -> (parsed: Result<Self, ParseHashError>)
        ensures
            match hash_of_blob(blob@) {
                Some(n) => parsed matches Ok(hash) && hash.value() == n,
                None => parsed matches Err(e) && e.spec_description() == "directory hash"@
                    && e.spec_input() == hex_text(blob@) && e.spec_error_string() == blob_refusal(
                    blob@,
                    8,
                ),
            },
    {
        match check_blob_width("directory hash", blob, 8) {
            Ok(()) => {
                let array: [u8; 8] = [
                    blob[0],
                    blob[1],
                    blob[2],
                    blob[3],
                    blob[4],
                    blob[5],
                    blob[6],
                    blob[7],
                ];
                assert(array@ =~= blob@);
                proof {
                    lemma_be_bytes_of_value(blob@);
                }
                Ok(Self::from_be_bytes(array))
            },
            Err(e) => Err(e),
        }
    }
}

/// Writing a hash as text and reading the text back gives the same hash.
pub proof fn lemma_hash_text_round_trip(n: u64)
    ensures
        hash_of_text(hash_text(n)) == Some(n),
{
    lemma_hex_round_trip(be_bytes(n));
    lemma_be_round_trip(n);
}

/// Storing a hash as a blob and reading the blob back gives the same hash.
pub proof fn lemma_hash_blob_round_trip(n: u64)
    ensures
        hash_of_blob(be_bytes(n)) == Some(n),
{
    lemma_be_round_trip(n);
}

} // verus!
