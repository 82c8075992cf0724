use crate::directory_hash::{be_bytes, DirectoryHash};
use crate::directory_version::{DirectoryVersion, VersionView};
use vstd::prelude::*;
use vstd::utf8::encode_utf8;

verus! {

/// The XXH64 digest of `data` with seed zero.
pub uninterp spec fn xxh64(data: Seq<u8>) -> u64;

/// Feeds `data` to `twox_hash::XxHash64`, made with its `Default` (seed zero),
/// through `Hasher::write`, and takes the digest with `Hasher::finish`. The
/// digest depends on the data alone.
#[verifier::external_body]
fn xxh64_of(data: &[u8]) -> (digest: u64)
    ensures
        digest == xxh64(data@),
{
    let mut hasher = twox_hash::XxHash64::default();
    std::hash::Hasher::write(&mut hasher, data);
    std::hash::Hasher::finish(&hasher)
}

/// The eight bytes of `n`, the least significant first.
pub open spec fn le_bytes(n: u64) -> Seq<u8> {
    be_bytes(n).reverse()
}

/// A field as it is fed to the hasher: its length in bytes as eight bytes,
/// the least significant first, then the bytes themselves. With the length
/// in front, two fields side by side cannot be taken for another pair.
pub open spec fn framed(field: Seq<u8>) -> Seq<u8> {
    le_bytes(field.len() as u64) + field
}

/// What is hashed into a directory hash: namespace, name and the version's
/// text, each framed, then the bytes that the installer adds.
pub open spec fn hash_input(
    namespace: Seq<char>,
    name: Seq<char>,
    version: VersionView,
    extra: Seq<u8>,
) -> Seq<u8> {
    framed(encode_utf8(namespace)) + framed(encode_utf8(name)) + framed(
        encode_utf8(version.text()),
    ) + extra
}

fn push_framed(input: &mut Vec<u8>, field: &[u8])
    ensures
        final(input)@ == old(input)@ + framed(field@),
{
    let ghost before = input@;
    let length = DirectoryHash::new(field.len() as u64).to_be_bytes();
    let mut i: usize = 8;
    while i > 0
        invariant
            i <= 8,
            length@ == be_bytes(field@.len() as u64),
            input@ == before + le_bytes(field@.len() as u64).take(8 - i),
        decreases i,
    {
        i -= 1;
        input.push(length[i]);
        assert(input@ =~= before + le_bytes(field@.len() as u64).take(8 - i));
    }
    assert(le_bytes(field@.len() as u64).take(8) =~= le_bytes(field@.len() as u64));
    input.extend_from_slice(field);
    assert(input@ =~= before + framed(field@));
}

/// Derives the hash of a new directory from what identifies it. `extra` is
/// what the installer adds beyond namespace, name and version.
///
/// The hash is not fit for a first lookup: it may differ from one version of
/// the engine to the next, which is why the catalog stores it.
pub fn new_directory_hash(
    namespace: &str,
    name: &str,
    version: &DirectoryVersion,
    extra: &[u8],
) -> (hash: DirectoryHash)
    ensures
        hash.value() == xxh64(hash_input(namespace@, name@, version@, extra@)),
{
    let mut input: Vec<u8> = Vec::new();
    push_framed(&mut input, namespace.as_bytes());
    push_framed(&mut input, name.as_bytes());
    let text = version.to_text();
    push_framed(&mut input, text.as_str().as_bytes());
    input.extend_from_slice(extra);
    assert(input@ =~= hash_input(namespace@, name@, version@, extra@));
    DirectoryHash::new(xxh64_of(input.as_slice()))
}

/// What the catalog knows of a package directory.
#[derive(Clone, Debug, PartialEq, Eq)]
pub struct PackageDirectory {
    /// The namespace of the package: a short tag for where it comes from.
    pub namespace: String,
    /// The name of the package.
    pub name: String,
    /// The version of the package.
    pub version: DirectoryVersion,
    /// The directory hash of the package.
    pub hash: DirectoryHash,
    /// More about the package, as JSON; its shape depends on the namespace.
    pub metadata: String,
}

impl PackageDirectory {
    /// A copy of this value.
    pub fn duplicate(&self) -> (copy: Self)
        ensures
            copy == *self,
    {
        Self {
            namespace: self.namespace.clone(),
            name: self.name.clone(),
            version: self.version.duplicate(),
            hash: self.hash,
            metadata: self.metadata.clone(),
        }
    }

    /// The directory in words: `namespace:name (version .., hash ..)`.
    pub open spec fn friendly(&self) -> Seq<char> {
        self.namespace@ + ":"@ + self.name@ + " (version "@ + self.version@.text() + ", hash "@
            + crate::directory_hash::hash_text(self.hash.value()) + ")"@
    }

    /// Describes the directory for a message.
    pub fn to_friendly(&self) -> (text: String)
        ensures
            text@ == self.friendly(),
    {
        let mut text = self.namespace.clone();
        text.append(":");
        text.append(self.name.as_str());
        text.append(" (version ");
        text.append(self.version.to_text().as_str());
        text.append(", hash ");
        text.append(self.hash.to_text().as_str());
        text.append(")");
        text
    }
}

/// What the catalog keeps for a package of the namespace `cargo`.
#[derive(Clone, Debug, PartialEq, Eq)]
pub struct CargoDirectory {
    /// Whether default features were requested.
    pub default_features: bool,
}

impl CargoDirectory {
    /// The metadata as the JSON object that the catalog stores.
    pub open spec fn json(&self) -> Seq<char> {
        if self.default_features {
            "{\"default-features\":true}"@
        } else {
            "{\"default-features\":false}"@
        }
    }

    /// Writes the metadata as the JSON object that the catalog stores.
    pub fn to_json(&self) -> (text: String)
        ensures
            text@ == self.json(),
    {
        if self.default_features {
            "{\"default-features\":true}".to_owned()
        } else {
            "{\"default-features\":false}".to_owned()
        }
    }

    /// What this metadata adds to the directory hash: one byte, 1 where
    /// default features were requested and 0 where not.
    pub fn hash_extra(&self) -> (extra: Vec<u8>)
        ensures
            extra@ == seq![if self.default_features { 1u8 } else { 0u8 }],
    {
        let mut extra: Vec<u8> = Vec::new();
        extra.push(if self.default_features { 1 } else { 0 });
        assert(extra@ =~= seq![if self.default_features { 1u8 } else { 0u8 }]);
        extra
    }
}

} // verus!
