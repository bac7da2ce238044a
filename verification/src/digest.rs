//! Digests of blobs, and what a tag claims about one.

use vstd::prelude::*;

verus! {

/// The digest of a blob: its 32 bytes as two big endian halves.
#[derive(Debug, Clone, Copy, PartialEq, Eq, PartialOrd, Ord, Hash, Structural)]
pub struct Digest {
    /// The first 16 bytes.
    pub hi: u128,
    /// The last 16 bytes.
    pub lo: u128,
}

/// How the bytes of a claimed blob are to be read.
#[derive(Debug, Clone, Copy, PartialEq, Eq, PartialOrd, Ord, Hash, Structural)]
pub enum BlobFormat {
    /// Opaque bytes: the claim keeps the blob itself.
    Raw,
    /// A sequence of digests: the claim keeps the blob and every blob that it names.
    HashSeq,
}

impl BlobFormat {
    /// Whether the blob is opaque bytes.
    pub fn is_raw(&self) -> (raw: bool)
        ensures
            raw == (*self == BlobFormat::Raw),
    {
        match self {
            BlobFormat::Raw => true,
            BlobFormat::HashSeq => false,
        }
    }
}

/// A claim: a digest and the format under which it is claimed.
///
/// The format is part of its identity, so one digest may be claimed as both.
#[derive(Debug, Clone, Copy, PartialEq, Eq, PartialOrd, Ord, Hash, Structural)]
pub struct HashAndFormat {
    /// The claimed digest.
    pub hash: Digest,
    /// The format it is claimed under.
    pub format: BlobFormat,
}

impl HashAndFormat {
    /// The claim of a blob alone.
    pub fn raw(hash: Digest) -> (claim: Self)
        ensures
            claim == (HashAndFormat { hash, format: BlobFormat::Raw }),
    {
        HashAndFormat { hash, format: BlobFormat::Raw }
    }

    /// The claim of a collection: the blob and all that it names.
    pub fn hash_seq(hash: Digest) -> (claim: Self)
        ensures
            claim == (HashAndFormat { hash, format: BlobFormat::HashSeq }),
    {
        HashAndFormat { hash, format: BlobFormat::HashSeq }
    }
}

} // verus!
