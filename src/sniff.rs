//! Classifying an input stream by the magic bytes at its start.

use vstd::prelude::*;

verus! {

/// Number of leading bytes read to classify an input.
pub const MAGIC_LEN: usize = 6;

/// The archive formats that the extractor knows how to unpack.
#[derive(Clone, Copy, Debug, PartialEq, Eq, Structural)]
pub enum ArchiveKind {
    Gzip,
    Bzip2,
    Xz,
    Zip,
    Unknown,
}

/// Why an input could not be classified at all.
#[derive(Clone, Copy, Debug, PartialEq, Eq, Structural)]
pub enum SniffError {
    /// Fewer than `MAGIC_LEN` bytes were available.
    TruncatedInput,
}

pub open spec fn is_gzip_magic(m: Seq<u8>) -> bool {
    m[0] == 0x1f && m[1] == 0x8b
}

pub open spec fn is_bzip2_magic(m: Seq<u8>) -> bool {
    m[0] == 0x42 && m[1] == 0x5a && m[2] == 0x68
}

pub open spec fn is_xz_magic(m: Seq<u8>) -> bool {
    m[0] == 0xfd && m[1] == 0x37 && m[2] == 0x7a && m[3] == 0x58 && m[4] == 0x5a && m[5] == 0x00
}

pub open spec fn is_zip_magic(m: Seq<u8>) -> bool {
    m[0] == 0x50 && m[1] == 0x4b && m[2] == 0x03 && m[3] == 0x04
}

/// The kind named by a six-byte prefix `m`.
pub open spec fn kind_of(m: Seq<u8>) -> ArchiveKind
    recommends
        m.len() >= 6,
{
    if is_gzip_magic(m) {
        ArchiveKind::Gzip
    } else if is_bzip2_magic(m) {
        ArchiveKind::Bzip2
    } else if is_xz_magic(m) {
        ArchiveKind::Xz
    } else if is_zip_magic(m) {
        ArchiveKind::Zip
    } else {
        ArchiveKind::Unknown
    }
}

/// Classifies an input from its first bytes. Only the first `MAGIC_LEN`
/// bytes of `prefix` are looked at, and nothing is consumed: the caller
/// still holds every byte it passed in.
pub fn sniff(prefix: &[u8]) -> (r: Result<ArchiveKind, SniffError>)
    ensures
        prefix@.len() < MAGIC_LEN ==> r == Err::<ArchiveKind, SniffError>(SniffError::TruncatedInput),
        prefix@.len() >= MAGIC_LEN ==> r == Ok::<ArchiveKind, SniffError>(kind_of(prefix@)),
{
    if prefix.len() < MAGIC_LEN {
        return Err(SniffError::TruncatedInput);
    }
    let kind = if prefix[0] == 0x1f && prefix[1] == 0x8b {
        ArchiveKind::Gzip
    } else if prefix[0] == 0x42 && prefix[1] == 0x5a && prefix[2] == 0x68 {
        ArchiveKind::Bzip2
    } else if prefix[0] == 0xfd && prefix[1] == 0x37 && prefix[2] == 0x7a && prefix[3] == 0x58
        && prefix[4] == 0x5a && prefix[5] == 0x00 {
        ArchiveKind::Xz
    } else if prefix[0] == 0x50 && prefix[1] == 0x4b && prefix[2] == 0x03 && prefix[3] == 0x04 {
        ArchiveKind::Zip
    } else {
        ArchiveKind::Unknown
    };
    Ok(kind)
}

/// Every known magic pattern is recognised as its own kind, and a prefix
/// that matches none of them is `Unknown`. The four patterns are disjoint,
/// so the order in which they are tried does not matter.
pub proof fn lemma_sniff_classifies(m: Seq<u8>)
    requires
        m.len() >= 6,
    ensures
        is_gzip_magic(m) ==> kind_of(m) == ArchiveKind::Gzip,
        is_bzip2_magic(m) ==> kind_of(m) == ArchiveKind::Bzip2,
        is_xz_magic(m) ==> kind_of(m) == ArchiveKind::Xz,
        is_zip_magic(m) ==> kind_of(m) == ArchiveKind::Zip,
        kind_of(m) == ArchiveKind::Unknown <==> !(is_gzip_magic(m) || is_bzip2_magic(m)
            || is_xz_magic(m) || is_zip_magic(m)),
{
}

} // verus!
