//! The checksum algorithm and type of a multipart upload.
use crate::text::{lowercase, same_ignoring_case};
use vstd::prelude::*;

verus! {

/// Supported S3 checksum algorithms.
#[derive(Clone, Copy, Debug, PartialEq, Eq, Structural)]
pub enum ChecksumAlgorithm {
    /// CRC32 checksum.
    Crc32,
    /// CRC32C checksum.
    Crc32c,
    /// SHA1 checksum.
    Sha1,
    /// SHA256 checksum.
    Sha256,
    /// SHA512 checksum.
    Sha512,
}

/// S3 multipart checksum type.
#[derive(Clone, Copy, Debug, PartialEq, Eq, Structural)]
pub enum ChecksumType {
    /// Per-part checksum composition.
    Composite,
    /// Full-object checksum.
    FullObject,
}

/// The name of a checksum algorithm in requests and in stored metadata.
pub open spec fn algorithm_name(algorithm: ChecksumAlgorithm) -> Seq<char> {
    match algorithm {
        ChecksumAlgorithm::Crc32 => "CRC32"@,
        ChecksumAlgorithm::Crc32c => "CRC32C"@,
        ChecksumAlgorithm::Sha1 => "SHA1"@,
        ChecksumAlgorithm::Sha256 => "SHA256"@,
        ChecksumAlgorithm::Sha512 => "SHA512"@,
    }
}

/// The name of a checksum type in requests and in stored metadata.
pub open spec fn kind_name(checksum_type: ChecksumType) -> Seq<char> {
    match checksum_type {
        ChecksumType::Composite => "COMPOSITE"@,
        ChecksumType::FullObject => "FULL_OBJECT"@,
    }
}

/// The algorithm with a name, in letters of either case.
pub open spec fn algorithm_named(name: Seq<char>) -> Option<ChecksumAlgorithm> {
    if lowercase(name) == lowercase("CRC32"@) {
        Some(ChecksumAlgorithm::Crc32)
    } else if lowercase(name) == lowercase("CRC32C"@) {
        Some(ChecksumAlgorithm::Crc32c)
    } else if lowercase(name) == lowercase("SHA1"@) {
        Some(ChecksumAlgorithm::Sha1)
    } else if lowercase(name) == lowercase("SHA256"@) {
        Some(ChecksumAlgorithm::Sha256)
    } else if lowercase(name) == lowercase("SHA512"@) {
        Some(ChecksumAlgorithm::Sha512)
    } else {
        None
    }
}

/// The type with a name, in letters of either case.
pub open spec fn kind_with_name(name: Seq<char>) -> Option<ChecksumType> {
    if lowercase(name) == lowercase("COMPOSITE"@) {
        Some(ChecksumType::Composite)
    } else if lowercase(name) == lowercase("FULL_OBJECT"@) {
        Some(ChecksumType::FullObject)
    } else {
        None
    }
}

impl ChecksumAlgorithm {
    /// The name of the algorithm.
    pub fn as_str(self) -> (name: &'static str)
        ensures
            name@ == algorithm_name(self),
    {
        match self {
            ChecksumAlgorithm::Crc32 => "CRC32",
            ChecksumAlgorithm::Crc32c => "CRC32C",
            ChecksumAlgorithm::Sha1 => "SHA1",
            ChecksumAlgorithm::Sha256 => "SHA256",
            ChecksumAlgorithm::Sha512 => "SHA512",
        }
    }

    /// The algorithm with a name, in letters of either case.
    pub fn from_name(name: &str) -> (result: Option<Self>)
        ensures
            result == algorithm_named(name@),
    {
        if same_ignoring_case(name, "CRC32") {
            Some(ChecksumAlgorithm::Crc32)
        } else if same_ignoring_case(name, "CRC32C") {
            Some(ChecksumAlgorithm::Crc32c)
        } else if same_ignoring_case(name, "SHA1") {
            Some(ChecksumAlgorithm::Sha1)
        } else if same_ignoring_case(name, "SHA256") {
            Some(ChecksumAlgorithm::Sha256)
        } else if same_ignoring_case(name, "SHA512") {
            Some(ChecksumAlgorithm::Sha512)
        } else {
            None
        }
    }
}

impl ChecksumType {
    /// The name of the type.
    pub fn as_str(self) -> (name: &'static str)
        ensures
            name@ == kind_name(self),
    {
        match self {
            ChecksumType::Composite => "COMPOSITE",
            ChecksumType::FullObject => "FULL_OBJECT",
        }
    }

    /// The type with a name, in letters of either case.
    pub fn from_name(name: &str) -> (result: Option<Self>)
        ensures
            result == kind_with_name(name@),
    {
        if same_ignoring_case(name, "COMPOSITE") {
            Some(ChecksumType::Composite)
        } else if same_ignoring_case(name, "FULL_OBJECT") {
            Some(ChecksumType::FullObject)
        } else {
            None
        }
    }
}

/// Names are read back: each algorithm and each type is the one with its own name.
pub proof fn law_checksum_names_are_read_back(
    algorithm: ChecksumAlgorithm,
    checksum_type: ChecksumType,
)
    ensures
        algorithm_named(algorithm_name(algorithm)) == Some(algorithm),
        kind_with_name(kind_name(checksum_type)) == Some(checksum_type),
{
    reveal_strlit("CRC32");
    reveal_strlit("CRC32C");
    reveal_strlit("SHA1");
    reveal_strlit("SHA256");
    reveal_strlit("SHA512");
    reveal_strlit("COMPOSITE");
    reveal_strlit("FULL_OBJECT");
    assert(lowercase("SHA256"@)[3] == '2');
    assert(lowercase("SHA512"@)[3] == '5');
    assert(lowercase("CRC32"@).len() == 5);
    assert(lowercase("CRC32C"@)[0] == 'c');
    assert(lowercase("SHA1"@).len() == 4);
    assert(lowercase("SHA256"@)[0] == 's');
    assert(lowercase("SHA512"@)[0] == 's');
    assert(lowercase("COMPOSITE"@).len() == 9);
    assert(lowercase("FULL_OBJECT"@).len() == 11);
}

} // verus!
