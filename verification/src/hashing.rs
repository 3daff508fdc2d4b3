//! Message digests, checksums and keyed hashes.
//!
//! Each hasher of an outside crate is described by the bytes it has taken in so far, and each
//! finished digest by a named function of those bytes. Splitting an input into several updates
//! therefore cannot change the digest.
use hmac::Mac as _;
use md5::Digest as _;
use vstd::prelude::*;

verus! {

/// An MD5 computation in progress; holds the `md5::Md5` of the outside crate.
#[verifier::external_body]
pub struct Md5Hasher(
    md5::Md5,
);

/// The bytes that an MD5 hasher has taken in since it was made.
pub uninterp spec fn md5_input(hasher: Md5Hasher) -> Seq<u8>;

/// The MD5 digest of `bytes`.
pub uninterp spec fn md5_digest(bytes: Seq<u8>) -> Seq<u8>;

impl Md5Hasher {
    /// Calls `Md5::new`: a hasher that has taken in nothing.
    #[verifier::external_body]
    pub(crate) fn new() -> (hasher: Self)
        ensures
            md5_input(hasher) == Seq::<u8>::empty(),
    {
        Self(md5::Md5::new())
    }

    /// Calls `Md5::update`: the hasher takes in `data` after what it had.
    #[verifier::external_body]
    pub(crate) fn update(&mut self, data: &[u8])
        ensures
            md5_input(*final(self)) == md5_input(*old(self)) + data@,
    {
        self.0.update(data)
    }

    /// Calls `Md5::finalize`: the 16-byte MD5 digest of everything taken in.
    #[verifier::external_body]
    pub(crate) fn finalize(self) -> (digest: Vec<u8>)
        ensures
            digest@ == md5_digest(md5_input(self)),
            digest@.len() == 16,
    {
        self.0.finalize().to_vec()
    }
}

/// A SHA-1 computation in progress; holds the `sha1::Sha1` of the outside crate.
#[verifier::external_body]
pub struct Sha1Hasher(
    sha1::Sha1,
);

/// The bytes that a SHA-1 hasher has taken in since it was made.
pub uninterp spec fn sha1_input(hasher: Sha1Hasher) -> Seq<u8>;

/// The SHA-1 digest of `bytes`.
pub uninterp spec fn sha1_digest(bytes: Seq<u8>) -> Seq<u8>;

impl Sha1Hasher {
    /// Calls `Sha1::new`: a hasher that has taken in nothing.
    #[verifier::external_body]
    pub(crate) fn new() -> (hasher: Self)
        ensures
            sha1_input(hasher) == Seq::<u8>::empty(),
    {
        Self(sha1::Sha1::new())
    }

    /// Calls `Sha1::update`: the hasher takes in `data` after what it had.
    #[verifier::external_body]
    pub(crate) fn update(&mut self, data: &[u8])
        ensures
            sha1_input(*final(self)) == sha1_input(*old(self)) + data@,
    {
        self.0.update(data)
    }

    /// Calls `Sha1::finalize`: the 20-byte SHA-1 digest of everything taken in.
    #[verifier::external_body]
    pub(crate) fn finalize(self) -> (digest: Vec<u8>)
        ensures
            digest@ == sha1_digest(sha1_input(self)),
            digest@.len() == 20,
    {
        self.0.finalize().to_vec()
    }
}

/// A SHA-256 computation in progress; holds the `sha2::Sha256` of the outside crate.
#[verifier::external_body]
pub struct Sha256Hasher(
    sha2::Sha256,
);

/// The bytes that a SHA-256 hasher has taken in since it was made.
pub uninterp spec fn sha256_input(hasher: Sha256Hasher) -> Seq<u8>;

/// The SHA-256 digest of `bytes`.
pub uninterp spec fn sha256_digest(bytes: Seq<u8>) -> Seq<u8>;

impl Sha256Hasher {
    /// Calls `Sha256::new`: a hasher that has taken in nothing.
    #[verifier::external_body]
    pub(crate) fn new() -> (hasher: Self)
        ensures
            sha256_input(hasher) == Seq::<u8>::empty(),
    {
        Self(sha2::Sha256::new())
    }

    /// Calls `Sha256::update`: the hasher takes in `data` after what it had.
    #[verifier::external_body]
    pub(crate) fn update(&mut self, data: &[u8])
        ensures
            sha256_input(*final(self)) == sha256_input(*old(self)) + data@,
    {
        self.0.update(data)
    }

    /// Calls `Sha256::finalize`: the 32-byte SHA-256 digest of everything taken in.
    #[verifier::external_body]
    pub(crate) fn finalize(self) -> (digest: Vec<u8>)
        ensures
            digest@ == sha256_digest(sha256_input(self)),
            digest@.len() == 32,
    {
        self.0.finalize().to_vec()
    }
}

/// A SHA-512 computation in progress; holds the `sha2::Sha512` of the outside crate.
#[verifier::external_body]
pub struct Sha512Hasher(
    sha2::Sha512,
);

/// The bytes that a SHA-512 hasher has taken in since it was made.
pub uninterp spec fn sha512_input(hasher: Sha512Hasher) -> Seq<u8>;

/// The SHA-512 digest of `bytes`.
pub uninterp spec fn sha512_digest(bytes: Seq<u8>) -> Seq<u8>;

impl Sha512Hasher {
    /// Calls `Sha512::new`: a hasher that has taken in nothing.
    #[verifier::external_body]
    pub(crate) fn new() -> (hasher: Self)
        ensures
            sha512_input(hasher) == Seq::<u8>::empty(),
    {
        Self(sha2::Sha512::new())
    }

    /// Calls `Sha512::update`: the hasher takes in `data` after what it had.
    #[verifier::external_body]
    pub(crate) fn update(&mut self, data: &[u8])
        ensures
            sha512_input(*final(self)) == sha512_input(*old(self)) + data@,
    {
        self.0.update(data)
    }

    /// Calls `Sha512::finalize`: the 64-byte SHA-512 digest of everything taken in.
    #[verifier::external_body]
    pub(crate) fn finalize(self) -> (digest: Vec<u8>)
        ensures
            digest@ == sha512_digest(sha512_input(self)),
            digest@.len() == 64,
    {
        self.0.finalize().to_vec()
    }
}

/// The polynomial of CRC-32/ISO-HDLC.
pub const CRC32_POLYNOMIAL: u32 = 0x04c11db7;

/// The polynomial of CRC-32/ISCSI, also called CRC-32C.
pub const CRC32C_POLYNOMIAL: u32 = 0x1edc6f41;

/// A 32-bit CRC algorithm with its lookup table; holds the `crc::Crc<u32>` of the outside crate.
#[verifier::external_body]
pub struct CrcEngine(
    crc::Crc<u32>,
);

/// A CRC computation in progress; holds the `crc::Digest` of the outside crate.
#[verifier::external_body]
pub struct CrcHasher<'a>(
    crc::Digest<'a, u32>,
);

/// The polynomial of the algorithm that a CRC engine computes.
pub uninterp spec fn crc_engine_polynomial(engine: CrcEngine) -> u32;

/// The polynomial of the algorithm of a CRC computation in progress.
pub uninterp spec fn crc_polynomial(hasher: CrcHasher<'_>) -> u32;

/// The bytes that a CRC computation has taken in since it was started.
pub uninterp spec fn crc_input(hasher: CrcHasher<'_>) -> Seq<u8>;

/// The checksum of `bytes` by the catalogued reflected 32-bit CRC with the given polynomial, whose
/// initial value and final mask are both all ones.
pub uninterp spec fn crc_checksum(polynomial: u32, bytes: Seq<u8>) -> u32;

impl CrcEngine {
    /// Calls `Crc::<u32>::new` with `CRC_32_ISO_HDLC`.
    #[verifier::external_body]
    pub(crate) fn crc32() -> (engine: Self)
        ensures
            crc_engine_polynomial(engine) == CRC32_POLYNOMIAL,
    {
        Self(crc::Crc::<u32>::new(&crc::CRC_32_ISO_HDLC))
    }

    /// Calls `Crc::<u32>::new` with `CRC_32_ISCSI`.
    #[verifier::external_body]
    pub(crate) fn crc32c() -> (engine: Self)
        ensures
            crc_engine_polynomial(engine) == CRC32C_POLYNOMIAL,
    {
        Self(crc::Crc::<u32>::new(&crc::CRC_32_ISCSI))
    }

    /// Calls `Crc::digest`: a computation by the engine's algorithm that has taken in nothing.
    #[verifier::external_body]
    pub(crate) fn digest<'a>(&'a self) -> (hasher: CrcHasher<'a>)
        ensures
            crc_polynomial(hasher) == crc_engine_polynomial(*self),
            crc_input(hasher) == Seq::<u8>::empty(),
    {
        CrcHasher(self.0.digest())
    }
}

impl<'a> CrcHasher<'a> {
    /// Calls `crc::Digest::update`: the computation takes in `data` after what it had.
    #[verifier::external_body]
    pub(crate) fn update(&mut self, data: &[u8])
        ensures
            crc_polynomial(*final(self)) == crc_polynomial(*old(self)),
            crc_input(*final(self)) == crc_input(*old(self)) + data@,
    {
        self.0.update(data)
    }

    /// Calls `crc::Digest::finalize`: the checksum of everything taken in.
    #[verifier::external_body]
    pub(crate) fn finalize(self) -> (checksum: u32)
        ensures
            checksum == crc_checksum(crc_polynomial(self), crc_input(self)),
    {
        self.0.finalize()
    }
}

/// The HMAC-SHA-256 of `data` under `key`.
pub uninterp spec fn hmac_sha256_tag(key: Seq<u8>, data: Seq<u8>) -> Seq<u8>;

/// Calls `Hmac::<Sha256>::new_from_slice`, `update` and `finalize`: the 32-byte HMAC-SHA-256 of
/// `data` under `key`. A key of any length is accepted.
#[verifier::external_body]
pub(crate) fn hmac_sha256(key: &[u8], data: &[u8]) -> (tag: Vec<u8>)
    ensures
        tag@ == hmac_sha256_tag(key@, data@),
        tag@.len() == 32,
{
    let mut mac = hmac::Hmac::<sha2::Sha256>::new_from_slice(key).expect("any key length");
    mac.update(data);
    mac.finalize().into_bytes().to_vec()
}

/// The SHA-256 digest of `data`.
pub fn sha256(data: &[u8]) -> (digest: Vec<u8>)
    ensures
        digest@ == sha256_digest(data@),
        digest@.len() == 32,
{
    let mut hasher = Sha256Hasher::new();
    hasher.update(data);
    assert(Seq::<u8>::empty() + data@ == data@);
    hasher.finalize()
}


} // verus!
