//! The digests of a multipart upload that is being completed.
use crate::body::checksum::{ChecksumDigests, ChecksumRequest, RequestedView};
use crate::body::digests::{
    digest_more, digesting, finished_digests, CrcEngines, DigestState, DigestStateView,
    EnabledDigests,
};
use vstd::prelude::*;

verus! {

/// The digests that a request asks for.
pub open spec fn requested_digests(request: RequestedView) -> EnabledDigests {
    EnabledDigests {
        md5: request.md5 is Some,
        sha1: request.sha1 is Some,
        sha256: request.sha256 is Some,
        sha512: request.sha512 is Some,
        crc32: request.crc32 is Some,
        crc32c: request.crc32c is Some,
    }
}

/// Digests in progress over the bytes of a completed object, of the algorithms that the client
/// asked for.
pub struct MultipartCompleteChecksumState<'a> {
    digests: DigestState<'a>,
}

impl<'a> View for MultipartCompleteChecksumState<'a> {
    type V = DigestStateView;

    closed spec fn view(&self) -> DigestStateView {
        self.digests@
    }
}

impl<'a> MultipartCompleteChecksumState<'a> {
    /// Creates digest state only for checksums requested by the client.
    pub fn new(request: &ChecksumRequest, engines: &'a CrcEngines) -> (state: Self)
        ensures
            state@ == digesting(requested_digests(request@), Seq::empty()),
    {
        let enabled = EnabledDigests {
            md5: request.requires_md5(),
            sha1: request.requires_sha1(),
            sha256: request.requires_sha256(),
            sha512: request.requires_sha512(),
            crc32: request.requires_crc32(),
            crc32c: request.requires_crc32c(),
        };
        MultipartCompleteChecksumState { digests: DigestState::new(enabled, engines) }
    }

    /// Feeds completed multipart object bytes into every enabled digest.
    pub fn update(&mut self, bytes: &[u8])
        ensures
            final(self)@ == digest_more(old(self)@, bytes@),
    {
        self.digests.update(bytes);
    }

    /// Finalizes enabled digests and returns default values for disabled algorithms.
    pub fn finalize(self) -> (digests: ChecksumDigests)
        ensures
            digests@ == finished_digests(self@),
    {
        self.digests.finalize()
    }

    /// Returns which digests are enabled.
    pub fn enabled_digests(&self) -> (enabled: EnabledDigests)
        ensures
            enabled.md5 == self@.md5 is Some,
            enabled.sha1 == self@.sha1 is Some,
            enabled.sha256 == self@.sha256 is Some,
            enabled.sha512 == self@.sha512 is Some,
            enabled.crc32 == self@.crc32 is Some,
            enabled.crc32c == self@.crc32c is Some,
    {
        self.digests.enabled_digests()
    }
}

} // verus!
