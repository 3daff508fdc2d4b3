//! Several digests of one input, computed together as the input arrives.
use crate::body::checksum::{be_bytes, mismatch_error, ChecksumDigests, DigestsView, RequestedView};
use crate::hashing::{
    crc_checksum, crc_engine_polynomial, crc_input, crc_polynomial, md5_digest, md5_input,
    sha1_digest, sha1_input, sha256_digest, sha256_input, sha512_digest, sha512_input,
    CRC32C_POLYNOMIAL, CRC32_POLYNOMIAL, CrcEngine, CrcHasher, Md5Hasher, Sha1Hasher, Sha256Hasher,
    Sha512Hasher,
};
use vstd::prelude::*;

verus! {

/// Which digests are computed.
#[derive(Clone, Copy, Debug, PartialEq, Eq, Structural)]
pub struct EnabledDigests {
    /// MD5.
    pub md5: bool,
    /// SHA-1.
    pub sha1: bool,
    /// SHA-256.
    pub sha256: bool,
    /// SHA-512.
    pub sha512: bool,
    /// CRC-32.
    pub crc32: bool,
    /// CRC-32C.
    pub crc32c: bool,
}

/// The lookup tables of the two CRC algorithms.
pub struct CrcEngines {
    crc32: CrcEngine,
    crc32c: CrcEngine,
}

impl View for CrcEngines {
    type V = (u32, u32);

    /// The polynomials of the two algorithms.
    closed spec fn view(&self) -> (u32, u32) {
        (crc_engine_polynomial(self.crc32), crc_engine_polynomial(self.crc32c))
    }
}

impl CrcEngines {
    #[verifier::type_invariant]
    spec fn well_formed(self) -> bool {
        &&& crc_engine_polynomial(self.crc32) == CRC32_POLYNOMIAL
        &&& crc_engine_polynomial(self.crc32c) == CRC32C_POLYNOMIAL
    }

    /// Computes the lookup tables.
    pub fn new() -> (engines: Self)
        ensures
            engines@ == (CRC32_POLYNOMIAL, CRC32C_POLYNOMIAL),
    {
        CrcEngines { crc32: CrcEngine::crc32(), crc32c: CrcEngine::crc32c() }
    }
}

/// Digests in progress.
pub struct DigestState<'a> {
    md5: Option<Md5Hasher>,
    sha1: Option<Sha1Hasher>,
    sha256: Option<Sha256Hasher>,
    sha512: Option<Sha512Hasher>,
    crc32: Option<CrcHasher<'a>>,
    crc32c: Option<CrcHasher<'a>>,
}

/// A [`DigestState`] as a mathematical value: for each digest that is computed the bytes it has
/// taken in, and for a CRC also its polynomial.
#[verifier::ext_equal]
pub struct DigestStateView {
    pub md5: Option<Seq<u8>>,
    pub sha1: Option<Seq<u8>>,
    pub sha256: Option<Seq<u8>>,
    pub sha512: Option<Seq<u8>>,
    pub crc32: Option<(u32, Seq<u8>)>,
    pub crc32c: Option<(u32, Seq<u8>)>,
}

impl<'a> View for DigestState<'a> {
    type V = DigestStateView;

    closed spec fn view(&self) -> DigestStateView {
        DigestStateView {
            md5: match self.md5 {
                Some(h) => Some(md5_input(h)),
                None => None,
            },
            sha1: match self.sha1 {
                Some(h) => Some(sha1_input(h)),
                None => None,
            },
            sha256: match self.sha256 {
                Some(h) => Some(sha256_input(h)),
                None => None,
            },
            sha512: match self.sha512 {
                Some(h) => Some(sha512_input(h)),
                None => None,
            },
            crc32: match self.crc32 {
                Some(h) => Some((crc_polynomial(h), crc_input(h))),
                None => None,
            },
            crc32c: match self.crc32c {
                Some(h) => Some((crc_polynomial(h), crc_input(h))),
                None => None,
            },
        }
    }
}

/// The digests that are enabled, all after the same input.
pub open spec fn digesting(enabled: EnabledDigests, input: Seq<u8>) -> DigestStateView {
    DigestStateView {
        md5: if enabled.md5 {
            Some(input)
        } else {
            None
        },
        sha1: if enabled.sha1 {
            Some(input)
        } else {
            None
        },
        sha256: if enabled.sha256 {
            Some(input)
        } else {
            None
        },
        sha512: if enabled.sha512 {
            Some(input)
        } else {
            None
        },
        crc32: if enabled.crc32 {
            Some((CRC32_POLYNOMIAL, input))
        } else {
            None
        },
        crc32c: if enabled.crc32c {
            Some((CRC32C_POLYNOMIAL, input))
        } else {
            None
        },
    }
}

/// A digest after more bytes.
pub open spec fn extended_input(input: Option<Seq<u8>>, bytes: Seq<u8>) -> Option<Seq<u8>> {
    match input {
        Some(i) => Some(i + bytes),
        None => None,
    }
}

/// A CRC after more bytes.
pub open spec fn extended_crc(input: Option<(u32, Seq<u8>)>, bytes: Seq<u8>) -> Option<
    (u32, Seq<u8>),
> {
    match input {
        Some((p, i)) => Some((p, i + bytes)),
        None => None,
    }
}

/// Digests after more bytes.
pub open spec fn digest_more(state: DigestStateView, bytes: Seq<u8>) -> DigestStateView {
    DigestStateView {
        md5: extended_input(state.md5, bytes),
        sha1: extended_input(state.sha1, bytes),
        sha256: extended_input(state.sha256, bytes),
        sha512: extended_input(state.sha512, bytes),
        crc32: extended_crc(state.crc32, bytes),
        crc32c: extended_crc(state.crc32c, bytes),
    }
}

/// The checksum of a CRC; zero where it is not computed.
pub open spec fn finished_crc(input: Option<(u32, Seq<u8>)>) -> u32 {
    match input {
        Some((p, i)) => crc_checksum(p, i),
        None => 0,
    }
}

/// The digests of what was taken in; empty or zero where a digest is not computed.
pub open spec fn finished_digests(state: DigestStateView) -> DigestsView {
    DigestsView {
        md5: match state.md5 {
            Some(i) => md5_digest(i),
            None => Seq::empty(),
        },
        sha1: match state.sha1 {
            Some(i) => sha1_digest(i),
            None => Seq::empty(),
        },
        sha256: match state.sha256 {
            Some(i) => sha256_digest(i),
            None => Seq::empty(),
        },
        sha512: match state.sha512 {
            Some(i) => sha512_digest(i),
            None => Seq::empty(),
        },
        crc32: finished_crc(state.crc32),
        crc32c: finished_crc(state.crc32c),
    }
}

/// The enabled digests of an input.
pub open spec fn digests_of(enabled: EnabledDigests, input: Seq<u8>) -> DigestsView {
    finished_digests(digesting(enabled, input))
}

/// Every digest there is.
pub open spec fn all_digests() -> EnabledDigests {
    EnabledDigests { md5: true, sha1: true, sha256: true, sha512: true, crc32: true, crc32c: true }
}

impl<'a> DigestState<'a> {
    /// Starts the enabled digests.
    pub fn new(enabled: EnabledDigests, engines: &'a CrcEngines) -> (state: Self)
        ensures
            state@ == digesting(enabled, Seq::empty()),
    {
        proof {
            use_type_invariant(engines);
        }
        DigestState {
            md5: if enabled.md5 {
                Some(Md5Hasher::new())
            } else {
                None
            },
            sha1: if enabled.sha1 {
                Some(Sha1Hasher::new())
            } else {
                None
            },
            sha256: if enabled.sha256 {
                Some(Sha256Hasher::new())
            } else {
                None
            },
            sha512: if enabled.sha512 {
                Some(Sha512Hasher::new())
            } else {
                None
            },
            crc32: if enabled.crc32 {
                Some(engines.crc32.digest())
            } else {
                None
            },
            crc32c: if enabled.crc32c {
                Some(engines.crc32c.digest())
            } else {
                None
            },
        }
    }

    /// Which digests are computed.
    pub fn enabled_digests(&self) -> (enabled: EnabledDigests)
        ensures
            enabled.md5 == self@.md5 is Some,
            enabled.sha1 == self@.sha1 is Some,
            enabled.sha256 == self@.sha256 is Some,
            enabled.sha512 == self@.sha512 is Some,
            enabled.crc32 == self@.crc32 is Some,
            enabled.crc32c == self@.crc32c is Some,
    {
        EnabledDigests {
            md5: self.md5.is_some(),
            sha1: self.sha1.is_some(),
            sha256: self.sha256.is_some(),
            sha512: self.sha512.is_some(),
            crc32: self.crc32.is_some(),
            crc32c: self.crc32c.is_some(),
        }
    }

    /// Takes more bytes into every digest that is computed.
    pub fn update(&mut self, bytes: &[u8])
        ensures
            final(self)@ == digest_more(old(self)@, bytes@),
    {
        if let Some(hasher) = self.md5.as_mut() {
            hasher.update(bytes);
        }
        if let Some(hasher) = self.sha1.as_mut() {
            hasher.update(bytes);
        }
        if let Some(hasher) = self.sha256.as_mut() {
            hasher.update(bytes);
        }
        if let Some(hasher) = self.sha512.as_mut() {
            hasher.update(bytes);
        }
        if let Some(hasher) = self.crc32.as_mut() {
            hasher.update(bytes);
        }
        if let Some(hasher) = self.crc32c.as_mut() {
            hasher.update(bytes);
        }
    }

    /// The digests of what was taken in.
    pub fn finalize(self) -> (digests: ChecksumDigests)
        ensures
            digests@ == finished_digests(self@),
    {
        ChecksumDigests {
            md5: match self.md5 {
                Some(hasher) => hasher.finalize(),
                None => Vec::new(),
            },
            sha1: match self.sha1 {
                Some(hasher) => hasher.finalize(),
                None => Vec::new(),
            },
            sha256: match self.sha256 {
                Some(hasher) => hasher.finalize(),
                None => Vec::new(),
            },
            sha512: match self.sha512 {
                Some(hasher) => hasher.finalize(),
                None => Vec::new(),
            },
            crc32: match self.crc32 {
                Some(hasher) => hasher.finalize(),
                None => 0,
            },
            crc32c: match self.crc32c {
                Some(hasher) => hasher.finalize(),
                None => 0,
            },
        }
    }
}

/// Taking in two pieces one after the other is taking in both at once.
pub proof fn lemma_digest_more(state: DigestStateView, first: Seq<u8>, second: Seq<u8>)
    ensures
        digest_more(digest_more(state, first), second) == digest_more(state, first + second),
        digest_more(state, Seq::empty()) == state,
{
    let one = digest_more(digest_more(state, first), second);
    let two = digest_more(state, first + second);
    assert(forall|input: Seq<u8>| #[trigger] (input + (first + second)) =~= input + first + second);
    assert(forall|input: Seq<u8>| #[trigger] (input + Seq::<u8>::empty()) =~= input);
    assert(one =~= two);
    assert(digest_more(state, Seq::empty()) =~= state);
}

/// The pieces in which an input arrives do not matter to its digests.
pub proof fn law_digests_do_not_depend_on_pieces(
    enabled: EnabledDigests,
    first: Seq<u8>,
    second: Seq<u8>,
)
    ensures
        digest_more(digesting(enabled, first), second) == digesting(enabled, first + second),
        finished_digests(digest_more(digesting(enabled, first), second)) == digests_of(
            enabled,
            first + second,
        ),
{
}

/// Data is refused for its digests if and only if one that a request gives is not that of the data,
/// and then with status 400.
pub proof fn law_given_digests_decide(request: RequestedView, data: Seq<u8>)
    ensures
        ({
            let fits = {
                &&& request.md5 is Some ==> request.md5->0 == md5_digest(data)
                &&& request.sha1 is Some ==> request.sha1->0 == sha1_digest(data)
                &&& request.sha256 is Some ==> request.sha256->0 == sha256_digest(data)
                &&& request.sha512 is Some ==> request.sha512->0 == sha512_digest(data)
                &&& request.crc32 is Some ==> request.crc32->0 == be_bytes(
                    crc_checksum(0x04c11db7, data),
                )
                &&& request.crc32c is Some ==> request.crc32c->0 == be_bytes(
                    crc_checksum(0x1edc6f41, data),
                )
            };
            match mismatch_error(request, digests_of(all_digests(), data)) {
                None => fits,
                Some(error) => !fits && error.status == 400 && error.code == "BadDigest"@,
            }
        }),
{
}

} // verus!
