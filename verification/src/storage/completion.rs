//! Completing a multipart upload: which parts it is made of, what is computed while they are put
//! together, and the metadata of the object that comes out.
use crate::body::checksum::{
    checksum_values_for_requested_headers, computed_values, mismatch_error, requested_values,
    ChecksumRequest, RequestedView,
};
use crate::body::digests::{digest_more, digesting, finished_digests, CrcEngines, DigestStateView};
use crate::body::upload::{FinalUploadBody, FinalView, UploadedBody};
use crate::collections::mapping;
use crate::config::UploadLimits;
use crate::hashing::{md5_digest, md5_input, Md5Hasher};
use crate::s3::types::{md5_etag, multipart_etag, ETag, S3Target};
use crate::storage::complete_checksum::{requested_digests, MultipartCompleteChecksumState};
use crate::storage::error::{StoreError, StoreErrorView};
use crate::storage::model::{
    find_part, lemma_find_part, part_views, parts_ascend, CompletedPart, CompletedView, EntryView,
    MetadataView, ObjectMetadata, PartMetadata, PartView, UploadMetadata, UploadMetadataView,
    UploadSession,
};
use crate::text::{decimal, hex_encode, hex_text, same};
use crate::time::Instant;
use vstd::prelude::*;

verus! {

// ---------------------------------------------------------------------------------------------
// The parts of the object
// ---------------------------------------------------------------------------------------------
/// The stored parts that the first `n` requested parts name. Each must be stored with the ETag that
/// the request gives, and each but the last must not be smaller than `min`.
pub open spec fn completion_parts(
    stored: Seq<EntryView>,
    requested: Seq<CompletedView>,
    min: nat,
    n: int,
) -> Result<Seq<PartView>, StoreErrorView>
    decreases n,
{
    if n <= 0 {
        Ok(Seq::empty())
    } else {
        match completion_parts(stored, requested, min, n - 1) {
            Err(error) => Err(error),
            Ok(parts) => match find_part(stored, requested[n - 1].number) {
                None => Err(StoreErrorView::InvalidPart),
                Some(part) => if part.etag != requested[n - 1].etag {
                    Err(StoreErrorView::InvalidPart)
                } else if n < requested.len() && part.size < min {
                    Err(StoreErrorView::EntityTooSmall)
                } else {
                    Ok(parts.push(part))
                },
            },
        }
    }
}

proof fn lemma_completion_parts_fail(
    stored: Seq<EntryView>,
    requested: Seq<CompletedView>,
    min: nat,
    n: int,
)
    requires
        0 <= n <= requested.len(),
        completion_parts(stored, requested, min, n) is Err,
    ensures
        completion_parts(stored, requested, min, requested.len() as int) == completion_parts(
            stored,
            requested,
            min,
            n,
        ),
    decreases requested.len() - n,
{
    if n < requested.len() {
        lemma_completion_parts_fail(stored, requested, min, n + 1);
    }
}

/// Finds the stored parts that a completion request names.
pub fn validate_requested_parts(
    session: &UploadSession,
    requested_parts: &Vec<CompletedPart>,
    limits: &UploadLimits,
) -> (result: Result<Vec<PartMetadata>, StoreError>)
    ensures
        match result {
            Ok(parts) => completion_parts(
                session@.parts,
                crate::handlers::multipart::completed_views(requested_parts@),
                limits.min_non_final_part_size as nat,
                requested_parts@.len() as int,
            ) == Ok::<_, StoreErrorView>(part_views(parts@)),
            Err(error) => completion_parts(
                session@.parts,
                crate::handlers::multipart::completed_views(requested_parts@),
                limits.min_non_final_part_size as nat,
                requested_parts@.len() as int,
            ) == Err::<Seq<PartView>, _>(error@),
        },
{
    let ghost stored = session@.parts;
    let ghost all = crate::handlers::multipart::completed_views(requested_parts@);
    let ghost min = limits.min_non_final_part_size as nat;
    let mut parts: Vec<PartMetadata> = Vec::new();
    let mut i: usize = 0;
    assert(part_views(parts@) =~= Seq::<PartView>::empty());
    while i < requested_parts.len()
        invariant
            i <= requested_parts@.len(),
            stored == session@.parts,
            all == crate::handlers::multipart::completed_views(requested_parts@),
            min == limits.min_non_final_part_size,
            completion_parts(stored, all, min, i as int) == Ok::<_, StoreErrorView>(
                part_views(parts@),
            ),
        decreases requested_parts.len() - i,
    {
        proof {
            assert(all[i as int] == requested_parts@[i as int]@);
            assert(all.len() == requested_parts@.len());
            if completion_parts(stored, all, min, i + 1) is Err {
                lemma_completion_parts_fail(stored, all, min, i + 1);
            }
        }
        let part = match session.parts.get(requested_parts[i].part_number) {
            Some(part) => part,
            None => {
                return Err(StoreError::InvalidPart);
            },
        };
        if !same(part.etag.as_str(), requested_parts[i].etag.as_str()) {
            return Err(StoreError::InvalidPart);
        }
        if i + 1 < requested_parts.len() && part.size < limits.min_non_final_part_size {
            return Err(StoreError::EntityTooSmall);
        }
        let ghost before = parts@;
        let copy = part.clone();
        let ghost view = copy@;
        parts.push(copy);
        assert(part_views(parts@) =~= part_views(before).push(view));
        i += 1;
    }
    Ok(parts)
}

/// A completed object is made of exactly the parts that the request names, in its order, each with
/// the ETag that the request gives.
pub proof fn law_completed_objects_are_made_of_the_requested_parts(
    stored: Seq<EntryView>,
    requested: Seq<CompletedView>,
    min: nat,
    n: int,
    i: int,
)
    requires
        0 <= i < n <= requested.len(),
        completion_parts(stored, requested, min, n) is Ok,
    ensures
        completion_parts(stored, requested, min, n)->Ok_0.len() == n,
        find_part(stored, requested[i].number) == Some(
            completion_parts(stored, requested, min, n)->Ok_0[i],
        ),
        completion_parts(stored, requested, min, n)->Ok_0[i].etag == requested[i].etag,
        i + 1 < requested.len() ==> completion_parts(stored, requested, min, n)->Ok_0[i].size
            >= min,
    decreases n,
{
    if n == 1 {
        assert(completion_parts(stored, requested, min, 0) == Ok::<_, StoreErrorView>(
            Seq::<PartView>::empty(),
        ));
    } else if i < n - 1 {
        law_completed_objects_are_made_of_the_requested_parts(stored, requested, min, n - 1, i);
    } else {
        law_completed_objects_are_made_of_the_requested_parts(stored, requested, min, n - 1, 0);
    }
}

/// Whether a part is stored under the number that a requested part names, with the ETag that the
/// request gives.
pub open spec fn is_stored_with_tag(stored: Seq<EntryView>, requested: CompletedView) -> bool {
    exists|k: int|
        0 <= k < stored.len() && (#[trigger] stored[k]).key == requested.number
            && stored[k].part.etag == requested.etag
}

/// Whether the part that is stored under the number of a requested part has at least a size.
pub open spec fn is_large_enough(
    stored: Seq<EntryView>,
    requested: CompletedView,
    min: nat,
) -> bool {
    forall|k: int|
        0 <= k < stored.len() && (#[trigger] stored[k]).key == requested.number
            ==> stored[k].part.size >= min
}

/// Whether the requested part at a position can be part of the object: it is stored with its ETag,
/// and it is the last one or has the smallest allowed size.
pub open spec fn is_in_order(
    stored: Seq<EntryView>,
    requested: Seq<CompletedView>,
    min: nat,
    i: int,
) -> bool {
    &&& is_stored_with_tag(stored, requested[i])
    &&& i == requested.len() - 1 || is_large_enough(stored, requested[i], min)
}

proof fn lemma_parts_in_order(
    stored: Seq<EntryView>,
    requested: Seq<CompletedView>,
    min: nat,
    n: int,
)
    requires
        parts_ascend(stored),
        0 <= n <= requested.len(),
    ensures
        (forall|i: int| 0 <= i < n ==> #[trigger] is_in_order(stored, requested, min, i))
            <==> completion_parts(stored, requested, min, n) is Ok,
        completion_parts(stored, requested, min, n) matches Err(error) ==> exists|i: int|
            {
                &&& 0 <= i < n
                &&& #[trigger] is_in_order(stored, requested, min, i) == false
                &&& forall|j: int|
                    0 <= j < i ==> #[trigger] is_in_order(stored, requested, min, j)
                &&& error == if is_stored_with_tag(stored, requested[i]) {
                    StoreErrorView::EntityTooSmall
                } else {
                    StoreErrorView::InvalidPart
                }
            },
    decreases n,
{
    if n > 0 {
        lemma_parts_in_order(stored, requested, min, n - 1);
        let last = requested[n - 1];
        lemma_find_part(stored, last.number);
        if is_stored_with_tag(stored, last) {
            let k = choose|k: int|
                0 <= k < stored.len() && (#[trigger] stored[k]).key == last.number
                    && stored[k].part.etag == last.etag;
            assert(find_part(stored, last.number) == Some(stored[k].part));
        }
        if find_part(stored, last.number) is Some {
            let k = choose|k: int|
                0 <= k < stored.len() && (#[trigger] stored[k]).key == last.number;
            assert(find_part(stored, last.number) == Some(stored[k].part));
            assert forall|m: int|
                0 <= m < stored.len() && (#[trigger] stored[m]).key == last.number implies m
                == k by {
                assert(stored[k].key == last.number);
            }
        }
        if completion_parts(stored, requested, min, n - 1) is Ok {
            assert(is_in_order(stored, requested, min, n - 1) <==> completion_parts(
                stored,
                requested,
                min,
                n,
            ) is Ok);
        }
    }
}

/// A completion succeeds if and only if it is in order: every requested part is stored under its
/// number with the ETag that the request gives, and every requested part but the last has the
/// smallest allowed size. One that is not is refused for the first part that is out of order:
/// because it is too small, or because it is not stored with its ETag.
pub proof fn law_completions_in_order_succeed(
    stored: Seq<EntryView>,
    requested: Seq<CompletedView>,
    min: nat,
)
    requires
        parts_ascend(stored),
    ensures
        (forall|i: int|
            0 <= i < requested.len() ==> #[trigger] is_in_order(stored, requested, min, i))
            <==> completion_parts(stored, requested, min, requested.len() as int) is Ok,
        completion_parts(stored, requested, min, requested.len() as int) matches Err(error)
            ==> exists|i: int|
            {
                &&& 0 <= i < requested.len()
                &&& #[trigger] is_in_order(stored, requested, min, i) == false
                &&& forall|j: int|
                    0 <= j < i ==> #[trigger] is_in_order(stored, requested, min, j)
                &&& error == if is_stored_with_tag(stored, requested[i]) {
                    StoreErrorView::EntityTooSmall
                } else {
                    StoreErrorView::InvalidPart
                }
            },
{
    lemma_parts_in_order(stored, requested, min, requested.len() as int);
}

// ---------------------------------------------------------------------------------------------
// Putting the parts together
// ---------------------------------------------------------------------------------------------
/// What is computed while the parts of an object are put together.
pub struct CompletionAssembly<'a> {
    md5: Md5Hasher,
    checksums: MultipartCompleteChecksumState<'a>,
    total: u64,
    max: u64,
}

/// A [`CompletionAssembly`] as a mathematical value: the MD5 digests of the parts so far, the
/// requested digests of their bytes, their size and the largest allowed size.
#[verifier::ext_equal]
pub struct AssemblyView {
    pub md5: Seq<u8>,
    pub digests: DigestStateView,
    pub total: nat,
    pub max: nat,
}

impl<'a> View for CompletionAssembly<'a> {
    type V = AssemblyView;

    closed spec fn view(&self) -> AssemblyView {
        AssemblyView {
            md5: md5_input(self.md5),
            digests: self.checksums@,
            total: self.total as nat,
            max: self.max as nat,
        }
    }
}

impl<'a> CompletionAssembly<'a> {
    /// Starts with no part.
    pub fn new(request: &ChecksumRequest, limits: &UploadLimits, engines: &'a CrcEngines) -> (
    assembly: Self)
        ensures
            assembly@ == (AssemblyView {
                md5: Seq::empty(),
                digests: digesting(requested_digests(request@), Seq::empty()),
                total: 0,
                max: limits.max_object_size as nat,
            }),
    {
        CompletionAssembly {
            md5: Md5Hasher::new(),
            checksums: MultipartCompleteChecksumState::new(request, engines),
            total: 0,
            max: limits.max_object_size,
        }
    }

    /// Takes in bytes of the current part.
    pub fn absorb(&mut self, bytes: &[u8])
        ensures
            final(self)@ == (AssemblyView {
                digests: digest_more(old(self)@.digests, bytes@),
                ..old(self)@
            }),
    {
        self.checksums.update(bytes);
    }

    /// Ends the current part; fails where the object becomes too large.
    pub fn end_part(&mut self, part: &PartMetadata) -> (result: Result<(), StoreError>)
        ensures
            match result {
                Ok(()) => {
                    &&& old(self)@.total + part@.size <= old(self)@.max
                    &&& final(self)@ == (AssemblyView {
                        md5: old(self)@.md5 + part@.md5,
                        total: old(self)@.total + part@.size,
                        ..old(self)@
                    })
                },
                Err(error) => old(self)@.total + part@.size > old(self)@.max && error@
                    == StoreErrorView::EntityTooLarge,
            },
    {
        self.md5.update(part.md5.as_slice());
        let total: u128 = self.total as u128 + part.size as u128;
        if total > self.max as u128 {
            return Err(StoreError::EntityTooLarge);
        }
        self.total = total as u64;
        Ok(())
    }

    /// Checks the requested checksums; gives the MD5 digest of the parts' digests in hexadecimal,
    /// and the size.
    pub fn finish(self, request: &ChecksumRequest) -> (result: Result<(String, u64), StoreError>)
        ensures
            match mismatch_error(request@, finished_digests(self@.digests)) {
                Some(error) => result is Err && result->Err_0@ == StoreErrorView::Checksum(error),
                None => result is Ok && result->Ok_0.0@ == hex_text(md5_digest(self@.md5))
                    && result->Ok_0.1 == self@.total,
            },
    {
        let digests = self.checksums.finalize();
        match request.validate(&digests) {
            Ok(()) => {},
            Err(error) => {
                return Err(StoreError::Checksum(error));
            },
        }
        Ok((hex_encode(self.md5.finalize().as_slice()), self.total))
    }
}

// ---------------------------------------------------------------------------------------------
// Metadata
// ---------------------------------------------------------------------------------------------
/// The metadata of an object that is stored now.
pub open spec fn object_metadata(
    bucket: Seq<char>,
    key: Seq<char>,
    size: nat,
    etag: Seq<char>,
    metadata: UploadMetadataView,
    checksums: Seq<(Seq<char>, Seq<char>)>,
    now: (int, int),
) -> MetadataView {
    MetadataView {
        bucket,
        key,
        size,
        etag,
        content_type: metadata.content_type,
        content_encoding: metadata.content_encoding,
        content_disposition: metadata.content_disposition,
        content_language: metadata.content_language,
        cache_control: metadata.cache_control,
        expires: metadata.expires,
        tagging: metadata.tagging,
        user_metadata: metadata.user_metadata,
        checksums,
        last_modified: now,
    }
}

/// Makes the metadata of an object that a single request uploaded.
pub fn put_object_metadata(
    target: &S3Target,
    body: &UploadedBody,
    metadata: UploadMetadata,
    now: Instant,
) -> (result: ObjectMetadata)
    ensures
        result@ == object_metadata(
            target@.bucket,
            target@.key,
            body@.size,
            md5_etag(hex_text(body@.md5)),
            metadata@,
            body.checksums@,
            now@,
        ),
{
    ObjectMetadata {
        bucket: target.bucket.clone(),
        key: target.key.clone(),
        size: body.size.get(),
        etag: ETag::from_hex_md5(hex_encode(body.md5_digest.as_slice()).as_str()),
        content_type: metadata.content_type,
        content_encoding: metadata.content_encoding,
        content_disposition: metadata.content_disposition,
        content_language: metadata.content_language,
        cache_control: metadata.cache_control,
        expires: metadata.expires,
        tagging: metadata.tagging,
        user_metadata: metadata.user_metadata,
        checksums: body.checksums.clone(),
        last_modified: now,
    }
}

/// Makes the metadata of an object that a single request uploaded and that processors may have
/// changed since: its size, its ETag and its checksums are those of the bytes that are published.
pub fn processed_object_metadata(
    target: &S3Target,
    uploaded: &UploadedBody,
    body: &FinalUploadBody,
    metadata: UploadMetadata,
    limits: &UploadLimits,
    now: Instant,
) -> (result: Result<ObjectMetadata, StoreError>)
    ensures
        match result {
            Err(error) => body@.size > limits.max_object_size && error@
                == StoreErrorView::EntityTooLarge,
            Ok(object) => {
                &&& body@.size <= limits.max_object_size
                &&& mapping(object.checksums@) == requested_values(
                    mapping(uploaded.checksums@),
                    body@.digests,
                )
                &&& object@ == object_metadata(
                    target@.bucket,
                    target@.key,
                    body@.size,
                    md5_etag(hex_text(body@.digests.md5)),
                    metadata@,
                    object.checksums@,
                    now@,
                )
            },
        },
{
    let size: u64 = body.size.get();
    if size > limits.max_object_size {
        return Err(StoreError::EntityTooLarge);
    }
    Ok(
        ObjectMetadata {
            bucket: target.bucket.clone(),
            key: target.key.clone(),
            size,
            etag: ETag::from_hex_md5(hex_encode(body.digests.md5.as_slice()).as_str()),
            content_type: metadata.content_type,
            content_encoding: metadata.content_encoding,
            content_disposition: metadata.content_disposition,
            content_language: metadata.content_language,
            cache_control: metadata.cache_control,
            expires: metadata.expires,
            tagging: metadata.tagging,
            user_metadata: metadata.user_metadata,
            checksums: checksum_values_for_requested_headers(&uploaded.checksums, &body.digests),
            last_modified: now,
        },
    )
}

/// The ETag of a completed upload: made of its parts' digests, or of its bytes where processors may
/// have changed them.
pub open spec fn completed_etag(
    multipart_md5: Seq<char>,
    part_count: nat,
    final_md5: Seq<u8>,
    processed: bool,
) -> Seq<char> {
    if processed {
        md5_etag(hex_text(final_md5))
    } else {
        multipart_etag(multipart_md5, part_count)
    }
}

/// The checksums of a completed upload: as the request gave them, or computed anew where processors
/// may have changed its bytes.
pub open spec fn completed_checksums(
    request: RequestedView,
    body: FinalView,
    processed: bool,
) -> Map<Seq<char>, Seq<char>> {
    if processed {
        computed_values(request, body.digests)
    } else {
        request.values
    }
}

/// Makes the metadata of a completed upload; fails where its bytes, as they are after processing,
/// are too many.
pub fn completed_metadata(
    session: UploadSession,
    multipart_md5: &str,
    part_count: usize,
    body: &FinalUploadBody,
    request: &ChecksumRequest,
    processed: bool,
    limits: &UploadLimits,
    now: Instant,
) -> (result: Result<ObjectMetadata, StoreError>)
    ensures
        match result {
            Err(error) => body@.size > limits.max_object_size && error@
                == StoreErrorView::EntityTooLarge,
            Ok(metadata) => {
                &&& body@.size <= limits.max_object_size
                &&& mapping(metadata.checksums@) == completed_checksums(request@, body@, processed)
                &&& metadata@ == object_metadata(
                    session@.bucket,
                    session@.key,
                    body@.size,
                    completed_etag(
                        multipart_md5@,
                        part_count as nat,
                        body@.digests.md5,
                        processed,
                    ),
                    session@.metadata,
                    metadata.checksums@,
                    now@,
                )
            },
        },
{
    let size: u64 = body.size.get();
    if size > limits.max_object_size {
        return Err(StoreError::EntityTooLarge);
    }
    let etag = if processed {
        ETag::from_hex_md5(hex_encode(body.digests.md5.as_slice()).as_str())
    } else {
        ETag::from_multipart_md5(multipart_md5, part_count)
    };
    let checksums = if processed {
        request.checksum_values_for_digests(&body.digests)
    } else {
        request.checksum_values()
    };
    let UploadSession { bucket, key, metadata, .. } = session;
    Ok(
        ObjectMetadata {
            bucket,
            key,
            size,
            etag,
            content_type: metadata.content_type,
            content_encoding: metadata.content_encoding,
            content_disposition: metadata.content_disposition,
            content_language: metadata.content_language,
            cache_control: metadata.cache_control,
            expires: metadata.expires,
            tagging: metadata.tagging,
            user_metadata: metadata.user_metadata,
            checksums,
            last_modified: now,
        },
    )
}

// ---------------------------------------------------------------------------------------------
// Whole completions
// ---------------------------------------------------------------------------------------------
/// The MD5 digests of parts, one after the other.
pub open spec fn part_digests(parts: Seq<PartView>) -> Seq<u8>
    decreases parts.len(),
{
    if parts.len() == 0 {
        Seq::empty()
    } else {
        part_digests(parts.drop_last()) + parts.last().md5
    }
}

/// The size of parts together.
pub open spec fn total_size(parts: Seq<PartView>) -> nat
    decreases parts.len(),
{
    if parts.len() == 0 {
        0
    } else {
        total_size(parts.drop_last()) + parts.last().size
    }
}

/// The bytes of parts, one after the other.
pub open spec fn part_bytes(contents: Seq<Seq<u8>>) -> Seq<u8>
    decreases contents.len(),
{
    if contents.len() == 0 {
        Seq::empty()
    } else {
        part_bytes(contents.drop_last()) + contents.last()
    }
}

proof fn lemma_total_size(parts: Seq<PartView>, n: int)
    requires
        0 <= n <= parts.len(),
    ensures
        total_size(parts.take(n)) <= total_size(parts),
    decreases parts.len() - n,
{
    if n < parts.len() {
        assert(parts.take(n + 1).drop_last() =~= parts.take(n));
        lemma_total_size(parts, n + 1);
    } else {
        assert(parts.take(n) =~= parts);
    }
}

/// What putting parts together comes to: the bytes of the object, the MD5 digest of the parts'
/// digests in hexadecimal and the size, or the error.
pub open spec fn assembled(
    parts: Seq<PartView>,
    contents: Seq<Seq<u8>>,
    request: RequestedView,
    max: nat,
) -> Result<(Seq<u8>, Seq<char>, nat), StoreErrorView> {
    let bytes = part_bytes(contents);
    if total_size(parts) > max {
        Err(StoreErrorView::EntityTooLarge)
    } else {
        match mismatch_error(
            request,
            finished_digests(digesting(requested_digests(request), bytes)),
        ) {
            Some(error) => Err(StoreErrorView::Checksum(error)),
            None => Ok((bytes, hex_text(md5_digest(part_digests(parts))), total_size(parts))),
        }
    }
}

/// Puts parts together whose bytes are at hand.
pub fn assemble_parts(
    parts: &Vec<PartMetadata>,
    contents: &Vec<Vec<u8>>,
    request: &ChecksumRequest,
    limits: &UploadLimits,
) -> (result: Result<(Vec<u8>, String, u64), StoreError>)
    requires
        parts@.len() == contents@.len(),
    ensures
        match result {
            Ok((bytes, multipart_md5, size)) => assembled(
                part_views(parts@),
                crate::body::upload::piece_views(contents@),
                request@,
                limits.max_object_size as nat,
            ) == Ok::<_, StoreErrorView>((bytes@, multipart_md5@, size as nat)),
            Err(error) => assembled(
                part_views(parts@),
                crate::body::upload::piece_views(contents@),
                request@,
                limits.max_object_size as nat,
            ) == Err::<(Seq<u8>, Seq<char>, nat), _>(error@),
        },
{
    let ghost all = part_views(parts@);
    let ghost pieces = crate::body::upload::piece_views(contents@);
    let ghost enabled = requested_digests(request@);
    let ghost max = limits.max_object_size as nat;
    let engines = CrcEngines::new();
    let mut assembly = CompletionAssembly::new(request, limits, &engines);
    let mut bytes: Vec<u8> = Vec::new();
    let mut i: usize = 0;
    proof {
        assert(all.take(0) =~= Seq::<PartView>::empty());
        assert(pieces.take(0) =~= Seq::<Seq<u8>>::empty());
        assert(bytes@ =~= Seq::<u8>::empty());
    }
    while i < parts.len()
        invariant
            i <= parts@.len(),
            parts@.len() == contents@.len(),
            all == part_views(parts@),
            pieces == crate::body::upload::piece_views(contents@),
            max == limits.max_object_size,
            assembly@.max == max,
            assembly@.md5 == part_digests(all.take(i as int)),
            assembly@.total == total_size(all.take(i as int)),
            assembly@.total <= max,
            assembly@.digests == digesting(enabled, bytes@),
            bytes@ == part_bytes(pieces.take(i as int)),
        decreases parts.len() - i,
    {
        proof {
            assert(all.take(i + 1).drop_last() =~= all.take(i as int));
            assert(all.take(i + 1).last() == parts@[i as int]@);
            assert(pieces.take(i + 1).drop_last() =~= pieces.take(i as int));
            assert(pieces.take(i + 1).last() == contents@[i as int]@);
            crate::body::digests::law_digests_do_not_depend_on_pieces(
                enabled,
                bytes@,
                contents@[i as int]@,
            );
            lemma_total_size(all, i + 1);
        }
        assembly.absorb(contents[i].as_slice());
        bytes.extend_from_slice(contents[i].as_slice());
        assert(bytes@ =~= part_bytes(pieces.take(i + 1)));
        match assembly.end_part(&parts[i]) {
            Ok(()) => {},
            Err(error) => {
                return Err(error);
            },
        }
        i += 1;
    }
    proof {
        assert(all.take(i as int) =~= all);
        assert(pieces.take(i as int) =~= pieces);
    }
    match assembly.finish(request) {
        Ok((multipart_md5, size)) => Ok((bytes, multipart_md5, size)),
        Err(error) => Err(error),
    }
}

proof fn lemma_part_digests(parts: Seq<PartView>)
    ensures
        part_digests(parts) == parts.map_values(|part: PartView| part.md5).flatten(),
    decreases parts.len(),
{
    let digests = parts.map_values(|part: PartView| part.md5);
    if parts.len() > 0 {
        let rest = parts.drop_last();
        lemma_part_digests(rest);
        assert(rest.map_values(|part: PartView| part.md5) =~= digests.drop_last());
        digests.drop_last().lemma_flatten_push(digests.last());
        assert(digests.drop_last().push(digests.last()) =~= digests);
    } else {
        assert(digests =~= Seq::<Seq<u8>>::empty());
    }
}

proof fn lemma_part_bytes(contents: Seq<Seq<u8>>)
    ensures
        part_bytes(contents) == contents.flatten(),
    decreases contents.len(),
{
    if contents.len() > 0 {
        lemma_part_bytes(contents.drop_last());
        contents.drop_last().lemma_flatten_push(contents.last());
        assert(contents.drop_last().push(contents.last()) =~= contents);
    }
}

/// An object that was uploaded in parts is made of their bytes, one part after the other, and has
/// the ETag of such an object: the MD5 digest of the parts' MD5 digests, a hyphen and the number of
/// parts, in quotes.
pub proof fn law_completed_objects_have_the_etag_of_their_parts(
    parts: Seq<PartView>,
    contents: Seq<Seq<u8>>,
    request: RequestedView,
    max: nat,
    final_md5: Seq<u8>,
)
    requires
        parts.len() == contents.len(),
        forall|i: int|
            0 <= i < parts.len() ==> (#[trigger] parts[i]).md5 == md5_digest(contents[i]),
        assembled(parts, contents, request, max) is Ok,
    ensures
        ({
            let (bytes, multipart_md5, size) = assembled(parts, contents, request, max)->Ok_0;
            let digests = contents.map_values(|content: Seq<u8>| md5_digest(content));
            &&& bytes == contents.flatten()
            &&& completed_etag(multipart_md5, parts.len(), final_md5, false) == seq!['"']
                + hex_text(md5_digest(digests.flatten())) + seq!['-'] + decimal(contents.len())
                + seq!['"']
            &&& completed_etag(multipart_md5, parts.len(), final_md5, true) == seq!['"'] + hex_text(
                final_md5,
            ) + seq!['"']
        }),
{
    lemma_part_digests(parts);
    lemma_part_bytes(contents);
    let digests = contents.map_values(|content: Seq<u8>| md5_digest(content));
    assert(parts.map_values(|part: PartView| part.md5) =~= digests);
    reveal_strlit("\"");
    reveal_strlit("-");
    assert("\""@ =~= seq!['"']);
    assert("-"@ =~= seq!['-']);
}

} // verus!
