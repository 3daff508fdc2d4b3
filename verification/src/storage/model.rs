//! What is stored of objects and of multipart uploads.
use crate::collections::TextMap;
use crate::config::AccessKeyId;
use crate::s3::types::{BucketName, ETag, ObjectKey, PartNumber, UploadId};
use crate::storage::checksum::{ChecksumAlgorithm, ChecksumType};
use crate::text::opt_text;
use crate::time::Instant;
use vstd::prelude::*;

verus! {

/// Persisted metadata for a committed object.
#[derive(Debug, PartialEq, Eq)]
pub struct ObjectMetadata {
    /// Bucket that owns the object.
    pub bucket: BucketName,
    /// Object key.
    pub key: ObjectKey,
    /// Object size in bytes.
    pub size: u64,
    /// Object ETag.
    pub etag: ETag,
    /// Optional `Content-Type` metadata.
    pub content_type: Option<String>,
    /// Optional `Content-Encoding` metadata, excluding transport-only `aws-chunked`.
    pub content_encoding: Option<String>,
    /// Optional `Content-Disposition` metadata.
    pub content_disposition: Option<String>,
    /// Optional `Content-Language` metadata.
    pub content_language: Option<String>,
    /// Optional `Cache-Control` metadata.
    pub cache_control: Option<String>,
    /// Optional `Expires` metadata.
    pub expires: Option<String>,
    /// Optional raw `x-amz-tagging` value.
    pub tagging: Option<String>,
    /// User metadata keyed by lowercase `x-amz-meta-*` header names.
    pub user_metadata: TextMap,
    /// Stored checksum headers such as `x-amz-checksum-crc32`.
    pub checksums: TextMap,
    /// Object modification timestamp.
    pub last_modified: Instant,
}

/// An [`ObjectMetadata`] as a mathematical value.
#[verifier::ext_equal]
pub struct MetadataView {
    pub bucket: Seq<char>,
    pub key: Seq<char>,
    pub size: nat,
    pub etag: Seq<char>,
    pub content_type: Option<Seq<char>>,
    pub content_encoding: Option<Seq<char>>,
    pub content_disposition: Option<Seq<char>>,
    pub content_language: Option<Seq<char>>,
    pub cache_control: Option<Seq<char>>,
    pub expires: Option<Seq<char>>,
    pub tagging: Option<Seq<char>>,
    pub user_metadata: Seq<(Seq<char>, Seq<char>)>,
    pub checksums: Seq<(Seq<char>, Seq<char>)>,
    pub last_modified: (int, int),
}

impl View for ObjectMetadata {
    type V = MetadataView;

    open spec fn view(&self) -> MetadataView {
        MetadataView {
            bucket: self.bucket@,
            key: self.key@,
            size: self.size as nat,
            etag: self.etag@,
            content_type: opt_text(self.content_type),
            content_encoding: opt_text(self.content_encoding),
            content_disposition: opt_text(self.content_disposition),
            content_language: opt_text(self.content_language),
            cache_control: opt_text(self.cache_control),
            expires: opt_text(self.expires),
            tagging: opt_text(self.tagging),
            user_metadata: self.user_metadata@,
            checksums: self.checksums@,
            last_modified: self.last_modified@,
        }
    }
}

/// Copies optional text.
pub fn clone_opt(text: &Option<String>) -> (copy: Option<String>)
    ensures
        opt_text(copy) == opt_text(*text),
{
    match text {
        Some(t) => Some(t.clone()),
        None => None,
    }
}

impl Clone for ObjectMetadata {
    fn clone(&self) -> (copy: Self)
        ensures
            copy@ == self@,
    {
        ObjectMetadata {
            bucket: self.bucket.clone(),
            key: self.key.clone(),
            size: self.size,
            etag: self.etag.clone(),
            content_type: clone_opt(&self.content_type),
            content_encoding: clone_opt(&self.content_encoding),
            content_disposition: clone_opt(&self.content_disposition),
            content_language: clone_opt(&self.content_language),
            cache_control: clone_opt(&self.cache_control),
            expires: clone_opt(&self.expires),
            tagging: clone_opt(&self.tagging),
            user_metadata: self.user_metadata.clone(),
            checksums: self.checksums.clone(),
            last_modified: self.last_modified,
        }
    }
}

/// Metadata captured when an upload is initiated.
#[derive(Debug, PartialEq, Eq)]
pub struct UploadMetadata {
    /// Optional `Content-Type` metadata.
    pub content_type: Option<String>,
    /// Optional `Content-Encoding` metadata.
    pub content_encoding: Option<String>,
    /// Optional `Content-Disposition` metadata.
    pub content_disposition: Option<String>,
    /// Optional `Content-Language` metadata.
    pub content_language: Option<String>,
    /// Optional `Cache-Control` metadata.
    pub cache_control: Option<String>,
    /// Optional `Expires` metadata.
    pub expires: Option<String>,
    /// Optional raw `x-amz-tagging` value.
    pub tagging: Option<String>,
    /// Negotiated checksum algorithm for multipart uploads.
    pub checksum_algorithm: Option<ChecksumAlgorithm>,
    /// Negotiated checksum type for multipart uploads.
    pub checksum_type: Option<ChecksumType>,
    /// User metadata keyed by lowercase `x-amz-meta-*` header names.
    pub user_metadata: TextMap,
}

/// An [`UploadMetadata`] as a mathematical value.
#[verifier::ext_equal]
pub struct UploadMetadataView {
    pub content_type: Option<Seq<char>>,
    pub content_encoding: Option<Seq<char>>,
    pub content_disposition: Option<Seq<char>>,
    pub content_language: Option<Seq<char>>,
    pub cache_control: Option<Seq<char>>,
    pub expires: Option<Seq<char>>,
    pub tagging: Option<Seq<char>>,
    pub checksum_algorithm: Option<ChecksumAlgorithm>,
    pub checksum_type: Option<ChecksumType>,
    pub user_metadata: Seq<(Seq<char>, Seq<char>)>,
}

impl View for UploadMetadata {
    type V = UploadMetadataView;

    open spec fn view(&self) -> UploadMetadataView {
        UploadMetadataView {
            content_type: opt_text(self.content_type),
            content_encoding: opt_text(self.content_encoding),
            content_disposition: opt_text(self.content_disposition),
            content_language: opt_text(self.content_language),
            cache_control: opt_text(self.cache_control),
            expires: opt_text(self.expires),
            tagging: opt_text(self.tagging),
            checksum_algorithm: self.checksum_algorithm,
            checksum_type: self.checksum_type,
            user_metadata: self.user_metadata@,
        }
    }
}

/// Metadata with nothing in it.
pub open spec fn no_metadata() -> UploadMetadataView {
    UploadMetadataView {
        content_type: None,
        content_encoding: None,
        content_disposition: None,
        content_language: None,
        cache_control: None,
        expires: None,
        tagging: None,
        checksum_algorithm: None,
        checksum_type: None,
        user_metadata: Seq::empty(),
    }
}

impl Default for UploadMetadata {
    fn default() -> (metadata: Self)
        ensures
            metadata@ == no_metadata(),
    {
        UploadMetadata {
            content_type: None,
            content_encoding: None,
            content_disposition: None,
            content_language: None,
            cache_control: None,
            expires: None,
            tagging: None,
            checksum_algorithm: None,
            checksum_type: None,
            user_metadata: TextMap::new(),
        }
    }
}

impl Clone for UploadMetadata {
    fn clone(&self) -> (copy: Self)
        ensures
            copy@ == self@,
    {
        UploadMetadata {
            content_type: clone_opt(&self.content_type),
            content_encoding: clone_opt(&self.content_encoding),
            content_disposition: clone_opt(&self.content_disposition),
            content_language: clone_opt(&self.content_language),
            cache_control: clone_opt(&self.cache_control),
            expires: clone_opt(&self.expires),
            tagging: clone_opt(&self.tagging),
            checksum_algorithm: self.checksum_algorithm,
            checksum_type: self.checksum_type,
            user_metadata: self.user_metadata.clone(),
        }
    }
}

/// Metadata for a committed multipart part.
#[derive(Debug, PartialEq, Eq)]
pub struct PartMetadata {
    /// Part number.
    pub part_number: PartNumber,
    /// Part size in bytes.
    pub size: u64,
    /// Part ETag.
    pub etag: ETag,
    /// Raw MD5 digest bytes used for multipart ETag calculation.
    pub md5: Vec<u8>,
    /// Stored checksum headers such as `x-amz-checksum-crc32`.
    pub checksums: TextMap,
    /// Part commit timestamp.
    pub last_modified: Instant,
}

/// A [`PartMetadata`] as a mathematical value.
#[verifier::ext_equal]
pub struct PartView {
    pub number: nat,
    pub size: nat,
    pub etag: Seq<char>,
    pub md5: Seq<u8>,
    pub checksums: Seq<(Seq<char>, Seq<char>)>,
    pub last_modified: (int, int),
}

impl View for PartMetadata {
    type V = PartView;

    open spec fn view(&self) -> PartView {
        PartView {
            number: self.part_number@,
            size: self.size as nat,
            etag: self.etag@,
            md5: self.md5@,
            checksums: self.checksums@,
            last_modified: self.last_modified@,
        }
    }
}

impl Clone for PartMetadata {
    fn clone(&self) -> (copy: Self)
        ensures
            copy@ == self@,
    {
        PartMetadata {
            part_number: self.part_number,
            size: self.size,
            etag: self.etag.clone(),
            md5: vstd::slice::slice_to_vec(self.md5.as_slice()),
            checksums: self.checksums.clone(),
            last_modified: self.last_modified,
        }
    }
}

/// Part requested in a `CompleteMultipartUpload` call.
#[derive(Debug, PartialEq, Eq)]
pub struct CompletedPart {
    /// Requested part number.
    pub part_number: PartNumber,
    /// ETag supplied by the client.
    pub etag: ETag,
}

/// A [`CompletedPart`] as a mathematical value.
#[verifier::ext_equal]
pub struct CompletedView {
    pub number: nat,
    pub etag: Seq<char>,
}

impl View for CompletedPart {
    type V = CompletedView;

    open spec fn view(&self) -> CompletedView {
        CompletedView { number: self.part_number@, etag: self.etag@ }
    }
}

/// Validated part data ready to commit.
#[derive(Debug, PartialEq, Eq)]
pub struct CommittedPart {
    /// Part size in bytes.
    pub size: u64,
    /// Raw MD5 digest bytes.
    pub md5: Vec<u8>,
    /// Part ETag.
    pub etag: ETag,
    /// Stored checksum headers such as `x-amz-checksum-crc32`.
    pub checksums: TextMap,
}

// ---------------------------------------------------------------------------------------------
// The parts of an upload
// ---------------------------------------------------------------------------------------------
/// A part under the number that it is stored under, as a mathematical value.
#[verifier::ext_equal]
pub struct EntryView {
    pub key: nat,
    pub part: PartView,
}

/// Whether parts stand in ascending order of the numbers that they are stored under, no number
/// twice.
pub open spec fn parts_ascend(parts: Seq<EntryView>) -> bool {
    forall|i: int, j: int|
        0 <= i < j < parts.len() ==> (#[trigger] parts[i]).key < (#[trigger] parts[j]).key
}

/// The part that is stored under a number.
pub open spec fn find_part(parts: Seq<EntryView>, number: nat) -> Option<PartView>
    decreases parts.len(),
{
    if parts.len() == 0 {
        None
    } else if parts.last().key == number {
        Some(parts.last().part)
    } else {
        find_part(parts.drop_last(), number)
    }
}

/// The number of parts before a part number, in ascending parts.
pub open spec fn parts_before(parts: Seq<EntryView>, number: nat) -> int
    decreases parts.len(),
{
    if parts.len() == 0 {
        0
    } else if parts.last().key < number {
        parts.len() as int
    } else {
        parts_before(parts.drop_last(), number)
    }
}

/// The parts with one more under a number, in place of the one that is stored under it.
pub open spec fn insert_part(parts: Seq<EntryView>, key: nat, part: PartView) -> Seq<EntryView> {
    let i = parts_before(parts, key);
    let entry = EntryView { key, part };
    if i < parts.len() && parts[i].key == key {
        parts.update(i, entry)
    } else {
        parts.insert(i, entry)
    }
}

/// The parts without the one that is stored under a number.
pub open spec fn remove_part(parts: Seq<EntryView>, number: nat) -> Seq<EntryView> {
    let i = parts_before(parts, number);
    if i < parts.len() && parts[i].key == number {
        parts.remove(i)
    } else {
        parts
    }
}

/// Where a part number stands among ascending parts.
pub proof fn lemma_parts_before(parts: Seq<EntryView>, number: nat)
    requires
        parts_ascend(parts),
    ensures
        0 <= parts_before(parts, number) <= parts.len(),
        forall|i: int| 0 <= i < parts_before(parts, number) ==> (#[trigger] parts[i]).key < number,
        forall|i: int|
            parts_before(parts, number) <= i < parts.len() ==> (#[trigger] parts[i]).key
                >= number,
    decreases parts.len(),
{
    if parts.len() > 0 && !(parts.last().key < number) {
        let rest = parts.drop_last();
        lemma_parts_before(rest, number);
        assert(forall|i: int| 0 <= i < rest.len() ==> rest[i] == parts[i]);
    }
}

/// What a lookup finds among ascending parts.
pub proof fn lemma_find_part(parts: Seq<EntryView>, number: nat)
    requires
        parts_ascend(parts),
    ensures
        find_part(parts, number) is None <==> forall|i: int|
            0 <= i < parts.len() ==> (#[trigger] parts[i]).key != number,
        forall|i: int|
            0 <= i < parts.len() && (#[trigger] parts[i]).key == number ==> find_part(
                parts,
                number,
            ) == Some(parts[i].part),
    decreases parts.len(),
{
    if parts.len() > 0 {
        let rest = parts.drop_last();
        lemma_find_part(rest, number);
        assert(forall|i: int| 0 <= i < rest.len() ==> rest[i] == parts[i]);
        assert(parts[parts.len() - 1] == parts.last());
    }
}

/// Storing a part is reading it back: the part under its number is the stored one, and every other
/// is as it was. The parts stay in ascending order.
pub proof fn law_stored_parts_are_found(
    parts: Seq<EntryView>,
    key: nat,
    part: PartView,
    number: nat,
)
    requires
        parts_ascend(parts),
    ensures
        parts_ascend(insert_part(parts, key, part)),
        find_part(insert_part(parts, key, part), number) == if number == key {
            Some(part)
        } else {
            find_part(parts, number)
        },
{
    let i = parts_before(parts, key);
    lemma_parts_before(parts, key);
    let new = insert_part(parts, key, part);
    lemma_find_part(parts, number);
    if i < parts.len() && parts[i].key == key {
        assert(forall|j: int| 0 <= j < parts.len() && j != i ==> new[j] == parts[j]);
        assert(new[i] == (EntryView { key, part }));
        assert(parts_ascend(new));
        lemma_find_part(new, number);
        if number != key && find_part(parts, number) is Some {
            let k = choose|k: int| 0 <= k < parts.len() && (#[trigger] parts[k]).key == number;
            assert(new[k] == parts[k]);
        }
    } else {
        assert(forall|j: int| 0 <= j < i ==> new[j] == parts[j]);
        assert(forall|j: int| i < j < new.len() ==> new[j] == parts[j - 1]);
        assert(new[i] == (EntryView { key, part }));
        assert(parts_ascend(new));
        lemma_find_part(new, number);
        if number != key && find_part(parts, number) is Some {
            let k = choose|k: int| 0 <= k < parts.len() && (#[trigger] parts[k]).key == number;
            if k < i {
                assert(new[k] == parts[k]);
            } else {
                assert(new[k + 1] == parts[k]);
            }
        }
    }
}

/// A removed part is not found, and every other is as it was.
pub proof fn law_removed_parts_are_gone(parts: Seq<EntryView>, removed: nat, number: nat)
    requires
        parts_ascend(parts),
    ensures
        parts_ascend(remove_part(parts, removed)),
        find_part(remove_part(parts, removed), number) == if number == removed {
            None
        } else {
            find_part(parts, number)
        },
{
    let i = parts_before(parts, removed);
    lemma_parts_before(parts, removed);
    let new = remove_part(parts, removed);
    lemma_find_part(parts, number);
    if i < parts.len() && parts[i].key == removed {
        assert(forall|j: int| 0 <= j < i ==> new[j] == parts[j]);
        assert(forall|j: int| i <= j < new.len() ==> new[j] == parts[j + 1]);
        assert(parts_ascend(new));
        lemma_find_part(new, number);
        if number != removed && find_part(parts, number) is Some {
            let k = choose|k: int| 0 <= k < parts.len() && (#[trigger] parts[k]).key == number;
            if k < i {
                assert(new[k] == parts[k]);
            } else {
                assert(new[k - 1] == parts[k]);
            }
        }
    } else {
        lemma_find_part(new, number);
    }
}

/// Whether each part is stored under its own number.
pub open spec fn stand_under_own_numbers(parts: Seq<EntryView>) -> bool {
    forall|i: int| 0 <= i < parts.len() ==> (#[trigger] parts[i]).key == parts[i].part.number
}

/// Parts that are stored under their own numbers stay so when a part is stored under its own number
/// and when one is removed.
pub proof fn law_parts_stay_under_their_own_numbers(
    parts: Seq<EntryView>,
    part: PartView,
    removed: nat,
)
    requires
        parts_ascend(parts),
        stand_under_own_numbers(parts),
    ensures
        stand_under_own_numbers(insert_part(parts, part.number, part)),
        stand_under_own_numbers(remove_part(parts, removed)),
{
    lemma_parts_before(parts, part.number);
    lemma_parts_before(parts, removed);
}

/// The views of parts.
pub open spec fn part_views(parts: Seq<PartMetadata>) -> Seq<PartView> {
    parts.map_values(|part: PartMetadata| part@)
}

/// A part and the number that it is stored under.
#[derive(Debug, PartialEq, Eq)]
struct PartEntry {
    key: PartNumber,
    part: PartMetadata,
}

impl View for PartEntry {
    type V = EntryView;

    closed spec fn view(&self) -> EntryView {
        EntryView { key: self.key@, part: self.part@ }
    }
}

/// The parts of an upload, in ascending order of the numbers that they are stored under.
#[derive(Debug, PartialEq, Eq)]
pub struct PartTable {
    entries: Vec<PartEntry>,
}

spec fn entry_views(entries: Seq<PartEntry>) -> Seq<EntryView> {
    entries.map_values(|entry: PartEntry| entry@)
}

impl View for PartTable {
    type V = Seq<EntryView>;

    closed spec fn view(&self) -> Seq<EntryView> {
        entry_views(self.entries@)
    }
}

fn clone_entries(parts: &Vec<PartEntry>) -> (copy: Vec<PartEntry>)
    ensures
        entry_views(copy@) == entry_views(parts@),
{
    let mut copy: Vec<PartEntry> = Vec::new();
    let mut i: usize = 0;
    while i < parts.len()
        invariant
            i <= parts@.len(),
            copy@.len() == i,
            forall|j: int| 0 <= j < i ==> (#[trigger] copy@[j])@ == parts@[j]@,
        decreases parts.len() - i,
    {
        copy.push(PartEntry { key: parts[i].key, part: parts[i].part.clone() });
        i += 1;
    }
    assert(entry_views(copy@) =~= entry_views(parts@));
    copy
}

impl Clone for PartTable {
    fn clone(&self) -> (copy: Self)
        ensures
            copy@ == self@,
    {
        proof {
            use_type_invariant(self);
        }
        PartTable { entries: clone_entries(&self.entries) }
    }
}

impl PartTable {
    #[verifier::type_invariant]
    spec fn well_formed(self) -> bool {
        parts_ascend(entry_views(self.entries@))
    }

    /// No parts.
    pub fn new() -> (table: Self)
        ensures
            table@ == Seq::<EntryView>::empty(),
    {
        let table = PartTable { entries: Vec::new() };
        assert(table@ =~= Seq::<EntryView>::empty());
        table
    }

    /// The number of parts.
    pub fn len(&self) -> (length: usize)
        ensures
            length == self@.len(),
            parts_ascend(self@),
    {
        proof {
            use_type_invariant(self);
        }
        self.entries.len()
    }

    /// The part at a position.
    pub fn part_at(&self, index: usize) -> (part: &PartMetadata)
        requires
            index < self@.len(),
        ensures
            part@ == self@[index as int].part,
    {
        &self.entries[index].part
    }

    /// The number that the part at a position is stored under.
    pub fn key_at(&self, index: usize) -> (key: PartNumber)
        requires
            index < self@.len(),
        ensures
            key@ == self@[index as int].key,
    {
        self.entries[index].key
    }

    fn position(&self, number: PartNumber) -> (index: usize)
        ensures
            index == parts_before(self@, number@),
            index <= self@.len(),
            parts_ascend(self@),
            forall|i: int| 0 <= i < index ==> (#[trigger] self@[i]).key < number@,
            forall|i: int| index <= i < self@.len() ==> (#[trigger] self@[i]).key >= number@,
    {
        proof {
            use_type_invariant(self);
            lemma_parts_before(self@, number@);
        }
        let mut i: usize = 0;
        while i < self.entries.len() && self.entries[i].key < number
            invariant
                i <= self.entries@.len(),
                self@ == entry_views(self.entries@),
                forall|j: int| 0 <= j < i ==> (#[trigger] self@[j]).key < number@,
            decreases self.entries.len() - i,
        {
            assert(self@[i as int] == self.entries@[i as int]@);
            i += 1;
        }
        proof {
            let k = parts_before(self@, number@);
            if i < self@.len() {
                assert(self@[i as int] == self.entries@[i as int]@);
            }
            if k < i {
                assert(self@[k].key >= number@);
            }
            if i < k {
                assert(self@[i as int].key < number@);
            }
        }
        i
    }

    /// The part that is stored under a number.
    pub fn get(&self, number: PartNumber) -> (result: Option<&PartMetadata>)
        ensures
            match result {
                Some(part) => find_part(self@, number@) == Some(part@),
                None => find_part(self@, number@) is None,
            },
    {
        let index: usize = self.position(number);
        proof {
            lemma_find_part(self@, number@);
        }
        if index < self.entries.len() && self.entries[index].key.get() == number.get() {
            assert(self@[index as int] == self.entries@[index as int]@);
            Some(&self.entries[index].part)
        } else {
            proof {
                if index < self@.len() {
                    assert(self@[index as int] == self.entries@[index as int]@);
                    assert(self@[index as int].key > number@);
                    assert forall|i: int| 0 <= i < self@.len() implies (
                    #[trigger] self@[i]).key != number@ by {
                        if i > index {
                            assert(self@[index as int].key < self@[i].key);
                        }
                    }
                }
            }
            None
        }
    }

    /// Stores a part under a number, in place of the one that is stored under it.
    pub fn insert(&mut self, key: PartNumber, part: PartMetadata)
        ensures
            final(self)@ == insert_part(old(self)@, key@, part@),
    {
        let index: usize = self.position(key);
        let ghost before = self@;
        let ghost view = part@;
        proof {
            law_stored_parts_are_found(before, key@, view, 0);
        }
        let mut entries: Vec<PartEntry> = Vec::new();
        core::mem::swap(&mut self.entries, &mut entries);
        let replace = index < entries.len() && entries[index].key.get() == key.get();
        proof {
            if index < entries@.len() {
                assert(before[index as int] == entries@[index as int]@);
            }
        }
        let ghost old_entries = entries@;
        if replace {
            entries.set(index, PartEntry { key, part });
            assert(entry_views(entries@) =~= insert_part(before, key@, view));
        } else {
            entries.insert(index, PartEntry { key, part });
            assert(entry_views(entries@) =~= insert_part(before, key@, view));
        }
        self.entries = entries;
    }

    /// Removes the part that is stored under a number.
    pub fn remove(&mut self, number: PartNumber)
        ensures
            final(self)@ == remove_part(old(self)@, number@),
    {
        let index: usize = self.position(number);
        let ghost before = self@;
        proof {
            law_removed_parts_are_gone(before, number@, 0);
        }
        let mut entries: Vec<PartEntry> = Vec::new();
        core::mem::swap(&mut self.entries, &mut entries);
        proof {
            if index < entries@.len() {
                assert(before[index as int] == entries@[index as int]@);
            }
        }
        if index < entries.len() && entries[index].key.get() == number.get() {
            let _ = entries.remove(index);
        }
        assert(entry_views(entries@) =~= remove_part(before, number@));
        self.entries = entries;
    }
}

// ---------------------------------------------------------------------------------------------
// Upload sessions
// ---------------------------------------------------------------------------------------------
/// Multipart upload lifecycle state.
#[derive(Clone, Copy, Debug, PartialEq, Eq, Structural)]
pub enum UploadState {
    /// Upload accepts new parts and control operations.
    Open,
    /// Completion has started.
    Completing,
    /// Upload completed and should not be resumed.
    Completed,
    /// Upload was aborted and should not be resumed.
    Aborted,
}

impl Default for UploadState {
    fn default() -> (state: Self)
        ensures
            state == UploadState::Open,
    {
        UploadState::Open
    }
}

/// Persisted multipart upload session.
#[derive(Debug, PartialEq, Eq)]
pub struct UploadSession {
    /// Upload ID.
    pub upload_id: UploadId,
    /// Target bucket.
    pub bucket: BucketName,
    /// Target object key.
    pub key: ObjectKey,
    /// Upload initiation timestamp.
    pub initiated: Instant,
    /// Upload lifecycle state.
    pub state: UploadState,
    /// Access key that initiated a signed upload, if any.
    pub owner_access_key_id: Option<AccessKeyId>,
    /// Metadata captured at create-multipart-upload time.
    pub metadata: UploadMetadata,
    /// Uploaded parts keyed by part number.
    pub parts: PartTable,
}

/// An [`UploadSession`] as a mathematical value.
#[verifier::ext_equal]
pub struct SessionView {
    pub upload_id: Seq<char>,
    pub bucket: Seq<char>,
    pub key: Seq<char>,
    pub initiated: (int, int),
    pub state: UploadState,
    pub owner: Option<Seq<char>>,
    pub metadata: UploadMetadataView,
    pub parts: Seq<EntryView>,
}

/// The view of an optional access key.
pub open spec fn opt_key_id(id: Option<AccessKeyId>) -> Option<Seq<char>> {
    match id {
        Some(i) => Some(i@),
        None => None,
    }
}

impl View for UploadSession {
    type V = SessionView;

    open spec fn view(&self) -> SessionView {
        SessionView {
            upload_id: self.upload_id@,
            bucket: self.bucket@,
            key: self.key@,
            initiated: self.initiated@,
            state: self.state,
            owner: opt_key_id(self.owner_access_key_id),
            metadata: self.metadata@,
            parts: self.parts@,
        }
    }
}

impl Clone for UploadSession {
    fn clone(&self) -> (copy: Self)
        ensures
            copy@ == self@,
    {
        UploadSession {
            upload_id: self.upload_id.clone(),
            bucket: self.bucket.clone(),
            key: self.key.clone(),
            initiated: self.initiated,
            state: self.state,
            owner_access_key_id: match &self.owner_access_key_id {
                Some(id) => Some(id.clone()),
                None => None,
            },
            metadata: self.metadata.clone(),
            parts: self.parts.clone(),
        }
    }
}

impl UploadSession {
    /// Returns whether the session is open.
    pub fn is_open(&self) -> (result: bool)
        ensures
            result == (self@.state == UploadState::Open),
    {
        self.state == UploadState::Open
    }
}

} // verus!
