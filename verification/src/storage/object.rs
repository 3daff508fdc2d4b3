//! Where objects are stored, and how an object and its metadata are published together.
use crate::hashing::{sha256_digest, sha256_input, Sha256Hasher};
use crate::s3::types::{parse_bucket_name, BucketName, ObjectKey};
use crate::storage::commit::{commit_files, commit_start, CommitPaths, ObjectCommit};
use crate::storage::error::{StoreError, StoreErrorView};
use crate::storage::files::{performed, ActionView, FileAction, FileOutcome, OutcomeView};
use crate::storage::model::ObjectMetadata;
use crate::storage::staged::{staged_in, StagedObject};
use crate::text::{
    chars_of, hex_encode, hex_text, is_control, opt_text, strip_suffix, text_of, without_suffix,
};
use vstd::prelude::*;
use vstd::utf8::{char_is_scalar, encode_scalar, encode_utf8, encode_utf8_decode_utf8, is_scalar};

verus! {

// ---------------------------------------------------------------------------------------------
// Names
// ---------------------------------------------------------------------------------------------
/// The bytes from which the name of an object's files is made.
pub open spec fn object_name_input(bucket: Seq<char>, key: Seq<char>) -> Seq<u8> {
    encode_utf8(bucket) + seq![0u8] + encode_utf8(key)
}

/// The name of an object's files, without directory and suffix.
pub open spec fn object_name(bucket: Seq<char>, key: Seq<char>) -> Seq<char> {
    hex_text(sha256_digest(object_name_input(bucket, key)))
}

/// The object file of a name, relative to the storage root.
pub open spec fn named_object_file(name: Seq<char>) -> Seq<char> {
    "objects/"@ + name.take(2) + "/"@ + name + ".data"@
}

/// The metadata file of a name, relative to the storage root.
pub open spec fn named_metadata_file(name: Seq<char>) -> Seq<char> {
    "metadata/"@ + name.take(2) + "/"@ + name + ".json"@
}

/// The file of an object, relative to the storage root.
pub open spec fn object_file(bucket: Seq<char>, key: Seq<char>) -> Seq<char> {
    named_object_file(object_name(bucket, key))
}

/// The metadata file of an object, relative to the storage root.
pub open spec fn metadata_file(bucket: Seq<char>, key: Seq<char>) -> Seq<char> {
    named_metadata_file(object_name(bucket, key))
}

/// Computes the name of an object's files.
pub fn object_digest(bucket: &BucketName, key: &ObjectKey) -> (digest: String)
    ensures
        digest@ == object_name(bucket@, key@),
        digest@.len() == 64,
{
    let mut hasher = Sha256Hasher::new();
    hasher.update(bucket.as_str().as_bytes());
    let mut zero: Vec<u8> = Vec::new();
    zero.push(0);
    hasher.update(zero.as_slice());
    hasher.update(key.as_str().as_bytes());
    proof {
        assert(zero@ =~= seq![0u8]);
        assert(sha256_input(hasher) =~= object_name_input(bucket@, key@));
    }
    let digest = hasher.finalize();
    hex_encode(digest.as_slice())
}

fn file_of(directory: &str, name: &str, suffix: &str) -> (path: String)
    requires
        name@.len() >= 2,
    ensures
        path@ == directory@ + "/"@ + name@.take(2) + "/"@ + name@ + suffix@,
{
    let chars = chars_of(name);
    let prefix = text_of(&chars, 0, 2);
    assert(prefix@ =~= name@.take(2));
    let mut path = directory.to_owned();
    path.append("/");
    path.append(prefix.as_str());
    path.append("/");
    path.append(name);
    path.append(suffix);
    path
}

/// The file of an object, relative to the storage root.
pub fn object_path(bucket: &BucketName, key: &ObjectKey) -> (path: String)
    ensures
        path@ == object_file(bucket@, key@),
{
    proof {
        reveal_strlit("objects");
        reveal_strlit("objects/");
        reveal_strlit("/");
        assert("objects"@ + "/"@ =~= "objects/"@);
    }
    let name = object_digest(bucket, key);
    file_of("objects", name.as_str(), ".data")
}

/// The metadata file of an object, relative to the storage root.
pub fn metadata_path(bucket: &BucketName, key: &ObjectKey) -> (path: String)
    ensures
        path@ == metadata_file(bucket@, key@),
{
    proof {
        reveal_strlit("metadata");
        reveal_strlit("metadata/");
        reveal_strlit("/");
        assert("metadata"@ + "/"@ =~= "metadata/"@);
    }
    let name = object_digest(bucket, key);
    file_of("metadata", name.as_str(), ".json")
}

proof fn lemma_scalar_has_no_zero(scalar: u32)
    requires
        is_scalar(scalar),
        scalar != 0,
    ensures
        forall|i: int|
            0 <= i < encode_scalar(scalar).len() ==> #[trigger] encode_scalar(scalar)[i] != 0,
{
    let s = scalar;
    assert(s != 0 && s <= 0x7f ==> (s & 0x7f) as u8 != 0) by (bit_vector);
    assert((0xC0 | ((s >> 6) & 0x1F) as u8) != 0) by (bit_vector);
    assert((0xE0 | ((s >> 12) & 0x0F) as u8) != 0) by (bit_vector);
    assert((0xF0 | ((s >> 18) & 0x7) as u8) != 0) by (bit_vector);
    assert((0x80 | (s & 0x3F) as u8) != 0) by (bit_vector);
    assert((0x80 | ((s >> 6) & 0x3F) as u8) != 0) by (bit_vector);
    assert((0x80 | ((s >> 12) & 0x3F) as u8) != 0) by (bit_vector);
}

proof fn lemma_nonzero_char(c: char)
    requires
        c != '\0',
    ensures
        c as u32 != 0,
{
}

proof fn lemma_encoded_has_no_zero(chars: Seq<char>)
    requires
        forall|i: int| 0 <= i < chars.len() ==> #[trigger] chars[i] != '\0',
    ensures
        forall|i: int| 0 <= i < encode_utf8(chars).len() ==> #[trigger] encode_utf8(chars)[i] != 0,
    decreases chars.len(),
{
    if chars.len() > 0 {
        let c = chars[0];
        char_is_scalar(c);
        lemma_nonzero_char(c);
        lemma_scalar_has_no_zero(c as u32);
        let rest = chars.drop_first();
        assert forall|i: int| 0 <= i < rest.len() implies #[trigger] rest[i] != '\0' by {
            assert(rest[i] == chars[i + 1]);
        }
        lemma_encoded_has_no_zero(rest);
        let first = encode_scalar(chars[0] as u32);
        assert forall|i: int| 0 <= i < encode_utf8(chars).len() implies #[trigger] encode_utf8(
            chars,
        )[i] != 0 by {
            if i < first.len() {
                assert(encode_utf8(chars)[i] == first[i]);
            } else {
                assert(encode_utf8(chars)[i] == encode_utf8(rest)[i - first.len()]);
            }
        }
    }
}

/// Different objects never have the same name by construction: the bytes from which their names are
/// made differ, because no bucket name holds the byte that separates it from the key.
pub proof fn law_object_names_are_made_of_different_bytes(
    bucket: Seq<char>,
    key: Seq<char>,
    other_bucket: Seq<char>,
    other_key: Seq<char>,
)
    requires
        parse_bucket_name(bucket) is Ok,
        parse_bucket_name(other_bucket) is Ok,
        object_name_input(bucket, key) == object_name_input(other_bucket, other_key),
    ensures
        bucket == other_bucket,
        key == other_key,
{
    let a = encode_utf8(bucket);
    let b = encode_utf8(other_bucket);
    let k = encode_utf8(key);
    let l = encode_utf8(other_key);
    let one = object_name_input(bucket, key);
    let two = object_name_input(other_bucket, other_key);
    assert forall|i: int| 0 <= i < bucket.len() implies #[trigger] bucket[i] != '\0' by {
        assert(!is_control(bucket[i]));
    }
    assert forall|i: int| 0 <= i < other_bucket.len() implies #[trigger] other_bucket[i]
        != '\0' by {
        assert(!is_control(other_bucket[i]));
    }
    lemma_encoded_has_no_zero(bucket);
    lemma_encoded_has_no_zero(other_bucket);
    assert(one[a.len() as int] == 0);
    assert(two[b.len() as int] == 0);
    if a.len() < b.len() {
        assert(two[a.len() as int] == b[a.len() as int]);
    }
    if b.len() < a.len() {
        assert(one[b.len() as int] == a[b.len() as int]);
    }
    assert(a =~= one.take(a.len() as int));
    assert(b =~= two.take(b.len() as int));
    assert(k =~= one.skip(a.len() as int + 1));
    assert(l =~= two.skip(b.len() as int + 1));
    encode_utf8_decode_utf8(bucket);
    encode_utf8_decode_utf8(other_bucket);
    encode_utf8_decode_utf8(key);
    encode_utf8_decode_utf8(other_key);
}

// ---------------------------------------------------------------------------------------------
// Reading and deleting
// ---------------------------------------------------------------------------------------------
/// A path below a storage root.
pub open spec fn path_below(root: Seq<char>, relative: Seq<char>) -> Seq<char> {
    if root.len() == 0 || root.last() == '/' {
        root + relative
    } else {
        root + "/"@ + relative
    }
}

/// Filesystem-backed object store.
#[derive(Debug)]
pub struct FileObjectStore {
    root: String,
}

impl View for FileObjectStore {
    type V = Seq<char>;

    closed spec fn view(&self) -> Seq<char> {
        self.root@
    }
}

/// What is left to do once the removal of an object's metadata was tried: its bytes go only with
/// the metadata, and an object that does not exist is deleted already.
pub open spec fn deletion_step(outcome: OutcomeView, object: Seq<char>) -> Result<
    Option<ActionView>,
    StoreErrorView,
> {
    match outcome {
        OutcomeView::Done => Ok(Some(ActionView::Remove { path: object })),
        OutcomeView::Missing => Ok(None),
        OutcomeView::Failed(text) => Err(StoreErrorView::Io(text)),
    }
}

impl FileObjectStore {
    /// A store below a root.
    pub fn new(root: String) -> (store: Self)
        ensures
            store@ == root@,
    {
        FileObjectStore { root }
    }

    /// The full path of one that is relative to the storage root.
    pub fn resolve(&self, relative: &str) -> (path: String)
        ensures
            path@ == path_below(self@, relative@),
    {
        let chars = chars_of(self.root.as_str());
        let mut path = self.root.clone();
        if chars.len() > 0 && chars[chars.len() - 1] != '/' {
            path.append("/");
        }
        path.append(relative);
        path
    }

    /// Starts to publish a staged object with its metadata, which is given as it is stored.
    pub fn commit_staged_object(
        &self,
        staged: StagedObject,
        bucket: &BucketName,
        key: &ObjectKey,
        json: Vec<u8>,
    ) -> (commit: ObjectCommit)
        ensures
            commit@ == commit_start(
                commit_files(
                    staged@.temp_id,
                    staged_in(staged@.directory, staged@.temp_id),
                    bucket@,
                    key@,
                ),
                json@,
            ),
    {
        let (temp_id, path) = staged.into_parts();
        ObjectCommit::new(CommitPaths::new(temp_id.as_str(), path, bucket, key), json)
    }

    /// Finds an object by its two files: it exists only where both do.
    pub fn head_object(&self, metadata: Option<ObjectMetadata>, has_object_file: bool) -> (result:
        Option<ObjectMetadata>)
        ensures
            match result {
                Some(object) => has_object_file && metadata == Some(object),
                None => !has_object_file || metadata is None,
            },
    {
        if has_object_file {
            metadata
        } else {
            None
        }
    }

    /// Starts to delete an object: its metadata is removed first.
    pub fn begin_deletion(&self, bucket: &BucketName, key: &ObjectKey) -> (action: FileAction)
        ensures
            action@ == (ActionView::Remove { path: metadata_file(bucket@, key@) }),
    {
        FileAction::Remove { path: metadata_path(bucket, key) }
    }

    /// Decides what is left to do once the removal of an object's metadata was tried.
    pub fn delete_object(&self, bucket: &BucketName, key: &ObjectKey, outcome: FileOutcome) -> (
    result: Result<Option<FileAction>, StoreError>)
        ensures
            match result {
                Ok(Some(action)) => deletion_step(outcome@, object_file(bucket@, key@)) == Ok::<
                    _,
                    StoreErrorView,
                >(Some(action@)),
                Ok(None) => deletion_step(outcome@, object_file(bucket@, key@)) == Ok::<
                    _,
                    StoreErrorView,
                >(None::<ActionView>),
                Err(error) => deletion_step(outcome@, object_file(bucket@, key@)) == Err::<
                    Option<ActionView>,
                    _,
                >(error@),
            },
    {
        match outcome {
            FileOutcome::Done => Ok(Some(FileAction::Remove { path: object_path(bucket, key) })),
            FileOutcome::Missing => Ok(None),
            FileOutcome::Failed(text) => Err(StoreError::Io(text)),
        }
    }
}

/// Tells whether a file that was to be removed is gone: one that did not exist is.
pub fn removal_result(outcome: FileOutcome) -> (result: Result<(), StoreError>)
    ensures
        match result {
            Ok(()) => !(outcome@ is Failed),
            Err(error) => outcome@ matches OutcomeView::Failed(text) && error@
                == StoreErrorView::Io(text),
        },
{
    match outcome {
        FileOutcome::Failed(text) => Err(StoreError::Io(text)),
        _ => Ok(()),
    }
}

/// Whether an object exists among files: both its bytes and its metadata do.
pub open spec fn object_exists(
    files: Map<Seq<char>, Seq<u8>>,
    bucket: Seq<char>,
    key: Seq<char>,
) -> bool {
    files.dom().contains(metadata_file(bucket, key)) && files.dom().contains(
        object_file(bucket, key),
    )
}

/// The files after an object was deleted.
pub open spec fn files_after_deletion(
    files: Map<Seq<char>, Seq<u8>>,
    bucket: Seq<char>,
    key: Seq<char>,
) -> Map<Seq<char>, Seq<u8>> {
    let (outcome, changed) = performed(
        ActionView::Remove { path: metadata_file(bucket, key) },
        files,
    );
    match deletion_step(outcome, object_file(bucket, key)) {
        Ok(Some(action)) => performed(action, changed).1,
        _ => changed,
    }
}

/// A deleted object does not exist; deleting it once more changes nothing; and every other file is
/// as it was.
pub proof fn law_deleted_objects_are_gone(
    files: Map<Seq<char>, Seq<u8>>,
    bucket: Seq<char>,
    key: Seq<char>,
)
    ensures
        ({
            let after = files_after_deletion(files, bucket, key);
            &&& !object_exists(after, bucket, key)
            &&& files_after_deletion(after, bucket, key) == after
            &&& forall|path: Seq<char>|
                path != metadata_file(bucket, key) && path != object_file(bucket, key) ==> (
                after.dom().contains(path) <==> files.dom().contains(path)) && (
                files.dom().contains(path) ==> #[trigger] after[path] == files[path])
        }),
{
    reveal_strlit("objects/");
    reveal_strlit("metadata/");
    assert(object_file(bucket, key)[0] == 'o');
    assert(metadata_file(bucket, key)[0] == 'm');
}

// ---------------------------------------------------------------------------------------------
// Files without a counterpart
// ---------------------------------------------------------------------------------------------
/// The directory of the file of a name: its first two bytes as text, if it has as many.
pub open spec fn shard(name: Seq<char>) -> Seq<char> {
    if name.len() == 0 {
        name
    } else if name[0] as int >= 0x80 {
        name.take(1)
    } else if name.len() == 1 {
        Seq::empty()
    } else {
        name.take(2)
    }
}

/// Whether the first two bytes of a name, if it has as many, are whole characters.
pub open spec fn has_shard(name: Seq<char>) -> bool {
    name.len() > 0 ==> if name[0] as int >= 0x80 {
        (name[0] as int) < 0x800
    } else {
        name.len() > 1 ==> (name[1] as int) < 0x80
    }
}

/// The file that belongs to a file of an object, in another directory and with another suffix.
pub open spec fn counterpart(
    file_name: Seq<char>,
    suffix: Seq<char>,
    directory: Seq<char>,
    other_suffix: Seq<char>,
) -> Option<Seq<char>> {
    match strip_suffix(file_name, suffix) {
        None => None,
        Some(name) => Some(
            if shard(name).len() == 0 {
                directory + "/"@ + name + other_suffix
            } else {
                directory + "/"@ + shard(name) + "/"@ + name + other_suffix
            },
        ),
    }
}

fn counterpart_path(file_name: &str, suffix: &str, directory: &str, other_suffix: &str) -> (result:
    Option<String>)
    requires
        strip_suffix(file_name@, suffix@) is Some ==> has_shard(
            strip_suffix(file_name@, suffix@)->0,
        ),
    ensures
        opt_text(result) == counterpart(file_name@, suffix@, directory@, other_suffix@),
{
    let name = match without_suffix(file_name, suffix) {
        None => {
            return None;
        },
        Some(name) => name,
    };
    let chars = chars_of(name.as_str());
    let width: usize = if chars.len() == 0 {
        0
    } else {
        let first: char = chars[0];
        if first >= '\u{80}' {
            1
        } else if chars.len() == 1 {
            0
        } else {
            2
        }
    };
    let prefix = text_of(&chars, 0, width);
    assert(prefix@ =~= shard(name@));
    let mut path = directory.to_owned();
    path.append("/");
    if width > 0 {
        path.append(prefix.as_str());
        path.append("/");
    }
    path.append(name.as_str());
    path.append(other_suffix);
    Some(path)
}

/// The metadata file that belongs to an object file; nothing for a file that is none. An object
/// file whose metadata file does not exist is removed when the endpoint starts.
pub fn metadata_counterpart(file_name: &str) -> (result: Option<String>)
    requires
        strip_suffix(file_name@, ".data"@) is Some ==> has_shard(
            strip_suffix(file_name@, ".data"@)->0,
        ),
    ensures
        opt_text(result) == counterpart(file_name@, ".data"@, "metadata"@, ".json"@),
{
    counterpart_path(file_name, ".data", "metadata", ".json")
}

/// The object file that belongs to a metadata file; nothing for a file that is none. A metadata
/// file whose object file does not exist is removed when the endpoint starts.
pub fn object_counterpart(file_name: &str) -> (result: Option<String>)
    requires
        strip_suffix(file_name@, ".json"@) is Some ==> has_shard(
            strip_suffix(file_name@, ".json"@)->0,
        ),
    ensures
        opt_text(result) == counterpart(file_name@, ".json"@, "objects"@, ".data"@),
{
    counterpart_path(file_name, ".json", "objects", ".data")
}

/// The two files of an object belong to each other: neither is taken for one without a counterpart
/// while both exist.
pub proof fn law_object_files_belong_together(digest: Seq<u8>)
    requires
        digest.len() == 32,
    ensures
        ({
            let name = hex_text(digest);
            &&& has_shard(name)
            &&& counterpart(name + ".data"@, ".data"@, "metadata"@, ".json"@) == Some(
                named_metadata_file(name),
            )
            &&& counterpart(name + ".json"@, ".json"@, "objects"@, ".data"@) == Some(
                named_object_file(name),
            )
        }),
{
    let name = hex_text(digest);
    reveal_strlit("objects");
    reveal_strlit("objects/");
    reveal_strlit("metadata");
    reveal_strlit("metadata/");
    reveal_strlit("/");
    reveal_strlit(".data");
    reveal_strlit(".json");
    assert("objects"@ + "/"@ =~= "objects/"@);
    assert("metadata"@ + "/"@ =~= "metadata/"@);
    assert((name + ".data"@).take(name.len() as int) =~= name);
    assert((name + ".json"@).take(name.len() as int) =~= name);
    assert((name + ".data"@).skip(name.len() as int) =~= ".data"@);
    assert((name + ".json"@).skip(name.len() as int) =~= ".json"@);
}

} // verus!
