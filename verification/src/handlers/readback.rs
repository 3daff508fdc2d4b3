//! What a client reads of what it wrote.
use crate::auth::StreamingView;
use crate::body::checksum::RequestedView;
use crate::body::upload::{law_accepted_data_has_the_given_digests, upload_data, upload_result};
use crate::collections::{
    entry_position, insert_entry, keys, lemma_entry_position_bounds, lemma_mapping,
};
use crate::error::ErrorView;
use crate::handlers::get_object::{
    asked_value, content_range, get_outcome, law_ranges_lie_within_the_object,
    lemma_nothing_overridden, object_answer, overridable_fields, overridden, overrides,
    requested_range, smaller, stream_limit, stream_sent, ProgressView,
};
use crate::handlers::head_object::{conditions, head_outcome, object_headers};
use crate::handlers::upload_metadata::{
    is_stored_encoding, single_text, stored_encodings, upload_metadata, user_metadata,
};
use crate::http::{field_text, values};
use crate::response::{
    lemma_no_response_values, lemma_response_values_add, lemma_response_values_push, optional_value,
    response_values, with_optional, BodyView, S3ResponseView,
};
use crate::storage::commit::{
    can_commit, commit_files, commit_run, commit_start, law_commits_publish_the_object, published,
    CommitStep,
};
use crate::storage::completion::{assembled, completion_parts, object_metadata, part_bytes};
use crate::storage::model::{CompletedView, EntryView, MetadataView, PartView};
use crate::storage::multipart::new_session;
use crate::storage::object::{metadata_file, object_exists, object_file};
use crate::storage::part_files::part_file;
use crate::storage::staged::staged_in;
use crate::text::{decimal, join, lowercase, split, starts_with, trim};
use crate::time::{formatted_time, http_date_format};
use vstd::prelude::*;

verus! {

/// The bytes that are sent where the body of a response is made of stored bytes.
pub open spec fn sent_bytes(body: BodyView, stored: Seq<u8>) -> Seq<u8> {
    match body {
        BodyView::Object { start, length } => limited(stored.skip(start as int), length),
        _ => Seq::empty(),
    }
}

/// As many bytes as a limit lets pass.
pub open spec fn limited(bytes: Seq<u8>, length: Option<nat>) -> Seq<u8> {
    match length {
        None => bytes,
        Some(l) => bytes.take(smaller(l, bytes.len()) as int),
    }
}

/// What a stream sends of the bytes that are left, by how many bytes each read gives, and whether
/// it ended. A read gives at least one byte while there are any, and at most what was asked for.
pub open spec fn streamed(progress: ProgressView, rest: Seq<u8>, reads: Seq<nat>) -> (Seq<u8>, bool)
    decreases reads.len(),
{
    match stream_limit(progress) {
        None => (Seq::empty(), true),
        Some(limit) => if rest.len() == 0 {
            (Seq::empty(), true)
        } else if reads.len() == 0 {
            (Seq::empty(), false)
        } else {
            let most = smaller(limit, rest.len());
            let count = if reads[0] == 0 {
                1
            } else {
                smaller(reads[0], most)
            };
            let (more, ended) = streamed(
                stream_sent(progress, count),
                rest.skip(count as int),
                reads.skip(1),
            );
            (rest.take(count as int) + more, ended)
        },
    }
}

/// A stream that has ended has sent exactly the bytes that were asked for, however many bytes each
/// read gave.
pub proof fn law_streams_send_what_was_asked_for(
    progress: ProgressView,
    rest: Seq<u8>,
    reads: Seq<nat>,
)
    requires
        progress.buffer_size > 0,
        streamed(progress, rest, reads).1,
    ensures
        streamed(progress, rest, reads).0 == limited(rest, progress.remaining),
    decreases reads.len(),
{
    match stream_limit(progress) {
        None => {
            assert(limited(rest, progress.remaining) =~= Seq::<u8>::empty());
        },
        Some(limit) => {
            if rest.len() == 0 {
                assert(limited(rest, progress.remaining) =~= Seq::<u8>::empty());
            } else {
                let most = smaller(limit, rest.len());
                let count: nat = if reads[0] == 0 {
                    1
                } else {
                    smaller(reads[0], most)
                };
                let after = stream_sent(progress, count);
                law_streams_send_what_was_asked_for(after, rest.skip(count as int), reads.skip(1));
                assert(rest.take(count as int) + limited(rest.skip(count as int), after.remaining)
                    =~= limited(rest, progress.remaining));
            }
        },
    }
}

/// The error of a query whose overrides of response header fields cannot be applied.
pub open spec fn override_error(query: Seq<char>) -> Option<ErrorView> {
    match overridden(Seq::empty(), query, overrides()) {
        Err(error) => Some(error),
        Ok(_) => None,
    }
}

proof fn lemma_override_errors(
    headers: Seq<(Seq<char>, Seq<char>)>,
    other: Seq<(Seq<char>, Seq<char>)>,
    query: Seq<char>,
    names: Seq<(Seq<char>, Seq<char>)>,
)
    ensures
        match overridden(headers, query, names) {
            Err(error) => overridden(other, query, names) == Err::<
                Seq<(Seq<char>, Seq<char>)>,
                _,
            >(error),
            Ok(_) => overridden(other, query, names) is Ok,
        },
    decreases names.len(),
{
    if names.len() > 0 {
        lemma_override_errors(headers, other, query, names.drop_last());
    }
}

/// Whether a GET request gives back data that is stored: all of it, or the range it asks for. It is
/// refused where it asks for no valid range, or for header fields that a response cannot have.
pub open spec fn gives_back(
    data: Seq<u8>,
    stored: Seq<u8>,
    metadata: MetadataView,
    headers: Seq<(Seq<char>, Seq<u8>)>,
    query: Seq<char>,
    request_id: Seq<char>,
) -> bool {
    let answer = get_outcome(headers, query, metadata, request_id);
    match requested_range(headers, metadata.size) {
        Err(error) => answer == Err::<S3ResponseView, _>(error),
        Ok(range) => match override_error(query) {
            Some(error) => answer == Err::<S3ResponseView, _>(error),
            None => answer is Ok && match range {
                None => {
                    &&& answer->Ok_0.status == 200
                    &&& sent_bytes(answer->Ok_0.body, stored) == data
                },
                Some((first, last)) => {
                    &&& answer->Ok_0.status == 206
                    &&& sent_bytes(answer->Ok_0.body, stored) == data.subrange(
                        first as int,
                        last as int + 1,
                    )
                },
            },
        },
    }
}

proof fn lemma_stored_data_is_given_back(
    data: Seq<u8>,
    metadata: MetadataView,
    headers: Seq<(Seq<char>, Seq<u8>)>,
    query: Seq<char>,
    request_id: Seq<char>,
)
    requires
        metadata.size == data.len(),
        conditions(headers, metadata) is Proceed,
    ensures
        gives_back(data, data, metadata, headers, query, request_id),
{
    match requested_range(headers, metadata.size) {
        Err(_) => {},
        Ok(range) => {
            let described = match range {
                None => object_headers(metadata, request_id, metadata.size),
                Some((first, last)) => object_headers(
                    metadata,
                    request_id,
                    (last - first + 1) as nat,
                ).push(("content-range"@, content_range(first, last, metadata.size))),
            };
            lemma_override_errors(described, Seq::empty(), query, overrides());
            law_ranges_lie_within_the_object(headers, metadata.size);
            let answer = object_answer(metadata, request_id, range, query);
            if answer is Ok {
                match range {
                    None => {
                        assert(sent_bytes(answer->Ok_0.body, data) =~= data);
                    },
                    Some((first, last)) => {
                        assert(sent_bytes(answer->Ok_0.body, data) =~= data.subrange(
                            first as int,
                            last as int + 1,
                        ));
                    },
                }
            }
        },
    }
}

/// A read gives back what was written. Once an upload was accepted, staged and published, the
/// object exists with the metadata that was stored with it, and a request for it whose conditions
/// hold is sent the bytes that were uploaded: all of them, or those of the range it asks for.
pub proof fn law_reads_give_back_writes(
    upload_headers: Seq<(Seq<char>, Seq<u8>)>,
    pieces: Seq<Seq<u8>>,
    signing: Option<StreamingView>,
    max: nat,
    temp_id: Seq<char>,
    metadata: MetadataView,
    json: Seq<u8>,
    files: Map<Seq<char>, Seq<u8>>,
    headers: Seq<(Seq<char>, Seq<u8>)>,
    query: Seq<char>,
    request_id: Seq<char>,
)
    requires
        upload_result(upload_headers, pieces, signing, max) is Ok,
        metadata.size == upload_result(upload_headers, pieces, signing, max)->Ok_0.size,
        can_commit(
            commit_files(temp_id, staged_in("tmp"@, temp_id), metadata.bucket, metadata.key),
            files,
        ),
        files[staged_in("tmp"@, temp_id)] == upload_data(upload_headers, pieces, signing, max),
        conditions(headers, metadata) is Proceed,
    ensures
        ({
            let data = upload_data(upload_headers, pieces, signing, max);
            let paths = commit_files(
                temp_id,
                staged_in("tmp"@, temp_id),
                metadata.bucket,
                metadata.key,
            );
            let (commit, after) = commit_run(commit_start(paths, json), files, None);
            let stored = after[object_file(metadata.bucket, metadata.key)];
            &&& commit.step == CommitStep::Finished
            &&& commit.error is None
            &&& object_exists(after, metadata.bucket, metadata.key)
            &&& after[metadata_file(metadata.bucket, metadata.key)] == json
            &&& stored == data
            &&& gives_back(data, stored, metadata, headers, query, request_id)
        }),
{
    let data = upload_data(upload_headers, pieces, signing, max);
    let paths = commit_files(temp_id, staged_in("tmp"@, temp_id), metadata.bucket, metadata.key);
    law_accepted_data_has_the_given_digests(upload_headers, pieces, signing, max);
    law_commits_publish_the_object(paths, json, files);
    assert(published(paths, json, files)[object_file(metadata.bucket, metadata.key)] == data);
    lemma_stored_data_is_given_back(data, metadata, headers, query, request_id);
}

/// What the files of parts hold, in their order.
pub open spec fn part_contents(
    upload_id: Seq<char>,
    parts: Seq<PartView>,
    files: Map<Seq<char>, Seq<u8>>,
) -> Seq<Seq<u8>> {
    parts.map_values(|part: PartView| files[part_file(upload_id, part.number)])
}

/// A read gives back what was uploaded in parts. Once the parts that a completion request names were
/// put together, staged and published, a request for the object whose conditions hold is sent the
/// bytes of those parts, in the order of the completion request: all of them, or those of the range
/// it asks for.
pub proof fn law_reads_give_back_completed_uploads(
    upload_id: Seq<char>,
    stored_parts: Seq<EntryView>,
    requested: Seq<CompletedView>,
    min: nat,
    request: RequestedView,
    max: nat,
    temp_id: Seq<char>,
    metadata: MetadataView,
    json: Seq<u8>,
    files: Map<Seq<char>, Seq<u8>>,
    headers: Seq<(Seq<char>, Seq<u8>)>,
    query: Seq<char>,
    request_id: Seq<char>,
)
    requires
        ({
            let parts = completion_parts(stored_parts, requested, min, requested.len() as int);
            let contents = part_contents(upload_id, parts->Ok_0, files);
            &&& parts is Ok
            &&& assembled(parts->Ok_0, contents, request, max) is Ok
            &&& files[staged_in("tmp"@, temp_id)] == assembled(
                parts->Ok_0,
                contents,
                request,
                max,
            )->Ok_0.0
            &&& metadata.size == files[staged_in("tmp"@, temp_id)].len()
        }),
        can_commit(
            commit_files(temp_id, staged_in("tmp"@, temp_id), metadata.bucket, metadata.key),
            files,
        ),
        conditions(headers, metadata) is Proceed,
    ensures
        ({
            let parts = completion_parts(stored_parts, requested, min, requested.len() as int);
            let data = part_bytes(part_contents(upload_id, parts->Ok_0, files));
            let paths = commit_files(
                temp_id,
                staged_in("tmp"@, temp_id),
                metadata.bucket,
                metadata.key,
            );
            let (commit, after) = commit_run(commit_start(paths, json), files, None);
            let stored = after[object_file(metadata.bucket, metadata.key)];
            &&& commit.step == CommitStep::Finished
            &&& commit.error is None
            &&& object_exists(after, metadata.bucket, metadata.key)
            &&& after[metadata_file(metadata.bucket, metadata.key)] == json
            &&& stored == data
            &&& gives_back(data, stored, metadata, headers, query, request_id)
        }),
{
    let parts = completion_parts(stored_parts, requested, min, requested.len() as int);
    let data = part_bytes(part_contents(upload_id, parts->Ok_0, files));
    let paths = commit_files(temp_id, staged_in("tmp"@, temp_id), metadata.bucket, metadata.key);
    law_commits_publish_the_object(paths, json, files);
    assert(published(paths, json, files)[object_file(metadata.bucket, metadata.key)] == data);
    lemma_stored_data_is_given_back(data, metadata, headers, query, request_id);
}

// ---------------------------------------------------------------------------------------------
// Metadata
// ---------------------------------------------------------------------------------------------
/// The texts of the values of a request header field.
pub open spec fn field_texts(found: Seq<Seq<u8>>) -> Seq<Seq<char>> {
    found.map_values(|value: Seq<u8>| field_text(value)->0)
}

/// The header fields of an upload that are stored with the object as they are.
pub open spec fn kept_fields() -> Seq<Seq<char>> {
    seq![
        "content-type"@,
        "content-disposition"@,
        "content-language"@,
        "cache-control"@,
        "expires"@,
        "x-amz-tagging"@,
    ]
}

/// The encodings of an upload that are encodings of the object: all but the one that frames the
/// request body.
pub open spec fn object_encodings(text: Seq<char>) -> Seq<Seq<char>> {
    split(text, ',').map_values(|item: Seq<char>| trim(item)).filter(
        |item: Seq<char>| item.len() > 0 && lowercase(item) != lowercase("aws-chunked"@),
    )
}

/// Whether all names in a list of fields begin with a prefix.
pub open spec fn names_begin_with(
    fields: Seq<(Seq<char>, Seq<char>)>,
    prefix: Seq<char>,
) -> bool {
    forall|i: int| 0 <= i < fields.len() ==> starts_with((#[trigger] fields[i]).0, prefix)
}

spec fn picked(name: Seq<char>, field: Seq<char>, value: Option<Seq<char>>) -> Seq<Seq<char>> {
    if name == field {
        optional_value(value)
    } else {
        Seq::empty()
    }
}

proof fn lemma_with_optional(
    fields: Seq<(Seq<char>, Seq<char>)>,
    field: Seq<char>,
    value: Option<Seq<char>>,
    name: Seq<char>,
)
    ensures
        response_values(with_optional(fields, field, value), name) == response_values(fields, name)
            + picked(name, field, value),
{
    match value {
        Some(v) => {
            lemma_response_values_push(fields, (field, v), name);
        },
        None => {},
    }
    assert(response_values(fields, name) + Seq::<Seq<char>>::empty() =~= response_values(
        fields,
        name,
    ));
}

/// The fields that describe an object, without its user metadata and its checksums.
spec fn fixed_values(
    metadata: MetadataView,
    request_id: Seq<char>,
    length: nat,
    name: Seq<char>,
) -> Seq<Seq<char>> {
    picked(name, "x-amz-request-id"@, Some(request_id)) + picked(
        name,
        "accept-ranges"@,
        Some("bytes"@),
    ) + picked(name, "content-length"@, Some(decimal(length))) + picked(
        name,
        "etag"@,
        Some(metadata.etag),
    ) + picked(
        name,
        "last-modified"@,
        Some(formatted_time(metadata.last_modified, http_date_format())),
    ) + picked(name, "content-type"@, metadata.content_type) + picked(
        name,
        "content-encoding"@,
        metadata.content_encoding,
    ) + picked(name, "content-disposition"@, metadata.content_disposition) + picked(
        name,
        "content-language"@,
        metadata.content_language,
    ) + picked(name, "cache-control"@, metadata.cache_control) + picked(
        name,
        "expires"@,
        metadata.expires,
    ) + picked(name, "x-amz-tagging"@, metadata.tagging)
}

proof fn lemma_object_header_values(
    metadata: MetadataView,
    request_id: Seq<char>,
    length: nat,
    name: Seq<char>,
)
    ensures
        response_values(object_headers(metadata, request_id, length), name) == fixed_values(
            metadata,
            request_id,
            length,
            name,
        ) + response_values(metadata.user_metadata, name) + picked(
            name,
            "x-amz-checksum-type"@,
            if metadata.checksums.len() > 0 {
                Some("FULL_OBJECT"@)
            } else {
                None
            },
        ) + response_values(metadata.checksums, name),
{
    let none = Seq::<(Seq<char>, Seq<char>)>::empty();
    let time = formatted_time(metadata.last_modified, http_date_format());
    let a1 = with_optional(none, "x-amz-request-id"@, Some(request_id));
    let a2 = with_optional(a1, "accept-ranges"@, Some("bytes"@));
    let a3 = with_optional(a2, "content-length"@, Some(decimal(length)));
    let a4 = with_optional(a3, "etag"@, Some(metadata.etag));
    let a5 = with_optional(a4, "last-modified"@, Some(time));
    lemma_with_optional(none, "x-amz-request-id"@, Some(request_id), name);
    lemma_with_optional(a1, "accept-ranges"@, Some("bytes"@), name);
    lemma_with_optional(a2, "content-length"@, Some(decimal(length)), name);
    lemma_with_optional(a3, "etag"@, Some(metadata.etag), name);
    lemma_with_optional(a4, "last-modified"@, Some(time), name);
    assert(a5 =~= seq![
        ("x-amz-request-id"@, request_id),
        ("accept-ranges"@, "bytes"@),
        ("content-length"@, decimal(length)),
        ("etag"@, metadata.etag),
        ("last-modified"@, time),
    ]);
    let h1 = with_optional(a5, "content-type"@, metadata.content_type);
    let h2 = with_optional(h1, "content-encoding"@, metadata.content_encoding);
    let h3 = with_optional(h2, "content-disposition"@, metadata.content_disposition);
    let h4 = with_optional(h3, "content-language"@, metadata.content_language);
    let h5 = with_optional(h4, "cache-control"@, metadata.cache_control);
    let h6 = with_optional(h5, "expires"@, metadata.expires);
    let h7 = with_optional(h6, "x-amz-tagging"@, metadata.tagging);
    lemma_with_optional(a5, "content-type"@, metadata.content_type, name);
    lemma_with_optional(h1, "content-encoding"@, metadata.content_encoding, name);
    lemma_with_optional(h2, "content-disposition"@, metadata.content_disposition, name);
    lemma_with_optional(h3, "content-language"@, metadata.content_language, name);
    lemma_with_optional(h4, "cache-control"@, metadata.cache_control, name);
    lemma_with_optional(h5, "expires"@, metadata.expires, name);
    lemma_with_optional(h6, "x-amz-tagging"@, metadata.tagging, name);
    assert(response_values(none, name) =~= Seq::<Seq<char>>::empty());
    assert(Seq::<Seq<char>>::empty() + picked(name, "x-amz-request-id"@, Some(request_id))
        =~= picked(name, "x-amz-request-id"@, Some(request_id)));
    assert(response_values(h7, name) == fixed_values(metadata, request_id, length, name));
    let h8 = h7 + metadata.user_metadata;
    lemma_response_values_add(h7, metadata.user_metadata, name);
    let kind = if metadata.checksums.len() > 0 {
        Some("FULL_OBJECT"@)
    } else {
        None
    };
    let h9 = with_optional(h8, "x-amz-checksum-type"@, kind);
    lemma_with_optional(h8, "x-amz-checksum-type"@, kind, name);
    lemma_response_values_add(h9, metadata.checksums, name);
}

proof fn lemma_other_prefix(
    fields: Seq<(Seq<char>, Seq<char>)>,
    prefix: Seq<char>,
    name: Seq<char>,
)
    requires
        names_begin_with(fields, prefix),
        !starts_with(name, prefix),
    ensures
        response_values(fields, name) == Seq::<Seq<char>>::empty(),
{
    assert forall|i: int| 0 <= i < fields.len() implies (#[trigger] fields[i]).0 != name by {
        assert(starts_with(fields[i].0, prefix));
    }
    lemma_no_response_values(fields, name);
}

/// The names of fields that describe an object differ.
proof fn lemma_field_names()
    ensures
        !starts_with("content-type"@, "x-amz-"@),
        !starts_with("content-encoding"@, "x-amz-"@),
        !starts_with("content-disposition"@, "x-amz-"@),
        !starts_with("content-language"@, "x-amz-"@),
        !starts_with("cache-control"@, "x-amz-"@),
        !starts_with("expires"@, "x-amz-"@),
        !starts_with("etag"@, "x-amz-"@),
        !starts_with("content-length"@, "x-amz-"@),
        !starts_with("accept-ranges"@, "x-amz-"@),
        !starts_with("last-modified"@, "x-amz-"@),
{
    reveal_strlit("x-amz-");
    reveal_strlit("accept-ranges");
    reveal_strlit("content-length");
    reveal_strlit("etag");
    reveal_strlit("last-modified");
    reveal_strlit("content-type");
    reveal_strlit("content-encoding");
    reveal_strlit("content-disposition");
    reveal_strlit("content-language");
    reveal_strlit("cache-control");
    reveal_strlit("expires");
    assert("x-amz-"@[0] == 'x');
    assert("content-type"@.take(6)[0] == 'c');
    assert("content-encoding"@.take(6)[0] == 'c');
    assert("content-disposition"@.take(6)[0] == 'c');
    assert("content-language"@.take(6)[0] == 'c');
    assert("cache-control"@.take(6)[0] == 'c');
    assert("expires"@.take(6)[0] == 'e');
    assert("content-length"@.take(6)[0] == 'c');
    assert("accept-ranges"@.take(6)[0] == 'a');
    assert("last-modified"@.take(6)[0] == 'l');
    assert("content-encoding"@[8] == 'e' && "content-language"@[8] == 'l');
    assert("accept-ranges"@[0] == 'a' && "last-modified"@[0] == 'l' && "cache-control"@[0] == 'c');
}

proof fn lemma_amz_names()
    ensures
        "x-amz-tagging"@.len() > 6 && "x-amz-tagging"@[0] == 'x' && "x-amz-tagging"@[6] == 't',
        "x-amz-request-id"@.len() > 6 && "x-amz-request-id"@[0] == 'x' && "x-amz-request-id"@[6]
            == 'r',
        "x-amz-checksum-type"@.len() > 6 && "x-amz-checksum-type"@[0] == 'x'
            && "x-amz-checksum-type"@[6] == 'c',
        starts_with("x-amz-tagging"@, "x-amz-"@),
        starts_with("x-amz-request-id"@, "x-amz-"@),
        starts_with("x-amz-checksum-type"@, "x-amz-"@),
        forall|name: Seq<char>| #[trigger]
            starts_with(name, "x-amz-meta-"@) ==> name.len() > 6 && name[6] == 'm' && starts_with(
                name,
                "x-amz-"@,
            ),
        forall|name: Seq<char>| #[trigger]
            starts_with(name, "x-amz-checksum-"@) ==> name.len() > 6 && name[6] == 'c'
                && starts_with(name, "x-amz-"@),
{
    reveal_strlit("x-amz-");
    reveal_strlit("x-amz-tagging");
    reveal_strlit("x-amz-request-id");
    reveal_strlit("x-amz-checksum-type");
    reveal_strlit("x-amz-meta-");
    reveal_strlit("x-amz-checksum-");
    assert("x-amz-tagging"@.take(6) =~= "x-amz-"@);
    assert("x-amz-request-id"@.take(6) =~= "x-amz-"@);
    assert("x-amz-checksum-type"@.take(6) =~= "x-amz-"@);
    assert forall|name: Seq<char>| #[trigger] starts_with(name, "x-amz-meta-"@) implies name.len()
        > 6 && name[6] == 'm' && starts_with(name, "x-amz-"@) by {
        let front = name.take("x-amz-meta-"@.len() as int);
        assert(front == "x-amz-meta-"@);
        assert(forall|j: int| 0 <= j < front.len() ==> front[j] == name[j]);
        assert(front[6] == 'm');
        assert(name.take(6) =~= "x-amz-"@);
    }
    assert forall|name: Seq<char>| #[trigger] starts_with(name, "x-amz-checksum-"@) implies
        name.len() > 6 && name[6] == 'c' && starts_with(name, "x-amz-"@) by {
        let front = name.take("x-amz-checksum-"@.len() as int);
        assert(front == "x-amz-checksum-"@);
        assert(forall|j: int| 0 <= j < front.len() ==> front[j] == name[j]);
        assert(front[6] == 'c');
        assert(name.take(6) =~= "x-amz-"@);
    }
}

/// What a client reads of an object's description.
proof fn lemma_described_values(
    metadata: MetadataView,
    request_id: Seq<char>,
    length: nat,
    name: Seq<char>,
)
    requires
        names_begin_with(metadata.user_metadata, "x-amz-meta-"@),
        names_begin_with(metadata.checksums, "x-amz-checksum-"@),
    ensures
        ({
            let fields = object_headers(metadata, request_id, length);
            &&& response_values(fields, "x-amz-request-id"@) == seq![request_id]
            &&& response_values(fields, "content-length"@) == seq![decimal(length)]
            &&& response_values(fields, "etag"@) == seq![metadata.etag]
            &&& response_values(fields, "content-type"@) == optional_value(metadata.content_type)
            &&& response_values(fields, "content-encoding"@) == optional_value(
                metadata.content_encoding,
            )
            &&& response_values(fields, "content-disposition"@) == optional_value(
                metadata.content_disposition,
            )
            &&& response_values(fields, "content-language"@) == optional_value(
                metadata.content_language,
            )
            &&& response_values(fields, "cache-control"@) == optional_value(metadata.cache_control)
            &&& response_values(fields, "expires"@) == optional_value(metadata.expires)
            &&& response_values(fields, "x-amz-tagging"@) == optional_value(metadata.tagging)
            &&& starts_with(name, "x-amz-meta-"@) ==> response_values(fields, name)
                == response_values(metadata.user_metadata, name)
            &&& starts_with(name, "x-amz-checksum-"@) && name != "x-amz-checksum-type"@
                ==> response_values(fields, name) == response_values(metadata.checksums, name)
        }),
{
    lemma_described_value(metadata, request_id, length, "x-amz-request-id"@);
    lemma_described_value(metadata, request_id, length, "content-length"@);
    lemma_described_value(metadata, request_id, length, "etag"@);
    lemma_described_value(metadata, request_id, length, "content-type"@);
    lemma_described_value(metadata, request_id, length, "content-encoding"@);
    lemma_described_value(metadata, request_id, length, "content-disposition"@);
    lemma_described_value(metadata, request_id, length, "content-language"@);
    lemma_described_value(metadata, request_id, length, "cache-control"@);
    lemma_described_value(metadata, request_id, length, "expires"@);
    lemma_described_value(metadata, request_id, length, "x-amz-tagging"@);
    lemma_described_value(metadata, request_id, length, name);
    lemma_distinct_fields();
    lemma_amz_names();
    lemma_field_names();
}

/// The names of fields that describe an object differ, one by one.
proof fn lemma_distinct_fields()
    ensures
        "content-length"@ != "etag"@,
        "content-length"@ != "content-type"@,
        "content-length"@ != "content-encoding"@,
        "content-length"@ != "content-disposition"@,
        "content-length"@ != "content-language"@,
        "content-length"@ != "cache-control"@,
        "content-length"@ != "expires"@,
        "content-length"@ != "accept-ranges"@,
        "content-length"@ != "last-modified"@,
        "etag"@ != "content-type"@,
        "etag"@ != "content-encoding"@,
        "etag"@ != "content-disposition"@,
        "etag"@ != "content-language"@,
        "etag"@ != "cache-control"@,
        "etag"@ != "expires"@,
        "etag"@ != "accept-ranges"@,
        "etag"@ != "last-modified"@,
        "content-type"@ != "content-encoding"@,
        "content-type"@ != "content-disposition"@,
        "content-type"@ != "content-language"@,
        "content-type"@ != "cache-control"@,
        "content-type"@ != "expires"@,
        "content-type"@ != "accept-ranges"@,
        "content-type"@ != "last-modified"@,
        "content-encoding"@ != "content-disposition"@,
        "content-encoding"@ != "content-language"@,
        "content-encoding"@ != "cache-control"@,
        "content-encoding"@ != "expires"@,
        "content-encoding"@ != "accept-ranges"@,
        "content-encoding"@ != "last-modified"@,
        "content-disposition"@ != "content-language"@,
        "content-disposition"@ != "cache-control"@,
        "content-disposition"@ != "expires"@,
        "content-disposition"@ != "accept-ranges"@,
        "content-disposition"@ != "last-modified"@,
        "content-language"@ != "cache-control"@,
        "content-language"@ != "expires"@,
        "content-language"@ != "accept-ranges"@,
        "content-language"@ != "last-modified"@,
        "cache-control"@ != "expires"@,
        "cache-control"@ != "accept-ranges"@,
        "cache-control"@ != "last-modified"@,
        "expires"@ != "accept-ranges"@,
        "expires"@ != "last-modified"@,
{
    reveal_strlit("accept-ranges");
    reveal_strlit("content-length");
    reveal_strlit("etag");
    reveal_strlit("last-modified");
    reveal_strlit("content-type");
    reveal_strlit("content-encoding");
    reveal_strlit("content-disposition");
    reveal_strlit("content-language");
    reveal_strlit("cache-control");
    reveal_strlit("expires");
    assert("content-length"@.len() == 14 && "etag"@.len() == 4 && "content-type"@.len() == 12);
    assert("content-encoding"@.len() == 16 && "content-disposition"@.len() == 19);
    assert("content-language"@.len() == 16 && "cache-control"@.len() == 13);
    assert("expires"@.len() == 7 && "accept-ranges"@.len() == 13 && "last-modified"@.len() == 13);
    assert("content-encoding"@[8] == 'e' && "content-language"@[8] == 'l');
    assert("accept-ranges"@[0] == 'a' && "last-modified"@[0] == 'l' && "cache-control"@[0] == 'c');
}

proof fn lemma_described_value(
    metadata: MetadataView,
    request_id: Seq<char>,
    length: nat,
    name: Seq<char>,
)
    requires
        names_begin_with(metadata.user_metadata, "x-amz-meta-"@),
        names_begin_with(metadata.checksums, "x-amz-checksum-"@),
    ensures
        !starts_with(name, "x-amz-meta-"@) && !starts_with(name, "x-amz-checksum-"@) && name
            != "x-amz-checksum-type"@ ==> response_values(
            object_headers(metadata, request_id, length),
            name,
        ) == fixed_values(metadata, request_id, length, name),
        starts_with(name, "x-amz-meta-"@) ==> response_values(
            object_headers(metadata, request_id, length),
            name,
        ) == response_values(metadata.user_metadata, name),
        starts_with(name, "x-amz-checksum-"@) && name != "x-amz-checksum-type"@ ==> response_values(
            object_headers(metadata, request_id, length),
            name,
        ) == response_values(metadata.checksums, name),
{
    lemma_object_header_values(metadata, request_id, length, name);
    lemma_amz_names();
    lemma_field_names();
    let fixed = fixed_values(metadata, request_id, length, name);
    let user = response_values(metadata.user_metadata, name);
    let sums = response_values(metadata.checksums, name);
    if starts_with(name, "x-amz-meta-"@) {
        assert(!starts_with(name, "x-amz-checksum-"@));
        lemma_other_prefix(metadata.checksums, "x-amz-checksum-"@, name);
        assert(fixed =~= Seq::<Seq<char>>::empty());
        assert(response_values(object_headers(metadata, request_id, length), name) =~= user);
    } else {
        lemma_other_prefix(metadata.user_metadata, "x-amz-meta-"@, name);
        if starts_with(name, "x-amz-checksum-"@) {
            assert(fixed =~= Seq::<Seq<char>>::empty());
            if name != "x-amz-checksum-type"@ {
                assert(response_values(object_headers(metadata, request_id, length), name)
                    =~= sums);
            }
        } else {
            lemma_other_prefix(metadata.checksums, "x-amz-checksum-"@, name);
            if name != "x-amz-checksum-type"@ {
                assert(response_values(object_headers(metadata, request_id, length), name)
                    =~= fixed);
            }
        }
    }
}

proof fn lemma_inserted_values(
    entries: Seq<(Seq<char>, Seq<char>)>,
    key: Seq<char>,
    value: Seq<char>,
    name: Seq<char>,
)
    requires
        !keys(entries).contains(key),
    ensures
        response_values(insert_entry(entries, key, value), name) == if name == key {
            seq![value]
        } else {
            response_values(entries, name)
        },
        response_values(entries, key) == Seq::<Seq<char>>::empty(),
{
    let at = entry_position(entries, key);
    lemma_entry_position_bounds(entries, key);
    let front = entries.take(at);
    let back = entries.skip(at);
    assert(entries =~= front + back);
    assert(insert_entry(entries, key, value) =~= front.push((key, value)) + back);
    lemma_response_values_add(front, back, name);
    lemma_response_values_add(front.push((key, value)), back, name);
    lemma_response_values_push(front, (key, value), name);
    assert forall|i: int| 0 <= i < entries.len() implies (#[trigger] entries[i]).0 != key by {
        assert(keys(entries)[i] == entries[i].0);
        assert(keys(entries).contains(keys(entries)[i]));
    }
    lemma_no_response_values(entries, key);
    assert(forall|i: int| 0 <= i < front.len() ==> front[i] == entries[i]);
    assert(forall|i: int| 0 <= i < back.len() ==> back[i] == entries[at + i]);
    lemma_no_response_values(front, key);
    lemma_no_response_values(back, key);
    if name == key {
        assert(response_values(insert_entry(entries, key, value), name) =~= seq![value]);
    } else {
        assert(response_values(insert_entry(entries, key, value), name) =~= response_values(
            entries,
            name,
        ));
    }
}

/// User metadata is kept as it was sent, field by field.
proof fn lemma_user_metadata_values(fields: Seq<(Seq<char>, Seq<u8>)>, name: Seq<char>)
    requires
        user_metadata(fields) is Ok,
    ensures
        names_begin_with(user_metadata(fields)->Ok_0, "x-amz-meta-"@),
        starts_with(name, "x-amz-meta-"@) ==> response_values(user_metadata(fields)->Ok_0, name)
            == field_texts(values(fields, name)),
    decreases fields.len(),
{
    let found = user_metadata(fields)->Ok_0;
    if fields.len() == 0 {
        assert(field_texts(values(fields, name)) =~= Seq::<Seq<char>>::empty());
    } else {
        let rest = fields.drop_last();
        let before = user_metadata(rest)->Ok_0;
        let (key, value) = fields.last();
        lemma_user_metadata_values(rest, name);
        if starts_with(key, "x-amz-meta-"@) {
            let text = field_text(value)->0;
            lemma_mapping(before);
            lemma_inserted_values(before, key, text, name);
            lemma_entry_position_bounds(before, key);
            let at = entry_position(before, key);
            assert forall|i: int| 0 <= i < found.len() implies starts_with(
                (#[trigger] found[i]).0,
                "x-amz-meta-"@,
            ) by {
                if i < at {
                    assert(found[i] == before[i]);
                } else if i > at {
                    assert(found[i] == before[i - 1]);
                }
            }
            if name == key {
                lemma_inserted_values(before, key, text, key);
                assert(field_texts(values(rest, name)).len() == 0);
                assert(field_texts(values(fields, name)) =~= seq![text]);
            }
        }
    }
}

proof fn lemma_single_text(headers: Seq<(Seq<char>, Seq<u8>)>, name: Seq<char>)
    requires
        single_text(headers, name) is Ok,
    ensures
        optional_value(single_text(headers, name)->Ok_0) == field_texts(values(headers, name)),
{
    let found = values(headers, name);
    assert(optional_value(single_text(headers, name)->Ok_0) =~= field_texts(found));
}

proof fn lemma_stored_encodings(items: Seq<Seq<char>>)
    ensures
        stored_encodings(items) == items.map_values(|item: Seq<char>| trim(item)).filter(
            |item: Seq<char>| item.len() > 0 && lowercase(item) != lowercase("aws-chunked"@),
        ),
    decreases items.len(),
{
    reveal(Seq::filter);
    let trimmed = items.map_values(|item: Seq<char>| trim(item));
    let is_kept = |item: Seq<char>| item.len() > 0 && lowercase(item) != lowercase("aws-chunked"@);
    if items.len() > 0 {
        let rest = items.drop_last();
        lemma_stored_encodings(rest);
        assert(trimmed.drop_last() =~= rest.map_values(|item: Seq<char>| trim(item)));
        assert(trimmed.last() == trim(items.last()));
        assert(is_kept(trimmed.last()) == is_stored_encoding(items.last()));
    } else {
        assert(trimmed.filter(is_kept) =~= Seq::<Seq<char>>::empty());
    }
}

/// Whether what a client reads of an object's description is what was sent with the upload: each
/// field that is kept and each field of user metadata has the values that it had in the upload, the
/// encodings are those of the object, and the size, the ETag and the checksums are the stored ones.
pub open spec fn describes_upload(
    fields: Seq<(Seq<char>, Seq<char>)>,
    upload_headers: Seq<(Seq<char>, Seq<u8>)>,
    etag: Seq<char>,
    checksums: Seq<(Seq<char>, Seq<char>)>,
    name: Seq<char>,
) -> bool {
    &&& kept_fields().contains(name) || starts_with(name, "x-amz-meta-"@) ==> response_values(
        fields,
        name,
    ) == field_texts(values(upload_headers, name))
    &&& response_values(fields, "etag"@) == seq![etag]
    &&& starts_with(name, "x-amz-checksum-"@) && name != "x-amz-checksum-type"@ ==> response_values(
        fields,
        name,
    ) == response_values(checksums, name)
    &&& response_values(fields, "content-encoding"@) == {
        let sent = field_texts(values(upload_headers, "content-encoding"@));
        if sent.len() == 0 || object_encodings(sent[0]).len() == 0 {
            Seq::empty()
        } else {
            seq![join(object_encodings(sent[0]), ", "@)]
        }
    }
}

proof fn lemma_upload_is_described(
    upload_headers: Seq<(Seq<char>, Seq<u8>)>,
    metadata: MetadataView,
    request_id: Seq<char>,
    length: nat,
    name: Seq<char>,
)
    requires
        upload_metadata(upload_headers) is Ok,
        metadata == object_metadata(
            metadata.bucket,
            metadata.key,
            metadata.size,
            metadata.etag,
            upload_metadata(upload_headers)->Ok_0,
            metadata.checksums,
            metadata.last_modified,
        ),
        names_begin_with(metadata.checksums, "x-amz-checksum-"@),
    ensures
        describes_upload(
            object_headers(metadata, request_id, length),
            upload_headers,
            metadata.etag,
            metadata.checksums,
            name,
        ),
        response_values(object_headers(metadata, request_id, length), "content-length"@) == seq![
            decimal(length),
        ],
{
    lemma_user_metadata_values(upload_headers, name);
    lemma_described_values(metadata, request_id, length, name);
    lemma_single_text(upload_headers, "content-type"@);
    lemma_single_text(upload_headers, "content-disposition"@);
    lemma_single_text(upload_headers, "content-language"@);
    lemma_single_text(upload_headers, "cache-control"@);
    lemma_single_text(upload_headers, "expires"@);
    lemma_single_text(upload_headers, "x-amz-tagging"@);
    lemma_single_text(upload_headers, "content-encoding"@);
    let sent = field_texts(values(upload_headers, "content-encoding"@));
    if sent.len() > 0 {
        assert(single_text(upload_headers, "content-encoding"@)->Ok_0 == Some(sent[0]));
        lemma_stored_encodings(split(sent[0], ','));
        assert(stored_encodings(split(sent[0], ',')) =~= object_encodings(sent[0]));
    }
}

/// A read describes what was uploaded. A HEAD and a GET request for an object whose metadata was
/// made of an upload request, with no conditions that do not hold and no overrides, are answered with
/// the header fields of the upload: its content type, disposition, language, cache control, expiry,
/// tags and user metadata, field by field, its encodings without the one that framed the body, and
/// the size, the ETag and the checksums of the stored bytes.
pub proof fn law_reads_describe_what_was_uploaded(
    upload_headers: Seq<(Seq<char>, Seq<u8>)>,
    bucket: Seq<char>,
    key: Seq<char>,
    size: nat,
    etag: Seq<char>,
    checksums: Seq<(Seq<char>, Seq<char>)>,
    now: (int, int),
    headers: Seq<(Seq<char>, Seq<u8>)>,
    query: Seq<char>,
    request_id: Seq<char>,
    name: Seq<char>,
)
    requires
        upload_metadata(upload_headers) is Ok,
        names_begin_with(checksums, "x-amz-checksum-"@),
        ({
            let metadata = object_metadata(
                bucket,
                key,
                size,
                etag,
                upload_metadata(upload_headers)->Ok_0,
                checksums,
                now,
            );
            conditions(headers, metadata) is Proceed
        }),
        requested_range(headers, size) == Ok::<_, ErrorView>(None::<(nat, nat)>),
        forall|k: int|
            0 <= k < overridable_fields().len() ==> asked_value(
                query,
                #[trigger] overridable_fields()[k],
            ) == Ok::<_, ErrorView>(None::<Seq<char>>),
    ensures
        ({
            let metadata = object_metadata(
                bucket,
                key,
                size,
                etag,
                upload_metadata(upload_headers)->Ok_0,
                checksums,
                now,
            );
            let head = head_outcome(headers, metadata, request_id);
            let get = get_outcome(headers, query, metadata, request_id);
            &&& head is Ok && head->Ok_0.status == 200 && head->Ok_0.body is Empty
            &&& get is Ok && get->Ok_0.status == 200
            &&& describes_upload(head->Ok_0.headers, upload_headers, etag, checksums, name)
            &&& response_values(head->Ok_0.headers, "content-length"@) == seq![decimal(size)]
            &&& describes_upload(get->Ok_0.headers, upload_headers, etag, checksums, name)
            &&& response_values(get->Ok_0.headers, "content-length"@) == seq![decimal(size)]
        }),
{
    let metadata = object_metadata(
        bucket,
        key,
        size,
        etag,
        upload_metadata(upload_headers)->Ok_0,
        checksums,
        now,
    );
    lemma_upload_is_described(upload_headers, metadata, request_id, size, name);
    lemma_plain_answer(headers, query, metadata, request_id, name);
    lemma_plain_answer(headers, query, metadata, request_id, "content-length"@);
    lemma_plain_answer(headers, query, metadata, request_id, "etag"@);
    lemma_plain_answer(headers, query, metadata, request_id, "content-encoding"@);
}

proof fn lemma_plain_answer(
    headers: Seq<(Seq<char>, Seq<u8>)>,
    query: Seq<char>,
    metadata: MetadataView,
    request_id: Seq<char>,
    name: Seq<char>,
)
    requires
        conditions(headers, metadata) is Proceed,
        requested_range(headers, metadata.size) == Ok::<_, ErrorView>(None::<(nat, nat)>),
        forall|k: int|
            0 <= k < overridable_fields().len() ==> asked_value(
                query,
                #[trigger] overridable_fields()[k],
            ) == Ok::<_, ErrorView>(None::<Seq<char>>),
    ensures
        get_outcome(headers, query, metadata, request_id) is Ok,
        get_outcome(headers, query, metadata, request_id)->Ok_0.status == 200,
        response_values(get_outcome(headers, query, metadata, request_id)->Ok_0.headers, name)
            == response_values(object_headers(metadata, request_id, metadata.size), name),
{
    lemma_nothing_overridden(object_headers(metadata, request_id, metadata.size), query, name);
}

proof fn lemma_range_field(metadata: MetadataView, request_id: Seq<char>, length: nat)
    requires
        names_begin_with(metadata.user_metadata, "x-amz-meta-"@),
        names_begin_with(metadata.checksums, "x-amz-checksum-"@),
    ensures
        response_values(object_headers(metadata, request_id, length), "content-range"@) == Seq::<
            Seq<char>,
        >::empty(),
        "content-range"@ != "content-length"@,
        response_values(object_headers(metadata, request_id, length), "content-length"@) == seq![
            decimal(length),
        ],
        response_values(object_headers(metadata, request_id, length), "last-modified"@) == seq![
            formatted_time(metadata.last_modified, http_date_format()),
        ],
{
    lemma_described_value(metadata, request_id, length, "content-range"@);
    lemma_described_value(metadata, request_id, length, "last-modified"@);
    lemma_described_values(metadata, request_id, length, "content-length"@);
    lemma_amz_names();
    lemma_field_names();
    reveal_strlit("content-range");
    reveal_strlit("x-amz-");
    reveal_strlit("x-amz-meta-");
    reveal_strlit("x-amz-checksum-");
    reveal_strlit("accept-ranges");
    reveal_strlit("content-length");
    reveal_strlit("etag");
    reveal_strlit("last-modified");
    reveal_strlit("content-type");
    reveal_strlit("content-encoding");
    reveal_strlit("content-disposition");
    reveal_strlit("content-language");
    reveal_strlit("cache-control");
    reveal_strlit("expires");
    assert("content-range"@.len() == 13 && "content-range"@[0] == 'c' && "content-range"@[1] == 'o');
    assert("accept-ranges"@[0] == 'a' && "cache-control"@[1] == 'a' && "last-modified"@[0] == 'l');
    assert("last-modified"@.len() == 13 && "content-length"@.len() == 14);
    assert("etag"@.len() == 4 && "content-type"@.len() == 12 && "content-encoding"@.len() == 16);
    assert("content-disposition"@.len() == 19 && "content-language"@.len() == 16);
    assert("expires"@.len() == 7);
    assert("x-amz-meta-"@[0] == 'x' && "x-amz-checksum-"@[0] == 'x');
    assert("content-range"@.take(11)[0] == 'c' && "last-modified"@.take(11)[0] == 'l');
    assert(!starts_with("content-range"@, "x-amz-meta-"@));
    assert(!starts_with("content-range"@, "x-amz-checksum-"@));
    assert(!starts_with("last-modified"@, "x-amz-meta-"@));
    assert(!starts_with("last-modified"@, "x-amz-checksum-"@));
    assert(fixed_values(metadata, request_id, length, "content-range"@) =~= Seq::<
        Seq<char>,
    >::empty());
    assert(fixed_values(metadata, request_id, length, "last-modified"@) =~= seq![
        formatted_time(metadata.last_modified, http_date_format()),
    ]);
}

/// A HEAD request describes what a GET request sends. Where the conditions hold and nothing is
/// overridden, both answers have the same header fields; of a range, only the length and the range
/// differ, which are those of the bytes that are sent.
pub proof fn law_heads_describe_what_gets_send(
    headers: Seq<(Seq<char>, Seq<u8>)>,
    query: Seq<char>,
    metadata: MetadataView,
    data: Seq<u8>,
    request_id: Seq<char>,
    name: Seq<char>,
)
    requires
        names_begin_with(metadata.user_metadata, "x-amz-meta-"@),
        names_begin_with(metadata.checksums, "x-amz-checksum-"@),
        metadata.size == data.len(),
        conditions(headers, metadata) is Proceed,
        requested_range(headers, metadata.size) is Ok,
        forall|k: int|
            0 <= k < overridable_fields().len() ==> asked_value(
                query,
                #[trigger] overridable_fields()[k],
            ) == Ok::<_, ErrorView>(None::<Seq<char>>),
    ensures
        ({
            let head = head_outcome(headers, metadata, request_id);
            let get = get_outcome(headers, query, metadata, request_id);
            let described = head->Ok_0.headers;
            let answered = get->Ok_0.headers;
            let sent = sent_bytes(get->Ok_0.body, data);
            &&& head is Ok && head->Ok_0.status == 200 && head->Ok_0.body is Empty
            &&& get is Ok
            &&& response_values(described, "content-length"@) == seq![decimal(data.len())]
            &&& response_values(answered, "content-length"@) == seq![decimal(sent.len())]
            &&& response_values(answered, "last-modified"@) == seq![
                formatted_time(metadata.last_modified, http_date_format()),
            ]
            &&& name != "content-length"@ && name != "content-range"@ ==> response_values(
                answered,
                name,
            ) == response_values(described, name)
            &&& match requested_range(headers, metadata.size)->Ok_0 {
                None => {
                    &&& get->Ok_0.status == 200
                    &&& sent == data
                    &&& response_values(answered, "content-range"@) == Seq::<Seq<char>>::empty()
                },
                Some((first, last)) => {
                    &&& get->Ok_0.status == 206
                    &&& sent == data.subrange(first as int, last as int + 1)
                    &&& response_values(answered, "content-range"@) == seq![
                        "bytes "@ + decimal(first) + "-"@ + decimal(last) + "/"@ + decimal(
                            data.len(),
                        ),
                    ]
                },
            }
        }),
{
    let size = metadata.size;
    let range = requested_range(headers, size)->Ok_0;
    let length = match range {
        None => size,
        Some((first, last)) => (last - first + 1) as nat,
    };
    let plain = object_headers(metadata, request_id, length);
    let fields = match range {
        None => plain,
        Some((first, last)) => plain.push(("content-range"@, content_range(first, last, size))),
    };
    law_ranges_lie_within_the_object(headers, size);
    lemma_stored_data_is_given_back(data, metadata, headers, query, request_id);
    lemma_override_errors(fields, Seq::empty(), query, overrides());
    lemma_range_field(metadata, request_id, size);
    lemma_range_field(metadata, request_id, length);
    lemma_nothing_overridden(fields, query, name);
    lemma_nothing_overridden(fields, query, "content-length"@);
    lemma_nothing_overridden(fields, query, "content-range"@);
    lemma_nothing_overridden(fields, query, "last-modified"@);
    lemma_object_header_values(metadata, request_id, size, name);
    lemma_object_header_values(metadata, request_id, length, name);
    if let Some((first, last)) = range {
        let field = ("content-range"@, content_range(first, last, size));
        lemma_response_values_push(plain, field, name);
        lemma_response_values_push(plain, field, "content-length"@);
        lemma_response_values_push(plain, field, "content-range"@);
        lemma_response_values_push(plain, field, "last-modified"@);
        reveal_strlit("content-range");
        reveal_strlit("last-modified");
        assert("content-range"@[0] == 'c' && "last-modified"@[0] == 'l');
    }
}

/// A read describes what was uploaded in parts. An object whose upload was started by a request has
/// the bucket, the key and the header fields of that request: HEAD and GET requests for it are
/// answered with them as for an object that was uploaded at once.
pub proof fn law_reads_describe_completed_uploads(
    create_headers: Seq<(Seq<char>, Seq<u8>)>,
    upload_id: Seq<char>,
    bucket: Seq<char>,
    key: Seq<char>,
    owner: Option<Seq<char>>,
    started: (int, int),
    size: nat,
    etag: Seq<char>,
    checksums: Seq<(Seq<char>, Seq<char>)>,
    now: (int, int),
    headers: Seq<(Seq<char>, Seq<u8>)>,
    query: Seq<char>,
    request_id: Seq<char>,
    name: Seq<char>,
)
    requires
        upload_metadata(create_headers) is Ok,
        names_begin_with(checksums, "x-amz-checksum-"@),
        ({
            let session = new_session(
                upload_id,
                bucket,
                key,
                owner,
                upload_metadata(create_headers)->Ok_0,
                started,
            );
            let metadata = object_metadata(
                session.bucket,
                session.key,
                size,
                etag,
                session.metadata,
                checksums,
                now,
            );
            conditions(headers, metadata) is Proceed
        }),
        requested_range(headers, size) == Ok::<_, ErrorView>(None::<(nat, nat)>),
        forall|k: int|
            0 <= k < overridable_fields().len() ==> asked_value(
                query,
                #[trigger] overridable_fields()[k],
            ) == Ok::<_, ErrorView>(None::<Seq<char>>),
    ensures
        ({
            let session = new_session(
                upload_id,
                bucket,
                key,
                owner,
                upload_metadata(create_headers)->Ok_0,
                started,
            );
            let metadata = object_metadata(
                session.bucket,
                session.key,
                size,
                etag,
                session.metadata,
                checksums,
                now,
            );
            let head = head_outcome(headers, metadata, request_id);
            let get = get_outcome(headers, query, metadata, request_id);
            &&& session.upload_id == upload_id
            &&& session.parts.len() == 0
            &&& metadata.bucket == bucket
            &&& metadata.key == key
            &&& head is Ok && head->Ok_0.status == 200 && head->Ok_0.body is Empty
            &&& get is Ok && get->Ok_0.status == 200
            &&& describes_upload(head->Ok_0.headers, create_headers, etag, checksums, name)
            &&& describes_upload(get->Ok_0.headers, create_headers, etag, checksums, name)
        }),
{
    law_reads_describe_what_was_uploaded(
        create_headers,
        bucket,
        key,
        size,
        etag,
        checksums,
        now,
        headers,
        query,
        request_id,
        name,
    );
}

} // verus!
