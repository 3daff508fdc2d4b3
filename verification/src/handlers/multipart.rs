//! Multipart uploads: listing parts, completing uploads and the responses to both.
use crate::auth::{AuthContext, AuthContextView, StreamingView};
use crate::body::checksum::{
    checksum_element, checksum_of_header, requested_checksums, ChecksumName, ChecksumRequest,
    RequestedView,
};
use crate::body::payload::{failure, fixed_hash_error, validate_fixed_sha256_payload_hash};
use crate::body::upload::{
    law_accepted_data_has_the_given_digests, upload_data, upload_result, UploadedBody,
};
use crate::collections::{pairs, TextMap};
use crate::error::{
    escape_xml, escaped, invalid_argument, invalid_part, invalid_request, malformed_xml,
    no_such_upload, ErrorView, S3Error,
};
use crate::handlers::query::{unique_query_param, unique_value};
use crate::handlers::request::{resolve_request_target, target_of};
use crate::handlers::selection::lemma_decimal;
use crate::hashing::{md5_digest, sha256, sha256_digest};
use crate::http::{host_of, HeaderMap, RequestView, S3Request};
use crate::response::{
    add_header, add_headers, lemma_no_response_values, lemma_response_values_add,
    lemma_response_values_push, response_values, xml_answer, xml_response, BodyView, ResponseBody,
    S3Response, S3ResponseView,
};
use crate::s3::types::{is_part_number, md5_etag, ETag, PartNumber, RequestId, UploadId};
use crate::storage::model::{
    parts_ascend, stand_under_own_numbers, CompletedPart, CompletedView, EntryView, MetadataView,
    ObjectMetadata, PartMetadata, PartTable, PartView, SessionView, UploadSession, UploadState,
};
use crate::text::{
    bool_str, bool_text, decimal, decimal_text, has_control, hex_encode, hex_text, opt_str,
    opt_text, parse_number, parse_unsigned, result_view, same, starts_with, utf8_text,
};
use crate::time::{format_rfc3339, rfc3339_text};
use vstd::prelude::*;
use vstd::utf8::{decode_utf8, valid_utf8};

verus! {

/// The largest body of a completion request, in bytes.
pub const COMPLETE_MULTIPART_XML_LIMIT: usize = 8_388_608;

// ---------------------------------------------------------------------------------------------
// Which uploads a request may touch
// ---------------------------------------------------------------------------------------------
/// The error of a request for an upload that is not open, has another target or another owner.
pub open spec fn session_error(
    session: Option<SessionView>,
    request: RequestView,
    base_domain: Option<Seq<char>>,
    auth: AuthContextView,
) -> Option<ErrorView> {
    match session {
        None => Some(no_such_upload()),
        Some(s) => if s.state != UploadState::Open {
            Some(no_such_upload())
        } else {
            match target_of(request, base_domain) {
                Err(error) => Some(error),
                Ok(target) => if target.bucket != s.bucket || target.key != s.key {
                    Some(no_such_upload())
                } else if s.owner is Some && auth.access_key_id != s.owner {
                    Some(no_such_upload())
                } else {
                    None
                },
            }
        },
    }
}

/// The view of an optional session.
pub open spec fn opt_session(session: Option<&UploadSession>) -> Option<SessionView> {
    match session {
        Some(s) => Some(s@),
        None => None,
    }
}

fn is_owned_by(session: &UploadSession, auth: &AuthContext) -> (result: bool)
    ensures
        result == !(session@.owner is Some && auth@.access_key_id != session@.owner),
{
    match &session.owner_access_key_id {
        None => true,
        Some(owner) => match &auth.access_key_id {
            None => false,
            Some(id) => same(id.as_str(), owner.as_str()),
        },
    }
}

/// Checks that a request may touch an upload.
pub fn validate_upload_session_target(
    session: Option<&UploadSession>,
    request: &S3Request,
    base_domain: Option<&str>,
    auth: &AuthContext,
) -> (result: Result<(), S3Error>)
    ensures
        failure(result) == session_error(
            opt_session(session),
            request@,
            opt_str(base_domain),
            auth@,
        ),
{
    let session = match session {
        Some(session) => session,
        None => {
            return Err(S3Error::no_such_upload());
        },
    };
    if !session.is_open() {
        return Err(S3Error::no_such_upload());
    }
    let target = match resolve_request_target(request, base_domain) {
        Ok(target) => target,
        Err(error) => {
            return Err(error);
        },
    };
    if !same(target.bucket.as_str(), session.bucket.as_str()) || !same(
        target.key.as_str(),
        session.key.as_str(),
    ) {
        return Err(S3Error::no_such_upload());
    }
    if !is_owned_by(session, auth) {
        return Err(S3Error::no_such_upload());
    }
    Ok(())
}

/// An upload is only touched while it is open, through its own bucket and key, and by the access
/// key that started it where there is one.
pub proof fn law_uploads_are_touched_by_their_owners(
    session: SessionView,
    request: RequestView,
    base_domain: Option<Seq<char>>,
    auth: AuthContextView,
)
    requires
        session_error(Some(session), request, base_domain, auth) is None,
    ensures
        session.state == UploadState::Open,
        target_of(request, base_domain) is Ok,
        target_of(request, base_domain)->Ok_0.bucket == session.bucket,
        target_of(request, base_domain)->Ok_0.key == session.key,
        session.owner is Some ==> auth.access_key_id == session.owner,
{
}

// ---------------------------------------------------------------------------------------------
// Listing parts
// ---------------------------------------------------------------------------------------------
/// The page that a `ListParts` request asks for.
#[derive(Clone, Copy, Debug, PartialEq, Eq, Structural)]
pub struct ListPartsPageRequest {
    /// The largest number of parts on the page.
    pub max_parts: usize,
    /// The part number after which the page starts.
    pub part_number_marker: u16,
}

/// The largest number of parts on a page, and the number where none is asked for.
pub const MAX_PARTS_LIMIT: usize = 1000;

/// The number of parts that a query asks for.
pub open spec fn requested_max_parts(query: Seq<char>) -> Result<nat, ErrorView> {
    match unique_value(query, "max-parts"@) {
        Err(error) => Err(error),
        Ok(None) => Ok(MAX_PARTS_LIMIT as nat),
        Ok(Some(value)) => match parse_unsigned(value, 10, usize::MAX as nat) {
            None => Err(invalid_argument("max-parts must be an integer"@)),
            Some(number) => if number == 0 {
                Err(invalid_argument("max-parts must be in 1..=1000"@))
            } else if number > MAX_PARTS_LIMIT {
                Ok(MAX_PARTS_LIMIT as nat)
            } else {
                Ok(number)
            },
        },
    }
}

/// The marker that a query gives.
pub open spec fn requested_marker(query: Seq<char>) -> Result<nat, ErrorView> {
    match unique_value(query, "part-number-marker"@) {
        Err(error) => Err(error),
        Ok(None) => Ok(0),
        Ok(Some(value)) => match parse_unsigned(value, 10, u16::MAX as nat) {
            None => Err(invalid_argument("part-number-marker must be an integer"@)),
            Some(number) => if number > 10_000 {
                Err(invalid_argument("part-number-marker must be in 0..=10000"@))
            } else {
                Ok(number)
            },
        },
    }
}

/// The page that a query asks for: the largest number of parts, and the marker.
pub open spec fn requested_page(query: Seq<char>) -> Result<(nat, nat), ErrorView> {
    match requested_max_parts(query) {
        Err(error) => Err(error),
        Ok(max) => match requested_marker(query) {
            Err(error) => Err(error),
            Ok(marker) => Ok((max, marker)),
        },
    }
}

impl ListPartsPageRequest {
    /// Reads the page that a query asks for.
    pub fn parse(query: &str) -> (result: Result<Self, S3Error>)
        ensures
            match result {
                Ok(page) => requested_page(query@) == Ok::<_, ErrorView>(
                    (page.max_parts as nat, page.part_number_marker as nat),
                ) && 1 <= page.max_parts <= MAX_PARTS_LIMIT && page.part_number_marker <= 10_000,
                Err(error) => requested_page(query@) == Err::<(nat, nat), _>(error@),
            },
    {
        let max_parts: usize = match unique_query_param(query, "max-parts") {
            Err(error) => {
                return Err(error);
            },
            Ok(None) => MAX_PARTS_LIMIT,
            Ok(Some(value)) => match parse_number(value.as_str(), 10, usize::MAX as u64) {
                None => {
                    return Err(S3Error::invalid_argument("max-parts must be an integer"));
                },
                Some(number) => {
                    if number == 0 {
                        return Err(S3Error::invalid_argument("max-parts must be in 1..=1000"));
                    }
                    if number > MAX_PARTS_LIMIT as u64 {
                        MAX_PARTS_LIMIT
                    } else {
                        number as usize
                    }
                },
            },
        };
        let part_number_marker: u16 = match unique_query_param(query, "part-number-marker") {
            Err(error) => {
                return Err(error);
            },
            Ok(None) => 0,
            Ok(Some(value)) => match parse_number(value.as_str(), 10, u16::MAX as u64) {
                None => {
                    return Err(S3Error::invalid_argument("part-number-marker must be an integer"));
                },
                Some(number) => {
                    if number > 10_000 {
                        return Err(
                            S3Error::invalid_argument("part-number-marker must be in 0..=10000"),
                        );
                    }
                    number as u16
                },
            },
        };
        Ok(ListPartsPageRequest { max_parts, part_number_marker })
    }
}

/// The parts that are stored, in their order.
pub open spec fn stored_parts(parts: Seq<EntryView>) -> Seq<PartView> {
    parts.map_values(|entry: EntryView| entry.part)
}

/// The parts whose own numbers are greater than a marker.
pub open spec fn parts_after(parts: Seq<EntryView>, marker: nat) -> Seq<PartView> {
    stored_parts(parts).filter(|part: PartView| part.number > marker)
}

/// The parts on a page.
pub open spec fn listed_parts(parts: Seq<EntryView>, max: nat, marker: nat) -> Seq<PartView> {
    let after = parts_after(parts, marker);
    if after.len() > max {
        after.take(max as int)
    } else {
        after
    }
}

/// Whether there are more parts after a page.
pub open spec fn is_truncated(parts: Seq<EntryView>, max: nat, marker: nat) -> bool {
    parts_after(parts, marker).len() > max
}

/// The marker of the page after a page that is truncated.
pub open spec fn next_marker(parts: Seq<EntryView>, max: nat, marker: nat) -> nat {
    listed_parts(parts, max, marker).last().number
}

/// Whether the own numbers of parts ascend.
pub open spec fn numbers_ascend(parts: Seq<PartView>) -> bool {
    forall|i: int, j: int|
        0 <= i < j < parts.len() ==> (#[trigger] parts[i]).number < (#[trigger] parts[j]).number
}

/// The own numbers of parts that are stored under them ascend.
pub proof fn law_parts_under_own_numbers_are_listed_in_order(parts: Seq<EntryView>)
    requires
        parts_ascend(parts),
        stand_under_own_numbers(parts),
    ensures
        numbers_ascend(stored_parts(parts)),
{
    let stored = stored_parts(parts);
    assert forall|i: int, j: int| 0 <= i < j < stored.len() implies (#[trigger] stored[i]).number
        < (#[trigger] stored[j]).number by {
        assert(parts[i].key < parts[j].key);
    }
}

proof fn lemma_after_marker(parts: Seq<PartView>, marker: nat) -> (k: int)
    requires
        numbers_ascend(parts),
    ensures
        0 <= k <= parts.len(),
        parts.filter(|part: PartView| part.number > marker) == parts.skip(k),
        forall|i: int| 0 <= i < k ==> (#[trigger] parts[i]).number <= marker,
        forall|i: int| k <= i < parts.len() ==> (#[trigger] parts[i]).number > marker,
    decreases parts.len(),
{
    reveal(Seq::filter);
    let after = |part: PartView| part.number > marker;
    if parts.len() == 0 {
        assert(parts.filter(after) =~= parts.skip(0));
        0
    } else {
        let rest = parts.drop_last();
        assert(numbers_ascend(rest)) by {
            assert(forall|i: int| 0 <= i < rest.len() ==> rest[i] == parts[i]);
        }
        let k = lemma_after_marker(rest, marker);
        assert(forall|i: int| 0 <= i < rest.len() ==> rest[i] == parts[i]);
        assert(parts.last() == parts[parts.len() - 1]);
        if parts.last().number > marker {
            assert(parts.filter(after) =~= parts.skip(k));
            k
        } else {
            if k < rest.len() {
                assert(rest[k].number > marker);
                assert(parts[k].number < parts[parts.len() - 1].number);
            }
            assert(parts.filter(after) =~= parts.skip(parts.len() as int));
            parts.len() as int
        }
    }
}

/// Listing page after page covers every part once, where the own numbers of the parts ascend: what
/// follows a marker is the page, and then what follows the marker of the next page, until a page is
/// not truncated. Every truncated page moves the marker on, and no page lists a part up to its
/// marker.
pub proof fn law_pages_cover_all_parts(parts: Seq<EntryView>, max: nat, marker: nat)
    requires
        max >= 1,
    ensures
        is_truncated(parts, max, marker) && numbers_ascend(stored_parts(parts)) ==> parts_after(
            parts,
            marker,
        ) == listed_parts(parts, max, marker) + parts_after(
            parts,
            next_marker(parts, max, marker),
        ),
        is_truncated(parts, max, marker) ==> next_marker(parts, max, marker) > marker,
        !is_truncated(parts, max, marker) ==> parts_after(parts, marker) == listed_parts(
            parts,
            max,
            marker,
        ),
        forall|i: int|
            0 <= i < listed_parts(parts, max, marker).len() ==> (#[trigger] listed_parts(
                parts,
                max,
                marker,
            )[i]).number > marker,
{
    let stored = stored_parts(parts);
    let after = parts_after(parts, marker);
    let listed = listed_parts(parts, max, marker);
    let is_after = |part: PartView| part.number > marker;
    assert forall|i: int| 0 <= i < listed.len() implies (#[trigger] listed[i]).number > marker by {
        stored.lemma_filter_pred(is_after, i);
        assert(is_after(after[i]));
    }
    if is_truncated(parts, max, marker) {
        assert(listed.last() == listed[listed.len() - 1]);
        if numbers_ascend(stored) {
            let next = next_marker(parts, max, marker);
            let k = lemma_after_marker(stored, marker);
            let j = lemma_after_marker(stored, next);
            assert(listed.last() == stored[k + max - 1]);
            assert(stored[k + max - 1].number == next);
            assert(stored[k + max as int].number > next);
            if j < k + max {
                assert(stored[k + max - 1].number > next);
            }
            if j > k + max {
                assert(stored[k + max as int].number <= next);
            }
            assert(after =~= listed + parts_after(parts, next));
        }
    }
}

/// The XML elements of the checksums of a part.
pub open spec fn checksums_xml(checksums: Seq<(Seq<char>, Seq<char>)>) -> Seq<char>
    decreases checksums.len(),
{
    if checksums.len() == 0 {
        Seq::empty()
    } else {
        let (name, value) = checksums.last();
        let before = checksums_xml(checksums.drop_last());
        match checksum_of_header(name) {
            None => before,
            Some(checksum) => before + "    <"@ + checksum_element(checksum) + ">"@ + escaped(value)
                + "</"@ + checksum_element(checksum) + ">\n"@,
        }
    }
}

/// The XML element of a part.
pub open spec fn part_xml(part: PartView) -> Seq<char> {
    "  <Part>\n    <PartNumber>"@ + decimal(part.number)
        + "</PartNumber>\n    <LastModified>"@ + rfc3339_text(part.last_modified)
        + "</LastModified>\n    <ETag>"@ + escaped(part.etag) + "</ETag>\n    <Size>"@ + decimal(
        part.size,
    ) + "</Size>\n"@ + checksums_xml(part.checksums) + "  </Part>\n"@
}

/// The XML elements of parts.
pub open spec fn parts_xml(parts: Seq<PartView>) -> Seq<char>
    decreases parts.len(),
{
    if parts.len() == 0 {
        Seq::empty()
    } else {
        parts_xml(parts.drop_last()) + part_xml(parts.last())
    }
}

/// The XML element of the marker of the next page.
pub open spec fn next_marker_xml(parts: Seq<EntryView>, max: nat, marker: nat) -> Seq<char> {
    if is_truncated(parts, max, marker) {
        "  <NextPartNumberMarker>"@ + decimal(next_marker(parts, max, marker))
            + "</NextPartNumberMarker>\n"@
    } else {
        Seq::empty()
    }
}

/// The body of a `ListParts` response.
pub open spec fn list_parts_xml(session: SessionView, max: nat, marker: nat) -> Seq<char> {
    "<?xml version=\"1.0\" encoding=\"UTF-8\"?>\n<ListPartsResult xmlns=\"http://s3.amazonaws.com/doc/2006-03-01/\">\n  <Bucket>"@
        + escaped(session.bucket) + "</Bucket>\n  <Key>"@ + escaped(session.key)
        + "</Key>\n  <UploadId>"@ + escaped(session.upload_id)
        + "</UploadId>\n  <PartNumberMarker>"@ + decimal(marker)
        + "</PartNumberMarker>\n  <MaxParts>"@ + decimal(max)
        + "</MaxParts>\n  <IsTruncated>"@ + bool_text(is_truncated(session.parts, max, marker))
        + "</IsTruncated>\n"@ + next_marker_xml(session.parts, max, marker) + parts_xml(
        listed_parts(session.parts, max, marker),
    ) + "</ListPartsResult>\n"@
}

fn write_checksums(xml: &mut String, checksums: &TextMap)
    ensures
        final(xml)@ == old(xml)@ + checksums_xml(checksums@),
{
    let ghost start = xml@;
    let ghost all = checksums@;
    let mut i: usize = 0;
    proof {
        assert(all.take(0) =~= Seq::<(Seq<char>, Seq<char>)>::empty());
        assert(start + Seq::<char>::empty() =~= start);
    }
    while i < checksums.len()
        invariant
            i <= checksums@.len(),
            all == checksums@,
            xml@ == start + checksums_xml(all.take(i as int)),
        decreases checksums@.len() - i,
    {
        proof {
            assert(all.take(i + 1).drop_last() =~= all.take(i as int));
            assert(all.take(i + 1).last() == all[i as int]);
        }
        let ghost before = checksums_xml(all.take(i as int));
        match ChecksumName::from_header_name(checksums.key_at(i)) {
            None => {},
            Some(checksum) => {
                let element = checksum.xml_element_name();
                let value = escape_xml(checksums.value_at(i));
                xml.append("    <");
                xml.append(element);
                xml.append(">");
                xml.append(value.as_str());
                xml.append("</");
                xml.append(element);
                xml.append(">\n");
                assert(xml@ =~= start + (before + "    <"@ + element@ + ">"@ + value@ + "</"@
                    + element@ + ">\n"@));
            },
        }
        i += 1;
    }
    assert(all.take(i as int) =~= all);
}

fn write_part(xml: &mut String, part: &PartMetadata)
    ensures
        final(xml)@ == old(xml)@ + part_xml(part@),
{
    let ghost start = xml@;
    let mut element = "  <Part>\n    <PartNumber>".to_owned();
    element.append(part.part_number.to_text().as_str());
    element.append("</PartNumber>\n    <LastModified>");
    element.append(format_rfc3339(part.last_modified).as_str());
    element.append("</LastModified>\n    <ETag>");
    element.append(escape_xml(part.etag.as_str()).as_str());
    element.append("</ETag>\n    <Size>");
    element.append(decimal_text(part.size).as_str());
    element.append("</Size>\n");
    write_checksums(&mut element, &part.checksums);
    element.append("  </Part>\n");
    xml.append(element.as_str());
}

fn find_listed(parts: &PartTable, marker: u16) -> (found: Vec<usize>)
    ensures
        found@.len() == parts_after(parts@, marker as nat).len(),
        forall|j: int|
            0 <= j < found@.len() ==> (#[trigger] found@[j]) < parts@.len()
                && parts@[found@[j] as int].part == parts_after(parts@, marker as nat)[j],
{
    let ghost all = stored_parts(parts@);
    let ghost is_after = |part: PartView| part.number > marker as nat;
    let mut found: Vec<usize> = Vec::new();
    let mut i: usize = 0;
    proof {
        reveal(Seq::filter);
        assert(all.take(0).filter(is_after).len() == 0);
    }
    while i < parts.len()
        invariant
            i <= parts@.len(),
            all == stored_parts(parts@),
            is_after == (|part: PartView| part.number > marker as nat),
            found@.len() == all.take(i as int).filter(is_after).len(),
            forall|j: int|
                0 <= j < found@.len() ==> (#[trigger] found@[j]) < parts@.len()
                    && parts@[found@[j] as int].part == all.take(i as int).filter(is_after)[j],
        decreases parts@.len() - i,
    {
        proof {
            reveal(Seq::filter);
            assert(all.take(i + 1).drop_last() =~= all.take(i as int));
            assert(all.take(i + 1).last() == parts@[i as int].part);
        }
        if parts.part_at(i).part_number.get() > marker {
            found.push(i);
        }
        i += 1;
    }
    assert(all.take(i as int) =~= all);
    found
}

fn write_parts(xml: &mut String, parts: &PartTable, found: &Vec<usize>, count: usize)
    requires
        count <= found@.len(),
        forall|j: int| 0 <= j < found@.len() ==> (#[trigger] found@[j]) < parts@.len(),
    ensures
        final(xml)@ == old(xml)@ + parts_xml(
            Seq::new(count as nat, |j: int| parts@[found@[j] as int].part),
        ),
{
    let ghost start = xml@;
    let ghost all = Seq::new(count as nat, |j: int| parts@[found@[j] as int].part);
    let mut i: usize = 0;
    proof {
        assert(all.take(0) =~= Seq::<PartView>::empty());
        assert(start + Seq::<char>::empty() =~= start);
    }
    while i < count
        invariant
            i <= count <= found@.len(),
            all == Seq::new(count as nat, |j: int| parts@[found@[j] as int].part),
            forall|j: int| 0 <= j < found@.len() ==> (#[trigger] found@[j]) < parts@.len(),
            xml@ == start + parts_xml(all.take(i as int)),
        decreases count - i,
    {
        let ghost before = parts_xml(all.take(i as int));
        write_part(xml, parts.part_at(found[i]));
        proof {
            let next = all.take(i + 1);
            assert(next.drop_last() =~= all.take(i as int));
            assert(next.last() == all[i as int]);
            assert(start + before + part_xml(all[i as int]) =~= start + (before + part_xml(
                all[i as int],
            )));
        }
        i += 1;
    }
    assert(all.take(count as int) =~= all);
}

/// Lists the parts of an upload.
pub fn list_parts_response(session: &UploadSession, page: ListPartsPageRequest, request_id: &RequestId) -> (
response: S3Response)
    requires
        1 <= page.max_parts <= MAX_PARTS_LIMIT,
    ensures
        response@ == xml_answer(
            200,
            request_id@,
            list_parts_xml(session@, page.max_parts as nat, page.part_number_marker as nat),
        ),
{
    let ghost parts = session@.parts;
    let ghost max = page.max_parts as nat;
    let ghost marker = page.part_number_marker as nat;
    let found = find_listed(&session.parts, page.part_number_marker);
    let total: usize = found.len();
    let truncated = total > page.max_parts;
    let count: usize = if truncated {
        page.max_parts
    } else {
        total
    };
    let ghost listed = listed_parts(parts, max, marker);
    proof {
        assert(Seq::new(count as nat, |j: int| session.parts@[found@[j] as int].part) =~= listed);
    }
    let mut xml =
        "<?xml version=\"1.0\" encoding=\"UTF-8\"?>\n<ListPartsResult xmlns=\"http://s3.amazonaws.com/doc/2006-03-01/\">\n  <Bucket>".to_owned();
    xml.append(escape_xml(session.bucket.as_str()).as_str());
    xml.append("</Bucket>\n  <Key>");
    xml.append(escape_xml(session.key.as_str()).as_str());
    xml.append("</Key>\n  <UploadId>");
    xml.append(escape_xml(session.upload_id.as_str()).as_str());
    xml.append("</UploadId>\n  <PartNumberMarker>");
    xml.append(decimal_text(page.part_number_marker as u64).as_str());
    xml.append("</PartNumberMarker>\n  <MaxParts>");
    xml.append(decimal_text(page.max_parts as u64).as_str());
    xml.append("</MaxParts>\n  <IsTruncated>");
    xml.append(bool_str(truncated));
    xml.append("</IsTruncated>\n");
    let ghost before = xml@;
    if truncated {
        let mut element = "  <NextPartNumberMarker>".to_owned();
        element.append(session.parts.part_at(found[count - 1]).part_number.to_text().as_str());
        element.append("</NextPartNumberMarker>\n");
        xml.append(element.as_str());
        assert(listed.last() == parts[found@[count - 1] as int].part);
    }
    assert(xml@ =~= before + next_marker_xml(parts, max, marker));
    write_parts(&mut xml, &session.parts, &found, count);
    xml.append("</ListPartsResult>\n");
    xml_response(200, request_id, xml)
}

// ---------------------------------------------------------------------------------------------
// Starting an upload and storing its parts
// ---------------------------------------------------------------------------------------------
/// The body of a `CreateMultipartUpload` response.
pub open spec fn create_upload_xml(session: SessionView) -> Seq<char> {
    "<?xml version=\"1.0\" encoding=\"UTF-8\"?>\n<InitiateMultipartUploadResult xmlns=\"http://s3.amazonaws.com/doc/2006-03-01/\">\n  <Bucket>"@
        + escaped(session.bucket) + "</Bucket>\n  <Key>"@ + escaped(session.key)
        + "</Key>\n  <UploadId>"@ + escaped(session.upload_id)
        + "</UploadId>\n</InitiateMultipartUploadResult>\n"@
}

/// Answers a request that started an upload.
pub fn create_upload_response(session: &UploadSession, request_id: &RequestId) -> (response:
    S3Response)
    ensures
        response@ == xml_answer(200, request_id@, create_upload_xml(session@)),
{
    let mut xml =
        "<?xml version=\"1.0\" encoding=\"UTF-8\"?>\n<InitiateMultipartUploadResult xmlns=\"http://s3.amazonaws.com/doc/2006-03-01/\">\n  <Bucket>".to_owned();
    xml.append(escape_xml(session.bucket.as_str()).as_str());
    xml.append("</Bucket>\n  <Key>");
    xml.append(escape_xml(session.key.as_str()).as_str());
    xml.append("</Key>\n  <UploadId>");
    xml.append(escape_xml(session.upload_id.as_str()).as_str());
    xml.append("</UploadId>\n</InitiateMultipartUploadResult>\n");
    xml_response(200, request_id, xml)
}

/// The ETag of an upload: its MD5 digest.
pub open spec fn upload_etag(md5: Seq<u8>) -> Seq<char> {
    md5_etag(hex_text(md5))
}

/// The ETag of an upload.
pub fn etag_of(body: &UploadedBody) -> (etag: ETag)
    ensures
        etag@ == upload_etag(body@.md5),
{
    ETag::from_hex_md5(hex_encode(body.md5_digest.as_slice()).as_str())
}

/// The response to an upload that was stored.
pub open spec fn stored_answer(
    etag: Seq<char>,
    request_id: Seq<char>,
    checksums: Seq<(Seq<char>, Seq<char>)>,
    full_object: bool,
    size: u64,
) -> S3ResponseView {
    let always = seq![
        ("etag"@, etag),
        ("x-amz-request-id"@, request_id),
        ("content-length"@, "0"@),
    ];
    let typed = if full_object && checksums.len() > 0 {
        always.push(("x-amz-checksum-type"@, "FULL_OBJECT"@))
    } else {
        always
    };
    S3ResponseView {
        status: 200,
        headers: typed + checksums,
        body: BodyView::Empty,
        decoded_bytes: Some(size),
    }
}

/// Answers an upload that was stored, of an object or of a part.
pub fn stored_response(
    etag: &ETag,
    request_id: &RequestId,
    body: &UploadedBody,
    full_object: bool,
) -> (response: S3Response)
    ensures
        body@.size <= u64::MAX,
        response@ == stored_answer(
            etag@,
            request_id@,
            body.checksums@,
            full_object,
            body@.size as u64,
        ),
{
    let mut headers: Vec<(String, String)> = Vec::new();
    assert(pairs(headers@) =~= Seq::<(Seq<char>, Seq<char>)>::empty());
    add_header(&mut headers, "etag", etag.as_str());
    add_header(&mut headers, "x-amz-request-id", request_id.as_str());
    add_header(&mut headers, "content-length", "0");
    assert(pairs(headers@) =~= seq![
        ("etag"@, etag@),
        ("x-amz-request-id"@, request_id@),
        ("content-length"@, "0"@),
    ]);
    if full_object && !body.checksums.is_empty() {
        add_header(&mut headers, "x-amz-checksum-type", "FULL_OBJECT");
    }
    add_headers(&mut headers, &body.checksums);
    S3Response {
        status: 200,
        headers,
        body: ResponseBody::Empty,
        decoded_bytes: Some(body.size.get()),
    }
}

// ---------------------------------------------------------------------------------------------
// Completing an upload
// ---------------------------------------------------------------------------------------------
/// The location that a completed object is said to have.
pub open spec fn completed_location(request: RequestView) -> Seq<char> {
    match host_of(request.headers) {
        Some(host) => "http://"@ + host + request.path,
        None => request.path,
    }
}

/// Tells the location of a completed object.
pub fn completion_location(request: &S3Request) -> (location: String)
    ensures
        location@ == completed_location(request@),
{
    match request.host() {
        Some(host) => {
            let mut location = "http://".to_owned();
            location.append(host.as_str());
            location.append(request.uri.path.as_str());
            location
        },
        None => request.uri.path.clone(),
    }
}

/// The text of a completion request's body.
pub open spec fn completion_text(headers: Seq<(Seq<char>, Seq<u8>)>, body: Seq<u8>) -> Result<
    Seq<char>,
    ErrorView,
> {
    match fixed_hash_error(headers, sha256_digest(body)) {
        Some(error) => Err(error),
        None => if valid_utf8(body) {
            Ok(decode_utf8(body))
        } else {
            Err(invalid_request("CompleteMultipartUpload XML must be valid UTF-8"@))
        },
    }
}

/// Checks the payload hash of a completion request and reads its body as text.
pub fn read_completion_text(headers: &HeaderMap, body: Vec<u8>) -> (result: Result<String, S3Error>)
    ensures
        match result {
            Ok(text) => completion_text(headers@, body@) == Ok::<_, ErrorView>(text@),
            Err(error) => completion_text(headers@, body@) == Err::<Seq<char>, _>(error@),
        },
{
    match validate_fixed_sha256_payload_hash(headers, &sha256(body.as_slice())) {
        Ok(()) => {},
        Err(error) => {
            return Err(error);
        },
    }
    match utf8_text(body) {
        Some(text) => Ok(text),
        None => Err(
            S3Error::invalid_request("CompleteMultipartUpload XML must be valid UTF-8"),
        ),
    }
}

/// A part as a completion request names it, before it is checked.
#[derive(Debug, PartialEq, Eq)]
pub struct CompletedPartXml {
    /// The part number, where there is one.
    pub part_number: Option<u16>,
    /// The ETag, where there is one.
    pub etag: Option<String>,
}

/// A [`CompletedPartXml`] as a mathematical value.
pub struct CompletedXmlView {
    pub part_number: Option<u16>,
    pub etag: Option<Seq<char>>,
}

impl View for CompletedPartXml {
    type V = CompletedXmlView;

    open spec fn view(&self) -> CompletedXmlView {
        CompletedXmlView { part_number: self.part_number, etag: opt_text(self.etag) }
    }
}

/// The part that an entry of a completion request names.
pub open spec fn completed_part(entry: CompletedXmlView) -> Result<CompletedView, ErrorView> {
    match entry.part_number {
        None => Err(malformed_xml("PartNumber is required"@)),
        Some(number) => if !is_part_number(number as int) {
            Err(invalid_part("PartNumber must be in 1..=10000"@))
        } else {
            match entry.etag {
                None => Err(malformed_xml("ETag is required"@)),
                Some(etag) => if etag.len() == 0 || crate::text::has_control(etag) {
                    Err(invalid_part("ETag is invalid"@))
                } else {
                    Ok(CompletedView { number: number as nat, etag })
                },
            }
        },
    }
}

/// The parts that a completion request names, in order.
pub open spec fn completed_parts(entries: Seq<CompletedXmlView>) -> Result<
    Seq<CompletedView>,
    ErrorView,
>
    decreases entries.len(),
{
    if entries.len() == 0 {
        Ok(Seq::empty())
    } else {
        match completed_parts(entries.drop_last()) {
            Err(error) => Err(error),
            Ok(parts) => match completed_part(entries.last()) {
                Err(error) => Err(error),
                Ok(part) => Ok(parts.push(part)),
            },
        }
    }
}

/// The views of the entries of a completion request.
pub open spec fn entry_views(entries: Seq<CompletedPartXml>) -> Seq<CompletedXmlView> {
    entries.map_values(|e: CompletedPartXml| e@)
}

/// The views of completed parts.
pub open spec fn completed_views(parts: Seq<CompletedPart>) -> Seq<CompletedView> {
    parts.map_values(|p: CompletedPart| p@)
}

fn read_completed_part(entry: &CompletedPartXml) -> (result: Result<CompletedPart, S3Error>)
    ensures
        result_view(result) == completed_part(entry@),
{
    let number: u16 = match entry.part_number {
        None => {
            return Err(S3Error::malformed_xml("PartNumber is required"));
        },
        Some(number) => number,
    };
    let part_number = match PartNumber::parse(number) {
        Ok(part_number) => part_number,
        Err(_) => {
            return Err(S3Error::invalid_part("PartNumber must be in 1..=10000"));
        },
    };
    match &entry.etag {
        None => Err(S3Error::malformed_xml("ETag is required")),
        Some(text) => match ETag::parse(text.as_str()) {
            Ok(etag) => Ok(CompletedPart { part_number, etag }),
            Err(_) => Err(S3Error::invalid_part("ETag is invalid")),
        },
    }
}

proof fn lemma_completed_parts_fail(entries: Seq<CompletedXmlView>, n: int)
    requires
        0 <= n <= entries.len(),
        completed_parts(entries.take(n)) is Err,
    ensures
        completed_parts(entries) == completed_parts(entries.take(n)),
    decreases entries.len() - n,
{
    if n < entries.len() {
        assert(entries.take(n + 1).drop_last() =~= entries.take(n));
        lemma_completed_parts_fail(entries, n + 1);
    } else {
        assert(entries.take(n) =~= entries);
    }
}

/// Checks the parts that a completion request names.
pub fn parse_completed_parts(entries: &Vec<CompletedPartXml>) -> (result: Result<
    Vec<CompletedPart>,
    S3Error,
>)
    ensures
        match result {
            Ok(parts) => completed_parts(entry_views(entries@)) == Ok::<_, ErrorView>(
                completed_views(parts@),
            ),
            Err(error) => completed_parts(entry_views(entries@)) == Err::<Seq<CompletedView>, _>(
                error@,
            ),
        },
{
    let ghost all = entry_views(entries@);
    let mut parts: Vec<CompletedPart> = Vec::new();
    let mut i: usize = 0;
    proof {
        assert(all.take(0) =~= Seq::<CompletedXmlView>::empty());
        assert(completed_views(parts@) =~= Seq::<CompletedView>::empty());
    }
    while i < entries.len()
        invariant
            i <= entries@.len(),
            all == entry_views(entries@),
            completed_parts(all.take(i as int)) == Ok::<_, ErrorView>(completed_views(parts@)),
        decreases entries.len() - i,
    {
        proof {
            assert(all.take(i + 1).drop_last() =~= all.take(i as int));
            assert(all.take(i + 1).last() == entries@[i as int]@);
            if completed_parts(all.take(i + 1)) is Err {
                lemma_completed_parts_fail(all, i + 1);
            }
        }
        match read_completed_part(&entries[i]) {
            Err(error) => {
                return Err(error);
            },
            Ok(part) => {
                let ghost before = parts@;
                let ghost view = part@;
                parts.push(part);
                assert(completed_views(parts@) =~= completed_views(before).push(view));
            },
        }
        i += 1;
    }
    assert(all.take(i as int) =~= all);
    Ok(parts)
}

/// Whether parts are named in ascending order of their numbers, each at most once.
pub open spec fn completed_ascend(parts: Seq<CompletedView>) -> bool {
    forall|i: int, j: int|
        0 <= i < j < parts.len() ==> (#[trigger] parts[i]).number < (#[trigger] parts[j]).number
}

/// The error of parts that are not named in ascending order.
pub open spec fn order_error(parts: Seq<CompletedView>) -> Option<ErrorView> {
    if completed_ascend(parts) {
        None
    } else {
        Some(invalid_part("Parts must be specified in ascending PartNumber order."@))
    }
}

/// Checks that parts are named in ascending order.
pub fn validate_ascending_parts(parts: &Vec<CompletedPart>) -> (result: Result<(), S3Error>)
    ensures
        failure(result) == order_error(completed_views(parts@)),
{
    let ghost all = completed_views(parts@);
    let mut i: usize = 1;
    while i < parts.len()
        invariant
            1 <= i,
            all == completed_views(parts@),
            parts@.len() >= 1 ==> i <= parts@.len(),
            forall|a: int, b: int|
                0 <= a < b < i && b < parts@.len() ==> (#[trigger] all[a]).number < (
                #[trigger] all[b]).number,
        decreases parts.len() - i,
    {
        assert(all[i as int] == parts@[i as int]@);
        assert(all[i - 1] == parts@[i - 1]@);
        if parts[i - 1].part_number >= parts[i].part_number {
            assert(!completed_ascend(all)) by {
                assert(all[i - 1].number >= all[i as int].number);
            }
            return Err(
                S3Error::invalid_part("Parts must be specified in ascending PartNumber order."),
            );
        }
        proof {
            assert forall|a: int, b: int|
                0 <= a < b < i + 1 && b < parts@.len() implies (#[trigger] all[a]).number < (
            #[trigger] all[b]).number by {
                if b == i && a < i - 1 {
                    assert(all[a].number < all[i - 1].number);
                }
            }
        }
        i += 1;
    }
    Ok(())
}

/// The parts and the checksums of a completion request.
pub open spec fn completion_request(
    headers: Seq<(Seq<char>, Seq<u8>)>,
    entries: Seq<CompletedXmlView>,
) -> Result<(Seq<CompletedView>, RequestedView), ErrorView> {
    match completed_parts(entries) {
        Err(error) => Err(error),
        Ok(parts) => if parts.len() == 0 {
            Err(invalid_part("CompleteMultipartUpload must include at least one part"@))
        } else {
            match order_error(parts) {
                Some(error) => Err(error),
                None => match requested_checksums(headers, Map::empty()) {
                    Err(error) => Err(error),
                    Ok(request) => Ok((parts, request)),
                },
            }
        },
    }
}

/// Checks a completion request whose XML was read.
pub fn check_completion_request(headers: &HeaderMap, entries: &Vec<CompletedPartXml>) -> (result:
    Result<(Vec<CompletedPart>, ChecksumRequest), S3Error>)
    ensures
        match result {
            Ok((parts, request)) => completion_request(headers@, entry_views(entries@)) == Ok::<
                _,
                ErrorView,
            >((completed_views(parts@), request@)),
            Err(error) => completion_request(headers@, entry_views(entries@)) == Err::<
                (Seq<CompletedView>, RequestedView),
                _,
            >(error@),
        },
{
    let parts = match parse_completed_parts(entries) {
        Ok(parts) => parts,
        Err(error) => {
            return Err(error);
        },
    };
    assert(completed_views(parts@).len() == parts@.len());
    if parts.len() == 0 {
        return Err(
            S3Error::invalid_part("CompleteMultipartUpload must include at least one part"),
        );
    }
    match validate_ascending_parts(&parts) {
        Ok(()) => {},
        Err(error) => {
            return Err(error);
        },
    }
    match ChecksumRequest::from_headers(headers) {
        Ok(request) => Ok((parts, request)),
        Err(error) => Err(error),
    }
}

/// The body of a `CompleteMultipartUpload` response.
pub open spec fn completed_xml(metadata: MetadataView, location: Seq<char>) -> Seq<char> {
    "<?xml version=\"1.0\" encoding=\"UTF-8\"?>\n<CompleteMultipartUploadResult xmlns=\"http://s3.amazonaws.com/doc/2006-03-01/\">\n  <Location>"@
        + escaped(location) + "</Location>\n  <Bucket>"@ + escaped(metadata.bucket)
        + "</Bucket>\n  <Key>"@ + escaped(metadata.key) + "</Key>\n  <ETag>"@ + escaped(
        metadata.etag,
    ) + "</ETag>\n</CompleteMultipartUploadResult>\n"@
}

/// The response to a completed upload.
pub open spec fn completed_answer(
    metadata: MetadataView,
    location: Seq<char>,
    request_id: Seq<char>,
) -> S3ResponseView {
    let always = seq![
        ("content-type"@, "application/xml; charset=utf-8"@),
        ("x-amz-request-id"@, request_id),
    ];
    let typed = if metadata.checksums.len() > 0 {
        always.push(("x-amz-checksum-type"@, "FULL_OBJECT"@))
    } else {
        always
    };
    S3ResponseView {
        status: 200,
        headers: typed + metadata.checksums,
        body: BodyView::Text(completed_xml(metadata, location)),
        decoded_bytes: Some(metadata.size as u64),
    }
}

/// Answers a request that completed an upload.
pub fn completed_response(metadata: &ObjectMetadata, location: &str, request_id: &RequestId) -> (
response: S3Response)
    ensures
        response@ == completed_answer(metadata@, location@, request_id@),
{
    let mut xml =
        "<?xml version=\"1.0\" encoding=\"UTF-8\"?>\n<CompleteMultipartUploadResult xmlns=\"http://s3.amazonaws.com/doc/2006-03-01/\">\n  <Location>".to_owned();
    xml.append(escape_xml(location).as_str());
    xml.append("</Location>\n  <Bucket>");
    xml.append(escape_xml(metadata.bucket.as_str()).as_str());
    xml.append("</Bucket>\n  <Key>");
    xml.append(escape_xml(metadata.key.as_str()).as_str());
    xml.append("</Key>\n  <ETag>");
    xml.append(escape_xml(metadata.etag.as_str()).as_str());
    xml.append("</ETag>\n</CompleteMultipartUploadResult>\n");
    let mut headers: Vec<(String, String)> = Vec::new();
    assert(pairs(headers@) =~= Seq::<(Seq<char>, Seq<char>)>::empty());
    add_header(&mut headers, "content-type", "application/xml; charset=utf-8");
    add_header(&mut headers, "x-amz-request-id", request_id.as_str());
    assert(pairs(headers@) =~= seq![
        ("content-type"@, "application/xml; charset=utf-8"@),
        ("x-amz-request-id"@, request_id@),
    ]);
    if !metadata.checksums.is_empty() {
        add_header(&mut headers, "x-amz-checksum-type", "FULL_OBJECT");
    }
    add_headers(&mut headers, &metadata.checksums);
    S3Response {
        status: 200,
        headers,
        body: ResponseBody::Text(xml),
        decoded_bytes: Some(metadata.size),
    }
}

/// An upload that was stored is answered with the ETag of its data, which is their MD5 digest in
/// quotes, and with nothing else in it: status 200 and no body.
pub proof fn law_uploads_are_answered_with_their_etag(
    headers: Seq<(Seq<char>, Seq<u8>)>,
    pieces: Seq<Seq<u8>>,
    context: Option<StreamingView>,
    max: nat,
    request_id: Seq<char>,
    checksums: Seq<(Seq<char>, Seq<char>)>,
    full_object: bool,
    size: u64,
)
    requires
        upload_result(headers, pieces, context, max) is Ok,
        forall|i: int|
            0 <= i < checksums.len() ==> starts_with((#[trigger] checksums[i]).0, "x-amz-"@),
    ensures
        ({
            let body = upload_result(headers, pieces, context, max)->Ok_0;
            let data = upload_data(headers, pieces, context, max);
            let answer = stored_answer(
                upload_etag(body.md5),
                request_id,
                checksums,
                full_object,
                size,
            );
            &&& answer.status == 200
            &&& answer.body is Empty
            &&& response_values(answer.headers, "etag"@) == seq![
                seq!['"'] + hex_text(md5_digest(data)) + seq!['"'],
            ]
        }),
{
    let body = upload_result(headers, pieces, context, max)->Ok_0;
    let data = upload_data(headers, pieces, context, max);
    law_accepted_data_has_the_given_digests(headers, pieces, context, max);
    reveal_strlit("\"");
    assert("\""@ =~= seq!['"']);
    let etag = upload_etag(body.md5);
    assert(etag =~= seq!['"'] + hex_text(md5_digest(data)) + seq!['"']);
    reveal_strlit("etag");
    reveal_strlit("x-amz-");
    reveal_strlit("x-amz-request-id");
    reveal_strlit("x-amz-checksum-type");
    reveal_strlit("content-length");
    assert("etag"@.len() == 4 && "x-amz-"@.len() == 6);
    assert("x-amz-request-id"@.len() == 16 && "x-amz-checksum-type"@.len() == 19);
    assert("content-length"@.len() == 14);
    let none = Seq::<(Seq<char>, Seq<char>)>::empty();
    let one = none.push(("etag"@, etag));
    let two = one.push(("x-amz-request-id"@, request_id));
    let always = two.push(("content-length"@, "0"@));
    lemma_response_values_push(none, ("etag"@, etag), "etag"@);
    lemma_response_values_push(one, ("x-amz-request-id"@, request_id), "etag"@);
    lemma_response_values_push(two, ("content-length"@, "0"@), "etag"@);
    lemma_response_values_push(always, ("x-amz-checksum-type"@, "FULL_OBJECT"@), "etag"@);
    lemma_no_response_values(none, "etag"@);
    assert(response_values(always, "etag"@) =~= seq![etag]);
    assert(always =~= seq![
        ("etag"@, etag),
        ("x-amz-request-id"@, request_id),
        ("content-length"@, "0"@),
    ]);
    let typed = if full_object && checksums.len() > 0 {
        always.push(("x-amz-checksum-type"@, "FULL_OBJECT"@))
    } else {
        always
    };
    lemma_response_values_add(typed, checksums, "etag"@);
    assert forall|i: int| 0 <= i < checksums.len() implies (#[trigger] checksums[i]).0
        != "etag"@ by {
        assert(starts_with(checksums[i].0, "x-amz-"@));
    }
    lemma_no_response_values(checksums, "etag"@);
    assert(response_values(typed, "etag"@) + Seq::<Seq<char>>::empty() =~= seq![etag]);
}

/// A client reaches its own open uploads: a request for the object of an open upload is not refused
/// where the upload has no owner, or where it is signed with the owner's access key.
pub proof fn law_owners_reach_their_uploads(
    session: SessionView,
    request: RequestView,
    base_domain: Option<Seq<char>>,
    auth: AuthContextView,
)
    requires
        session.state == UploadState::Open,
        target_of(request, base_domain) matches Ok(target) && target.bucket == session.bucket
            && target.key == session.key,
        session.owner is None || auth.access_key_id == session.owner,
    ensures
        session_error(Some(session), request, base_domain, auth) is None,
{
}

/// A list of completed parts is read as it was sent: where every entry has a part number and an
/// ETag, the parts are those of the entries, one by one and in their order.
pub proof fn law_completion_lists_are_read_as_sent(entries: Seq<CompletedXmlView>)
    requires
        forall|i: int|
            0 <= i < entries.len() ==> {
                let entry = #[trigger] entries[i];
                &&& entry.part_number is Some && 1 <= entry.part_number->0 <= 10_000
                &&& entry.etag is Some && entry.etag->0.len() > 0 && !has_control(entry.etag->0)
            },
    ensures
        completed_parts(entries) matches Ok(parts) && {
            &&& parts.len() == entries.len()
            &&& forall|i: int|
                0 <= i < parts.len() ==> {
                    &&& (#[trigger] parts[i]).number == entries[i].part_number->0
                    &&& parts[i].etag == entries[i].etag->0
                }
        },
    decreases entries.len(),
{
    if entries.len() > 0 {
        let rest = entries.drop_last();
        assert forall|i: int| 0 <= i < rest.len() implies {
            let entry = #[trigger] rest[i];
            &&& entry.part_number is Some && 1 <= entry.part_number->0 <= 10_000
            &&& entry.etag is Some && entry.etag->0.len() > 0 && !has_control(entry.etag->0)
        } by {
            assert(rest[i] == entries[i]);
        }
        law_completion_lists_are_read_as_sent(rest);
        let last = entries[entries.len() - 1];
        assert(completed_part(last) is Ok);
        let shorter = completed_parts(rest)->Ok_0;
        let parts = completed_parts(entries)->Ok_0;
        assert forall|i: int| 0 <= i < parts.len() implies {
            &&& (#[trigger] parts[i]).number == entries[i].part_number->0
            &&& parts[i].etag == entries[i].etag->0
        } by {
            if i < shorter.len() {
                assert(parts[i] == shorter[i]);
                assert(rest[i] == entries[i]);
            }
        }
    }
}

/// A list of completed parts is in order if and only if each part number is greater than the one
/// before; one that is not is refused with status 400.
pub proof fn law_completion_lists_are_in_order(parts: Seq<CompletedView>)
    ensures
        match order_error(parts) {
            None => forall|i: int|
                0 < i < parts.len() ==> parts[i - 1].number < (#[trigger] parts[i]).number,
            Some(error) => {
                &&& error.status == 400
                &&& exists|i: int|
                    0 < i < parts.len() && parts[i - 1].number >= (#[trigger] parts[i]).number
            },
        },
{
    if order_error(parts) is Some {
        lemma_out_of_order(parts);
    }
}

proof fn lemma_numbers_grow(parts: Seq<CompletedView>, i: int, j: int)
    requires
        0 <= i < j < parts.len(),
        forall|k: int| 0 < k < parts.len() ==> parts[k - 1].number < (#[trigger] parts[k]).number,
    ensures
        parts[i].number < parts[j].number,
    decreases j - i,
{
    assert(parts[j - 1].number < parts[j].number);
    if i < j - 1 {
        lemma_numbers_grow(parts, i, j - 1);
    }
}

proof fn lemma_out_of_order(parts: Seq<CompletedView>)
    requires
        !completed_ascend(parts),
    ensures
        exists|i: int| 0 < i < parts.len() && parts[i - 1].number >= (#[trigger] parts[i]).number,
{
    if forall|i: int| 0 < i < parts.len() ==> parts[i - 1].number < (#[trigger] parts[i]).number {
        assert forall|i: int, j: int| 0 <= i < j < parts.len() implies (#[trigger] parts[i]).number
            < (#[trigger] parts[j]).number by {
            lemma_numbers_grow(parts, i, j);
        }
    }
}

/// A listing has the page that its client asks for: as many parts as `max-parts` says, but no more
/// than a thousand, after the part that `part-number-marker` names; a thousand, or the first ones,
/// where nothing is said.
pub proof fn law_pages_are_those_asked_for(query: Seq<char>, max: Option<nat>, marker: Option<nat>)
    requires
        max is Some ==> 1 <= max->0 <= usize::MAX,
        marker is Some ==> marker->0 <= 10_000,
        unique_value(query, "max-parts"@) == Ok::<_, ErrorView>(
            match max {
                Some(number) => Some(decimal(number)),
                None => None,
            },
        ),
        unique_value(query, "part-number-marker"@) == Ok::<_, ErrorView>(
            match marker {
                Some(number) => Some(decimal(number)),
                None => None,
            },
        ),
    ensures
        requested_page(query) matches Ok((most, after)) && {
            &&& most == if max is Some && max->0 < 1000 {
                max->0
            } else {
                1000
            }
            &&& after == if marker is Some {
                marker->0
            } else {
                0
            }
        },
{
    if let Some(number) = max {
        lemma_decimal(number);
        assert(decimal(number)[0] != '+');
    }
    if let Some(number) = marker {
        lemma_decimal(number);
        assert(decimal(number)[0] != '+');
    }
}

} // verus!
