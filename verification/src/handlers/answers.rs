//! The documents that requests are answered with, as a client reads them.
use crate::error::{error_xml, escape_char, escaped, resource_line, ErrorView};
use crate::handlers::multipart::{
    checksums_xml, completed_xml, create_upload_xml, is_truncated, list_parts_xml, listed_parts,
    next_marker_xml, part_xml, parts_xml,
};
use crate::storage::model::{MetadataView, PartView, SessionView};
use crate::text::{bool_text, decimal, ends_with, starts_with};
use crate::time::rfc3339_text;
use vstd::prelude::*;

verus! {

/// The tag that begins an element.
pub open spec fn start_tag(name: Seq<char>) -> Seq<char> {
    seq!['<'] + name + seq!['>']
}

/// The tag that ends an element.
pub open spec fn end_tag(name: Seq<char>) -> Seq<char> {
    seq!['<', '/'] + name + seq!['>']
}

/// Whether a text is made of three parts.
pub open spec fn is_made_of(
    text: Seq<char>,
    before: Seq<char>,
    middle: Seq<char>,
    after: Seq<char>,
) -> bool {
    text == before + middle + after
}

/// Whether a text stands within another.
pub open spec fn stands_in(middle: Seq<char>, text: Seq<char>) -> bool {
    exists|before: Seq<char>, after: Seq<char>| #[trigger] is_made_of(text, before, middle, after)
}

/// Whether an element of a document has some text.
pub open spec fn has_element(xml: Seq<char>, name: Seq<char>, text: Seq<char>) -> bool {
    stands_in(start_tag(name) + text + end_tag(name), xml)
}

proof fn lemma_element(
    xml: Seq<char>,
    before: Seq<char>,
    opening: Seq<char>,
    text: Seq<char>,
    closing: Seq<char>,
    after: Seq<char>,
    name: Seq<char>,
)
    requires
        xml == before + opening + text + closing + after,
        ends_with(opening, start_tag(name)),
        starts_with(closing, end_tag(name)),
    ensures
        has_element(xml, name, text),
{
    let start = start_tag(name);
    let end = end_tag(name);
    let head = before + opening.take(opening.len() - start.len());
    let tail = closing.skip(end.len() as int) + after;
    assert(opening =~= opening.take(opening.len() - start.len()) + start);
    assert(closing =~= end + closing.skip(end.len() as int));
    assert(xml =~= head + (start + text + end) + tail);
    assert(is_made_of(xml, head, start + text + end, tail));
}

proof fn lemma_three_elements(
    xml: Seq<char>,
    before: Seq<char>,
    tags: (Seq<char>, Seq<char>, Seq<char>, Seq<char>),
    texts: (Seq<char>, Seq<char>, Seq<char>),
    after: Seq<char>,
    names: (Seq<char>, Seq<char>, Seq<char>),
)
    requires
        xml == before + tags.0 + texts.0 + tags.1 + texts.1 + tags.2 + texts.2 + tags.3 + after,
        ends_with(tags.0, start_tag(names.0)),
        starts_with(tags.1, end_tag(names.0)),
        ends_with(tags.1, start_tag(names.1)),
        starts_with(tags.2, end_tag(names.1)),
        ends_with(tags.2, start_tag(names.2)),
        starts_with(tags.3, end_tag(names.2)),
    ensures
        has_element(xml, names.0, texts.0),
        has_element(xml, names.1, texts.1),
        has_element(xml, names.2, texts.2),
{
    assert(has_element(xml, names.0, texts.0)) by {
        let rest = texts.1 + tags.2 + texts.2 + tags.3 + after;
        assert(xml =~= before + tags.0 + texts.0 + tags.1 + rest);
        lemma_element(xml, before, tags.0, texts.0, tags.1, rest, names.0);
    }
    assert(has_element(xml, names.1, texts.1)) by {
        let front = before + tags.0 + texts.0;
        let rest = texts.2 + tags.3 + after;
        assert(xml =~= front + tags.1 + texts.1 + tags.2 + rest);
        lemma_element(xml, front, tags.1, texts.1, tags.2, rest, names.1);
    }
    assert(has_element(xml, names.2, texts.2)) by {
        let front = before + tags.0 + texts.0 + tags.1 + texts.1;
        assert(xml =~= front + tags.2 + texts.2 + tags.3 + after);
        lemma_element(xml, front, tags.2, texts.2, tags.3, after, names.2);
    }
}

/// A request that started an upload is answered with the bucket, the key and the ID of the upload,
/// each in its own element.
pub proof fn law_started_uploads_are_named(session: SessionView)
    ensures
        has_element(create_upload_xml(session), "Bucket"@, escaped(session.bucket)),
        has_element(create_upload_xml(session), "Key"@, escaped(session.key)),
        has_element(create_upload_xml(session), "UploadId"@, escaped(session.upload_id)),
{
    let xml = create_upload_xml(session);
    let t0 = "<?xml version=\"1.0\" encoding=\"UTF-8\"?>\n<InitiateMultipartUploadResult xmlns=\"http://s3.amazonaws.com/doc/2006-03-01/\">\n  <Bucket>"@;
    let t1 = "</Bucket>\n  <Key>"@;
    let t2 = "</Key>\n  <UploadId>"@;
    let t3 = "</UploadId>\n</InitiateMultipartUploadResult>\n"@;
    let v0 = escaped(session.bucket);
    let v1 = escaped(session.key);
    let v2 = escaped(session.upload_id);
    assert(ends_with(t0, start_tag("Bucket"@)) && starts_with(t1, end_tag("Bucket"@))) by {
        reveal_strlit("<?xml version=\"1.0\" encoding=\"UTF-8\"?>\n<InitiateMultipartUploadResult xmlns=\"http://s3.amazonaws.com/doc/2006-03-01/\">\n  <Bucket>");
        reveal_strlit("</Bucket>\n  <Key>");
        reveal_strlit("Bucket");
        assert(t0.len() == 129 && t1.len() == 17);
        assert(start_tag("Bucket"@).len() == 8);
        assert(end_tag("Bucket"@).len() == 9);
        assert(t0.skip(121) =~= start_tag("Bucket"@));
        assert(t1.take(9) =~= end_tag("Bucket"@));
    }
    assert(ends_with(t1, start_tag("Key"@)) && starts_with(t2, end_tag("Key"@))) by {
        reveal_strlit("</Bucket>\n  <Key>");
        reveal_strlit("</Key>\n  <UploadId>");
        reveal_strlit("Key");
        assert(t1.len() == 17 && t2.len() == 19);
        assert(start_tag("Key"@).len() == 5);
        assert(end_tag("Key"@).len() == 6);
        assert(t1.skip(12) =~= start_tag("Key"@));
        assert(t2.take(6) =~= end_tag("Key"@));
    }
    assert(ends_with(t2, start_tag("UploadId"@)) && starts_with(t3, end_tag("UploadId"@))) by {
        reveal_strlit("</Key>\n  <UploadId>");
        reveal_strlit("</UploadId>\n</InitiateMultipartUploadResult>\n");
        reveal_strlit("UploadId");
        assert(t2.len() == 19 && t3.len() == 45);
        assert(start_tag("UploadId"@).len() == 10);
        assert(end_tag("UploadId"@).len() == 11);
        assert(t2.skip(9) =~= start_tag("UploadId"@));
        assert(t3.take(11) =~= end_tag("UploadId"@));
    }
    assert(has_element(xml, "Bucket"@, v0)) by {
        let before = Seq::<char>::empty();
        let after = v1 + t2 + v2 + t3;
        assert(xml =~= before + t0 + v0 + t1 + after);
        lemma_element(xml, before, t0, v0, t1, after, "Bucket"@);
    }
    assert(has_element(xml, "Key"@, v1)) by {
        let before = t0 + v0;
        let after = v2 + t3;
        assert(xml =~= before + t1 + v1 + t2 + after);
        lemma_element(xml, before, t1, v1, t2, after, "Key"@);
    }
    assert(has_element(xml, "UploadId"@, v2)) by {
        let before = t0 + v0 + t1 + v1;
        let after = Seq::<char>::empty();
        assert(xml =~= before + t2 + v2 + t3 + after);
        lemma_element(xml, before, t2, v2, t3, after, "UploadId"@);
    }
}

/// A request that completed an upload is answered with the location, the bucket, the key and the
/// ETag of the object, each in its own element.
pub proof fn law_completed_objects_are_named(metadata: MetadataView, location: Seq<char>)
    ensures
        has_element(completed_xml(metadata, location), "Location"@, escaped(location)),
        has_element(completed_xml(metadata, location), "Bucket"@, escaped(metadata.bucket)),
        has_element(completed_xml(metadata, location), "Key"@, escaped(metadata.key)),
        has_element(completed_xml(metadata, location), "ETag"@, escaped(metadata.etag)),
{
    let xml = completed_xml(metadata, location);
    let t0 = "<?xml version=\"1.0\" encoding=\"UTF-8\"?>\n<CompleteMultipartUploadResult xmlns=\"http://s3.amazonaws.com/doc/2006-03-01/\">\n  <Location>"@;
    let t1 = "</Location>\n  <Bucket>"@;
    let t2 = "</Bucket>\n  <Key>"@;
    let t3 = "</Key>\n  <ETag>"@;
    let t4 = "</ETag>\n</CompleteMultipartUploadResult>\n"@;
    let v0 = escaped(location);
    let v1 = escaped(metadata.bucket);
    let v2 = escaped(metadata.key);
    let v3 = escaped(metadata.etag);
    assert(ends_with(t0, start_tag("Location"@)) && starts_with(t1, end_tag("Location"@))) by {
        reveal_strlit("<?xml version=\"1.0\" encoding=\"UTF-8\"?>\n<CompleteMultipartUploadResult xmlns=\"http://s3.amazonaws.com/doc/2006-03-01/\">\n  <Location>");
        reveal_strlit("</Location>\n  <Bucket>");
        reveal_strlit("Location");
        assert(t0.len() == 131 && t1.len() == 22);
        assert(start_tag("Location"@).len() == 10);
        assert(end_tag("Location"@).len() == 11);
        assert(t0.skip(121) =~= start_tag("Location"@));
        assert(t1.take(11) =~= end_tag("Location"@));
    }
    assert(ends_with(t1, start_tag("Bucket"@)) && starts_with(t2, end_tag("Bucket"@))) by {
        reveal_strlit("</Location>\n  <Bucket>");
        reveal_strlit("</Bucket>\n  <Key>");
        reveal_strlit("Bucket");
        assert(t1.len() == 22 && t2.len() == 17);
        assert(start_tag("Bucket"@).len() == 8);
        assert(end_tag("Bucket"@).len() == 9);
        assert(t1.skip(14) =~= start_tag("Bucket"@));
        assert(t2.take(9) =~= end_tag("Bucket"@));
    }
    assert(ends_with(t2, start_tag("Key"@)) && starts_with(t3, end_tag("Key"@))) by {
        reveal_strlit("</Bucket>\n  <Key>");
        reveal_strlit("</Key>\n  <ETag>");
        reveal_strlit("Key");
        assert(t2.len() == 17 && t3.len() == 15);
        assert(start_tag("Key"@).len() == 5);
        assert(end_tag("Key"@).len() == 6);
        assert(t2.skip(12) =~= start_tag("Key"@));
        assert(t3.take(6) =~= end_tag("Key"@));
    }
    assert(ends_with(t3, start_tag("ETag"@)) && starts_with(t4, end_tag("ETag"@))) by {
        reveal_strlit("</Key>\n  <ETag>");
        reveal_strlit("</ETag>\n</CompleteMultipartUploadResult>\n");
        reveal_strlit("ETag");
        assert(t3.len() == 15 && t4.len() == 41);
        assert(start_tag("ETag"@).len() == 6);
        assert(end_tag("ETag"@).len() == 7);
        assert(t3.skip(9) =~= start_tag("ETag"@));
        assert(t4.take(7) =~= end_tag("ETag"@));
    }
    assert(has_element(xml, "Location"@, v0)) by {
        let before = Seq::<char>::empty();
        let after = v1 + t2 + v2 + t3 + v3 + t4;
        assert(xml =~= before + t0 + v0 + t1 + after);
        lemma_element(xml, before, t0, v0, t1, after, "Location"@);
    }
    assert(has_element(xml, "Bucket"@, v1)) by {
        let before = t0 + v0;
        let after = v2 + t3 + v3 + t4;
        assert(xml =~= before + t1 + v1 + t2 + after);
        lemma_element(xml, before, t1, v1, t2, after, "Bucket"@);
    }
    assert(has_element(xml, "Key"@, v2)) by {
        let before = t0 + v0 + t1 + v1;
        let after = v3 + t4;
        assert(xml =~= before + t2 + v2 + t3 + after);
        lemma_element(xml, before, t2, v2, t3, after, "Key"@);
    }
    assert(has_element(xml, "ETag"@, v3)) by {
        let before = t0 + v0 + t1 + v1 + t2 + v2;
        let after = Seq::<char>::empty();
        assert(xml =~= before + t3 + v3 + t4 + after);
        lemma_element(xml, before, t3, v3, t4, after, "ETag"@);
    }
}

/// A part is listed with its number, the time it was stored, its ETag and its size, each in its own
/// element.
pub proof fn law_parts_are_described(part: PartView)
    ensures
        has_element(part_xml(part), "PartNumber"@, decimal(part.number)),
        has_element(part_xml(part), "LastModified"@, rfc3339_text(part.last_modified)),
        has_element(part_xml(part), "ETag"@, escaped(part.etag)),
        has_element(part_xml(part), "Size"@, decimal(part.size)),
{
    let xml = part_xml(part);
    let t0 = "  <Part>\n    <PartNumber>"@;
    let t1 = "</PartNumber>\n    <LastModified>"@;
    let t2 = "</LastModified>\n    <ETag>"@;
    let t3 = "</ETag>\n    <Size>"@;
    let t4 = "</Size>\n"@;
    let t5 = "  </Part>\n"@;
    let v0 = decimal(part.number);
    let v1 = rfc3339_text(part.last_modified);
    let v2 = escaped(part.etag);
    let v3 = decimal(part.size);
    let v4 = checksums_xml(part.checksums);
    assert(ends_with(t0, start_tag("PartNumber"@)) && starts_with(t1, end_tag("PartNumber"@))) by {
        reveal_strlit("  <Part>\n    <PartNumber>");
        reveal_strlit("</PartNumber>\n    <LastModified>");
        reveal_strlit("PartNumber");
        assert(t0.len() == 25 && t1.len() == 32);
        assert(start_tag("PartNumber"@).len() == 12);
        assert(end_tag("PartNumber"@).len() == 13);
        assert(t0.skip(13) =~= start_tag("PartNumber"@));
        assert(t1.take(13) =~= end_tag("PartNumber"@));
    }
    assert(ends_with(t1, start_tag("LastModified"@)) && starts_with(
        t2,
        end_tag("LastModified"@),
    )) by {
        reveal_strlit("</PartNumber>\n    <LastModified>");
        reveal_strlit("</LastModified>\n    <ETag>");
        reveal_strlit("LastModified");
        assert(t1.len() == 32 && t2.len() == 26);
        assert(start_tag("LastModified"@).len() == 14);
        assert(end_tag("LastModified"@).len() == 15);
        assert(t1.skip(18) =~= start_tag("LastModified"@));
        assert(t2.take(15) =~= end_tag("LastModified"@));
    }
    assert(ends_with(t2, start_tag("ETag"@)) && starts_with(t3, end_tag("ETag"@))) by {
        reveal_strlit("</LastModified>\n    <ETag>");
        reveal_strlit("</ETag>\n    <Size>");
        reveal_strlit("ETag");
        assert(t2.len() == 26 && t3.len() == 18);
        assert(start_tag("ETag"@).len() == 6);
        assert(end_tag("ETag"@).len() == 7);
        assert(t2.skip(20) =~= start_tag("ETag"@));
        assert(t3.take(7) =~= end_tag("ETag"@));
    }
    assert(ends_with(t3, start_tag("Size"@)) && starts_with(t4, end_tag("Size"@))) by {
        reveal_strlit("</ETag>\n    <Size>");
        reveal_strlit("</Size>\n");
        reveal_strlit("Size");
        assert(t3.len() == 18 && t4.len() == 8);
        assert(start_tag("Size"@).len() == 6);
        assert(end_tag("Size"@).len() == 7);
        assert(t3.skip(12) =~= start_tag("Size"@));
        assert(t4.take(7) =~= end_tag("Size"@));
    }
    assert(has_element(xml, "PartNumber"@, v0)) by {
        let before = Seq::<char>::empty();
        let after = v1 + t2 + v2 + t3 + v3 + t4 + v4 + t5;
        assert(xml =~= before + t0 + v0 + t1 + after);
        lemma_element(xml, before, t0, v0, t1, after, "PartNumber"@);
    }
    assert(has_element(xml, "LastModified"@, v1)) by {
        let before = t0 + v0;
        let after = v2 + t3 + v3 + t4 + v4 + t5;
        assert(xml =~= before + t1 + v1 + t2 + after);
        lemma_element(xml, before, t1, v1, t2, after, "LastModified"@);
    }
    assert(has_element(xml, "ETag"@, v2)) by {
        let before = t0 + v0 + t1 + v1;
        let after = v3 + t4 + v4 + t5;
        assert(xml =~= before + t2 + v2 + t3 + after);
        lemma_element(xml, before, t2, v2, t3, after, "ETag"@);
    }
    assert(has_element(xml, "Size"@, v3)) by {
        let before = t0 + v0 + t1 + v1 + t2 + v2;
        let after = v4 + t5;
        assert(xml =~= before + t3 + v3 + t4 + after);
        lemma_element(xml, before, t3, v3, t4, after, "Size"@);
    }
}

proof fn lemma_part_stands(parts: Seq<PartView>, i: int)
    requires
        0 <= i < parts.len(),
    ensures
        stands_in(part_xml(parts[i]), parts_xml(parts)),
    decreases parts.len(),
{
    let rest = parts.drop_last();
    let xml = parts_xml(parts);
    let part = part_xml(parts[i]);
    if i == parts.len() - 1 {
        assert(xml =~= parts_xml(rest) + part + Seq::<char>::empty());
        assert(is_made_of(xml, parts_xml(rest), part, Seq::empty()));
    } else {
        lemma_part_stands(rest, i);
        let (before, after) = choose|before: Seq<char>, after: Seq<char>| #[trigger]
            is_made_of(parts_xml(rest), before, part_xml(rest[i]), after);
        let longer = after + part_xml(parts.last());
        assert(xml =~= before + part + longer);
        assert(is_made_of(xml, before, part, longer));
    }
}

proof fn lemma_stands_within(
    inner: Seq<char>,
    middle: Seq<char>,
    before: Seq<char>,
    after: Seq<char>,
)
    requires
        stands_in(inner, middle),
    ensures
        stands_in(inner, before + middle + after),
{
    let (b, a) = choose|b: Seq<char>, a: Seq<char>| #[trigger] is_made_of(middle, b, inner, a);
    assert(before + middle + after =~= (before + b) + inner + (a + after));
    assert(is_made_of(before + middle + after, before + b, inner, a + after));
}

/// A listing names the bucket, the key and the ID of the upload, each in its own element.
pub proof fn law_listings_name_the_upload(session: SessionView, max: nat, marker: nat)
    ensures
        has_element(list_parts_xml(session, max, marker), "Bucket"@, escaped(session.bucket)),
        has_element(list_parts_xml(session, max, marker), "Key"@, escaped(session.key)),
        has_element(list_parts_xml(session, max, marker), "UploadId"@, escaped(session.upload_id)),
{
    let xml = list_parts_xml(session, max, marker);
    let t0 = "<?xml version=\"1.0\" encoding=\"UTF-8\"?>\n<ListPartsResult xmlns=\"http://s3.amazonaws.com/doc/2006-03-01/\">\n  <Bucket>"@;
    let t1 = "</Bucket>\n  <Key>"@;
    let t2 = "</Key>\n  <UploadId>"@;
    let t3 = "</UploadId>\n  <PartNumberMarker>"@;
    let t4 = "</PartNumberMarker>\n  <MaxParts>"@;
    let t5 = "</MaxParts>\n  <IsTruncated>"@;
    let t6 = "</IsTruncated>\n"@;
    let t7 = Seq::<char>::empty();
    let t8 = "</ListPartsResult>\n"@;
    let v0 = escaped(session.bucket);
    let v1 = escaped(session.key);
    let v2 = escaped(session.upload_id);
    let v3 = decimal(marker);
    let v4 = decimal(max);
    let v5 = bool_text(is_truncated(session.parts, max, marker));
    let v6 = next_marker_xml(session.parts, max, marker);
    let v7 = parts_xml(listed_parts(session.parts, max, marker));
    assert(ends_with(t0, start_tag("Bucket"@)) && starts_with(t1, end_tag("Bucket"@))) by {
        reveal_strlit("<?xml version=\"1.0\" encoding=\"UTF-8\"?>\n<ListPartsResult xmlns=\"http://s3.amazonaws.com/doc/2006-03-01/\">\n  <Bucket>");
        reveal_strlit("</Bucket>\n  <Key>");
        reveal_strlit("Bucket");
        assert(t0.len() == 115 && t1.len() == 17);
        assert(start_tag("Bucket"@).len() == 8);
        assert(end_tag("Bucket"@).len() == 9);
        assert(t0.skip(107) =~= start_tag("Bucket"@));
        assert(t1.take(9) =~= end_tag("Bucket"@));
    }
    assert(ends_with(t1, start_tag("Key"@)) && starts_with(t2, end_tag("Key"@))) by {
        reveal_strlit("</Bucket>\n  <Key>");
        reveal_strlit("</Key>\n  <UploadId>");
        reveal_strlit("Key");
        assert(t1.len() == 17 && t2.len() == 19);
        assert(start_tag("Key"@).len() == 5);
        assert(end_tag("Key"@).len() == 6);
        assert(t1.skip(12) =~= start_tag("Key"@));
        assert(t2.take(6) =~= end_tag("Key"@));
    }
    assert(ends_with(t2, start_tag("UploadId"@)) && starts_with(t3, end_tag("UploadId"@))) by {
        reveal_strlit("</Key>\n  <UploadId>");
        reveal_strlit("</UploadId>\n  <PartNumberMarker>");
        reveal_strlit("UploadId");
        assert(t2.len() == 19 && t3.len() == 32);
        assert(start_tag("UploadId"@).len() == 10);
        assert(end_tag("UploadId"@).len() == 11);
        assert(t2.skip(9) =~= start_tag("UploadId"@));
        assert(t3.take(11) =~= end_tag("UploadId"@));
    }
    let before = Seq::<char>::empty();
    let after = v3 + t4 + v4 + t5 + v5 + t6 + v6 + t7 + v7 + t8;
    assert(xml =~= before + t0 + v0 + t1 + v1 + t2 + v2 + t3 + after);
    lemma_three_elements(
        xml,
        before,
        (t0, t1, t2, t3),
        (v0, v1, v2),
        after,
        ("Bucket"@, "Key"@, "UploadId"@),
    );
}

/// A listing says where the page begins, how many parts it may hold and whether more follow, each
/// in its own element.
pub proof fn law_listings_describe_the_page(session: SessionView, max: nat, marker: nat)
    ensures
        has_element(list_parts_xml(session, max, marker), "PartNumberMarker"@, decimal(marker)),
        has_element(list_parts_xml(session, max, marker), "MaxParts"@, decimal(max)),
        has_element(
            list_parts_xml(session, max, marker),
            "IsTruncated"@,
            bool_text(is_truncated(session.parts, max, marker)),
        ),
{
    let xml = list_parts_xml(session, max, marker);
    let t0 = "<?xml version=\"1.0\" encoding=\"UTF-8\"?>\n<ListPartsResult xmlns=\"http://s3.amazonaws.com/doc/2006-03-01/\">\n  <Bucket>"@;
    let t1 = "</Bucket>\n  <Key>"@;
    let t2 = "</Key>\n  <UploadId>"@;
    let t3 = "</UploadId>\n  <PartNumberMarker>"@;
    let t4 = "</PartNumberMarker>\n  <MaxParts>"@;
    let t5 = "</MaxParts>\n  <IsTruncated>"@;
    let t6 = "</IsTruncated>\n"@;
    let t7 = Seq::<char>::empty();
    let t8 = "</ListPartsResult>\n"@;
    let v0 = escaped(session.bucket);
    let v1 = escaped(session.key);
    let v2 = escaped(session.upload_id);
    let v3 = decimal(marker);
    let v4 = decimal(max);
    let v5 = bool_text(is_truncated(session.parts, max, marker));
    let v6 = next_marker_xml(session.parts, max, marker);
    let v7 = parts_xml(listed_parts(session.parts, max, marker));
    assert(ends_with(t3, start_tag("PartNumberMarker"@)) && starts_with(
        t4,
        end_tag("PartNumberMarker"@),
    )) by {
        reveal_strlit("</UploadId>\n  <PartNumberMarker>");
        reveal_strlit("</PartNumberMarker>\n  <MaxParts>");
        reveal_strlit("PartNumberMarker");
        assert(t3.len() == 32 && t4.len() == 32);
        assert(start_tag("PartNumberMarker"@).len() == 18);
        assert(end_tag("PartNumberMarker"@).len() == 19);
        assert(t3.skip(14) =~= start_tag("PartNumberMarker"@));
        assert(t4.take(19) =~= end_tag("PartNumberMarker"@));
    }
    assert(ends_with(t4, start_tag("MaxParts"@)) && starts_with(t5, end_tag("MaxParts"@))) by {
        reveal_strlit("</PartNumberMarker>\n  <MaxParts>");
        reveal_strlit("</MaxParts>\n  <IsTruncated>");
        reveal_strlit("MaxParts");
        assert(t4.len() == 32 && t5.len() == 27);
        assert(start_tag("MaxParts"@).len() == 10);
        assert(end_tag("MaxParts"@).len() == 11);
        assert(t4.skip(22) =~= start_tag("MaxParts"@));
        assert(t5.take(11) =~= end_tag("MaxParts"@));
    }
    assert(ends_with(t5, start_tag("IsTruncated"@)) && starts_with(
        t6,
        end_tag("IsTruncated"@),
    )) by {
        reveal_strlit("</MaxParts>\n  <IsTruncated>");
        reveal_strlit("</IsTruncated>\n");
        reveal_strlit("IsTruncated");
        assert(t5.len() == 27 && t6.len() == 15);
        assert(start_tag("IsTruncated"@).len() == 13);
        assert(end_tag("IsTruncated"@).len() == 14);
        assert(t5.skip(14) =~= start_tag("IsTruncated"@));
        assert(t6.take(14) =~= end_tag("IsTruncated"@));
    }
    let before = t0 + v0 + t1 + v1 + t2 + v2;
    let after = v6 + t7 + v7 + t8;
    assert(xml =~= before + t3 + v3 + t4 + v4 + t5 + v5 + t6 + after);
    lemma_three_elements(
        xml,
        before,
        (t3, t4, t5, t6),
        (v3, v4, v5),
        after,
        ("PartNumberMarker"@, "MaxParts"@, "IsTruncated"@),
    );
}

/// A listing describes every part of its page, and says where the next page begins where there is
/// one.
pub proof fn law_listings_describe_their_parts(session: SessionView, max: nat, marker: nat)
    ensures
        forall|i: int|
            0 <= i < listed_parts(session.parts, max, marker).len() ==> stands_in(
                part_xml(#[trigger] listed_parts(session.parts, max, marker)[i]),
                list_parts_xml(session, max, marker),
            ),
        is_truncated(session.parts, max, marker) ==> stands_in(
            next_marker_xml(session.parts, max, marker),
            list_parts_xml(session, max, marker),
        ),
{
    let xml = list_parts_xml(session, max, marker);
    let t0 = "<?xml version=\"1.0\" encoding=\"UTF-8\"?>\n<ListPartsResult xmlns=\"http://s3.amazonaws.com/doc/2006-03-01/\">\n  <Bucket>"@;
    let t1 = "</Bucket>\n  <Key>"@;
    let t2 = "</Key>\n  <UploadId>"@;
    let t3 = "</UploadId>\n  <PartNumberMarker>"@;
    let t4 = "</PartNumberMarker>\n  <MaxParts>"@;
    let t5 = "</MaxParts>\n  <IsTruncated>"@;
    let t6 = "</IsTruncated>\n"@;
    let t8 = "</ListPartsResult>\n"@;
    let v0 = escaped(session.bucket);
    let v1 = escaped(session.key);
    let v2 = escaped(session.upload_id);
    let v3 = decimal(marker);
    let v4 = decimal(max);
    let v5 = bool_text(is_truncated(session.parts, max, marker));
    let v6 = next_marker_xml(session.parts, max, marker);
    let v7 = parts_xml(listed_parts(session.parts, max, marker));
    let parts = listed_parts(session.parts, max, marker);
    let head = t0 + v0 + t1 + v1 + t2 + v2 + t3 + v3 + t4 + v4 + t5 + v5 + t6;
    let front = head + v6;
    assert(xml == front + parts_xml(parts) + t8);
    assert(stands_in(v6, xml)) by {
        assert(xml =~= head + v6 + (v7 + t8));
        assert(is_made_of(xml, head, v6, v7 + t8));
    }
    assert forall|i: int| 0 <= i < parts.len() implies stands_in(
        part_xml(#[trigger] parts[i]),
        xml,
    ) by {
        lemma_part_stands(parts, i);
        lemma_stands_within(part_xml(parts[i]), parts_xml(parts), front, t8);
    }
}

/// An error is answered with its code, its message and the ID of the request, each in its own
/// element.
pub proof fn law_errors_are_spelled_out(error: ErrorView, request_id: Seq<char>)
    ensures
        has_element(error_xml(error, request_id), "Code"@, error.code),
        has_element(error_xml(error, request_id), "Message"@, escaped(error.message)),
        has_element(error_xml(error, request_id), "RequestId"@, request_id),
{
    let xml = error_xml(error, request_id);
    let t0 = "<?xml version=\"1.0\" encoding=\"UTF-8\"?>\n<Error>\n  <Code>"@;
    let t1 = "</Code>\n  <Message>"@;
    let t2 = "</Message>\n"@;
    let t3 = "  <RequestId>"@;
    let t4 = "</RequestId>\n</Error>\n"@;
    let v0 = error.code;
    let v1 = escaped(error.message);
    let v2 = resource_line(error.resource);
    let v3 = request_id;
    assert(ends_with(t0, start_tag("Code"@)) && starts_with(t1, end_tag("Code"@))) by {
        reveal_strlit("<?xml version=\"1.0\" encoding=\"UTF-8\"?>\n<Error>\n  <Code>");
        reveal_strlit("</Code>\n  <Message>");
        reveal_strlit("Code");
        assert(t0.len() == 55 && t1.len() == 19);
        assert(start_tag("Code"@).len() == 6);
        assert(end_tag("Code"@).len() == 7);
        assert(t0.skip(49) =~= start_tag("Code"@));
        assert(t1.take(7) =~= end_tag("Code"@));
    }
    assert(ends_with(t1, start_tag("Message"@)) && starts_with(t2, end_tag("Message"@))) by {
        reveal_strlit("</Code>\n  <Message>");
        reveal_strlit("</Message>\n");
        reveal_strlit("Message");
        assert(t1.len() == 19 && t2.len() == 11);
        assert(start_tag("Message"@).len() == 9);
        assert(end_tag("Message"@).len() == 10);
        assert(t1.skip(10) =~= start_tag("Message"@));
        assert(t2.take(10) =~= end_tag("Message"@));
    }
    assert(ends_with(t3, start_tag("RequestId"@)) && starts_with(t4, end_tag("RequestId"@))) by {
        reveal_strlit("  <RequestId>");
        reveal_strlit("</RequestId>\n</Error>\n");
        reveal_strlit("RequestId");
        assert(t3.len() == 13 && t4.len() == 22);
        assert(start_tag("RequestId"@).len() == 11);
        assert(end_tag("RequestId"@).len() == 12);
        assert(t3.skip(2) =~= start_tag("RequestId"@));
        assert(t4.take(12) =~= end_tag("RequestId"@));
    }
    assert(has_element(xml, "Code"@, v0)) by {
        let before = Seq::<char>::empty();
        let after = v1 + t2 + v2 + t3 + v3 + t4;
        assert(xml =~= before + t0 + v0 + t1 + after);
        lemma_element(xml, before, t0, v0, t1, after, "Code"@);
    }
    assert(has_element(xml, "Message"@, v1)) by {
        let before = t0 + v0;
        let after = v2 + t3 + v3 + t4;
        assert(xml =~= before + t1 + v1 + t2 + after);
        lemma_element(xml, before, t1, v1, t2, after, "Message"@);
    }
    assert(has_element(xml, "RequestId"@, v3)) by {
        let before = t0 + v0 + t1 + v1 + t2 + v2;
        let after = Seq::<char>::empty();
        assert(xml =~= before + t3 + v3 + t4 + after);
        lemma_element(xml, before, t3, v3, t4, after, "RequestId"@);
    }
}

/// The character that a client reads at the front of the text of an element, and how much of the
/// text it takes: the entities of XML stand for one character each.
pub open spec fn read_character(text: Seq<char>) -> (char, int) {
    if starts_with(text, seq!['&', 'a', 'm', 'p', ';']) {
        ('&', 5)
    } else if starts_with(text, seq!['&', 'l', 't', ';']) {
        ('<', 4)
    } else if starts_with(text, seq!['&', 'g', 't', ';']) {
        ('>', 4)
    } else if starts_with(text, seq!['&', 'q', 'u', 'o', 't', ';']) {
        ('"', 6)
    } else if starts_with(text, seq!['&', 'a', 'p', 'o', 's', ';']) {
        ('\'', 6)
    } else {
        (text[0], 1)
    }
}

/// What a client reads of the text of an element.
pub open spec fn read_text(text: Seq<char>) -> Seq<char>
    decreases text.len(),
{
    if text.len() == 0 {
        Seq::empty()
    } else {
        let (c, taken) = read_character(text);
        if 0 < taken <= text.len() {
            seq![c] + read_text(text.skip(taken))
        } else {
            Seq::empty()
        }
    }
}

proof fn lemma_escaped_front(text: Seq<char>)
    requires
        text.len() > 0,
    ensures
        escaped(text) == escape_char(text[0]) + escaped(text.skip(1)),
    decreases text.len(),
{
    let first = escape_char(text[0]);
    if text.len() == 1 {
        assert(text.drop_last() =~= Seq::<char>::empty());
        assert(text.skip(1) =~= Seq::<char>::empty());
        assert(Seq::<char>::empty() + first =~= first + Seq::<char>::empty());
    } else {
        let shorter = text.drop_last();
        lemma_escaped_front(shorter);
        assert(shorter.skip(1) =~= text.skip(1).drop_last());
        let last = escape_char(text.last());
        let middle = escaped(shorter.skip(1));
        assert((first + middle) + last =~= first + (middle + last));
    }
}

proof fn lemma_escaped_character(c: char, rest: Seq<char>)
    ensures
        read_character(escape_char(c) + rest) == (c, escape_char(c).len() as int),
        escape_char(c).len() > 0,
{
    reveal_strlit("&amp;");
    reveal_strlit("&lt;");
    reveal_strlit("&gt;");
    reveal_strlit("&quot;");
    reveal_strlit("&apos;");
    let text = escape_char(c) + rest;
    let amp = seq!['&', 'a', 'm', 'p', ';'];
    let lt = seq!['&', 'l', 't', ';'];
    let gt = seq!['&', 'g', 't', ';'];
    let quot = seq!['&', 'q', 'u', 'o', 't', ';'];
    let apos = seq!['&', 'a', 'p', 'o', 's', ';'];
    assert(starts_with(text, amp) ==> text.take(5)[0] == '&' && text.take(5)[2] == 'm');
    assert(starts_with(text, lt) ==> text.take(4)[0] == '&' && text.take(4)[1] == 'l');
    assert(starts_with(text, gt) ==> text.take(4)[0] == '&' && text.take(4)[1] == 'g');
    assert(starts_with(text, quot) ==> text.take(6)[0] == '&' && text.take(6)[1] == 'q');
    assert(starts_with(text, apos) ==> text.take(6)[0] == '&' && text.take(6)[2] == 'p');
    if c == '&' {
        assert(text.take(5) =~= amp);
    } else if c == '<' {
        assert(text.take(4) =~= lt);
        assert(text[1] == 'l');
    } else if c == '>' {
        assert(text.take(4) =~= gt);
        assert(text[1] == 'g');
    } else if c == '"' {
        assert(text.take(6) =~= quot);
        assert(text[1] == 'q');
    } else if c == '\'' {
        assert(text.take(6) =~= apos);
        assert(text[1] == 'a' && text[2] == 'p');
    } else {
        assert(text[0] == c);
    }
}

/// Escaped text is read back: whatever a document says of a bucket, a key, an ETag or an error, a
/// client that reads the entities of XML reads as it was.
pub proof fn law_escaped_text_is_read_back(text: Seq<char>)
    ensures
        read_text(escaped(text)) == text,
    decreases text.len(),
{
    if text.len() == 0 {
        assert(text =~= Seq::<char>::empty());
    } else {
        let rest = text.skip(1);
        lemma_escaped_front(text);
        law_escaped_text_is_read_back(rest);
        lemma_escaped_character(text[0], escaped(rest));
        let xml = escaped(text);
        let taken = escape_char(text[0]).len() as int;
        assert(xml.skip(taken) =~= escaped(rest));
        assert(seq![text[0]] + rest =~= text);
    }
}

} // verus!
