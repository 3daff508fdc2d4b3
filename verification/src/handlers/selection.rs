//! What ranges and conditions ask for, in the words of the client that sends them.
use crate::handlers::get_object::{get_outcome, requested_range};
use crate::handlers::head_object::{
    conditions, head_outcome, http_time, lists_tag, lists_tag_weakly, weak_value,
};
use crate::http::{first_text, has_field};
use crate::storage::model::MetadataView;
use crate::text::{
    all_digits, decimal, digit_value, digits_value, hex_digit, lemma_first_index_is, split, trim,
    trim_start,
};
use vstd::prelude::*;

verus! {

// ---------------------------------------------------------------------------------------------
// Ranges
// ---------------------------------------------------------------------------------------------
/// The bytes that a client asks for.
pub enum AskedRange {
    /// Those from a first to a last position.
    Between(nat, nat),
    /// Those from a position on.
    From(nat),
    /// So many at the end.
    Last(nat),
}

/// A range as a client writes it in the field `Range`.
pub open spec fn range_text(range: AskedRange) -> Seq<char> {
    match range {
        AskedRange::Between(first, last) => "bytes="@ + decimal(first) + seq!['-'] + decimal(last),
        AskedRange::From(first) => "bytes="@ + decimal(first) + seq!['-'],
        AskedRange::Last(count) => "bytes=-"@ + decimal(count),
    }
}

/// Whether a range can be written with numbers that fit.
pub open spec fn is_writable(range: AskedRange) -> bool {
    match range {
        AskedRange::Between(first, last) => first <= u64::MAX && last <= u64::MAX,
        AskedRange::From(first) => first <= u64::MAX,
        AskedRange::Last(count) => count <= u64::MAX,
    }
}

/// Whether a range asks for the byte at a position of an object of some size.
pub open spec fn asks_for(range: AskedRange, size: nat, position: nat) -> bool {
    position < size && match range {
        AskedRange::Between(first, last) => first <= position <= last,
        AskedRange::From(first) => first <= position,
        AskedRange::Last(count) => size <= position + count,
    }
}

/// What is known of decimal numbers.
pub proof fn lemma_decimal(n: nat)
    ensures
        decimal(n).len() > 0,
        digits_value(decimal(n), 10) == n,
        all_digits(decimal(n), 10),
        forall|i: int| 0 <= i < decimal(n).len() ==> '0' <= #[trigger] decimal(n)[i] <= '9',
    decreases n,
{
    let text = decimal(n);
    if n < 10 {
        assert(text.drop_last() =~= Seq::<char>::empty());
        assert(digits_value(text.drop_last(), 10) == 0);
    } else {
        lemma_decimal(n / 10);
        assert(text.drop_last() =~= decimal(n / 10));
        assert(n % 10 < 10);
        assert(digit_value(hex_digit(n % 10)) == n % 10);
        assert forall|i: int| 0 <= i < text.len() implies {
            &&& digit_value(#[trigger] text[i]) < 10
            &&& '0' <= text[i] <= '9'
        } by {
            if i < text.len() - 1 {
                assert(text[i] == decimal(n / 10)[i]);
            }
        }
        assert(n == (n / 10) * 10 + n % 10);
    }
}

/// A range selects the bytes that it names: those of the object that stand at positions it asks for,
/// and no others. Where there are none, it is refused with status 416.
pub proof fn law_ranges_select_what_they_name(
    headers: Seq<(Seq<char>, Seq<u8>)>,
    size: nat,
    range: AskedRange,
)
    requires
        is_writable(range),
        first_text(headers, "range"@) == Some(Some(range_text(range))),
    ensures
        match requested_range(headers, size) {
            Ok(Some((first, last))) => {
                &&& first <= last
                &&& forall|i: nat| first <= i <= last <==> #[trigger] asks_for(range, size, i)
            },
            Ok(None) => false,
            Err(error) => {
                &&& error.status == 416
                &&& error.code == "InvalidRange"@
                &&& forall|i: nat| !#[trigger] asks_for(range, size, i)
            },
        },
{
    let text = range_text(range);
    reveal_strlit("bytes=");
    reveal_strlit("bytes=-");
    assert("bytes=-"@ =~= "bytes="@ + seq!['-']);
    assert("bytes="@.len() == 6);
    let (start, end) = match range {
        AskedRange::Between(first, last) => (decimal(first), decimal(last)),
        AskedRange::From(first) => (decimal(first), Seq::empty()),
        AskedRange::Last(count) => (Seq::empty(), decimal(count)),
    };
    match range {
        AskedRange::Between(first, last) => {
            lemma_decimal(first);
            lemma_decimal(last);
        },
        AskedRange::From(first) => {
            lemma_decimal(first);
        },
        AskedRange::Last(count) => {
            lemma_decimal(count);
        },
    }
    let rest = start + seq!['-'] + end;
    assert(text =~= "bytes="@ + rest);
    assert(text.take(6) =~= "bytes="@);
    assert(text.skip(6) =~= rest);
    assert forall|j: int| 0 <= j < start.len() implies #[trigger] rest[j] != '-' by {
        assert(rest[j] == start[j]);
    }
    assert(!rest.contains(',')) by {
        if rest.contains(',') {
            let j = choose|j: int| 0 <= j < rest.len() && rest[j] == ',';
            if j < start.len() {
                assert(rest[j] == start[j]);
            } else if j > start.len() {
                assert(rest[j] == end[j - start.len() - 1]);
            }
        }
    }
    lemma_first_index_is(rest, '-', start.len() as int);
    assert(rest.take(start.len() as int) =~= start);
    assert(rest.skip(start.len() as int + 1) =~= end);
    match requested_range(headers, size) {
        Ok(Some((first, last))) => {
            assert forall|i: nat| first <= i <= last <==> #[trigger] asks_for(range, size, i) by {}
        },
        _ => {},
    }
}

// ---------------------------------------------------------------------------------------------
// Conditions
// ---------------------------------------------------------------------------------------------
/// A list of ETags as a client writes it.
pub open spec fn tag_list(tags: Seq<Seq<char>>) -> Seq<char>
    decreases tags.len(),
{
    if tags.len() == 0 {
        Seq::empty()
    } else if tags.len() == 1 {
        tags[0]
    } else {
        tags[0] + seq![',', ' '] + tag_list(tags.skip(1))
    }
}

/// Whether ETags can be listed: they have no comma and no white space around them.
pub open spec fn are_tags(tags: Seq<Seq<char>>) -> bool {
    forall|i: int|
        0 <= i < tags.len() ==> !(#[trigger] tags[i]).contains(',') && trim(tags[i]) == tags[i]
}

proof fn lemma_trim_space(tag: Seq<char>)
    ensures
        trim(seq![' '] + tag) == trim(tag),
{
    let spaced = seq![' '] + tag;
    assert(spaced.drop_first() =~= tag);
    assert(trim_start(spaced) == trim_start(tag));
}

proof fn lemma_tag_list(lead: Seq<char>, tags: Seq<Seq<char>>)
    requires
        tags.len() > 0,
        are_tags(tags),
        lead == Seq::<char>::empty() || lead == seq![' '],
    ensures
        split(lead + tag_list(tags), ',').len() == tags.len(),
        forall|i: int|
            0 <= i < tags.len() ==> trim(#[trigger] split(lead + tag_list(tags), ',')[i])
                == tags[i],
    decreases tags.len(),
{
    let text = lead + tag_list(tags);
    let pieces = split(text, ',');
    let first = lead + tags[0];
    assert(!tags[0].contains(',') && trim(tags[0]) == tags[0]);
    assert(trim(first) == tags[0]) by {
        if lead == seq![' '] {
            lemma_trim_space(tags[0]);
        } else {
            assert(first =~= tags[0]);
        }
    }
    assert forall|j: int| 0 <= j < first.len() implies #[trigger] text[j] != ',' by {
        if j >= lead.len() {
            assert(text[j] == tags[0][j - lead.len()]);
            assert(tags[0].contains(tags[0][j - lead.len()]));
        } else {
            assert(text[j] == lead[j]);
        }
    }
    if tags.len() == 1 {
        assert(text =~= first);
        lemma_first_index_is(text, ',', text.len() as int);
        assert(pieces == seq![text]);
    } else {
        let rest = tags.skip(1);
        let tail = seq![' '] + tag_list(rest);
        assert(text =~= first + seq![','] + tail);
        lemma_first_index_is(text, ',', first.len() as int);
        assert(text.take(first.len() as int) =~= first);
        assert(text.skip(first.len() as int + 1) =~= tail);
        assert forall|i: int| 0 <= i < rest.len() implies !(#[trigger] rest[i]).contains(',')
            && trim(rest[i]) == rest[i] by {
            assert(rest[i] == tags[i + 1]);
        }
        lemma_tag_list(seq![' '], rest);
        assert(pieces == seq![first] + split(tail, ','));
        assert forall|i: int| 0 <= i < tags.len() implies trim(#[trigger] pieces[i]) == tags[i] by {
            if i > 0 {
                assert(pieces[i] == split(tail, ',')[i - 1]);
                assert(rest[i - 1] == tags[i]);
            }
        }
    }
}

/// Whether a request has no condition on dates.
pub open spec fn has_no_dates(headers: Seq<(Seq<char>, Seq<u8>)>) -> bool {
    !has_field(headers, "if-modified-since"@) && !has_field(headers, "if-unmodified-since"@)
}

/// Whether HEAD and GET requests are answered as refused for a condition that does not hold.
pub open spec fn is_refused(
    headers: Seq<(Seq<char>, Seq<u8>)>,
    query: Seq<char>,
    metadata: MetadataView,
    request_id: Seq<char>,
) -> bool {
    let head = head_outcome(headers, metadata, request_id);
    &&& get_outcome(headers, query, metadata, request_id) == head
    &&& head matches Err(error) && error.status == 412 && error.code == "PreconditionFailed"@
}

/// Whether HEAD and GET requests are answered that the client has what it needs.
pub open spec fn is_not_modified(
    headers: Seq<(Seq<char>, Seq<u8>)>,
    query: Seq<char>,
    metadata: MetadataView,
    request_id: Seq<char>,
) -> bool {
    let head = head_outcome(headers, metadata, request_id);
    &&& get_outcome(headers, query, metadata, request_id) == head
    &&& head matches Ok(response) && response.status == 304 && response.body is Empty
}

/// A request with `If-Match` alone proceeds where the list names the object's ETag or any, and is
/// refused with status 412 where it does not.
pub proof fn law_if_match_asks_for_the_etag(
    headers: Seq<(Seq<char>, Seq<u8>)>,
    query: Seq<char>,
    metadata: MetadataView,
    request_id: Seq<char>,
    tags: Seq<Seq<char>>,
)
    requires
        tags.len() > 0,
        are_tags(tags),
        first_text(headers, "if-match"@) == Some(Some(tag_list(tags))),
        !has_field(headers, "if-none-match"@),
        has_no_dates(headers),
    ensures
        if tags.contains(metadata.etag) || tags.contains("*"@) {
            conditions(headers, metadata) is Proceed
        } else {
            is_refused(headers, query, metadata, request_id)
        },
{
    let list = tag_list(tags);
    let tag = metadata.etag;
    assert(Seq::<char>::empty() + list =~= list);
    lemma_tag_list(Seq::empty(), tags);
    let pieces = split(list, ',');
    if tags.contains(tag) {
        let i = choose|i: int| 0 <= i < tags.len() && tags[i] == tag;
        assert(trim(pieces[i]) == tag);
    }
    if tags.contains("*"@) {
        let i = choose|i: int| 0 <= i < tags.len() && tags[i] == "*"@;
        assert(trim(pieces[i]) == "*"@);
    }
    if lists_tag(list, tag) {
        let i = choose|i: int|
            0 <= i < pieces.len() && (trim(#[trigger] pieces[i]) == "*"@ || trim(pieces[i]) == tag);
        assert(tags.contains(tags[i]));
    }
}

/// A request with `If-None-Match` alone is answered with status 304 and no body where the list names
/// the object's ETag, marked as weak or not, or any, and proceeds where it does not.
pub proof fn law_if_none_match_asks_for_other_etags(
    headers: Seq<(Seq<char>, Seq<u8>)>,
    query: Seq<char>,
    metadata: MetadataView,
    request_id: Seq<char>,
    tags: Seq<Seq<char>>,
)
    requires
        tags.len() > 0,
        are_tags(tags),
        metadata.etag.len() > 0,
        metadata.etag[0] == '"',
        first_text(headers, "if-none-match"@) == Some(Some(tag_list(tags))),
        !has_field(headers, "if-match"@),
        has_no_dates(headers),
    ensures
        if tags.contains(metadata.etag) || tags.contains("W/"@ + metadata.etag) || tags.contains(
            "*"@,
        ) {
            is_not_modified(headers, query, metadata, request_id)
        } else {
            conditions(headers, metadata) is Proceed
        },
{
    let list = tag_list(tags);
    let tag = metadata.etag;
    assert(Seq::<char>::empty() + list =~= list);
    lemma_tag_list(Seq::empty(), tags);
    let pieces = split(list, ',');
    reveal_strlit("W/");
    assert("W/"@.len() == 2 && "W/"@[0] == 'W');
    assert(weak_value(tag) == tag) by {
        assert(tag.len() >= 2 ==> tag.take(2)[0] == '"');
    }
    let weak = "W/"@ + tag;
    assert(weak.take(2) =~= "W/"@);
    assert(weak.skip(2) =~= tag);
    assert(weak_value(weak) == tag);
    if tags.contains(tag) {
        let i = choose|i: int| 0 <= i < tags.len() && tags[i] == tag;
        assert(trim(pieces[i]) == tag);
    }
    if tags.contains(weak) {
        let i = choose|i: int| 0 <= i < tags.len() && tags[i] == weak;
        assert(trim(pieces[i]) == weak);
    }
    if tags.contains("*"@) {
        let i = choose|i: int| 0 <= i < tags.len() && tags[i] == "*"@;
        assert(trim(pieces[i]) == "*"@);
    }
    if lists_tag_weakly(list, tag) {
        let i = choose|i: int|
            0 <= i < pieces.len() && (trim(#[trigger] pieces[i]) == "*"@ || weak_value(
                trim(pieces[i]),
            ) == weak_value(tag));
        let found = tags[i];
        assert(tags.contains(found));
        if weak_value(found) == tag && found != tag {
            assert(found.len() >= 2 && found.take(2) == "W/"@);
            assert(found =~= found.take(2) + found.skip(2));
            assert(found == weak);
        }
    }
}

/// A request whose only condition is a date compares it, by seconds, with the time at which the
/// object was modified. `If-Modified-Since` is answered with status 304 and no body unless the
/// object was modified after the date; `If-Unmodified-Since` is refused with status 412 where it
/// was.
pub proof fn law_dates_are_compared_with_the_modification(
    headers: Seq<(Seq<char>, Seq<u8>)>,
    query: Seq<char>,
    metadata: MetadataView,
    request_id: Seq<char>,
    name: Seq<char>,
    text: Seq<char>,
)
    requires
        !has_field(headers, "if-match"@),
        !has_field(headers, "if-none-match"@),
        name == "if-modified-since"@ || name == "if-unmodified-since"@,
        first_text(headers, name) == Some(Some(text)),
        name == "if-modified-since"@ ==> !has_field(headers, "if-unmodified-since"@),
        name == "if-unmodified-since"@ ==> !has_field(headers, "if-modified-since"@),
        http_time(text) is Some,
    ensures
        ({
            let time = http_time(text)->0;
            let since = time.0;
            let modified = metadata.last_modified.0;
            if name == "if-modified-since"@ {
                if modified > since {
                    conditions(headers, metadata) is Proceed
                } else {
                    is_not_modified(headers, query, metadata, request_id)
                }
            } else {
                if modified > since {
                    is_refused(headers, query, metadata, request_id)
                } else {
                    conditions(headers, metadata) is Proceed
                }
            }
        }),
{
    reveal_strlit("if-modified-since");
    reveal_strlit("if-unmodified-since");
    assert("if-modified-since"@.len() == 17);
    assert("if-unmodified-since"@.len() == 19);
}

} // verus!
