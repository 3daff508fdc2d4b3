//! Parameters in query strings.
use crate::encoding::{percent_decode_text, percent_decoded_text};
use crate::error::{invalid_request, ErrorView, S3Error};
use crate::text::{opt_text, raw_pair, read_pair, same, split, split_all, texts};
use vstd::prelude::*;

verus! {

/// The error of a query that does not decode to UTF-8.
pub open spec fn query_encoding_error() -> ErrorView {
    invalid_request("query string contains invalid percent-encoded UTF-8"@)
}

/// The decoded values of a parameter, in order. Every key has to decode, and the values of the
/// parameter too.
pub open spec fn checked_values(pairs: Seq<Seq<char>>, name: Seq<char>) -> Result<
    Seq<Seq<char>>,
    ErrorView,
>
    decreases pairs.len(),
{
    if pairs.len() == 0 {
        Ok(Seq::empty())
    } else {
        let (key, value) = raw_pair(pairs.last());
        match checked_values(pairs.drop_last(), name) {
            Err(error) => Err(error),
            Ok(found) => match percent_decoded_text(key) {
                None => Err(query_encoding_error()),
                Some(decoded) => if decoded == name {
                    match percent_decoded_text(value) {
                        None => Err(query_encoding_error()),
                        Some(text) => Ok(found.push(text)),
                    }
                } else {
                    Ok(found)
                },
            },
        }
    }
}

/// The value of a parameter that may appear once.
pub open spec fn unique_value(query: Seq<char>, name: Seq<char>) -> Result<
    Option<Seq<char>>,
    ErrorView,
> {
    match checked_values(split(query, '&'), name) {
        Err(error) => Err(error),
        Ok(found) => if found.len() > 1 {
            Err(invalid_request(name + " must not appear more than once"@))
        } else if found.len() == 1 {
            Ok(Some(found[0]))
        } else {
            Ok(None)
        },
    }
}

/// The decoded values of a parameter, without those that do not decode.
pub open spec fn readable_values(pairs: Seq<Seq<char>>, name: Seq<char>) -> Seq<Seq<char>>
    decreases pairs.len(),
{
    if pairs.len() == 0 {
        Seq::empty()
    } else {
        let (key, value) = raw_pair(pairs.last());
        let found = readable_values(pairs.drop_last(), name);
        if percent_decoded_text(key) == Some(name) {
            match percent_decoded_text(value) {
                Some(text) => found.push(text),
                None => found,
            }
        } else {
            found
        }
    }
}

/// The first readable value of a parameter.
pub open spec fn first_value(query: Seq<char>, name: Seq<char>) -> Option<Seq<char>> {
    let found = readable_values(split(query, '&'), name);
    if found.len() > 0 {
        Some(found[0])
    } else {
        None
    }
}

/// How often a flag, a parameter without a value, appears. Every key has to decode.
pub open spec fn flag_count(pairs: Seq<Seq<char>>, name: Seq<char>) -> Result<nat, ErrorView>
    decreases pairs.len(),
{
    if pairs.len() == 0 {
        Ok(0)
    } else {
        let (key, value) = raw_pair(pairs.last());
        match flag_count(pairs.drop_last(), name) {
            Err(error) => Err(error),
            Ok(count) => match percent_decoded_text(key) {
                None => Err(query_encoding_error()),
                Some(decoded) => if decoded == name && value.len() == 0 {
                    Ok(count + 1)
                } else {
                    Ok(count)
                },
            },
        }
    }
}

/// Whether a flag that may appear once appears.
pub open spec fn unique_flag(query: Seq<char>, name: Seq<char>) -> Result<bool, ErrorView> {
    match flag_count(split(query, '&'), name) {
        Err(error) => Err(error),
        Ok(count) => if count > 1 {
            Err(invalid_request(name + " must not appear more than once"@))
        } else {
            Ok(count == 1)
        },
    }
}

proof fn lemma_checked_values_fail(pairs: Seq<Seq<char>>, name: Seq<char>, n: int)
    requires
        0 <= n <= pairs.len(),
        checked_values(pairs.take(n), name) is Err,
    ensures
        checked_values(pairs, name) == checked_values(pairs.take(n), name),
    decreases pairs.len() - n,
{
    if n < pairs.len() {
        assert(pairs.take(n + 1).drop_last() =~= pairs.take(n));
        lemma_checked_values_fail(pairs, name, n + 1);
    } else {
        assert(pairs.take(n) =~= pairs);
    }
}

proof fn lemma_flag_count_fail(pairs: Seq<Seq<char>>, name: Seq<char>, n: int)
    requires
        0 <= n <= pairs.len(),
        flag_count(pairs.take(n), name) is Err,
    ensures
        flag_count(pairs, name) == flag_count(pairs.take(n), name),
    decreases pairs.len() - n,
{
    if n < pairs.len() {
        assert(pairs.take(n + 1).drop_last() =~= pairs.take(n));
        lemma_flag_count_fail(pairs, name, n + 1);
    } else {
        assert(pairs.take(n) =~= pairs);
    }
}

fn query_param_values_checked(query: &str, name: &str) -> (result: Result<Vec<String>, S3Error>)
    ensures
        match result {
            Ok(found) => checked_values(split(query@, '&'), name@) == Ok::<_, ErrorView>(
                texts(found@),
            ),
            Err(error) => checked_values(split(query@, '&'), name@) == Err::<Seq<Seq<char>>, _>(
                error@,
            ),
        },
{
    let pairs = split_all(query, '&');
    let ghost all = split(query@, '&');
    let mut found: Vec<String> = Vec::new();
    let mut i: usize = 0;
    proof {
        assert(all.take(0) =~= Seq::<Seq<char>>::empty());
        assert(texts(found@) =~= Seq::<Seq<char>>::empty());
    }
    while i < pairs.len()
        invariant
            i <= pairs@.len(),
            all == split(query@, '&'),
            texts(pairs@) == all,
            checked_values(all.take(i as int), name@) == Ok::<_, ErrorView>(texts(found@)),
        decreases pairs.len() - i,
    {
        proof {
            assert(all.take(i + 1).drop_last() =~= all.take(i as int));
            assert(all.take(i + 1).last() == pairs@[i as int]@);
            if checked_values(all.take(i + 1), name@) is Err {
                lemma_checked_values_fail(all, name@, i + 1);
            }
        }
        let (key, value) = read_pair(pairs[i].as_str());
        let decoded = match percent_decode_text(key.as_str()) {
            Some(decoded) => decoded,
            None => {
                return Err(
                    S3Error::invalid_request("query string contains invalid percent-encoded UTF-8"),
                );
            },
        };
        if same(decoded.as_str(), name) {
            match percent_decode_text(value.as_str()) {
                Some(text) => {
                    let ghost before = found@;
                    let ghost view = text@;
                    found.push(text);
                    assert(texts(found@) =~= texts(before).push(view));
                },
                None => {
                    return Err(
                        S3Error::invalid_request(
                            "query string contains invalid percent-encoded UTF-8",
                        ),
                    );
                },
            }
        }
        i += 1;
    }
    assert(all.take(i as int) =~= all);
    Ok(found)
}

/// Reads a parameter that may appear once.
pub fn unique_query_param(query: &str, name: &str) -> (result: Result<Option<String>, S3Error>)
    ensures
        match result {
            Ok(value) => unique_value(query@, name@) == Ok::<_, ErrorView>(opt_text(value)),
            Err(error) => unique_value(query@, name@) == Err::<Option<Seq<char>>, _>(error@),
        },
{
    let mut found = match query_param_values_checked(query, name) {
        Ok(found) => found,
        Err(error) => {
            return Err(error);
        },
    };
    assert(texts(found@).len() == found@.len());
    if found.len() > 1 {
        let message = name.to_owned().concat(" must not appear more than once");
        return Err(S3Error::invalid_request(message.as_str()));
    }
    let ghost before = found@;
    assert(before.len() == 1 ==> texts(before)[0] == before[0]@);
    Ok(found.pop())
}

/// The readable values of a parameter, in order.
pub fn query_param_values(query: &str, name: &str) -> (found: Vec<String>)
    ensures
        texts(found@) == readable_values(split(query@, '&'), name@),
{
    let pairs = split_all(query, '&');
    let ghost all = split(query@, '&');
    let mut found: Vec<String> = Vec::new();
    let mut i: usize = 0;
    proof {
        assert(all.take(0) =~= Seq::<Seq<char>>::empty());
        assert(texts(found@) =~= Seq::<Seq<char>>::empty());
    }
    while i < pairs.len()
        invariant
            i <= pairs@.len(),
            all == split(query@, '&'),
            texts(pairs@) == all,
            texts(found@) == readable_values(all.take(i as int), name@),
        decreases pairs.len() - i,
    {
        proof {
            assert(all.take(i + 1).drop_last() =~= all.take(i as int));
            assert(all.take(i + 1).last() == pairs@[i as int]@);
        }
        let (key, value) = read_pair(pairs[i].as_str());
        match percent_decode_text(key.as_str()) {
            Some(decoded) => {
                if same(decoded.as_str(), name) {
                    match percent_decode_text(value.as_str()) {
                        Some(text) => {
                            let ghost before = found@;
                            let ghost view = text@;
                            found.push(text);
                            assert(texts(found@) =~= texts(before).push(view));
                        },
                        None => {},
                    }
                }
            },
            None => {},
        }
        i += 1;
    }
    assert(all.take(i as int) =~= all);
    found
}

/// Reads the first readable value of a parameter.
pub fn query_param(query: &str, name: &str) -> (result: Option<String>)
    ensures
        opt_text(result) == first_value(query@, name@),
{
    let found = query_param_values(query, name);
    assert(texts(found@).len() == found@.len());
    if found.len() > 0 {
        assert(texts(found@)[0] == found@[0]@);
        Some(found[0].clone())
    } else {
        None
    }
}

/// Tests for a flag that may appear once.
pub fn unique_query_flag(query: &str, name: &str) -> (result: Result<bool, S3Error>)
    ensures
        match result {
            Ok(set) => unique_flag(query@, name@) == Ok::<_, ErrorView>(set),
            Err(error) => unique_flag(query@, name@) == Err::<bool, _>(error@),
        },
{
    let pairs = split_all(query, '&');
    let ghost all = split(query@, '&');
    let mut count: usize = 0;
    let mut i: usize = 0;
    assert(all.take(0) =~= Seq::<Seq<char>>::empty());
    while i < pairs.len()
        invariant
            i <= pairs@.len(),
            count <= i,
            all == split(query@, '&'),
            texts(pairs@) == all,
            flag_count(all.take(i as int), name@) == Ok::<_, ErrorView>(count as nat),
        decreases pairs.len() - i,
    {
        proof {
            assert(all.take(i + 1).drop_last() =~= all.take(i as int));
            assert(all.take(i + 1).last() == pairs@[i as int]@);
            if flag_count(all.take(i + 1), name@) is Err {
                lemma_flag_count_fail(all, name@, i + 1);
            }
        }
        let (key, value) = read_pair(pairs[i].as_str());
        match percent_decode_text(key.as_str()) {
            Some(decoded) => {
                if same(decoded.as_str(), name) && value.as_str().is_empty() {
                    count += 1;
                }
            },
            None => {
                return Err(
                    S3Error::invalid_request("query string contains invalid percent-encoded UTF-8"),
                );
            },
        }
        i += 1;
    }
    assert(all.take(i as int) =~= all);
    if count > 1 {
        let message = name.to_owned().concat(" must not appear more than once");
        return Err(S3Error::invalid_request(message.as_str()));
    }
    Ok(count == 1)
}

// ---------------------------------------------------------------------------------------------
// Laws
// ---------------------------------------------------------------------------------------------
/// The name that a piece of a query gives a value for.
pub open spec fn piece_name(piece: Seq<char>) -> Option<Seq<char>> {
    percent_decoded_text(raw_pair(piece).0)
}

proof fn lemma_no_values(pairs: Seq<Seq<char>>, name: Seq<char>)
    requires
        forall|j: int|
            0 <= j < pairs.len() ==> piece_name(#[trigger] pairs[j]) is Some && piece_name(pairs[j])
                != Some(name),
    ensures
        checked_values(pairs, name) == Ok::<_, ErrorView>(Seq::<Seq<char>>::empty()),
    decreases pairs.len(),
{
    if pairs.len() > 0 {
        let rest = pairs.drop_last();
        assert forall|j: int| 0 <= j < rest.len() implies piece_name(#[trigger] rest[j]) is Some
            && piece_name(rest[j]) != Some(name) by {
            assert(rest[j] == pairs[j]);
        }
        lemma_no_values(rest, name);
        assert(pairs.last() == pairs[pairs.len() - 1]);
    }
}

proof fn lemma_one_value(pairs: Seq<Seq<char>>, name: Seq<char>, i: int)
    requires
        0 <= i < pairs.len(),
        piece_name(pairs[i]) == Some(name),
        percent_decoded_text(raw_pair(pairs[i]).1) is Some,
        forall|j: int|
            0 <= j < pairs.len() ==> piece_name(#[trigger] pairs[j]) is Some && (j != i
                ==> piece_name(pairs[j]) != Some(name)),
    ensures
        checked_values(pairs, name) == Ok::<_, ErrorView>(
            seq![percent_decoded_text(raw_pair(pairs[i]).1)->0],
        ),
    decreases pairs.len(),
{
    let rest = pairs.drop_last();
    assert(forall|j: int| 0 <= j < rest.len() ==> rest[j] == pairs[j]);
    assert(pairs.last() == pairs[pairs.len() - 1]);
    let value = percent_decoded_text(raw_pair(pairs[i]).1)->0;
    if i == pairs.len() - 1 {
        assert forall|j: int| 0 <= j < rest.len() implies piece_name(#[trigger] rest[j]) is Some
            && piece_name(rest[j]) != Some(name) by {
            assert(rest[j] == pairs[j]);
        }
        lemma_no_values(rest, name);
        assert(Seq::<Seq<char>>::empty().push(value) =~= seq![value]);
    } else {
        assert forall|j: int| 0 <= j < rest.len() implies piece_name(#[trigger] rest[j]) is Some
            && (j != i ==> piece_name(rest[j]) != Some(name)) by {
            assert(rest[j] == pairs[j]);
        }
        lemma_one_value(rest, name, i);
        assert(piece_name(pairs[pairs.len() - 1]) != Some(name));
    }
}

/// A parameter that stands in a query once has the decoded text after its equals sign as its value.
pub proof fn law_parameters_that_stand_once_are_read(query: Seq<char>, name: Seq<char>, i: int)
    requires
        0 <= i < split(query, '&').len(),
        piece_name(split(query, '&')[i]) == Some(name),
        percent_decoded_text(raw_pair(split(query, '&')[i]).1) is Some,
        forall|j: int|
            0 <= j < split(query, '&').len() ==> piece_name(#[trigger] split(query, '&')[j]) is Some
                && (j != i ==> piece_name(split(query, '&')[j]) != Some(name)),
    ensures
        unique_value(query, name) == Ok::<_, ErrorView>(
            percent_decoded_text(raw_pair(split(query, '&')[i]).1),
        ),
{
    lemma_one_value(split(query, '&'), name, i);
}

/// A parameter that does not stand in a query has no value.
pub proof fn law_parameters_that_are_absent_have_no_value(query: Seq<char>, name: Seq<char>)
    requires
        forall|j: int|
            0 <= j < split(query, '&').len() ==> piece_name(#[trigger] split(query, '&')[j]) is Some
                && piece_name(split(query, '&')[j]) != Some(name),
    ensures
        unique_value(query, name) == Ok::<_, ErrorView>(None::<Seq<char>>),
{
    lemma_no_values(split(query, '&'), name);
}

} // verus!
