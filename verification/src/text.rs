//! Text as sequences of characters: the operations on strings that the rest of the library is
//! stated and built with.
use vstd::prelude::*;
use vstd::utf8::{decode_utf8, valid_utf8};

verus! {

/// `String::push` appends one character.
pub assume_specification[ String::push ](text: &mut String, character: char)
    ensures
        final(text)@ == old(text)@.push(character),
;

// ---------------------------------------------------------------------------------------------
// Characters
// ---------------------------------------------------------------------------------------------
/// Whether `c` is an ASCII control character.
pub open spec fn is_control(c: char) -> bool {
    c < '\u{20}' || c == '\u{7f}'
}

/// Whether `c` is an ASCII decimal digit.
pub open spec fn is_digit(c: char) -> bool {
    '0' <= c <= '9'
}

/// Whether `c` is a lowercase hexadecimal digit.
pub open spec fn is_lower_hex(c: char) -> bool {
    is_digit(c) || 'a' <= c <= 'f'
}

/// Whether `c` has the Unicode property `White_Space`.
pub open spec fn is_whitespace(c: char) -> bool {
    ||| '\u{9}' <= c <= '\u{d}'
    ||| c == ' '
    ||| c == '\u{85}'
    ||| c == '\u{a0}'
    ||| c == '\u{1680}'
    ||| '\u{2000}' <= c <= '\u{200a}'
    ||| c == '\u{2028}'
    ||| c == '\u{2029}'
    ||| c == '\u{202f}'
    ||| c == '\u{205f}'
    ||| c == '\u{3000}'
}

/// The lowercase form of an ASCII letter; any other character unchanged.
pub open spec fn lower(c: char) -> char {
    if 'A' <= c <= 'Z' {
        ((c as u32) + 32) as char
    } else {
        c
    }
}

/// The value of `c` as a digit in bases up to sixteen, or sixteen where it is none.
pub open spec fn digit_value(c: char) -> nat {
    if '0' <= c <= '9' {
        (c as u32 - '0' as u32) as nat
    } else if 'a' <= c <= 'f' {
        (c as u32 - 'a' as u32 + 10) as nat
    } else if 'A' <= c <= 'F' {
        (c as u32 - 'A' as u32 + 10) as nat
    } else {
        16
    }
}

/// The lowercase hexadecimal digit of a value below sixteen.
pub open spec fn hex_digit(value: nat) -> char {
    if value < 10 {
        ('0' as u32 + value) as char
    } else {
        ('a' as u32 + value - 10) as char
    }
}

// ---------------------------------------------------------------------------------------------
// Sequences of characters
// ---------------------------------------------------------------------------------------------
/// The contents of a list of strings.
pub open spec fn texts(list: Seq<String>) -> Seq<Seq<char>> {
    list.map_values(|s: String| s@)
}

/// The contents of an optional string.
pub open spec fn opt_text(text: Option<String>) -> Option<Seq<char>> {
    match text {
        Some(t) => Some(t@),
        None => None,
    }
}

/// The contents of an optional string slice.
pub open spec fn opt_str(text: Option<&str>) -> Option<Seq<char>> {
    match text {
        Some(t) => Some(t@),
        None => None,
    }
}

/// `s` with every ASCII letter in lowercase.
pub open spec fn lowercase(s: Seq<char>) -> Seq<char> {
    s.map_values(|c: char| lower(c))
}

/// Whether some character of `s` is an ASCII control character.
pub open spec fn has_control(s: Seq<char>) -> bool {
    exists|i: int| 0 <= i < s.len() && is_control(#[trigger] s[i])
}

/// The position of the first `c` in `s`, or the length of `s` where there is none.
pub open spec fn first_index(s: Seq<char>, c: char) -> int
    decreases s.len(),
{
    if s.len() == 0 {
        0
    } else if s[0] == c {
        0
    } else {
        1 + first_index(s.drop_first(), c)
    }
}

/// What stands before and after the first `c` of `s`.
pub open spec fn split_once(s: Seq<char>, c: char) -> Option<(Seq<char>, Seq<char>)> {
    let i = first_index(s, c);
    if 0 <= i < s.len() {
        Some((s.take(i), s.skip(i + 1)))
    } else {
        None
    }
}

/// The key and the value of a `key=value` pair; the value is empty where there is no equals sign.
pub open spec fn raw_pair(pair: Seq<char>) -> (Seq<char>, Seq<char>) {
    match split_once(pair, '=') {
        Some((key, value)) => (key, value),
        None => (pair, Seq::empty()),
    }
}

/// The text of a truth value.
pub open spec fn bool_text(value: bool) -> Seq<char> {
    if value {
        "true"@
    } else {
        "false"@
    }
}

/// The pieces of `s` between the occurrences of `c`.
pub open spec fn split(s: Seq<char>, c: char) -> Seq<Seq<char>>
    decreases s.len(),
{
    let i = first_index(s, c);
    if 0 <= i < s.len() {
        seq![s.take(i)] + split(s.skip(i + 1), c)
    } else {
        seq![s]
    }
}

/// `s` without its leading white space.
pub open spec fn trim_start(s: Seq<char>) -> Seq<char>
    decreases s.len(),
{
    if s.len() > 0 && is_whitespace(s[0]) {
        trim_start(s.drop_first())
    } else {
        s
    }
}

/// `s` without its trailing white space.
pub open spec fn trim_end(s: Seq<char>) -> Seq<char>
    decreases s.len(),
{
    if s.len() > 0 && is_whitespace(s.last()) {
        trim_end(s.drop_last())
    } else {
        s
    }
}

/// `s` without white space at either end.
pub open spec fn trim(s: Seq<char>) -> Seq<char> {
    trim_end(trim_start(s))
}

/// The number of characters at the front of `s` that are no white space.
pub open spec fn word_length(s: Seq<char>) -> int
    decreases s.len(),
{
    if s.len() == 0 || is_whitespace(s[0]) {
        0
    } else {
        1 + word_length(s.drop_first())
    }
}

/// The pieces of `s` between stretches of white space.
pub open spec fn words(s: Seq<char>) -> Seq<Seq<char>>
    decreases s.len(),
{
    if s.len() == 0 {
        Seq::empty()
    } else if is_whitespace(s[0]) {
        words(s.drop_first())
    } else if 0 < word_length(s) <= s.len() {
        seq![s.take(word_length(s))] + words(s.skip(word_length(s)))
    } else {
        Seq::empty()
    }
}

/// Whether `s` begins with `prefix`.
pub open spec fn starts_with(s: Seq<char>, prefix: Seq<char>) -> bool {
    prefix.len() <= s.len() && s.take(prefix.len() as int) == prefix
}

/// Whether `s` ends with `suffix`.
pub open spec fn ends_with(s: Seq<char>, suffix: Seq<char>) -> bool {
    suffix.len() <= s.len() && s.skip(s.len() - suffix.len()) == suffix
}

/// What follows `prefix` in `s`, where `s` begins with it.
pub open spec fn strip_prefix(s: Seq<char>, prefix: Seq<char>) -> Option<Seq<char>> {
    if starts_with(s, prefix) {
        Some(s.skip(prefix.len() as int))
    } else {
        None
    }
}

/// What precedes `suffix` in `s`, where `s` ends with it.
pub open spec fn strip_suffix(s: Seq<char>, suffix: Seq<char>) -> Option<Seq<char>> {
    if ends_with(s, suffix) {
        Some(s.take(s.len() - suffix.len()))
    } else {
        None
    }
}

/// The strings of `parts` in order, with `separator` between neighbours.
pub open spec fn join(parts: Seq<Seq<char>>, separator: Seq<char>) -> Seq<char>
    decreases parts.len(),
{
    if parts.len() == 0 {
        Seq::empty()
    } else if parts.len() == 1 {
        parts[0]
    } else {
        join(parts.drop_last(), separator) + separator + parts.last()
    }
}

/// Whether `a` comes before `b` in the order of strings, by code points.
pub open spec fn text_less(a: Seq<char>, b: Seq<char>) -> bool
    decreases a.len(),
{
    if b.len() == 0 {
        false
    } else if a.len() == 0 {
        true
    } else if a[0] == b[0] {
        text_less(a.drop_first(), b.drop_first())
    } else {
        a[0] < b[0]
    }
}

/// Whether `s` consists of digits of `radix`.
pub open spec fn all_digits(s: Seq<char>, radix: nat) -> bool {
    forall|i: int| 0 <= i < s.len() ==> digit_value(#[trigger] s[i]) < radix
}

/// The number that the digits of `s` write in `radix`.
pub open spec fn digits_value(s: Seq<char>, radix: nat) -> nat
    decreases s.len(),
{
    if s.len() == 0 {
        0
    } else {
        digits_value(s.drop_last(), radix) * radix + digit_value(s.last())
    }
}

/// The unsigned number that `s` writes in `radix`, at most `max`. A single leading `+` is allowed.
pub open spec fn parse_unsigned(s: Seq<char>, radix: nat, max: nat) -> Option<nat> {
    let digits = if s.len() > 0 && s[0] == '+' {
        s.skip(1)
    } else {
        s
    };
    if digits.len() > 0 && all_digits(digits, radix) && digits_value(digits, radix) <= max {
        Some(digits_value(digits, radix))
    } else {
        None
    }
}

/// The decimal digits of `n`, without leading zeros.
pub open spec fn decimal(n: nat) -> Seq<char>
    decreases n,
{
    if n < 10 {
        seq![hex_digit(n)]
    } else {
        decimal(n / 10).push(hex_digit(n % 10))
    }
}

/// The lowercase hexadecimal form of `bytes`, two digits a byte.
pub open spec fn hex_text(bytes: Seq<u8>) -> Seq<char> {
    Seq::new(
        2 * bytes.len(),
        |i: int|
            if i % 2 == 0 {
                hex_digit(bytes[i / 2] as nat / 16)
            } else {
                hex_digit(bytes[i / 2] as nat % 16)
            },
    )
}

/// The bytes that `s` writes as pairs of hexadecimal digits.
pub open spec fn hex_bytes(s: Seq<char>) -> Option<Seq<u8>> {
    if s.len() % 2 == 0 && all_digits(s, 16) {
        Some(
            Seq::new(
                s.len() / 2,
                |i: int| (digit_value(s[2 * i]) * 16 + digit_value(s[2 * i + 1])) as u8,
            ),
        )
    } else {
        None
    }
}

// ---------------------------------------------------------------------------------------------
// Executable character tests
// ---------------------------------------------------------------------------------------------
/// Tests for an ASCII control character.
pub fn char_is_control(c: char) -> (result: bool)
    ensures
        result == is_control(c),
{
    c < '\u{20}' || c == '\u{7f}'
}

/// Tests for white space.
pub fn char_is_whitespace(c: char) -> (result: bool)
    ensures
        result == is_whitespace(c),
{
    (c >= '\u{9}' && c <= '\u{d}') || c == ' ' || c == '\u{85}' || c == '\u{a0}' || c == '\u{1680}'
        || (c >= '\u{2000}' && c <= '\u{200a}') || c == '\u{2028}' || c == '\u{2029}' || c
        == '\u{202f}' || c == '\u{205f}' || c == '\u{3000}'
}

/// Puts an ASCII letter in lowercase.
pub fn char_lower(c: char) -> (result: char)
    ensures
        result == lower(c),
{
    if c >= 'A' && c <= 'Z' {
        ((c as u8) + 32) as char
    } else {
        c
    }
}

/// Reads `c` as a digit, giving sixteen where it is none.
pub fn char_digit(c: char) -> (result: u8)
    ensures
        result as nat == digit_value(c),
        result <= 16,
{
    if c >= '0' && c <= '9' {
        (c as u8) - 48
    } else if c >= 'a' && c <= 'f' {
        (c as u8) - 87
    } else if c >= 'A' && c <= 'F' {
        (c as u8) - 55
    } else {
        16
    }
}

/// Writes a value below sixteen as a lowercase hexadecimal digit.
pub fn digit_char(value: u8) -> (result: char)
    requires
        value < 16,
    ensures
        result == hex_digit(value as nat),
{
    if value < 10 {
        (48 + value) as char
    } else {
        (87 + value) as char
    }
}

// ---------------------------------------------------------------------------------------------
// Executable operations on strings
// ---------------------------------------------------------------------------------------------
/// Compares two strings.
pub fn same(a: &str, b: &str) -> (result: bool)
    ensures
        result == (a@ == b@),
{
    a.to_owned() == b.to_owned()
}

/// The characters of a string.
pub fn chars_of(s: &str) -> (chars: Vec<char>)
    ensures
        chars@ == s@,
{
    let mut chars: Vec<char> = Vec::new();
    for c in it: s.chars()
        invariant
            chars@ == s@.take(it.index()),
            it.seq() == s@,
    {
        chars.push(c);
    }
    chars
}

/// The string made of the characters at `from` up to and not including `to`.
pub fn text_of(chars: &Vec<char>, from: usize, to: usize) -> (text: String)
    requires
        from <= to <= chars@.len(),
    ensures
        text@ == chars@.subrange(from as int, to as int),
{
    let mut text = String::new();
    let mut i: usize = from;
    while i < to
        invariant
            from <= i <= to <= chars@.len(),
            text@ == chars@.subrange(from as int, i as int),
        decreases to - i,
    {
        text.push(chars[i]);
        i += 1;
    }
    text
}

/// Puts every ASCII letter in lowercase.
pub fn to_lowercase(s: &str) -> (text: String)
    ensures
        text@ == lowercase(s@),
{
    let chars = chars_of(s);
    let mut text = String::new();
    let mut i: usize = 0;
    while i < chars.len()
        invariant
            i <= chars@.len(),
            chars@ == s@,
            text@ == lowercase(s@.take(i as int)),
        decreases chars.len() - i,
    {
        text.push(char_lower(chars[i]));
        i += 1;
        assert(lowercase(s@.take(i as int)) =~= lowercase(s@.take(i - 1)).push(lower(s@[i - 1])));
    }
    assert(s@.take(i as int) =~= s@);
    text
}

/// Compares two strings without regard to the case of ASCII letters.
pub fn same_ignoring_case(a: &str, b: &str) -> (result: bool)
    ensures
        result == (lowercase(a@) == lowercase(b@)),
{
    to_lowercase(a) == to_lowercase(b)
}

/// Tests for an ASCII control character anywhere in `s`.
pub fn contains_control(s: &str) -> (result: bool)
    ensures
        result == has_control(s@),
{
    let chars = chars_of(s);
    let mut i: usize = 0;
    while i < chars.len()
        invariant
            i <= chars@.len(),
            chars@ == s@,
            forall|j: int| 0 <= j < i ==> !is_control(#[trigger] s@[j]),
        decreases chars.len() - i,
    {
        if char_is_control(chars[i]) {
            assert(is_control(s@[i as int]));
            return true;
        }
        i += 1;
    }
    false
}

/// Tests whether `c` occurs in `s`.
pub fn contains_char(s: &str, c: char) -> (result: bool)
    ensures
        result == s@.contains(c),
{
    let chars = chars_of(s);
    let mut i: usize = 0;
    while i < chars.len()
        invariant
            i <= chars@.len(),
            chars@ == s@,
            forall|j: int| 0 <= j < i ==> #[trigger] s@[j] != c,
        decreases chars.len() - i,
    {
        if chars[i] == c {
            assert(s@[i as int] == c);
            return true;
        }
        i += 1;
    }
    false
}

/// The position found by [`first_index`] lies within the sequence, holds `c` unless it is the
/// length, and no `c` stands before it.
pub proof fn lemma_first_index(s: Seq<char>, c: char)
    ensures
        0 <= first_index(s, c) <= s.len(),
        first_index(s, c) < s.len() ==> s[first_index(s, c)] == c,
        forall|j: int| 0 <= j < first_index(s, c) ==> #[trigger] s[j] != c,
    decreases s.len(),
{
    if s.len() > 0 && s[0] != c {
        lemma_first_index(s.drop_first(), c);
        assert forall|j: int| 0 <= j < first_index(s, c) implies #[trigger] s[j] != c by {
            if j > 0 {
                assert(s.drop_first()[j - 1] == s[j]);
            }
        }
    }
}

/// A position that holds `c` with none before it is the one [`first_index`] gives, and the length
/// is where no `c` occurs.
pub proof fn lemma_first_index_is(s: Seq<char>, c: char, i: int)
    requires
        0 <= i <= s.len(),
        i < s.len() ==> s[i] == c,
        forall|j: int| 0 <= j < i ==> #[trigger] s[j] != c,
    ensures
        first_index(s, c) == i,
{
    lemma_first_index(s, c);
    let k = first_index(s, c);
    if k < i {
        assert(s[k] != c);
    } else if i < k {
        assert(s[i] != c);
    }
}

/// Finds the first `c` at or after `from`.
pub fn find_from(chars: &Vec<char>, from: usize, c: char) -> (index: usize)
    requires
        from <= chars@.len(),
    ensures
        from <= index <= chars@.len(),
        index - from == first_index(chars@.skip(from as int), c),
        index < chars@.len() ==> chars@[index as int] == c,
{
    let mut i: usize = from;
    while i < chars.len() && chars[i] != c
        invariant
            from <= i <= chars@.len(),
            forall|j: int| from <= j < i ==> #[trigger] chars@[j] != c,
        decreases chars.len() - i,
    {
        i += 1;
    }
    proof {
        let rest = chars@.skip(from as int);
        assert forall|j: int| 0 <= j < i - from implies #[trigger] rest[j] != c by {
            assert(rest[j] == chars@[from + j]);
        }
        lemma_first_index_is(rest, c, i - from);
    }
    i
}

/// Splits a `key=value` pair.
pub fn read_pair(pair: &str) -> (result: (String, String))
    ensures
        (result.0@, result.1@) == raw_pair(pair@),
{
    match split_at_first(pair, '=') {
        Some((key, value)) => (key, value),
        None => (pair.to_owned(), String::new()),
    }
}

/// The text of a truth value.
pub fn bool_str(value: bool) -> (text: &'static str)
    ensures
        text@ == bool_text(value),
{
    if value {
        "true"
    } else {
        "false"
    }
}

/// Splits `s` at the first `c`.
pub fn split_at_first(s: &str, c: char) -> (result: Option<(String, String)>)
    ensures
        match result {
            Some((before, after)) => split_once(s@, c) == Some((before@, after@)),
            None => split_once(s@, c) is None,
        },
{
    let chars = chars_of(s);
    let i: usize = find_from(&chars, 0, c);
    assert(chars@.skip(0) =~= s@);
    if i < chars.len() {
        let before = text_of(&chars, 0, i);
        let after = text_of(&chars, i + 1, chars.len());
        assert(before@ =~= s@.take(i as int));
        assert(after@ =~= s@.skip(i + 1));
        Some((before, after))
    } else {
        None
    }
}

/// Splits `s` at every `c`.
pub fn split_all(s: &str, c: char) -> (pieces: Vec<String>)
    ensures
        texts(pieces@) == split(s@, c),
        pieces@.len() > 0,
{
    let chars = chars_of(s);
    let mut pieces: Vec<String> = Vec::new();
    let mut from: usize = 0;
    assert(s@.skip(0) =~= s@);
    assert(texts(pieces@) + split(s@, c) =~= split(s@, c));
    loop
        invariant
            from <= chars@.len(),
            chars@ == s@,
            texts(pieces@) + split(s@.skip(from as int), c) == split(s@, c),
        decreases chars@.len() - from,
    {
        let i: usize = find_from(&chars, from, c);
        let ghost rest = s@.skip(from as int);
        let piece = text_of(&chars, from, i);
        if i < chars.len() {
            proof {
                assert(piece@ =~= rest.take(i - from));
                assert(rest.skip(i - from + 1) =~= s@.skip(i + 1));
                assert(split(rest, c) == seq![piece@] + split(s@.skip(i + 1), c));
                assert(texts(pieces@.push(piece)) =~= texts(pieces@).push(piece@));
                assert(texts(pieces@) + (seq![piece@] + split(s@.skip(i + 1), c)) =~= texts(
                    pieces@,
                ).push(piece@) + split(s@.skip(i + 1), c));
            }
            pieces.push(piece);
            from = i + 1;
        } else {
            proof {
                assert(piece@ =~= rest);
                assert(split(rest, c) == seq![piece@]);
                assert(texts(pieces@.push(piece)) =~= texts(pieces@) + seq![piece@]);
            }
            pieces.push(piece);
            return pieces;
        }
    }
}

/// The view of a result whose two sides have views.
pub open spec fn result_view<T: View, E: View>(result: Result<T, E>) -> Result<T::V, E::V> {
    match result {
        Ok(value) => Ok(value@),
        Err(error) => Err(error@),
    }
}

/// Removes white space at both ends.
pub fn trimmed(s: &str) -> (text: String)
    ensures
        text@ == trim(s@),
{
    let chars = chars_of(s);
    let mut from: usize = 0;
    assert(s@.skip(0) =~= s@);
    while from < chars.len() && char_is_whitespace(chars[from])
        invariant
            from <= chars@.len(),
            chars@ == s@,
            trim_start(s@) == trim_start(s@.skip(from as int)),
        decreases chars.len() - from,
    {
        assert(s@.skip(from as int).drop_first() =~= s@.skip(from + 1));
        from += 1;
    }
    let mut to: usize = chars.len();
    assert(s@.subrange(from as int, to as int) =~= s@.skip(from as int));
    while to > from && char_is_whitespace(chars[to - 1])
        invariant
            from <= to <= chars@.len(),
            chars@ == s@,
            trim(s@) == trim_end(s@.subrange(from as int, to as int)),
        decreases to - from,
    {
        assert(s@.subrange(from as int, to as int).drop_last() =~= s@.subrange(
            from as int,
            to - 1,
        ));
        to -= 1;
    }
    text_of(&chars, from, to)
}

/// Splits `s` at stretches of white space.
pub fn split_words(s: &str) -> (pieces: Vec<String>)
    ensures
        texts(pieces@) == words(s@),
{
    let chars = chars_of(s);
    let mut pieces: Vec<String> = Vec::new();
    let mut from: usize = 0;
    assert(s@.skip(0) =~= s@);
    assert(texts(pieces@) + words(s@) =~= words(s@));
    while from < chars.len()
        invariant
            from <= chars@.len(),
            chars@ == s@,
            texts(pieces@) + words(s@.skip(from as int)) == words(s@),
        decreases chars.len() - from,
    {
        let ghost rest = s@.skip(from as int);
        if char_is_whitespace(chars[from]) {
            assert(rest.drop_first() =~= s@.skip(from + 1));
            from += 1;
        } else {
            let mut to: usize = from;
            assert(s@.skip(to as int) =~= rest);
            while to < chars.len() && !char_is_whitespace(chars[to])
                invariant
                    from <= to <= chars@.len(),
                    chars@ == s@,
                    word_length(s@.skip(from as int)) == to - from + word_length(
                        s@.skip(to as int),
                    ),
                decreases chars.len() - to,
            {
                assert(s@.skip(to as int).drop_first() =~= s@.skip(to + 1));
                to += 1;
            }
            assert(word_length(s@.skip(to as int)) == 0);
            let piece = text_of(&chars, from, to);
            proof {
                assert(word_length(rest) >= 1) by {
                    lemma_word_length(rest.drop_first());
                }
                assert(piece@ =~= rest.take(to - from));
                assert(rest.skip(to - from) =~= s@.skip(to as int));
                assert(texts(pieces@.push(piece)) =~= texts(pieces@).push(piece@));
                assert(texts(pieces@) + (seq![piece@] + words(s@.skip(to as int))) =~= texts(
                    pieces@,
                ).push(piece@) + words(s@.skip(to as int)));
            }
            pieces.push(piece);
            from = to;
        }
    }
    assert(texts(pieces@) + words(s@.skip(from as int)) =~= texts(pieces@));
    pieces
}

proof fn lemma_word_length(s: Seq<char>)
    ensures
        0 <= word_length(s) <= s.len(),
    decreases s.len(),
{
    if s.len() > 0 {
        lemma_word_length(s.drop_first());
    }
}

/// Removes `prefix` from the front of `s`.
pub fn without_prefix(s: &str, prefix: &str) -> (result: Option<String>)
    ensures
        opt_text(result) == strip_prefix(s@, prefix@),
{
    let chars = chars_of(s);
    let head = chars_of(prefix);
    if head.len() > chars.len() {
        return None;
    }
    let start = text_of(&chars, 0, head.len());
    assert(start@ =~= s@.take(prefix@.len() as int));
    if !same(start.as_str(), prefix) {
        return None;
    }
    let rest = text_of(&chars, head.len(), chars.len());
    assert(rest@ =~= s@.skip(prefix@.len() as int));
    Some(rest)
}

/// Removes `suffix` from the end of `s`.
pub fn without_suffix(s: &str, suffix: &str) -> (result: Option<String>)
    ensures
        opt_text(result) == strip_suffix(s@, suffix@),
{
    let chars = chars_of(s);
    let tail = chars_of(suffix);
    if tail.len() > chars.len() {
        return None;
    }
    let at: usize = chars.len() - tail.len();
    let end = text_of(&chars, at, chars.len());
    assert(end@ =~= s@.skip(s@.len() - suffix@.len()));
    if !same(end.as_str(), suffix) {
        return None;
    }
    let rest = text_of(&chars, 0, at);
    assert(rest@ =~= s@.take(s@.len() - suffix@.len()));
    Some(rest)
}

/// Tests whether `s` begins with `prefix`.
pub fn has_prefix(s: &str, prefix: &str) -> (result: bool)
    ensures
        result == starts_with(s@, prefix@),
{
    without_prefix(s, prefix).is_some()
}

/// Tests whether `s` ends with `suffix`.
pub fn has_suffix(s: &str, suffix: &str) -> (result: bool)
    ensures
        result == ends_with(s@, suffix@),
{
    without_suffix(s, suffix).is_some()
}

/// Joins strings with a separator.
pub fn joined(parts: &Vec<String>, separator: &str) -> (text: String)
    ensures
        text@ == join(texts(parts@), separator@),
{
    let mut text = String::new();
    let mut i: usize = 0;
    while i < parts.len()
        invariant
            i <= parts@.len(),
            text@ == join(texts(parts@).take(i as int), separator@),
        decreases parts.len() - i,
    {
        proof {
            assert(texts(parts@).take(i + 1).drop_last() =~= texts(parts@).take(i as int));
            assert(texts(parts@).take(i + 1).last() == parts@[i as int]@);
        }
        if i > 0 {
            text.append(separator);
        }
        text.append(parts[i].as_str());
        proof {
            if i == 0 {
                assert(Seq::<char>::empty() + parts@[0]@ =~= parts@[0]@);
                assert(texts(parts@).take(1)[0] == parts@[0]@);
            }
        }
        i += 1;
    }
    assert(texts(parts@).take(i as int) =~= texts(parts@));
    text
}

/// Tests whether `a` comes before `b` in the order of strings.
pub fn comes_before(a: &str, b: &str) -> (result: bool)
    ensures
        result == text_less(a@, b@),
{
    let left = chars_of(a);
    let right = chars_of(b);
    let mut i: usize = 0;
    assert(a@.skip(0) =~= a@ && b@.skip(0) =~= b@);
    while i < left.len() && i < right.len()
        invariant
            i <= left@.len(),
            i <= right@.len(),
            left@ == a@,
            right@ == b@,
            text_less(a@, b@) == text_less(a@.skip(i as int), b@.skip(i as int)),
        decreases left.len() - i,
    {
        assert(a@.skip(i as int).drop_first() =~= a@.skip(i + 1));
        assert(b@.skip(i as int).drop_first() =~= b@.skip(i + 1));
        if left[i] != right[i] {
            return left[i] < right[i];
        }
        i += 1;
    }
    i < right.len()
}

/// Digits only add to the number they extend.
proof fn lemma_digits_value_monotone(s: Seq<char>, n: int, radix: nat)
    requires
        0 <= n <= s.len(),
        radix >= 1,
    ensures
        digits_value(s.take(n), radix) <= digits_value(s, radix),
    decreases s.len() - n,
{
    if n < s.len() {
        lemma_digits_value_monotone(s, n + 1, radix);
        let longer = s.take(n + 1);
        assert(longer.drop_last() =~= s.take(n));
        let v = digits_value(s.take(n), radix);
        assert(v * radix >= v) by (nonlinear_arith)
            requires
                radix >= 1,
                v >= 0,
        ;
    } else {
        assert(s.take(n) =~= s);
    }
}

/// Reads an unsigned number in `radix`, at most `max`.
pub fn parse_number(s: &str, radix: u8, max: u64) -> (result: Option<u64>)
    requires
        2 <= radix <= 16,
    ensures
        match result {
            Some(n) => parse_unsigned(s@, radix as nat, max as nat) == Some(n as nat),
            None => parse_unsigned(s@, radix as nat, max as nat) is None,
        },
{
    let chars = chars_of(s);
    let mut from: usize = 0;
    if chars.len() > 0 && chars[0] == '+' {
        from = 1;
    }
    let ghost digits = s@.skip(from as int);
    assert(s@.skip(0) =~= s@);
    if from == chars.len() {
        return None;
    }
    let mut value: u64 = 0;
    let mut i: usize = from;
    assert(digits.take(0) =~= Seq::<char>::empty());
    while i < chars.len()
        invariant
            from <= i <= chars@.len(),
            chars@ == s@,
            digits == s@.skip(from as int),
            2 <= radix <= 16,
            value <= max,
            value as nat == digits_value(digits.take(i - from), radix as nat),
            forall|j: int| 0 <= j < i - from ==> digit_value(#[trigger] digits[j]) < radix,
            digits.len() > 0,
            parse_unsigned(s@, radix as nat, max as nat) == (if all_digits(digits, radix as nat)
                && digits_value(digits, radix as nat) <= max as nat {
                Some(digits_value(digits, radix as nat))
            } else {
                None
            }),
        decreases chars.len() - i,
    {
        let digit: u8 = char_digit(chars[i]);
        assert(digits[i - from] == chars@[i as int]);
        if digit >= radix {
            return None;
        }
        assert(value as int * radix as int <= u64::MAX as int * 16) by (nonlinear_arith)
            requires
                0 <= value <= u64::MAX,
                2 <= radix <= 16,
        ;
        let wide: u128 = value as u128 * radix as u128;
        let sum: u128 = wide + digit as u128;
        proof {
            assert(digits.take(i - from + 1).drop_last() =~= digits.take(i - from));
            lemma_digits_value_monotone(digits, i - from + 1, radix as nat);
        }
        if sum > max as u128 {
            return None;
        }
        value = sum as u64;
        i += 1;
    }
    assert(digits.take(i - from) =~= digits);
    Some(value)
}

/// Writes a number in decimal.
pub fn decimal_text(n: u64) -> (text: String)
    ensures
        text@ == decimal(n as nat),
    decreases n,
{
    if n < 10 {
        let mut text = String::new();
        text.push(digit_char(n as u8));
        assert(text@ =~= seq![hex_digit(n as nat)]);
        text
    } else {
        let mut text = decimal_text(n / 10);
        text.push(digit_char((n % 10) as u8));
        text
    }
}

// ---------------------------------------------------------------------------------------------
// Bytes and text
// ---------------------------------------------------------------------------------------------
/// Calls `String::from_utf8`: the text that `bytes` encode, where they are valid UTF-8.
#[verifier::external_body]
pub(crate) fn utf8_text(bytes: Vec<u8>) -> (result: Option<String>)
    ensures
        result is Some <==> valid_utf8(bytes@),
        result is Some ==> result->0@ == decode_utf8(bytes@),
{
    String::from_utf8(bytes).ok()
}

/// Calls `hex::encode`: two lowercase digits for each byte.
#[verifier::external_body]
pub(crate) fn hex_encode(bytes: &[u8]) -> (text: String)
    ensures
        text@ == hex_text(bytes@),
{
    hex::encode(bytes)
}

/// Calls `hex::decode`: the bytes written by pairs of digits of either case; an odd number of
/// characters or a character that is no digit is refused.
#[verifier::external_body]
pub(crate) fn hex_decode(text: &str) -> (result: Option<Vec<u8>>)
    ensures
        match result {
            Some(bytes) => hex_bytes(text@) == Some(bytes@),
            None => hex_bytes(text@) is None,
        },
{
    hex::decode(text).ok()
}

} // verus!
