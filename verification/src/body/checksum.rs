//! Checksums that requests carry in header fields and trailers.
use crate::body::payload::{failure, same_bytes};
use crate::collections::{mapping, TextMap, TextSet};
use crate::encoding::{base64_bytes, base64_decode, base64_encode, base64_text};
use crate::error::{bad_digest, invalid_request, ErrorView, S3Error};
use crate::http::{field_text, first_text, has_field, value_text, values, HeaderMap};
use crate::text::{
    decimal, decimal_text, lowercase, result_view, same, same_ignoring_case, split, split_all,
    texts, to_lowercase, trim, trimmed,
};
use vstd::prelude::*;

verus! {

/// A checksum algorithm that requests can ask for.
#[derive(Clone, Copy, Debug, PartialEq, Eq, Structural)]
pub enum ChecksumName {
    /// CRC-32.
    Crc32,
    /// CRC-32C.
    Crc32c,
    /// SHA-1.
    Sha1,
    /// SHA-256.
    Sha256,
    /// SHA-512.
    Sha512,
}

/// The header field that carries a checksum.
pub open spec fn checksum_header(name: ChecksumName) -> Seq<char> {
    match name {
        ChecksumName::Crc32 => "x-amz-checksum-crc32"@,
        ChecksumName::Crc32c => "x-amz-checksum-crc32c"@,
        ChecksumName::Sha1 => "x-amz-checksum-sha1"@,
        ChecksumName::Sha256 => "x-amz-checksum-sha256"@,
        ChecksumName::Sha512 => "x-amz-checksum-sha512"@,
    }
}

/// The XML element that carries a checksum.
pub open spec fn checksum_element(name: ChecksumName) -> Seq<char> {
    match name {
        ChecksumName::Crc32 => "ChecksumCRC32"@,
        ChecksumName::Crc32c => "ChecksumCRC32C"@,
        ChecksumName::Sha1 => "ChecksumSHA1"@,
        ChecksumName::Sha256 => "ChecksumSHA256"@,
        ChecksumName::Sha512 => "ChecksumSHA512"@,
    }
}

/// The number of bytes of a checksum.
pub open spec fn checksum_length(name: ChecksumName) -> nat {
    match name {
        ChecksumName::Crc32 => 4,
        ChecksumName::Crc32c => 4,
        ChecksumName::Sha1 => 20,
        ChecksumName::Sha256 => 32,
        ChecksumName::Sha512 => 64,
    }
}

/// The checksum algorithms in the order in which they are checked.
pub open spec fn checksum_at(i: int) -> ChecksumName {
    if i == 0 {
        ChecksumName::Crc32
    } else if i == 1 {
        ChecksumName::Crc32c
    } else if i == 2 {
        ChecksumName::Sha1
    } else if i == 3 {
        ChecksumName::Sha256
    } else {
        ChecksumName::Sha512
    }
}

/// The checksum algorithm that a header field carries.
pub open spec fn checksum_of_header(header: Seq<char>) -> Option<ChecksumName> {
    if header == checksum_header(ChecksumName::Crc32) {
        Some(ChecksumName::Crc32)
    } else if header == checksum_header(ChecksumName::Crc32c) {
        Some(ChecksumName::Crc32c)
    } else if header == checksum_header(ChecksumName::Sha1) {
        Some(ChecksumName::Sha1)
    } else if header == checksum_header(ChecksumName::Sha256) {
        Some(ChecksumName::Sha256)
    } else if header == checksum_header(ChecksumName::Sha512) {
        Some(ChecksumName::Sha512)
    } else {
        None
    }
}

/// The checksum algorithm that an SDK names, in letters of either case.
pub open spec fn sdk_algorithm(text: Seq<char>) -> Option<ChecksumName> {
    let name = lowercase(text);
    if name == lowercase("CRC32"@) {
        Some(ChecksumName::Crc32)
    } else if name == lowercase("CRC32C"@) {
        Some(ChecksumName::Crc32c)
    } else if name == lowercase("SHA1"@) {
        Some(ChecksumName::Sha1)
    } else if name == lowercase("SHA256"@) {
        Some(ChecksumName::Sha256)
    } else if name == lowercase("SHA512"@) {
        Some(ChecksumName::Sha512)
    } else {
        None
    }
}

/// The digests of a body.
#[derive(Debug, PartialEq, Eq)]
pub struct ChecksumDigests {
    /// MD5 digest.
    pub md5: Vec<u8>,
    /// SHA-1 digest.
    pub sha1: Vec<u8>,
    /// SHA-256 digest.
    pub sha256: Vec<u8>,
    /// SHA-512 digest.
    pub sha512: Vec<u8>,
    /// CRC-32 checksum.
    pub crc32: u32,
    /// CRC-32C checksum.
    pub crc32c: u32,
}

/// [`ChecksumDigests`] as a mathematical value.
#[verifier::ext_equal]
pub struct DigestsView {
    pub md5: Seq<u8>,
    pub sha1: Seq<u8>,
    pub sha256: Seq<u8>,
    pub sha512: Seq<u8>,
    pub crc32: u32,
    pub crc32c: u32,
}

impl View for ChecksumDigests {
    type V = DigestsView;

    open spec fn view(&self) -> DigestsView {
        DigestsView {
            md5: self.md5@,
            sha1: self.sha1@,
            sha256: self.sha256@,
            sha512: self.sha512@,
            crc32: self.crc32,
            crc32c: self.crc32c,
        }
    }
}

/// The four bytes of a number, most significant first.
pub open spec fn be_bytes(n: u32) -> Seq<u8> {
    seq![
        (n / 16_777_216) as u8,
        ((n / 65_536) % 256) as u8,
        ((n / 256) % 256) as u8,
        (n % 256) as u8,
    ]
}

/// Writes a number as four bytes, most significant first.
pub fn to_be_bytes(n: u32) -> (bytes: Vec<u8>)
    ensures
        bytes@ == be_bytes(n),
{
    let mut bytes: Vec<u8> = Vec::new();
    bytes.push((n / 16_777_216) as u8);
    bytes.push(((n / 65_536) % 256) as u8);
    bytes.push(((n / 256) % 256) as u8);
    bytes.push((n % 256) as u8);
    assert(bytes@ =~= be_bytes(n));
    bytes
}

/// The bytes of one of the digests.
pub open spec fn digest_bytes(name: ChecksumName, digests: DigestsView) -> Seq<u8> {
    match name {
        ChecksumName::Crc32 => be_bytes(digests.crc32),
        ChecksumName::Crc32c => be_bytes(digests.crc32c),
        ChecksumName::Sha1 => digests.sha1,
        ChecksumName::Sha256 => digests.sha256,
        ChecksumName::Sha512 => digests.sha512,
    }
}

impl ChecksumName {
    /// The header field that carries the checksum.
    pub fn header_name(self) -> (name: &'static str)
        ensures
            name@ == checksum_header(self),
    {
        match self {
            ChecksumName::Crc32 => "x-amz-checksum-crc32",
            ChecksumName::Crc32c => "x-amz-checksum-crc32c",
            ChecksumName::Sha1 => "x-amz-checksum-sha1",
            ChecksumName::Sha256 => "x-amz-checksum-sha256",
            ChecksumName::Sha512 => "x-amz-checksum-sha512",
        }
    }

    /// The XML element that carries the checksum.
    pub fn xml_element_name(self) -> (name: &'static str)
        ensures
            name@ == checksum_element(self),
    {
        match self {
            ChecksumName::Crc32 => "ChecksumCRC32",
            ChecksumName::Crc32c => "ChecksumCRC32C",
            ChecksumName::Sha1 => "ChecksumSHA1",
            ChecksumName::Sha256 => "ChecksumSHA256",
            ChecksumName::Sha512 => "ChecksumSHA512",
        }
    }

    /// The number of bytes of the checksum.
    pub fn expected_len(self) -> (length: usize)
        ensures
            length as nat == checksum_length(self),
    {
        match self {
            ChecksumName::Crc32 => 4,
            ChecksumName::Crc32c => 4,
            ChecksumName::Sha1 => 20,
            ChecksumName::Sha256 => 32,
            ChecksumName::Sha512 => 64,
        }
    }

    /// The algorithm at a position in the order in which they are checked.
    fn at(index: usize) -> (name: Self)
        requires
            index < 5,
        ensures
            name == checksum_at(index as int),
    {
        if index == 0 {
            ChecksumName::Crc32
        } else if index == 1 {
            ChecksumName::Crc32c
        } else if index == 2 {
            ChecksumName::Sha1
        } else if index == 3 {
            ChecksumName::Sha256
        } else {
            ChecksumName::Sha512
        }
    }

    /// The checksum algorithm that a header field carries.
    pub fn from_header_name(name: &str) -> (result: Option<Self>)
        ensures
            result == checksum_of_header(name@),
    {
        if same(name, "x-amz-checksum-crc32") {
            Some(ChecksumName::Crc32)
        } else if same(name, "x-amz-checksum-crc32c") {
            Some(ChecksumName::Crc32c)
        } else if same(name, "x-amz-checksum-sha1") {
            Some(ChecksumName::Sha1)
        } else if same(name, "x-amz-checksum-sha256") {
            Some(ChecksumName::Sha256)
        } else if same(name, "x-amz-checksum-sha512") {
            Some(ChecksumName::Sha512)
        } else {
            None
        }
    }

    /// The checksum algorithm that an SDK names.
    pub fn from_sdk_algorithm(algorithm: &str) -> (result: Option<Self>)
        ensures
            result == sdk_algorithm(algorithm@),
    {
        if same_ignoring_case(algorithm, "CRC32") {
            Some(ChecksumName::Crc32)
        } else if same_ignoring_case(algorithm, "CRC32C") {
            Some(ChecksumName::Crc32c)
        } else if same_ignoring_case(algorithm, "SHA1") {
            Some(ChecksumName::Sha1)
        } else if same_ignoring_case(algorithm, "SHA256") {
            Some(ChecksumName::Sha256)
        } else if same_ignoring_case(algorithm, "SHA512") {
            Some(ChecksumName::Sha512)
        } else {
            None
        }
    }

    /// The base64 form of the digest.
    pub fn encode_digest(self, digests: &ChecksumDigests) -> (text: String)
        ensures
            text@ == base64_text(digest_bytes(self, digests@)),
            base64_bytes(text@) == Some(digest_bytes(self, digests@)),
    {
        match self {
            ChecksumName::Crc32 => base64_encode(to_be_bytes(digests.crc32).as_slice()),
            ChecksumName::Crc32c => base64_encode(to_be_bytes(digests.crc32c).as_slice()),
            ChecksumName::Sha1 => base64_encode(digests.sha1.as_slice()),
            ChecksumName::Sha256 => base64_encode(digests.sha256.as_slice()),
            ChecksumName::Sha512 => base64_encode(digests.sha512.as_slice()),
        }
    }
}

/// Different algorithms are carried in different header fields.
pub proof fn law_checksum_headers_are_distinct(name: ChecksumName)
    ensures
        checksum_of_header(checksum_header(name)) == Some(name),
{
    reveal_strlit("x-amz-checksum-crc32");
    reveal_strlit("x-amz-checksum-crc32c");
    reveal_strlit("x-amz-checksum-sha1");
    reveal_strlit("x-amz-checksum-sha256");
    reveal_strlit("x-amz-checksum-sha512");
    let h = checksum_header(name);
    assert((h.len(), h[15], h[18]) == (h.len(), h[15], h[18]));
}

// ---------------------------------------------------------------------------------------------
// Checks of the inputs
// ---------------------------------------------------------------------------------------------
/// Whether a header field carries a checksum of an algorithm that is known and not supported.
pub open spec fn is_unsupported_checksum(name: Seq<char>) -> bool {
    ||| name == "x-amz-checksum-crc64nvme"@
    ||| name == "x-amz-checksum-xxhash64"@
    ||| name == "x-amz-checksum-xxhash3"@
    ||| name == "x-amz-checksum-xxhash128"@
}

/// Whether a name is given as a header field or as a trailer.
pub open spec fn is_given(
    headers: Seq<(Seq<char>, Seq<u8>)>,
    trailers: Map<Seq<char>, Seq<char>>,
    name: Seq<char>,
) -> bool {
    has_field(headers, name) || trailers.dom().contains(name)
}

/// The error of a request with a checksum that is not supported.
pub open spec fn unsupported_error(
    headers: Seq<(Seq<char>, Seq<u8>)>,
    trailers: Map<Seq<char>, Seq<char>>,
) -> Option<ErrorView> {
    if is_given(headers, trailers, "x-amz-checksum-crc64nvme"@) || is_given(
        headers,
        trailers,
        "x-amz-checksum-xxhash64"@,
    ) || is_given(headers, trailers, "x-amz-checksum-xxhash3"@) || is_given(
        headers,
        trailers,
        "x-amz-checksum-xxhash128"@,
    ) {
        Some(invalid_request("Checksum algorithm not supported"@))
    } else {
        None
    }
}

fn given(headers: &HeaderMap, trailers: &TextMap, name: &str) -> (result: bool)
    ensures
        result == is_given(headers@, mapping(trailers@), name@),
{
    headers.contains_key(name) || trailers.contains_key(name)
}

fn reject_unsupported_checksum_inputs(headers: &HeaderMap, trailers: &TextMap) -> (result: Result<
    (),
    S3Error,
>)
    ensures
        failure(result) == unsupported_error(headers@, mapping(trailers@)),
{
    if given(headers, trailers, "x-amz-checksum-crc64nvme") || given(
        headers,
        trailers,
        "x-amz-checksum-xxhash64",
    ) || given(headers, trailers, "x-amz-checksum-xxhash3") || given(
        headers,
        trailers,
        "x-amz-checksum-xxhash128",
    ) {
        return Err(S3Error::invalid_request("Checksum algorithm not supported"));
    }
    Ok(())
}

/// The error of a request that repeats a checksum header, from algorithm `i` on.
pub open spec fn repeated_checksum_error(headers: Seq<(Seq<char>, Seq<u8>)>, i: int) -> Option<
    ErrorView,
>
    decreases 5 - i,
{
    if i < 0 || i >= 5 {
        None
    } else if values(headers, checksum_header(checksum_at(i))).len() > 1 {
        Some(
            invalid_request(checksum_header(checksum_at(i)) + " must not appear more than once"@),
        )
    } else {
        repeated_checksum_error(headers, i + 1)
    }
}

/// The error of a request that gives a checksum as header and as trailer, from algorithm `i` on.
pub open spec fn doubled_checksum_error(
    headers: Seq<(Seq<char>, Seq<u8>)>,
    trailers: Map<Seq<char>, Seq<char>>,
    i: int,
) -> Option<ErrorView>
    decreases 5 - i,
{
    if i < 0 || i >= 5 {
        None
    } else if has_field(headers, checksum_header(checksum_at(i))) && trailers.dom().contains(
        checksum_header(checksum_at(i)),
    ) {
        Some(
            invalid_request(
                checksum_header(checksum_at(i))
                    + " must not be supplied as both header and trailer"@,
            ),
        )
    } else {
        doubled_checksum_error(headers, trailers, i + 1)
    }
}

/// The error of a request that gives a checksum more than once.
pub open spec fn duplicate_error(
    headers: Seq<(Seq<char>, Seq<u8>)>,
    trailers: Map<Seq<char>, Seq<char>>,
) -> Option<ErrorView> {
    if values(headers, "content-md5"@).len() > 1 {
        Some(invalid_request("content-md5"@ + " must not appear more than once"@))
    } else {
        match repeated_checksum_error(headers, 0) {
            Some(error) => Some(error),
            None => doubled_checksum_error(headers, trailers, 0),
        }
    }
}

fn reject_duplicate_checksum_inputs(headers: &HeaderMap, trailers: &TextMap) -> (result: Result<
    (),
    S3Error,
>)
    ensures
        failure(result) == duplicate_error(headers@, mapping(trailers@)),
{
    if headers.count("content-md5") > 1 {
        let message = "content-md5".to_owned().concat(" must not appear more than once");
        return Err(S3Error::invalid_request(message.as_str()));
    }
    let mut i: usize = 0;
    while i < 5
        invariant
            i <= 5,
            values(headers@, "content-md5"@).len() <= 1,
            repeated_checksum_error(headers@, 0) == repeated_checksum_error(headers@, i as int),
        decreases 5 - i,
    {
        let name = ChecksumName::at(i).header_name();
        if headers.count(name) > 1 {
            let message = name.to_owned().concat(" must not appear more than once");
            return Err(S3Error::invalid_request(message.as_str()));
        }
        i += 1;
    }
    let mut j: usize = 0;
    while j < 5
        invariant
            j <= 5,
            values(headers@, "content-md5"@).len() <= 1,
            repeated_checksum_error(headers@, 0) is None,
            doubled_checksum_error(headers@, mapping(trailers@), 0) == doubled_checksum_error(
                headers@,
                mapping(trailers@),
                j as int,
            ),
        decreases 5 - j,
    {
        let name = ChecksumName::at(j).header_name();
        if headers.contains_key(name) && trailers.contains_key(name) {
            let message = name.to_owned().concat(
                " must not be supplied as both header and trailer",
            );
            return Err(S3Error::invalid_request(message.as_str()));
        }
        j += 1;
    }
    Ok(())
}

/// The trailer names that the comma-separated pieces of `x-amz-trailer` declare. Each must be a
/// supported checksum that was received, and none may be declared twice.
pub open spec fn declared_names(
    pieces: Seq<Seq<char>>,
    trailers: Map<Seq<char>, Seq<char>>,
) -> Result<Set<Seq<char>>, ErrorView>
    decreases pieces.len(),
{
    if pieces.len() == 0 {
        Ok(Set::empty())
    } else {
        match declared_names(pieces.drop_last(), trailers) {
            Err(error) => Err(error),
            Ok(declared) => {
                let name = lowercase(trim(pieces.last()));
                if name.len() == 0 {
                    Err(invalid_request("x-amz-trailer contains an empty trailer name"@))
                } else if declared.contains(name) {
                    Err(invalid_request("x-amz-trailer declares trailer more than once: "@ + name))
                } else if is_unsupported_checksum(name) {
                    Err(invalid_request("Checksum algorithm not supported"@))
                } else if checksum_of_header(name) is None {
                    Err(
                        invalid_request("x-amz-trailer contains unsupported trailer name: "@ + name),
                    )
                } else if !trailers.dom().contains(name) {
                    Err(invalid_request("Declared checksum trailer was not received: "@ + name))
                } else {
                    Ok(declared.insert(name))
                }
            },
        }
    }
}

proof fn lemma_declared_fail(
    pieces: Seq<Seq<char>>,
    trailers: Map<Seq<char>, Seq<char>>,
    n: int,
)
    requires
        0 <= n <= pieces.len(),
        declared_names(pieces.take(n), trailers) is Err,
    ensures
        declared_names(pieces, trailers) == declared_names(pieces.take(n), trailers),
    decreases pieces.len() - n,
{
    if n < pieces.len() {
        assert(pieces.take(n + 1).drop_last() =~= pieces.take(n));
        lemma_declared_fail(pieces, trailers, n + 1);
    } else {
        assert(pieces.take(n) =~= pieces);
    }
}

/// The error of a checksum trailer that was not declared, from algorithm `i` on.
pub open spec fn undeclared_error(
    declared: Set<Seq<char>>,
    trailers: Map<Seq<char>, Seq<char>>,
    i: int,
) -> Option<ErrorView>
    decreases 5 - i,
{
    if i < 0 || i >= 5 {
        None
    } else if trailers.dom().contains(checksum_header(checksum_at(i))) && !declared.contains(
        checksum_header(checksum_at(i)),
    ) {
        Some(
            invalid_request(
                "Checksum trailer was not declared: "@ + checksum_header(checksum_at(i)),
            ),
        )
    } else {
        undeclared_error(declared, trailers, i + 1)
    }
}

/// The error of a request whose declared trailers and received trailers do not fit.
pub open spec fn declaration_error(
    headers: Seq<(Seq<char>, Seq<u8>)>,
    trailers: Map<Seq<char>, Seq<char>>,
) -> Option<ErrorView> {
    let found = values(headers, "x-amz-trailer"@);
    if found.len() == 0 {
        undeclared_error(Set::empty(), trailers, 0)
    } else if found.len() > 1 {
        Some(invalid_request("x-amz-trailer must not appear more than once"@))
    } else {
        match field_text(found[0]) {
            None => Some(invalid_request("x-amz-trailer must be valid ASCII"@)),
            Some(text) => match declared_names(split(text, ','), trailers) {
                Err(error) => Some(error),
                Ok(declared) => undeclared_error(declared, trailers, 0),
            },
        }
    }
}

fn reject_undeclared_checksum_trailers(declared: &TextSet, trailers: &TextMap) -> (result: Result<
    (),
    S3Error,
>)
    ensures
        failure(result) == undeclared_error(declared@.to_set(), mapping(trailers@), 0),
{
    let mut i: usize = 0;
    while i < 5
        invariant
            i <= 5,
            undeclared_error(declared@.to_set(), mapping(trailers@), 0) == undeclared_error(
                declared@.to_set(),
                mapping(trailers@),
                i as int,
            ),
        decreases 5 - i,
    {
        let name = ChecksumName::at(i).header_name();
        if trailers.contains_key(name) && !declared.contains(name) {
            let message = "Checksum trailer was not declared: ".to_owned().concat(name);
            return Err(S3Error::invalid_request(message.as_str()));
        }
        i += 1;
    }
    Ok(())
}

fn names_unsupported_checksum(name: &str) -> (result: bool)
    ensures
        result == is_unsupported_checksum(name@),
{
    same(name, "x-amz-checksum-crc64nvme") || same(name, "x-amz-checksum-xxhash64") || same(
        name,
        "x-amz-checksum-xxhash3",
    ) || same(name, "x-amz-checksum-xxhash128")
}

fn read_declared_names(text: &str, trailers: &TextMap) -> (result: Result<TextSet, S3Error>)
    ensures
        match result {
            Ok(declared) => declared_names(split(text@, ','), mapping(trailers@)) == Ok::<
                _,
                ErrorView,
            >(declared@.to_set()),
            Err(error) => declared_names(split(text@, ','), mapping(trailers@)) == Err::<
                Set<Seq<char>>,
                _,
            >(error@),
        },
{
    let pieces = split_all(text, ',');
    let ghost all = split(text@, ',');
    let ghost received = mapping(trailers@);
    let mut declared = TextSet::new();
    let mut i: usize = 0;
    proof {
        assert(all.take(0) =~= Seq::<Seq<char>>::empty());
        assert(declared@.to_set() =~= Set::<Seq<char>>::empty());
    }
    while i < pieces.len()
        invariant
            i <= pieces@.len(),
            all == split(text@, ','),
            received == mapping(trailers@),
            texts(pieces@) == all,
            declared_names(all.take(i as int), received) == Ok::<_, ErrorView>(declared@.to_set()),
        decreases pieces.len() - i,
    {
        proof {
            assert(all.take(i + 1).drop_last() =~= all.take(i as int));
            assert(all.take(i + 1).last() == pieces@[i as int]@);
            if declared_names(all.take(i + 1), received) is Err {
                lemma_declared_fail(all, received, i + 1);
            }
        }
        let name = to_lowercase(trimmed(pieces[i].as_str()).as_str());
        if name.as_str().is_empty() {
            return Err(S3Error::invalid_request("x-amz-trailer contains an empty trailer name"));
        }
        if declared.contains(name.as_str()) {
            let message = "x-amz-trailer declares trailer more than once: ".to_owned().concat(
                name.as_str(),
            );
            return Err(S3Error::invalid_request(message.as_str()));
        }
        if names_unsupported_checksum(name.as_str()) {
            return Err(S3Error::invalid_request("Checksum algorithm not supported"));
        }
        if ChecksumName::from_header_name(name.as_str()).is_none() {
            let message = "x-amz-trailer contains unsupported trailer name: ".to_owned().concat(
                name.as_str(),
            );
            return Err(S3Error::invalid_request(message.as_str()));
        }
        if !trailers.contains_key(name.as_str()) {
            let message = "Declared checksum trailer was not received: ".to_owned().concat(
                name.as_str(),
            );
            return Err(S3Error::invalid_request(message.as_str()));
        }
        declared.insert(name.as_str());
        i += 1;
    }
    assert(all.take(i as int) =~= all);
    Ok(declared)
}

fn validate_declared_checksum_trailers(headers: &HeaderMap, trailers: &TextMap) -> (result: Result<
    (),
    S3Error,
>)
    ensures
        failure(result) == declaration_error(headers@, mapping(trailers@)),
{
    let found = headers.get_all("x-amz-trailer");
    let ghost all = found@.map_values(|v: Vec<u8>| v@);
    assert(all.len() == found@.len());
    if found.len() == 0 {
        let none = TextSet::new();
        assert(none@.to_set() =~= Set::<Seq<char>>::empty());
        return reject_undeclared_checksum_trailers(&none, trailers);
    }
    if found.len() > 1 {
        return Err(S3Error::invalid_request("x-amz-trailer must not appear more than once"));
    }
    assert(all[0] == found@[0]@);
    let text = match value_text(&found[0]) {
        Some(text) => text,
        None => {
            return Err(S3Error::invalid_request("x-amz-trailer must be valid ASCII"));
        },
    };
    match read_declared_names(text.as_str(), trailers) {
        Ok(declared) => reject_undeclared_checksum_trailers(&declared, trailers),
        Err(error) => Err(error),
    }
}

/// The error of an SDK checksum algorithm that is not supported or not given.
pub open spec fn sdk_error(
    headers: Seq<(Seq<char>, Seq<u8>)>,
    trailers: Map<Seq<char>, Seq<char>>,
) -> Option<ErrorView> {
    let found = values(headers, "x-amz-sdk-checksum-algorithm"@);
    if found.len() == 0 {
        None
    } else if found.len() > 1 {
        Some(invalid_request("x-amz-sdk-checksum-algorithm must not appear more than once"@))
    } else {
        match field_text(found[0]) {
            None => Some(invalid_request("x-amz-sdk-checksum-algorithm must be valid ASCII"@)),
            Some(text) => match sdk_algorithm(text) {
                None => Some(invalid_request("Checksum algorithm not supported"@)),
                Some(name) => if is_given(headers, trailers, checksum_header(name)) {
                    None
                } else {
                    Some(
                        invalid_request(
                            "x-amz-sdk-checksum-algorithm requires a matching checksum header or trailer"@,
                        ),
                    )
                },
            },
        }
    }
}

fn validate_sdk_checksum_algorithm(headers: &HeaderMap, trailers: &TextMap) -> (result: Result<
    (),
    S3Error,
>)
    ensures
        failure(result) == sdk_error(headers@, mapping(trailers@)),
{
    let found = headers.get_all("x-amz-sdk-checksum-algorithm");
    let ghost all = found@.map_values(|v: Vec<u8>| v@);
    assert(all.len() == found@.len());
    if found.len() == 0 {
        return Ok(());
    }
    if found.len() > 1 {
        return Err(
            S3Error::invalid_request("x-amz-sdk-checksum-algorithm must not appear more than once"),
        );
    }
    assert(all[0] == found@[0]@);
    let algorithm = match value_text(&found[0]) {
        Some(text) => text,
        None => {
            return Err(
                S3Error::invalid_request("x-amz-sdk-checksum-algorithm must be valid ASCII"),
            );
        },
    };
    match ChecksumName::from_sdk_algorithm(algorithm.as_str()) {
        None => Err(S3Error::invalid_request("Checksum algorithm not supported")),
        Some(name) => {
            if given(headers, trailers, name.header_name()) {
                Ok(())
            } else {
                Err(
                    S3Error::invalid_request(
                        "x-amz-sdk-checksum-algorithm requires a matching checksum header or trailer",
                    ),
                )
            }
        },
    }
}

// ---------------------------------------------------------------------------------------------
// Checksum requests
// ---------------------------------------------------------------------------------------------
/// The text that a checksum is given with, in a header field or else in a trailer.
pub open spec fn supplied_text(
    headers: Seq<(Seq<char>, Seq<u8>)>,
    trailers: Map<Seq<char>, Seq<char>>,
    name: Seq<char>,
) -> Result<Option<Seq<char>>, ErrorView> {
    match first_text(headers, name) {
        Some(Some(text)) => Ok(Some(text)),
        Some(None) => Err(invalid_request(name + " must be valid ASCII"@)),
        None => if trailers.dom().contains(name) {
            Ok(Some(trailers[name]))
        } else {
            Ok(None)
        },
    }
}

/// The bytes that a checksum is given with.
pub open spec fn supplied_digest(
    headers: Seq<(Seq<char>, Seq<u8>)>,
    trailers: Map<Seq<char>, Seq<char>>,
    name: Seq<char>,
    length: nat,
) -> Result<Option<Seq<u8>>, ErrorView> {
    match supplied_text(headers, trailers, name) {
        Err(error) => Err(error),
        Ok(None) => Ok(None),
        Ok(Some(text)) => match base64_bytes(text) {
            None => Err(invalid_request(name + " must be base64-encoded"@)),
            Some(bytes) => if bytes.len() == length {
                Ok(Some(bytes))
            } else {
                Err(invalid_request(name + " must decode to "@ + decimal(length) + " bytes"@))
            },
        },
    }
}

fn read_supplied_text(headers: &HeaderMap, trailers: &TextMap, name: &str) -> (result: Result<
    Option<String>,
    S3Error,
>)
    ensures
        match result {
            Ok(text) => supplied_text(headers@, mapping(trailers@), name@) == Ok::<_, ErrorView>(
                crate::text::opt_text(text),
            ),
            Err(error) => supplied_text(headers@, mapping(trailers@), name@) == Err::<
                Option<Seq<char>>,
                _,
            >(error@),
        },
{
    match headers.get_text(name) {
        Some(Some(text)) => Ok(Some(text)),
        Some(None) => Err(
            S3Error::invalid_request(name.to_owned().concat(" must be valid ASCII").as_str()),
        ),
        None => match trailers.get(name) {
            Some(text) => Ok(Some(text.to_owned())),
            None => Ok(None),
        },
    }
}

/// The view of optional bytes.
pub open spec fn opt_bytes(bytes: Option<Vec<u8>>) -> Option<Seq<u8>> {
    match bytes {
        Some(b) => Some(b@),
        None => None,
    }
}

/// Reads the bytes that a checksum is given with.
pub fn optional_base64_header(
    headers: &HeaderMap,
    trailers: &TextMap,
    name: &str,
    expected_len: usize,
) -> (result: Result<Option<Vec<u8>>, S3Error>)
    ensures
        match result {
            Ok(bytes) => supplied_digest(
                headers@,
                mapping(trailers@),
                name@,
                expected_len as nat,
            ) == Ok::<_, ErrorView>(opt_bytes(bytes)),
            Err(error) => supplied_digest(
                headers@,
                mapping(trailers@),
                name@,
                expected_len as nat,
            ) == Err::<Option<Seq<u8>>, _>(error@),
        },
        match result {
            Ok(Some(bytes)) => supplied_text(headers@, mapping(trailers@), name@) == Ok::<
                _,
                ErrorView,
            >(Some(base64_text(bytes@))),
            _ => true,
        },
{
    let text = match read_supplied_text(headers, trailers, name) {
        Err(error) => {
            return Err(error);
        },
        Ok(None) => {
            return Ok(None);
        },
        Ok(Some(text)) => text,
    };
    match base64_decode(text.as_str()) {
        None => Err(
            S3Error::invalid_request(name.to_owned().concat(" must be base64-encoded").as_str()),
        ),
        Some(bytes) => {
            if bytes.len() != expected_len {
                let message = name.to_owned().concat(" must decode to ").concat(
                    decimal_text(expected_len as u64).as_str(),
                ).concat(" bytes");
                return Err(S3Error::invalid_request(message.as_str()));
            }
            Ok(Some(bytes))
        },
    }
}

fn optional_checksum(headers: &HeaderMap, trailers: &TextMap, checksum: ChecksumName) -> (result:
    Result<Option<Vec<u8>>, S3Error>)
    ensures
        match result {
            Ok(bytes) => supplied_digest(
                headers@,
                mapping(trailers@),
                checksum_header(checksum),
                checksum_length(checksum),
            ) == Ok::<_, ErrorView>(opt_bytes(bytes)),
            Err(error) => supplied_digest(
                headers@,
                mapping(trailers@),
                checksum_header(checksum),
                checksum_length(checksum),
            ) == Err::<Option<Seq<u8>>, _>(error@),
        },
        match result {
            Ok(Some(bytes)) => supplied_text(
                headers@,
                mapping(trailers@),
                checksum_header(checksum),
            ) == Ok::<_, ErrorView>(Some(base64_text(bytes@))),
            _ => true,
        },
{
    optional_base64_header(headers, trailers, checksum.header_name(), checksum.expected_len())
}

/// The texts of the checksums that are given, of the first `n` algorithms.
pub open spec fn supplied_values(
    headers: Seq<(Seq<char>, Seq<u8>)>,
    trailers: Map<Seq<char>, Seq<char>>,
    n: int,
) -> Result<Map<Seq<char>, Seq<char>>, ErrorView>
    decreases n,
{
    if n <= 0 {
        Ok(Map::empty())
    } else {
        match supplied_values(headers, trailers, n - 1) {
            Err(error) => Err(error),
            Ok(found) => {
                let name = checksum_header(checksum_at(n - 1));
                match supplied_text(headers, trailers, name) {
                    Err(error) => Err(error),
                    Ok(None) => Ok(found),
                    Ok(Some(text)) => Ok(found.insert(name, text)),
                }
            },
        }
    }
}

proof fn lemma_supplied_values_fail(
    headers: Seq<(Seq<char>, Seq<u8>)>,
    trailers: Map<Seq<char>, Seq<char>>,
    n: int,
)
    requires
        0 <= n <= 5,
        supplied_values(headers, trailers, n) is Err,
    ensures
        supplied_values(headers, trailers, 5) == supplied_values(headers, trailers, n),
    decreases 5 - n,
{
    if n < 5 {
        lemma_supplied_values_fail(headers, trailers, n + 1);
    }
}

fn checksum_values(headers: &HeaderMap, trailers: &TextMap) -> (result: Result<TextMap, S3Error>)
    ensures
        match result {
            Ok(found) => supplied_values(headers@, mapping(trailers@), 5) == Ok::<_, ErrorView>(
                mapping(found@),
            ),
            Err(error) => supplied_values(headers@, mapping(trailers@), 5) == Err::<
                Map<Seq<char>, Seq<char>>,
                _,
            >(error@),
        },
{
    let mut found = TextMap::new();
    let mut i: usize = 0;
    while i < 5
        invariant
            i <= 5,
            supplied_values(headers@, mapping(trailers@), i as int) == Ok::<_, ErrorView>(
                mapping(found@),
            ),
        decreases 5 - i,
    {
        proof {
            if supplied_values(headers@, mapping(trailers@), i + 1) is Err {
                lemma_supplied_values_fail(headers@, mapping(trailers@), i + 1);
            }
        }
        let name = ChecksumName::at(i).header_name();
        match read_supplied_text(headers, trailers, name) {
            Err(error) => {
                return Err(error);
            },
            Ok(None) => {},
            Ok(Some(text)) => {
                found.insert(name, text.as_str());
            },
        }
        i += 1;
    }
    Ok(found)
}

/// The checksums that a request gives for its body.
#[derive(Debug, PartialEq, Eq)]
pub struct ChecksumRequest {
    content_md5: Option<Vec<u8>>,
    checksum_crc32: Option<Vec<u8>>,
    checksum_crc32c: Option<Vec<u8>>,
    checksum_sha1: Option<Vec<u8>>,
    checksum_sha256: Option<Vec<u8>>,
    checksum_sha512: Option<Vec<u8>>,
    checksum_values: TextMap,
}

/// A [`ChecksumRequest`] as a mathematical value.
#[verifier::ext_equal]
pub struct RequestedView {
    pub md5: Option<Seq<u8>>,
    pub crc32: Option<Seq<u8>>,
    pub crc32c: Option<Seq<u8>>,
    pub sha1: Option<Seq<u8>>,
    pub sha256: Option<Seq<u8>>,
    pub sha512: Option<Seq<u8>>,
    pub values: Map<Seq<char>, Seq<char>>,
}

impl View for ChecksumRequest {
    type V = RequestedView;

    closed spec fn view(&self) -> RequestedView {
        RequestedView {
            md5: opt_bytes(self.content_md5),
            crc32: opt_bytes(self.checksum_crc32),
            crc32c: opt_bytes(self.checksum_crc32c),
            sha1: opt_bytes(self.checksum_sha1),
            sha256: opt_bytes(self.checksum_sha256),
            sha512: opt_bytes(self.checksum_sha512),
            values: mapping(self.checksum_values@),
        }
    }
}

/// The digest that a request gives by an algorithm.
pub open spec fn given_digest(request: RequestedView, name: ChecksumName) -> Option<Seq<u8>> {
    match name {
        ChecksumName::Crc32 => request.crc32,
        ChecksumName::Crc32c => request.crc32c,
        ChecksumName::Sha1 => request.sha1,
        ChecksumName::Sha256 => request.sha256,
        ChecksumName::Sha512 => request.sha512,
    }
}

/// The base64 forms of the digests that a request gives, by header field.
pub open spec fn given_values(request: RequestedView) -> Map<Seq<char>, Seq<char>> {
    Map::new(
        |header: Seq<char>|
            checksum_of_header(header) is Some && given_digest(
                request,
                checksum_of_header(header)->0,
            ) is Some,
        |header: Seq<char>| base64_text(given_digest(request, checksum_of_header(header)->0)->0),
    )
}

/// Whether the text of a checksum is the base64 form of the digest that was read from it.
spec fn is_text_of(
    headers: Seq<(Seq<char>, Seq<u8>)>,
    trailers: Map<Seq<char>, Seq<char>>,
    name: ChecksumName,
    digest: Option<Seq<u8>>,
) -> bool {
    supplied_text(headers, trailers, checksum_header(name)) == Ok::<_, ErrorView>(
        match digest {
            Some(bytes) => Some(base64_text(bytes)),
            None => None,
        },
    )
}

proof fn lemma_supplied_values(
    headers: Seq<(Seq<char>, Seq<u8>)>,
    trailers: Map<Seq<char>, Seq<char>>,
    request: RequestedView,
)
    requires
        is_text_of(headers, trailers, ChecksumName::Crc32, request.crc32),
        is_text_of(headers, trailers, ChecksumName::Crc32c, request.crc32c),
        is_text_of(headers, trailers, ChecksumName::Sha1, request.sha1),
        is_text_of(headers, trailers, ChecksumName::Sha256, request.sha256),
        is_text_of(headers, trailers, ChecksumName::Sha512, request.sha512),
    ensures
        supplied_values(headers, trailers, 5) == Ok::<_, ErrorView>(given_values(request)),
{
    reveal_with_fuel(supplied_values, 6);
    law_checksum_headers_are_distinct(ChecksumName::Crc32);
    law_checksum_headers_are_distinct(ChecksumName::Crc32c);
    law_checksum_headers_are_distinct(ChecksumName::Sha1);
    law_checksum_headers_are_distinct(ChecksumName::Sha256);
    law_checksum_headers_are_distinct(ChecksumName::Sha512);
    assert(supplied_values(headers, trailers, 5)->Ok_0 =~= given_values(request));
}

/// The error of checksum inputs that do not fit together.
pub open spec fn input_error(
    headers: Seq<(Seq<char>, Seq<u8>)>,
    trailers: Map<Seq<char>, Seq<char>>,
) -> Option<ErrorView> {
    match unsupported_error(headers, trailers) {
        Some(error) => Some(error),
        None => match duplicate_error(headers, trailers) {
            Some(error) => Some(error),
            None => declaration_error(headers, trailers),
        },
    }
}

/// The checksum of one algorithm that a request gives.
pub open spec fn requested_digest(
    headers: Seq<(Seq<char>, Seq<u8>)>,
    trailers: Map<Seq<char>, Seq<char>>,
    name: ChecksumName,
) -> Result<Option<Seq<u8>>, ErrorView> {
    supplied_digest(headers, trailers, checksum_header(name), checksum_length(name))
}

/// The error of the first checksum that cannot be read: MD5 and then the others in order.
pub open spec fn digest_error(
    headers: Seq<(Seq<char>, Seq<u8>)>,
    trailers: Map<Seq<char>, Seq<char>>,
) -> Option<ErrorView> {
    match supplied_digest(headers, trailers, "content-md5"@, 16) {
        Err(error) => Some(error),
        Ok(_) => match requested_digest(headers, trailers, ChecksumName::Crc32) {
            Err(error) => Some(error),
            Ok(_) => match requested_digest(headers, trailers, ChecksumName::Crc32c) {
                Err(error) => Some(error),
                Ok(_) => match requested_digest(headers, trailers, ChecksumName::Sha1) {
                    Err(error) => Some(error),
                    Ok(_) => match requested_digest(headers, trailers, ChecksumName::Sha256) {
                        Err(error) => Some(error),
                        Ok(_) => match requested_digest(headers, trailers, ChecksumName::Sha512) {
                            Err(error) => Some(error),
                            Ok(_) => None,
                        },
                    },
                },
            },
        },
    }
}

/// The checksums that headers and trailers give.
pub open spec fn requested_checksums(
    headers: Seq<(Seq<char>, Seq<u8>)>,
    trailers: Map<Seq<char>, Seq<char>>,
) -> Result<RequestedView, ErrorView> {
    match input_error(headers, trailers) {
        Some(error) => Err(error),
        None => match digest_error(headers, trailers) {
            Some(error) => Err(error),
            None => match supplied_values(headers, trailers, 5) {
                Err(error) => Err(error),
                Ok(found) => match sdk_error(headers, trailers) {
                    Some(error) => Err(error),
                    None => Ok(
                        RequestedView {
                            md5: supplied_digest(headers, trailers, "content-md5"@, 16)->Ok_0,
                            crc32: requested_digest(
                                headers,
                                trailers,
                                ChecksumName::Crc32,
                            )->Ok_0,
                            crc32c: requested_digest(
                                headers,
                                trailers,
                                ChecksumName::Crc32c,
                            )->Ok_0,
                            sha1: requested_digest(headers, trailers, ChecksumName::Sha1)->Ok_0,
                            sha256: requested_digest(
                                headers,
                                trailers,
                                ChecksumName::Sha256,
                            )->Ok_0,
                            sha512: requested_digest(
                                headers,
                                trailers,
                                ChecksumName::Sha512,
                            )->Ok_0,
                            values: found,
                        },
                    ),
                },
            },
        },
    }
}

/// Whether a checksum that is asked for is the one that was computed.
pub open spec fn digest_matches(expected: Option<Seq<u8>>, actual: Seq<u8>) -> bool {
    expected is None || expected->0 == actual
}

/// The error of a body whose digests are not the ones that were asked for.
pub open spec fn mismatch_error(request: RequestedView, digests: DigestsView) -> Option<ErrorView> {
    if !digest_matches(request.md5, digests.md5) {
        Some(bad_digest("The Content-MD5 you specified did not match what we received."@))
    } else if !digest_matches(request.crc32, be_bytes(digests.crc32)) || !digest_matches(
        request.crc32c,
        be_bytes(digests.crc32c),
    ) || !digest_matches(request.sha1, digests.sha1) || !digest_matches(
        request.sha256,
        digests.sha256,
    ) || !digest_matches(request.sha512, digests.sha512) {
        Some(bad_digest("The provided x-amz-checksum header does not match what was computed."@))
    } else {
        None
    }
}

/// The computed values of the checksums that a request asks for.
pub open spec fn computed_values(request: RequestedView, digests: DigestsView) -> Map<
    Seq<char>,
    Seq<char>,
> {
    Map::new(
        |header: Seq<char>|
            match checksum_of_header(header) {
                None => false,
                Some(ChecksumName::Crc32) => request.crc32 is Some,
                Some(ChecksumName::Crc32c) => request.crc32c is Some,
                Some(ChecksumName::Sha1) => request.sha1 is Some,
                Some(ChecksumName::Sha256) => request.sha256 is Some,
                Some(ChecksumName::Sha512) => request.sha512 is Some,
            },
        |header: Seq<char>| base64_text(digest_bytes(checksum_of_header(header)->0, digests)),
    )
}

/// Where the digests of a body are those that a request gives, the computed values of the checksums
/// are the given ones, text for text. Whatever [`ChecksumRequest::from_headers_and_trailers`] reads
/// has such values: they are the base64 forms of its digests.
pub proof fn law_validated_checksums_are_the_computed_ones(
    request: RequestedView,
    digests: DigestsView,
)
    requires
        request.values == given_values(request),
        mismatch_error(request, digests) is None,
    ensures
        request.values == computed_values(request, digests),
{
    assert(request.values =~= computed_values(request, digests));
}

fn matches_digest(expected: &Option<Vec<u8>>, actual: &Vec<u8>) -> (result: bool)
    ensures
        result == digest_matches(opt_bytes(*expected), actual@),
{
    match expected {
        None => true,
        Some(bytes) => same_bytes(bytes, actual),
    }
}

impl ChecksumRequest {
    #[verifier::type_invariant]
    spec fn is_consistent(self) -> bool {
        self@.values == given_values(self@)
    }

    /// Reads the checksums that header fields give.
    pub fn from_headers(headers: &HeaderMap) -> (result: Result<Self, S3Error>)
        ensures
            result_view(result) == requested_checksums(headers@, Map::empty()),
            result is Ok ==> result->Ok_0@.values == given_values(result->Ok_0@),
    {
        let none = TextMap::new();
        assert(mapping(none@) =~= Map::<Seq<char>, Seq<char>>::empty());
        ChecksumRequest::from_headers_and_trailers(headers, &none)
    }

    /// Reads the checksums that header fields and trailers give.
    pub fn from_headers_and_trailers(headers: &HeaderMap, trailers: &TextMap) -> (result: Result<
        Self,
        S3Error,
    >)
        ensures
            result_view(result) == requested_checksums(headers@, mapping(trailers@)),
            result is Ok ==> result->Ok_0@.values == given_values(result->Ok_0@),
    {
        match reject_unsupported_checksum_inputs(headers, trailers) {
            Ok(()) => {},
            Err(error) => {
                return Err(error);
            },
        }
        match reject_duplicate_checksum_inputs(headers, trailers) {
            Ok(()) => {},
            Err(error) => {
                return Err(error);
            },
        }
        match validate_declared_checksum_trailers(headers, trailers) {
            Ok(()) => {},
            Err(error) => {
                return Err(error);
            },
        }
        let content_md5 = match optional_base64_header(headers, trailers, "content-md5", 16) {
            Ok(bytes) => bytes,
            Err(error) => {
                return Err(error);
            },
        };
        let checksum_crc32 = match optional_checksum(headers, trailers, ChecksumName::Crc32) {
            Ok(bytes) => bytes,
            Err(error) => {
                return Err(error);
            },
        };
        let checksum_crc32c = match optional_checksum(headers, trailers, ChecksumName::Crc32c) {
            Ok(bytes) => bytes,
            Err(error) => {
                return Err(error);
            },
        };
        let checksum_sha1 = match optional_checksum(headers, trailers, ChecksumName::Sha1) {
            Ok(bytes) => bytes,
            Err(error) => {
                return Err(error);
            },
        };
        let checksum_sha256 = match optional_checksum(headers, trailers, ChecksumName::Sha256) {
            Ok(bytes) => bytes,
            Err(error) => {
                return Err(error);
            },
        };
        let checksum_sha512 = match optional_checksum(headers, trailers, ChecksumName::Sha512) {
            Ok(bytes) => bytes,
            Err(error) => {
                return Err(error);
            },
        };
        let checksum_values = match checksum_values(headers, trailers) {
            Ok(found) => found,
            Err(error) => {
                return Err(error);
            },
        };
        match validate_sdk_checksum_algorithm(headers, trailers) {
            Ok(()) => {},
            Err(error) => {
                return Err(error);
            },
        }
        proof {
            lemma_supplied_values(
                headers@,
                mapping(trailers@),
                RequestedView {
                    md5: opt_bytes(content_md5),
                    crc32: opt_bytes(checksum_crc32),
                    crc32c: opt_bytes(checksum_crc32c),
                    sha1: opt_bytes(checksum_sha1),
                    sha256: opt_bytes(checksum_sha256),
                    sha512: opt_bytes(checksum_sha512),
                    values: mapping(checksum_values@),
                },
            );
        }
        Ok(
            ChecksumRequest {
                content_md5,
                checksum_crc32,
                checksum_crc32c,
                checksum_sha1,
                checksum_sha256,
                checksum_sha512,
                checksum_values,
            },
        )
    }

    /// Checks the digests of a body against the checksums that were asked for. Where they pass, the
    /// checksums as they were given are those that are computed of the digests.
    pub fn validate(&self, digests: &ChecksumDigests) -> (result: Result<(), S3Error>)
        ensures
            failure(result) == mismatch_error(self@, digests@),
            result is Ok ==> self@.values == computed_values(self@, digests@),
    {
        proof {
            use_type_invariant(self);
            if mismatch_error(self@, digests@) is None {
                law_validated_checksums_are_the_computed_ones(self@, digests@);
            }
        }
        if !matches_digest(&self.content_md5, &digests.md5) {
            return Err(
                S3Error::bad_digest("The Content-MD5 you specified did not match what we received."),
            );
        }
        if !matches_digest(&self.checksum_crc32, &to_be_bytes(digests.crc32)) || !matches_digest(
            &self.checksum_crc32c,
            &to_be_bytes(digests.crc32c),
        ) || !matches_digest(&self.checksum_sha1, &digests.sha1) || !matches_digest(
            &self.checksum_sha256,
            &digests.sha256,
        ) || !matches_digest(&self.checksum_sha512, &digests.sha512) {
            return Err(
                S3Error::bad_digest(
                    "The provided x-amz-checksum header does not match what was computed.",
                ),
            );
        }
        Ok(())
    }

    /// The checksums as they were given.
    pub fn checksum_values(&self) -> (found: TextMap)
        ensures
            mapping(found@) == self@.values,
            self@.values == given_values(self@),
    {
        proof {
            use_type_invariant(self);
        }
        self.checksum_values.clone()
    }

    /// The computed values of the checksums that were asked for.
    pub fn checksum_values_for_digests(&self, digests: &ChecksumDigests) -> (computed: TextMap)
        ensures
            mapping(computed@) == computed_values(self@, digests@),
    {
        let mut computed = TextMap::new();
        if self.checksum_crc32.is_some() {
            computed.insert(
                ChecksumName::Crc32.header_name(),
                ChecksumName::Crc32.encode_digest(digests).as_str(),
            );
        }
        if self.checksum_crc32c.is_some() {
            computed.insert(
                ChecksumName::Crc32c.header_name(),
                ChecksumName::Crc32c.encode_digest(digests).as_str(),
            );
        }
        if self.checksum_sha1.is_some() {
            computed.insert(
                ChecksumName::Sha1.header_name(),
                ChecksumName::Sha1.encode_digest(digests).as_str(),
            );
        }
        if self.checksum_sha256.is_some() {
            computed.insert(
                ChecksumName::Sha256.header_name(),
                ChecksumName::Sha256.encode_digest(digests).as_str(),
            );
        }
        if self.checksum_sha512.is_some() {
            computed.insert(
                ChecksumName::Sha512.header_name(),
                ChecksumName::Sha512.encode_digest(digests).as_str(),
            );
        }
        proof {
            law_checksum_headers_are_distinct(ChecksumName::Crc32);
            law_checksum_headers_are_distinct(ChecksumName::Crc32c);
            law_checksum_headers_are_distinct(ChecksumName::Sha1);
            law_checksum_headers_are_distinct(ChecksumName::Sha256);
            law_checksum_headers_are_distinct(ChecksumName::Sha512);
            assert(mapping(computed@) =~= computed_values(self@, digests@));
        }
        computed
    }

    /// Whether an MD5 digest was asked for.
    pub fn requires_md5(&self) -> (result: bool)
        ensures
            result == self@.md5 is Some,
    {
        self.content_md5.is_some()
    }

    /// Whether a CRC-32 checksum was asked for.
    pub fn requires_crc32(&self) -> (result: bool)
        ensures
            result == self@.crc32 is Some,
    {
        self.checksum_crc32.is_some()
    }

    /// Whether a CRC-32C checksum was asked for.
    pub fn requires_crc32c(&self) -> (result: bool)
        ensures
            result == self@.crc32c is Some,
    {
        self.checksum_crc32c.is_some()
    }

    /// Whether a SHA-1 digest was asked for.
    pub fn requires_sha1(&self) -> (result: bool)
        ensures
            result == self@.sha1 is Some,
    {
        self.checksum_sha1.is_some()
    }

    /// Whether a SHA-256 digest was asked for.
    pub fn requires_sha256(&self) -> (result: bool)
        ensures
            result == self@.sha256 is Some,
    {
        self.checksum_sha256.is_some()
    }

    /// Whether a SHA-512 digest was asked for.
    pub fn requires_sha512(&self) -> (result: bool)
        ensures
            result == self@.sha512 is Some,
    {
        self.checksum_sha512.is_some()
    }
}

/// The computed values of the checksums among the given names.
pub open spec fn requested_values(
    requested: Map<Seq<char>, Seq<char>>,
    digests: DigestsView,
) -> Map<Seq<char>, Seq<char>> {
    Map::new(
        |header: Seq<char>| requested.dom().contains(header) && checksum_of_header(header) is Some,
        |header: Seq<char>| base64_text(digest_bytes(checksum_of_header(header)->0, digests)),
    )
}

/// Computes the values of the checksums among the given names.
pub fn checksum_values_for_requested_headers(requested: &TextMap, digests: &ChecksumDigests) -> (
computed: TextMap)
    ensures
        mapping(computed@) == requested_values(mapping(requested@), digests@),
{
    let mut computed = TextMap::new();
    let ghost all = requested@;
    let mut i: usize = 0;
    proof {
        assert(all.take(0) =~= Seq::<(Seq<char>, Seq<char>)>::empty());
        assert(mapping(computed@) =~= requested_values(mapping(all.take(0)), digests@));
    }
    while i < requested.len()
        invariant
            i <= requested@.len(),
            all == requested@,
            mapping(computed@) == requested_values(mapping(all.take(i as int)), digests@),
        decreases requested@.len() - i,
    {
        let name = requested.key_at(i);
        let ghost before = mapping(all.take(i as int));
        proof {
            assert(all.take(i + 1).drop_last() =~= all.take(i as int));
            assert(all.take(i + 1).last() == all[i as int]);
            assert(mapping(all.take(i + 1)) == before.insert(name@, all[i as int].1));
        }
        match ChecksumName::from_header_name(name) {
            Some(checksum) => {
                computed.insert(name, checksum.encode_digest(digests).as_str());
            },
            None => {},
        }
        assert(mapping(computed@) =~= requested_values(mapping(all.take(i + 1)), digests@));
        i += 1;
    }
    assert(all.take(i as int) =~= all);
    computed
}

} // verus!
