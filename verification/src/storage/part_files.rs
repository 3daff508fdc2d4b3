//! Where multipart uploads are stored, and how their parts and sessions are written.
use crate::s3::types::{is_part_number, PartNumber, UploadId};
use crate::text::{digit_char, ends_with, has_suffix, hex_digit};
use vstd::prelude::*;

verus! {

// ---------------------------------------------------------------------------------------------
// Names
// ---------------------------------------------------------------------------------------------
/// The directory of an upload, relative to the storage root.
pub open spec fn upload_directory(upload_id: Seq<char>) -> Seq<char> {
    "multipart/"@ + upload_id
}

/// The directory of an upload's parts, relative to the storage root.
pub open spec fn parts_directory(upload_id: Seq<char>) -> Seq<char> {
    upload_directory(upload_id) + "/parts"@
}

/// A part number in five digits.
pub open spec fn padded(number: nat) -> Seq<char> {
    seq![
        hex_digit(number / 10000 % 10),
        hex_digit(number / 1000 % 10),
        hex_digit(number / 100 % 10),
        hex_digit(number / 10 % 10),
        hex_digit(number % 10),
    ]
}

/// The file of a part, relative to the storage root.
pub open spec fn part_file(upload_id: Seq<char>, number: nat) -> Seq<char> {
    parts_directory(upload_id) + "/"@ + padded(number) + ".part"@
}

/// The file in which a part is staged under an ID.
pub open spec fn staged_part_file(upload_id: Seq<char>, number: nat, temp_id: Seq<char>) -> Seq<
    char,
> {
    upload_directory(upload_id) + "/"@ + padded(number) + "."@ + temp_id + ".tmp"@
}

/// The file in which a part that is replaced is kept under an ID.
pub open spec fn part_backup_file(upload_id: Seq<char>, number: nat, temp_id: Seq<char>) -> Seq<
    char,
> {
    upload_directory(upload_id) + "/"@ + padded(number) + "."@ + temp_id + ".rollback.tmp"@
}

/// The file of an upload's session, relative to the storage root.
pub open spec fn session_file(upload_id: Seq<char>) -> Seq<char> {
    upload_directory(upload_id) + "/session.json"@
}

/// The file in which an upload's session is staged under an ID.
pub open spec fn staged_session_file(upload_id: Seq<char>, temp_id: Seq<char>) -> Seq<char> {
    upload_directory(upload_id) + "/session."@ + temp_id + ".tmp"@
}

/// Names the directory of an upload.
pub fn upload_dir(upload_id: &UploadId) -> (path: String)
    ensures
        path@ == upload_directory(upload_id@),
{
    let mut path = "multipart/".to_owned();
    path.append(upload_id.as_str());
    path
}

/// Names the directory of an upload's parts.
pub fn parts_dir(upload_id: &UploadId) -> (path: String)
    ensures
        path@ == parts_directory(upload_id@),
{
    let mut path = upload_dir(upload_id);
    path.append("/parts");
    path
}

fn padded_number(part_number: PartNumber) -> (text: String)
    ensures
        text@ == padded(part_number@),
{
    let number: u16 = part_number.get();
    let mut text = String::new();
    text.push(digit_char((number / 10000 % 10) as u8));
    text.push(digit_char((number / 1000 % 10) as u8));
    text.push(digit_char((number / 100 % 10) as u8));
    text.push(digit_char((number / 10 % 10) as u8));
    text.push(digit_char((number % 10) as u8));
    assert(text@ =~= padded(part_number@));
    text
}

/// Names the file of a part.
pub fn part_path(upload_id: &UploadId, part_number: PartNumber) -> (path: String)
    ensures
        path@ == part_file(upload_id@, part_number@),
{
    let mut path = parts_dir(upload_id);
    path.append("/");
    path.append(padded_number(part_number).as_str());
    path.append(".part");
    path
}

fn temp_part_path(
    upload_id: &UploadId,
    part_number: PartNumber,
    temp_id: &str,
    suffix: &str,
) -> (path: String)
    ensures
        path@ == upload_directory(upload_id@) + "/"@ + padded(part_number@) + "."@ + temp_id@
            + suffix@,
{
    let mut path = upload_dir(upload_id);
    path.append("/");
    path.append(padded_number(part_number).as_str());
    path.append(".");
    path.append(temp_id);
    path.append(suffix);
    path
}

/// Names the file in which a part is staged under an ID.
pub fn staged_part_path(upload_id: &UploadId, part_number: PartNumber, temp_id: &str) -> (path:
    String)
    ensures
        path@ == staged_part_file(upload_id@, part_number@, temp_id@),
{
    temp_part_path(upload_id, part_number, temp_id, ".tmp")
}

/// Names the file in which a part that is replaced is kept under an ID.
pub fn part_backup_path(upload_id: &UploadId, part_number: PartNumber, temp_id: &str) -> (path:
    String)
    ensures
        path@ == part_backup_file(upload_id@, part_number@, temp_id@),
{
    temp_part_path(upload_id, part_number, temp_id, ".rollback.tmp")
}

/// Names the file of an upload's session.
pub fn session_path(upload_id: &UploadId) -> (path: String)
    ensures
        path@ == session_file(upload_id@),
{
    let mut path = upload_dir(upload_id);
    path.append("/session.json");
    path
}

/// Names the file in which an upload's session is staged under an ID.
pub fn staged_session_path(upload_id: &UploadId, temp_id: &str) -> (path: String)
    ensures
        path@ == staged_session_file(upload_id@, temp_id@),
{
    let mut path = upload_dir(upload_id);
    path.append("/session.");
    path.append(temp_id);
    path.append(".tmp");
    path
}

/// Tests whether a file in the directory of an upload is a temporary one, which is removed when the
/// endpoint starts.
pub fn is_stale_file(file_name: &str) -> (result: bool)
    ensures
        result == ends_with(file_name@, ".tmp"@),
{
    has_suffix(file_name, ".tmp")
}

proof fn lemma_equal_digits(a: nat, b: nat)
    requires
        a < 10,
        b < 10,
        hex_digit(a) == hex_digit(b),
    ensures
        a == b,
{
}

proof fn lemma_five_digits(n: nat)
    requires
        n < 100000,
    ensures
        n == 10000 * (n / 10000 % 10) + 1000 * (n / 1000 % 10) + 100 * (n / 100 % 10) + 10 * (n / 10
            % 10) + n % 10,
{
    let a = n / 10;
    let b = n / 100;
    let c = n / 1000;
    let d = n / 10000;
    assert(n == 10 * a + n % 10);
    assert(a == 10 * b + a % 10);
    assert(b == 10 * c + b % 10);
    assert(c == 10 * d + c % 10);
    assert(d == d % 10);
}

/// Different parts of an upload are stored in different files.
pub proof fn law_parts_have_files_of_their_own(upload_id: Seq<char>, number: nat, other: nat)
    requires
        is_part_number(number as int),
        is_part_number(other as int),
        number != other,
    ensures
        part_file(upload_id, number) != part_file(upload_id, other),
{
    let at = (parts_directory(upload_id) + "/"@).len() as int;
    let a = part_file(upload_id, number);
    let b = part_file(upload_id, other);
    if a == b {
        let p = padded(number);
        let q = padded(other);
        assert(a.subrange(at, at + 5) =~= p);
        assert(b.subrange(at, at + 5) =~= q);
        assert(p[0] == q[0] && p[1] == q[1] && p[2] == q[2] && p[3] == q[3] && p[4] == q[4]);
        lemma_equal_digits(number / 10000 % 10, other / 10000 % 10);
        lemma_equal_digits(number / 1000 % 10, other / 1000 % 10);
        lemma_equal_digits(number / 100 % 10, other / 100 % 10);
        lemma_equal_digits(number / 10 % 10, other / 10 % 10);
        lemma_equal_digits(number % 10, other % 10);
        lemma_five_digits(number);
        lemma_five_digits(other);
    }
}

/// Staged parts, kept parts and staged sessions are recognised as temporary files, a session and a
/// part are not.
pub proof fn law_temporary_files_are_recognised(
    upload_id: Seq<char>,
    number: nat,
    temp_id: Seq<char>,
)
    ensures
        ends_with(staged_part_file(upload_id, number, temp_id), ".tmp"@),
        ends_with(part_backup_file(upload_id, number, temp_id), ".tmp"@),
        ends_with(staged_session_file(upload_id, temp_id), ".tmp"@),
        !ends_with(session_file(upload_id), ".tmp"@),
        !ends_with(part_file(upload_id, number), ".tmp"@),
{
    reveal_strlit(".tmp");
    reveal_strlit(".rollback.tmp");
    reveal_strlit("/session.json");
    reveal_strlit(".part");
    let staged = staged_part_file(upload_id, number, temp_id);
    let kept = part_backup_file(upload_id, number, temp_id);
    let session = staged_session_file(upload_id, temp_id);
    assert(staged.skip(staged.len() - 4) =~= ".tmp"@);
    assert(kept.skip(kept.len() - 4) =~= ".tmp"@);
    assert(session.skip(session.len() - 4) =~= ".tmp"@);
    let s = session_file(upload_id);
    assert(s.skip(s.len() - 4)[3] == 'n');
    let p = part_file(upload_id, number);
    assert(p.skip(p.len() - 4)[3] == 't');
    assert(".tmp"@[3] == 'p');
}

} // verus!
