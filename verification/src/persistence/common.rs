use vstd::prelude::*;
use crate::domain::error::{CommandError, ErrorCode};
use crate::text::lower;
use crate::scanner::walker::FsErrorKind;

verus! {

/// A hexadecimal digit, in either case.
pub open spec fn is_hex_digit(c: char) -> bool {
    ('0' <= c && c <= '9') || ('a' <= c && c <= 'f') || ('A' <= c && c <= 'F')
}

/// Thirty-two hexadecimal digits.
pub open spec fn simple_uuid_text(s: Seq<char>) -> bool {
    s.len() == 32 && forall|i: int| 0 <= i < 32 ==> is_hex_digit(#[trigger] s[i])
}

/// Hexadecimal digits in groups of 8, 4, 4, 4 and 12, joined by hyphens.
pub open spec fn hyphenated_uuid_text(s: Seq<char>) -> bool {
    &&& s.len() == 36
    &&& forall|i: int| 0 <= i < 36 ==> if i == 8 || i == 13 || i == 18 || i == 23 {
        #[trigger] s[i] == '-'
    } else {
        is_hex_digit(s[i])
    }
}

/// Whether `uuid::Uuid::parse_str` accepts a text: 32 hexadecimal digits,
/// the hyphenated form, the hyphenated form in braces, or the hyphenated
/// form after `urn:uuid:` (that prefix in any ASCII case).
pub open spec fn uuid_parses(s: Seq<char>) -> bool {
    ||| simple_uuid_text(s)
    ||| hyphenated_uuid_text(s)
    ||| s.len() == 38 && s[0] == '{' && s[37] == '}' && hyphenated_uuid_text(s.subrange(1, 37))
    ||| s.len() == 45 && lower(s.take(9)) == "urn:uuid:"@ && hyphenated_uuid_text(s.skip(9))
}

/// `uuid::Uuid::parse_str(s).is_ok()`: the crate's parser (`try_parse` in
/// its parser module) accepts exactly the four forms of `uuid_parses`, with
/// hexadecimal digits of either case.
#[verifier::external_body]
pub(crate) fn parse_uuid(s: &str) -> (r: bool)
    ensures
        r == uuid_parses(s@),
{
    uuid::Uuid::parse_str(s).is_ok()
}

/// A page of a list: the items from `offset` on, at most `limit` of them.
pub open spec fn page<T>(items: Seq<T>, offset: int, limit: int) -> Seq<T> {
    if offset >= items.len() {
        Seq::empty()
    } else {
        let rest = items.subrange(offset, items.len() as int);
        if limit < rest.len() { rest.subrange(0, limit) } else { rest }
    }
}

/// The items from `offset` on, at most `limit` of them.
pub fn page_of<T>(items: Vec<T>, offset: usize, limit: usize) -> (r: Vec<T>)
    ensures
        r@ == page(items@, offset as int, limit as int),
{
    let mut items = items;
    if offset >= items.len() {
        return Vec::new();
    }
    let mut rest = items.split_off(offset);
    rest.truncate(limit);
    rest
}

/// The error code of a failed local data access: missing, denied, or another failure.
pub open spec fn data_access_code(kind: FsErrorKind) -> ErrorCode {
    match kind {
        FsErrorKind::NotFound => ErrorCode::PathNotFound,
        FsErrorKind::PermissionDenied => ErrorCode::PermissionDenied,
        FsErrorKind::Other => ErrorCode::FilesystemError,
    }
}

/// The details of a failed operation: the operation's name, `": "`, and the system's description.
pub open spec fn operation_details(operation: Seq<char>, details: Seq<char>) -> Seq<char> {
    operation + ": "@ + details
}

/// A recoverable error with the given code and message whose details name
/// the operation that failed.
pub fn operation_error(code: ErrorCode, message: &str, operation: &str, details: &str) -> (e: CommandError)
    ensures
        e.code == code,
        e.message@ == message@,
        e.recoverable,
        e.path is None,
        e.details matches Some(d) && d@ == operation_details(operation@, details@),
{
    let mut text = String::from_str(operation);
    text.append(": ");
    text.append(details);
    CommandError { code, message: String::from_str(message), recoverable: true, path: None, details: Some(text) }
}

} // verus!
