//! The wall clock, read through `chrono`. Which moment a call sees is not
//! known in advance, so the contracts state only the shape of the text that
//! every moment gives.
use vstd::prelude::*;

verus! {

/// A character that `%Y`, `%m`, `%d`, `%H`, `%M`, `%S` and the separator
/// `_` can write: a digit, the separator, or the sign of a year outside
/// 0000..=9999.
pub open spec fn is_stamp_char(c: char) -> bool {
    ('0' <= c && c <= '9') || c == '_' || c == '+' || c == '-'
}

/// The shape of a `%Y%m%d_%H%M%S` stamp: at least 15 characters, the `_`
/// seven from the end (before `HHMMSS`), and only stamp characters.
pub open spec fn stamp_shape(s: Seq<char>) -> bool {
    &&& s.len() >= 15
    &&& s[s.len() - 7] == '_'
    &&& forall|i: int| 0 <= i < s.len() ==> is_stamp_char(#[trigger] s[i])
}

/// A character of an RFC 3339 UTC time with whole seconds.
pub open spec fn is_iso_char(c: char) -> bool {
    ('0' <= c && c <= '9') || c == '-' || c == '+' || c == ':' || c == 'T' || c == 'Z'
}

/// The shape of an RFC 3339 UTC time with whole seconds and a `Z` zone
/// (`YYYY-MM-DDTHH:MM:SSZ`): at least 20 characters, `T` ten from the end,
/// `Z` last, and only digits, `-`, `+`, `:`, `T` and `Z`.
pub open spec fn iso_shape(s: Seq<char>) -> bool {
    &&& s.len() >= 20
    &&& s[s.len() - 10] == 'T'
    &&& s[s.len() - 1] == 'Z'
    &&& forall|i: int| 0 <= i < s.len() ==> is_iso_char(#[trigger] s[i])
}

/// `chrono::Utc::now()` written by `to_rfc3339_opts(SecondsFormat::Secs,
/// true)`, such as `2024-01-01T12:00:00Z`. Claims only the shape that
/// `write_rfc3339` gives every UTC time (two-digit fields, a four-digit or
/// signed year, `Z` for the zero offset); which time is left unsaid.
#[verifier::external_body]
pub(crate) fn now_iso() -> (r: String)
    ensures
        iso_shape(r@),
{
    chrono::Utc::now().to_rfc3339_opts(chrono::SecondsFormat::Secs, true)
}

/// `chrono::Local::now()` formatted with `%Y%m%d_%H%M%S`, such as
/// `20240101_120000`. Claims only the shape that the `strftime` table
/// documents for these specifiers (a year zero-padded to 4 digits, signed
/// outside 0000..=9999, then two-digit fields); which time is left unsaid.
#[verifier::external_body]
pub(crate) fn now_stamp() -> (r: String)
    ensures
        stamp_shape(r@),
{
    chrono::Local::now().format("%Y%m%d_%H%M%S").to_string()
}

} // verus!
