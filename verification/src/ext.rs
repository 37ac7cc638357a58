//! Calls into the `regex`, `url` and `serde_json` crates. Each function here
//! is trusted: its contract is believed, not proved, and it names the
//! outside function's result where that result takes more than a few lines
//! to state.
use vstd::prelude::*;
use crate::text::views;

verus! {

/// Text of the leftmost-first match of `pattern` in `haystack` under the
/// `regex` crate's matching rules (`Regex::find`); `None` when there is no
/// match or when `pattern` does not compile.
pub uninterp spec fn regex_first_match(pattern: Seq<char>, haystack: Seq<char>) -> Option<Seq<char>>;

/// Texts of the successive non-overlapping matches of `pattern` in
/// `haystack` (`Regex::find_iter`); empty when `pattern` does not compile.
pub uninterp spec fn regex_all_matches(pattern: Seq<char>, haystack: Seq<char>) -> Seq<Seq<char>>;

/// `Regex::new(pattern)` then `Regex::find` on each haystack, keeping the
/// matched text (`Match::as_str`). Claims: one result per haystack, each the
/// named `regex_first_match` of the pattern and that haystack.
#[verifier::external_body]
pub(crate) fn regex_find_each(pattern: &str, haystacks: &Vec<String>) -> (r: Vec<Option<String>>)
    ensures
        r@.len() == haystacks@.len(),
        forall|i: int|
            0 <= i < r@.len() ==> (#[trigger] r@[i] is Some) == (regex_first_match(
                pattern@,
                haystacks@[i]@,
            ) is Some),
        forall|i: int|
            0 <= i < r@.len() ==> (#[trigger] r@[i] matches Some(m) ==> m@ == regex_first_match(
                pattern@,
                haystacks@[i]@,
            )->0),
{
    match regex::Regex::new(pattern) {
        Ok(re) => haystacks.iter().map(|h| re.find(h).map(|m| m.as_str().to_string())).collect(),
        Err(_) => haystacks.iter().map(|_| None).collect(),
    }
}

/// `Regex::new(pattern)` then `Regex::find_iter(haystack)`, keeping each
/// matched text. Claims: the texts are the named `regex_all_matches`.
#[verifier::external_body]
pub(crate) fn regex_find_all(pattern: &str, haystack: &str) -> (r: Vec<String>)
    ensures
        views(r@) == regex_all_matches(pattern@, haystack@),
{
    match regex::Regex::new(pattern) {
        Ok(re) => re.find_iter(haystack).map(|m| m.as_str().to_string()).collect(),
        Err(_) => Vec::new(),
    }
}

/// What `url::Url::parse(input)` gives, as plain text: its serialization
/// (`as_str`), its `scheme()`, its `domain()` and its
/// `port_or_known_default()`; `None` when parsing fails.
pub uninterp spec fn url_parse(input: Seq<char>) -> Option<(Seq<char>, Seq<char>, Option<Seq<char>>, Option<u16>)>;

/// The serialization of `base` parsed by `url::Url::parse`, after
/// `set_path(path)`, `set_query(None)` and `set_fragment(None)`; `None`
/// when `base` does not parse.
pub uninterp spec fn url_path_replaced(base: Seq<char>, path: Seq<char>) -> Option<Seq<char>>;

/// `url::ParseError`, the error of `Url::parse`.
#[verifier::external_type_specification]
#[verifier::external_body]
pub struct ExUrlParseError(url::ParseError);

/// A parsed URL, as the plain values the patrol logic reads.
pub struct UrlParts {
    pub serialization: String,
    pub scheme: String,
    pub domain: Option<String>,
    pub port: Option<u16>,
}

/// The plain values of a parsed URL.
pub open spec fn url_parts_view(p: UrlParts) -> (Seq<char>, Seq<char>, Option<Seq<char>>, Option<u16>) {
    (
        p.serialization@,
        p.scheme@,
        match p.domain {
            Some(d) => Some(d@),
            None => None,
        },
        p.port,
    )
}

/// `url::Url::parse`. Claims: it succeeds exactly when the named
/// `url_parse` is `Some`, and then yields those values. Which
/// `url::ParseError` a failure carries is left unsaid.
#[verifier::external_body]
pub(crate) fn parse_url(input: &str) -> (r: Result<UrlParts, url::ParseError>)
    ensures
        r is Ok <==> url_parse(input@) is Some,
        r matches Ok(p) ==> url_parts_view(p) == url_parse(input@)->0,
{
    match url::Url::parse(input) {
        Ok(u) => Ok(UrlParts {
            serialization: u.as_str().to_string(),
            scheme: u.scheme().to_string(),
            domain: u.domain().map(|d| d.to_string()),
            port: u.port_or_known_default(),
        }),
        Err(e) => Err(e),
    }
}

/// `url::Url::parse(base)` followed by `set_path(path)`, `set_query(None)`,
/// `set_fragment(None)` and serialization. Claims: the result is the named
/// `url_path_replaced` of the two texts.
#[verifier::external_body]
pub(crate) fn url_with_path(base: &str, path: &str) -> (r: Option<String>)
    ensures
        r is Some <==> url_path_replaced(base@, path@) is Some,
        r matches Some(s) ==> s@ == url_path_replaced(base@, path@)->0,
{
    match url::Url::parse(base) {
        Ok(mut u) => {
            u.set_path(path);
            u.set_query(None);
            u.set_fragment(None);
            Some(u.to_string())
        },
        Err(_) => None,
    }
}

/// What `serde_json::from_str::<Vec<String>>(text)` gives; `None` when it fails.
pub uninterp spec fn json_string_list(text: Seq<char>) -> Option<Seq<Seq<char>>>;

/// What `serde_json::to_string` gives for a list of strings (compact JSON).
pub uninterp spec fn json_compact(items: Seq<Seq<char>>) -> Seq<char>;

/// What `serde_json::to_string_pretty` gives for a list of strings.
pub uninterp spec fn json_pretty(items: Seq<Seq<char>>) -> Seq<char>;

/// `serde_json::from_str::<Vec<String>>`. Claims: it succeeds exactly when
/// the named `json_string_list` is `Some`, and then yields those strings.
#[verifier::external_body]
pub(crate) fn parse_json_string_list(text: &str) -> (r: Option<Vec<String>>)
    ensures
        r is Some <==> json_string_list(text@) is Some,
        r matches Some(v) ==> views(v@) == json_string_list(text@)->0,
{
    match serde_json::from_str::<Vec<String>>(text) {
        Ok(v) => Some(v),
        Err(_) => None,
    }
}

/// `serde_json::to_string` on a list of strings, which cannot fail for it.
/// Claims: the text is the named `json_compact` of the strings.
#[verifier::external_body]
pub(crate) fn json_compact_list(items: &Vec<String>) -> (r: String)
    ensures
        r@ == json_compact(views(items@)),
{
    match serde_json::to_string(items) {
        Ok(s) => s,
        Err(_) => String::new(),
    }
}

/// `serde_json::to_string_pretty` on a list of strings, which cannot fail
/// for it. Claims: the text is the named `json_pretty` of the strings.
#[verifier::external_body]
pub(crate) fn json_pretty_list(items: &Vec<String>) -> (r: String)
    ensures
        r@ == json_pretty(views(items@)),
{
    match serde_json::to_string_pretty(items) {
        Ok(s) => s,
        Err(_) => String::new(),
    }
}

} // verus!
