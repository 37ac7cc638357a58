//! The authorized scope of a case: the list of http(s) URLs that the web
//! patrol may visit.
use vstd::prelude::*;
use crate::ext::{json_pretty, json_pretty_list, json_string_list, parse_json_string_list, parse_url, url_parse};
use crate::text::{push_text, text_eq, views};

verus! {

/// The scope a scope file holds: its JSON list of strings, or an empty
/// scope when the text is not such a list.
pub open spec fn scope_of_json(text: Seq<char>) -> Seq<Seq<char>> {
    match json_string_list(text) {
        Some(v) => v,
        None => Seq::empty(),
    }
}

/// The scope held by the text of a scope file.
pub fn scope_from_json(text: &str) -> (r: Vec<String>)
    ensures
        views(r@) == scope_of_json(text@),
{
    match parse_json_string_list(text) {
        Some(v) => v,
        None => {
            let v: Vec<String> = Vec::new();
            proof {
                assert(views(v@) =~= Seq::<Seq<char>>::empty());
            }
            v
        },
    }
}

/// The text of a scope file holding the scope (pretty-printed JSON).
pub fn scope_to_json(scope: &Vec<String>) -> (r: String)
    ensures
        r@ == json_pretty(views(scope@)),
{
    json_pretty_list(scope)
}

/// Why a URL cannot join the scope.
pub enum ScopeError {
    /// The URL does not parse.
    InvalidUrl(url::ParseError),
    /// Only http and https URLs are supported.
    UnsupportedScheme,
}

/// The scope after adding a URL: the URL's normalized form joins the
/// scope unless it is already there; `None` when the URL does not parse or
/// is not http or https.
pub open spec fn scope_after_add(scope: Seq<Seq<char>>, url: Seq<char>) -> Option<(Seq<Seq<char>>, Seq<char>)> {
    match url_parse(url) {
        Some(p) => if p.1 != "http"@ && p.1 != "https"@ {
            None
        } else if scope.contains(p.0) {
            Some((scope, p.0))
        } else {
            Some((scope.push(p.0), p.0))
        },
        None => None,
    }
}

fn contains_text_item(scope: &Vec<String>, item: &str) -> (r: bool)
    ensures
        r == views(scope@).contains(item@),
{
    let mut i: usize = 0;
    while i < scope.len()
        invariant
            i <= scope@.len(),
            forall|k: int| 0 <= k < i ==> (#[trigger] scope@[k])@ != item@,
        decreases scope@.len() - i,
    {
        if text_eq(scope[i].as_str(), item) {
            proof {
                assert(views(scope@)[i as int] == item@);
            }
            return true;
        }
        i = i + 1;
    }
    proof {
        if views(scope@).contains(item@) {
            let k = choose|k: int| 0 <= k < views(scope@).len() && views(scope@)[k] == item@;
            assert(scope@[k]@ == item@);
        }
    }
    false
}

/// Adds a URL to the scope: it must parse as an http or https URL; its
/// normalized form joins the scope unless already there. Returns the new
/// scope and the normalized URL.
pub fn add_to_scope(scope: Vec<String>, url: &str) -> (r: Result<(Vec<String>, String), ScopeError>)
    ensures
        r matches Err(ScopeError::InvalidUrl(_)) <==> url_parse(url@) is None,
        r matches Err(ScopeError::UnsupportedScheme) <==> (url_parse(url@) is Some
            && scope_after_add(views(scope@), url@) is None),
        r matches Ok((s, clean)) ==> scope_after_add(views(scope@), url@) == Some(
            (views(s@), clean@),
        ),
        r is Ok <==> scope_after_add(views(scope@), url@) is Some,
{
    let parsed = match parse_url(url) {
        Ok(p) => p,
        Err(e) => {
            return Err(ScopeError::InvalidUrl(e));
        },
    };
    if !text_eq(parsed.scheme.as_str(), "http") && !text_eq(parsed.scheme.as_str(), "https") {
        return Err(ScopeError::UnsupportedScheme);
    }
    let clean = parsed.serialization;
    let mut scope = scope;
    if !contains_text_item(&scope, clean.as_str()) {
        let ghost old_scope = scope@;
        let c2 = clean.clone();
        scope.push(c2);
        proof {
            assert(views(scope@) =~= views(old_scope).push(clean@));
        }
    }
    Ok((scope, clean))
}

/// No entry of the scope occurs twice.
pub open spec fn no_repeats(scope: Seq<Seq<char>>) -> bool {
    forall|i: int, j: int| 0 <= i < j < scope.len() ==> scope[i] != scope[j]
}

/// Adding a URL that was just added changes nothing: the scope and the
/// normalized URL stay the same.
pub proof fn law_add_is_idempotent(scope: Seq<Seq<char>>, url: Seq<char>)
    requires
        scope_after_add(scope, url) is Some,
    ensures
        ({
            let (s1, c1) = scope_after_add(scope, url)->0;
            scope_after_add(s1, url) == Some((s1, c1))
        }),
{
    let p = url_parse(url)->0;
    let s1 = (scope_after_add(scope, url)->0).0;
    if !scope.contains(p.0) {
        assert(s1[s1.len() - 1] == p.0);
        assert(s1.contains(p.0));
    }
}

/// Adding a URL keeps every earlier entry in place, and afterwards the
/// normalized URL is in the scope.
pub proof fn law_add_keeps_entries(scope: Seq<Seq<char>>, url: Seq<char>)
    requires
        scope_after_add(scope, url) is Some,
    ensures
        ({
            let (s1, c1) = scope_after_add(scope, url)->0;
            &&& s1.take(scope.len() as int) == scope
            &&& s1.len() <= scope.len() + 1
            &&& s1.contains(c1)
        }),
{
    let p = url_parse(url)->0;
    let s1 = (scope_after_add(scope, url)->0).0;
    if scope.contains(p.0) {
        assert(s1.take(scope.len() as int) =~= scope);
    } else {
        assert(s1.take(scope.len() as int) =~= scope);
        assert(s1[s1.len() - 1] == p.0);
    }
}

/// A scope without repeated entries stays so after an add.
pub proof fn law_add_never_repeats(scope: Seq<Seq<char>>, url: Seq<char>)
    requires
        no_repeats(scope),
        scope_after_add(scope, url) is Some,
    ensures
        no_repeats((scope_after_add(scope, url)->0).0),
{
    let p = url_parse(url)->0;
    let s1 = (scope_after_add(scope, url)->0).0;
    if !scope.contains(p.0) {
        assert forall|i: int, j: int| 0 <= i < j < s1.len() implies s1[i] != s1[j] by {
            if j == scope.len() {
                assert(s1[i] == scope[i]);
                assert(s1[j] == p.0);
            } else {
                assert(s1[i] == scope[i]);
                assert(s1[j] == scope[j]);
            }
        }
    }
}

/// Whether two URLs share their origin: both parse, with the same scheme,
/// the same domain (`None` for a non-domain host) and the same port or
/// known default port.
pub open spec fn same_origin_of(base: Seq<char>, candidate: Seq<char>) -> bool {
    match (url_parse(base), url_parse(candidate)) {
        (Some(a), Some(b)) => a.1 == b.1 && a.2 == b.2 && a.3 == b.3,
        _ => false,
    }
}

fn same_domain(a: &Option<String>, b: &Option<String>) -> (r: bool)
    ensures
        r == (match (a, b) {
            (Some(x), Some(y)) => x@ == y@,
            (None, None) => true,
            _ => false,
        }),
{
    match (a, b) {
        (Some(x), Some(y)) => text_eq(x.as_str(), y.as_str()),
        (None, None) => true,
        _ => false,
    }
}

/// Whether `candidate` has the same origin as `base`.
pub fn same_origin(base: &str, candidate: &str) -> (r: bool)
    ensures
        r == same_origin_of(base@, candidate@),
{
    let a = parse_url(base);
    let b = parse_url(candidate);
    match (a, b) {
        (Ok(a), Ok(b)) => {
            let dom = same_domain(&a.domain, &b.domain);
            proof {
                assert(dom == (match (a.domain, b.domain) {
                    (Some(x), Some(y)) => x@ == y@,
                    (None, None) => true,
                    _ => false,
                }));
                let da = crate::ext::url_parts_view(a).2;
                let db = crate::ext::url_parts_view(b).2;
                assert(dom == (da == db));
            }
            text_eq(a.scheme.as_str(), b.scheme.as_str()) && dom && a.port == b.port
        },
        _ => false,
    }
}

/// Sharing an origin does not depend on the order of the two URLs.
pub proof fn law_same_origin_symmetric(a: Seq<char>, b: Seq<char>)
    ensures
        same_origin_of(a, b) == same_origin_of(b, a),
{
}

/// A URL that parses has its own origin; one that does not parse shares
/// no origin.
pub proof fn law_same_origin_reflexive(a: Seq<char>)
    ensures
        same_origin_of(a, a) == (url_parse(a) is Some),
{
}

/// The lines that show a scope: a heading, `  [empty]` for an empty scope,
/// then one `  - <url>` line per entry.
pub open spec fn scope_listing_of(scope: Seq<Seq<char>>) -> Seq<Seq<char>> {
    seq!["AUTHORIZED SCOPE"@] + (if scope.len() == 0 {
        seq!["  [empty]"@]
    } else {
        Seq::empty()
    }) + scope.map_values(|s: Seq<char>| "  - "@ + s)
}

/// The lines that show a scope.
pub fn scope_listing(scope: &Vec<String>) -> (r: Vec<String>)
    ensures
        views(r@) == scope_listing_of(views(scope@)),
{
    let mut r: Vec<String> = Vec::new();
    r.push("AUTHORIZED SCOPE".to_owned());
    if scope.len() == 0 {
        r.push("  [empty]".to_owned());
    }
    let ghost head = views(r@);
    proof {
        assert(head =~= seq!["AUTHORIZED SCOPE"@] + (if scope@.len() == 0 {
            seq!["  [empty]"@]
        } else {
            Seq::empty()
        }));
    }
    let mut i: usize = 0;
    while i < scope.len()
        invariant
            i <= scope@.len(),
            views(r@) == head + views(scope@.take(i as int)).map_values(|s: Seq<char>| "  - "@ + s),
        decreases scope@.len() - i,
    {
        let mut line = "  - ".to_owned();
        push_text(&mut line, scope[i].as_str());
        proof {
            assert(views(scope@.take(i as int + 1)).map_values(|s: Seq<char>| "  - "@ + s)
                =~= views(scope@.take(i as int)).map_values(|s: Seq<char>| "  - "@ + s).push(
                line@,
            ));
            assert(views(r@.push(line)) =~= views(r@).push(line@));
        }
        r.push(line);
        i = i + 1;
    }
    proof {
        assert(scope@.take(i as int) =~= scope@);
    }
    r
}

} // verus!
