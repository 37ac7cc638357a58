//! Web patrol: what a response to an authorized URL shows (security
//! headers, cookie flags, password forms) and the findings it yields, and
//! which common sensitive paths are probed.
use vstd::prelude::*;
use crate::ext::{url_path_replaced, url_with_path};
use crate::models::{finding_view, new_finding, Finding, WebObservation};
use crate::scope::{same_origin, same_origin_of};
use crate::text::{
    byte_prefix, chars_of, contains_exec, lemma_byte_prefix_len, contains_text, count_exec, count_from, decimal,
    decimal_u128, decimal_u64, ends_with, ends_with_exec, lowercase, prefix_fit_exec, push_text,
    starts_with, starts_with_exec, string_from_range, text_eq, to_lowercase, utf8_len,
    utf8_len_exceeds, views,
};
use crate::util::prefix_on_boundary;

verus! {

/// One response header: its name in lower case (as `HeaderMap` keeps it)
/// and its value when the value is visible ASCII text (what
/// `HeaderValue::to_str` accepts), `None` otherwise. Headers of one name
/// keep their order.
pub struct HeaderEntry {
    pub name: String,
    pub value: Option<String>,
}

/// The text of a header value, when it has one.
pub open spec fn value_view(e: HeaderEntry) -> Option<Seq<char>> {
    match e.value {
        Some(v) => Some(v@),
        None => None,
    }
}

/// Index of the first header named `name` at or after `i` (what `HeaderMap::get` reads).
pub open spec fn first_header_from(hs: Seq<HeaderEntry>, name: Seq<char>, i: int) -> Option<int>
    decreases hs.len() - i,
{
    if i < 0 || i >= hs.len() {
        None
    } else if hs[i].name@ == name {
        Some(i)
    } else {
        first_header_from(hs, name, i + 1)
    }
}

/// The first header named `name`.
pub open spec fn header_get(hs: Seq<HeaderEntry>, name: Seq<char>) -> Option<HeaderEntry> {
    match first_header_from(hs, name, 0) {
        Some(i) => Some(hs[i]),
        None => None,
    }
}

proof fn lemma_first_header_bounds(hs: Seq<HeaderEntry>, name: Seq<char>, i: int)
    requires
        0 <= i,
    ensures
        first_header_from(hs, name, i) matches Some(j) ==> i <= j < hs.len() && hs[j].name@ == name,
    decreases hs.len() - i,
{
    if i < hs.len() && hs[i].name@ != name {
        lemma_first_header_bounds(hs, name, i + 1);
    }
}

/// The first header named `name`, when there is one.
pub fn get_header(hs: &Vec<HeaderEntry>, name: &str) -> (r: Option<usize>)
    ensures
        r matches Some(i) ==> first_header_from(hs@, name@, 0) == Some(i as int) && i < hs@.len(),
        r is None ==> first_header_from(hs@, name@, 0) is None,
{
    let mut i: usize = 0;
    while i < hs.len()
        invariant
            i <= hs@.len(),
            first_header_from(hs@, name@, 0) == first_header_from(hs@, name@, i as int),
        decreases hs@.len() - i,
    {
        if text_eq(hs[i].name.as_str(), name) {
            return Some(i);
        }
        i = i + 1;
    }
    None
}

/// The headers shown in a web observation, in order.
pub open spec fn summary_headers() -> Seq<Seq<char>> {
    seq![
        "strict-transport-security"@,
        "content-security-policy"@,
        "x-frame-options"@,
        "x-content-type-options"@,
        "referrer-policy"@,
        "permissions-policy"@,
        "server"@,
        "x-powered-by"@,
    ]
}

fn summary_header(k: usize) -> (r: &'static str)
    requires
        k < 8,
    ensures
        r@ == summary_headers()[k as int],
{
    if k == 0 {
        "strict-transport-security"
    } else if k == 1 {
        "content-security-policy"
    } else if k == 2 {
        "x-frame-options"
    } else if k == 3 {
        "x-content-type-options"
    } else if k == 4 {
        "referrer-policy"
    } else if k == 5 {
        "permissions-policy"
    } else if k == 6 {
        "server"
    } else {
        "x-powered-by"
    }
}

/// Items joined by a separator.
pub open spec fn join_with(items: Seq<Seq<char>>, sep: Seq<char>) -> Seq<char>
    decreases items.len(),
{
    if items.len() == 0 {
        Seq::empty()
    } else if items.len() == 1 {
        items[0]
    } else {
        join_with(items.drop_last(), sep) + sep + items.last()
    }
}

fn join_exec(items: &Vec<String>, sep: &str) -> (r: String)
    ensures
        r@ == join_with(views(items@), sep@),
{
    let mut r = String::new();
    let mut i: usize = 0;
    while i < items.len()
        invariant
            i <= items@.len(),
            r@ == join_with(views(items@.take(i as int)), sep@),
        decreases items@.len() - i,
    {
        proof {
            let t = views(items@.take(i as int + 1));
            assert(t.drop_last() =~= views(items@.take(i as int)));
            assert(t.last() == items@[i as int]@);
            if i == 0 {
                assert(views(items@.take(0)) =~= Seq::<Seq<char>>::empty());
            }
        }
        if i > 0 {
            push_text(&mut r, sep);
        }
        push_text(&mut r, items[i].as_str());
        proof {
            if i == 0 {
                assert(r@ =~= views(items@.take(1))[0]);
            }
        }
        i = i + 1;
    }
    proof {
        assert(items@.take(i as int) =~= items@);
    }
    r
}

/// The `name=value` item of a present summary header (`[binary]` for a
/// value that is not visible ASCII).
pub open spec fn header_item(name: Seq<char>, e: HeaderEntry) -> Seq<char> {
    name + "="@ + match value_view(e) {
        Some(v) => v,
        None => "[binary]"@,
    }
}

/// The items of the summary headers from position `k` on that are present.
pub open spec fn header_items_from(hs: Seq<HeaderEntry>, k: int) -> Seq<Seq<char>>
    decreases 8 - k,
{
    if k < 0 || k >= 8 {
        Seq::empty()
    } else {
        (match header_get(hs, summary_headers()[k]) {
            Some(e) => seq![header_item(summary_headers()[k], e)],
            None => Seq::empty(),
        }) + header_items_from(hs, k + 1)
    }
}

/// The header summary of a response: the present summary headers as
/// `name=value`, joined by `; `.
pub open spec fn header_summary_of(hs: Seq<HeaderEntry>) -> Seq<char> {
    join_with(header_items_from(hs, 0), "; "@)
}

/// Summarizes the security-relevant headers of a response.
pub fn summarize_headers(headers: &Vec<HeaderEntry>) -> (r: String)
    ensures
        r@ == header_summary_of(headers@),
{
    let mut out: Vec<String> = Vec::new();
    let mut k: usize = 0;
    while k < 8
        invariant
            k <= 8,
            header_items_from(headers@, 0) == views(out@) + header_items_from(headers@, k as int),
        decreases 8 - k,
    {
        let h = summary_header(k);
        match get_header(headers, h) {
            Some(i) => {
                let e = &headers[i];
                let mut item = h.to_owned();
                push_text(&mut item, "=");
                match &e.value {
                    Some(v) => push_text(&mut item, v.as_str()),
                    None => push_text(&mut item, "[binary]"),
                }
                proof {
                    assert(header_get(headers@, h@) == Some(headers@[i as int]));
                    assert(item@ == header_item(h@, headers@[i as int]));
                    assert(views(out@.push(item)) =~= views(out@).push(item@));
                    assert(views(out@) + header_items_from(headers@, k as int) =~= views(out@).push(
                        item@,
                    ) + header_items_from(headers@, k + 1));
                }
                out.push(item);
            },
            None => {
                proof {
                    assert(header_items_from(headers@, k as int) =~= header_items_from(
                        headers@,
                        k + 1,
                    ));
                }
            },
        }
        k = k + 1;
    }
    proof {
        assert(views(out@) =~= views(out@) + header_items_from(headers@, 8));
    }
    join_exec(&out, "; ")
}

/// The texts of the `set-cookie` headers whose value is visible ASCII, in order.
pub open spec fn cookie_texts(hs: Seq<HeaderEntry>) -> Seq<Seq<char>>
    decreases hs.len(),
{
    if hs.len() == 0 {
        Seq::empty()
    } else {
        cookie_texts(hs.drop_last()) + if hs.last().name@ == "set-cookie"@ && hs.last().value is Some {
            seq![hs.last().value->0@]
        } else {
            Seq::empty()
        }
    }
}

fn cookies_of(headers: &Vec<HeaderEntry>) -> (r: Vec<String>)
    ensures
        views(r@) == cookie_texts(headers@),
{
    let mut out: Vec<String> = Vec::new();
    let mut i: usize = 0;
    while i < headers.len()
        invariant
            i <= headers@.len(),
            views(out@) == cookie_texts(headers@.take(i as int)),
        decreases headers@.len() - i,
    {
        proof {
            let t = headers@.take(i as int + 1);
            assert(t.drop_last() =~= headers@.take(i as int));
            assert(t.last() == headers@[i as int]);
        }
        if text_eq(headers[i].name.as_str(), "set-cookie") {
            match &headers[i].value {
                Some(v) => {
                    let c = v.clone();
                    proof {
                        assert(views(out@.push(c)) =~= views(out@).push(c@));
                    }
                    out.push(c);
                },
                None => {
                    proof {
                        assert(views(out@) =~= views(out@) + Seq::<Seq<char>>::empty());
                    }
                },
            }
        } else {
            proof {
                assert(views(out@) =~= views(out@) + Seq::<Seq<char>>::empty());
            }
        }
        i = i + 1;
    }
    proof {
        assert(headers@.take(i as int) =~= headers@);
    }
    out
}

/// The cookies a response sets, joined by ` | `.
pub fn summarize_cookies(headers: &Vec<HeaderEntry>) -> (r: String)
    ensures
        r@ == join_with(cookie_texts(headers@), " | "@),
{
    let cs = cookies_of(headers);
    join_exec(&cs, " | ")
}

/// Forms and password inputs of a page, counted on its lowercase form.
pub open spec fn forms_summary_of(lower: Seq<char>) -> Seq<char> {
    "forms="@ + decimal(count_from(lower, "<form"@, 0)) + " password_inputs="@ + decimal(
        count_from(lower, "type=\"password\""@, 0) + count_from(lower, "type='password'"@, 0),
    )
}

/// Counts the forms and password inputs of a page given its lowercase form.
pub fn forms_summary(lower: &str) -> (r: String)
    ensures
        r@ == forms_summary_of(lower@),
{
    proof {
        reveal_strlit("<form");
        reveal_strlit("type=\"password\"");
        reveal_strlit("type='password'");
    }
    let l = chars_of(lower);
    let forms = count_exec(&l, &chars_of("<form"));
    let dq = count_exec(&l, &chars_of("type=\"password\""));
    let sq = count_exec(&l, &chars_of("type='password'"));
    let mut r = "forms=".to_owned();
    push_text(&mut r, decimal_u64(forms as u64).as_str());
    push_text(&mut r, " password_inputs=");
    push_text(&mut r, decimal_u128(dq as u128 + sq as u128).as_str());
    r
}

/// Counts the forms and password inputs of a page (case-insensitively).
pub fn summarize_forms(body: &str) -> (r: String)
    ensures
        r@ == forms_summary_of(lowercase(body@)),
{
    let lower = to_lowercase(body);
    forms_summary(lower.as_str())
}

/// The finding of the web patrol about a URL: the URL is both detail and evidence.
pub open spec fn web_finding_of(
    severity: Seq<char>,
    category: Seq<char>,
    title: Seq<char>,
    url: Seq<char>,
    recommendation: Seq<char>,
) -> (Seq<char>, Seq<char>, Seq<char>, Seq<char>, Seq<char>, Seq<char>, Seq<char>) {
    (severity, "web"@, category, title, url, recommendation, url)
}

/// A finding of the web patrol about a URL.
pub fn web_finding(severity: &str, category: &str, title: &str, evidence: &str, rec: &str) -> (f: Finding)
    ensures
        finding_view(f) == web_finding_of(severity@, category@, title@, evidence@, rec@),
{
    new_finding(severity, "web", category, title, evidence.to_owned(), rec, evidence.to_owned())
}

/// The headers whose absence is a finding: (header, severity, title, recommendation).
pub open spec fn required_headers() -> Seq<(Seq<char>, Seq<char>, Seq<char>, Seq<char>)> {
    seq![
        ("strict-transport-security"@, "medium"@, "Missing HSTS header"@, "Enable Strict-Transport-Security on HTTPS sites."@),
        ("content-security-policy"@, "medium"@, "Missing Content-Security-Policy"@, "Add a CSP adapted to the application."@),
        ("x-content-type-options"@, "low"@, "Missing X-Content-Type-Options"@, "Set X-Content-Type-Options: nosniff."@),
        ("referrer-policy"@, "low"@, "Missing Referrer-Policy"@, "Set a privacy-aware Referrer-Policy."@),
    ]
}

fn required_header(k: usize) -> (r: (&'static str, &'static str, &'static str, &'static str))
    requires
        k < 4,
    ensures
        (r.0@, r.1@, r.2@, r.3@) == required_headers()[k as int],
{
    if k == 0 {
        ("strict-transport-security", "medium", "Missing HSTS header", "Enable Strict-Transport-Security on HTTPS sites.")
    } else if k == 1 {
        ("content-security-policy", "medium", "Missing Content-Security-Policy", "Add a CSP adapted to the application.")
    } else if k == 2 {
        ("x-content-type-options", "low", "Missing X-Content-Type-Options", "Set X-Content-Type-Options: nosniff.")
    } else {
        ("referrer-policy", "low", "Missing Referrer-Policy", "Set a privacy-aware Referrer-Policy.")
    }
}

/// A finding view.
pub type FindingText = (Seq<char>, Seq<char>, Seq<char>, Seq<char>, Seq<char>, Seq<char>, Seq<char>);

/// Findings for the required headers from position `k` on that are missing.
pub open spec fn missing_header_findings(url: Seq<char>, hs: Seq<HeaderEntry>, k: int) -> Seq<FindingText>
    decreases 4 - k,
{
    if k < 0 || k >= 4 {
        Seq::empty()
    } else {
        let (h, sev, title, rec) = required_headers()[k];
        (if header_get(hs, h) is None {
            seq![web_finding_of(sev, "headers"@, title, url, rec)]
        } else {
            Seq::empty()
        }) + missing_header_findings(url, hs, k + 1)
    }
}

/// A Content-Security-Policy is weak when it allows inline code or wildcards.
pub open spec fn weak_csp(csp: Seq<char>) -> bool {
    contains_text(csp, "unsafe-inline"@) || contains_text(csp, "*"@)
}

/// Findings on the headers of a response whose final URL is or is not
/// https: HTTPS not enforced (high), each missing required header, a
/// technology disclosure header, and a weak CSP.
pub open spec fn header_findings(url: Seq<char>, hs: Seq<HeaderEntry>, https: bool) -> Seq<FindingText> {
    (if !https {
        seq![web_finding_of("high"@, "transport"@, "HTTPS not enforced on final URL"@, url, "Use HTTPS and redirect HTTP to HTTPS."@)]
    } else {
        Seq::empty()
    }) + missing_header_findings(url, hs, 0) + (if header_get(hs, "x-powered-by"@) is Some {
        seq![web_finding_of("low"@, "headers"@, "Technology disclosure header"@, url, "Remove unnecessary X-Powered-By headers."@)]
    } else {
        Seq::empty()
    }) + (match header_get(hs, "content-security-policy"@) {
        Some(e) => match value_view(e) {
            Some(csp) => if weak_csp(csp) {
                seq![web_finding_of("medium"@, "headers"@, "Weak CSP pattern"@, url, "Review wildcard and unsafe-inline usage."@)]
            } else {
                Seq::empty()
            },
            None => Seq::empty(),
        },
        None => Seq::empty(),
    })
}

/// The views of a list of findings.
pub open spec fn finding_texts(fs: Seq<Finding>) -> Seq<FindingText> {
    fs.map_values(|f: Finding| finding_view(f))
}

fn push_finding(fs: &mut Vec<Finding>, f: Finding)
    ensures
        finding_texts(final(fs)@) == finding_texts(old(fs)@).push(finding_view(f)),
{
    let ghost fv = finding_view(f);
    fs.push(f);
    proof {
        assert(finding_texts(fs@) =~= finding_texts(old(fs)@).push(fv));
    }
}

/// The header findings about a response: a high "transport" finding when
/// its final URL is not https, then, in this order, a finding for each
/// missing security header (HSTS and CSP medium, X-Content-Type-Options and
/// Referrer-Policy low), a low finding when `x-powered-by` is sent, and a
/// medium finding when the first CSP value allows `unsafe-inline` or `*`.
pub proof fn law_header_findings_are_the_documented_ones(url: Seq<char>, hs: Seq<HeaderEntry>, https: bool)
    ensures
        header_findings(url, hs, https) == (if !https {
            seq![("high"@, "web"@, "transport"@, "HTTPS not enforced on final URL"@, url, "Use HTTPS and redirect HTTP to HTTPS."@, url)]
        } else {
            Seq::empty()
        }) + (if header_get(hs, "strict-transport-security"@) is None {
            seq![("medium"@, "web"@, "headers"@, "Missing HSTS header"@, url, "Enable Strict-Transport-Security on HTTPS sites."@, url)]
        } else {
            Seq::empty()
        }) + (if header_get(hs, "content-security-policy"@) is None {
            seq![("medium"@, "web"@, "headers"@, "Missing Content-Security-Policy"@, url, "Add a CSP adapted to the application."@, url)]
        } else {
            Seq::empty()
        }) + (if header_get(hs, "x-content-type-options"@) is None {
            seq![("low"@, "web"@, "headers"@, "Missing X-Content-Type-Options"@, url, "Set X-Content-Type-Options: nosniff."@, url)]
        } else {
            Seq::empty()
        }) + (if header_get(hs, "referrer-policy"@) is None {
            seq![("low"@, "web"@, "headers"@, "Missing Referrer-Policy"@, url, "Set a privacy-aware Referrer-Policy."@, url)]
        } else {
            Seq::empty()
        }) + (if header_get(hs, "x-powered-by"@) is Some {
            seq![("low"@, "web"@, "headers"@, "Technology disclosure header"@, url, "Remove unnecessary X-Powered-By headers."@, url)]
        } else {
            Seq::empty()
        }) + (match header_get(hs, "content-security-policy"@) {
            Some(e) => match value_view(e) {
                Some(csp) => if contains_text(csp, "unsafe-inline"@) || contains_text(csp, "*"@) {
                    seq![("medium"@, "web"@, "headers"@, "Weak CSP pattern"@, url, "Review wildcard and unsafe-inline usage."@, url)]
                } else {
                    Seq::empty()
                },
                None => Seq::empty(),
            },
            None => Seq::empty(),
        }),
{
    let t = required_headers();
    let miss = |k: int|
        if header_get(hs, t[k].0) is None {
            seq![web_finding_of(t[k].1, "headers"@, t[k].2, url, t[k].3)]
        } else {
            Seq::<FindingText>::empty()
        };
    assert(missing_header_findings(url, hs, 4) == Seq::<FindingText>::empty());
    assert(missing_header_findings(url, hs, 3) == miss(3) + missing_header_findings(url, hs, 4));
    assert(missing_header_findings(url, hs, 2) == miss(2) + missing_header_findings(url, hs, 3));
    assert(missing_header_findings(url, hs, 1) == miss(1) + missing_header_findings(url, hs, 2));
    assert(missing_header_findings(url, hs, 0) == miss(0) + missing_header_findings(url, hs, 1));
    assert(missing_header_findings(url, hs, 0) =~= miss(0) + miss(1) + miss(2) + miss(3));
}

/// The headers summarized for a response, and the common paths probed on
/// each target, in their documented order.
pub proof fn law_web_lists_are_the_documented_ones()
    ensures
        summary_headers() == seq![
            "strict-transport-security"@,
            "content-security-policy"@,
            "x-frame-options"@,
            "x-content-type-options"@,
            "referrer-policy"@,
            "permissions-policy"@,
            "server"@,
            "x-powered-by"@,
        ],
        common_paths() == seq![
            "/robots.txt"@,
            "/sitemap.xml"@,
            "/security.txt"@,
            "/.well-known/security.txt"@,
            "/.env"@,
            "/.git/config"@,
            "/backup.zip"@,
            "/config.json"@,
            "/phpinfo.php"@,
        ],
{
}

/// The findings on the headers of a response.
pub fn evaluate_headers(url: &str, headers: &Vec<HeaderEntry>, https: bool) -> (r: Vec<Finding>)
    ensures
        finding_texts(r@) == header_findings(url@, headers@, https),
{
    let mut out: Vec<Finding> = Vec::new();
    proof {
        assert(finding_texts(out@) =~= Seq::empty());
    }
    if !https {
        push_finding(&mut out, web_finding("high", "transport", "HTTPS not enforced on final URL", url, "Use HTTPS and redirect HTTP to HTTPS."));
    }
    let ghost first = finding_texts(out@);
    proof {
        assert(first =~= (if !https {
            seq![web_finding_of("high"@, "transport"@, "HTTPS not enforced on final URL"@, url@, "Use HTTPS and redirect HTTP to HTTPS."@)]
        } else {
            Seq::<FindingText>::empty()
        }));
    }
    let mut k: usize = 0;
    while k < 4
        invariant
            k <= 4,
            first + missing_header_findings(url@, headers@, 0) == finding_texts(out@)
                + missing_header_findings(url@, headers@, k as int),
        decreases 4 - k,
    {
        let (h, sev, title, rec) = required_header(k);
        if get_header(headers, h).is_none() {
            push_finding(&mut out, web_finding(sev, "headers", title, url, rec));
            proof {
                assert(missing_header_findings(url@, headers@, k as int) =~= seq![
                    web_finding_of(sev@, "headers"@, title@, url@, rec@),
                ] + missing_header_findings(url@, headers@, k + 1));
            }
        } else {
            proof {
                assert(missing_header_findings(url@, headers@, k as int) =~= missing_header_findings(
                    url@,
                    headers@,
                    k + 1,
                ));
            }
        }
        k = k + 1;
    }
    let ghost second = finding_texts(out@);
    proof {
        assert(missing_header_findings(url@, headers@, 4) =~= Seq::<FindingText>::empty());
        assert(second =~= first + missing_header_findings(url@, headers@, 0));
    }
    match get_header(headers, "x-powered-by") {
        Some(_) => {
            push_finding(&mut out, web_finding("low", "headers", "Technology disclosure header", url, "Remove unnecessary X-Powered-By headers."));
        },
        None => {},
    }
    let ghost third = finding_texts(out@);
    proof {
        assert(third =~= second + (if header_get(headers@, "x-powered-by"@) is Some {
            seq![web_finding_of("low"@, "headers"@, "Technology disclosure header"@, url@, "Remove unnecessary X-Powered-By headers."@)]
        } else {
            Seq::<FindingText>::empty()
        }));
    }
    match get_header(headers, "content-security-policy") {
        Some(i) => {
            match &headers[i].value {
                Some(csp) => {
                    let cv = chars_of(csp.as_str());
                    proof {
                        reveal_strlit("unsafe-inline");
                        reveal_strlit("*");
                    }
                    let weak = contains_exec(&cv, &chars_of("unsafe-inline")) || contains_exec(
                        &cv,
                        &chars_of("*"),
                    );
                    if weak {
                        push_finding(&mut out, web_finding("medium", "headers", "Weak CSP pattern", url, "Review wildcard and unsafe-inline usage."));
                    }
                },
                None => {},
            }
        },
        None => {},
    }
    proof {
        assert(finding_texts(out@) =~= header_findings(url@, headers@, https));
    }
    out
}

/// Findings on one cookie, given its lowercase form: missing Secure
/// (medium), HttpOnly (medium) or SameSite (low).
pub open spec fn cookie_findings_of(url: Seq<char>, lower: Seq<char>) -> Seq<FindingText> {
    (if !contains_text(lower, "secure"@) {
        seq![web_finding_of("medium"@, "cookies"@, "Cookie missing Secure"@, url, "Set Secure on sensitive cookies."@)]
    } else {
        Seq::empty()
    }) + (if !contains_text(lower, "httponly"@) {
        seq![web_finding_of("medium"@, "cookies"@, "Cookie missing HttpOnly"@, url, "Set HttpOnly on session cookies."@)]
    } else {
        Seq::empty()
    }) + (if !contains_text(lower, "samesite"@) {
        seq![web_finding_of("low"@, "cookies"@, "Cookie missing SameSite"@, url, "Set SameSite=Lax or Strict where appropriate."@)]
    } else {
        Seq::empty()
    })
}

/// A cookie lacking `secure` gets a medium finding, one lacking `httponly`
/// a medium finding, one lacking `samesite` a low finding, in that order and
/// all about the audited URL (its lowercase text is searched).
pub proof fn law_cookie_flags_are_checked(url: Seq<char>, lower: Seq<char>)
    ensures
        cookie_findings_of(url, lower) == (if !contains_text(lower, "secure"@) {
            seq![("medium"@, "web"@, "cookies"@, "Cookie missing Secure"@, url, "Set Secure on sensitive cookies."@, url)]
        } else {
            Seq::empty()
        }) + (if !contains_text(lower, "httponly"@) {
            seq![("medium"@, "web"@, "cookies"@, "Cookie missing HttpOnly"@, url, "Set HttpOnly on session cookies."@, url)]
        } else {
            Seq::empty()
        }) + (if !contains_text(lower, "samesite"@) {
            seq![("low"@, "web"@, "cookies"@, "Cookie missing SameSite"@, url, "Set SameSite=Lax or Strict where appropriate."@, url)]
        } else {
            Seq::empty()
        }),
{
}

/// Findings on all cookies, in order.
pub open spec fn cookies_findings(url: Seq<char>, cookies: Seq<Seq<char>>) -> Seq<FindingText>
    decreases cookies.len(),
{
    if cookies.len() == 0 {
        Seq::empty()
    } else {
        cookies_findings(url, cookies.drop_last()) + cookie_findings_of(url, lowercase(cookies.last()))
    }
}

/// The findings on one cookie given its lowercase form.
pub fn evaluate_cookie(url: &str, lower: &str) -> (r: Vec<Finding>)
    ensures
        finding_texts(r@) == cookie_findings_of(url@, lower@),
{
    proof {
        reveal_strlit("secure");
        reveal_strlit("httponly");
        reveal_strlit("samesite");
    }
    let l = chars_of(lower);
    let mut out: Vec<Finding> = Vec::new();
    proof {
        assert(finding_texts(out@) =~= Seq::empty());
    }
    if !contains_exec(&l, &chars_of("secure")) {
        push_finding(&mut out, web_finding("medium", "cookies", "Cookie missing Secure", url, "Set Secure on sensitive cookies."));
    }
    if !contains_exec(&l, &chars_of("httponly")) {
        push_finding(&mut out, web_finding("medium", "cookies", "Cookie missing HttpOnly", url, "Set HttpOnly on session cookies."));
    }
    if !contains_exec(&l, &chars_of("samesite")) {
        push_finding(&mut out, web_finding("low", "cookies", "Cookie missing SameSite", url, "Set SameSite=Lax or Strict where appropriate."));
    }
    proof {
        assert(finding_texts(out@) =~= cookie_findings_of(url@, lower@));
    }
    out
}

/// The findings on the cookies a response sets.
pub fn evaluate_cookies(url: &str, headers: &Vec<HeaderEntry>) -> (r: Vec<Finding>)
    ensures
        finding_texts(r@) == cookies_findings(url@, cookie_texts(headers@)),
{
    let cs = cookies_of(headers);
    let mut out: Vec<Finding> = Vec::new();
    let mut i: usize = 0;
    proof {
        assert(finding_texts(out@) =~= Seq::empty());
        assert(cs@.take(0).len() == 0);
        assert(views(cs@.take(0)) =~= Seq::<Seq<char>>::empty());
    }
    while i < cs.len()
        invariant
            i <= cs@.len(),
            finding_texts(out@) == cookies_findings(url@, views(cs@.take(i as int))),
        decreases cs@.len() - i,
    {
        let lower = to_lowercase(cs[i].as_str());
        let more = evaluate_cookie(url, lower.as_str());
        let mut j: usize = 0;
        let ghost before = finding_texts(out@);
        while j < more.len()
            invariant
                j <= more@.len(),
                finding_texts(out@) == before + finding_texts(more@.take(j as int)),
            decreases more@.len() - j,
        {
            proof {
                assert(finding_texts(more@.take(j as int + 1)) =~= finding_texts(more@.take(j as int)).push(
                    finding_view(more@[j as int]),
                ));
            }
            let f = new_finding(
                more[j].severity.as_str(),
                more[j].module.as_str(),
                more[j].category.as_str(),
                more[j].title.as_str(),
                more[j].detail.clone(),
                more[j].recommendation.as_str(),
                more[j].evidence.clone(),
            );
            push_finding(&mut out, f);
            j = j + 1;
        }
        proof {
            assert(more@.take(j as int) =~= more@);
            let t = views(cs@.take(i as int + 1));
            assert(t.drop_last() =~= views(cs@.take(i as int)));
            assert(t.last() == cs@[i as int]@);
        }
        i = i + 1;
    }
    proof {
        assert(cs@.take(i as int) =~= cs@);
    }
    out
}

/// A password form on a page (given its lowercase form) served from a URL
/// that is not https.
pub open spec fn insecure_password_form(url: Seq<char>, lower: Seq<char>) -> bool {
    contains_text(lower, "<form"@) && (contains_text(lower, "type=\"password\""@) || contains_text(
        lower,
        "type='password'"@,
    )) && !starts_with(url, "https://"@)
}

/// Findings on the forms of a page, given its lowercase form.
pub open spec fn form_findings_of(url: Seq<char>, lower: Seq<char>) -> Seq<FindingText> {
    if insecure_password_form(url, lower) {
        seq![web_finding_of("high"@, "forms"@, "Password form on non-HTTPS URL"@, url, "Password forms must be served over HTTPS."@)]
    } else {
        Seq::empty()
    }
}

/// A page served from a URL that does not start with `https://`, holding a
/// form and a password input written with either quoting (`type="password"`
/// or `type='password'`), yields exactly one high "forms" finding about that
/// URL; any other page yields none.
pub proof fn law_password_form_needs_https(url: Seq<char>, lower: Seq<char>)
    ensures
        form_findings_of(url, lower) == (if contains_text(lower, "<form"@) && (contains_text(
            lower,
            "type=\"password\""@,
        ) || contains_text(lower, "type='password'"@)) && !starts_with(url, "https://"@) {
            seq![
                (
                    "high"@,
                    "web"@,
                    "forms"@,
                    "Password form on non-HTTPS URL"@,
                    url,
                    "Password forms must be served over HTTPS."@,
                    url,
                ),
            ]
        } else {
            Seq::empty()
        }),
{
}

/// The findings on the forms of a page.
pub fn evaluate_forms(url: &str, body: &str) -> (r: Vec<Finding>)
    ensures
        finding_texts(r@) == form_findings_of(url@, lowercase(body@)),
{
    proof {
        reveal_strlit("<form");
        reveal_strlit("type=\"password\"");
        reveal_strlit("type='password'");
    }
    let lower = to_lowercase(body);
    let l = chars_of(lower.as_str());
    let mut out: Vec<Finding> = Vec::new();
    proof {
        assert(finding_texts(out@) =~= Seq::empty());
    }
    if contains_exec(&l, &chars_of("<form")) && (contains_exec(&l, &chars_of("type=\"password\""))
        || contains_exec(&l, &chars_of("type='password'"))) && !starts_with_exec(url, "https://") {
        push_finding(&mut out, web_finding("high", "forms", "Password form on non-HTTPS URL", url, "Password forms must be served over HTTPS."));
    }
    proof {
        assert(finding_texts(out@) =~= form_findings_of(url@, lowercase(body@)));
    }
    out
}

/// Cutting a body to its first 64000 bytes does not slice through a character.
pub open spec fn can_cut_body(text: Seq<char>) -> bool {
    utf8_len(text) > 64000 ==> prefix_on_boundary(text, 64000)
}

/// The kept part of a response body: its first 64000 bytes.
pub open spec fn body_kept(text: Seq<char>) -> Seq<char> {
    if utf8_len(text) > 64000 {
        byte_prefix(text, 64000)
    } else {
        text
    }
}

/// The kept part of a body is a prefix of it and takes at most 64000 bytes;
/// a body within that size is kept whole.
pub proof fn law_kept_body_is_a_short_prefix(text: Seq<char>)
    ensures
        utf8_len(body_kept(text)) <= 64000,
        text.take(body_kept(text).len() as int) == body_kept(text),
        utf8_len(text) <= 64000 ==> body_kept(text) == text,
{
    lemma_byte_prefix_len(text, 64000);
    if utf8_len(text) <= 64000 {
        assert(text.take(text.len() as int) =~= text);
    }
}

/// Whether a body can be cut to its first 64000 bytes.
pub fn can_cut_body_exec(text: &str) -> (r: bool)
    ensures
        r == can_cut_body(text@),
{
    let v = chars_of(text);
    if utf8_len_exceeds(&v, 64000) {
        let (_n, b) = prefix_fit_exec(&v, 64000);
        b == 64000
    } else {
        true
    }
}

/// Keeps the first 64000 bytes of a response body.
pub fn cut_body(text: &str) -> (r: String)
    requires
        can_cut_body(text@),
    ensures
        r@ == body_kept(text@),
{
    let v = chars_of(text);
    if utf8_len_exceeds(&v, 64000) {
        let (n, _b) = prefix_fit_exec(&v, 64000);
        let r = string_from_range(&v, 0, n);
        proof {
            assert(v@.subrange(0, n as int) =~= byte_prefix(v@, 64000));
        }
        r
    } else {
        text.to_owned()
    }
}

/// What a response to an authorized URL yields.
pub struct WebAudit {
    pub observation: WebObservation,
    pub findings: Vec<Finding>,
}

/// The observation and findings of a response to `url`: HTTPS is judged on
/// the final URL; then the header, cookie and form findings, in that order.
pub fn observe_response(
    url: &str,
    status: u16,
    final_url: &str,
    headers: &Vec<HeaderEntry>,
    body: &str,
) -> (r: WebAudit)
    ensures
        r.observation.url@ == url@,
        r.observation.status == status as i64,
        r.observation.final_url@ == final_url@,
        r.observation.https == starts_with(final_url@, "https://"@),
        r.observation.header_summary@ == header_summary_of(headers@),
        r.observation.cookies@ == join_with(cookie_texts(headers@), " | "@),
        r.observation.forms@ == forms_summary_of(lowercase(body@)),
        r.observation.notes@ == Seq::<char>::empty(),
        finding_texts(r.findings@) == header_findings(
            url@,
            headers@,
            starts_with(final_url@, "https://"@),
        ) + cookies_findings(url@, cookie_texts(headers@)) + form_findings_of(
            url@,
            lowercase(body@),
        ),
{
    let https = starts_with_exec(final_url, "https://");
    let observation = WebObservation {
        url: url.to_owned(),
        status: status as i64,
        final_url: final_url.to_owned(),
        https,
        header_summary: summarize_headers(headers),
        cookies: summarize_cookies(headers),
        forms: summarize_forms(body),
        notes: String::new(),
    };
    let mut findings = evaluate_headers(url, headers, https);
    let more = evaluate_cookies(url, headers);
    let forms = evaluate_forms(url, body);
    let ghost a = finding_texts(findings@);
    let mut j: usize = 0;
    while j < more.len()
        invariant
            j <= more@.len(),
            finding_texts(findings@) == a + finding_texts(more@.take(j as int)),
        decreases more@.len() - j,
    {
        proof {
            assert(finding_texts(more@.take(j as int + 1)) =~= finding_texts(more@.take(j as int)).push(
                finding_view(more@[j as int]),
            ));
        }
        let f = new_finding(
            more[j].severity.as_str(),
            more[j].module.as_str(),
            more[j].category.as_str(),
            more[j].title.as_str(),
            more[j].detail.clone(),
            more[j].recommendation.as_str(),
            more[j].evidence.clone(),
        );
        push_finding(&mut findings, f);
        j = j + 1;
    }
    proof {
        assert(more@.take(j as int) =~= more@);
    }
    let ghost b = finding_texts(findings@);
    let mut j: usize = 0;
    while j < forms.len()
        invariant
            j <= forms@.len(),
            finding_texts(findings@) == b + finding_texts(forms@.take(j as int)),
        decreases forms@.len() - j,
    {
        proof {
            assert(finding_texts(forms@.take(j as int + 1)) =~= finding_texts(forms@.take(j as int)).push(
                finding_view(forms@[j as int]),
            ));
        }
        let f = new_finding(
            forms[j].severity.as_str(),
            forms[j].module.as_str(),
            forms[j].category.as_str(),
            forms[j].title.as_str(),
            forms[j].detail.clone(),
            forms[j].recommendation.as_str(),
            forms[j].evidence.clone(),
        );
        push_finding(&mut findings, f);
        j = j + 1;
    }
    proof {
        assert(forms@.take(j as int) =~= forms@);
    }
    WebAudit { observation, findings }
}

/// The finding recorded when a URL could not be requested.
pub fn connectivity_finding(url: &str, error: &str) -> (f: Finding)
    ensures
        finding_view(f) == (
            "low"@,
            "web"@,
            "connectivity"@,
            "Target could not be requested"@,
            url@ + " -> "@ + error@,
            "Verify scope, DNS, TLS and connectivity."@,
            url@,
        ),
{
    let mut detail = url.to_owned();
    push_text(&mut detail, " -> ");
    push_text(&mut detail, error);
    new_finding(
        "low",
        "web",
        "connectivity",
        "Target could not be requested",
        detail,
        "Verify scope, DNS, TLS and connectivity.",
        url.to_owned(),
    )
}

/// The finding on a probed common path: recorded for a 2xx answer, high for
/// `/.env` and `/.git/config`, medium otherwise.
pub open spec fn common_path_finding_of(url: Seq<char>, status: u16, content_type: Seq<char>) -> Option<FindingText> {
    if 200 <= status && status < 300 {
        Some(
            (
                if ends_with(url, "/.env"@) || ends_with(url, "/.git/config"@) {
                    "high"@
                } else {
                    "medium"@
                },
                "web"@,
                "exposed_path"@,
                "Common sensitive path responded successfully"@,
                url + " returned HTTP "@ + decimal(status as nat) + " ("@ + content_type + ")"@,
                "Review whether this endpoint should be public. Restrict or remove if unintended."@,
                url,
            ),
        )
    } else {
        None
    }
}

/// The finding on a probed common path, given the answer's status and content type.
pub fn common_path_finding(url: &str, status: u16, content_type: &str) -> (r: Option<Finding>)
    ensures
        r is Some <==> common_path_finding_of(url@, status, content_type@) is Some,
        r matches Some(f) ==> finding_view(f) == common_path_finding_of(url@, status, content_type@)->0,
{
    if status >= 200 && status < 300 {
        let sev = if ends_with_exec(url, "/.env") || ends_with_exec(url, "/.git/config") {
            "high"
        } else {
            "medium"
        };
        let mut detail = url.to_owned();
        push_text(&mut detail, " returned HTTP ");
        push_text(&mut detail, decimal_u64(status as u64).as_str());
        push_text(&mut detail, " (");
        push_text(&mut detail, content_type);
        push_text(&mut detail, ")");
        Some(
            new_finding(
                sev,
                "web",
                "exposed_path",
                "Common sensitive path responded successfully",
                detail,
                "Review whether this endpoint should be public. Restrict or remove if unintended.",
                url.to_owned(),
            ),
        )
    } else {
        None
    }
}

/// The common sensitive paths probed on every target, in order.
pub open spec fn common_paths() -> Seq<Seq<char>> {
    seq![
        "/robots.txt"@,
        "/sitemap.xml"@,
        "/security.txt"@,
        "/.well-known/security.txt"@,
        "/.env"@,
        "/.git/config"@,
        "/backup.zip"@,
        "/config.json"@,
        "/phpinfo.php"@,
    ]
}

fn common_path(k: usize) -> (r: &'static str)
    requires
        k < 9,
    ensures
        r@ == common_paths()[k as int],
{
    if k == 0 {
        "/robots.txt"
    } else if k == 1 {
        "/sitemap.xml"
    } else if k == 2 {
        "/security.txt"
    } else if k == 3 {
        "/.well-known/security.txt"
    } else if k == 4 {
        "/.env"
    } else if k == 5 {
        "/.git/config"
    } else if k == 6 {
        "/backup.zip"
    } else if k == 7 {
        "/config.json"
    } else {
        "/phpinfo.php"
    }
}

/// The URLs probed for a target from path `k` on: the target with its path
/// replaced by the common path (no query, no fragment), kept when it has the
/// target's origin.
pub open spec fn candidates_from(target: Seq<char>, k: int) -> Seq<Seq<char>>
    decreases 9 - k,
{
    if k < 0 || k >= 9 {
        Seq::empty()
    } else {
        (match url_path_replaced(target, common_paths()[k]) {
            Some(c) => if same_origin_of(target, c) {
                seq![c]
            } else {
                Seq::empty()
            },
            None => Seq::empty(),
        }) + candidates_from(target, k + 1)
    }
}

/// Every common-path URL probed for a target has the target's origin, and
/// at most one is probed per common path.
pub proof fn law_candidates_share_origin(target: Seq<char>)
    ensures
        candidates_from(target, 0).len() <= 9,
        forall|i: int|
            0 <= i < candidates_from(target, 0).len() ==> same_origin_of(
                target,
                #[trigger] candidates_from(target, 0)[i],
            ),
{
    lemma_candidates_share_origin(target, 0);
}

proof fn lemma_candidates_share_origin(target: Seq<char>, k: int)
    requires
        0 <= k <= 9,
    ensures
        candidates_from(target, k).len() <= 9 - k,
        forall|i: int|
            0 <= i < candidates_from(target, k).len() ==> same_origin_of(
                target,
                #[trigger] candidates_from(target, k)[i],
            ),
    decreases 9 - k,
{
    if k < 9 {
        lemma_candidates_share_origin(target, k + 1);
        let rest = candidates_from(target, k + 1);
        let head = match url_path_replaced(target, common_paths()[k]) {
            Some(c) => if same_origin_of(target, c) {
                seq![c]
            } else {
                Seq::empty()
            },
            None => Seq::empty(),
        };
        assert(candidates_from(target, k) == head + rest);
        assert forall|i: int| 0 <= i < candidates_from(target, k).len() implies same_origin_of(
            target,
            #[trigger] candidates_from(target, k)[i],
        ) by {
            if i < head.len() {
                assert(candidates_from(target, k)[i] == head[i]);
            } else {
                assert(candidates_from(target, k)[i] == rest[i - head.len()]);
            }
        }
    }
}

/// The common-path URLs probed for a target, in order.
pub fn common_path_candidates(target: &str) -> (r: Vec<String>)
    ensures
        views(r@) == candidates_from(target@, 0),
{
    let mut out: Vec<String> = Vec::new();
    let mut k: usize = 0;
    while k < 9
        invariant
            k <= 9,
            candidates_from(target@, 0) == views(out@) + candidates_from(target@, k as int),
        decreases 9 - k,
    {
        let p = common_path(k);
        match url_with_path(target, p) {
            Some(c) => {
                if same_origin(target, c.as_str()) {
                    let ghost cv = c@;
                    proof {
                        assert(views(out@.push(c)) =~= views(out@).push(cv));
                        assert(candidates_from(target@, k as int) =~= seq![cv] + candidates_from(
                            target@,
                            k + 1,
                        ));
                    }
                    out.push(c);
                } else {
                    proof {
                        assert(candidates_from(target@, k as int) =~= candidates_from(
                            target@,
                            k + 1,
                        ));
                    }
                }
            },
            None => {
                proof {
                    assert(candidates_from(target@, k as int) =~= candidates_from(target@, k + 1));
                }
            },
        }
        k = k + 1;
    }
    proof {
        assert(views(out@) =~= views(out@) + candidates_from(target@, 9));
    }
    out
}

/// Why a web audit does not start.
pub enum WebAuditError {
    /// The run was not confirmed as authorized.
    NotAuthorized,
    /// The case has no authorized target.
    EmptyScope,
}

/// Whether a web audit may start: it must be confirmed as authorized, and
/// the scope must hold a target.
pub fn check_web_audit(yes_authorized: bool, scope: &Vec<String>) -> (r: Result<(), WebAuditError>)
    ensures
        r matches Err(WebAuditError::NotAuthorized) <==> !yes_authorized,
        r matches Err(WebAuditError::EmptyScope) <==> yes_authorized && scope@.len() == 0,
        r is Ok <==> yes_authorized && scope@.len() > 0,
{
    if !yes_authorized {
        return Err(WebAuditError::NotAuthorized);
    }
    if scope.len() == 0 {
        return Err(WebAuditError::EmptyScope);
    }
    Ok(())
}

} // verus!
