//! Case layout paths and the text helpers shared by the patrol modules:
//! HTML escaping, secret masking and display-safe context lines.
use vstd::prelude::*;
use crate::text::{
    lemma_byte_prefix_len, lemma_byte_suffix_len, lemma_utf8_len_ascii, lemma_utf8_len_concat,
    byte_prefix, byte_suffix, chars_of, find_exec, find_from, lemma_find_from_bounds,
    prefix_fit_exec, push_char, push_text, string_from_chars, string_from_range, suffix_fit_exec,
    trim, trim_chars, utf8_len, utf8_len_exceeds,
};

verus! {

/// `Path::join` of a relative, single-component `name` onto `base` (Unix
/// separator): a `/` is inserted unless `base` is empty or already ends in one.
pub open spec fn join_path(base: Seq<char>, name: Seq<char>) -> Seq<char> {
    if base.len() > 0 && base.last() != '/' {
        base + seq!['/'] + name
    } else {
        base + name
    }
}

fn join(base: &str, name: &str) -> (r: String)
    ensures
        r@ == join_path(base@, name@),
{
    let b = chars_of(base);
    let mut r = string_from_chars(&b);
    if b.len() > 0 && b[b.len() - 1] != '/' {
        push_char(&mut r, '/');
    }
    push_text(&mut r, name);
    r
}

/// Path of the case database inside a case directory.
pub fn case_db_path(case_dir: &str) -> (r: String)
    ensures
        r@ == join_path(case_dir@, "warden11.db"@),
{
    join(case_dir, "warden11.db")
}

/// Path of the reports folder inside a case directory.
pub fn reports_dir(case_dir: &str) -> (r: String)
    ensures
        r@ == join_path(case_dir@, "reports"@),
{
    join(case_dir, "reports")
}

/// Path of the scope file inside a case directory.
pub fn scope_path(case_dir: &str) -> (r: String)
    ensures
        r@ == join_path(case_dir@, "scope.json"@),
{
    join(case_dir, "scope.json")
}

/// Path of the exports folder inside a case directory.
pub fn exports_dir(case_dir: &str) -> (r: String)
    ensures
        r@ == join_path(case_dir@, "exports"@),
{
    join(case_dir, "exports")
}

/// Path of the case notes file inside a case directory.
pub fn case_notes_path(case_dir: &str) -> (r: String)
    ensures
        r@ == join_path(case_dir@, "CASE.md"@),
{
    join(case_dir, "CASE.md")
}

/// The HTML escape of one character.
pub open spec fn escape_char(c: char) -> Seq<char> {
    if c == '&' {
        "&amp;"@
    } else if c == '<' {
        "&lt;"@
    } else if c == '>' {
        "&gt;"@
    } else if c == '"' {
        "&quot;"@
    } else {
        seq![c]
    }
}

/// `s` with `&`, `<`, `>` and `"` replaced by their HTML entities.
pub open spec fn html_escaped(s: Seq<char>) -> Seq<char>
    decreases s.len(),
{
    if s.len() == 0 {
        Seq::empty()
    } else {
        html_escaped(s.drop_last()) + escape_char(s.last())
    }
}

/// Escapes `&`, `<`, `>` and `"` for HTML.
pub fn html_escape(input: &str) -> (r: String)
    ensures
        r@ == html_escaped(input@),
{
    let mut r = String::new();
    for c in it: input.chars()
        invariant
            it.seq() == input@,
            r@ == html_escaped(it.seq().take(it.index() as int)),
    {
        proof {
            let t = it.seq().take(it.index() as int + 1);
            assert(t.drop_last() =~= it.seq().take(it.index() as int));
            assert(t.last() == c);
        }
        if c == '&' {
            push_text(&mut r, "&amp;");
        } else if c == '<' {
            push_text(&mut r, "&lt;");
        } else if c == '>' {
            push_text(&mut r, "&gt;");
        } else if c == '"' {
            push_text(&mut r, "&quot;");
        } else {
            push_char(&mut r, c);
            proof {
                assert(seq![c] + Seq::<char>::empty() =~= seq![c]);
            }
        }
    }
    proof {
        assert(input@.take(input@.len() as int) =~= input@);
    }
    r
}

/// The last `k` bytes of `s` start on a character boundary.
pub open spec fn suffix_on_boundary(s: Seq<char>, k: nat) -> bool {
    utf8_len(byte_suffix(s, k)) == k
}

/// The first `k` bytes of `s` end on a character boundary.
pub open spec fn prefix_on_boundary(s: Seq<char>, k: nat) -> bool {
    utf8_len(byte_prefix(s, k)) == k
}

/// Masking `value` does not slice through a character: its trimmed form is
/// at most 8 bytes long, or its first 4 and last 4 bytes are whole characters.
pub open spec fn can_mask(value: Seq<char>) -> bool {
    let t = trim(value);
    utf8_len(t) <= 8 || (prefix_on_boundary(t, 4) && suffix_on_boundary(t, 4))
}

/// The masked form of a secret: eight stars when its trimmed form is at most
/// 8 bytes long, otherwise its first 4 bytes, `...`, and its last 4 bytes.
pub open spec fn masked(value: Seq<char>) -> Seq<char> {
    let t = trim(value);
    if utf8_len(t) <= 8 {
        "********"@
    } else {
        byte_prefix(t, 4) + "..."@ + byte_suffix(t, 4)
    }
}

/// Whether `value` can be masked without slicing through a character.
pub fn can_mask_exec(value: &str) -> (r: bool)
    ensures
        r == can_mask(value@),
{
    let v = chars_of(value);
    let t = trim_chars(&v);
    if !utf8_len_exceeds(&t, 8) {
        return true;
    }
    let (n, pb) = prefix_fit_exec(&t, 4);
    let (m, sb) = suffix_fit_exec(&t, 4);
    pb == 4 && sb == 4
}

/// Masks a secret for display: at most its first and last 4 bytes are shown.
pub fn mask_secret(value: &str) -> (r: String)
    requires
        can_mask(value@),
    ensures
        r@ == masked(value@),
{
    let v = chars_of(value);
    let t = trim_chars(&v);
    if !utf8_len_exceeds(&t, 8) {
        return "********".to_owned();
    }
    let (n, _pb) = prefix_fit_exec(&t, 4);
    let (m, _sb) = suffix_fit_exec(&t, 4);
    let mut r = string_from_range(&t, 0, n);
    push_text(&mut r, "...");
    let tail = string_from_range(&t, t.len() - m, t.len());
    push_text(&mut r, tail.as_str());
    proof {
        assert(t@.subrange(0, n as int) =~= byte_prefix(t@, 4));
        assert(t@.subrange(t@.len() - m, t@.len() as int) =~= byte_suffix(t@, 4));
    }
    r
}

/// Tabs, carriage returns and line feeds become spaces.
pub open spec fn flatten_ws(s: Seq<char>) -> Seq<char> {
    s.map_values(|c: char| if c == '\t' || c == '\r' || c == '\n' { ' ' } else { c })
}

/// Cutting `line` to `max_len` bytes does not slice through a character.
pub open spec fn can_clean(line: Seq<char>, max_len: nat) -> bool {
    let s = flatten_ws(line);
    utf8_len(s) > max_len ==> prefix_on_boundary(s, max_len)
}

/// `line` on one display line: whitespace control characters become spaces,
/// and a line longer than `max_len` bytes is cut there and ends in `...`.
pub open spec fn cleaned(line: Seq<char>, max_len: nat) -> Seq<char> {
    let s = flatten_ws(line);
    if utf8_len(s) > max_len {
        byte_prefix(s, max_len) + "..."@
    } else {
        s
    }
}

fn flatten_ws_exec(line: &str) -> (r: Vec<char>)
    ensures
        r@ == flatten_ws(line@),
{
    let v = chars_of(line);
    let mut r: Vec<char> = Vec::new();
    let mut i: usize = 0;
    while i < v.len()
        invariant
            i <= v@.len(),
            v@ == line@,
            r@ == flatten_ws(v@.take(i as int)),
        decreases v@.len() - i,
    {
        let c = v[i];
        let d = if c == '\t' || c == '\r' || c == '\n' {
            ' '
        } else {
            c
        };
        proof {
            assert(flatten_ws(v@.take(i as int + 1)) =~= flatten_ws(v@.take(i as int)).push(d));
        }
        r.push(d);
        i = i + 1;
    }
    proof {
        assert(v@.take(i as int) =~= v@);
    }
    r
}

/// Whether `line` can be cleaned to `max_len` bytes without slicing through a character.
pub fn can_clean_exec(line: &str, max_len: usize) -> (r: bool)
    ensures
        r == can_clean(line@, max_len as nat),
{
    let s = flatten_ws_exec(line);
    if utf8_len_exceeds(&s, max_len) {
        let (_n, b) = prefix_fit_exec(&s, max_len);
        b == max_len
    } else {
        true
    }
}

/// Puts `line` on one display line of at most `max_len` bytes plus `...`.
pub fn clean_line(line: &str, max_len: usize) -> (r: String)
    requires
        can_clean(line@, max_len as nat),
    ensures
        r@ == cleaned(line@, max_len as nat),
{
    let s = flatten_ws_exec(line);
    if utf8_len_exceeds(&s, max_len) {
        let (n, _b) = prefix_fit_exec(&s, max_len);
        let mut r = string_from_range(&s, 0, n);
        push_text(&mut r, "...");
        proof {
            assert(s@.subrange(0, n as int) =~= byte_prefix(s@, max_len as nat));
        }
        r
    } else {
        string_from_chars(&s)
    }
}

/// `s` with the leftmost occurrence of the non-empty `p` replaced by `r`
/// (what `str::replacen(p, r, 1)` returns).
pub open spec fn replace_first(s: Seq<char>, p: Seq<char>, r: Seq<char>) -> Seq<char> {
    match find_from(s, p, 0) {
        Some(i) => s.take(i) + r + s.skip(i + p.len()),
        None => s,
    }
}

/// `line` with the first occurrence of a non-empty `matched` replaced by its masked form.
pub open spec fn redacted(line: Seq<char>, matched: Seq<char>) -> Seq<char> {
    if matched.len() == 0 {
        line
    } else {
        replace_first(line, matched, masked(matched))
    }
}

/// `clean_line_masked` neither slices through a character when masking
/// `matched` nor when cutting the redacted line.
pub open spec fn can_clean_masked(line: Seq<char>, matched: Seq<char>, max_len: nat) -> bool {
    &&& matched.len() > 0 ==> can_mask(matched)
    &&& can_clean(redacted(line, matched), max_len)
}

/// The redacted line, computed.
pub fn redact(line: &str, matched: &str) -> (r: String)
    requires
        matched@.len() > 0 ==> can_mask(matched@),
    ensures
        r@ == redacted(line@, matched@),
{
    let l = chars_of(line);
    let m = chars_of(matched);
    if m.len() == 0 {
        return string_from_chars(&l);
    }
    let mask = mask_secret(matched);
    let ll = l.len();
    match find_exec(&l, &m, 0) {
        Some(i) => {
            proof {
                lemma_find_from_bounds(l@, m@, 0);
                assert(find_from(l@, m@, 0) == Some(i as int));
                assert(i + m@.len() <= l@.len());
            }
            let mut r = string_from_range(&l, 0, i);
            push_text(&mut r, mask.as_str());
            let tail = string_from_range(&l, i + m.len(), l.len());
            push_text(&mut r, tail.as_str());
            proof {
                assert(l@.subrange(0, i as int) =~= l@.take(i as int));
                assert(l@.subrange(i + m@.len(), l@.len() as int) =~= l@.skip(i + m@.len()));
            }
            r
        },
        None => string_from_chars(&l),
    }
}

/// Builds a display-safe context line for a secret match: the surrounding
/// line with the matched secret replaced by its masked form, then put on one
/// display line of at most `max_len` bytes.
pub fn clean_line_masked(line: &str, matched: &str, max_len: usize) -> (r: String)
    requires
        can_clean_masked(line@, matched@, max_len as nat),
    ensures
        r@ == cleaned(redacted(line@, matched@), max_len as nat),
{
    let red = redact(line, matched);
    clean_line(red.as_str(), max_len)
}

/// Whether `clean_line_masked` can run on these arguments.
pub fn can_clean_masked_exec(line: &str, matched: &str, max_len: usize) -> (r: bool)
    ensures
        r == can_clean_masked(line@, matched@, max_len as nat),
{
    let m = chars_of(matched);
    if m.len() > 0 && !can_mask_exec(matched) {
        return false;
    }
    let red = redact(line, matched);
    can_clean_exec(red.as_str(), max_len)
}

/// The text of the default rules file.
pub open spec fn default_rules_text() -> Seq<char> {
    "# WARDEN-11 rules\n# Defensive triage rules for authorized cyber patrol.\n#\n# Keep this file human-readable.\n\nWEB_COMMON_PATHS = /robots.txt, /sitemap.xml, /.well-known/security.txt, /security.txt, /.env, /.git/config, /backup.zip, /config.json, /phpinfo.php\nSECRET_FILE_EXTENSIONS = env, json, yaml, yml, toml, ini, conf, config, txt, md, py, js, ts, php, java, kt, rs, go, cs\nMAX_FILE_MB = 8\nWEB_TIMEOUT_SECONDS = 10\nWEB_RATE_LIMIT_MS = 650\n"@
}

/// The text of the default rules file.
pub fn default_rules() -> (r: String)
    ensures
        r@ == default_rules_text(),
{
    "# WARDEN-11 rules\n# Defensive triage rules for authorized cyber patrol.\n#\n# Keep this file human-readable.\n\nWEB_COMMON_PATHS = /robots.txt, /sitemap.xml, /.well-known/security.txt, /security.txt, /.env, /.git/config, /backup.zip, /config.json, /phpinfo.php\nSECRET_FILE_EXTENSIONS = env, json, yaml, yml, toml, ini, conf, config, txt, md, py, js, ts, php, java, kt, rs, go, cs\nMAX_FILE_MB = 8\nWEB_TIMEOUT_SECONDS = 10\nWEB_RATE_LIMIT_MS = 650\n".to_owned()
}

/// Escaped text holds no `<`, `>` or `"`: report values cannot open or
/// close markup or attributes.
pub proof fn law_escaped_text_has_no_markup(s: Seq<char>)
    ensures
        forall|i: int|
            0 <= i < html_escaped(s).len() ==> #[trigger] html_escaped(s)[i] != '<'
                && html_escaped(s)[i] != '>' && html_escaped(s)[i] != '"',
    decreases s.len(),
{
    reveal_strlit("&amp;");
    reveal_strlit("&lt;");
    reveal_strlit("&gt;");
    reveal_strlit("&quot;");
    if s.len() > 0 {
        law_escaped_text_has_no_markup(s.drop_last());
        let a = html_escaped(s.drop_last());
        let b = escape_char(s.last());
        assert(html_escaped(s) == a + b);
        assert forall|i: int| 0 <= i < html_escaped(s).len() implies #[trigger] html_escaped(s)[i]
            != '<' && html_escaped(s)[i] != '>' && html_escaped(s)[i] != '"' by {
            if i < a.len() {
                assert(html_escaped(s)[i] == a[i]);
            } else {
                assert(html_escaped(s)[i] == b[i - a.len()]);
            }
        }
    }
}

/// A masked secret shows at most 11 bytes, so a secret longer than that is
/// never shown whole.
pub proof fn law_mask_shows_at_most_eleven_bytes(value: Seq<char>)
    ensures
        utf8_len(masked(value)) <= 11,
        utf8_len(trim(value)) > 11 ==> masked(value) != trim(value),
{
    reveal_strlit("********");
    reveal_strlit("...");
    let t = trim(value);
    lemma_utf8_len_ascii("********"@);
    lemma_utf8_len_ascii("..."@);
    if utf8_len(t) > 8 {
        lemma_byte_prefix_len(t, 4);
        lemma_byte_suffix_len(t, 4);
        lemma_utf8_len_concat(byte_prefix(t, 4), "..."@);
        lemma_utf8_len_concat(byte_prefix(t, 4) + "..."@, byte_suffix(t, 4));
    }
}

/// A cleaned line holds no tab, carriage return or line feed, and takes at
/// most `max_len` bytes plus the 3 of `...`.
pub proof fn law_cleaned_line_is_one_short_line(line: Seq<char>, max_len: nat)
    ensures
        forall|i: int|
            0 <= i < cleaned(line, max_len).len() ==> #[trigger] cleaned(line, max_len)[i] != '\t'
                && cleaned(line, max_len)[i] != '\r' && cleaned(line, max_len)[i] != '\n',
        utf8_len(cleaned(line, max_len)) <= max_len + 3,
{
    reveal_strlit("...");
    lemma_utf8_len_ascii("..."@);
    let s = flatten_ws(line);
    if utf8_len(s) > max_len {
        lemma_byte_prefix_len(s, max_len);
        lemma_utf8_len_concat(byte_prefix(s, max_len), "..."@);
        let p = byte_prefix(s, max_len);
        assert forall|i: int| 0 <= i < cleaned(line, max_len).len() implies #[trigger] cleaned(
            line,
            max_len,
        )[i] != '\t' && cleaned(line, max_len)[i] != '\r' && cleaned(line, max_len)[i] != '\n' by {
            if i < p.len() {
                assert(cleaned(line, max_len)[i] == p[i]);
                assert(p[i] == s[i]);
            } else {
                assert(cleaned(line, max_len)[i] == "..."@[i - p.len()]);
            }
        }
    }
}

} // verus!
