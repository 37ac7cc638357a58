//! Secrets patrol: which local files are scanned, and the masked
//! observations and findings that the secret rules yield on a file's text.
use vstd::prelude::*;
use crate::ext::{regex_find_each, regex_first_match};
use crate::models::{finding_view, new_finding, Finding, SecretObservation};
use crate::text::{
    chars_of, contains_exec, contains_text, decimal, decimal_u64, lines, lowercase, push_char,
    push_text, split_lines, text_eq, to_lowercase, trim, utf8_len, views,
};
use crate::util::{
    can_clean_masked, can_clean_masked_exec, can_mask, can_mask_exec, clean_line_masked, cleaned,
    html_escape, html_escaped, law_mask_shows_at_most_eleven_bytes, mask_secret, masked, redacted,
};

verus! {

/// The rules of the secrets patrol, in order: (kind, pattern).
pub open spec fn secret_rules() -> Seq<(Seq<char>, Seq<char>)> {
    seq![
        ("generic_api_key"@, r#"(?i)(api[_-]?key|apikey|secret|token)\s*[:=]\s*['"]?([a-z0-9_\-]{20,})"#@),
        ("bearer_token"@, r#"(?i)bearer\s+([a-z0-9_\-\.=]{20,})"#@),
        ("aws_access_key"@, r#"AKIA[0-9A-Z]{16}"#@),
        ("private_key"@, r#"-----BEGIN (RSA |EC |OPENSSH |DSA )?PRIVATE KEY-----"#@),
        ("slack_token"@, r#"xox[baprs]-[A-Za-z0-9\-]{10,}"#@),
        ("discord_webhook"@, r#"https://discord(?:app)?\.com/api/webhooks/[0-9]+/[A-Za-z0-9_\-]+"#@),
        ("github_token"@, r#"gh[pousr]_[A-Za-z0-9_]{30,}"#@),
        ("password_assignment"@, r#"(?i)(password|passwd|pwd)\s*[:=]\s*['"]?([^'"\s]{6,})"#@),
    ]
}

fn rule(r: usize) -> (p: (&'static str, &'static str))
    requires
        r < 8,
    ensures
        (p.0@, p.1@) == secret_rules()[r as int],
{
    if r == 0 {
        ("generic_api_key", r#"(?i)(api[_-]?key|apikey|secret|token)\s*[:=]\s*['"]?([a-z0-9_\-]{20,})"#)
    } else if r == 1 {
        ("bearer_token", r#"(?i)bearer\s+([a-z0-9_\-\.=]{20,})"#)
    } else if r == 2 {
        ("aws_access_key", r#"AKIA[0-9A-Z]{16}"#)
    } else if r == 3 {
        ("private_key", r#"-----BEGIN (RSA |EC |OPENSSH |DSA )?PRIVATE KEY-----"#)
    } else if r == 4 {
        ("slack_token", r#"xox[baprs]-[A-Za-z0-9\-]{10,}"#)
    } else if r == 5 {
        ("discord_webhook", r#"https://discord(?:app)?\.com/api/webhooks/[0-9]+/[A-Za-z0-9_\-]+"#)
    } else if r == 6 {
        ("github_token", r#"gh[pousr]_[A-Za-z0-9_]{30,}"#)
    } else {
        ("password_assignment", r#"(?i)(password|passwd|pwd)\s*[:=]\s*['"]?([^'"\s]{6,})"#)
    }
}

/// The secret rules as (kind, pattern) pairs, in the order they are tried.
pub fn regexes() -> (r: Vec<(&'static str, &'static str)>)
    ensures
        r@.len() == 8,
        forall|i: int| 0 <= i < 8 ==> (r@[i].0@, r@[i].1@) == #[trigger] secret_rules()[i],
{
    let mut r: Vec<(&'static str, &'static str)> = Vec::new();
    let mut i: usize = 0;
    while i < 8
        invariant
            i <= 8,
            r@.len() == i,
            forall|k: int| 0 <= k < i ==> (r@[k].0@, r@[k].1@) == #[trigger] secret_rules()[k],
        decreases 8 - i,
    {
        r.push(rule(i));
        i = i + 1;
    }
    r
}

/// The path fragments that exclude a file from the scan (build output,
/// dependencies, version control), Windows and Unix spellings.
pub open spec fn blocked_fragments() -> Seq<Seq<char>> {
    seq![
        "\\node_modules\\"@,
        "\\.git\\"@,
        "\\target\\"@,
        "\\build\\"@,
        "\\dist\\"@,
        "/node_modules/"@,
        "/.git/"@,
        "/target/"@,
        "/build/"@,
        "/dist/"@,
    ]
}

fn blocked_fragment(k: usize) -> (r: &'static str)
    requires
        k < 10,
    ensures
        r@ == blocked_fragments()[k as int],
        r@.len() > 0,
{
    proof {
        reveal_strlit("\\node_modules\\");
        reveal_strlit("\\.git\\");
        reveal_strlit("\\target\\");
        reveal_strlit("\\build\\");
        reveal_strlit("\\dist\\");
        reveal_strlit("/node_modules/");
        reveal_strlit("/.git/");
        reveal_strlit("/target/");
        reveal_strlit("/build/");
        reveal_strlit("/dist/");
    }
    if k == 0 {
        "\\node_modules\\"
    } else if k == 1 {
        "\\.git\\"
    } else if k == 2 {
        "\\target\\"
    } else if k == 3 {
        "\\build\\"
    } else if k == 4 {
        "\\dist\\"
    } else if k == 5 {
        "/node_modules/"
    } else if k == 6 {
        "/.git/"
    } else if k == 7 {
        "/target/"
    } else if k == 8 {
        "/build/"
    } else {
        "/dist/"
    }
}

/// A lowercased path holds one of the blocked fragments.
pub open spec fn is_blocked(lower: Seq<char>) -> bool {
    exists|k: int| 0 <= k < 10 && contains_text(lower, #[trigger] blocked_fragments()[k])
}

/// Whether a lowercased path holds one of the blocked fragments.
pub fn blocked_path(lower: &str) -> (r: bool)
    ensures
        r == is_blocked(lower@),
{
    let l = chars_of(lower);
    let mut k: usize = 0;
    while k < 10
        invariant
            k <= 10,
            l@ == lower@,
            forall|j: int| 0 <= j < k ==> !contains_text(lower@, #[trigger] blocked_fragments()[j]),
        decreases 10 - k,
    {
        let f = chars_of(blocked_fragment(k));
        if contains_exec(&l, &f) {
            return true;
        }
        k = k + 1;
    }
    false
}

/// Whether a path is skipped by the scan: its lowercase form holds a
/// dependency, build output or version control folder.
pub fn should_skip(path: &str) -> (r: bool)
    ensures
        r == is_blocked(lowercase(path@)),
{
    let lower = to_lowercase(path);
    blocked_path(lower.as_str())
}

/// The file extensions (and dotfile names) the scan reads.
pub open spec fn allowed_extensions() -> Seq<Seq<char>> {
    seq![
        "env"@,
        "json"@,
        "yaml"@,
        "yml"@,
        "toml"@,
        "ini"@,
        "conf"@,
        "config"@,
        "txt"@,
        "md"@,
        "py"@,
        "js"@,
        "ts"@,
        "php"@,
        "java"@,
        "kt"@,
        "rs"@,
        "go"@,
        "cs"@,
        "xml"@,
        "properties"@,
    ]
}

fn allowed_extension(k: usize) -> (r: &'static str)
    requires
        k < 21,
    ensures
        r@ == allowed_extensions()[k as int],
{
    if k == 0 {
        "env"
    } else if k == 1 {
        "json"
    } else if k == 2 {
        "yaml"
    } else if k == 3 {
        "yml"
    } else if k == 4 {
        "toml"
    } else if k == 5 {
        "ini"
    } else if k == 6 {
        "conf"
    } else if k == 7 {
        "config"
    } else if k == 8 {
        "txt"
    } else if k == 9 {
        "md"
    } else if k == 10 {
        "py"
    } else if k == 11 {
        "js"
    } else if k == 12 {
        "ts"
    } else if k == 13 {
        "php"
    } else if k == 14 {
        "java"
    } else if k == 15 {
        "kt"
    } else if k == 16 {
        "rs"
    } else if k == 17 {
        "go"
    } else if k == 18 {
        "cs"
    } else if k == 19 {
        "xml"
    } else {
        "properties"
    }
}

/// The text is one of the allowed extensions.
pub open spec fn is_allowed_ext(e: Seq<char>) -> bool {
    exists|k: int| 0 <= k < 21 && e == #[trigger] allowed_extensions()[k]
}

fn allowed_ext_exec(e: &str) -> (r: bool)
    ensures
        r == is_allowed_ext(e@),
{
    let mut k: usize = 0;
    while k < 21
        invariant
            k <= 21,
            forall|j: int| 0 <= j < k ==> e@ != #[trigger] allowed_extensions()[j],
        decreases 21 - k,
    {
        if text_eq(e, allowed_extension(k)) {
            return true;
        }
        k = k + 1;
    }
    false
}

/// A file is read when its lowercased extension is allowed, or when it is
/// a dotfile whose lowercased name without the dot is (so `.env` is read).
pub open spec fn file_is_scanned(name_lower: Seq<char>, ext_lower: Seq<char>) -> bool {
    is_allowed_ext(ext_lower) || (name_lower.len() > 0 && name_lower[0] == '.' && is_allowed_ext(
        name_lower.skip(1),
    ))
}

/// Whether a file is read by the scan, given its file name and extension
/// (each empty when the path has none); both are lowercased first.
pub fn is_scanned_file(file_name: &str, extension: &str) -> (r: bool)
    ensures
        r == file_is_scanned(lowercase(file_name@), lowercase(extension@)),
{
    let name = to_lowercase(file_name);
    let ext = to_lowercase(extension);
    if allowed_ext_exec(ext.as_str()) {
        return true;
    }
    let nc = chars_of(name.as_str());
    if nc.len() > 0 && nc[0] == '.' {
        let mut rest = String::new();
        let mut i: usize = 1;
        while i < nc.len()
            invariant
                1 <= i <= nc@.len(),
                rest@ == nc@.subrange(1, i as int),
            decreases nc@.len() - i,
        {
            proof {
                assert(nc@.subrange(1, i as int + 1) =~= nc@.subrange(1, i as int).push(nc@[i as int]));
            }
            push_char(&mut rest, nc[i]);
            i = i + 1;
        }
        proof {
            assert(nc@.subrange(1, nc@.len() as int) =~= nc@.skip(1));
        }
        allowed_ext_exec(rest.as_str())
    } else {
        false
    }
}

/// Files larger than this many bytes are not read.
pub open spec fn max_scanned_bytes() -> nat {
    8 * 1024 * 1024
}

/// Whether a file of that size is read by the scan (at most 8 MiB).
pub fn size_is_scanned(len: u64) -> (r: bool)
    ensures
        r == (len <= max_scanned_bytes()),
{
    len <= 8 * 1024 * 1024
}

/// The (kind, matched text) pairs of the rules from rule `r` on that match `line`.
pub open spec fn rule_hits(line: Seq<char>, r: int) -> Seq<(Seq<char>, Seq<char>)>
    decreases 8 - r,
{
    if r < 0 || r >= 8 {
        Seq::empty()
    } else {
        let here = match regex_first_match(secret_rules()[r].1, line) {
            Some(m) => seq![(secret_rules()[r].0, m)],
            None => Seq::empty(),
        };
        here + rule_hits(line, r + 1)
    }
}

/// Every hit of the lines `ls[..n]`: (line number, line, kind, matched text),
/// line by line and rule by rule.
pub open spec fn hits_of_lines(ls: Seq<Seq<char>>, n: int) -> Seq<(nat, Seq<char>, Seq<char>, Seq<char>)>
    decreases n,
{
    if n <= 0 || n > ls.len() {
        Seq::empty()
    } else {
        hits_of_lines(ls, n - 1) + rule_hits(ls[n - 1], 0).map_values(
            |h: (Seq<char>, Seq<char>)| (n as nat, ls[n - 1], h.0, h.1),
        )
    }
}

/// Every hit of a file's text.
pub open spec fn secret_hits(text: Seq<char>) -> Seq<(nat, Seq<char>, Seq<char>, Seq<char>)> {
    hits_of_lines(lines(text), lines(text).len() as int)
}

/// A hit whose matched text or context line cannot be masked and cut
/// without slicing through a character.
pub open spec fn unmaskable_hit(h: (nat, Seq<char>, Seq<char>, Seq<char>)) -> bool {
    !can_mask(h.3) || !can_clean_masked(h.1, h.3, 160)
}

/// Hit `i` is the first one that cannot be masked.
pub open spec fn first_unmaskable_hit(hits: Seq<(nat, Seq<char>, Seq<char>, Seq<char>)>, i: int) -> bool {
    &&& 0 <= i < hits.len()
    &&& unmaskable_hit(hits[i])
    &&& forall|j: int| 0 <= j < i ==> !unmaskable_hit(#[trigger] hits[j])
}

/// The severity of a secret kind: high for private keys, AWS access keys
/// and GitHub tokens, medium otherwise.
pub open spec fn secret_severity(kind: Seq<char>) -> Seq<char> {
    if kind == "private_key"@ || kind == "aws_access_key"@ || kind == "github_token"@ {
        "high"@
    } else {
        "medium"@
    }
}

/// The texts of a secret observation: path, line, kind, masked value, context.
pub open spec fn secret_view(o: SecretObservation) -> (Seq<char>, nat, Seq<char>, Seq<char>, Seq<char>) {
    (o.file_path@, o.line as nat, o.kind@, o.masked_value@, o.context@)
}

/// The observation of a hit in the file at `path`: the path HTML-escaped,
/// the matched text masked, and the line with the match masked and cut to
/// 160 bytes.
pub open spec fn hit_observation(path: Seq<char>, h: (nat, Seq<char>, Seq<char>, Seq<char>)) -> (Seq<char>, nat, Seq<char>, Seq<char>, Seq<char>) {
    (html_escaped(path), h.0, h.2, masked(h.3), cleaned(redacted(h.1, h.3), 160))
}

/// The finding of a hit in the file at `path`.
pub open spec fn hit_finding(path: Seq<char>, h: (nat, Seq<char>, Seq<char>, Seq<char>)) -> (
    Seq<char>,
    Seq<char>,
    Seq<char>,
    Seq<char>,
    Seq<char>,
    Seq<char>,
    Seq<char>,
) {
    (
        secret_severity(h.2),
        "secrets"@,
        h.2,
        "Potential secret detected"@,
        path + ":"@ + decimal(h.0) + " matched "@ + h.2,
        "Rotate the secret if real, remove it from source control, and move it to a secure secret store."@,
        path + ":"@ + decimal(h.0),
    )
}

/// What the rules found in one file: one observation and one finding per hit.
pub struct SecretScan {
    pub observations: Vec<SecretObservation>,
    pub findings: Vec<Finding>,
}

fn severity_for(kind: &str) -> (r: &'static str)
    ensures
        r@ == secret_severity(kind@),
{
    if text_eq(kind, "private_key") || text_eq(kind, "aws_access_key") || text_eq(
        kind,
        "github_token",
    ) {
        "high"
    } else {
        "medium"
    }
}

/// Scans the text of the file at `path` line by line with every rule: for
/// each match an observation (path HTML-escaped, 1-based line number,
/// masked match, masked context) and a finding. Fails with the line number
/// of the first hit that cannot be masked without slicing through a
/// character.
pub fn scan_text(path: &str, text: &str) -> (r: Result<SecretScan, usize>)
    ensures
        r is Err <==> exists|i: int|
            0 <= i < secret_hits(text@).len() && unmaskable_hit(#[trigger] secret_hits(text@)[i]),
        r matches Err(n) ==> exists|i: int|
            first_unmaskable_hit(secret_hits(text@), i) && (#[trigger] secret_hits(text@)[i]).0 == n,
        r matches Ok(scan) ==> {
            &&& scan.observations@.map_values(|o: SecretObservation| secret_view(o))
                == secret_hits(text@).map_values(
                |h: (nat, Seq<char>, Seq<char>, Seq<char>)| hit_observation(path@, h),
            )
            &&& scan.findings@.map_values(|f: Finding| finding_view(f)) == secret_hits(
                text@,
            ).map_values(|h: (nat, Seq<char>, Seq<char>, Seq<char>)| hit_finding(path@, h))
        },
{
    let ls = split_lines(text);
    let ghost lv = views(ls@);
    let mut found: Vec<Vec<Option<String>>> = Vec::new();
    let mut r: usize = 0;
    while r < 8
        invariant
            r <= 8,
            found@.len() == r,
            forall|q: int, j: int|
                0 <= q < r && 0 <= j < ls@.len() ==> (#[trigger] found@[q]@[j] is Some) == (
                regex_first_match(secret_rules()[q].1, ls@[j]@) is Some),
            forall|q: int, j: int|
                0 <= q < r && 0 <= j < ls@.len() ==> (#[trigger] found@[q]@[j] matches Some(m)
                    ==> m@ == regex_first_match(secret_rules()[q].1, ls@[j]@)->0),
            forall|q: int| 0 <= q < r ==> (#[trigger] found@[q]@.len()) == ls@.len(),
        decreases 8 - r,
    {
        let (_kind, pattern) = rule(r);
        found.push(regex_find_each(pattern, &ls));
        r = r + 1;
    }
    let escaped = html_escape(path);
    let mut observations: Vec<SecretObservation> = Vec::new();
    let mut findings: Vec<Finding> = Vec::new();
    let mut k: usize = 0;
    proof {
        assert(hits_of_lines(lv, 0) =~= Seq::empty());
        assert(observations@.map_values(|o: SecretObservation| secret_view(o)) =~= Seq::empty());
        assert(findings@.map_values(|f: Finding| finding_view(f)) =~= Seq::empty());
    }
    while k < ls.len()
        invariant
            lv == views(ls@),
            lv == lines(text@),
            k <= ls@.len(),
            found@.len() == 8,
            forall|q: int, j: int|
                0 <= q < 8 && 0 <= j < ls@.len() ==> (#[trigger] found@[q]@[j] is Some) == (
                regex_first_match(secret_rules()[q].1, ls@[j]@) is Some),
            forall|q: int, j: int|
                0 <= q < 8 && 0 <= j < ls@.len() ==> (#[trigger] found@[q]@[j] matches Some(m)
                    ==> m@ == regex_first_match(secret_rules()[q].1, ls@[j]@)->0),
            forall|q: int| 0 <= q < 8 ==> (#[trigger] found@[q]@.len()) == ls@.len(),
            escaped@ == html_escaped(path@),
            forall|i: int|
                0 <= i < hits_of_lines(lv, k as int).len() ==> !unmaskable_hit(
                    #[trigger] hits_of_lines(lv, k as int)[i],
                ),
            observations@.map_values(|o: SecretObservation| secret_view(o)) == hits_of_lines(
                lv,
                k as int,
            ).map_values(|h: (nat, Seq<char>, Seq<char>, Seq<char>)| hit_observation(path@, h)),
            findings@.map_values(|f: Finding| finding_view(f)) == hits_of_lines(
                lv,
                k as int,
            ).map_values(|h: (nat, Seq<char>, Seq<char>, Seq<char>)| hit_finding(path@, h)),
        decreases ls@.len() - k,
    {
        let line = ls[k].as_str();
        let line_no = k + 1;
        let ghost base = hits_of_lines(lv, k as int);
        let ghost mut pairs: Seq<(Seq<char>, Seq<char>)> = Seq::empty();
        proof {
            assert(lv[k as int] == line@);
            assert(rule_hits(line@, 0) =~= pairs + rule_hits(line@, 0));
        }
        let mut q: usize = 0;
        while q < 8
            invariant
                q <= 8,
                k < ls@.len(),
                line@ == lv[k as int],
                line@ == ls@[k as int]@,
                line_no == k + 1,
                lv == views(ls@),
                lv == lines(text@),
                found@.len() == 8,
                forall|q2: int, j: int|
                    0 <= q2 < 8 && 0 <= j < ls@.len() ==> (#[trigger] found@[q2]@[j] is Some) == (
                    regex_first_match(secret_rules()[q2].1, ls@[j]@) is Some),
                forall|q2: int, j: int|
                    0 <= q2 < 8 && 0 <= j < ls@.len() ==> (#[trigger] found@[q2]@[j] matches Some(
                        m,
                    ) ==> m@ == regex_first_match(secret_rules()[q2].1, ls@[j]@)->0),
                forall|q2: int| 0 <= q2 < 8 ==> (#[trigger] found@[q2]@.len()) == ls@.len(),
                escaped@ == html_escaped(path@),
                base == hits_of_lines(lv, k as int),
                rule_hits(line@, 0) == pairs + rule_hits(line@, q as int),
                forall|i: int| 0 <= i < base.len() ==> !unmaskable_hit(#[trigger] base[i]),
                forall|i: int|
                    0 <= i < pairs.len() ==> !unmaskable_hit(
                        (line_no as nat, line@, (#[trigger] pairs[i]).0, pairs[i].1),
                    ),
                observations@.map_values(|o: SecretObservation| secret_view(o)) == (base
                    + pairs.map_values(
                    |h: (Seq<char>, Seq<char>)| (line_no as nat, line@, h.0, h.1),
                )).map_values(
                    |h: (nat, Seq<char>, Seq<char>, Seq<char>)| hit_observation(path@, h),
                ),
                findings@.map_values(|f: Finding| finding_view(f)) == (base + pairs.map_values(
                    |h: (Seq<char>, Seq<char>)| (line_no as nat, line@, h.0, h.1),
                )).map_values(|h: (nat, Seq<char>, Seq<char>, Seq<char>)| hit_finding(path@, h)),
            decreases 8 - q,
        {
            let (kind, _pattern) = rule(q);
            proof {
                assert(rule_hits(line@, q as int) == (match regex_first_match(
                    secret_rules()[q as int].1,
                    line@,
                ) {
                    Some(m) => seq![(secret_rules()[q as int].0, m)],
                    None => Seq::<(Seq<char>, Seq<char>)>::empty(),
                }) + rule_hits(line@, q + 1));
            }
            match &found[q][k] {
                Some(m) => {
                    let ghost h = (line_no as nat, line@, kind@, m@);
                    proof {
                        assert(rule_hits(line@, q as int) =~= seq![(kind@, m@)] + rule_hits(
                            line@,
                            q + 1,
                        ));
                        assert(rule_hits(line@, 0) =~= pairs.push((kind@, m@)) + rule_hits(
                            line@,
                            q + 1,
                        ));
                    }
                    if !can_mask_exec(m.as_str()) || !can_clean_masked_exec(line, m.as_str(), 160) {
                        proof {
                            assert(unmaskable_hit(h));
                            let lh = rule_hits(line@, 0).map_values(
                                |x: (Seq<char>, Seq<char>)| (line_no as nat, line@, x.0, x.1),
                            );
                            assert(hits_of_lines(lv, k + 1) == base + lh);
                            assert(lh[pairs.len() as int] == h);
                            let idx: int = (base.len() + pairs.len()) as int;
                            assert(hits_of_lines(lv, k + 1)[idx] == h);
                            lemma_hits_prefix(lv, k + 1, lv.len() as int);
                            assert(secret_hits(text@)[idx] == h);
                            let hs = secret_hits(text@);
                            assert(rule_hits(line@, 0) == pairs.push((kind@, m@)) + rule_hits(
                                line@,
                                q + 1,
                            ));
                            assert forall|j: int| 0 <= j < idx implies !unmaskable_hit(
                                #[trigger] hs[j],
                            ) by {
                                assert(hs[j] == hits_of_lines(lv, k + 1)[j]);
                                if j < base.len() {
                                    assert(hits_of_lines(lv, k + 1)[j] == base[j]);
                                } else {
                                    let j2 = j - base.len();
                                    assert(hits_of_lines(lv, k + 1)[j] == lh[j2]);
                                    assert(rule_hits(line@, 0)[j2] == pairs[j2]);
                                }
                            }
                            assert(first_unmaskable_hit(hs, idx));
                        }
                        return Err(line_no);
                    }
                    let obs = SecretObservation {
                        file_path: escaped.clone(),
                        line: line_no,
                        kind: kind.to_owned(),
                        masked_value: mask_secret(m.as_str()),
                        context: clean_line_masked(line, m.as_str(), 160),
                    };
                    let mut detail = path.to_owned();
                    push_text(&mut detail, ":");
                    push_text(&mut detail, decimal_u64(line_no as u64).as_str());
                    push_text(&mut detail, " matched ");
                    push_text(&mut detail, kind);
                    let mut evidence = path.to_owned();
                    push_text(&mut evidence, ":");
                    push_text(&mut evidence, decimal_u64(line_no as u64).as_str());
                    let f = new_finding(
                        severity_for(kind),
                        "secrets",
                        kind,
                        "Potential secret detected",
                        detail,
                        "Rotate the secret if real, remove it from source control, and move it to a secure secret store.",
                        evidence,
                    );
                    proof {
                        let to_hit = |x: (Seq<char>, Seq<char>)| (line_no as nat, line@, x.0, x.1);
                        let before = base + pairs.map_values(to_hit);
                        assert(base + pairs.push((kind@, m@)).map_values(to_hit) =~= before.push(
                            h,
                        ));
                        let ob = |x: (nat, Seq<char>, Seq<char>, Seq<char>)| hit_observation(path@, x);
                        let fb = |x: (nat, Seq<char>, Seq<char>, Seq<char>)| hit_finding(path@, x);
                        assert(before.push(h).map_values(ob) =~= before.map_values(ob).push(ob(h)));
                        assert(before.push(h).map_values(fb) =~= before.map_values(fb).push(fb(h)));
                        assert(observations@.push(obs).map_values(
                            |o: SecretObservation| secret_view(o),
                        ) =~= observations@.map_values(|o: SecretObservation| secret_view(o)).push(
                            secret_view(obs),
                        ));
                        assert(findings@.push(f).map_values(|f: Finding| finding_view(f))
                            =~= findings@.map_values(|f: Finding| finding_view(f)).push(
                            finding_view(f),
                        ));
                        assert(secret_view(obs) == ob(h));
                        assert(finding_view(f) == fb(h));
                        pairs = pairs.push((kind@, m@));
                    }
                    observations.push(obs);
                    findings.push(f);
                },
                None => {
                    proof {
                        assert(rule_hits(line@, q as int) =~= rule_hits(line@, q + 1));
                    }
                },
            }
            q = q + 1;
        }
        proof {
            assert(rule_hits(line@, 8) =~= Seq::<(Seq<char>, Seq<char>)>::empty());
            assert(pairs =~= rule_hits(line@, 0));
            assert(hits_of_lines(lv, k + 1) == base + pairs.map_values(
                |x: (Seq<char>, Seq<char>)| (line_no as nat, line@, x.0, x.1),
            ));
            assert forall|i: int|
                0 <= i < hits_of_lines(lv, k + 1).len() implies !unmaskable_hit(
                #[trigger] hits_of_lines(lv, k + 1)[i],
            ) by {
                if i >= base.len() {
                    let j = i - base.len();
                    assert(hits_of_lines(lv, k + 1)[i] == (line_no as nat, line@, pairs[j].0, pairs[j].1));
                }
            }
        }
        k = k + 1;
    }
    Ok(SecretScan { observations, findings })
}

/// Secrets are kept masked: for every hit of a text, the stored value shows
/// at most 11 bytes, and a matched secret longer than that never appears
/// whole in it.
pub proof fn law_stored_secrets_are_masked(path: Seq<char>, text: Seq<char>)
    ensures
        forall|i: int|
            0 <= i < secret_hits(text).len() ==> {
                let h = #[trigger] secret_hits(text)[i];
                &&& utf8_len(hit_observation(path, h).3) <= 11
                &&& utf8_len(trim(h.3)) > 11 ==> hit_observation(path, h).3 != trim(h.3)
            },
{
    assert forall|i: int| 0 <= i < secret_hits(text).len() implies {
        let h = #[trigger] secret_hits(text)[i];
        &&& utf8_len(hit_observation(path, h).3) <= 11
        &&& utf8_len(trim(h.3)) > 11 ==> hit_observation(path, h).3 != trim(h.3)
    } by {
        law_mask_shows_at_most_eleven_bytes(secret_hits(text)[i].3);
    }
}

/// The secret rules are, in this order, the documented kinds and patterns.
/// In particular the generic API key rule matches its key names in any
/// letter case (`(?i)`), as do the bearer and password rules.
pub proof fn law_secret_rules_are_the_documented_patterns()
    ensures
        secret_rules().len() == 8,
        secret_rules()[0] == ("generic_api_key"@, r#"(?i)(api[_-]?key|apikey|secret|token)\s*[:=]\s*['"]?([a-z0-9_\-]{20,})"#@),
        secret_rules()[1] == ("bearer_token"@, r#"(?i)bearer\s+([a-z0-9_\-\.=]{20,})"#@),
        secret_rules()[2] == ("aws_access_key"@, r#"AKIA[0-9A-Z]{16}"#@),
        secret_rules()[3] == ("private_key"@, r#"-----BEGIN (RSA |EC |OPENSSH |DSA )?PRIVATE KEY-----"#@),
        secret_rules()[4] == ("slack_token"@, r#"xox[baprs]-[A-Za-z0-9\-]{10,}"#@),
        secret_rules()[5] == ("discord_webhook"@, r#"https://discord(?:app)?\.com/api/webhooks/[0-9]+/[A-Za-z0-9_\-]+"#@),
        secret_rules()[6] == ("github_token"@, r#"gh[pousr]_[A-Za-z0-9_]{30,}"#@),
        secret_rules()[7] == ("password_assignment"@, r#"(?i)(password|passwd|pwd)\s*[:=]\s*['"]?([^'"\s]{6,})"#@),
{
}

proof fn lemma_rule_hits_has_match(line: Seq<char>, r0: int, r: int)
    requires
        0 <= r0 <= r < 8,
        regex_first_match(secret_rules()[r].1, line) is Some,
    ensures
        exists|idx: int|
            0 <= idx < rule_hits(line, r0).len() && #[trigger] rule_hits(line, r0)[idx] == (
                secret_rules()[r].0,
                regex_first_match(secret_rules()[r].1, line)->0,
            ),
    decreases r - r0,
{
    let here = match regex_first_match(secret_rules()[r0].1, line) {
        Some(m) => seq![(secret_rules()[r0].0, m)],
        None => Seq::empty(),
    };
    assert(rule_hits(line, r0) == here + rule_hits(line, r0 + 1));
    if r0 == r {
        assert(rule_hits(line, r0)[0] == here[0]);
    } else {
        lemma_rule_hits_has_match(line, r0 + 1, r);
        let idx = choose|idx: int|
            0 <= idx < rule_hits(line, r0 + 1).len() && #[trigger] rule_hits(line, r0 + 1)[idx] == (
                secret_rules()[r].0,
                regex_first_match(secret_rules()[r].1, line)->0,
            );
        assert(rule_hits(line, r0)[here.len() + idx] == rule_hits(line, r0 + 1)[idx]);
    }
}

/// Every line of a file on which a secret rule matches yields a hit of that
/// rule's kind, with the line's 1-based number and the matched text: a match
/// is never dropped, whatever the rule and the line.
pub proof fn law_every_rule_match_is_a_hit(text: Seq<char>, n: int, r: int)
    requires
        0 <= n < lines(text).len(),
        0 <= r < 8,
        regex_first_match(secret_rules()[r].1, lines(text)[n]) is Some,
    ensures
        exists|i: int|
            0 <= i < secret_hits(text).len() && #[trigger] secret_hits(text)[i] == (
                (n + 1) as nat,
                lines(text)[n],
                secret_rules()[r].0,
                regex_first_match(secret_rules()[r].1, lines(text)[n])->0,
            ),
{
    let ls = lines(text);
    let line = ls[n];
    lemma_rule_hits_has_match(line, 0, r);
    let m = regex_first_match(secret_rules()[r].1, line)->0;
    let idx = choose|idx: int|
        0 <= idx < rule_hits(line, 0).len() && #[trigger] rule_hits(line, 0)[idx] == (
            secret_rules()[r].0,
            m,
        );
    let base = hits_of_lines(ls, n);
    let here = rule_hits(line, 0).map_values(
        |h: (Seq<char>, Seq<char>)| ((n + 1) as nat, ls[n], h.0, h.1),
    );
    assert(hits_of_lines(ls, n + 1) == base + here);
    let i = base.len() + idx;
    assert(hits_of_lines(ls, n + 1)[i] == here[idx]);
    lemma_hits_prefix(ls, n + 1, ls.len() as int);
    assert(secret_hits(text)[i] == hits_of_lines(ls, n + 1)[i]);
}

/// Skipped are the paths holding a dependency, build output or version
/// control folder (`node_modules`, `.git`, `target`, `build`, `dist`)
/// between Windows or Unix separators; read are files with one of the
/// documented extensions (or dotfiles named like one) of at most 8 MiB.
pub proof fn law_scanned_files_are_the_documented_ones(lower: Seq<char>)
    ensures
        is_blocked(lower) == (contains_text(lower, "\\node_modules\\"@) || contains_text(
            lower,
            "\\.git\\"@,
        ) || contains_text(lower, "\\target\\"@) || contains_text(lower, "\\build\\"@)
            || contains_text(lower, "\\dist\\"@) || contains_text(lower, "/node_modules/"@)
            || contains_text(lower, "/.git/"@) || contains_text(lower, "/target/"@) || contains_text(
            lower,
            "/build/"@,
        ) || contains_text(lower, "/dist/"@)),
        allowed_extensions() == seq![
            "env"@,
            "json"@,
            "yaml"@,
            "yml"@,
            "toml"@,
            "ini"@,
            "conf"@,
            "config"@,
            "txt"@,
            "md"@,
            "py"@,
            "js"@,
            "ts"@,
            "php"@,
            "java"@,
            "kt"@,
            "rs"@,
            "go"@,
            "cs"@,
            "xml"@,
            "properties"@,
        ],
        max_scanned_bytes() == 8388608,
{
    let b = blocked_fragments();
    if contains_text(lower, "\\node_modules\\"@) {
        assert(contains_text(lower, b[0]));
    }
    if contains_text(lower, "\\.git\\"@) {
        assert(contains_text(lower, b[1]));
    }
    if contains_text(lower, "\\target\\"@) {
        assert(contains_text(lower, b[2]));
    }
    if contains_text(lower, "\\build\\"@) {
        assert(contains_text(lower, b[3]));
    }
    if contains_text(lower, "\\dist\\"@) {
        assert(contains_text(lower, b[4]));
    }
    if contains_text(lower, "/node_modules/"@) {
        assert(contains_text(lower, b[5]));
    }
    if contains_text(lower, "/.git/"@) {
        assert(contains_text(lower, b[6]));
    }
    if contains_text(lower, "/target/"@) {
        assert(contains_text(lower, b[7]));
    }
    if contains_text(lower, "/build/"@) {
        assert(contains_text(lower, b[8]));
    }
    if contains_text(lower, "/dist/"@) {
        assert(contains_text(lower, b[9]));
    }
}

/// What a hit records: the path HTML-escaped, the line number, the kind,
/// the matched text masked, and the line with its first occurrence of the
/// match masked, cut to 160 bytes; its finding is high for private keys,
/// AWS access keys and GitHub tokens and medium otherwise, with the path
/// and line as evidence.
pub proof fn law_hit_records_are_the_documented_ones(path: Seq<char>, h: (nat, Seq<char>, Seq<char>, Seq<char>))
    ensures
        hit_observation(path, h) == (html_escaped(path), h.0, h.2, masked(h.3), cleaned(
            redacted(h.1, h.3),
            160,
        )),
        hit_finding(path, h) == (
            if h.2 == "private_key"@ || h.2 == "aws_access_key"@ || h.2 == "github_token"@ {
                "high"@
            } else {
                "medium"@
            },
            "secrets"@,
            h.2,
            "Potential secret detected"@,
            path + ":"@ + decimal(h.0) + " matched "@ + h.2,
            "Rotate the secret if real, remove it from source control, and move it to a secure secret store."@,
            path + ":"@ + decimal(h.0),
        ),
{
}

/// Hits of a prefix of the lines are a prefix of the hits.
pub proof fn lemma_hits_prefix(ls: Seq<Seq<char>>, a: int, b: int)
    requires
        0 <= a <= b <= ls.len(),
    ensures
        hits_of_lines(ls, a).len() <= hits_of_lines(ls, b).len(),
        forall|i: int|
            0 <= i < hits_of_lines(ls, a).len() ==> #[trigger] hits_of_lines(ls, b)[i]
                == hits_of_lines(ls, a)[i],
    decreases b - a,
{
    if a < b {
        lemma_hits_prefix(ls, a, b - 1);
    }
}

} // verus!
