//! Reports: the risk score and verdict of a case, its summary, the HTML
//! report and the SARIF results.
use vstd::prelude::*;
use vstd::multiset::Multiset;
use crate::models::{
    Finding, HashObservation, PasswordObservation, ReportSummary, SecretObservation, WebObservation,
};
use crate::clock::{iso_shape, now_iso, now_stamp, stamp_shape};
use crate::ext::{json_compact, json_compact_list};
use crate::text::{
    decimal, decimal_i64, decimal_u64, push_text, signed_decimal, text_eq, to_uppercase, uppercase,
    views,
};
use crate::util::{html_escape, html_escaped};

verus! {

/// Severity class: 0 critical, 1 high, 2 medium, 3 low, 4 anything else.
pub open spec fn severity_class(sev: Seq<char>) -> nat {
    if sev == "critical"@ {
        0
    } else if sev == "high"@ {
        1
    } else if sev == "medium"@ {
        2
    } else if sev == "low"@ {
        3
    } else {
        4
    }
}

/// The score a single finding of that severity class sets at least.
pub open spec fn class_floor(class: nat) -> nat {
    if class == 0 {
        100
    } else if class == 1 {
        75
    } else if class == 2 {
        45
    } else if class == 3 {
        20
    } else {
        0
    }
}

/// The severities of a list of findings.
pub open spec fn severities(fs: Seq<Finding>) -> Seq<Seq<char>> {
    fs.map_values(|f: Finding| f.severity@)
}

/// Highest floor among the severities.
pub open spec fn max_floor(sevs: Seq<Seq<char>>) -> nat
    decreases sevs.len(),
{
    if sevs.len() == 0 {
        0
    } else {
        let rest = max_floor(sevs.drop_last());
        let here = class_floor(severity_class(sevs.last()));
        if here > rest {
            here
        } else {
            rest
        }
    }
}

/// How many severities fall in the class.
pub open spec fn class_count(sevs: Seq<Seq<char>>, class: nat) -> nat
    decreases sevs.len(),
{
    if sevs.len() == 0 {
        0
    } else {
        class_count(sevs.drop_last(), class) + if severity_class(sevs.last()) == class {
            1nat
        } else {
            0nat
        }
    }
}

/// `a` or `b`, whichever is larger.
pub open spec fn max_nat(a: nat, b: nat) -> nat {
    if a >= b {
        a
    } else {
        b
    }
}

/// The score from the highest floor and the high and medium counts: five
/// high findings raise it to 90, two to 80, otherwise ten medium ones to 65;
/// it never exceeds 100.
pub open spec fn combine_score(base: nat, high: nat, medium: nat) -> nat {
    let s = if high >= 5 {
        max_nat(base, 90)
    } else if high >= 2 {
        max_nat(base, 80)
    } else if medium >= 10 {
        max_nat(base, 65)
    } else {
        base
    };
    if s > 100 {
        100
    } else {
        s
    }
}

/// The risk score of a list of severities.
pub open spec fn score_of(sevs: Seq<Seq<char>>) -> nat {
    combine_score(max_floor(sevs), class_count(sevs, 1), class_count(sevs, 2))
}

fn class_of(sev: &str) -> (c: u8)
    ensures
        c as nat == severity_class(sev@),
{
    if text_eq(sev, "critical") {
        0
    } else if text_eq(sev, "high") {
        1
    } else if text_eq(sev, "medium") {
        2
    } else if text_eq(sev, "low") {
        3
    } else {
        4
    }
}

proof fn lemma_max_floor_le(sevs: Seq<Seq<char>>)
    ensures
        max_floor(sevs) <= 100,
    decreases sevs.len(),
{
    if sevs.len() > 0 {
        lemma_max_floor_le(sevs.drop_last());
    }
}

proof fn lemma_class_count_le(sevs: Seq<Seq<char>>, class: nat)
    ensures
        class_count(sevs, class) <= sevs.len(),
    decreases sevs.len(),
{
    if sevs.len() > 0 {
        lemma_class_count_le(sevs.drop_last(), class);
    }
}

/// The risk score of a list of findings, from 0 to 100.
pub fn score_findings(findings: &[Finding]) -> (score: u32)
    ensures
        score == score_of(severities(findings@)),
        score <= 100,
{
    let ghost sevs = severities(findings@);
    let mut score: u32 = 0;
    let mut high: usize = 0;
    let mut medium: usize = 0;
    let mut i: usize = 0;
    while i < findings.len()
        invariant
            sevs == severities(findings@),
            i <= findings@.len(),
            score == max_floor(sevs.take(i as int)),
            high == class_count(sevs.take(i as int), 1),
            medium == class_count(sevs.take(i as int), 2),
            high <= i,
            medium <= i,
        decreases findings@.len() - i,
    {
        let c = class_of(findings[i].severity.as_str());
        proof {
            let t = sevs.take(i as int + 1);
            assert(t.drop_last() =~= sevs.take(i as int));
            assert(t.last() == findings@[i as int].severity@);
        }
        if c == 0 {
            if score < 100 {
                score = 100;
            }
        } else if c == 1 {
            if score < 75 {
                score = 75;
            }
            high = high + 1;
        } else if c == 2 {
            if score < 45 {
                score = 45;
            }
            medium = medium + 1;
        } else if c == 3 {
            if score < 20 {
                score = 20;
            }
        }
        i = i + 1;
    }
    proof {
        assert(sevs.take(i as int) =~= sevs);
        lemma_max_floor_le(sevs);
    }
    if high >= 5 {
        if score < 90 {
            score = 90;
        }
    } else if high >= 2 {
        if score < 80 {
            score = 80;
        }
    } else if medium >= 10 {
        if score < 65 {
            score = 65;
        }
    }
    if score > 100 {
        100
    } else {
        score
    }
}

proof fn lemma_combine_monotone(b1: nat, h1: nat, m1: nat, b2: nat, h2: nat, m2: nat)
    requires
        b1 <= b2,
        h1 <= h2,
        m1 <= m2,
    ensures
        combine_score(b1, h1, m1) <= combine_score(b2, h2, m2),
{
}

proof fn lemma_max_floor_covers(sevs: Seq<Seq<char>>, i: int)
    requires
        0 <= i < sevs.len(),
    ensures
        max_floor(sevs) >= class_floor(severity_class(sevs[i])),
    decreases sevs.len(),
{
    if i < sevs.len() - 1 {
        lemma_max_floor_covers(sevs.drop_last(), i);
        assert(sevs.drop_last()[i] == sevs[i]);
    }
}

/// The risk score is at least the floor of every finding's severity: 100
/// with a critical finding, 75 with a high one, 45 with a medium one and 20
/// with a low one.
pub proof fn law_score_covers_every_finding(fs: Seq<Finding>, i: int)
    requires
        0 <= i < fs.len(),
    ensures
        score_of(severities(fs)) >= class_floor(severity_class(fs[i].severity@)),
{
    let s = severities(fs);
    assert(s[i] == fs[i].severity@);
    lemma_max_floor_covers(s, i);
    lemma_max_floor_le(s);
}

/// The floor that a collection of severities sets: that of its worst known
/// severity, 0 when it has none.
pub open spec fn floor_of_counts(m: Multiset<Seq<char>>) -> nat {
    if m.count("critical"@) > 0 {
        100
    } else if m.count("high"@) > 0 {
        75
    } else if m.count("medium"@) > 0 {
        45
    } else if m.count("low"@) > 0 {
        20
    } else {
        0
    }
}

proof fn lemma_severity_names()
    ensures
        severity_class("critical"@) == 0,
        severity_class("high"@) == 1,
        severity_class("medium"@) == 2,
        severity_class("low"@) == 3,
{
    reveal_strlit("critical");
    reveal_strlit("high");
    reveal_strlit("medium");
    reveal_strlit("low");
    assert("high"@ != "critical"@) by {
        assert("high"@.len() != "critical"@.len());
    }
    assert("medium"@ != "critical"@) by {
        assert("medium"@.len() != "critical"@.len());
    }
    assert("medium"@ != "high"@) by {
        assert("medium"@.len() != "high"@.len());
    }
    assert("low"@ != "critical"@) by {
        assert("low"@.len() != "critical"@.len());
    }
    assert("low"@ != "high"@) by {
        assert("low"@[0] != "high"@[0]);
    }
    assert("low"@ != "medium"@) by {
        assert("low"@.len() != "medium"@.len());
    }
}

proof fn lemma_score_by_counts(sevs: Seq<Seq<char>>)
    ensures
        max_floor(sevs) == floor_of_counts(sevs.to_multiset()),
        class_count(sevs, 1) == sevs.to_multiset().count("high"@),
        class_count(sevs, 2) == sevs.to_multiset().count("medium"@),
    decreases sevs.len(),
{
    broadcast use vstd::seq_lib::group_to_multiset_ensures;
    lemma_severity_names();
    if sevs.len() == 0 {
        assert(sevs.to_multiset() =~= Multiset::empty());
    } else {
        let r = sevs.drop_last();
        let x = sevs.last();
        lemma_score_by_counts(r);
        assert(r.push(x) == sevs);
        assert(sevs.to_multiset() =~= r.to_multiset().insert(x));
    }
}

/// The risk score does not depend on the order of the findings: lists whose
/// severities form the same multiset score the same.
pub proof fn law_score_ignores_order(fs1: Seq<Finding>, fs2: Seq<Finding>)
    requires
        severities(fs1).to_multiset() == severities(fs2).to_multiset(),
    ensures
        score_of(severities(fs1)) == score_of(severities(fs2)),
{
    lemma_score_by_counts(severities(fs1));
    lemma_score_by_counts(severities(fs2));
}

/// Adding a finding never lowers the risk score.
pub proof fn law_score_never_drops_with_more_findings(fs: Seq<Finding>, f: Finding)
    ensures
        score_of(severities(fs.push(f))) >= score_of(severities(fs)),
{
    let s = severities(fs);
    let t = severities(fs.push(f));
    assert(t =~= s.push(f.severity@));
    assert(t.drop_last() =~= s);
    lemma_combine_monotone(
        max_floor(s),
        class_count(s, 1),
        class_count(s, 2),
        max_floor(t),
        class_count(t, 1),
        class_count(t, 2),
    );
}

proof fn lemma_unranked(sevs: Seq<Seq<char>>)
    ensures
        (max_floor(sevs) == 0) <==> (forall|i: int|
            0 <= i < sevs.len() ==> severity_class(#[trigger] sevs[i]) == 4),
        (forall|i: int| 0 <= i < sevs.len() ==> severity_class(#[trigger] sevs[i]) == 4) ==> (
        class_count(sevs, 1) == 0 && class_count(sevs, 2) == 0),
    decreases sevs.len(),
{
    if sevs.len() > 0 {
        let r = sevs.drop_last();
        lemma_unranked(r);
        if forall|i: int| 0 <= i < sevs.len() ==> severity_class(#[trigger] sevs[i]) == 4 {
            assert forall|i: int| 0 <= i < r.len() implies severity_class(#[trigger] r[i]) == 4 by {
                assert(r[i] == sevs[i]);
            }
            assert(severity_class(sevs[sevs.len() - 1]) == 4);
        }
        if max_floor(sevs) == 0 {
            assert forall|i: int| 0 <= i < sevs.len() implies severity_class(#[trigger] sevs[i]) == 4 by {
                if i < r.len() {
                    assert(r[i] == sevs[i]);
                }
            }
        }
    }
}

/// The risk score is 0 exactly when no finding has a known severity
/// (critical, high, medium or low).
pub proof fn law_score_zero_iff_no_ranked_finding(fs: Seq<Finding>)
    ensures
        score_of(severities(fs)) == 0 <==> forall|i: int|
            0 <= i < fs.len() ==> severity_class(#[trigger] fs[i].severity@) == 4,
{
    let s = severities(fs);
    lemma_unranked(s);
    assert((forall|i: int| 0 <= i < fs.len() ==> severity_class(#[trigger] fs[i].severity@) == 4)
        <==> (forall|i: int| 0 <= i < s.len() ==> severity_class(#[trigger] s[i]) == 4)) by {
        if forall|i: int| 0 <= i < fs.len() ==> severity_class(#[trigger] fs[i].severity@) == 4 {
            assert forall|i: int| 0 <= i < s.len() implies severity_class(#[trigger] s[i]) == 4 by {
                assert(s[i] == fs[i].severity@);
            }
        }
        if forall|i: int| 0 <= i < s.len() ==> severity_class(#[trigger] s[i]) == 4 {
            assert forall|i: int| 0 <= i < fs.len() implies severity_class(
                #[trigger] fs[i].severity@,
            ) == 4 by {
                assert(s[i] == fs[i].severity@);
            }
        }
    }
}

/// The verdict on a score.
pub open spec fn verdict_of(score: nat) -> Seq<char> {
    if score >= 90 {
        "critical"@
    } else if score >= 70 {
        "high"@
    } else if score >= 40 {
        "medium"@
    } else if score > 0 {
        "low"@
    } else {
        "clean"@
    }
}

/// The verdict on a score: critical, high, medium, low or clean.
pub fn verdict(score: u32) -> (r: String)
    ensures
        r@ == verdict_of(score as nat),
{
    if score >= 90 {
        "critical".to_owned()
    } else if score >= 70 {
        "high".to_owned()
    } else if score >= 40 {
        "medium".to_owned()
    } else if score > 0 {
        "low".to_owned()
    } else {
        "clean".to_owned()
    }
}

/// The summary of a case's report.
pub fn build_summary(
    case_name: String,
    generated_at: String,
    findings: &[Finding],
    web_observations: usize,
    secret_observations: usize,
    password_observations: usize,
    hash_observations: usize,
) -> (s: ReportSummary)
    ensures
        s.case_name == case_name,
        s.generated_at == generated_at,
        s.score == score_of(severities(findings@)),
        s.verdict@ == verdict_of(s.score as nat),
        s.findings == findings@.len(),
        s.web_observations == web_observations,
        s.secret_observations == secret_observations,
        s.password_observations == password_observations,
        s.hash_observations == hash_observations,
{
    let score = score_findings(findings);
    ReportSummary {
        case_name,
        generated_at,
        score,
        verdict: verdict(score),
        findings: findings.len(),
        web_observations,
        secret_observations,
        password_observations,
        hash_observations,
    }
}

/// A case is judged clean exactly when its score is 0, and a critical
/// verdict comes with a score of at least 90.
pub proof fn law_verdict_follows_score(score: nat)
    ensures
        verdict_of(score) == "clean"@ <==> score == 0,
        verdict_of(score) == "critical"@ <==> score >= 90,
{
    reveal_strlit("clean");
    reveal_strlit("critical");
    reveal_strlit("high");
    reveal_strlit("medium");
    reveal_strlit("low");
    assert("clean"@ != "critical"@) by {
        assert("clean"@[1] != "critical"@[1]);
    }
    assert("high"@ != "clean"@) by {
        assert("high"@[0] != "clean"@[0]);
    }
    assert("medium"@ != "clean"@) by {
        assert("medium"@[0] != "clean"@[0]);
    }
    assert("low"@ != "clean"@) by {
        assert("low"@[0] != "clean"@[0]);
    }
    assert("high"@ != "critical"@) by {
        assert("high"@[0] != "critical"@[0]);
    }
    assert("medium"@ != "critical"@) by {
        assert("medium"@[0] != "critical"@[0]);
    }
    assert("low"@ != "critical"@) by {
        assert("low"@[0] != "critical"@[0]);
    }
}

/// The name of a report file: `warden11_<stamp>.<ext>`.
pub open spec fn report_file_name_of(stamp: Seq<char>, ext: Seq<char>) -> Seq<char> {
    "warden11_"@ + stamp + "."@ + ext
}

/// The name of a report file for a time stamp and an extension.
pub fn report_file_name(stamp: &str, ext: &str) -> (r: String)
    ensures
        r@ == report_file_name_of(stamp@, ext@),
{
    let mut r = "warden11_".to_owned();
    push_text(&mut r, stamp);
    push_text(&mut r, ".");
    push_text(&mut r, ext);
    r
}

/// The summary of a case's report generated now: as `build_summary`, with
/// the current UTC time (RFC 3339, whole seconds, `Z`) as its generation time.
pub fn summary_now(
    case_name: String,
    findings: &[Finding],
    web_observations: usize,
    secret_observations: usize,
    password_observations: usize,
    hash_observations: usize,
) -> (s: ReportSummary)
    ensures
        s.case_name == case_name,
        s.score == score_of(severities(findings@)),
        s.verdict@ == verdict_of(s.score as nat),
        s.findings == findings@.len(),
        s.web_observations == web_observations,
        s.secret_observations == secret_observations,
        s.password_observations == password_observations,
        s.hash_observations == hash_observations,
        iso_shape(s.generated_at@),
{
    build_summary(
        case_name,
        now_iso(),
        findings,
        web_observations,
        secret_observations,
        password_observations,
        hash_observations,
    )
}

/// The names of the JSON, HTML and SARIF report files, all three for the
/// same local time stamp (`%Y%m%d_%H%M%S`) taken now.
pub fn report_file_names_now() -> (r: (String, String, String))
    ensures
        exists|stamp: Seq<char>|
            stamp_shape(stamp) && r.0@ == #[trigger] report_file_name_of(stamp, "json"@)
                && r.1@ == report_file_name_of(stamp, "html"@) && r.2@ == report_file_name_of(
                stamp,
                "sarif"@,
            ),
{
    let stamp = now_stamp();
    let json = report_file_name(stamp.as_str(), "json");
    let html = report_file_name(stamp.as_str(), "html");
    let sarif = report_file_name(stamp.as_str(), "sarif");
    proof {
        assert(json@ == report_file_name_of(stamp@, "json"@));
    }
    (json, html, sarif)
}

/// One SARIF result.
pub struct SarifResult {
    pub rule_id: String,
    pub level: String,
    pub message: String,
    pub uri: String,
}

/// The SARIF level of a severity: error for critical and high, warning for
/// medium, note otherwise.
pub open spec fn sarif_level_of(sev: Seq<char>) -> Seq<char> {
    if sev == "critical"@ || sev == "high"@ {
        "error"@
    } else if sev == "medium"@ {
        "warning"@
    } else {
        "note"@
    }
}

/// The SARIF result of a finding: rule `module.category`, the level of its
/// severity, message `title - detail`, location its evidence.
pub open spec fn sarif_of(f: Finding) -> (Seq<char>, Seq<char>, Seq<char>, Seq<char>) {
    (
        f.module@ + "."@ + f.category@,
        sarif_level_of(f.severity@),
        f.title@ + " - "@ + f.detail@,
        f.evidence@,
    )
}

/// The texts of a SARIF result.
pub open spec fn sarif_view(r: SarifResult) -> (Seq<char>, Seq<char>, Seq<char>, Seq<char>) {
    (r.rule_id@, r.level@, r.message@, r.uri@)
}

/// The SARIF level of a severity.
pub fn sarif_level(sev: &str) -> (r: String)
    ensures
        r@ == sarif_level_of(sev@),
{
    if text_eq(sev, "critical") || text_eq(sev, "high") {
        "error".to_owned()
    } else if text_eq(sev, "medium") {
        "warning".to_owned()
    } else {
        "note".to_owned()
    }
}

/// The SARIF results of the findings, in order.
pub fn sarif_results(findings: &[Finding]) -> (r: Vec<SarifResult>)
    ensures
        r@.map_values(|x: SarifResult| sarif_view(x)) == findings@.map_values(
            |f: Finding| sarif_of(f),
        ),
{
    let mut r: Vec<SarifResult> = Vec::new();
    let mut i: usize = 0;
    while i < findings.len()
        invariant
            i <= findings@.len(),
            r@.map_values(|x: SarifResult| sarif_view(x)) == findings@.take(i as int).map_values(
                |f: Finding| sarif_of(f),
            ),
        decreases findings@.len() - i,
    {
        let f = &findings[i];
        let mut rule_id = f.module.clone();
        push_text(&mut rule_id, ".");
        push_text(&mut rule_id, f.category.as_str());
        let mut message = f.title.clone();
        push_text(&mut message, " - ");
        push_text(&mut message, f.detail.as_str());
        let x = SarifResult {
            rule_id,
            level: sarif_level(f.severity.as_str()),
            message,
            uri: f.evidence.clone(),
        };
        proof {
            assert(r@.push(x).map_values(|x: SarifResult| sarif_view(x)) =~= r@.map_values(
                |x: SarifResult| sarif_view(x),
            ).push(sarif_view(x)));
            assert(findings@.take(i as int + 1).map_values(|f: Finding| sarif_of(f))
                =~= findings@.take(i as int).map_values(|f: Finding| sarif_of(f)).push(
                sarif_of(findings@[i as int]),
            ));
        }
        r.push(x);
        i = i + 1;
    }
    proof {
        assert(findings@.take(i as int) =~= findings@);
    }
    r
}

/// A SARIF log with a single run: its schema and format version, the
/// tool's driver (name, version, information URI) and the run's results.
pub struct SarifLog {
    pub schema: String,
    pub version: String,
    pub tool_name: String,
    pub tool_version: String,
    pub information_uri: String,
    pub results: Vec<SarifResult>,
}

/// The SARIF 2.1.0 log of the findings, one result per finding in order,
/// from the WARDEN-11 driver of the given version.
pub fn sarif_log(findings: &[Finding], tool_version: &str) -> (r: SarifLog)
    ensures
        r.schema@ == "https://json.schemastore.org/sarif-2.1.0.json"@,
        r.version@ == "2.1.0"@,
        r.tool_name@ == "WARDEN-11"@,
        r.tool_version@ == tool_version@,
        r.information_uri@ == "https://github.com/xtr4ng3/warden-11"@,
        r.results@.map_values(|x: SarifResult| sarif_view(x)) == findings@.map_values(
            |f: Finding| sarif_of(f),
        ),
{
    SarifLog {
        schema: "https://json.schemastore.org/sarif-2.1.0.json".to_owned(),
        version: "2.1.0".to_owned(),
        tool_name: "WARDEN-11".to_owned(),
        tool_version: tool_version.to_owned(),
        information_uri: "https://github.com/xtr4ng3/warden-11".to_owned(),
        results: sarif_results(findings),
    }
}

/// Rows joined by line feeds.
pub open spec fn join_lines(rows: Seq<Seq<char>>) -> Seq<char>
    decreases rows.len(),
{
    if rows.len() == 0 {
        Seq::empty()
    } else if rows.len() == 1 {
        rows[0]
    } else {
        join_lines(rows.drop_last()) + "\n"@ + rows.last()
    }
}

/// Joins rows with line feeds.
pub fn join_rows(rows: &Vec<String>) -> (r: String)
    ensures
        r@ == join_lines(views(rows@)),
{
    let mut r = String::new();
    let mut i: usize = 0;
    while i < rows.len()
        invariant
            i <= rows@.len(),
            r@ == join_lines(views(rows@.take(i as int))),
        decreases rows@.len() - i,
    {
        proof {
            let t = views(rows@.take(i as int + 1));
            assert(t.drop_last() =~= views(rows@.take(i as int)));
            assert(t.last() == rows@[i as int]@);
            if i == 0 {
                assert(views(rows@.take(0)) =~= Seq::<Seq<char>>::empty());
                assert(t.len() == 1);
            }
        }
        if i > 0 {
            push_text(&mut r, "\n");
        }
        push_text(&mut r, rows[i].as_str());
        proof {
            if i == 0 {
                assert(r@ =~= views(rows@.take(1))[0]);
            }
        }
        i = i + 1;
    }
    proof {
        assert(rows@.take(i as int) =~= rows@);
    }
    r
}

/// The HTML table row of a finding.
pub open spec fn finding_row(f: Finding) -> Seq<char> {
    "<tr><td>"@ + html_escaped(f.severity@) + "</td><td>"@ + html_escaped(f.module@)
        + "</td><td>"@ + html_escaped(f.category@) + "</td><td><b>"@ + html_escaped(f.title@)
        + "</b><br>"@ + html_escaped(f.detail@) + "</td><td>"@ + html_escaped(f.recommendation@)
        + "</td></tr>"@
}

/// The HTML table row of a web observation.
pub open spec fn web_row(w: WebObservation) -> Seq<char> {
    "<tr><td><code>"@ + html_escaped(w.url@) + "</code></td><td>"@ + signed_decimal(
        w.status as int,
    ) + "</td><td>"@ + html_escaped(w.final_url@) + "</td><td>"@ + html_escaped(
        w.header_summary@,
    ) + "</td><td>"@ + html_escaped(w.forms@) + "</td></tr>"@
}

/// The HTML table row of a secret observation.
pub open spec fn secret_row(s: SecretObservation) -> Seq<char> {
    "<tr><td><code>"@ + html_escaped(s.file_path@) + "</code></td><td>"@ + decimal(s.line as nat)
        + "</td><td>"@ + html_escaped(s.kind@) + "</td><td><code>"@ + html_escaped(
        s.masked_value@,
    ) + "</code></td><td>"@ + html_escaped(s.context@) + "</td></tr>"@
}

/// The HTML table row of a password observation; its issues appear as the
/// compact JSON array of their labels.
pub open spec fn password_row(p: PasswordObservation) -> Seq<char> {
    "<tr><td>"@ + decimal(p.index as nat) + "</td><td>"@ + decimal(p.score as nat) + "</td><td>"@
        + html_escaped(p.label@) + "</td><td>"@ + html_escaped(json_compact(views(p.issues@)))
        + "</td></tr>"@
}

/// The HTML table row of a hash observation.
pub open spec fn hash_row(h: HashObservation) -> Seq<char> {
    "<tr><td><code>"@ + html_escaped(h.value@) + "</code></td><td>"@ + html_escaped(h.kind@)
        + "</td><td>"@ + html_escaped(h.recommendation@) + "</td></tr>"@
}

fn finding_row_exec(f: &Finding) -> (r: String)
    ensures
        r@ == finding_row(*f),
{
    let mut r = "<tr><td>".to_owned();
    push_text(&mut r, html_escape(f.severity.as_str()).as_str());
    push_text(&mut r, "</td><td>");
    push_text(&mut r, html_escape(f.module.as_str()).as_str());
    push_text(&mut r, "</td><td>");
    push_text(&mut r, html_escape(f.category.as_str()).as_str());
    push_text(&mut r, "</td><td><b>");
    push_text(&mut r, html_escape(f.title.as_str()).as_str());
    push_text(&mut r, "</b><br>");
    push_text(&mut r, html_escape(f.detail.as_str()).as_str());
    push_text(&mut r, "</td><td>");
    push_text(&mut r, html_escape(f.recommendation.as_str()).as_str());
    push_text(&mut r, "</td></tr>");
    r
}

fn web_row_exec(w: &WebObservation) -> (r: String)
    ensures
        r@ == web_row(*w),
{
    let mut r = "<tr><td><code>".to_owned();
    push_text(&mut r, html_escape(w.url.as_str()).as_str());
    push_text(&mut r, "</code></td><td>");
    push_text(&mut r, decimal_i64(w.status).as_str());
    push_text(&mut r, "</td><td>");
    push_text(&mut r, html_escape(w.final_url.as_str()).as_str());
    push_text(&mut r, "</td><td>");
    push_text(&mut r, html_escape(w.header_summary.as_str()).as_str());
    push_text(&mut r, "</td><td>");
    push_text(&mut r, html_escape(w.forms.as_str()).as_str());
    push_text(&mut r, "</td></tr>");
    r
}

fn secret_row_exec(s: &SecretObservation) -> (r: String)
    ensures
        r@ == secret_row(*s),
{
    let mut r = "<tr><td><code>".to_owned();
    push_text(&mut r, html_escape(s.file_path.as_str()).as_str());
    push_text(&mut r, "</code></td><td>");
    push_text(&mut r, decimal_u64(s.line as u64).as_str());
    push_text(&mut r, "</td><td>");
    push_text(&mut r, html_escape(s.kind.as_str()).as_str());
    push_text(&mut r, "</td><td><code>");
    push_text(&mut r, html_escape(s.masked_value.as_str()).as_str());
    push_text(&mut r, "</code></td><td>");
    push_text(&mut r, html_escape(s.context.as_str()).as_str());
    push_text(&mut r, "</td></tr>");
    r
}

fn password_row_exec(p: &PasswordObservation) -> (r: String)
    ensures
        r@ == password_row(*p),
{
    let mut r = "<tr><td>".to_owned();
    push_text(&mut r, decimal_u64(p.index as u64).as_str());
    push_text(&mut r, "</td><td>");
    push_text(&mut r, decimal_u64(p.score as u64).as_str());
    push_text(&mut r, "</td><td>");
    push_text(&mut r, html_escape(p.label.as_str()).as_str());
    push_text(&mut r, "</td><td>");
    let issues = json_compact_list(&p.issues);
    push_text(&mut r, html_escape(issues.as_str()).as_str());
    push_text(&mut r, "</td></tr>");
    r
}

fn hash_row_exec(h: &HashObservation) -> (r: String)
    ensures
        r@ == hash_row(*h),
{
    let mut r = "<tr><td><code>".to_owned();
    push_text(&mut r, html_escape(h.value.as_str()).as_str());
    push_text(&mut r, "</code></td><td>");
    push_text(&mut r, html_escape(h.kind.as_str()).as_str());
    push_text(&mut r, "</td><td>");
    push_text(&mut r, html_escape(h.recommendation.as_str()).as_str());
    push_text(&mut r, "</td></tr>");
    r
}

/// The finding rows of the HTML report.
pub fn finding_rows(items: &Vec<Finding>) -> (r: String)
    ensures
        r@ == join_lines(items@.map_values(|f: Finding| finding_row(f))),
{
    let mut rows: Vec<String> = Vec::new();
    let mut i: usize = 0;
    while i < items.len()
        invariant
            i <= items@.len(),
            views(rows@) == items@.take(i as int).map_values(|f: Finding| finding_row(f)),
        decreases items@.len() - i,
    {
        let row = finding_row_exec(&items[i]);
        proof {
            assert(views(rows@.push(row)) =~= views(rows@).push(row@));
            assert(items@.take(i as int + 1).map_values(|f: Finding| finding_row(f))
                =~= items@.take(i as int).map_values(|f: Finding| finding_row(f)).push(
                finding_row(items@[i as int]),
            ));
        }
        rows.push(row);
        i = i + 1;
    }
    proof {
        assert(items@.take(i as int) =~= items@);
    }
    join_rows(&rows)
}

/// The web rows of the HTML report.
pub fn web_rows(items: &Vec<WebObservation>) -> (r: String)
    ensures
        r@ == join_lines(items@.map_values(|w: WebObservation| web_row(w))),
{
    let mut rows: Vec<String> = Vec::new();
    let mut i: usize = 0;
    while i < items.len()
        invariant
            i <= items@.len(),
            views(rows@) == items@.take(i as int).map_values(|w: WebObservation| web_row(w)),
        decreases items@.len() - i,
    {
        let row = web_row_exec(&items[i]);
        proof {
            assert(views(rows@.push(row)) =~= views(rows@).push(row@));
            assert(items@.take(i as int + 1).map_values(|w: WebObservation| web_row(w))
                =~= items@.take(i as int).map_values(|w: WebObservation| web_row(w)).push(
                web_row(items@[i as int]),
            ));
        }
        rows.push(row);
        i = i + 1;
    }
    proof {
        assert(items@.take(i as int) =~= items@);
    }
    join_rows(&rows)
}

/// The secret rows of the HTML report.
pub fn secret_rows(items: &Vec<SecretObservation>) -> (r: String)
    ensures
        r@ == join_lines(items@.map_values(|s: SecretObservation| secret_row(s))),
{
    let mut rows: Vec<String> = Vec::new();
    let mut i: usize = 0;
    while i < items.len()
        invariant
            i <= items@.len(),
            views(rows@) == items@.take(i as int).map_values(
                |s: SecretObservation| secret_row(s),
            ),
        decreases items@.len() - i,
    {
        let row = secret_row_exec(&items[i]);
        proof {
            assert(views(rows@.push(row)) =~= views(rows@).push(row@));
            assert(items@.take(i as int + 1).map_values(|s: SecretObservation| secret_row(s))
                =~= items@.take(i as int).map_values(|s: SecretObservation| secret_row(s)).push(
                secret_row(items@[i as int]),
            ));
        }
        rows.push(row);
        i = i + 1;
    }
    proof {
        assert(items@.take(i as int) =~= items@);
    }
    join_rows(&rows)
}

/// The password rows of the HTML report: the first 200 observations only.
pub fn password_rows(items: &Vec<PasswordObservation>) -> (r: String)
    ensures
        r@ == join_lines(
            items@.take(if items@.len() > 200 { 200 } else { items@.len() as int }).map_values(
                |p: PasswordObservation| password_row(p),
            ),
        ),
{
    let n = if items.len() > 200 {
        200
    } else {
        items.len()
    };
    let mut rows: Vec<String> = Vec::new();
    let mut i: usize = 0;
    while i < n
        invariant
            i <= n <= items@.len(),
            views(rows@) == items@.take(i as int).map_values(
                |p: PasswordObservation| password_row(p),
            ),
        decreases n - i,
    {
        let row = password_row_exec(&items[i]);
        proof {
            assert(views(rows@.push(row)) =~= views(rows@).push(row@));
            assert(items@.take(i as int + 1).map_values(|p: PasswordObservation| password_row(p))
                =~= items@.take(i as int).map_values(|p: PasswordObservation| password_row(p)).push(
                password_row(items@[i as int]),
            ));
        }
        rows.push(row);
        i = i + 1;
    }
    join_rows(&rows)
}

/// The hash rows of the HTML report.
pub fn hash_rows(items: &Vec<HashObservation>) -> (r: String)
    ensures
        r@ == join_lines(items@.map_values(|h: HashObservation| hash_row(h))),
{
    let mut rows: Vec<String> = Vec::new();
    let mut i: usize = 0;
    while i < items.len()
        invariant
            i <= items@.len(),
            views(rows@) == items@.take(i as int).map_values(|h: HashObservation| hash_row(h)),
        decreases items@.len() - i,
    {
        let row = hash_row_exec(&items[i]);
        proof {
            assert(views(rows@.push(row)) =~= views(rows@).push(row@));
            assert(items@.take(i as int + 1).map_values(|h: HashObservation| hash_row(h))
                =~= items@.take(i as int).map_values(|h: HashObservation| hash_row(h)).push(
                hash_row(items@[i as int]),
            ));
        }
        rows.push(row);
        i = i + 1;
    }
    proof {
        assert(items@.take(i as int) =~= items@);
    }
    join_rows(&rows)
}

/// The color of the score in the HTML report.
pub open spec fn score_color(score: nat) -> Seq<char> {
    if score >= 90 {
        "#ff4d4d"@
    } else if score >= 70 {
        "#ff8a3d"@
    } else if score >= 40 {
        "#e8c14d"@
    } else {
        "#3d8bfd"@
    }
}

fn color_of(score: u32) -> (r: &'static str)
    ensures
        r@ == score_color(score as nat),
{
    if score >= 90 {
        "#ff4d4d"
    } else if score >= 70 {
        "#ff8a3d"
    } else if score >= 40 {
        "#e8c14d"
    } else {
        "#3d8bfd"
    }
}

/// The page up to the score color.
pub open spec fn html_head() -> Seq<char> {
    "<!doctype html>\n<html lang=\"en\">\n<head>\n<meta charset=\"utf-8\">\n<title>WARDEN-11 Report</title>\n<style>\nbody{background:#070a10;color:#dbe4ec;font-family:Consolas,Segoe UI,Arial;padding:30px}\nh1,h2{color:#3d8bfd}\n.card{background:#0c1119;border:1px solid #1f2b3a;border-radius:10px;padding:18px;margin:18px 0;box-shadow:0 0 24px rgba(61,139,253,.08)}\ntable{width:100%;border-collapse:collapse;margin-top:12px}\ntd,th{border-bottom:1px solid #1a2430;padding:9px;text-align:left;vertical-align:top}\nth{color:#7fa8d9}\ncode{color:#bcd4ea}\n.score{font-size:58px;font-weight:900;color:"@
}

/// The page from the score color to the generation time.
pub open spec fn html_banner() -> Seq<char> {
    "}\n.small{color:#93a5b8}\n</style>\n</head>\n<body>\n<h1>WARDEN-11</h1>\n<p class=\"small\">Authorized Cyber Patrol Workbench · xtr4ng3 · "@
}

/// The HTML report of a case: the summary's time, score (colored by
/// `score_color`), verdict in upper case and counts, then the tables of
/// findings, web observations, secrets, the first 200 password entries and
/// hashes. Every text from the case is HTML-escaped.
pub open spec fn report_html(
    summary: ReportSummary,
    findings: Seq<Finding>,
    web: Seq<WebObservation>,
    secrets: Seq<SecretObservation>,
    passwords: Seq<PasswordObservation>,
    hashes: Seq<HashObservation>,
) -> Seq<char> {
    html_head() + score_color(summary.score as nat) + html_banner() + html_escaped(
        summary.generated_at@,
    ) + "</p>\n<div class=\"card\"><h2>Verdict</h2><div class=\"score\">"@ + decimal(
        summary.score as nat,
    ) + "/100</div><p><b>"@ + uppercase(html_escaped(summary.verdict@)) + "</b></p>\n<p>Findings: "@
        + decimal(summary.findings as nat) + " · Web: "@ + decimal(summary.web_observations as nat)
        + " · Secrets: "@ + decimal(summary.secret_observations as nat) + " · Passwords: "@
        + decimal(summary.password_observations as nat) + " · Hashes: "@ + decimal(
        summary.hash_observations as nat,
    )
        + "</p></div>\n<div class=\"card\"><h2>Findings</h2><table><tr><th>Severity</th><th>Module</th><th>Category</th><th>Finding</th><th>Recommendation</th></tr>"@
        + join_lines(findings.map_values(|f: Finding| finding_row(f)))
        + "</table></div>\n<div class=\"card\"><h2>Web Surface</h2><table><tr><th>URL</th><th>Status</th><th>Final URL</th><th>Headers</th><th>Forms</th></tr>"@
        + join_lines(web.map_values(|w: WebObservation| web_row(w)))
        + "</table></div>\n<div class=\"card\"><h2>Secrets Patrol</h2><table><tr><th>File</th><th>Line</th><th>Kind</th><th>Masked</th><th>Context</th></tr>"@
        + join_lines(secrets.map_values(|s: SecretObservation| secret_row(s)))
        + "</table></div>\n<div class=\"card\"><h2>Password Hygiene</h2><table><tr><th>#</th><th>Score</th><th>Label</th><th>Issues</th></tr>"@
        + join_lines(
        passwords.take(if passwords.len() > 200 { 200 } else { passwords.len() as int }).map_values(
            |p: PasswordObservation| password_row(p),
        ),
    )
        + "</table></div>\n<div class=\"card\"><h2>Hash Inventory</h2><table><tr><th>Value</th><th>Kind</th><th>Recommendation</th></tr>"@
        + join_lines(hashes.map_values(|h: HashObservation| hash_row(h)))
        + "</table></div>\n<p class=\"small\">WARDEN-11 is defensive and authorized-only. No brute force, no exploitation, no credential theft.</p>\n</body></html>"@
}

/// Renders the HTML report of a case.
pub fn render_html(
    summary: &ReportSummary,
    findings: &Vec<Finding>,
    web: &Vec<WebObservation>,
    secrets: &Vec<SecretObservation>,
    passwords: &Vec<PasswordObservation>,
    hashes: &Vec<HashObservation>,
) -> (r: String)
    ensures
        r@ == report_html(*summary, findings@, web@, secrets@, passwords@, hashes@),
{
    let mut r = String::new();
    push_text(&mut r, "<!doctype html>\n<html lang=\"en\">\n<head>\n<meta charset=\"utf-8\">\n<title>WARDEN-11 Report</title>\n<style>\nbody{background:#070a10;color:#dbe4ec;font-family:Consolas,Segoe UI,Arial;padding:30px}\nh1,h2{color:#3d8bfd}\n.card{background:#0c1119;border:1px solid #1f2b3a;border-radius:10px;padding:18px;margin:18px 0;box-shadow:0 0 24px rgba(61,139,253,.08)}\ntable{width:100%;border-collapse:collapse;margin-top:12px}\ntd,th{border-bottom:1px solid #1a2430;padding:9px;text-align:left;vertical-align:top}\nth{color:#7fa8d9}\ncode{color:#bcd4ea}\n.score{font-size:58px;font-weight:900;color:");
    push_text(&mut r, color_of(summary.score));
    push_text(&mut r, "}\n.small{color:#93a5b8}\n</style>\n</head>\n<body>\n<h1>WARDEN-11</h1>\n<p class=\"small\">Authorized Cyber Patrol Workbench · xtr4ng3 · ");
    push_text(&mut r, html_escape(summary.generated_at.as_str()).as_str());
    push_text(&mut r, "</p>\n<div class=\"card\"><h2>Verdict</h2><div class=\"score\">");
    push_text(&mut r, decimal_u64(summary.score as u64).as_str());
    push_text(&mut r, "/100</div><p><b>");
    let v = html_escape(summary.verdict.as_str());
    push_text(&mut r, to_uppercase(v.as_str()).as_str());
    push_text(&mut r, "</b></p>\n<p>Findings: ");
    push_text(&mut r, decimal_u64(summary.findings as u64).as_str());
    push_text(&mut r, " · Web: ");
    push_text(&mut r, decimal_u64(summary.web_observations as u64).as_str());
    push_text(&mut r, " · Secrets: ");
    push_text(&mut r, decimal_u64(summary.secret_observations as u64).as_str());
    push_text(&mut r, " · Passwords: ");
    push_text(&mut r, decimal_u64(summary.password_observations as u64).as_str());
    push_text(&mut r, " · Hashes: ");
    push_text(&mut r, decimal_u64(summary.hash_observations as u64).as_str());
    push_text(&mut r, "</p></div>\n<div class=\"card\"><h2>Findings</h2><table><tr><th>Severity</th><th>Module</th><th>Category</th><th>Finding</th><th>Recommendation</th></tr>");
    push_text(&mut r, finding_rows(findings).as_str());
    push_text(&mut r, "</table></div>\n<div class=\"card\"><h2>Web Surface</h2><table><tr><th>URL</th><th>Status</th><th>Final URL</th><th>Headers</th><th>Forms</th></tr>");
    push_text(&mut r, web_rows(web).as_str());
    push_text(&mut r, "</table></div>\n<div class=\"card\"><h2>Secrets Patrol</h2><table><tr><th>File</th><th>Line</th><th>Kind</th><th>Masked</th><th>Context</th></tr>");
    push_text(&mut r, secret_rows(secrets).as_str());
    push_text(&mut r, "</table></div>\n<div class=\"card\"><h2>Password Hygiene</h2><table><tr><th>#</th><th>Score</th><th>Label</th><th>Issues</th></tr>");
    push_text(&mut r, password_rows(passwords).as_str());
    push_text(&mut r, "</table></div>\n<div class=\"card\"><h2>Hash Inventory</h2><table><tr><th>Value</th><th>Kind</th><th>Recommendation</th></tr>");
    push_text(&mut r, hash_rows(hashes).as_str());
    push_text(&mut r, "</table></div>\n<p class=\"small\">WARDEN-11 is defensive and authorized-only. No brute force, no exploitation, no credential theft.</p>\n</body></html>");
    proof {
        assert(Seq::<char>::empty() + html_head() =~= html_head());
    }
    r
}

/// Each table row of the HTML report shows its own record's fields, cell by
/// cell and HTML-escaped: a web row its URL, status, final URL, header
/// summary and forms; a finding row its severity, module, category, title
/// with detail, and recommendation; a secret row its file, line, kind,
/// masked value and context; a password row its index, score, label and
/// issues (as a JSON list); a hash row its masked value, kind and advice.
pub proof fn law_rows_show_their_own_fields(
    w: WebObservation,
    f: Finding,
    s: SecretObservation,
    p: PasswordObservation,
    h: HashObservation,
)
    ensures
        web_row(w) == "<tr><td><code>"@ + html_escaped(w.url@) + "</code></td><td>"@
            + signed_decimal(w.status as int) + "</td><td>"@ + html_escaped(w.final_url@)
            + "</td><td>"@ + html_escaped(w.header_summary@) + "</td><td>"@ + html_escaped(
            w.forms@,
        ) + "</td></tr>"@,
        finding_row(f) == "<tr><td>"@ + html_escaped(f.severity@) + "</td><td>"@ + html_escaped(
            f.module@,
        ) + "</td><td>"@ + html_escaped(f.category@) + "</td><td><b>"@ + html_escaped(f.title@)
            + "</b><br>"@ + html_escaped(f.detail@) + "</td><td>"@ + html_escaped(
            f.recommendation@,
        ) + "</td></tr>"@,
        secret_row(s) == "<tr><td><code>"@ + html_escaped(s.file_path@) + "</code></td><td>"@
            + decimal(s.line as nat) + "</td><td>"@ + html_escaped(s.kind@) + "</td><td><code>"@
            + html_escaped(s.masked_value@) + "</code></td><td>"@ + html_escaped(s.context@)
            + "</td></tr>"@,
        password_row(p) == "<tr><td>"@ + decimal(p.index as nat) + "</td><td>"@ + decimal(
            p.score as nat,
        ) + "</td><td>"@ + html_escaped(p.label@) + "</td><td>"@ + html_escaped(
            json_compact(views(p.issues@)),
        ) + "</td></tr>"@,
        hash_row(h) == "<tr><td><code>"@ + html_escaped(h.value@) + "</code></td><td>"@
            + html_escaped(h.kind@) + "</td><td>"@ + html_escaped(h.recommendation@)
            + "</td></tr>"@,
{
}

/// The table rows of the HTML report are the records' rows, one per record
/// in order, separated by line feeds.
pub proof fn law_rows_join_in_order(rows: Seq<Seq<char>>)
    ensures
        rows.len() == 0 ==> join_lines(rows) == Seq::<char>::empty(),
        rows.len() == 1 ==> join_lines(rows) == rows[0],
        rows.len() > 1 ==> join_lines(rows) == join_lines(rows.drop_last()) + "\n"@ + rows.last(),
{
}

/// The documented scoring: a critical finding sets the score to at least
/// 100, a high one 75, a medium one 45, a low one 20, anything else 0; five
/// high findings raise it to 90, two to 80, ten medium ones to 65; it never
/// passes 100. Verdicts: critical from 90, high from 70, medium from 40,
/// low above 0, clean at 0. SARIF levels: error for critical and high,
/// warning for medium, note otherwise.
pub proof fn law_scoring_is_the_documented_one(sev: Seq<char>, base: nat, high: nat, medium: nat, score: nat)
    ensures
        class_floor(severity_class(sev)) == (if sev == "critical"@ {
            100nat
        } else if sev == "high"@ {
            75nat
        } else if sev == "medium"@ {
            45nat
        } else if sev == "low"@ {
            20nat
        } else {
            0nat
        }),
        combine_score(base, high, medium) == ({
            let s = if high >= 5 && base < 90 {
                90
            } else if high >= 5 {
                base
            } else if high >= 2 && base < 80 {
                80
            } else if high >= 2 {
                base
            } else if medium >= 10 && base < 65 {
                65
            } else {
                base
            };
            if s > 100 { 100 } else { s }
        }),
        verdict_of(score) == (if score >= 90 {
            "critical"@
        } else if score >= 70 {
            "high"@
        } else if score >= 40 {
            "medium"@
        } else if score > 0 {
            "low"@
        } else {
            "clean"@
        }),
        sarif_level_of(sev) == (if sev == "critical"@ || sev == "high"@ {
            "error"@
        } else if sev == "medium"@ {
            "warning"@
        } else {
            "note"@
        }),
{
}

} // verus!
