use warden11::case::{case_meta_now, case_name, case_notes, initial_scope_text, meta_entries, new_case_meta, status_lines};
use warden11::models::{new_finding, Finding, HashObservation, PasswordObservation, SecretObservation, WebObservation};
use warden11::report::{
    build_summary, finding_rows, hash_rows, join_rows, password_rows, render_html, report_file_name, report_file_names_now, summary_now,
    sarif_level, sarif_log, sarif_results, score_findings, secret_rows, verdict, web_rows,
};

fn finding(sev: &str) -> Finding {
    new_finding(sev, "web", "headers", "Title", "Detail".to_string(), "Fix it", "https://x.test/".to_string())
}

fn findings(sevs: &[&str]) -> Vec<Finding> {
    sevs.iter().map(|s| finding(s)).collect()
}

#[test]
fn score_of_no_findings_is_zero() {
    assert_eq!(score_findings(&[]), 0);
    assert_eq!(score_findings(&findings(&["info", "unknown"])), 0);
}

#[test]
fn score_takes_the_worst_severity() {
    assert_eq!(score_findings(&findings(&["low"])), 20);
    assert_eq!(score_findings(&findings(&["low", "medium"])), 45);
    assert_eq!(score_findings(&findings(&["high", "low"])), 75);
    assert_eq!(score_findings(&findings(&["critical"])), 100);
}

#[test]
fn score_rises_with_many_findings() {
    assert_eq!(score_findings(&findings(&["high", "high"])), 80);
    assert_eq!(score_findings(&findings(&["high"; 5])), 90);
    assert_eq!(score_findings(&findings(&["medium"; 10])), 65);
    assert_eq!(score_findings(&findings(&["medium"; 9])), 45);
    assert_eq!(score_findings(&findings(&["critical", "high", "high"])), 100);
}

#[test]
fn more_findings_never_lower_the_score() {
    let mut fs = Vec::new();
    let mut last = 0;
    for s in ["low", "medium", "info", "high", "medium", "high", "low", "critical"] {
        fs.push(finding(s));
        let now = score_findings(&fs);
        assert!(now >= last);
        last = now;
    }
}

#[test]
fn verdict_bands() {
    assert_eq!(verdict(100), "critical");
    assert_eq!(verdict(90), "critical");
    assert_eq!(verdict(89), "high");
    assert_eq!(verdict(70), "high");
    assert_eq!(verdict(69), "medium");
    assert_eq!(verdict(40), "medium");
    assert_eq!(verdict(39), "low");
    assert_eq!(verdict(1), "low");
    assert_eq!(verdict(0), "clean");
}

#[test]
fn summary_counts_and_scores() {
    let fs = findings(&["high", "high"]);
    let s = build_summary("audit".to_string(), "2024-01-01T00:00:00Z".to_string(), &fs, 1, 2, 3, 4);
    assert_eq!(s.case_name, "audit");
    assert_eq!(s.generated_at, "2024-01-01T00:00:00Z");
    assert_eq!(s.score, 80);
    assert_eq!(s.verdict, "high");
    assert_eq!(s.findings, 2);
    assert_eq!(s.web_observations, 1);
    assert_eq!(s.secret_observations, 2);
    assert_eq!(s.password_observations, 3);
    assert_eq!(s.hash_observations, 4);
}

#[test]
fn report_file_names() {
    assert_eq!(report_file_name("20240101_120000", "json"), "warden11_20240101_120000.json");
    assert_eq!(report_file_name("s", "sarif"), "warden11_s.sarif");
}

#[test]
fn sarif_levels_and_results() {
    assert_eq!(sarif_level("critical"), "error");
    assert_eq!(sarif_level("high"), "error");
    assert_eq!(sarif_level("medium"), "warning");
    assert_eq!(sarif_level("low"), "note");
    assert_eq!(sarif_level("whatever"), "note");
    let rs = sarif_results(&findings(&["medium", "critical"]));
    assert_eq!(rs.len(), 2);
    assert_eq!(rs[0].rule_id, "web.headers");
    assert_eq!(rs[0].level, "warning");
    assert_eq!(rs[0].message, "Title - Detail");
    assert_eq!(rs[0].uri, "https://x.test/");
    assert_eq!(rs[1].level, "error");
}

#[test]
fn table_rows_escape_their_texts() {
    assert_eq!(join_rows(&vec!["a".to_string(), "b".to_string()]), "a\nb");
    assert_eq!(join_rows(&Vec::new()), "");
    let f = new_finding("high", "web", "forms", "<T>", "a & b".to_string(), "R\"", "e".to_string());
    assert_eq!(
        finding_rows(&vec![f]),
        "<tr><td>high</td><td>web</td><td>forms</td><td><b>&lt;T&gt;</b><br>a &amp; b</td><td>R&quot;</td></tr>"
    );
    let w = WebObservation {
        url: "https://x/".to_string(),
        status: -1,
        final_url: "https://x/".to_string(),
        https: true,
        header_summary: "server=a".to_string(),
        cookies: String::new(),
        forms: "forms=0 password_inputs=0".to_string(),
        notes: String::new(),
    };
    assert_eq!(
        web_rows(&vec![w]),
        "<tr><td><code>https://x/</code></td><td>-1</td><td>https://x/</td><td>server=a</td><td>forms=0 password_inputs=0</td></tr>"
    );
    let s = SecretObservation {
        file_path: "a&amp;b.env".to_string(),
        line: 3,
        kind: "aws_access_key".to_string(),
        masked_value: "AKIA...MNOP".to_string(),
        context: "k=AKIA...MNOP".to_string(),
    };
    assert_eq!(
        secret_rows(&vec![s]),
        "<tr><td><code>a&amp;amp;b.env</code></td><td>3</td><td>aws_access_key</td><td><code>AKIA...MNOP</code></td><td>k=AKIA...MNOP</td></tr>"
    );
    let h = HashObservation { value: "5f4d...cf99".to_string(), kind: "SHA1".to_string(), recommendation: "r".to_string() };
    assert_eq!(
        hash_rows(&vec![h]),
        "<tr><td><code>5f4d...cf99</code></td><td>SHA1</td><td>r</td></tr>"
    );
}

#[test]
fn password_rows_show_issues_as_json_and_stop_at_two_hundred() {
    let p = PasswordObservation {
        index: 4,
        score: 0,
        label: "critical".to_string(),
        issues: vec!["too_short".to_string(), "reused_in_file".to_string()],
    };
    assert_eq!(
        password_rows(&vec![p]),
        "<tr><td>4</td><td>0</td><td>critical</td><td>[&quot;too_short&quot;,&quot;reused_in_file&quot;]</td></tr>"
    );
    let many: Vec<PasswordObservation> = (0..250)
        .map(|i| PasswordObservation { index: i, score: 100, label: "strong".to_string(), issues: Vec::new() })
        .collect();
    let rows = password_rows(&many);
    assert_eq!(rows.lines().count(), 200);
    assert!(rows.ends_with("<tr><td>199</td><td>100</td><td>strong</td><td>[]</td></tr>"));
}

#[test]
fn html_report_shows_summary_and_tables() {
    let fs = findings(&["high"]);
    let s = build_summary("audit".to_string(), "2024-01-01T00:00:00Z".to_string(), &fs, 0, 0, 0, 0);
    let html = render_html(&s, &fs, &Vec::new(), &Vec::new(), &Vec::new(), &Vec::new());
    assert!(html.starts_with("<!doctype html>\n<html lang=\"en\">"));
    assert!(html.contains(".score{font-size:58px;font-weight:900;color:#ff8a3d}"));
    assert!(html.contains("<div class=\"score\">75/100</div><p><b>HIGH</b></p>"));
    assert!(html.contains("Findings: 1 · Web: 0 · Secrets: 0 · Passwords: 0 · Hashes: 0"));
    assert!(html.contains("Authorized Cyber Patrol Workbench · xtr4ng3 · 2024-01-01T00:00:00Z</p>"));
    assert!(html.contains("<td><b>Title</b><br>Detail</td>"));
    assert!(html.ends_with("No brute force, no exploitation, no credential theft.</p>\n</body></html>"));
}

#[test]
fn clean_report_uses_blue_score() {
    let s = build_summary("c".to_string(), "t".to_string(), &[], 0, 0, 0, 0);
    let html = render_html(&s, &Vec::new(), &Vec::new(), &Vec::new(), &Vec::new(), &Vec::new());
    assert!(html.contains("color:#3d8bfd}\n.small"));
    assert!(html.contains("0/100</div><p><b>CLEAN</b>"));
}

#[test]
fn case_names_and_metadata() {
    assert_eq!(case_name(Some("audit".to_string())), "audit");
    assert_eq!(case_name(None), "warden11-case");
    let m = new_case_meta("audit".to_string(), None, "2024-01-01T00:00:00Z".to_string(), "1.0.0");
    assert_eq!(m.title, "audit");
    assert_eq!(m.tool, "WARDEN-11");
    assert_eq!(m.author, "xtr4ng3");
    assert_eq!(m.version, "1.0.0");
    let t = new_case_meta("audit".to_string(), Some("Authorized patrol".to_string()), "x".to_string(), "1.0.0");
    assert_eq!(t.title, "Authorized patrol");
    assert_eq!(
        case_notes(&t),
        "# Authorized patrol\n\nCreated: x\nTool: WARDEN-11 1.0.0\nAuthor: xtr4ng3\n\nAuthorized cyber patrol workspace.\n"
    );
    assert_eq!(initial_scope_text(), "[]\n");
    let e = meta_entries(&t);
    assert_eq!(e.len(), 6);
    assert_eq!(e[0], ("name".to_string(), "audit".to_string()));
    assert_eq!(e[1], ("title".to_string(), "Authorized patrol".to_string()));
    assert_eq!(e[5], ("author".to_string(), "xtr4ng3".to_string()));
}

#[test]
fn status_lists_counts() {
    let m = new_case_meta("audit".to_string(), None, "2024".to_string(), "1.0.0");
    let lines = status_lines(&m, 1, 2, 3, 4, 5, "cases/audit/reports");
    assert_eq!(
        lines,
        vec![
            "WARDEN-11 STATUS",
            "case      : audit",
            "title     : audit",
            "created   : 2024",
            "findings  : 1",
            "web       : 2",
            "secrets   : 3",
            "passwords : 4",
            "hashes    : 5",
            "reports   : cases/audit/reports",
        ]
    );
}

#[test]
fn reports_made_now_share_one_stamp() {
    let (json, html, sarif) = report_file_names_now();
    assert!(json.starts_with("warden11_") && json.ends_with(".json"));
    let stamp = &json["warden11_".len()..json.len() - ".json".len()];
    assert_eq!(stamp.len(), 15);
    assert_eq!(html, format!("warden11_{}.html", stamp));
    assert_eq!(sarif, format!("warden11_{}.sarif", stamp));
}

#[test]
fn summary_now_scores_like_build_summary() {
    let fs = findings(&["medium"]);
    let s = summary_now("audit".to_string(), &fs, 1, 0, 0, 2);
    assert_eq!(s.case_name, "audit");
    assert_eq!(s.score, 45);
    assert_eq!(s.verdict, "medium");
    assert_eq!(s.hash_observations, 2);
    assert_eq!(s.generated_at.len(), 20);
    assert!(s.generated_at.ends_with('Z'));
}

#[test]
fn case_meta_now_stamps_the_creation_time() {
    let m = case_meta_now("audit".to_string(), None, "1.0.0");
    assert_eq!(m.name, "audit");
    assert_eq!(m.title, "audit");
    assert_eq!(m.tool, "WARDEN-11");
    assert_eq!(m.created_at.len(), 20);
    assert_eq!(&m.created_at[4..5], "-");
    assert_eq!(&m.created_at[10..11], "T");
}

#[test]
fn sarif_log_fixes_the_envelope() {
    let log = sarif_log(&findings(&["high", "low"]), "1.0.0");
    assert_eq!(log.schema, "https://json.schemastore.org/sarif-2.1.0.json");
    assert_eq!(log.version, "2.1.0");
    assert_eq!(log.tool_name, "WARDEN-11");
    assert_eq!(log.tool_version, "1.0.0");
    assert_eq!(log.information_uri, "https://github.com/xtr4ng3/warden-11");
    assert_eq!(log.results.len(), 2);
    assert_eq!(log.results[0].level, "error");
    assert_eq!(log.results[1].level, "note");
    assert_eq!(log.results[1].message, "Title - Detail");
}

#[test]
fn score_ignores_the_order_of_findings() {
    let a = findings(&["low", "high", "medium", "high", "info"]);
    let b = findings(&["high", "info", "high", "low", "medium"]);
    assert_eq!(score_findings(&a), 80);
    assert_eq!(score_findings(&a), score_findings(&b));
    let mut c = findings(&["medium"; 10]);
    c.insert(3, finding("low"));
    let mut d = findings(&["medium"; 10]);
    d.push(finding("low"));
    assert_eq!(score_findings(&c), 65);
    assert_eq!(score_findings(&c), score_findings(&d));
}

#[test]
fn time_texts_have_their_documented_shape() {
    let (json, _, _) = report_file_names_now();
    let stamp = &json["warden11_".len()..json.len() - ".json".len()];
    assert!(stamp.len() >= 15);
    assert_eq!(stamp.as_bytes()[stamp.len() - 7], b'_');
    assert!(stamp.chars().all(|c| c.is_ascii_digit() || c == '_' || c == '+' || c == '-'));
    let m = case_meta_now("c".to_string(), None, "1.0.0");
    let t = m.created_at.as_bytes();
    assert!(t.len() >= 20);
    assert_eq!(t[t.len() - 10], b'T');
    assert_eq!(t[t.len() - 1], b'Z');
}
