//! The records a case holds: its metadata, findings and the observations of
//! each patrol module.
use vstd::prelude::*;

verus! {

/// Metadata of a case workspace.
#[derive(Debug, PartialEq, Eq)]
pub struct CaseMeta {
    pub name: String,
    pub title: String,
    pub created_at: String,
    pub tool: String,
    pub version: String,
    pub author: String,
}

/// One finding of a patrol module.
#[derive(Debug, PartialEq, Eq)]
pub struct Finding {
    pub severity: String,
    pub module: String,
    pub category: String,
    pub title: String,
    pub detail: String,
    pub recommendation: String,
    pub evidence: String,
}

/// The texts of a finding: severity, module, category, title, detail,
/// recommendation, evidence.
pub open spec fn finding_view(f: Finding) -> (
    Seq<char>,
    Seq<char>,
    Seq<char>,
    Seq<char>,
    Seq<char>,
    Seq<char>,
    Seq<char>,
) {
    (f.severity@, f.module@, f.category@, f.title@, f.detail@, f.recommendation@, f.evidence@)
}

/// The texts of a hash observation: value, kind, recommendation.
pub open spec fn hash_view(h: HashObservation) -> (Seq<char>, Seq<char>, Seq<char>) {
    (h.value@, h.kind@, h.recommendation@)
}

/// A finding with these fields.
pub fn new_finding(
    severity: &str,
    module: &str,
    category: &str,
    title: &str,
    detail: String,
    recommendation: &str,
    evidence: String,
) -> (f: Finding)
    ensures
        f.severity@ == severity@,
        f.module@ == module@,
        f.category@ == category@,
        f.title@ == title@,
        f.detail == detail,
        f.recommendation@ == recommendation@,
        f.evidence == evidence,
{
    Finding {
        severity: severity.to_owned(),
        module: module.to_owned(),
        category: category.to_owned(),
        title: title.to_owned(),
        detail,
        recommendation: recommendation.to_owned(),
        evidence,
    }
}

/// What one web request showed.
#[derive(Debug, PartialEq, Eq)]
pub struct WebObservation {
    pub url: String,
    pub status: i64,
    pub final_url: String,
    pub https: bool,
    pub header_summary: String,
    pub cookies: String,
    pub forms: String,
    pub notes: String,
}

/// A potential secret found in a local file, stored masked.
#[derive(Debug, PartialEq, Eq)]
pub struct SecretObservation {
    pub file_path: String,
    pub line: usize,
    pub kind: String,
    pub masked_value: String,
    pub context: String,
}

/// The hygiene verdict on one password entry.
#[derive(Debug, PartialEq, Eq)]
pub struct PasswordObservation {
    pub index: usize,
    pub score: u32,
    pub label: String,
    pub issues: Vec<String>,
}

/// A classified hash-like value, stored masked.
#[derive(Debug, PartialEq, Eq)]
pub struct HashObservation {
    pub value: String,
    pub kind: String,
    pub recommendation: String,
}

/// The headline of a report.
#[derive(Debug, PartialEq, Eq)]
pub struct ReportSummary {
    pub case_name: String,
    pub generated_at: String,
    pub score: u32,
    pub verdict: String,
    pub findings: usize,
    pub web_observations: usize,
    pub secret_observations: usize,
    pub password_observations: usize,
    pub hash_observations: usize,
}

} // verus!
