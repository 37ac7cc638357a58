//! Case workspaces: their metadata, notes file and status listing.
use vstd::prelude::*;
use crate::clock::{iso_shape, now_iso};
use crate::models::CaseMeta;
use crate::text::{decimal, decimal_u64, push_text, views};

verus! {

/// The name of a case: its folder's name, or `warden11-case` when the path has none.
pub fn case_name(file_name: Option<String>) -> (r: String)
    ensures
        r@ == match file_name {
            Some(n) => n@,
            None => "warden11-case"@,
        },
{
    match file_name {
        Some(n) => n,
        None => "warden11-case".to_owned(),
    }
}

/// The metadata of a new case: the title defaults to the name; the tool is
/// WARDEN-11 and the author xtr4ng3.
pub fn new_case_meta(name: String, title: Option<String>, created_at: String, version: &str) -> (m: CaseMeta)
    ensures
        m.name == name,
        m.title@ == match title {
            Some(t) => t@,
            None => name@,
        },
        m.created_at == created_at,
        m.tool@ == "WARDEN-11"@,
        m.version@ == version@,
        m.author@ == "xtr4ng3"@,
{
    let title = match title {
        Some(t) => t,
        None => name.clone(),
    };
    CaseMeta {
        name,
        title,
        created_at,
        tool: "WARDEN-11".to_owned(),
        version: version.to_owned(),
        author: "xtr4ng3".to_owned(),
    }
}

/// The metadata of a case created now: as `new_case_meta`, with the current
/// UTC time (RFC 3339, whole seconds, `Z`) as its creation time.
pub fn case_meta_now(name: String, title: Option<String>, version: &str) -> (m: CaseMeta)
    ensures
        m.name == name,
        m.title@ == match title {
            Some(t) => t@,
            None => name@,
        },
        m.tool@ == "WARDEN-11"@,
        m.version@ == version@,
        m.author@ == "xtr4ng3"@,
        iso_shape(m.created_at@),
{
    new_case_meta(name, title, now_iso(), version)
}

/// The text of a case's notes file.
pub open spec fn case_notes_of(m: CaseMeta) -> Seq<char> {
    "# "@ + m.title@ + "\n\nCreated: "@ + m.created_at@ + "\nTool: WARDEN-11 "@ + m.version@
        + "\nAuthor: xtr4ng3\n\nAuthorized cyber patrol workspace.\n"@
}

/// The text of a case's notes file.
pub fn case_notes(m: &CaseMeta) -> (r: String)
    ensures
        r@ == case_notes_of(*m),
{
    let mut r = "# ".to_owned();
    push_text(&mut r, m.title.as_str());
    push_text(&mut r, "\n\nCreated: ");
    push_text(&mut r, m.created_at.as_str());
    push_text(&mut r, "\nTool: WARDEN-11 ");
    push_text(&mut r, m.version.as_str());
    push_text(&mut r, "\nAuthor: xtr4ng3\n\nAuthorized cyber patrol workspace.\n");
    r
}

/// The text of the scope file of a new case: an empty list.
pub fn initial_scope_text() -> (r: String)
    ensures
        r@ == "[]\n"@,
{
    "[]\n".to_owned()
}

/// The (key, value) entries under which a case's metadata is stored.
pub open spec fn meta_entries_of(m: CaseMeta) -> Seq<(Seq<char>, Seq<char>)> {
    seq![
        ("name"@, m.name@),
        ("title"@, m.title@),
        ("created_at"@, m.created_at@),
        ("tool"@, m.tool@),
        ("version"@, m.version@),
        ("author"@, m.author@),
    ]
}

/// The (key, value) entries under which a case's metadata is stored.
pub fn meta_entries(m: &CaseMeta) -> (r: Vec<(String, String)>)
    ensures
        r@.map_values(|e: (String, String)| (e.0@, e.1@)) == meta_entries_of(*m),
{
    let mut r: Vec<(String, String)> = Vec::new();
    r.push(("name".to_owned(), m.name.clone()));
    r.push(("title".to_owned(), m.title.clone()));
    r.push(("created_at".to_owned(), m.created_at.clone()));
    r.push(("tool".to_owned(), m.tool.clone()));
    r.push(("version".to_owned(), m.version.clone()));
    r.push(("author".to_owned(), m.author.clone()));
    proof {
        assert(r@.map_values(|e: (String, String)| (e.0@, e.1@)) =~= meta_entries_of(*m));
    }
    r
}

/// The lines of a case's status listing.
pub open spec fn status_lines_of(
    m: CaseMeta,
    findings: nat,
    web: nat,
    secrets: nat,
    passwords: nat,
    hashes: nat,
    reports: Seq<char>,
) -> Seq<Seq<char>> {
    seq![
        "WARDEN-11 STATUS"@,
        "case      : "@ + m.name@,
        "title     : "@ + m.title@,
        "created   : "@ + m.created_at@,
        "findings  : "@ + decimal(findings),
        "web       : "@ + decimal(web),
        "secrets   : "@ + decimal(secrets),
        "passwords : "@ + decimal(passwords),
        "hashes    : "@ + decimal(hashes),
        "reports   : "@ + reports,
    ]
}

fn labelled(label: &str, value: &str) -> (r: String)
    ensures
        r@ == label@ + value@,
{
    let mut r = label.to_owned();
    push_text(&mut r, value);
    r
}

/// The lines of a case's status listing: its metadata, the number of
/// records of each kind and its reports folder.
pub fn status_lines(
    m: &CaseMeta,
    findings: usize,
    web: usize,
    secrets: usize,
    passwords: usize,
    hashes: usize,
    reports: &str,
) -> (r: Vec<String>)
    ensures
        views(r@) == status_lines_of(
            *m,
            findings as nat,
            web as nat,
            secrets as nat,
            passwords as nat,
            hashes as nat,
            reports@,
        ),
{
    let mut r: Vec<String> = Vec::new();
    r.push("WARDEN-11 STATUS".to_owned());
    r.push(labelled("case      : ", m.name.as_str()));
    r.push(labelled("title     : ", m.title.as_str()));
    r.push(labelled("created   : ", m.created_at.as_str()));
    r.push(labelled("findings  : ", decimal_u64(findings as u64).as_str()));
    r.push(labelled("web       : ", decimal_u64(web as u64).as_str()));
    r.push(labelled("secrets   : ", decimal_u64(secrets as u64).as_str()));
    r.push(labelled("passwords : ", decimal_u64(passwords as u64).as_str()));
    r.push(labelled("hashes    : ", decimal_u64(hashes as u64).as_str()));
    r.push(labelled("reports   : ", reports));
    proof {
        assert(views(r@) =~= status_lines_of(
            *m,
            findings as nat,
            web as nat,
            secrets as nat,
            passwords as nat,
            hashes as nat,
            reports@,
        ));
    }
    r
}

} // verus!
