//! Hash inventory: classification of hash-like values by format.
use vstd::prelude::*;
use crate::ext::{regex_all_matches, regex_find_all, regex_find_each, regex_first_match};
use crate::models::{finding_view, hash_view, new_finding, Finding, HashObservation};
use crate::text::{
    chars_of, lemma_trim_idempotent, push_text, string_from_chars, trim, trim_chars, utf8_len,
};
use crate::util::{can_mask, can_mask_exec, law_mask_shows_at_most_eleven_bytes, mask_secret, masked};

verus! {

/// A hash format that can be told from a value's shape.
pub enum HashKind {
    /// 32 hex digits: MD5 and NTLM cannot be told apart by format.
    Md5OrNtlm,
    Sha1,
    Sha256,
    Bcrypt,
    Argon2,
}

/// Pattern of a 32-hex-digit value.
pub open spec fn md5_pattern() -> Seq<char> {
    "^[a-fA-F0-9]{32}$"@
}

/// Pattern of a 40-hex-digit value.
pub open spec fn sha1_pattern() -> Seq<char> {
    "^[a-fA-F0-9]{40}$"@
}

/// Pattern of a 64-hex-digit value.
pub open spec fn sha256_pattern() -> Seq<char> {
    "^[a-fA-F0-9]{64}$"@
}

/// Pattern of a bcrypt hash.
pub open spec fn bcrypt_pattern() -> Seq<char> {
    r#"^\$2[aby]\$\d{2}\$[./A-Za-z0-9]{53}$"#@
}

/// Pattern of the start of an Argon2 hash.
pub open spec fn argon2_pattern() -> Seq<char> {
    r#"^\$argon2(id|i|d)\$"#@
}

/// Pattern of the hash-like tokens picked out of a text.
pub open spec fn token_pattern() -> Seq<char> {
    r#"[A-Za-z0-9/\+\$\.=:_-]{16,}"#@
}

/// `pattern` matches `v` somewhere.
pub open spec fn is_match(pattern: Seq<char>, v: Seq<char>) -> bool {
    regex_first_match(pattern, v) is Some
}

/// The kind of the first format, in the order MD5/NTLM, SHA1, SHA256,
/// bcrypt, Argon2, whose test holds.
pub open spec fn kind_from_tests(md5: bool, sha1: bool, sha256: bool, bcrypt: bool, argon2: bool) -> Option<HashKind> {
    if md5 {
        Some(HashKind::Md5OrNtlm)
    } else if sha1 {
        Some(HashKind::Sha1)
    } else if sha256 {
        Some(HashKind::Sha256)
    } else if bcrypt {
        Some(HashKind::Bcrypt)
    } else if argon2 {
        Some(HashKind::Argon2)
    } else {
        None
    }
}

/// The kind of a (trimmed) value, by the format patterns.
pub open spec fn hash_kind(v: Seq<char>) -> Option<HashKind> {
    kind_from_tests(
        is_match(md5_pattern(), v),
        is_match(sha1_pattern(), v),
        is_match(sha256_pattern(), v),
        is_match(bcrypt_pattern(), v),
        is_match(argon2_pattern(), v),
    )
}

/// The name stored for a kind.
pub open spec fn kind_name(k: HashKind) -> Seq<char> {
    match k {
        HashKind::Md5OrNtlm => "MD5_or_NTLM"@,
        HashKind::Sha1 => "SHA1"@,
        HashKind::Sha256 => "SHA256"@,
        HashKind::Bcrypt => "bcrypt"@,
        HashKind::Argon2 => "argon2"@,
    }
}

/// The recommendation stored for a kind.
pub open spec fn kind_recommendation(k: HashKind) -> Seq<char> {
    match k {
        HashKind::Md5OrNtlm => "This is a 32-character hex value, consistent with either MD5 or an NTLM hash -- the two are indistinguishable by format alone. If it is a password hash: MD5 is fast/legacy and NTLM is Windows-specific; migrate to Argon2id/bcrypt where applicable and protect NTLM hashes carefully."@,
        HashKind::Sha1 => "SHA1 is legacy for many security uses. Use modern alternatives."@,
        HashKind::Sha256 => "SHA256 is a general cryptographic hash. For passwords, use Argon2id/bcrypt/scrypt with salts."@,
        HashKind::Bcrypt => "bcrypt is suitable for password hashing when configured with an appropriate cost."@,
        HashKind::Argon2 => "Argon2 is suitable for password hashing when configured correctly."@,
    }
}

/// A legacy or fast format (MD5/NTLM or SHA1).
pub open spec fn is_legacy(k: HashKind) -> bool {
    k is Md5OrNtlm || k is Sha1
}

/// The kind that the format tests select.
pub fn kind_of_tests(md5: bool, sha1: bool, sha256: bool, bcrypt: bool, argon2: bool) -> (r: Option<HashKind>)
    ensures
        r == kind_from_tests(md5, sha1, sha256, bcrypt, argon2),
{
    if md5 {
        Some(HashKind::Md5OrNtlm)
    } else if sha1 {
        Some(HashKind::Sha1)
    } else if sha256 {
        Some(HashKind::Sha256)
    } else if bcrypt {
        Some(HashKind::Bcrypt)
    } else if argon2 {
        Some(HashKind::Argon2)
    } else {
        None
    }
}

fn kind_text(k: &HashKind) -> (r: &'static str)
    ensures
        r@ == kind_name(*k),
{
    match k {
        HashKind::Md5OrNtlm => "MD5_or_NTLM",
        HashKind::Sha1 => "SHA1",
        HashKind::Sha256 => "SHA256",
        HashKind::Bcrypt => "bcrypt",
        HashKind::Argon2 => "argon2",
    }
}

fn kind_advice(k: &HashKind) -> (r: &'static str)
    ensures
        r@ == kind_recommendation(*k),
{
    match k {
        HashKind::Md5OrNtlm => "This is a 32-character hex value, consistent with either MD5 or an NTLM hash -- the two are indistinguishable by format alone. If it is a password hash: MD5 is fast/legacy and NTLM is Windows-specific; migrate to Argon2id/bcrypt where applicable and protect NTLM hashes carefully.",
        HashKind::Sha1 => "SHA1 is legacy for many security uses. Use modern alternatives.",
        HashKind::Sha256 => "SHA256 is a general cryptographic hash. For passwords, use Argon2id/bcrypt/scrypt with salts.",
        HashKind::Bcrypt => "bcrypt is suitable for password hashing when configured with an appropriate cost.",
        HashKind::Argon2 => "Argon2 is suitable for password hashing when configured correctly.",
    }
}

/// Whether the kind is a legacy or fast format.
pub fn is_legacy_kind(k: &HashKind) -> (r: bool)
    ensures
        r == is_legacy(*k),
{
    match k {
        HashKind::Md5OrNtlm => true,
        HashKind::Sha1 => true,
        _ => false,
    }
}

/// The observation stored for a trimmed value of a known kind: the value
/// masked, the kind's name and its recommendation.
pub fn hash_observation(v: &str, k: &HashKind) -> (o: HashObservation)
    requires
        can_mask(v@),
    ensures
        hash_view(o) == (masked(v@), kind_name(*k), kind_recommendation(*k)),
{
    HashObservation {
        value: mask_secret(v),
        kind: kind_text(k).to_owned(),
        recommendation: kind_advice(k).to_owned(),
    }
}

fn matches_pattern(pattern: &str, v: &str) -> (r: bool)
    ensures
        r == is_match(pattern@, v@),
{
    let mut hs: Vec<String> = Vec::new();
    hs.push(v.to_owned());
    let found = regex_find_each(pattern, &hs);
    found[0].is_some()
}

/// The expected observation of a value, when it has a known kind.
pub open spec fn expected_hash(value: Seq<char>) -> Option<(Seq<char>, Seq<char>, Seq<char>)> {
    let v = trim(value);
    match hash_kind(v) {
        Some(k) => Some((masked(v), kind_name(k), kind_recommendation(k))),
        None => None,
    }
}

/// Classifies a hash-like value by format; `None` for an unknown format.
pub fn classify_hash(value: &str) -> (r: Option<HashObservation>)
    requires
        hash_kind(trim(value@)) is Some ==> can_mask(trim(value@)),
    ensures
        r is Some <==> expected_hash(value@) is Some,
        r matches Some(o) ==> hash_view(o) == expected_hash(value@)->0,
{
    let vc = chars_of(value);
    let tc = trim_chars(&vc);
    let t = string_from_chars(&tc);
    let md5 = matches_pattern("^[a-fA-F0-9]{32}$", t.as_str());
    let sha1 = matches_pattern("^[a-fA-F0-9]{40}$", t.as_str());
    let sha256 = matches_pattern("^[a-fA-F0-9]{64}$", t.as_str());
    let bcrypt = matches_pattern(r#"^\$2[aby]\$\d{2}\$[./A-Za-z0-9]{53}$"#, t.as_str());
    let argon2 = matches_pattern(r#"^\$argon2(id|i|d)\$"#, t.as_str());
    match kind_of_tests(md5, sha1, sha256, bcrypt, argon2) {
        Some(k) => Some(hash_observation(t.as_str(), &k)),
        None => None,
    }
}

/// The observations and findings of the hash-like tokens of a text.
pub struct HashInventory {
    pub observations: Vec<HashObservation>,
    pub findings: Vec<Finding>,
    pub count: usize,
}

/// Classification goes by these documented formats, tried in this order on
/// the trimmed value: 32 hex digits of either case (MD5 or NTLM, which the
/// format cannot tell apart), 40 hex digits (SHA1), 64 hex digits (SHA256),
/// a bcrypt hash, an Argon2 hash. A value matching none has no kind. Each
/// kind is recorded with its documented name and advice, and the value masked.
pub proof fn law_hash_formats_are_the_documented_ones(value: Seq<char>)
    ensures
        ({
            let v = trim(value);
            let md5 = is_match("^[a-fA-F0-9]{32}$"@, v);
            let sha1 = is_match("^[a-fA-F0-9]{40}$"@, v);
            let sha256 = is_match("^[a-fA-F0-9]{64}$"@, v);
            let bcrypt = is_match(r#"^\$2[aby]\$\d{2}\$[./A-Za-z0-9]{53}$"#@, v);
            let argon2 = is_match(r#"^\$argon2(id|i|d)\$"#@, v);
            &&& expected_hash(value) is Some <==> (md5 || sha1 || sha256 || bcrypt || argon2)
            &&& md5 ==> expected_hash(value) == Some((masked(v), "MD5_or_NTLM"@, "This is a 32-character hex value, consistent with either MD5 or an NTLM hash -- the two are indistinguishable by format alone. If it is a password hash: MD5 is fast/legacy and NTLM is Windows-specific; migrate to Argon2id/bcrypt where applicable and protect NTLM hashes carefully."@))
            &&& !md5 && sha1 ==> expected_hash(value) == Some((masked(v), "SHA1"@, "SHA1 is legacy for many security uses. Use modern alternatives."@))
            &&& !md5 && !sha1 && sha256 ==> expected_hash(value) == Some((masked(v), "SHA256"@, "SHA256 is a general cryptographic hash. For passwords, use Argon2id/bcrypt/scrypt with salts."@))
            &&& !md5 && !sha1 && !sha256 && bcrypt ==> expected_hash(value) == Some((masked(v), "bcrypt"@, "bcrypt is suitable for password hashing when configured with an appropriate cost."@))
            &&& !md5 && !sha1 && !sha256 && !bcrypt && argon2 ==> expected_hash(value) == Some((masked(v), "argon2"@, "Argon2 is suitable for password hashing when configured correctly."@))
        }),
{
}

/// Tokens are picked out of a text as the runs of at least 16 characters
/// from `A-Z a-z 0-9 / + $ . = : _ -`; MD5/NTLM and SHA1 tokens are the
/// legacy ones.
pub proof fn law_hash_tokens_are_the_documented_runs(text: Seq<char>)
    ensures
        hash_tokens(text) == regex_all_matches(r#"[A-Za-z0-9/\+\$\.=:_-]{16,}"#@, text),
        is_legacy(HashKind::Md5OrNtlm) && is_legacy(HashKind::Sha1),
        !is_legacy(HashKind::Sha256) && !is_legacy(HashKind::Bcrypt) && !is_legacy(HashKind::Argon2),
{
}

/// The finding recorded for a legacy-format token.
pub open spec fn legacy_finding(token: Seq<char>, k: HashKind) -> (
    Seq<char>,
    Seq<char>,
    Seq<char>,
    Seq<char>,
    Seq<char>,
    Seq<char>,
    Seq<char>,
) {
    (
        "medium"@,
        "hashes"@,
        "legacy_hash"@,
        "Legacy or fast hash format detected"@,
        kind_name(k) + "-like value detected."@,
        kind_recommendation(k),
        masked(token),
    )
}

/// Observations of the tokens, in order.
pub open spec fn hash_observations_of(tokens: Seq<Seq<char>>) -> Seq<(Seq<char>, Seq<char>, Seq<char>)>
    decreases tokens.len(),
{
    if tokens.len() == 0 {
        Seq::empty()
    } else {
        hash_observations_of(tokens.drop_last()) + match expected_hash(tokens.last()) {
            Some(o) => seq![o],
            None => Seq::empty(),
        }
    }
}

/// Hash values are kept masked: every stored value shows at most 11 bytes.
pub proof fn law_stored_hashes_are_masked(tokens: Seq<Seq<char>>)
    ensures
        forall|i: int|
            0 <= i < hash_observations_of(tokens).len() ==> utf8_len(
                (#[trigger] hash_observations_of(tokens)[i]).0,
            ) <= 11,
    decreases tokens.len(),
{
    if tokens.len() > 0 {
        let rest = tokens.drop_last();
        law_stored_hashes_are_masked(rest);
        law_mask_shows_at_most_eleven_bytes(trim(tokens.last()));
        let a = hash_observations_of(rest);
        let b = match expected_hash(tokens.last()) {
            Some(o) => seq![o],
            None => Seq::empty(),
        };
        assert(hash_observations_of(tokens) == a + b);
        assert forall|i: int| 0 <= i < hash_observations_of(tokens).len() implies utf8_len(
            (#[trigger] hash_observations_of(tokens)[i]).0,
        ) <= 11 by {
            if i < a.len() {
                assert(hash_observations_of(tokens)[i] == a[i]);
            } else {
                assert(hash_observations_of(tokens)[i] == b[i - a.len()]);
            }
        }
    }
}

/// Findings of the legacy-format tokens, in order.
pub open spec fn legacy_findings_of(tokens: Seq<Seq<char>>) -> Seq<
    (Seq<char>, Seq<char>, Seq<char>, Seq<char>, Seq<char>, Seq<char>, Seq<char>),
>
    decreases tokens.len(),
{
    if tokens.len() == 0 {
        Seq::empty()
    } else {
        legacy_findings_of(tokens.drop_last()) + match hash_kind(trim(tokens.last())) {
            Some(k) => if is_legacy(k) {
                seq![legacy_finding(tokens.last(), k)]
            } else {
                Seq::empty()
            },
            None => Seq::empty(),
        }
    }
}

/// A token of a known kind that cannot be masked without slicing through a character.
pub open spec fn unmaskable(token: Seq<char>) -> bool {
    hash_kind(trim(token)) is Some && !can_mask(trim(token))
}

/// Token `i` is the first one of a known kind that cannot be masked.
pub open spec fn first_unmaskable(tokens: Seq<Seq<char>>, i: int) -> bool {
    &&& 0 <= i < tokens.len()
    &&& unmaskable(tokens[i])
    &&& forall|j: int| 0 <= j < i ==> !unmaskable(#[trigger] tokens[j])
}

/// The hash-like tokens of a text.
pub open spec fn hash_tokens(text: Seq<char>) -> Seq<Seq<char>> {
    regex_all_matches(token_pattern(), text)
}

/// Classifies every hash-like token of a text: one observation per token
/// of a known format, a medium finding per MD5/NTLM or SHA1 token, and the
/// number of classified tokens. Fails with the first token of a known
/// format that cannot be masked without slicing through a character.
pub fn classify_hash_text(text: &str) -> (r: Result<HashInventory, String>)
    ensures
        r is Err <==> exists|i: int|
            0 <= i < hash_tokens(text@).len() && unmaskable(#[trigger] hash_tokens(text@)[i]),
        r matches Err(t) ==> exists|i: int|
            first_unmaskable(hash_tokens(text@), i) && t@ == #[trigger] hash_tokens(text@)[i],
        r matches Ok(inv) ==> {
            &&& inv.observations@.map_values(|o: HashObservation| hash_view(o))
                == hash_observations_of(hash_tokens(text@))
            &&& inv.findings@.map_values(|f: Finding| finding_view(f)) == legacy_findings_of(
                hash_tokens(text@),
            )
            &&& inv.count == inv.observations@.len()
        },
{
    let tokens = regex_find_all(r#"[A-Za-z0-9/\+\$\.=:_-]{16,}"#, text);
    let ghost ts = hash_tokens(text@);
    let mut observations: Vec<HashObservation> = Vec::new();
    let mut findings: Vec<Finding> = Vec::new();
    let mut i: usize = 0;
    proof {
        assert(ts.take(0).len() == 0);
        assert(hash_observations_of(ts.take(0)) =~= Seq::empty());
        assert(observations@.map_values(|o: HashObservation| hash_view(o)) =~= Seq::empty());
        assert(findings@.map_values(|f: Finding| finding_view(f)) =~= Seq::empty());
    }
    while i < tokens.len()
        invariant
            crate::text::views(tokens@) == ts,
            ts == hash_tokens(text@),
            i <= ts.len(),
            forall|j: int| 0 <= j < i ==> !unmaskable(#[trigger] ts[j]),
            observations@.map_values(|o: HashObservation| hash_view(o)) == hash_observations_of(
                ts.take(i as int),
            ),
            findings@.map_values(|f: Finding| finding_view(f)) == legacy_findings_of(
                ts.take(i as int),
            ),
            observations@.len() <= i,
        decreases ts.len() - i,
    {
        let token = tokens[i].as_str();
        proof {
            assert(token@ == ts[i as int]);
            assert(ts.take(i as int + 1).drop_last() =~= ts.take(i as int));
            assert(ts.take(i as int + 1).last() == ts[i as int]);
        }
        let vc = chars_of(token);
        let tc = trim_chars(&vc);
        let t = string_from_chars(&tc);
        let md5 = matches_pattern("^[a-fA-F0-9]{32}$", t.as_str());
        let sha1 = matches_pattern("^[a-fA-F0-9]{40}$", t.as_str());
        let sha256 = matches_pattern("^[a-fA-F0-9]{64}$", t.as_str());
        let bcrypt = matches_pattern(r#"^\$2[aby]\$\d{2}\$[./A-Za-z0-9]{53}$"#, t.as_str());
        let argon2 = matches_pattern(r#"^\$argon2(id|i|d)\$"#, t.as_str());
        match kind_of_tests(md5, sha1, sha256, bcrypt, argon2) {
            Some(k) => {
                if !can_mask_exec(t.as_str()) {
                    proof {
                        assert(unmaskable(ts[i as int]));
                        assert(unmaskable(hash_tokens(text@)[i as int]));
                        assert(first_unmaskable(ts, i as int));
                    }
                    return Err(token.to_owned());
                }
                proof {
                    lemma_trim_idempotent(token@);
                }
                let obs = hash_observation(t.as_str(), &k);
                let ghost ov = hash_view(obs);
                if is_legacy_kind(&k) {
                    let mut detail = kind_text(&k).to_owned();
                    push_text(&mut detail, "-like value detected.");
                    proof {
                        assert(trim(token@) == t@);
                    }
                    let f = new_finding(
                        "medium",
                        "hashes",
                        "legacy_hash",
                        "Legacy or fast hash format detected",
                        detail,
                        kind_advice(&k),
                        mask_secret(token),
                    );
                    proof {
                        assert(findings@.push(f).map_values(|f: Finding| finding_view(f))
                            =~= findings@.map_values(|f: Finding| finding_view(f)).push(
                            finding_view(f),
                        ));
                    }
                    findings.push(f);
                } else {
                    proof {
                        assert(legacy_findings_of(ts.take(i as int + 1)) =~= legacy_findings_of(
                            ts.take(i as int),
                        ));
                    }
                }
                proof {
                    assert(observations@.push(obs).map_values(|o: HashObservation| hash_view(o))
                        =~= observations@.map_values(|o: HashObservation| hash_view(o)).push(ov));
                }
                observations.push(obs);
            },
            None => {
                proof {
                    assert(hash_observations_of(ts.take(i as int + 1)) =~= hash_observations_of(
                        ts.take(i as int),
                    ));
                    assert(legacy_findings_of(ts.take(i as int + 1)) =~= legacy_findings_of(
                        ts.take(i as int),
                    ));
                }
            },
        }
        i = i + 1;
    }
    proof {
        assert(ts.take(i as int) =~= ts);
    }
    let count = observations.len();
    Ok(HashInventory { observations, findings, count })
}

} // verus!
