use warden11::hashes::{classify_hash, classify_hash_text, hash_observation, is_legacy_kind, kind_of_tests, HashKind};
use warden11::passwords::{analyze_password, assess_password, check_passwords, has_repetition, password_findings};

const MD5_REC: &str = "This is a 32-character hex value, consistent with either MD5 or an NTLM hash -- the two are indistinguishable by format alone. If it is a password hash: MD5 is fast/legacy and NTLM is Windows-specific; migrate to Argon2id/bcrypt where applicable and protect NTLM hashes carefully.";

#[test]
fn common_weak_password_scores_zero() {
    let o = analyze_password(1, "password");
    assert_eq!(o.index, 1);
    assert_eq!(o.score, 0);
    assert_eq!(o.label, "critical");
    assert_eq!(
        o.issues,
        vec!["too_short", "missing_uppercase", "missing_digit", "missing_symbol", "common_pattern_password"]
    );
}

#[test]
fn strong_password_keeps_full_score() {
    let o = analyze_password(2, "Tr0ub4dor&3xYz!");
    assert_eq!(o.score, 100);
    assert_eq!(o.label, "strong");
    assert!(o.issues.is_empty());
}

#[test]
fn medium_length_password_could_be_longer() {
    let o = analyze_password(3, "Abcdefgh1!xy");
    assert_eq!(o.score, 85);
    assert_eq!(o.label, "strong");
    assert_eq!(o.issues, vec!["could_be_longer"]);
}

#[test]
fn password_labels_follow_the_score() {
    let o = analyze_password(4, "Abcdefghij1");
    assert_eq!(o.score, 75);
    assert_eq!(o.label, "acceptable");
    assert_eq!(o.issues, vec!["could_be_longer", "missing_symbol"]);
    let w = analyze_password(5, "abcdefghij1!");
    assert_eq!(w.score, 75);
    let x = analyze_password(6, "abcdefghij");
    assert_eq!(x.score, 55);
    assert_eq!(x.label, "weak");
}

#[test]
fn repetition_costs_fifteen_points() {
    let o = analyze_password(7, "aaa");
    assert_eq!(o.score, 20);
    assert_eq!(o.label, "critical");
    assert_eq!(
        o.issues,
        vec!["too_short", "missing_uppercase", "missing_digit", "missing_symbol", "repetition_pattern"]
    );
}

#[test]
fn only_the_first_common_pattern_counts() {
    let o = analyze_password(8, "Admin123456!xyzw");
    assert_eq!(o.issues, vec!["common_pattern_admin"]);
    assert_eq!(o.score, 65);
}

#[test]
fn common_patterns_are_found_case_insensitively() {
    let o = analyze_password(9, "MyQWERTYpass9!");
    assert_eq!(o.issues, vec!["common_pattern_qwerty"]);
    let a = assess_password(9, "MyQWERTYpass9!", "myqwertypass9!");
    assert_eq!(a, o);
}

#[test]
fn score_reflects_each_issue() {
    for pw in ["x", "Password1!", "aaaBBB111!!!", "Zz9!Zz9!Zz9!Zz9!", "ñandú-ÑANDÚ-42"] {
        let o = analyze_password(1, pw);
        if o.issues.is_empty() {
            assert_eq!(o.score, 100);
        } else {
            assert!(o.score <= 90);
        }
    }
}

#[test]
fn has_repetition_needs_three_in_a_row() {
    assert!(has_repetition("abccc"));
    assert!(has_repetition("111"));
    assert!(!has_repetition("abcabc"));
    assert!(!has_repetition("aabbaa"));
    assert!(!has_repetition(""));
}

#[test]
fn check_passwords_flags_reuse_and_weakness() {
    let a = check_passwords("Secret123!\n\n  Secret123!  \nqwerty\n");
    assert_eq!(a.total, 3);
    assert_eq!(a.weak, 1);
    assert_eq!(a.reused, 1);
    assert_eq!(a.observations.len(), 3);
    assert_eq!(a.observations[0].index, 1);
    assert_eq!(a.observations[0].score, 85);
    assert_eq!(a.observations[0].issues, vec!["could_be_longer"]);
    assert_eq!(a.observations[1].index, 3);
    assert_eq!(a.observations[1].score, 65);
    assert_eq!(a.observations[1].label, "strong");
    assert_eq!(a.observations[1].issues, vec!["could_be_longer", "reused_in_file"]);
    assert_eq!(a.observations[2].index, 4);
    assert_eq!(a.observations[2].score, 0);
    assert_eq!(a.observations[2].label, "critical");
}

#[test]
fn first_entry_is_never_reused() {
    let a = check_passwords("same\nsame\nsame\n");
    assert_eq!(a.total, 3);
    assert_eq!(a.reused, 2);
    assert!(!a.observations[0].issues.iter().any(|i| i == "reused_in_file"));
    assert!(a.reused < a.total);
}

#[test]
fn check_passwords_on_empty_text() {
    let a = check_passwords("");
    assert_eq!(a.total, 0);
    assert_eq!(a.weak, 0);
    assert_eq!(a.reused, 0);
    assert!(a.observations.is_empty());
}

#[test]
fn password_findings_report_weakness_and_reuse() {
    let fs = password_findings(1, 1, "passwords.txt");
    assert_eq!(fs.len(), 2);
    assert_eq!(fs[0].severity, "medium");
    assert_eq!(fs[0].module, "passwords");
    assert_eq!(fs[0].category, "hygiene");
    assert_eq!(fs[0].title, "Weak password hygiene detected");
    assert_eq!(fs[0].detail, "1 weak entries found in an owner-provided password list.");
    assert_eq!(fs[0].recommendation, "Use unique long passphrases and a password manager. Avoid reuse.");
    assert_eq!(fs[0].evidence, "passwords.txt");
    assert_eq!(fs[1].severity, "medium");
    assert_eq!(fs[1].category, "reuse");
    assert_eq!(fs[1].title, "Repeated passwords in file");
    assert_eq!(fs[1].detail, "1 repeated password entries found.");
    assert_eq!(fs[1].recommendation, "Avoid password reuse across services.");
}

#[test]
fn many_weak_passwords_are_high_severity() {
    let fs = password_findings(10, 0, "list.txt");
    assert_eq!(fs.len(), 1);
    assert_eq!(fs[0].severity, "high");
    assert_eq!(fs[0].detail, "10 weak entries found in an owner-provided password list.");
    assert!(password_findings(0, 0, "list.txt").is_empty());
    let only_reuse = password_findings(0, 3, "list.txt");
    assert_eq!(only_reuse.len(), 1);
    assert_eq!(only_reuse[0].category, "reuse");
}

#[test]
fn classify_md5_like_value() {
    let o = classify_hash("  5f4dcc3b5aa765d61d8327deb882cf99 ").unwrap();
    assert_eq!(o.value, "5f4d...cf99");
    assert_eq!(o.kind, "MD5_or_NTLM");
    assert_eq!(o.recommendation, MD5_REC);
}

#[test]
fn classify_sha_values() {
    let s1 = classify_hash("5baa61e4c9b93f3f0682250b6cf8331b7ee68fd8").unwrap();
    assert_eq!(s1.kind, "SHA1");
    assert_eq!(s1.value, "5baa...8fd8");
    assert_eq!(s1.recommendation, "SHA1 is legacy for many security uses. Use modern alternatives.");
    let s2 = classify_hash("5e884898da28047151d0e56f8dc6292773603d0d6aabbdd62a11ef721d1542d8").unwrap();
    assert_eq!(s2.kind, "SHA256");
    assert_eq!(s2.value, "5e88...42d8");
}

#[test]
fn classify_password_hash_formats() {
    let b = classify_hash("$2b$12$R9h/cIPz0gi.URNNX3kh2OPST9/PgBkqquzi.Ss7KIUgO2t0jWMUW").unwrap();
    assert_eq!(b.kind, "bcrypt");
    assert_eq!(b.value, "$2b$...WMUW");
    let a = classify_hash("$argon2id$v=19$m=65536,t=3,p=4$c29tZXNhbHQ$RdescudvJCsgt3ub").unwrap();
    assert_eq!(a.kind, "argon2");
    assert_eq!(a.recommendation, "Argon2 is suitable for password hashing when configured correctly.");
}

#[test]
fn classify_unknown_values() {
    assert!(classify_hash("hello world").is_none());
    assert!(classify_hash("5f4dcc3b5aa765d61d8327deb882cf9").is_none());
    assert!(classify_hash("zzzzcc3b5aa765d61d8327deb882cf99").is_none());
}

#[test]
fn kind_tests_pick_the_first_format() {
    assert!(matches!(kind_of_tests(true, true, false, false, false), Some(HashKind::Md5OrNtlm)));
    assert!(matches!(kind_of_tests(false, false, false, false, true), Some(HashKind::Argon2)));
    assert!(kind_of_tests(false, false, false, false, false).is_none());
    assert!(is_legacy_kind(&HashKind::Sha1));
    assert!(!is_legacy_kind(&HashKind::Bcrypt));
    let o = hash_observation("abc", &HashKind::Sha256);
    assert_eq!(o.value, "********");
    assert_eq!(o.kind, "SHA256");
}

#[test]
fn hash_text_inventory_records_legacy_findings() {
    let text = "md5: 5f4dcc3b5aa765d61d8327deb882cf99\nsha256: 5e884898da28047151d0e56f8dc6292773603d0d6aabbdd62a11ef721d1542d8\nnot-a-hash-value-at-all\n";
    let inv = classify_hash_text(text).unwrap();
    assert_eq!(inv.count, 2);
    assert_eq!(inv.observations.len(), 2);
    assert_eq!(inv.observations[0].kind, "MD5_or_NTLM");
    assert_eq!(inv.observations[1].kind, "SHA256");
    assert_eq!(inv.findings.len(), 1);
    let f = &inv.findings[0];
    assert_eq!(f.severity, "medium");
    assert_eq!(f.module, "hashes");
    assert_eq!(f.category, "legacy_hash");
    assert_eq!(f.title, "Legacy or fast hash format detected");
    assert_eq!(f.detail, "MD5_or_NTLM-like value detected.");
    assert_eq!(f.recommendation, MD5_REC);
    assert_eq!(f.evidence, "5f4d...cf99");
}

#[test]
fn hash_text_without_tokens_is_empty() {
    let inv = classify_hash_text("short words only").unwrap();
    assert_eq!(inv.count, 0);
    assert!(inv.observations.is_empty());
    assert!(inv.findings.is_empty());
}

#[test]
fn stored_hash_values_are_masked() {
    let text = "5f4dcc3b5aa765d61d8327deb882cf99 $2b$12$R9h/cIPz0gi.URNNX3kh2OPST9/PgBkqquzi.Ss7KIUgO2t0jWMUW";
    let inv = classify_hash_text(text).unwrap();
    assert_eq!(inv.count, 2);
    for o in &inv.observations {
        assert!(o.value.len() <= 11);
    }
    assert_eq!(inv.observations[1].value, "$2b$...WMUW");
}
