//! Password hygiene: scoring of owner-provided password entries, reuse
//! detection within one list, and the findings a list yields.
use vstd::prelude::*;
use crate::models::{new_finding, Finding, PasswordObservation};
use crate::text::{
    chars_of, contains_exec, contains_text, decimal, decimal_u64, lines, lowercase, push_text,
    split_lines, string_from_chars, to_lowercase, trim, trim_chars, utf8_len, utf8_len_exceeds,
    views,
};

verus! {

/// ASCII character classes a password is checked for:
/// 0 lowercase, 1 uppercase, 2 digit, 3 anything not ASCII alphanumeric.
pub open spec fn in_class(c: char, class: nat) -> bool {
    let u = c as u32;
    if class == 0 {
        97 <= u <= 122
    } else if class == 1 {
        65 <= u <= 90
    } else if class == 2 {
        48 <= u <= 57
    } else {
        !(97 <= u <= 122 || 65 <= u <= 90 || 48 <= u <= 57)
    }
}

/// Some character of `s` is in the class.
pub open spec fn has_class(s: Seq<char>, class: nat) -> bool {
    exists|i: int| 0 <= i < s.len() && in_class(#[trigger] s[i], class)
}

fn has_class_exec(v: &Vec<char>, class: u8) -> (r: bool)
    ensures
        r == has_class(v@, class as nat),
{
    let mut i: usize = 0;
    while i < v.len()
        invariant
            i <= v@.len(),
            forall|k: int| 0 <= k < i ==> !in_class(#[trigger] v@[k], class as nat),
        decreases v@.len() - i,
    {
        let u = v[i] as u32;
        let hit = if class == 0 {
            97 <= u && u <= 122
        } else if class == 1 {
            65 <= u && u <= 90
        } else if class == 2 {
            48 <= u && u <= 57
        } else {
            !((97 <= u && u <= 122) || (65 <= u && u <= 90) || (48 <= u && u <= 57))
        };
        if hit {
            proof {
                assert(in_class(v@[i as int], class as nat));
            }
            return true;
        }
        i = i + 1;
    }
    false
}

/// Three equal characters in a row somewhere in `s`.
pub open spec fn repeats_thrice(s: Seq<char>) -> bool {
    exists|i: int| 0 <= i && i + 2 < s.len() && #[trigger] s[i] == s[i + 1] && s[i + 1] == s[i + 2]
}

/// Whether the password holds the same character three times in a row.
pub fn has_repetition(pw: &str) -> (r: bool)
    ensures
        r == repeats_thrice(pw@),
{
    let v = chars_of(pw);
    let mut i: usize = 0;
    while v.len() >= 3 && i < v.len() - 2
        invariant
            v@ == pw@,
            forall|k: int| 0 <= k < i && k + 2 < v@.len() ==> !(#[trigger] v@[k] == v@[k + 1] && v@[k + 1] == v@[k + 2]),
        decreases v@.len() - i,
    {
        if v[i] == v[i + 1] && v[i + 1] == v[i + 2] {
            return true;
        }
        i = i + 1;
    }
    false
}

/// The common patterns a lowercased password is searched for, in order.
pub open spec fn common_patterns() -> Seq<Seq<char>> {
    seq![
        "password"@,
        "admin"@,
        "qwerty"@,
        "letmein"@,
        "welcome"@,
        "123456"@,
        "111111"@,
        "iloveyou"@,
    ]
}

fn common_pattern(k: usize) -> (r: &'static str)
    requires
        k < 8,
    ensures
        r@ == common_patterns()[k as int],
        r@.len() > 0,
{
    proof {
        reveal_strlit("password");
        reveal_strlit("admin");
        reveal_strlit("qwerty");
        reveal_strlit("letmein");
        reveal_strlit("welcome");
        reveal_strlit("123456");
        reveal_strlit("111111");
        reveal_strlit("iloveyou");
    }
    if k == 0 {
        "password"
    } else if k == 1 {
        "admin"
    } else if k == 2 {
        "qwerty"
    } else if k == 3 {
        "letmein"
    } else if k == 4 {
        "welcome"
    } else if k == 5 {
        "123456"
    } else if k == 6 {
        "111111"
    } else {
        "iloveyou"
    }
}

/// The first common pattern, from position `k` of the list on, that `lower` contains.
pub open spec fn first_pattern_from(lower: Seq<char>, k: int) -> Option<Seq<char>>
    decreases 8 - k,
{
    if k < 0 || k >= 8 {
        None
    } else if contains_text(lower, common_patterns()[k]) {
        Some(common_patterns()[k])
    } else {
        first_pattern_from(lower, k + 1)
    }
}

/// A deduction of `amount` points with its issue label, when `applies`.
pub open spec fn check(applies: bool, amount: nat, issue: Seq<char>) -> Seq<(nat, Seq<char>)> {
    if applies {
        seq![(amount, issue)]
    } else {
        Seq::empty()
    }
}

/// Length deduction: under 10 bytes is too short, under 14 could be longer.
pub open spec fn length_checks(pw: Seq<char>) -> Seq<(nat, Seq<char>)> {
    if utf8_len(pw) < 10 {
        seq![(35nat, "too_short"@)]
    } else if utf8_len(pw) < 14 {
        seq![(15nat, "could_be_longer"@)]
    } else {
        Seq::empty()
    }
}

/// Common-pattern deduction, for the first pattern found only.
pub open spec fn pattern_checks(lower: Seq<char>) -> Seq<(nat, Seq<char>)> {
    match first_pattern_from(lower, 0) {
        Some(p) => seq![(35nat, "common_pattern_"@ + p)],
        None => Seq::empty(),
    }
}

/// All deductions for a password (`lower` is its lowercase form), in the
/// order they are applied.
pub open spec fn password_checks(pw: Seq<char>, lower: Seq<char>) -> Seq<(nat, Seq<char>)> {
    length_checks(pw) + check(!has_class(pw, 0), 10, "missing_lowercase"@) + check(
        !has_class(pw, 1),
        10,
        "missing_uppercase"@,
    ) + check(!has_class(pw, 2), 10, "missing_digit"@) + check(
        !has_class(pw, 3),
        10,
        "missing_symbol"@,
    ) + pattern_checks(lower) + check(repeats_thrice(pw), 15, "repetition_pattern"@)
}

/// `a - b`, or 0 when `b` is larger.
pub open spec fn saturating_sub(a: nat, b: nat) -> nat {
    if a >= b {
        (a - b) as nat
    } else {
        0
    }
}

/// `score` after applying the deductions in order, never going below 0.
pub open spec fn deduct(score: nat, ds: Seq<(nat, Seq<char>)>) -> nat
    decreases ds.len(),
{
    if ds.len() == 0 {
        score
    } else {
        deduct(saturating_sub(score, ds[0].0), ds.drop_first())
    }
}

/// The issue labels of a list of deductions.
pub open spec fn issue_texts(ds: Seq<(nat, Seq<char>)>) -> Seq<Seq<char>> {
    ds.map_values(|d: (nat, Seq<char>)| d.1)
}

/// The hygiene score of a password out of 100.
pub open spec fn password_score(pw: Seq<char>, lower: Seq<char>) -> nat {
    deduct(100, password_checks(pw, lower))
}

/// The label of a score.
pub open spec fn score_label(score: nat) -> Seq<char> {
    if score >= 80 {
        "strong"@
    } else if score >= 60 {
        "acceptable"@
    } else if score >= 40 {
        "weak"@
    } else {
        "critical"@
    }
}

/// Deducting after a list of deductions.
pub proof fn lemma_deduct_push(score: nat, ds: Seq<(nat, Seq<char>)>, x: (nat, Seq<char>))
    ensures
        deduct(score, ds.push(x)) == saturating_sub(deduct(score, ds), x.0),
    decreases ds.len(),
{
    if ds.len() == 0 {
        assert(ds.push(x).drop_first() =~= Seq::<(nat, Seq<char>)>::empty());
        assert(ds.push(x)[0] == x);
        assert(deduct(saturating_sub(score, x.0), Seq::<(nat, Seq<char>)>::empty()) == saturating_sub(score, x.0));
        assert(deduct(score, ds) == score);
    } else {
        assert(ds.push(x)[0] == ds[0]);
        assert(ds.push(x).drop_first() =~= ds.drop_first().push(x));
        lemma_deduct_push(saturating_sub(score, ds[0].0), ds.drop_first(), x);
    }
}

/// Deductions never raise a score.
pub proof fn lemma_deduct_le(score: nat, ds: Seq<(nat, Seq<char>)>)
    ensures
        deduct(score, ds) <= score,
    decreases ds.len(),
{
    if ds.len() > 0 {
        lemma_deduct_le(saturating_sub(score, ds[0].0), ds.drop_first());
    }
}

/// Every deduction takes at least `m` points.
pub open spec fn deductions_at_least(ds: Seq<(nat, Seq<char>)>, m: nat) -> bool {
    forall|i: int| 0 <= i < ds.len() ==> (#[trigger] ds[i]).0 >= m
}

proof fn lemma_at_least_concat(a: Seq<(nat, Seq<char>)>, b: Seq<(nat, Seq<char>)>, m: nat)
    requires
        deductions_at_least(a, m),
        deductions_at_least(b, m),
    ensures
        deductions_at_least(a + b, m),
{
    assert forall|i: int| 0 <= i < (a + b).len() implies (#[trigger] (a + b)[i]).0 >= m by {
        if i < a.len() {
            assert((a + b)[i] == a[i]);
        } else {
            assert((a + b)[i] == b[i - a.len()]);
        }
    }
}

/// A password's score is at most 100; it is 100 exactly when no issue is
/// reported, since every issue costs at least 10 points.
pub proof fn law_password_score_reflects_issues(pw: Seq<char>, lower: Seq<char>)
    ensures
        password_score(pw, lower) <= 100,
        password_score(pw, lower) == 100 <==> issue_texts(password_checks(pw, lower)).len() == 0,
{
    let ds = password_checks(pw, lower);
    lemma_deduct_le(100, ds);
    let c1 = length_checks(pw);
    let c2 = check(!has_class(pw, 0), 10, "missing_lowercase"@);
    let c3 = check(!has_class(pw, 1), 10, "missing_uppercase"@);
    let c4 = check(!has_class(pw, 2), 10, "missing_digit"@);
    let c5 = check(!has_class(pw, 3), 10, "missing_symbol"@);
    let c6 = pattern_checks(lower);
    let c7 = check(repeats_thrice(pw), 15, "repetition_pattern"@);
    assert(deductions_at_least(c1, 10));
    assert(deductions_at_least(c2, 10));
    assert(deductions_at_least(c3, 10));
    assert(deductions_at_least(c4, 10));
    assert(deductions_at_least(c5, 10));
    assert(deductions_at_least(c6, 10));
    assert(deductions_at_least(c7, 10));
    lemma_at_least_concat(c1, c2, 10);
    lemma_at_least_concat(c1 + c2, c3, 10);
    lemma_at_least_concat(c1 + c2 + c3, c4, 10);
    lemma_at_least_concat(c1 + c2 + c3 + c4, c5, 10);
    lemma_at_least_concat(c1 + c2 + c3 + c4 + c5, c6, 10);
    lemma_at_least_concat(c1 + c2 + c3 + c4 + c5 + c6, c7, 10);
    assert(ds == c1 + c2 + c3 + c4 + c5 + c6 + c7);
    if ds.len() > 0 {
        assert(ds[0].0 >= 10);
        lemma_deduct_le(saturating_sub(100, ds[0].0), ds.drop_first());
    }
}

/// The first entry of a list never counts as reused, so fewer entries are
/// reused than there are entries.
pub proof fn law_first_entry_never_reused(es: Seq<(nat, Seq<char>)>)
    requires
        es.len() > 0,
    ensures
        !reused_at(es, 0),
        count_true(reuse_flags(es)) < es.len(),
{
    lemma_count_true_le_rest(reuse_flags(es));
}

proof fn lemma_count_true_le_rest(flags: Seq<bool>)
    requires
        flags.len() > 0,
        !flags[0],
    ensures
        count_true(flags) < flags.len(),
    decreases flags.len(),
{
    if flags.len() > 1 {
        let r = flags.drop_last();
        assert(r[0] == flags[0]);
        lemma_count_true_le_rest(r);
        assert(count_true(flags) <= count_true(r) + 1);
    } else {
        assert(flags.drop_last().len() == 0);
        assert(count_true(flags.drop_last()) == 0);
        assert(!flags.last());
    }
}

/// Applies one deduction to the running score and issue list.
fn apply(
    score: &mut u32,
    issues: &mut Vec<String>,
    amount: u32,
    issue: String,
    Ghost(done): Ghost<Seq<(nat, Seq<char>)>>,
)
    requires
        *old(score) == deduct(100, done),
        views(old(issues)@) == issue_texts(done),
    ensures
        *final(score) == deduct(100, done.push((amount as nat, issue@))),
        views(final(issues)@) == issue_texts(done.push((amount as nat, issue@))),
{
    proof {
        lemma_deduct_push(100, done, (amount as nat, issue@));
    }
    if *score >= amount {
        *score = *score - amount;
    } else {
        *score = 0;
    }
    let ghost text = issue@;
    issues.push(issue);
    proof {
        assert(views(issues@) =~= views(old(issues)@).push(text));
        assert(issue_texts(done.push((amount as nat, text))) =~= issue_texts(done).push(text));
    }
}

fn label_of(score: u32) -> (r: String)
    ensures
        r@ == score_label(score as nat),
{
    if score >= 80 {
        "strong".to_owned()
    } else if score >= 60 {
        "acceptable".to_owned()
    } else if score >= 40 {
        "weak".to_owned()
    } else {
        "critical".to_owned()
    }
}

/// Scores a password given its lowercase form `lower` (as `str::to_lowercase` gives it).
pub fn assess_password(index: usize, pw: &str, lower: &str) -> (obs: PasswordObservation)
    ensures
        obs.index == index,
        obs.score == password_score(pw@, lower@),
        obs.label@ == score_label(password_score(pw@, lower@)),
        views(obs.issues@) == issue_texts(password_checks(pw@, lower@)),
{
    let v = chars_of(pw);
    let lv = chars_of(lower);
    let mut score: u32 = 100;
    let mut issues: Vec<String> = Vec::new();
    let ghost mut done: Seq<(nat, Seq<char>)> = Seq::empty();
    proof {
        assert(views(issues@) =~= issue_texts(done));
    }
    if !utf8_len_exceeds(&v, 9) {
        apply(&mut score, &mut issues, 35, "too_short".to_owned(), Ghost(done));
        proof {
            done = done.push((35nat, "too_short"@));
        }
    } else if !utf8_len_exceeds(&v, 13) {
        apply(&mut score, &mut issues, 15, "could_be_longer".to_owned(), Ghost(done));
        proof {
            done = done.push((15nat, "could_be_longer"@));
        }
    }
    proof {
        assert(done =~= length_checks(pw@));
    }
    let ghost before = done;
    if !has_class_exec(&v, 0) {
        apply(&mut score, &mut issues, 10, "missing_lowercase".to_owned(), Ghost(done));
        proof {
            done = done.push((10nat, "missing_lowercase"@));
        }
    }
    proof {
        assert(done =~= before + check(!has_class(pw@, 0), 10, "missing_lowercase"@));
    }
    let ghost before = done;
    if !has_class_exec(&v, 1) {
        apply(&mut score, &mut issues, 10, "missing_uppercase".to_owned(), Ghost(done));
        proof {
            done = done.push((10nat, "missing_uppercase"@));
        }
    }
    proof {
        assert(done =~= before + check(!has_class(pw@, 1), 10, "missing_uppercase"@));
    }
    let ghost before = done;
    if !has_class_exec(&v, 2) {
        apply(&mut score, &mut issues, 10, "missing_digit".to_owned(), Ghost(done));
        proof {
            done = done.push((10nat, "missing_digit"@));
        }
    }
    proof {
        assert(done =~= before + check(!has_class(pw@, 2), 10, "missing_digit"@));
    }
    let ghost before = done;
    if !has_class_exec(&v, 3) {
        apply(&mut score, &mut issues, 10, "missing_symbol".to_owned(), Ghost(done));
        proof {
            done = done.push((10nat, "missing_symbol"@));
        }
    }
    proof {
        assert(done =~= before + check(!has_class(pw@, 3), 10, "missing_symbol"@));
    }
    let ghost before = done;
    let mut k: usize = 0;
    let mut found = false;
    while k < 8 && !found
        invariant
            k <= 8,
            lv@ == lower@,
            !found ==> first_pattern_from(lower@, 0) == first_pattern_from(lower@, k as int),
            !found ==> done == before,
            found ==> done == before + pattern_checks(lower@),
            score == deduct(100, done),
            views(issues@) == issue_texts(done),
        decreases 8 - k + (if found { 0int } else { 1int }),
    {
        let p = common_pattern(k);
        let pv = chars_of(p);
        if contains_exec(&lv, &pv) {
            let mut issue = "common_pattern_".to_owned();
            push_text(&mut issue, p);
            apply(&mut score, &mut issues, 35, issue, Ghost(done));
            proof {
                done = done.push((35nat, "common_pattern_"@ + p@));
                assert(done =~= before + pattern_checks(lower@));
            }
            found = true;
        } else {
            k = k + 1;
        }
    }
    proof {
        if !found {
            assert(first_pattern_from(lower@, 8) is None);
            assert(done =~= before + pattern_checks(lower@));
        }
    }
    let ghost before = done;
    if has_repetition(pw) {
        apply(&mut score, &mut issues, 15, "repetition_pattern".to_owned(), Ghost(done));
        proof {
            done = done.push((15nat, "repetition_pattern"@));
        }
    }
    proof {
        assert(done =~= before + check(repeats_thrice(pw@), 15, "repetition_pattern"@));
        assert(done =~= password_checks(pw@, lower@));
    }
    let label = label_of(score);
    PasswordObservation { index, score, label, issues }
}

/// Scores a password entry: length, character classes, common patterns and repetition.
pub fn analyze_password(index: usize, pw: &str) -> (obs: PasswordObservation)
    ensures
        obs.index == index,
        obs.score == password_score(pw@, lowercase(pw@)),
        obs.label@ == score_label(password_score(pw@, lowercase(pw@))),
        views(obs.issues@) == issue_texts(password_checks(pw@, lowercase(pw@))),
{
    let lower = to_lowercase(pw);
    assess_password(index, pw, lower.as_str())
}

/// The password entries of the lines from line `k` on: each line trimmed,
/// empty ones skipped, with its 1-based line number.
pub open spec fn entries_from(ls: Seq<Seq<char>>, k: int) -> Seq<(nat, Seq<char>)>
    decreases ls.len() - k,
{
    if k < 0 || k >= ls.len() {
        Seq::empty()
    } else {
        let t = trim(ls[k]);
        (if t.len() == 0 {
            Seq::empty()
        } else {
            seq![((k + 1) as nat, t)]
        }) + entries_from(ls, k + 1)
    }
}

/// The password entries of a password list file.
pub open spec fn password_entries(text: Seq<char>) -> Seq<(nat, Seq<char>)> {
    entries_from(lines(text), 0)
}

/// Entry `j` repeats an earlier entry of the list.
pub open spec fn reused_at(es: Seq<(nat, Seq<char>)>, j: int) -> bool {
    exists|k: int| 0 <= k < j && #[trigger] es[k].1 == es[j].1
}

/// Score of entry `j` after the reuse deduction of 20 points.
pub open spec fn final_score(es: Seq<(nat, Seq<char>)>, j: int) -> nat {
    let base = password_score(es[j].1, lowercase(es[j].1));
    if reused_at(es, j) {
        saturating_sub(base, 20)
    } else {
        base
    }
}

/// Issues of entry `j`, with `reused_in_file` added for a repeated entry.
pub open spec fn final_issues(es: Seq<(nat, Seq<char>)>, j: int) -> Seq<Seq<char>> {
    let base = issue_texts(password_checks(es[j].1, lowercase(es[j].1)));
    if reused_at(es, j) {
        base.push("reused_in_file"@)
    } else {
        base
    }
}

/// `o` is the observation of entry `j`. The label is the one of the score
/// before the reuse deduction.
pub open spec fn observation_of(o: PasswordObservation, es: Seq<(nat, Seq<char>)>, j: int) -> bool {
    &&& o.index == es[j].0
    &&& o.score == final_score(es, j)
    &&& o.label@ == score_label(password_score(es[j].1, lowercase(es[j].1)))
    &&& views(o.issues@) == final_issues(es, j)
}

/// How many of the flags hold.
pub open spec fn count_true(flags: Seq<bool>) -> nat
    decreases flags.len(),
{
    if flags.len() == 0 {
        0
    } else {
        count_true(flags.drop_last()) + if flags.last() {
            1nat
        } else {
            0nat
        }
    }
}

/// Which entries end with a score under 50.
pub open spec fn weak_flags(es: Seq<(nat, Seq<char>)>) -> Seq<bool> {
    Seq::new(es.len(), |j: int| final_score(es, j) < 50)
}

/// Which entries repeat an earlier one.
pub open spec fn reuse_flags(es: Seq<(nat, Seq<char>)>) -> Seq<bool> {
    Seq::new(es.len(), |j: int| reused_at(es, j))
}

/// The outcome of checking a password list.
pub struct PasswordAudit {
    pub observations: Vec<PasswordObservation>,
    pub total: usize,
    pub weak: usize,
    pub reused: usize,
}

fn same_chars(a: &Vec<char>, b: &Vec<char>) -> (r: bool)
    ensures
        r == (a@ == b@),
{
    if a.len() != b.len() {
        return false;
    }
    let mut i: usize = 0;
    while i < a.len()
        invariant
            i <= a@.len(),
            a@.len() == b@.len(),
            forall|k: int| 0 <= k < i ==> a@[k] == b@[k],
        decreases a@.len() - i,
    {
        if a[i] != b[i] {
            return false;
        }
        i = i + 1;
    }
    proof {
        assert(a@ =~= b@);
    }
    true
}

proof fn lemma_count_true_push(flags: Seq<bool>, b: bool)
    ensures
        count_true(flags.push(b)) == count_true(flags) + if b {
            1nat
        } else {
            0nat
        },
{
    assert(flags.push(b).drop_last() =~= flags);
}

/// Checks every entry of a password list: one observation per non-empty
/// trimmed line, a 20-point deduction and a `reused_in_file` issue for an
/// entry that repeats an earlier one, and the counts of entries, weak
/// entries (final score under 50) and repeated entries.
pub fn check_passwords(text: &str) -> (a: PasswordAudit)
    ensures
        a.observations@.len() == password_entries(text@).len(),
        forall|j: int|
            0 <= j < a.observations@.len() ==> observation_of(
                #[trigger] a.observations@[j],
                password_entries(text@),
                j,
            ),
        a.total == password_entries(text@).len(),
        a.weak == count_true(weak_flags(password_entries(text@))),
        a.reused == count_true(reuse_flags(password_entries(text@))),
{
    let ls = split_lines(text);
    let ghost lv = views(ls@);
    let mut seen: Vec<Vec<char>> = Vec::new();
    let mut observations: Vec<PasswordObservation> = Vec::new();
    let mut weak: usize = 0;
    let mut reused: usize = 0;
    let ghost mut es: Seq<(nat, Seq<char>)> = Seq::empty();
    let mut k: usize = 0;
    proof {
        assert(weak_flags(es) =~= Seq::<bool>::empty());
        assert(reuse_flags(es) =~= Seq::<bool>::empty());
    }
    while k < ls.len()
        invariant
            lv == views(ls@),
            lv == lines(text@),
            k <= ls@.len(),
            es + entries_from(lv, k as int) == entries_from(lv, 0),
            seen@.len() == es.len(),
            forall|j: int| 0 <= j < es.len() ==> (#[trigger] seen@[j])@ == es[j].1,
            observations@.len() == es.len(),
            forall|j: int|
                0 <= j < es.len() ==> observation_of(#[trigger] observations@[j], es, j),
            weak == count_true(weak_flags(es)),
            reused == count_true(reuse_flags(es)),
            weak <= es.len(),
            reused <= es.len(),
            es.len() <= k,
        decreases ls@.len() - k,
    {
        let line = ls[k].as_str();
        let lc = chars_of(line);
        let t = trim_chars(&lc);
        proof {
            assert(lv[k as int] == ls@[k as int]@);
        }
        if t.len() > 0 {
            let pw = string_from_chars(&t);
            let mut obs = analyze_password(k + 1, pw.as_str());
            let mut i: usize = 0;
            let mut dup = false;
            while i < seen.len() && !dup
                invariant
                    i <= seen@.len(),
                    !dup ==> forall|m: int| 0 <= m < i ==> (#[trigger] seen@[m])@ != t@,
                    dup ==> exists|m: int| 0 <= m < seen@.len() && (#[trigger] seen@[m])@ == t@,
                decreases seen@.len() - i + (if dup { 0int } else { 1int }),
            {
                if same_chars(&seen[i], &t) {
                    dup = true;
                } else {
                    i = i + 1;
                }
            }
            let ghost entry = ((k + 1) as nat, t@);
            let ghost new_es = es.push(entry);
            proof {
                assert(entries_from(lv, k as int) =~= seq![entry] + entries_from(lv, k + 1));
                assert(es + entries_from(lv, k as int) =~= new_es + entries_from(lv, k + 1));
                if dup {
                    let m = choose|m: int| 0 <= m < seen@.len() && (#[trigger] seen@[m])@ == t@;
                    assert(new_es[m].1 == new_es[es.len() as int].1);
                    assert(reused_at(new_es, es.len() as int));
                } else {
                    assert forall|m: int| 0 <= m < es.len() as int implies #[trigger] new_es[m].1
                        != new_es[es.len() as int].1 by {
                        assert(seen@[m]@ == es[m].1);
                    }
                    assert(!reused_at(new_es, es.len() as int));
                }
                assert forall|j: int| 0 <= j < es.len() implies reused_at(new_es, j) == reused_at(
                    es,
                    j,
                ) by {
                    if reused_at(es, j) {
                        let m = choose|m: int| 0 <= m < j && #[trigger] es[m].1 == es[j].1;
                        assert(new_es[m].1 == new_es[j].1);
                    }
                    if reused_at(new_es, j) {
                        let m = choose|m: int| 0 <= m < j && #[trigger] new_es[m].1 == new_es[j].1;
                        assert(es[m].1 == es[j].1);
                    }
                }
            }
            if dup {
                obs.issues.push("reused_in_file".to_owned());
                obs.score = if obs.score >= 20 {
                    obs.score - 20
                } else {
                    0
                };
                reused = reused + 1;
            }
            let ghost fs = obs.score;
            if obs.score < 50 {
                weak = weak + 1;
            }
            proof {
                assert(weak_flags(new_es) =~= weak_flags(es).push(fs < 50));
                assert(reuse_flags(new_es) =~= reuse_flags(es).push(dup));
                lemma_count_true_push(weak_flags(es), fs < 50);
                lemma_count_true_push(reuse_flags(es), dup);
                assert(views(obs.issues@) == final_issues(new_es, es.len() as int));
                assert(observation_of(obs, new_es, es.len() as int));
                assert forall|j: int| 0 <= j < es.len() implies observation_of(
                    #[trigger] observations@[j],
                    new_es,
                    j,
                ) by {
                    assert(observation_of(observations@[j], es, j));
                    assert(new_es[j] == es[j]);
                }
            }
            observations.push(obs);
            seen.push(t);
            proof {
                es = new_es;
            }
        } else {
            proof {
                assert(entries_from(lv, k as int) =~= entries_from(lv, k + 1));
            }
        }
        k = k + 1;
    }
    proof {
        assert(entries_from(lv, k as int) =~= Seq::<(nat, Seq<char>)>::empty());
        assert(es =~= es + entries_from(lv, k as int));
    }
    let total = observations.len();
    PasswordAudit { observations, total, weak, reused }
}

/// The findings a checked password list yields: weak hygiene when some entry
/// is weak (high from 10 weak entries on, medium below), and reuse when some
/// entry repeats an earlier one. `evidence` names the list.
pub fn password_findings(weak: usize, reused: usize, evidence: &str) -> (r: Vec<Finding>)
    ensures
        r@.len() == (if weak > 0 { 1int } else { 0int }) + (if reused > 0 { 1int } else { 0int }),
        weak > 0 ==> {
            let f = r@[0];
            &&& f.severity@ == (if weak >= 10 { "high"@ } else { "medium"@ })
            &&& f.module@ == "passwords"@
            &&& f.category@ == "hygiene"@
            &&& f.title@ == "Weak password hygiene detected"@
            &&& f.detail@ == decimal(weak as nat) + " weak entries found in an owner-provided password list."@
            &&& f.recommendation@ == "Use unique long passphrases and a password manager. Avoid reuse."@
            &&& f.evidence@ == evidence@
        },
        reused > 0 ==> {
            let f = r@[r@.len() - 1];
            &&& f.severity@ == "medium"@
            &&& f.module@ == "passwords"@
            &&& f.category@ == "reuse"@
            &&& f.title@ == "Repeated passwords in file"@
            &&& f.detail@ == decimal(reused as nat) + " repeated password entries found."@
            &&& f.recommendation@ == "Avoid password reuse across services."@
            &&& f.evidence@ == evidence@
        },
{
    let mut r: Vec<Finding> = Vec::new();
    if weak > 0 {
        let mut detail = decimal_u64(weak as u64);
        push_text(&mut detail, " weak entries found in an owner-provided password list.");
        let sev = if weak >= 10 {
            "high"
        } else {
            "medium"
        };
        r.push(
            new_finding(
                sev,
                "passwords",
                "hygiene",
                "Weak password hygiene detected",
                detail,
                "Use unique long passphrases and a password manager. Avoid reuse.",
                evidence.to_owned(),
            ),
        );
    }
    if reused > 0 {
        let mut detail = decimal_u64(reused as u64);
        push_text(&mut detail, " repeated password entries found.");
        r.push(
            new_finding(
                "medium",
                "passwords",
                "reuse",
                "Repeated passwords in file",
                detail,
                "Avoid password reuse across services.",
                evidence.to_owned(),
            ),
        );
    }
    r
}

/// The texts of the entries, in order.
pub open spec fn entry_texts(es: Seq<(nat, Seq<char>)>) -> Seq<Seq<char>> {
    es.map_values(|e: (nat, Seq<char>)| e.1)
}

/// An entry counts as reused exactly when some earlier entry of the list,
/// at any distance, has the same trimmed text; a reused entry loses 20
/// points (never going below 0) and gets the `reused_in_file` issue after
/// its own issues, and any other entry keeps its score and issues.
pub proof fn law_reuse_is_any_earlier_repeat(es: Seq<(nat, Seq<char>)>, j: int)
    requires
        0 <= j < es.len(),
    ensures
        reuse_flags(es)[j] == (exists|k: int| 0 <= k < j && #[trigger] es[k].1 == es[j].1),
        final_score(es, j) == if exists|k: int| 0 <= k < j && #[trigger] es[k].1 == es[j].1 {
            saturating_sub(password_score(es[j].1, lowercase(es[j].1)), 20)
        } else {
            password_score(es[j].1, lowercase(es[j].1))
        },
        final_issues(es, j) == if exists|k: int| 0 <= k < j && #[trigger] es[k].1 == es[j].1 {
            issue_texts(password_checks(es[j].1, lowercase(es[j].1))).push("reused_in_file"@)
        } else {
            issue_texts(password_checks(es[j].1, lowercase(es[j].1)))
        },
{
}

/// The number of reused entries is the number of entries minus the number
/// of distinct entry texts: every text counts once, each repeat once more.
pub proof fn law_reused_count_is_repeats(es: Seq<(nat, Seq<char>)>)
    ensures
        count_true(reuse_flags(es)) + entry_texts(es).to_set().len() == es.len(),
        entry_texts(es).to_set().finite(),
    decreases es.len(),
{
    broadcast use {vstd::set::group_set_axioms, vstd::seq_lib::seq_to_set_is_finite};
    if es.len() == 0 {
        assert(entry_texts(es).to_set() =~= Set::<Seq<char>>::empty());
        assert(reuse_flags(es) =~= Seq::<bool>::empty());
    } else {
        let p = es.drop_last();
        let n = p.len() as int;
        let x = es.last();
        law_reused_count_is_repeats(p);
        assert forall|j: int| 0 <= j < n implies reused_at(es, j) == reused_at(p, j) by {
            if reused_at(es, j) {
                let k = choose|k: int| 0 <= k < j && #[trigger] es[k].1 == es[j].1;
                assert(p[k].1 == p[j].1);
            }
            if reused_at(p, j) {
                let k = choose|k: int| 0 <= k < j && #[trigger] p[k].1 == p[j].1;
                assert(es[k].1 == es[j].1);
            }
        }
        assert(reuse_flags(es).drop_last() =~= reuse_flags(p));
        assert(entry_texts(es) =~= entry_texts(p).push(x.1));
        let te = entry_texts(es);
        let tp = entry_texts(p);
        assert forall|t: Seq<char>| te.contains(t) == (tp.contains(t) || t == x.1) by {
            if te.contains(t) {
                let k = choose|k: int| 0 <= k < te.len() && te[k] == t;
                if k < n {
                    assert(tp[k] == t);
                }
            }
            if tp.contains(t) {
                let k = choose|k: int| 0 <= k < tp.len() && tp[k] == t;
                assert(te[k] == t);
            }
            if t == x.1 {
                assert(te[n] == t);
            }
        }
        assert(te.to_set() =~= tp.to_set().insert(x.1));
        assert(reused_at(es, n) == entry_texts(p).contains(x.1)) by {
            if reused_at(es, n) {
                let k = choose|k: int| 0 <= k < n && #[trigger] es[k].1 == es[n].1;
                assert(entry_texts(p)[k] == x.1);
            }
            if entry_texts(p).contains(x.1) {
                let k = choose|k: int| 0 <= k < entry_texts(p).len() && entry_texts(p)[k] == x.1;
                assert(es[k].1 == es[n].1);
            }
        }
        assert(entry_texts(p).contains(x.1) == entry_texts(p).to_set().contains(x.1));
        assert(reuse_flags(es).last() == reused_at(es, n));
    }
}

/// The documented hygiene checks, in the order they are applied: 35 points
/// for fewer than 10 bytes (`too_short`) or else 15 for fewer than 14
/// (`could_be_longer`); 10 each for no ASCII lowercase letter, uppercase
/// letter, digit or other character; 35 for the first of the common
/// patterns found in the lowercase form; 15 for a character repeated three
/// times in a row. Scores of 80 and up are strong, 60 acceptable, 40 weak,
/// lower ones critical.
pub proof fn law_password_checks_are_the_documented_ones(pw: Seq<char>, lower: Seq<char>, score: nat)
    ensures
        common_patterns() == seq![
            "password"@,
            "admin"@,
            "qwerty"@,
            "letmein"@,
            "welcome"@,
            "123456"@,
            "111111"@,
            "iloveyou"@,
        ],
        password_checks(pw, lower) == (if utf8_len(pw) < 10 {
            seq![(35nat, "too_short"@)]
        } else if utf8_len(pw) < 14 {
            seq![(15nat, "could_be_longer"@)]
        } else {
            Seq::empty()
        }) + (if !(exists|i: int| 0 <= i < pw.len() && 'a' as u32 <= #[trigger] pw[i] as u32 && pw[i] as u32 <= 'z' as u32) {
            seq![(10nat, "missing_lowercase"@)]
        } else {
            Seq::empty()
        }) + (if !(exists|i: int| 0 <= i < pw.len() && 'A' as u32 <= #[trigger] pw[i] as u32 && pw[i] as u32 <= 'Z' as u32) {
            seq![(10nat, "missing_uppercase"@)]
        } else {
            Seq::empty()
        }) + (if !(exists|i: int| 0 <= i < pw.len() && '0' as u32 <= #[trigger] pw[i] as u32 && pw[i] as u32 <= '9' as u32) {
            seq![(10nat, "missing_digit"@)]
        } else {
            Seq::empty()
        }) + (if !(exists|i: int|
            0 <= i < pw.len() && !('a' as u32 <= #[trigger] pw[i] as u32 && pw[i] as u32 <= 'z' as u32) && !('A' as u32 <= pw[i] as u32
                && pw[i] as u32 <= 'Z' as u32) && !('0' as u32 <= pw[i] as u32 && pw[i] as u32 <= '9' as u32)) {
            seq![(10nat, "missing_symbol"@)]
        } else {
            Seq::empty()
        }) + (match first_pattern_from(lower, 0) {
            Some(p) => seq![(35nat, "common_pattern_"@ + p)],
            None => Seq::empty(),
        }) + (if exists|i: int| 0 <= i && i + 2 < pw.len() && #[trigger] pw[i] == pw[i + 1] && pw[i
            + 1] == pw[i + 2] {
            seq![(15nat, "repetition_pattern"@)]
        } else {
            Seq::empty()
        }),
        score_label(score) == if score >= 80 {
            "strong"@
        } else if score >= 60 {
            "acceptable"@
        } else if score >= 40 {
            "weak"@
        } else {
            "critical"@
        },
{
    assert(has_class(pw, 0) == (exists|i: int| 0 <= i < pw.len() && 'a' as u32 <= #[trigger] pw[i] as u32 && pw[i] as u32 <= 'z' as u32)) by {
        if has_class(pw, 0) {
            let i = choose|i: int| 0 <= i < pw.len() && in_class(#[trigger] pw[i], 0);
            assert('a' as u32 <= pw[i] as u32 && pw[i] as u32 <= 'z' as u32);
        }
    }
    assert(has_class(pw, 1) == (exists|i: int| 0 <= i < pw.len() && 'A' as u32 <= #[trigger] pw[i] as u32 && pw[i] as u32 <= 'Z' as u32)) by {
        if has_class(pw, 1) {
            let i = choose|i: int| 0 <= i < pw.len() && in_class(#[trigger] pw[i], 1);
            assert('A' as u32 <= pw[i] as u32 && pw[i] as u32 <= 'Z' as u32);
        }
    }
    assert(has_class(pw, 2) == (exists|i: int| 0 <= i < pw.len() && '0' as u32 <= #[trigger] pw[i] as u32 && pw[i] as u32 <= '9' as u32)) by {
        if has_class(pw, 2) {
            let i = choose|i: int| 0 <= i < pw.len() && in_class(#[trigger] pw[i], 2);
            assert('0' as u32 <= pw[i] as u32 && pw[i] as u32 <= '9' as u32);
        }
    }
    assert(has_class(pw, 3) == (exists|i: int|
        0 <= i < pw.len() && !('a' as u32 <= #[trigger] pw[i] as u32 && pw[i] as u32 <= 'z' as u32) && !('A' as u32 <= pw[i] as u32 && pw[i] as u32
            <= 'Z' as u32) && !('0' as u32 <= pw[i] as u32 && pw[i] as u32 <= '9' as u32))) by {
        if has_class(pw, 3) {
            let i = choose|i: int| 0 <= i < pw.len() && in_class(#[trigger] pw[i], 3);
            assert(!('a' as u32 <= pw[i] as u32 && pw[i] as u32 <= 'z' as u32));
        }
    }
}

} // verus!
