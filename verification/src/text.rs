//! Character-level text primitives with their mathematical meaning.
//!
//! Strings are modelled by their `Seq<char>` view. Byte positions, which the
//! standard library's `str` operations count in, are modelled through the
//! UTF-8 width of each character (`char::len_utf8`).
use vstd::prelude::*;

verus! {

/// Number of bytes of the UTF-8 encoding of `c` (what `char::len_utf8` returns).
pub open spec fn char_width(c: char) -> nat {
    if (c as u32) <= 0x7f {
        1
    } else if (c as u32) <= 0x7ff {
        2
    } else if (c as u32) <= 0xffff {
        3
    } else {
        4
    }
}

/// Number of bytes of the UTF-8 encoding of `s` (what `str::len` returns).
pub open spec fn utf8_len(s: Seq<char>) -> nat
    decreases s.len(),
{
    if s.len() == 0 {
        0
    } else {
        utf8_len(s.drop_last()) + char_width(s.last())
    }
}

/// Byte length is additive over concatenation.
pub proof fn lemma_utf8_len_concat(a: Seq<char>, b: Seq<char>)
    ensures
        utf8_len(a + b) == utf8_len(a) + utf8_len(b),
    decreases b.len(),
{
    if b.len() == 0 {
        assert(a + b =~= a);
    } else {
        lemma_utf8_len_concat(a, b.drop_last());
        assert((a + b).drop_last() =~= a + b.drop_last());
    }
}

/// Byte length of a prefix grows by the width of the next character.
pub proof fn lemma_utf8_len_take_step(s: Seq<char>, i: int)
    requires
        0 <= i < s.len(),
    ensures
        utf8_len(s.take(i + 1)) == utf8_len(s.take(i)) + char_width(s[i]),
{
    assert(s.take(i + 1).drop_last() =~= s.take(i));
}

/// Byte length of a suffix grows by the width of the character before it.
pub proof fn lemma_utf8_len_skip_step(s: Seq<char>, j: int)
    requires
        0 < j <= s.len(),
    ensures
        utf8_len(s.skip(j - 1)) == char_width(s[j - 1]) + utf8_len(s.skip(j)),
{
    assert(s.skip(j - 1) =~= seq![s[j - 1]] + s.skip(j));
    lemma_utf8_len_concat(seq![s[j - 1]], s.skip(j));
    let one = seq![s[j - 1]];
    assert(one.drop_last() =~= Seq::<char>::empty());
    assert(utf8_len(one.drop_last()) == 0);
    assert(one.last() == s[j - 1]);
    assert(utf8_len(one) == char_width(s[j - 1]));
}

/// Byte length of a sequence that only holds one-byte characters equals its length.
pub proof fn lemma_utf8_len_ascii(s: Seq<char>)
    requires
        forall|i: int| 0 <= i < s.len() ==> (#[trigger] s[i] as u32) <= 0x7f,
    ensures
        utf8_len(s) == s.len(),
    decreases s.len(),
{
    if s.len() > 0 {
        lemma_utf8_len_ascii(s.drop_last());
    }
}

/// Width of a character, computed.
pub fn width_of(c: char) -> (w: usize)
    ensures
        w == char_width(c),
        1 <= w <= 4,
{
    let u = c as u32;
    if u <= 0x7f {
        1
    } else if u <= 0x7ff {
        2
    } else if u <= 0xffff {
        3
    } else {
        4
    }
}

/// How many leading characters of `s`, starting at index `i`, fit in `k` bytes.
pub open spec fn fit_from(s: Seq<char>, i: int, k: nat) -> nat
    decreases s.len() - i,
{
    if i < 0 || i >= s.len() || char_width(s[i]) > k {
        0
    } else {
        1 + fit_from(s, i + 1, (k - char_width(s[i])) as nat)
    }
}

/// How many leading characters of `s` fit in its first `k` bytes.
pub open spec fn prefix_fit(s: Seq<char>, k: nat) -> nat {
    fit_from(s, 0, k)
}

/// The characters of `s` whose encoding lies in its first `k` bytes.
pub open spec fn byte_prefix(s: Seq<char>, k: nat) -> Seq<char> {
    s.take(prefix_fit(s, k) as int)
}

/// How many trailing characters of `s[..j]` fit in `k` bytes.
pub open spec fn fit_back(s: Seq<char>, j: int, k: nat) -> nat
    decreases j,
{
    if j <= 0 || j > s.len() || char_width(s[j - 1]) > k {
        0
    } else {
        1 + fit_back(s, j - 1, (k - char_width(s[j - 1])) as nat)
    }
}

/// The characters of `s` whose encoding lies in its last `k` bytes.
pub open spec fn byte_suffix(s: Seq<char>, k: nat) -> Seq<char> {
    s.skip(s.len() - fit_back(s, s.len() as int, k))
}

proof fn lemma_fit_from_bound(s: Seq<char>, i: int, k: nat)
    requires
        0 <= i <= s.len(),
    ensures
        i + fit_from(s, i, k) <= s.len(),
    decreases s.len() - i,
{
    if i < s.len() && char_width(s[i]) <= k {
        lemma_fit_from_bound(s, i + 1, (k - char_width(s[i])) as nat);
    }
}

proof fn lemma_fit_back_bound(s: Seq<char>, j: int, k: nat)
    requires
        0 <= j <= s.len(),
    ensures
        fit_back(s, j, k) <= j,
    decreases j,
{
    if j > 0 && char_width(s[j - 1]) <= k {
        lemma_fit_back_bound(s, j - 1, (k - char_width(s[j - 1])) as nat);
    }
}

/// The characters that fit in `k` bytes from index `i` take at most `k` bytes.
pub proof fn lemma_fit_from_len(s: Seq<char>, i: int, k: nat)
    requires
        0 <= i <= s.len(),
    ensures
        i + fit_from(s, i, k) <= s.len(),
        utf8_len(s.take(i + fit_from(s, i, k))) <= utf8_len(s.take(i)) + k,
    decreases s.len() - i,
{
    if i < s.len() && char_width(s[i]) <= k {
        lemma_fit_from_len(s, i + 1, (k - char_width(s[i])) as nat);
        lemma_utf8_len_take_step(s, i);
    }
}

/// The trailing characters of `s[..j]` that fit in `k` bytes take at most `k` bytes.
pub proof fn lemma_fit_back_len(s: Seq<char>, j: int, k: nat)
    requires
        0 <= j <= s.len(),
    ensures
        fit_back(s, j, k) <= j,
        utf8_len(s.skip(j - fit_back(s, j, k))) <= utf8_len(s.skip(j)) + k,
    decreases j,
{
    if j > 0 && char_width(s[j - 1]) <= k {
        lemma_fit_back_len(s, j - 1, (k - char_width(s[j - 1])) as nat);
        lemma_utf8_len_skip_step(s, j);
    }
}

/// The first `k` bytes of `s` take at most `k` bytes.
pub proof fn lemma_byte_prefix_len(s: Seq<char>, k: nat)
    ensures
        utf8_len(byte_prefix(s, k)) <= k,
        prefix_fit(s, k) <= s.len(),
        byte_prefix(s, k).len() == prefix_fit(s, k),
{
    lemma_fit_from_len(s, 0, k);
    assert(s.take(0) =~= Seq::<char>::empty());
}

/// The last `k` bytes of `s` take at most `k` bytes.
pub proof fn lemma_byte_suffix_len(s: Seq<char>, k: nat)
    ensures
        utf8_len(byte_suffix(s, k)) <= k,
{
    lemma_fit_back_len(s, s.len() as int, k);
    assert(s.skip(s.len() as int) =~= Seq::<char>::empty());
}

/// No line of a text holds a line feed.
pub proof fn law_lines_hold_no_line_feed(s: Seq<char>)
    ensures
        forall|i: int, j: int|
            0 <= i < lines(s).len() && 0 <= j < lines(s)[i].len() ==> #[trigger] lines(s)[i][j]
                != '\n',
{
    lemma_lines_from_no_lf(s, 0);
}

proof fn lemma_next_newline_no_lf(s: Seq<char>, i: int)
    requires
        0 <= i <= s.len(),
    ensures
        forall|k: int| i <= k < next_newline(s, i) ==> s[k] != '\n',
    decreases s.len() - i,
{
    if i < s.len() && s[i] != '\n' {
        lemma_next_newline_no_lf(s, i + 1);
    }
}

proof fn lemma_lines_from_no_lf(s: Seq<char>, i: int)
    requires
        0 <= i,
    ensures
        forall|a: int, j: int|
            0 <= a < lines_from(s, i).len() && 0 <= j < lines_from(s, i)[a].len()
                ==> #[trigger] lines_from(s, i)[a][j] != '\n',
    decreases s.len() + 1 - i,
{
    if i < s.len() {
        let nl = next_newline(s, i);
        lemma_next_newline_bounds(s, i);
        lemma_next_newline_no_lf(s, i);
        lemma_lines_from_no_lf(s, nl + 1);
        let seg = s.subrange(i, nl);
        let line = strip_cr(seg, nl < s.len());
        assert forall|a: int, j: int|
            0 <= a < lines_from(s, i).len() && 0 <= j < lines_from(s, i)[a].len()
                implies #[trigger] lines_from(s, i)[a][j] != '\n' by {
            if a == 0 {
                assert(lines_from(s, i)[0] == line);
                assert(line[j] == s[i + j]);
            } else {
                assert(lines_from(s, i)[a] == lines_from(s, nl + 1)[a - 1]);
            }
        }
    }
}

/// Number of leading characters of `s` that fit in `k` bytes, and their byte length.
pub fn prefix_fit_exec(s: &Vec<char>, k: usize) -> (r: (usize, usize))
    ensures
        r.0 == prefix_fit(s@, k as nat),
        r.1 == utf8_len(s@.take(r.0 as int)),
        r.0 <= s@.len(),
        r.1 <= k,
{
    let mut i: usize = 0;
    let mut acc: usize = 0;
    while i < s.len()
        invariant
            i <= s@.len(),
            acc <= k,
            acc == utf8_len(s@.take(i as int)),
            fit_from(s@, 0, k as nat) == i + fit_from(s@, i as int, (k - acc) as nat),
        ensures
            i <= s@.len(),
            acc <= k,
            acc == utf8_len(s@.take(i as int)),
            fit_from(s@, 0, k as nat) == i,
        decreases s@.len() - i,
    {
        let w = width_of(s[i]);
        if w > k - acc {
            break;
        }
        proof {
            lemma_utf8_len_take_step(s@, i as int);
        }
        acc = acc + w;
        i = i + 1;
    }
    (i, acc)
}

/// Number of trailing characters of `s` that fit in `k` bytes, and their byte length.
pub fn suffix_fit_exec(s: &Vec<char>, k: usize) -> (r: (usize, usize))
    ensures
        r.0 == fit_back(s@, s@.len() as int, k as nat),
        r.0 <= s@.len(),
        r.1 == utf8_len(s@.skip(s@.len() - r.0)),
        r.1 <= k,
{
    let n = s.len();
    let mut j: usize = n;
    let mut acc: usize = 0;
    proof {
        assert(s@.skip(n as int) =~= Seq::<char>::empty());
    }
    while j > 0
        invariant
            j <= n,
            n == s@.len(),
            acc <= k,
            acc == utf8_len(s@.skip(j as int)),
            fit_back(s@, n as int, k as nat) == (n - j) + fit_back(s@, j as int, (k - acc) as nat),
        ensures
            j <= n,
            acc <= k,
            acc == utf8_len(s@.skip(j as int)),
            fit_back(s@, n as int, k as nat) == n - j,
        decreases j,
    {
        let w = width_of(s[j - 1]);
        if w > k - acc {
            break;
        }
        proof {
            lemma_utf8_len_skip_step(s@, j as int);
        }
        acc = acc + w;
        j = j - 1;
    }
    (n - j, acc)
}

/// Whether the byte length of `s` exceeds `limit`, computed without overflow.
pub fn utf8_len_exceeds(s: &Vec<char>, limit: usize) -> (r: bool)
    ensures
        r == (utf8_len(s@) > limit),
{
    let mut i: usize = 0;
    let mut acc: usize = 0;
    while i < s.len()
        invariant
            i <= s@.len(),
            acc <= limit,
            acc == utf8_len(s@.take(i as int)),
        decreases s@.len() - i,
    {
        let w = width_of(s[i]);
        proof {
            lemma_utf8_len_take_step(s@, i as int);
            lemma_utf8_len_concat(s@.take(i as int + 1), s@.skip(i as int + 1));
            assert(s@.take(i as int + 1) + s@.skip(i as int + 1) =~= s@);
        }
        if w > limit - acc {
            return true;
        }
        acc = acc + w;
        i = i + 1;
    }
    proof {
        assert(s@.take(i as int) =~= s@);
    }
    false
}

/// `String::push`: appends one character.
#[verifier::external_body]
pub(crate) fn push_char(s: &mut String, c: char)
    ensures
        final(s)@ == old(s)@.push(c),
{
    s.push(c);
}

/// Appends the characters of `t` to `s`.
pub fn push_text(s: &mut String, t: &str)
    ensures
        final(s)@ == old(s)@ + t@,
{
    let ghost start = s@;
    for c in it: t.chars()
        invariant
            it.seq() == t@,
            s@ == start + it.seq().take(it.index() as int),
    {
        proof {
            assert(it.seq().take(it.index() as int + 1) =~= it.seq().take(it.index() as int).push(c));
        }
        push_char(s, c);
    }
    proof {
        assert(t@.take(t@.len() as int) =~= t@);
    }
}

/// A string holding `v[a..b]`.
pub fn string_from_range(v: &Vec<char>, a: usize, b: usize) -> (r: String)
    requires
        a <= b <= v@.len(),
    ensures
        r@ == v@.subrange(a as int, b as int),
{
    let mut r = String::new();
    let mut i = a;
    while i < b
        invariant
            a <= i <= b,
            b <= v@.len(),
            r@ == v@.subrange(a as int, i as int),
        decreases b - i,
    {
        proof {
            assert(v@.subrange(a as int, i as int + 1) =~= v@.subrange(a as int, i as int).push(v@[i as int]));
        }
        push_char(&mut r, v[i]);
        i = i + 1;
    }
    r
}

/// A string holding the characters of `v`.
pub fn string_from_chars(v: &Vec<char>) -> (r: String)
    ensures
        r@ == v@,
{
    let r = string_from_range(v, 0, v.len());
    proof {
        assert(v@.subrange(0, v@.len() as int) =~= v@);
    }
    r
}

/// Characters with the Unicode `White_Space` property (what `char::is_whitespace` tests).
pub open spec fn is_white_space(c: char) -> bool {
    let u = c as u32;
    ||| 0x09 <= u <= 0x0d
    ||| u == 0x20
    ||| u == 0x85
    ||| u == 0xa0
    ||| u == 0x1680
    ||| 0x2000 <= u <= 0x200a
    ||| u == 0x2028
    ||| u == 0x2029
    ||| u == 0x202f
    ||| u == 0x205f
    ||| u == 0x3000
}

/// `char::is_whitespace`.
pub fn is_whitespace(c: char) -> (r: bool)
    ensures
        r == is_white_space(c),
{
    let u = c as u32;
    (0x09 <= u && u <= 0x0d) || u == 0x20 || u == 0x85 || u == 0xa0 || u == 0x1680 || (0x2000
        <= u && u <= 0x200a) || u == 0x2028 || u == 0x2029 || u == 0x202f || u == 0x205f || u
        == 0x3000
}

/// Index of the first non-whitespace character at or after `i` (or the length).
pub open spec fn first_non_ws(s: Seq<char>, i: int) -> int
    decreases s.len() - i,
{
    if i < 0 || i >= s.len() {
        s.len() as int
    } else if !is_white_space(s[i]) {
        i
    } else {
        first_non_ws(s, i + 1)
    }
}

/// One past the index of the last non-whitespace character before `j` (or 0).
pub open spec fn end_non_ws(s: Seq<char>, j: int) -> int
    decreases j,
{
    if j <= 0 || j > s.len() {
        0
    } else if !is_white_space(s[j - 1]) {
        j
    } else {
        end_non_ws(s, j - 1)
    }
}

/// `str::trim`: `s` without leading and trailing whitespace.
pub open spec fn trim(s: Seq<char>) -> Seq<char> {
    let a = first_non_ws(s, 0);
    let b = end_non_ws(s, s.len() as int);
    if a < b {
        s.subrange(a, b)
    } else {
        Seq::empty()
    }
}

proof fn lemma_first_non_ws_bounds(s: Seq<char>, i: int)
    requires
        0 <= i <= s.len(),
    ensures
        i <= first_non_ws(s, i) <= s.len(),
    decreases s.len() - i,
{
    if i < s.len() && is_white_space(s[i]) {
        lemma_first_non_ws_bounds(s, i + 1);
    }
}

proof fn lemma_end_non_ws_bounds(s: Seq<char>, j: int)
    requires
        0 <= j <= s.len(),
    ensures
        0 <= end_non_ws(s, j) <= j,
    decreases j,
{
    if j > 0 && is_white_space(s[j - 1]) {
        lemma_end_non_ws_bounds(s, j - 1);
    }
}

proof fn lemma_first_non_ws_is(s: Seq<char>, i: int)
    requires
        0 <= i <= s.len(),
    ensures
        first_non_ws(s, i) < s.len() ==> !is_white_space(s[first_non_ws(s, i)]),
        forall|k: int| i <= k < first_non_ws(s, i) ==> is_white_space(#[trigger] s[k]),
    decreases s.len() - i,
{
    if i < s.len() && is_white_space(s[i]) {
        lemma_first_non_ws_is(s, i + 1);
    }
}

proof fn lemma_end_non_ws_is(s: Seq<char>, j: int)
    requires
        0 <= j <= s.len(),
    ensures
        end_non_ws(s, j) > 0 ==> !is_white_space(s[end_non_ws(s, j) - 1]),
        forall|k: int| end_non_ws(s, j) <= k < j ==> is_white_space(#[trigger] s[k]),
    decreases j,
{
    if j > 0 && is_white_space(s[j - 1]) {
        lemma_end_non_ws_is(s, j - 1);
    }
}

/// Trimming twice trims nothing more.
pub proof fn lemma_trim_idempotent(s: Seq<char>)
    ensures
        trim(trim(s)) == trim(s),
{
    let a = first_non_ws(s, 0);
    let b = end_non_ws(s, s.len() as int);
    lemma_first_non_ws_bounds(s, 0);
    lemma_end_non_ws_bounds(s, s.len() as int);
    lemma_first_non_ws_is(s, 0);
    lemma_end_non_ws_is(s, s.len() as int);
    let t = trim(s);
    if a < b {
        assert(first_non_ws(t, 0) == 0);
        assert(end_non_ws(t, t.len() as int) == t.len());
        assert(t.subrange(0, t.len() as int) =~= t);
    } else {
        assert(first_non_ws(t, 0) == 0);
    }
}

/// The characters of `str::trim(s)`.
pub fn trim_chars(s: &Vec<char>) -> (r: Vec<char>)
    ensures
        r@ == trim(s@),
{
    let n = s.len();
    let mut a: usize = 0;
    while a < n && is_whitespace(s[a])
        invariant
            a <= n,
            n == s@.len(),
            first_non_ws(s@, 0) == first_non_ws(s@, a as int),
        decreases n - a,
    {
        a = a + 1;
    }
    let mut b: usize = n;
    while b > 0 && is_whitespace(s[b - 1])
        invariant
            b <= n,
            n == s@.len(),
            end_non_ws(s@, n as int) == end_non_ws(s@, b as int),
        decreases b,
    {
        b = b - 1;
    }
    let mut r: Vec<char> = Vec::new();
    if a < b {
        let mut i = a;
        while i < b
            invariant
                a <= i <= b,
                b <= n,
                n == s@.len(),
                r@ == s@.subrange(a as int, i as int),
            decreases b - i,
        {
            proof {
                assert(s@.subrange(a as int, i as int + 1) =~= s@.subrange(a as int, i as int).push(
                    s@[i as int],
                ));
            }
            r.push(s[i]);
            i = i + 1;
        }
    }
    r
}

/// `p` occurs in `s` at index `i`.
pub open spec fn occurs_at(s: Seq<char>, p: Seq<char>, i: int) -> bool {
    0 <= i && i + p.len() <= s.len() && s.subrange(i, i + p.len()) == p
}

/// Leftmost index at or after `i` where the non-empty pattern `p` occurs in `s`.
pub open spec fn find_from(s: Seq<char>, p: Seq<char>, i: int) -> Option<int>
    decreases s.len() - i,
{
    if i < 0 || i >= s.len() || i + p.len() > s.len() {
        None
    } else if occurs_at(s, p, i) {
        Some(i)
    } else {
        find_from(s, p, i + 1)
    }
}

/// A found occurrence lies inside `s` and really is one.
pub proof fn lemma_find_from_bounds(s: Seq<char>, p: Seq<char>, i: int)
    ensures
        find_from(s, p, i) matches Some(j) ==> i <= j && occurs_at(s, p, j),
    decreases s.len() - i,
{
    if !(i < 0 || i >= s.len() || i + p.len() > s.len()) && !occurs_at(s, p, i) {
        lemma_find_from_bounds(s, p, i + 1);
    }
}

/// `str::contains` for a non-empty pattern.
pub open spec fn contains_text(s: Seq<char>, p: Seq<char>) -> bool {
    find_from(s, p, 0) is Some
}

/// Number of non-overlapping occurrences of the non-empty pattern `p` in `s`
/// scanning from index `i` (what `str::matches(p).count()` counts).
pub open spec fn count_from(s: Seq<char>, p: Seq<char>, i: int) -> nat
    decreases s.len() - i,
{
    if i < 0 || i >= s.len() || p.len() == 0 || i + p.len() > s.len() {
        0
    } else if occurs_at(s, p, i) {
        1 + count_from(s, p, i + p.len())
    } else {
        count_from(s, p, i + 1)
    }
}

/// Whether `p` occurs in `s` at index `i`, computed.
pub fn matches_at(s: &Vec<char>, p: &Vec<char>, i: usize) -> (r: bool)
    ensures
        r == occurs_at(s@, p@, i as int),
{
    if i > s.len() || p.len() > s.len() - i {
        return false;
    }
    let mut k: usize = 0;
    let sl = s.len();
    while k < p.len()
        invariant
            sl == s@.len(),
            k <= p@.len(),
            i + p@.len() <= s@.len(),
            forall|m: int| 0 <= m < k ==> s@[i + m] == p@[m],
        decreases p@.len() - k,
    {
        if s[i + k] != p[k] {
            proof {
                assert(s@.subrange(i as int, i + p@.len())[k as int] != p@[k as int]);
            }
            return false;
        }
        k = k + 1;
    }
    proof {
        assert(s@.subrange(i as int, i + p@.len()) =~= p@);
    }
    true
}

/// Leftmost occurrence of the non-empty `p` in `s` at or after `from`, computed.
pub fn find_exec(s: &Vec<char>, p: &Vec<char>, from: usize) -> (r: Option<usize>)
    requires
        p@.len() > 0,
    ensures
        r matches Some(i) ==> find_from(s@, p@, from as int) == Some(i as int),
        r is None ==> find_from(s@, p@, from as int) is None,
{
    let mut i = from;
    while i < s.len()
        invariant
            from <= i,
            find_from(s@, p@, from as int) == find_from(s@, p@, i as int),
        decreases s@.len() - i,
    {
        if p.len() > s.len() - i {
            return None;
        }
        if matches_at(s, p, i) {
            return Some(i);
        }
        i = i + 1;
    }
    None
}

/// `str::contains` for a non-empty pattern, computed.
pub fn contains_exec(s: &Vec<char>, p: &Vec<char>) -> (r: bool)
    requires
        p@.len() > 0,
    ensures
        r == contains_text(s@, p@),
{
    find_exec(s, p, 0).is_some()
}

/// `str::matches(p).count()` for a non-empty pattern, computed.
pub fn count_exec(s: &Vec<char>, p: &Vec<char>) -> (r: usize)
    requires
        p@.len() > 0,
    ensures
        r == count_from(s@, p@, 0),
{
    let mut i: usize = 0;
    let mut n: usize = 0;
    while i < s.len()
        invariant
            p@.len() > 0,
            n <= i,
            count_from(s@, p@, 0) == n + count_from(s@, p@, i as int),
        decreases s@.len() - i,
    {
        if p.len() > s.len() - i {
            return n;
        }
        if matches_at(s, p, i) {
            n = n + 1;
            i = i + p.len();
        } else {
            i = i + 1;
        }
    }
    n
}

/// Decimal digit character for `d < 10`.
pub open spec fn digit_char(d: nat) -> char {
    ((48 + d) as u32) as char
}

/// Decimal representation of `n` (what `Display` prints for an unsigned integer).
pub open spec fn decimal(n: nat) -> Seq<char>
    decreases n,
{
    if n < 10 {
        seq![digit_char(n)]
    } else {
        decimal(n / 10).push(digit_char(n % 10))
    }
}

/// Decimal representation of a signed integer.
pub open spec fn signed_decimal(n: int) -> Seq<char> {
    if n < 0 {
        seq!['-'] + decimal((-n) as nat)
    } else {
        decimal(n as nat)
    }
}

fn digit_of(d: u64) -> (c: char)
    requires
        d < 10,
    ensures
        c == digit_char(d as nat),
{
    let b: u8 = (48 + d) as u8;
    let c = b as char;
    proof {
        assert((b as char) as u32 == b as u32);
    }
    c
}

/// Decimal text of an unsigned integer.
pub fn decimal_u64(n: u64) -> (r: String)
    ensures
        r@ == decimal(n as nat),
    decreases n,
{
    if n < 10 {
        let mut r = String::new();
        push_char(&mut r, digit_of(n));
        proof {
            assert(r@ =~= seq![digit_char(n as nat)]);
        }
        r
    } else {
        let mut r = decimal_u64(n / 10);
        push_char(&mut r, digit_of(n % 10));
        r
    }
}

/// Decimal text of a wide unsigned integer.
pub fn decimal_u128(n: u128) -> (r: String)
    ensures
        r@ == decimal(n as nat),
    decreases n,
{
    if n < 10 {
        let mut r = String::new();
        push_char(&mut r, digit_of(n as u64));
        proof {
            assert(r@ =~= seq![digit_char(n as nat)]);
        }
        r
    } else {
        let mut r = decimal_u128(n / 10);
        push_char(&mut r, digit_of((n % 10) as u64));
        r
    }
}

/// Text starts with the prefix.
pub open spec fn starts_with(s: Seq<char>, p: Seq<char>) -> bool {
    p.len() <= s.len() && s.take(p.len() as int) == p
}

/// Text ends with the suffix.
pub open spec fn ends_with(s: Seq<char>, p: Seq<char>) -> bool {
    p.len() <= s.len() && s.skip(s.len() - p.len()) == p
}

/// `str::starts_with`, computed.
pub fn starts_with_exec(s: &str, p: &str) -> (r: bool)
    ensures
        r == starts_with(s@, p@),
{
    let sv = chars_of(s);
    let pv = chars_of(p);
    if pv.len() > sv.len() {
        return false;
    }
    let m = matches_at(&sv, &pv, 0);
    proof {
        assert(sv@.subrange(0, pv@.len() as int) =~= sv@.take(pv@.len() as int));
    }
    m
}

/// `str::ends_with`, computed.
pub fn ends_with_exec(s: &str, p: &str) -> (r: bool)
    ensures
        r == ends_with(s@, p@),
{
    let sv = chars_of(s);
    let pv = chars_of(p);
    if pv.len() > sv.len() {
        return false;
    }
    let m = matches_at(&sv, &pv, sv.len() - pv.len());
    proof {
        assert(sv@.subrange(sv@.len() - pv@.len(), sv@.len() as int) =~= sv@.skip(
            sv@.len() - pv@.len(),
        ));
    }
    m
}

/// Decimal text of a signed integer.
pub fn decimal_i64(n: i64) -> (r: String)
    ensures
        r@ == signed_decimal(n as int),
{
    if n < 0 {
        let m: u64 = (0i128 - (n as i128)) as u64;
        let mut r = String::new();
        push_char(&mut r, '-');
        let d = decimal_u64(m);
        push_text(&mut r, d.as_str());
        proof {
            assert(r@ =~= seq!['-'] + decimal((-n) as nat));
        }
        r
    } else {
        decimal_u64(n as u64)
    }
}

/// The characters of `s`, in order.
pub fn chars_of(s: &str) -> (v: Vec<char>)
    ensures
        v@ == s@,
{
    let mut v: Vec<char> = Vec::new();
    for c in it: s.chars()
        invariant
            v@ == it.seq().take(it.index() as int),
            it.seq() == s@,
    {
        v.push(c);
    }
    v
}

/// Text equality.
pub fn text_eq(a: &str, b: &str) -> (r: bool)
    ensures
        r == (a@ == b@),
{
    let x = chars_of(a);
    let y = chars_of(b);
    if x.len() != y.len() {
        return false;
    }
    let mut i: usize = 0;
    while i < x.len()
        invariant
            i <= x@.len(),
            x@.len() == y@.len(),
            x@ == a@,
            y@ == b@,
            forall|k: int| 0 <= k < i ==> x@[k] == y@[k],
        decreases x@.len() - i,
    {
        if x[i] != y[i] {
            return false;
        }
        i = i + 1;
    }
    proof {
        assert(x@ =~= y@);
    }
    true
}

/// What `str::to_lowercase` returns for a string with these characters
/// (Unicode lowercase mapping).
pub uninterp spec fn lowercase(s: Seq<char>) -> Seq<char>;

/// What `str::to_uppercase` returns for a string with these characters
/// (Unicode uppercase mapping).
pub uninterp spec fn uppercase(s: Seq<char>) -> Seq<char>;

/// `str::to_lowercase`. Its result is named `lowercase`: Unicode case mapping
/// is not spelled out here.
#[verifier::external_body]
pub(crate) fn to_lowercase(s: &str) -> (r: String)
    ensures
        r@ == lowercase(s@),
{
    s.to_lowercase()
}

/// `str::to_uppercase`. Its result is named `uppercase`: Unicode case mapping
/// is not spelled out here.
#[verifier::external_body]
pub(crate) fn to_uppercase(s: &str) -> (r: String)
    ensures
        r@ == uppercase(s@),
{
    s.to_uppercase()
}

/// Index of the first `'\n'` at or after `i` (or the length).
pub open spec fn next_newline(s: Seq<char>, i: int) -> int
    decreases s.len() - i,
{
    if i < 0 || i >= s.len() {
        s.len() as int
    } else if s[i] == '\n' {
        i
    } else {
        next_newline(s, i + 1)
    }
}

pub proof fn lemma_next_newline_bounds(s: Seq<char>, i: int)
    requires
        0 <= i <= s.len(),
    ensures
        i <= next_newline(s, i) <= s.len(),
    decreases s.len() - i,
{
    if i < s.len() && s[i] != '\n' {
        lemma_next_newline_bounds(s, i + 1);
    }
}

proof fn lemma_next_newline_is(s: Seq<char>, a: int, b: int)
    requires
        0 <= a <= b <= s.len(),
        forall|k: int| a <= k < b ==> s[k] != '\n',
        b == s.len() || s[b] == '\n',
    ensures
        next_newline(s, a) == b,
    decreases b - a,
{
    if a < b {
        lemma_next_newline_is(s, a + 1, b);
    }
}

/// A line segment without its line terminator: a `'\r'` directly before the
/// `'\n'` that ends it is dropped too.
pub open spec fn strip_cr(seg: Seq<char>, terminated: bool) -> Seq<char> {
    if terminated && seg.len() > 0 && seg.last() == '\r' {
        seg.drop_last()
    } else {
        seg
    }
}

/// The lines of `s` from index `i` on (what `str::lines` yields).
pub open spec fn lines_from(s: Seq<char>, i: int) -> Seq<Seq<char>>
    decreases s.len() + 1 - i,
    via lines_from_decreases
{
    if i < 0 || i >= s.len() {
        Seq::empty()
    } else {
        let j = next_newline(s, i);
        seq![strip_cr(s.subrange(i, j), j < s.len())] + lines_from(s, j + 1)
    }
}

/// `str::lines`: the lines of `s`, split at `"\n"` or `"\r\n"`; a final line
/// ending adds no empty line.
pub open spec fn lines(s: Seq<char>) -> Seq<Seq<char>> {
    lines_from(s, 0)
}

/// The texts of a sequence of strings.
pub open spec fn views(v: Seq<String>) -> Seq<Seq<char>> {
    v.map_values(|x: String| x@)
}

#[via_fn]
proof fn lines_from_decreases(s: Seq<char>, i: int) {
    if 0 <= i < s.len() {
        lemma_next_newline_bounds(s, i);
    }
}

/// The lines of `s`, as `str::lines` yields them.
pub fn split_lines(s: &str) -> (r: Vec<String>)
    ensures
        views(r@) == lines(s@),
{
    let v = chars_of(s);
    let n = v.len();
    let mut out: Vec<String> = Vec::new();
    let mut start: usize = 0;
    let mut i: usize = 0;
    while i < n
        invariant
            n == v@.len(),
            v@ == s@,
            start <= i <= n,
            forall|k: int| start <= k < i ==> v@[k] != '\n',
            views(out@) + lines_from(v@, start as int) == lines_from(v@, 0),
        decreases n - i,
    {
        if v[i] == '\n' {
            let end = if i > start && v[i - 1] == '\r' {
                i - 1
            } else {
                i
            };
            let line = string_from_range(&v, start, end);
            proof {
                lemma_next_newline_is(v@, start as int, i as int);
                let seg = v@.subrange(start as int, i as int);
                if i > start && v@[i - 1] == '\r' {
                    assert(seg.drop_last() =~= v@.subrange(start as int, end as int));
                }
                assert(line@ == strip_cr(seg, true));
                assert(lines_from(v@, start as int) == seq![line@] + lines_from(v@, i + 1));
                assert(views(out@.push(line)) =~= views(out@).push(line@));
                assert(views(out@) + lines_from(v@, start as int) =~= views(out@).push(line@)
                    + lines_from(v@, i + 1));
            }
            out.push(line);
            start = i + 1;
        }
        i = i + 1;
    }
    if start < n {
        let line = string_from_range(&v, start, n);
        proof {
            lemma_next_newline_is(v@, start as int, n as int);
            assert(lines_from(v@, n as int + 1) =~= Seq::<Seq<char>>::empty());
            assert(lines_from(v@, start as int) =~= seq![line@]);
            assert(views(out@.push(line)) =~= views(out@).push(line@));
        }
        out.push(line);
    } else {
        proof {
            assert(lines_from(v@, start as int) =~= Seq::<Seq<char>>::empty());
        }
    }
    proof {
        assert(views(out@) =~= views(out@) + Seq::<Seq<char>>::empty());
    }
    out
}

} // verus!
