//! Verified helpers over `&str` and its `Seq<char>` view: equality and prefix
//! tests, character and substring search, whitespace trimming, decimal
//! parsing and rendering, together with the few trusted bridges to
//! Unicode-aware routines of std.

use vstd::prelude::*;

verus! {

// ---------------------------------------------------------------------------
// Trusted bridges to Unicode-aware routines of std.
// ---------------------------------------------------------------------------

/// The character sequence that `str::to_lowercase` returns for `s`; it
/// depends on the characters of `s` alone.
pub uninterp spec fn lower_of(s: Seq<char>) -> Seq<char>;

/// Whether `char::is_uppercase` holds of `c`; a fixed property of `c`.
pub uninterp spec fn is_upper_char(c: char) -> bool;

/// Whether `char::is_whitespace` holds of `c`; a fixed property of `c`.
pub uninterp spec fn is_space_char(c: char) -> bool;

/// Relies on str::to_lowercase: the result depends on the characters alone.
#[verifier::external_body]
pub fn to_lowercase(s: &str) -> (r: String)
    ensures
        r@ == lower_of(s@),
{
    s.to_lowercase()
}

/// Relies on char::is_uppercase: a pure test of the character's Unicode
/// uppercase property.
#[verifier::external_body]
pub fn char_is_uppercase(c: char) -> (r: bool)
    ensures
        r == is_upper_char(c),
{
    c.is_uppercase()
}

/// Relies on char::is_whitespace: a pure test of the character's Unicode
/// whitespace property.
#[verifier::external_body]
pub fn char_is_whitespace(c: char) -> (r: bool)
    ensures
        r == is_space_char(c),
{
    c.is_whitespace()
}

// ---------------------------------------------------------------------------
// Equality and prefix tests.
// ---------------------------------------------------------------------------

/// True when `p` is a prefix of `s`.
pub open spec fn is_prefix_of(p: Seq<char>, s: Seq<char>) -> bool {
    p.len() <= s.len() && s.subrange(0, p.len() as int) == p
}

/// Equality of two string slices, by characters.
pub fn str_eq(a: &str, b: &str) -> (r: bool)
    ensures
        r == (a@ == b@),
{
    let a_len = a.unicode_len();
    let b_len = b.unicode_len();
    if a_len != b_len {
        assert(a@ != b@);
        return false;
    }
    let mut i: usize = 0;
    while i < a_len
        invariant
            0 <= i <= a_len,
            a_len == a@.len(),
            a_len == b@.len(),
            forall|j: int| 0 <= j < i ==> a@[j] == b@[j],
        decreases a_len - i,
    {
        if a.get_char(i) != b.get_char(i) {
            assert(a@[i as int] != b@[i as int]);
            return false;
        }
        i = i + 1;
    }
    assert(a@ =~= b@);
    true
}

/// Prefix test, by characters.
pub fn str_starts_with(s: &str, p: &str) -> (r: bool)
    ensures
        r == is_prefix_of(p@, s@),
{
    let s_len = s.unicode_len();
    let p_len = p.unicode_len();
    if p_len > s_len {
        return false;
    }
    let mut i: usize = 0;
    while i < p_len
        invariant
            0 <= i <= p_len,
            p_len == p@.len(),
            p_len <= s@.len(),
            forall|j: int| 0 <= j < i ==> s@[j] == p@[j],
        decreases p_len - i,
    {
        if s.get_char(i) != p.get_char(i) {
            assert(s@.subrange(0, p@.len() as int)[i as int] != p@[i as int]);
            return false;
        }
        i = i + 1;
    }
    assert(s@.subrange(0, p@.len() as int) =~= p@);
    true
}

// ---------------------------------------------------------------------------
// Character search.
// ---------------------------------------------------------------------------

/// Index of the first occurrence of the character `c` in `s` at or after
/// `from`, if there is one.
pub open spec fn find_char_from(s: Seq<char>, c: char, from: int) -> Option<int>
    decreases s.len() - from when 0 <= from <= s.len()
{
    if from >= s.len() {
        None
    } else if s[from] == c {
        Some(from)
    } else {
        find_char_from(s, c, from + 1)
    }
}

pub proof fn lemma_find_char_from(s: Seq<char>, c: char, from: int)
    requires
        0 <= from <= s.len(),
    ensures
        match find_char_from(s, c, from) {
            Some(i) => from <= i < s.len() && s[i] == c
                && forall|j: int| from <= j < i ==> s[j] != c,
            None => forall|j: int| from <= j < s.len() ==> s[j] != c,
        },
    decreases s.len() - from,
{
    if from < s.len() && s[from] != c {
        lemma_find_char_from(s, c, from + 1);
    }
}

/// First occurrence of the character `c` in `s` at or after `from`.
pub fn find_char(s: &str, c: char, from: usize) -> (r: Option<usize>)
    requires
        from <= s@.len(),
    ensures
        match r {
            Some(i) => find_char_from(s@, c, from as int) == Some(i as int)
                && from <= i < s@.len() && s@[i as int] == c,
            None => find_char_from(s@, c, from as int) is None,
        },
{
    proof {
        lemma_find_char_from(s@, c, from as int);
    }
    let s_len = s.unicode_len();
    let mut i: usize = from;
    while i < s_len
        invariant
            from <= i <= s_len,
            s_len == s@.len(),
            find_char_from(s@, c, from as int) == find_char_from(s@, c, i as int),
        decreases s_len - i,
    {
        if s.get_char(i) == c {
            return Some(i);
        }
        i = i + 1;
    }
    None
}

/// Index of the last occurrence of the character `c` in `s` strictly before
/// `before`, if there is one.
pub open spec fn rfind_char_before(s: Seq<char>, c: char, before: int) -> Option<int>
    decreases before when 0 <= before <= s.len()
{
    if before <= 0 {
        None
    } else if s[before - 1] == c {
        Some(before - 1)
    } else {
        rfind_char_before(s, c, before - 1)
    }
}

/// Last occurrence of the character `c` in `s`.
pub fn rfind_char(s: &str, c: char) -> (r: Option<usize>)
    ensures
        match r {
            Some(i) => rfind_char_before(s@, c, s@.len() as int) == Some(i as int)
                && i < s@.len(),
            None => rfind_char_before(s@, c, s@.len() as int) is None,
        },
{
    let s_len = s.unicode_len();
    let mut b: usize = s_len;
    while b > 0
        invariant
            0 <= b <= s_len,
            s_len == s@.len(),
            rfind_char_before(s@, c, s_len as int) == rfind_char_before(s@, c, b as int),
        decreases b,
    {
        if s.get_char(b - 1) == c {
            return Some(b - 1);
        }
        b = b - 1;
    }
    None
}

// ---------------------------------------------------------------------------
// Substring search.
// ---------------------------------------------------------------------------

/// True when `pat` occurs in `s` starting exactly at index `i`.
pub open spec fn is_match_at(s: Seq<char>, pat: Seq<char>, i: int) -> bool {
    0 <= i && i + pat.len() <= s.len() && s.subrange(i, i + pat.len() as int) == pat
}

/// Index of the first occurrence of `pat` in `s` at or after `from`,
/// if there is one.
pub open spec fn find_from(s: Seq<char>, pat: Seq<char>, from: int) -> Option<int>
    decreases s.len() - from when 0 <= from <= s.len()
{
    if from + pat.len() > s.len() {
        None
    } else if is_match_at(s, pat, from) {
        Some(from)
    } else if from < s.len() {
        find_from(s, pat, from + 1)
    } else {
        None
    }
}

pub proof fn lemma_find_from(s: Seq<char>, pat: Seq<char>, from: int)
    requires
        0 <= from <= s.len(),
    ensures
        match find_from(s, pat, from) {
            Some(i) => from <= i && is_match_at(s, pat, i)
                && forall|j: int| from <= j < i ==> !is_match_at(s, pat, j),
            None => forall|j: int| from <= j ==> !is_match_at(s, pat, j),
        },
    decreases s.len() - from,
{
    if from + pat.len() > s.len() {
    } else if is_match_at(s, pat, from) {
    } else if from < s.len() {
        lemma_find_from(s, pat, from + 1);
    } else {
        // `from == s.len()` and `pat` is empty; but an empty pattern matches
        // at `from`, so this branch cannot be reached.
        assert(s.subrange(from, from + pat.len() as int) =~= pat);
    }
}

/// Whether `pat` occurs in `s` starting exactly at `i`.
fn match_at(s: &str, pat: &str, i: usize) -> (r: bool)
    requires
        i + pat@.len() <= s@.len(),
    ensures
        r == is_match_at(s@, pat@, i as int),
{
    let s_len = s.unicode_len();
    let p_len = pat.unicode_len();
    let mut j: usize = 0;
    while j < p_len
        invariant
            0 <= j <= p_len,
            p_len == pat@.len(),
            s_len == s@.len(),
            i + p_len <= s_len,
            forall|k: int| 0 <= k < j ==> s@[i + k] == pat@[k],
        decreases p_len - j,
    {
        if s.get_char(i + j) != pat.get_char(j) {
            assert(s@.subrange(i as int, i + pat@.len() as int)[j as int] != pat@[j as int]);
            return false;
        }
        j = j + 1;
    }
    assert(s@.subrange(i as int, i + pat@.len() as int) =~= pat@);
    true
}

/// First occurrence of `pat` in `s` at or after `from`.
pub fn find_str_from(s: &str, pat: &str, from: usize) -> (r: Option<usize>)
    requires
        from <= s@.len(),
    ensures
        match r {
            Some(i) => find_from(s@, pat@, from as int) == Some(i as int)
                && from <= i && i + pat@.len() <= s@.len()
                && is_match_at(s@, pat@, i as int),
            None => find_from(s@, pat@, from as int) is None,
        },
{
    proof {
        lemma_find_from(s@, pat@, from as int);
    }
    let s_len = s.unicode_len();
    let p_len = pat.unicode_len();
    if p_len > s_len {
        assert(find_from(s@, pat@, from as int) is None);
        return None;
    }
    let limit = s_len - p_len;
    if from > limit {
        assert(find_from(s@, pat@, from as int) is None);
        return None;
    }
    if p_len == 0 {
        assert(s@.subrange(from as int, from as int) =~= pat@);
        return Some(from);
    }
    let mut i: usize = from;
    while i <= limit
        invariant
            from <= i <= limit + 1,
            limit == s_len - p_len,
            1 <= p_len <= s_len,
            s_len == s@.len(),
            p_len == pat@.len(),
            find_from(s@, pat@, from as int) == find_from(s@, pat@, i as int),
        decreases limit + 1 - i,
    {
        if match_at(s, pat, i) {
            return Some(i);
        }
        assert(i < s@.len());
        i = i + 1;
    }
    assert(find_from(s@, pat@, i as int) is None);
    None
}

// ---------------------------------------------------------------------------
// Whitespace trimming.
// ---------------------------------------------------------------------------

/// Index of the first character at or after `i` that is not whitespace;
/// `s.len()` if there is none.
pub open spec fn first_non_space(s: Seq<char>, i: int) -> int
    decreases s.len() - i when 0 <= i <= s.len()
{
    if i >= s.len() {
        i
    } else if !is_space_char(s[i]) {
        i
    } else {
        first_non_space(s, i + 1)
    }
}

/// End of the text once trailing whitespace before index `e` is dropped:
/// the least `b <= e` with only whitespace in `s[b..e]` and either `b == 0`
/// or `s[b-1]` not whitespace.
pub open spec fn trim_end_idx(s: Seq<char>, e: int) -> int
    decreases e when 0 <= e <= s.len()
{
    if e <= 0 {
        0
    } else if !is_space_char(s[e - 1]) {
        e
    } else {
        trim_end_idx(s, e - 1)
    }
}

/// The text with leading and trailing whitespace removed.
pub open spec fn trim_spec(s: Seq<char>) -> Seq<char> {
    let a = first_non_space(s, 0);
    let b = trim_end_idx(s, s.len() as int);
    if a <= b {
        s.subrange(a, b)
    } else {
        Seq::empty()
    }
}

proof fn lemma_first_non_space_bounds(s: Seq<char>, i: int)
    requires
        0 <= i <= s.len(),
    ensures
        i <= first_non_space(s, i) <= s.len(),
        first_non_space(s, i) < s.len() ==> !is_space_char(s[first_non_space(s, i)]),
    decreases s.len() - i,
{
    if i < s.len() && is_space_char(s[i]) {
        lemma_first_non_space_bounds(s, i + 1);
    }
}

proof fn lemma_trim_end_ge(s: Seq<char>, e: int, a: int)
    requires
        0 <= a < e <= s.len(),
        !is_space_char(s[a]),
    ensures
        a + 1 <= trim_end_idx(s, e) <= e,
    decreases e,
{
    if is_space_char(s[e - 1]) {
        lemma_trim_end_ge(s, e - 1, a);
    }
}

/// The slice with leading and trailing whitespace removed.
pub fn trim<'a>(s: &'a str) -> (r: &'a str)
    ensures
        r@ == trim_spec(s@),
{
    let s_len = s.unicode_len();
    let mut a: usize = 0;
    while a < s_len && char_is_whitespace(s.get_char(a))
        invariant
            0 <= a <= s_len,
            s_len == s@.len(),
            first_non_space(s@, 0) == first_non_space(s@, a as int),
        decreases s_len - a,
    {
        a = a + 1;
    }
    assert(first_non_space(s@, 0) == a);
    if a == s_len {
        proof {
            lemma_trim_end_ge_none(s@, a as int);
        }
        let r = s.substring_char(0, 0);
        assert(r@ =~= trim_spec(s@));
        return r;
    }
    let mut b: usize = s_len;
    while b > a && char_is_whitespace(s.get_char(b - 1))
        invariant
            a < b <= s_len,
            s_len == s@.len(),
            a < s_len,
            !is_space_char(s@[a as int]),
            trim_end_idx(s@, s_len as int) == trim_end_idx(s@, b as int),
        decreases b,
    {
        b = b - 1;
    }
    assert(trim_end_idx(s@, b as int) == b);
    s.substring_char(a, b)
}

proof fn lemma_trim_end_ge_none(s: Seq<char>, a: int)
    requires
        first_non_space(s, 0) == s.len(),
        a == s.len(),
    ensures
        trim_spec(s) =~= Seq::<char>::empty(),
{
    lemma_all_space(s, 0);
    lemma_trim_end_all_space(s, s.len() as int);
}

proof fn lemma_all_space(s: Seq<char>, i: int)
    requires
        0 <= i <= s.len(),
        first_non_space(s, i) == s.len(),
    ensures
        forall|j: int| i <= j < s.len() ==> is_space_char(s[j]),
    decreases s.len() - i,
{
    if i < s.len() {
        if !is_space_char(s[i]) {
        } else {
            lemma_all_space(s, i + 1);
        }
    }
}

proof fn lemma_trim_end_all_space(s: Seq<char>, e: int)
    requires
        0 <= e <= s.len(),
        forall|j: int| 0 <= j < s.len() ==> is_space_char(s[j]),
    ensures
        trim_end_idx(s, e) == 0,
    decreases e,
{
    if e > 0 {
        lemma_trim_end_all_space(s, e - 1);
    }
}

// ---------------------------------------------------------------------------
// Decimal parsing and rendering.
// ---------------------------------------------------------------------------

/// Whether `c` is an ASCII decimal digit.
pub open spec fn is_dec_digit(c: char) -> bool {
    '0' <= c && c <= '9'
}

/// The value of the digit `c`.
pub open spec fn digit_of(c: char) -> int {
    c as int - '0' as int
}

/// Whether `s` is a non-empty run of ASCII decimal digits.
pub open spec fn all_digits(s: Seq<char>) -> bool {
    forall|i: int| 0 <= i < s.len() ==> is_dec_digit(s[i])
}

/// The value of a run of decimal digits.
pub open spec fn digits_val(s: Seq<char>) -> int
    decreases s.len()
{
    if s.len() == 0 {
        0
    } else {
        digits_val(s.drop_last()) * 10 + digit_of(s.last())
    }
}

proof fn lemma_digits_val_nonneg(s: Seq<char>)
    requires
        all_digits(s),
    ensures
        digits_val(s) >= 0,
    decreases s.len(),
{
    if s.len() > 0 {
        assert(all_digits(s.drop_last()));
        lemma_digits_val_nonneg(s.drop_last());
        assert(digits_val(s.drop_last()) * 10 >= 0) by (nonlinear_arith)
            requires digits_val(s.drop_last()) >= 0;
    }
}

proof fn lemma_digits_val_grows(s: Seq<char>, i: int, j: int)
    requires
        all_digits(s),
        0 <= i <= j <= s.len(),
    ensures
        digits_val(s.subrange(0, i)) <= digits_val(s.subrange(0, j)),
    decreases j - i,
{
    if i < j {
        lemma_digits_val_grows(s, i, j - 1);
        let p = s.subrange(0, j - 1);
        let q = s.subrange(0, j);
        assert(q.drop_last() =~= p);
        assert(all_digits(p));
        lemma_digits_val_nonneg(p);
        assert(digits_val(p) * 10 >= digits_val(p)) by (nonlinear_arith)
            requires digits_val(p) >= 0;
        assert(digit_of(q.last()) >= 0);
    }
}

/// The number denoted by `s`: an optional leading `+`, then one or more
/// ASCII decimal digits whose value fits in `usize`.
pub open spec fn parse_usize_spec(s: Seq<char>) -> Option<usize> {
    let t = if s.len() >= 1 && s[0] == '+' {
        s.subrange(1, s.len() as int)
    } else {
        s
    };
    if t.len() >= 1 && all_digits(t) && digits_val(t) <= usize::MAX {
        Some(digits_val(t) as usize)
    } else {
        None
    }
}

/// Parses a decimal number: an optional leading `+`, then one or more
/// digits; `None` when the text has another shape or the value does not
/// fit in `usize`.
pub fn parse_usize(s: &str) -> (r: Option<usize>)
    ensures
        r == parse_usize_spec(s@),
{
    let s_len = s.unicode_len();
    let start: usize = if s_len >= 1 && s.get_char(0) == '+' {
        1
    } else {
        0
    };
    let ghost t = if s@.len() >= 1 && s@[0] == '+' {
        s@.subrange(1, s@.len() as int)
    } else {
        s@
    };
    assert(t.len() == s_len - start);
    assert(forall|k: int| 0 <= k < t.len() ==> t[k] == s@[start + k]);
    if start == s_len {
        return None;
    }
    let mut i: usize = start;
    let mut value: usize = 0;
    while i < s_len
        invariant
            start <= i <= s_len,
            s_len == s@.len(),
            start <= 1,
            t == (if s@.len() >= 1 && s@[0] == '+' {
                s@.subrange(1, s@.len() as int)
            } else {
                s@
            }),
            start == (if s@.len() >= 1 && s@[0] == '+' { 1int } else { 0int }),
            t.len() == s_len - start,
            forall|k: int| 0 <= k < t.len() ==> t[k] == s@[start + k],
            forall|k: int| 0 <= k < i - start ==> is_dec_digit(t[k]),
            value == digits_val(t.subrange(0, i - start)),
        decreases s_len - i,
    {
        let c = s.get_char(i);
        if !(c >= '0' && c <= '9') {
            proof {
                assert(t[i - start] == s@[i as int]);
                assert(!is_dec_digit(t[i - start]));
                assert(!all_digits(t));
            }
            return None;
        }
        let d = ((c as u32) - 48) as usize;
        assert(d == digit_of(t[i - start]));
        let ghost pre = t.subrange(0, i - start);
        let ghost post = t.subrange(0, i + 1 - start);
        proof {
            assert(post.drop_last() =~= pre);
            assert(post.last() == t[i - start]);
            assert(all_digits(post));
        }
        let next = match value.checked_mul(10) {
            Some(v10) => v10.checked_add(d),
            None => None,
        };
        match next {
            None => {
                proof {
                    lemma_digits_val_nonneg(post);
                    assert(digits_val(post) == value * 10 + d);
                    assert(digits_val(post) > usize::MAX);
                    if all_digits(t) {
                        lemma_digits_val_grows(t, i + 1 - start, t.len() as int);
                        assert(t.subrange(0, t.len() as int) =~= t);
                        assert(digits_val(t) > usize::MAX);
                    }
                }
                return None;
            },
            Some(v) => {
                value = v;
            },
        }
        i = i + 1;
    }
    assert(t.subrange(0, t.len() as int) =~= t);
    assert(t.len() >= 1 && all_digits(t) && digits_val(t) == value);
    Some(value)
}

/// The character of the digit value `d`.
pub open spec fn dec_digit_char(d: int) -> char {
    if d == 0 { '0' }
    else if d == 1 { '1' }
    else if d == 2 { '2' }
    else if d == 3 { '3' }
    else if d == 4 { '4' }
    else if d == 5 { '5' }
    else if d == 6 { '6' }
    else if d == 7 { '7' }
    else if d == 8 { '8' }
    else { '9' }
}

/// The decimal rendering of `n`, without sign or leading zeros.
pub open spec fn dec_digits(n: int) -> Seq<char>
    decreases n when n >= 0
{
    if n < 10 {
        seq![dec_digit_char(n)]
    } else {
        dec_digits(n / 10).push(dec_digit_char(n % 10))
    }
}

/// A one-character string slice for the digit value `d`.
fn digit_str(d: usize) -> (r: &'static str)
    requires
        d < 10,
    ensures
        r@ =~= seq![dec_digit_char(d as int)],
{
    proof {
        reveal_strlit("0");
        reveal_strlit("1");
        reveal_strlit("2");
        reveal_strlit("3");
        reveal_strlit("4");
        reveal_strlit("5");
        reveal_strlit("6");
        reveal_strlit("7");
        reveal_strlit("8");
        reveal_strlit("9");
    }
    match d {
        0 => "0",
        1 => "1",
        2 => "2",
        3 => "3",
        4 => "4",
        5 => "5",
        6 => "6",
        7 => "7",
        8 => "8",
        _ => "9",
    }
}

/// Renders `n` in decimal.
pub fn usize_to_string(n: usize) -> (r: String)
    ensures
        r@ == dec_digits(n as int),
    decreases n,
{
    if n < 10 {
        String::from_str(digit_str(n))
    } else {
        let mut s = usize_to_string(n / 10);
        s.append(digit_str(n % 10));
        assert(s@ =~= dec_digits(n as int));
        s
    }
}

} // verus!
