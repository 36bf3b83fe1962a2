//! Character-level utilities shared by the text-processing modules: ASCII
//! case folding, character classes, conversions between `String` and
//! `Vec<char>`, and decimal rendering/parsing of identifiers.
use vstd::prelude::*;

verus! {

/// ASCII lower-casing of a single character; everything outside 'A'..='Z'
/// is left unchanged.
pub open spec fn lower_char(c: char) -> char {
    if 'A' <= c && c <= 'Z' {
        ((c as u8) + 32) as char
    } else {
        c
    }
}

/// A word character for boundary purposes: ASCII letters, digits, underscore.
pub open spec fn is_word_char(c: char) -> bool {
    ('a' <= c && c <= 'z') || ('A' <= c && c <= 'Z') || ('0' <= c && c <= '9') || c == '_'
}

/// Whitespace as understood by the scanners in this crate.
pub open spec fn is_space_char(c: char) -> bool {
    c == ' ' || c == '\t' || c == '\n' || c == '\r'
}

/// An ASCII decimal digit.
pub open spec fn is_digit_char(c: char) -> bool {
    '0' <= c && c <= '9'
}

pub open spec fn lower_seq(s: Seq<char>) -> Seq<char> {
    s.map_values(|c: char| lower_char(c))
}

pub fn lower(c: char) -> (r: char)
    ensures
        r == lower_char(c),
{
    if 'A' <= c && c <= 'Z' {
        (((c as u8) + 32) as char)
    } else {
        c
    }
}

pub fn word_char(c: char) -> (r: bool)
    ensures
        r == is_word_char(c),
{
    ('a' <= c && c <= 'z') || ('A' <= c && c <= 'Z') || ('0' <= c && c <= '9') || c == '_'
}

pub fn space_char(c: char) -> (r: bool)
    ensures
        r == is_space_char(c),
{
    c == ' ' || c == '\t' || c == '\n' || c == '\r'
}

pub fn digit_char(c: char) -> (r: bool)
    ensures
        r == is_digit_char(c),
{
    '0' <= c && c <= '9'
}

/// A UTF-8 encoding spends at most four bytes per character.
pub proof fn lemma_utf8_len(chars: Seq<char>)
    ensures
        vstd::utf8::encode_utf8(chars).len() <= 4 * chars.len(),
    decreases chars.len(),
{
    if chars.len() > 0 {
        lemma_utf8_len(chars.drop_first());
    }
}

/// Relies on `String::push` of std: appends one character at the end.
pub assume_specification[ String::push ](s: &mut String, c: char)
    ensures
        final(s)@ == old(s)@.push(c),
;

/// The decimal digit character for a value in 0..=9.
pub open spec fn dec_digit(d: int) -> char {
    (('0' as int) + d) as char
}

/// The decimal rendering of a natural number, most significant digit first.
pub open spec fn dec_str(n: nat) -> Seq<char>
    decreases n,
{
    if n < 10 {
        seq![dec_digit(n as int)]
    } else {
        dec_str(n / 10).push(dec_digit((n % 10) as int))
    }
}

/// The numeric value of a digit character.
pub open spec fn digit_val(c: char) -> int {
    c as int - '0' as int
}

/// The value of a digit string read most significant digit first.
pub open spec fn dec_val(s: Seq<char>) -> int
    decreases s.len(),
{
    if s.len() == 0 {
        0
    } else {
        dec_val(s.drop_last()) * 10 + digit_val(s.last())
    }
}

pub open spec fn all_digits(s: Seq<char>) -> bool {
    forall|i: int| 0 <= i < s.len() ==> is_digit_char(s[i])
}

proof fn lemma_dec_val_nonneg(s: Seq<char>)
    requires
        all_digits(s),
    ensures
        dec_val(s) >= 0,
    decreases s.len(),
{
    if s.len() > 0 {
        assert(all_digits(s.drop_last()));
        lemma_dec_val_nonneg(s.drop_last());
    }
}

/// The value of a digit string is at least the value of any of its prefixes.
pub proof fn lemma_dec_val_prefix(s: Seq<char>, i: int)
    requires
        all_digits(s),
        0 <= i <= s.len(),
    ensures
        dec_val(s.subrange(0, i)) <= dec_val(s),
    decreases s.len() - i,
{
    if i == s.len() {
        assert(s.subrange(0, i) =~= s);
    } else {
        let t = s.subrange(0, i + 1);
        assert(t.drop_last() =~= s.subrange(0, i));
        assert(all_digits(t.drop_last()));
        lemma_dec_val_nonneg(t.drop_last());
        assert(dec_val(s.subrange(0, i)) <= dec_val(t));
        lemma_dec_val_prefix(s, i + 1);
    }
}

/// Renders a number in decimal.
pub fn u64_to_string(n: u64) -> (r: String)
    ensures
        r@ == dec_str(n as nat),
{
    let mut digits: Vec<char> = Vec::new();
    if n == 0 {
        digits.push('0');
        assert(digits@ =~= dec_str(0));
        return chars_to_string(&digits);
    }
    let mut m: u64 = n;
    while m > 0
        invariant
            m > 0 ==> dec_str(n as nat) == dec_str(m as nat) + digits@.reverse(),
            m == 0 ==> dec_str(n as nat) == digits@.reverse(),
            n > 0,
        decreases m,
    {
        let ghost pre = digits@;
        let d: u8 = (m % 10) as u8;
        let c: char = ((('0' as u8) + d)) as char;
        assert(c == dec_digit((m % 10) as int));
        digits.push(c);
        proof {
            assert(digits@.reverse() =~= seq![c] + pre.reverse());
            if m >= 10 {
                assert(dec_str(m as nat) == dec_str((m / 10) as nat).push(c));
                assert(dec_str((m / 10) as nat) + digits@.reverse() =~= dec_str(m as nat) + pre.reverse());
            } else {
                assert(dec_str(m as nat) =~= seq![c]);
                assert(digits@.reverse() =~= dec_str(m as nat) + pre.reverse());
            }
        }
        m = m / 10;
    }
    let mut out: Vec<char> = Vec::new();
    let mut i: usize = digits.len();
    while i > 0
        invariant
            i <= digits@.len(),
            out@.len() == digits@.len() - i,
            forall|k: int| 0 <= k < out@.len() ==> out@[k] == digits@[digits@.len() - 1 - k],
        decreases i,
    {
        i = i - 1;
        out.push(digits[i]);
    }
    assert(out@ =~= digits@.reverse());
    chars_to_string(&out)
}

/// Parses a non-empty run of decimal digits; `None` when the value does not
/// fit in a `u64`.
pub fn parse_u64_digits(digits: &Vec<char>) -> (r: Option<u64>)
    requires
        all_digits(digits@),
        digits@.len() > 0,
    ensures
        match r {
            Some(v) => v as int == dec_val(digits@),
            None => dec_val(digits@) > u64::MAX as int,
        },
{
    let mut acc: u64 = 0;
    let mut i: usize = 0;
    while i < digits.len()
        invariant
            i <= digits@.len(),
            acc as int == dec_val(digits@.subrange(0, i as int)),
        decreases digits@.len() - i,
    {
        let c = digits[i];
        let d: u64 = (c as u8 - ('0' as u8)) as u64;
        assert(d as int == digit_val(c));
        let ghost pre = digits@.subrange(0, i as int);
        assert(digits@.subrange(0, i + 1).drop_last() =~= pre);
        assert(dec_val(digits@.subrange(0, i + 1)) == dec_val(pre) * 10 + d);
        if acc > u64::MAX / 10 || (acc == u64::MAX / 10 && d > u64::MAX % 10) {
            proof {
                assert(dec_val(digits@.subrange(0, i + 1)) > u64::MAX as int);
                lemma_dec_val_prefix(digits@, i + 1);
            }
            return None;
        }
        acc = acc * 10 + d;
        i = i + 1;
    }
    assert(digits@.subrange(0, digits@.len() as int) =~= digits@);
    Some(acc)
}

/// The characters of `s` contain `c` somewhere.
pub open spec fn contains_char(s: Seq<char>, c: char) -> bool {
    exists|i: int| 0 <= i < s.len() && s[i] == c
}

pub fn find_char(text: &Vec<char>, c: char) -> (r: bool)
    ensures
        r == contains_char(text@, c),
{
    let mut i: usize = 0;
    while i < text.len()
        invariant
            i <= text@.len(),
            forall|k: int| 0 <= k < i ==> text@[k] != c,
        decreases text@.len() - i,
    {
        if text[i] == c {
            return true;
        }
        i = i + 1;
    }
    false
}

/// `pat` occurs, character for character, at position `i` of `text`.
pub open spec fn seq_at(text: Seq<char>, pat: Seq<char>, i: int) -> bool {
    0 <= i && i + pat.len() <= text.len() && text.subrange(i, i + pat.len() as int) == pat
}

/// `pat` occurs somewhere in `text`.
pub open spec fn contains_seq(text: Seq<char>, pat: Seq<char>) -> bool {
    exists|i: int| seq_at(text, pat, i)
}

/// `pat` occurs somewhere in `text`, compared ASCII-case-insensitively.
pub open spec fn contains_seq_ci(text: Seq<char>, pat: Seq<char>) -> bool {
    contains_seq(lower_seq(text), lower_seq(pat))
}

pub fn seq_at_exec(text: &Vec<char>, pat: &Vec<char>, i: usize) -> (r: bool)
    requires
        i <= text@.len(),
    ensures
        r == seq_at(text@, pat@, i as int),
{
    if pat.len() > text.len() - i {
        return false;
    }
    let mut j: usize = 0;
    while j < pat.len()
        invariant
            j <= pat@.len(),
            i + pat@.len() <= text@.len(),
            forall|k: int| 0 <= k < j ==> text@[i + k] == pat@[k],
        decreases pat@.len() - j,
    {
        if text[i + j] != pat[j] {
            assert(text@.subrange(i as int, i + pat@.len())[j as int] != pat@[j as int]);
            return false;
        }
        j = j + 1;
    }
    assert(text@.subrange(i as int, i + pat@.len()) =~= pat@);
    true
}

/// Case-sensitive substring search.
pub fn find_seq(text: &Vec<char>, pat: &Vec<char>) -> (r: bool)
    ensures
        r == contains_seq(text@, pat@),
{
    let mut i: usize = 0;
    while i < text.len()
        invariant
            i <= text@.len(),
            forall|k: int| 0 <= k < i ==> !seq_at(text@, pat@, k),
        decreases text@.len() - i,
    {
        if seq_at_exec(text, pat, i) {
            return true;
        }
        i = i + 1;
    }
    if seq_at_exec(text, pat, i) {
        return true;
    }
    assert(forall|k: int| k > text@.len() ==> !seq_at(text@, pat@, k));
    false
}

/// ASCII-case-insensitive substring search.
pub fn find_seq_ci(text: &Vec<char>, pat: &Vec<char>) -> (r: bool)
    ensures
        r == contains_seq_ci(text@, pat@),
{
    let lt = lower_vec(text);
    let lp = lower_vec(pat);
    find_seq(&lt, &lp)
}

/// Lower-cases every character.
pub fn lower_vec(v: &Vec<char>) -> (r: Vec<char>)
    ensures
        r@ == lower_seq(v@),
{
    let mut r: Vec<char> = Vec::new();
    let mut i: usize = 0;
    while i < v.len()
        invariant
            i <= v@.len(),
            r@.len() == i,
            forall|k: int| 0 <= k < i ==> r@[k] == lower_char(v@[k]),
        decreases v@.len() - i,
    {
        r.push(lower(v[i]));
        i = i + 1;
    }
    assert(r@ =~= lower_seq(v@));
    r
}

/// Decides whether every character is an ASCII decimal digit.
pub fn digits_only(v: &Vec<char>) -> (r: bool)
    ensures
        r == all_digits(v@),
{
    let mut i: usize = 0;
    while i < v.len()
        invariant
            i <= v@.len(),
            forall|k: int| 0 <= k < i ==> is_digit_char(v@[k]),
        decreases v@.len() - i,
    {
        if !digit_char(v[i]) {
            return false;
        }
        i = i + 1;
    }
    true
}

/// ASCII-case-insensitive equality of two character sequences.
pub fn ci_equal(a: &Vec<char>, b: &Vec<char>) -> (r: bool)
    ensures
        r == (lower_seq(a@) == lower_seq(b@)),
{
    if a.len() != b.len() {
        assert(lower_seq(a@).len() != lower_seq(b@).len());
        return false;
    }
    let mut i: usize = 0;
    while i < a.len()
        invariant
            i <= a@.len(),
            a@.len() == b@.len(),
            forall|k: int| 0 <= k < i ==> lower_char(a@[k]) == lower_char(b@[k]),
        decreases a@.len() - i,
    {
        if lower(a[i]) != lower(b[i]) {
            assert(lower_seq(a@)[i as int] != lower_seq(b@)[i as int]);
            return false;
        }
        i = i + 1;
    }
    assert(lower_seq(a@) =~= lower_seq(b@));
    true
}

/// Copies the characters of `text` between two positions.
pub fn copy_range(text: &Vec<char>, a: usize, b: usize) -> (r: Vec<char>)
    requires
        a <= b <= text@.len(),
    ensures
        r@ == text@.subrange(a as int, b as int),
{
    let mut r: Vec<char> = Vec::new();
    let mut i: usize = a;
    while i < b
        invariant
            a <= i <= b,
            r@ == text@.subrange(a as int, i as int),
        decreases b - i,
    {
        r.push(text[i]);
        assert(r@ =~= text@.subrange(a as int, i + 1));
        i = i + 1;
    }
    r
}

/// The first `max` characters of over-long text, marked with an ellipsis;
/// shorter text unchanged.
pub open spec fn spec_preview(s: Seq<char>, max: int) -> Seq<char> {
    if s.len() > max {
        s.subrange(0, max) + "..."@
    } else {
        s
    }
}

/// Shortens text for display.
pub fn preview(s: &str, max: usize) -> (r: String)
    ensures
        r@ == spec_preview(s@, max as int),
{
    let chars = str_to_chars(s);
    if chars.len() > max {
        let head = copy_range(&chars, 0, max);
        chars_to_string(&head).concat("...")
    } else {
        String::from_str(s)
    }
}

/// `s` begins with `pre`.
pub open spec fn starts_with(s: Seq<char>, pre: Seq<char>) -> bool {
    seq_at(s, pre, 0)
}

/// `s` ends with `suf`.
pub open spec fn ends_with(s: Seq<char>, suf: Seq<char>) -> bool {
    suf.len() <= s.len() && seq_at(s, suf, s.len() - suf.len())
}

pub fn starts_with_exec(s: &Vec<char>, pre: &Vec<char>) -> (r: bool)
    ensures
        r == starts_with(s@, pre@),
{
    seq_at_exec(s, pre, 0)
}

pub fn ends_with_exec(s: &Vec<char>, suf: &Vec<char>) -> (r: bool)
    ensures
        r == ends_with(s@, suf@),
{
    if suf.len() > s.len() {
        return false;
    }
    seq_at_exec(s, suf, s.len() - suf.len())
}

/// `s` with every occurrence of one character replaced by another.
pub open spec fn replaced_char(s: Seq<char>, from: char, to: char) -> Seq<char> {
    s.map_values(|c: char| if c == from { to } else { c })
}

pub fn replace_char(s: &Vec<char>, from: char, to: char) -> (r: Vec<char>)
    ensures
        r@ == replaced_char(s@, from, to),
{
    let mut r: Vec<char> = Vec::new();
    let mut i: usize = 0;
    while i < s.len()
        invariant
            i <= s@.len(),
            r@.len() == i,
            forall|k: int| 0 <= k < i ==> r@[k] == (if s@[k] == from { to } else { s@[k] }),
        decreases s@.len() - i,
    {
        if s[i] == from {
            r.push(to);
        } else {
            r.push(s[i]);
        }
        i = i + 1;
    }
    assert(r@ =~= replaced_char(s@, from, to));
    r
}

/// `s` with leading and trailing whitespace removed.
pub open spec fn trimmed(s: Seq<char>) -> Seq<char>
    decreases s.len(),
{
    if s.len() == 0 {
        s
    } else if is_space_char(s[0]) {
        trimmed(s.drop_first())
    } else if is_space_char(s.last()) {
        trimmed(s.drop_last())
    } else {
        s
    }
}

/// Removes leading and trailing whitespace.
pub fn trim_chars(text: &Vec<char>) -> (r: Vec<char>)
    ensures
        r@ == trimmed(text@),
{
    let mut lo: usize = 0;
    let mut hi: usize = text.len();
    assert(text@.subrange(0, text@.len() as int) =~= text@);
    while lo < hi && space_char(text[lo])
        invariant
            0 <= lo <= hi <= text@.len(),
            trimmed(text@.subrange(lo as int, hi as int)) == trimmed(text@),
        decreases hi - lo,
    {
        proof {
            assert(text@.subrange(lo as int, hi as int).drop_first() =~= text@.subrange(
                lo + 1,
                hi as int,
            ));
        }
        lo = lo + 1;
    }
    while lo < hi && space_char(text[hi - 1])
        invariant
            0 <= lo <= hi <= text@.len(),
            trimmed(text@.subrange(lo as int, hi as int)) == trimmed(text@),
            lo < hi ==> !is_space_char(text@[lo as int]),
        decreases hi - lo,
    {
        proof {
            assert(text@.subrange(lo as int, hi as int).drop_last() =~= text@.subrange(
                lo as int,
                hi - 1,
            ));
        }
        hi = hi - 1;
    }
    let mut r: Vec<char> = Vec::new();
    let mut i: usize = lo;
    while i < hi
        invariant
            lo <= i <= hi <= text@.len(),
            r@ == text@.subrange(lo as int, i as int),
        decreases hi - i,
    {
        r.push(text[i]);
        assert(r@ =~= text@.subrange(lo as int, i + 1));
        i = i + 1;
    }
    assert(r@ =~= text@.subrange(lo as int, hi as int));
    r
}

/// Collects the characters of a string slice into a vector.
pub fn str_to_chars(s: &str) -> (r: Vec<char>)
    ensures
        r@ == s@,
{
    let n = s.unicode_len();
    let mut r: Vec<char> = Vec::new();
    let mut i: usize = 0;
    while i < n
        invariant
            i <= n,
            r@ == s@.subrange(0, i as int),
        decreases n - i,
    {
        r.push(s.get_char(i));
        i = i + 1;
        assert(r@ =~= s@.subrange(0, i as int));
    }
    assert(r@ =~= s@);
    r
}

/// Builds a string from a sequence of characters.
pub fn chars_to_string(v: &Vec<char>) -> (r: String)
    ensures
        r@ == v@,
{
    let mut r = String::new();
    let mut i: usize = 0;
    while i < v.len()
        invariant
            i <= v.len(),
            r@ == v@.subrange(0, i as int),
        decreases v.len() - i,
    {
        r.push(v[i]);
        i = i + 1;
        assert(r@ =~= v@.subrange(0, i as int));
    }
    assert(r@ =~= v@);
    r
}

} // verus!
