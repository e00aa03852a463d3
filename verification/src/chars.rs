//! Character-level text utilities shared by the pattern matchers.
//!
//! All matching in this crate works over sequences of `char`; a line of
//! terminal output is converted once with [`str_chars`] and examined
//! through the functions here, whose contracts are stated over `Seq<char>`.

use vstd::prelude::*;
use vstd::string::*;

verus! {

/// The Unicode `White_Space` characters: the set recognized by `trim`
/// and by the whitespace class of the line grammars in this crate.
pub open spec fn is_ws(c: char) -> bool {
    c == ' ' || c == '\t' || c == '\n' || c == '\r' || c == '\u{0B}' || c == '\u{0C}'
        || c == '\u{85}' || c == '\u{A0}' || c == '\u{1680}'
        || ('\u{2000}' <= c && c <= '\u{200A}')
        || c == '\u{2028}' || c == '\u{2029}' || c == '\u{202F}' || c == '\u{205F}'
        || c == '\u{3000}'
}

/// Decides [`is_ws`].
pub fn ws_char(c: char) -> (b: bool)
    ensures
        b == is_ws(c),
{
    c == ' ' || c == '\t' || c == '\n' || c == '\r' || c == '\u{0B}' || c == '\u{0C}'
        || c == '\u{85}' || c == '\u{A0}' || c == '\u{1680}'
        || ('\u{2000}' <= c && c <= '\u{200A}')
        || c == '\u{2028}' || c == '\u{2029}' || c == '\u{202F}' || c == '\u{205F}'
        || c == '\u{3000}'
}

/// The characters of `s`, in order.
pub fn str_chars(s: &str) -> (r: Vec<char>)
    ensures
        r@ == s@,
{
    let n = s.unicode_len();
    let mut r: Vec<char> = Vec::new();
    let mut i: usize = 0;
    while i < n
        invariant
            n == s@.len(),
            i <= n,
            r@ == s@.subrange(0, i as int),
        decreases n - i,
    {
        r.push(s.get_char(i));
        proof {
            assert(r@ =~= s@.subrange(0, i + 1 as int));
        }
        i = i + 1;
    }
    proof {
        assert(r@ =~= s@);
    }
    r
}

/// Relies on `String::push`: appends the character to the end of the string.
#[verifier::external_body]
fn push_char(s: &mut String, c: char)
    ensures
        final(s)@ == old(s)@.push(c),
{
    s.push(c);
}

/// A `String` whose characters are exactly `v`.
pub fn chars_string(v: &[char]) -> (r: String)
    ensures
        r@ == v@,
{
    let mut r = String::new();
    let mut i: usize = 0;
    while i < v.len()
        invariant
            i <= v@.len(),
            r@ == v@.subrange(0, i as int),
        decreases v@.len() - i,
    {
        push_char(&mut r, v[i]);
        proof {
            assert(r@ =~= v@.subrange(0, i + 1 as int));
        }
        i = i + 1;
    }
    proof {
        assert(r@ =~= v@);
    }
    r
}

/// `pat` occurs in `text` starting at index `i`.
pub open spec fn contains_at(text: Seq<char>, pat: Seq<char>, i: int) -> bool {
    0 <= i && i + pat.len() <= text.len() && text.subrange(i, i + pat.len()) == pat
}

/// `text` contains `pat` as a contiguous run.
pub open spec fn contains_seq(text: Seq<char>, pat: Seq<char>) -> bool {
    exists|i: int| contains_at(text, pat, i)
}

/// Decides [`contains_at`] for an in-range start index.
fn match_at(text: &[char], pat: &[char], i: usize) -> (b: bool)
    requires
        i + pat@.len() <= text@.len(),
    ensures
        b == contains_at(text@, pat@, i as int),
{
    let tlen = text.len();
    let mut j: usize = 0;
    while j < pat.len()
        invariant
            tlen == text@.len(),
            i + pat@.len() <= text@.len(),
            j <= pat@.len(),
            forall|k: int| 0 <= k < j ==> text@[i + k] == pat@[k],
        decreases pat@.len() - j,
    {
        if text[i + j] != pat[j] {
            proof {
                assert(text@.subrange(i as int, i + pat@.len())[j as int] != pat@[j as int]);
            }
            return false;
        }
        j = j + 1;
    }
    proof {
        assert(text@.subrange(i as int, i + pat@.len()) =~= pat@);
    }
    true
}

/// Decides [`contains_seq`].
pub fn contains_chars(text: &[char], pat: &[char]) -> (b: bool)
    ensures
        b == contains_seq(text@, pat@),
{
    if pat.len() == 0 {
        proof {
            assert(text@.subrange(0, 0) =~= pat@);
            assert(contains_at(text@, pat@, 0));
        }
        return true;
    }
    if pat.len() > text.len() {
        return false;
    }
    let tlen = text.len();
    let last = tlen - pat.len();
    let mut i: usize = 0;
    while i <= last
        invariant
            tlen == text@.len(),
            1 <= pat@.len() <= text@.len(),
            last == text@.len() - pat@.len(),
            i <= last + 1,
            forall|k: int| 0 <= k < i ==> !contains_at(text@, pat@, k),
        decreases last + 1 - i,
    {
        if match_at(text, pat, i) {
            return true;
        }
        i = i + 1;
    }
    false
}

/// Whether two character slices hold the same sequence.
pub fn chars_eq(a: &[char], b: &[char]) -> (r: bool)
    ensures
        r == (a@ == b@),
{
    if a.len() != b.len() {
        return false;
    }
    let mut i: usize = 0;
    while i < a.len()
        invariant
            a@.len() == b@.len(),
            i <= a@.len(),
            forall|k: int| 0 <= k < i ==> a@[k] == b@[k],
        decreases a@.len() - i,
    {
        if a[i] != b[i] {
            return false;
        }
        i = i + 1;
    }
    proof {
        assert(a@ =~= b@);
    }
    true
}

/// A character class used by the line grammars.
#[derive(Debug, Clone, Copy, PartialEq, Eq, Structural)]
pub enum CharClass {
    /// Whitespace ([`is_ws`]).
    Ws,
    /// Anything but whitespace.
    NonWs,
    /// ASCII letters, digits and underscore.
    Word,
    /// ASCII digits.
    Digit,
    /// ASCII digits and the dot.
    NumDot,
    /// Whitespace or a prompt cursor glyph.
    WsPrompt,
    /// Anything but a closing parenthesis.
    NotParen,
    /// Anything but a double quote.
    NotQuote,
    /// Anything but a comma or a closing parenthesis.
    NotCommaParen,
    /// Anything but a newline.
    NotNl,
    /// Anything but a colon.
    NotColon,
    /// A status token character: not whitespace and not an opening
    /// parenthesis.
    Token,
}

/// Membership of `c` in the class `cl`.
pub open spec fn in_class(cl: CharClass, c: char) -> bool {
    match cl {
        CharClass::Ws => is_ws(c),
        CharClass::NonWs => !is_ws(c),
        CharClass::Word => ('a' <= c && c <= 'z') || ('A' <= c && c <= 'Z') || ('0' <= c && c
            <= '9') || c == '_',
        CharClass::Digit => '0' <= c && c <= '9',
        CharClass::NumDot => ('0' <= c && c <= '9') || c == '.',
        CharClass::WsPrompt => is_ws(c) || c == '\u{276F}' || c == '>',
        CharClass::NotParen => c != ')',
        CharClass::NotQuote => c != '"',
        CharClass::NotCommaParen => c != ',' && c != ')',
        CharClass::NotNl => c != '\n',
        CharClass::NotColon => c != ':',
        CharClass::Token => !is_ws(c) && c != '(',
    }
}

/// Decides [`in_class`].
pub fn class_char(cl: CharClass, c: char) -> (b: bool)
    ensures
        b == in_class(cl, c),
{
    match cl {
        CharClass::Ws => ws_char(c),
        CharClass::NonWs => !ws_char(c),
        CharClass::Word => ('a' <= c && c <= 'z') || ('A' <= c && c <= 'Z') || ('0' <= c && c
            <= '9') || c == '_',
        CharClass::Digit => '0' <= c && c <= '9',
        CharClass::NumDot => ('0' <= c && c <= '9') || c == '.',
        CharClass::WsPrompt => ws_char(c) || c == '\u{276F}' || c == '>',
        CharClass::NotParen => c != ')',
        CharClass::NotQuote => c != '"',
        CharClass::NotCommaParen => c != ',' && c != ')',
        CharClass::NotNl => c != '\n',
        CharClass::NotColon => c != ':',
        CharClass::Token => !ws_char(c) && c != '(',
    }
}

/// The first index at or after `i` whose character is not in `cl`,
/// or the length of `s` if the class run reaches the end.
pub open spec fn scan_spec(cl: CharClass, s: Seq<char>, i: int) -> int
    decreases s.len() - i,
    when 0 <= i <= s.len()
{
    if i < s.len() && in_class(cl, s[i]) {
        scan_spec(cl, s, i + 1)
    } else {
        i
    }
}

/// The scanned-past prefix is in the class and the scan stops rightly.
pub proof fn lemma_scan_bounds(cl: CharClass, s: Seq<char>, i: int)
    requires
        0 <= i <= s.len(),
    ensures
        i <= scan_spec(cl, s, i) <= s.len(),
        forall|k: int| i <= k < scan_spec(cl, s, i) ==> in_class(cl, s[k]),
        scan_spec(cl, s, i) < s.len() ==> !in_class(cl, s[scan_spec(cl, s, i)]),
    decreases s.len() - i,
{
    if i < s.len() && in_class(cl, s[i]) {
        lemma_scan_bounds(cl, s, i + 1);
    }
}

/// Decides [`scan_spec`].
pub fn scan(cl: CharClass, s: &[char], i: usize) -> (r: usize)
    requires
        i <= s@.len(),
    ensures
        r == scan_spec(cl, s@, i as int),
        i <= r <= s@.len(),
{
    let n = s.len();
    let mut j: usize = i;
    while j < n && class_char(cl, s[j])
        invariant
            n == s@.len(),
            i <= j <= n,
            scan_spec(cl, s@, i as int) == scan_spec(cl, s@, j as int),
        decreases n - j,
    {
        j = j + 1;
    }
    proof {
        lemma_scan_bounds(cl, s@, i as int);
    }
    j
}

/// The least upper bound of the whitespace run ending at `i`: the
/// smallest `j` with all of `s[j..i]` whitespace.
pub open spec fn rscan_ws_spec(s: Seq<char>, i: int) -> int
    decreases i,
    when 0 <= i <= s.len()
{
    if i > 0 && is_ws(s[i - 1]) {
        rscan_ws_spec(s, i - 1)
    } else {
        i
    }
}

/// Decides [`rscan_ws_spec`].
pub fn rscan_ws(s: &[char], i: usize) -> (r: usize)
    requires
        i <= s@.len(),
    ensures
        r == rscan_ws_spec(s@, i as int),
        r <= i,
{
    let mut j: usize = i;
    while j > 0 && ws_char(s[j - 1])
        invariant
            j <= i <= s@.len(),
            rscan_ws_spec(s@, i as int) == rscan_ws_spec(s@, j as int),
        decreases j,
    {
        j = j - 1;
    }
    j
}

/// The least upper bound of the digit run ending at `i`: the smallest
/// `j` with all of `s[j..i]` decimal digits.
pub open spec fn rscan_digits_spec(s: Seq<char>, i: int) -> int
    decreases i,
    when 0 <= i <= s.len()
{
    if i > 0 && '0' <= s[i - 1] && s[i - 1] <= '9' {
        rscan_digits_spec(s, i - 1)
    } else {
        i
    }
}

/// Decides [`rscan_digits_spec`].
pub fn rscan_digits(s: &[char], i: usize) -> (r: usize)
    requires
        i <= s@.len(),
    ensures
        r == rscan_digits_spec(s@, i as int),
        r <= i,
{
    let mut j: usize = i;
    while j > 0 && '0' <= s[j - 1] && s[j - 1] <= '9'
        invariant
            j <= i <= s@.len(),
            rscan_digits_spec(s@, i as int) == rscan_digits_spec(s@, j as int),
        decreases j,
    {
        j = j - 1;
    }
    j
}

/// `s` with leading and trailing whitespace removed.
pub open spec fn spec_trim(s: Seq<char>) -> Seq<char> {
    let a = scan_spec(CharClass::Ws, s, 0);
    let b = rscan_ws_spec(s, s.len() as int);
    if a >= b {
        Seq::empty()
    } else {
        s.subrange(a, b)
    }
}

/// Decides [`spec_trim`], returning the trimmed characters.
pub fn trim_chars(s: &[char]) -> (r: Vec<char>)
    ensures
        r@ == spec_trim(s@),
{
    let a = scan(CharClass::Ws, s, 0);
    let b = rscan_ws(s, s.len());
    if a >= b {
        let r: Vec<char> = Vec::new();
        proof {
            assert(r@ =~= spec_trim(s@));
        }
        r
    } else {
        slice_range_vec(s, a, b)
    }
}

/// The characters of `s` between `a` and `b`.
pub fn slice_range_vec(s: &[char], a: usize, b: usize) -> (r: Vec<char>)
    requires
        a <= b <= s@.len(),
    ensures
        r@ == s@.subrange(a as int, b as int),
{
    let mut r: Vec<char> = Vec::new();
    let mut i: usize = a;
    while i < b
        invariant
            a <= i <= b <= s@.len(),
            r@ == s@.subrange(a as int, i as int),
        decreases b - i,
    {
        r.push(s[i]);
        proof {
            assert(r@ =~= s@.subrange(a as int, i + 1 as int));
        }
        i = i + 1;
    }
    r
}

/// Decides [`contains_at`] at `i`, false when `pat` does not fit.
pub fn has_at(text: &[char], pat: &[char], i: usize) -> (b: bool)
    ensures
        b == contains_at(text@, pat@, i as int),
{
    if i > text.len() || pat.len() > text.len() - i {
        return false;
    }
    match_at(text, pat, i)
}

/// `pat` occurs at `i` in `text` up to ASCII case.
pub open spec fn ci_at(text: Seq<char>, pat: Seq<char>, i: int) -> bool {
    contains_at(lower_seq(text), pat, i)
}

/// Decides [`ci_at`].
pub fn ci_match_at(text: &[char], pat: &[char], i: usize) -> (b: bool)
    ensures
        b == ci_at(text@, pat@, i as int),
{
    if i > text.len() || pat.len() > text.len() - i {
        return false;
    }
    let tlen = text.len();
    let mut j: usize = 0;
    while j < pat.len()
        invariant
            tlen == text@.len(),
            i + pat@.len() <= text@.len(),
            j <= pat@.len(),
            forall|k: int| 0 <= k < j ==> lower_seq(text@)[i + k] == pat@[k],
        decreases pat@.len() - j,
    {
        if lower_char_exec(text[i + j]) != pat[j] {
            proof {
                assert(lower_seq(text@).subrange(i as int, i + pat@.len())[j as int] != pat@[
                    j as int
                ]);
            }
            return false;
        }
        j = j + 1;
    }
    proof {
        assert(lower_seq(text@).subrange(i as int, i + pat@.len()) =~= pat@);
    }
    true
}

/// The sequence with every ASCII capital letter lowered.
pub open spec fn lower_seq(s: Seq<char>) -> Seq<char> {
    s.map_values(|c: char| lower_char(c))
}

/// `c` with an ASCII capital letter lowered; any other character unchanged.
pub open spec fn lower_char(c: char) -> char {
    if 'A' <= c && c <= 'Z' {
        ((c as u8) + 32) as char
    } else {
        c
    }
}

/// Decides [`lower_char`].
pub fn lower_char_exec(c: char) -> (r: char)
    ensures
        r == lower_char(c),
{
    if 'A' <= c && c <= 'Z' {
        ((c as u8) + 32) as char
    } else {
        c
    }
}

/// The value of a decimal digit string, most significant digit first.
pub open spec fn digits_val(s: Seq<char>) -> int
    decreases s.len(),
{
    if s.len() == 0 {
        0
    } else {
        digits_val(s.drop_last()) * 10 + (s.last() as int - '0' as int)
    }
}

/// Over digit characters, the value of a prefix never exceeds the value
/// of the whole string.
pub proof fn lemma_digits_prefix_le(s: Seq<char>, k: int)
    requires
        0 <= k <= s.len(),
        forall|i: int| 0 <= i < s.len() ==> '0' <= s[i] && s[i] <= '9',
    ensures
        0 <= digits_val(s.subrange(0, k)) <= digits_val(s),
    decreases s.len() - k,
{
    if k == s.len() {
        assert(s.subrange(0, k) =~= s);
        lemma_digits_nonneg(s);
    } else {
        lemma_digits_prefix_le(s, k + 1);
        let a = s.subrange(0, k);
        let b = s.subrange(0, k + 1);
        assert(b.drop_last() =~= a);
        lemma_digits_nonneg(a);
    }
}

/// The value of a digit string is non-negative.
pub proof fn lemma_digits_nonneg(s: Seq<char>)
    requires
        forall|i: int| 0 <= i < s.len() ==> '0' <= s[i] && s[i] <= '9',
    ensures
        digits_val(s) >= 0,
    decreases s.len(),
{
    if s.len() > 0 {
        lemma_digits_nonneg(s.drop_last());
    }
}

/// The value of the digit slice as a `u32`, or nothing when it exceeds
/// `u32::MAX`.
pub fn parse_u32(s: &[char]) -> (r: Option<u32>)
    requires
        forall|i: int| 0 <= i < s@.len() ==> '0' <= s@[i] && s@[i] <= '9',
    ensures
        r == if digits_val(s@) <= u32::MAX {
            Some(digits_val(s@) as u32)
        } else {
            None::<u32>
        },
{
    let mut v: u64 = 0;
    let mut i: usize = 0;
    while i < s.len()
        invariant
            i <= s@.len(),
            forall|k: int| 0 <= k < s@.len() ==> '0' <= s@[k] && s@[k] <= '9',
            v == digits_val(s@.subrange(0, i as int)),
            v <= u32::MAX,
        decreases s@.len() - i,
    {
        let d = (s[i] as u32) - ('0' as u32);
        let next: u64 = v * 10 + (d as u64);
        proof {
            assert(s@.subrange(0, i + 1 as int).drop_last() =~= s@.subrange(0, i as int));
        }
        if next > u32::MAX as u64 {
            proof {
                lemma_digits_prefix_le(s@, i + 1);
            }
            return None;
        }
        v = next;
        i = i + 1;
    }
    proof {
        assert(s@.subrange(0, s@.len() as int) =~= s@);
    }
    Some(v as u32)
}

/// Greatest integer `t` with `t * 1000 + 999 <= u64::MAX`: the bound on
/// whole seconds convertible to milliseconds in a `u64`.
pub open spec fn max_whole_secs() -> int {
    18446744073709550
}

/// A duration literal of digits and at most one dot, as milliseconds:
/// whole seconds scaled by 1000 plus the first three fractional digits
/// scaled to milliseconds.  Nothing when the literal has no digit, has
/// more than one dot, or exceeds the `u64` range.
pub open spec fn secs_to_ms(s: Seq<char>) -> Option<u64> {
    let p = scan_spec(CharClass::Digit, s, 0);
    if p == s.len() {
        // no dot: whole seconds only
        if s.len() == 0 || digits_val(s) > max_whole_secs() {
            None
        } else {
            Some((digits_val(s) * 1000) as u64)
        }
    } else if s[p] == '.' && scan_spec(CharClass::Digit, s, p + 1) == s.len() {
        let ip = s.subrange(0, p);
        let fp = s.subrange(p + 1, s.len() as int);
        if ip.len() + fp.len() == 0 || digits_val(ip) > max_whole_secs() {
            None
        } else {
            Some((digits_val(ip) * 1000 + frac_ms(fp)) as u64)
        }
    } else {
        None
    }
}

/// The first three fractional digits as milliseconds; finer digits are
/// truncated.
pub open spec fn frac_ms(fp: Seq<char>) -> int {
    if fp.len() == 0 {
        0
    } else if fp.len() == 1 {
        digits_val(fp) * 100
    } else if fp.len() == 2 {
        digits_val(fp) * 10
    } else {
        digits_val(fp.subrange(0, 3))
    }
}

/// Decides [`secs_to_ms`] on a slice of digits and dots.
pub fn parse_secs_ms(s: &[char]) -> (r: Option<u64>)
    requires
        forall|i: int|
            0 <= i < s@.len() ==> ('0' <= s@[i] && s@[i] <= '9') || s@[i] == '.',
    ensures
        r == secs_to_ms(s@),
{
    let p = scan(CharClass::Digit, s, 0);
    let n = s.len();
    proof {
        lemma_scan_bounds(CharClass::Digit, s@, 0);
    }
    if p == n {
        if n == 0 {
            return None;
        }
        proof {
            assert(s@.subrange(0, n as int) =~= s@);
        }
        match whole_digits_capped(s, 0, p) {
            Some(v) => Some(v * 1000),
            None => None,
        }
    } else if s[p] == '.' && scan(CharClass::Digit, s, p + 1) == n {
        if n == 1 {
            // a lone dot has no digit
            return None;
        }
        proof {
            lemma_scan_bounds(CharClass::Digit, s@, 0);
            lemma_scan_bounds(CharClass::Digit, s@, p + 1);
        }
        let ip = match whole_digits_capped(s, 0, p) {
            Some(v) => v,
            None => {
                return None;
            },
        };
        let fl = n - (p + 1);
        let f: u64 = if fl == 0 {
            0
        } else if fl == 1 {
            (digit_at(s, p + 1) as u64) * 100
        } else if fl == 2 {
            ((digit_at(s, p + 1) as u64) * 10 + (digit_at(s, p + 2) as u64)) * 10
        } else {
            (digit_at(s, p + 1) as u64) * 100 + (digit_at(s, p + 2) as u64) * 10 + (digit_at(
                s,
                p + 3,
            ) as u64)
        };
        proof {
            let fp = s@.subrange(p + 1, s@.len() as int);
            lemma_frac_ms_value(s@, p as int, fp);
        }
        Some(ip * 1000 + f)
    } else {
        None
    }
}

/// One digit character of `s` as its value.
fn digit_at(s: &[char], i: usize) -> (d: u32)
    requires
        i < s@.len(),
        '0' <= s@[i as int] && s@[i as int] <= '9',
    ensures
        d == s@[i as int] as int - '0' as int,
{
    (s[i] as u32) - ('0' as u32)
}

/// Relates the exec fractional computation to [`frac_ms`].
proof fn lemma_frac_ms_value(s: Seq<char>, p: int, fp: Seq<char>)
    requires
        0 <= p,
        p + 1 <= s.len(),
        fp == s.subrange(p + 1, s.len() as int),
        forall|i: int| 0 <= i < fp.len() ==> '0' <= fp[i] && fp[i] <= '9',
    ensures
        fp.len() == 1 ==> frac_ms(fp) == (fp[0] as int - '0' as int) * 100,
        fp.len() == 2 ==> frac_ms(fp) == ((fp[0] as int - '0' as int) * 10 + (fp[1] as int
            - '0' as int)) * 10,
        fp.len() >= 3 ==> frac_ms(fp) == (fp[0] as int - '0' as int) * 100 + (fp[1] as int
            - '0' as int) * 10 + (fp[2] as int - '0' as int),
        0 <= frac_ms(fp) <= 999,
{
    assert(digits_val(Seq::<char>::empty()) == 0);
    if fp.len() == 0 {
    } else if fp.len() == 1 {
        assert(fp.drop_last() =~= Seq::<char>::empty());
        assert(fp.last() == fp[0]);
        assert(digits_val(fp) == fp[0] as int - '0' as int);
    } else if fp.len() == 2 {
        assert(fp.drop_last() =~= fp.subrange(0, 1));
        assert(fp.subrange(0, 1).drop_last() =~= Seq::<char>::empty());
        assert(digits_val(fp.subrange(0, 1)) == fp[0] as int - '0' as int);
        assert(digits_val(fp) == (fp[0] as int - '0' as int) * 10 + (fp[1] as int - '0' as int));
    } else {
        let f3 = fp.subrange(0, 3);
        assert(f3.drop_last() =~= fp.subrange(0, 2));
        assert(fp.subrange(0, 2).drop_last() =~= fp.subrange(0, 1));
        assert(fp.subrange(0, 1).drop_last() =~= Seq::<char>::empty());
        assert(digits_val(fp.subrange(0, 1)) == fp[0] as int - '0' as int);
        assert(digits_val(fp.subrange(0, 2)) == (fp[0] as int - '0' as int) * 10 + (
        fp[1] as int - '0' as int));
        assert(digits_val(f3) == digits_val(fp.subrange(0, 2)) * 10 + (fp[2] as int - '0' as int));
    }
}

/// The digits in `s[a..b]` as a `u64`, or nothing above
/// [`max_whole_secs`].
fn whole_digits_capped(s: &[char], a: usize, b: usize) -> (r: Option<u64>)
    requires
        a <= b <= s@.len(),
        forall|i: int| a <= i < b ==> '0' <= s@[i] && s@[i] <= '9',
    ensures
        r == if digits_val(s@.subrange(a as int, b as int)) <= max_whole_secs() {
            Some(digits_val(s@.subrange(a as int, b as int)) as u64)
        } else {
            None::<u64>
        },
        r is Some ==> 0 <= digits_val(s@.subrange(a as int, b as int)) <= max_whole_secs(),
{
    let ghost whole = s@.subrange(a as int, b as int);
    let mut v: u64 = 0;
    let mut i: usize = a;
    while i < b
        invariant
            a <= i <= b <= s@.len(),
            whole == s@.subrange(a as int, b as int),
            forall|k: int| a <= k < b ==> '0' <= s@[k] && s@[k] <= '9',
            v == digits_val(s@.subrange(a as int, i as int)),
            v <= max_whole_secs(),
        decreases b - i,
    {
        let d = (s[i] as u32) - ('0' as u32);
        proof {
            assert(s@.subrange(a as int, i + 1 as int).drop_last() =~= s@.subrange(
                a as int,
                i as int,
            ));
        }
        let next: u64 = v * 10 + (d as u64);
        if next > 18446744073709550u64 {
            proof {
                lemma_digits_prefix_le_general(s@, a as int, i + 1 as int, b as int);
            }
            return None;
        }
        v = next;
        i = i + 1;
    }
    proof {
        assert(s@.subrange(a as int, b as int) =~= whole);
    }
    Some(v)
}

/// Prefix bound for digit runs taken from the middle of a slice.
proof fn lemma_digits_prefix_le_general(s: Seq<char>, a: int, k: int, b: int)
    requires
        0 <= a <= k <= b <= s.len(),
        forall|i: int| a <= i < b ==> '0' <= s[i] && s[i] <= '9',
    ensures
        digits_val(s.subrange(a, k)) <= digits_val(s.subrange(a, b)),
    decreases b - k,
{
    if k < b {
        lemma_digits_prefix_le_general(s, a, k + 1, b);
        let x = s.subrange(a, k);
        let y = s.subrange(a, k + 1);
        assert(y.drop_last() =~= x);
        assert(forall|i: int| 0 <= i < x.len() ==> '0' <= x[i] && x[i] <= '9');
        lemma_digits_nonneg(x);
    }
}

/// The deep view of a character vector is its view.
pub broadcast proof fn lemma_vec_char_deep_view(v: Vec<char>)
    ensures
        #[trigger] v.deep_view() == v@,
{
    assert(v.deep_view() =~= v@);
}

/// A line with a trailing carriage return removed.
pub open spec fn strip_cr(l: Seq<char>) -> Seq<char> {
    if l.len() > 0 && l.last() == '\r' {
        l.drop_last()
    } else {
        l
    }
}

/// The lines of `s` from position `i` on: runs between newline
/// characters, each with a trailing carriage return removed, without a
/// final empty line after a trailing newline.
pub open spec fn split_from(s: Seq<char>, i: int) -> Seq<Seq<char>>
    decreases s.len() - i,
    when 0 <= i <= s.len()
    via split_from_dec
{
    if i >= s.len() {
        Seq::empty()
    } else {
        let j = scan_spec(CharClass::NotNl, s, i);
        if j >= s.len() {
            seq![strip_cr(s.subrange(i, j))]
        } else {
            seq![strip_cr(s.subrange(i, j))] + split_from(s, j + 1)
        }
    }
}

#[via_fn]
proof fn split_from_dec(s: Seq<char>, i: int) {
    if 0 <= i < s.len() {
        lemma_scan_bounds(CharClass::NotNl, s, i);
    }
}

/// The lines of `s`, as `str::lines` yields them.
pub open spec fn split_lines(s: Seq<char>) -> Seq<Seq<char>> {
    split_from(s, 0)
}

/// Decides [`split_lines`].
pub fn split_lines_exec(s: &[char]) -> (r: Vec<Vec<char>>)
    ensures
        r.deep_view() == split_lines(s@),
{
    let n = s.len();
    let mut out: Vec<Vec<char>> = Vec::new();
    let mut i: usize = 0;
    while i < n
        invariant
            n == s@.len(),
            i <= n,
            out.deep_view() + split_from(s@, i as int) == split_from(s@, 0),
        decreases n - i,
    {
        let ghost prev = out.deep_view();
        let j = scan(CharClass::NotNl, s, i);
        let raw = slice_range_vec(s, i, j);
        let line = if raw.len() > 0 && raw[raw.len() - 1] == '\r' {
            slice_range_vec(s, i, j - 1)
        } else {
            raw
        };
        proof {
            if s@.subrange(i as int, j as int).len() > 0 && s@.subrange(i as int, j as int).last()
                == '\r' {
                assert(s@.subrange(i as int, j - 1 as int) =~= s@.subrange(
                    i as int,
                    j as int,
                ).drop_last());
            }
            assert(line@ == strip_cr(s@.subrange(i as int, j as int)));
        }
        proof {
            assert(line.deep_view() =~= line@);
        }
        out.push(line);
        proof {
            assert(out.deep_view() =~= prev + seq![strip_cr(s@.subrange(i as int, j as int))]);
        }
        if j < n {
            proof {
                assert((prev + seq![strip_cr(s@.subrange(i as int, j as int))]) + split_from(
                    s@,
                    j + 1 as int,
                ) =~= prev + (seq![strip_cr(s@.subrange(i as int, j as int))] + split_from(
                    s@,
                    j + 1 as int,
                )));
            }
            i = j + 1;
        } else {
            proof {
                assert(split_from(s@, i as int) =~= seq![
                    strip_cr(s@.subrange(i as int, j as int)),
                ]);
                assert(out.deep_view() + Seq::<Seq<char>>::empty() =~= out.deep_view());
            }
            i = n;
        }
    }
    proof {
        assert(out.deep_view() + Seq::<Seq<char>>::empty() =~= out.deep_view());
    }
    out
}

/// The characters of `v` with ASCII capitals lowered.
pub fn lower_chars(v: &[char]) -> (r: Vec<char>)
    ensures
        r@ == lower_seq(v@),
{
    let mut r: Vec<char> = Vec::new();
    let mut i: usize = 0;
    while i < v.len()
        invariant
            i <= v@.len(),
            r@.len() == i,
            forall|k: int| 0 <= k < i ==> r@[k] == lower_char(v@[k]),
        decreases v@.len() - i,
    {
        r.push(lower_char_exec(v[i]));
        i = i + 1;
    }
    proof {
        assert(r@ =~= lower_seq(v@));
    }
    r
}

} // verus!
