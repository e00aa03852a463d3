//! The line grammars recognized by this crate.
//!
//! Each rule mirrors one of the textual shapes emitted by the CLI agent:
//! prompts, separators, status-bar lines, tool-invocation headers and
//! bodies, confirmation options and error traces.  Every matcher has a
//! specification over `Seq<char>` that defines its grammar exactly; the
//! executable functions decide those specifications.

use vstd::prelude::*;
use crate::chars::{
    self, CharClass, ci_at, contains_at, in_class, lemma_scan_bounds, rscan_ws_spec, scan_spec,
    is_ws,
};

verus! {

broadcast use crate::chars::lemma_vec_char_deep_view;

/// The six status-bar spinner glyphs.
pub open spec fn is_status_spinner(c: char) -> bool {
    c == '\u{B7}' || c == '\u{273B}' || c == '\u{273D}' || c == '\u{2736}' || c == '\u{2733}'
        || c == '\u{2722}'
}

/// Decides [`is_status_spinner`].
pub fn status_spinner_char(c: char) -> (b: bool)
    ensures
        b == is_status_spinner(c),
{
    c == '\u{B7}' || c == '\u{273B}' || c == '\u{273D}' || c == '\u{2736}' || c == '\u{2733}'
        || c == '\u{2722}'
}

/// The twelve braille spinner glyphs used in window titles.
pub open spec fn is_braille_spinner(c: char) -> bool {
    c == '\u{2810}' || c == '\u{2802}' || c == '\u{2808}' || c == '\u{2801}' || c == '\u{2809}'
        || c == '\u{2803}' || c == '\u{280B}' || c == '\u{2813}' || c == '\u{2812}'
        || c == '\u{2816}' || c == '\u{2826}' || c == '\u{2824}'
}

/// Decides [`is_braille_spinner`].
pub fn braille_spinner_char(c: char) -> (b: bool)
    ensures
        b == is_braille_spinner(c),
{
    c == '\u{2810}' || c == '\u{2802}' || c == '\u{2808}' || c == '\u{2801}' || c == '\u{2809}'
        || c == '\u{2803}' || c == '\u{280B}' || c == '\u{2813}' || c == '\u{2812}'
        || c == '\u{2816}' || c == '\u{2826}' || c == '\u{2824}'
}

/// A prompt cursor glyph.
pub open spec fn is_prompt_char(c: char) -> bool {
    c == '\u{276F}' || c == '>'
}

/// Decides [`is_prompt_char`].
pub fn prompt_char(c: char) -> (b: bool)
    ensures
        b == is_prompt_char(c),
{
    c == '\u{276F}' || c == '>'
}

/// A horizontal separator glyph.
pub open spec fn is_sep_char(c: char) -> bool {
    c == '\u{2500}' || c == '\u{2501}' || c == '\u{2550}'
}

/// Decides [`is_sep_char`].
pub fn sep_char(c: char) -> (b: bool)
    ensures
        b == is_sep_char(c),
{
    c == '\u{2500}' || c == '\u{2501}' || c == '\u{2550}'
}

/// The assistant response marker glyph.
pub open spec fn marker_char() -> char {
    '\u{23FA}'
}

/// The inline tool output marker glyph.
pub open spec fn elbow_char() -> char {
    '\u{23BF}'
}

/// The box-drawing vertical bar that delimits tool parameter lines.
pub open spec fn bar_char() -> char {
    '\u{2502}'
}

// ========== Prompt and separator lines ==========

/// A bare input prompt: a cursor glyph followed only by whitespace.
pub open spec fn prompt_input_spec(s: Seq<char>) -> bool {
    s.len() >= 1 && is_prompt_char(s[0]) && scan_spec(CharClass::Ws, s, 1) == s.len()
}

/// Decides [`prompt_input_spec`].
pub fn prompt_input_match(s: &[char]) -> (b: bool)
    ensures
        b == prompt_input_spec(s@),
{
    if s.len() == 0 || !prompt_char(s[0]) {
        return false;
    }
    let j = chars::scan(CharClass::Ws, s, 1);
    j == s.len()
}

/// Witness position for [`prompt_with_text_spec`]: a non-newline
/// character after a whitespace run that begins at the second character.
pub open spec fn pwt_at(s: Seq<char>, j: int) -> bool {
    2 <= j < s.len() && s[j] != '\n' && (forall|k: int| 1 <= k < j ==> is_ws(s[k]))
}

/// A prompt with typed text: a cursor glyph, at least one whitespace
/// character, then at least one further character other than a newline.
pub open spec fn prompt_with_text_spec(s: Seq<char>) -> bool {
    s.len() >= 3 && is_prompt_char(s[0]) && is_ws(s[1]) && exists|j: int| pwt_at(s, j)
}

/// Decides [`prompt_with_text_spec`].
pub fn prompt_with_text_match(s: &[char]) -> (b: bool)
    ensures
        b == prompt_with_text_spec(s@),
{
    if s.len() < 3 || !prompt_char(s[0]) || !chars::ws_char(s[1]) {
        return false;
    }
    let n = s.len();
    let mut j: usize = 2;
    while j < n
        invariant
            n == s@.len(),
            3 <= n,
            is_prompt_char(s@[0]),
            is_ws(s@[1]),
            2 <= j <= n,
            forall|k: int| 2 <= k < j ==> s@[k] == '\n',
        decreases n - j,
    {
        if s[j] != '\n' {
            proof {
                assert(forall|k: int| 1 <= k < j ==> is_ws(s@[k]));
                assert(pwt_at(s@, j as int));
            }
            return true;
        }
        j = j + 1;
    }
    proof {
        assert forall|j2: int| !pwt_at(s@, j2) by {
            if 2 <= j2 < s@.len() {
                assert(s@[j2] == '\n');
            }
        }
    }
    false
}

/// A separator: one or more horizontal rule glyphs and nothing else.
pub open spec fn separator_spec(s: Seq<char>) -> bool {
    s.len() >= 1 && forall|k: int| 0 <= k < s.len() ==> is_sep_char(s[k])
}

/// Decides [`separator_spec`].
pub fn separator_match(s: &[char]) -> (b: bool)
    ensures
        b == separator_spec(s@),
{
    if s.len() == 0 {
        return false;
    }
    let mut i: usize = 0;
    while i < s.len()
        invariant
            i <= s@.len(),
            forall|k: int| 0 <= k < i ==> is_sep_char(s@[k]),
        decreases s@.len() - i,
    {
        if !sep_char(s[i]) {
            return false;
        }
        i = i + 1;
    }
    true
}

// ========== Confirmation option lines ==========

/// A numbered option line: optional whitespace, one or more digits, a
/// dot, at least one whitespace character, then a non-empty label.  On
/// a tail of two or more whitespace characters the label is the last of
/// them.  Yields the digit run and the label run.
pub open spec fn confirm_numbered_spec(s: Seq<char>) -> Option<(Seq<char>, Seq<char>)> {
    let a = scan_spec(CharClass::Ws, s, 0);
    let d = scan_spec(CharClass::Digit, s, a);
    if d <= a || d >= s.len() || s[d] != '.' {
        None
    } else {
        let e = scan_spec(CharClass::Ws, s, d + 1);
        if e <= d + 1 {
            None
        } else if e < s.len() {
            Some((s.subrange(a, d), s.subrange(e, s.len() as int)))
        } else if s.len() - (d + 1) >= 2 {
            Some((s.subrange(a, d), s.subrange(s.len() - 1, s.len() as int)))
        } else {
            None
        }
    }
}

/// Decides [`confirm_numbered_spec`].
pub fn confirm_numbered_match(s: &[char]) -> (r: Option<(Vec<char>, Vec<char>)>)
    ensures
        match r {
            Some(v) => confirm_numbered_spec(s@) == Some((v.0@, v.1@)),
            None => confirm_numbered_spec(s@) is None,
        },
{
    let a = chars::scan(CharClass::Ws, s, 0);
    let d = chars::scan(CharClass::Digit, s, a);
    if d <= a || d >= s.len() || s[d] != '.' {
        return None;
    }
    let e = chars::scan(CharClass::Ws, s, d + 1);
    if e <= d + 1 {
        return None;
    }
    if e < s.len() {
        return Some((chars::slice_range_vec(s, a, d), chars::slice_range_vec(s, e, s.len())));
    }
    if s.len() - (d + 1) >= 2 {
        return Some(
            (chars::slice_range_vec(s, a, d), chars::slice_range_vec(s, s.len() - 1, s.len())),
        );
    }
    None
}

/// An option line as it appears in a dialog: optional whitespace or
/// cursor glyphs, digits, a dot, optional whitespace, a non-empty label.
/// On a non-empty whitespace tail the label is its last character.
/// Yields the digit run and the label run.
pub open spec fn option_line_spec(s: Seq<char>) -> Option<(Seq<char>, Seq<char>)> {
    let a = scan_spec(CharClass::WsPrompt, s, 0);
    let d = scan_spec(CharClass::Digit, s, a);
    if d <= a || d >= s.len() || s[d] != '.' {
        None
    } else {
        let e = scan_spec(CharClass::Ws, s, d + 1);
        if e < s.len() {
            Some((s.subrange(a, d), s.subrange(e, s.len() as int)))
        } else if s.len() > d + 1 {
            Some((s.subrange(a, d), s.subrange(s.len() - 1, s.len() as int)))
        } else {
            None
        }
    }
}

/// Decides [`option_line_spec`].
pub fn option_line_match(s: &[char]) -> (r: Option<(Vec<char>, Vec<char>)>)
    ensures
        match r {
            Some(v) => option_line_spec(s@) == Some((v.0@, v.1@)),
            None => option_line_spec(s@) is None,
        },
{
    let a = chars::scan(CharClass::WsPrompt, s, 0);
    let d = chars::scan(CharClass::Digit, s, a);
    if d <= a || d >= s.len() || s[d] != '.' {
        return None;
    }
    let e = chars::scan(CharClass::Ws, s, d + 1);
    if e < s.len() {
        return Some((chars::slice_range_vec(s, a, d), chars::slice_range_vec(s, e, s.len())));
    }
    if s.len() > d + 1 {
        return Some(
            (chars::slice_range_vec(s, a, d), chars::slice_range_vec(s, s.len() - 1, s.len())),
        );
    }
    None
}

/// The digits of [`option_line_spec`] are decimal digits.
pub proof fn lemma_option_line_digits(s: Seq<char>)
    requires
        option_line_spec(s) is Some,
    ensures
        forall|k: int|
            0 <= k < option_line_spec(s)->Some_0.0.len() ==> '0' <= option_line_spec(
                s,
            )->Some_0.0[k] && option_line_spec(s)->Some_0.0[k] <= '9',
{
    let a = scan_spec(CharClass::WsPrompt, s, 0);
    lemma_scan_bounds(CharClass::WsPrompt, s, 0);
    lemma_scan_bounds(CharClass::Digit, s, a);
}

/// The digits of [`confirm_numbered_spec`] are decimal digits.
pub proof fn lemma_confirm_numbered_digits(s: Seq<char>)
    requires
        confirm_numbered_spec(s) is Some,
    ensures
        forall|k: int|
            0 <= k < confirm_numbered_spec(s)->Some_0.0.len() ==> '0' <= confirm_numbered_spec(
                s,
            )->Some_0.0[k] && confirm_numbered_spec(s)->Some_0.0[k] <= '9',
{
    let a = scan_spec(CharClass::Ws, s, 0);
    lemma_scan_bounds(CharClass::Ws, s, 0);
    lemma_scan_bounds(CharClass::Digit, s, a);
}

/// A leading affirmative option: optional whitespace, `1.`, whitespace,
/// `yes` in any case, an optional comma, then a whitespace character.
pub open spec fn confirm_yes_spec(s: Seq<char>) -> bool {
    let a = scan_spec(CharClass::Ws, s, 0);
    contains_at(s, "1."@, a) && {
        let b = scan_spec(CharClass::Ws, s, a + 2);
        b > a + 2 && ci_at(s, "yes"@, b) && {
            let p = if b + 3 < s.len() && s[b + 3] == ',' {
                b + 4
            } else {
                b + 3
            };
            p < s.len() && is_ws(s[p])
        }
    }
}

/// Decides [`confirm_yes_spec`].
pub fn confirm_yes_match(s: &[char], lit_one_dot: &[char], lit_yes: &[char]) -> (b: bool)
    requires
        lit_one_dot@ == "1."@,
        lit_yes@ == "yes"@,
    ensures
        b == confirm_yes_spec(s@),
{
    proof {
        reveal_strlit("1.");
        reveal_strlit("yes");
    }
    let n = s.len();
    let a = chars::scan(CharClass::Ws, s, 0);
    if !chars::has_at(s, lit_one_dot, a) {
        return false;
    }
    let b = chars::scan(CharClass::Ws, s, a + 2);
    if b <= a + 2 || !chars::ci_match_at(s, lit_yes, b) {
        return false;
    }
    let p = if b + 3 < s.len() && s[b + 3] == ',' {
        b + 4
    } else {
        b + 3
    };
    p < s.len() && chars::ws_char(s[p])
}

/// A negative option: optional whitespace, digits, a dot, whitespace,
/// `no` in any case, an optional comma, then a whitespace character.
pub open spec fn confirm_no_spec(s: Seq<char>) -> bool {
    let a = scan_spec(CharClass::Ws, s, 0);
    let d = scan_spec(CharClass::Digit, s, a);
    d > a && d < s.len() && s[d] == '.' && {
        let b = scan_spec(CharClass::Ws, s, d + 1);
        b > d + 1 && ci_at(s, "no"@, b) && {
            let p = if b + 2 < s.len() && s[b + 2] == ',' {
                b + 3
            } else {
                b + 2
            };
            p < s.len() && is_ws(s[p])
        }
    }
}

/// Decides [`confirm_no_spec`].
pub fn confirm_no_match(s: &[char], lit_no: &[char]) -> (b: bool)
    requires
        lit_no@ == "no"@,
    ensures
        b == confirm_no_spec(s@),
{
    proof {
        reveal_strlit("no");
    }
    let n = s.len();
    let a = chars::scan(CharClass::Ws, s, 0);
    let d = chars::scan(CharClass::Digit, s, a);
    if d <= a || d >= s.len() || s[d] != '.' {
        return false;
    }
    let b = chars::scan(CharClass::Ws, s, d + 1);
    if b <= d + 1 || !chars::ci_match_at(s, lit_no, b) {
        return false;
    }
    let p = if b + 2 < s.len() && s[b + 2] == ',' {
        b + 3
    } else {
        b + 2
    };
    p < s.len() && chars::ws_char(s[p])
}

// ========== Tool block lines ==========

/// A tool parameter line: optional whitespace, a vertical bar, optional
/// whitespace, a word key, a colon, optional whitespace, a non-empty
/// value running to the end of the line.  On a non-empty whitespace
/// tail the value is its last character.  Yields key and value.
pub open spec fn tool_param_spec(s: Seq<char>) -> Option<(Seq<char>, Seq<char>)> {
    let a = scan_spec(CharClass::Ws, s, 0);
    if a >= s.len() || s[a] != bar_char() {
        None
    } else {
        let b = scan_spec(CharClass::Ws, s, a + 1);
        let w = scan_spec(CharClass::Word, s, b);
        if w <= b || w >= s.len() || s[w] != ':' {
            None
        } else {
            let c = scan_spec(CharClass::Ws, s, w + 1);
            if c < s.len() {
                Some((s.subrange(b, w), s.subrange(c, s.len() as int)))
            } else if s.len() > w + 1 {
                Some((s.subrange(b, w), s.subrange(s.len() - 1, s.len() as int)))
            } else {
                None
            }
        }
    }
}

/// Decides [`tool_param_spec`].
pub fn tool_param_match(s: &[char]) -> (r: Option<(Vec<char>, Vec<char>)>)
    ensures
        match r {
            Some(v) => tool_param_spec(s@) == Some((v.0@, v.1@)),
            None => tool_param_spec(s@) is None,
        },
{
    let a = chars::scan(CharClass::Ws, s, 0);
    if a >= s.len() || s[a] != '\u{2502}' {
        return None;
    }
    let b = chars::scan(CharClass::Ws, s, a + 1);
    let w = chars::scan(CharClass::Word, s, b);
    if w <= b || w >= s.len() || s[w] != ':' {
        return None;
    }
    let c = chars::scan(CharClass::Ws, s, w + 1);
    if c < s.len() {
        return Some((chars::slice_range_vec(s, b, w), chars::slice_range_vec(s, c, s.len())));
    }
    if s.len() > w + 1 {
        return Some(
            (chars::slice_range_vec(s, b, w), chars::slice_range_vec(s, s.len() - 1, s.len())),
        );
    }
    None
}

/// A tool output line in box style: optional whitespace, a vertical
/// bar, at least one whitespace character, then non-empty content.  On
/// a tail of two or more whitespace characters the content is the last
/// of them.
pub open spec fn tool_output_line_spec(s: Seq<char>) -> Option<Seq<char>> {
    let a = scan_spec(CharClass::Ws, s, 0);
    if a >= s.len() || s[a] != bar_char() {
        None
    } else {
        let b = scan_spec(CharClass::Ws, s, a + 1);
        if b <= a + 1 {
            None
        } else if b < s.len() {
            Some(s.subrange(b, s.len() as int))
        } else if s.len() - (a + 1) >= 2 {
            Some(s.subrange(s.len() - 1, s.len() as int))
        } else {
            None
        }
    }
}

/// An inline tool output line: optional whitespace, the elbow marker,
/// optional whitespace, then non-empty content.  On a non-empty
/// whitespace tail the content is its last character.  Yields the
/// content.
pub open spec fn inline_output_capture_spec(s: Seq<char>) -> Option<Seq<char>> {
    let a = scan_spec(CharClass::Ws, s, 0);
    if a >= s.len() || s[a] != elbow_char() {
        None
    } else {
        let b = scan_spec(CharClass::Ws, s, a + 1);
        if b < s.len() {
            Some(s.subrange(b, s.len() as int))
        } else if s.len() > a + 1 {
            Some(s.subrange(s.len() - 1, s.len() as int))
        } else {
            None
        }
    }
}

/// Decides [`inline_output_capture_spec`].
pub fn inline_output_capture_match(s: &[char]) -> (r: Option<Vec<char>>)
    ensures
        match r {
            Some(v) => inline_output_capture_spec(s@) == Some(v@),
            None => inline_output_capture_spec(s@) is None,
        },
{
    let a = chars::scan(CharClass::Ws, s, 0);
    if a >= s.len() || s[a] != '\u{23BF}' {
        return None;
    }
    let b = chars::scan(CharClass::Ws, s, a + 1);
    if b < s.len() {
        return Some(chars::slice_range_vec(s, b, s.len()));
    }
    if s.len() > a + 1 {
        return Some(chars::slice_range_vec(s, s.len() - 1, s.len()));
    }
    None
}

/// The registry form of an inline output line: as
/// [`inline_output_capture_spec`] but demanding at least one whitespace
/// character after the marker.
pub open spec fn inline_output_strict_spec(s: Seq<char>) -> bool {
    let a = scan_spec(CharClass::Ws, s, 0);
    a < s.len() && s[a] == elbow_char() && {
        let b = scan_spec(CharClass::Ws, s, a + 1);
        b > a + 1 && (b < s.len() || s.len() - (a + 1) >= 2)
    }
}

/// Decides [`inline_output_strict_spec`].
pub fn inline_output_strict_match(s: &[char]) -> (b: bool)
    ensures
        b == inline_output_strict_spec(s@),
{
    let a = chars::scan(CharClass::Ws, s, 0);
    if a >= s.len() || s[a] != '\u{23BF}' {
        return false;
    }
    let b = chars::scan(CharClass::Ws, s, a + 1);
    b > a + 1 && (b < s.len() || s.len() - (a + 1) >= 2)
}

// ========== Title lines ==========

/// The registry title rule: a braille spinner or the six-pointed idle
/// glyph, at least one whitespace character, then a non-empty rest.
/// Yields the glyph and the rest.
pub open spec fn title_line_spec(s: Seq<char>) -> Option<(char, Seq<char>)> {
    if s.len() == 0 || !(is_braille_spinner(s[0]) || s[0] == '\u{2733}') {
        None
    } else {
        let b = scan_spec(CharClass::Ws, s, 1);
        if b <= 1 {
            None
        } else if b < s.len() {
            Some((s[0], s.subrange(b, s.len() as int)))
        } else if s.len() >= 3 {
            Some((s[0], s.subrange(s.len() - 1, s.len() as int)))
        } else {
            None
        }
    }
}

/// Decides [`title_line_spec`].
pub fn title_line_match(s: &[char]) -> (r: Option<(char, Vec<char>)>)
    ensures
        match r {
            Some(v) => title_line_spec(s@) == Some((v.0, v.1@)),
            None => title_line_spec(s@) is None,
        },
{
    if s.len() == 0 || !(braille_spinner_char(s[0]) || s[0] == '\u{2733}') {
        return None;
    }
    let b = chars::scan(CharClass::Ws, s, 1);
    if b <= 1 {
        return None;
    }
    if b < s.len() {
        return Some((s[0], chars::slice_range_vec(s, b, s.len())));
    }
    if s.len() >= 3 {
        return Some((s[0], chars::slice_range_vec(s, s.len() - 1, s.len())));
    }
    None
}

/// The title classifier's grammar: any of the eighteen spinner glyphs,
/// optional whitespace, then the rest of the title, possibly empty.
/// Yields the glyph and the rest.
pub open spec fn title_head_spec(s: Seq<char>) -> Option<(char, Seq<char>)> {
    if s.len() == 0 || !(is_braille_spinner(s[0]) || is_status_spinner(s[0])) {
        None
    } else {
        let b = scan_spec(CharClass::Ws, s, 1);
        Some((s[0], s.subrange(b, s.len() as int)))
    }
}

/// Decides [`title_head_spec`].
pub fn title_head_match(s: &[char]) -> (r: Option<(char, Vec<char>)>)
    ensures
        match r {
            Some(v) => title_head_spec(s@) == Some((v.0, v.1@)),
            None => title_head_spec(s@) is None,
        },
{
    if s.len() == 0 || !(braille_spinner_char(s[0]) || status_spinner_char(s[0])) {
        return None;
    }
    let b = chars::scan(CharClass::Ws, s, 1);
    Some((s[0], chars::slice_range_vec(s, b, s.len())))
}

// ========== Named grammar rules ==========

/// The named line grammars available to fingerprints.  Each stands for
/// one structured textual shape; a fingerprint carrying a rule matches a
/// line exactly when the rule's grammar does.
#[derive(Debug, Clone, Copy, PartialEq, Eq, Structural)]
pub enum PatternRule {
    /// A status-bar line ([`status_spec`]).
    StatusBar,
    /// A bare input prompt ([`prompt_input_spec`]).
    PromptInput,
    /// A prompt with typed text ([`prompt_with_text_spec`]).
    PromptWithText,
    /// A horizontal separator ([`separator_spec`]).
    Separator,
    /// A box-style tool header ([`tool_header_box_spec`]).
    ToolHeaderBox,
    /// An inline tool header ([`tool_header_inline_strict_spec`]).
    ToolHeaderInline,
    /// A tool parameter line ([`tool_param_spec`]).
    ToolParam,
    /// A box-style tool output line ([`tool_output_line_spec`]).
    ToolOutputLine,
    /// An inline tool output line ([`inline_output_strict_spec`]).
    ToolInlineOutput,
    /// A numbered option line ([`confirm_numbered_spec`]).
    ConfirmNumbered,
    /// A leading affirmative option ([`confirm_yes_spec`]).
    ConfirmYesOption,
    /// A negative option ([`confirm_no_spec`]).
    ConfirmNoOption,
    /// A stack-trace line ([`stack_trace_spec`]).
    ErrorStackTrace,
    /// A spinner-prefixed title line ([`title_line_spec`]).
    TitleLine,
}

/// The captured runs of a rule on a line: nothing when the rule does
/// not match, else the capture list its grammar defines, which is empty
/// for the purely recognizing rules.
pub open spec fn rule_captures(rule: PatternRule, s: Seq<char>) -> Option<Seq<Seq<char>>> {
    match rule {
        PatternRule::StatusBar => match status_spec(s) {
            Some(m) => Some(
                match m.2 {
                    Some(h) => seq![seq![m.0], m.1, h],
                    None => seq![seq![m.0], m.1],
                },
            ),
            None => None,
        },
        PatternRule::PromptInput => if prompt_input_spec(s) {
            Some(Seq::empty())
        } else {
            None
        },
        PatternRule::PromptWithText => if prompt_with_text_spec(s) {
            Some(Seq::empty())
        } else {
            None
        },
        PatternRule::Separator => if separator_spec(s) {
            Some(Seq::empty())
        } else {
            None
        },
        PatternRule::ToolHeaderBox => match tool_header_box_spec(s) {
            Some(m) => Some(
                match m.1 {
                    Some(d) => seq![m.0, d],
                    None => seq![m.0],
                },
            ),
            None => None,
        },
        PatternRule::ToolHeaderInline => match tool_header_inline_strict_spec(s) {
            Some(name) => Some(seq![name]),
            None => None,
        },
        PatternRule::ToolParam => match tool_param_spec(s) {
            Some(m) => Some(seq![m.0, m.1]),
            None => None,
        },
        PatternRule::ToolOutputLine => match tool_output_line_spec(s) {
            Some(c) => Some(seq![c]),
            None => None,
        },
        PatternRule::ToolInlineOutput => if inline_output_strict_spec(s) {
            Some(Seq::empty())
        } else {
            None
        },
        PatternRule::ConfirmNumbered => match confirm_numbered_spec(s) {
            Some(m) => Some(seq![m.0, m.1]),
            None => None,
        },
        PatternRule::ConfirmYesOption => if confirm_yes_spec(s) {
            Some(Seq::empty())
        } else {
            None
        },
        PatternRule::ConfirmNoOption => if confirm_no_spec(s) {
            Some(Seq::empty())
        } else {
            None
        },
        PatternRule::ErrorStackTrace => if stack_trace_spec(s) {
            Some(Seq::empty())
        } else {
            None
        },
        PatternRule::TitleLine => match title_line_spec(s) {
            Some(m) => Some(seq![seq![m.0], m.1]),
            None => None,
        },
    }
}

/// Decides [`rule_captures`].
pub fn match_rule(rule: PatternRule, s: &[char]) -> (r: Option<Vec<Vec<char>>>)
    ensures
        match r {
            Some(v) => rule_captures(rule, s@) == Some(v.deep_view()),
            None => rule_captures(rule, s@) is None,
        },
{
    let empty_caps: Vec<Vec<char>> = Vec::new();
    proof {
        assert(empty_caps.deep_view() =~= Seq::<Seq<char>>::empty());
    }
    match rule {
        PatternRule::StatusBar => match status_match(s) {
            Some(m) => {
                let glyph = vec![m.0];
                proof {
                    assert(glyph@ =~= seq![m.0]);
                }
                let mut caps: Vec<Vec<char>> = Vec::new();
                caps.push(glyph);
                caps.push(m.1);
                match m.2 {
                    Some(h) => {
                        caps.push(h);
                        proof {
                            assert(caps.deep_view() =~= rule_captures(rule, s@)->Some_0);
                        }
                        Some(caps)
                    },
                    None => {
                        proof {
                            assert(caps.deep_view() =~= rule_captures(rule, s@)->Some_0);
                        }
                        Some(caps)
                    },
                }
            },
            None => None,
        },
        PatternRule::PromptInput => if prompt_input_match(s) {
            Some(empty_caps)
        } else {
            None
        },
        PatternRule::PromptWithText => if prompt_with_text_match(s) {
            Some(empty_caps)
        } else {
            None
        },
        PatternRule::Separator => if separator_match(s) {
            Some(empty_caps)
        } else {
            None
        },
        PatternRule::ToolHeaderBox => match tool_header_box_match(s) {
            Some(m) => {
                let mut caps: Vec<Vec<char>> = Vec::new();
                caps.push(m.0);
                match m.1 {
                    Some(d) => {
                        caps.push(d);
                        proof {
                            assert(caps.deep_view() =~= rule_captures(rule, s@)->Some_0);
                        }
                        Some(caps)
                    },
                    None => {
                        proof {
                            assert(caps.deep_view() =~= rule_captures(rule, s@)->Some_0);
                        }
                        Some(caps)
                    },
                }
            },
            None => None,
        },
        PatternRule::ToolHeaderInline => match tool_header_inline_match(s) {
            Some(m) => {
                if m.1.len() >= 1 {
                    let mut caps: Vec<Vec<char>> = Vec::new();
                    caps.push(m.0);
                    proof {
                        assert(caps.deep_view() =~= rule_captures(rule, s@)->Some_0);
                    }
                    Some(caps)
                } else {
                    None
                }
            },
            None => None,
        },
        PatternRule::ToolParam => match tool_param_match(s) {
            Some(m) => {
                let mut caps: Vec<Vec<char>> = Vec::new();
                caps.push(m.0);
                caps.push(m.1);
                proof {
                    assert(caps.deep_view() =~= rule_captures(rule, s@)->Some_0);
                }
                Some(caps)
            },
            None => None,
        },
        PatternRule::ToolOutputLine => {
            let a = chars::scan(CharClass::Ws, s, 0);
            if a >= s.len() || s[a] != '\u{2502}' {
                return None;
            }
            let b = chars::scan(CharClass::Ws, s, a + 1);
            if b <= a + 1 {
                return None;
            }
            let mut caps: Vec<Vec<char>> = Vec::new();
            if b < s.len() {
                caps.push(chars::slice_range_vec(s, b, s.len()));
            } else if s.len() - (a + 1) >= 2 {
                caps.push(chars::slice_range_vec(s, s.len() - 1, s.len()));
            } else {
                return None;
            }
            proof {
                assert(caps.deep_view() =~= rule_captures(rule, s@)->Some_0);
            }
            Some(caps)
        },
        PatternRule::ToolInlineOutput => if inline_output_strict_match(s) {
            Some(empty_caps)
        } else {
            None
        },
        PatternRule::ConfirmNumbered => match confirm_numbered_match(s) {
            Some(m) => {
                let mut caps: Vec<Vec<char>> = Vec::new();
                caps.push(m.0);
                caps.push(m.1);
                proof {
                    assert(caps.deep_view() =~= rule_captures(rule, s@)->Some_0);
                }
                Some(caps)
            },
            None => None,
        },
        PatternRule::ConfirmYesOption => {
            let lit_one_dot = chars::str_chars("1.");
            let lit_yes = chars::str_chars("yes");
            if confirm_yes_match(s, lit_one_dot.as_slice(), lit_yes.as_slice()) {
                Some(empty_caps)
            } else {
                None
            }
        },
        PatternRule::ConfirmNoOption => {
            let lit_no = chars::str_chars("no");
            if confirm_no_match(s, lit_no.as_slice()) {
                Some(empty_caps)
            } else {
                None
            }
        },
        PatternRule::ErrorStackTrace => if stack_trace_match(s) {
            Some(empty_caps)
        } else {
            None
        },
        PatternRule::TitleLine => match title_line_match(s) {
            Some(m) => {
                let glyph = vec![m.0];
                proof {
                    assert(glyph@ =~= seq![m.0]);
                }
                let mut caps: Vec<Vec<char>> = Vec::new();
                caps.push(glyph);
                caps.push(m.1);
                proof {
                    assert(caps.deep_view() =~= rule_captures(rule, s@)->Some_0);
                }
                Some(caps)
            },
            None => None,
        },
    }
}

// ========== Status-bar lines ==========

/// The tail of a status line after the opening parenthesis: `esc` in
/// lower or upper case, whitespace, `to`, whitespace, `interrupt`, then
/// either a closing parenthesis, or a middle dot, an optional-whitespace
/// separated phase word, and the closing parenthesis.  Yields the phase
/// word when one is present.
pub open spec fn esc_tail_spec(s: Seq<char>, p: int) -> Option<Option<Seq<char>>> {
    if !(contains_at(s, "esc"@, p) || contains_at(s, "ESC"@, p)) {
        None
    } else {
        let q1 = scan_spec(CharClass::Ws, s, p + 3);
        if q1 <= p + 3 || !contains_at(s, "to"@, q1) {
            None
        } else {
            let q2 = scan_spec(CharClass::Ws, s, q1 + 2);
            if q2 <= q1 + 2 || !contains_at(s, "interrupt"@, q2) {
                None
            } else {
                let q3 = q2 + 9;
                if q3 < s.len() && s[q3] == ')' {
                    Some(None)
                } else {
                    let q4 = scan_spec(CharClass::Ws, s, q3);
                    if q4 >= s.len() || s[q4] != '\u{B7}' {
                        None
                    } else {
                        let q5 = scan_spec(CharClass::Ws, s, q4 + 1);
                        let q6 = scan_spec(CharClass::Word, s, q5);
                        if q6 <= q5 || q6 >= s.len() || s[q6] != ')' {
                            None
                        } else {
                            Some(Some(s.subrange(q5, q6)))
                        }
                    }
                }
            }
        }
    }
}

/// A status-bar line: a spinner glyph, whitespace, a status token of
/// characters that are neither whitespace nor an opening parenthesis,
/// optional whitespace, and a parenthesized interrupt marker as in
/// [`esc_tail_spec`].  Yields spinner, token, and the phase word.
pub open spec fn status_spec(s: Seq<char>) -> Option<(char, Seq<char>, Option<Seq<char>>)> {
    if s.len() == 0 || !is_status_spinner(s[0]) {
        None
    } else {
        let j = scan_spec(CharClass::Ws, s, 1);
        if j <= 1 {
            None
        } else {
            let k = scan_spec(CharClass::Token, s, j);
            if k <= j {
                None
            } else {
                let m = scan_spec(CharClass::Ws, s, k);
                if m >= s.len() || s[m] != '(' {
                    None
                } else {
                    match esc_tail_spec(s, m + 1) {
                        Some(h) => Some((s[0], s.subrange(j, k), h)),
                        None => None,
                    }
                }
            }
        }
    }
}

/// Decides [`esc_tail_spec`].
fn esc_tail_match(s: &[char], p: usize) -> (r: Option<Option<Vec<char>>>)
    requires
        p <= s@.len(),
    ensures
        match r {
            Some(h) => esc_tail_spec(s@, p as int) == Some(h.deep_view()),
            None => esc_tail_spec(s@, p as int) is None,
        },
{
    proof {
        reveal_strlit("esc");
        reveal_strlit("ESC");
        reveal_strlit("to");
        reveal_strlit("interrupt");
    }
    let lit_esc = chars::str_chars("esc");
    let lit_esc_u = chars::str_chars("ESC");
    let lit_to = chars::str_chars("to");
    let lit_int = chars::str_chars("interrupt");
    let n = s.len();
    if !chars::has_at(s, lit_esc.as_slice(), p) && !chars::has_at(s, lit_esc_u.as_slice(), p) {
        return None;
    }
    let q1 = chars::scan(CharClass::Ws, s, p + 3);
    if q1 <= p + 3 || !chars::has_at(s, lit_to.as_slice(), q1) {
        return None;
    }
    let q2 = chars::scan(CharClass::Ws, s, q1 + 2);
    if q2 <= q1 + 2 || !chars::has_at(s, lit_int.as_slice(), q2) {
        return None;
    }
    let q3 = q2 + 9;
    if q3 < s.len() && s[q3] == ')' {
        return Some(None);
    }
    let q4 = chars::scan(CharClass::Ws, s, q3);
    if q4 >= s.len() || s[q4] != '\u{B7}' {
        return None;
    }
    let q5 = chars::scan(CharClass::Ws, s, q4 + 1);
    let q6 = chars::scan(CharClass::Word, s, q5);
    if q6 <= q5 || q6 >= s.len() || s[q6] != ')' {
        return None;
    }
    Some(Some(chars::slice_range_vec(s, q5, q6)))
}

/// Decides [`status_spec`].
pub fn status_match(s: &[char]) -> (r: Option<(char, Vec<char>, Option<Vec<char>>)>)
    ensures
        match r {
            Some(v) => status_spec(s@) == Some((v.0, v.1@, v.2.deep_view())),
            None => status_spec(s@) is None,
        },
{
    if s.len() == 0 || !status_spinner_char(s[0]) {
        return None;
    }
    let j = chars::scan(CharClass::Ws, s, 1);
    if j <= 1 {
        return None;
    }
    let k = chars::scan(CharClass::Token, s, j);
    if k <= j {
        return None;
    }
    let m = chars::scan(CharClass::Ws, s, k);
    if m >= s.len() || s[m] != '(' {
        return None;
    }
    match esc_tail_match(s, m + 1) {
        Some(h) => Some((s[0], chars::slice_range_vec(s, j, k), h)),
        None => None,
    }
}

// ========== Tool headers ==========

/// A box-style tool header: the response marker, whitespace, a word
/// tool name, then either the end of the line or a parenthesized
/// `completed in <seconds>s` suffix ending the line.  Yields the name
/// and the seconds literal when present.
pub open spec fn tool_header_box_spec(s: Seq<char>) -> Option<(Seq<char>, Option<Seq<char>>)> {
    if s.len() == 0 || s[0] != marker_char() {
        None
    } else {
        let a = scan_spec(CharClass::Ws, s, 1);
        if a <= 1 {
            None
        } else {
            let w = scan_spec(CharClass::Word, s, a);
            if w <= a {
                None
            } else if w == s.len() {
                Some((s.subrange(a, w), None))
            } else {
                let x = scan_spec(CharClass::Ws, s, w);
                if x <= w || !contains_at(s, "(completed"@, x) {
                    None
                } else {
                    let y = scan_spec(CharClass::Ws, s, x + 10);
                    if y <= x + 10 || !contains_at(s, "in"@, y) {
                        None
                    } else {
                        let z = scan_spec(CharClass::Ws, s, y + 2);
                        if z <= y + 2 {
                            None
                        } else {
                            let q = scan_spec(CharClass::NumDot, s, z);
                            if q <= z {
                                None
                            } else {
                                let q2 = if q < s.len() && s[q] == 's' {
                                    q + 1
                                } else {
                                    q
                                };
                                if q2 + 1 == s.len() && s[q2] == ')' {
                                    Some((s.subrange(a, w), Some(s.subrange(z, q))))
                                } else {
                                    None
                                }
                            }
                        }
                    }
                }
            }
        }
    }
}

/// Decides [`tool_header_box_spec`].
pub fn tool_header_box_match(s: &[char]) -> (r: Option<(Vec<char>, Option<Vec<char>>)>)
    ensures
        match r {
            Some(v) => tool_header_box_spec(s@) == Some((v.0@, v.1.deep_view())),
            None => tool_header_box_spec(s@) is None,
        },
{
    proof {
        reveal_strlit("(completed");
        reveal_strlit("in");
    }
    if s.len() == 0 || s[0] != '\u{23FA}' {
        return None;
    }
    let a = chars::scan(CharClass::Ws, s, 1);
    if a <= 1 {
        return None;
    }
    let w = chars::scan(CharClass::Word, s, a);
    if w <= a {
        return None;
    }
    if w == s.len() {
        return Some((chars::slice_range_vec(s, a, w), None));
    }
    let lit_completed = chars::str_chars("(completed");
    let lit_in = chars::str_chars("in");
    let x = chars::scan(CharClass::Ws, s, w);
    if x <= w || !chars::has_at(s, lit_completed.as_slice(), x) {
        return None;
    }
    let y = chars::scan(CharClass::Ws, s, x + 10);
    if y <= x + 10 || !chars::has_at(s, lit_in.as_slice(), y) {
        return None;
    }
    let z = chars::scan(CharClass::Ws, s, y + 2);
    if z <= y + 2 {
        return None;
    }
    let q = chars::scan(CharClass::NumDot, s, z);
    if q <= z {
        return None;
    }
    let q2 = if q < s.len() && s[q] == 's' {
        q + 1
    } else {
        q
    };
    if q2 < s.len() && s[q2] == ')' && q2 + 1 == s.len() {
        Some((chars::slice_range_vec(s, a, w), Some(chars::slice_range_vec(s, z, q))))
    } else {
        None
    }
}

/// An inline tool header: the response marker, whitespace, a word tool
/// name, an opening parenthesis directly after the name, an argument
/// run, and a closing parenthesis as the last character.  Yields the
/// name and the argument run, which may be empty.
pub open spec fn tool_header_inline_spec(s: Seq<char>) -> Option<(Seq<char>, Seq<char>)> {
    if s.len() == 0 || s[0] != marker_char() {
        None
    } else {
        let a = scan_spec(CharClass::Ws, s, 1);
        if a <= 1 {
            None
        } else {
            let w = scan_spec(CharClass::Word, s, a);
            if w <= a || w >= s.len() || s[w] != '(' {
                None
            } else if s[s.len() - 1] != ')' || s.len() - 1 < w + 1 {
                None
            } else {
                Some((s.subrange(a, w), s.subrange(w + 1, s.len() - 1)))
            }
        }
    }
}

/// Decides [`tool_header_inline_spec`].
pub fn tool_header_inline_match(s: &[char]) -> (r: Option<(Vec<char>, Vec<char>)>)
    ensures
        match r {
            Some(v) => tool_header_inline_spec(s@) == Some((v.0@, v.1@)),
            None => tool_header_inline_spec(s@) is None,
        },
{
    if s.len() == 0 || s[0] != '\u{23FA}' {
        return None;
    }
    let a = chars::scan(CharClass::Ws, s, 1);
    if a <= 1 {
        return None;
    }
    let w = chars::scan(CharClass::Word, s, a);
    if w <= a || w >= s.len() || s[w] != '(' {
        return None;
    }
    if s[s.len() - 1] != ')' || s.len() - 1 < w + 1 {
        return None;
    }
    Some((chars::slice_range_vec(s, a, w), chars::slice_range_vec(s, w + 1, s.len() - 1)))
}

/// The registry form of the inline header, which demands a non-empty
/// argument run.
pub open spec fn tool_header_inline_strict_spec(s: Seq<char>) -> Option<Seq<char>> {
    match tool_header_inline_spec(s) {
        Some(v) => if v.1.len() >= 1 {
            Some(v.0)
        } else {
            None
        },
        None => None,
    }
}

/// The duration capture of a box header holds only digits and dots.
pub proof fn lemma_box_duration_numdot(s: Seq<char>)
    requires
        tool_header_box_spec(s) is Some,
        tool_header_box_spec(s)->Some_0.1 is Some,
    ensures
        forall|k: int|
            0 <= k < tool_header_box_spec(s)->Some_0.1->Some_0.len() ==> ('0'
                <= tool_header_box_spec(s)->Some_0.1->Some_0[k] && tool_header_box_spec(
                s,
            )->Some_0.1->Some_0[k] <= '9') || tool_header_box_spec(s)->Some_0.1->Some_0[k] == '.',
{
    let a = scan_spec(CharClass::Ws, s, 1);
    lemma_scan_bounds(CharClass::Ws, s, 1);
    let w = scan_spec(CharClass::Word, s, a);
    lemma_scan_bounds(CharClass::Word, s, a);
    let x = scan_spec(CharClass::Ws, s, w);
    lemma_scan_bounds(CharClass::Ws, s, w);
    let y = scan_spec(CharClass::Ws, s, x + 10);
    lemma_scan_bounds(CharClass::Ws, s, x + 10);
    let z = scan_spec(CharClass::Ws, s, y + 2);
    lemma_scan_bounds(CharClass::Ws, s, y + 2);
    lemma_scan_bounds(CharClass::NumDot, s, z);
}

// ========== Error stack-trace lines ==========

/// A parenthesis position splitting a stack-trace source location:
/// after `at`, one whitespace character and at least one frame
/// character, which may itself be whitespace, come before it.
pub open spec fn paren_at(s: Seq<char>, a: int, e1: int, p: int) -> bool {
    a + 4 <= p && p + 2 <= e1 - 1 && 0 <= p < s.len() && s[p] == '('
}

/// A stack-trace line: leading whitespace, `at`, whitespace, a frame
/// description holding an opening parenthesis, then `:digits:digits)`
/// closing the line.
pub open spec fn stack_trace_spec(s: Seq<char>) -> bool {
    let a = scan_spec(CharClass::Ws, s, 0);
    1 <= a && contains_at(s, "at"@, a) && {
        let b = scan_spec(CharClass::Ws, s, a + 2);
        b > a + 2 && s.len() >= 1 && s[s.len() - 1] == ')' && {
            let e2 = chars::rscan_digits_spec(s, s.len() - 1);
            e2 < s.len() - 1 && e2 >= 1 && s[e2 - 1] == ':' && {
                let e1 = chars::rscan_digits_spec(s, e2 - 1);
                e1 < e2 - 1 && e1 >= 1 && s[e1 - 1] == ':' && (exists|p: int| paren_at(s, a, e1, p))
            }
        }
    }
}

/// Decides [`stack_trace_spec`].
pub fn stack_trace_match(s: &[char]) -> (r: bool)
    ensures
        r == stack_trace_spec(s@),
{
    proof {
        reveal_strlit("at");
    }
    let lit_at = chars::str_chars("at");
    let n = s.len();
    let a = chars::scan(CharClass::Ws, s, 0);
    if a < 1 || !chars::has_at(s, lit_at.as_slice(), a) {
        return false;
    }
    let b = chars::scan(CharClass::Ws, s, a + 2);
    if b <= a + 2 || n == 0 || s[n - 1] != ')' {
        return false;
    }
    let e2 = chars::rscan_digits(s, n - 1);
    if !(e2 < n - 1 && e2 >= 1 && s[e2 - 1] == ':') {
        return false;
    }
    let e1 = chars::rscan_digits(s, e2 - 1);
    if !(e1 < e2 - 1 && e1 >= 1 && s[e1 - 1] == ':') {
        return false;
    }
    proof {
        assert(stack_trace_spec(s@) <==> (exists|k: int|
            paren_at(s@, a as int, e1 as int, k)));
    }
    if e1 < 3 || a + 4 > e1 - 3 {
        proof {
            assert(forall|k: int| !paren_at(s@, a as int, e1 as int, k));
        }
        return false;
    }
    let mut p: usize = a + 4;
    while p <= e1 - 3
        invariant
            a + 4 <= p <= e1 - 2,
            3 <= e1 <= n == s@.len(),
            stack_trace_spec(s@) <==> (exists|k: int| paren_at(s@, a as int, e1 as int, k)),
            forall|k: int| a + 4 <= k < p ==> !paren_at(s@, a as int, e1 as int, k),
        decreases e1 - p,
    {
        if s[p] == '(' {
            proof {
                assert(paren_at(s@, a as int, e1 as int, p as int));
            }
            return true;
        }
        p = p + 1;
    }
    proof {
        assert(forall|k: int| !paren_at(s@, a as int, e1 as int, k));
    }
    false
}

// ========== Text-level confirmation predicates ==========

/// An options-style dialog head at position `p`: whitespace or cursor
/// glyphs, then `1.`, optional whitespace, and `yes` or `allow` in any
/// case.
pub open spec fn option_head_at(s: Seq<char>, p: int) -> bool
    recommends
        0 <= p <= s.len(),
{
    let j = scan_spec(CharClass::WsPrompt, s, p);
    contains_at(s, "1."@, j) && {
        let k = scan_spec(CharClass::Ws, s, j + 2);
        ci_at(s, "yes"@, k) || ci_at(s, "allow"@, k)
    }
}

/// Position `p` begins a line of `s`.
pub open spec fn line_start_at(s: Seq<char>, p: int) -> bool {
    p == 0 || s[p - 1] == '\n'
}

/// A line of the text opens an options-style confirmation.
pub open spec fn option_confirm_spec(s: Seq<char>) -> bool {
    exists|p: int| 0 <= p < s.len() && line_start_at(s, p) && option_head_at(s, p)
}

/// Decides [`option_head_at`] for an in-range position.
fn option_head_match(s: &[char], p: usize) -> (b: bool)
    requires
        p <= s@.len(),
    ensures
        b == option_head_at(s@, p as int),
{
    proof {
        reveal_strlit("1.");
        reveal_strlit("yes");
        reveal_strlit("allow");
    }
    let lit_one = chars::str_chars("1.");
    let lit_yes = chars::str_chars("yes");
    let lit_allow = chars::str_chars("allow");
    let n = s.len();
    let j = chars::scan(CharClass::WsPrompt, s, p);
    if !chars::has_at(s, lit_one.as_slice(), j) {
        return false;
    }
    let k = chars::scan(CharClass::Ws, s, j + 2);
    chars::ci_match_at(s, lit_yes.as_slice(), k) || chars::ci_match_at(s, lit_allow.as_slice(), k)
}

/// Decides [`option_confirm_spec`].
pub fn option_confirm_match(s: &[char]) -> (b: bool)
    ensures
        b == option_confirm_spec(s@),
{
    let n = s.len();
    let mut p: usize = 0;
    while p < n
        invariant
            n == s@.len(),
            p <= n,
            forall|k: int|
                0 <= k < p ==> !(line_start_at(s@, k) && option_head_at(s@, k)),
        decreases n - p,
    {
        if (p == 0 || s[p - 1] == '\n') && option_head_match(s, p) {
            return true;
        }
        p = p + 1;
    }
    false
}

/// The text holds a yes/no cue: `[y/n]`, `(yes/no)`, `allow?` or
/// `do you want to proceed`, each compared without regard to ASCII case.
pub open spec fn yes_no_confirm_spec(s: Seq<char>) -> bool {
    let lt = chars::lower_seq(s);
    chars::contains_seq(lt, "[y/n]"@) || chars::contains_seq(lt, "(yes/no)"@)
        || chars::contains_seq(lt, "allow?"@) || chars::contains_seq(
        lt,
        "do you want to proceed"@,
    )
}

/// Decides [`yes_no_confirm_spec`].
pub fn yes_no_confirm_match(s: &[char]) -> (b: bool)
    ensures
        b == yes_no_confirm_spec(s@),
{
    let lt = chars::lower_chars(s);
    let l1 = chars::str_chars("[y/n]");
    let l2 = chars::str_chars("(yes/no)");
    let l3 = chars::str_chars("allow?");
    let l4 = chars::str_chars("do you want to proceed");
    chars::contains_chars(lt.as_slice(), l1.as_slice()) || chars::contains_chars(
        lt.as_slice(),
        l2.as_slice(),
    ) || chars::contains_chars(lt.as_slice(), l3.as_slice()) || chars::contains_chars(
        lt.as_slice(),
        l4.as_slice(),
    )
}

/// A bracketed yes/no cue begins at `q`: `[y/n]` or `(yes/no)` in any
/// case.
pub open spec fn yn_lit_at(s: Seq<char>, q: int) -> bool {
    ci_at(s, "[y/n]"@, q) || ci_at(s, "(yes/no)"@, q)
}

/// The first position at or after `i` where a bracketed yes/no cue
/// begins, or the length of `s`.
pub open spec fn first_yn_pos(s: Seq<char>, i: int) -> int
    decreases s.len() - i,
    when 0 <= i <= s.len()
{
    if i >= s.len() {
        s.len() as int
    } else if yn_lit_at(s, i) {
        i
    } else {
        first_yn_pos(s, i + 1)
    }
}

/// A line with its first bracketed yes/no cue removed, together with
/// the whitespace run before the cue and everything after it.  A line
/// without a cue is unchanged.
pub open spec fn yn_cleanup_spec(s: Seq<char>) -> Seq<char> {
    let q = first_yn_pos(s, 0);
    if q < s.len() {
        s.subrange(0, rscan_ws_spec(s, q))
    } else {
        s
    }
}

/// Decides [`yn_cleanup_spec`].
pub fn yn_cleanup(s: &[char]) -> (r: Vec<char>)
    ensures
        r@ == yn_cleanup_spec(s@),
{
    proof {
        reveal_strlit("[y/n]");
        reveal_strlit("(yes/no)");
    }
    let l1 = chars::str_chars("[y/n]");
    let l2 = chars::str_chars("(yes/no)");
    let n = s.len();
    let mut q: usize = 0;
    while q < n
        invariant
            n == s@.len(),
            q <= n,
            l1@ == "[y/n]"@,
            l2@ == "(yes/no)"@,
            first_yn_pos(s@, 0) == first_yn_pos(s@, q as int),
        decreases n - q,
    {
        if chars::ci_match_at(s, l1.as_slice(), q) || chars::ci_match_at(s, l2.as_slice(), q) {
            proof {
                assert(yn_lit_at(s@, q as int));
                assert(first_yn_pos(s@, q as int) == q);
            }
            let m = chars::rscan_ws(s, q);
            return chars::slice_range_vec(s, 0, m);
        }
        proof {
            assert(!yn_lit_at(s@, q as int));
            assert(first_yn_pos(s@, q as int) == first_yn_pos(s@, q + 1));
        }
        q = q + 1;
    }
    chars::slice_range_vec(s, 0, n)
}

// ========== Tool description inside a confirmation ==========

/// The remainder of a tool description after the server name ending at
/// `e`: optional whitespace, a hyphen, optional whitespace, a word tool
/// name, optional whitespace, a parenthesized parameter run.  Yields the
/// bounds of the name and of the parameter run.
pub open spec fn ti_rest(s: Seq<char>, e: int) -> Option<(int, int, int, int)>
    recommends
        0 <= e <= s.len(),
{
    let w1 = scan_spec(CharClass::Ws, s, e);
    if w1 >= s.len() || s[w1] != '-' {
        None
    } else {
        let t1 = scan_spec(CharClass::Ws, s, w1 + 1);
        let t2 = scan_spec(CharClass::Word, s, t1);
        if t2 <= t1 {
            None
        } else {
            let w3 = scan_spec(CharClass::Ws, s, t2);
            if w3 >= s.len() || s[w3] != '(' {
                None
            } else {
                let p2 = scan_spec(CharClass::NotParen, s, w3 + 1);
                if p2 >= s.len() {
                    None
                } else {
                    Some((t1, t2, w3 + 1, p2))
                }
            }
        }
    }
}

/// The longest server-name end `e` at or below `e0` whose remainder
/// matches [`ti_rest`], preferring longer names as the grammar does.
pub open spec fn ti_try(s: Seq<char>, i: int, e: int) -> Option<(int, (int, int, int, int))>
    decreases e - i,
    when i <= e
{
    if e <= i {
        None
    } else {
        match ti_rest(s, e) {
            Some(r) => Some((e, r)),
            None => ti_try(s, i, e - 1),
        }
    }
}

/// A tool description starting at `i`: a non-empty server name of
/// non-whitespace characters, then [`ti_rest`].
pub open spec fn ti_at(s: Seq<char>, i: int) -> Option<(int, (int, int, int, int))> {
    if 0 <= i < s.len() && !is_ws(s[i]) {
        ti_try(s, i, scan_spec(CharClass::NonWs, s, i))
    } else {
        None
    }
}

/// The first tool description at or after `i`.
pub open spec fn ti_first(s: Seq<char>, i: int) -> Option<(int, int, (int, int, int, int))>
    decreases s.len() - i,
    when 0 <= i <= s.len()
{
    if i >= s.len() {
        None
    } else {
        match ti_at(s, i) {
            Some(r) => Some((i, r.0, r.1)),
            None => ti_first(s, i + 1),
        }
    }
}

/// The first tool description of the text: server name, tool name,
/// and raw parameter run.
pub open spec fn tool_info_spec(s: Seq<char>) -> Option<(Seq<char>, Seq<char>, Seq<char>)> {
    match ti_first(s, 0) {
        Some(m) => Some(
            (s.subrange(m.0, m.1), s.subrange(m.2.0, m.2.1), s.subrange(m.2.2, m.2.3)),
        ),
        None => None,
    }
}

/// Decides [`ti_rest`].
fn ti_rest_match(s: &[char], e: usize) -> (r: Option<(usize, usize, usize, usize)>)
    requires
        e <= s@.len(),
    ensures
        match r {
            Some(v) => ti_rest(s@, e as int) == Some(
                (v.0 as int, v.1 as int, v.2 as int, v.3 as int),
            ) && v.0 <= v.1 <= s@.len() && v.2 <= v.3 <= s@.len(),
            None => ti_rest(s@, e as int) is None,
        },
{
    let w1 = chars::scan(CharClass::Ws, s, e);
    if w1 >= s.len() || s[w1] != '-' {
        return None;
    }
    let t1 = chars::scan(CharClass::Ws, s, w1 + 1);
    let t2 = chars::scan(CharClass::Word, s, t1);
    if t2 <= t1 {
        return None;
    }
    let w3 = chars::scan(CharClass::Ws, s, t2);
    if w3 >= s.len() || s[w3] != '(' {
        return None;
    }
    let p2 = chars::scan(CharClass::NotParen, s, w3 + 1);
    if p2 >= s.len() {
        return None;
    }
    Some((t1, t2, w3 + 1, p2))
}

/// Decides [`tool_info_spec`], yielding server, tool name, and raw
/// parameter run.
pub fn tool_info_match(s: &[char]) -> (r: Option<(Vec<char>, Vec<char>, Vec<char>)>)
    ensures
        match r {
            Some(v) => tool_info_spec(s@) == Some((v.0@, v.1@, v.2@)),
            None => tool_info_spec(s@) is None,
        },
{
    let n = s.len();
    let mut i: usize = 0;
    while i < n
        invariant
            n == s@.len(),
            i <= n,
            ti_first(s@, 0) == ti_first(s@, i as int),
        decreases n - i,
    {
        if !chars::ws_char(s[i]) {
            let e0 = chars::scan(CharClass::NonWs, s, i);
            let mut e: usize = e0;
            while e > i
                invariant
                    i < n == s@.len(),
                    i <= e <= e0 <= n,
                    !is_ws(s@[i as int]),
                    e0 == scan_spec(CharClass::NonWs, s@, i as int),
                    ti_first(s@, 0) == ti_first(s@, i as int),
                    ti_try(s@, i as int, e0 as int) == ti_try(s@, i as int, e as int),
                decreases e,
            {
                match ti_rest_match(s, e) {
                    Some(v) => {
                        proof {
                            assert(ti_try(s@, i as int, e as int) == Some(
                                (e as int, (v.0 as int, v.1 as int, v.2 as int, v.3 as int)),
                            ));
                            assert(ti_first(s@, i as int) == Some(
                                (
                                    i as int,
                                    e as int,
                                    (v.0 as int, v.1 as int, v.2 as int, v.3 as int),
                                ),
                            ));
                        }
                        return Some(
                            (
                                chars::slice_range_vec(s, i, e),
                                chars::slice_range_vec(s, v.0, v.1),
                                chars::slice_range_vec(s, v.2, v.3),
                            ),
                        );
                    },
                    None => {
                        proof {
                            assert(ti_try(s@, i as int, e as int) == ti_try(
                                s@,
                                i as int,
                                e - 1 as int,
                            ));
                        }
                        e = e - 1;
                    },
                }
            }
            proof {
                assert(ti_try(s@, i as int, e as int) is None);
                assert(ti_at(s@, i as int) is None);
            }
        }
        proof {
            assert(ti_first(s@, i as int) == ti_first(s@, i + 1 as int));
        }
        i = i + 1;
    }
    None
}

// ========== Key/value parameter runs ==========

/// `v` with one pair of wrapping double quotes removed, when both are
/// present; otherwise unchanged.
pub open spec fn strip_quotes_spec(v: Seq<char>) -> Seq<char> {
    if v.len() >= 2 && v[0] == '"' && v[v.len() - 1] == '"' {
        v.subrange(1, v.len() - 1)
    } else {
        v
    }
}

/// Decides [`strip_quotes_spec`].
pub fn strip_quotes(v: &[char]) -> (r: Vec<char>)
    ensures
        r@ == strip_quotes_spec(v@),
{
    if v.len() >= 2 && v[0] == '"' && v[v.len() - 1] == '"' {
        chars::slice_range_vec(v, 1, v.len() - 1)
    } else {
        chars::slice_range_vec(v, 0, v.len())
    }
}

/// The value run starting at `v`: a double-quoted run when a closing
/// quote exists, else a non-empty run free of commas and closing
/// parentheses.  Yields the end of the value (exclusive), which is also
/// where scanning resumes.
pub open spec fn param_value_at(s: Seq<char>, v: int) -> Option<int>
    recommends
        0 <= v <= s.len(),
{
    if v < s.len() && s[v] == '"' && scan_spec(CharClass::NotQuote, s, v + 1) < s.len() {
        Some(scan_spec(CharClass::NotQuote, s, v + 1) + 1)
    } else {
        let w = scan_spec(CharClass::NotCommaParen, s, v);
        if w <= v {
            None
        } else {
            Some(w)
        }
    }
}

/// The key/value pairs of a parameter run from position `i` on: a pair
/// begins at a word-character run directly followed by a colon; its
/// value follows optional whitespace per [`param_value_at`] and is
/// stored with wrapping quotes stripped.  Scanning resumes after each
/// value.
pub open spec fn param_pairs_spec(s: Seq<char>, i: int) -> Seq<(Seq<char>, Seq<char>)>
    decreases s.len() - i,
    when 0 <= i <= s.len()
    via param_pairs_spec_dec
{
    if i >= s.len() {
        Seq::empty()
    } else {
        let k = scan_spec(CharClass::Word, s, i);
        if in_class(CharClass::Word, s[i]) && k < s.len() && s[k] == ':' {
            let v = scan_spec(CharClass::Ws, s, k + 1);
            match param_value_at(s, v) {
                Some(ve) => seq![
                    (s.subrange(i, k), strip_quotes_spec(s.subrange(v, ve))),
                ] + param_pairs_spec(s, ve),
                None => param_pairs_spec(s, i + 1),
            }
        } else {
            param_pairs_spec(s, i + 1)
        }
    }
}

#[via_fn]
proof fn param_pairs_spec_dec(s: Seq<char>, i: int) {
    if i < s.len() {
        let k = scan_spec(CharClass::Word, s, i);
        lemma_scan_bounds(CharClass::Word, s, i);
        if in_class(CharClass::Word, s[i]) && k < s.len() && s[k] == ':' {
            let v = scan_spec(CharClass::Ws, s, k + 1);
            lemma_scan_bounds(CharClass::Ws, s, k + 1);
            if v < s.len() {
                lemma_scan_bounds(CharClass::NotQuote, s, v + 1);
            }
            lemma_scan_bounds(CharClass::NotCommaParen, s, v);
        }
    }
}

/// Decides [`param_pairs_spec`] from the start of the run.
pub fn param_pairs_match(s: &[char]) -> (r: Vec<(Vec<char>, Vec<char>)>)
    ensures
        Seq::new(r@.len(), |x: int| (r@[x].0@, r@[x].1@)) == param_pairs_spec(s@, 0),
{
    let n = s.len();
    let mut out: Vec<(Vec<char>, Vec<char>)> = Vec::new();
    let mut i: usize = 0;
    while i < n
        invariant
            n == s@.len(),
            i <= n,
            Seq::new(out@.len(), |x: int| (out@[x].0@, out@[x].1@)) + param_pairs_spec(
                s@,
                i as int,
            ) == param_pairs_spec(s@, 0),
        decreases n - i,
    {
        let ghost prev = Seq::new(out@.len(), |x: int| (out@[x].0@, out@[x].1@));
        let k = chars::scan(CharClass::Word, s, i);
        if chars::class_char(CharClass::Word, s[i]) && k < n && s[k] == ':' {
            let v = chars::scan(CharClass::Ws, s, k + 1);
            let ve: usize = if v < n && s[v] == '"' {
                let u = chars::scan(CharClass::NotQuote, s, v + 1);
                if u < n {
                    u + 1
                } else {
                    let w = chars::scan(CharClass::NotCommaParen, s, v);
                    if w <= v {
                        0
                    } else {
                        w
                    }
                }
            } else {
                let w = chars::scan(CharClass::NotCommaParen, s, v);
                if w <= v {
                    0
                } else {
                    w
                }
            };
            if ve > 0 {
                proof {
                    assert(param_value_at(s@, v as int) == Some(ve as int));
                }
                let key = chars::slice_range_vec(s, i, k);
                let raw = chars::slice_range_vec(s, v, ve);
                let val = strip_quotes(raw.as_slice());
                out.push((key, val));
                proof {
                    assert(Seq::new(out@.len(), |x: int| (out@[x].0@, out@[x].1@)) =~= prev
                        + seq![(s@.subrange(i as int, k as int), strip_quotes_spec(s@.subrange(v as int, ve as int)))]);
                }
                i = ve;
                continue ;
            } else {
                proof {
                    assert(param_value_at(s@, v as int) is None);
                }
            }
        }
        i = i + 1;
    }
    proof {
        assert(Seq::new(out@.len(), |x: int| (out@[x].0@, out@[x].1@)) + Seq::<(
            Seq<char>,
            Seq<char>,
        )>::empty() =~= Seq::new(out@.len(), |x: int| (out@[x].0@, out@[x].1@)));
    }
    out
}

} // verus!
