//! The window-title classifier.
//!
//! Extracts a task name and a processing flag from the terminal title.
//! A spinner-prefixed title is read with high confidence; a plain title
//! becomes a task name alone with lower confidence; an empty title gives
//! no result.

use vstd::prelude::*;
use crate::chars::{self, spec_trim};
use crate::rules;
use crate::types::{AgentTitle, AgentTitleV, ParserMeta, TitleParseResult,
    TitleParserContext};

verus! {

/// Confidence of a spinner-prefixed title, in hundredths.
pub open spec fn spinner_title_confidence() -> u32 {
    95
}

/// Confidence of a plain title, in hundredths.
pub open spec fn plain_title_confidence() -> u32 {
    70
}

/// Whether a spinner glyph signals active processing: every braille
/// glyph does, and every other spinner glyph except the six-pointed
/// idle glyph.
pub open spec fn is_processing_spinner_spec(c: char) -> bool {
    rules::is_braille_spinner(c) || (rules::is_status_spinner(c) && c != '\u{2733}')
}

/// The decoded title and its confidence.  A spinner prefix yields the
/// glyph, the trimmed rest as task name when non-empty, and the glyph's
/// processing flag; a plain non-empty title yields only its trimmed text
/// as task name; an empty title yields nothing.
pub open spec fn title_parse_spec(title: Seq<char>) -> Option<(AgentTitleV, u32)> {
    if title.len() == 0 {
        None
    } else {
        match rules::title_head_spec(title) {
            Some(m) => {
                let task = spec_trim(m.1);
                Some(
                    (
                        AgentTitleV {
                            task_name: if task.len() == 0 {
                                None
                            } else {
                                Some(task)
                            },
                            spinner_state: seq![m.0],
                            is_processing: is_processing_spinner_spec(m.0),
                        },
                        spinner_title_confidence(),
                    ),
                )
            },
            None => {
                let t = spec_trim(title);
                Some(
                    (
                        AgentTitleV {
                            task_name: if t.len() == 0 {
                                None
                            } else {
                                Some(t)
                            },
                            spinner_state: Seq::empty(),
                            is_processing: false,
                        },
                        plain_title_confidence(),
                    ),
                )
            },
        }
    }
}

/// The twelve braille spinner glyphs, in their fixed order.
pub fn braille_spinners() -> (r: Vec<char>)
    ensures
        r@ == seq![
            '\u{2810}', '\u{2802}', '\u{2808}', '\u{2801}', '\u{2809}', '\u{2803}',
            '\u{280B}', '\u{2813}', '\u{2812}', '\u{2816}', '\u{2826}', '\u{2824}',
        ],
        forall|k: int| 0 <= k < r@.len() ==> rules::is_braille_spinner(r@[k]),
        r@.len() == 12,
{
    let r = vec![
        '\u{2810}', '\u{2802}', '\u{2808}', '\u{2801}', '\u{2809}', '\u{2803}', '\u{280B}',
        '\u{2813}', '\u{2812}', '\u{2816}', '\u{2826}', '\u{2824}',
    ];
    proof {
        assert(r@ =~= seq![
            '\u{2810}', '\u{2802}', '\u{2808}', '\u{2801}', '\u{2809}', '\u{2803}', '\u{280B}',
            '\u{2813}', '\u{2812}', '\u{2816}', '\u{2826}', '\u{2824}',
        ]);
    }
    r
}

/// The six other spinner glyphs, in their fixed order.
pub fn other_spinners() -> (r: Vec<char>)
    ensures
        r@ == seq!['\u{2733}', '\u{273B}', '\u{273D}', '\u{2736}', '\u{2722}', '\u{B7}'],
        forall|k: int| 0 <= k < r@.len() ==> rules::is_status_spinner(r@[k]),
        r@.len() == 6,
{
    let r = vec!['\u{2733}', '\u{273B}', '\u{273D}', '\u{2736}', '\u{2722}', '\u{B7}'];
    proof {
        assert(r@ =~= seq!['\u{2733}', '\u{273B}', '\u{273D}', '\u{2736}', '\u{2722}', '\u{B7}']);
    }
    r
}

/// All eighteen spinner glyphs: the braille set then the other set.
pub fn all_spinners() -> (r: Vec<char>)
    ensures
        r@ == seq![
            '\u{2810}', '\u{2802}', '\u{2808}', '\u{2801}', '\u{2809}', '\u{2803}',
            '\u{280B}', '\u{2813}', '\u{2812}', '\u{2816}', '\u{2826}', '\u{2824}',
        ] + seq!['\u{2733}', '\u{273B}', '\u{273D}', '\u{2736}', '\u{2722}', '\u{B7}'],
        r@.len() == 18,
{
    let mut r = braille_spinners();
    let mut rest = other_spinners();
    r.append(&mut rest);
    r
}

/// The window-title classifier.
pub struct AgentTitleParser {
    meta: ParserMeta,
}

impl AgentTitleParser {
    /// A new title classifier.
    pub fn new() -> Self {
        Self {
            meta: ParserMeta {
                name: String::from_str("agent-title"),
                description: String::from_str("Parses the terminal window title"),
                priority: 85,
                version: String::from_str("1.0.0"),
            },
        }
    }

    /// The classifier's metadata.
    pub fn meta(&self) -> &ParserMeta {
        &self.meta
    }

    /// Decides [`is_processing_spinner_spec`].
    pub fn is_processing_spinner(spinner: char) -> (b: bool)
        ensures
            b == is_processing_spinner_spec(spinner),
    {
        rules::braille_spinner_char(spinner) || (rules::status_spinner_char(spinner) && spinner
            != '\u{2733}')
    }

    /// A result with the given fields.
    pub fn create_output(
        &self,
        output_type: &str,
        raw: &str,
        data: AgentTitle,
        confidence: u32,
    ) -> (r: TitleParseResult)
        ensures
            r.output_type@ == output_type@,
            r.raw@ == raw@,
            r.data@ == data@,
            r.confidence == confidence,
    {
        TitleParseResult {
            output_type: String::from_str(output_type),
            raw: String::from_str(raw),
            data,
            confidence,
        }
    }

    /// Whether the title is non-empty.
    pub fn can_parse(&self, context: &TitleParserContext) -> (b: bool)
        ensures
            b == (context.terminal_title@.len() != 0),
    {
        !context.terminal_title.as_str().is_empty()
    }

    /// The decoded title per [`title_parse_spec`].
    pub fn parse(&self, context: &TitleParserContext) -> (r: Option<TitleParseResult>)
        ensures
            match r {
                Some(v) => title_parse_spec(context.terminal_title@) == Some((v.data@, v.confidence))
                    && v.raw@ == context.terminal_title@ && v.output_type@ == "agent-title"@,
                None => title_parse_spec(context.terminal_title@) is None,
            },
    {
        let title = &context.terminal_title;
        if title.as_str().is_empty() {
            return None;
        }
        let tc = chars::str_chars(title.as_str());
        match rules::title_head_match(tc.as_slice()) {
            Some(m) => {
                let task = chars::trim_chars(m.1.as_slice());
                let glyph_vec = vec![m.0];
                proof {
                    assert(glyph_vec@ =~= seq![m.0]);
                }
                let data = AgentTitle {
                    task_name: if task.len() == 0 {
                        None
                    } else {
                        Some(chars::chars_string(task.as_slice()))
                    },
                    spinner_state: chars::chars_string(glyph_vec.as_slice()),
                    is_processing: Self::is_processing_spinner(m.0),
                };
                Some(self.create_output("agent-title", title.as_str(), data, 95))
            },
            None => {
                let t = chars::trim_chars(tc.as_slice());
                let data = AgentTitle {
                    task_name: if t.len() == 0 {
                        None
                    } else {
                        Some(chars::chars_string(t.as_slice()))
                    },
                    spinner_state: String::new(),
                    is_processing: false,
                };
                Some(self.create_output("agent-title", title.as_str(), data, 70))
            },
        }
    }
}

impl Default for AgentTitleParser {
    /// Same as [`AgentTitleParser::new`].
    fn default() -> Self {
        Self::new()
    }
}

} // verus!
