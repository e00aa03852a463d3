//! The status-bar classifier.
//!
//! Extracts a structured record from a single status line: spinner
//! glyph, status text, phase, and interruptibility.  A line matches when
//! it trims to the status grammar of [`rules::status_spec`].

use vstd::prelude::*;
use crate::chars::{self, contains_seq, lower_seq, spec_trim};
use crate::rules;
use crate::types::{AgentStatus, AgentStatusV, ParserContext, ParserMeta, StatusPhase};

verus! {

/// The phase of a matched status line: an explicit `thinking` or `tool`
/// hint word wins; else the word `tool` anywhere in the status text,
/// compared without regard to ASCII case; else thinking when the
/// spinner is a known glyph; else unknown.
pub open spec fn determine_phase_spec(
    spinner: Seq<char>,
    status_text: Seq<char>,
    hint: Option<Seq<char>>,
) -> StatusPhase {
    if hint == Some("thinking"@) {
        StatusPhase::Thinking
    } else if hint == Some("tool"@) {
        StatusPhase::ToolRunning
    } else if contains_seq(lower_seq(status_text), "tool"@) {
        StatusPhase::ToolRunning
    } else if exists|k: int| 0 <= k < spinner.len() && rules::is_status_spinner(spinner[k]) {
        StatusPhase::Thinking
    } else {
        StatusPhase::Unknown
    }
}

/// The first matching status line of the context, scanning in order.
pub open spec fn first_status(lines: Seq<Seq<char>>, i: int) -> Option<
    (char, Seq<char>, Option<Seq<char>>),
>
    decreases lines.len() - i,
    when 0 <= i <= lines.len()
{
    if i >= lines.len() {
        None
    } else {
        match rules::status_spec(spec_trim(lines[i])) {
            Some(m) => Some(m),
            None => first_status(lines, i + 1),
        }
    }
}

/// The status record of a context: the first matching line decoded,
/// always interruptible since matching demands the interrupt marker.
pub open spec fn status_parse_spec(lines: Seq<Seq<char>>) -> Option<AgentStatusV> {
    match first_status(lines, 0) {
        Some(m) => Some(
            AgentStatusV {
                spinner: seq![m.0],
                status_text: m.1,
                phase: determine_phase_spec(seq![m.0], m.1, m.2),
                interruptible: true,
            },
        ),
        None => None,
    }
}

/// The six status-bar spinner glyphs, in their fixed order.
pub fn spinner_chars() -> (r: Vec<char>)
    ensures
        r@ =~= seq!['\u{B7}', '\u{273B}', '\u{273D}', '\u{2736}', '\u{2733}', '\u{2722}'],
        forall|k: int| 0 <= k < r@.len() ==> rules::is_status_spinner(r@[k]),
{
    let r = vec!['\u{B7}', '\u{273B}', '\u{273D}', '\u{2736}', '\u{2733}', '\u{2722}'];
    proof {
        assert(r@ =~= seq!['\u{B7}', '\u{273B}', '\u{273D}', '\u{2736}', '\u{2733}', '\u{2722}']);
    }
    r
}

/// The status-bar classifier.
pub struct AgentStatusParser {
    meta: ParserMeta,
}

impl AgentStatusParser {
    /// A new status-bar classifier.
    pub fn new() -> Self {
        Self {
            meta: ParserMeta {
                name: String::from_str("agent-status"),
                description: String::from_str("Parses the status bar (spinner and status text)"),
                priority: 95,
                version: String::from_str("1.0.0"),
            },
        }
    }

    /// The classifier's metadata.
    pub fn meta(&self) -> &ParserMeta {
        &self.meta
    }

    /// Decides [`determine_phase_spec`].
    pub fn determine_phase(
        &self,
        spinner: &str,
        status_text: &str,
        phase_hint: Option<&str>,
    ) -> (r: StatusPhase)
        ensures
            r == determine_phase_spec(spinner@, status_text@, phase_hint.deep_view()),
    {
        let lit_thinking = chars::str_chars("thinking");
        let lit_tool = chars::str_chars("tool");
        match phase_hint {
            Some(h) => {
                let hc = chars::str_chars(h);
                if chars::chars_eq(hc.as_slice(), lit_thinking.as_slice()) {
                    return StatusPhase::Thinking;
                }
                if chars::chars_eq(hc.as_slice(), lit_tool.as_slice()) {
                    return StatusPhase::ToolRunning;
                }
            },
            None => {},
        }
        let st = chars::str_chars(status_text);
        let low = chars::lower_chars(st.as_slice());
        if chars::contains_chars(low.as_slice(), lit_tool.as_slice()) {
            return StatusPhase::ToolRunning;
        }
        let sp = chars::str_chars(spinner);
        let mut k: usize = 0;
        while k < sp.len()
            invariant
                sp@ == spinner@,
                k <= spinner@.len(),
                phase_hint.deep_view() != Some("thinking"@),
                phase_hint.deep_view() != Some("tool"@),
                !contains_seq(lower_seq(status_text@), "tool"@),
                forall|j: int| 0 <= j < k ==> !rules::is_status_spinner(spinner@[j]),
            decreases spinner@.len() - k,
        {
            if rules::status_spinner_char(sp[k]) {
                return StatusPhase::Thinking;
            }
            k = k + 1;
        }
        StatusPhase::Unknown
    }

    /// Whether some line trims to a status line.
    pub fn can_parse(&self, context: &ParserContext) -> (b: bool)
        ensures
            b == (status_parse_spec(context@.lines) is Some),
    {
        self.parse(context).is_some()
    }

    /// The decoded status record per [`status_parse_spec`].
    pub fn parse(&self, context: &ParserContext) -> (r: Option<AgentStatus>)
        ensures
            match r {
                Some(v) => status_parse_spec(context@.lines) == Some(v@),
                None => status_parse_spec(context@.lines) is None,
            },
    {
        let lines = &context.last_lines;
        let mut i: usize = 0;
        while i < lines.len()
            invariant
                i <= lines@.len(),
                context@.lines.len() == lines@.len(),
                forall|k: int| 0 <= k < lines@.len() ==> context@.lines[k] == lines@[k]@,
                first_status(context@.lines, 0) == first_status(context@.lines, i as int),
            decreases lines@.len() - i,
        {
            let lc = chars::str_chars(lines[i].as_str());
            let t = chars::trim_chars(lc.as_slice());
            match rules::status_match(t.as_slice()) {
                Some(m) => {
                    let ghost mv = (m.0, m.1@, m.2.deep_view());
                    proof {
                        assert(first_status(context@.lines, i as int) == Some(mv));
                    }
                    let spinner_vec = vec![m.0];
                    proof {
                        assert(spinner_vec@ =~= seq![m.0]);
                    }
                    let spinner = chars::chars_string(spinner_vec.as_slice());
                    let status_text = chars::chars_string(m.1.as_slice());
                    let phase = match m.2 {
                        Some(h) => {
                            proof {
                                assert(h.deep_view() =~= h@);
                            }
                            let hs = chars::chars_string(h.as_slice());
                            self.determine_phase(
                                spinner.as_str(),
                                status_text.as_str(),
                                Some(hs.as_str()),
                            )
                        },
                        None => self.determine_phase(spinner.as_str(), status_text.as_str(), None),
                    };
                    let result = AgentStatus { spinner, status_text, phase, interruptible: true };
                    proof {
                        assert(result@ =~= (AgentStatusV {
                            spinner: seq![mv.0],
                            status_text: mv.1,
                            phase: determine_phase_spec(seq![mv.0], mv.1, mv.2),
                            interruptible: true,
                        }));
                    }
                    return Some(result);
                },
                None => {},
            }
            i = i + 1;
        }
        None
    }
}

impl Default for AgentStatusParser {
    /// Same as [`AgentStatusParser::new`].
    fn default() -> Self {
        Self::new()
    }
}

} // verus!
