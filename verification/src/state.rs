//! The state classifier.
//!
//! Assigns one of six mutually exclusive activity states to a context,
//! by direct textual heuristics in a fixed priority order: startup trust
//! confirmation, confirmation dialogs, busy markers, prompts, errors.

use vstd::prelude::*;
use crate::chars::{self, contains_seq, spec_trim};
use crate::rules;
use crate::types::{
    ConfirmType, ParserContext, ParserContextV, ParserMeta, State, StateDetectionResult,
    StateMeta, join_lines,
};

verus! {

/// The text shows a running/busy marker.
pub open spec fn running_spec(text: Seq<char>) -> bool {
    contains_seq(text, "esc to interrupt"@)
}

/// The text opens an options-style confirmation and offers to cancel.
pub open spec fn option_confirm_state_spec(text: Seq<char>) -> bool {
    rules::option_confirm_spec(text) && contains_seq(text, "Esc to cancel"@)
}

/// A trimmed line begins with a prompt cursor glyph.
pub open spec fn prompt_head_spec(s: Seq<char>) -> bool {
    spec_trim(s).len() >= 1 && rules::is_prompt_char(spec_trim(s)[0])
}

/// Some line of the context shows a prompt.
pub open spec fn has_prompt_spec(lines: Seq<Seq<char>>) -> bool {
    exists|k: int| 0 <= k < lines.len() && prompt_head_spec(lines[k])
}

/// The text shows a tool-activity signal: a literal tool marker, or the
/// response marker together with a parameter bar.
pub open spec fn tool_signal_spec(text: Seq<char>) -> bool {
    contains_seq(text, "Tool:"@) || (contains_seq(text, "\u{23FA}"@) && contains_seq(
        text,
        "\u{2502}"@,
    ))
}

/// The text shows an error signal.
pub open spec fn error_signal_spec(text: Seq<char>) -> bool {
    contains_seq(text, "Error:"@) || contains_seq(text, "error:"@) || contains_seq(
        text,
        "\u{2716}"@,
    )
}

/// The state decision, in priority order over the joined text.
pub open spec fn detect_state_spec(ctx: ParserContextV) -> Option<StateDetectionResult> {
    let text = join_lines(ctx.lines);
    if ctx.state == Some(State::Starting) && contains_seq(text, "Yes, proceed"@) && contains_seq(
        text,
        "Enter to confirm"@,
    ) {
        Some(
            StateDetectionResult {
                state: State::Starting,
                confidence: 95,
                meta: Some(StateMeta { needs_trust_confirm: Some(true), confirm_type: None }),
            },
        )
    } else if option_confirm_state_spec(text) || rules::yes_no_confirm_spec(text) {
        Some(
            StateDetectionResult {
                state: State::Confirming,
                confidence: 95,
                meta: Some(
                    StateMeta {
                        needs_trust_confirm: None,
                        confirm_type: Some(
                            if option_confirm_state_spec(text) {
                                ConfirmType::Options
                            } else {
                                ConfirmType::YesNo
                            },
                        ),
                    },
                ),
            },
        )
    } else if running_spec(text) {
        if tool_signal_spec(text) {
            Some(StateDetectionResult { state: State::ToolRunning, confidence: 85, meta: None })
        } else {
            Some(StateDetectionResult { state: State::Thinking, confidence: 90, meta: None })
        }
    } else if has_prompt_spec(ctx.lines) {
        Some(StateDetectionResult { state: State::Idle, confidence: 90, meta: None })
    } else if error_signal_spec(text) {
        Some(StateDetectionResult { state: State::Error, confidence: 70, meta: None })
    } else {
        None
    }
}

/// The state classifier.
pub struct AgentStateParser {
    meta: ParserMeta,
}

impl AgentStateParser {
    /// A new state classifier.
    pub fn new() -> Self {
        Self {
            meta: ParserMeta {
                name: String::from_str("agent-state"),
                description: String::from_str("Detects the CLI activity state"),
                priority: 100,
                version: String::from_str("1.0.0"),
            },
        }
    }

    /// The classifier's metadata.
    pub fn meta(&self) -> &ParserMeta {
        &self.meta
    }

    /// Whether the text shows the busy marker.
    pub fn is_running(&self, text: &str) -> (b: bool)
        ensures
            b == running_spec(text@),
    {
        let tc = chars::str_chars(text);
        let lit = chars::str_chars("esc to interrupt");
        chars::contains_chars(tc.as_slice(), lit.as_slice())
    }

    /// Whether the text opens an options-style confirmation.
    pub fn is_option_confirm(&self, text: &str) -> (b: bool)
        ensures
            b == option_confirm_state_spec(text@),
    {
        let tc = chars::str_chars(text);
        let lit = chars::str_chars("Esc to cancel");
        rules::option_confirm_match(tc.as_slice()) && chars::contains_chars(
            tc.as_slice(),
            lit.as_slice(),
        )
    }

    /// Whether the text shows a yes/no confirmation cue.
    pub fn is_yes_no_confirm(&self, text: &str) -> (b: bool)
        ensures
            b == rules::yes_no_confirm_spec(text@),
    {
        let tc = chars::str_chars(text);
        rules::yes_no_confirm_match(tc.as_slice())
    }

    /// Whether any line, trimmed, begins with a prompt cursor glyph.
    pub fn has_prompt(&self, lines: &Vec<String>) -> (b: bool)
        ensures
            b == has_prompt_spec(lines.deep_view()),
    {
        let mut i: usize = 0;
        while i < lines.len()
            invariant
                i <= lines@.len(),
                lines.deep_view().len() == lines@.len(),
                forall|k: int| 0 <= k < lines@.len() ==> lines.deep_view()[k] == lines@[k]@,
                forall|k: int| 0 <= k < i ==> !prompt_head_spec(lines.deep_view()[k]),
            decreases lines@.len() - i,
        {
            let lc = chars::str_chars(lines[i].as_str());
            let t = chars::trim_chars(lc.as_slice());
            if t.len() > 0 && rules::prompt_char(t[0]) {
                proof {
                    assert(prompt_head_spec(lines.deep_view()[i as int]));
                }
                return true;
            }
            i = i + 1;
        }
        false
    }

    /// Detects the activity state per [`detect_state_spec`]; nothing
    /// when no heuristic gives a confident interpretation.
    pub fn detect_state(&self, context: &ParserContext) -> (r: Option<StateDetectionResult>)
        ensures
            r == detect_state_spec(context@),
    {
        let text = context.text();
        let tc = chars::str_chars(text.as_str());
        let ts = tc.as_slice();

        if matches!(context.current_state, Some(State::Starting)) {
            let lit_proceed = chars::str_chars("Yes, proceed");
            let lit_enter = chars::str_chars("Enter to confirm");
            if chars::contains_chars(ts, lit_proceed.as_slice()) && chars::contains_chars(
                ts,
                lit_enter.as_slice(),
            ) {
                return Some(
                    StateDetectionResult::new(State::Starting, 95).with_meta(
                        StateMeta { needs_trust_confirm: Some(true), confirm_type: None },
                    ),
                );
            }
        }
        let lit_cancel = chars::str_chars("Esc to cancel");
        let is_option = rules::option_confirm_match(ts) && chars::contains_chars(
            ts,
            lit_cancel.as_slice(),
        );
        let is_yes_no = rules::yes_no_confirm_match(ts);
        if is_option || is_yes_no {
            let ct = if is_option {
                ConfirmType::Options
            } else {
                ConfirmType::YesNo
            };
            return Some(
                StateDetectionResult::new(State::Confirming, 95).with_meta(
                    StateMeta { needs_trust_confirm: None, confirm_type: Some(ct) },
                ),
            );
        }
        let lit_running = chars::str_chars("esc to interrupt");
        if chars::contains_chars(ts, lit_running.as_slice()) {
            let lit_tool = chars::str_chars("Tool:");
            let lit_marker = chars::str_chars("\u{23FA}");
            let lit_bar = chars::str_chars("\u{2502}");
            if chars::contains_chars(ts, lit_tool.as_slice()) || (chars::contains_chars(
                ts,
                lit_marker.as_slice(),
            ) && chars::contains_chars(ts, lit_bar.as_slice())) {
                return Some(StateDetectionResult::new(State::ToolRunning, 85));
            }
            return Some(StateDetectionResult::new(State::Thinking, 90));
        }
        if self.has_prompt(&context.last_lines) {
            return Some(StateDetectionResult::new(State::Idle, 90));
        }
        let lit_err1 = chars::str_chars("Error:");
        let lit_err2 = chars::str_chars("error:");
        let lit_err3 = chars::str_chars("\u{2716}");
        if chars::contains_chars(ts, lit_err1.as_slice()) || chars::contains_chars(
            ts,
            lit_err2.as_slice(),
        ) || chars::contains_chars(ts, lit_err3.as_slice()) {
            return Some(StateDetectionResult::new(State::Error, 70));
        }
        None
    }
}

impl Default for AgentStateParser {
    /// Same as [`AgentStateParser::new`].
    fn default() -> Self {
        Self::new()
    }
}

/// The startup trust confirmation outranks every other signal: whenever
/// the previous state is starting and both trust phrases occur in the
/// joined text, the decision is the starting state with the trust flag
/// set, whatever else the text contains.
pub proof fn lemma_trust_confirmation_priority(ctx: ParserContextV)
    requires
        ctx.state == Some(State::Starting),
        contains_seq(join_lines(ctx.lines), "Yes, proceed"@),
        contains_seq(join_lines(ctx.lines), "Enter to confirm"@),
    ensures
        detect_state_spec(ctx) == Some(
            StateDetectionResult {
                state: State::Starting,
                confidence: 95,
                meta: Some(StateMeta { needs_trust_confirm: Some(true), confirm_type: None }),
            },
        ),
{
}

} // verus!
