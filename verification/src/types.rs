//! Core data types shared by the classifiers.
//!
//! Every result structure is created fresh per call, immutable once
//! built, and owned by the caller.  Each type with text or list content
//! has a mathematical view used by the contracts; confidence scores are
//! integers in hundredths, ranging over 0..=100 for the unit interval.

use vstd::prelude::*;
use crate::chars;

verus! {

/// Terminal activity state: six mutually exclusive values.
#[derive(Debug, Clone, Copy, PartialEq, Eq, Structural)]
pub enum State {
    /// Starting up, may need trust confirmation.
    Starting,
    /// Idle, waiting for user input (prompt visible).
    Idle,
    /// Thinking or processing (interrupt marker visible).
    Thinking,
    /// Running a tool.
    ToolRunning,
    /// Waiting for user confirmation.
    Confirming,
    /// Error state.
    Error,
}

/// Style of a confirmation dialog.
#[derive(Debug, Clone, Copy, PartialEq, Eq, Structural)]
pub enum ConfirmType {
    /// Numbered options navigated with arrow keys.
    Options,
    /// Single-character yes/no response.
    YesNo,
}

/// Phase reported by the status bar.
#[derive(Debug, Clone, Copy, PartialEq, Eq, Structural)]
pub enum StatusPhase {
    /// Thinking or processing.
    Thinking,
    /// Running a tool.
    ToolRunning,
    /// No recognizable phase signal.
    Unknown,
}

/// Execution status of a parsed tool invocation.
#[derive(Debug, Clone, Copy, PartialEq, Eq, Structural)]
pub enum ToolStatus {
    /// Still running.
    Running,
    /// Finished, with a duration.
    Completed,
}

/// Action chosen in response to a confirmation dialog.
#[derive(Debug, Clone, Copy, PartialEq, Eq, Structural)]
pub enum ConfirmAction {
    /// Accept the default option.
    Confirm,
    /// Refuse.
    Deny,
    /// Select a specific numbered option.
    Select,
    /// Type custom text.
    Input,
}

/// Descriptive metadata of a parser.
#[derive(Debug, Clone)]
pub struct ParserMeta {
    /// Parser name.
    pub name: String,
    /// Parser description.
    pub description: String,
    /// Parser priority (higher is checked first).
    pub priority: u32,
    /// Parser version.
    pub version: String,
}

/// The immutable input of one classification call: the most recent
/// terminal lines (most recent last), an optional previously detected
/// state, and an optional full buffer used as a fallback match source.
#[derive(Debug, Clone)]
pub struct ParserContext {
    /// Last lines of terminal output.
    pub last_lines: Vec<String>,
    /// Previously detected state, if any.
    pub current_state: Option<State>,
    /// Full terminal content, if available.
    pub full_content: Option<String>,
}

/// Mathematical view of a [`ParserContext`].
#[verifier::ext_equal]
pub ghost struct ParserContextV {
    /// The lines as character sequences.
    pub lines: Seq<Seq<char>>,
    /// Previously detected state.
    pub state: Option<State>,
    /// Full buffer characters, if present.
    pub full: Option<Seq<char>>,
}

impl View for ParserContext {
    type V = ParserContextV;

    open spec fn view(&self) -> ParserContextV {
        ParserContextV {
            lines: self.last_lines.deep_view(),
            state: self.current_state,
            full: self.full_content.deep_view(),
        }
    }
}

/// The lines joined by a newline character, without a trailing newline.
pub open spec fn join_lines(lines: Seq<Seq<char>>) -> Seq<char>
    decreases lines.len(),
{
    if lines.len() == 0 {
        Seq::empty()
    } else if lines.len() == 1 {
        lines[0]
    } else {
        join_lines(lines.drop_last()) + seq!['\n'] + lines.last()
    }
}

/// Appends all of `src` to `dst`.
pub fn push_all(dst: &mut Vec<char>, src: &Vec<char>)
    ensures
        final(dst)@ == old(dst)@ + src@,
{
    let mut i: usize = 0;
    while i < src.len()
        invariant
            i <= src@.len(),
            dst@ == old(dst)@ + src@.subrange(0, i as int),
        decreases src@.len() - i,
    {
        dst.push(src[i]);
        proof {
            assert(old(dst)@ + src@.subrange(0, i as int) + seq![src@[i as int]] =~= old(
                dst,
            )@ + src@.subrange(0, i + 1 as int));
        }
        i = i + 1;
    }
    proof {
        assert(old(dst)@ + src@.subrange(0, src@.len() as int) =~= old(dst)@ + src@);
    }
}

impl ParserContext {
    /// A context over the given lines, with no prior state and no buffer.
    pub fn new(last_lines: Vec<String>) -> (r: Self)
        ensures
            r@.lines == last_lines.deep_view(),
            r@.state is None,
            r@.full is None,
    {
        Self { last_lines, current_state: None, full_content: None }
    }

    /// The same context with the previously detected state set.
    pub fn with_state(self, state: State) -> (r: Self)
        ensures
            r@.lines == self@.lines,
            r@.state == Some(state),
            r@.full == self@.full,
    {
        Self { current_state: Some(state), ..self }
    }

    /// The same context with the full buffer set.
    pub fn with_full_content(self, content: String) -> (r: Self)
        ensures
            r@.lines == self@.lines,
            r@.state == self@.state,
            r@.full == Some(content@),
    {
        Self { full_content: Some(content), ..self }
    }

    /// The lines joined with newlines.
    pub fn text(&self) -> (r: String)
        ensures
            r@ == join_lines(self@.lines),
    {
        let mut out: Vec<char> = Vec::new();
        let mut i: usize = 0;
        while i < self.last_lines.len()
            invariant
                i <= self@.lines.len(),
                self@.lines.len() == self.last_lines@.len(),
                forall|k: int|
                    0 <= k < self.last_lines@.len() ==> self@.lines[k] == self.last_lines@[k]@,
                out@ == join_lines(self@.lines.subrange(0, i as int)),
            decreases self@.lines.len() - i,
        {
            if i > 0 {
                out.push('\n');
            }
            let line = chars::str_chars(self.last_lines[i].as_str());
            push_all(&mut out, &line);
            proof {
                let pre = self@.lines.subrange(0, i as int);
                let cur = self@.lines.subrange(0, i + 1 as int);
                assert(cur.drop_last() =~= pre);
                assert(cur.last() == self@.lines[i as int]);
                if i == 0 {
                    assert(out@ =~= join_lines(cur));
                } else {
                    assert(out@ =~= join_lines(pre) + seq!['\n'] + self@.lines[i as int]);
                }
            }
            i = i + 1;
        }
        proof {
            assert(self@.lines.subrange(0, self@.lines.len() as int) =~= self@.lines);
        }
        chars::chars_string(out.as_slice())
    }
}

/// Extra detail attached to a state detection.
#[derive(Debug, Clone, Copy, PartialEq, Eq, Structural)]
pub struct StateMeta {
    /// Whether a startup trust confirmation is needed.
    pub needs_trust_confirm: Option<bool>,
    /// The confirmation style, when the state is confirming.
    pub confirm_type: Option<ConfirmType>,
}

impl Default for StateMeta {
    /// The empty metadata: no trust flag, no confirmation style.
    fn default() -> (r: Self)
        ensures
            r.needs_trust_confirm is None,
            r.confirm_type is None,
    {
        StateMeta { needs_trust_confirm: None, confirm_type: None }
    }
}

/// A detected state with its confidence, in hundredths.
#[derive(Debug, Clone, Copy, PartialEq, Eq, Structural)]
pub struct StateDetectionResult {
    /// Detected state.
    pub state: State,
    /// Confidence in hundredths (0..=100).
    pub confidence: u32,
    /// Additional metadata, if any.
    pub meta: Option<StateMeta>,
}

impl StateDetectionResult {
    /// A result with the given state and confidence and no metadata.
    pub fn new(state: State, confidence: u32) -> (r: Self)
        ensures
            r == (StateDetectionResult { state, confidence, meta: None }),
    {
        Self { state, confidence, meta: None }
    }

    /// The same result with metadata attached.
    pub fn with_meta(self, meta: StateMeta) -> (r: Self)
        ensures
            r == (StateDetectionResult { meta: Some(meta), ..self }),
    {
        Self { meta: Some(meta), ..self }
    }
}

/// Key of a confirmation option: a 1-based ordinal or a character.
#[derive(Debug, Clone)]
pub enum ConfirmKey {
    /// Numeric key.
    Number(u32),
    /// Character key, as a string.
    Char(String),
}

/// View of a [`ConfirmKey`].
pub ghost enum ConfirmKeyV {
    /// Numeric key.
    Number(u32),
    /// Character key.
    Char(Seq<char>),
}

impl View for ConfirmKey {
    type V = ConfirmKeyV;

    open spec fn view(&self) -> ConfirmKeyV {
        match self {
            ConfirmKey::Number(n) => ConfirmKeyV::Number(*n),
            ConfirmKey::Char(c) => ConfirmKeyV::Char(c@),
        }
    }
}

/// One selectable choice of a confirmation dialog.
#[derive(Debug, Clone)]
pub struct ConfirmOption {
    /// Option key.
    pub key: ConfirmKey,
    /// Display label.
    pub label: String,
    /// Whether this is the default option.
    pub is_default: bool,
}

/// View of a [`ConfirmOption`].
#[verifier::ext_equal]
pub ghost struct ConfirmOptionV {
    /// Option key.
    pub key: ConfirmKeyV,
    /// Display label.
    pub label: Seq<char>,
    /// Whether this is the default option.
    pub is_default: bool,
}

impl View for ConfirmOption {
    type V = ConfirmOptionV;

    open spec fn view(&self) -> ConfirmOptionV {
        ConfirmOptionV { key: self.key@, label: self.label@, is_default: self.is_default }
    }
}

/// Tool invocation described inside a confirmation prompt.
#[derive(Debug, Clone)]
pub struct ToolInfo {
    /// Tool name.
    pub name: String,
    /// Originating server name, if any.
    pub mcp_server: Option<String>,
    /// Tool parameters as key/value pairs, in order of appearance.
    pub params: Vec<(String, String)>,
}

/// View of a [`ToolInfo`].
#[verifier::ext_equal]
pub ghost struct ToolInfoV {
    /// Tool name.
    pub name: Seq<char>,
    /// Originating server name.
    pub mcp_server: Option<Seq<char>>,
    /// Parameter pairs, in order of appearance.
    pub params: Seq<(Seq<char>, Seq<char>)>,
}

impl View for ToolInfo {
    type V = ToolInfoV;

    open spec fn view(&self) -> ToolInfoV {
        ToolInfoV {
            name: self.name@,
            mcp_server: self.mcp_server.deep_view(),
            params: Seq::new(self.params@.len(), |i: int| (self.params@[i].0@, self.params@[i].1@)),
        }
    }
}

/// The first value bound to `key` in an ordered pair sequence.
pub open spec fn pairs_lookup<T>(pairs: Seq<(Seq<char>, T)>, key: Seq<char>) -> Option<T>
    decreases pairs.len(),
{
    if pairs.len() == 0 {
        None
    } else if pairs[0].0 == key {
        Some(pairs[0].1)
    } else {
        pairs_lookup(pairs.drop_first(), key)
    }
}

impl ToolInfo {
    /// The value of the first parameter named `key`, if any.
    pub fn get_param(&self, key: &str) -> (r: Option<&String>)
        ensures
            match r {
                Some(v) => pairs_lookup(self@.params, key@) == Some(v@),
                None => pairs_lookup(self@.params, key@) is None,
            },
    {
        let kc = chars::str_chars(key);
        let mut i: usize = 0;
        proof {
            assert(self@.params.skip(0) =~= self@.params);
        }
        while i < self.params.len()
            invariant
                kc@ == key@,
                i <= self.params@.len(),
                self@.params.len() == self.params@.len(),
                forall|k: int|
                    0 <= k < self.params@.len() ==> self@.params[k] == (
                    self.params@[k].0@,
                    self.params@[k].1@,
                ),
                pairs_lookup(self@.params, key@) == pairs_lookup(
                    self@.params.skip(i as int),
                    key@,
                ),
            decreases self.params@.len() - i,
        {
            let pc = chars::str_chars(self.params[i].0.as_str());
            proof {
                assert(self@.params.skip(i as int)[0] == self@.params[i as int]);
                assert(self@.params.skip(i as int).drop_first() =~= self@.params.skip(i + 1));
            }
            if chars::chars_eq(pc.as_slice(), kc.as_slice()) {
                return Some(&self.params[i].1);
            }
            i = i + 1;
        }
        None
    }
}

/// A fully decoded confirmation dialog.
#[derive(Debug, Clone)]
pub struct ConfirmInfo {
    /// Dialog style.
    pub confirm_type: ConfirmType,
    /// Extracted prompt text.
    pub prompt: String,
    /// Available options, if any were recognized.
    pub options: Option<Vec<ConfirmOption>>,
    /// Tool invocation being confirmed, if one was recognized.
    pub tool: Option<ToolInfo>,
    /// The raw matched text.
    pub raw_prompt: String,
}

/// View of a [`ConfirmInfo`].
#[verifier::ext_equal]
pub ghost struct ConfirmInfoV {
    /// Dialog style.
    pub confirm_type: ConfirmType,
    /// Extracted prompt text.
    pub prompt: Seq<char>,
    /// Available options.
    pub options: Option<Seq<ConfirmOptionV>>,
    /// Tool invocation being confirmed.
    pub tool: Option<ToolInfoV>,
    /// The raw matched text.
    pub raw_prompt: Seq<char>,
}

impl View for ConfirmInfo {
    type V = ConfirmInfoV;

    open spec fn view(&self) -> ConfirmInfoV {
        ConfirmInfoV {
            confirm_type: self.confirm_type,
            prompt: self.prompt@,
            options: match self.options {
                Some(opts) => Some(Seq::new(opts@.len(), |i: int| opts@[i]@)),
                None => None,
            },
            tool: match self.tool {
                Some(t) => Some(t@),
                None => None,
            },
            raw_prompt: self.raw_prompt@,
        }
    }
}

/// The caller's intended reply to a confirmation dialog.
#[derive(Debug, Clone)]
pub struct ConfirmResponse {
    /// Action to take.
    pub action: ConfirmAction,
    /// Option number, for the select action.
    pub option: Option<u32>,
    /// Custom text, for the input action.
    pub value: Option<String>,
}

impl ConfirmResponse {
    /// A reply accepting the dialog.
    pub fn confirm() -> (r: Self)
        ensures
            r.action == ConfirmAction::Confirm,
            r.option is None,
            r.value is None,
    {
        Self { action: ConfirmAction::Confirm, option: None, value: None }
    }

    /// A reply refusing the dialog.
    pub fn deny() -> (r: Self)
        ensures
            r.action == ConfirmAction::Deny,
            r.option is None,
            r.value is None,
    {
        Self { action: ConfirmAction::Deny, option: None, value: None }
    }

    /// A reply selecting the 1-based option `option`.
    pub fn select(option: u32) -> (r: Self)
        ensures
            r.action == ConfirmAction::Select,
            r.option == Some(option),
            r.value is None,
    {
        Self { action: ConfirmAction::Select, option: Some(option), value: None }
    }

    /// A reply typing the custom text `value`.
    pub fn input(value: String) -> (r: Self)
        ensures
            r.action == ConfirmAction::Input,
            r.option is None,
            r.value == Some(value),
    {
        Self { action: ConfirmAction::Input, option: None, value: Some(value) }
    }
}

/// Activity parsed from a terminal window title.
#[derive(Debug, Clone)]
pub struct AgentTitle {
    /// Current task name, if any.
    pub task_name: Option<String>,
    /// The spinner glyph prefix, empty when there was none.
    pub spinner_state: String,
    /// Whether the title signals active processing.
    pub is_processing: bool,
}

/// View of a [`AgentTitle`].
#[verifier::ext_equal]
pub ghost struct AgentTitleV {
    /// Current task name.
    pub task_name: Option<Seq<char>>,
    /// The spinner glyph prefix.
    pub spinner_state: Seq<char>,
    /// Whether the title signals active processing.
    pub is_processing: bool,
}

impl View for AgentTitle {
    type V = AgentTitleV;

    open spec fn view(&self) -> AgentTitleV {
        AgentTitleV {
            task_name: self.task_name.deep_view(),
            spinner_state: self.spinner_state@,
            is_processing: self.is_processing,
        }
    }
}

/// Input of the title classifier: the current window-title string.
#[derive(Debug, Clone)]
pub struct TitleParserContext {
    /// The terminal title to parse.
    pub terminal_title: String,
}

impl TitleParserContext {
    /// A context over the given title string.
    pub fn new(title: String) -> (r: Self)
        ensures
            r.terminal_title@ == title@,
    {
        Self { terminal_title: title }
    }
}

/// A parsed title with provenance and confidence.
#[derive(Debug, Clone)]
pub struct TitleParseResult {
    /// Output type tag.
    pub output_type: String,
    /// Raw title text.
    pub raw: String,
    /// Parsed data.
    pub data: AgentTitle,
    /// Confidence in hundredths (0..=100).
    pub confidence: u32,
}

/// A parsed status-bar record.
#[derive(Debug, Clone)]
pub struct AgentStatus {
    /// Spinner glyph.
    pub spinner: String,
    /// Status text.
    pub status_text: String,
    /// Current phase.
    pub phase: StatusPhase,
    /// Whether the operation can be interrupted.
    pub interruptible: bool,
}

/// View of a [`AgentStatus`].
#[verifier::ext_equal]
pub ghost struct AgentStatusV {
    /// Spinner glyph.
    pub spinner: Seq<char>,
    /// Status text.
    pub status_text: Seq<char>,
    /// Current phase.
    pub phase: StatusPhase,
    /// Whether the operation can be interrupted.
    pub interruptible: bool,
}

impl View for AgentStatus {
    type V = AgentStatusV;

    open spec fn view(&self) -> AgentStatusV {
        AgentStatusV {
            spinner: self.spinner@,
            status_text: self.status_text@,
            phase: self.phase,
            interruptible: self.interruptible,
        }
    }
}

} // verus!
