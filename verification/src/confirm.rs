//! The confirmation classifier.
//!
//! Detects and fully decodes confirmation dialogs — options-style or
//! yes/no-style — extracts an embedded tool-invocation description, and
//! formats the literal keystroke strings answering a dialog.

use vstd::prelude::*;
use crate::chars::{self, contains_seq, digits_val, spec_trim, split_lines};
use crate::rules;
use crate::state::option_confirm_state_spec;
use crate::types::{
    ConfirmAction, ConfirmInfo, ConfirmInfoV, ConfirmKey, ConfirmKeyV, ConfirmOption,
    ConfirmOptionV, ConfirmResponse, ConfirmType, ParserContext, ParserContextV, ParserMeta,
    ToolInfo, ToolInfoV, join_lines,
};

verus! {

// ========== Parameter maps ==========

/// The view of a vector of string pairs.
pub open spec fn pairs_view(v: Seq<(String, String)>) -> Seq<(Seq<char>, Seq<char>)> {
    Seq::new(v.len(), |i: int| (v[i].0@, v[i].1@))
}

/// `m` with the first binding of `k` replaced by `v`, or with `(k, v)`
/// appended when `k` is unbound.
pub open spec fn upsert(
    m: Seq<(Seq<char>, Seq<char>)>,
    k: Seq<char>,
    v: Seq<char>,
) -> Seq<(Seq<char>, Seq<char>)>
    decreases m.len(),
{
    if m.len() == 0 {
        seq![(k, v)]
    } else if m[0].0 == k {
        seq![(k, v)] + m.drop_first()
    } else {
        seq![m[0]] + upsert(m.drop_first(), k, v)
    }
}

/// The parameter map built from pairs in order: a later pair with the
/// same key replaces the earlier value.
pub open spec fn build_params(pairs: Seq<(Seq<char>, Seq<char>)>) -> Seq<(Seq<char>, Seq<char>)>
    decreases pairs.len(),
{
    if pairs.len() == 0 {
        Seq::empty()
    } else {
        upsert(build_params(pairs.drop_last()), pairs.last().0, pairs.last().1)
    }
}

/// An unbound prefix factors out of [`upsert`].
proof fn lemma_upsert_skip(m: Seq<(Seq<char>, Seq<char>)>, k: Seq<char>, v: Seq<char>, j: int)
    requires
        0 <= j <= m.len(),
        forall|i: int| 0 <= i < j ==> m[i].0 != k,
    ensures
        upsert(m, k, v) == m.subrange(0, j) + upsert(m.skip(j), k, v),
    decreases j,
{
    if j == 0 {
        assert(m.skip(0) =~= m);
        assert(m.subrange(0, 0) + upsert(m, k, v) =~= upsert(m, k, v));
    } else {
        lemma_upsert_skip(m.drop_first(), k, v, j - 1);
        assert(m.drop_first().skip(j - 1) =~= m.skip(j));
        assert(m.drop_first().subrange(0, j - 1) =~= m.subrange(1, j));
        assert(upsert(m, k, v) == seq![m[0]] + upsert(m.drop_first(), k, v));
        assert(seq![m[0]] + (m.subrange(1, j) + upsert(m.skip(j), k, v)) =~= m.subrange(0, j)
            + upsert(m.skip(j), k, v));
    }
}

/// Replaces the first binding of `key`, or appends `(key, value)`.
fn upsert_param(params: &mut Vec<(String, String)>, key: String, value: String)
    ensures
        pairs_view(final(params)@) == upsert(pairs_view(old(params)@), key@, value@),
{
    let ghost m = pairs_view(params@);
    let ghost kk = key@;
    let ghost vv = value@;
    let kc = chars::str_chars(key.as_str());
    let mut j: usize = 0;
    while j < params.len()
        invariant
            params@ == old(params)@,
            m == pairs_view(params@),
            kk == key@,
            vv == value@,
            kc@ == key@,
            j <= params@.len(),
            forall|i: int| 0 <= i < j ==> m[i].0 != kk,
        decreases params@.len() - j,
    {
        let pc = chars::str_chars(params[j].0.as_str());
        if chars::chars_eq(pc.as_slice(), kc.as_slice()) {
            proof {
                lemma_upsert_skip(m, kk, vv, j as int);
                assert(m.skip(j as int)[0] == m[j as int]);
                assert(m.skip(j as int).drop_first() =~= m.skip(j + 1));
            }
            params.remove(j);
            let pair = (key, value);
            params.insert(j, pair);
            proof {
                let after = params@;
                let mid = old(params)@.remove(j as int);
                let target = m.subrange(0, j as int) + (seq![(kk, vv)] + m.skip(j + 1));
                assert(after.len() == target.len());
                assert forall|x: int| 0 <= x < after.len() implies pairs_view(after)[x]
                    == target[x] by {
                    if x < j {
                        assert(after[x] == old(params)@[x]);
                        assert(target[x] == m.subrange(0, j as int)[x]);
                        assert(m[x] == (old(params)@[x].0@, old(params)@[x].1@));
                        assert(pairs_view(after)[x] == (after[x].0@, after[x].1@));
                    } else if x == j {
                        assert(mid.insert(j as int, pair) == mid.subrange(0, j as int).push(pair)
                            + mid.subrange(j as int, mid.len() as int));
                        assert(mid.subrange(0, j as int).push(pair)[j as int] == pair);
                        assert(after[x] == pair);
                        assert(target[x] == (seq![(kk, vv)] + m.skip(j + 1))[0]);
                        assert((seq![(kk, vv)] + m.skip(j + 1))[0] == (kk, vv));
                        assert(pair.0@ == kk && pair.1@ == vv);
                        assert(pairs_view(after)[x] == (after[x].0@, after[x].1@));
                    } else {
                        assert(after[x] == old(params)@.remove(j as int)[x - 1]);
                        assert(old(params)@.remove(j as int)[x - 1] == old(params)@[x]);
                        assert(target[x] == (seq![(kk, vv)] + m.skip(j + 1))[x - j]);
                        assert((seq![(kk, vv)] + m.skip(j + 1))[x - j] == m.skip(j + 1)[x - j - 1]);
                        assert(m.skip(j + 1)[x - j - 1] == m[x]);
                        assert(pairs_view(after)[x] == (after[x].0@, after[x].1@));
                    }
                }
                assert(pairs_view(after) =~= target);
            }
            return ;
        }
        j = j + 1;
    }
    proof {
        lemma_upsert_skip(m, kk, vv, m.len() as int);
        assert(m.skip(m.len() as int) =~= Seq::<(Seq<char>, Seq<char>)>::empty());
    }
    params.push((key, value));
    proof {
        assert(pairs_view(params@) =~= m.subrange(0, m.len() as int) + seq![(kk, vv)]);
    }
}

/// The decoded tool description of a text: the first match of the tool
/// grammar, its parameter run parsed into a map.
pub open spec fn tool_info_parse_spec(text: Seq<char>) -> Option<ToolInfoV> {
    match rules::tool_info_spec(text) {
        Some(m) => Some(
            ToolInfoV {
                name: m.1,
                mcp_server: Some(m.0),
                params: build_params(rules::param_pairs_spec(m.2, 0)),
            },
        ),
        None => None,
    }
}

// ========== Options and prompt extraction ==========

/// The options read from the lines at or after `i`: every line matching
/// the option grammar whose ordinal fits a `u32` becomes an option with
/// a numeric key and trimmed label; ordinal 1 is the default.
pub open spec fn collect_options(lines: Seq<Seq<char>>, i: int) -> Seq<ConfirmOptionV>
    decreases lines.len() - i,
    when 0 <= i <= lines.len()
{
    if i >= lines.len() {
        Seq::empty()
    } else {
        let rest = collect_options(lines, i + 1);
        match rules::option_line_spec(lines[i]) {
            Some(m) => if digits_val(m.0) <= u32::MAX {
                seq![
                    ConfirmOptionV {
                        key: ConfirmKeyV::Number(digits_val(m.0) as u32),
                        label: spec_trim(m.1),
                        is_default: digits_val(m.0) == 1,
                    },
                ] + rest
            } else {
                rest
            },
            None => rest,
        }
    }
}

/// The options of a text, or nothing when no line matches.
pub open spec fn options_spec(text: Seq<char>) -> Option<Seq<ConfirmOptionV>> {
    let opts = collect_options(split_lines(text), 0);
    if opts.len() == 0 {
        None
    } else {
        Some(opts)
    }
}

/// The prompt lines of a text from line `i` on: trimmed non-empty lines
/// up to the first option line, which is excluded; a line with a yes/no
/// cue is included with the cue stripped and ends the prompt.
pub open spec fn prompt_lines(lines: Seq<Seq<char>>, i: int) -> Seq<Seq<char>>
    decreases lines.len() - i,
    when 0 <= i <= lines.len()
{
    if i >= lines.len() {
        Seq::empty()
    } else if rules::option_line_spec(lines[i]) is Some {
        Seq::empty()
    } else if rules::yes_no_confirm_spec(lines[i]) {
        let c = spec_trim(rules::yn_cleanup_spec(lines[i]));
        if c.len() > 0 {
            seq![c]
        } else {
            Seq::empty()
        }
    } else {
        let t = spec_trim(lines[i]);
        if t.len() > 0 {
            seq![t] + prompt_lines(lines, i + 1)
        } else {
            prompt_lines(lines, i + 1)
        }
    }
}

/// The prompt of a text: its prompt lines joined by newlines.
pub open spec fn extract_prompt_spec(text: Seq<char>) -> Seq<char> {
    join_lines(prompt_lines(split_lines(text), 0))
}

// ========== The dialog decision ==========

/// The synthesized options of a yes/no dialog.
pub open spec fn yes_no_options() -> Seq<ConfirmOptionV> {
    seq![
        ConfirmOptionV { key: ConfirmKeyV::Char("y"@), label: "Yes"@, is_default: true },
        ConfirmOptionV { key: ConfirmKeyV::Char("n"@), label: "No"@, is_default: false },
    ]
}

/// The decoded dialog of a context: options-style when the text opens
/// an options confirmation, else yes/no-style when it holds a yes/no
/// cue, else nothing.
pub open spec fn detect_confirm_spec(ctx: ParserContextV) -> Option<ConfirmInfoV> {
    let text = join_lines(ctx.lines);
    if option_confirm_state_spec(text) {
        Some(
            ConfirmInfoV {
                confirm_type: ConfirmType::Options,
                prompt: extract_prompt_spec(text),
                options: options_spec(text),
                tool: tool_info_parse_spec(text),
                raw_prompt: text,
            },
        )
    } else if rules::yes_no_confirm_spec(text) {
        Some(
            ConfirmInfoV {
                confirm_type: ConfirmType::YesNo,
                prompt: extract_prompt_spec(text),
                options: Some(yes_no_options()),
                tool: None,
                raw_prompt: text,
            },
        )
    } else {
        None
    }
}

// ========== Response formatting ==========

/// `n` cursor-down escape sequences.
pub open spec fn repeat_down(n: nat) -> Seq<char>
    decreases n,
{
    if n == 0 {
        Seq::empty()
    } else {
        repeat_down((n - 1) as nat) + "\u{1b}[B"@
    }
}

/// The literal keystroke string answering a dialog: a carriage return
/// confirms; deny sends two cursor-down sequences and a return on an
/// options dialog and `n` with a return on a yes/no dialog; selecting
/// option `n` sends `n - 1` cursor-down sequences and a return; input
/// sends the text followed by a return.
pub open spec fn format_response_spec(
    confirm_type: ConfirmType,
    action: ConfirmAction,
    option: Option<u32>,
    value: Option<Seq<char>>,
) -> Seq<char> {
    match action {
        ConfirmAction::Confirm => "\r"@,
        ConfirmAction::Deny => match confirm_type {
            ConfirmType::Options => "\u{1b}[B\u{1b}[B\r"@,
            ConfirmType::YesNo => "n\r"@,
        },
        ConfirmAction::Select => match option {
            Some(n) => if n > 1 {
                repeat_down((n - 1) as nat) + "\r"@
            } else {
                "\r"@
            },
            None => "\r"@,
        },
        ConfirmAction::Input => match value {
            Some(v) => v + "\r"@,
            None => "\r"@,
        },
    }
}

// ========== The classifier ==========

/// The confirmation classifier.
pub struct AgentConfirmParser {
    meta: ParserMeta,
}

impl AgentConfirmParser {
    /// A new confirmation classifier.
    pub fn new() -> Self {
        Self {
            meta: ParserMeta {
                name: String::from_str("agent-confirm"),
                description: String::from_str("Parses tool confirmation dialogs"),
                priority: 100,
                version: String::from_str("1.0.0"),
            },
        }
    }

    /// The classifier's metadata.
    pub fn meta(&self) -> &ParserMeta {
        &self.meta
    }

    /// Whether the text opens an options-style confirmation.
    pub fn is_option_confirm(&self, text: &str) -> (b: bool)
        ensures
            b == option_confirm_state_spec(text@),
    {
        let tc = chars::str_chars(text);
        let lit = chars::str_chars("Esc to cancel");
        rules::option_confirm_match(tc.as_slice()) && chars::contains_chars(
            tc.as_slice(),
            lit.as_slice(),
        )
    }

    /// Whether the text holds a yes/no cue.
    pub fn is_yes_no_confirm(&self, text: &str) -> (b: bool)
        ensures
            b == rules::yes_no_confirm_spec(text@),
    {
        let tc = chars::str_chars(text);
        rules::yes_no_confirm_match(tc.as_slice())
    }

    /// The tool description embedded in the text, per
    /// [`tool_info_parse_spec`].
    pub fn parse_tool_info(&self, text: &str) -> (r: Option<ToolInfo>)
        ensures
            match r {
                Some(t) => tool_info_parse_spec(text@) == Some(t@),
                None => tool_info_parse_spec(text@) is None,
            },
    {
        let tc = chars::str_chars(text);
        match rules::tool_info_match(tc.as_slice()) {
            Some(m) => {
                let name = chars::chars_string(m.1.as_slice());
                let server = chars::chars_string(m.0.as_slice());
                let pairs = rules::param_pairs_match(m.2.as_slice());
                let ghost pairs_v = rules::param_pairs_spec(m.2@, 0);
                let mut params: Vec<(String, String)> = Vec::new();
                let mut i: usize = 0;
                proof {
                    assert(pairs_v.subrange(0, 0) =~= Seq::<(Seq<char>, Seq<char>)>::empty());
                    assert(pairs_view(params@) =~= Seq::<(Seq<char>, Seq<char>)>::empty());
                }
                while i < pairs.len()
                    invariant
                        i <= pairs@.len(),
                        pairs_v == Seq::new(pairs@.len(), |x: int| (pairs@[x].0@, pairs@[x].1@)),
                        pairs_view(params@) == build_params(pairs_v.subrange(0, i as int)),
                    decreases pairs@.len() - i,
                {
                    let key = chars::chars_string(pairs[i].0.as_slice());
                    let value = chars::chars_string(pairs[i].1.as_slice());
                    proof {
                        assert(pairs_v.subrange(0, i + 1 as int).drop_last() =~= pairs_v.subrange(
                            0,
                            i as int,
                        ));
                        assert(pairs_v.subrange(0, i + 1 as int).last() == pairs_v[i as int]);
                    }
                    upsert_param(&mut params, key, value);
                    i = i + 1;
                }
                proof {
                    assert(pairs_v.subrange(0, pairs_v.len() as int) =~= pairs_v);
                }
                let info = ToolInfo { name, mcp_server: Some(server), params };
                proof {
                    assert(info@ =~= (ToolInfoV {
                        name: m.1@,
                        mcp_server: Some(m.0@),
                        params: build_params(rules::param_pairs_spec(m.2@, 0)),
                    }));
                }
                Some(info)
            },
            None => None,
        }
    }

    /// The numbered options of the text, per [`options_spec`].
    pub fn parse_options(&self, text: &str) -> (r: Option<Vec<ConfirmOption>>)
        ensures
            match r {
                Some(opts) => options_spec(text@) == Some(
                    Seq::new(opts@.len(), |i: int| opts@[i]@),
                ),
                None => options_spec(text@) is None,
            },
    {
        let tc = chars::str_chars(text);
        let lines = chars::split_lines_exec(tc.as_slice());
        let ghost lv = split_lines(text@);
        let mut opts: Vec<ConfirmOption> = Vec::new();
        let mut i: usize = 0;
        proof {
            assert(Seq::new(opts@.len(), |x: int| opts@[x]@) =~= Seq::<ConfirmOptionV>::empty());
        }
        while i < lines.len()
            invariant
                i <= lines@.len(),
                lv == lines.deep_view(),
                lv.len() == lines@.len(),
                forall|k: int| 0 <= k < lines@.len() ==> lv[k] == lines@[k]@,
                Seq::new(opts@.len(), |x: int| opts@[x]@) + collect_options(lv, i as int)
                    == collect_options(lv, 0),
            decreases lines@.len() - i,
        {
            let ghost prev = Seq::new(opts@.len(), |x: int| opts@[x]@);
            match rules::option_line_match(lines[i].as_slice()) {
                Some(m) => {
                    proof {
                        rules::lemma_option_line_digits(lv[i as int]);
                        chars::lemma_digits_nonneg(m.0@);
                    }
                    match chars::parse_u32(m.0.as_slice()) {
                        Some(num) => {
                            let label = chars::trim_chars(m.1.as_slice());
                            let opt = ConfirmOption {
                                key: ConfirmKey::Number(num),
                                label: chars::chars_string(label.as_slice()),
                                is_default: num == 1,
                            };
                            opts.push(opt);
                            proof {
                                assert(Seq::new(opts@.len(), |x: int| opts@[x]@) =~= prev + seq![
                                    ConfirmOptionV {
                                        key: ConfirmKeyV::Number(digits_val(m.0@) as u32),
                                        label: spec_trim(m.1@),
                                        is_default: digits_val(m.0@) == 1,
                                    },
                                ]);
                                assert((prev + seq![
                                    ConfirmOptionV {
                                        key: ConfirmKeyV::Number(digits_val(m.0@) as u32),
                                        label: spec_trim(m.1@),
                                        is_default: digits_val(m.0@) == 1,
                                    },
                                ]) + collect_options(lv, i + 1 as int) =~= prev + (seq![
                                    ConfirmOptionV {
                                        key: ConfirmKeyV::Number(digits_val(m.0@) as u32),
                                        label: spec_trim(m.1@),
                                        is_default: digits_val(m.0@) == 1,
                                    },
                                ] + collect_options(lv, i + 1 as int)));
                            }
                        },
                        None => {},
                    }
                },
                None => {},
            }
            i = i + 1;
        }
        if opts.len() == 0 {
            proof {
                assert(collect_options(lv, lv.len() as int) =~= Seq::<ConfirmOptionV>::empty());
                assert(Seq::new(opts@.len(), |x: int| opts@[x]@) =~= Seq::<
                    ConfirmOptionV,
                >::empty());
            }
            None
        } else {
            proof {
                assert(collect_options(lv, lv.len() as int) =~= Seq::<ConfirmOptionV>::empty());
                assert(Seq::new(opts@.len(), |x: int| opts@[x]@) + Seq::<ConfirmOptionV>::empty()
                    =~= Seq::new(opts@.len(), |x: int| opts@[x]@));
            }
            Some(opts)
        }
    }

    /// The prompt of the text, per [`extract_prompt_spec`].
    pub fn extract_prompt(&self, text: &str) -> (r: String)
        ensures
            r@ == extract_prompt_spec(text@),
    {
        let tc = chars::str_chars(text);
        let lines = chars::split_lines_exec(tc.as_slice());
        let ghost lv = split_lines(text@);
        let mut kept: Vec<Vec<char>> = Vec::new();
        let mut i: usize = 0;
        let mut stopped = false;
        while i < lines.len() && !stopped
            invariant
                i <= lines@.len(),
                lv == lines.deep_view(),
                lv.len() == lines@.len(),
                forall|k: int| 0 <= k < lines@.len() ==> lv[k] == lines@[k]@,
                !stopped ==> kept.deep_view() + prompt_lines(lv, i as int) == prompt_lines(lv, 0),
                stopped ==> kept.deep_view() == prompt_lines(lv, 0),
            decreases lines@.len() - i, (if stopped { 0int } else { 1int }),
        {
            let ghost prev = kept.deep_view();
            let line = lines[i].as_slice();
            if rules::option_line_match(line).is_some() {
                proof {
                    assert(prev + Seq::<Seq<char>>::empty() =~= prev);
                }
                stopped = true;
            } else if rules::yes_no_confirm_match(line) {
                let cleaned = rules::yn_cleanup(line);
                let t = chars::trim_chars(cleaned.as_slice());
                if t.len() > 0 {
                    proof {
                        assert(t.deep_view() =~= t@);
                    }
                    kept.push(t);
                    proof {
                        assert(kept.deep_view() =~= prev + seq![
                            spec_trim(rules::yn_cleanup_spec(lv[i as int])),
                        ]);
                    }
                } else {
                    proof {
                        assert(prev + Seq::<Seq<char>>::empty() =~= prev);
                    }
                }
                stopped = true;
            } else {
                let t = chars::trim_chars(line);
                if t.len() > 0 {
                    proof {
                        assert(t.deep_view() =~= t@);
                    }
                    kept.push(t);
                    proof {
                        assert(kept.deep_view() =~= prev + seq![spec_trim(lv[i as int])]);
                        assert((prev + seq![spec_trim(lv[i as int])]) + prompt_lines(
                            lv,
                            i + 1 as int,
                        ) =~= prev + (seq![spec_trim(lv[i as int])] + prompt_lines(
                            lv,
                            i + 1 as int,
                        )));
                    }
                }
                i = i + 1;
            }
        }
        proof {
            if !stopped {
                assert(prompt_lines(lv, lv.len() as int) =~= Seq::<Seq<char>>::empty());
                assert(kept.deep_view() + Seq::<Seq<char>>::empty() =~= kept.deep_view());
            }
        }
        join_char_lines(&kept)
    }

    /// The decoded dialog of the context, per [`detect_confirm_spec`].
    pub fn detect_confirm(&self, context: &ParserContext) -> (r: Option<ConfirmInfo>)
        ensures
            match r {
                Some(info) => detect_confirm_spec(context@) == Some(info@),
                None => detect_confirm_spec(context@) is None,
            },
    {
        let text = context.text();
        if self.is_option_confirm(text.as_str()) {
            let tool = self.parse_tool_info(text.as_str());
            let options = self.parse_options(text.as_str());
            let prompt = self.extract_prompt(text.as_str());
            let info = ConfirmInfo {
                confirm_type: ConfirmType::Options,
                prompt,
                options,
                tool,
                raw_prompt: text,
            };
            proof {
                assert(info@ =~= detect_confirm_spec(context@)->Some_0);
            }
            return Some(info);
        }
        if self.is_yes_no_confirm(text.as_str()) {
            let prompt = self.extract_prompt(text.as_str());
            let mut options: Vec<ConfirmOption> = Vec::new();
            options.push(
                ConfirmOption {
                    key: ConfirmKey::Char(String::from_str("y")),
                    label: String::from_str("Yes"),
                    is_default: true,
                },
            );
            options.push(
                ConfirmOption {
                    key: ConfirmKey::Char(String::from_str("n")),
                    label: String::from_str("No"),
                    is_default: false,
                },
            );
            let info = ConfirmInfo {
                confirm_type: ConfirmType::YesNo,
                prompt,
                options: Some(options),
                tool: None,
                raw_prompt: text,
            };
            proof {
                assert(Seq::new(info.options->Some_0@.len(), |i: int| info.options->Some_0@[i]@)
                    =~= yes_no_options());
                assert(info@ =~= detect_confirm_spec(context@)->Some_0);
            }
            return Some(info);
        }
        None
    }

    /// The keystroke string answering the dialog, per
    /// [`format_response_spec`].
    pub fn format_response(&self, info: &ConfirmInfo, response: &ConfirmResponse) -> (r: String)
        ensures
            r@ == format_response_spec(
                info.confirm_type,
                response.action,
                response.option,
                response.value.deep_view(),
            ),
    {
        match response.action {
            ConfirmAction::Confirm => String::from_str("\r"),
            ConfirmAction::Deny => match info.confirm_type {
                ConfirmType::Options => String::from_str("\u{1b}[B\u{1b}[B\r"),
                ConfirmType::YesNo => String::from_str("n\r"),
            },
            ConfirmAction::Select => match response.option {
                Some(n) => {
                    if n > 1 {
                        let mut out = String::new();
                        let mut k: u32 = 0;
                        proof {
                            assert(out@ =~= repeat_down(0));
                        }
                        while k < n - 1
                            invariant
                                n > 1,
                                k <= n - 1,
                                out@ == repeat_down(k as nat),
                            decreases n - 1 - k,
                        {
                            out.append("\u{1b}[B");
                            k = k + 1;
                        }
                        out.append("\r");
                        out
                    } else {
                        String::from_str("\r")
                    }
                },
                None => String::from_str("\r"),
            },
            ConfirmAction::Input => match &response.value {
                Some(v) => {
                    let mut out = String::from_str(v.as_str());
                    out.append("\r");
                    out
                },
                None => String::from_str("\r"),
            },
        }
    }
}

impl Default for AgentConfirmParser {
    /// Same as [`AgentConfirmParser::new`].
    fn default() -> Self {
        Self::new()
    }
}

/// The lines joined with newlines, as a string.
pub(crate) fn join_char_lines(lines: &Vec<Vec<char>>) -> (r: String)
    ensures
        r@ == join_lines(lines.deep_view()),
{
    let mut out: Vec<char> = Vec::new();
    let mut i: usize = 0;
    while i < lines.len()
        invariant
            i <= lines@.len(),
            lines.deep_view().len() == lines@.len(),
            forall|k: int| 0 <= k < lines@.len() ==> lines.deep_view()[k] == lines@[k]@,
            out@ == join_lines(lines.deep_view().subrange(0, i as int)),
        decreases lines@.len() - i,
    {
        if i > 0 {
            out.push('\n');
        }
        crate::types::push_all(&mut out, &lines[i]);
        proof {
            let dv = lines.deep_view();
            let pre = dv.subrange(0, i as int);
            let cur = dv.subrange(0, i + 1 as int);
            assert(cur.drop_last() =~= pre);
            assert(cur.last() == dv[i as int]);
            if i == 0 {
                assert(out@ =~= join_lines(cur));
            } else {
                assert(out@ =~= join_lines(pre) + seq!['\n'] + dv[i as int]);
            }
        }
        i = i + 1;
    }
    proof {
        assert(lines.deep_view().subrange(0, lines.deep_view().len() as int) =~= lines.deep_view());
    }
    chars::chars_string(out.as_slice())
}

} // verus!
