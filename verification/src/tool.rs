//! The tool-output classifier.
//!
//! Parses multi-line tool-invocation blocks in two visually distinct
//! styles — box headers with bar-delimited parameter lines, and inline
//! headers with a parenthesized argument string — into a tool name, a
//! parameter map of loosely typed values, captured output text, and a
//! duration with a completion status.

use vstd::prelude::*;
use crate::chars::{self, CharClass, scan_spec, secs_to_ms, spec_trim};
use crate::rules::strip_quotes_spec;
use crate::confirm::join_char_lines;
use crate::rules;
use crate::types::{ParserContext, ParserMeta, ToolStatus, join_lines};

verus! {

broadcast use crate::chars::lemma_vec_char_deep_view;

// ========== Loosely typed parameter values ==========

/// The kind of one attempted JSON reading of a raw text.
#[derive(Debug, Clone, Copy, PartialEq, Eq, Structural)]
pub enum JsonKind {
    /// The text is not one JSON value.
    NotJson,
    /// A JSON string.
    Str,
    /// A JSON number.
    Number,
    /// The JSON literal `true`.
    True,
    /// The JSON literal `false`.
    False,
    /// The JSON literal `null`.
    Null,
    /// A JSON array or object.
    Structured,
}

pub uninterp spec fn json_scalar_of(s: Seq<char>) -> (JsonKind, Seq<char>);

/// Relies on `serde_json::from_str::<Value>`: whether the text parses
/// as one JSON value, which kind it is, and, for a JSON string, its
/// decoded content.
#[verifier::external_body]
fn classify_json(raw: &str) -> (r: (JsonKind, String))
    ensures
        (r.0, r.1@) == json_scalar_of(raw@),
{
    match serde_json::from_str::<serde_json::Value>(raw) {
        Ok(serde_json::Value::String(s)) => (JsonKind::Str, s),
        Ok(serde_json::Value::Number(_)) => (JsonKind::Number, String::new()),
        Ok(serde_json::Value::Bool(true)) => (JsonKind::True, String::new()),
        Ok(serde_json::Value::Bool(false)) => (JsonKind::False, String::new()),
        Ok(serde_json::Value::Null) => (JsonKind::Null, String::new()),
        Ok(_) => (JsonKind::Structured, String::new()),
        Err(_) => (JsonKind::NotJson, String::new()),
    }
}

/// A loosely typed parameter value: the decoded string when the raw
/// text is a JSON string, its own text for numbers and structures, a
/// boolean or null literal, else the quote-stripped plain text.
#[derive(Debug, Clone, PartialEq, Eq)]
pub enum ParamValue {
    /// Plain or decoded text.
    Text(String),
    /// A JSON number, kept as its literal text.
    Number(String),
    /// A JSON boolean.
    Bool(bool),
    /// The JSON null.
    Null,
    /// A JSON array or object, kept as its raw text.
    Structured(String),
}

/// View of a [`ParamValue`].
pub ghost enum ParamValueV {
    /// Plain or decoded text.
    Text(Seq<char>),
    /// A JSON number.
    Number(Seq<char>),
    /// A JSON boolean.
    Bool(bool),
    /// The JSON null.
    Null,
    /// A JSON array or object.
    Structured(Seq<char>),
}

impl View for ParamValue {
    type V = ParamValueV;

    open spec fn view(&self) -> ParamValueV {
        match self {
            ParamValue::Text(s) => ParamValueV::Text(s@),
            ParamValue::Number(s) => ParamValueV::Number(s@),
            ParamValue::Bool(b) => ParamValueV::Bool(*b),
            ParamValue::Null => ParamValueV::Null,
            ParamValue::Structured(s) => ParamValueV::Structured(s@),
        }
    }
}

/// The parameter value decoded from a raw text, per the JSON reading
/// named by [`json_scalar_of`].
pub open spec fn decoded_value(raw: Seq<char>) -> ParamValueV {
    match json_scalar_of(raw).0 {
        JsonKind::Str => ParamValueV::Text(json_scalar_of(raw).1),
        JsonKind::Number => ParamValueV::Number(raw),
        JsonKind::True => ParamValueV::Bool(true),
        JsonKind::False => ParamValueV::Bool(false),
        JsonKind::Null => ParamValueV::Null,
        JsonKind::Structured => ParamValueV::Structured(raw),
        JsonKind::NotJson => ParamValueV::Text(strip_quotes_spec(raw)),
    }
}

/// Decides [`decoded_value`].
fn decode_value(raw: &str) -> (r: ParamValue)
    ensures
        r@ == decoded_value(raw@),
{
    let (kind, s) = classify_json(raw);
    match kind {
        JsonKind::Str => ParamValue::Text(s),
        JsonKind::Number => ParamValue::Number(String::from_str(raw)),
        JsonKind::True => ParamValue::Bool(true),
        JsonKind::False => ParamValue::Bool(false),
        JsonKind::Null => ParamValue::Null,
        JsonKind::Structured => ParamValue::Structured(String::from_str(raw)),
        JsonKind::NotJson => {
            let rc = chars::str_chars(raw);
            let stripped = rules::strip_quotes(rc.as_slice());
            ParamValue::Text(chars::chars_string(stripped.as_slice()))
        },
    }
}

/// The view of a vector of parameter bindings.
pub open spec fn params_view(v: Seq<(String, ParamValue)>) -> Seq<(Seq<char>, ParamValueV)> {
    Seq::new(v.len(), |i: int| (v[i].0@, v[i].1@))
}

/// `m` with the first binding of `k` replaced by `v`, or with `(k, v)`
/// appended when `k` is unbound.
pub open spec fn upsert_pv(
    m: Seq<(Seq<char>, ParamValueV)>,
    k: Seq<char>,
    v: ParamValueV,
) -> Seq<(Seq<char>, ParamValueV)>
    decreases m.len(),
{
    if m.len() == 0 {
        seq![(k, v)]
    } else if m[0].0 == k {
        seq![(k, v)] + m.drop_first()
    } else {
        seq![m[0]] + upsert_pv(m.drop_first(), k, v)
    }
}

/// An unbound prefix factors out of [`upsert_pv`].
proof fn lemma_upsert_pv_skip(
    m: Seq<(Seq<char>, ParamValueV)>,
    k: Seq<char>,
    v: ParamValueV,
    j: int,
)
    requires
        0 <= j <= m.len(),
        forall|i: int| 0 <= i < j ==> m[i].0 != k,
    ensures
        upsert_pv(m, k, v) == m.subrange(0, j) + upsert_pv(m.skip(j), k, v),
    decreases j,
{
    if j == 0 {
        assert(m.skip(0) =~= m);
        assert(m.subrange(0, 0) + upsert_pv(m, k, v) =~= upsert_pv(m, k, v));
    } else {
        lemma_upsert_pv_skip(m.drop_first(), k, v, j - 1);
        assert(m.drop_first().skip(j - 1) =~= m.skip(j));
        assert(m.drop_first().subrange(0, j - 1) =~= m.subrange(1, j));
        assert(upsert_pv(m, k, v) == seq![m[0]] + upsert_pv(m.drop_first(), k, v));
        assert(seq![m[0]] + (m.subrange(1, j) + upsert_pv(m.skip(j), k, v)) =~= m.subrange(0, j)
            + upsert_pv(m.skip(j), k, v));
    }
}

/// Replaces the first binding of `key`, or appends `(key, value)`.
fn upsert_param_pv(params: &mut Vec<(String, ParamValue)>, key: String, value: ParamValue)
    ensures
        params_view(final(params)@) == upsert_pv(params_view(old(params)@), key@, value@),
{
    let ghost m = params_view(params@);
    let ghost kk = key@;
    let ghost vv = value@;
    let kc = chars::str_chars(key.as_str());
    let mut j: usize = 0;
    while j < params.len()
        invariant
            params@ == old(params)@,
            m == params_view(params@),
            kk == key@,
            vv == value@,
            kc@ == key@,
            j <= params@.len(),
            forall|i: int| 0 <= i < j ==> m[i].0 != kk,
        decreases params@.len() - j,
    {
        let pc = chars::str_chars(params[j].0.as_str());
        if chars::chars_eq(pc.as_slice(), kc.as_slice()) {
            proof {
                lemma_upsert_pv_skip(m, kk, vv, j as int);
                assert(m.skip(j as int)[0] == m[j as int]);
                assert(m.skip(j as int).drop_first() =~= m.skip(j + 1));
            }
            params.remove(j);
            let pair = (key, value);
            params.insert(j, pair);
            proof {
                let after = params@;
                let mid = old(params)@.remove(j as int);
                let target = m.subrange(0, j as int) + (seq![(kk, vv)] + m.skip(j + 1));
                assert(after.len() == target.len());
                assert forall|x: int| 0 <= x < after.len() implies params_view(after)[x]
                    == target[x] by {
                    if x < j {
                        assert(after[x] == old(params)@[x]);
                        assert(target[x] == m.subrange(0, j as int)[x]);
                    } else if x == j {
                        assert(mid.insert(j as int, pair) == mid.subrange(0, j as int).push(pair)
                            + mid.subrange(j as int, mid.len() as int));
                        assert(mid.subrange(0, j as int).push(pair)[j as int] == pair);
                        assert(after[x] == pair);
                        assert(target[x] == (seq![(kk, vv)] + m.skip(j + 1))[0]);
                        assert(pair.0@ == kk && pair.1@ == vv);
                    } else {
                        assert(after[x] == old(params)@.remove(j as int)[x - 1]);
                        assert(old(params)@.remove(j as int)[x - 1] == old(params)@[x]);
                        assert(target[x] == (seq![(kk, vv)] + m.skip(j + 1))[x - j]);
                        assert((seq![(kk, vv)] + m.skip(j + 1))[x - j] == m.skip(j + 1)[x - j - 1]);
                        assert(m.skip(j + 1)[x - j - 1] == m[x]);
                    }
                }
                assert(params_view(after) =~= target);
            }
            return ;
        }
        j = j + 1;
    }
    proof {
        lemma_upsert_pv_skip(m, kk, vv, m.len() as int);
        assert(m.skip(m.len() as int) =~= Seq::<(Seq<char>, ParamValueV)>::empty());
    }
    params.push((key, value));
    proof {
        assert(params_view(params@) =~= m.subrange(0, m.len() as int) + seq![(kk, vv)]);
    }
}

// ========== Inline argument strings ==========

/// The comma-separated segments of an argument string, where commas
/// inside a quote pair do not split and a backslash before a closing
/// quote keeps the quote open.
pub open spec fn split_args_from(
    s: Seq<char>,
    i: int,
    cur: Seq<char>,
    q: Option<char>,
) -> Seq<Seq<char>>
    decreases s.len() - i,
    when 0 <= i <= s.len()
{
    if i >= s.len() {
        if cur.len() > 0 {
            seq![cur]
        } else {
            Seq::empty()
        }
    } else {
        let c = s[i];
        match q {
            Some(qc) => {
                if c == qc && !(i > 0 && s[i - 1] == '\\') {
                    split_args_from(s, i + 1, cur.push(c), None)
                } else {
                    split_args_from(s, i + 1, cur.push(c), Some(qc))
                }
            },
            None => {
                if c == '"' || c == '\'' {
                    split_args_from(s, i + 1, cur.push(c), Some(c))
                } else if c == ',' {
                    if cur.len() > 0 {
                        seq![cur] + split_args_from(s, i + 1, Seq::empty(), None)
                    } else {
                        split_args_from(s, i + 1, Seq::empty(), None)
                    }
                } else {
                    split_args_from(s, i + 1, cur.push(c), None)
                }
            },
        }
    }
}

/// The `key: value` bindings of the segments at or after `i`, folded
/// into `acc`: each segment with a colon and a non-empty trimmed key
/// binds the decoded trimmed value, later segments overriding earlier
/// ones.
pub open spec fn parts_params(
    parts: Seq<Seq<char>>,
    i: int,
    acc: Seq<(Seq<char>, ParamValueV)>,
) -> Seq<(Seq<char>, ParamValueV)>
    decreases parts.len() - i,
    when 0 <= i <= parts.len()
{
    if i >= parts.len() {
        acc
    } else {
        let p = parts[i];
        let ci = scan_spec(CharClass::NotColon, p, 0);
        if ci >= p.len() {
            parts_params(parts, i + 1, acc)
        } else {
            let k = spec_trim(p.subrange(0, ci));
            let vraw = spec_trim(p.subrange(ci + 1, p.len() as int));
            if k.len() == 0 {
                parts_params(parts, i + 1, acc)
            } else {
                parts_params(parts, i + 1, upsert_pv(acc, k, decoded_value(vraw)))
            }
        }
    }
}

/// The parameter map of an inline argument string: a shell invocation
/// keeps the whole text under `command`; a text with a colon is split
/// into `key: value` segments; anything else is kept under `args`.
pub open spec fn inline_args_spec(name: Seq<char>, args: Seq<char>) -> Seq<
    (Seq<char>, ParamValueV),
> {
    let t = spec_trim(args);
    if t.len() == 0 {
        Seq::empty()
    } else if name == "Bash"@ {
        seq![("command"@, ParamValueV::Text(t))]
    } else if scan_spec(CharClass::NotColon, t, 0) < t.len() {
        let m = parts_params(split_args_from(t, 0, Seq::empty(), None), 0, Seq::empty());
        if m.len() > 0 {
            m
        } else {
            seq![("args"@, ParamValueV::Text(t))]
        }
    } else {
        seq![("args"@, ParamValueV::Text(t))]
    }
}

/// Decides [`split_args_from`] over a whole slice.
fn split_args_exec(s: &[char]) -> (r: Vec<Vec<char>>)
    ensures
        r.deep_view() == split_args_from(s@, 0, Seq::empty(), None),
{
    let n = s.len();
    let mut parts: Vec<Vec<char>> = Vec::new();
    let mut cur: Vec<char> = Vec::new();
    let mut q: Option<char> = None;
    let mut i: usize = 0;
    proof {
        assert(cur@ =~= Seq::<char>::empty());
    }
    while i < n
        invariant
            n == s@.len(),
            i <= n,
            parts.deep_view() + split_args_from(s@, i as int, cur@, q) == split_args_from(
                s@,
                0,
                Seq::empty(),
                None,
            ),
        decreases n - i,
    {
        let ghost prev = parts.deep_view();
        let c = s[i];
        match q {
            Some(qc) => {
                if c == qc && !(i > 0 && s[i - 1] == '\\') {
                    q = None;
                } else {
                    q = Some(qc);
                }
                cur.push(c);
            },
            None => {
                if c == '"' || c == '\'' {
                    q = Some(c);
                    cur.push(c);
                } else if c == ',' {
                    if cur.len() > 0 {
                        let ghost cv = cur@;
                        parts.push(cur);
                        proof {
                            assert(parts.deep_view() =~= prev.push(cv));
                            assert(prev.push(cv) + split_args_from(
                                s@,
                                i + 1 as int,
                                Seq::empty(),
                                None,
                            ) =~= prev + (seq![cv] + split_args_from(
                                s@,
                                i + 1 as int,
                                Seq::empty(),
                                None,
                            )));
                        }
                        cur = Vec::new();
                    } else {
                        cur = Vec::new();
                    }
                    proof {
                        assert(cur@ =~= Seq::<char>::empty());
                    }
                } else {
                    cur.push(c);
                }
            },
        }
        i = i + 1;
    }
    if cur.len() > 0 {
        let ghost prev = parts.deep_view();
        let ghost cv = cur@;
        parts.push(cur);
        proof {
            assert(parts.deep_view() =~= prev.push(cv));
            assert(prev.push(cv) =~= prev + seq![cv]);
        }
    } else {
        proof {
            assert(parts.deep_view() + Seq::<Seq<char>>::empty() =~= parts.deep_view());
        }
    }
    parts
}

/// Decides [`inline_args_spec`].
fn parse_inline_args_chars(name: &[char], args: &[char]) -> (r: Vec<(String, ParamValue)>)
    ensures
        params_view(r@) == inline_args_spec(name@, args@),
{
    proof {
        reveal_strlit("Bash");
        reveal_strlit("command");
        reveal_strlit("args");
    }
    let t = chars::trim_chars(args);
    let mut r: Vec<(String, ParamValue)> = Vec::new();
    if t.len() == 0 {
        proof {
            assert(params_view(r@) =~= inline_args_spec(name@, args@));
        }
        return r;
    }
    let lit_bash = chars::str_chars("Bash");
    if chars::chars_eq(name, lit_bash.as_slice()) {
        r.push(
            (String::from_str("command"), ParamValue::Text(chars::chars_string(t.as_slice()))),
        );
        proof {
            assert(params_view(r@) =~= inline_args_spec(name@, args@));
        }
        return r;
    }
    let colon = chars::scan(CharClass::NotColon, t.as_slice(), 0);
    if colon < t.len() {
        let parts = split_args_exec(t.as_slice());
        let ghost pv = split_args_from(t@, 0, Seq::empty(), None);
        let mut i: usize = 0;
        proof {
            assert(params_view(r@) =~= Seq::<(Seq<char>, ParamValueV)>::empty());
        }
        while i < parts.len()
            invariant
                i <= parts@.len(),
                pv == parts.deep_view(),
                pv.len() == parts@.len(),
                forall|k: int| 0 <= k < parts@.len() ==> pv[k] == parts@[k]@,
                parts_params(pv, 0, Seq::empty()) == parts_params(
                    pv,
                    i as int,
                    params_view(r@),
                ),
            decreases parts@.len() - i,
        {
            let p = parts[i].as_slice();
            let ci = chars::scan(CharClass::NotColon, p, 0);
            if ci < p.len() {
                let kt = chars::trim_chars(chars::slice_range_vec(p, 0, ci).as_slice());
                let vt = chars::trim_chars(
                    chars::slice_range_vec(p, ci + 1, p.len()).as_slice(),
                );
                if kt.len() > 0 {
                    let key = chars::chars_string(kt.as_slice());
                    let vs = chars::chars_string(vt.as_slice());
                    let value = decode_value(vs.as_str());
                    upsert_param_pv(&mut r, key, value);
                }
            }
            i = i + 1;
        }
        if r.len() > 0 {
            return r;
        }
        let mut r2: Vec<(String, ParamValue)> = Vec::new();
        r2.push((String::from_str("args"), ParamValue::Text(chars::chars_string(t.as_slice()))));
        proof {
            assert(params_view(r@) =~= Seq::<(Seq<char>, ParamValueV)>::empty());
            assert(params_view(r2@) =~= inline_args_spec(name@, args@));
        }
        return r2;
    }
    r.push((String::from_str("args"), ParamValue::Text(chars::chars_string(t.as_slice()))));
    proof {
        assert(params_view(r@) =~= inline_args_spec(name@, args@));
    }
    r
}

// ========== The line walk ==========

/// The two rendering styles of a tool block.
#[derive(Debug, Clone, Copy, PartialEq, Eq, Structural)]
pub enum ToolStyle {
    /// A box header with bar-delimited parameter lines.
    Boxed,
    /// An inline header with marker-led output lines.
    Inline,
}

/// The accumulated reading of a tool block while walking lines.
#[verifier::ext_equal]
pub ghost struct ToolScanV {
    /// The tool name, once a header was seen.
    pub name: Option<Seq<char>>,
    /// Milliseconds of a completed run.
    pub duration_ms: Option<u64>,
    /// The parameter map.
    pub params: Seq<(Seq<char>, ParamValueV)>,
    /// Captured output lines.
    pub output: Seq<Seq<char>>,
    /// The raw lines belonging to the block.
    pub raws: Seq<Seq<char>>,
    /// The detected style.
    pub style: Option<ToolStyle>,
    /// The block ended.
    pub done: bool,
}

/// The initial reading: nothing seen.
pub open spec fn scan_init() -> ToolScanV {
    ToolScanV {
        name: None,
        duration_ms: None,
        params: Seq::empty(),
        output: Seq::empty(),
        raws: Seq::empty(),
        style: None,
        done: false,
    }
}

/// One step of the line walk: headers open a block and set name, style
/// and, for a completed box header, the duration; inside a box block,
/// parameter lines bind values, bar lines capture output, and any other
/// non-empty line ends the block; inside an inline block, marker lines
/// and indented continuations capture output, and any other non-empty
/// line ends the block.
pub open spec fn scan_step(st: ToolScanV, line: Seq<char>) -> ToolScanV {
    if st.done {
        st
    } else {
        let t = spec_trim(line);
        match rules::tool_header_box_spec(t) {
            Some(h) => ToolScanV {
                name: Some(h.0),
                duration_ms: match h.1 {
                    Some(d) => match secs_to_ms(d) {
                        Some(ms) => Some(ms),
                        None => st.duration_ms,
                    },
                    None => st.duration_ms,
                },
                raws: st.raws.push(line),
                style: Some(ToolStyle::Boxed),
                ..st
            },
            None => match rules::tool_header_inline_spec(t) {
                Some(h) => ToolScanV {
                    name: Some(h.0),
                    params: inline_args_spec(h.0, h.1),
                    raws: st.raws.push(line),
                    style: Some(ToolStyle::Inline),
                    ..st
                },
                None => match st.style {
                    Some(ToolStyle::Boxed) => match rules::tool_param_spec(t) {
                        Some(kv) => ToolScanV {
                            params: upsert_pv(st.params, kv.0, decoded_value(kv.1)),
                            raws: st.raws.push(line),
                            ..st
                        },
                        None => {
                            if t.len() > 0 && t[0] == rules::bar_char() {
                                let content = spec_trim(t.drop_first());
                                if content.len() > 0 {
                                    ToolScanV {
                                        output: st.output.push(content),
                                        raws: st.raws.push(line),
                                        ..st
                                    }
                                } else {
                                    st
                                }
                            } else if t.len() > 0 {
                                ToolScanV { done: true, ..st }
                            } else {
                                st
                            }
                        },
                    },
                    Some(ToolStyle::Inline) => match rules::inline_output_capture_spec(t) {
                        Some(content) => {
                            let ct = spec_trim(content);
                            ToolScanV {
                                output: if ct.len() > 0 {
                                    st.output.push(ct)
                                } else {
                                    st.output
                                },
                                raws: st.raws.push(line),
                                ..st
                            }
                        },
                        None => {
                            if line.len() >= 2 && line[0] == ' ' && line[1] == ' ' && !(t.len()
                                > 0 && (t[0] == rules::marker_char() || t[0] == '\u{276F}' || t[0]
                                == '>')) {
                                ToolScanV {
                                    output: st.output.push(t),
                                    raws: st.raws.push(line),
                                    ..st
                                }
                            } else if t.len() > 0 {
                                ToolScanV { done: true, ..st }
                            } else {
                                st
                            }
                        },
                    },
                    None => st,
                },
            },
        }
    }
}

/// The reading after walking the first `i` lines.
pub open spec fn tool_scan(lines: Seq<Seq<char>>, i: int) -> ToolScanV
    decreases i,
{
    if i <= 0 {
        scan_init()
    } else {
        scan_step(tool_scan(lines, i - 1), lines[i - 1])
    }
}

/// Once the walk is done, further lines change nothing.
proof fn lemma_scan_done(lines: Seq<Seq<char>>, i: int, j: int)
    requires
        0 <= i <= j <= lines.len(),
        tool_scan(lines, i).done,
    ensures
        tool_scan(lines, j) == tool_scan(lines, i),
    decreases j - i,
{
    if j > i {
        lemma_scan_done(lines, i, j - 1);
    }
}

/// The known tool names.
pub open spec fn is_known_tool_spec(name: Seq<char>) -> bool {
    name == "Bash"@ || name == "Read"@ || name == "Edit"@ || name == "Write"@ || name == "Glob"@
        || name == "Grep"@ || name == "WebFetch"@ || name == "WebSearch"@ || name == "Task"@
        || name == "LSP"@ || name == "NotebookEdit"@ || name == "Search"@ || name == "TodoRead"@
        || name == "TodoWrite"@
}

/// Confidence of a known tool name, in hundredths.
pub open spec fn known_tool_confidence() -> u32 {
    95
}

/// Confidence of an unknown tool name, in hundredths.
pub open spec fn unknown_tool_confidence() -> u32 {
    80
}

// ========== Result structures ==========

/// A parsed tool invocation.
#[derive(Debug, Clone)]
pub struct AgentToolOutput {
    /// Tool name.
    pub tool_name: String,
    /// Parameter map, in order of first binding.
    pub params: Vec<(String, ParamValue)>,
    /// Captured output text, newline-joined.
    pub output: Option<String>,
    /// Duration in milliseconds, for a completed run.
    pub duration_ms: Option<u64>,
    /// Execution status.
    pub status: ToolStatus,
}

/// View of a [`AgentToolOutput`].
#[verifier::ext_equal]
pub ghost struct AgentToolOutputV {
    /// Tool name.
    pub tool_name: Seq<char>,
    /// Parameter map.
    pub params: Seq<(Seq<char>, ParamValueV)>,
    /// Captured output text.
    pub output: Option<Seq<char>>,
    /// Duration in milliseconds.
    pub duration_ms: Option<u64>,
    /// Execution status.
    pub status: ToolStatus,
}

impl View for AgentToolOutput {
    type V = AgentToolOutputV;

    open spec fn view(&self) -> AgentToolOutputV {
        AgentToolOutputV {
            tool_name: self.tool_name@,
            params: params_view(self.params@),
            output: self.output.deep_view(),
            duration_ms: self.duration_ms,
            status: self.status,
        }
    }
}

impl AgentToolOutput {
    /// The value of the first parameter named `key`, if any.
    pub fn get_param(&self, key: &str) -> (r: Option<&ParamValue>)
        ensures
            match r {
                Some(v) => pv_lookup(params_view(self.params@), key@) == Some(v@),
                None => pv_lookup(params_view(self.params@), key@) is None,
            },
    {
        let kc = chars::str_chars(key);
        let ghost m = params_view(self.params@);
        let mut i: usize = 0;
        proof {
            assert(m.skip(0) =~= m);
        }
        while i < self.params.len()
            invariant
                kc@ == key@,
                m == params_view(self.params@),
                i <= self.params@.len(),
                pv_lookup(m, key@) == pv_lookup(m.skip(i as int), key@),
            decreases self.params@.len() - i,
        {
            let pc = chars::str_chars(self.params[i].0.as_str());
            proof {
                assert(m.skip(i as int)[0] == m[i as int]);
                assert(m.skip(i as int).drop_first() =~= m.skip(i + 1));
            }
            if chars::chars_eq(pc.as_slice(), kc.as_slice()) {
                return Some(&self.params[i].1);
            }
            i = i + 1;
        }
        None
    }
}

/// The first value bound to `key` in a parameter map.
pub open spec fn pv_lookup(m: Seq<(Seq<char>, ParamValueV)>, key: Seq<char>) -> Option<ParamValueV>
    decreases m.len(),
{
    if m.len() == 0 {
        None
    } else if m[0].0 == key {
        Some(m[0].1)
    } else {
        pv_lookup(m.drop_first(), key)
    }
}

/// A parse result with provenance and confidence.
#[derive(Debug, Clone)]
pub struct ToolOutputResult {
    /// Output type tag.
    pub output_type: String,
    /// The raw block text that was parsed.
    pub raw: String,
    /// Parsed tool data.
    pub data: AgentToolOutput,
    /// Confidence in hundredths (0..=100).
    pub confidence: u32,
}

/// The full decision of the classifier over a context's lines.
pub open spec fn tool_parse_spec(lines: Seq<Seq<char>>) -> Option<
    (AgentToolOutputV, Seq<char>, u32),
> {
    let st = tool_scan(lines, lines.len() as int);
    match st.name {
        None => None,
        Some(nm) => Some(
            (
                AgentToolOutputV {
                    tool_name: nm,
                    params: st.params,
                    output: if st.output.len() == 0 {
                        None
                    } else {
                        Some(join_lines(st.output))
                    },
                    duration_ms: st.duration_ms,
                    status: if st.duration_ms is Some {
                        ToolStatus::Completed
                    } else {
                        ToolStatus::Running
                    },
                },
                join_lines(st.raws),
                if is_known_tool_spec(nm) {
                    known_tool_confidence()
                } else {
                    unknown_tool_confidence()
                },
            ),
        ),
    }
}

/// A line opens or continues a tool block visibly: a box header, an
/// inline header, or an inline output line.
pub open spec fn tool_signal_line(line: Seq<char>) -> bool {
    let t = spec_trim(line);
    rules::tool_header_box_spec(t) is Some || rules::tool_header_inline_spec(t) is Some
        || rules::inline_output_capture_spec(t) is Some
}

// ========== The classifier ==========

/// The tool-output classifier.
pub struct AgentToolOutputParser {
    meta: ParserMeta,
}

impl AgentToolOutputParser {
    /// A new tool-output classifier.
    pub fn new() -> Self {
        Self {
            meta: ParserMeta {
                name: String::from_str("agent-tool"),
                description: String::from_str("Parses tool invocation blocks"),
                priority: 92,
                version: String::from_str("1.0.0"),
            },
        }
    }

    /// The classifier's metadata.
    pub fn meta(&self) -> &ParserMeta {
        &self.meta
    }

    /// Decides [`is_known_tool_spec`].
    pub fn is_known_tool(&self, name: &str) -> (b: bool)
        ensures
            b == is_known_tool_spec(name@),
    {
        let nc = chars::str_chars(name);
        let ns = nc.as_slice();
        name_is(ns, "Bash") || name_is(ns, "Read") || name_is(ns, "Edit") || name_is(ns, "Write")
            || name_is(ns, "Glob") || name_is(ns, "Grep") || name_is(ns, "WebFetch") || name_is(
            ns,
            "WebSearch",
        ) || name_is(ns, "Task") || name_is(ns, "LSP") || name_is(ns, "NotebookEdit") || name_is(
            ns,
            "Search",
        ) || name_is(ns, "TodoRead") || name_is(ns, "TodoWrite")
    }

    /// The comma-splitting of an inline argument string.
    pub fn split_args(&self, args: &str) -> (r: Vec<String>)
        ensures
            r.deep_view() == split_args_from(args@, 0, Seq::empty(), None),
    {
        let ac = chars::str_chars(args);
        let parts = split_args_exec(ac.as_slice());
        let ghost pv = parts.deep_view();
        let mut r: Vec<String> = Vec::new();
        let mut i: usize = 0;
        proof {
            assert(r.deep_view() =~= pv.subrange(0, 0));
        }
        while i < parts.len()
            invariant
                i <= parts@.len(),
                pv == parts.deep_view(),
                pv.len() == parts@.len(),
                forall|k: int| 0 <= k < parts@.len() ==> pv[k] == parts@[k]@,
                r@.len() == i,
                r.deep_view() == pv.subrange(0, i as int),
            decreases parts@.len() - i,
        {
            let s = chars::chars_string(parts[i].as_slice());
            let ghost sv = s@;
            let ghost before = r.deep_view();
            r.push(s);
            proof {
                assert(r.deep_view() =~= before.push(sv));
                assert(before.push(sv) =~= pv.subrange(0, i + 1 as int));
            }
            i = i + 1;
        }
        proof {
            assert(pv.subrange(0, pv.len() as int) =~= pv);
        }
        r
    }

    /// The parameter map of an inline argument string, per
    /// [`inline_args_spec`].
    pub fn parse_inline_args(&self, tool_name: &str, args: &str) -> (r: Vec<(String, ParamValue)>)
        ensures
            params_view(r@) == inline_args_spec(tool_name@, args@),
    {
        let nc = chars::str_chars(tool_name);
        let ac = chars::str_chars(args);
        parse_inline_args_chars(nc.as_slice(), ac.as_slice())
    }

    /// Whether any line shows a tool block signal.
    pub fn can_parse(&self, context: &ParserContext) -> (b: bool)
        ensures
            b == (exists|k: int|
                0 <= k < context@.lines.len() && tool_signal_line(context@.lines[k])),
    {
        let lines = &context.last_lines;
        let mut i: usize = 0;
        while i < lines.len()
            invariant
                i <= lines@.len(),
                context@.lines.len() == lines@.len(),
                forall|k: int| 0 <= k < lines@.len() ==> context@.lines[k] == lines@[k]@,
                forall|k: int| 0 <= k < i ==> !tool_signal_line(context@.lines[k]),
            decreases lines@.len() - i,
        {
            let lc = chars::str_chars(lines[i].as_str());
            let t = chars::trim_chars(lc.as_slice());
            let hit = rules::tool_header_box_match(t.as_slice()).is_some()
                || rules::tool_header_inline_match(t.as_slice()).is_some()
                || rules::inline_output_capture_match(t.as_slice()).is_some();
            if hit {
                proof {
                    assert(tool_signal_line(context@.lines[i as int]));
                }
                return true;
            }
            i = i + 1;
        }
        false
    }

    /// Walks the lines and decodes the tool block, per
    /// [`tool_parse_spec`].
    pub fn parse(&self, context: &ParserContext) -> (r: Option<ToolOutputResult>)
        ensures
            match r {
                Some(v) => tool_parse_spec(context@.lines) == Some(
                    (v.data@, v.raw@, v.confidence),
                ) && v.output_type@ == "agent-tool"@,
                None => tool_parse_spec(context@.lines) is None,
            },
    {
        let ghost lv = context@.lines;
        let lines = &context.last_lines;
        let mut name: Option<Vec<char>> = None;
        let mut duration_ms: Option<u64> = None;
        let mut params: Vec<(String, ParamValue)> = Vec::new();
        let mut output: Vec<Vec<char>> = Vec::new();
        let mut raws: Vec<Vec<char>> = Vec::new();
        let mut style: Option<ToolStyle> = None;
        let mut done = false;
        let mut i: usize = 0;
        proof {
            assert(params_view(params@) =~= scan_init().params);
            assert(output.deep_view() =~= scan_init().output);
            assert(raws.deep_view() =~= scan_init().raws);
        }
        while i < lines.len() && !done
            invariant
                i <= lines@.len(),
                lv == context@.lines,
                lv.len() == lines@.len(),
                forall|k: int| 0 <= k < lines@.len() ==> lv[k] == lines@[k]@,
                tool_scan(lv, i as int) == (ToolScanV {
                    name: name.deep_view(),
                    duration_ms,
                    params: params_view(params@),
                    output: output.deep_view(),
                    raws: raws.deep_view(),
                    style,
                    done,
                }),
            decreases lines@.len() - i, (if done { 0int } else { 1int }),
        {
            let ghost st = tool_scan(lv, i as int);
            let lc = chars::str_chars(lines[i].as_str());
            let t = chars::trim_chars(lc.as_slice());
            let ts = t.as_slice();
            match rules::tool_header_box_match(ts) {
                Some(h) => {
                    match h.1 {
                        Some(d) => {
                            proof {
                                rules::lemma_box_duration_numdot(spec_trim(lv[i as int]));
                            }
                            match chars::parse_secs_ms(d.as_slice()) {
                                Some(ms) => {
                                    duration_ms = Some(ms);
                                },
                                None => {},
                            }
                        },
                        None => {},
                    }
                    name = Some(h.0);
                    style = Some(ToolStyle::Boxed);
                    let ghost rprev = raws.deep_view();
                    raws.push(lc);
                    proof {
                        assert(raws.deep_view() =~= rprev.push(lv[i as int]));
                        assert(tool_scan(lv, i + 1 as int) =~= (ToolScanV {
                            name: name.deep_view(),
                            duration_ms,
                            params: params_view(params@),
                            output: output.deep_view(),
                            raws: raws.deep_view(),
                            style,
                            done,
                        }));
                    }
                },
                None => {
                    match rules::tool_header_inline_match(ts) {
                        Some(h) => {
                            params = parse_inline_args_chars(h.0.as_slice(), h.1.as_slice());
                            name = Some(h.0);
                            style = Some(ToolStyle::Inline);
                            let ghost rprev = raws.deep_view();
                            raws.push(lc);
                            proof {
                                assert(raws.deep_view() =~= rprev.push(lv[i as int]));
                                assert(tool_scan(lv, i + 1 as int) =~= (ToolScanV {
                                    name: name.deep_view(),
                                    duration_ms,
                                    params: params_view(params@),
                                    output: output.deep_view(),
                                    raws: raws.deep_view(),
                                    style,
                                    done,
                                }));
                            }
                        },
                        None => {
                            let is_boxed = matches!(style, Some(ToolStyle::Boxed));
                            let is_inline = matches!(style, Some(ToolStyle::Inline));
                            if is_boxed {
                                match rules::tool_param_match(ts) {
                                    Some(kv) => {
                                        let key = chars::chars_string(kv.0.as_slice());
                                        let vs = chars::chars_string(kv.1.as_slice());
                                        let value = decode_value(vs.as_str());
                                        upsert_param_pv(&mut params, key, value);
                                        let ghost rprev = raws.deep_view();
                                        raws.push(lc);
                                        proof {
                                            assert(raws.deep_view() =~= rprev.push(lv[i as int]));
                                            assert(tool_scan(lv, i + 1 as int) =~= (ToolScanV {
                                                name: name.deep_view(),
                                                duration_ms,
                                                params: params_view(params@),
                                                output: output.deep_view(),
                                                raws: raws.deep_view(),
                                                style,
                                                done,
                                            }));
                                        }
                                    },
                                    None => {
                                        if t.len() > 0 && t[0] == '\u{2502}' {
                                            let rest = chars::slice_range_vec(ts, 1, t.len());
                                            let content = chars::trim_chars(rest.as_slice());
                                            proof {
                                                assert(rest@ =~= spec_trim(
                                                    lv[i as int],
                                                ).drop_first());
                                            }
                                            if content.len() > 0 {
                                                let ghost oprev = output.deep_view();
                                                let ghost rprev = raws.deep_view();
                                                let ghost cv = content@;
                                                output.push(content);
                                                raws.push(lc);
                                                proof {
                                                    assert(output.deep_view() =~= oprev.push(cv));
                                                    assert(raws.deep_view() =~= rprev.push(
                                                        lv[i as int],
                                                    ));
                                                    assert(tool_scan(lv, i + 1 as int)
                                                        =~= (ToolScanV {
                                                        name: name.deep_view(),
                                                        duration_ms,
                                                        params: params_view(params@),
                                                        output: output.deep_view(),
                                                        raws: raws.deep_view(),
                                                        style,
                                                        done,
                                                    }));
                                                }
                                            } else {
                                                proof {
                                                    assert(tool_scan(lv, i + 1 as int) == st);
                                                }
                                            }
                                        } else if t.len() > 0 {
                                            done = true;
                                            proof {
                                                assert(tool_scan(lv, i + 1 as int)
                                                    =~= (ToolScanV { done: true, ..st }));
                                            }
                                        } else {
                                            proof {
                                                assert(tool_scan(lv, i + 1 as int) == st);
                                            }
                                        }
                                    },
                                }
                            } else if is_inline {
                                match rules::inline_output_capture_match(ts) {
                                    Some(content) => {
                                        let ct = chars::trim_chars(content.as_slice());
                                        if ct.len() > 0 {
                                            let ghost oprev = output.deep_view();
                                            let ghost cv = ct@;
                                            output.push(ct);
                                            proof {
                                                assert(output.deep_view() =~= oprev.push(cv));
                                            }
                                        }
                                        let ghost rprev = raws.deep_view();
                                        raws.push(lc);
                                        proof {
                                            assert(raws.deep_view() =~= rprev.push(lv[i as int]));
                                            assert(tool_scan(lv, i + 1 as int) =~= (ToolScanV {
                                                name: name.deep_view(),
                                                duration_ms,
                                                params: params_view(params@),
                                                output: output.deep_view(),
                                                raws: raws.deep_view(),
                                                style,
                                                done,
                                            }));
                                        }
                                    },
                                    None => {
                                        let indented = lc.len() >= 2 && lc[0] == ' ' && lc[1]
                                            == ' ';
                                        let headish = t.len() > 0 && (t[0] == '\u{23FA}' || t[0]
                                            == '\u{276F}' || t[0] == '>');
                                        if indented && !headish {
                                            let ghost oprev = output.deep_view();
                                            let ghost rprev = raws.deep_view();
                                            let ghost tv = t@;
                                            output.push(t);
                                            raws.push(lc);
                                            proof {
                                                assert(output.deep_view() =~= oprev.push(tv));
                                                assert(raws.deep_view() =~= rprev.push(
                                                    lv[i as int],
                                                ));
                                                assert(tool_scan(lv, i + 1 as int) =~= (ToolScanV {
                                                    name: name.deep_view(),
                                                    duration_ms,
                                                    params: params_view(params@),
                                                    output: output.deep_view(),
                                                    raws: raws.deep_view(),
                                                    style,
                                                    done,
                                                }));
                                            }
                                        } else if t.len() > 0 {
                                            done = true;
                                            proof {
                                                assert(tool_scan(lv, i + 1 as int)
                                                    =~= (ToolScanV { done: true, ..st }));
                                            }
                                        } else {
                                            proof {
                                                assert(tool_scan(lv, i + 1 as int) == st);
                                            }
                                        }
                                    },
                                }
                            } else {
                                proof {
                                    assert(tool_scan(lv, i + 1 as int) == st);
                                }
                            }
                        },
                    }
                },
            }
            i = i + 1;
        }
        proof {
            if done {
                lemma_scan_done(lv, i as int, lv.len() as int);
            }
            assert(tool_scan(lv, lv.len() as int) == (ToolScanV {
                name: name.deep_view(),
                duration_ms,
                params: params_view(params@),
                output: output.deep_view(),
                raws: raws.deep_view(),
                style,
                done,
            }));
        }
        match name {
            None => None,
            Some(nm) => {
                let tool_name = chars::chars_string(nm.as_slice());
                let out_str: Option<String> = if output.len() == 0 {
                    None
                } else {
                    Some(join_char_lines(&output))
                };
                let status = if duration_ms.is_some() {
                    ToolStatus::Completed
                } else {
                    ToolStatus::Running
                };
                let raw = join_char_lines(&raws);
                let confidence: u32 = if self.is_known_tool(tool_name.as_str()) {
                    95
                } else {
                    80
                };
                let data = AgentToolOutput {
                    tool_name,
                    params,
                    output: out_str,
                    duration_ms,
                    status,
                };
                proof {
                    assert(data@ =~= tool_parse_spec(lv)->Some_0.0);
                }
                Some(
                    ToolOutputResult {
                        output_type: String::from_str("agent-tool"),
                        raw,
                        data,
                        confidence,
                    },
                )
            },
        }
    }
}

impl Default for AgentToolOutputParser {
    /// Same as [`AgentToolOutputParser::new`].
    fn default() -> Self {
        Self::new()
    }
}

/// Whether the characters equal the given name.
fn name_is(name: &[char], lit: &str) -> (b: bool)
    ensures
        b == (name@ == lit@),
{
    let lc = chars::str_chars(lit);
    chars::chars_eq(name, lc.as_slice())
}

/// The known tool names, in their fixed order.
pub fn known_tool_names() -> (r: Vec<String>)
    ensures
        r.deep_view() == seq![
            "Bash"@, "Read"@, "Edit"@, "Write"@, "Glob"@, "Grep"@, "WebFetch"@, "WebSearch"@,
            "Task"@, "LSP"@, "NotebookEdit"@, "Search"@, "TodoRead"@, "TodoWrite"@,
        ],
{
    let mut r: Vec<String> = Vec::new();
    r.push(String::from_str("Bash"));
    r.push(String::from_str("Read"));
    r.push(String::from_str("Edit"));
    r.push(String::from_str("Write"));
    r.push(String::from_str("Glob"));
    r.push(String::from_str("Grep"));
    r.push(String::from_str("WebFetch"));
    r.push(String::from_str("WebSearch"));
    r.push(String::from_str("Task"));
    r.push(String::from_str("LSP"));
    r.push(String::from_str("NotebookEdit"));
    r.push(String::from_str("Search"));
    r.push(String::from_str("TodoRead"));
    r.push(String::from_str("TodoWrite"));
    proof {
        assert(r.deep_view() =~= seq![
            "Bash"@, "Read"@, "Edit"@, "Write"@, "Glob"@, "Grep"@, "WebFetch"@, "WebSearch"@,
            "Task"@, "LSP"@, "NotebookEdit"@, "Search"@, "TodoRead"@, "TodoWrite"@,
        ]);
    }
    r
}

} // verus!
