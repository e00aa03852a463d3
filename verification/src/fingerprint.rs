//! The fingerprint registry.
//!
//! A fingerprint is a named, prioritized text pattern with a category;
//! the registry owns a table of them, answers lookups by identifier and
//! by category, and runs a single extraction pass that tests every
//! fingerprint against a context and derives boolean hints.

use vstd::prelude::*;
use crate::chars::{self, contains_seq};
use crate::rules::{self, PatternRule};
use crate::types::{ParserContext, ParserContextV, ParserMeta};

verus! {

broadcast use crate::chars::lemma_vec_char_deep_view;

/// Kind of a fingerprint pattern.
#[derive(Debug, Clone, Copy, PartialEq, Eq, Structural)]
pub enum FingerprintType {
    /// A named grammar rule.
    Regex,
    /// A set of literals, any of which matches.
    Enum,
    /// A literal substring.
    String,
    /// A marker: a set of literals used as a special marker.
    Marker,
}

/// Category of a fingerprint.
#[derive(Debug, Clone, Copy, PartialEq, Eq, Hash, Structural)]
pub enum FingerprintCategory {
    /// Activity spinner glyphs.
    Spinner,
    /// Status-bar patterns.
    Statusbar,
    /// Input prompts.
    Prompt,
    /// Separator lines.
    Separator,
    /// Assistant response markers.
    Assistant,
    /// Tool invocation patterns.
    Tool,
    /// Error indicators.
    Error,
    /// Confirmation dialog patterns.
    Confirm,
}

/// The pattern of a fingerprint: a named grammar rule, a literal
/// substring, or a set of literals.
#[derive(Debug, Clone)]
pub enum FingerprintPattern {
    /// A named grammar rule with captures.
    Rule(PatternRule),
    /// A literal substring.
    String(String),
    /// A set of literals; the first one contained in a line matches.
    Enum(Vec<String>),
}

/// View of a [`FingerprintPattern`].
pub ghost enum FingerprintPatternV {
    /// A named grammar rule.
    Rule(PatternRule),
    /// A literal substring.
    String(Seq<char>),
    /// A set of literals.
    Enum(Seq<Seq<char>>),
}

impl View for FingerprintPattern {
    type V = FingerprintPatternV;

    open spec fn view(&self) -> FingerprintPatternV {
        match self {
            FingerprintPattern::Rule(r) => FingerprintPatternV::Rule(*r),
            FingerprintPattern::String(s) => FingerprintPatternV::String(s@),
            FingerprintPattern::Enum(v) => FingerprintPatternV::Enum(v.deep_view()),
        }
    }
}

/// A named, prioritized pattern with a category and a confidence.
#[derive(Debug, Clone)]
pub struct Fingerprint {
    /// Unique identifier.
    pub id: String,
    /// Kind of pattern matching.
    pub fingerprint_type: FingerprintType,
    /// Category for grouping.
    pub category: FingerprintCategory,
    /// Pattern to match.
    pub pattern: FingerprintPattern,
    /// Confidence in hundredths (0..=100).
    pub confidence: u32,
    /// Priority; higher is preferred within a category.
    pub priority: u32,
    /// Source tag for provenance.
    pub source: String,
}

/// View of a [`Fingerprint`].
#[verifier::ext_equal]
pub ghost struct FingerprintV {
    /// Unique identifier.
    pub id: Seq<char>,
    /// Kind of pattern matching.
    pub fingerprint_type: FingerprintType,
    /// Category for grouping.
    pub category: FingerprintCategory,
    /// Pattern to match.
    pub pattern: FingerprintPatternV,
    /// Confidence in hundredths.
    pub confidence: u32,
    /// Priority.
    pub priority: u32,
    /// Source tag.
    pub source: Seq<char>,
}

impl View for Fingerprint {
    type V = FingerprintV;

    open spec fn view(&self) -> FingerprintV {
        FingerprintV {
            id: self.id@,
            fingerprint_type: self.fingerprint_type,
            category: self.category,
            pattern: self.pattern@,
            confidence: self.confidence,
            priority: self.priority,
            source: self.source@,
        }
    }
}

/// Result of testing one fingerprint against a context.
#[derive(Debug, Clone)]
pub struct FingerprintMatch {
    /// The fingerprint's identifier.
    pub fingerprint_id: String,
    /// Whether the pattern matched.
    pub matched: bool,
    /// Captured runs, for grammar rules with captures and for literal
    /// sets, where the matched literal is the sole capture.
    pub captures: Option<Vec<String>>,
    /// Index of the line where the match occurred; absent for a match
    /// found only in the full buffer, and for a non-match.
    pub line_index: Option<usize>,
}

/// View of a [`FingerprintMatch`].
#[verifier::ext_equal]
pub ghost struct FingerprintMatchV {
    /// The fingerprint's identifier.
    pub fingerprint_id: Seq<char>,
    /// Whether the pattern matched.
    pub matched: bool,
    /// Captured runs.
    pub captures: Option<Seq<Seq<char>>>,
    /// Line index of the match.
    pub line_index: Option<usize>,
}

impl View for FingerprintMatch {
    type V = FingerprintMatchV;

    open spec fn view(&self) -> FingerprintMatchV {
        FingerprintMatchV {
            fingerprint_id: self.fingerprint_id@,
            matched: self.matched,
            captures: self.captures.deep_view(),
            line_index: self.line_index,
        }
    }
}

/// Boolean hints derived from an extraction pass.
#[derive(Debug, Clone, Copy, PartialEq, Eq, Structural)]
pub struct FingerprintHints {
    /// A spinner fingerprint matched.
    pub has_spinner: bool,
    /// A prompt fingerprint matched.
    pub has_prompt: bool,
    /// A tool fingerprint matched.
    pub has_tool_output: bool,
    /// A confirmation fingerprint matched.
    pub has_confirm_dialog: bool,
    /// An error fingerprint matched.
    pub has_error: bool,
}

impl Default for FingerprintHints {
    /// All hints cleared.
    fn default() -> (r: Self)
        ensures
            !r.has_spinner && !r.has_prompt && !r.has_tool_output && !r.has_confirm_dialog
                && !r.has_error,
    {
        FingerprintHints {
            has_spinner: false,
            has_prompt: false,
            has_tool_output: false,
            has_confirm_dialog: false,
            has_error: false,
        }
    }
}

// ========== The registry model ==========

/// The first fingerprint bound to `id`.
pub open spec fn spec_get(m: Seq<FingerprintV>, id: Seq<char>) -> Option<FingerprintV>
    decreases m.len(),
{
    if m.len() == 0 {
        None
    } else if m[0].id == id {
        Some(m[0])
    } else {
        spec_get(m.drop_first(), id)
    }
}

/// `m` with the binding of `f.id` replaced by `f`, or with `f` appended
/// when its identifier is unbound.
pub open spec fn spec_put(m: Seq<FingerprintV>, f: FingerprintV) -> Seq<FingerprintV>
    decreases m.len(),
{
    if m.len() == 0 {
        seq![f]
    } else if m[0].id == f.id {
        seq![f] + m.drop_first()
    } else {
        seq![m[0]] + spec_put(m.drop_first(), f)
    }
}

/// A batch of puts, in order.
pub open spec fn spec_put_all(m: Seq<FingerprintV>, fs: Seq<FingerprintV>) -> Seq<FingerprintV>
    decreases fs.len(),
{
    if fs.len() == 0 {
        m
    } else {
        spec_put_all(spec_put(m, fs[0]), fs.drop_first())
    }
}

/// Identifiers are pairwise distinct.
pub open spec fn ids_unique(m: Seq<FingerprintV>) -> bool {
    forall|i: int, j: int| 0 <= i < j < m.len() ==> m[i].id != m[j].id
}

/// Looking up an identifier right after registering a fingerprint with
/// that identifier returns exactly that fingerprint.
pub proof fn lemma_get_after_put(m: Seq<FingerprintV>, f: FingerprintV)
    ensures
        spec_get(spec_put(m, f), f.id) == Some(f),
    decreases m.len(),
{
    if m.len() == 0 {
    } else if m[0].id == f.id {
        assert((seq![f] + m.drop_first())[0] == f);
    } else {
        lemma_get_after_put(m.drop_first(), f);
        let r = seq![m[0]] + spec_put(m.drop_first(), f);
        assert(r[0] == m[0]);
        assert(r.drop_first() =~= spec_put(m.drop_first(), f));
    }
}

/// Registering a fingerprint leaves every other identifier's binding
/// unchanged.
pub proof fn lemma_put_preserves_others(m: Seq<FingerprintV>, f: FingerprintV, id: Seq<char>)
    requires
        id != f.id,
    ensures
        spec_get(spec_put(m, f), id) == spec_get(m, id),
    decreases m.len(),
{
    if m.len() == 0 {
        assert(seq![f][0] == f);
        assert(seq![f].drop_first() =~= Seq::<FingerprintV>::empty());
        assert(spec_get(seq![f], id) == spec_get(seq![f].drop_first(), id));
        assert(spec_get(Seq::<FingerprintV>::empty(), id) is None);
        assert(spec_get(m, id) is None);
    } else if m[0].id == f.id {
        let r = seq![f] + m.drop_first();
        assert(r[0] == f);
        assert(r.drop_first() =~= m.drop_first());
        assert(spec_get(r, id) == spec_get(m.drop_first(), id));
        assert(spec_get(m, id) == spec_get(m.drop_first(), id));
    } else {
        lemma_put_preserves_others(m.drop_first(), f, id);
        let r = seq![m[0]] + spec_put(m.drop_first(), f);
        assert(r[0] == m[0]);
        assert(r.drop_first() =~= spec_put(m.drop_first(), f));
        if id == m[0].id {
            assert(spec_get(r, id) == Some(m[0]));
            assert(spec_get(m, id) == Some(m[0]));
        } else {
            assert(spec_get(r, id) == spec_get(spec_put(m.drop_first(), f), id));
            assert(spec_get(m, id) == spec_get(m.drop_first(), id));
        }
    }
}

/// `spec_put` binds every identifier once: it preserves uniqueness and
/// never duplicates an already-registered identifier.
pub proof fn lemma_put_keeps_ids_unique(m: Seq<FingerprintV>, f: FingerprintV)
    requires
        ids_unique(m),
    ensures
        ids_unique(spec_put(m, f)),
        spec_put(m, f).len() == if spec_get(m, f.id) is Some {
            m.len() as int
        } else {
            m.len() as int + 1
        },
    decreases m.len(),
{
    if m.len() == 0 {
    } else if m[0].id == f.id {
        let r = seq![f] + m.drop_first();
        assert forall|i: int, j: int| 0 <= i < j < r.len() implies r[i].id != r[j].id by {
            if i == 0 {
                assert(r[j] == m[j]);
            } else {
                assert(r[i] == m[i] && r[j] == m[j]);
            }
        }
    } else {
        assert(ids_unique(m.drop_first()));
        lemma_put_keeps_ids_unique(m.drop_first(), f);
        lemma_put_frame(m.drop_first(), f);
        let r = seq![m[0]] + spec_put(m.drop_first(), f);
        let p = spec_put(m.drop_first(), f);
        assert forall|i: int, j: int| 0 <= i < j < r.len() implies r[i].id != r[j].id by {
            if i == 0 {
                assert(r[j] == p[j - 1]);
                if p[j - 1].id == m[0].id {
                    lemma_put_member_ids(m.drop_first(), f, j - 1);
                }
            } else {
                assert(r[i] == p[i - 1] && r[j] == p[j - 1]);
            }
        }
    }
}

/// Every identifier in `spec_put(m, f)` is `f`'s or one of `m`'s.
proof fn lemma_put_member_ids(m: Seq<FingerprintV>, f: FingerprintV, k: int)
    requires
        0 <= k < spec_put(m, f).len(),
    ensures
        spec_put(m, f)[k].id == f.id || (exists|x: int|
            0 <= x < m.len() && m[x].id == spec_put(m, f)[k].id),
    decreases m.len(),
{
    if m.len() == 0 {
    } else if m[0].id == f.id {
        if k > 0 {
            assert((seq![f] + m.drop_first())[k] == m[k]);
        }
    } else {
        let r = seq![m[0]] + spec_put(m.drop_first(), f);
        if k == 0 {
            assert(r[0] == m[0]);
        } else {
            assert(r[k] == spec_put(m.drop_first(), f)[k - 1]);
            lemma_put_member_ids(m.drop_first(), f, k - 1);
            if spec_put(m.drop_first(), f)[k - 1].id != f.id {
                let x = choose|x: int|
                    0 <= x < m.drop_first().len() && m.drop_first()[x].id == spec_put(
                        m.drop_first(),
                        f,
                    )[k - 1].id;
                assert(m[x + 1].id == r[k].id);
            }
        }
    }
}

/// The length of `spec_put` in terms of whether the identifier is bound.
proof fn lemma_put_frame(m: Seq<FingerprintV>, f: FingerprintV)
    ensures
        spec_put(m, f).len() == if spec_get(m, f.id) is Some {
            m.len() as int
        } else {
            m.len() as int + 1
        },
    decreases m.len(),
{
    if m.len() == 0 {
    } else if m[0].id == f.id {
    } else {
        lemma_put_frame(m.drop_first(), f);
    }
}

// ========== The registry ==========

/// The fingerprint registry: a table of fingerprints with distinct
/// identifiers, in order of first registration.
#[derive(Debug)]
pub struct FingerprintRegistry {
    fingerprints: Vec<Fingerprint>,
}

impl FingerprintRegistry {
    /// The registered fingerprints, in order of first registration.
    pub closed spec fn fps(&self) -> Seq<FingerprintV> {
        Seq::new(self.fingerprints@.len(), |i: int| self.fingerprints@[i]@)
    }

    /// Well-formedness: identifiers are distinct.
    pub open spec fn inv(&self) -> bool {
        ids_unique(self.fps())
    }

    /// A new empty registry.
    pub fn new() -> (r: Self)
        ensures
            r.inv(),
            r.fps().len() == 0,
    {
        let r = Self { fingerprints: Vec::new() };
        proof {
            assert(r.fps() =~= Seq::<FingerprintV>::empty());
        }
        r
    }

    /// Registers a fingerprint: replaces the binding of its identifier,
    /// or appends it.  Afterwards the identifier is bound to exactly
    /// this fingerprint, every other binding is unchanged, and the
    /// identifier occurs exactly once — re-registration never
    /// duplicates an entry.
    pub fn register(&mut self, fp: Fingerprint)
        requires
            old(self).inv(),
        ensures
            final(self).inv(),
            final(self).fps() == spec_put(old(self).fps(), fp@),
            spec_get(final(self).fps(), fp@.id) == Some(fp@),
            forall|id: Seq<char>|
                id != fp@.id ==> spec_get(final(self).fps(), id) == spec_get(old(self).fps(), id),
    {
        let ghost m = self.fps();
        let ghost fv = fp@;
        proof {
            lemma_get_after_put(m, fv);
            lemma_put_keeps_ids_unique(m, fv);
            assert forall|id: Seq<char>| id != fv.id implies spec_get(spec_put(m, fv), id)
                == spec_get(m, id) by {
                lemma_put_preserves_others(m, fv, id);
            }
        }
        let idc = chars::str_chars(fp.id.as_str());
        let mut j: usize = 0;
        while j < self.fingerprints.len()
            invariant
                self.fingerprints@ == old(self).fingerprints@,
                m == self.fps(),
                m == old(self).fps(),
                fv == fp@,
                idc@ == fp.id@,
                j <= self.fingerprints@.len(),
                forall|i: int| 0 <= i < j ==> m[i].id != fv.id,
                spec_get(spec_put(m, fv), fv.id) == Some(fv),
                ids_unique(spec_put(m, fv)),
                forall|id: Seq<char>|
                    id != fv.id ==> spec_get(spec_put(m, fv), id) == spec_get(m, id),
            decreases self.fingerprints@.len() - j,
        {
            let pc = chars::str_chars(self.fingerprints[j].id.as_str());
            if chars::chars_eq(pc.as_slice(), idc.as_slice()) {
                proof {
                    lemma_put_skip(m, fv, j as int);
                    assert(m.skip(j as int)[0] == m[j as int]);
                    assert(m.skip(j as int).drop_first() =~= m.skip(j + 1));
                }
                self.fingerprints.remove(j);
                self.fingerprints.insert(j, fp);
                proof {
                    let after = self.fingerprints@;
                    let mid = old(self).fingerprints@.remove(j as int);
                    let target = m.subrange(0, j as int) + (seq![fv] + m.skip(j + 1));
                    assert(after.len() == target.len());
                    assert forall|x: int| 0 <= x < after.len() implies self.fps()[x]
                        == target[x] by {
                        if x < j {
                            assert(after[x] == old(self).fingerprints@[x]);
                        } else if x == j {
                            mid.insert_ensures(j as int, after[j as int]);
                        } else {
                            assert(after[x] == old(self).fingerprints@.remove(j as int)[x - 1]);
                            assert(old(self).fingerprints@.remove(j as int)[x - 1] == old(
                                self,
                            ).fingerprints@[x]);
                        }
                    }
                    assert(self.fps() =~= target);
                }
                return ;
            }
            j = j + 1;
        }
        proof {
            lemma_put_skip(m, fv, m.len() as int);
            assert(m.skip(m.len() as int) =~= Seq::<FingerprintV>::empty());
        }
        self.fingerprints.push(fp);
        proof {
            assert(self.fps() =~= m.subrange(0, m.len() as int) + seq![fv]);
        }
    }

    /// Registers a batch of fingerprints, in order.
    pub fn register_all(&mut self, fps: Vec<Fingerprint>)
        requires
            old(self).inv(),
        ensures
            final(self).inv(),
            final(self).fps() == spec_put_all(old(self).fps(), fps.deep_view_fps()),
    {
        let ghost batch = fps.deep_view_fps();
        let n = fps.len();
        let mut rest = fps;
        let mut i: usize = 0;
        proof {
            assert(batch.skip(0) =~= batch);
        }
        while i < n
            invariant
                self.inv(),
                n == batch.len(),
                rest@.len() == n - i,
                forall|k: int| 0 <= k < rest@.len() ==> rest@[k]@ == batch[i + k],
                spec_put_all(old(self).fps(), batch) == spec_put_all(
                    self.fps(),
                    batch.skip(i as int),
                ),
            decreases n - i,
        {
            let ghost pre = self.fps();
            let fp = rest.remove(0);
            proof {
                assert(fp@ == batch[i as int]);
                assert(batch.skip(i as int)[0] == batch[i as int]);
                assert(batch.skip(i as int).drop_first() =~= batch.skip(i + 1));
            }
            self.register(fp);
            i = i + 1;
        }
        proof {
            assert(batch.skip(n as int) =~= Seq::<FingerprintV>::empty());
        }
    }

    /// The fingerprint bound to `id`, if any.
    pub fn get(&self, id: &str) -> (r: Option<&Fingerprint>)
        ensures
            match r {
                Some(f) => spec_get(self.fps(), id@) == Some(f@),
                None => spec_get(self.fps(), id@) is None,
            },
    {
        let idc = chars::str_chars(id);
        let mut j: usize = 0;
        proof {
            assert(self.fps().skip(0) =~= self.fps());
        }
        while j < self.fingerprints.len()
            invariant
                idc@ == id@,
                j <= self.fingerprints@.len(),
                spec_get(self.fps(), id@) == spec_get(self.fps().skip(j as int), id@),
            decreases self.fingerprints@.len() - j,
        {
            let pc = chars::str_chars(self.fingerprints[j].id.as_str());
            proof {
                assert(self.fps().skip(j as int)[0] == self.fps()[j as int]);
                assert(self.fps().skip(j as int).drop_first() =~= self.fps().skip(j + 1));
            }
            if chars::chars_eq(pc.as_slice(), idc.as_slice()) {
                return Some(&self.fingerprints[j]);
            }
            j = j + 1;
        }
        None
    }

    /// Empties the registry.
    pub fn clear(&mut self)
        ensures
            final(self).inv(),
            final(self).fps().len() == 0,
    {
        self.fingerprints.clear();
        proof {
            assert(self.fps() =~= Seq::<FingerprintV>::empty());
        }
    }
}

impl Default for FingerprintRegistry {
    /// Same as [`FingerprintRegistry::new`].
    fn default() -> (r: Self)
        ensures
            r.inv(),
            r.fps().len() == 0,
    {
        Self::new()
    }
}

/// An unbound prefix factors out of [`spec_put`].
proof fn lemma_put_skip(m: Seq<FingerprintV>, f: FingerprintV, j: int)
    requires
        0 <= j <= m.len(),
        forall|i: int| 0 <= i < j ==> m[i].id != f.id,
    ensures
        spec_put(m, f) == m.subrange(0, j) + spec_put(m.skip(j), f),
    decreases j,
{
    if j == 0 {
        assert(m.skip(0) =~= m);
        assert(m.subrange(0, 0) + spec_put(m, f) =~= spec_put(m, f));
    } else {
        lemma_put_skip(m.drop_first(), f, j - 1);
        assert(m.drop_first().skip(j - 1) =~= m.skip(j));
        assert(m.drop_first().subrange(0, j - 1) =~= m.subrange(1, j));
        assert(spec_put(m, f) == seq![m[0]] + spec_put(m.drop_first(), f));
        assert(seq![m[0]] + (m.subrange(1, j) + spec_put(m.skip(j), f)) =~= m.subrange(0, j)
            + spec_put(m.skip(j), f));
    }
}

// ========== Matching ==========

/// The first member of the literal set contained in the line.
pub open spec fn first_enum_hit(ps: Seq<Seq<char>>, line: Seq<char>, i: int) -> Option<Seq<char>>
    decreases ps.len() - i,
    when 0 <= i <= ps.len()
{
    if i >= ps.len() {
        None
    } else if contains_seq(line, ps[i]) {
        Some(ps[i])
    } else {
        first_enum_hit(ps, line, i + 1)
    }
}

/// A pattern's hit on one line: nothing when it does not match, else
/// its captures — a grammar rule's capture list, no captures for a
/// literal, and the matched literal itself for a literal set.
pub open spec fn line_hit(pat: FingerprintPatternV, line: Seq<char>) -> Option<
    Option<Seq<Seq<char>>>,
> {
    match pat {
        FingerprintPatternV::Rule(r) => match rules::rule_captures(r, line) {
            Some(c) => Some(Some(c)),
            None => None,
        },
        FingerprintPatternV::String(p) => if contains_seq(line, p) {
            Some(None)
        } else {
            None
        },
        FingerprintPatternV::Enum(ps) => match first_enum_hit(ps, line, 0) {
            Some(p) => Some(Some(seq![p])),
            None => None,
        },
    }
}

/// The first line hit of a pattern, scanning the lines in order.
pub open spec fn first_line_hit(
    pat: FingerprintPatternV,
    lines: Seq<Seq<char>>,
    i: int,
) -> Option<(int, Option<Seq<Seq<char>>>)>
    decreases lines.len() - i,
    when 0 <= i <= lines.len()
{
    if i >= lines.len() {
        None
    } else {
        match line_hit(pat, lines[i]) {
            Some(caps) => Some((i, caps)),
            None => first_line_hit(pat, lines, i + 1),
        }
    }
}

/// The explicit non-match of a fingerprint.
pub open spec fn spec_no_match(id: Seq<char>) -> FingerprintMatchV {
    FingerprintMatchV { fingerprint_id: id, matched: false, captures: None, line_index: None }
}

/// The result of testing one fingerprint against a context: the first
/// line hit wins; a literal pattern falls back to the full buffer, with
/// no line index; everything else is an explicit non-match.
pub open spec fn spec_match_fingerprint(
    fp: FingerprintV,
    ctx: ParserContextV,
) -> FingerprintMatchV {
    match first_line_hit(fp.pattern, ctx.lines, 0) {
        Some(h) => FingerprintMatchV {
            fingerprint_id: fp.id,
            matched: true,
            captures: h.1,
            line_index: Some(h.0 as usize),
        },
        None => match fp.pattern {
            FingerprintPatternV::String(p) => match ctx.full {
                Some(content) => if contains_seq(content, p) {
                    FingerprintMatchV {
                        fingerprint_id: fp.id,
                        matched: true,
                        captures: None,
                        line_index: None,
                    }
                } else {
                    spec_no_match(fp.id)
                },
                None => spec_no_match(fp.id),
            },
            _ => spec_no_match(fp.id),
        },
    }
}

/// A fingerprint that matches nowhere yields the bare non-match: no
/// captures and no line index ever accompany a cleared matched flag.
pub proof fn lemma_no_match_is_bare(fp: FingerprintV, ctx: ParserContextV)
    ensures
        !spec_match_fingerprint(fp, ctx).matched ==> spec_match_fingerprint(fp, ctx).captures
            is None && spec_match_fingerprint(fp, ctx).line_index is None,
{
}

/// The views of a match vector, in order.
pub open spec fn matches_view(v: Seq<FingerprintMatch>) -> Seq<FingerprintMatchV> {
    Seq::new(v.len(), |i: int| v[i]@)
}

/// The matches of the first `i` fingerprints, in order.
pub open spec fn matches_upto(
    fps: Seq<FingerprintV>,
    ctx: ParserContextV,
    i: int,
) -> Seq<FingerprintMatchV>
    decreases i,
{
    if i <= 0 {
        Seq::empty()
    } else {
        matches_upto(fps, ctx, i - 1) + seq![spec_match_fingerprint(fps[i - 1], ctx)]
    }
}

/// The matches of the first `i` fingerprints of one category that
/// matched, in order.
pub open spec fn cat_matches_upto(
    fps: Seq<FingerprintV>,
    ctx: ParserContextV,
    cat: FingerprintCategory,
    i: int,
) -> Seq<FingerprintMatchV>
    decreases i,
{
    if i <= 0 {
        Seq::empty()
    } else {
        let rest = cat_matches_upto(fps, ctx, cat, i - 1);
        if fps[i - 1].category == cat && spec_match_fingerprint(fps[i - 1], ctx).matched {
            rest + seq![spec_match_fingerprint(fps[i - 1], ctx)]
        } else {
            rest
        }
    }
}

/// All matches of one category.
pub open spec fn cat_matches(
    fps: Seq<FingerprintV>,
    ctx: ParserContextV,
    cat: FingerprintCategory,
) -> Seq<FingerprintMatchV> {
    cat_matches_upto(fps, ctx, cat, fps.len() as int)
}

/// The category grouping entry of one category: present exactly when
/// the category has a match.
pub open spec fn maybe_entry(
    fps: Seq<FingerprintV>,
    ctx: ParserContextV,
    cat: FingerprintCategory,
) -> Seq<(FingerprintCategory, Seq<FingerprintMatchV>)> {
    if cat_matches(fps, ctx, cat).len() > 0 {
        seq![(cat, cat_matches(fps, ctx, cat))]
    } else {
        Seq::empty()
    }
}

/// The category grouping of an extraction pass, in category order.
pub open spec fn categories_view_spec(fps: Seq<FingerprintV>, ctx: ParserContextV) -> Seq<
    (FingerprintCategory, Seq<FingerprintMatchV>),
> {
    maybe_entry(fps, ctx, FingerprintCategory::Spinner) + maybe_entry(
        fps,
        ctx,
        FingerprintCategory::Statusbar,
    ) + maybe_entry(fps, ctx, FingerprintCategory::Prompt) + maybe_entry(
        fps,
        ctx,
        FingerprintCategory::Separator,
    ) + maybe_entry(fps, ctx, FingerprintCategory::Assistant) + maybe_entry(
        fps,
        ctx,
        FingerprintCategory::Tool,
    ) + maybe_entry(fps, ctx, FingerprintCategory::Error) + maybe_entry(
        fps,
        ctx,
        FingerprintCategory::Confirm,
    )
}

/// The hints of an extraction pass: each flag is set exactly when its
/// category has a match.
pub open spec fn spec_hints(fps: Seq<FingerprintV>, ctx: ParserContextV) -> FingerprintHints {
    FingerprintHints {
        has_spinner: cat_matches(fps, ctx, FingerprintCategory::Spinner).len() > 0,
        has_prompt: cat_matches(fps, ctx, FingerprintCategory::Prompt).len() > 0,
        has_tool_output: cat_matches(fps, ctx, FingerprintCategory::Tool).len() > 0,
        has_confirm_dialog: cat_matches(fps, ctx, FingerprintCategory::Confirm).len() > 0,
        has_error: cat_matches(fps, ctx, FingerprintCategory::Error).len() > 0,
    }
}

/// The views of the category grouping pairs.
pub open spec fn cats_view(v: Seq<(FingerprintCategory, Vec<FingerprintMatch>)>) -> Seq<
    (FingerprintCategory, Seq<FingerprintMatchV>),
> {
    Seq::new(v.len(), |i: int| (v[i].0, matches_view(v[i].1@)))
}

/// An extraction pass is total: it yields one match per registered
/// fingerprint, in registration order, each carrying its fingerprint's
/// identifier — so the match map's key set equals the set of registered
/// identifiers, whatever the input was.
pub proof fn lemma_extract_total(fps: Seq<FingerprintV>, ctx: ParserContextV)
    ensures
        matches_upto(fps, ctx, fps.len() as int).len() == fps.len(),
        forall|k: int|
            0 <= k < fps.len() ==> matches_upto(fps, ctx, fps.len() as int)[k].fingerprint_id
                == fps[k].id,
    decreases fps.len(),
{
    lemma_matches_upto_len(fps, ctx, fps.len() as int);
}

/// Length and contents of a match prefix.
proof fn lemma_matches_upto_len(fps: Seq<FingerprintV>, ctx: ParserContextV, i: int)
    requires
        0 <= i <= fps.len(),
    ensures
        matches_upto(fps, ctx, i).len() == i,
        forall|k: int|
            0 <= k < i ==> matches_upto(fps, ctx, i)[k] == spec_match_fingerprint(fps[k], ctx),
    decreases i,
{
    if i > 0 {
        lemma_matches_upto_len(fps, ctx, i - 1);
    }
}

/// Aggregate of a full extraction pass: one match per registered
/// fingerprint, the matching results grouped by category, and the
/// derived hints.
#[derive(Debug)]
pub struct FingerprintResult {
    /// One match per registered fingerprint, in registration order.
    pub matches: Vec<FingerprintMatch>,
    /// The matching results grouped by category, in category order.
    pub categories: Vec<(FingerprintCategory, Vec<FingerprintMatch>)>,
    /// Derived hints.
    pub hints: FingerprintHints,
}

/// The first match bound to `id`.
pub open spec fn match_lookup(ms: Seq<FingerprintMatchV>, id: Seq<char>) -> Option<
    FingerprintMatchV,
>
    decreases ms.len(),
{
    if ms.len() == 0 {
        None
    } else if ms[0].fingerprint_id == id {
        Some(ms[0])
    } else {
        match_lookup(ms.drop_first(), id)
    }
}

impl FingerprintResult {
    /// The match recorded for `id`, if that identifier was registered.
    pub fn get_match(&self, id: &str) -> (r: Option<&FingerprintMatch>)
        ensures
            match r {
                Some(m) => match_lookup(matches_view(self.matches@), id@) == Some(m@),
                None => match_lookup(matches_view(self.matches@), id@) is None,
            },
    {
        let idc = chars::str_chars(id);
        let ghost ms = matches_view(self.matches@);
        let mut j: usize = 0;
        proof {
            assert(ms.skip(0) =~= ms);
        }
        while j < self.matches.len()
            invariant
                idc@ == id@,
                ms == matches_view(self.matches@),
                j <= self.matches@.len(),
                match_lookup(ms, id@) == match_lookup(ms.skip(j as int), id@),
            decreases self.matches@.len() - j,
        {
            let pc = chars::str_chars(self.matches[j].fingerprint_id.as_str());
            proof {
                assert(ms.skip(j as int)[0] == ms[j as int]);
                assert(ms.skip(j as int).drop_first() =~= ms.skip(j + 1));
            }
            if chars::chars_eq(pc.as_slice(), idc.as_slice()) {
                return Some(&self.matches[j]);
            }
            j = j + 1;
        }
        None
    }
}

/// A copy of a match, field for field.
fn clone_match(m: &FingerprintMatch) -> (r: FingerprintMatch)
    ensures
        r@ == m@,
{
    let captures: Option<Vec<String>> = match &m.captures {
        Some(v) => {
            let mut c: Vec<String> = Vec::new();
            let mut i: usize = 0;
            proof {
                assert(c.deep_view() =~= v.deep_view().subrange(0, 0));
            }
            while i < v.len()
                invariant
                    i <= v@.len(),
                    c@.len() == i,
                    c.deep_view() == v.deep_view().subrange(0, i as int),
                decreases v@.len() - i,
            {
                let s = String::from_str(v[i].as_str());
                let ghost sv = s@;
                proof {
                    assert(sv == v.deep_view()[i as int]);
                }
                let ghost before = c.deep_view();
                c.push(s);
                proof {
                    assert(c.deep_view() =~= before.push(sv));
                    assert(before.push(sv) =~= v.deep_view().subrange(0, i + 1 as int));
                }
                i = i + 1;
            }
            proof {
                assert(v.deep_view().subrange(0, v.deep_view().len() as int) =~= v.deep_view());
            }
            Some(c)
        },
        None => None,
    };
    let r = FingerprintMatch {
        fingerprint_id: m.fingerprint_id.clone(),
        matched: m.matched,
        captures,
        line_index: m.line_index,
    };
    proof {
        assert(r@ =~= m@);
    }
    r
}

/// The strings of a capture list.
fn strings_of(caps: Vec<Vec<char>>) -> (r: Vec<String>)
    ensures
        r.deep_view() == caps.deep_view(),
{
    let mut r: Vec<String> = Vec::new();
    let mut i: usize = 0;
    proof {
        assert(r.deep_view() =~= caps.deep_view().subrange(0, 0));
    }
    while i < caps.len()
        invariant
            i <= caps@.len(),
            r@.len() == i,
            r.deep_view() == caps.deep_view().subrange(0, i as int),
        decreases caps@.len() - i,
    {
        let s = chars::chars_string(caps[i].as_slice());
        let ghost sv = s@;
        proof {
            assert(sv == caps.deep_view()[i as int]);
        }
        let ghost before = r.deep_view();
        r.push(s);
        proof {
            assert(r.deep_view() =~= before.push(sv));
            assert(before.push(sv) =~= caps.deep_view().subrange(0, i + 1 as int));
        }
        i = i + 1;
    }
    proof {
        assert(caps.deep_view().subrange(0, caps.deep_view().len() as int) =~= caps.deep_view());
    }
    r
}

impl FingerprintRegistry {
    /// Tests one fingerprint against the context, per
    /// [`spec_match_fingerprint`].
    fn match_fingerprint(&self, fp: &Fingerprint, context: &ParserContext) -> (r: FingerprintMatch)
        ensures
            r@ == spec_match_fingerprint(fp@, context@),
    {
        let lines = &context.last_lines;
        let mut i: usize = 0;
        while i < lines.len()
            invariant
                i <= lines@.len(),
                context@.lines.len() == lines@.len(),
                forall|k: int| 0 <= k < lines@.len() ==> context@.lines[k] == lines@[k]@,
                first_line_hit(fp@.pattern, context@.lines, 0) == first_line_hit(
                    fp@.pattern,
                    context@.lines,
                    i as int,
                ),
            decreases lines@.len() - i,
        {
            let lc = chars::str_chars(lines[i].as_str());
            match &fp.pattern {
                FingerprintPattern::Rule(rule) => {
                    match rules::match_rule(*rule, lc.as_slice()) {
                        Some(caps) => {
                            let ghost cv = caps.deep_view();
                            let r = FingerprintMatch {
                                fingerprint_id: fp.id.clone(),
                                matched: true,
                                captures: Some(strings_of(caps)),
                                line_index: Some(i),
                            };
                            proof {
                                assert(line_hit(fp@.pattern, context@.lines[i as int]) == Some(
                                    Some(cv),
                                ));
                                assert(r@ =~= spec_match_fingerprint(fp@, context@));
                            }
                            return r;
                        },
                        None => {},
                    }
                },
                FingerprintPattern::String(p) => {
                    let pc = chars::str_chars(p.as_str());
                    if chars::contains_chars(lc.as_slice(), pc.as_slice()) {
                        let r = FingerprintMatch {
                            fingerprint_id: fp.id.clone(),
                            matched: true,
                            captures: None,
                            line_index: Some(i),
                        };
                        proof {
                            assert(line_hit(fp@.pattern, context@.lines[i as int]) == Some(
                                None::<Seq<Seq<char>>>,
                            ));
                            assert(r@ =~= spec_match_fingerprint(fp@, context@));
                        }
                        return r;
                    }
                },
                FingerprintPattern::Enum(ps) => {
                    let mut j: usize = 0;
                    let ghost pv = ps.deep_view();
                    while j < ps.len()
                        invariant
                            j <= ps@.len(),
                            pv == ps.deep_view(),
                            pv.len() == ps@.len(),
                            forall|k: int| 0 <= k < ps@.len() ==> pv[k] == ps@[k]@,
                            i < lines@.len(),
                            context@.lines.len() == lines@.len(),
                            lc@ == lines@[i as int]@,
                            context@.lines[i as int] == lines@[i as int]@,
                            fp@.pattern == FingerprintPatternV::Enum(pv),
                            first_line_hit(fp@.pattern, context@.lines, 0) == first_line_hit(
                                fp@.pattern,
                                context@.lines,
                                i as int,
                            ),
                            first_enum_hit(pv, context@.lines[i as int], 0) == first_enum_hit(
                                pv,
                                context@.lines[i as int],
                                j as int,
                            ),
                        decreases ps@.len() - j,
                    {
                        let pc = chars::str_chars(ps[j].as_str());
                        if chars::contains_chars(lc.as_slice(), pc.as_slice()) {
                            let mut caps: Vec<String> = Vec::new();
                            caps.push(ps[j].clone());
                            let r = FingerprintMatch {
                                fingerprint_id: fp.id.clone(),
                                matched: true,
                                captures: Some(caps),
                                line_index: Some(i),
                            };
                            proof {
                                assert(first_enum_hit(pv, context@.lines[i as int], 0) == Some(
                                    pv[j as int],
                                ));
                                assert(r@.captures->Some_0 =~= seq![pv[j as int]]);
                                assert(r@ =~= spec_match_fingerprint(fp@, context@));
                            }
                            return r;
                        }
                        j = j + 1;
                    }
                },
            }
            i = i + 1;
        }
        match &fp.pattern {
            FingerprintPattern::String(p) => {
                match &context.full_content {
                    Some(content) => {
                        let cc = chars::str_chars(content.as_str());
                        let pc = chars::str_chars(p.as_str());
                        if chars::contains_chars(cc.as_slice(), pc.as_slice()) {
                            let r = FingerprintMatch {
                                fingerprint_id: fp.id.clone(),
                                matched: true,
                                captures: None,
                                line_index: None,
                            };
                            proof {
                                assert(r@ =~= spec_match_fingerprint(fp@, context@));
                            }
                            return r;
                        }
                    },
                    None => {},
                }
            },
            _ => {},
        }
        let r = FingerprintMatch {
            fingerprint_id: fp.id.clone(),
            matched: false,
            captures: None,
            line_index: None,
        };
        proof {
            assert(r@ =~= spec_match_fingerprint(fp@, context@));
        }
        r
    }

    /// The registered fingerprints of one category, as [`cat_view`]
    /// builds them: ordered by non-increasing priority with ties keeping
    /// registration order, sound (every entry is registered under its
    /// identifier and belongs to the category), complete (every
    /// registered fingerprint of the category appears), and free of
    /// repeated identifiers.
    #[verifier::rlimit(60)]
    pub fn get_by_category(&self, category: FingerprintCategory) -> (r: Vec<&Fingerprint>)
        requires
            self.inv(),
        ensures
            refs_view(r@) == cat_view(self.fps(), category),
            forall|k1: int, k2: int|
                0 <= k1 < k2 < r@.len() ==> r@[k1]@.priority >= r@[k2]@.priority,
            forall|k: int|
                0 <= k < r@.len() ==> r@[k]@.category == category && spec_get(
                    self.fps(),
                    r@[k]@.id,
                ) == Some(r@[k]@),
            forall|x: int|
                0 <= x < self.fps().len() && self.fps()[x].category == category ==> exists|k: int|
                    0 <= k < r@.len() && r@[k]@ == self.fps()[x],
            forall|k1: int, k2: int| 0 <= k1 < k2 < r@.len() ==> r@[k1]@.id != r@[k2]@.id,
    {
        let ghost fps = self.fps();
        let mut r: Vec<&Fingerprint> = Vec::new();
        let mut i: usize = 0;
        proof {
            assert(refs_view(r@) =~= cat_view_upto(fps, category, 0));
        }
        while i < self.fingerprints.len()
            invariant
                self.inv(),
                fps == self.fps(),
                i <= self.fingerprints@.len(),
                fps.len() == self.fingerprints@.len(),
                refs_view(r@) == cat_view_upto(fps, category, i as int),
            decreases self.fingerprints@.len() - i,
        {
            let fp = &self.fingerprints[i];
            if category_eq(fp.category, category) {
                let newp = fp.priority;
                let ghost rv = refs_view(r@);
                let mut pos: usize = 0;
                while pos < r.len() && r[pos].priority >= newp
                    invariant
                        rv == refs_view(r@),
                        pos <= r@.len(),
                        forall|k: int| 0 <= k < pos ==> rv[k].priority >= newp,
                    decreases r@.len() - pos,
                {
                    proof {
                        assert(rv[pos as int] == r@[pos as int]@);
                    }
                    pos = pos + 1;
                }
                proof {
                    if pos < r.len() {
                        assert(rv[pos as int] == r@[pos as int]@);
                    }
                    lemma_insert_pos_char(rv, newp, pos as int);
                    assert(fp@ == fps[i as int]);
                }
                let ghost before = r@;
                r.insert(pos, fp);
                proof {
                    before.insert_ensures(pos as int, fp);
                    let av = refs_view(r@);
                    assert forall|x: int| 0 <= x < pos implies av[x] == rv[x] by {
                        assert(r@[x] == before[x]);
                    }
                    assert forall|x: int| pos < x < av.len() implies av[x] == rv[x - 1] by {
                        assert(r@[x] == before[x - 1]);
                    }
                    assert(av[pos as int] == fp@);
                    rv.insert_ensures(pos as int, fp@);
                    assert(av =~= rv.insert(pos as int, fp@));
                    assert(av =~= cat_view_upto(fps, category, i + 1 as int));
                }
            } else {
                proof {
                    assert(refs_view(r@) == cat_view_upto(fps, category, i + 1 as int));
                }
            }
            i = i + 1;
        }
        proof {
            lemma_cat_view_properties(fps, category, fps.len() as int);
            assert forall|k1: int, k2: int| 0 <= k1 < k2 < r@.len() implies r@[k1]@.priority
                >= r@[k2]@.priority && r@[k1]@.id != r@[k2]@.id by {
                assert(refs_view(r@)[k1] == r@[k1]@);
                assert(refs_view(r@)[k2] == r@[k2]@);
            }
            assert forall|k: int| 0 <= k < r@.len() implies r@[k]@.category == category
                && spec_get(self.fps(), r@[k]@.id) == Some(r@[k]@) by {
                assert(refs_view(r@)[k] == r@[k]@);
                let x = choose|x: int| 0 <= x < fps.len() && fps[x] == refs_view(r@)[k];
                lemma_get_of_member(fps, x);
            }
            assert forall|x: int|
                0 <= x < self.fps().len() && self.fps()[x].category == category implies exists|
                k: int,
            | 0 <= k < r@.len() && r@[k]@ == self.fps()[x] by {
                let k = choose|k: int|
                    0 <= k < refs_view(r@).len() && refs_view(r@)[k] == fps[x];
                assert(r@[k]@ == fps[x]);
            }
        }
        r
    }

    /// Runs every registered fingerprint against the context: one match
    /// per fingerprint in registration order, the matching results
    /// grouped by category, and the hints of [`spec_hints`].
    #[verifier::rlimit(50)]
    pub fn extract(&self, context: &ParserContext) -> (result: FingerprintResult)
        requires
            self.inv(),
        ensures
            matches_view(result.matches@) == matches_upto(
                self.fps(),
                context@,
                self.fps().len() as int,
            ),
            cats_view(result.categories@) == categories_view_spec(self.fps(), context@),
            result.hints == spec_hints(self.fps(), context@),
    {
        let ghost fps = self.fps();
        let ghost ctx = context@;
        let mut matches: Vec<FingerprintMatch> = Vec::new();
        let mut i: usize = 0;
        proof {
            assert(matches_view(matches@) =~= matches_upto(fps, ctx, 0));
        }
        while i < self.fingerprints.len()
            invariant
                self.inv(),
                fps == self.fps(),
                i <= self.fingerprints@.len(),
                fps.len() == self.fingerprints@.len(),
                matches@.len() == i,
                matches_view(matches@) == matches_upto(fps, ctx, i as int),
                ctx == context@,
            decreases self.fingerprints@.len() - i,
        {
            let m = self.match_fingerprint(&self.fingerprints[i], context);
            matches.push(m);
            proof {
                assert(matches_view(matches@) =~= matches_upto(fps, ctx, i + 1 as int));
            }
            i = i + 1;
        }
        proof {
            lemma_matches_upto_len(fps, ctx, fps.len() as int);
            assert forall|k: int| 0 <= k < matches@.len() implies matches@[k]@
                == spec_match_fingerprint(fps[k], ctx) by {
                assert(matches_view(matches@)[k] == matches@[k]@);
            }
        }
        let mut categories: Vec<(FingerprintCategory, Vec<FingerprintMatch>)> = Vec::new();
        let v_spinner = self.collect_cat(&matches, FingerprintCategory::Spinner, Ghost(ctx));
        let v_statusbar = self.collect_cat(&matches, FingerprintCategory::Statusbar, Ghost(ctx));
        let v_prompt = self.collect_cat(&matches, FingerprintCategory::Prompt, Ghost(ctx));
        let v_separator = self.collect_cat(&matches, FingerprintCategory::Separator, Ghost(ctx));
        let v_assistant = self.collect_cat(&matches, FingerprintCategory::Assistant, Ghost(ctx));
        let v_tool = self.collect_cat(&matches, FingerprintCategory::Tool, Ghost(ctx));
        let v_error = self.collect_cat(&matches, FingerprintCategory::Error, Ghost(ctx));
        let v_confirm = self.collect_cat(&matches, FingerprintCategory::Confirm, Ghost(ctx));
        let hints = FingerprintHints {
            has_spinner: v_spinner.len() > 0,
            has_prompt: v_prompt.len() > 0,
            has_tool_output: v_tool.len() > 0,
            has_confirm_dialog: v_confirm.len() > 0,
            has_error: v_error.len() > 0,
        };
        let ghost t0 = cats_view(categories@);
        let ghost b0 = categories@;
        if v_spinner.len() > 0 {
            categories.push((FingerprintCategory::Spinner, v_spinner));
            proof {
                lemma_cats_push(b0, categories@, FingerprintCategory::Spinner, cat_matches(fps, ctx, FingerprintCategory::Spinner));
                assert(cats_view(categories@) == t0 + maybe_entry(fps, ctx, FingerprintCategory::Spinner));
            }
        } else {
            proof {
                assert(maybe_entry(fps, ctx, FingerprintCategory::Spinner) =~= Seq::<(FingerprintCategory, Seq<FingerprintMatchV>)>::empty());
                assert(t0 + maybe_entry(fps, ctx, FingerprintCategory::Spinner) =~= t0);
            }
        }
        let ghost t1 = cats_view(categories@);
        let ghost b1 = categories@;
        if v_statusbar.len() > 0 {
            categories.push((FingerprintCategory::Statusbar, v_statusbar));
            proof {
                lemma_cats_push(b1, categories@, FingerprintCategory::Statusbar, cat_matches(fps, ctx, FingerprintCategory::Statusbar));
                assert(cats_view(categories@) == t1 + maybe_entry(fps, ctx, FingerprintCategory::Statusbar));
            }
        } else {
            proof {
                assert(maybe_entry(fps, ctx, FingerprintCategory::Statusbar) =~= Seq::<(FingerprintCategory, Seq<FingerprintMatchV>)>::empty());
                assert(t1 + maybe_entry(fps, ctx, FingerprintCategory::Statusbar) =~= t1);
            }
        }
        let ghost t2 = cats_view(categories@);
        let ghost b2 = categories@;
        if v_prompt.len() > 0 {
            categories.push((FingerprintCategory::Prompt, v_prompt));
            proof {
                lemma_cats_push(b2, categories@, FingerprintCategory::Prompt, cat_matches(fps, ctx, FingerprintCategory::Prompt));
                assert(cats_view(categories@) == t2 + maybe_entry(fps, ctx, FingerprintCategory::Prompt));
            }
        } else {
            proof {
                assert(maybe_entry(fps, ctx, FingerprintCategory::Prompt) =~= Seq::<(FingerprintCategory, Seq<FingerprintMatchV>)>::empty());
                assert(t2 + maybe_entry(fps, ctx, FingerprintCategory::Prompt) =~= t2);
            }
        }
        let ghost t3 = cats_view(categories@);
        let ghost b3 = categories@;
        if v_separator.len() > 0 {
            categories.push((FingerprintCategory::Separator, v_separator));
            proof {
                lemma_cats_push(b3, categories@, FingerprintCategory::Separator, cat_matches(fps, ctx, FingerprintCategory::Separator));
                assert(cats_view(categories@) == t3 + maybe_entry(fps, ctx, FingerprintCategory::Separator));
            }
        } else {
            proof {
                assert(maybe_entry(fps, ctx, FingerprintCategory::Separator) =~= Seq::<(FingerprintCategory, Seq<FingerprintMatchV>)>::empty());
                assert(t3 + maybe_entry(fps, ctx, FingerprintCategory::Separator) =~= t3);
            }
        }
        let ghost t4 = cats_view(categories@);
        let ghost b4 = categories@;
        if v_assistant.len() > 0 {
            categories.push((FingerprintCategory::Assistant, v_assistant));
            proof {
                lemma_cats_push(b4, categories@, FingerprintCategory::Assistant, cat_matches(fps, ctx, FingerprintCategory::Assistant));
                assert(cats_view(categories@) == t4 + maybe_entry(fps, ctx, FingerprintCategory::Assistant));
            }
        } else {
            proof {
                assert(maybe_entry(fps, ctx, FingerprintCategory::Assistant) =~= Seq::<(FingerprintCategory, Seq<FingerprintMatchV>)>::empty());
                assert(t4 + maybe_entry(fps, ctx, FingerprintCategory::Assistant) =~= t4);
            }
        }
        let ghost t5 = cats_view(categories@);
        let ghost b5 = categories@;
        if v_tool.len() > 0 {
            categories.push((FingerprintCategory::Tool, v_tool));
            proof {
                lemma_cats_push(b5, categories@, FingerprintCategory::Tool, cat_matches(fps, ctx, FingerprintCategory::Tool));
                assert(cats_view(categories@) == t5 + maybe_entry(fps, ctx, FingerprintCategory::Tool));
            }
        } else {
            proof {
                assert(maybe_entry(fps, ctx, FingerprintCategory::Tool) =~= Seq::<(FingerprintCategory, Seq<FingerprintMatchV>)>::empty());
                assert(t5 + maybe_entry(fps, ctx, FingerprintCategory::Tool) =~= t5);
            }
        }
        let ghost t6 = cats_view(categories@);
        let ghost b6 = categories@;
        if v_error.len() > 0 {
            categories.push((FingerprintCategory::Error, v_error));
            proof {
                lemma_cats_push(b6, categories@, FingerprintCategory::Error, cat_matches(fps, ctx, FingerprintCategory::Error));
                assert(cats_view(categories@) == t6 + maybe_entry(fps, ctx, FingerprintCategory::Error));
            }
        } else {
            proof {
                assert(maybe_entry(fps, ctx, FingerprintCategory::Error) =~= Seq::<(FingerprintCategory, Seq<FingerprintMatchV>)>::empty());
                assert(t6 + maybe_entry(fps, ctx, FingerprintCategory::Error) =~= t6);
            }
        }
        let ghost t7 = cats_view(categories@);
        let ghost b7 = categories@;
        if v_confirm.len() > 0 {
            categories.push((FingerprintCategory::Confirm, v_confirm));
            proof {
                lemma_cats_push(b7, categories@, FingerprintCategory::Confirm, cat_matches(fps, ctx, FingerprintCategory::Confirm));
                assert(cats_view(categories@) == t7 + maybe_entry(fps, ctx, FingerprintCategory::Confirm));
            }
        } else {
            proof {
                assert(maybe_entry(fps, ctx, FingerprintCategory::Confirm) =~= Seq::<(FingerprintCategory, Seq<FingerprintMatchV>)>::empty());
                assert(t7 + maybe_entry(fps, ctx, FingerprintCategory::Confirm) =~= t7);
            }
        }
        proof {
            assert(t0 =~= Seq::<(FingerprintCategory, Seq<FingerprintMatchV>)>::empty());
            assert(cats_view(categories@) =~= categories_view_spec(fps, ctx));
            assert(matches_view(matches@) =~= matches_upto(fps, ctx, fps.len() as int));
        }
        FingerprintResult { matches, categories, hints }
    }

    /// The matching results of one category, in registration order.
    fn collect_cat(
        &self,
        matches: &Vec<FingerprintMatch>,
        cat: FingerprintCategory,
        Ghost(ctx): Ghost<ParserContextV>,
    ) -> (r: Vec<FingerprintMatch>)
        requires
            matches@.len() == self.fps().len(),
            forall|k: int|
                0 <= k < matches@.len() ==> matches@[k]@ == spec_match_fingerprint(
                    self.fps()[k],
                    ctx,
                ),
        ensures
            matches_view(r@) == cat_matches(self.fps(), ctx, cat),
            r@.len() > 0 <==> cat_matches(self.fps(), ctx, cat).len() > 0,
    {
        let ghost fps = self.fps();
        let mut r: Vec<FingerprintMatch> = Vec::new();
        let mut i: usize = 0;
        proof {
            assert(matches_view(r@) =~= cat_matches_upto(fps, ctx, cat, 0));
        }
        while i < self.fingerprints.len()
            invariant
                fps == self.fps(),
                i <= self.fingerprints@.len(),
                fps.len() == self.fingerprints@.len(),
                matches@.len() == fps.len(),
                forall|k: int|
                    0 <= k < matches@.len() ==> matches@[k]@ == spec_match_fingerprint(
                        fps[k],
                        ctx,
                    ),
                matches_view(r@) == cat_matches_upto(fps, ctx, cat, i as int),
            decreases self.fingerprints@.len() - i,
        {
            if category_eq(self.fingerprints[i].category, cat) && matches[i].matched {
                r.push(clone_match(&matches[i]));
                proof {
                    assert(matches_view(r@) =~= cat_matches_upto(fps, ctx, cat, i + 1 as int));
                }
            } else {
                proof {
                    assert(matches_view(r@) =~= cat_matches_upto(fps, ctx, cat, i + 1 as int));
                }
            }
            i = i + 1;
        }
        r
    }
}

/// Whether two categories are the same.
fn category_eq(a: FingerprintCategory, b: FingerprintCategory) -> (r: bool)
    ensures
        r == (a == b),
{
    a == b
}

/// The views of a sequence of fingerprint references.
pub open spec fn refs_view(s: Seq<&Fingerprint>) -> Seq<FingerprintV> {
    Seq::new(s.len(), |i: int| s[i]@)
}

/// The sorted position of priority `p` in a category view: after every
/// entry whose priority is at least `p`, so equal priorities keep the
/// earlier-registered entry first.
pub open spec fn insert_pos(v: Seq<FingerprintV>, p: u32) -> int
    decreases v.len(),
{
    if v.len() == 0 {
        0
    } else if v[0].priority >= p {
        1 + insert_pos(v.drop_first(), p)
    } else {
        0
    }
}

/// The category view of the first `i` fingerprints: each fingerprint of
/// the category, inserted in registration order at its sorted position.
pub open spec fn cat_view_upto(
    fps: Seq<FingerprintV>,
    cat: FingerprintCategory,
    i: int,
) -> Seq<FingerprintV>
    decreases i,
{
    if i <= 0 {
        Seq::empty()
    } else {
        let prev = cat_view_upto(fps, cat, i - 1);
        if fps[i - 1].category == cat {
            prev.insert(insert_pos(prev, fps[i - 1].priority), fps[i - 1])
        } else {
            prev
        }
    }
}

/// The full category view of a table.
pub open spec fn cat_view(fps: Seq<FingerprintV>, cat: FingerprintCategory) -> Seq<FingerprintV> {
    cat_view_upto(fps, cat, fps.len() as int)
}

/// In a view sorted by non-increasing priority, [`insert_pos`] is in
/// range, everything before it has priority at least `p`, and the entry
/// at it, if any, has priority below `p`.
pub proof fn lemma_insert_pos_sorted(v: Seq<FingerprintV>, p: u32)
    requires
        forall|k1: int, k2: int| 0 <= k1 < k2 < v.len() ==> v[k1].priority >= v[k2].priority,
    ensures
        0 <= insert_pos(v, p) <= v.len(),
        forall|k: int| 0 <= k < insert_pos(v, p) ==> v[k].priority >= p,
        insert_pos(v, p) < v.len() ==> v[insert_pos(v, p)].priority < p,
    decreases v.len(),
{
    if v.len() > 0 && v[0].priority >= p {
        assert(forall|k1: int, k2: int|
            0 <= k1 < k2 < v.drop_first().len() ==> v.drop_first()[k1].priority
                >= v.drop_first()[k2].priority);
        lemma_insert_pos_sorted(v.drop_first(), p);
        assert forall|k: int| 0 <= k < insert_pos(v, p) implies v[k].priority >= p by {
            if k > 0 {
                assert(v.drop_first()[k - 1].priority >= p);
            }
        }
    }
}

/// A scan that stops at the first entry with priority below `p` lands
/// on [`insert_pos`].
pub proof fn lemma_insert_pos_char(v: Seq<FingerprintV>, p: u32, j: int)
    requires
        0 <= j <= v.len(),
        forall|k: int| 0 <= k < j ==> v[k].priority >= p,
        j < v.len() ==> v[j].priority < p,
    ensures
        insert_pos(v, p) == j,
    decreases j,
{
    if j == 0 {
    } else {
        assert(v[0].priority >= p);
        assert(forall|k: int| 0 <= k < j - 1 ==> v.drop_first()[k].priority >= p);
        if j < v.len() {
            assert(v.drop_first()[j - 1].priority < p);
        }
        lemma_insert_pos_char(v.drop_first(), p, j - 1);
    }
}

/// The insertion shape: `after` is `before` with `nf` placed at `pos`.
pub open spec fn inserted_at(
    before: Seq<FingerprintV>,
    after: Seq<FingerprintV>,
    nf: FingerprintV,
    pos: int,
) -> bool {
    &&& 0 <= pos <= before.len()
    &&& after.len() == before.len() + 1
    &&& (forall|x: int| 0 <= x < pos ==> after[x] == before[x])
    &&& after[pos] == nf
    &&& (forall|x: int| pos < x < after.len() ==> after[x] == before[x - 1])
}

/// Sorted order is preserved by inserting at the sorted position.
proof fn lemma_insert_sorted(
    before: Seq<FingerprintV>,
    after: Seq<FingerprintV>,
    nf: FingerprintV,
    pos: int,
)
    requires
        inserted_at(before, after, nf, pos),
        forall|k1: int, k2: int|
            0 <= k1 < k2 < before.len() ==> before[k1].priority >= before[k2].priority,
        forall|k: int| 0 <= k < pos ==> before[k].priority >= nf.priority,
        pos < before.len() ==> before[pos].priority < nf.priority,
    ensures
        forall|k1: int, k2: int|
            0 <= k1 < k2 < after.len() ==> after[k1].priority >= after[k2].priority,
{
    assert forall|k1: int, k2: int| 0 <= k1 < k2 < after.len() implies after[k1].priority
        >= after[k2].priority by {
        if k1 == pos && pos < k2 {
            if k2 - 1 > pos {
                assert(before[pos].priority >= before[k2 - 1].priority);
            }
        } else if k1 < pos && k2 > pos {
            if k2 - 1 > k1 {
                assert(before[k1].priority >= before[k2 - 1].priority);
            }
        }
    }
}

/// Membership is preserved: every element of `after` is one of the
/// first `i + 1` fingerprints of the category.
proof fn lemma_insert_membership(
    before: Seq<FingerprintV>,
    after: Seq<FingerprintV>,
    fps: Seq<FingerprintV>,
    nf: FingerprintV,
    pos: int,
    i: int,
    category: FingerprintCategory,
)
    requires
        inserted_at(before, after, nf, pos),
        0 <= i < fps.len(),
        fps[i] == nf,
        nf.category == category,
        forall|k: int|
            0 <= k < before.len() ==> before[k].category == category && (exists|x: int|
                0 <= x < i && fps[x] == before[k]),
    ensures
        forall|k: int|
            0 <= k < after.len() ==> after[k].category == category && (exists|x: int|
                0 <= x < i + 1 && fps[x] == after[k]),
{
    assert forall|k: int| 0 <= k < after.len() implies after[k].category == category && (exists|
        x: int,
    | 0 <= x < i + 1 && fps[x] == after[k]) by {
        if k == pos {
            assert(fps[i] == after[k]);
        } else if k < pos {
            let x0 = choose|x0: int| 0 <= x0 < i && fps[x0] == before[k];
            assert(fps[x0] == after[k]);
        } else {
            let x0 = choose|x0: int| 0 <= x0 < i && fps[x0] == before[k - 1];
            assert(fps[x0] == after[k]);
        }
    }
}

/// Completeness is preserved: every fingerprint of the category among
/// the first `i + 1` appears in `after`.
proof fn lemma_insert_complete(
    before: Seq<FingerprintV>,
    after: Seq<FingerprintV>,
    fps: Seq<FingerprintV>,
    nf: FingerprintV,
    pos: int,
    i: int,
    category: FingerprintCategory,
)
    requires
        inserted_at(before, after, nf, pos),
        0 <= i < fps.len(),
        fps[i] == nf,
        forall|x: int|
            0 <= x < i && fps[x].category == category ==> exists|k: int|
                0 <= k < before.len() && before[k] == fps[x],
    ensures
        forall|x: int|
            0 <= x < i + 1 && fps[x].category == category ==> exists|k: int|
                0 <= k < after.len() && after[k] == fps[x],
{
    assert forall|x: int| 0 <= x < i + 1 && fps[x].category == category implies exists|k: int|
        0 <= k < after.len() && after[k] == fps[x] by {
        if x == i {
            assert(after[pos] == fps[x]);
        } else {
            let k0 = choose|k0: int| 0 <= k0 < before.len() && before[k0] == fps[x];
            if k0 < pos {
                assert(after[k0] == fps[x]);
            } else {
                assert(after[k0 + 1] == fps[x]);
            }
        }
    }
}

/// Identifier distinctness is preserved when the inserted fingerprint
/// is not yet in the slice.
proof fn lemma_insert_unique(
    before: Seq<FingerprintV>,
    after: Seq<FingerprintV>,
    fps: Seq<FingerprintV>,
    nf: FingerprintV,
    pos: int,
    i: int,
    category: FingerprintCategory,
)
    requires
        inserted_at(before, after, nf, pos),
        ids_unique(fps),
        0 <= i < fps.len(),
        fps[i] == nf,
        forall|k: int|
            0 <= k < before.len() ==> before[k].category == category && (exists|x: int|
                0 <= x < i && fps[x] == before[k]),
        forall|k1: int, k2: int| 0 <= k1 < k2 < before.len() ==> before[k1].id != before[k2].id,
    ensures
        forall|k1: int, k2: int| 0 <= k1 < k2 < after.len() ==> after[k1].id != after[k2].id,
{
    assert forall|k1: int, k2: int| 0 <= k1 < k2 < after.len() implies after[k1].id
        != after[k2].id by {
        if k1 == pos || k2 == pos {
            let other = if k1 == pos {
                k2
            } else {
                k1
            };
            let ob = if other < pos {
                before[other]
            } else {
                before[other - 1]
            };
            assert(after[other] == ob);
            let x0 = choose|x0: int| 0 <= x0 < i && fps[x0] == ob;
            assert(fps[x0].id != fps[i].id);
        } else {
            let b1: int = if k1 < pos {
                k1
            } else {
                k1 - 1
            };
            let b2: int = if k2 < pos {
                k2
            } else {
                k2 - 1
            };
            assert(after[k1] == before[b1] && after[k2] == before[b2]);
        }
    }
}

/// The well-formedness of a category view over the first `i`
/// fingerprints: sorted by non-increasing priority, sound, complete,
/// and free of repeated identifiers.
pub open spec fn cat_view_props(
    cv: Seq<FingerprintV>,
    fps: Seq<FingerprintV>,
    i: int,
    cat: FingerprintCategory,
) -> bool {
    &&& (forall|k1: int, k2: int| 0 <= k1 < k2 < cv.len() ==> cv[k1].priority >= cv[k2].priority)
    &&& (forall|k: int|
        0 <= k < cv.len() ==> cv[k].category == cat && (exists|x: int|
            0 <= x < i && fps[x] == cv[k]))
    &&& (forall|x: int|
        0 <= x < i && fps[x].category == cat ==> exists|k: int|
            0 <= k < cv.len() && cv[k] == fps[x])
    &&& (forall|k1: int, k2: int| 0 <= k1 < k2 < cv.len() ==> cv[k1].id != cv[k2].id)
}

/// The category view of a table with distinct identifiers is sorted by
/// non-increasing priority and holds exactly the table's fingerprints of
/// the category, each exactly once.
/// Inserting the next fingerprint of the category at its sorted
/// position keeps the view well-formed.
proof fn lemma_props_step(
    prev: Seq<FingerprintV>,
    after: Seq<FingerprintV>,
    fps: Seq<FingerprintV>,
    nf: FingerprintV,
    i: int,
    cat: FingerprintCategory,
)
    requires
        ids_unique(fps),
        0 <= i < fps.len(),
        fps[i] == nf,
        nf.category == cat,
        cat_view_props(prev, fps, i, cat),
        inserted_at(prev, after, nf, insert_pos(prev, nf.priority)),
    ensures
        cat_view_props(after, fps, i + 1, cat),
{
    let pos = insert_pos(prev, nf.priority);
    lemma_insert_pos_sorted(prev, nf.priority);
    lemma_insert_sorted(prev, after, nf, pos);
    lemma_insert_membership(prev, after, fps, nf, pos, i, cat);
    lemma_insert_complete(prev, after, fps, nf, pos, i, cat);
    lemma_insert_unique(prev, after, fps, nf, pos, i, cat);
}

/// A fingerprint of another category leaves the view well-formed.
proof fn lemma_props_weaken(
    cv: Seq<FingerprintV>,
    fps: Seq<FingerprintV>,
    i: int,
    cat: FingerprintCategory,
)
    requires
        0 <= i < fps.len(),
        fps[i].category != cat,
        cat_view_props(cv, fps, i, cat),
    ensures
        cat_view_props(cv, fps, i + 1, cat),
{
}

/// The category view of a table with distinct identifiers is sorted by
/// non-increasing priority and holds exactly the table's fingerprints of
/// the category, each exactly once.
pub proof fn lemma_cat_view_properties(
    fps: Seq<FingerprintV>,
    cat: FingerprintCategory,
    i: int,
)
    requires
        ids_unique(fps),
        0 <= i <= fps.len(),
    ensures
        cat_view_props(cat_view_upto(fps, cat, i), fps, i, cat),
    decreases i,
{
    if i > 0 {
        lemma_cat_view_properties(fps, cat, i - 1);
        let prev = cat_view_upto(fps, cat, i - 1);
        let nf = fps[i - 1];
        if nf.category == cat {
            let pos = insert_pos(prev, nf.priority);
            lemma_insert_pos_sorted(prev, nf.priority);
            prev.insert_ensures(pos, nf);
            assert(inserted_at(prev, prev.insert(pos, nf), nf, pos));
            lemma_props_step(prev, prev.insert(pos, nf), fps, nf, i - 1, cat);
        } else {
            lemma_props_weaken(prev, fps, i - 1, cat);
        }
    }
}

/// Pushing a category entry extends the grouping view by one pair./// Pushing a category entry extends the grouping view by one pair./// Pushing a category entry extends the grouping view by one pair./// Pushing a category entry extends the grouping view by one pair.
proof fn lemma_cats_push(
    before: Seq<(FingerprintCategory, Vec<FingerprintMatch>)>,
    after: Seq<(FingerprintCategory, Vec<FingerprintMatch>)>,
    cat: FingerprintCategory,
    vs: Seq<FingerprintMatchV>,
)
    requires
        after.len() == before.len() + 1,
        forall|x: int| 0 <= x < before.len() ==> after[x] == before[x],
        after[before.len() as int].0 == cat,
        matches_view(after[before.len() as int].1@) == vs,
    ensures
        cats_view(after) == cats_view(before) + seq![(cat, vs)],
{
    assert(cats_view(after) =~= cats_view(before) + seq![(cat, vs)]);
}

/// In a table with distinct identifiers, looking up a member's
/// identifier returns that member.
pub proof fn lemma_get_of_member(m: Seq<FingerprintV>, x: int)
    requires
        ids_unique(m),
        0 <= x < m.len(),
    ensures
        spec_get(m, m[x].id) == Some(m[x]),
    decreases x,
{
    if x == 0 {
    } else {
        assert(m[0].id != m[x].id);
        assert(ids_unique(m.drop_first()));
        lemma_get_of_member(m.drop_first(), x - 1);
        assert(m.drop_first()[x - 1] == m[x]);
    }
}



/// The source tag of the default table.
pub open spec fn default_source() -> Seq<char> {
    "agent-v1.0"@
}

/// One entry of the default table.
pub open spec fn table_entry(
    id: Seq<char>,
    fingerprint_type: FingerprintType,
    category: FingerprintCategory,
    pattern: FingerprintPatternV,
    confidence: u32,
    priority: u32,
) -> FingerprintV {
    FingerprintV {
        id,
        fingerprint_type,
        category,
        pattern,
        confidence,
        priority,
        source: default_source(),
    }
}

/// The six status spinner glyph literals.
pub open spec fn status_spinner_lits() -> Seq<Seq<char>> {
    seq!["\u{B7}"@, "\u{273B}"@, "\u{273D}"@, "\u{2736}"@, "\u{2733}"@, "\u{2722}"@]
}

/// The twelve braille spinner glyph literals.
pub open spec fn braille_spinner_lits() -> Seq<Seq<char>> {
    seq![
        "\u{2810}"@, "\u{2802}"@, "\u{2808}"@, "\u{2801}"@, "\u{2809}"@, "\u{2803}"@,
        "\u{280B}"@, "\u{2813}"@, "\u{2812}"@, "\u{2816}"@, "\u{2826}"@, "\u{2824}"@,
    ]
}

/// The thirteen known-tool-name literals of the default table.
pub open spec fn known_tool_lits() -> Seq<Seq<char>> {
    seq![
        "Bash"@, "Read"@, "Edit"@, "Write"@, "Glob"@, "Grep"@, "WebFetch"@, "WebSearch"@,
        "Task"@, "LSP"@, "NotebookEdit"@, "TodoRead"@, "TodoWrite"@,
    ]
}

/// The nine error keyword literals.
pub open spec fn error_keyword_lits() -> Seq<Seq<char>> {
    seq![
        "Error:"@, "error:"@, "ERROR:"@, "\u{2716}"@, "ENOENT"@, "EPERM"@, "EACCES"@,
        "failed"@, "Failed"@,
    ]
}

/// The shipped default table, entry by entry: spinner glyph sets, the
/// status-bar grammar and busy marker, prompts, the response marker and
/// separator, the tool block grammars with the known tool names, the
/// confirmation grammars, error indicators, and the title grammar.
pub open spec fn default_table() -> Seq<FingerprintV> {
    seq![
        table_entry(
            "agent.spinner.status"@,
            FingerprintType::Enum,
            FingerprintCategory::Spinner,
            FingerprintPatternV::Enum(status_spinner_lits()),
            95,
            100,
        ),
        table_entry(
            "agent.spinner.braille"@,
            FingerprintType::Enum,
            FingerprintCategory::Spinner,
            FingerprintPatternV::Enum(braille_spinner_lits()),
            95,
            100,
        ),
        table_entry(
            "agent.statusbar.pattern"@,
            FingerprintType::Regex,
            FingerprintCategory::Statusbar,
            FingerprintPatternV::Rule(PatternRule::StatusBar),
            95,
            95,
        ),
        table_entry(
            "agent.statusbar.running"@,
            FingerprintType::String,
            FingerprintCategory::Statusbar,
            FingerprintPatternV::String("esc to interrupt"@),
            90,
            90,
        ),
        table_entry(
            "agent.prompt.input"@,
            FingerprintType::Regex,
            FingerprintCategory::Prompt,
            FingerprintPatternV::Rule(PatternRule::PromptInput),
            90,
            90,
        ),
        table_entry(
            "agent.prompt.with-text"@,
            FingerprintType::Regex,
            FingerprintCategory::Prompt,
            FingerprintPatternV::Rule(PatternRule::PromptWithText),
            85,
            85,
        ),
        table_entry(
            "agent.marker.response"@,
            FingerprintType::String,
            FingerprintCategory::Assistant,
            FingerprintPatternV::String("\u{23FA}"@),
            95,
            90,
        ),
        table_entry(
            "agent.marker.separator"@,
            FingerprintType::Regex,
            FingerprintCategory::Separator,
            FingerprintPatternV::Rule(PatternRule::Separator),
            90,
            80,
        ),
        table_entry(
            "agent.tool.header"@,
            FingerprintType::Regex,
            FingerprintCategory::Tool,
            FingerprintPatternV::Rule(PatternRule::ToolHeaderBox),
            95,
            92,
        ),
        table_entry(
            "agent.tool.inline-header"@,
            FingerprintType::Regex,
            FingerprintCategory::Tool,
            FingerprintPatternV::Rule(PatternRule::ToolHeaderInline),
            90,
            92,
        ),
        table_entry(
            "agent.tool.param"@,
            FingerprintType::Regex,
            FingerprintCategory::Tool,
            FingerprintPatternV::Rule(PatternRule::ToolParam),
            90,
            90,
        ),
        table_entry(
            "agent.tool.output-line"@,
            FingerprintType::Regex,
            FingerprintCategory::Tool,
            FingerprintPatternV::Rule(PatternRule::ToolOutputLine),
            85,
            85,
        ),
        table_entry(
            "agent.tool.inline-output-line"@,
            FingerprintType::Regex,
            FingerprintCategory::Tool,
            FingerprintPatternV::Rule(PatternRule::ToolInlineOutput),
            85,
            85,
        ),
        table_entry(
            "agent.tool.known-names"@,
            FingerprintType::Enum,
            FingerprintCategory::Tool,
            FingerprintPatternV::Enum(known_tool_lits()),
            95,
            92,
        ),
        table_entry(
            "agent.confirm.numbered-option"@,
            FingerprintType::Regex,
            FingerprintCategory::Confirm,
            FingerprintPatternV::Rule(PatternRule::ConfirmNumbered),
            85,
            85,
        ),
        table_entry(
            "agent.confirm.yes-option"@,
            FingerprintType::Regex,
            FingerprintCategory::Confirm,
            FingerprintPatternV::Rule(PatternRule::ConfirmYesOption),
            90,
            88,
        ),
        table_entry(
            "agent.confirm.no-option"@,
            FingerprintType::Regex,
            FingerprintCategory::Confirm,
            FingerprintPatternV::Rule(PatternRule::ConfirmNoOption),
            90,
            88,
        ),
        table_entry(
            "agent.error.keywords"@,
            FingerprintType::Enum,
            FingerprintCategory::Error,
            FingerprintPatternV::Enum(error_keyword_lits()),
            85,
            80,
        ),
        table_entry(
            "agent.error.stack-trace"@,
            FingerprintType::Regex,
            FingerprintCategory::Error,
            FingerprintPatternV::Rule(PatternRule::ErrorStackTrace),
            90,
            82,
        ),
        table_entry(
            "agent.title.pattern"@,
            FingerprintType::Regex,
            FingerprintCategory::Statusbar,
            FingerprintPatternV::Rule(PatternRule::TitleLine),
            90,
            85,
        ),
    ]
}

/// One fingerprint with the fixed source tag.
fn fp(
    id: &str,
    fingerprint_type: FingerprintType,
    category: FingerprintCategory,
    pattern: FingerprintPattern,
    confidence: u32,
    priority: u32,
) -> (r: Fingerprint)
    ensures
        r@ == table_entry(id@, fingerprint_type, category, pattern@, confidence, priority),
{
    Fingerprint {
        id: String::from_str(id),
        fingerprint_type,
        category,
        pattern,
        confidence,
        priority,
        source: String::from_str("agent-v1.0"),
    }
}

/// A set-of-literals pattern over string literals.
fn lit_set(lits: Vec<String>) -> (r: FingerprintPattern)
    ensures
        r@ == FingerprintPatternV::Enum(lits.deep_view()),
{
    FingerprintPattern::Enum(lits)
}

/// The shipped default fingerprint table: exactly the entries of
/// [`default_table`], in order.
pub fn agent_fingerprints() -> (r: Vec<Fingerprint>)
    ensures
        r.deep_view_fps() == default_table(),
        r@.len() == 20,
{
    let mut v: Vec<Fingerprint> = Vec::new();
    let mut status_spinners: Vec<String> = Vec::new();
    status_spinners.push(String::from_str("\u{B7}"));
    status_spinners.push(String::from_str("\u{273B}"));
    status_spinners.push(String::from_str("\u{273D}"));
    status_spinners.push(String::from_str("\u{2736}"));
    status_spinners.push(String::from_str("\u{2733}"));
    status_spinners.push(String::from_str("\u{2722}"));
    proof {
        assert(status_spinners.deep_view() =~= status_spinner_lits());
    }
    let mut braille: Vec<String> = Vec::new();
    braille.push(String::from_str("\u{2810}"));
    braille.push(String::from_str("\u{2802}"));
    braille.push(String::from_str("\u{2808}"));
    braille.push(String::from_str("\u{2801}"));
    braille.push(String::from_str("\u{2809}"));
    braille.push(String::from_str("\u{2803}"));
    braille.push(String::from_str("\u{280B}"));
    braille.push(String::from_str("\u{2813}"));
    braille.push(String::from_str("\u{2812}"));
    braille.push(String::from_str("\u{2816}"));
    braille.push(String::from_str("\u{2826}"));
    braille.push(String::from_str("\u{2824}"));
    proof {
        assert(braille.deep_view() =~= braille_spinner_lits());
    }
    let mut tools: Vec<String> = Vec::new();
    tools.push(String::from_str("Bash"));
    tools.push(String::from_str("Read"));
    tools.push(String::from_str("Edit"));
    tools.push(String::from_str("Write"));
    tools.push(String::from_str("Glob"));
    tools.push(String::from_str("Grep"));
    tools.push(String::from_str("WebFetch"));
    tools.push(String::from_str("WebSearch"));
    tools.push(String::from_str("Task"));
    tools.push(String::from_str("LSP"));
    tools.push(String::from_str("NotebookEdit"));
    tools.push(String::from_str("TodoRead"));
    tools.push(String::from_str("TodoWrite"));
    proof {
        assert(tools.deep_view() =~= known_tool_lits());
    }
    let mut errs: Vec<String> = Vec::new();
    errs.push(String::from_str("Error:"));
    errs.push(String::from_str("error:"));
    errs.push(String::from_str("ERROR:"));
    errs.push(String::from_str("\u{2716}"));
    errs.push(String::from_str("ENOENT"));
    errs.push(String::from_str("EPERM"));
    errs.push(String::from_str("EACCES"));
    errs.push(String::from_str("failed"));
    errs.push(String::from_str("Failed"));
    proof {
        assert(errs.deep_view() =~= error_keyword_lits());
    }
    v.push(
        fp(
            "agent.spinner.status",
            FingerprintType::Enum,
            FingerprintCategory::Spinner,
            lit_set(status_spinners),
            95,
            100,
        ),
    );
    proof {
        assert(v.deep_view_fps() =~= default_table().subrange(0, 1));
    }
    v.push(
        fp(
            "agent.spinner.braille",
            FingerprintType::Enum,
            FingerprintCategory::Spinner,
            lit_set(braille),
            95,
            100,
        ),
    );
    proof {
        assert(v.deep_view_fps() =~= default_table().subrange(0, 2));
    }
    v.push(
        fp(
            "agent.statusbar.pattern",
            FingerprintType::Regex,
            FingerprintCategory::Statusbar,
            FingerprintPattern::Rule(PatternRule::StatusBar),
            95,
            95,
        ),
    );
    proof {
        assert(v.deep_view_fps() =~= default_table().subrange(0, 3));
    }
    v.push(
        fp(
            "agent.statusbar.running",
            FingerprintType::String,
            FingerprintCategory::Statusbar,
            FingerprintPattern::String(String::from_str("esc to interrupt")),
            90,
            90,
        ),
    );
    proof {
        assert(v.deep_view_fps() =~= default_table().subrange(0, 4));
    }
    v.push(
        fp(
            "agent.prompt.input",
            FingerprintType::Regex,
            FingerprintCategory::Prompt,
            FingerprintPattern::Rule(PatternRule::PromptInput),
            90,
            90,
        ),
    );
    proof {
        assert(v.deep_view_fps() =~= default_table().subrange(0, 5));
    }
    v.push(
        fp(
            "agent.prompt.with-text",
            FingerprintType::Regex,
            FingerprintCategory::Prompt,
            FingerprintPattern::Rule(PatternRule::PromptWithText),
            85,
            85,
        ),
    );
    proof {
        assert(v.deep_view_fps() =~= default_table().subrange(0, 6));
    }
    v.push(
        fp(
            "agent.marker.response",
            FingerprintType::String,
            FingerprintCategory::Assistant,
            FingerprintPattern::String(String::from_str("\u{23FA}")),
            95,
            90,
        ),
    );
    proof {
        assert(v.deep_view_fps() =~= default_table().subrange(0, 7));
    }
    v.push(
        fp(
            "agent.marker.separator",
            FingerprintType::Regex,
            FingerprintCategory::Separator,
            FingerprintPattern::Rule(PatternRule::Separator),
            90,
            80,
        ),
    );
    proof {
        assert(v.deep_view_fps() =~= default_table().subrange(0, 8));
    }
    v.push(
        fp(
            "agent.tool.header",
            FingerprintType::Regex,
            FingerprintCategory::Tool,
            FingerprintPattern::Rule(PatternRule::ToolHeaderBox),
            95,
            92,
        ),
    );
    proof {
        assert(v.deep_view_fps() =~= default_table().subrange(0, 9));
    }
    v.push(
        fp(
            "agent.tool.inline-header",
            FingerprintType::Regex,
            FingerprintCategory::Tool,
            FingerprintPattern::Rule(PatternRule::ToolHeaderInline),
            90,
            92,
        ),
    );
    proof {
        assert(v.deep_view_fps() =~= default_table().subrange(0, 10));
    }
    v.push(
        fp(
            "agent.tool.param",
            FingerprintType::Regex,
            FingerprintCategory::Tool,
            FingerprintPattern::Rule(PatternRule::ToolParam),
            90,
            90,
        ),
    );
    proof {
        assert(v.deep_view_fps() =~= default_table().subrange(0, 11));
    }
    v.push(
        fp(
            "agent.tool.output-line",
            FingerprintType::Regex,
            FingerprintCategory::Tool,
            FingerprintPattern::Rule(PatternRule::ToolOutputLine),
            85,
            85,
        ),
    );
    proof {
        assert(v.deep_view_fps() =~= default_table().subrange(0, 12));
    }
    v.push(
        fp(
            "agent.tool.inline-output-line",
            FingerprintType::Regex,
            FingerprintCategory::Tool,
            FingerprintPattern::Rule(PatternRule::ToolInlineOutput),
            85,
            85,
        ),
    );
    proof {
        assert(v.deep_view_fps() =~= default_table().subrange(0, 13));
    }
    v.push(
        fp(
            "agent.tool.known-names",
            FingerprintType::Enum,
            FingerprintCategory::Tool,
            lit_set(tools),
            95,
            92,
        ),
    );
    proof {
        assert(v.deep_view_fps() =~= default_table().subrange(0, 14));
    }
    v.push(
        fp(
            "agent.confirm.numbered-option",
            FingerprintType::Regex,
            FingerprintCategory::Confirm,
            FingerprintPattern::Rule(PatternRule::ConfirmNumbered),
            85,
            85,
        ),
    );
    proof {
        assert(v.deep_view_fps() =~= default_table().subrange(0, 15));
    }
    v.push(
        fp(
            "agent.confirm.yes-option",
            FingerprintType::Regex,
            FingerprintCategory::Confirm,
            FingerprintPattern::Rule(PatternRule::ConfirmYesOption),
            90,
            88,
        ),
    );
    proof {
        assert(v.deep_view_fps() =~= default_table().subrange(0, 16));
    }
    v.push(
        fp(
            "agent.confirm.no-option",
            FingerprintType::Regex,
            FingerprintCategory::Confirm,
            FingerprintPattern::Rule(PatternRule::ConfirmNoOption),
            90,
            88,
        ),
    );
    proof {
        assert(v.deep_view_fps() =~= default_table().subrange(0, 17));
    }
    v.push(
        fp(
            "agent.error.keywords",
            FingerprintType::Enum,
            FingerprintCategory::Error,
            lit_set(errs),
            85,
            80,
        ),
    );
    proof {
        assert(v.deep_view_fps() =~= default_table().subrange(0, 18));
    }
    v.push(
        fp(
            "agent.error.stack-trace",
            FingerprintType::Regex,
            FingerprintCategory::Error,
            FingerprintPattern::Rule(PatternRule::ErrorStackTrace),
            90,
            82,
        ),
    );
    proof {
        assert(v.deep_view_fps() =~= default_table().subrange(0, 19));
    }
    v.push(
        fp(
            "agent.title.pattern",
            FingerprintType::Regex,
            FingerprintCategory::Statusbar,
            FingerprintPattern::Rule(PatternRule::TitleLine),
            90,
            85,
        ),
    );
    proof {
        assert(v.deep_view_fps() =~= default_table().subrange(0, 20));
    }
    proof {
        assert(default_table().subrange(0, 20) =~= default_table());
    }
    v
}

/// A registry pre-loaded with the default table: the result of
/// registering every entry of [`default_table`], in order, into a fresh
/// registry.
pub fn default_registry() -> (r: FingerprintRegistry)
    ensures
        r.inv(),
        r.fps() == spec_put_all(Seq::empty(), default_table()),
{
    let mut registry = FingerprintRegistry::new();
    proof {
        assert(registry.fps() =~= Seq::<FingerprintV>::empty());
    }
    registry.register_all(agent_fingerprints());
    registry
}

/// The fingerprint views of a vector.
pub trait FingerprintVecView {
    /// The views of the elements, in order.
    spec fn deep_view_fps(&self) -> Seq<FingerprintV>;
}

impl FingerprintVecView for Vec<Fingerprint> {
    open spec fn deep_view_fps(&self) -> Seq<FingerprintV> {
        Seq::new(self@.len(), |i: int| self@[i]@)
    }
}

} // verus!
