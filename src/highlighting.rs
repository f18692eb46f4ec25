//! Converting highlight events over byte ranges into Kakoune ranges.
use vstd::prelude::*;
use vstd::utf8::encode_utf8;

use crate::text::{decimal, push_decimal};

verus! {

/// Each character of `s` paired with the byte offset of its first byte in the
/// UTF-8 encoding of `s`.
pub open spec fn char_offsets(s: Seq<char>) -> Seq<(usize, char)> {
    Seq::new(s.len(), |i: int| (encode_utf8(s.take(i)).len() as usize, s[i]))
}

/// Relies on `str::char_indices`: it yields every character of the string in
/// order, with the byte offset at which the character starts.
#[verifier::external_body]
fn char_indices(s: &str) -> (r: Vec<(usize, char)>)
    ensures
        r@ == char_offsets(s@),
{
    s.char_indices().collect()
}

/// Line and column (both 1-based) reached once the first `n` characters of
/// the stream have been consumed. A character that follows a line feed
/// starts a new line; every other character moves one column to the right.
pub open spec fn line_col(cs: Seq<(usize, char)>, n: nat) -> (nat, nat)
    decreases n,
{
    if n <= 1 {
        (1, 1)
    } else {
        let prev = line_col(cs, (n - 1) as nat);
        if cs[n - 2].1 == '\n' {
            (prev.0 + 1, 1)
        } else {
            (prev.0, prev.1 + 1)
        }
    }
}

/// Byte offset of the last consumed character (0 before any).
pub open spec fn byte_at(cs: Seq<(usize, char)>, n: nat) -> usize {
    if n == 0 {
        0
    } else {
        cs[n - 1].0
    }
}

/// The abstract state of a mapper: the character stream and how many of its
/// characters have been consumed.
pub ghost struct MapperState {
    pub chars: Seq<(usize, char)>,
    pub consumed: nat,
}

/// Where `advance(til)` leaves a mapper that had consumed `n` characters:
/// it consumes characters until the last consumed one starts at or after
/// `til`, or the stream is exhausted.
pub open spec fn advance_stop(cs: Seq<(usize, char)>, n: nat, til: usize, m: nat) -> bool {
    &&& n <= m <= cs.len()
    &&& forall|j: nat| n <= j < m ==> #[trigger] byte_at(cs, j) < til
    &&& (m == cs.len() || byte_at(cs, m) >= til)
}

/// A forward-only cursor mapping byte offsets of a text to line and column.
pub struct ByteLineColMapper {
    chars: Vec<(usize, char)>,
    consumed: usize,
    byte_idx: usize,
    line: usize,
    col: usize,
    change_line: bool,
}

proof fn lemma_line_col_bounded(cs: Seq<(usize, char)>, n: nat)
    requires
        n >= 1,
    ensures
        1 <= line_col(cs, n).0 <= n,
        1 <= line_col(cs, n).1 <= n,
    decreases n,
{
    if n > 1 {
        lemma_line_col_bounded(cs, (n - 1) as nat);
    }
}

impl View for ByteLineColMapper {
    type V = MapperState;

    closed spec fn view(&self) -> MapperState {
        MapperState { chars: self.chars@, consumed: self.consumed as nat }
    }
}

impl ByteLineColMapper {
    /// The fields agree with the abstract state.
    pub closed spec fn wf(&self) -> bool {
        let cs = self.chars@;
        let n = self.consumed as nat;
        &&& n <= cs.len()
        &&& (cs.len() > 0 ==> n >= 1)
        &&& self.byte_idx == byte_at(cs, n)
        &&& self.line == line_col(cs, n).0
        &&& self.col == line_col(cs, n).1
        &&& self.change_line == (n >= 1 && cs[n - 1].1 == '\n')
    }

    /// A mapper over `source`, standing on its first character (line 1,
    /// column 1).
    pub fn new(source: &str) -> (r: Self)
        ensures
            r.wf(),
            r@.chars == char_offsets(source@),
            r@.consumed == if source@.len() > 0 {
                1nat
            } else {
                0nat
            },
    {
        let chars = char_indices(source);
        if chars.len() > 0 {
            let byte_idx = chars[0].0;
            let change_line = chars[0].1 == '\n';
            ByteLineColMapper { chars, consumed: 1, byte_idx, line: 1, col: 1, change_line }
        } else {
            ByteLineColMapper { chars, consumed: 0, byte_idx: 0, line: 1, col: 1, change_line: false }
        }
    }

    /// Current line (1-based).
    pub fn line(&self) -> (r: usize)
        requires
            self.wf(),
        ensures
            r == line_col(self@.chars, self@.consumed).0,
    {
        self.line
    }

    /// Current column (1-based, counted in characters).
    pub fn col(&self) -> (r: usize)
        requires
            self.wf(),
        ensures
            r == line_col(self@.chars, self@.consumed).1,
    {
        self.col
    }

    /// Consumes characters until the current character starts at or after
    /// byte `til`, or the text is exhausted. Never moves backwards.
    pub fn advance(&mut self, til: usize)
        requires
            old(self).wf(),
        ensures
            final(self).wf(),
            final(self)@.chars == old(self)@.chars,
            advance_stop(old(self)@.chars, old(self)@.consumed, til, final(self)@.consumed),
    {
        let ghost cs = self.chars@;
        let ghost n0 = self.consumed as nat;
        while self.byte_idx < til && self.consumed < self.chars.len()
            invariant
                self.wf(),
                self.chars@ == cs,
                n0 <= self.consumed <= cs.len(),
                forall|j: nat| n0 <= j < self.consumed ==> #[trigger] byte_at(cs, j) < til,
            decreases cs.len() - self.consumed,
        {
            let (idx, c) = self.chars[self.consumed];
            proof {
                lemma_line_col_bounded(cs, (self.consumed + 1) as nat);
            }
            self.byte_idx = idx;
            if self.change_line {
                self.line = self.line + 1;
                self.col = 0;
            }
            self.change_line = c == '\n';
            self.col = self.col + 1;
            self.consumed = self.consumed + 1;
        }
    }
}

} // verus!

verus! {

/// What a [`KakHighlightRange`] denotes.
pub ghost struct HighlightSpan {
    pub line_start: nat,
    pub col_start: nat,
    pub line_end: nat,
    pub col_end: nat,
    pub face: Seq<char>,
}

/// A single highlight range for Kakoune's `ranges` highlighter: 1-based,
/// inclusive positions and the face to apply.
#[derive(Debug, PartialEq, Eq)]
pub struct KakHighlightRange {
    pub line_start: usize,
    pub col_start: usize,
    pub line_end: usize,
    pub col_end: usize,
    pub face: String,
}

impl View for KakHighlightRange {
    type V = HighlightSpan;

    open spec fn view(&self) -> HighlightSpan {
        HighlightSpan {
            line_start: self.line_start as nat,
            col_start: self.col_start as nat,
            line_end: self.line_end as nat,
            col_end: self.col_end as nat,
            face: self.face@,
        }
    }
}

/// The token read by the `ranges` highlighter:
/// `<line_start>.<col_start>,<line_end>.<col_end>|ts_<face>`.
pub open spec fn range_token(h: HighlightSpan) -> Seq<char> {
    decimal(h.line_start) + seq!['.'] + decimal(h.col_start) + seq![','] + decimal(h.line_end)
        + seq!['.'] + decimal(h.col_end) + seq!['|', 't', 's', '_'] + h.face
}

impl KakHighlightRange {
    pub fn new(
        line_start: usize,
        col_start: usize,
        line_end: usize,
        col_end: usize,
        face: String,
    ) -> (r: Self)
        ensures
            r@ == (HighlightSpan {
                line_start: line_start as nat,
                col_start: col_start as nat,
                line_end: line_end as nat,
                col_end: col_end as nat,
                face: face@,
            }),
    {
        KakHighlightRange { line_start, col_start, line_end, col_end, face }
    }

    /// Display as a string recognized by the `ranges` Kakoune highlighter.
    pub fn to_kak_range_str(&self) -> (r: String)
        ensures
            r@ == range_token(self@),
    {
        let mut s = String::new();
        push_decimal(&mut s, self.line_start as u128);
        s.push('.');
        push_decimal(&mut s, self.col_start as u128);
        s.push(',');
        push_decimal(&mut s, self.line_end as u128);
        s.push('.');
        push_decimal(&mut s, self.col_end as u128);
        s.push('|');
        s.push('t');
        s.push('s');
        s.push('_');
        s.append(self.face.as_str());
        assert(s@ =~= range_token(self@));
        s
    }
}

} // verus!

verus! {

/// Where the mapper stops when asked to advance to `til` after `n` consumed
/// characters.
pub open spec fn advanced(cs: Seq<(usize, char)>, n: nat, til: usize) -> nat
    decreases cs.len() - n,
{
    if n >= cs.len() || byte_at(cs, n) >= til {
        n
    } else {
        advanced(cs, n + 1, til)
    }
}

/// The stopping point of `advance` is unique: it is `advanced`.
pub proof fn lemma_advance_stop_unique(cs: Seq<(usize, char)>, n: nat, til: usize, m: nat)
    requires
        advance_stop(cs, n, til, m),
    ensures
        m == advanced(cs, n, til),
    decreases cs.len() - n,
{
    if n >= cs.len() || byte_at(cs, n) >= til {
        if m > n {
            assert(byte_at(cs, n) < til);
        }
    } else {
        if m == n {
        } else {
            assert forall|j: nat| n + 1 <= j < m implies #[trigger] byte_at(cs, j) < til by {}
            lemma_advance_stop_unique(cs, n + 1, til, m);
        }
    }
}

/// An event of a highlighting pass: a scope opens with an index into the face
/// table, a scope closes, or a byte range `[start, end)` of the source is
/// covered by the innermost open scope.
#[derive(Clone, Copy, Debug, PartialEq, Eq, Structural)]
pub enum HighlightEvent {
    Source { start: usize, end: usize },
    HighlightStart(usize),
    HighlightEnd,
}

/// A malformed event stream.
#[derive(Clone, Copy, Debug, PartialEq, Eq, Structural)]
pub enum HighlightError {
    /// A scope start names a face index outside the face table.
    UnknownHighlight { index: usize },
    /// A scope end comes while no scope is open.
    UnbalancedEnd,
}

/// The face used when no scope is open.
pub open spec fn fallback_face() -> Seq<char> {
    seq!['u', 'n', 'k', 'n', 'o', 'w', 'n']
}

/// `s` with every `.` rewritten to `_`.
pub open spec fn without_dots(s: Seq<char>) -> Seq<char> {
    s.map_values(|c: char| if c == '.' { '_' } else { c })
}

/// The face of the innermost open scope, or the fallback face.
pub open spec fn active_face(names: Seq<Seq<char>>, stack: Seq<usize>) -> Seq<char> {
    if stack.len() == 0 {
        fallback_face()
    } else {
        names[stack.last() as int]
    }
}

/// The face table as character sequences.
pub open spec fn names_view(names: Seq<&str>) -> Seq<Seq<char>> {
    names.map_values(|s: &str| s@)
}

/// The state of a translation: open scopes (innermost last), characters
/// consumed by the position mapper, and the ranges emitted so far.
pub ghost struct TranslateState {
    pub stack: Seq<usize>,
    pub consumed: nat,
    pub out: Seq<HighlightSpan>,
}

/// No scope open, the mapper on the first character, nothing emitted.
pub open spec fn initial_state(cs: Seq<(usize, char)>) -> TranslateState {
    TranslateState {
        stack: seq![],
        consumed: if cs.len() > 0 {
            1nat
        } else {
            0nat
        },
        out: seq![],
    }
}

/// One event applied to a translation state.
pub open spec fn step(
    cs: Seq<(usize, char)>,
    names: Seq<Seq<char>>,
    st: TranslateState,
    ev: HighlightEvent,
) -> Result<TranslateState, HighlightError> {
    match ev {
        HighlightEvent::Source { start, end } => {
            if start >= end {
                Ok(st)
            } else {
                let n1 = advanced(cs, st.consumed, start);
                let n2 = advanced(cs, n1, (end - 1) as usize);
                let span = HighlightSpan {
                    line_start: line_col(cs, n1).0,
                    col_start: line_col(cs, n1).1,
                    line_end: line_col(cs, n2).0,
                    col_end: line_col(cs, n2).1,
                    face: without_dots(active_face(names, st.stack)),
                };
                Ok(TranslateState { consumed: n2, out: st.out.push(span), ..st })
            }
        },
        HighlightEvent::HighlightStart(i) => {
            if i < names.len() {
                Ok(TranslateState { stack: st.stack.push(i), ..st })
            } else {
                Err(HighlightError::UnknownHighlight { index: i })
            }
        },
        HighlightEvent::HighlightEnd => {
            if st.stack.len() > 0 {
                Ok(TranslateState { stack: st.stack.drop_last(), ..st })
            } else {
                Err(HighlightError::UnbalancedEnd)
            }
        },
    }
}

/// A whole event stream applied in order, stopping at the first error.
pub open spec fn translate(
    cs: Seq<(usize, char)>,
    names: Seq<Seq<char>>,
    evs: Seq<HighlightEvent>,
) -> Result<TranslateState, HighlightError>
    decreases evs.len(),
{
    if evs.len() == 0 {
        Ok(initial_state(cs))
    } else {
        match translate(cs, names, evs.drop_last()) {
            Ok(st) => step(cs, names, st, evs.last()),
            Err(e) => Err(e),
        }
    }
}

proof fn lemma_error_persists(
    cs: Seq<(usize, char)>,
    names: Seq<Seq<char>>,
    evs: Seq<HighlightEvent>,
    k: nat,
    e: HighlightError,
)
    requires
        k <= evs.len(),
        translate(cs, names, evs.take(k as int)) == Err::<TranslateState, HighlightError>(e),
    ensures
        translate(cs, names, evs) == Err::<TranslateState, HighlightError>(e),
    decreases evs.len() - k,
{
    if k == evs.len() {
        assert(evs.take(k as int) =~= evs);
    } else {
        assert(evs.take(k + 1 as int).drop_last() =~= evs.take(k as int));
        lemma_error_persists(cs, names, evs, k + 1, e);
    }
}

fn replace_dots(s: &str) -> (r: String)
    ensures
        r@ == without_dots(s@),
{
    let n = s.unicode_len();
    let mut r = String::new();
    let mut i: usize = 0;
    while i < n
        invariant
            n == s@.len(),
            i <= n,
            r@ == without_dots(s@.take(i as int)),
        decreases n - i,
    {
        let c = s.get_char(i);
        if c == '.' {
            r.push('_');
        } else {
            r.push(c);
        }
        assert(without_dots(s@.take(i + 1)) =~= without_dots(s@.take(i as int)).push(
            if c == '.' { '_' } else { c },
        ));
        i = i + 1;
    }
    assert(s@.take(n as int) =~= s@);
    r
}

impl KakHighlightRange {
    /// Translates a stream of highlight events over `source` into Kakoune
    /// ranges, one per non-empty source range, in event order. Each range
    /// takes the face of the innermost open scope (or `unknown`), with `.`
    /// rewritten to `_`. A source range whose end does not lie after its
    /// start covers nothing and is skipped.
    pub fn from_iter(source: &str, hl_names: &[&str], hl_events: &[HighlightEvent]) -> (r: Result<
        Vec<KakHighlightRange>,
        HighlightError,
    >)
        ensures
            match r {
                Ok(v) => translate(char_offsets(source@), names_view(hl_names@), hl_events@) is Ok
                    && v@.map_values(|h: KakHighlightRange| h@) == translate(
                    char_offsets(source@),
                    names_view(hl_names@),
                    hl_events@,
                )->Ok_0.out,
                Err(e) => translate(char_offsets(source@), names_view(hl_names@), hl_events@)
                    == Err::<TranslateState, HighlightError>(e),
            },
    {
        let ghost cs = char_offsets(source@);
        let ghost names = names_view(hl_names@);
        let ghost evs = hl_events@;
        let mut mapper = ByteLineColMapper::new(source);
        let mut out: Vec<KakHighlightRange> = Vec::new();
        let mut stack: Vec<usize> = Vec::new();
        let mut k: usize = 0;
        assert(evs.take(0) =~= Seq::<HighlightEvent>::empty());
        assert(out@.map_values(|h: KakHighlightRange| h@) =~= Seq::<HighlightSpan>::empty());
        while k < hl_events.len()
            invariant
                mapper.wf(),
                mapper@.chars == cs,
                cs == char_offsets(source@),
                evs == hl_events@,
                names == names_view(hl_names@),
                k <= evs.len(),
                forall|j: int| 0 <= j < stack@.len() ==> #[trigger] stack@[j] < names.len(),
                translate(cs, names, evs.take(k as int)) == Ok::<TranslateState, HighlightError>(
                    TranslateState {
                        stack: stack@,
                        consumed: mapper@.consumed,
                        out: out@.map_values(|h: KakHighlightRange| h@),
                    },
                ),
            decreases evs.len() - k,
        {
            let ghost st = TranslateState {
                stack: stack@,
                consumed: mapper@.consumed,
                out: out@.map_values(|h: KakHighlightRange| h@),
            };
            assert(evs.take(k + 1 as int).drop_last() =~= evs.take(k as int));
            assert(evs.take(k + 1 as int).last() == evs[k as int]);
            match hl_events[k] {
                HighlightEvent::Source { start, end } => {
                    if start < end {
                        mapper.advance(start);
                        proof {
                            lemma_advance_stop_unique(cs, st.consumed, start, mapper@.consumed);
                        }
                        let ghost n1 = mapper@.consumed;
                        let line_start = mapper.line();
                        let col_start = mapper.col();
                        mapper.advance(end - 1);
                        proof {
                            lemma_advance_stop_unique(cs, n1, (end - 1) as usize, mapper@.consumed);
                        }
                        let line_end = mapper.line();
                        let col_end = mapper.col();
                        let face = if stack.len() == 0 {
                            let f = replace_dots("unknown");
                            proof {
                                reveal_strlit("unknown");
                                assert("unknown"@ =~= fallback_face());
                            }
                            f
                        } else {
                            replace_dots(hl_names[stack[stack.len() - 1]])
                        };
                        let h = KakHighlightRange::new(line_start, col_start, line_end, col_end, face);
                        out.push(h);
                        assert(out@.map_values(|h: KakHighlightRange| h@) =~= st.out.push(h@));
                    }
                },
                HighlightEvent::HighlightStart(i) => {
                    if i < hl_names.len() {
                        stack.push(i);
                    } else {
                        proof {
                            lemma_error_persists(
                                cs,
                                names,
                                evs,
                                (k + 1) as nat,
                                HighlightError::UnknownHighlight { index: i },
                            );
                        }
                        return Err(HighlightError::UnknownHighlight { index: i });
                    }
                },
                HighlightEvent::HighlightEnd => {
                    if stack.len() > 0 {
                        stack.pop();
                        assert(stack@ =~= st.stack.drop_last());
                    } else {
                        proof {
                            lemma_error_persists(
                                cs,
                                names,
                                evs,
                                (k + 1) as nat,
                                HighlightError::UnbalancedEnd,
                            );
                        }
                        return Err(HighlightError::UnbalancedEnd);
                    }
                },
            }
            k = k + 1;
        }
        assert(evs.take(k as int) =~= evs);
        Ok(out)
    }
}

} // verus!

verus! {

/// Scope starts minus scope ends over the stream.
pub open spec fn depth(evs: Seq<HighlightEvent>) -> int
    decreases evs.len(),
{
    if evs.len() == 0 {
        0
    } else {
        depth(evs.drop_last()) + match evs.last() {
            HighlightEvent::HighlightStart(_) => 1int,
            HighlightEvent::HighlightEnd => -1int,
            HighlightEvent::Source { .. } => 0int,
        }
    }
}

/// No prefix closes more scopes than it opened, and every scope start names
/// one of the `n_names` faces.
pub open spec fn well_nested(evs: Seq<HighlightEvent>, n_names: nat) -> bool
    decreases evs.len(),
{
    if evs.len() == 0 {
        true
    } else {
        &&& well_nested(evs.drop_last(), n_names)
        &&& depth(evs) >= 0
        &&& match evs.last() {
            HighlightEvent::HighlightStart(i) => i < n_names,
            _ => true,
        }
    }
}

/// The number of source events whose range is not empty.
pub open spec fn nonempty_sources(evs: Seq<HighlightEvent>) -> nat
    decreases evs.len(),
{
    if evs.len() == 0 {
        0
    } else {
        nonempty_sources(evs.drop_last()) + match evs.last() {
            HighlightEvent::Source { start, end } => if start < end {
                1nat
            } else {
                0nat
            },
            _ => 0nat,
        }
    }
}

proof fn lemma_without_dots_has_none(s: Seq<char>)
    ensures
        !without_dots(s).contains('.'),
{
    assert forall|j: int| 0 <= j < without_dots(s).len() implies without_dots(s)[j] != '.' by {}
}

/// On a well-nested stream the translation succeeds, emits exactly one range
/// per non-empty source event, and no emitted face contains a `.`.
pub proof fn lemma_translate_well_nested(
    cs: Seq<(usize, char)>,
    names: Seq<Seq<char>>,
    evs: Seq<HighlightEvent>,
)
    requires
        well_nested(evs, names.len()),
    ensures
        translate(cs, names, evs) is Ok,
        translate(cs, names, evs)->Ok_0.out.len() == nonempty_sources(evs),
        translate(cs, names, evs)->Ok_0.stack.len() == depth(evs),
        forall|i: int|
            0 <= i < translate(cs, names, evs)->Ok_0.out.len() ==> !(
            #[trigger] translate(cs, names, evs)->Ok_0.out[i]).face.contains('.'),
    decreases evs.len(),
{
    if evs.len() > 0 {
        lemma_translate_well_nested(cs, names, evs.drop_last());
        let st = translate(cs, names, evs.drop_last())->Ok_0;
        lemma_without_dots_has_none(active_face(names, st.stack));
    }
}

/// A well-nested stretch of events keeps the scopes that were open before it
/// at the bottom of the stack.
pub proof fn lemma_stack_extends(
    cs: Seq<(usize, char)>,
    names: Seq<Seq<char>>,
    pre: Seq<HighlightEvent>,
    mid: Seq<HighlightEvent>,
)
    requires
        translate(cs, names, pre) is Ok,
        well_nested(mid, names.len()),
    ensures
        translate(cs, names, pre + mid) is Ok,
        translate(cs, names, pre + mid)->Ok_0.stack.len() == translate(cs, names, pre)->Ok_0.stack.len()
            + depth(mid),
        translate(cs, names, pre + mid)->Ok_0.stack.take(
            translate(cs, names, pre)->Ok_0.stack.len() as int,
        ) == translate(cs, names, pre)->Ok_0.stack,
    decreases mid.len(),
{
    let s = translate(cs, names, pre)->Ok_0.stack;
    if mid.len() == 0 {
        assert(pre + mid =~= pre);
        assert(s.take(s.len() as int) =~= s);
    } else {
        lemma_stack_extends(cs, names, pre, mid.drop_last());
        assert((pre + mid).drop_last() =~= pre + mid.drop_last());
        assert((pre + mid).last() == mid.last());
        let t = translate(cs, names, pre + mid.drop_last())->Ok_0.stack;
        let u = translate(cs, names, pre + mid)->Ok_0.stack;
        match mid.last() {
            HighlightEvent::HighlightStart(i) => {
                if mid.drop_last().len() > 0 {
                    assert(well_nested(mid.drop_last(), names.len()));
                    assert(depth(mid.drop_last()) >= 0);
                }
                assert(u =~= t.push(i));
                assert(u.take(s.len() as int) =~= t.take(s.len() as int));
            },
            HighlightEvent::HighlightEnd => {
                assert(u.take(s.len() as int) =~= t.take(s.len() as int));
            },
            HighlightEvent::Source { .. } => {},
        }
    }
}

/// A scope start followed, after a balanced stretch, by its matching scope
/// end restores the scopes that were open before: later source events take
/// the face that was active before the scope opened.
pub proof fn lemma_scope_end_restores(
    cs: Seq<(usize, char)>,
    names: Seq<Seq<char>>,
    pre: Seq<HighlightEvent>,
    i: usize,
    mid: Seq<HighlightEvent>,
)
    requires
        translate(cs, names, pre) is Ok,
        i < names.len(),
        well_nested(mid, names.len()),
        depth(mid) == 0,
    ensures
        ({
            let evs = pre.push(HighlightEvent::HighlightStart(i)) + mid.push(
                HighlightEvent::HighlightEnd,
            );
            &&& translate(cs, names, evs) is Ok
            &&& translate(cs, names, evs)->Ok_0.stack == translate(cs, names, pre)->Ok_0.stack
            &&& active_face(names, translate(cs, names, evs)->Ok_0.stack) == active_face(
                names,
                translate(cs, names, pre)->Ok_0.stack,
            )
        }),
{
    let s = translate(cs, names, pre)->Ok_0.stack;
    let opened = pre.push(HighlightEvent::HighlightStart(i));
    assert(opened.drop_last() =~= pre);
    lemma_stack_extends(cs, names, opened, mid);
    let t = translate(cs, names, opened + mid)->Ok_0.stack;
    assert(t =~= s.push(i)) by {
        assert(t.take(s.len() + 1 as int) =~= t);
    }
    let evs = opened + mid.push(HighlightEvent::HighlightEnd);
    assert(evs.drop_last() =~= opened + mid);
    assert(t.drop_last() =~= s);
}

proof fn lemma_no_start_empty_stack(
    cs: Seq<(usize, char)>,
    names: Seq<Seq<char>>,
    evs: Seq<HighlightEvent>,
)
    requires
        translate(cs, names, evs) is Ok,
        forall|k: int| 0 <= k < evs.len() ==> !(#[trigger] evs[k] is HighlightStart),
    ensures
        translate(cs, names, evs)->Ok_0.stack.len() == 0,
    decreases evs.len(),
{
    if evs.len() > 0 {
        assert(!(evs[evs.len() - 1] is HighlightStart));
        lemma_no_start_empty_stack(cs, names, evs.drop_last());
    }
}

/// Before the first scope start, a non-empty source range takes the
/// fallback face.
pub proof fn lemma_fallback_before_first_start(
    cs: Seq<(usize, char)>,
    names: Seq<Seq<char>>,
    evs: Seq<HighlightEvent>,
    start: usize,
    end: usize,
)
    requires
        translate(cs, names, evs) is Ok,
        forall|k: int| 0 <= k < evs.len() ==> !(#[trigger] evs[k] is HighlightStart),
        start < end,
    ensures
        translate(cs, names, evs.push(HighlightEvent::Source { start, end })) is Ok,
        translate(cs, names, evs.push(HighlightEvent::Source { start, end }))->Ok_0.out.last().face
            == fallback_face(),
{
    lemma_no_start_empty_stack(cs, names, evs);
    let ext = evs.push(HighlightEvent::Source { start, end });
    assert(ext.drop_last() =~= evs);
    assert(without_dots(fallback_face()) =~= fallback_face());
}

} // verus!
