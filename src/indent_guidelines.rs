//! Indent guidelines for Kakoune, compacted into a single highlighter string.
use vstd::prelude::*;

use crate::text::{decimal, push_decimal};

verus! {

/// What an [`IndentGuideline`] denotes: a 1-based line and the 0-based
/// columns that carry a guide mark on it.
pub ghost struct GuidelineView {
    pub line: nat,
    pub cols: Seq<usize>,
}

/// Indent guideline for a given line.
#[derive(Debug)]
pub struct IndentGuideline {
    line: usize,
    cols: Vec<usize>,
}

impl View for IndentGuideline {
    type V = GuidelineView;

    closed spec fn view(&self) -> GuidelineView {
        GuidelineView { line: self.line as nat, cols: self.cols@ }
    }
}

impl IndentGuideline {
    pub fn new(line: usize, cols: Vec<usize>) -> (r: Self)
        ensures
            r@ == (GuidelineView { line: line as nat, cols: cols@ }),
    {
        IndentGuideline { line, cols }
    }
}

/// Lines strictly increase from one guideline to the next.
pub open spec fn lines_increasing(gs: Seq<GuidelineView>) -> bool {
    forall|i: int, j: int| 0 <= i < j < gs.len() ==> gs[i].line < gs[j].line
}

/// The mark drawn in `replace-ranges` mode.
pub open spec fn guideline_glyph() -> Seq<char> {
    seq!['\u{2502}']
}

/// The face applied in `ranges` mode.
pub open spec fn guideline_face() -> Seq<char> {
    seq![
        't', 's', '_', 'i', 'n', 'd', 'e', 'n', 't', '_', 'g', 'u', 'i', 'd', 'e', 'l', 'i', 'n', 'e',
    ]
}

/// The token for one mark: `<line>.<col+1>+1|<symbol> `.
pub open spec fn guide_token(line: nat, col: nat, sym: Seq<char>) -> Seq<char> {
    decimal(line) + seq!['.'] + decimal(col + 1) + seq!['+', '1', '|'] + sym + seq![' ']
}

/// One token per column, in order, all on `line`.
pub open spec fn line_tokens(line: nat, cols: Seq<usize>, sym: Seq<char>) -> Seq<char>
    decreases cols.len(),
{
    if cols.len() == 0 {
        seq![]
    } else {
        line_tokens(line, cols.drop_last(), sym) + guide_token(line, cols.last() as nat, sym)
    }
}

/// The same columns on every line of `[from, to)`, in line order.
pub open spec fn span_tokens(from: nat, to: nat, cols: Seq<usize>, sym: Seq<char>) -> Seq<char>
    decreases to,
{
    if to <= from {
        seq![]
    } else {
        span_tokens(from, (to - 1) as nat, cols, sym) + line_tokens((to - 1) as nat, cols, sym)
    }
}

/// What guideline `i` contributes: its columns carried over every line up to
/// the next guideline's line, or on its own line only when it is the last.
pub open spec fn entry_tokens(gs: Seq<GuidelineView>, i: int, sym: Seq<char>) -> Seq<char> {
    if i + 1 < gs.len() {
        span_tokens(gs[i].line, gs[i + 1].line, gs[i].cols, sym)
    } else {
        line_tokens(gs[i].line, gs[i].cols, sym)
    }
}

/// The contributions of the first `k` guidelines, concatenated.
pub open spec fn entries_tokens(gs: Seq<GuidelineView>, k: nat, sym: Seq<char>) -> Seq<char>
    decreases k,
{
    if k == 0 {
        seq![]
    } else {
        entries_tokens(gs, (k - 1) as nat, sym) + entry_tokens(gs, k - 1, sym)
    }
}

/// The whole compacted string for a sequence of guidelines.
pub open spec fn guidelines_tokens(gs: Seq<GuidelineView>, sym: Seq<char>) -> Seq<char> {
    entries_tokens(gs, gs.len(), sym)
}

fn push_line(out: &mut String, line: usize, cols: &Vec<usize>, sym: &str)
    ensures
        final(out)@ == old(out)@ + line_tokens(line as nat, cols@, sym@),
{
    let mut i: usize = 0;
    while i < cols.len()
        invariant
            i <= cols@.len(),
            out@ == old(out)@ + line_tokens(line as nat, cols@.take(i as int), sym@),
        decreases cols.len() - i,
    {
        let ghost before = out@;
        let col = cols[i];
        push_decimal(out, line as u128);
        out.push('.');
        push_decimal(out, col as u128 + 1);
        out.push('+');
        out.push('1');
        out.push('|');
        out.append(sym);
        out.push(' ');
        proof {
            let t = cols@.take(i + 1);
            assert(t.drop_last() =~= cols@.take(i as int));
            assert(out@ =~= before + guide_token(line as nat, col as nat, sym@));
        }
        i = i + 1;
    }
    assert(cols@.take(i as int) =~= cols@);
}

fn push_span(out: &mut String, from: usize, to: usize, cols: &Vec<usize>, sym: &str)
    ensures
        final(out)@ == old(out)@ + span_tokens(from as nat, to as nat, cols@, sym@),
{
    let mut l: usize = from;
    assert(old(out)@ + span_tokens(from as nat, from as nat, cols@, sym@) =~= old(out)@);
    while l < to
        invariant
            from <= l,
            l <= to || l == from,
            out@ == old(out)@ + span_tokens(from as nat, l as nat, cols@, sym@),
        decreases to - l,
    {
        push_line(out, l, cols, sym);
        assert(span_tokens(from as nat, (l + 1) as nat, cols@, sym@) =~= span_tokens(
            from as nat,
            l as nat,
            cols@,
            sym@,
        ) + line_tokens(l as nat, cols@, sym@));
        l = l + 1;
    }
    if from >= to {
        assert(span_tokens(from as nat, to as nat, cols@, sym@) =~= seq![]);
        assert(out@ =~= old(out)@ + span_tokens(from as nat, to as nat, cols@, sym@));
    }
}

/// Indent guidelines for a whole buffer, sorted by line.
#[derive(Debug)]
pub struct IndentGuidelines {
    lines: Vec<IndentGuideline>,
}

impl View for IndentGuidelines {
    type V = Seq<GuidelineView>;

    closed spec fn view(&self) -> Seq<GuidelineView> {
        self.lines@.map_values(|g: IndentGuideline| g@)
    }
}

impl IndentGuidelines {
    /// Guideline lines strictly increase.
    pub open spec fn wf(&self) -> bool {
        lines_increasing(self@)
    }

    pub fn new(lines: Vec<IndentGuideline>) -> (r: Self)
        requires
            lines_increasing(lines@.map_values(|g: IndentGuideline| g@)),
        ensures
            r@ == lines@.map_values(|g: IndentGuideline| g@),
            r.wf(),
    {
        IndentGuidelines { lines }
    }

    /// Display as a string recognized by the `replace-ranges` Kakoune
    /// highlighter: each mark is the guideline glyph.
    pub fn to_kak_replace_replace_ranges_str(&self) -> (r: String)
        ensures
            r@ == guidelines_tokens(self@, guideline_glyph()),
    {
        let r = self.to_kak_replace_hl_str("\u{2502}");
        proof {
            reveal_strlit("\u{2502}");
            assert("\u{2502}"@ =~= guideline_glyph());
        }
        r
    }

    /// Display as a string recognized by the `ranges` Kakoune highlighter:
    /// each mark is the guideline face.
    pub fn to_kak_ranges_str(&self) -> (r: String)
        ensures
            r@ == guidelines_tokens(self@, guideline_face()),
    {
        let r = self.to_kak_replace_hl_str("ts_indent_guideline");
        proof {
            reveal_strlit("ts_indent_guideline");
            assert("ts_indent_guideline"@ =~= guideline_face());
        }
        r
    }

    /// The compacted guideline string, with `sym` after each mark.
    pub fn to_kak_replace_hl_str(&self, sym: &str) -> (r: String)
        ensures
            r@ == guidelines_tokens(self@, sym@),
    {
        let ghost gs = self@;
        let n = self.lines.len();
        let mut out = String::new();
        let mut i: usize = 0;
        assert(out@ =~= entries_tokens(gs, 0, sym@));
        while i < n
            invariant
                n == self.lines@.len(),
                gs == self@,
                i <= n,
                out@ == entries_tokens(gs, i as nat, sym@),
            decreases n - i,
        {
            let g = &self.lines[i];
            if i + 1 < n {
                push_span(&mut out, g.line, self.lines[i + 1].line, &g.cols, sym);
            } else {
                push_line(&mut out, g.line, &g.cols, sym);
            }
            i = i + 1;
        }
        out
    }
}

} // verus!
