//! The screen as it is to be drawn: line by line, each line a run of spans
//! of text, the span under the cursor in reverse.
//!
//! The first line holds the title and the second is empty. Each section
//! follows with a line for its label, a line for each row of its bars, and
//! two empty lines. A row of bars is written as `|`, the slots of a bar, `|`,
//! the slots of the next bar, and so on to a closing `|`; every slot fills
//! the width of its column.

use vstd::prelude::*;
use vstd::string::*;
use crate::bar::BarView;
use crate::layout::{
    column_width, in_column, lemma_column_width_is_max, rows, section_top, slot_width, spans,
};
use crate::state::{State, StateView};

verus! {

/// What a span is.
pub struct SpanView {
    pub text: Seq<char>,
    pub reverse: bool,
}

/// A run of text that is drawn in one way.
#[derive(Debug, PartialEq, Eq)]
pub struct Span {
    pub text: String,
    /// The text is drawn in reverse: it is under the cursor.
    pub reverse: bool,
}

impl View for Span {
    type V = SpanView;

    open spec fn view(&self) -> SpanView {
        SpanView { text: self.text@, reverse: self.reverse }
    }
}

/// The views of the spans of a line.
pub open spec fn span_views(line: Seq<Span>) -> Seq<SpanView> {
    Seq::new(line.len(), |i: int| line[i]@)
}

/// The views of the lines of a frame.
pub open spec fn line_views(frame: Seq<Vec<Span>>) -> Seq<Seq<SpanView>> {
    Seq::new(frame.len(), |i: int| span_views(frame[i]@))
}

/// `n` spaces.
pub open spec fn spaces(n: int) -> Seq<char> {
    Seq::new(
        if n > 0 {
            n as nat
        } else {
            0
        },
        |i: int| ' ',
    )
}

/// A span of plain text.
pub open spec fn plain(text: Seq<char>) -> SpanView {
    SpanView { text, reverse: false }
}

/// The line between two bars.
pub open spec fn bar_line() -> SpanView {
    plain(seq!['|'])
}

/// What is written into slot `k` of a bar, filled up with spaces to `width`:
/// the slot's chord, or a dot in a slot without a chord where `dotted`, or
/// nothing.
pub open spec fn cell_text(bar: BarView, k: int, width: int, dotted: bool) -> Seq<char> {
    if bar.slots.contains_key(k) {
        bar.slots[k].text() + spaces(width - bar.slots[k].text().len())
    } else if dotted {
        seq!['.'] + spaces(width - 1)
    } else {
        spaces(width)
    }
}

impl StateView {
    /// Slot `k` of bar `b` of section `s` as it is drawn: as wide as its
    /// column, dotted where the cursor is in its bar, in reverse where the
    /// cursor is on it.
    pub open spec fn cell(self, s: int, b: int, k: int) -> SpanView {
        let section = self.song.sections[s];
        SpanView {
            text: cell_text(
                section.bars[b],
                k,
                column_width(section, b % section.wrap),
                self.cursor.section == s && self.cursor.bar == b,
            ),
            reverse: self.cursor.section == s && self.cursor.bar == b && self.cursor.subdivision
                == k,
        }
    }

    /// The first `n` slots of a bar as they are drawn.
    pub open spec fn cells(self, s: int, b: int, n: int) -> Seq<SpanView>
        decreases n,
    {
        if n <= 0 {
            Seq::empty()
        } else {
            self.cells(s, b, n - 1).push(self.cell(s, b, n - 1))
        }
    }

    /// The bars from `from` up to, not including, `to` as they are drawn in
    /// one row: before each bar a line, then its slots.
    pub open spec fn row_spans(self, s: int, from: int, to: int) -> Seq<SpanView>
        decreases to - from,
    {
        if to <= from {
            Seq::empty()
        } else {
            self.row_spans(s, from, to - 1).push(bar_line()) + self.cells(
                s,
                to - 1,
                self.song.sections[s].bars[to - 1].subdivision,
            )
        }
    }

    /// The last bar of row `r` of a section, and one more.
    pub open spec fn row_end(self, s: int, r: int) -> int {
        let section = self.song.sections[s];
        if (r + 1) * section.wrap < section.bars.len() {
            (r + 1) * section.wrap
        } else {
            section.bars.len() as int
        }
    }

    /// Row `r` of section `s` as it is drawn: its bars, and a closing line.
    pub open spec fn grid_line(self, s: int, r: int) -> Seq<SpanView> {
        self.row_spans(s, r * self.song.sections[s].wrap, self.row_end(s, r)).push(bar_line())
    }

    /// The label of section `s` as it is drawn: in square brackets.
    pub open spec fn label_line(self, s: int) -> Seq<SpanView> {
        seq![plain(seq!['['] + self.song.sections[s].label + seq![']'])]
    }

    /// The lines of section `s`: its label, its rows, and two empty lines.
    pub open spec fn section_lines(self, s: int) -> Seq<Seq<SpanView>> {
        seq![self.label_line(s)] + Seq::new(
            rows(self.song.sections[s]) as nat,
            |r: int| self.grid_line(s, r),
        ) + seq![Seq::empty(), Seq::empty()]
    }

    /// The title as it is drawn.
    pub open spec fn title_line(self) -> Seq<SpanView> {
        seq![plain("SONG: "@ + self.song.title)]
    }

    /// The lines down to the end of the first `n` sections.
    pub open spec fn frame_of(self, n: int) -> Seq<Seq<SpanView>>
        decreases n,
    {
        if n <= 0 {
            seq![self.title_line(), Seq::empty()]
        } else {
            self.frame_of(n - 1) + self.section_lines(n - 1)
        }
    }

    /// The whole screen, line by line.
    pub open spec fn frame(self) -> Seq<Seq<SpanView>> {
        self.frame_of(self.song.sections.len() as int)
    }
}

/// The lines that are drawn for the first `n` sections end where the layout
/// says that section `n` begins.
pub proof fn lemma_frame_len(st: StateView, n: int)
    requires
        st.song.wf(),
        0 <= n <= st.song.sections.len(),
    ensures
        st.frame_of(n).len() == section_top(st.song, n),
    decreases n,
{
    if n > 0 {
        lemma_frame_len(st, n - 1);
        let section = st.song.sections[n - 1];
        assert(section.wf());
        assert(rows(section) >= 1) by (nonlinear_arith)
            requires
                section.bars.len() >= 1,
                section.wrap >= 1,
                rows(section) == (section.bars.len() - 1) / section.wrap + 1,
        ;
    }
}

/// The layout and the drawing agree on the cursor's line: on the screen line
/// that the layout gives for the cursor stands the row of bars that holds the
/// cursor's bar.
pub proof fn lemma_cursor_line(st: StateView)
    requires
        st.song.wf(),
        st.on_bar(),
    ensures
        0 <= st.cursor_row() < st.frame().len(),
        st.frame()[st.cursor_row()] == st.grid_line(
            st.cursor.section,
            st.cursor.bar / st.section().wrap,
        ),
{
    let s = st.cursor.section;
    let n = st.song.sections.len() as int;
    let section = st.section();
    let r = st.cursor.bar / section.wrap;
    assert(section.wf());
    assert(0 <= r < rows(section)) by (nonlinear_arith)
        requires
            0 <= st.cursor.bar < section.bars.len(),
            section.wrap >= 1,
            r == st.cursor.bar / section.wrap,
            rows(section) == (section.bars.len() - 1) / section.wrap + 1,
    ;
    lemma_frame_len(st, s);
    lemma_frame_len(st, s + 1);
    lemma_frame_prefix(st, s + 1, n);
    assert(st.frame_of(s + 1) == st.frame_of(s) + st.section_lines(s));
    assert(st.frame_of(s + 1)[st.cursor_row()] == st.section_lines(s)[1 + r]);
}

/// Drawing more sections leaves the lines of the sections before them as
/// they are.
proof fn lemma_frame_prefix(st: StateView, n: int, m: int)
    requires
        0 <= n <= m,
    ensures
        st.frame_of(n).len() <= st.frame_of(m).len(),
        forall|i: int| 0 <= i < st.frame_of(n).len() ==> st.frame_of(m)[i] == st.frame_of(n)[i],
    decreases m,
{
    if n < m {
        lemma_frame_prefix(st, n, m - 1);
    }
}

/// The number of characters in a run of spans.
pub open spec fn width_of(spans: Seq<SpanView>) -> int
    decreases spans.len(),
{
    if spans.len() == 0 {
        0
    } else {
        width_of(spans.drop_last()) + spans.last().text.len()
    }
}

impl StateView {
    /// The place of the cursor's slot among the spans of its line.
    pub open spec fn cursor_span(self) -> int {
        let s = self.cursor.section;
        let b = self.cursor.bar;
        self.row_spans(s, b - b % self.section().wrap, b).len() + 1 + self.cursor.subdivision
    }
}

/// Two runs of spans, one after the other, take the room of both.
proof fn lemma_width_of_add(a: Seq<SpanView>, b: Seq<SpanView>)
    ensures
        width_of(a + b) == width_of(a) + width_of(b),
    decreases b.len(),
{
    if b.len() == 0 {
        assert(a + b =~= a);
    } else {
        assert((a + b).drop_last() =~= a + b.drop_last());
        lemma_width_of_add(a, b.drop_last());
    }
}

/// A run of spans with one more span takes the room of the run and of the
/// span's text.
proof fn lemma_width_of_push(a: Seq<SpanView>, x: SpanView)
    ensures
        width_of(a.push(x)) == width_of(a) + x.text.len(),
{
    assert(a.push(x).drop_last() =~= a);
}

/// Every slot of a bar is drawn as wide as its column.
pub proof fn lemma_cell_width(st: StateView, s: int, b: int, k: int)
    requires
        0 <= s < st.song.sections.len(),
        in_column(st.song.sections[s], b % st.song.sections[s].wrap, b, k),
    ensures
        st.cell(s, b, k).text.len() == column_width(
            st.song.sections[s],
            b % st.song.sections[s].wrap,
        ),
{
    let section = st.song.sections[s];
    lemma_column_width_is_max(section, b % section.wrap);
    assert(slot_width(section.bars[b], k) <= column_width(section, b % section.wrap));
}

/// The first `n` slots of a bar are drawn as `n` spans, slot by slot, and
/// take `n` times the width of the bar's column.
proof fn lemma_cells(st: StateView, s: int, b: int, n: int)
    requires
        0 <= s < st.song.sections.len(),
        0 <= b < st.song.sections[s].bars.len(),
        0 <= n <= st.song.sections[s].bars[b].subdivision,
    ensures
        st.cells(s, b, n).len() == n,
        forall|k: int| 0 <= k < n ==> #[trigger] st.cells(s, b, n)[k] == st.cell(s, b, k),
        width_of(st.cells(s, b, n)) == n * column_width(
            st.song.sections[s],
            b % st.song.sections[s].wrap,
        ),
    decreases n,
{
    let w = column_width(st.song.sections[s], b % st.song.sections[s].wrap);
    if n > 0 {
        lemma_cells(st, s, b, n - 1);
        assert(in_column(st.song.sections[s], b % st.song.sections[s].wrap, b, n - 1));
        lemma_cell_width(st, s, b, n - 1);
        lemma_width_of_push(st.cells(s, b, n - 1), st.cell(s, b, n - 1));
        assert(n * w == (n - 1) * w + w) by (nonlinear_arith);
    } else {
        assert(n * w == 0) by (nonlinear_arith)
            requires
                n == 0,
        ;
    }
}

/// Fewer slots of a bar are drawn as the first spans of more.
proof fn lemma_cells_prefix(st: StateView, s: int, b: int, k: int, n: int)
    requires
        0 <= s < st.song.sections.len(),
        0 <= b < st.song.sections[s].bars.len(),
        0 <= k <= n <= st.song.sections[s].bars[b].subdivision,
    ensures
        st.cells(s, b, n).take(k) == st.cells(s, b, k),
{
    lemma_cells(st, s, b, n);
    lemma_cells(st, s, b, k);
    assert(st.cells(s, b, n).take(k) =~= st.cells(s, b, k));
}

/// The bars of a row take, as they are drawn, the room that the layout
/// counts for them, and the bars before a bar are drawn before it.
proof fn lemma_row_spans(st: StateView, s: int, from: int, mid: int, to: int)
    requires
        st.song.wf(),
        0 <= s < st.song.sections.len(),
        0 <= from <= mid <= to <= st.song.sections[s].bars.len(),
    ensures
        width_of(st.row_spans(s, from, to)) == spans(st.song.sections[s], from, to),
        st.row_spans(s, from, mid).len() <= st.row_spans(s, from, to).len(),
        st.row_spans(s, from, to).take(st.row_spans(s, from, mid).len() as int) == st.row_spans(
            s,
            from,
            mid,
        ),
    decreases to - from,
{
    let section = st.song.sections[s];
    assert(section.wf());
    if to > from {
        let b = to - 1;
        let before = st.row_spans(s, from, b);
        let n = section.bars[b].subdivision;
        assert(section.bars[b].wf());
        lemma_cells(st, s, b, n);
        lemma_width_of_push(before, bar_line());
        lemma_width_of_add(before.push(bar_line()), st.cells(s, b, n));
        if mid < to {
            lemma_row_spans(st, s, from, mid, b);
            assert(st.row_spans(s, from, to).take(st.row_spans(s, from, mid).len() as int)
                =~= before.take(st.row_spans(s, from, mid).len() as int));
        } else {
            lemma_row_spans(st, s, from, b, b);
            assert(st.row_spans(s, from, to).take(st.row_spans(s, from, to).len() as int)
                =~= st.row_spans(s, from, to));
        }
    } else {
        assert(st.row_spans(s, from, to).take(0) =~= st.row_spans(s, from, mid));
    }
}

/// The layout and the drawing agree on the cursor's column: in the line
/// that holds the cursor's bar, the span at [`StateView::cursor_span`] is
/// the cursor's slot, it is drawn in reverse, and the spans before it take
/// as many columns as the layout gives for the cursor.
pub proof fn lemma_cursor_column(st: StateView)
    requires
        st.song.wf(),
        st.on_slot(),
    ensures
        ({
            let line = st.grid_line(st.cursor.section, st.cursor.bar / st.section().wrap);
            let p = st.cursor_span();
            &&& 0 <= p < line.len()
            &&& line[p] == st.cell(st.cursor.section, st.cursor.bar, st.cursor.subdivision)
            &&& line[p].reverse
            &&& width_of(line.take(p)) == st.cursor_column()
        }),
{
    let s = st.cursor.section;
    let b = st.cursor.bar;
    let k = st.cursor.subdivision;
    let section = st.section();
    let wrap = section.wrap;
    let r = b / wrap;
    let from = b - b % wrap;
    let end = st.row_end(s, r);
    let n = section.bars[b].subdivision;
    assert(section.wf());
    assert(r * wrap == from && b < (r + 1) * wrap && 0 <= from <= b) by (nonlinear_arith)
        requires
            wrap >= 1,
            b >= 0,
            r == b / wrap,
            from == b - b % wrap,
    ;
    assert(b < end);
    let line = st.grid_line(s, r);
    let row = st.row_spans(s, from, end);
    let upto = st.row_spans(s, from, b + 1);
    let before = st.row_spans(s, from, b);
    let p = st.cursor_span();
    lemma_row_spans(st, s, from, b + 1, end);
    lemma_row_spans(st, s, from, b, b);
    lemma_cells(st, s, b, n);
    lemma_cells(st, s, b, k);
    lemma_cells_prefix(st, s, b, k, n);
    assert(upto == before.push(bar_line()) + st.cells(s, b, n));
    assert(p == before.len() + 1 + k);
    assert(upto[p] == st.cells(s, b, n)[k]);
    assert(row.take(upto.len() as int)[p] == row[p]);
    assert(line[p] == row[p]);
    assert(line.take(p) =~= before.push(bar_line()) + st.cells(s, b, k)) by {
        assert forall|i: int| 0 <= i < p implies line.take(p)[i] == (before.push(bar_line())
            + st.cells(s, b, k))[i] by {
            assert(line[i] == row[i]);
            assert(row.take(upto.len() as int)[i] == row[i]);
            if i >= before.len() + 1 {
                assert(upto[i] == st.cells(s, b, n)[i - before.len() - 1]);
                assert(st.cells(s, b, n).take(k)[i - before.len() - 1] == st.cells(s, b, n)[i
                    - before.len() - 1]);
            }
        }
    }
    lemma_width_of_push(before, bar_line());
    lemma_width_of_add(before.push(bar_line()), st.cells(s, b, k));
    assert(k * column_width(section, b % wrap) == column_width(section, b % wrap) * k)
        by (nonlinear_arith);
}

/// A string of `n` spaces.
pub fn blanks(n: usize) -> (out: String)
    ensures
        out@ == spaces(n as int),
{
    let mut out = String::new();
    let mut i: usize = 0;
    assert(out@ =~= spaces(0));
    while i < n
        invariant
            i <= n,
            out@ == spaces(i as int),
        decreases n - i,
    {
        out.push(' ');
        i = i + 1;
        assert(out@ =~= spaces(i as int));
    }
    out
}

fn bar_line_span() -> (span: Span)
    ensures
        span@ == bar_line(),
{
    proof {
        reveal_strlit("|");
        assert("|"@ =~= seq!['|']);
    }
    Span { text: String::from_str("|"), reverse: false }
}

impl State {
    /// Slot `k` of bar `b` of section `s` as it is drawn, given the width of
    /// its column.
    fn draw_cell(&self, s: usize, b: usize, k: usize, width: usize) -> (span: Span)
        requires
            s < self.song.sections.len(),
            b < self.song.sections[s as int].bars.len(),
            k < self.song.sections[s as int].bars[b as int].subdivision,
            self.song.sections[s as int].wrap >= 1,
            width == column_width(
                self@.song.sections[s as int],
                b as int % self@.song.sections[s as int].wrap,
            ),
        ensures
            span@ == self@.cell(s as int, b as int, k as int),
    {
        let section = &self.song.sections[s];
        let bar = &section.bars[b];
        proof {
            assert(self@.song.sections[s as int] == section@);
            assert(section@.bars[b as int] == bar@);
            lemma_column_width_is_max(section@, b as int % section@.wrap);
            assert(in_column(section@, b as int % section@.wrap, b as int, k as int));
            assert(slot_width(bar@, k as int) <= width);
        }
        let on_bar = self.cursor.section == s && self.cursor.bar == b;
        let text = match bar.get_chord(k) {
            Some(chord) => {
                let mut text = chord.to_string();
                let n = text.as_str().unicode_len();
                text.append(blanks(width - n).as_str());
                text
            },
            None => {
                if on_bar {
                    proof {
                        reveal_strlit(".");
                        assert("."@ =~= seq!['.']);
                    }
                    let mut text = String::from_str(".");
                    text.append(blanks(width - 1).as_str());
                    text
                } else {
                    blanks(width)
                }
            },
        };
        Span { text, reverse: on_bar && self.cursor.subdivision == k }
    }

    /// The bars from `from` up to, not including, `to` of section `s` as
    /// they are drawn in one row, with the closing line.
    fn draw_row(&self, s: usize, from: usize, to: usize, widths: &Vec<usize>) -> (line: Vec<Span>)
        requires
            s < self.song.sections.len(),
            from <= to <= self.song.sections[s as int].bars.len(),
            self.song.sections[s as int].wrap >= 1,
            widths.len() == self.song.sections[s as int].wrap,
            forall|c: int|
                0 <= c < widths.len() ==> widths[c] == column_width(
                    self@.song.sections[s as int],
                    c,
                ),
        ensures
            span_views(line@) == self@.row_spans(s as int, from as int, to as int).push(bar_line()),
    {
        let section = &self.song.sections[s];
        let wrap = section.wrap;
        let mut line: Vec<Span> = Vec::new();
        let mut b: usize = from;
        assert(span_views(line@) =~= self@.row_spans(s as int, from as int, from as int));
        while b < to
            invariant
                from <= b <= to <= section.bars.len(),
                s < self.song.sections.len(),
                *section == self.song.sections[s as int],
                wrap == section.wrap,
                wrap >= 1,
                widths.len() == wrap,
                forall|c: int|
                    0 <= c < widths.len() ==> widths[c] == column_width(
                        self@.song.sections[s as int],
                        c,
                    ),
                span_views(line@) == self@.row_spans(s as int, from as int, b as int),
            decreases to - b,
        {
            let ghost before = span_views(line@);
            line.push(bar_line_span());
            assert(span_views(line@) =~= before.push(bar_line()));
            let width = widths[b % wrap];
            let n = section.bars[b].subdivision;
            let ghost head = span_views(line@);
            let mut k: usize = 0;
            assert(self@.song.sections[s as int].bars[b as int] == section.bars[b as int]@);
            assert(span_views(line@) =~= head + self@.cells(s as int, b as int, 0));
            while k < n
                invariant
                    k <= n,
                    b < section.bars.len(),
                    s < self.song.sections.len(),
                    *section == self.song.sections[s as int],
                    n == section.bars[b as int].subdivision,
                    wrap == section.wrap,
                    wrap >= 1,
                    width == column_width(self@.song.sections[s as int], b as int % wrap as int),
                    span_views(line@) == head + self@.cells(s as int, b as int, k as int),
                decreases n - k,
            {
                let ghost sofar = span_views(line@);
                line.push(self.draw_cell(s, b, k, width));
                assert(span_views(line@) =~= sofar.push(self@.cell(s as int, b as int, k as int)));
                k = k + 1;
                assert(span_views(line@) =~= head + self@.cells(s as int, b as int, k as int));
            }
            b = b + 1;
        }
        let ghost before = span_views(line@);
        line.push(bar_line_span());
        assert(span_views(line@) =~= before.push(bar_line()));
        line
    }

    /// Appends the lines of section `s` to a frame.
    fn draw_section(&self, s: usize, frame: &mut Vec<Vec<Span>>)
        requires
            self.wf(),
            s < self.song.sections.len(),
        ensures
            line_views(final(frame)@) == line_views(old(frame)@) + self@.section_lines(s as int),
    {
        let section = &self.song.sections[s];
        proof {
            assert(self@.song.sections[s as int] == section@);
            assert(section@.wf());
            reveal_strlit("[");
            reveal_strlit("]");
            assert("["@ =~= seq!['[']);
            assert("]"@ =~= seq![']']);
        }
        let ghost above = line_views(frame@);
        let mut label = String::from_str("[");
        label.append(section.label.as_str());
        label.append("]");
        let mut line: Vec<Span> = Vec::new();
        line.push(Span { text: label, reverse: false });
        assert(span_views(line@) =~= self@.label_line(s as int));
        frame.push(line);
        let widths = section.calc_widths();
        let n = section.bars.len();
        let wrap = section.wrap;
        let count = section.rows();
        let mut start: usize = 0;
        let mut r: usize = 0;
        assert(line_views(frame@) =~= above + seq![self@.label_line(s as int)] + Seq::new(
            0,
            |i: int| self@.grid_line(s as int, i),
        ));
        while r < count
            invariant
                r <= count,
                count == rows(section@),
                count == (n - 1) / wrap as int + 1,
                r < count ==> start == r * wrap,
                r < count ==> start < n,
                self.wf(),
                s < self.song.sections.len(),
                *section == self.song.sections[s as int],
                section@ == self@.song.sections[s as int],
                n == section.bars.len(),
                n >= 1,
                wrap == section.wrap,
                wrap >= 1,
                widths.len() == wrap,
                forall|c: int|
                    0 <= c < widths.len() ==> widths[c] == column_width(
                        self@.song.sections[s as int],
                        c,
                    ),
                line_views(frame@) == above + seq![self@.label_line(s as int)] + Seq::new(
                    r as nat,
                    |i: int| self@.grid_line(s as int, i),
                ),
            decreases count - r,
        {
            let end = if n - start > wrap {
                start + wrap
            } else {
                n
            };
            proof {
                assert((r + 1) * wrap == start + wrap) by (nonlinear_arith)
                    requires
                        start == r * wrap,
                ;
                assert(end == self@.row_end(s as int, r as int));
                if r + 1 < count {
                    assert(start + wrap < n) by (nonlinear_arith)
                        requires
                            r + 1 < count,
                            count == (n - 1) / wrap as int + 1,
                            start == r * wrap,
                            wrap >= 1,
                            n >= 1,
                    ;
                }
            }
            let ghost sofar = line_views(frame@);
            let line = self.draw_row(s, start, end, &widths);
            assert(span_views(line@) == self@.grid_line(s as int, r as int));
            frame.push(line);
            assert(line_views(frame@) =~= sofar.push(self@.grid_line(s as int, r as int)));
            start = end;
            r = r + 1;
            assert(line_views(frame@) =~= above + seq![self@.label_line(s as int)] + Seq::new(
                r as nat,
                |i: int| self@.grid_line(s as int, i),
            ));
        }
        let ghost sofar = line_views(frame@);
        frame.push(Vec::new());
        frame.push(Vec::new());
        assert(line_views(frame@) =~~= sofar + seq![
            Seq::<SpanView>::empty(),
            Seq::<SpanView>::empty(),
        ]);
    }

    /// The whole screen, line by line: line `i` of the result is to be drawn
    /// on line `i` of the screen.
    pub fn draw(&self) -> (frame: Vec<Vec<Span>>)
        requires
            self.wf(),
        ensures
            line_views(frame@) == self@.frame(),
    {
        let mut title = String::from_str("SONG: ");
        title.append(self.song.title.as_str());
        let mut line: Vec<Span> = Vec::new();
        line.push(Span { text: title, reverse: false });
        assert(span_views(line@) =~= self@.title_line());
        let mut frame: Vec<Vec<Span>> = Vec::new();
        frame.push(line);
        frame.push(Vec::new());
        assert(line_views(frame@) =~~= self@.frame_of(0));
        let mut s: usize = 0;
        while s < self.song.sections.len()
            invariant
                s <= self.song.sections.len(),
                self.wf(),
                line_views(frame@) == self@.frame_of(s as int),
            decreases self.song.sections.len() - s,
        {
            self.draw_section(s, &mut frame);
            s = s + 1;
        }
        frame
    }
}

} // verus!
