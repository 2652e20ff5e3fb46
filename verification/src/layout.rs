//! Where things stand on the screen: the width of each column of a section's
//! grid, and the row and column of the cursor.
//!
//! A section is drawn as a label line followed by its bars, `wrap` bars to a
//! row. The bars that stand one below the other form a column, and every slot
//! of a column is as wide as the widest slot in it.

use vstd::prelude::*;
use vstd::string::*;
use crate::bar::{Bar, BarView};
use crate::chord::Chord;
use crate::song::{Section, SectionView, SongView};
use crate::state::{State, StateView};

verus! {

/// The larger of two numbers.
pub open spec fn larger(a: int, b: int) -> int {
    if a >= b {
        a
    } else {
        b
    }
}

/// The width that slot `k` of a bar asks for: the length of its chord as
/// written and one more, or two where it holds none.
pub open spec fn slot_width(bar: BarView, k: int) -> int {
    if bar.slots.contains_key(k) {
        bar.slots[k].text().len() as int + 1
    } else {
        2
    }
}

/// The widest of the first `n` slots of a bar; zero where there are none.
pub open spec fn bar_width(bar: BarView, n: int) -> int
    decreases n,
{
    if n <= 0 {
        0
    } else {
        larger(bar_width(bar, n - 1), slot_width(bar, n - 1))
    }
}

/// The widest slot among those of the first `n` bars of a section that stand
/// in column `c`; zero where there are none.
pub open spec fn column_width_of(section: SectionView, c: int, n: int) -> int
    decreases n,
{
    if n <= 0 {
        0
    } else {
        let rest = column_width_of(section, c, n - 1);
        let bar = section.bars[n - 1];
        if (n - 1) % section.wrap == c {
            larger(rest, bar_width(bar, bar.subdivision))
        } else {
            rest
        }
    }
}

/// The width of column `c` of a section.
pub open spec fn column_width(section: SectionView, c: int) -> int {
    column_width_of(section, c, section.bars.len() as int)
}

/// The number of rows that a section's bars take: its bars divided by its
/// wrap, rounded up.
pub open spec fn rows(section: SectionView) -> int {
    if section.bars.len() == 0 {
        0
    } else {
        (section.bars.len() - 1) / section.wrap + 1
    }
}

/// The number of lines that a section takes before the next one begins: its
/// rows and three more.
pub open spec fn height(section: SectionView) -> int {
    rows(section) + 3
}

/// The line on which section `n` of a song begins, after two lines at the top
/// of the screen and the sections before it.
pub open spec fn section_top(song: SongView, n: int) -> int
    decreases n,
{
    if n <= 0 {
        2
    } else {
        section_top(song, n - 1) + height(song.sections[n - 1])
    }
}

/// The room that bar `i` of a section takes in its row: its slots, each as
/// wide as its column, and one separator.
pub open spec fn bar_span(section: SectionView, i: int) -> int {
    column_width(section, i % section.wrap) * section.bars[i].subdivision + 1
}

/// The room that the bars from `from` up to, not including, `to` take.
pub open spec fn spans(section: SectionView, from: int, to: int) -> int
    decreases to - from,
{
    if to <= from {
        0
    } else {
        spans(section, from, to - 1) + bar_span(section, to - 1)
    }
}

impl StateView {
    /// The screen line of the cursor: the line after the one on which its
    /// section begins, and one more for each row of bars above the cursor's.
    pub open spec fn cursor_row(self) -> int {
        section_top(self.song, self.cursor.section) + 1 + self.cursor.bar / self.section().wrap
    }

    /// The screen column of the cursor: one, then the room of the bars
    /// before the cursor's in its row, then one column width for each slot
    /// before the cursor's in its bar.
    pub open spec fn cursor_column(self) -> int {
        let wrap = self.section().wrap;
        let bar = self.cursor.bar;
        1 + spans(self.section(), bar - bar % wrap, bar) + column_width(self.section(), bar % wrap)
            * self.cursor.subdivision
    }
}

/// No chord is written in more than ten characters.
pub proof fn lemma_text_len(c: Chord)
    ensures
        1 <= c.text().len() <= 10,
{
}

/// No slot asks for less than two columns or for more than eleven.
pub proof fn lemma_slot_width_bounds(bar: BarView, k: int)
    ensures
        2 <= slot_width(bar, k) <= 11,
{
    if bar.slots.contains_key(k) {
        lemma_text_len(bar.slots[k]);
    }
}

/// The width over the first `n` slots of a bar is the largest that any of
/// them asks for: none asks for more, and one of them asks for just that,
/// unless there is no slot, and then the width is zero.
pub proof fn lemma_bar_width_is_max(bar: BarView, n: int)
    ensures
        forall|k: int| 0 <= k < n ==> #[trigger] slot_width(bar, k) <= bar_width(bar, n),
        n <= 0 ==> bar_width(bar, n) == 0,
        n > 0 ==> exists|k: int| 0 <= k < n && #[trigger] slot_width(bar, k) == bar_width(bar, n),
        0 <= bar_width(bar, n) <= 11,
    decreases n,
{
    if n > 0 {
        lemma_bar_width_is_max(bar, n - 1);
        lemma_slot_width_bounds(bar, n - 1);
        if n - 1 > 0 && bar_width(bar, n - 1) >= slot_width(bar, n - 1) {
            let k = choose|k: int| 0 <= k < n - 1 && #[trigger] slot_width(bar, k) == bar_width(
                bar,
                n - 1,
            );
            assert(0 <= k < n && slot_width(bar, k) == bar_width(bar, n));
        } else {
            assert(slot_width(bar, n - 1) == bar_width(bar, n));
        }
    }
}

/// Bar `i` of a section stands in column `c` and has slot `k`.
pub open spec fn in_column(section: SectionView, c: int, i: int, k: int) -> bool {
    &&& 0 <= i < section.bars.len()
    &&& i % section.wrap == c
    &&& 0 <= k < section.bars[i].subdivision
}

/// The width of a column over the first `n` bars is the largest that any slot
/// of those of them that stand in the column asks for: none asks for more,
/// and one of them asks for just that, unless the column has no slot, and
/// then the width is zero.
proof fn lemma_column_width_of_is_max(section: SectionView, c: int, n: int)
    requires
        n <= section.bars.len(),
    ensures
        forall|i: int, k: int|
            i < n && #[trigger] in_column(section, c, i, k) ==> slot_width(section.bars[i], k)
                <= column_width_of(section, c, n),
        column_width_of(section, c, n) == 0 || exists|i: int, k: int|
            i < n && #[trigger] in_column(section, c, i, k) && slot_width(section.bars[i], k)
                == column_width_of(section, c, n),
        0 <= column_width_of(section, c, n) <= 11,
    decreases n,
{
    if n > 0 {
        lemma_column_width_of_is_max(section, c, n - 1);
        let bar = section.bars[n - 1];
        lemma_bar_width_is_max(bar, bar.subdivision);
        let rest = column_width_of(section, c, n - 1);
        let here = column_width_of(section, c, n);
        if (n - 1) % section.wrap == c {
            if here != 0 {
                if rest >= bar_width(bar, bar.subdivision) {
                    let (i, k) = choose|i: int, k: int|
                        i < n - 1 && #[trigger] in_column(section, c, i, k) && slot_width(
                            section.bars[i],
                            k,
                        ) == rest;
                    assert(i < n && in_column(section, c, i, k) && slot_width(section.bars[i], k)
                        == here);
                } else {
                    let k = choose|k: int|
                        0 <= k < bar.subdivision && #[trigger] slot_width(bar, k) == bar_width(
                            bar,
                            bar.subdivision,
                        );
                    assert(in_column(section, c, n - 1, k) && slot_width(section.bars[n - 1], k)
                        == here);
                }
            }
            assert forall|i: int, k: int|
                i < n && #[trigger] in_column(section, c, i, k) implies slot_width(
                section.bars[i],
                k,
            ) <= here by {
                if i == n - 1 {
                    assert(slot_width(bar, k) <= bar_width(bar, bar.subdivision));
                }
            }
        } else {
            if here != 0 {
                let (i, k) = choose|i: int, k: int|
                    i < n - 1 && #[trigger] in_column(section, c, i, k) && slot_width(
                        section.bars[i],
                        k,
                    ) == rest;
                assert(i < n && in_column(section, c, i, k) && slot_width(section.bars[i], k)
                    == here);
            }
        }
    }
}

/// The width of a column is the largest width that any slot of its bars asks
/// for, a chord's written length and one more, or two for a slot without a
/// chord: no slot of the column asks for more, and one asks for just that. A
/// column without slots has width zero.
pub proof fn lemma_column_width_is_max(section: SectionView, c: int)
    ensures
        forall|i: int, k: int| #[trigger]
            in_column(section, c, i, k) ==> slot_width(section.bars[i], k) <= column_width(
                section,
                c,
            ),
        column_width(section, c) == 0 || exists|i: int, k: int| #[trigger]
            in_column(section, c, i, k) && slot_width(section.bars[i], k) == column_width(
                section,
                c,
            ),
        column_width(section, c) == 0 ==> forall|i: int, k: int|
            !#[trigger] in_column(section, c, i, k),
        0 <= column_width(section, c) <= 11,
{
    let n = section.bars.len() as int;
    lemma_column_width_of_is_max(section, c, n);
    assert forall|i: int, k: int| #[trigger] in_column(section, c, i, k) implies slot_width(
        section.bars[i],
        k,
    ) <= column_width(section, c) by {
        assert(i < n);
    }
    if column_width(section, c) != 0 {
        let (i, k) = choose|i: int, k: int|
            i < n && #[trigger] in_column(section, c, i, k) && slot_width(section.bars[i], k)
                == column_width_of(section, c, n);
        assert(in_column(section, c, i, k) && slot_width(section.bars[i], k) == column_width(
            section,
            c,
        ));
    } else {
        assert forall|i: int, k: int| !#[trigger] in_column(section, c, i, k) by {
            if in_column(section, c, i, k) {
                lemma_slot_width_bounds(section.bars[i], k);
                assert(i < n);
            }
        }
    }
}

impl Chord {
    /// The number of characters in which the chord is written.
    pub fn width(&self) -> (n: usize)
        ensures
            n == self.text().len(),
            1 <= n <= 10,
    {
        proof {
            lemma_text_len(*self);
        }
        self.to_string().as_str().unicode_len()
    }
}

impl Bar {
    /// The widest of the bar's slots.
    pub fn widest_slot(&self) -> (w: usize)
        ensures
            w == bar_width(self@, self.subdivision as int),
    {
        let mut w: usize = 0;
        let mut k: usize = 0;
        while k < self.subdivision
            invariant
                k <= self.subdivision,
                w == bar_width(self@, k as int),
                w <= 11,
            decreases self.subdivision - k,
        {
            proof {
                lemma_slot_width_bounds(self@, k as int);
            }
            let here: usize = match self.get_chord(k) {
                Some(chord) => chord.width() + 1,
                None => 2,
            };
            if here > w {
                w = here;
            }
            k = k + 1;
        }
        w
    }
}

impl Section {
    /// The width of each of the section's columns.
    pub fn calc_widths(&self) -> (widths: Vec<usize>)
        requires
            self.wrap >= 1,
        ensures
            widths.len() == self.wrap,
            forall|c: int| 0 <= c < self.wrap ==> widths[c] == column_width(self@, c),
    {
        let wrap = self.wrap;
        let mut widths: Vec<usize> = vec![0; wrap];
        let mut i: usize = 0;
        while i < self.bars.len()
            invariant
                i <= self.bars.len(),
                wrap == self.wrap,
                wrap >= 1,
                widths.len() == wrap,
                forall|c: int| 0 <= c < wrap ==> widths[c] == column_width_of(self@, c, i as int),
            decreases self.bars.len() - i,
        {
            let idx = i % wrap;
            let here = self.bars[i].widest_slot();
            if here > widths[idx] {
                widths.set(idx, here);
            }
            i = i + 1;
        }
        widths
    }

    /// The number of rows that the section's bars take.
    pub fn rows(&self) -> (n: usize)
        requires
            self.wrap >= 1,
        ensures
            n == rows(self@),
    {
        if self.bars.len() == 0 {
            0
        } else {
            (self.bars.len() - 1) / self.wrap + 1
        }
    }
}

/// Sections further down begin on later lines.
pub proof fn lemma_section_top_grows(song: SongView, n: int, m: int)
    requires
        song.wf(),
        0 <= n <= m <= song.sections.len(),
    ensures
        2 <= section_top(song, n) <= section_top(song, m),
    decreases m,
{
    if m > 0 {
        assert(song.sections[m - 1].wf());
        assert(rows(song.sections[m - 1]) >= 1) by (nonlinear_arith)
            requires
                song.sections[m - 1].bars.len() >= 1,
                song.sections[m - 1].wrap >= 1,
                rows(song.sections[m - 1]) == (song.sections[m - 1].bars.len() - 1)
                    / song.sections[m - 1].wrap + 1,
        ;
        if n < m {
            lemma_section_top_grows(song, n, m - 1);
        } else {
            lemma_section_top_grows(song, n - 1, m - 1);
        }
    }
}

/// The room that a run of bars takes grows with the run, and no bar of a
/// section that keeps its invariant takes more than 177 columns.
pub proof fn lemma_spans_grow(section: SectionView, from: int, mid: int, to: int)
    requires
        section.wf(),
        0 <= from <= mid <= to <= section.bars.len(),
    ensures
        0 <= spans(section, from, mid) <= spans(section, from, to),
        spans(section, from, to) <= 177 * (to - from),
    decreases to,
{
    if to > from {
        let i = to - 1;
        lemma_column_width_is_max(section, i % section.wrap);
        assert(section.bars[i].wf());
        let w = column_width(section, i % section.wrap);
        let d = section.bars[i].subdivision;
        assert(0 <= w * d <= 176) by (nonlinear_arith)
            requires
                0 <= w <= 11,
                0 <= d <= 16,
        ;
        if mid < to {
            lemma_spans_grow(section, from, mid, to - 1);
        } else {
            lemma_spans_grow(section, from, to - 1, to - 1);
        }
    }
}

impl State {
    /// The screen line and column of the cursor, in this order; `None` where
    /// one of them is too large for an `i32`.
    ///
    /// The cursor may stand one past the last bar of its section.
    pub fn find_cursor(&self) -> (r: Option<(i32, i32)>)
        requires
            self.wf(),
            self@.in_section(),
            self@.cursor.bar <= self@.section().bars.len(),
        ensures
            match r {
                Some((y, x)) => y == self@.cursor_row() && x == self@.cursor_column(),
                None => self@.cursor_row() > i32::MAX || self@.cursor_column() > i32::MAX,
            },
    {
        let limit: usize = 0x7fff_ffff;
        let cursor = self.cursor;
        let mut y: usize = 2;
        let mut n: usize = 0;
        while n < cursor.section
            invariant
                n <= cursor.section < self.song.sections.len(),
                self.wf(),
                self@.in_section(),
                cursor == self.cursor,
                limit == i32::MAX,
                y == section_top(self.song@, n as int),
                y <= limit,
            decreases cursor.section - n,
        {
            proof {
                assert(self.song@.sections[n as int].wf());
                lemma_section_top_grows(self.song@, n + 1, cursor.section as int);
                lemma_section_top_grows(self.song@, cursor.section as int, cursor.section as int);
                assert(self@.cursor_row() >= section_top(self.song@, n + 1)) by (nonlinear_arith)
                    requires
                        self@.cursor_row() == section_top(self.song@, cursor.section as int) + 1
                            + self@.cursor.bar / self@.section().wrap,
                        section_top(self.song@, n + 1) <= section_top(
                            self.song@,
                            cursor.section as int,
                        ),
                        self@.cursor.bar >= 0,
                        self@.section().wrap >= 1,
                ;
            }
            let h = self.song.sections[n].rows();
            if h > limit - y || limit - y - h < 3 {
                return None;
            }
            y = y + h + 3;
            n = n + 1;
        }
        let section = self.current_section();
        let wrap = section.wrap;
        proof {
            assert(section@.wf());
        }
        let down = cursor.bar / wrap;
        if down > limit - y || limit - y - down < 1 {
            return None;
        }
        y = y + 1 + down;
        let widths = section.calc_widths();
        assert(cursor.bar % wrap <= cursor.bar) by (nonlinear_arith)
            requires
                wrap >= 1,
        ;
        let start = cursor.bar - cursor.bar % wrap;
        let mut x: usize = 1;
        let mut i: usize = start;
        while i < cursor.bar
            invariant
                start <= i <= cursor.bar <= section.bars.len(),
                section@.wf(),
                section@ == self@.section(),
                cursor == self.cursor,
                wrap == section.wrap,
                start == cursor.bar - cursor.bar % wrap,
                limit == i32::MAX,
                widths.len() == wrap,
                forall|c: int| 0 <= c < wrap ==> widths[c] == column_width(section@, c),
                x == 1 + spans(section@, start as int, i as int),
                x <= limit,
                y == self@.cursor_row(),
            decreases cursor.bar - i,
        {
            proof {
                lemma_spans_grow(section@, start as int, i + 1, cursor.bar as int);
                lemma_spans_grow(section@, i as int, i + 1, i + 1);
                lemma_column_width_is_max(section@, cursor.bar as int % wrap as int);
                assert(section@.bars[i as int].wf());
                lemma_column_width_is_max(section@, i as int % wrap as int);
                assert(column_width(section@, cursor.bar as int % wrap as int)
                    * cursor.subdivision >= 0) by (nonlinear_arith)
                    requires
                        column_width(section@, cursor.bar as int % wrap as int) >= 0,
                        cursor.subdivision >= 0,
                ;
            }
            let w = widths[i % wrap];
            let d = section.bars[i].subdivision;
            assert(w * d <= 176) by (nonlinear_arith)
                requires
                    0 <= w <= 11,
                    0 <= d <= 16,
            ;
            let span = w * d + 1;
            if span > limit - x {
                return None;
            }
            x = x + span;
            i = i + 1;
        }
        proof {
            lemma_column_width_is_max(section@, cursor.bar as int % wrap as int);
        }
        let w = widths[cursor.bar % wrap];
        let room = limit - x;
        if w != 0 && cursor.subdivision > room / w {
            proof {
                assert(w * cursor.subdivision > room) by (nonlinear_arith)
                    requires
                        w > 0,
                        cursor.subdivision > room / w,
                        room >= 0,
                ;
            }
            return None;
        }
        assert(w * cursor.subdivision <= room) by (nonlinear_arith)
            requires
                w == 0 || cursor.subdivision <= room / w,
                w >= 0,
                room >= 0,
                cursor.subdivision >= 0,
        ;
        x = x + w * cursor.subdivision;
        Some((y as i32, x as i32))
    }
}

} // verus!
