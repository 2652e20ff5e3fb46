//! The song document: a title and a sequence of labelled sections, each a
//! sequence of bars.

use vstd::prelude::*;
use vstd::string::*;
use crate::bar::{Bar, BarView};

verus! {

/// The views of a sequence of bars.
pub open spec fn bar_views(bars: Seq<Bar>) -> Seq<BarView> {
    Seq::new(bars.len(), |i: int| bars[i]@)
}

/// The views of a sequence of sections.
pub open spec fn section_views(sections: Seq<Section>) -> Seq<SectionView> {
    Seq::new(sections.len(), |i: int| sections[i]@)
}

/// Replacing a bar replaces its view.
proof fn lemma_bar_views_update(bars: Seq<Bar>, i: int, bar: Bar)
    requires
        0 <= i < bars.len(),
    ensures
        bar_views(bars.update(i, bar)) == bar_views(bars).update(i, bar@),
{
    assert(bar_views(bars.update(i, bar)) =~= bar_views(bars).update(i, bar@));
}

/// Removing a bar removes its view.
proof fn lemma_bar_views_remove(bars: Seq<Bar>, i: int)
    requires
        0 <= i < bars.len(),
    ensures
        bar_views(bars.remove(i)) == bar_views(bars).remove(i),
{
    assert(bar_views(bars.remove(i)) =~= bar_views(bars).remove(i));
}

/// Replacing a section replaces its view.
pub(crate) proof fn lemma_section_views_update(sections: Seq<Section>, i: int, section: Section)
    requires
        0 <= i < sections.len(),
    ensures
        section_views(sections.update(i, section)) == section_views(sections).update(i, section@),
{
    assert(section_views(sections.update(i, section)) =~= section_views(sections).update(
        i,
        section@,
    ));
}

/// Removing a section removes its view.
proof fn lemma_section_views_remove(sections: Seq<Section>, i: int)
    requires
        0 <= i < sections.len(),
    ensures
        section_views(sections.remove(i)) == section_views(sections).remove(i),
{
    assert(section_views(sections.remove(i)) =~= section_views(sections).remove(i));
}

/// The letter that follows `c` in the alphabet of section labels, `A` to `P`,
/// if `c` is one of them and not the last.
pub open spec fn letter_after(c: char) -> Option<char> {
    if c == 'A' {
        Some('B')
    } else if c == 'B' {
        Some('C')
    } else if c == 'C' {
        Some('D')
    } else if c == 'D' {
        Some('E')
    } else if c == 'E' {
        Some('F')
    } else if c == 'F' {
        Some('G')
    } else if c == 'G' {
        Some('H')
    } else if c == 'H' {
        Some('I')
    } else if c == 'I' {
        Some('J')
    } else if c == 'J' {
        Some('K')
    } else if c == 'K' {
        Some('L')
    } else if c == 'L' {
        Some('M')
    } else if c == 'M' {
        Some('N')
    } else if c == 'N' {
        Some('O')
    } else if c == 'O' {
        Some('P')
    } else {
        None
    }
}

/// The label of the section that follows one labelled `prev`: the next letter
/// where `prev` is a letter from `A` to `O`, and `?` after `P` and after any
/// other label.
pub open spec fn next_label(prev: Seq<char>) -> Seq<char> {
    if prev.len() == 1 && letter_after(prev[0]) is Some {
        seq![letter_after(prev[0])->0]
    } else {
        seq!['?']
    }
}

/// What a section is.
pub struct SectionView {
    pub label: Seq<char>,
    pub bars: Seq<BarView>,
    pub repeats: bool,
    pub wrap: int,
}

impl SectionView {
    /// The section's invariant: at least one bar, every bar in order, and a
    /// wrap of at least one bar per row.
    pub open spec fn wf(self) -> bool {
        &&& self.bars.len() >= 1
        &&& self.wrap >= 1
        &&& forall|i: int| 0 <= i < self.bars.len() ==> (#[trigger] self.bars[i]).wf()
    }

    /// The bar that is appended to this section: without chords, with the
    /// beats and the subdivision of the last bar, or four of each where the
    /// section has no bar.
    pub open spec fn new_bar(self) -> BarView {
        if self.bars.len() == 0 {
            BarView::empty(4, 4)
        } else {
            BarView::empty(self.bars.last().beats, self.bars.last().subdivision)
        }
    }

    /// The section with a new bar at its end.
    pub open spec fn with_new_bar(self) -> SectionView {
        SectionView { bars: self.bars.push(self.new_bar()), ..self }
    }

    /// The section with bar `i` replaced by `bar`.
    pub open spec fn with_bar(self, i: int, bar: BarView) -> SectionView {
        SectionView { bars: self.bars.update(i, bar), ..self }
    }

    /// The section without bar `i`.
    pub open spec fn without_bar(self, i: int) -> SectionView {
        SectionView { bars: self.bars.remove(i), ..self }
    }

    /// The section that follows this one when a section is appended: the next
    /// label, one bar like this section's last, the same wrap, no repeat.
    pub open spec fn successor(self) -> SectionView {
        SectionView {
            label: next_label(self.label),
            bars: seq![BarView::empty(self.bars.last().beats, self.bars.last().subdivision)],
            repeats: false,
            wrap: self.wrap,
        }
    }
}

/// A labelled run of bars, laid out `wrap` bars to a row.
pub struct Section {
    pub label: String,
    pub bars: Vec<Bar>,
    pub repeats: bool,
    pub wrap: usize,
}

impl View for Section {
    type V = SectionView;

    open spec fn view(&self) -> SectionView {
        SectionView {
            label: self.label@,
            bars: bar_views(self.bars@),
            repeats: self.repeats,
            wrap: self.wrap as int,
        }
    }
}

/// What a song is.
pub struct SongView {
    pub title: Seq<char>,
    pub sections: Seq<SectionView>,
}

impl SongView {
    /// The song's invariant: at least one section, every section in order.
    pub open spec fn wf(self) -> bool {
        &&& self.sections.len() >= 1
        &&& forall|i: int| 0 <= i < self.sections.len() ==> (#[trigger] self.sections[i]).wf()
    }

    /// The song that a session starts with: untitled, one section `A` of one
    /// bar of four beats in four slots, four bars to a row.
    pub open spec fn fresh() -> SongView {
        SongView {
            title: "untitled"@,
            sections: seq![
                SectionView {
                    label: seq!['A'],
                    bars: seq![BarView::empty(4, 4)],
                    repeats: false,
                    wrap: 4,
                },
            ],
        }
    }

    /// The song with section `i` replaced by `section`.
    pub open spec fn with_section(self, i: int, section: SectionView) -> SongView {
        SongView { sections: self.sections.update(i, section), ..self }
    }

    /// The song without section `i`.
    pub open spec fn without_section(self, i: int) -> SongView {
        SongView { sections: self.sections.remove(i), ..self }
    }

    /// The song with a new section at its end, made after the last one.
    pub open spec fn with_new_section(self) -> SongView {
        SongView { sections: self.sections.push(self.sections.last().successor()), ..self }
    }

    /// The song under another title.
    pub open spec fn with_title(self, title: Seq<char>) -> SongView {
        SongView { title, ..self }
    }
}

/// A song: its title and its sections.
pub struct Song {
    pub title: String,
    pub sections: Vec<Section>,
}

impl View for Song {
    type V = SongView;

    open spec fn view(&self) -> SongView {
        SongView { title: self.title@, sections: section_views(self.sections@) }
    }
}

/// The label for the section that follows one labelled `prev`.
pub fn label_after(prev: &str) -> (label: String)
    ensures
        label@ == next_label(prev@),
{
    proof {
        reveal_strlit("B");
        reveal_strlit("C");
        reveal_strlit("D");
        reveal_strlit("E");
        reveal_strlit("F");
        reveal_strlit("G");
        reveal_strlit("H");
        reveal_strlit("I");
        reveal_strlit("J");
        reveal_strlit("K");
        reveal_strlit("L");
        reveal_strlit("M");
        reveal_strlit("N");
        reveal_strlit("O");
        reveal_strlit("P");
        reveal_strlit("?");
    }
    let next: &'static str = if prev.unicode_len() != 1 {
        "?"
    } else {
        match prev.get_char(0) {
            'A' => "B",
            'B' => "C",
            'C' => "D",
            'D' => "E",
            'E' => "F",
            'F' => "G",
            'G' => "H",
            'H' => "I",
            'I' => "J",
            'J' => "K",
            'K' => "L",
            'L' => "M",
            'M' => "N",
            'N' => "O",
            'O' => "P",
            _ => "?",
        }
    };
    assert(next@ =~= next_label(prev@));
    String::from_str(next)
}

impl Section {
    /// The section's invariant, which is that of its view.
    pub open spec fn wf(&self) -> bool {
        self@.wf()
    }

    /// Appends a bar without chords that has the beats and the subdivision of
    /// the last bar; a bar of four beats in four slots where there is none.
    pub fn append_bar(&mut self)
        ensures
            final(self)@ == old(self)@.with_new_bar(),
            old(self).wf() ==> final(self).wf(),
    {
        let n = self.bars.len();
        let bar = if n == 0 {
            Bar::default()
        } else {
            Bar::new(self.bars[n - 1].beats, self.bars[n - 1].subdivision)
        };
        self.bars.push(bar);
        assert(final(self)@.bars =~= old(self)@.bars.push(old(self)@.new_bar()));
    }

    /// Whether the section keeps its invariant.
    pub fn is_valid(&self) -> (r: bool)
        ensures
            r == self.wf(),
    {
        if self.bars.len() < 1 || self.wrap < 1 {
            return false;
        }
        let mut i: usize = 0;
        while i < self.bars.len()
            invariant
                i <= self.bars.len(),
                forall|j: int| 0 <= j < i ==> (#[trigger] self@.bars[j]).wf(),
            decreases self.bars.len() - i,
        {
            if !self.bars[i].is_valid() {
                assert(!self@.bars[i as int].wf());
                return false;
            }
            i = i + 1;
        }
        true
    }

    /// Bar `i`, to be changed in place. Nothing else of the section changes.
    pub fn bar_mut(&mut self, i: usize) -> (bar: &mut Bar)
        requires
            i < old(self).bars.len(),
        ensures
            *bar == old(self).bars[i as int],
            final(self)@ == old(self)@.with_bar(i as int, final(bar)@),
    {
        proof {
            let bars = self.bars@;
            assert forall|y: Bar| #[trigger]
                bar_views(bars.update(i as int, y)) == bar_views(bars).update(i as int, y@) by {
                lemma_bar_views_update(bars, i as int, y);
            }
        }
        &mut self.bars[i]
    }

    /// Takes bar `i` out of the section and returns it.
    pub fn remove_bar(&mut self, i: usize) -> (bar: Bar)
        requires
            i < old(self).bars.len(),
        ensures
            bar == old(self).bars[i as int],
            final(self)@ == old(self)@.without_bar(i as int),
    {
        proof {
            lemma_bar_views_remove(self.bars@, i as int);
        }
        self.bars.remove(i)
    }

    /// The section to append after this one: labelled with the next label,
    /// holding one bar like this section's last, with the same wrap.
    pub fn successor(&self) -> (next: Section)
        requires
            self.bars.len() >= 1,
        ensures
            next@ == self@.successor(),
            self.wf() ==> next.wf(),
    {
        let n = self.bars.len();
        let mut bars: Vec<Bar> = Vec::new();
        bars.push(Bar::new(self.bars[n - 1].beats, self.bars[n - 1].subdivision));
        let next = Section {
            label: label_after(self.label.as_str()),
            bars,
            repeats: false,
            wrap: self.wrap,
        };
        assert(next@.bars =~= self@.successor().bars);
        next
    }
}

impl Song {
    /// The song's invariant, which is that of its view.
    pub open spec fn wf(&self) -> bool {
        self@.wf()
    }

    /// The song that a session starts with.
    pub fn new() -> (song: Song)
        ensures
            song@ == SongView::fresh(),
            song.wf(),
    {
        proof {
            reveal_strlit("A");
        }
        let mut bars: Vec<Bar> = Vec::new();
        bars.push(Bar::default());
        let section = Section { label: String::from_str("A"), bars, repeats: false, wrap: 4 };
        assert(section@.bars =~= seq![BarView::empty(4, 4)]);
        assert(section@.label =~= seq!['A']);
        let mut sections: Vec<Section> = Vec::new();
        sections.push(section);
        let song = Song { title: String::from_str("untitled"), sections };
        assert(song@.sections =~= SongView::fresh().sections);
        song
    }

    /// Whether the song keeps its invariant.
    pub fn is_valid(&self) -> (r: bool)
        ensures
            r == self.wf(),
    {
        if self.sections.len() < 1 {
            return false;
        }
        let mut i: usize = 0;
        while i < self.sections.len()
            invariant
                i <= self.sections.len(),
                forall|j: int| 0 <= j < i ==> (#[trigger] self@.sections[j]).wf(),
            decreases self.sections.len() - i,
        {
            if !self.sections[i].is_valid() {
                assert(!self@.sections[i as int].wf());
                return false;
            }
            i = i + 1;
        }
        true
    }

    /// Section `i`, to be changed in place. Nothing else of the song changes.
    pub fn section_mut(&mut self, i: usize) -> (section: &mut Section)
        requires
            i < old(self).sections.len(),
        ensures
            *section == old(self).sections[i as int],
            final(self)@ == old(self)@.with_section(i as int, final(section)@),
    {
        proof {
            let sections = self.sections@;
            assert forall|x: Section| #[trigger]
                section_views(sections.update(i as int, x)) == section_views(sections).update(
                    i as int,
                    x@,
                ) by {
                lemma_section_views_update(sections, i as int, x);
            }
        }
        &mut self.sections[i]
    }

    /// Takes section `i` out of the song and returns it.
    pub fn remove_section(&mut self, i: usize) -> (section: Section)
        requires
            i < old(self).sections.len(),
        ensures
            section == old(self).sections[i as int],
            final(self)@ == old(self)@.without_section(i as int),
    {
        proof {
            lemma_section_views_remove(self.sections@, i as int);
        }
        self.sections.remove(i)
    }

    /// Appends a section made after the last one.
    pub fn append_section(&mut self)
        requires
            old(self).sections.len() >= 1,
            old(self).sections[old(self).sections.len() - 1].bars.len() >= 1,
        ensures
            final(self)@ == old(self)@.with_new_section(),
            old(self).wf() ==> final(self).wf(),
    {
        let n = self.sections.len();
        let next = self.sections[n - 1].successor();
        self.sections.push(next);
        assert(final(self)@.sections =~= old(self)@.sections.push(
            old(self)@.sections.last().successor(),
        ));
    }
}

} // verus!
