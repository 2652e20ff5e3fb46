//! The song as a page of HTML, for printing.

use vstd::prelude::*;
use vstd::string::*;
use crate::bar::{Bar, BarView};
use crate::text::{decimal, decimal_text};
use crate::song::{Section, SectionView, Song, SongView};

verus! {

/// The style sheet that the page begins with.
pub const PREAMBLE: &'static str = "<style>
            html {
                font-size: 24px;
                font-family: sans-serif;
            }

            Section {
                width: 100%;
                display: flex;
                flex-wrap: wrap;
                gap: 2px 0;
            }

            Bar {
                display: flex;
                box-sizing: border-box;
                border-left: 1px solid black;
                padding: 2px;
            }

            Sub {
                display: flex;
            }
        </style>\n";

/// An opening tag `name` whose width is the `n`th part of what it stands in.
pub open spec fn divided(name: Seq<char>, n: int) -> Seq<char> {
    seq!['<'] + name + " style=\"width: calc(100%/"@ + decimal_text(n as nat) + ");\">"@
}

/// Slot `k` of a bar: a `Sub` element that holds the slot's chord as it is
/// written, or nothing.
pub open spec fn slot_html(bar: BarView, k: int) -> Seq<char> {
    divided("Sub"@, bar.subdivision) + (if bar.slots.contains_key(k) {
        bar.slots[k].text()
    } else {
        Seq::empty()
    }) + "</Sub>\n"@
}

/// The first `n` slots of a bar, one after the other.
pub open spec fn slots_html(bar: BarView, n: int) -> Seq<char>
    decreases n,
{
    if n <= 0 {
        Seq::empty()
    } else {
        slots_html(bar, n - 1) + slot_html(bar, n - 1)
    }
}

/// A bar: a `Bar` element, as wide as one of `wrap` bars in a row, that holds
/// the bar's slots.
pub open spec fn bar_html(bar: BarView, wrap: int) -> Seq<char> {
    divided("Bar"@, wrap) + slots_html(bar, bar.subdivision) + "</Bar>\n"@
}

/// The first `n` bars of a section, one after the other.
pub open spec fn bars_html(section: SectionView, n: int) -> Seq<char>
    decreases n,
{
    if n <= 0 {
        Seq::empty()
    } else {
        bars_html(section, n - 1) + bar_html(section.bars[n - 1], section.wrap)
    }
}

/// A section: its label as a heading, and a `Section` element that holds its
/// bars.
pub open spec fn section_html(section: SectionView) -> Seq<char> {
    "<h2>"@ + section.label + "</h2>"@ + "<Section>"@ + bars_html(
        section,
        section.bars.len() as int,
    ) + "</Section>\n"@
}

/// The first `n` sections of a song, one after the other.
pub open spec fn sections_html(song: SongView, n: int) -> Seq<char>
    decreases n,
{
    if n <= 0 {
        Seq::empty()
    } else {
        sections_html(song, n - 1) + section_html(song.sections[n - 1])
    }
}

/// The page for a song: the style sheet, then the sections.
pub open spec fn song_html(song: SongView) -> Seq<char> {
    PREAMBLE@ + sections_html(song, song.sections.len() as int)
}

fn divided_tag(name: &str, n: usize) -> (out: String)
    ensures
        out@ == divided(name@, n as int),
{
    proof {
        reveal_strlit("<");
        assert("<"@ =~= seq!['<']);
    }
    let mut out = String::from_str("<");
    out.append(name);
    out.append(" style=\"width: calc(100%/");
    out.append(decimal(n).as_str());
    out.append(");\">");
    out
}

impl Bar {
    /// The bar as an element of the page, as wide as one of `wrap` bars in a
    /// row.
    pub fn to_html(&self, wrap: usize) -> (out: String)
        ensures
            out@ == bar_html(self@, wrap as int),
    {
        let mut out = divided_tag("Bar", wrap);
        let ghost head = out@;
        let mut k: usize = 0;
        assert(out@ =~= head + slots_html(self@, 0));
        while k < self.subdivision
            invariant
                k <= self.subdivision,
                head == divided("Bar"@, wrap as int),
                out@ == head + slots_html(self@, k as int),
            decreases self.subdivision - k,
        {
            let ghost before = out@;
            out.append(divided_tag("Sub", self.subdivision).as_str());
            match self.get_chord(k) {
                Some(chord) => {
                    out.append(chord.to_string().as_str());
                },
                None => {},
            }
            out.append("</Sub>\n");
            assert(out@ =~= before + slot_html(self@, k as int));
            k = k + 1;
            assert(out@ =~= head + slots_html(self@, k as int));
        }
        out.append("</Bar>\n");
        out
    }
}

impl Section {
    /// The section as a heading and an element of the page.
    pub fn to_html(&self) -> (out: String)
        ensures
            out@ == section_html(self@),
    {
        let mut out = String::from_str("<h2>");
        out.append(self.label.as_str());
        out.append("</h2>");
        out.append("<Section>");
        let ghost head = out@;
        let mut i: usize = 0;
        assert(out@ =~= head + bars_html(self@, 0));
        while i < self.bars.len()
            invariant
                i <= self.bars.len(),
                head == "<h2>"@ + self@.label + "</h2>"@ + "<Section>"@,
                out@ == head + bars_html(self@, i as int),
            decreases self.bars.len() - i,
        {
            out.append(self.bars[i].to_html(self.wrap).as_str());
            i = i + 1;
            assert(out@ =~= head + bars_html(self@, i as int));
        }
        out.append("</Section>\n");
        out
    }
}

impl Song {
    /// The song as a page of HTML.
    pub fn to_html(&self) -> (out: String)
        ensures
            out@ == song_html(self@),
    {
        let mut out = String::from_str(PREAMBLE);
        let mut i: usize = 0;
        assert(out@ =~= PREAMBLE@ + sections_html(self@, 0));
        while i < self.sections.len()
            invariant
                i <= self.sections.len(),
                out@ == PREAMBLE@ + sections_html(self@, i as int),
            decreases self.sections.len() - i,
        {
            out.append(self.sections[i].to_html().as_str());
            i = i + 1;
            assert(out@ =~= PREAMBLE@ + sections_html(self@, i as int));
        }
        out
    }
}

} // verus!
