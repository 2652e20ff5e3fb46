//! Changing the song at the cursor: deleting, resizing the bar, marking and
//! entering chords.

use vstd::prelude::*;
use vstd::string::*;
use crate::bar::BarView;
use crate::chord::Chord;
use crate::grammar::parsed;
use crate::state::{CursorPos, CursorView, State, StateView};
use crate::text::{decimal, decimal_text};

verus! {

/// The message that tells how many slots a bar has after it was resized.
pub open spec fn subdivisions_text(n: nat) -> Seq<char> {
    decimal_text(n) + " subdivisions"@
}

impl StateView {
    /// The session with `chord` in the slot at `at`.
    pub open spec fn with_chord_at(self, at: CursorView, chord: Chord) -> StateView {
        self.at(at.section, at.bar, at.subdivision).with_bar(
            self.at(at.section, at.bar, at.subdivision).bar().with_chord(at.subdivision, chord),
        ).at(self.cursor.section, self.cursor.bar, self.cursor.subdivision)
    }

    /// Deleting takes the cursor's section away: it has one bar, that bar
    /// holds no chord, and it is not the song's only section.
    pub open spec fn delete_removes_section(self) -> bool {
        self.section().bars.len() == 1 && self.section().bars[0].occupied() == 0
            && self.song.sections.len() > 1
    }

    /// Deleting takes the cursor's bar away: it holds no chord and is not the
    /// section's only bar.
    pub open spec fn delete_removes_bar(self) -> bool {
        !self.delete_removes_section() && self.bar().occupied() == 0 && self.section().bars.len()
            > 1
    }

    /// What deleting at the cursor does.
    ///
    /// A section that is left with one empty bar goes, unless it is the only
    /// one, and the cursor moves to the last slot of the section before; where
    /// the first section goes, the cursor moves to the first slot of the
    /// section that takes its place. An empty bar goes, unless it is the section's only one, and the cursor
    /// stays on the bar that takes its place, or steps back if there is none.
    /// In both cases the screen is to be cleared. Otherwise the chord under
    /// the cursor goes, if there is one. Where the cursor is on no bar, as it
    /// is one past the last bar of a section, nothing is under it and nothing
    /// changes.
    pub open spec fn delete_chord_or_empty_bar(self) -> StateView {
        let s = self.cursor.section;
        if !self.on_bar() {
            self
        } else if self.delete_removes_section() {
            StateView {
                song: self.song.without_section(s),
                cursor: if s > 0 {
                    let prev = self.song.sections[s - 1];
                    CursorView {
                        section: s - 1,
                        bar: prev.bars.len() - 1,
                        subdivision: prev.bars.last().subdivision - 1,
                    }
                } else {
                    CursorView::origin()
                },
                should_clear: true,
                ..self
            }
        } else if self.delete_removes_bar() {
            let left = self.section().without_bar(self.cursor.bar);
            StateView {
                song: self.song.with_section(s, left),
                cursor: CursorView {
                    section: s,
                    bar: if self.cursor.bar >= left.bars.len() {
                        self.cursor.bar - 1
                    } else {
                        self.cursor.bar
                    },
                    subdivision: self.cursor.subdivision,
                },
                should_clear: true,
                ..self
            }
        } else {
            self.with_bar(self.bar().without_chord(self.cursor.subdivision))
        }
    }

    /// The session after the cursor's bar was resized to `bar`: the bar in
    /// place, and a message on show that tells its subdivision.
    pub open spec fn resized(self, bar: BarView) -> StateView {
        self.with_bar(bar).with_toast(subdivisions_text(bar.subdivision as nat))
    }

    /// The session after the subdivision of the bar under the cursor was
    /// doubled, if the cursor is on a bar.
    pub open spec fn double_subdivision(self) -> StateView {
        if self.on_bar() {
            self.resized(self.bar().doubled())
        } else {
            self
        }
    }

    /// The session after the subdivision of the bar under the cursor was
    /// halved, where it can be halved; the subdivision is told in a message
    /// either way, if the cursor is on a bar.
    pub open spec fn try_reduce_subdivision(self) -> StateView {
        if !self.on_bar() {
            self
        } else if self.bar().can_reduce() {
            self.resized(self.bar().reduced())
        } else {
            self.resized(self.bar())
        }
    }

    /// The session with the question flag of the chord under the cursor
    /// flipped, if there is a chord.
    pub open spec fn toggle_question(self) -> StateView {
        let k = self.cursor.subdivision;
        if self.on_bar() && self.bar().slots.contains_key(k) {
            self.with_bar(self.bar().with_chord(k, self.bar().slots[k].with_question_toggled()))
        } else {
            self
        }
    }

    /// The session with the special flag of the chord under the cursor
    /// flipped, if there is a chord.
    pub open spec fn toggle_special(self) -> StateView {
        let k = self.cursor.subdivision;
        if self.on_bar() && self.bar().slots.contains_key(k) {
            self.with_bar(self.bar().with_chord(k, self.bar().slots[k].with_special_toggled()))
        } else {
            self
        }
    }
}

impl State {
    /// Deletes at the cursor: the chord under it, or the empty bar, or the
    /// section that is left with one empty bar. Does nothing where the cursor
    /// is on no bar.
    pub fn delete_chord_or_empty_bar(&mut self)
        requires
            old(self).wf(),
        ensures
            final(self)@ == old(self)@.delete_chord_or_empty_bar(),
            final(self).wf(),
            old(self)@.on_bar() ==> final(self)@.on_bar(),
            old(self)@.on_bar_or_end() ==> final(self)@.on_bar_or_end(),
            old(self)@.on_bar() && old(self)@.delete_removes_section() ==> final(self)@.on_slot(),
    {
        if !self.on_bar() {
            return;
        }
        let cursor = self.cursor;
        let section = self.current_section();
        if section.bars.len() == 1 && section.bars[0].is_empty() && self.song.sections.len() > 1 {
            self.song.remove_section(cursor.section);
            if cursor.section > 0 {
                self.cursor.section = self.cursor.section - 1;
                let prev = self.current_section();
                let last = prev.bars.len() - 1;
                let end = prev.bars[last].subdivision - 1;
                self.cursor.bar = last;
                self.cursor.subdivision = end;
            } else {
                self.cursor = CursorPos::default();
            }
            self.schedule_clear();
            return;
        }
        if section.bars[cursor.bar].is_empty() && section.bars.len() > 1 {
            let section = self.current_section_mut();
            section.remove_bar(cursor.bar);
            if cursor.bar >= section.bars.len() {
                self.cursor.bar = self.cursor.bar - 1;
            }
            self.schedule_clear();
        } else {
            self.current_bar_mut().remove_chord(cursor.subdivision);
        }
    }

    /// Doubles the subdivision of the bar under the cursor and tells the new
    /// subdivision in a message. Does nothing where the cursor is on no bar.
    pub fn double_subdivision(&mut self)
        requires
            old(self).wf(),
        ensures
            final(self)@ == old(self)@.double_subdivision(),
            final(self).wf(),
            old(self)@.on_bar() ==> final(self)@.on_bar(),
            old(self)@.on_bar_or_end() ==> final(self)@.on_bar_or_end(),
    {
        if !self.on_bar() {
            return;
        }
        let bar = self.current_bar_mut();
        bar.double_subdivision();
        let n = bar.subdivision;
        let mut message = decimal(n);
        message.append(" subdivisions");
        self.toast(message.as_str());
    }

    /// Halves the subdivision of the bar under the cursor, where it can be
    /// halved, and tells the bar's subdivision in a message either way. Does
    /// nothing where the cursor is on no bar. Answers whether the bar was
    /// halved.
    pub fn try_reduce_subdivision(&mut self) -> (ok: bool)
        requires
            old(self).wf(),
        ensures
            ok == (old(self)@.on_bar() && old(self)@.bar().can_reduce()),
            final(self)@ == old(self)@.try_reduce_subdivision(),
            final(self).wf(),
            old(self)@.on_bar() ==> final(self)@.on_bar(),
            old(self)@.on_bar_or_end() ==> final(self)@.on_bar_or_end(),
    {
        if !self.on_bar() {
            return false;
        }
        let bar = self.current_bar_mut();
        let ok = bar.try_reduce_subdivision();
        let n = bar.subdivision;
        let mut message = decimal(n);
        message.append(" subdivisions");
        self.toast(message.as_str());
        ok
    }

    /// Flips the question flag of the chord under the cursor, if there is one.
    pub fn toggle_question(&mut self)
        ensures
            final(self)@ == old(self)@.toggle_question(),
    {
        if !self.on_bar() {
            return;
        }
        match self.current_chord_mut() {
            Some(c) => {
                c.toggle_question();
            },
            None => {},
        }
    }

    /// Flips the special flag of the chord under the cursor, if there is one.
    pub fn toggle_special(&mut self)
        ensures
            final(self)@ == old(self)@.toggle_special(),
    {
        if !self.on_bar() {
            return;
        }
        match self.current_chord_mut() {
            Some(c) => {
                c.toggle_special();
            },
            None => {},
        }
    }

    /// Reads `text` as a chord and puts it into the slot at `at`, in place of
    /// what the slot held. Where `text` is not read as a chord nothing
    /// changes. Answers whether the chord was put in.
    pub fn enter_chord(&mut self, at: CursorPos, text: &str) -> (entered: bool)
        requires
            old(self)@.at(at@.section, at@.bar, at@.subdivision).on_bar(),
        ensures
            match parsed(text@) {
                Some(c) => entered && final(self)@ == old(self)@.with_chord_at(at@, c),
                None => !entered && final(self)@ == old(self)@,
            },
            old(self).wf() && old(self)@.at(at@.section, at@.bar, at@.subdivision).on_slot()
                ==> final(self).wf(),
    {
        match Chord::parse(text) {
            Ok(chord) => {
                self.song.section_mut(at.section).bar_mut(at.bar).insert_chord(
                    at.subdivision,
                    chord,
                );
                true
            },
            Err(_) => false,
        }
    }

    /// Puts the chord that was entered into the song: `text`, read as a
    /// chord, goes into the bar and the slot where the entry began, `origin`,
    /// in the section that the cursor is in when the entry is over. Where
    /// `text` is not read as a chord nothing changes. Answers whether the
    /// chord was put in.
    pub fn enter_chord_from(&mut self, origin: CursorPos, text: &str) -> (entered: bool)
        requires
            old(self)@.in_section(),
            origin.bar < old(self)@.section().bars.len(),
        ensures
            match parsed(text@) {
                Some(c) => entered && final(self)@ == old(self)@.with_chord_at(
                    (CursorView {
                        section: old(self)@.cursor.section,
                        bar: origin@.bar,
                        subdivision: origin@.subdivision,
                    }),
                    c,
                ),
                None => !entered && final(self)@ == old(self)@,
            },
            old(self).wf() && origin.subdivision < old(self)@.section().bars[origin.bar as int]
                .subdivision ==> final(self).wf(),
    {
        let at = CursorPos {
            section: self.cursor.section,
            bar: origin.bar,
            subdivision: origin.subdivision,
        };
        self.enter_chord(at, text)
    }
}

} // verus!
