//! The editing session: the song, the cursor on it, and what the session has
//! to tell whoever draws it.

use vstd::prelude::*;
use vstd::string::*;
use crate::bar::{Bar, BarView};
use crate::chord::Chord;
use crate::song::{
    lemma_section_views_update, section_views, Section, SectionView, Song, SongView,
};

verus! {

/// A position in a song: a section, a bar of it, a slot of that bar.
#[derive(Clone, Copy, Debug, PartialEq, Eq, Structural)]
pub struct CursorPos {
    pub section: usize,
    pub bar: usize,
    pub subdivision: usize,
}

/// A position in a song, in mathematical integers.
pub struct CursorView {
    pub section: int,
    pub bar: int,
    pub subdivision: int,
}

impl View for CursorPos {
    type V = CursorView;

    open spec fn view(&self) -> CursorView {
        CursorView {
            section: self.section as int,
            bar: self.bar as int,
            subdivision: self.subdivision as int,
        }
    }
}

impl Default for CursorPos {
    /// The first slot of the first bar of the first section.
    fn default() -> (c: CursorPos)
        ensures
            c@ == CursorView::origin(),
    {
        CursorPos { section: 0, bar: 0, subdivision: 0 }
    }
}

impl CursorView {
    /// The first slot of the first bar of the first section.
    pub open spec fn origin() -> CursorView {
        CursorView { section: 0, bar: 0, subdivision: 0 }
    }
}

/// A message shown for a few frames.
pub struct Toast {
    pub message: Option<String>,
    pub ticks: u32,
}

/// What a toast is.
pub struct ToastView {
    pub message: Option<Seq<char>>,
    pub ticks: int,
}

impl View for Toast {
    type V = ToastView;

    open spec fn view(&self) -> ToastView {
        ToastView {
            message: match self.message {
                Some(m) => Some(m@),
                None => None,
            },
            ticks: self.ticks as int,
        }
    }
}

impl ToastView {
    /// No message, and no frames to show it for.
    pub open spec fn silent() -> ToastView {
        ToastView { message: None, ticks: 0 }
    }

    /// The message on show in the next frame, if one is.
    pub open spec fn showing(self) -> Option<Seq<char>> {
        if self.ticks > 0 {
            self.message
        } else {
            None
        }
    }

    /// The toast after a frame was drawn: one frame less for a message that
    /// was on show.
    pub open spec fn after_frame(self) -> ToastView {
        if self.showing() is Some {
            ToastView { ticks: self.ticks - 1, ..self }
        } else {
            self
        }
    }
}

impl Default for Toast {
    fn default() -> (t: Toast)
        ensures
            t@ == ToastView::silent(),
    {
        Toast { message: None, ticks: 0 }
    }
}

impl Toast {
    /// The message to draw in this frame, if one is on show; counts the frame.
    pub fn draw_toast(&mut self) -> (shown: Option<String>)
        ensures
            final(self)@ == old(self)@.after_frame(),
            match shown {
                Some(m) => old(self)@.showing() == Some(m@),
                None => old(self)@.showing() is None,
            },
    {
        match &self.message {
            Some(message) => {
                if self.ticks == 0 {
                    return None;
                }
                let shown = message.clone();
                self.ticks = self.ticks - 1;
                Some(shown)
            },
            None => None,
        }
    }
}

/// What an editing session is.
pub struct StateView {
    pub song: SongView,
    pub cursor: CursorView,
    pub should_clear: bool,
    pub should_quit: bool,
    pub toast: ToastView,
    pub filename: Option<Seq<char>>,
}

/// An editing session.
pub struct State {
    pub song: Song,
    pub cursor: CursorPos,
    /// The screen is to be cleared before it is drawn again.
    pub should_clear: bool,
    /// The session is over.
    pub should_quit: bool,
    pub toast: Toast,
    /// The file that the song is saved to, once one was named.
    pub filename: Option<String>,
}

impl View for State {
    type V = StateView;

    open spec fn view(&self) -> StateView {
        StateView {
            song: self.song@,
            cursor: self.cursor@,
            should_clear: self.should_clear,
            should_quit: self.should_quit,
            toast: self.toast@,
            filename: match self.filename {
                Some(f) => Some(f@),
                None => None,
            },
        }
    }
}

impl StateView {
    /// The session as it starts: a fresh song, the cursor on its first slot,
    /// the screen to be cleared, no message, no file.
    pub open spec fn fresh() -> StateView {
        StateView {
            song: SongView::fresh(),
            cursor: CursorView::origin(),
            should_clear: true,
            should_quit: false,
            toast: ToastView::silent(),
            filename: None,
        }
    }

    /// The cursor's section exists.
    pub open spec fn in_section(self) -> bool {
        0 <= self.cursor.section < self.song.sections.len()
    }

    /// The cursor's section and bar exist.
    pub open spec fn on_bar(self) -> bool {
        self.in_section() && 0 <= self.cursor.bar < self.section().bars.len()
    }

    /// The cursor's section exists, and the cursor is on one of its bars or
    /// one past the last of them, where going one section back leaves it.
    pub open spec fn on_bar_or_end(self) -> bool {
        self.in_section() && 0 <= self.cursor.bar <= self.section().bars.len()
    }

    /// The cursor addresses a slot of the song.
    pub open spec fn on_slot(self) -> bool {
        self.on_bar() && 0 <= self.cursor.subdivision < self.bar().subdivision
    }

    /// The section under the cursor.
    pub open spec fn section(self) -> SectionView {
        self.song.sections[self.cursor.section]
    }

    /// The bar under the cursor.
    pub open spec fn bar(self) -> BarView {
        self.section().bars[self.cursor.bar]
    }

    /// The session with the cursor moved.
    pub open spec fn at(self, section: int, bar: int, subdivision: int) -> StateView {
        StateView { cursor: CursorView { section, bar, subdivision }, ..self }
    }

    /// The session with the bar under the cursor replaced.
    pub open spec fn with_bar(self, bar: BarView) -> StateView {
        StateView {
            song: self.song.with_section(
                self.cursor.section,
                self.section().with_bar(self.cursor.bar, bar),
            ),
            ..self
        }
    }

    /// The session with a message on show for two frames.
    pub open spec fn with_toast(self, message: Seq<char>) -> StateView {
        StateView { toast: ToastView { message: Some(message), ticks: 2 }, ..self }
    }
}

impl State {
    /// The session's invariant: that of its song.
    pub open spec fn wf(&self) -> bool {
        self.song@.wf()
    }

    /// A session on a fresh song.
    pub fn new() -> (state: State)
        ensures
            state@ == StateView::fresh(),
            state.wf(),
            state@.on_slot(),
    {
        State {
            song: Song::new(),
            cursor: CursorPos::default(),
            should_clear: true,
            should_quit: false,
            toast: Toast::default(),
            filename: None,
        }
    }

    /// Whether the cursor's section exists.
    pub fn in_section(&self) -> (r: bool)
        ensures
            r == self@.in_section(),
    {
        self.cursor.section < self.song.sections.len()
    }

    /// Whether the cursor's section and bar exist.
    pub fn on_bar(&self) -> (r: bool)
        ensures
            r == self@.on_bar(),
    {
        self.cursor.section < self.song.sections.len() && self.cursor.bar
            < self.song.sections[self.cursor.section].bars.len()
    }

    /// Whether the cursor is on a bar of its section or one past the last.
    pub fn on_bar_or_end(&self) -> (r: bool)
        ensures
            r == self@.on_bar_or_end(),
    {
        self.cursor.section < self.song.sections.len() && self.cursor.bar
            <= self.song.sections[self.cursor.section].bars.len()
    }

    /// Whether the cursor addresses a slot of the song.
    pub fn on_slot(&self) -> (r: bool)
        ensures
            r == self@.on_slot(),
    {
        self.on_bar() && self.cursor.subdivision
            < self.song.sections[self.cursor.section].bars[self.cursor.bar].subdivision
    }

    /// Asks for the screen to be cleared before it is drawn again.
    pub fn schedule_clear(&mut self)
        ensures
            final(self)@ == (StateView { should_clear: true, ..old(self)@ }),
    {
        self.should_clear = true;
    }

    /// Ends the session.
    pub fn quit(&mut self)
        ensures
            final(self)@ == (StateView { should_quit: true, ..old(self)@ }),
    {
        self.should_quit = true;
    }

    /// Puts a message on show for two frames.
    pub fn toast(&mut self, message: &str)
        ensures
            final(self)@ == old(self)@.with_toast(message@),
    {
        self.toast.message = Some(String::from_str(message));
        self.toast.ticks = 2;
    }

    /// The section under the cursor.
    pub fn current_section(&self) -> (section: &Section)
        requires
            self@.in_section(),
        ensures
            section@ == self@.section(),
            *section == self.song.sections[self.cursor.section as int],
    {
        &self.song.sections[self.cursor.section]
    }

    /// The section under the cursor, to be changed in place.
    pub fn current_section_mut(&mut self) -> (section: &mut Section)
        requires
            old(self)@.in_section(),
        ensures
            *section == old(self).song.sections[old(self).cursor.section as int],
            final(self)@ == (StateView {
                song: old(self)@.song.with_section(old(self)@.cursor.section, final(section)@),
                ..old(self)@
            }),
    {
        let s = self.cursor.section;
        proof {
            let sections = self.song.sections@;
            assert forall|x: Section| #[trigger]
                section_views(sections.update(s as int, x)) == section_views(sections).update(
                    s as int,
                    x@,
                ) by {
                lemma_section_views_update(sections, s as int, x);
            }
        }
        &mut self.song.sections[s]
    }

    /// The bar under the cursor, to be changed in place. Nothing else of the
    /// session changes.
    pub fn current_bar_mut(&mut self) -> (bar: &mut Bar)
        requires
            old(self)@.on_bar(),
        ensures
            *bar == old(self).song.sections[old(self).cursor.section as int].bars[old(
                self,
            ).cursor.bar as int],
            bar@ == old(self)@.bar(),
            final(self)@ == old(self)@.with_bar(final(bar)@),
    {
        let b = self.cursor.bar;
        self.current_section_mut().bar_mut(b)
    }

    /// The chord under the cursor, to be changed in place, if the slot holds
    /// one. Nothing else of the session changes.
    pub fn current_chord_mut(&mut self) -> (r: Option<&mut Chord>)
        requires
            old(self)@.on_bar(),
        ensures
            match r {
                Some(c) => {
                    &&& old(self)@.bar().slots.contains_key(old(self)@.cursor.subdivision)
                    &&& *c == old(self)@.bar().slots[old(self)@.cursor.subdivision]
                    &&& final(self)@ == old(self)@.with_bar(
                        old(self)@.bar().with_chord(old(self)@.cursor.subdivision, *final(c)),
                    )
                },
                None => {
                    &&& !old(self)@.bar().slots.contains_key(old(self)@.cursor.subdivision)
                    &&& final(self)@ == old(self)@
                },
            },
    {
        let k = self.cursor.subdivision;
        proof {
            let st = self@;
            assert(st.song.sections.update(
                st.cursor.section,
                st.section().with_bar(st.cursor.bar, st.bar()),
            ) =~= st.song.sections) by {
                assert(st.section().bars.update(st.cursor.bar, st.bar()) =~= st.section().bars);
            }
        }
        self.current_bar_mut().get_chord_mut(k)
    }
}

} // verus!
