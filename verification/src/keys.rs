//! What each key does while the song is edited.

use vstd::prelude::*;
use crate::chord::{note_of, Note};
use crate::entry::Key;
use crate::state::{State, StateView};

verus! {

/// What a key leaves for the caller to do.
#[derive(Clone, Copy, Debug, PartialEq, Eq, Structural)]
pub enum KeyRequest {
    /// Nothing.
    Nothing,
    /// Open the command line.
    CommandLine,
    /// Open a chord entry that begins with this character.
    ChordEntry(char),
    /// Mark the whole screen to be drawn again.
    Touch,
}

impl StateView {
    /// The session after a key.
    ///
    /// Tab and F4 go to the next bar, space and the right arrow go one slot
    /// forward, the left arrow one slot back, F3 one bar back, the up and
    /// down arrows one row up and down, and `s` goes to the next section.
    /// `?` and `!` flip the flags of the chord under the cursor. The delete
    /// key deletes at the cursor; page up doubles the subdivision of the bar
    /// under the cursor and page down halves it. Any other key leaves the
    /// session as it is. The cursor may stand one past the last bar of its
    /// section; what is done to the bar or the chord under the cursor then
    /// does nothing.
    pub open spec fn after_key(self, key: Key) -> StateView {
        match key {
            Key::Character(c) => if c == '\t' {
                self.next_or_create_bar()
            } else if c == ' ' {
                self.next_subdivision()
            } else if c == 's' {
                self.next_or_create_section()
            } else if c == '?' {
                self.toggle_question()
            } else if c == '!' {
                self.toggle_special()
            } else {
                self
            },
            Key::Delete => self.delete_chord_or_empty_bar(),
            Key::PageDown => self.try_reduce_subdivision(),
            Key::PageUp => self.double_subdivision(),
            Key::F4 => self.next_or_create_bar(),
            Key::F3 => self.prev_bar(),
            Key::Right => self.next_subdivision(),
            Key::Left => self.prev_subdivision(),
            Key::Up => self.row_up(),
            Key::Down => self.row_down(),
            Key::Other => self,
        }
    }

    /// Whether the session can take a key: to go one slot forward, the
    /// cursor's slot number must have a successor.
    pub open spec fn takes_key(self, key: Key) -> bool {
        key == Key::Right || key == Key::Character(' ') ==> self.cursor.subdivision < usize::MAX
    }
}

/// What a key leaves for the caller to do: `:` opens the command line, a
/// note letter opens a chord entry, page down asks for the screen to be
/// drawn again, and no other key leaves anything.
pub open spec fn request_of_key(key: Key) -> KeyRequest {
    match key {
        Key::Character(c) => if c == '\t' || c == ' ' || c == 's' || c == '?' || c == '!' {
            KeyRequest::Nothing
        } else if c == ':' {
            KeyRequest::CommandLine
        } else if note_of(c) is Some {
            KeyRequest::ChordEntry(c)
        } else {
            KeyRequest::Nothing
        },
        Key::PageDown => KeyRequest::Touch,
        _ => KeyRequest::Nothing,
    }
}

impl State {
    /// Whether the session can take a key.
    pub fn takes_key(&self, key: Key) -> (r: bool)
        ensures
            r == self@.takes_key(key),
    {
        match key {
            Key::Right => self.cursor.subdivision < usize::MAX,
            Key::Character(c) => c != ' ' || self.cursor.subdivision < usize::MAX,
            _ => true,
        }
    }

    /// Takes a key of the editing mode, and answers what is left for the
    /// caller to do.
    pub fn key(&mut self, key: Key) -> (request: KeyRequest)
        requires
            old(self).wf(),
            old(self)@.on_bar_or_end(),
            old(self)@.takes_key(key),
        ensures
            final(self)@ == old(self)@.after_key(key),
            request == request_of_key(key),
            final(self).wf(),
            final(self)@.on_bar_or_end(),
            old(self)@.on_bar() && key != Key::F3 && key != Key::Left && key != Key::Up
                ==> final(self)@.on_bar(),
    {
        match key {
            Key::Character(c) => {
                if c == '\t' {
                    self.next_or_create_bar();
                    KeyRequest::Nothing
                } else if c == ' ' {
                    self.next_subdivision();
                    KeyRequest::Nothing
                } else if c == 's' {
                    self.next_or_create_section();
                    KeyRequest::Nothing
                } else if c == ':' {
                    KeyRequest::CommandLine
                } else if c == '?' {
                    self.toggle_question();
                    KeyRequest::Nothing
                } else if c == '!' {
                    self.toggle_special();
                    KeyRequest::Nothing
                } else {
                    match Note::try_from(c) {
                        Ok(_) => KeyRequest::ChordEntry(c),
                        Err(_) => KeyRequest::Nothing,
                    }
                }
            },
            Key::Delete => {
                self.delete_chord_or_empty_bar();
                KeyRequest::Nothing
            },
            Key::PageDown => {
                self.try_reduce_subdivision();
                KeyRequest::Touch
            },
            Key::PageUp => {
                self.double_subdivision();
                KeyRequest::Nothing
            },
            Key::F4 => {
                self.next_or_create_bar();
                KeyRequest::Nothing
            },
            Key::F3 => {
                self.prev_bar();
                KeyRequest::Nothing
            },
            Key::Right => {
                self.next_subdivision();
                KeyRequest::Nothing
            },
            Key::Left => {
                self.prev_subdivision();
                KeyRequest::Nothing
            },
            Key::Up => {
                self.row_up();
                KeyRequest::Nothing
            },
            Key::Down => {
                self.row_down();
                KeyRequest::Nothing
            },
            Key::Other => KeyRequest::Nothing,
        }
    }
}

} // verus!
