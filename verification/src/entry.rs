//! The entry lines: the small machines that take keys one by one while a
//! chord, a command, a line of text or a single answer is typed.
//!
//! Each machine holds a buffer. A key is put into the buffer, takes its last
//! character away, is passed over, or ends the entry.

use vstd::prelude::*;
use vstd::string::*;
use crate::state::{State, StateView};
use crate::text::{graphic, is1, is_graphic};

verus! {

/// A key as it comes from the keyboard.
#[derive(Clone, Copy, Debug, PartialEq, Eq, Structural)]
pub enum Key {
    /// A key that stands for a character.
    Character(char),
    Delete,
    PageDown,
    PageUp,
    F3,
    F4,
    Left,
    Right,
    Up,
    Down,
    /// Any other key, and no key at all.
    Other,
}

/// How an entry goes on after a key.
#[derive(Clone, Copy, Debug, PartialEq, Eq, Structural)]
pub enum LineStep {
    /// The entry goes on.
    Continue,
    /// The entry is over and the buffer is what was entered.
    Accept,
    /// The entry is over and nothing was entered.
    Cancel,
}

/// The backspace character.
pub open spec fn backspace() -> char {
    '\u{8}'
}

/// The escape character.
pub open spec fn escape() -> char {
    '\u{1b}'
}

/// The buffer without its last character, if it has one.
pub open spec fn erased(buf: Seq<char>) -> Seq<char> {
    if buf.len() > 0 {
        buf.drop_last()
    } else {
        buf
    }
}

/// The buffer of a chord entry after a key: a visible character is
/// appended, backspace takes the last character away, and any other key
/// leaves the buffer as it is.
pub open spec fn chord_buffer_after(buf: Seq<char>, key: Key) -> Seq<char> {
    match key {
        Key::Character(c) => if is_graphic(c) {
            buf.push(c)
        } else if c == backspace() {
            erased(buf)
        } else {
            buf
        },
        _ => buf,
    }
}

/// Whether a key ends a chord entry: every key does but a visible character
/// and backspace.
pub open spec fn chord_entry_ends(key: Key) -> bool {
    match key {
        Key::Character(c) => !is_graphic(c) && c != backspace(),
        _ => true,
    }
}

impl StateView {
    /// The session after a key of a chord entry: a space moves the cursor one
    /// slot forward, a tab moves it to the next bar, and any other key leaves
    /// the session as it is.
    pub open spec fn after_chord_key(self, key: Key) -> StateView {
        match key {
            Key::Character(c) => if c == ' ' {
                self.next_subdivision()
            } else if c == '\t' {
                self.next_or_create_bar()
            } else {
                self
            },
            _ => self,
        }
    }
}

/// The buffer of a line entry after a key: a visible character or a space
/// is appended, backspace takes the last character away, and any other key
/// leaves the buffer as it is.
pub open spec fn line_buffer_after(buf: Seq<char>, key: Key) -> Seq<char> {
    match key {
        Key::Character(c) => if is_graphic(c) || c == ' ' {
            buf.push(c)
        } else if c == backspace() {
            erased(buf)
        } else {
            buf
        },
        _ => buf,
    }
}

/// How a line entry goes on after a key: escape, and a key that stands for
/// no character, cancel it; a visible character, a space, backspace and tab
/// let it go on; any other character ends it.
pub open spec fn line_step(key: Key) -> LineStep {
    match key {
        Key::Character(c) => if is_graphic(c) || c == ' ' || c == backspace() || c == '\t' {
            LineStep::Continue
        } else if c == escape() {
            LineStep::Cancel
        } else {
            LineStep::Accept
        },
        _ => LineStep::Cancel,
    }
}

/// What a command line that holds the one letter of a command becomes when a
/// space is typed: `t`, `q`, `s`, `e`, `p` and `n` are written out. To any
/// other buffer the space is appended, unless the buffer is empty.
pub open spec fn expanded(buf: Seq<char>) -> Seq<char> {
    if is1(buf, 't') {
        "title "@
    } else if is1(buf, 'q') {
        "quit"@
    } else if is1(buf, 's') {
        "save "@
    } else if is1(buf, 'e') {
        "edit "@
    } else if is1(buf, 'p') {
        "print"@
    } else if is1(buf, 'n') {
        "new"@
    } else if buf.len() == 0 {
        buf
    } else {
        buf.push(' ')
    }
}

/// The buffer of a command line after a key: a visible character is
/// appended, backspace takes the last character away, a space expands the
/// buffer as [`expanded`] says, and any other key leaves it as it is.
pub open spec fn command_buffer_after(buf: Seq<char>, key: Key) -> Seq<char> {
    match key {
        Key::Character(c) => if is_graphic(c) {
            buf.push(c)
        } else if c == backspace() {
            erased(buf)
        } else if c == ' ' {
            expanded(buf)
        } else {
            buf
        },
        _ => buf,
    }
}

/// Whether a key ends a command line: every key does but a visible
/// character, backspace, space and tab.
pub open spec fn command_line_ends(key: Key) -> bool {
    match key {
        Key::Character(c) => !is_graphic(c) && c != backspace() && c != ' ' && c != '\t',
        _ => true,
    }
}

/// The answer that a key gives to a question with the answers `allowable`:
/// the key's character where it is one of them, no answer for a key that
/// stands for no character, and nothing yet, `None`, for any other character.
pub open spec fn answer(allowable: Seq<char>, key: Key) -> Option<Option<char>> {
    match key {
        Key::Character(c) => if allowable.contains(c) {
            Some(Some(c))
        } else {
            None
        },
        _ => Some(None),
    }
}

/// A yes-or-no question as it is shown: the message and then ` (y/n)`.
pub open spec fn yes_no_text(message: Seq<char>) -> Seq<char> {
    message + " (y/n)"@
}

/// Takes one key of a line entry.
pub fn prompt_line(buf: &mut String, key: Key) -> (step: LineStep)
    ensures
        final(buf)@ == line_buffer_after(old(buf)@, key),
        step == line_step(key),
{
    match key {
        Key::Character(c) => {
            if graphic(c) || c == ' ' {
                buf.push(c);
                LineStep::Continue
            } else if c == '\u{8}' {
                buf.pop();
                LineStep::Continue
            } else if c == '\u{1b}' {
                LineStep::Cancel
            } else if c == '\t' {
                LineStep::Continue
            } else {
                LineStep::Accept
            }
        },
        _ => LineStep::Cancel,
    }
}

/// Takes one key of a question with the answers `allowable`.
pub fn prompt_char(allowable: &Vec<char>, key: Key) -> (r: Option<Option<char>>)
    ensures
        r == answer(allowable@, key),
{
    match key {
        Key::Character(c) => {
            let mut i: usize = 0;
            while i < allowable.len()
                invariant
                    i <= allowable.len(),
                    key == Key::Character(c),
                    forall|j: int| 0 <= j < i ==> allowable@[j] != c,
                decreases allowable.len() - i,
            {
                if allowable[i] == c {
                    assert(allowable@[i as int] == c);
                    return Some(Some(c));
                }
                i = i + 1;
            }
            None
        },
        _ => Some(None),
    }
}

/// The text of a yes-or-no question.
pub fn prompt_bool_message(message: &str) -> (text: String)
    ensures
        text@ == yes_no_text(message@),
{
    let mut text = String::from_str(message);
    text.append(" (y/n)");
    text
}

/// The answers to a yes-or-no question: `y` and `n`.
pub fn prompt_bool_answers() -> (allowable: Vec<char>)
    ensures
        allowable@ == seq!['y', 'n'],
{
    let mut allowable: Vec<char> = Vec::new();
    allowable.push('y');
    allowable.push('n');
    assert(allowable@ =~= seq!['y', 'n']);
    allowable
}

/// Whether the answer to a yes-or-no question is yes.
pub fn prompt_bool(response: Option<char>) -> (yes: bool)
    ensures
        yes == (response == Some('y')),
{
    match response {
        Some(c) => c == 'y',
        None => false,
    }
}

/// Takes one key of a command line. Answers whether the key ended the line.
pub fn command_key(buf: &mut String, key: Key) -> (finished: bool)
    ensures
        final(buf)@ == command_buffer_after(old(buf)@, key),
        finished == command_line_ends(key),
{
    match key {
        Key::Character(c) => {
            if graphic(c) {
                buf.push(c);
                false
            } else if c == '\u{8}' {
                buf.pop();
                false
            } else if c == ' ' {
                let n = buf.as_str().unicode_len();
                if n == 1 {
                    let letter = buf.as_str().get_char(0);
                    if letter == 't' {
                        *buf = String::from_str("title ");
                    } else if letter == 'q' {
                        *buf = String::from_str("quit");
                    } else if letter == 's' {
                        *buf = String::from_str("save ");
                    } else if letter == 'e' {
                        *buf = String::from_str("edit ");
                    } else if letter == 'p' {
                        *buf = String::from_str("print");
                    } else if letter == 'n' {
                        *buf = String::from_str("new");
                    } else {
                        buf.push(' ');
                    }
                } else if n != 0 {
                    buf.push(' ');
                }
                false
            } else if c == '\t' {
                false
            } else {
                true
            }
        },
        _ => true,
    }
}

impl State {
    /// Takes one key of a chord entry. Answers whether the key ended the
    /// entry; a space or a tab that ends it moves the cursor on.
    pub fn chord_input(&mut self, buf: &mut String, key: Key) -> (finished: bool)
        requires
            old(self).wf(),
            old(self)@.on_bar_or_end(),
            key == Key::Character(' ') ==> old(self).cursor.subdivision < usize::MAX,
        ensures
            final(buf)@ == chord_buffer_after(old(buf)@, key),
            finished == chord_entry_ends(key),
            final(self)@ == old(self)@.after_chord_key(key),
            final(self).wf(),
            final(self)@.on_bar_or_end(),
            old(self)@.on_bar() ==> final(self)@.on_bar(),
            old(self)@.on_slot() ==> final(self)@.on_slot(),
    {
        match key {
            Key::Character(c) => {
                if graphic(c) {
                    buf.push(c);
                    false
                } else if c == ' ' {
                    self.next_subdivision();
                    true
                } else if c == '\t' {
                    self.next_or_create_bar();
                    true
                } else if c == '\u{8}' {
                    buf.pop();
                    false
                } else {
                    true
                }
            },
            _ => true,
        }
    }
}

} // verus!
