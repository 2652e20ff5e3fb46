//! The command line: what a line of command text asks for, and what the
//! session does about it.
//!
//! A command is its first word; the words after it are its argument. The
//! commands are `title`, `quit`, `save`, `edit`, `print` and `new`, with the
//! short forms `q`, `s`, `p` and `n`. Any other line asks for nothing.

use vstd::prelude::*;
use vstd::string::*;
use crate::text::chars_of;
use crate::song::{Song, SongView};
use crate::state::{CursorPos, CursorView, State, StateView, ToastView};

verus! {

/// A blank of ASCII: space, tab, line feed, form feed or carriage return.
pub open spec fn is_blank(c: char) -> bool {
    c == ' ' || c == '\t' || c == '\n' || c == '\u{c}' || c == '\r'
}

/// The words of a text: its longest runs of characters that are not blanks,
/// in their order.
///
/// Read from the left: a blank adds nothing, a character that follows a
/// character of a word goes on with that word, and any other character
/// begins a new word.
pub open spec fn words(s: Seq<char>) -> Seq<Seq<char>>
    decreases s.len(),
{
    if s.len() == 0 {
        Seq::empty()
    } else {
        let before = words(s.drop_last());
        let c = s.last();
        if is_blank(c) {
            before
        } else if s.len() >= 2 && !is_blank(s[s.len() - 2]) {
            before.drop_last().push(before.last().push(c))
        } else {
            before.push(seq![c])
        }
    }
}

/// No word of a text is empty, no word holds a blank, and a text that ends
/// in a character that is no blank ends in its last word.
pub proof fn lemma_words_hold_no_blank(s: Seq<char>)
    ensures
        forall|i: int| 0 <= i < words(s).len() ==> (#[trigger] words(s)[i]).len() > 0,
        forall|i: int, j: int|
            0 <= i < words(s).len() && 0 <= j < words(s)[i].len() ==> !is_blank(
                #[trigger] words(s)[i][j],
            ),
        s.len() > 0 && !is_blank(s.last()) ==> words(s).len() > 0,
    decreases s.len(),
{
    if s.len() > 0 {
        lemma_words_hold_no_blank(s.drop_last());
        let before = words(s.drop_last());
        let c = s.last();
        if !is_blank(c) && s.len() >= 2 && !is_blank(s[s.len() - 2]) {
            assert(s.drop_last().last() == s[s.len() - 2]);
            let grown = before.last().push(c);
            assert forall|i: int, j: int|
                0 <= i < words(s).len() && 0 <= j < words(s)[i].len() implies !is_blank(
                #[trigger] words(s)[i][j],
            ) by {
                if i < words(s).len() - 1 {
                    assert(words(s)[i] == before[i]);
                } else if j < before.last().len() {
                    assert(words(s)[i][j] == before.last()[j]);
                }
            }
            assert forall|i: int| 0 <= i < words(s).len() implies (#[trigger] words(s)[i]).len()
                > 0 by {
                if i < words(s).len() - 1 {
                    assert(words(s)[i] == before[i]);
                }
            }
        } else if !is_blank(c) {
            assert forall|i: int, j: int|
                0 <= i < words(s).len() && 0 <= j < words(s)[i].len() implies !is_blank(
                #[trigger] words(s)[i][j],
            ) by {
                if i < before.len() {
                    assert(words(s)[i] == before[i]);
                }
            }
            assert forall|i: int| 0 <= i < words(s).len() implies (#[trigger] words(s)[i]).len()
                > 0 by {
                if i < before.len() {
                    assert(words(s)[i] == before[i]);
                }
            }
        }
    }
}

/// A text without blanks is one word, unless it is empty.
pub proof fn lemma_one_word(s: Seq<char>)
    requires
        s.len() > 0,
        forall|i: int| 0 <= i < s.len() ==> !is_blank(s[i]),
    ensures
        words(s) == seq![s],
    decreases s.len(),
{
    if s.len() == 1 {
        assert(words(s.drop_last()) =~= Seq::<Seq<char>>::empty());
        assert(seq![s.last()] =~= s);
        assert(words(s) =~= seq![s]);
    } else {
        lemma_one_word(s.drop_last());
        assert(s.drop_last().push(s.last()) =~= s);
        assert(words(s) =~= seq![s]);
    }
}

/// Words put together again with one space between them.
pub open spec fn joined(w: Seq<Seq<char>>) -> Seq<char>
    decreases w.len(),
{
    if w.len() == 0 {
        Seq::empty()
    } else if w.len() == 1 {
        w[0]
    } else {
        joined(w.drop_last()) + seq![' '] + w.last()
    }
}

/// The texts of a sequence of strings.
pub open spec fn texts(v: Seq<String>) -> Seq<Seq<char>> {
    Seq::new(v.len(), |i: int| v[i]@)
}

/// The text of a string that may be missing.
pub open spec fn text_of(s: Option<String>) -> Option<Seq<char>> {
    match s {
        Some(s) => Some(s@),
        None => None,
    }
}

/// What a command is.
pub enum CommandView {
    Title(Seq<char>),
    Quit,
    Save(Option<Seq<char>>),
    Edit(Option<Seq<char>>),
    Print,
    New,
    Nothing,
}

/// What a line of command text asks for.
#[derive(Debug, PartialEq, Eq)]
pub enum Command {
    /// Give the song this title.
    Title(String),
    /// End the session.
    Quit,
    /// Save the song, to the file named if one is.
    Save(Option<String>),
    /// Open the song in the file named, if one is.
    Edit(Option<String>),
    /// Print the song.
    Print,
    /// Start a new song.
    New,
    /// No command.
    Nothing,
}

impl View for Command {
    type V = CommandView;

    open spec fn view(&self) -> CommandView {
        match self {
            Command::Title(t) => CommandView::Title(t@),
            Command::Quit => CommandView::Quit,
            Command::Save(name) => CommandView::Save(text_of(*name)),
            Command::Edit(name) => CommandView::Edit(text_of(*name)),
            Command::Print => CommandView::Print,
            Command::New => CommandView::New,
            Command::Nothing => CommandView::Nothing,
        }
    }
}

/// The second of a sequence of words, if there is one.
pub open spec fn argument(w: Seq<Seq<char>>) -> Option<Seq<char>> {
    if w.len() >= 2 {
        Some(w[1])
    } else {
        None
    }
}

/// The command that a sequence of words is.
///
/// `title` is a command only with an argument, and its argument is all the
/// words after it, with one space between them. `save` and `edit` take the
/// first word after them, if there is one.
pub open spec fn command_of_words(w: Seq<Seq<char>>) -> CommandView {
    if w.len() == 0 {
        CommandView::Nothing
    } else if w[0] == "title"@ && w.len() >= 2 {
        CommandView::Title(joined(w.skip(1)))
    } else if w[0] == "quit"@ || w[0] == "q"@ {
        CommandView::Quit
    } else if w[0] == "save"@ || w[0] == "s"@ {
        CommandView::Save(argument(w))
    } else if w[0] == "edit"@ {
        CommandView::Edit(argument(w))
    } else if w[0] == "print"@ || w[0] == "p"@ {
        CommandView::Print
    } else if w[0] == "new"@ || w[0] == "n"@ {
        CommandView::New
    } else {
        CommandView::Nothing
    }
}

/// The command that a line of text is.
pub open spec fn command_of(line: Seq<char>) -> CommandView {
    command_of_words(words(line))
}

/// What is left for the caller to do after a command.
pub enum RequestView {
    Nothing,
    Save(Seq<char>),
    AskFilename,
    Load(Seq<char>),
    Print,
    ConfirmNew,
}

/// What is left for the caller to do after a command.
#[derive(Debug, PartialEq, Eq)]
pub enum Request {
    /// Nothing.
    Nothing,
    /// Write the song to this file.
    Save(String),
    /// Ask for the name of the file to save to, and hand it to
    /// [`State::save_as`].
    AskFilename,
    /// Read a song from this file, and hand it to [`State::load_from_disk`].
    Load(String),
    /// Print the song.
    Print,
    /// Ask whether the song is to be cleared, and call [`State::reset`] if
    /// it is.
    ConfirmNew,
}

impl View for Request {
    type V = RequestView;

    open spec fn view(&self) -> RequestView {
        match self {
            Request::Nothing => RequestView::Nothing,
            Request::Save(name) => RequestView::Save(name@),
            Request::AskFilename => RequestView::AskFilename,
            Request::Load(name) => RequestView::Load(name@),
            Request::Print => RequestView::Print,
            Request::ConfirmNew => RequestView::ConfirmNew,
        }
    }
}

/// The message that tells the new title.
pub open spec fn title_text(title: Seq<char>) -> Seq<char> {
    "Set title to '"@ + title + "'."@
}

/// The message that tells where the song was saved.
pub open spec fn saved_text(name: Seq<char>) -> Seq<char> {
    "Saved to "@ + name
}

impl StateView {
    /// The session once a command line is opened: no message on show.
    pub open spec fn begin_command_line(self) -> StateView {
        StateView { toast: ToastView { ticks: 0, ..self.toast }, ..self }
    }

    /// The session after a command.
    ///
    /// A title is given to the song and told in a message, and the screen is
    /// to be cleared. Quitting ends the session. Saving under a name binds
    /// the name to the session; saving under a name, or under the name that is
    /// bound, is told in a message. Nothing else changes the session.
    pub open spec fn after_command(self, command: CommandView) -> StateView {
        match command {
            CommandView::Title(title) => (StateView {
                song: self.song.with_title(title),
                should_clear: true,
                ..self
            }).with_toast(title_text(title)),
            CommandView::Quit => StateView { should_quit: true, ..self },
            CommandView::Save(Some(name)) => (StateView { filename: Some(name), ..self }).with_toast(
                saved_text(name),
            ),
            CommandView::Save(None) => match self.filename {
                Some(name) => self.with_toast(saved_text(name)),
                None => self,
            },
            _ => self,
        }
    }

    /// What a command leaves for the caller to do.
    pub open spec fn request_of(self, command: CommandView) -> RequestView {
        match command {
            CommandView::Save(Some(name)) => RequestView::Save(name),
            CommandView::Save(None) => match self.filename {
                Some(name) => RequestView::Save(name),
                None => RequestView::AskFilename,
            },
            CommandView::Edit(Some(name)) => RequestView::Load(name),
            CommandView::Print => RequestView::Print,
            CommandView::New => RequestView::ConfirmNew,
            _ => RequestView::Nothing,
        }
    }

    /// The session after the name of the file to save to was asked for: an
    /// empty name is refused in a message, and nothing else changes.
    pub open spec fn after_save_as(self, name: Option<Seq<char>>) -> StateView {
        match name {
            Some(name) => if name.len() == 0 {
                self.with_toast("need a file name to save"@)
            } else {
                self
            },
            None => self,
        }
    }

    /// The session on a song that was read from the file `name`.
    pub open spec fn loaded(self, song: SongView, name: Seq<char>) -> StateView {
        StateView { song, filename: Some(name), ..self }
    }

    /// The session on a fresh song, the cursor on its first slot, bound to no
    /// file.
    pub open spec fn reset(self) -> StateView {
        StateView {
            song: SongView::fresh(),
            cursor: CursorView::origin(),
            filename: None,
            ..self
        }
    }
}

/// Whether `c` is a blank of ASCII.
pub fn blank(c: char) -> (r: bool)
    ensures
        r == is_blank(c),
{
    c == ' ' || c == '\t' || c == '\n' || c == '\u{c}' || c == '\r'
}

/// Splits a text into its words.
pub fn split_words(s: &str) -> (out: Vec<String>)
    ensures
        texts(out@) == words(s@),
{
    let v = chars_of(s);
    let mut out: Vec<String> = Vec::new();
    let mut i: usize = 0;
    assert(v@.take(0) =~= Seq::<char>::empty());
    assert(texts(out@) =~= words(v@.take(0)));
    while i < v.len()
        invariant
            i <= v.len(),
            texts(out@) == words(v@.take(i as int)),
            i > 0 && !is_blank(v@[i - 1]) ==> out.len() > 0,
        decreases v.len() - i,
    {
        let c = v[i];
        let ghost upto = v@.take(i + 1);
        assert(upto.drop_last() =~= v@.take(i as int));
        assert(upto.last() == c);
        if blank(c) {
        } else if i >= 1 && !blank(v[i - 1]) {
            assert(upto[upto.len() - 2] == v@[i - 1]);
            let n = out.len();
            let ghost before = out@;
            out[n - 1].push(c);
            assert(texts(out@) =~= texts(before).drop_last().push(texts(before).last().push(c)));
        } else {
            assert(upto.len() >= 2 ==> upto[upto.len() - 2] == v@[i - 1]);
            let ghost before = out@;
            let mut word = String::new();
            word.push(c);
            out.push(word);
            assert(word@ =~= seq![c]);
            assert(texts(out@) =~= texts(before).push(seq![c]));
        }
        i = i + 1;
    }
    assert(v@.take(i as int) =~= v@);
    out
}

/// Puts the words from index `from` on together, with one space between them.
pub fn join_words(w: &Vec<String>, from: usize) -> (out: String)
    requires
        from <= w.len(),
    ensures
        out@ == joined(texts(w@).skip(from as int)),
{
    let ghost rest = texts(w@).skip(from as int);
    let mut out = String::new();
    let mut i: usize = from;
    assert(rest.take(0) =~= Seq::<Seq<char>>::empty());
    while i < w.len()
        invariant
            from <= i <= w.len(),
            rest == texts(w@).skip(from as int),
            out@ == joined(rest.take(i - from)),
        decreases w.len() - i,
    {
        let ghost upto = rest.take(i - from + 1);
        assert(upto.drop_last() =~= rest.take(i - from));
        assert(upto.last() == w@[i as int]@);
        if i > from {
            out.append(" ");
            proof {
                reveal_strlit(" ");
                assert(" "@ =~= seq![' ']);
            }
        }
        out.append(w[i].as_str());
        assert(out@ =~= joined(upto)) by {
            if i == from {
                assert(upto.len() == 1);
                assert(joined(rest.take(0)) =~= Seq::<char>::empty());
            }
        }
        i = i + 1;
    }
    assert(rest.take(w.len() - from) =~= rest);
    out
}

fn is_word(w: &String, word: &str) -> (r: bool)
    ensures
        r == (w@ == word@),
{
    *w == String::from_str(word)
}

fn word_at(w: &Vec<String>, i: usize) -> (r: Option<String>)
    ensures
        text_of(r) == (if i < w.len() {
            Some(texts(w@)[i as int])
        } else {
            None
        }),
{
    if i < w.len() {
        Some(w[i].clone())
    } else {
        None
    }
}

impl Command {
    /// Reads a line of command text.
    pub fn parse(line: &str) -> (command: Command)
        ensures
            command@ == command_of(line@),
    {
        let w = split_words(line);
        if w.len() == 0 {
            return Command::Nothing;
        }
        assert(texts(w@)[0] == w@[0]@);
        assert(argument(texts(w@)) == (if 1 < w.len() {
            Some(texts(w@)[1])
        } else {
            None
        }));
        if is_word(&w[0], "title") && w.len() >= 2 {
            Command::Title(join_words(&w, 1))
        } else if is_word(&w[0], "quit") || is_word(&w[0], "q") {
            Command::Quit
        } else if is_word(&w[0], "save") || is_word(&w[0], "s") {
            Command::Save(word_at(&w, 1))
        } else if is_word(&w[0], "edit") {
            Command::Edit(word_at(&w, 1))
        } else if is_word(&w[0], "print") || is_word(&w[0], "p") {
            Command::Print
        } else if is_word(&w[0], "new") || is_word(&w[0], "n") {
            Command::New
        } else {
            Command::Nothing
        }
    }
}

impl State {
    /// Opens the command line: takes the message off the screen.
    pub fn begin_command_line(&mut self)
        ensures
            final(self)@ == old(self)@.begin_command_line(),
    {
        self.toast.ticks = 0;
    }

    /// Carries out a command, as far as the session is concerned, and
    /// answers what is left for the caller to do.
    pub fn apply_command(&mut self, command: Command) -> (request: Request)
        ensures
            final(self)@ == old(self)@.after_command(command@),
            request@ == old(self)@.request_of(command@),
    {
        match command {
            Command::Title(title) => {
                let mut message = String::from_str("Set title to '");
                message.append(title.as_str());
                message.append("'.");
                self.song.title = title;
                self.schedule_clear();
                self.toast(message.as_str());
                Request::Nothing
            },
            Command::Quit => {
                self.quit();
                Request::Nothing
            },
            Command::Save(Some(name)) => {
                let mut message = String::from_str("Saved to ");
                message.append(name.as_str());
                self.filename = Some(name.clone());
                self.toast(message.as_str());
                Request::Save(name)
            },
            Command::Save(None) => {
                let bound = match &self.filename {
                    Some(name) => Some(name.clone()),
                    None => None,
                };
                match bound {
                    Some(name) => {
                        let mut message = String::from_str("Saved to ");
                        message.append(name.as_str());
                        self.toast(message.as_str());
                        Request::Save(name)
                    },
                    None => Request::AskFilename,
                }
            },
            Command::Edit(Some(name)) => Request::Load(name),
            Command::Edit(None) => Request::Nothing,
            Command::Print => Request::Print,
            Command::New => Request::ConfirmNew,
            Command::Nothing => Request::Nothing,
        }
    }

    /// Reads a line of command text and carries the command out.
    pub fn do_command_line(&mut self, line: &str) -> (request: Request)
        ensures
            final(self)@ == old(self)@.after_command(command_of(line@)),
            request@ == old(self)@.request_of(command_of(line@)),
    {
        let command = Command::parse(line);
        self.apply_command(command)
    }

    /// Takes the name that was asked for after `save`: an empty name is
    /// refused in a message, any other name is the file to write the song to,
    /// and without a name nothing is done.
    pub fn save_as(&mut self, name: Option<String>) -> (request: Request)
        ensures
            final(self)@ == old(self)@.after_save_as(text_of(name)),
            request@ == (match name {
                Some(name) => if name@.len() == 0 {
                    RequestView::Nothing
                } else {
                    RequestView::Save(name@)
                },
                None => RequestView::Nothing,
            }),
    {
        match name {
            Some(name) => {
                if name.as_str().unicode_len() == 0 {
                    self.toast("need a file name to save");
                    Request::Nothing
                } else {
                    Request::Save(name)
                }
            },
            None => Request::Nothing,
        }
    }

    /// Takes a song that was read from the file `name` in place of the
    /// session's song, and binds the name to the session.
    pub fn load_from_disk(&mut self, song: Song, name: String)
        ensures
            final(self)@ == old(self)@.loaded(song@, name@),
    {
        self.song = song;
        self.filename = Some(name);
    }

    /// Starts over: a fresh song, the cursor on its first slot, no file.
    pub fn reset(&mut self)
        ensures
            final(self)@ == old(self)@.reset(),
            final(self).wf(),
            final(self)@.on_slot(),
    {
        self.song = Song::new();
        self.cursor = CursorPos::default();
        self.filename = None;
    }
}

} // verus!
