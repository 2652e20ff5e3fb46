//! Chord symbols: notes, accidentals, qualities, and how a chord is written.

use vstd::prelude::*;
use vstd::string::*;

verus! {

/// A note letter.
#[derive(Clone, Copy, Debug, PartialEq, Eq, Structural)]
pub enum Note {
    A,
    B,
    C,
    D,
    E,
    F,
    G,
}

/// The note that a character names, in either case, if it names one.
pub open spec fn note_of(c: char) -> Option<Note> {
    if c == 'A' || c == 'a' {
        Some(Note::A)
    } else if c == 'B' || c == 'b' {
        Some(Note::B)
    } else if c == 'C' || c == 'c' {
        Some(Note::C)
    } else if c == 'D' || c == 'd' {
        Some(Note::D)
    } else if c == 'E' || c == 'e' {
        Some(Note::E)
    } else if c == 'F' || c == 'f' {
        Some(Note::F)
    } else if c == 'G' || c == 'g' {
        Some(Note::G)
    } else {
        None
    }
}

impl Note {
    /// The upper-case letter that names this note.
    pub open spec fn letter(self) -> char {
        match self {
            Note::A => 'A',
            Note::B => 'B',
            Note::C => 'C',
            Note::D => 'D',
            Note::E => 'E',
            Note::F => 'F',
            Note::G => 'G',
        }
    }

    /// How the note is written: its letter alone.
    pub open spec fn text(self) -> Seq<char> {
        seq![self.letter()]
    }

    /// Reads a note from its letter, upper or lower case.
    pub fn try_from(value: char) -> (r: Result<Note, ()>)
        ensures
            r == match note_of(value) {
                Some(n) => Ok::<Note, ()>(n),
                None => Err::<Note, ()>(()),
            },
    {
        match value {
            'A' | 'a' => Ok(Note::A),
            'B' | 'b' => Ok(Note::B),
            'C' | 'c' => Ok(Note::C),
            'D' | 'd' => Ok(Note::D),
            'E' | 'e' => Ok(Note::E),
            'F' | 'f' => Ok(Note::F),
            'G' | 'g' => Ok(Note::G),
            _ => Err(()),
        }
    }

    /// The upper-case letter that names this note.
    pub fn as_char(&self) -> (c: char)
        ensures
            c == self.letter(),
    {
        match self {
            Note::A => 'A',
            Note::B => 'B',
            Note::C => 'C',
            Note::D => 'D',
            Note::E => 'E',
            Note::F => 'F',
            Note::G => 'G',
        }
    }

    /// The note's letter as a string slice.
    pub fn as_str(&self) -> (s: &'static str)
        ensures
            s@ == self.text(),
    {
        proof {
            reveal_strlit("A");
            reveal_strlit("B");
            reveal_strlit("C");
            reveal_strlit("D");
            reveal_strlit("E");
            reveal_strlit("F");
            reveal_strlit("G");
        }
        let s = match self {
            Note::A => "A",
            Note::B => "B",
            Note::C => "C",
            Note::D => "D",
            Note::E => "E",
            Note::F => "F",
            Note::G => "G",
        };
        assert(s@ =~= self.text());
        s
    }

    /// The note written out.
    pub fn to_string(&self) -> (s: String)
        ensures
            s@ == self.text(),
    {
        String::from_str(self.as_str())
    }
}

/// Whether a note is raised, lowered, or left as it is.
#[derive(Clone, Copy, Debug, PartialEq, Eq, Structural)]
pub enum Accidental {
    Natural,
    Sharp,
    Flat,
}

impl Accidental {
    /// How the accidental is written: nothing, `#` or `b`.
    pub open spec fn text(self) -> Seq<char> {
        match self {
            Accidental::Natural => Seq::<char>::empty(),
            Accidental::Sharp => seq!['#'],
            Accidental::Flat => seq!['b'],
        }
    }

    /// The accidental's symbol as a string slice.
    pub fn as_str(&self) -> (s: &'static str)
        ensures
            s@ == self.text(),
    {
        proof {
            reveal_strlit("");
            reveal_strlit("#");
            reveal_strlit("b");
        }
        let s = match self {
            Accidental::Natural => "",
            Accidental::Sharp => "#",
            Accidental::Flat => "b",
        };
        assert(s@ =~= self.text());
        s
    }

    /// The accidental written out.
    pub fn to_string(&self) -> (s: String)
        ensures
            s@ == self.text(),
    {
        String::from_str(self.as_str())
    }
}

/// The harmonic type of a chord.
#[derive(Clone, Copy, Debug, PartialEq, Eq, Structural)]
pub enum Quality {
    Maj,
    Min,
    Dom7,
    Maj7,
    Min7,
    Dim,
    Dim7,
    HalfDim,
    Aug,
    Dom9,
    Maj9,
    Min9,
    Flat9,
    Sharp9,
    Maj11,
    Sharp11,
    Dom13,
    Maj13,
    Flat13,
    Sus,
    Sus4,
    Sus2,
    Maj6,
    Min6,
}

impl Quality {
    /// The abbreviation by which the quality is written after the note.
    pub open spec fn text(self) -> Seq<char> {
        match self {
            Quality::Maj => Seq::<char>::empty(),
            Quality::Min => seq!['-'],
            Quality::Dom7 => seq!['7'],
            Quality::Maj7 => seq!['^'],
            Quality::Min7 => seq!['-', '7'],
            Quality::Dim => seq!['o'],
            Quality::Dim7 => seq!['o', '7'],
            Quality::HalfDim => seq!['m', '7', 'b', '5'],
            Quality::Aug => seq!['+'],
            Quality::Dom9 => seq!['9'],
            Quality::Maj9 => seq!['^', '9'],
            Quality::Min9 => seq!['-', '9'],
            Quality::Flat9 => seq!['b', '9'],
            Quality::Sharp9 => seq!['#', '9'],
            Quality::Maj11 => seq!['^', '1', '1'],
            Quality::Sharp11 => seq!['#', '1', '1'],
            Quality::Dom13 => seq!['1', '3'],
            Quality::Maj13 => seq!['^', '1', '3'],
            Quality::Flat13 => seq!['b', '1', '3'],
            Quality::Sus => seq!['s', 'u', 's'],
            Quality::Sus4 => seq!['s', 'u', 's', '4'],
            Quality::Sus2 => seq!['s', 'u', 's', '2'],
            Quality::Maj6 => seq!['6'],
            Quality::Min6 => seq!['m', '6'],
        }
    }

    /// The quality's abbreviation as a string slice.
    pub fn as_str(&self) -> (s: &'static str)
        ensures
            s@ == self.text(),
    {
        proof {
            reveal_strlit("");
            reveal_strlit("-");
            reveal_strlit("7");
            reveal_strlit("^");
            reveal_strlit("-7");
            reveal_strlit("o");
            reveal_strlit("o7");
            reveal_strlit("m7b5");
            reveal_strlit("+");
            reveal_strlit("9");
            reveal_strlit("^9");
            reveal_strlit("-9");
            reveal_strlit("b9");
            reveal_strlit("#9");
            reveal_strlit("^11");
            reveal_strlit("#11");
            reveal_strlit("13");
            reveal_strlit("^13");
            reveal_strlit("b13");
            reveal_strlit("sus");
            reveal_strlit("sus4");
            reveal_strlit("sus2");
            reveal_strlit("6");
            reveal_strlit("m6");
        }
        let s = match self {
            Quality::Maj => "",
            Quality::Min => "-",
            Quality::Dom7 => "7",
            Quality::Maj7 => "^",
            Quality::Min7 => "-7",
            Quality::Dim => "o",
            Quality::Dim7 => "o7",
            Quality::HalfDim => "m7b5",
            Quality::Aug => "+",
            Quality::Dom9 => "9",
            Quality::Maj9 => "^9",
            Quality::Min9 => "-9",
            Quality::Flat9 => "b9",
            Quality::Sharp9 => "#9",
            Quality::Maj11 => "^11",
            Quality::Sharp11 => "#11",
            Quality::Dom13 => "13",
            Quality::Maj13 => "^13",
            Quality::Flat13 => "b13",
            Quality::Sus => "sus",
            Quality::Sus4 => "sus4",
            Quality::Sus2 => "sus2",
            Quality::Maj6 => "6",
            Quality::Min6 => "m6",
        };
        assert(s@ =~= self.text());
        s
    }

    /// The quality written out.
    pub fn to_string(&self) -> (s: String)
        ensures
            s@ == self.text(),
    {
        String::from_str(self.as_str())
    }
}

/// A chord symbol: a root note with its accidental and quality, an optional
/// bass note, and two flags that mark the chord for the reader.
#[derive(Clone, Copy, Debug, PartialEq, Eq, Structural)]
pub struct Chord {
    pub note: Note,
    pub accidental: Accidental,
    pub quality: Quality,
    pub bass: Option<Note>,
    pub special: bool,
    pub question: bool,
}

/// How an optional bass note is written: a slash and the note, or nothing.
pub open spec fn bass_text(bass: Option<Note>) -> Seq<char> {
    match bass {
        Some(n) => seq!['/', n.letter()],
        None => Seq::<char>::empty(),
    }
}

/// How a flag is written: its mark when set, nothing otherwise.
pub open spec fn flag_text(set: bool, mark: char) -> Seq<char> {
    if set {
        seq![mark]
    } else {
        Seq::<char>::empty()
    }
}

impl Chord {
    /// How the chord is written: note, accidental, quality, then `/` and the
    /// bass note if there is one, `!` if special, `?` if in question.
    pub open spec fn text(self) -> Seq<char> {
        self.note.text() + self.accidental.text() + self.quality.text() + bass_text(self.bass)
            + flag_text(self.special, '!') + flag_text(self.question, '?')
    }

    /// The chord with its question flag flipped.
    pub open spec fn with_question_toggled(self) -> Chord {
        Chord { question: !self.question, ..self }
    }

    /// The chord with its special flag flipped.
    pub open spec fn with_special_toggled(self) -> Chord {
        Chord { special: !self.special, ..self }
    }

    /// Flips the question flag and leaves the rest of the chord alone.
    pub fn toggle_question(&mut self)
        ensures
            *final(self) == old(self).with_question_toggled(),
    {
        self.question = !self.question;
    }

    /// Flips the special flag and leaves the rest of the chord alone.
    pub fn toggle_special(&mut self)
        ensures
            *final(self) == old(self).with_special_toggled(),
    {
        self.special = !self.special;
    }

    /// The chord written out.
    pub fn to_string(&self) -> (s: String)
        ensures
            s@ == self.text(),
    {
        proof {
            reveal_strlit("/");
            reveal_strlit("!");
            reveal_strlit("?");
        }
        let mut s = String::from_str(self.note.as_str());
        s.append(self.accidental.as_str());
        s.append(self.quality.as_str());
        match self.bass {
            Some(n) => {
                s.append("/");
                s.append(n.as_str());
                assert(s@ =~= self.note.text() + self.accidental.text() + self.quality.text()
                    + bass_text(self.bass));
            },
            None => {
                assert(s@ =~= self.note.text() + self.accidental.text() + self.quality.text()
                    + bass_text(self.bass));
            },
        }
        if self.special {
            s.append("!");
        }
        assert(s@ =~= self.note.text() + self.accidental.text() + self.quality.text() + bass_text(
            self.bass,
        ) + flag_text(self.special, '!'));
        if self.question {
            s.append("?");
        }
        assert(s@ =~= self.text());
        s
    }
}

} // verus!
