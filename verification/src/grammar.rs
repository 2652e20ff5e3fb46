//! The chord grammar: reading a chord from its written form.
//!
//! A chord is written as a note letter, then optionally an accidental, a
//! quality, a bass note after a slash, `!` and `?`, in that order and without
//! spaces. The quality is what stands between the accidental and the bass
//! note, the flags or the end of the text, and it must be one of the tokens
//! of the table in [`quality_of`]. The text must be read to its end: a text
//! with anything left over is no chord.

use vstd::prelude::*;
use vstd::string::*;
use crate::chord::{bass_text, flag_text, note_of, Accidental, Chord, Note, Quality};
use crate::text::{chars_of, is1, is2};

verus! {

/// The character `a` stands in `s` at position `i`.
pub open spec fn has1(s: Seq<char>, i: int, a: char) -> bool {
    0 <= i < s.len() && s[i] == a
}

/// The accidental written at position `i`, if any.
pub open spec fn accidental_at(s: Seq<char>, i: int) -> Accidental {
    if has1(s, i, '#') {
        Accidental::Sharp
    } else if has1(s, i, 'b') {
        Accidental::Flat
    } else {
        Accidental::Natural
    }
}

/// A character that ends the quality: the slash of the bass note, or one of
/// the two flags.
pub open spec fn ends_quality(c: char) -> bool {
    c == '/' || c == '!' || c == '?'
}

/// Where the quality that begins at position `i` ends: at the first slash
/// or flag from there on, or at the end of the text.
pub open spec fn quality_end(s: Seq<char>, i: int) -> int
    decreases s.len() - i,
{
    if 0 <= i < s.len() && !ends_quality(s[i]) {
        quality_end(s, i + 1)
    } else {
        i
    }
}

/// The table of accepted qualities: the quality that the token `t` names, if
/// it names one.
pub open spec fn quality_of(t: Seq<char>) -> Option<Quality> {
    if t.len() == 0 {
        Some(Quality::Maj)
    } else if is1(t, '-') || is1(t, 'm') {
        Some(Quality::Min)
    } else if is1(t, '7') {
        Some(Quality::Dom7)
    } else if is2(t, '-', '7') || is2(t, 'm', '7') {
        Some(Quality::Min7)
    } else if is1(t, '^') || is2(t, '^', '7') || is2(t, 'M', '7') {
        Some(Quality::Maj7)
    } else if (t.len() == 3 && t[0] == 'd' && t[1] == 'i' && t[2] == 'm') || is1(t, 'o') {
        Some(Quality::Dim)
    } else if (t.len() == 4 && t[0] == 'd' && t[1] == 'i' && t[2] == 'm' && t[3] == '7') || is2(
        t,
        'o',
        '7',
    ) {
        Some(Quality::Dim7)
    } else if is2(t, 'h', 'd') {
        Some(Quality::HalfDim)
    } else if is1(t, '6') {
        Some(Quality::Maj6)
    } else if is2(t, 'm', '6') || is2(t, '-', '6') {
        Some(Quality::Min6)
    } else {
        None
    }
}

/// The bass note written at position `i`: a slash and a note letter, if both
/// are there.
pub open spec fn bass_at(s: Seq<char>, i: int) -> Option<Note> {
    if has1(s, i, '/') && i + 1 < s.len() {
        note_of(s[i + 1])
    } else {
        None
    }
}

/// The chord that `s` is read as, or `None` where `s` is no chord: where it
/// does not begin with a note letter, where its quality is not in the table,
/// or where text is left over after the bass note and the flags.
pub open spec fn parsed(s: Seq<char>) -> Option<Chord> {
    if s.len() == 0 {
        None
    } else {
        match note_of(s[0]) {
            None => None,
            Some(note) => {
                let accidental = accidental_at(s, 1);
                let q: int = 1 + accidental.text().len() as int;
                let b: int = quality_end(s, q);
                match quality_of(s.subrange(q, b)) {
                    None => None,
                    Some(quality) => {
                        let bass = bass_at(s, b);
                        let f: int = b + bass_text(bass).len();
                        let special = has1(s, f, '!');
                        let g: int = f + flag_text(special, '!').len();
                        let question = has1(s, g, '?');
                        let end: int = g + flag_text(question, '?').len();
                        if end == s.len() {
                            Some(Chord { note, accidental, quality, bass, special, question })
                        } else {
                            None
                        }
                    },
                }
            },
        }
    }
}

fn at1(v: &Vec<char>, i: usize, a: char) -> (r: bool)
    ensures
        r == has1(v@, i as int, a),
{
    i < v.len() && v[i] == a
}

/// Finds where the quality that begins at position `i` ends.
fn quality_end_at(v: &Vec<char>, i: usize) -> (end: usize)
    requires
        i <= v.len(),
    ensures
        end == quality_end(v@, i as int),
        i <= end <= v.len(),
{
    let mut end: usize = i;
    while end < v.len() && !(v[end] == '/' || v[end] == '!' || v[end] == '?')
        invariant
            i <= end <= v.len(),
            quality_end(v@, i as int) == quality_end(v@, end as int),
        decreases v.len() - end,
    {
        end = end + 1;
    }
    end
}

/// Looks the quality token `v[from..to]` up in the table.
fn quality_lookup(v: &Vec<char>, from: usize, to: usize) -> (r: Option<Quality>)
    requires
        from <= to <= v.len(),
    ensures
        r == quality_of(v@.subrange(from as int, to as int)),
{
    let ghost t = v@.subrange(from as int, to as int);
    let n = to - from;
    assert(t.len() == n);
    assert(forall|k: int| 0 <= k < n ==> t[k] == v@[from + k]);
    if n == 0 {
        Some(Quality::Maj)
    } else if n == 1 {
        let a = v[from];
        assert(t[0] == a);
        if a == '-' || a == 'm' {
            Some(Quality::Min)
        } else if a == '7' {
            Some(Quality::Dom7)
        } else if a == '^' {
            Some(Quality::Maj7)
        } else if a == 'o' {
            Some(Quality::Dim)
        } else if a == '6' {
            Some(Quality::Maj6)
        } else {
            None
        }
    } else if n == 2 {
        let a = v[from];
        let b = v[from + 1];
        assert(t[0] == a && t[1] == b);
        if (a == '-' || a == 'm') && b == '7' {
            Some(Quality::Min7)
        } else if (a == '^' || a == 'M') && b == '7' {
            Some(Quality::Maj7)
        } else if a == 'o' && b == '7' {
            Some(Quality::Dim7)
        } else if a == 'h' && b == 'd' {
            Some(Quality::HalfDim)
        } else if (a == 'm' || a == '-') && b == '6' {
            Some(Quality::Min6)
        } else {
            None
        }
    } else if n == 3 {
        assert(t[0] == v@[from + 0] && t[1] == v@[from + 1] && t[2] == v@[from + 2]);
        if v[from] == 'd' && v[from + 1] == 'i' && v[from + 2] == 'm' {
            Some(Quality::Dim)
        } else {
            None
        }
    } else if n == 4 {
        assert(t[0] == v@[from + 0] && t[1] == v@[from + 1] && t[2] == v@[from + 2] && t[3]
            == v@[from + 3]);
        if v[from] == 'd' && v[from + 1] == 'i' && v[from + 2] == 'm' && v[from + 3] == '7' {
            Some(Quality::Dim7)
        } else {
            None
        }
    } else {
        None
    }
}

fn bass_lookup(v: &Vec<char>, i: usize) -> (r: Option<Note>)
    ensures
        r == bass_at(v@, i as int),
{
    if at1(v, i, '/') && v.len() - i > 1 {
        match Note::try_from(v[i + 1]) {
            Ok(n) => Some(n),
            Err(_) => None,
        }
    } else {
        None
    }
}

impl Chord {
    /// Reads a chord from its written form.
    ///
    /// Fails, with nothing produced, where the first character is not a note
    /// letter, where the quality is not one of the table, and where text is
    /// left over after the bass note and the flags.
    pub fn parse(s: &str) -> (r: Result<Chord, ()>)
        ensures
            r == match parsed(s@) {
                Some(c) => Ok::<Chord, ()>(c),
                None => Err::<Chord, ()>(()),
            },
    {
        let v = chars_of(s);
        if v.len() == 0 {
            return Err(());
        }
        let note = match Note::try_from(v[0]) {
            Ok(n) => n,
            Err(_) => {
                return Err(());
            },
        };
        let accidental = if at1(&v, 1, '#') {
            Accidental::Sharp
        } else if at1(&v, 1, 'b') {
            Accidental::Flat
        } else {
            Accidental::Natural
        };
        let q: usize = match accidental {
            Accidental::Natural => 1,
            _ => 2,
        };
        let b: usize = quality_end_at(&v, q);
        let quality = match quality_lookup(&v, q, b) {
            Some(quality) => quality,
            None => {
                return Err(());
            },
        };
        let bass = bass_lookup(&v, b);
        let f: usize = match bass {
            Some(_) => b + 2,
            None => b,
        };
        let special = at1(&v, f, '!');
        let g: usize = if special {
            f + 1
        } else {
            f
        };
        let question = at1(&v, g, '?');
        let end: usize = if question {
            g + 1
        } else {
            g
        };
        if end == v.len() {
            Ok(Chord { note, accidental, quality, bass, special, question })
        } else {
            Err(())
        }
    }
}

/// The qualities that are read back as the quality they were written for.
///
/// These are the qualities of the table but for the half-diminished one,
/// which is written `m7b5`, and that is no token of the table.
pub open spec fn reads_back(q: Quality) -> bool {
    q == Quality::Maj || q == Quality::Min || q == Quality::Dom7 || q == Quality::Maj7 || q
        == Quality::Min7 || q == Quality::Dim || q == Quality::Dim7 || q == Quality::Maj6 || q
        == Quality::Min6
}

/// What follows the quality of a written chord: bass note and flags.
pub open spec fn tail_text(c: Chord) -> Seq<char> {
    bass_text(c.bass) + flag_text(c.special, '!') + flag_text(c.question, '?')
}

/// Where `s` holds a chord's bass note and flags from position `b` to its
/// end, they are read from there as they were written, and the first of their
/// characters is `/`, `!` or `?`.
proof fn lemma_tail_reads_back(c: Chord, s: Seq<char>, b: int)
    requires
        0 <= b,
        s.len() == b + tail_text(c).len(),
        forall|k: int| 0 <= k < tail_text(c).len() ==> s[b + k] == #[trigger] tail_text(c)[k],
    ensures
        bass_at(s, b) == c.bass,
        has1(s, b + bass_text(c.bass).len(), '!') == c.special,
        has1(s, b + bass_text(c.bass).len() + flag_text(c.special, '!').len(), '?') == c.question,
        b + bass_text(c.bass).len() + flag_text(c.special, '!').len() + flag_text(
            c.question,
            '?',
        ).len() == s.len(),
        b < s.len() ==> ends_quality(s[b]),
{
    let t = tail_text(c);
    let bt = bass_text(c.bass);
    let st = flag_text(c.special, '!');
    let qt = flag_text(c.question, '?');
    assert(t.len() == bt.len() + st.len() + qt.len());
    assert(forall|k: int| 0 <= k < bt.len() ==> t[k] == bt[k]);
    assert(forall|k: int| 0 <= k < st.len() ==> t[bt.len() + k] == st[k]);
    assert(forall|k: int| 0 <= k < qt.len() ==> t[bt.len() + st.len() + k] == qt[k]);
    match c.bass {
        Some(n) => {
            assert(bt.len() == 2);
            assert(t[0] == '/' && t[1] == n.letter());
            assert(s[b + 0] == t[0] && s[b + 1] == t[1]);
            assert(note_of(n.letter()) == Some(n));
        },
        None => {
            assert(bt.len() == 0);
        },
    }
    let f = b + bt.len();
    if c.special {
        assert(t[bt.len() as int] == '!');
        assert(s[b + bt.len()] == t[bt.len() as int]);
    } else {
        assert(st.len() == 0);
    }
    let g = f + st.len();
    if c.question {
        assert(t[(bt.len() + st.len()) as int] == '?');
        assert(s[b + (bt.len() + st.len())] == t[(bt.len() + st.len()) as int]);
    } else {
        assert(qt.len() == 0);
    }
}

/// Where `s` holds any quality as it is written from position `q` on,
/// followed by the end of `s` or by `/`, `!` or `?`, the quality ends where
/// its writing ends, and what is read there is the writing itself.
proof fn lemma_quality_token(quality: Quality, s: Seq<char>, q: int)
    requires
        0 <= q,
        q + quality.text().len() <= s.len(),
        forall|k: int| 0 <= k < quality.text().len() ==> s[q + k] == #[trigger] quality.text()[k],
        q + quality.text().len() < s.len() ==> ends_quality(s[q + quality.text().len()]),
    ensures
        quality_end(s, q) == q + quality.text().len(),
        s.subrange(q, q + quality.text().len()) == quality.text(),
{
    reveal_with_fuel(quality_end, 5);
    let t = quality.text();
    assert(s.subrange(q, q + t.len()) =~= t);
    if t.len() >= 1 {
        assert(s[q + 0] == t[0]);
    }
    if t.len() >= 2 {
        assert(s[q + 1] == t[1]);
    }
    if t.len() >= 3 {
        assert(s[q + 2] == t[2]);
    }
    if t.len() >= 4 {
        assert(s[q + 3] == t[3]);
    }
}

/// Where `s` holds a quality that [`reads_back`] from position `q` on,
/// followed by the end of `s` or by `/`, `!` or `?`, the quality is read from
/// there as it was written, and its first character is no accidental.
proof fn lemma_quality_reads_back(quality: Quality, s: Seq<char>, q: int)
    requires
        reads_back(quality),
        0 <= q,
        q + quality.text().len() <= s.len(),
        forall|k: int| 0 <= k < quality.text().len() ==> s[q + k] == #[trigger] quality.text()[k],
        q + quality.text().len() < s.len() ==> ends_quality(s[q + quality.text().len()]),
    ensures
        quality_end(s, q) == q + quality.text().len(),
        quality_of(s.subrange(q, q + quality.text().len())) == Some(quality),
        q < s.len() ==> s[q] != '#' && s[q] != 'b',
{
    lemma_quality_token(quality, s, q);
    if quality.text().len() >= 1 {
        assert(s[q + 0] == quality.text()[0]);
    }
}

/// How the parts of a written chord lie in its text: the note letter first,
/// then the accidental, the quality, and the bass note with the flags.
proof fn lemma_text_layout(c: Chord)
    ensures
        ({
            let s = c.text();
            let a = c.accidental.text();
            let t = c.quality.text();
            let tail = tail_text(c);
            &&& s.len() == 1 + a.len() + t.len() + tail.len()
            &&& s[0] == c.note.letter()
            &&& forall|k: int| 0 <= k < a.len() ==> s[1 + k] == #[trigger] a[k]
            &&& forall|k: int| 0 <= k < t.len() ==> s[1 + a.len() + k] == #[trigger] t[k]
            &&& forall|k: int|
                0 <= k < tail.len() ==> s[1 + a.len() + t.len() + k] == #[trigger] tail[k]
        }),
{
    let s = c.text();
    let a = c.accidental.text();
    let t = c.quality.text();
    let tail = tail_text(c);
    assert(s =~= ((c.note.text() + a) + t) + tail);
}

/// A text whose parts are read as the parts of `c` is read as `c`.
proof fn lemma_parse_by_parts(c: Chord, s: Seq<char>)
    requires
        s.len() >= 1,
        note_of(s[0]) == Some(c.note),
        accidental_at(s, 1) == c.accidental,
        ({
            let q = 1 + c.accidental.text().len() as int;
            let b = q + c.quality.text().len() as int;
            let f = b + bass_text(c.bass).len() as int;
            let g = f + flag_text(c.special, '!').len() as int;
            &&& quality_end(s, q) == b
            &&& quality_of(s.subrange(q, b)) == Some(c.quality)
            &&& bass_at(s, b) == c.bass
            &&& has1(s, f, '!') == c.special
            &&& has1(s, g, '?') == c.question
            &&& g + flag_text(c.question, '?').len() == s.len()
        }),
    ensures
        parsed(s) == Some(c),
{
}

/// Writing a chord and reading it again gives the same chord, whatever its
/// note, accidental, bass note and flags, for every quality that
/// [`reads_back`].
pub proof fn lemma_parse_text_round_trip(c: Chord)
    requires
        reads_back(c.quality),
    ensures
        parsed(c.text()) == Some(c),
{
    let s = c.text();
    let a = c.accidental.text();
    let q: int = 1 + a.len() as int;
    let b: int = q + c.quality.text().len() as int;
    lemma_text_layout(c);
    lemma_tail_reads_back(c, s, b);
    lemma_quality_reads_back(c.quality, s, q);
    assert(note_of(c.note.letter()) == Some(c.note));
    assert(accidental_at(s, 1) == c.accidental) by {
        if a.len() == 1 {
            assert(s[1 + 0int] == a[0]);
        }
    }
    lemma_parse_by_parts(c, s);
}

/// A chord of any other quality is not read from its written form at all:
/// the abbreviations of those qualities are no tokens of the table.
pub proof fn lemma_other_qualities_are_refused(c: Chord)
    requires
        !reads_back(c.quality),
    ensures
        parsed(c.text()) is None,
{
    let s = c.text();
    let a = c.accidental.text();
    let q: int = 1 + a.len() as int;
    let b: int = q + c.quality.text().len() as int;
    lemma_text_layout(c);
    lemma_tail_reads_back(c, s, b);
    assert(note_of(c.note.letter()) == Some(c.note));
    if a.len() == 1 {
        assert(s[1 + 0int] == a[0]);
        assert(accidental_at(s, 1) == c.accidental);
        lemma_quality_token(c.quality, s, q);
        assert(quality_of(c.quality.text()) is None);
    } else {
        assert(c.quality.text().len() >= 1);
        assert(s[1 + 0int] == c.quality.text()[0]);
        if accidental_at(s, 1) == Accidental::Natural {
            lemma_quality_token(c.quality, s, q);
            assert(quality_of(c.quality.text()) is None);
        } else {
            // The quality begins with `#` or `b`, which is read as an
            // accidental; what is left of it is no token of the table.
            reveal_with_fuel(quality_end, 5);
            let t = c.quality.text();
            assert(forall|k: int| 0 <= k < t.len() ==> s[1 + k] == #[trigger] t[k]);
            if t.len() >= 2 {
                assert(s[1 + 1int] == t[1]);
            }
            if t.len() >= 3 {
                assert(s[1 + 2int] == t[2]);
            }
            let e = quality_end(s, 2);
            assert(e == 1 + t.len());
            let u = s.subrange(2, e);
            assert(u.len() == t.len() - 1);
            assert(u[0] == s[2]);
            if u.len() >= 2 {
                assert(u[1] == s[3]);
            }
            assert(quality_of(u) is None);
        }
    }
}

} // verus!
