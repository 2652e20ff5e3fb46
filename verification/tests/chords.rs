use chordsheet::chord::{Accidental, Chord, Note, Quality};

const NOTES: [Note; 7] = [Note::A, Note::B, Note::C, Note::D, Note::E, Note::F, Note::G];

const ACCIDENTALS: [Accidental; 3] = [Accidental::Natural, Accidental::Sharp, Accidental::Flat];

const ALL_QUALITIES: [(Quality, &str); 24] = [
    (Quality::Maj, ""),
    (Quality::Min, "-"),
    (Quality::Dom7, "7"),
    (Quality::Maj7, "^"),
    (Quality::Min7, "-7"),
    (Quality::Dim, "o"),
    (Quality::Dim7, "o7"),
    (Quality::HalfDim, "m7b5"),
    (Quality::Aug, "+"),
    (Quality::Dom9, "9"),
    (Quality::Maj9, "^9"),
    (Quality::Min9, "-9"),
    (Quality::Flat9, "b9"),
    (Quality::Sharp9, "#9"),
    (Quality::Maj11, "^11"),
    (Quality::Sharp11, "#11"),
    (Quality::Dom13, "13"),
    (Quality::Maj13, "^13"),
    (Quality::Flat13, "b13"),
    (Quality::Sus, "sus"),
    (Quality::Sus4, "sus4"),
    (Quality::Sus2, "sus2"),
    (Quality::Maj6, "6"),
    (Quality::Min6, "m6"),
];

const READ_BACK: [Quality; 9] = [
    Quality::Maj,
    Quality::Min,
    Quality::Dom7,
    Quality::Maj7,
    Quality::Min7,
    Quality::Dim,
    Quality::Dim7,
    Quality::Maj6,
    Quality::Min6,
];

fn plain(note: Note, accidental: Accidental, quality: Quality) -> Chord {
    Chord { note, accidental, quality, bass: None, special: false, question: false }
}

#[test]
fn parse_c_major() {
    let chord = Chord::parse("C").unwrap();
    assert_eq!(chord, plain(Note::C, Accidental::Natural, Quality::Maj));
    assert_eq!(chord.to_string(), "C");
}

#[test]
fn parse_f_sharp_minor_seventh() {
    let chord = Chord::parse("F#-7").unwrap();
    assert_eq!(chord.note, Note::F);
    assert_eq!(chord.accidental, Accidental::Sharp);
    assert_eq!(chord.quality, Quality::Min7);
    assert_eq!(chord.bass, None);
    assert!(!chord.special);
    assert!(!chord.question);
    assert_eq!(chord.to_string(), "F#-7");
}

#[test]
fn written_chords_are_read_back() {
    let mut basses: Vec<Option<Note>> = vec![None];
    for n in NOTES {
        basses.push(Some(n));
    }
    let mut count = 0;
    for note in NOTES {
        for accidental in ACCIDENTALS {
            for quality in READ_BACK {
                for bass in basses.iter() {
                    for special in [false, true] {
                        for question in [false, true] {
                            let chord = Chord {
                                note,
                                accidental,
                                quality,
                                bass: *bass,
                                special,
                                question,
                            };
                            let text = chord.to_string();
                            assert_eq!(Chord::parse(&text), Ok(chord), "{}", text);
                            count += 1;
                        }
                    }
                }
            }
        }
    }
    assert_eq!(count, 7 * 3 * 9 * 8 * 4);
}

#[test]
fn half_diminished_is_read_from_its_token_and_not_from_its_writing() {
    let chord = plain(Note::C, Accidental::Natural, Quality::HalfDim);
    assert_eq!(chord.to_string(), "Cm7b5");
    assert_eq!(Chord::parse("Cm7b5"), Err(()));
    assert_eq!(Chord::parse("Chd"), Ok(chord));
    assert_eq!(Chord::parse("Chd").unwrap().to_string(), "Cm7b5");
}

#[test]
fn chords_of_the_other_qualities_are_not_read_back() {
    let mut basses: Vec<Option<Note>> = vec![None];
    for n in NOTES {
        basses.push(Some(n));
    }
    let mut count = 0;
    for (quality, _) in ALL_QUALITIES {
        if READ_BACK.contains(&quality) {
            continue;
        }
        for note in NOTES {
            for accidental in ACCIDENTALS {
                for bass in basses.iter() {
                    for special in [false, true] {
                        for question in [false, true] {
                            let chord = Chord {
                                note,
                                accidental,
                                quality,
                                bass: *bass,
                                special,
                                question,
                            };
                            let text = chord.to_string();
                            assert_eq!(Chord::parse(&text), Err(()), "{}", text);
                            count += 1;
                        }
                    }
                }
            }
        }
    }
    assert_eq!(count, 15 * 7 * 3 * 8 * 4);
}

#[test]
fn every_token_of_the_table_is_read() {
    let table = [
        ("", Quality::Maj),
        ("-", Quality::Min),
        ("m", Quality::Min),
        ("7", Quality::Dom7),
        ("-7", Quality::Min7),
        ("m7", Quality::Min7),
        ("^", Quality::Maj7),
        ("^7", Quality::Maj7),
        ("M7", Quality::Maj7),
        ("dim", Quality::Dim),
        ("o", Quality::Dim),
        ("dim7", Quality::Dim7),
        ("o7", Quality::Dim7),
        ("hd", Quality::HalfDim),
        ("6", Quality::Maj6),
        ("m6", Quality::Min6),
        ("-6", Quality::Min6),
    ];
    for (token, quality) in table {
        let text = format!("G{}", token);
        assert_eq!(
            Chord::parse(&text),
            Ok(plain(Note::G, Accidental::Natural, quality)),
            "{}",
            text
        );
        let text = format!("Gb{}/d!?", token);
        assert_eq!(
            Chord::parse(&text),
            Ok(Chord {
                note: Note::G,
                accidental: Accidental::Flat,
                quality,
                bass: Some(Note::D),
                special: true,
                question: true,
            }),
            "{}",
            text
        );
    }
}

#[test]
fn qualities_outside_the_table_are_refused() {
    for text in [
        "C9", "C+", "Caug", "Csus", "Csus4", "Cadd", "Cadd9", "C11", "C13", "C5", "Cb5", "C#b5",
        "CM", "CM9", "C^9", "C-9", "Cm9", "Co9", "Chd7", "Cdim9", "Cm5", "C+7", "Co6",
    ] {
        assert_eq!(Chord::parse(text), Err(()), "{}", text);
    }
}

#[test]
fn text_without_leading_note_is_refused() {
    for text in ["", " ", "H", "h7", "7", "#", "xC", " C", "/C", "-7", "?"] {
        assert_eq!(Chord::parse(text), Err(()), "{:?}", text);
    }
}

#[test]
fn note_letters_are_read_in_either_case() {
    let letters = [
        ('a', 'A', Note::A),
        ('b', 'B', Note::B),
        ('c', 'C', Note::C),
        ('d', 'D', Note::D),
        ('e', 'E', Note::E),
        ('f', 'F', Note::F),
        ('g', 'G', Note::G),
    ];
    for (lower, upper, note) in letters {
        assert_eq!(Note::try_from(lower), Ok(note));
        assert_eq!(Note::try_from(upper), Ok(note));
        assert_eq!(note.as_char(), upper);
        assert_eq!(note.as_str(), upper.to_string());
        assert_eq!(note.to_string(), upper.to_string());
        assert_eq!(
            Chord::parse(&lower.to_string()),
            Ok(plain(note, Accidental::Natural, Quality::Maj))
        );
    }
    for other in ['H', 'h', '@', '1', ' ', '#', 'é'] {
        assert_eq!(Note::try_from(other), Err(()));
    }
}

#[test]
fn accidentals_are_read_after_the_note() {
    assert_eq!(Chord::parse("Bb"), Ok(plain(Note::B, Accidental::Flat, Quality::Maj)));
    assert_eq!(Chord::parse("bb"), Ok(plain(Note::B, Accidental::Flat, Quality::Maj)));
    assert_eq!(Chord::parse("A#"), Ok(plain(Note::A, Accidental::Sharp, Quality::Maj)));
    assert_eq!(Chord::parse("Ebm"), Ok(plain(Note::E, Accidental::Flat, Quality::Min)));
    assert_eq!(Chord::parse("E#b"), Err(()));
}

#[test]
fn bass_and_flags_are_read_in_their_order() {
    let c = plain(Note::C, Accidental::Natural, Quality::Maj);
    assert_eq!(Chord::parse("C/G"), Ok(Chord { bass: Some(Note::G), ..c }));
    assert_eq!(Chord::parse("C/g"), Ok(Chord { bass: Some(Note::G), ..c }));
    assert_eq!(Chord::parse("C!"), Ok(Chord { special: true, ..c }));
    assert_eq!(Chord::parse("C?"), Ok(Chord { question: true, ..c }));
    assert_eq!(Chord::parse("C!?"), Ok(Chord { special: true, question: true, ..c }));
    assert_eq!(
        Chord::parse("C/G!?"),
        Ok(Chord { bass: Some(Note::G), special: true, question: true, ..c })
    );
    for text in [
        "C?!", "C!!", "C??", "C!/G", "C?/G", "C/", "C/x", "C/x!", "C/G/A", "C//G", "C/Gb",
    ] {
        assert_eq!(Chord::parse(text), Err(()), "{:?}", text);
    }
}

#[test]
fn text_that_is_left_over_is_refused() {
    for text in [
        "Cxyz", "C 7", "C7 ", "Cmaj7", "C7sus", "C7#9", "Cm7b5", "C\u{e9}", "C-7x", "Cdim7b",
        "C6/Gm", "C!x", "C?x", "CC", "C##", "Cbb", "C#b",
    ] {
        assert_eq!(Chord::parse(text), Err(()), "{:?}", text);
    }
}

#[test]
fn every_quality_is_written_by_its_abbreviation() {
    for (quality, text) in ALL_QUALITIES {
        assert_eq!(quality.as_str(), text);
        assert_eq!(quality.to_string(), text);
        let chord = plain(Note::D, Accidental::Natural, quality);
        assert_eq!(chord.to_string(), format!("D{}", text));
    }
}

#[test]
fn accidentals_are_written_by_their_symbol() {
    assert_eq!(Accidental::Natural.to_string(), "");
    assert_eq!(Accidental::Sharp.to_string(), "#");
    assert_eq!(Accidental::Flat.to_string(), "b");
    assert_eq!(Accidental::Natural.as_str(), "");
    assert_eq!(Accidental::Sharp.as_str(), "#");
    assert_eq!(Accidental::Flat.as_str(), "b");
}

#[test]
fn a_chord_is_written_part_by_part() {
    let chord = Chord {
        note: Note::E,
        accidental: Accidental::Flat,
        quality: Quality::Sharp11,
        bass: Some(Note::B),
        special: true,
        question: true,
    };
    assert_eq!(chord.to_string(), "Eb#11/B!?");
    assert_eq!(chord.width(), 9);
    let longest = Chord { quality: Quality::HalfDim, ..chord };
    assert_eq!(longest.to_string(), "Ebm7b5/B!?");
    assert_eq!(longest.width(), 10);
    assert_eq!(plain(Note::A, Accidental::Natural, Quality::Maj).width(), 1);
}

#[test]
fn toggles_flip_one_flag() {
    let mut chord = plain(Note::C, Accidental::Sharp, Quality::Dom7);
    chord.toggle_question();
    assert_eq!(chord, Chord { question: true, ..plain(Note::C, Accidental::Sharp, Quality::Dom7) });
    chord.toggle_special();
    assert_eq!(
        chord,
        Chord {
            question: true,
            special: true,
            ..plain(Note::C, Accidental::Sharp, Quality::Dom7)
        }
    );
    chord.toggle_question();
    chord.toggle_special();
    assert_eq!(chord, plain(Note::C, Accidental::Sharp, Quality::Dom7));
}
