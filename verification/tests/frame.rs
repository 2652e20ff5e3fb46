use chordsheet::bar::Bar;
use chordsheet::chord::Chord;
use chordsheet::frame::{blanks, Span};
use chordsheet::state::{CursorPos, State};

fn at(section: usize, bar: usize, subdivision: usize) -> CursorPos {
    CursorPos { section, bar, subdivision }
}

fn text(line: &Vec<Span>) -> String {
    line.iter().map(|s| s.text.as_str()).collect()
}

/// The columns at which the text in reverse begins and ends.
fn reversed(line: &Vec<Span>) -> Vec<(usize, usize)> {
    let mut found = Vec::new();
    let mut column = 0;
    for span in line {
        let end = column + span.text.chars().count();
        if span.reverse {
            found.push((column, end));
        }
        column = end;
    }
    found
}

#[test]
fn blanks_are_spaces() {
    assert_eq!(blanks(0), "");
    assert_eq!(blanks(1), " ");
    assert_eq!(blanks(5), "     ");
}

#[test]
fn fresh_session_is_drawn_with_dots_in_the_cursor_bar() {
    let state = State::new();
    let frame = state.draw();
    assert_eq!(frame.len(), 6);
    assert_eq!(frame[0], vec![Span { text: String::from("SONG: untitled"), reverse: false }]);
    assert!(frame[1].is_empty());
    assert_eq!(frame[2], vec![Span { text: String::from("[A]"), reverse: false }]);
    let plain = |t: &str| Span { text: String::from(t), reverse: false };
    assert_eq!(
        frame[3],
        vec![
            plain("|"),
            Span { text: String::from(". "), reverse: true },
            plain(". "),
            plain(". "),
            plain(". "),
            plain("|"),
        ]
    );
    assert!(frame[4].is_empty());
    assert!(frame[5].is_empty());
}

#[test]
fn chords_fill_their_column_and_rows_wrap() {
    let mut state = State::new();
    state.song.title = String::from("Tune");
    state.song.sections[0].wrap = 2;
    state.song.sections[0].bars.push(Bar::new(4, 2));
    state.song.sections[0].bars.push(Bar::new(4, 1));
    state.song.sections[0].bars[0].insert_chord(0, Chord::parse("F#-7").unwrap());
    state.song.sections[0].bars[2].insert_chord(0, Chord::parse("C").unwrap());
    state.song.append_section();
    state.cursor = at(0, 1, 1);
    let frame = state.draw();
    let lines: Vec<String> = frame.iter().map(text).collect();
    assert_eq!(
        lines,
        vec![
            "SONG: Tune",
            "",
            "[A]",
            "|F#-7                |. . |",
            "|C    |",
            "",
            "",
            "[B]",
            "|  |",
            "",
            "",
        ]
    );
    assert_eq!(reversed(&frame[3]), vec![(24, 26)]);
    for (i, line) in frame.iter().enumerate() {
        if i != 3 {
            assert!(reversed(line).is_empty());
        }
    }
    assert_eq!(state.find_cursor(), Some((3, 24)));
}

#[test]
fn the_cursor_is_placed_where_its_slot_is_drawn() {
    let mut state = State::new();
    state.song.sections[0].wrap = 3;
    for subdivision in [2, 8, 1, 4, 16, 2] {
        state.song.sections[0].bars.push(Bar::new(4, subdivision));
    }
    state.song.sections[0].bars[1].insert_chord(1, Chord::parse("Bb^/D").unwrap());
    state.song.sections[0].bars[5].insert_chord(9, Chord::parse("Am7").unwrap());
    state.song.append_section();
    state.song.sections[1].bars.push(Bar::new(4, 4));
    state.song.sections[1].bars[1].insert_chord(2, Chord::parse("G7!").unwrap());
    for section in 0..state.song.sections.len() {
        for bar in 0..state.song.sections[section].bars.len() {
            for subdivision in 0..state.song.sections[section].bars[bar].subdivision {
                state.cursor = at(section, bar, subdivision);
                let frame = state.draw();
                let (y, x) = state.find_cursor().unwrap();
                let mut found = Vec::new();
                for (row, line) in frame.iter().enumerate() {
                    for (from, _) in reversed(line) {
                        found.push((row as i32, from as i32));
                    }
                }
                assert_eq!(found, vec![(y, x)], "{:?}", state.cursor);
            }
        }
    }
}
