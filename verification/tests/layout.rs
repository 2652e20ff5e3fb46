use chordsheet::bar::Bar;
use chordsheet::chord::{Accidental, Chord, Note, Quality};
use chordsheet::state::{CursorPos, State};

fn at(section: usize, bar: usize, subdivision: usize) -> CursorPos {
    CursorPos { section, bar, subdivision }
}

fn chord(text: &str) -> Chord {
    Chord::parse(text).unwrap()
}

fn two_sections() -> State {
    let mut state = State::new();
    state.song.sections[0].bars.push(Bar::new(4, 2));
    state.song.sections[0].bars.push(Bar::new(4, 8));
    state.song.append_section();
    state.song.sections[1].bars[0].subdivision = 4;
    state.song.sections[1].bars.push(Bar::new(4, 4));
    state
}

fn ten_bars() -> State {
    let mut state = State::new();
    for _ in 0..9 {
        state.song.sections[0].append_bar();
    }
    state.song.append_section();
    state
}

#[test]
fn empty_slots_are_two_wide_and_columns_without_bars_have_no_width() {
    let state = two_sections();
    assert_eq!(state.song.sections[0].calc_widths(), vec![2, 2, 2, 0]);
    assert_eq!(state.song.sections[1].calc_widths(), vec![2, 2, 0, 0]);
    assert_eq!(ten_bars().song.sections[0].calc_widths(), vec![2, 2, 2, 2]);
}

#[test]
fn a_column_is_as_wide_as_its_widest_chord_and_one_more() {
    let mut state = ten_bars();
    state.song.sections[0].bars[1].insert_chord(0, chord("C"));
    assert_eq!(state.song.sections[0].calc_widths(), vec![2, 2, 2, 2]);
    state.song.sections[0].bars[1].insert_chord(3, chord("F#-7"));
    assert_eq!(state.song.sections[0].calc_widths(), vec![2, 5, 2, 2]);
    state.song.sections[0].bars[9].insert_chord(2, chord("Bb^/D"));
    assert_eq!(state.song.sections[0].calc_widths(), vec![2, 6, 2, 2]);
    state.song.sections[0].bars[5].insert_chord(1, chord("Ebm7/B!?"));
    assert_eq!(state.song.sections[0].calc_widths(), vec![2, 9, 2, 2]);
    state.song.sections[0].bars[8].insert_chord(0, chord("Am"));
    assert_eq!(state.song.sections[0].calc_widths(), vec![3, 9, 2, 2]);
    state.song.sections[0].bars[3].insert_chord(0, chord("G7"));
    state.song.sections[0].bars[7].insert_chord(0, chord("G"));
    assert_eq!(state.song.sections[0].calc_widths(), vec![3, 9, 2, 3]);
    state.song.sections[0].wrap = 3;
    assert_eq!(state.song.sections[0].calc_widths(), vec![6, 5, 9]);
}

#[test]
fn a_bar_is_as_wide_as_its_widest_slot() {
    let mut bar = Bar::new(4, 4);
    assert_eq!(bar.widest_slot(), 2);
    bar.insert_chord(1, chord("C"));
    assert_eq!(bar.widest_slot(), 2);
    bar.insert_chord(2, chord("C#dim7/E?"));
    assert_eq!(bar.widest_slot(), 8);
    bar.insert_chord(9, chord("Ebm7/B!?"));
    assert_eq!(bar.widest_slot(), 8);
    assert_eq!(Bar::new(4, 0).widest_slot(), 0);
    let mut full = Bar::new(4, 1);
    full.insert_chord(0, chord("C"));
    assert_eq!(full.widest_slot(), 2);
}

#[test]
fn rows_are_bars_by_wrap_rounded_up() {
    let mut state = ten_bars();
    assert_eq!(state.song.sections[0].rows(), 3);
    assert_eq!(state.song.sections[1].rows(), 1);
    state.song.sections[0].wrap = 5;
    assert_eq!(state.song.sections[0].rows(), 2);
    state.song.sections[0].wrap = 1;
    assert_eq!(state.song.sections[0].rows(), 10);
    state.song.sections[0].wrap = 11;
    assert_eq!(state.song.sections[0].rows(), 1);
    state.song.sections[0].bars.clear();
    assert_eq!(state.song.sections[0].rows(), 0);
}

#[test]
fn cursor_of_a_fresh_session_is_below_the_label_after_the_bar_line() {
    assert_eq!(State::new().find_cursor(), Some((3, 1)));
}

#[test]
fn cursor_column_counts_slots_and_bars_before_it() {
    let mut state = two_sections();
    state.cursor = at(0, 0, 2);
    assert_eq!(state.find_cursor(), Some((3, 5)));
    state.cursor = at(0, 1, 1);
    assert_eq!(state.find_cursor(), Some((3, 12)));
    state.cursor = at(0, 2, 5);
    assert_eq!(state.find_cursor(), Some((3, 25)));
    state.song.sections[0].bars[1].insert_chord(0, chord("F#-7"));
    state.cursor = at(0, 1, 1);
    assert_eq!(state.find_cursor(), Some((3, 15)));
    state.cursor = at(0, 2, 0);
    assert_eq!(state.find_cursor(), Some((3, 21)));
    state.cursor = at(0, 0, 3);
    assert_eq!(state.find_cursor(), Some((3, 7)));
}

#[test]
fn cursor_row_counts_rows_and_sections_above_it() {
    let mut state = ten_bars();
    state.cursor = at(0, 4, 0);
    assert_eq!(state.find_cursor(), Some((4, 1)));
    state.cursor = at(0, 5, 2);
    assert_eq!(state.find_cursor(), Some((4, 14)));
    state.cursor = at(0, 9, 3);
    assert_eq!(state.find_cursor(), Some((5, 16)));
    state.cursor = at(1, 0, 0);
    assert_eq!(state.find_cursor(), Some((9, 1)));
    let widest = Chord {
        note: Note::E,
        accidental: Accidental::Flat,
        quality: Quality::HalfDim,
        bass: Some(Note::B),
        special: true,
        question: true,
    };
    assert_eq!(widest.to_string(), "Ebm7b5/B!?");
    state.song.sections[0].bars[4].insert_chord(3, widest);
    assert_eq!(state.song.sections[0].calc_widths(), vec![11, 2, 2, 2]);
    state.cursor = at(0, 1, 0);
    assert_eq!(state.find_cursor(), Some((3, 46)));
    state.cursor = at(0, 5, 1);
    assert_eq!(state.find_cursor(), Some((4, 48)));
    state.cursor = at(0, 4, 3);
    assert_eq!(state.find_cursor(), Some((4, 34)));

    let mut state = two_sections();
    state.cursor = at(1, 1, 2);
    assert_eq!(state.find_cursor(), Some((7, 14)));
    state.song.append_section();
    state.cursor = at(2, 0, 3);
    assert_eq!(state.find_cursor(), Some((11, 7)));
}

#[test]
fn cursor_one_past_the_last_bar_is_placed_after_it() {
    let mut state = two_sections();
    state.cursor = at(1, 0, 2);
    state.prev_section();
    assert_eq!(state.cursor, at(0, 3, 2));
    assert_eq!(state.find_cursor(), Some((3, 32)));
    let mut state = ten_bars();
    state.song.sections[0].bars.truncate(8);
    state.cursor = at(0, 8, 1);
    assert_eq!(state.find_cursor(), Some((5, 3)));
}

#[test]
fn cursor_too_far_to_the_right_has_no_place() {
    let mut state = State::new();
    state.cursor = at(0, 0, usize::MAX - 1);
    assert_eq!(state.find_cursor(), None);
    state.cursor = at(0, 0, 1_073_741_823);
    assert_eq!(state.find_cursor(), Some((3, 2_147_483_647)));
    state.cursor = at(0, 0, 1_073_741_824);
    assert_eq!(state.find_cursor(), None);
}
