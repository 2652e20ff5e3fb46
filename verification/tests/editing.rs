use chordsheet::bar::Bar;
use chordsheet::chord::{Accidental, Chord, Note, Quality};
use chordsheet::state::{CursorPos, State};
use chordsheet::text::decimal;

fn at(section: usize, bar: usize, subdivision: usize) -> CursorPos {
    CursorPos { section, bar, subdivision }
}

fn chord(text: &str) -> Chord {
    Chord::parse(text).unwrap()
}

#[test]
fn chord_read_from_c_is_put_into_the_first_slot() {
    let mut state = State::new();
    assert!(state.enter_chord(at(0, 0, 0), "C"));
    let held = *state.song.sections[0].bars[0].get_chord(0).unwrap();
    assert_eq!(held.note, Note::C);
    assert_eq!(held.accidental, Accidental::Natural);
    assert_eq!(held.quality, Quality::Maj);
    assert_eq!(held.to_string(), "C");
    assert_eq!(state.song.sections[0].bars[0].occupied(), 1);
    assert_eq!(state.cursor, at(0, 0, 0));
}

#[test]
fn text_that_is_no_chord_changes_nothing() {
    let mut state = State::new();
    state.enter_chord(at(0, 0, 2), "G7");
    assert!(!state.enter_chord(at(0, 0, 2), "H7"));
    assert!(!state.enter_chord(at(0, 0, 1), "Csus"));
    assert!(!state.enter_chord(at(0, 0, 1), "C7#9"));
    assert!(!state.enter_chord(at(0, 0, 1), "Cm7b5"));
    assert!(!state.enter_chord(at(0, 0, 1), "C x"));
    assert!(!state.enter_chord(at(0, 0, 3), ""));
    assert_eq!(state.song.sections[0].bars[0].occupied(), 1);
    assert_eq!(state.song.sections[0].bars[0].get_chord(2), Some(&chord("G7")));
    assert_eq!(state.toast.message, None);
}

#[test]
fn entered_chord_takes_the_place_of_the_chord_in_the_slot() {
    let mut state = State::new();
    state.song.append_section();
    state.song.sections[1].append_bar();
    assert!(state.enter_chord(at(1, 1, 3), "Dm7"));
    assert!(state.enter_chord(at(1, 1, 3), "Eb^/G"));
    assert_eq!(state.song.sections[1].bars[1].get_chord(3), Some(&chord("Eb^/G")));
    assert_eq!(state.song.sections[1].bars[1].occupied(), 1);
    assert!(state.song.sections[0].bars[0].is_empty());
    assert!(state.song.sections[1].bars[0].is_empty());
}

#[test]
fn deleting_the_sole_chord_and_then_the_empty_bar() {
    let mut state = State::new();
    state.song.sections[0].append_bar();
    state.song.sections[0].bars[0].insert_chord(0, chord("F"));
    state.song.sections[0].bars[1].insert_chord(2, chord("C"));
    state.cursor = at(0, 1, 2);
    state.should_clear = false;

    state.delete_chord_or_empty_bar();
    assert_eq!(state.song.sections[0].bars.len(), 2);
    assert!(state.song.sections[0].bars[1].is_empty());
    assert_eq!(state.cursor, at(0, 1, 2));
    assert!(!state.should_clear);

    state.delete_chord_or_empty_bar();
    assert_eq!(state.song.sections[0].bars.len(), 1);
    assert_eq!(state.song.sections[0].bars[0].get_chord(0), Some(&chord("F")));
    assert_eq!(state.cursor, at(0, 0, 2));
    assert!(state.should_clear);
    assert!(state.on_bar());
}

#[test]
fn deleting_an_empty_bar_leaves_the_cursor_on_the_bar_that_follows() {
    let mut state = State::new();
    state.song.sections[0].bars.push(Bar::new(4, 8));
    state.song.sections[0].bars.push(Bar::new(4, 2));
    state.song.sections[0].bars[2].insert_chord(1, chord("A"));
    state.cursor = at(0, 1, 6);
    state.delete_chord_or_empty_bar();
    assert_eq!(state.song.sections[0].bars.len(), 2);
    assert_eq!(state.song.sections[0].bars[1].subdivision, 2);
    assert_eq!(state.song.sections[0].bars[1].get_chord(1), Some(&chord("A")));
    assert_eq!(state.cursor, at(0, 1, 6));
}

#[test]
fn deleting_in_a_section_of_one_empty_bar_takes_the_section_away() {
    let mut state = State::new();
    state.song.sections[0].bars.push(Bar::new(4, 8));
    state.song.append_section();
    state.song.append_section();
    state.cursor = at(1, 0, 0);
    state.should_clear = false;
    state.delete_chord_or_empty_bar();
    assert_eq!(state.song.sections.len(), 2);
    assert_eq!(state.song.sections[0].label, "A");
    assert_eq!(state.song.sections[1].label, "C");
    assert_eq!(state.cursor, at(0, 1, 7));
    assert!(state.should_clear);
    assert!(state.on_slot());
}

#[test]
fn deleting_the_first_section_puts_the_cursor_on_the_section_that_follows() {
    let mut state = State::new();
    state.song.append_section();
    state.song.sections[1].bars.push(Bar::new(4, 2));
    state.song.sections[1].bars[0].insert_chord(1, chord("D"));
    state.cursor = at(0, 0, 3);
    state.should_clear = false;
    state.delete_chord_or_empty_bar();
    assert_eq!(state.song.sections.len(), 1);
    assert_eq!(state.song.sections[0].label, "B");
    assert_eq!(state.song.sections[0].bars.len(), 2);
    assert_eq!(state.song.sections[0].bars[0].get_chord(1), Some(&chord("D")));
    assert_eq!(state.cursor, at(0, 0, 0));
    assert!(state.should_clear);
    assert!(state.on_slot());
}

#[test]
fn entered_chord_goes_where_the_entry_began_in_the_cursor_section() {
    let mut state = State::new();
    state.song.sections[0].append_bar();
    state.song.append_section();
    state.song.sections[1].append_bar();
    let origin = at(0, 1, 3);
    state.cursor = at(0, 1, 3);
    assert!(state.enter_chord_from(origin, "G7"));
    assert_eq!(state.song.sections[0].bars[1].get_chord(3), Some(&chord("G7")));
    assert_eq!(state.cursor, at(0, 1, 3));
    state.cursor = at(1, 0, 0);
    assert!(state.enter_chord_from(origin, "Am"));
    assert_eq!(state.song.sections[1].bars[1].get_chord(3), Some(&chord("Am")));
    assert_eq!(state.song.sections[0].bars[1].get_chord(3), Some(&chord("G7")));
    assert!(!state.enter_chord_from(origin, "C7#9"));
    assert!(!state.enter_chord_from(origin, "Cmaj7"));
    assert!(!state.enter_chord_from(origin, ""));
    assert_eq!(state.song.sections[1].bars[1].get_chord(3), Some(&chord("Am")));
    assert_eq!(state.song.sections[1].bars[1].occupied(), 1);
    assert_eq!(state.cursor, at(1, 0, 0));
}

#[test]
fn deleting_on_the_only_empty_bar_of_the_only_section_does_nothing() {
    let mut state = State::new();
    state.should_clear = false;
    state.cursor = at(0, 0, 1);
    state.delete_chord_or_empty_bar();
    assert_eq!(state.song.sections.len(), 1);
    assert_eq!(state.song.sections[0].bars.len(), 1);
    assert!(state.song.sections[0].bars[0].is_empty());
    assert_eq!(state.cursor, at(0, 0, 1));
    assert!(!state.should_clear);
}

#[test]
fn deleting_on_an_empty_slot_of_a_bar_with_chords_does_nothing() {
    let mut state = State::new();
    state.song.sections[0].append_bar();
    state.song.sections[0].bars[0].insert_chord(3, chord("B7"));
    state.cursor = at(0, 0, 1);
    state.delete_chord_or_empty_bar();
    assert_eq!(state.song.sections[0].bars.len(), 2);
    assert_eq!(state.song.sections[0].bars[0].get_chord(3), Some(&chord("B7")));
    assert_eq!(state.cursor, at(0, 0, 1));
}

#[test]
fn resizing_the_bar_under_the_cursor_tells_its_subdivision() {
    let mut state = State::new();
    state.song.sections[0].append_bar();
    state.song.sections[0].bars[1].insert_chord(1, chord("C"));
    state.cursor = at(0, 1, 1);
    state.double_subdivision();
    assert_eq!(state.song.sections[0].bars[1].subdivision, 8);
    assert_eq!(state.song.sections[0].bars[1].get_chord(2), Some(&chord("C")));
    assert_eq!(state.song.sections[0].bars[0].subdivision, 4);
    assert_eq!(state.toast.message, Some(String::from("8 subdivisions")));
    assert_eq!(state.toast.ticks, 2);
    state.double_subdivision();
    assert_eq!(state.toast.message, Some(String::from("16 subdivisions")));
    state.double_subdivision();
    assert_eq!(state.song.sections[0].bars[1].subdivision, 16);
    assert_eq!(state.toast.message, Some(String::from("16 subdivisions")));
    for expected in ["8 subdivisions", "4 subdivisions", "2 subdivisions", "1 subdivisions"] {
        assert!(state.try_reduce_subdivision());
        assert_eq!(state.toast.message, Some(String::from(expected)));
    }
    assert_eq!(state.song.sections[0].bars[1].get_chord(0), Some(&chord("C")));
    state.toast.ticks = 0;
    assert!(!state.try_reduce_subdivision());
    assert_eq!(state.song.sections[0].bars[1].subdivision, 1);
    assert_eq!(state.toast.message, Some(String::from("1 subdivisions")));
    assert_eq!(state.toast.ticks, 2);
    assert_eq!(state.cursor, at(0, 1, 1));
}

#[test]
fn flags_of_the_chord_under_the_cursor_are_flipped() {
    let mut state = State::new();
    state.song.sections[0].bars[0].insert_chord(2, chord("Gm"));
    state.cursor = at(0, 0, 1);
    state.toggle_question();
    state.toggle_special();
    assert_eq!(state.song.sections[0].bars[0].get_chord(2), Some(&chord("Gm")));
    assert_eq!(state.song.sections[0].bars[0].occupied(), 1);
    state.cursor = at(0, 0, 2);
    state.toggle_question();
    assert_eq!(state.song.sections[0].bars[0].get_chord(2), Some(&chord("Gm?")));
    state.toggle_special();
    assert_eq!(state.song.sections[0].bars[0].get_chord(2), Some(&chord("Gm!?")));
    state.toggle_question();
    assert_eq!(state.song.sections[0].bars[0].get_chord(2), Some(&chord("Gm!")));
}

#[test]
fn numbers_are_written_in_decimal() {
    assert_eq!(decimal(0), "0");
    assert_eq!(decimal(7), "7");
    assert_eq!(decimal(10), "10");
    assert_eq!(decimal(16), "16");
    assert_eq!(decimal(109), "109");
    assert_eq!(decimal(65536), "65536");
    assert_eq!(decimal(usize::MAX), usize::MAX.to_string());
}

#[test]
fn messages_are_shown_for_two_frames() {
    let mut state = State::new();
    assert_eq!(state.toast.draw_toast(), None);
    state.toast("hello");
    assert_eq!(state.toast.ticks, 2);
    assert_eq!(state.toast.draw_toast(), Some(String::from("hello")));
    assert_eq!(state.toast.ticks, 1);
    assert_eq!(state.toast.draw_toast(), Some(String::from("hello")));
    assert_eq!(state.toast.ticks, 0);
    assert_eq!(state.toast.draw_toast(), None);
    assert_eq!(state.toast.message, Some(String::from("hello")));
    assert_eq!(state.toast.ticks, 0);
}

#[test]
fn clearing_and_quitting_are_asked_for() {
    let mut state = State::new();
    state.should_clear = false;
    state.schedule_clear();
    assert!(state.should_clear);
    assert!(!state.should_quit);
    state.quit();
    assert!(state.should_quit);
}
