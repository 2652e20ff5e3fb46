use chordsheet::bar::Bar;
use chordsheet::chord::Chord;
use chordsheet::entry::Key;
use chordsheet::keys::KeyRequest;
use chordsheet::state::{CursorPos, State};

fn at(section: usize, bar: usize, subdivision: usize) -> CursorPos {
    CursorPos { section, bar, subdivision }
}

fn three_bars() -> State {
    let mut state = State::new();
    state.song.sections[0].bars.push(Bar::new(4, 2));
    state.song.sections[0].bars.push(Bar::new(4, 8));
    state.song.append_section();
    state
}

#[test]
fn arrows_and_function_keys_move_the_cursor() {
    let mut state = three_bars();
    assert_eq!(state.key(Key::Right), KeyRequest::Nothing);
    assert_eq!(state.cursor, at(0, 0, 1));
    assert_eq!(state.key(Key::Left), KeyRequest::Nothing);
    assert_eq!(state.cursor, at(0, 0, 0));
    assert_eq!(state.key(Key::F4), KeyRequest::Nothing);
    assert_eq!(state.cursor, at(0, 1, 0));
    assert_eq!(state.key(Key::F3), KeyRequest::Nothing);
    assert_eq!(state.cursor, at(0, 0, 0));
    assert_eq!(state.key(Key::Down), KeyRequest::Nothing);
    assert_eq!(state.cursor, at(0, 2, 7));
    assert_eq!(state.key(Key::Up), KeyRequest::Nothing);
    assert_eq!(state.cursor, at(0, 0, 0));
    assert_eq!(state.key(Key::Other), KeyRequest::Nothing);
    assert_eq!(state.cursor, at(0, 0, 0));
}

#[test]
fn space_tab_and_s_move_the_cursor() {
    let mut state = three_bars();
    assert_eq!(state.key(Key::Character(' ')), KeyRequest::Nothing);
    assert_eq!(state.cursor, at(0, 0, 1));
    assert_eq!(state.key(Key::Character('\t')), KeyRequest::Nothing);
    assert_eq!(state.cursor, at(0, 1, 0));
    assert_eq!(state.key(Key::Character('s')), KeyRequest::Nothing);
    assert_eq!(state.cursor, at(1, 0, 0));
    assert_eq!(state.key(Key::Character('s')), KeyRequest::Nothing);
    assert_eq!(state.cursor, at(2, 0, 0));
    assert_eq!(state.song.sections.len(), 3);
    assert_eq!(state.song.sections[2].label, "C");
}

#[test]
fn colon_opens_the_command_line() {
    let mut state = three_bars();
    assert_eq!(state.key(Key::Character(':')), KeyRequest::CommandLine);
    assert_eq!(state.cursor, at(0, 0, 0));
}

#[test]
fn note_letters_open_a_chord_entry() {
    let mut state = three_bars();
    for c in ['a', 'B', 'c', 'D', 'e', 'F', 'g'] {
        assert_eq!(state.key(Key::Character(c)), KeyRequest::ChordEntry(c));
    }
    for c in ['h', 'x', '7', '#', '\n', 'S', 'é'] {
        assert_eq!(state.key(Key::Character(c)), KeyRequest::Nothing);
    }
    assert_eq!(state.cursor, at(0, 0, 0));
    assert!(state.song.sections[0].bars[0].is_empty());
}

#[test]
fn marks_flip_the_flags_of_the_chord_under_the_cursor() {
    let mut state = three_bars();
    state.enter_chord(at(0, 0, 0), "D7");
    assert_eq!(state.key(Key::Character('?')), KeyRequest::Nothing);
    assert_eq!(
        state.song.sections[0].bars[0].get_chord(0),
        Some(&Chord::parse("D7?").unwrap())
    );
    assert_eq!(state.key(Key::Character('!')), KeyRequest::Nothing);
    assert_eq!(
        state.song.sections[0].bars[0].get_chord(0),
        Some(&Chord::parse("D7!?").unwrap())
    );
    state.cursor = at(0, 0, 1);
    state.key(Key::Character('!'));
    assert_eq!(state.song.sections[0].bars[0].occupied(), 1);
}

#[test]
fn page_keys_resize_the_bar_under_the_cursor() {
    let mut state = three_bars();
    assert_eq!(state.key(Key::PageUp), KeyRequest::Nothing);
    assert_eq!(state.song.sections[0].bars[0].subdivision, 8);
    assert_eq!(state.toast.message, Some(String::from("8 subdivisions")));
    assert_eq!(state.key(Key::PageDown), KeyRequest::Touch);
    assert_eq!(state.song.sections[0].bars[0].subdivision, 4);
    assert_eq!(state.toast.message, Some(String::from("4 subdivisions")));
    assert_eq!(state.song.sections[0].bars[1].subdivision, 2);
}

#[test]
fn delete_key_deletes_at_the_cursor() {
    let mut state = three_bars();
    state.enter_chord(at(0, 1, 1), "E");
    state.cursor = at(0, 1, 1);
    assert!(state.takes_key(Key::Delete));
    assert_eq!(state.key(Key::Delete), KeyRequest::Nothing);
    assert_eq!(state.song.sections[0].bars.len(), 3);
    assert!(state.song.sections[0].bars[1].is_empty());
    assert_eq!(state.key(Key::Delete), KeyRequest::Nothing);
    assert_eq!(state.song.sections[0].bars.len(), 2);
    assert_eq!(state.cursor, at(0, 1, 1));
    state.cursor = at(1, 0, 0);
    assert!(state.takes_key(Key::Delete));
    assert_eq!(state.key(Key::Delete), KeyRequest::Nothing);
    assert_eq!(state.song.sections.len(), 1);
    assert_eq!(state.cursor, at(0, 1, 7));
}

#[test]
fn the_first_section_is_deleted_like_any_other() {
    let mut state = State::new();
    assert_eq!(state.key(Key::Character('s')), KeyRequest::Nothing);
    assert_eq!(state.cursor, at(1, 0, 0));
    state.song.sections[1].bars[0].subdivision = 8;
    assert_eq!(state.key(Key::F3), KeyRequest::Nothing);
    assert_eq!(state.cursor, at(0, 1, 0));
    assert!(state.on_bar_or_end());
    assert!(state.takes_key(Key::Delete));
    assert_eq!(state.key(Key::Delete), KeyRequest::Nothing);
    assert_eq!(state.song.sections.len(), 2);
    assert_eq!(state.cursor, at(0, 1, 0));
    assert_eq!(state.key(Key::F3), KeyRequest::Nothing);
    assert_eq!(state.cursor, at(0, 0, 0));
    state.should_clear = false;
    assert!(state.takes_key(Key::Delete));
    assert_eq!(state.key(Key::Delete), KeyRequest::Nothing);
    assert_eq!(state.song.sections.len(), 1);
    assert_eq!(state.song.sections[0].label, "B");
    assert_eq!(state.song.sections[0].bars[0].subdivision, 8);
    assert_eq!(state.cursor, at(0, 0, 0));
    assert!(state.should_clear);
    assert!(state.on_slot());
    assert!(state.song.is_valid());
    assert_eq!(state.key(Key::Delete), KeyRequest::Nothing);
    assert_eq!(state.song.sections.len(), 1);
    assert_eq!(state.cursor, at(0, 0, 0));
}

#[test]
fn only_going_forward_needs_a_next_slot_number() {
    let mut state = State::new();
    state.cursor = at(0, 0, usize::MAX);
    assert!(!state.takes_key(Key::Right));
    assert!(!state.takes_key(Key::Character(' ')));
    assert!(state.takes_key(Key::Left));
    assert!(state.takes_key(Key::Delete));
    assert!(state.takes_key(Key::Character('\t')));
    state.cursor = at(0, 0, 0);
    assert!(state.takes_key(Key::Right));
    assert!(state.takes_key(Key::Character(' ')));
}

#[test]
fn one_past_the_last_bar_keys_find_nothing_under_the_cursor() {
    let mut state = three_bars();
    state.enter_chord(at(0, 2, 0), "A");
    state.cursor = at(0, 3, 0);
    state.should_clear = false;
    for key in [Key::Delete, Key::PageUp, Key::PageDown, Key::Character('?'), Key::Character('!')]
    {
        state.key(key);
        assert_eq!(state.cursor, at(0, 3, 0));
        assert_eq!(state.song.sections.len(), 2);
        assert_eq!(state.song.sections[0].bars.len(), 3);
        assert_eq!(state.song.sections[0].bars[2].subdivision, 8);
        assert_eq!(state.song.sections[0].bars[2].get_chord(0), Some(&Chord::parse("A").unwrap()));
        assert_eq!(state.toast.message, None);
        assert!(!state.should_clear);
    }
    assert!(!state.try_reduce_subdivision());
    assert_eq!(state.key(Key::Character('c')), KeyRequest::ChordEntry('c'));
    assert_eq!(state.find_cursor(), Some((3, 32)));
    let frame = state.draw();
    assert!(frame.iter().all(|line| line.iter().all(|span| !span.reverse)));
    assert_eq!(state.key(Key::Left), KeyRequest::Nothing);
    assert_eq!(state.cursor, at(0, 2, 7));
    state.cursor = at(0, 3, 0);
    assert_eq!(state.key(Key::Right), KeyRequest::Nothing);
    assert_eq!(state.cursor, at(1, 0, 0));
    assert_eq!(state.key(Key::Left), KeyRequest::Nothing);
    assert_eq!(state.cursor, at(0, 3, 0));
    assert_eq!(state.key(Key::Character('\t')), KeyRequest::Nothing);
    assert_eq!(state.cursor, at(1, 0, 0));
    assert_eq!(state.key(Key::Up), KeyRequest::Nothing);
    assert_eq!(state.cursor, at(0, 0, 0));
}
