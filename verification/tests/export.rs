use chordsheet::bar::Bar;
use chordsheet::chord::Chord;
use chordsheet::export::PREAMBLE;
use chordsheet::song::Song;

#[test]
fn the_page_begins_with_the_style_sheet() {
    assert!(PREAMBLE.starts_with("<style>\n            html {\n                font-size: 24px;\n"));
    assert!(PREAMBLE.ends_with("            Sub {\n                display: flex;\n            }\n        </style>\n"));
    assert_eq!(PREAMBLE.lines().count(), 24);
    assert_eq!(PREAMBLE.len(), 534);
}

#[test]
fn a_bar_is_an_element_with_an_element_for_each_slot() {
    let mut bar = Bar::new(4, 2);
    bar.insert_chord(1, Chord::parse("F#-7").unwrap());
    assert_eq!(
        bar.to_html(12),
        "<Bar style=\"width: calc(100%/12);\">\
         <Sub style=\"width: calc(100%/2);\"></Sub>\n\
         <Sub style=\"width: calc(100%/2);\">F#-7</Sub>\n\
         </Bar>\n"
    );
    assert_eq!(Bar::new(4, 0).to_html(4), "<Bar style=\"width: calc(100%/4);\"></Bar>\n");
}

#[test]
fn a_song_is_a_page_of_sections() {
    let mut song = Song::new();
    song.sections[0].bars[0].insert_chord(0, Chord::parse("C").unwrap());
    song.append_section();
    song.sections[1].wrap = 2;
    song.sections[1].bars[0].subdivision = 1;
    let sub = "<Sub style=\"width: calc(100%/4);\">";
    let expected = format!(
        "{PREAMBLE}<h2>A</h2><Section><Bar style=\"width: calc(100%/4);\">\
         {sub}C</Sub>\n{sub}</Sub>\n{sub}</Sub>\n{sub}</Sub>\n</Bar>\n</Section>\n\
         <h2>B</h2><Section><Bar style=\"width: calc(100%/2);\">\
         <Sub style=\"width: calc(100%/1);\"></Sub>\n</Bar>\n</Section>\n"
    );
    assert_eq!(song.to_html(), expected);
    assert_eq!(song.sections[1].to_html(), &expected[expected.find("<h2>B").unwrap()..]);
}

#[test]
fn a_song_without_sections_is_the_style_sheet_alone() {
    let mut song = Song::new();
    song.sections.clear();
    assert_eq!(song.to_html(), PREAMBLE);
}
