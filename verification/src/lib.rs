//! An editor for lead-sheet chord charts.
//!
//! A song is a sequence of labelled sections, a section a sequence of bars,
//! and a bar a number of equal slots, some of which hold a chord. The library
//! reads and writes chords in their notation, keeps the song and the cursor
//! on it, moves the cursor and edits the song key by key, and says where
//! everything stands on the screen. Reading keys, drawing, and files are left
//! to the program around it.

pub mod text;
pub mod chord;
pub mod grammar;
pub mod bar;
pub mod song;
pub mod state;
pub mod navigation;
pub mod editing;
pub mod layout;
pub mod entry;
pub mod command;
pub mod keys;
pub mod export;
pub mod frame;
