//! The engine of a terminal typing exercise: it draws a set of words from a
//! lexicon with a seeded generator, lays them out as centred lines, tracks the
//! cursor across those lines, and counts what the user types.

pub mod cursor;
pub mod engine;
pub mod lexicon;
pub mod render;
pub mod results;
pub mod session;
pub mod terminal_ui;
pub mod text;
pub mod word_selector;
pub mod wrap;
