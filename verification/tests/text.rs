use typist::lexicon::Lexicon;
use typist::text::Color;
use typist::text::Text;

fn no_color() -> bool {
    // The terminal library leaves green and red out where colours are
    // switched off for the process.
    Text::from_str("").with_color(Color::Green).raw == "\u{1b}[39m"
}

#[test]
fn text_from_string_str_and_char() {
    assert_eq!(Text::from(String::from("abc")).raw, "abc");
    assert_eq!(Text::from_str("abc").raw, "abc");
    assert_eq!(Text::from_char('x').raw, "x");
    assert_eq!(Text::default().raw, "");
}

#[test]
fn len_counts_characters() {
    assert_eq!(Text::from_str("").len(), 0);
    assert_eq!(Text::from_str("alpha ").len(), 6);
    assert_eq!(Text::from_str("héllo").len(), 5);
}

#[test]
fn render_gives_the_characters_back() {
    assert_eq!(Text::from_str("alpha ").render(), "alpha ");
}

#[test]
fn as_chars_gives_each_character() {
    assert_eq!(Text::from_str("héy ").as_chars(), vec!['h', 'é', 'y', ' ']);
    assert!(Text::from_str("").as_chars().is_empty());
}

#[test]
fn clone_is_equal() {
    let t = Text::from_str("abc");
    assert_eq!(t.clone(), t);
}

#[test]
fn with_color_wraps_the_text() {
    let green = Text::from_str("ok").with_color(Color::Green);
    let red = Text::from_str("no").with_color(Color::Red);
    if no_color() {
        assert_eq!(green.raw, "ok\u{1b}[39m");
        assert_eq!(red.raw, "no\u{1b}[39m");
    } else {
        assert_eq!(green.raw, "\u{1b}[38;5;2mok\u{1b}[39m");
        assert_eq!(red.raw, "\u{1b}[38;5;1mno\u{1b}[39m");
    }
}

#[test]
fn the_default_colour_is_always_written() {
    assert_eq!(Text::from_str("x").with_color(Color::Reset).raw, "\u{1b}[39mx\u{1b}[39m");
}

#[test]
fn with_underline_wraps_the_text() {
    assert_eq!(Text::from_str("x").with_underline().raw, "\u{1b}[4mx\u{1b}[m");
}

#[test]
fn the_bundled_lexicon() {
    let lexicon = Lexicon::default();
    assert_eq!(lexicon.len(), 64);
    assert_eq!(lexicon.words().len(), 64);
    assert_eq!(lexicon.words()[0], "the");
    assert_eq!(lexicon.words()[63], "work");
    for word in lexicon.words() {
        assert!(!word.is_empty());
        assert!(word.chars().all(|c| c.is_ascii_lowercase()));
    }
    let mut sorted = lexicon.words().clone();
    sorted.sort();
    sorted.dedup();
    assert_eq!(sorted.len(), 64);
}

#[test]
fn a_lexicon_from_lines_is_in_lower_case() {
    let lines = vec![String::from("Hello"), String::from("WORLD"), String::from("it's"), String::from("Éa")];
    let lexicon = Lexicon::from_lines(&lines);
    assert_eq!(lexicon.len(), 4);
    assert_eq!(*lexicon.words(), vec!["hello", "world", "it's", "Éa"]);
}

#[test]
fn a_lexicon_from_no_lines_is_empty() {
    let lexicon = Lexicon::from_lines(&Vec::new());
    assert_eq!(lexicon.len(), 0);
}
