use typist::terminal_ui::center_x;
use typist::terminal_ui::row_of_line;
use typist::terminal_ui::TerminalUI;
use typist::terminal_ui::TextLine;
use typist::text::Text;

fn words(list: &[&str]) -> Vec<String> {
    list.iter().map(|w| w.to_string()).collect()
}

fn wrap_words(words: &Vec<String>, term_width: u16) -> Vec<Text> {
    TerminalUI::new(&Vec::new(), term_width, 24).build_vec_of_text(words)
}

fn layout_lines(words: &Vec<String>, term_width: u16, term_height: u16) -> Vec<TextLine> {
    TerminalUI::new(&Vec::new(), term_width, term_height).build_text_lines(words)
}

fn raws(lines: &[Text]) -> Vec<String> {
    lines.iter().map(|t| t.raw.clone()).collect()
}

fn line_raws(lines: &[TextLine]) -> Vec<String> {
    lines.iter().map(|l| l.text.raw.clone()).collect()
}

#[test]
fn width_40_wraps_at_8_characters() {
    let lines = wrap_words(&words(&["alpha", "beta", "gamma"]), 40);
    assert_eq!(raws(&lines), vec!["alpha ", "beta ", "gamma"]);
    for line in &lines {
        assert!(line.raw.trim_end().chars().count() <= 8);
    }
}

#[test]
fn words_that_fit_share_a_line() {
    // "alpha " holds 6 characters; "be" brings it to 8, which is not beyond 8.
    let lines = wrap_words(&words(&["alpha", "be", "c"]), 40);
    assert_eq!(raws(&lines), vec!["alpha be ", "c"]);
}

#[test]
fn threshold_is_a_fifth_of_the_width_rounded_down() {
    // 44 / 5 = 8: "alpha " and "bet" make 9.
    let lines = wrap_words(&words(&["alpha", "bet"]), 44);
    assert_eq!(raws(&lines), vec!["alpha ", "bet"]);
    // 45 / 5 = 9.
    let lines = wrap_words(&words(&["alpha", "bet"]), 45);
    assert_eq!(raws(&lines), vec!["alpha bet"]);
}

#[test]
fn a_word_longer_than_the_threshold_is_not_split() {
    let lines = wrap_words(&words(&["elephantine", "a", "rhinoceroses", "b"]), 40);
    assert_eq!(raws(&lines), vec!["elephantine ", "a ", "rhinoceroses ", "b"]);
}

#[test]
fn no_line_is_empty_for_a_long_first_word() {
    let lines = wrap_words(&words(&["elephantine"]), 10);
    assert_eq!(raws(&lines), vec!["elephantine"]);
}

#[test]
fn no_words_give_no_lines() {
    let lines = wrap_words(&Vec::new(), 80);
    assert!(lines.is_empty());
}

#[test]
fn width_zero_puts_each_word_on_its_own_line() {
    let lines = wrap_words(&words(&["a", "b", "c"]), 0);
    assert_eq!(raws(&lines), vec!["a ", "b ", "c"]);
}

#[test]
fn lines_read_in_order_give_the_words_joined_by_spaces() {
    let list = words(&["the", "quick", "brown", "fox", "jumps", "over", "the", "lazy", "dog"]);
    for width in [0u16, 5, 17, 40, 80, 200, 1000] {
        let ui = TerminalUI::new(&list, width, 24);
        let flat: String = ui.text_lines_as_chars().into_iter().collect();
        assert_eq!(flat, "the quick brown fox jumps over the lazy dog");
    }
}

#[test]
fn lengths_count_characters() {
    let lines = layout_lines(&words(&["é", "ü"]), 100, 24);
    assert_eq!(line_raws(&lines), vec!["é ü"]);
    assert_eq!(lines[0].length, 3);
}

#[test]
fn lines_are_centred() {
    let lines = layout_lines(&words(&["alpha", "beta", "gamma"]), 40, 24);
    assert_eq!(line_raws(&lines), vec!["alpha ", "beta ", "gamma"]);
    let origins: Vec<(u16, u16, usize)> = lines.iter().map(|l| (l.x, l.y, l.length)).collect();
    assert_eq!(origins, vec![(17, 9, 6), (18, 10, 5), (18, 11, 5)]);
}

#[test]
fn a_line_wider_than_the_terminal_starts_at_column_zero() {
    let lines = layout_lines(&words(&["incomprehensibilities"]), 6, 24);
    assert_eq!(lines[0].x, 0);
    assert_eq!(lines[0].length, 21);
}

#[test]
fn a_block_higher_than_the_terminal_starts_at_row_zero() {
    let lines = layout_lines(&words(&["a", "b", "c"]), 0, 2);
    let rows: Vec<u16> = lines.iter().map(|l| l.y).collect();
    assert_eq!(rows, vec![0, 1, 2]);
}

#[test]
fn center_x_formula() {
    assert_eq!(center_x(80, 10), 35);
    assert_eq!(center_x(81, 11), 35);
    assert_eq!(center_x(10, 10), 0);
    assert_eq!(center_x(10, 11), 0);
    assert_eq!(center_x(10, 1000), 0);
    assert_eq!(center_x(0, 0), 0);
    assert_eq!(center_x(u16::MAX, 0), 32767);
    assert_eq!(center_x(100, usize::MAX), 0);
}

#[test]
fn row_of_line_formula() {
    assert_eq!(row_of_line(24, 3, 0), 9);
    assert_eq!(row_of_line(24, 3, 2), 11);
    assert_eq!(row_of_line(24, 12, 0), 0);
    assert_eq!(row_of_line(24, 13, 5), 5);
    assert_eq!(row_of_line(0, 0, 0), 0);
    assert_eq!(row_of_line(24, 100000, 70000), u16::MAX);
    assert_eq!(row_of_line(u16::MAX, 1, 65535), u16::MAX);
}

#[test]
fn terminal_ui_builds_the_same_lines() {
    let list = words(&["alpha", "beta", "gamma"]);
    let ui = TerminalUI::new(&list, 40, 24);
    assert_eq!(ui.term_width, 40);
    assert_eq!(ui.term_height, 24);
    assert_eq!(raws(&ui.build_vec_of_text(&list)), vec!["alpha ", "beta ", "gamma"]);
    assert_eq!(ui.text_cur_pos.text_lines, ui.build_text_lines(&list));
    assert_eq!(line_raws(&ui.text_cur_pos.text_lines), vec!["alpha ", "beta ", "gamma"]);
    let flat: String = ui.text_lines_as_chars().into_iter().collect();
    assert_eq!(flat, "alpha beta gamma");
    assert_eq!(ui.text_cur_pos.curr_text_line, 0);
    assert_eq!(ui.text_cur_pos.curr_char_idx, 0);
}

#[test]
fn empty_words_are_kept_as_they_are() {
    let lines = wrap_words(&words(&["", "a", ""]), 40);
    let flat: String = raws(&lines).concat();
    assert_eq!(flat, " a ");
}

#[test]
fn there_are_no_more_lines_than_words() {
    let list = words(&["a", "bb", "ccc", "dddd", "eeeee"]);
    for width in [0u16, 10, 20, 30, 100] {
        let lines = wrap_words(&list, width);
        assert!(lines.len() <= list.len());
        assert!(lines.iter().all(|line| !line.raw.is_empty()));
        for line in &lines[..lines.len() - 1] {
            assert!(line.raw.ends_with(' '));
        }
        assert!(!lines[lines.len() - 1].raw.ends_with(' '));
    }
}

#[test]
fn a_line_of_several_words_keeps_to_the_limit() {
    let list = words(&["ab", "cd", "efghijklmnop", "q", "rs", "tuv", "w"]);
    for width in 0..60u16 {
        let limit = (width / 5) as usize;
        for line in wrap_words(&list, width) {
            let visible = line.raw.trim_end();
            assert!(visible.len() <= limit || list.iter().any(|w| w == visible));
        }
    }
}
