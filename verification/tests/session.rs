use typist::render::RenderOp;
use typist::results::Results;
use typist::session::Key;
use typist::session::Session;
use typist::session::SessionState;
use typist::session::Signal;
use typist::text::Text;

fn words_of(list: &[&str]) -> Vec<String> {
    list.iter().map(|w| w.to_string()).collect()
}

fn fresh(list: &[&str]) -> Session {
    let mut session = Session::new(&words_of(list), 80, 24);
    session.terminal_ui.take_output();
    session
}

fn type_all(session: &mut Session, text: &str) -> Vec<Signal> {
    text.chars().map(|c| session.handle_key(Key::Char(c), 0)).collect()
}

fn input_of(session: &Session) -> String {
    session.chars_user_input.iter().collect()
}

fn green(c: char) -> Text {
    let with = Text::from_str(&format!("\u{1b}[38;5;2m{}\u{1b}[39m", c));
    let without = Text::from_str(&format!("{}\u{1b}[39m", c));
    if Text::from_char(c).with_color(typist::text::Color::Green) == with {
        with
    } else {
        without
    }
}

fn red_underlined(c: char) -> Text {
    let with = Text::from_str(&format!("\u{1b}[4m\u{1b}[38;5;1m{}\u{1b}[39m\u{1b}[m", c));
    let without = Text::from_str(&format!("\u{1b}[4m{}\u{1b}[39m\u{1b}[m", c));
    if Text::from_char(c).with_color(typist::text::Color::Red).with_underline() == with {
        with
    } else {
        without
    }
}

#[test]
fn a_new_session_has_not_started() {
    let session = fresh(&["cat", "dog"]);
    assert_eq!(session.state, SessionState::NotStarted);
    let target: String = session.chars_to_type.iter().collect();
    assert_eq!(target, "cat dog");
    assert!(session.chars_user_input.is_empty());
    assert_eq!(session.results, Results::new(7));
    assert!(!session.test_is_over());
}

#[test]
fn typing_the_text_exactly_counts_no_typo() {
    let mut session = fresh(&["cat", "dog"]);
    let signals = type_all(&mut session, "cat dog");
    assert_eq!(signals[..6], [Signal::Continue; 6]);
    assert_eq!(signals[6], Signal::Finished);
    assert_eq!(session.state, SessionState::Completed);
    assert_eq!(session.results.n_chars_typed, 7);
    assert_eq!(session.results.n_typos, 0);
    assert_eq!(session.results.n_backspaces, 0);
    let summary = session.summary();
    assert_eq!(summary.incorrect_at_end, 0);
    assert_eq!(summary.accuracy_error_pct, 0);
    assert_eq!(summary.fudge_factor, 0);
    assert_eq!(summary.n_chars_typed, 7);
}

#[test]
fn a_corrected_typo_stays_counted() {
    let mut session = fresh(&["cat"]);
    type_all(&mut session, "cx");
    assert_eq!(session.results.n_typos, 1);
    assert_eq!(session.handle_key(Key::Backspace, 0), Signal::Continue);
    assert_eq!(session.handle_key(Key::Backspace, 0), Signal::Continue);
    assert_eq!(input_of(&session), "");
    let signals = type_all(&mut session, "cat");
    assert_eq!(signals, vec![Signal::Continue, Signal::Continue, Signal::Finished]);
    assert_eq!(session.results.n_chars_typed, 5);
    assert_eq!(session.results.n_backspaces, 2);
    assert_eq!(session.results.n_typos, 1);
    assert_eq!(input_of(&session), "cat");
    let summary = session.summary();
    assert_eq!(summary.incorrect_at_end, 0);
    assert_eq!(summary.fudge_factor, 1);
}

#[test]
fn the_third_character_of_a_three_character_text_ends_the_session() {
    let mut session = fresh(&["cat"]);
    let signals = type_all(&mut session, "cxt");
    assert_eq!(signals, vec![Signal::Continue, Signal::Continue, Signal::Finished]);
    assert_eq!(session.state, SessionState::Completed);
    session.terminal_ui.take_output();
    // What follows is no longer taken.
    assert_eq!(session.handle_key(Key::Backspace, 0), Signal::Continue);
    assert_eq!(session.handle_key(Key::Backspace, 0), Signal::Continue);
    type_all(&mut session, "at");
    assert_eq!(input_of(&session), "cxt");
    assert_eq!(session.results.n_chars_typed, 3);
    assert_eq!(session.results.n_backspaces, 0);
    assert_eq!(session.results.n_typos, 1);
    let summary = session.summary();
    assert_eq!(summary.incorrect_at_end, 1);
    assert_eq!(summary.fudge_factor, 0);
    assert_eq!(summary.accuracy_error_pct, 33);
    assert!(session.terminal_ui.out.is_empty());
}

#[test]
fn a_wrong_last_character_is_a_typo() {
    let mut session = fresh(&["cat"]);
    type_all(&mut session, "cax");
    assert_eq!(session.state, SessionState::Completed);
    assert_eq!(session.results.n_typos, 1);
    assert_eq!(session.summary().incorrect_at_end, 1);
}

#[test]
fn the_clock_runs_from_the_first_to_the_last_keystroke() {
    let mut session = fresh(&["cat"]);
    session.handle_key(Key::Other, 500);
    assert_eq!(session.state, SessionState::NotStarted);
    session.handle_key(Key::Char('c'), 1000);
    assert_eq!(session.state, SessionState::InProgress);
    assert_eq!(session.started_at, 1000);
    assert_eq!(session.results.ms_elapsed, 0);
    session.handle_key(Key::Char('a'), 2000);
    assert_eq!(session.started_at, 1000);
    session.handle_key(Key::Char('t'), 3500);
    assert_eq!(session.results.ms_elapsed, 2500);
    assert_eq!(session.summary().elapsed_seconds, 2);
}

#[test]
fn a_clock_that_runs_backwards_gives_zero() {
    let mut session = fresh(&["ab"]);
    session.handle_key(Key::Char('a'), 1000);
    session.handle_key(Key::Char('b'), 400);
    assert_eq!(session.results.ms_elapsed, 0);
}

#[test]
fn backspace_on_empty_input_changes_nothing() {
    let mut session = fresh(&["cat"]);
    assert_eq!(session.handle_key(Key::Backspace, 0), Signal::Continue);
    assert_eq!(session.results, Results::new(3));
    assert_eq!(session.state, SessionState::NotStarted);
    assert_eq!(session.terminal_ui.take_output(), vec![RenderOp::Flush]);
}

#[test]
fn backspace_to_the_start_leaves_the_session_in_progress() {
    let mut session = fresh(&["cat"]);
    session.handle_key(Key::Char('c'), 10);
    session.handle_key(Key::Backspace, 20);
    assert_eq!(session.state, SessionState::InProgress);
    assert_eq!(session.started_at, 10);
    session.handle_key(Key::Char('c'), 30);
    assert_eq!(session.started_at, 10);
}

#[test]
fn counters_never_decrease() {
    let mut session = fresh(&["alpha", "beta", "gamma", "delta"]);
    let keys = [
        Key::Char('a'),
        Key::Char('x'),
        Key::Backspace,
        Key::Other,
        Key::Ctrl('x'),
        Key::Backspace,
        Key::Backspace,
        Key::Char('a'),
        Key::Char('l'),
        Key::Char('q'),
        Key::Backspace,
        Key::Ctrl('r'),
        Key::Char('p'),
    ];
    let mut before = session.results;
    for key in keys {
        session.handle_key(key, 0);
        let after = session.results;
        assert!(after.n_chars_typed >= before.n_chars_typed);
        assert!(after.n_typos >= before.n_typos);
        assert!(after.n_backspaces >= before.n_backspaces);
        before = after;
    }
    assert_eq!(before.n_chars_typed, 6);
    assert_eq!(before.n_typos, 2);
    assert_eq!(before.n_backspaces, 3);
}

#[test]
fn a_correct_character_is_painted_green_and_the_cursor_moves_on() {
    let mut session = Session::new(&words_of(&["alpha", "beta", "gamma"]), 40, 24);
    session.terminal_ui.take_output();
    assert_eq!(session.handle_key(Key::Char('a'), 0), Signal::Continue);
    assert_eq!(
        session.terminal_ui.take_output(),
        vec![RenderOp::Write(green('a')), RenderOp::Goto(18, 9), RenderOp::Flush]
    );
}

#[test]
fn a_wrong_character_shows_the_expected_one_in_red_and_underlined() {
    let mut session = Session::new(&words_of(&["alpha", "beta", "gamma"]), 40, 24);
    session.terminal_ui.take_output();
    assert_eq!(session.handle_key(Key::Char('z'), 0), Signal::Continue);
    assert_eq!(
        session.terminal_ui.take_output(),
        vec![RenderOp::Write(red_underlined('a')), RenderOp::Goto(18, 9), RenderOp::Flush]
    );
    assert_eq!(session.results.n_typos, 1);
}

#[test]
fn the_space_at_a_line_end_takes_the_cursor_to_the_next_line() {
    let mut session = Session::new(&words_of(&["alpha", "beta", "gamma"]), 40, 24);
    type_all(&mut session, "alpha");
    session.terminal_ui.take_output();
    session.handle_key(Key::Char(' '), 0);
    assert_eq!(
        session.terminal_ui.take_output(),
        vec![RenderOp::Write(green(' ')), RenderOp::Goto(18, 10), RenderOp::Flush]
    );
    assert_eq!(session.terminal_ui.text_cur_pos.curr_text_line, 1);
    assert_eq!(session.terminal_ui.text_cur_pos.curr_char_idx, 0);
}

#[test]
fn backspace_shows_the_character_unmarked_again() {
    let mut session = Session::new(&words_of(&["alpha", "beta", "gamma"]), 40, 24);
    type_all(&mut session, "al");
    session.terminal_ui.take_output();
    session.handle_key(Key::Backspace, 0);
    assert_eq!(
        session.terminal_ui.take_output(),
        vec![
            RenderOp::Goto(18, 9),
            RenderOp::Write(Text::from_str("\u{1b}[39ml\u{1b}[39m")),
            RenderOp::Goto(18, 9),
            RenderOp::Flush,
        ]
    );
    assert_eq!(input_of(&session), "a");
}

#[test]
fn backspace_into_the_line_before_parks_after_its_end() {
    let mut session = Session::new(&words_of(&["alpha", "beta", "gamma"]), 40, 24);
    type_all(&mut session, "alpha ");
    session.handle_key(Key::Backspace, 0);
    assert_eq!(session.terminal_ui.text_cur_pos.curr_text_line, 0);
    assert_eq!(session.terminal_ui.text_cur_pos.curr_char_idx, 6);
    assert_eq!(input_of(&session), "alpha");
}

#[test]
fn the_completing_character_draws_nothing() {
    let mut session = fresh(&["ab"]);
    session.handle_key(Key::Char('a'), 0);
    session.terminal_ui.take_output();
    assert_eq!(session.handle_key(Key::Char('b'), 0), Signal::Finished);
    assert!(session.terminal_ui.out.is_empty());
    assert!(session.test_is_over());
}

#[test]
fn other_keys_only_flush() {
    let mut session = fresh(&["ab"]);
    assert_eq!(session.handle_key(Key::Other, 0), Signal::Continue);
    assert_eq!(session.handle_key(Key::Ctrl('x'), 0), Signal::Continue);
    assert_eq!(session.terminal_ui.take_output(), vec![RenderOp::Flush, RenderOp::Flush]);
    assert_eq!(session.results, Results::new(2));
}

#[test]
fn ctrl_q_quits_and_hands_the_terminal_back() {
    let mut session = fresh(&["ab"]);
    assert_eq!(session.handle_key(Key::Ctrl('q'), 0), Signal::Quit);
    assert_eq!(
        session.terminal_ui.take_output(),
        vec![
            RenderOp::SuspendRawMode,
            RenderOp::ClearAll,
            RenderOp::SteadyBlock,
            RenderOp::Goto(1, 1),
            RenderOp::Flush,
        ]
    );
}

#[test]
fn ctrl_r_asks_for_a_restart_in_every_state() {
    let mut session = fresh(&["ab"]);
    assert_eq!(session.handle_key(Key::Ctrl('r'), 0), Signal::Restart);
    type_all(&mut session, "ab");
    assert_eq!(session.state, SessionState::Completed);
    assert_eq!(session.handle_key(Key::Ctrl('r'), 0), Signal::Restart);
    assert_eq!(session.handle_key(Key::Ctrl('q'), 0), Signal::Quit);
}

#[test]
fn a_session_without_text_ends_with_the_first_character() {
    let mut session = fresh(&[]);
    assert!(session.chars_to_type.is_empty());
    assert!(session.test_is_over());
    assert_eq!(session.state, SessionState::NotStarted);
    assert_eq!(session.handle_key(Key::Backspace, 0), Signal::Continue);
    assert_eq!(session.handle_key(Key::Char('a'), 5), Signal::Finished);
    assert_eq!(session.results.n_typos, 1);
    assert_eq!(session.results.n_chars_typed, 1);
    let summary = session.summary();
    assert_eq!(summary.incorrect_at_end, 0);
    assert_eq!(summary.accuracy_error_pct, 0);
}

#[test]
fn restart_brings_a_fresh_session_on_the_new_words() {
    let mut session = fresh(&["cat"]);
    type_all(&mut session, "cx");
    session.restart(&words_of(&["bird", "fish"]));
    let target: String = session.chars_to_type.iter().collect();
    assert_eq!(target, "bird fish");
    assert_eq!(session.state, SessionState::NotStarted);
    assert_eq!(session.results, Results::new(9));
    assert!(session.chars_user_input.is_empty());
    assert_eq!(session.terminal_ui.text_cur_pos.curr_char_idx, 0);
}

#[test]
fn get_correct_char_is_the_character_under_the_last_keystroke() {
    let mut session = fresh(&["cat"]);
    type_all(&mut session, "xy");
    assert_eq!(session.get_correct_char(), 'a');
}

#[test]
fn the_first_screen_is_drawn_in_order() {
    let mut session = Session::new(&words_of(&["alpha", "beta", "gamma"]), 40, 24);
    let ops = session.terminal_ui.take_output();
    let restart = Text::from_str("ctrl-r").with_color(typist::text::Color::Green);
    let quit = Text::from_str("ctrl-q").with_color(typist::text::Color::Red);
    assert_eq!(
        ops,
        vec![
            RenderOp::ClearAll,
            RenderOp::HideCursor,
            RenderOp::Flush,
            RenderOp::Goto(17, 9),
            RenderOp::Write(Text::from_str("alpha ")),
            RenderOp::Goto(18, 10),
            RenderOp::Write(Text::from_str("beta ")),
            RenderOp::Goto(18, 11),
            RenderOp::Write(Text::from_str("gamma")),
            RenderOp::Flush,
            RenderOp::Goto(12, 23),
            RenderOp::Write(restart),
            RenderOp::Write(Text::from_str(" to restart")),
            RenderOp::Goto(14, 24),
            RenderOp::Write(quit),
            RenderOp::Write(Text::from_str(" to quit")),
            RenderOp::Flush,
            RenderOp::Goto(17, 9),
            RenderOp::BlinkingBar,
            RenderOp::ShowCursor,
            RenderOp::Flush,
        ]
    );
}

#[test]
fn a_session_without_keystrokes_has_an_empty_summary() {
    let session = fresh(&["cat", "dog"]);
    let summary = session.summary();
    assert_eq!(summary.n_chars_typed, 0);
    assert_eq!(summary.incorrect_at_end, 0);
    assert_eq!(summary.accuracy_error_pct, 0);
    assert_eq!(summary.fudge_factor, 0);
    assert_eq!(summary.ms_elapsed, 0);
    assert_eq!(summary.elapsed_seconds, 0);
}

#[test]
fn typing_any_text_exactly_counts_every_character_and_no_typo() {
    let list = words_of(&["the", "quick", "brown", "fox", "jumps", "over", "the", "lazy", "dog"]);
    for width in [0u16, 20, 40, 80, 400] {
        let mut session = Session::new(&list, width, 24);
        let text: String = session.chars_to_type.iter().collect();
        assert_eq!(text, list.join(" "));
        let mut now = 100;
        for c in text.chars() {
            session.handle_key(Key::Char(c), now);
            now += 7;
        }
        assert_eq!(session.state, SessionState::Completed);
        assert_eq!(session.results.n_chars_typed as usize, text.chars().count());
        assert_eq!(session.results.n_typos, 0);
        assert_eq!(session.results.n_backspaces, 0);
        assert_eq!(session.results.ms_elapsed, 7 * (text.chars().count() as u128 - 1));
        assert_eq!(input_of(&session), text);
    }
}

#[test]
fn the_typos_counted_cover_the_places_that_differ() {
    let mut session = fresh(&["alpha", "beta"]);
    let keys = "axpha\u{8}\u{8}\u{8}\u{8}lphx beza";
    for c in keys.chars() {
        let key = if c == '\u{8}' { Key::Backspace } else { Key::Char(c) };
        session.handle_key(key, 0);
        let summary = session.summary();
        assert!(summary.fudge_factor >= 0);
        assert!(summary.incorrect_at_end <= session.results.n_typos as usize);
    }
    assert_eq!(session.state, SessionState::Completed);
    assert_eq!(input_of(&session), "alphx beza");
    assert_eq!(session.results.n_typos, 3);
    assert_eq!(session.summary().incorrect_at_end, 2);
    assert_eq!(session.summary().fudge_factor, 1);
}
