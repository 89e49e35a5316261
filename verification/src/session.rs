//! One exercise: what is to be typed, what was typed, and the counters. Each
//! key moves it one step.

use crate::cursor::advance;
use crate::cursor::lemma_forward_is_the_next_char;
use crate::cursor::linear;
use crate::cursor::no_empty_line;
use crate::cursor::on_a_char;
use crate::cursor::retreat;
use crate::cursor::total;
use crate::lexicon::word_chars;
use crate::render::Drawn;
use crate::render::Expect;
use crate::render::lemma_wrote_both;
use crate::render::wrote;
use crate::results::bump;
use crate::results::bumped;
use crate::results::lemma_mismatches_grow;
use crate::results::lemma_mismatches_of_prefix;
use crate::results::mismatches;
use crate::results::mismatches_below;
use crate::results::Results;
use crate::results::Summary;
use crate::terminal_ui::backspace_shows;
use crate::terminal_ui::correct_shows;
use crate::terminal_ui::incorrect_shows;
use crate::terminal_ui::lemma_lengths_add_up;
use crate::terminal_ui::line_lengths;
use crate::terminal_ui::line_texts;
use crate::terminal_ui::QUIT_CHAR;
use crate::terminal_ui::quit_shows;
use crate::terminal_ui::RESTART_CHAR;
use crate::terminal_ui::screen_shows;
use crate::terminal_ui::TerminalUI;
use crate::terminal_ui::TextLine;
use crate::wrap::joined;
use crate::wrap::max_line_len;
use crate::wrap::no_empty_word;
use crate::wrap::wrapped;
use vstd::prelude::*;

verus! {

/// A key as the exercise sees it.
#[derive(Clone, Copy, Debug, PartialEq, Eq, Structural)]
pub enum Key {
    /// A character.
    Char(char),
    /// A character typed with the control key held.
    Ctrl(char),
    /// The backspace key.
    Backspace,
    /// Any other key.
    Other,
}

/// How far an exercise has come.
#[derive(Clone, Copy, Debug, PartialEq, Eq, Structural)]
pub enum SessionState {
    /// No character was typed yet.
    NotStarted,
    /// The first character was typed, the last one not yet.
    InProgress,
    /// As many characters were typed as the text holds.
    Completed,
}

/// What a key asks of whoever runs the exercise.
#[derive(Clone, Copy, Debug, PartialEq, Eq, Structural)]
pub enum Signal {
    /// Go on with the next key.
    Continue,
    /// The text was typed to its end with this key: show the results.
    Finished,
    /// Start a new exercise.
    Restart,
    /// Leave.
    Quit,
}

/// An exercise as plain values.
pub struct SessionView {
    /// The text to type.
    pub target: Seq<char>,
    /// What was typed and not taken back.
    pub input: Seq<char>,
    /// The counters.
    pub results: Results,
    /// How far the exercise has come.
    pub state: SessionState,
    /// The time of the first keystroke, in milliseconds.
    pub started_at: u128,
    /// The cursor's line and offset.
    pub cursor: (int, int),
    /// The length of each line of the layout.
    pub lengths: Seq<int>,
}

/// The time from `start` to `end`; 0 where the end lies before the start.
pub open spec fn elapsed(start: u128, end: u128) -> u128 {
    if end >= start {
        (end - start) as u128
    } else {
        0
    }
}

/// Whether the key is the one that quits.
pub open spec fn is_quit(key: Key) -> bool {
    key == Key::Ctrl(QUIT_CHAR)
}

/// Whether the key is the one that restarts.
pub open spec fn is_restart(key: Key) -> bool {
    key == Key::Ctrl(RESTART_CHAR)
}

/// Whether a character typed now brings the input to the length of the text.
pub open spec fn completes(s: SessionView) -> bool {
    s.input.len() + 1 >= s.target.len()
}

/// The character that the next keystroke is held against: the one at the
/// place where it lands, or the last one of the text where it lands beyond.
/// (It lands beyond only where the text is empty, and then nothing matches.)
pub open spec fn expected_char(s: SessionView) -> Option<char> {
    if s.target.len() == 0 {
        None
    } else if s.input.len() < s.target.len() {
        Some(s.target[s.input.len() as int])
    } else {
        Some(s.target.last())
    }
}

/// The exercise after the character `c` was typed at time `now`. The
/// character is appended and counted; the first one starts the clock. Where
/// it does not match the expected character it is counted as a typo. Where it
/// brings the input to the length of the text, the clock is stopped and the
/// exercise is complete; otherwise the cursor moves one step forward.
pub open spec fn typed(s: SessionView, c: char, now: u128) -> SessionView {
    let started_at = if s.state == SessionState::NotStarted {
        now
    } else {
        s.started_at
    };
    let typo = expected_char(s) != Some(c);
    SessionView {
        target: s.target,
        input: s.input.push(c),
        results: Results {
            ms_elapsed: if completes(s) {
                elapsed(started_at, now)
            } else {
                s.results.ms_elapsed
            },
            n_chars_to_type: s.results.n_chars_to_type,
            n_chars_typed: bumped(s.results.n_chars_typed),
            n_typos: if typo {
                bumped(s.results.n_typos)
            } else {
                s.results.n_typos
            },
            n_backspaces: s.results.n_backspaces,
        },
        state: if completes(s) {
            SessionState::Completed
        } else {
            SessionState::InProgress
        },
        started_at,
        cursor: if completes(s) {
            s.cursor
        } else {
            advance(s.lengths, s.cursor)
        },
        lengths: s.lengths,
    }
}

/// The exercise after a backspace: the last character of the input is taken
/// back and the backspace counted, and the cursor moves one step back. With
/// nothing typed, nothing changes.
pub open spec fn erased(s: SessionView) -> SessionView {
    if s.input.len() == 0 {
        s
    } else {
        SessionView {
            target: s.target,
            input: s.input.drop_last(),
            results: Results {
                ms_elapsed: s.results.ms_elapsed,
                n_chars_to_type: s.results.n_chars_to_type,
                n_chars_typed: s.results.n_chars_typed,
                n_typos: s.results.n_typos,
                n_backspaces: bumped(s.results.n_backspaces),
            },
            state: s.state,
            started_at: s.started_at,
            cursor: retreat(s.lengths, s.cursor),
            lengths: s.lengths,
        }
    }
}

/// The exercise after a key. A complete exercise no longer changes; before
/// that, characters and backspaces do their work, and every other key leaves
/// the exercise as it is.
pub open spec fn step(s: SessionView, key: Key, now: u128) -> SessionView {
    if s.state == SessionState::Completed {
        s
    } else {
        match key {
            Key::Char(c) => typed(s, c, now),
            Key::Backspace => erased(s),
            _ => s,
        }
    }
}

/// What a key asks of whoever runs the exercise.
pub open spec fn signal_for(s: SessionView, key: Key) -> Signal {
    if is_quit(key) {
        Signal::Quit
    } else if is_restart(key) {
        Signal::Restart
    } else if s.state != SessionState::Completed && key is Char && completes(s) {
        Signal::Finished
    } else {
        Signal::Continue
    }
}

/// What a key issues to the terminal, where `to` is the place of the cursor
/// after the key. The key that quits hands the terminal back. The key that
/// restarts issues nothing, and so does any other key once the exercise is
/// complete. Before that a character that does not complete the exercise
/// marks the expected character as right or wrong and moves on, a backspace
/// that takes a character back shows it unmarked again, and every key but
/// the completing character ends with a flush.
pub open spec fn step_shows(s: SessionView, key: Key, to: (u16, u16)) -> Seq<Expect> {
    if is_quit(key) {
        quit_shows()
    } else if is_restart(key) || s.state == SessionState::Completed {
        Seq::empty()
    } else {
        match key {
            Key::Char(c) => if completes(s) {
                Seq::empty()
            } else if c == s.target[s.input.len() as int] {
                correct_shows(c, to) + seq![Expect::Op(Drawn::Flush)]
            } else {
                incorrect_shows(s.target[s.input.len() as int], to) + seq![
                    Expect::Op(Drawn::Flush),
                ]
            },
            Key::Backspace => if s.input.len() == 0 {
                seq![Expect::Op(Drawn::Flush)]
            } else {
                backspace_shows(s.target[s.input.len() - 1], to) + seq![Expect::Op(Drawn::Flush)]
            },
            _ => seq![Expect::Op(Drawn::Flush)],
        }
    }
}

/// One exercise.
pub struct Session {
    pub terminal_ui: TerminalUI,
    pub chars_user_input: Vec<char>,
    pub chars_to_type: Vec<char>,
    pub results: Results,
    pub state: SessionState,
    pub started_at: u128,
}

impl View for Session {
    type V = SessionView;

    open spec fn view(&self) -> SessionView {
        SessionView {
            target: self.chars_to_type@,
            input: self.chars_user_input@,
            results: self.results,
            state: self.state,
            started_at: self.started_at,
            cursor: self.terminal_ui.text_cur_pos.at(),
            lengths: line_lengths(self.terminal_ui.text_cur_pos.text_lines@),
        }
    }
}

impl Session {
    /// Whether the parts of the exercise fit together: the text to type is
    /// what the lines of the screen hold, the counters know its length, and
    /// the input is shorter than the text until the exercise is complete.
    pub open spec fn wf(&self) -> bool {
        &&& self.terminal_ui.wf()
        &&& self.chars_to_type@ == line_texts(self.terminal_ui.text_cur_pos.text_lines@).flatten()
        &&& self.results.n_chars_to_type == self.chars_to_type@.len()
        &&& self.state != SessionState::Completed ==> {
            ||| self.chars_user_input@.len() < self.chars_to_type@.len()
            ||| self.chars_user_input@.len() == 0
        }
        &&& self.state == SessionState::NotStarted ==> {
            &&& self.chars_user_input@.len() == 0
            &&& self.results == Results::fresh(self.chars_to_type@.len() as usize)
        }
    }

    /// A fresh exercise on `words`, laid out for a terminal of the given
    /// size, with the operations that draw it in the queue.
    pub fn new(words: &Vec<String>, term_width: u16, term_height: u16) -> (session: Session)
        ensures
            session.wf(),
            session.state == SessionState::NotStarted,
            session.chars_to_type@ == joined(word_chars(words@)),
            session.chars_user_input@.len() == 0,
            session.results == Results::fresh(joined(word_chars(words@)).len() as usize),
            session.terminal_ui.term_width == term_width,
            session.terminal_ui.term_height == term_height,
            session.terminal_ui.text_cur_pos.at() == (0int, 0int),
            total(session@.lengths) == session@.target.len(),
            no_empty_word(word_chars(words@)) ==> no_empty_line(session@.lengths),
            line_texts(session.terminal_ui.text_cur_pos.text_lines@) == wrapped(
                word_chars(words@),
                max_line_len(term_width),
            ),
            wrote(
                Seq::empty(),
                session.terminal_ui.out@,
                screen_shows(
                    session.terminal_ui.text_cur_pos.text_lines@,
                    term_width,
                    term_height,
                ),
            ),
    {
        let terminal_ui = TerminalUI::new(words, term_width, term_height);
        proof {
            lemma_lengths_add_up(terminal_ui.text_cur_pos.text_lines@);
        }
        let chars_to_type = terminal_ui.text_lines_as_chars();
        let n_chars_to_type = chars_to_type.len();
        Session {
            terminal_ui,
            chars_user_input: Vec::new(),
            chars_to_type,
            results: Results::new(n_chars_to_type),
            state: SessionState::NotStarted,
            started_at: 0,
        }
    }

    /// Replaces the exercise by a fresh one on `new_words`, on the same
    /// terminal, and draws it.
    pub fn restart(&mut self, new_words: &Vec<String>)
        ensures
            final(self).wf(),
            final(self).state == SessionState::NotStarted,
            final(self).chars_to_type@ == joined(word_chars(new_words@)),
            final(self).chars_user_input@.len() == 0,
            final(self).results == Results::fresh(joined(word_chars(new_words@)).len() as usize),
            final(self).terminal_ui.term_width == old(self).terminal_ui.term_width,
            final(self).terminal_ui.term_height == old(self).terminal_ui.term_height,
            final(self).terminal_ui.text_cur_pos.at() == (0int, 0int),
            total(final(self)@.lengths) == final(self)@.target.len(),
            no_empty_word(word_chars(new_words@)) ==> no_empty_line(final(self)@.lengths),
            line_texts(final(self).terminal_ui.text_cur_pos.text_lines@) == wrapped(
                word_chars(new_words@),
                max_line_len(old(self).terminal_ui.term_width),
            ),
            wrote(
                old(self).terminal_ui.out@,
                final(self).terminal_ui.out@,
                screen_shows(
                    final(self).terminal_ui.text_cur_pos.text_lines@,
                    old(self).terminal_ui.term_width,
                    old(self).terminal_ui.term_height,
                ),
            ),
    {
        self.terminal_ui.reinitialize(new_words);
        proof {
            lemma_lengths_add_up(self.terminal_ui.text_cur_pos.text_lines@);
        }
        self.chars_user_input = Vec::new();
        self.chars_to_type = self.terminal_ui.text_lines_as_chars();
        let n_chars_to_type = self.chars_to_type.len();
        self.results = Results::new(n_chars_to_type);
        self.state = SessionState::NotStarted;
        self.started_at = 0;
    }

    /// Whether as many characters were typed as the text holds.
    pub fn test_is_over(&self) -> (over: bool)
        ensures
            over == (self.chars_user_input@.len() >= self.chars_to_type@.len()),
    {
        self.chars_user_input.len() >= self.chars_to_type.len()
    }

    /// The character of the text at the place of the last character typed.
    pub fn get_correct_char(&self) -> (c: char)
        requires
            0 < self.chars_user_input@.len() <= self.chars_to_type@.len(),
        ensures
            c == self.chars_to_type@[self.chars_user_input@.len() - 1],
    {
        self.chars_to_type[self.chars_user_input.len() - 1]
    }

    /// The summary of the exercise as it stands.
    pub fn summary(&self) -> (summary: Summary)
        ensures
            summary == self.results.summary(self.chars_to_type@, self.chars_user_input@),
    {
        self.results.summarize(&self.chars_to_type, &self.chars_user_input)
    }

    /// Takes the character `c`, typed at `now_ms` milliseconds.
    pub fn type_char(&mut self, c: char, now_ms: u128) -> (signal: Signal)
        requires
            old(self).wf(),
            old(self).state != SessionState::Completed,
        ensures
            final(self).wf(),
            final(self)@ == typed(old(self)@, c, now_ms),
            signal == signal_for(old(self)@, Key::Char(c)),
            final(self).terminal_ui.same_screen(&old(self).terminal_ui),
            wrote(
                old(self).terminal_ui.out@,
                final(self).terminal_ui.out@,
                step_shows(
                    old(self)@,
                    Key::Char(c),
                    final(self).terminal_ui.text_cur_pos.screen_position(),
                ),
            ),
    {
        let ghost out0 = self.terminal_ui.out@;
        if self.state == SessionState::NotStarted {
            self.state = SessionState::InProgress;
            self.started_at = now_ms;
        }
        self.chars_user_input.push(c);
        self.results.n_chars_typed = bump(self.results.n_chars_typed);
        if self.test_is_over() {
            let n = self.chars_to_type.len();
            if n == 0 || c != self.chars_to_type[n - 1] {
                self.results.n_typos = bump(self.results.n_typos);
            }
            self.results.ms_elapsed = if now_ms >= self.started_at {
                now_ms - self.started_at
            } else {
                0
            };
            self.state = SessionState::Completed;
            return Signal::Finished;
        }
        proof {
            lemma_text_has_lines(self.terminal_ui.text_cur_pos.text_lines@);
        }
        let correct_char = self.get_correct_char();
        if c == correct_char {
            self.terminal_ui.handle_correct_input(correct_char);
        } else {
            self.results.n_typos = bump(self.results.n_typos);
            self.terminal_ui.handle_incorrect_input(correct_char);
        }
        let ghost out1 = self.terminal_ui.out@;
        self.terminal_ui.flush();
        proof {
            let to = self.terminal_ui.text_cur_pos.screen_position();
            let first = if c == correct_char {
                correct_shows(correct_char, to)
            } else {
                incorrect_shows(correct_char, to)
            };
            lemma_wrote_both(
                out0,
                out1,
                self.terminal_ui.out@,
                first,
                seq![Expect::Op(Drawn::Flush)],
            );
        }
        Signal::Continue
    }

    /// Takes a backspace.
    pub fn backspace(&mut self)
        requires
            old(self).wf(),
            old(self).state != SessionState::Completed,
        ensures
            final(self).wf(),
            final(self)@ == erased(old(self)@),
            final(self).terminal_ui.same_screen(&old(self).terminal_ui),
            wrote(
                old(self).terminal_ui.out@,
                final(self).terminal_ui.out@,
                step_shows(
                    old(self)@,
                    Key::Backspace,
                    final(self).terminal_ui.text_cur_pos.screen_position(),
                ),
            ),
    {
        let ghost out0 = self.terminal_ui.out@;
        if self.chars_user_input.len() > 0 {
            proof {
                lemma_text_has_lines(self.terminal_ui.text_cur_pos.text_lines@);
            }
            let correct_char = self.get_correct_char();
            self.chars_user_input.pop();
            self.results.n_backspaces = bump(self.results.n_backspaces);
            self.terminal_ui.handle_backspace(correct_char);
            let ghost out1 = self.terminal_ui.out@;
            self.terminal_ui.flush();
            proof {
                let to = self.terminal_ui.text_cur_pos.screen_position();
                lemma_wrote_both(
                    out0,
                    out1,
                    self.terminal_ui.out@,
                    backspace_shows(correct_char, to),
                    seq![Expect::Op(Drawn::Flush)],
                );
            }
        } else {
            self.terminal_ui.flush();
        }
    }

    /// Takes one key, pressed at `now_ms` milliseconds, and says what is to
    /// be done next.
    pub fn handle_key(&mut self, key: Key, now_ms: u128) -> (signal: Signal)
        requires
            old(self).wf(),
        ensures
            final(self).wf(),
            final(self)@ == step(old(self)@, key, now_ms),
            counters_grew(old(self).results, final(self).results),
            signal == signal_for(old(self)@, key),
            final(self).terminal_ui.same_screen(&old(self).terminal_ui),
            wrote(
                old(self).terminal_ui.out@,
                final(self).terminal_ui.out@,
                step_shows(old(self)@, key, final(self).terminal_ui.text_cur_pos.screen_position()),
            ),
    {
        let completed = self.state == SessionState::Completed;
        match key {
            Key::Ctrl(c) => {
                if c == QUIT_CHAR {
                    self.terminal_ui.reset_terminal_on_quit();
                    Signal::Quit
                } else if c == RESTART_CHAR {
                    Signal::Restart
                } else {
                    if !completed {
                        self.terminal_ui.flush();
                    }
                    Signal::Continue
                }
            },
            Key::Char(c) => {
                if completed {
                    Signal::Continue
                } else {
                    self.type_char(c, now_ms)
                }
            },
            Key::Backspace => {
                if !completed {
                    self.backspace();
                }
                Signal::Continue
            },
            Key::Other => {
                if !completed {
                    self.terminal_ui.flush();
                }
                Signal::Continue
            },
        }
    }
}

/// A text that holds a character stands on at least one line.
proof fn lemma_text_has_lines(lines: Seq<TextLine>)
    ensures
        line_texts(lines).flatten().len() > 0 ==> lines.len() > 0,
{
    if lines.len() == 0 {
        assert(line_texts(lines).len() == 0);
    }
}

/// Whether none of the three counters of keystrokes is smaller in `after`
/// than in `before`.
pub open spec fn counters_grew(before: Results, after: Results) -> bool {
    &&& before.n_chars_typed <= after.n_chars_typed
    &&& before.n_typos <= after.n_typos
    &&& before.n_backspaces <= after.n_backspaces
}

/// The exercise after the keys, each with the time at which it was pressed,
/// taken in order.
pub open spec fn run(s: SessionView, keys: Seq<(Key, u128)>) -> SessionView
    decreases keys.len(),
{
    if keys.len() == 0 {
        s
    } else {
        run(step(s, keys.first().0, keys.first().1), keys.drop_first())
    }
}

/// No key makes a counter smaller, and none changes the text.
pub proof fn lemma_step_counters_grow(s: SessionView, key: Key, now: u128)
    ensures
        counters_grew(s.results, step(s, key, now).results),
        step(s, key, now).target == s.target,
        step(s, key, now).results.n_chars_to_type == s.results.n_chars_to_type,
{
}

/// Throughout an exercise no counter ever gets smaller.
pub proof fn lemma_run_counters_grow(s: SessionView, keys: Seq<(Key, u128)>)
    ensures
        counters_grew(s.results, run(s, keys).results),
        run(s, keys).target == s.target,
    decreases keys.len(),
{
    if keys.len() > 0 {
        let next = step(s, keys.first().0, keys.first().1);
        lemma_step_counters_grow(s, keys.first().0, keys.first().1);
        lemma_run_counters_grow(next, keys.drop_first());
    }
}

/// Whether the typos counted are at least the places at which the input
/// differs from the text, or the counter stands at its largest value.
pub open spec fn typos_cover_mismatches(s: SessionView) -> bool {
    s.results.n_typos == u16::MAX || mismatches(s.target, s.input) <= s.results.n_typos
}

/// An exercise on `target` on which nothing was typed yet, with the cursor at
/// the start of lines of the given lengths.
pub open spec fn fresh(target: Seq<char>, lengths: Seq<int>) -> SessionView {
    SessionView {
        target,
        input: Seq::empty(),
        results: Results::fresh(target.len() as usize),
        state: SessionState::NotStarted,
        started_at: 0,
        cursor: (0int, 0int),
        lengths,
    }
}

/// A key keeps the typos counted at or above the places that differ: a wrong
/// character is counted when it is typed, and taking it back does not take
/// the count back.
pub proof fn lemma_step_keeps_typos(s: SessionView, key: Key, now: u128)
    requires
        typos_cover_mismatches(s),
    ensures
        typos_cover_mismatches(step(s, key, now)),
{
    let after = step(s, key, now);
    let shorter = if s.target.len() <= s.input.len() {
        s.target.len() as int
    } else {
        s.input.len() as int
    };
    if s.state != SessionState::Completed {
        match key {
            Key::Char(c) => {
                lemma_mismatches_of_prefix(s.target, s.input, after.input, shorter);
            },
            Key::Backspace => {
                if s.input.len() > 0 {
                    let fewer = if s.target.len() <= after.input.len() {
                        s.target.len() as int
                    } else {
                        after.input.len() as int
                    };
                    lemma_mismatches_of_prefix(s.target, s.input, after.input, fewer);
                    lemma_mismatches_grow(s.target, s.input, fewer, shorter);
                }
            },
            _ => {},
        }
    }
}

/// However an exercise goes from its start, the typos counted are at least
/// the places at which the input differs from the text in the end: the number
/// of corrected typos in the summary is not negative, unless the counter of
/// typos has reached its largest value.
pub proof fn lemma_typos_cover_mismatches(
    target: Seq<char>,
    lengths: Seq<int>,
    keys: Seq<(Key, u128)>,
)
    ensures
        typos_cover_mismatches(run(fresh(target, lengths), keys)),
{
    lemma_run_keeps_typos(fresh(target, lengths), keys);
}

/// Keys keep the typos counted at or above the places that differ.
pub proof fn lemma_run_keeps_typos(s: SessionView, keys: Seq<(Key, u128)>)
    requires
        typos_cover_mismatches(s),
    ensures
        typos_cover_mismatches(run(s, keys)),
    decreases keys.len(),
{
    if keys.len() > 0 {
        lemma_step_keeps_typos(s, keys.first().0, keys.first().1);
        lemma_run_keeps_typos(step(s, keys.first().0, keys.first().1), keys.drop_first());
    }
}

/// Whether the keys type `text`, character by character and nothing else.
pub open spec fn types_exactly(keys: Seq<(Key, u128)>, text: Seq<char>) -> bool {
    &&& keys.len() == text.len()
    &&& forall|i: int| 0 <= i < keys.len() ==> (#[trigger] keys[i]).0 == Key::Char(text[i])
}

/// Whether `s` is an exercise in which the first `done` characters of the
/// text were typed, each one right and none taken back, the first of them at
/// time `start`.
pub open spec fn typed_exactly(s: SessionView, done: int, start: u128) -> bool {
    &&& 0 <= done <= s.target.len()
    &&& s.input == s.target.take(done)
    &&& s.results.n_typos == 0
    &&& s.results.n_backspaces == 0
    &&& done <= u16::MAX ==> s.results.n_chars_typed == done
    &&& s.state == if done == 0 {
        SessionState::NotStarted
    } else if done < s.target.len() {
        SessionState::InProgress
    } else {
        SessionState::Completed
    }
    &&& done > 0 ==> s.started_at == start
}

/// Typing the rest of the text exactly goes on without a typo to the end.
proof fn lemma_typing_the_rest(s: SessionView, done: int, keys: Seq<(Key, u128)>)
    requires
        types_exactly(keys, s.target),
        typed_exactly(s, done, keys[0].1),
        done < s.target.len(),
    ensures
        typed_exactly(run(s, keys.skip(done)), s.target.len() as int, keys[0].1),
        run(s, keys.skip(done)).target == s.target,
        run(s, keys.skip(done)).results.ms_elapsed == elapsed(keys[0].1, keys.last().1),
    decreases s.target.len() - done,
{
    let rest = keys.skip(done);
    assert(rest.first() == keys[done]);
    let next = step(s, rest.first().0, rest.first().1);
    assert(next.input =~= s.target.take(done + 1));
    assert(rest.drop_first() =~= keys.skip(done + 1));
    if done + 1 < s.target.len() {
        lemma_typing_the_rest(next, done + 1, keys);
    } else {
        assert(run(next, rest.drop_first()) == next);
    }
}

/// A text does not differ from itself.
proof fn lemma_no_mismatch_with_itself(text: Seq<char>, n: int)
    ensures
        mismatches_below(text, text, n) == 0,
    decreases n,
{
    if n > 0 {
        lemma_no_mismatch_with_itself(text, n - 1);
    }
}

/// Typing the text exactly, from a fresh exercise, completes it with every
/// character counted, no typo, no backspace, no place where the input
/// differs from the text, and the time from the first key to the last.
pub proof fn lemma_typing_the_text(target: Seq<char>, lengths: Seq<int>, keys: Seq<(Key, u128)>)
    requires
        target.len() > 0,
        types_exactly(keys, target),
    ensures
        ({
            let end = run(fresh(target, lengths), keys);
            &&& end.state == SessionState::Completed
            &&& end.input == target
            &&& end.results.n_typos == 0
            &&& end.results.n_backspaces == 0
            &&& target.len() <= u16::MAX ==> end.results.n_chars_typed == target.len()
            &&& end.results.ms_elapsed == elapsed(keys.first().1, keys.last().1)
            &&& mismatches(target, end.input) == 0
        }),
{
    let start = fresh(target, lengths);
    assert(start.input =~= target.take(0));
    assert(keys.skip(0) =~= keys);
    lemma_typing_the_rest(start, 0, keys);
    assert(run(start, keys).input =~= target);
    lemma_no_mismatch_with_itself(target, target.len() as int);
}

/// Whether the cursor stands on the character of the text that is typed
/// next.
pub open spec fn cursor_on_next_char(s: SessionView) -> bool {
    &&& on_a_char(s.lengths, s.cursor)
    &&& linear(s.lengths, s.cursor) == s.input.len()
}

/// Whether the lines are those of the text: none is empty, and together they
/// hold as many characters as the text.
pub open spec fn lines_hold_text(s: SessionView) -> bool {
    &&& no_empty_line(s.lengths)
    &&& total(s.lengths) == s.target.len()
}

/// Whether every key is a character.
pub open spec fn only_chars(keys: Seq<(Key, u128)>) -> bool {
    forall|i: int| 0 <= i < keys.len() ==> (#[trigger] keys[i]).0 is Char
}

/// A character that does not complete the exercise takes the cursor from the
/// character that was typed next to the one that is typed next now.
pub proof fn lemma_char_moves_cursor_along(s: SessionView, c: char, now: u128)
    requires
        lines_hold_text(s),
        cursor_on_next_char(s),
        !completes(s),
    ensures
        cursor_on_next_char(typed(s, c, now)),
{
    lemma_forward_is_the_next_char(s.lengths, s.cursor);
}

/// While characters are typed and none is taken back, the cursor stands on
/// the character of the text that is typed next, across the ends of lines
/// too.
pub proof fn lemma_cursor_follows_typing(s: SessionView, keys: Seq<(Key, u128)>)
    requires
        lines_hold_text(s),
        cursor_on_next_char(s),
        s.state != SessionState::Completed,
        only_chars(keys),
        s.input.len() + keys.len() < s.target.len(),
    ensures
        cursor_on_next_char(run(s, keys)),
        run(s, keys).input.len() == s.input.len() + keys.len(),
        run(s, keys).state != SessionState::Completed,
    decreases keys.len(),
{
    if keys.len() > 0 {
        let key = keys.first();
        assert(key.0 is Char);
        let next = step(s, key.0, key.1);
        lemma_char_moves_cursor_along(s, key.0->Char_0, key.1);
        assert forall|i: int| 0 <= i < keys.drop_first().len() implies (
        #[trigger] keys.drop_first()[i]).0 is Char by {
            assert(keys.drop_first()[i] == keys[i + 1]);
        }
        lemma_cursor_follows_typing(next, keys.drop_first());
    }
}

} // verus!
