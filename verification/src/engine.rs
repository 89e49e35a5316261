//! The exercise with the selector that supplies its words: a restart draws
//! the next words from the same generator.

use crate::lexicon::Lexicon;
use crate::lexicon::word_chars;
use crate::render::RenderOp;
use crate::render::wrote;
use crate::results::Results;
use crate::results::Summary;
use crate::session::counters_grew;
use crate::session::Key;
use crate::session::Session;
use crate::session::SessionState;
use crate::session::Signal;
use crate::session::signal_for;
use crate::session::step;
use crate::session::step_shows;
use crate::terminal_ui::line_texts;
use crate::terminal_ui::results_show;
use crate::terminal_ui::screen_shows;
use crate::word_selector::can_select;
use crate::word_selector::ConfigError;
use crate::word_selector::lowercase_selection;
use crate::word_selector::seeded_state;
use crate::word_selector::state_after_selection;
use crate::word_selector::WordSelector;
use crate::wrap::joined;
use crate::wrap::max_line_len;
use crate::wrap::wrapped;
use vstd::prelude::*;

verus! {

/// The selector, the words it selected last, and the exercise on them.
pub struct Engine {
    pub word_selector: WordSelector,
    pub words: Vec<String>,
    pub session: Session,
}

impl Engine {
    /// Whether the parts fit together: the selector can be drawn from, and
    /// the exercise is well formed and has the words as its text.
    pub open spec fn wf(&self) -> bool {
        &&& self.word_selector.wf()
        &&& self.session.wf()
        &&& self.session.chars_to_type@ == joined(word_chars(self.words@))
    }

    /// Whether `self` holds a fresh exercise on `words`, laid out for the
    /// terminal of `before` and drawn after what `before` had in its queue.
    pub open spec fn fresh_on(&self, words: Seq<Seq<char>>, before: &Session) -> bool {
        let ui = self.session.terminal_ui;
        &&& word_chars(self.words@) == words
        &&& self.session.state == SessionState::NotStarted
        &&& self.session.chars_to_type@ == joined(words)
        &&& self.session.chars_user_input@.len() == 0
        &&& self.session.results == Results::fresh(joined(words).len() as usize)
        &&& ui.term_width == before.terminal_ui.term_width
        &&& ui.term_height == before.terminal_ui.term_height
        &&& ui.text_cur_pos.at() == (0int, 0int)
        &&& line_texts(ui.text_cur_pos.text_lines@) == wrapped(words, max_line_len(ui.term_width))
        &&& wrote(
            before.terminal_ui.out@,
            ui.out@,
            screen_shows(ui.text_cur_pos.text_lines@, ui.term_width, ui.term_height),
        )
    }

    /// Whether `self` is `before` after a restart: the selector has made its
    /// next selection, and the exercise is a fresh one on the words selected.
    pub open spec fn restarted(&self, before: &Engine) -> bool {
        &&& self.word_selector.same_setup(&before.word_selector)
        &&& self.word_selector.state() == before.word_selector.next_state()
        &&& self.fresh_on(before.word_selector.next_words(), &before.session)
    }

    /// An engine for `number_of_words` words of `lexicon` on a terminal of the
    /// given size, with its first exercise selected and drawn. It is refused
    /// where that many words cannot be drawn from the lexicon. The words
    /// follow from the lexicon, the number and the seed.
    pub fn new(
        lexicon: Lexicon,
        number_of_words: usize,
        seed: Option<u64>,
        term_width: u16,
        term_height: u16,
    ) -> (res: Result<Engine, ConfigError>)
        ensures
            res is Err <==> !can_select(lexicon@.len(), number_of_words as nat),
            number_of_words <= lexicon@.len() <= u32::MAX ==> res is Ok,
            number_of_words > lexicon@.len() ==> res is Err,
            res matches Err(e) ==> e == (ConfigError::TooManyWords {
                requested: number_of_words,
                available: lexicon.words@.len() as usize,
            }),
            res matches Ok(engine) ==> {
                &&& engine.wf()
                &&& engine.word_selector.lexicon == lexicon.words
                &&& engine.word_selector.n_words == number_of_words
                &&& seed matches Some(given) ==> engine.word_selector.seed == given
                &&& engine.word_selector.state() == state_after_selection(
                    lexicon@.len(),
                    number_of_words as nat,
                    seeded_state(engine.word_selector.seed),
                )
                &&& word_chars(engine.words@) == lowercase_selection(
                    lexicon@,
                    number_of_words as nat,
                    seeded_state(engine.word_selector.seed),
                )
                &&& engine.session.state == SessionState::NotStarted
                &&& engine.session.chars_to_type@ == joined(word_chars(engine.words@))
                &&& engine.session.chars_user_input@.len() == 0
                &&& engine.session.terminal_ui.term_width == term_width
                &&& engine.session.terminal_ui.term_height == term_height
                &&& wrote(
                    Seq::empty(),
                    engine.session.terminal_ui.out@,
                    screen_shows(
                        engine.session.terminal_ui.text_cur_pos.text_lines@,
                        term_width,
                        term_height,
                    ),
                )
            },
    {
        match WordSelector::new(lexicon, number_of_words, seed) {
            Ok(word_selector) => Ok(Engine::with_selector(word_selector, term_width, term_height)),
            Err(e) => Err(e),
        }
    }

    /// An engine that draws from `word_selector`, on a terminal of the given
    /// size, with its first exercise selected and drawn.
    pub fn with_selector(word_selector: WordSelector, term_width: u16, term_height: u16) -> (engine:
        Engine)
        requires
            word_selector.wf(),
        ensures
            engine.wf(),
            engine.word_selector.same_setup(&word_selector),
            engine.word_selector.state() == word_selector.next_state(),
            word_chars(engine.words@) == word_selector.next_words(),
            engine.session.state == SessionState::NotStarted,
            engine.session.chars_to_type@ == joined(word_chars(engine.words@)),
            engine.session.chars_user_input@.len() == 0,
            engine.session.results == Results::fresh(
                joined(word_chars(engine.words@)).len() as usize,
            ),
            engine.session.terminal_ui.term_width == term_width,
            engine.session.terminal_ui.term_height == term_height,
            engine.session.terminal_ui.text_cur_pos.at() == (0int, 0int),
            line_texts(engine.session.terminal_ui.text_cur_pos.text_lines@) == wrapped(
                word_chars(engine.words@),
                max_line_len(term_width),
            ),
            wrote(
                Seq::empty(),
                engine.session.terminal_ui.out@,
                screen_shows(
                    engine.session.terminal_ui.text_cur_pos.text_lines@,
                    term_width,
                    term_height,
                ),
            ),
    {
        let mut word_selector = word_selector;
        let words = word_selector.select_words_from_lexicon();
        let session = Session::new(&words, term_width, term_height);
        Engine { word_selector, words, session }
    }

    /// Selects the next words and starts a fresh exercise on them.
    pub fn restart(&mut self)
        requires
            old(self).wf(),
        ensures
            final(self).wf(),
            final(self).restarted(old(self)),
    {
        let new_words = self.word_selector.select_words_from_lexicon();
        self.session.restart(&new_words);
        self.words = new_words;
    }

    /// Takes one key, pressed at `now_ms` milliseconds. The key that restarts
    /// brings a fresh exercise; the others go to the exercise. The signal
    /// says what is left to do for whoever runs the engine.
    pub fn handle_key(&mut self, key: Key, now_ms: u128) -> (signal: Signal)
        requires
            old(self).wf(),
        ensures
            final(self).wf(),
            signal == signal_for(old(self).session@, key),
            signal == Signal::Restart ==> final(self).restarted(old(self)),
            signal != Signal::Restart ==> {
                &&& final(self).word_selector == old(self).word_selector
                &&& final(self).words == old(self).words
                &&& final(self).session@ == step(old(self).session@, key, now_ms)
                &&& counters_grew(old(self).session.results, final(self).session.results)
                &&& final(self).session.terminal_ui.same_screen(&old(self).session.terminal_ui)
                &&& wrote(
                    old(self).session.terminal_ui.out@,
                    final(self).session.terminal_ui.out@,
                    step_shows(
                        old(self).session@,
                        key,
                        final(self).session.terminal_ui.text_cur_pos.screen_position(),
                    ),
                )
            },
    {
        let signal = self.session.handle_key(key, now_ms);
        if signal == Signal::Restart {
            self.restart();
        }
        signal
    }

    /// The summary of the exercise as it stands.
    pub fn summary(&self) -> (summary: Summary)
        ensures
            summary == self.session.results.summary(
                self.session.chars_to_type@,
                self.session.chars_user_input@,
            ),
    {
        self.session.summary()
    }

    /// Replaces the exercise on the screen by the results message.
    pub fn display_results(&mut self, message: &str)
        ensures
            final(self).word_selector == old(self).word_selector,
            final(self).words == old(self).words,
            final(self).session@ == old(self).session@,
            final(self).session.terminal_ui.same_but_queue(&old(self).session.terminal_ui),
            old(self).wf() ==> final(self).wf(),
            wrote(
                old(self).session.terminal_ui.out@,
                final(self).session.terminal_ui.out@,
                results_show(
                    message@,
                    old(self).session.terminal_ui.term_width,
                    old(self).session.terminal_ui.term_height,
                ),
            ),
    {
        self.session.terminal_ui.display_results(message);
    }

    /// Hands over the operations issued since the last call, in order.
    pub fn take_output(&mut self) -> (ops: Vec<RenderOp>)
        ensures
            ops@ == old(self).session.terminal_ui.out@,
            final(self).session.terminal_ui.out@.len() == 0,
            final(self).word_selector == old(self).word_selector,
            final(self).words == old(self).words,
            final(self).session@ == old(self).session@,
            final(self).session.terminal_ui.same_but_queue(&old(self).session.terminal_ui),
            old(self).wf() ==> final(self).wf(),
    {
        self.session.terminal_ui.take_output()
    }
}

} // verus!
