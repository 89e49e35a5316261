//! The screen of the exercise: the wrapped and centred lines, the cursor that
//! walks them, and the operations that bring both to the terminal.

use crate::cursor::advance;
use crate::cursor::line_start;
use crate::cursor::no_empty_line;
use crate::cursor::retreat;
use crate::cursor::total;
use crate::lexicon::word_chars;
use crate::render::Drawn;
use crate::render::Expect;
use crate::render::lemma_wrote_both;
use crate::render::RenderOp;
use crate::render::wrote;
use crate::text::Color;
use crate::text::push_char;
use crate::text::Text;
use crate::wrap::grouped;
use crate::wrap::is_greedy;
use crate::wrap::joined;
use crate::wrap::lemma_wrapped_fits;
use crate::wrap::lemma_wrapped_is_greedy;
use crate::wrap::lines_of;
use crate::wrap::lemma_wrapped_flatten;
use crate::wrap::max_line_len;
use crate::wrap::no_empty_word;
use crate::wrap::well_wrapped;
use crate::wrap::wrap_from;
use crate::wrap::wrapped;
use vstd::prelude::*;
use vstd::string::StringExecFns;

verus! {

/// The character that restarts the exercise when typed with the control key.
pub const RESTART_CHAR: char = 'r';

/// The character that quits when typed with the control key.
pub const QUIT_CHAR: char = 'q';

/// A value cut down to what a screen coordinate can hold.
pub open spec fn clip(v: int) -> int {
    if v < 0 {
        0
    } else if v > u16::MAX {
        u16::MAX as int
    } else {
        v
    }
}

/// The column at which something `length` characters long starts so that it
/// is centred in a terminal `term_width` columns wide; column 0 where it is
/// too long for that.
pub open spec fn centered_column(term_width: u16, length: int) -> int {
    clip(term_width as int / 2 - length / 2)
}

/// The row of line `index` in a block of `count` lines: the block starts
/// `count` rows above the middle of the terminal, or at row 0 where the
/// terminal is too low for that, and each line takes one row.
pub open spec fn line_row(term_height: u16, count: int, index: int) -> int {
    clip(clip(term_height as int / 2 - count) + index)
}

/// One row of the text to type, with the place on the screen where it starts.
#[derive(Debug, PartialEq, Eq)]
pub struct TextLine {
    pub x: u16,
    pub y: u16,
    pub length: usize,
    pub text: Text,
}

impl TextLine {
    /// Whether the line stands where the layout puts line `index` of `count`
    /// lines, and says its own length.
    pub open spec fn placed(&self, term_width: u16, term_height: u16, count: int, index: int) -> bool {
        &&& self.length == self.text@.len()
        &&& self.x == centered_column(term_width, self.text@.len() as int)
        &&& self.y == line_row(term_height, count, index)
    }
}

/// The characters of each line.
pub open spec fn line_texts(lines: Seq<TextLine>) -> Seq<Seq<char>> {
    lines.map_values(|line: TextLine| line.text@)
}

/// The characters of each text.
pub open spec fn texts(lines: Seq<Text>) -> Seq<Seq<char>> {
    lines.map_values(|text: Text| text@)
}

/// The column where something `length` characters long is centred.
pub fn center_x(term_width: u16, length: usize) -> (x: u16)
    ensures
        x == centered_column(term_width, length as int),
{
    let half = length / 2;
    let center = term_width / 2;
    if half >= center as usize {
        0
    } else {
        center - half as u16
    }
}

/// The row of line `index` in a block of `count` lines.
pub fn row_of_line(term_height: u16, count: usize, index: usize) -> (y: u16)
    ensures
        y == line_row(term_height, count as int, index as int),
{
    let center = term_height / 2;
    let top: u16 = if count >= center as usize {
        0
    } else {
        center - count as u16
    };
    if index >= (u16::MAX - top) as usize {
        u16::MAX
    } else {
        top + index as u16
    }
}

/// The length of each line, as the cursor reads it.
pub open spec fn line_lengths(lines: Seq<TextLine>) -> Seq<int> {
    lines.map_values(|line: TextLine| line.length as int)
}

/// The typing position: a line of the layout and an offset into it.
pub struct TextCursor {
    pub curr_text_line: usize,
    pub curr_char_idx: usize,
    pub text_lines: Vec<TextLine>,
}

impl Default for TextCursor {
    fn default() -> (cursor: TextCursor)
        ensures
            cursor.curr_text_line == 0,
            cursor.curr_char_idx == 0,
            cursor.text_lines@.len() == 0,
    {
        TextCursor { curr_text_line: 0, curr_char_idx: 0, text_lines: Vec::new() }
    }
}

impl TextCursor {
    /// Whether the cursor stands on a line that exists.
    pub open spec fn in_bounds(&self) -> bool {
        self.curr_text_line < self.text_lines@.len()
    }

    /// The line and the offset.
    pub open spec fn at(&self) -> (int, int) {
        (self.curr_text_line as int, self.curr_char_idx as int)
    }

    /// The screen coordinate of the cursor: the origin of its line, moved
    /// right by the offset, and no further than the last column a coordinate
    /// can name.
    pub open spec fn screen_position(&self) -> (u16, u16) {
        let line = self.text_lines@[self.curr_text_line as int];
        (clip(line.x + self.curr_char_idx) as u16, line.y)
    }

    /// A cursor at the start of the first of `text_lines`.
    pub fn new(text_lines: Vec<TextLine>) -> (cursor: TextCursor)
        ensures
            cursor.curr_text_line == 0,
            cursor.curr_char_idx == 0,
            cursor.text_lines == text_lines,
    {
        TextCursor { curr_text_line: 0, curr_char_idx: 0, text_lines }
    }

    /// The screen coordinate of the cursor.
    pub fn current(&self) -> (pos: (u16, u16))
        requires
            self.in_bounds(),
        ensures
            pos == self.screen_position(),
    {
        let text_line = &self.text_lines[self.curr_text_line];
        let x: u16 = if self.curr_char_idx >= (u16::MAX - text_line.x) as usize {
            u16::MAX
        } else {
            text_line.x + self.curr_char_idx as u16
        };
        (x, text_line.y)
    }

    /// Moves one step forward and returns the new screen coordinate.
    pub fn next(&mut self) -> (pos: (u16, u16))
        requires
            old(self).in_bounds(),
        ensures
            final(self).text_lines == old(self).text_lines,
            final(self).at() == advance(line_lengths(old(self).text_lines@), old(self).at()),
            final(self).in_bounds(),
            pos == final(self).screen_position(),
    {
        let length = self.text_lines[self.curr_text_line].length;
        if length > 0 && self.curr_char_idx < length - 1 {
            self.curr_char_idx += 1;
        } else if self.curr_text_line < self.text_lines.len() - 1 {
            self.curr_text_line += 1;
            self.curr_char_idx = 0;
        }
        self.current()
    }

    /// Moves one step back and returns the new screen coordinate.
    pub fn previous(&mut self) -> (pos: (u16, u16))
        requires
            old(self).in_bounds(),
        ensures
            final(self).text_lines == old(self).text_lines,
            final(self).at() == retreat(line_lengths(old(self).text_lines@), old(self).at()),
            final(self).in_bounds(),
            pos == final(self).screen_position(),
    {
        if self.curr_char_idx > 0 {
            self.curr_char_idx -= 1;
        } else if self.curr_text_line > 0 {
            self.curr_text_line -= 1;
            self.curr_char_idx = self.text_lines[self.curr_text_line].length;
        }
        self.current()
    }
}

/// The shortcut that restarts the exercise, as it is shown.
pub open spec fn restart_shortcut() -> Seq<char> {
    "ctrl-"@.push(RESTART_CHAR)
}

/// The shortcut that quits, as it is shown.
pub open spec fn quit_shortcut() -> Seq<char> {
    "ctrl-"@.push(QUIT_CHAR)
}

/// The row of the results line: one above the first third of the terminal.
pub open spec fn results_row(term_height: u16) -> int {
    clip(term_height as int / 3 - 1)
}

/// What clearing the screen issues.
pub open spec fn clear_screen_shows() -> Seq<Expect> {
    seq![Expect::Op(Drawn::ClearAll), Expect::Op(Drawn::HideCursor), Expect::Op(Drawn::Flush)]
}

/// What showing `lines` issues before the flush: for each line a move to its
/// origin, then its text.
pub open spec fn lines_show(lines: Seq<TextLine>) -> Seq<Expect>
    decreases lines.len(),
{
    if lines.len() == 0 {
        Seq::empty()
    } else {
        lines_show(lines.drop_last()) + seq![
            Expect::Op(Drawn::Goto(lines.last().x, lines.last().y)),
            Expect::Op(Drawn::Write(lines.last().text@)),
        ]
    }
}

/// What showing the text to type issues.
pub open spec fn text_shows(lines: Seq<TextLine>) -> Seq<Expect> {
    lines_show(lines) + seq![Expect::Op(Drawn::Flush)]
}

/// What showing the two keyboard shortcuts issues: on the last row but one
/// the restart shortcut in green with its description, on the last row the
/// quit shortcut in red with its description.
pub open spec fn shortcuts_show(term_width: u16, term_height: u16) -> Seq<Expect> {
    seq![
        Expect::Op(
            Drawn::Goto(
                centered_column(
                    term_width,
                    (restart_shortcut().len() + "to restart"@.len()) as int,
                ) as u16,
                clip(term_height - 1) as u16,
            ),
        ),
        Expect::Painted(restart_shortcut(), Color::Green),
        Expect::Op(Drawn::Write(seq![' '] + "to restart"@)),
        Expect::Op(
            Drawn::Goto(
                centered_column(term_width, (quit_shortcut().len() + "to quit"@.len()) as int) as u16,
                term_height,
            ),
        ),
        Expect::Painted(quit_shortcut(), Color::Red),
        Expect::Op(Drawn::Write(seq![' '] + "to quit"@)),
        Expect::Op(Drawn::Flush),
    ]
}

/// What putting the terminal's cursor at the start of the text issues. Where
/// there is no line, the cursor is not moved.
pub open spec fn buffer_shows(lines: Seq<TextLine>) -> Seq<Expect> {
    if lines.len() > 0 {
        seq![
            Expect::Op(Drawn::Goto(lines[0].x, lines[0].y)),
            Expect::Op(Drawn::BlinkingBar),
            Expect::Op(Drawn::ShowCursor),
        ]
    } else {
        seq![Expect::Op(Drawn::BlinkingBar), Expect::Op(Drawn::ShowCursor)]
    }
}

/// What drawing a fresh exercise issues.
pub open spec fn screen_shows(lines: Seq<TextLine>, term_width: u16, term_height: u16) -> Seq<
    Expect,
> {
    clear_screen_shows() + text_shows(lines) + shortcuts_show(term_width, term_height)
        + buffer_shows(lines) + seq![Expect::Op(Drawn::Flush)]
}

/// What a correct keystroke issues: the character in green, then a move to
/// the cursor's new place.
pub open spec fn correct_shows(c: char, to: (u16, u16)) -> Seq<Expect> {
    seq![Expect::Painted(seq![c], Color::Green), Expect::Op(Drawn::Goto(to.0, to.1))]
}

/// What a wrong keystroke issues: the expected character in red and
/// underlined, then a move to the cursor's new place.
pub open spec fn incorrect_shows(c: char, to: (u16, u16)) -> Seq<Expect> {
    seq![Expect::Marked(seq![c]), Expect::Op(Drawn::Goto(to.0, to.1))]
}

/// What a backspace issues: a move to the cursor's new place, the character
/// that belongs there in the default colour, and a move back onto it.
pub open spec fn backspace_shows(c: char, to: (u16, u16)) -> Seq<Expect> {
    seq![
        Expect::Op(Drawn::Goto(to.0, to.1)),
        Expect::Painted(seq![c], Color::Reset),
        Expect::Op(Drawn::Goto(to.0, to.1)),
    ]
}

/// What showing the results issues: a cleared screen, the shortcuts, and the
/// message centred on the results row.
pub open spec fn results_show(message: Seq<char>, term_width: u16, term_height: u16) -> Seq<
    Expect,
> {
    clear_screen_shows() + shortcuts_show(term_width, term_height) + seq![
        Expect::Op(
            Drawn::Goto(
                centered_column(term_width, message.len() as int) as u16,
                results_row(term_height) as u16,
            ),
        ),
        Expect::Op(Drawn::Write(message)),
        Expect::Op(Drawn::Flush),
    ]
}

/// What leaving the exercise issues.
pub open spec fn quit_shows() -> Seq<Expect> {
    seq![
        Expect::Op(Drawn::SuspendRawMode),
        Expect::Op(Drawn::ClearAll),
        Expect::Op(Drawn::SteadyBlock),
        Expect::Op(Drawn::Goto(1, 1)),
        Expect::Op(Drawn::Flush),
    ]
}

/// The screen: the laid-out lines with the cursor, the size of the terminal,
/// and the operations that were issued and not yet taken.
pub struct TerminalUI {
    pub text_cur_pos: TextCursor,
    pub term_width: u16,
    pub term_height: u16,
    pub out: Vec<RenderOp>,
}

impl TerminalUI {
    /// Whether every line stands where the layout puts it, and the cursor on
    /// a line that exists, if there is any.
    pub open spec fn wf(&self) -> bool {
        &&& forall|i: int|
            0 <= i < self.text_cur_pos.text_lines@.len() ==> (
            #[trigger] self.text_cur_pos.text_lines@[i]).placed(
                self.term_width,
                self.term_height,
                self.text_cur_pos.text_lines@.len() as int,
                i,
            )
        &&& self.text_cur_pos.text_lines@.len() > 0 ==> self.text_cur_pos.in_bounds()
    }

    /// Whether `self` is `before` but for the cursor's place and the queue.
    pub open spec fn same_screen(&self, before: &TerminalUI) -> bool {
        &&& self.text_cur_pos.text_lines == before.text_cur_pos.text_lines
        &&& self.term_width == before.term_width
        &&& self.term_height == before.term_height
    }

    /// Whether `self` is `before` but for the queue.
    pub open spec fn same_but_queue(&self, before: &TerminalUI) -> bool {
        &&& self.text_cur_pos == before.text_cur_pos
        &&& self.term_width == before.term_width
        &&& self.term_height == before.term_height
    }

    /// The screen of a fresh exercise on `words`, for a terminal of the given
    /// size, with the operations that draw it in the queue.
    pub fn new(words: &Vec<String>, term_width: u16, term_height: u16) -> (ui: TerminalUI)
        ensures
            ui.wf(),
            ui.term_width == term_width,
            ui.term_height == term_height,
            ui.text_cur_pos.at() == (0int, 0int),
            line_texts(ui.text_cur_pos.text_lines@) == wrapped(
                word_chars(words@),
                max_line_len(term_width),
            ),
            line_texts(ui.text_cur_pos.text_lines@).flatten() == joined(word_chars(words@)),
            no_empty_word(word_chars(words@)) ==> no_empty_line(
                line_lengths(ui.text_cur_pos.text_lines@),
            ),
            wrote(
                Seq::empty(),
                ui.out@,
                screen_shows(ui.text_cur_pos.text_lines@, term_width, term_height),
            ),
    {
        let mut terminal_ui = TerminalUI {
            text_cur_pos: TextCursor::default(),
            term_width,
            term_height,
            out: Vec::new(),
        };
        terminal_ui.reinitialize(words);
        terminal_ui
    }

    /// Queues one operation.
    fn emit(&mut self, op: RenderOp)
        ensures
            final(self).out@ == old(self).out@.push(op),
            final(self).same_but_queue(old(self)),
    {
        self.out.push(op);
    }

    /// Hands over the queued operations, in the order in which they were
    /// issued, and leaves the queue empty.
    pub fn take_output(&mut self) -> (ops: Vec<RenderOp>)
        ensures
            ops@ == old(self).out@,
            final(self).out@.len() == 0,
            final(self).same_but_queue(old(self)),
    {
        let mut ops: Vec<RenderOp> = Vec::new();
        core::mem::swap(&mut self.out, &mut ops);
        ops
    }

    /// Asks for what was written to be sent to the terminal.
    pub fn flush(&mut self)
        ensures
            final(self).same_but_queue(old(self)),
            wrote(old(self).out@, final(self).out@, seq![Expect::Op(Drawn::Flush)]),
    {
        self.emit(RenderOp::Flush);
    }

    /// The characters of all lines, in order: the text to type.
    pub fn text_lines_as_chars(&self) -> (chars: Vec<char>)
        ensures
            chars@ == line_texts(self.text_cur_pos.text_lines@).flatten(),
    {
        let lines = &self.text_cur_pos.text_lines;
        let ghost all = line_texts(lines@);
        let mut chars: Vec<char> = Vec::new();
        let mut i: usize = 0;
        assert(all.take(0) =~= Seq::<Seq<char>>::empty());
        while i < lines.len()
            invariant
                i <= lines.len(),
                all == line_texts(lines@),
                chars@ == all.take(i as int).flatten(),
            decreases lines.len() - i,
        {
            let mut line_chars = lines[i].text.as_chars();
            proof {
                assert(all.take(i + 1) =~= all.take(i as int).push(line_chars@));
                all.take(i as int).lemma_flatten_push(line_chars@);
            }
            chars.append(&mut line_chars);
            i += 1;
        }
        assert(all.take(lines@.len() as int) =~= all);
        chars
    }

    /// Starts a fresh exercise on `words`: the lines are laid out anew, the
    /// cursor goes back to the start, and the whole screen is drawn again.
    pub fn reinitialize(&mut self, words: &Vec<String>)
        ensures
            final(self).wf(),
            final(self).term_width == old(self).term_width,
            final(self).term_height == old(self).term_height,
            final(self).text_cur_pos.at() == (0int, 0int),
            line_texts(final(self).text_cur_pos.text_lines@) == wrapped(
                word_chars(words@),
                max_line_len(old(self).term_width),
            ),
            line_texts(final(self).text_cur_pos.text_lines@).flatten() == joined(
                word_chars(words@),
            ),
            no_empty_word(word_chars(words@)) ==> no_empty_line(
                line_lengths(final(self).text_cur_pos.text_lines@),
            ),
            wrote(
                old(self).out@,
                final(self).out@,
                screen_shows(
                    final(self).text_cur_pos.text_lines@,
                    old(self).term_width,
                    old(self).term_height,
                ),
            ),
    {
        let ghost out0 = self.out@;
        self.clear_screen();
        let ghost out1 = self.out@;
        self.text_cur_pos = TextCursor::default();
        let text_lines = self.build_text_lines(words);
        self.text_cur_pos.text_lines = text_lines;
        self.display_text_to_type();
        let ghost out2 = self.out@;
        self.display_keyboard_shortcuts();
        let ghost out3 = self.out@;
        self.reinitialize_buffer();
        let ghost out4 = self.out@;
        self.flush();
        proof {
            let lines = self.text_cur_pos.text_lines@;
            let a = clear_screen_shows();
            let b = text_shows(lines);
            let c = shortcuts_show(self.term_width, self.term_height);
            let d = buffer_shows(lines);
            lemma_wrote_both(out0, out1, out2, a, b);
            lemma_wrote_both(out0, out2, out3, a + b, c);
            lemma_wrote_both(out0, out3, out4, a + b + c, d);
            lemma_wrote_both(out0, out4, self.out@, a + b + c + d, seq![Expect::Op(Drawn::Flush)]);
        }
    }

    /// Wraps `words` and gives each line its place on this terminal.
    pub fn build_text_lines(&self, words: &Vec<String>) -> (lines: Vec<TextLine>)
        ensures
            line_texts(lines@) == wrapped(word_chars(words@), max_line_len(self.term_width)),
            line_texts(lines@).flatten() == joined(word_chars(words@)),
            line_texts(lines@) == lines_of(
                grouped(word_chars(words@), max_line_len(self.term_width)),
            ),
            is_greedy(
                grouped(word_chars(words@), max_line_len(self.term_width)),
                word_chars(words@),
                max_line_len(self.term_width),
            ),
            well_wrapped(line_texts(lines@), word_chars(words@), max_line_len(self.term_width)),
            lines@.len() <= words@.len(),
            no_empty_word(word_chars(words@)) ==> forall|i: int|
                0 <= i < lines@.len() ==> (#[trigger] lines@[i]).length > 0,
            forall|i: int|
                0 <= i < lines@.len() ==> (#[trigger] lines@[i]).placed(
                    self.term_width,
                    self.term_height,
                    lines@.len() as int,
                    i,
                ),
    {
        let text_vec = self.build_vec_of_text(words);
        let count = text_vec.len();
        let ghost wanted = texts(text_vec@);
        let mut text_lines: Vec<TextLine> = Vec::new();
        let mut i: usize = 0;
        while i < count
            invariant
                i <= count,
                count == text_vec@.len(),
                wanted == texts(text_vec@),
                text_lines@.len() == i,
                forall|k: int| 0 <= k < i ==> (#[trigger] text_lines@[k]).text@ == wanted[k],
                forall|k: int|
                    0 <= k < i ==> (#[trigger] text_lines@[k]).placed(
                        self.term_width,
                        self.term_height,
                        count as int,
                        k,
                    ),
            decreases count - i,
        {
            let text = text_vec[i].clone();
            let length = text.len();
            let x = center_x(self.term_width, length);
            let y = row_of_line(self.term_height, count, i);
            text_lines.push(TextLine { x, y, length, text });
            i += 1;
        }
        assert(line_texts(text_lines@) =~= wanted);
        text_lines
    }

    /// Wraps `words` into lines for this terminal.
    pub fn build_vec_of_text(&self, words: &Vec<String>) -> (lines: Vec<Text>)
        ensures
            texts(lines@) == wrapped(word_chars(words@), max_line_len(self.term_width)),
            texts(lines@).flatten() == joined(word_chars(words@)),
            texts(lines@) == lines_of(grouped(word_chars(words@), max_line_len(self.term_width))),
            is_greedy(
                grouped(word_chars(words@), max_line_len(self.term_width)),
                word_chars(words@),
                max_line_len(self.term_width),
            ),
            well_wrapped(texts(lines@), word_chars(words@), max_line_len(self.term_width)),
            lines@.len() <= words@.len(),
            no_empty_word(word_chars(words@)) ==> forall|i: int|
                0 <= i < lines@.len() ==> (#[trigger] lines@[i])@.len() > 0,
    {
        let max: usize = (self.term_width / 5) as usize;
        let ghost all = word_chars(words@);
        let mut lines: Vec<Text> = Vec::new();
        let mut current_line = String::new();
        let mut i: usize = 0;
        assert(all.skip(0) =~= all);
        assert(texts(lines@) =~= Seq::<Seq<char>>::empty());
        while i < words.len()
            invariant
                i <= words.len(),
                all == word_chars(words@),
                max == max_line_len(self.term_width),
                wrap_from(all.skip(i as int), max as int, texts(lines@), current_line@) == wrapped(
                    all,
                    max as int,
                ),
            decreases words.len() - i,
        {
            let word = words[i].as_str();
            let current_len = current_line.as_str().unicode_len();
            let word_len = word.unicode_len();
            let ghost rest = all.skip(i as int);
            assert(rest.first() == word@);
            assert(rest.drop_first() =~= all.skip(i + 1));
            if current_len > 0 && (word_len > max || current_len > max - word_len) {
                let ghost closed = texts(lines@).push(current_line@);
                lines.push(Text::from(current_line));
                assert(texts(lines@) =~= closed);
                current_line = String::new();
                assert(current_line@ + word@.push(' ') =~= word@.push(' '));
            }
            current_line.append(word);
            push_char(&mut current_line, ' ');
            i += 1;
        }
        let n = current_line.as_str().unicode_len();
        if n > 0 {
            let ghost closed = texts(lines@).push(current_line@.drop_last());
            let last = current_line.as_str().substring_char(0, n - 1);
            lines.push(Text::from_str(last));
            assert(texts(lines@) =~= closed);
        }
        proof {
            lemma_wrapped_flatten(all, max as int);
            lemma_wrapped_fits(all, max as int);
            lemma_wrapped_is_greedy(all, max as int);
            assert forall|i: int| 0 <= i < lines@.len() implies (#[trigger] lines@[i])@
                == wrapped(all, max as int)[i] by {
                assert(texts(lines@)[i] == lines@[i]@);
            }
        }
        lines
    }

    /// Clears the screen and hides the cursor.
    pub fn clear_screen(&mut self)
        ensures
            final(self).same_but_queue(old(self)),
            wrote(old(self).out@, final(self).out@, clear_screen_shows()),
    {
        self.emit(RenderOp::ClearAll);
        self.emit(RenderOp::HideCursor);
        self.flush();
    }

    /// Puts the terminal's cursor at the start of the text and shows it.
    pub fn reinitialize_buffer(&mut self)
        ensures
            final(self).same_but_queue(old(self)),
            wrote(old(self).out@, final(self).out@, buffer_shows(old(self).text_cur_pos.text_lines@)),
    {
        if self.text_cur_pos.text_lines.len() > 0 {
            let x = self.text_cur_pos.text_lines[0].x;
            let y = self.text_cur_pos.text_lines[0].y;
            self.emit(RenderOp::Goto(x, y));
        }
        self.emit(RenderOp::BlinkingBar);
        self.emit(RenderOp::ShowCursor);
    }

    /// Writes every line of the text at its place.
    pub fn display_text_to_type(&mut self)
        ensures
            final(self).same_but_queue(old(self)),
            wrote(old(self).out@, final(self).out@, text_shows(old(self).text_cur_pos.text_lines@)),
    {
        let ghost out0 = self.out@;
        let ghost lines = self.text_cur_pos.text_lines@;
        let count = self.text_cur_pos.text_lines.len();
        let mut i: usize = 0;
        assert(lines.take(0) =~= Seq::<TextLine>::empty());
        while i < count
            invariant
                i <= count,
                count == lines.len(),
                lines == self.text_cur_pos.text_lines@,
                self.same_but_queue(old(self)),
                wrote(out0, self.out@, lines_show(lines.take(i as int))),
            decreases count - i,
        {
            let ghost out1 = self.out@;
            let x = self.text_cur_pos.text_lines[i].x;
            let y = self.text_cur_pos.text_lines[i].y;
            let text = self.text_cur_pos.text_lines[i].text.clone();
            self.emit(RenderOp::Goto(x, y));
            self.emit(RenderOp::Write(text));
            proof {
                let line = lines[i as int];
                let step = seq![
                    Expect::Op(Drawn::Goto(line.x, line.y)),
                    Expect::Op(Drawn::Write(line.text@)),
                ];
                assert(wrote(out1, self.out@, step));
                assert(lines.take(i + 1).drop_last() =~= lines.take(i as int));
                assert(lines.take(i + 1).last() == line);
                lemma_wrote_both(out0, out1, self.out@, lines_show(lines.take(i as int)), step);
            }
            i += 1;
        }
        assert(lines.take(count as int) =~= lines);
        let ghost out2 = self.out@;
        self.flush();
        proof {
            lemma_wrote_both(out0, out2, self.out@, lines_show(lines), seq![Expect::Op(Drawn::Flush)]);
        }
    }

    /// Writes the two keyboard shortcuts on the last two rows.
    pub fn display_keyboard_shortcuts(&mut self)
        ensures
            final(self).same_but_queue(old(self)),
            wrote(
                old(self).out@,
                final(self).out@,
                shortcuts_show(old(self).term_width, old(self).term_height),
            ),
    {
        proof {
            reveal_strlit("ctrl-");
            reveal_strlit("to restart");
            reveal_strlit("to quit");
            reveal_strlit(" ");
        }
        let start_y = self.term_height;

        let mut restart_sc = String::from_str("ctrl-");
        push_char(&mut restart_sc, RESTART_CHAR);
        let restart_desc = "to restart";
        let x = center_x(
            self.term_width,
            restart_sc.as_str().unicode_len() + restart_desc.unicode_len(),
        );
        let y = if start_y == 0 {
            0
        } else {
            start_y - 1
        };
        let mut description = String::from_str(" ");
        description.append(restart_desc);
        assert(description@ =~= seq![' '] + "to restart"@);
        self.emit(RenderOp::Goto(x, y));
        self.emit(RenderOp::Write(Text::from(restart_sc).with_color(Color::Green)));
        self.emit(RenderOp::Write(Text::from(description)));

        let mut quit_sc = String::from_str("ctrl-");
        push_char(&mut quit_sc, QUIT_CHAR);
        let quit_desc = "to quit";
        let x = center_x(self.term_width, quit_sc.as_str().unicode_len() + quit_desc.unicode_len());
        let y = start_y;
        let mut description = String::from_str(" ");
        description.append(quit_desc);
        assert(description@ =~= seq![' '] + "to quit"@);
        self.emit(RenderOp::Goto(x, y));
        self.emit(RenderOp::Write(Text::from(quit_sc).with_color(Color::Red)));
        self.emit(RenderOp::Write(Text::from(description)));

        self.flush();
    }

    /// Writes `text` at the terminal's cursor.
    pub fn display_text(&mut self, text: Text)
        ensures
            final(self).same_but_queue(old(self)),
            final(self).out@ == old(self).out@.push(RenderOp::Write(text)),
    {
        self.emit(RenderOp::Write(text));
    }

    /// Moves the cursor one step forward, and the terminal's cursor with it.
    pub fn move_buffer_to_cursor_next(&mut self)
        requires
            old(self).text_cur_pos.in_bounds(),
        ensures
            final(self).same_screen(old(self)),
            final(self).text_cur_pos.in_bounds(),
            final(self).text_cur_pos.at() == advance(
                line_lengths(old(self).text_cur_pos.text_lines@),
                old(self).text_cur_pos.at(),
            ),
            final(self).out@ == old(self).out@.push(
                RenderOp::Goto(
                    final(self).text_cur_pos.screen_position().0,
                    final(self).text_cur_pos.screen_position().1,
                ),
            ),
    {
        let (x, y) = self.text_cur_pos.next();
        self.emit(RenderOp::Goto(x, y));
    }

    /// Moves the cursor one step back, and the terminal's cursor with it.
    pub fn move_buffer_to_cursor_prev(&mut self)
        requires
            old(self).text_cur_pos.in_bounds(),
        ensures
            final(self).same_screen(old(self)),
            final(self).text_cur_pos.in_bounds(),
            final(self).text_cur_pos.at() == retreat(
                line_lengths(old(self).text_cur_pos.text_lines@),
                old(self).text_cur_pos.at(),
            ),
            final(self).out@ == old(self).out@.push(
                RenderOp::Goto(
                    final(self).text_cur_pos.screen_position().0,
                    final(self).text_cur_pos.screen_position().1,
                ),
            ),
    {
        let (x, y) = self.text_cur_pos.previous();
        self.emit(RenderOp::Goto(x, y));
    }

    /// Moves the terminal's cursor to where the cursor stands.
    pub fn move_buffer_to_cursor(&mut self)
        requires
            old(self).text_cur_pos.in_bounds(),
        ensures
            final(self).same_but_queue(old(self)),
            final(self).out@ == old(self).out@.push(
                RenderOp::Goto(
                    old(self).text_cur_pos.screen_position().0,
                    old(self).text_cur_pos.screen_position().1,
                ),
            ),
    {
        let (x, y) = self.text_cur_pos.current();
        self.emit(RenderOp::Goto(x, y));
    }

    /// Marks the character under the cursor as typed correctly and moves on.
    pub fn handle_correct_input(&mut self, correct_char: char)
        requires
            old(self).text_cur_pos.in_bounds(),
        ensures
            final(self).same_screen(old(self)),
            final(self).text_cur_pos.in_bounds(),
            final(self).text_cur_pos.at() == advance(
                line_lengths(old(self).text_cur_pos.text_lines@),
                old(self).text_cur_pos.at(),
            ),
            wrote(
                old(self).out@,
                final(self).out@,
                correct_shows(correct_char, final(self).text_cur_pos.screen_position()),
            ),
    {
        self.display_text(Text::from_char(correct_char).with_color(Color::Green));
        self.move_buffer_to_cursor_next();
    }

    /// Marks the character under the cursor as typed wrongly, showing the
    /// character that was expected, and moves on.
    pub fn handle_incorrect_input(&mut self, correct_char: char)
        requires
            old(self).text_cur_pos.in_bounds(),
        ensures
            final(self).same_screen(old(self)),
            final(self).text_cur_pos.in_bounds(),
            final(self).text_cur_pos.at() == advance(
                line_lengths(old(self).text_cur_pos.text_lines@),
                old(self).text_cur_pos.at(),
            ),
            wrote(
                old(self).out@,
                final(self).out@,
                incorrect_shows(correct_char, final(self).text_cur_pos.screen_position()),
            ),
    {
        self.display_text(
            Text::from_char(correct_char).with_color(Color::Red).with_underline(),
        );
        self.move_buffer_to_cursor_next();
    }

    /// Steps back and shows the character there unmarked again.
    pub fn handle_backspace(&mut self, last_char: char)
        requires
            old(self).text_cur_pos.in_bounds(),
        ensures
            final(self).same_screen(old(self)),
            final(self).text_cur_pos.in_bounds(),
            final(self).text_cur_pos.at() == retreat(
                line_lengths(old(self).text_cur_pos.text_lines@),
                old(self).text_cur_pos.at(),
            ),
            wrote(
                old(self).out@,
                final(self).out@,
                backspace_shows(last_char, final(self).text_cur_pos.screen_position()),
            ),
    {
        self.move_buffer_to_cursor_prev();
        self.display_text(Text::from_char(last_char).with_color(Color::Reset));
        self.move_buffer_to_cursor();
    }

    /// Replaces the exercise on the screen by the results message.
    pub fn display_results(&mut self, message: &str)
        ensures
            final(self).same_but_queue(old(self)),
            wrote(
                old(self).out@,
                final(self).out@,
                results_show(message@, old(self).term_width, old(self).term_height),
            ),
    {
        let ghost out0 = self.out@;
        self.clear_screen();
        let ghost out1 = self.out@;
        self.display_keyboard_shortcuts();
        let ghost out2 = self.out@;

        let start_y = self.term_height / 3;
        let x = center_x(self.term_width, message.unicode_len());
        let y = if start_y == 0 {
            0
        } else {
            start_y - 1
        };
        self.emit(RenderOp::Goto(x, y));
        self.emit(RenderOp::Write(Text::from_str(message)));
        self.flush();
        proof {
            let a = clear_screen_shows();
            let b = shortcuts_show(self.term_width, self.term_height);
            let c = seq![
                Expect::Op(Drawn::Goto(x, y)),
                Expect::Op(Drawn::Write(message@)),
                Expect::Op(Drawn::Flush),
            ];
            assert(wrote(out2, self.out@, c));
            lemma_wrote_both(out0, out1, out2, a, b);
            lemma_wrote_both(out0, out2, self.out@, a + b, c);
        }
    }

    /// Hands the terminal back: raw mode is left, the screen cleared, and the
    /// cursor put at the top left as a steady block.
    pub fn reset_terminal_on_quit(&mut self)
        ensures
            final(self).same_but_queue(old(self)),
            wrote(old(self).out@, final(self).out@, quit_shows()),
    {
        self.emit(RenderOp::SuspendRawMode);
        self.emit(RenderOp::ClearAll);
        self.emit(RenderOp::SteadyBlock);
        self.emit(RenderOp::Goto(1, 1));
        self.flush();
    }
}

/// Lines that say their own lengths hold together as many characters as
/// their texts read one after the other.
pub proof fn lemma_lengths_add_up(lines: Seq<TextLine>)
    requires
        forall|i: int| 0 <= i < lines.len() ==> (#[trigger] lines[i]).length == lines[i].text@.len(),
    ensures
        total(line_lengths(lines)) == line_texts(lines).flatten().len(),
{
    lemma_lengths_add_up_to(lines, lines.len() as int);
    assert(line_texts(lines).take(lines.len() as int) =~= line_texts(lines));
}

/// The first `count` lines hold as many characters as their texts read one
/// after the other.
proof fn lemma_lengths_add_up_to(lines: Seq<TextLine>, count: int)
    requires
        0 <= count <= lines.len(),
        forall|i: int| 0 <= i < lines.len() ==> (#[trigger] lines[i]).length == lines[i].text@.len(),
    ensures
        line_start(line_lengths(lines), count) == line_texts(lines).take(count).flatten().len(),
    decreases count,
{
    if count > 0 {
        lemma_lengths_add_up_to(lines, count - 1);
        let before = line_texts(lines).take(count - 1);
        assert(line_texts(lines).take(count) =~= before.push(lines[count - 1].text@));
        before.lemma_flatten_push(lines[count - 1].text@);
    } else {
        assert(line_texts(lines).take(0) =~= Seq::<Seq<char>>::empty());
    }
}

} // verus!
