//! A piece of text on its way to the terminal, plain or styled.

use vstd::prelude::*;
use vstd::std_specs::convert::FromSpecImpl;
use vstd::string::StringExecFns;

verus! {

/// The foreground colours that the exercise paints with.
#[derive(Clone, Copy, Debug, PartialEq, Eq, Structural)]
pub enum Color {
    Green,
    Red,
    Reset,
}

/// The escape sequence that selects a foreground colour.
pub open spec fn foreground_code(color: Color) -> Seq<char> {
    match color {
        Color::Green => "\u{1b}[38;5;2m"@,
        Color::Red => "\u{1b}[38;5;1m"@,
        Color::Reset => "\u{1b}[39m"@,
    }
}

/// The escape sequence that switches underlining on.
pub open spec fn underline_code() -> Seq<char> {
    "\u{1b}[4m"@
}

/// The escape sequence that clears every style.
pub open spec fn style_reset_code() -> Seq<char> {
    "\u{1b}[m"@
}

/// Whether `code` is something that the terminal library may emit to select
/// `color`: the escape sequence, or nothing at all where colours are switched
/// off for the process. The default colour is always selected by its sequence.
pub open spec fn is_foreground(code: Seq<char>, color: Color) -> bool {
    code == foreground_code(color) || (color != Color::Reset && code.len() == 0)
}

/// Whether `out` is `inner` painted in `color`: wrapped between something that
/// selects the colour and the sequence that goes back to the default one.
pub open spec fn is_colored(out: Seq<char>, inner: Seq<char>, color: Color) -> bool {
    ||| out == foreground_code(color) + inner + foreground_code(Color::Reset)
    ||| color != Color::Reset && out == inner + foreground_code(Color::Reset)
}

/// `inner` between the sequences that switch underlining on and every style off.
pub open spec fn underlined(inner: Seq<char>) -> Seq<char> {
    underline_code() + inner + style_reset_code()
}

/// Formats `termion::color::Fg(termion::color::Green)`. termion writes the
/// escape sequence of green, or nothing at all when the `NO_COLOR` variable
/// of the environment is set.
#[verifier::external_body]
fn foreground_green() -> (code: String)
    ensures
        is_foreground(code@, Color::Green),
{
    format!("{}", termion::color::Fg(termion::color::Green))
}

/// Formats `termion::color::Fg(termion::color::Red)`. termion writes the
/// escape sequence of red, or nothing at all when the `NO_COLOR` variable of
/// the environment is set.
#[verifier::external_body]
fn foreground_red() -> (code: String)
    ensures
        is_foreground(code@, Color::Red),
{
    format!("{}", termion::color::Fg(termion::color::Red))
}

/// Formats `termion::color::Fg(termion::color::Reset)`, which always writes
/// the sequence that selects the default colour.
#[verifier::external_body]
fn foreground_reset() -> (code: String)
    ensures
        code@ == foreground_code(Color::Reset),
{
    format!("{}", termion::color::Fg(termion::color::Reset))
}

/// What the terminal library writes to select `color`.
fn foreground(color: Color) -> (code: String)
    ensures
        is_foreground(code@, color),
{
    match color {
        Color::Green => foreground_green(),
        Color::Red => foreground_red(),
        Color::Reset => foreground_reset(),
    }
}

/// Formats `termion::style::Underline`, which writes one fixed sequence.
#[verifier::external_body]
fn underline_on() -> (code: String)
    ensures
        code@ == underline_code(),
{
    format!("{}", termion::style::Underline)
}

/// Formats `termion::style::Reset`, which writes one fixed sequence.
#[verifier::external_body]
fn style_reset() -> (code: String)
    ensures
        code@ == style_reset_code(),
{
    format!("{}", termion::style::Reset)
}

/// Calls `String::push`, which appends one character.
#[verifier::external_body]
pub(crate) fn push_char(s: &mut String, c: char)
    ensures
        final(s)@ == old(s)@.push(c),
{
    s.push(c)
}

/// Text as it is written to the terminal: the characters, escape sequences
/// included once it has been styled.
#[derive(Debug, PartialEq, Eq)]
pub struct Text {
    pub raw: String,
}

impl View for Text {
    type V = Seq<char>;

    open spec fn view(&self) -> Seq<char> {
        self.raw@
    }
}

impl Default for Text {
    fn default() -> (res: Text)
        ensures
            res@ == Seq::<char>::empty(),
    {
        Text { raw: String::new() }
    }
}

impl From<String> for Text {
    fn from(text: String) -> (res: Text) {
        Text { raw: text }
    }
}

impl FromSpecImpl<String> for Text {
    open spec fn obeys_from_spec() -> bool {
        true
    }

    open spec fn from_spec(text: String) -> Text {
        Text { raw: text }
    }
}

impl Clone for Text {
    fn clone(&self) -> (res: Text)
        ensures
            res == *self,
    {
        Text { raw: self.raw.clone() }
    }
}

impl Text {
    /// The text of a string slice.
    pub fn from_str(text: &str) -> (res: Text)
        ensures
            res@ == text@,
    {
        Text { raw: String::from_str(text) }
    }

    /// The text of one character.
    pub fn from_char(c: char) -> (res: Text)
        ensures
            res@ == seq![c],
    {
        let mut raw = String::new();
        push_char(&mut raw, c);
        Text { raw }
    }

    /// The number of characters.
    pub fn len(&self) -> (n: usize)
        ensures
            n == self@.len(),
    {
        self.raw.as_str().unicode_len()
    }

    /// The same text painted in `color`, followed by a return to the default
    /// colour.
    pub fn with_color(self, color: Color) -> (res: Text)
        ensures
            is_colored(res@, self@, color),
    {
        let mut raw = foreground(color);
        let back = foreground(Color::Reset);
        raw.append(self.raw.as_str());
        raw.append(back.as_str());
        proof {
            if raw@.len() == self@.len() + back@.len() {
                assert(raw@ =~= self@ + foreground_code(Color::Reset));
            }
        }
        Text { raw }
    }

    /// The same text underlined, followed by a reset of every style.
    pub fn with_underline(self) -> (res: Text)
        ensures
            res@ == underlined(self@),
    {
        let mut raw = underline_on();
        let off = style_reset();
        raw.append(self.raw.as_str());
        raw.append(off.as_str());
        Text { raw }
    }

    /// The characters as one string slice, ready to be written.
    pub fn render(&self) -> (s: &str)
        ensures
            s@ == self@,
    {
        self.raw.as_str()
    }

    /// The characters, one by one.
    pub fn as_chars(&self) -> (chars: Vec<char>)
        ensures
            chars@ == self@,
    {
        let s = self.raw.as_str();
        let n = s.unicode_len();
        let mut chars: Vec<char> = Vec::new();
        let mut i: usize = 0;
        while i < n
            invariant
                n == s@.len(),
                i <= n,
                chars@ == s@.subrange(0, i as int),
            decreases n - i,
        {
            chars.push(s.get_char(i));
            i += 1;
        }
        assert(s@.subrange(0, n as int) =~= s@);
        chars
    }
}

} // verus!
