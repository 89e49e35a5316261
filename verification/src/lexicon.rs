//! The pool of words from which an exercise is drawn.

use vstd::prelude::*;
use vstd::string::StringExecFns;

verus! {

/// The words that come with the library.
pub const BUNDLED: [&'static str; 64] = [
    "the", "and", "that", "have", "for", "not", "with", "you", "this", "but", "his", "from",
    "they", "say", "her", "she", "will", "one", "all", "would", "there", "their", "what", "out",
    "about", "who", "get", "which", "when", "make", "can", "like", "time", "just", "him", "know",
    "take", "people", "into", "year", "your", "good", "some", "could", "them", "see", "other",
    "than", "then", "now", "look", "only", "come", "its", "over", "think", "also", "back",
    "after", "use", "two", "how", "our", "work",
];

/// The bundled words as characters.
pub open spec fn bundled() -> Seq<Seq<char>> {
    BUNDLED@.map_values(|word: &'static str| word@)
}

/// The lower-case form of an ASCII capital; any other character as it is.
pub open spec fn lower(c: char) -> char {
    if 'A' <= c && c <= 'Z' {
        ((c as u8) + 32) as char
    } else {
        c
    }
}

/// The characters with every ASCII capital in lower case.
pub open spec fn lowercase(s: Seq<char>) -> Seq<char> {
    s.map_values(|c: char| lower(c))
}

/// Each word with every ASCII capital in lower case.
pub open spec fn lowercase_all(words: Seq<Seq<char>>) -> Seq<Seq<char>> {
    words.map_values(|word: Seq<char>| lowercase(word))
}

/// The characters of each word.
pub open spec fn word_chars(words: Seq<String>) -> Seq<Seq<char>> {
    words.map_values(|word: String| word@)
}

/// Calls `str::to_ascii_lowercase`, which maps the ASCII letters `A` to `Z`
/// to `a` to `z` and leaves every other character unchanged.
#[verifier::external_body]
pub(crate) fn to_ascii_lowercase(s: &str) -> (res: String)
    ensures
        res@ == lowercase(s@),
{
    s.to_ascii_lowercase()
}

/// An ordered list of words.
pub struct Lexicon {
    pub words: Vec<String>,
}

impl View for Lexicon {
    type V = Seq<Seq<char>>;

    open spec fn view(&self) -> Seq<Seq<char>> {
        word_chars(self.words@)
    }
}

impl Lexicon {
    /// The bundled lexicon.
    pub fn default() -> (lexicon: Lexicon)
        ensures
            lexicon@ == bundled(),
            lexicon.words@.len() == 64,
    {
        let mut words: Vec<String> = Vec::new();
        let mut i: usize = 0;
        while i < 64
            invariant
                i <= 64,
                words@.len() == i,
                forall|k: int| 0 <= k < i ==> (#[trigger] words@[k])@ == BUNDLED@[k]@,
            decreases 64 - i,
        {
            words.push(String::from_str(BUNDLED[i]));
            i += 1;
        }
        assert(word_chars(words@) =~= bundled());
        Lexicon { words }
    }

    /// The lexicon of the lines of a word file: every line is a word, taken
    /// in lower case.
    pub fn from_lines(lines: &Vec<String>) -> (lexicon: Lexicon)
        ensures
            lexicon@ == lowercase_all(word_chars(lines@)),
            lexicon.words@.len() == lines@.len(),
    {
        let mut words: Vec<String> = Vec::new();
        let mut i: usize = 0;
        while i < lines.len()
            invariant
                i <= lines.len(),
                words@.len() == i,
                forall|k: int| 0 <= k < i ==> (#[trigger] words@[k])@ == lowercase(lines@[k]@),
            decreases lines.len() - i,
        {
            words.push(to_ascii_lowercase(lines[i].as_str()));
            i += 1;
        }
        assert(word_chars(words@) =~= lowercase_all(word_chars(lines@)));
        Lexicon { words }
    }

    /// The number of words.
    pub fn len(&self) -> (n: usize)
        ensures
            n == self@.len(),
    {
        self.words.len()
    }

    /// The words, in order.
    pub fn words(&self) -> (words: &Vec<String>)
        ensures
            word_chars(words@) == self@,
    {
        &self.words
    }
}

/// No bundled word is empty, and none holds anything but the letters `a` to
/// `z`.
pub proof fn lemma_bundled_words_are_clean()
    ensures
        forall|k: int|
            0 <= k < bundled().len() ==> (#[trigger] bundled()[k]).len() > 0 && forall|i: int|
                0 <= i < bundled()[k].len() ==> 'a' <= #[trigger] bundled()[k][i] <= 'z',
{
    reveal_strlit("the");
    reveal_strlit("and");
    reveal_strlit("that");
    reveal_strlit("have");
    reveal_strlit("for");
    reveal_strlit("not");
    reveal_strlit("with");
    reveal_strlit("you");
    reveal_strlit("this");
    reveal_strlit("but");
    reveal_strlit("his");
    reveal_strlit("from");
    reveal_strlit("they");
    reveal_strlit("say");
    reveal_strlit("her");
    reveal_strlit("she");
    reveal_strlit("will");
    reveal_strlit("one");
    reveal_strlit("all");
    reveal_strlit("would");
    reveal_strlit("there");
    reveal_strlit("their");
    reveal_strlit("what");
    reveal_strlit("out");
    reveal_strlit("about");
    reveal_strlit("who");
    reveal_strlit("get");
    reveal_strlit("which");
    reveal_strlit("when");
    reveal_strlit("make");
    reveal_strlit("can");
    reveal_strlit("like");
    reveal_strlit("time");
    reveal_strlit("just");
    reveal_strlit("him");
    reveal_strlit("know");
    reveal_strlit("take");
    reveal_strlit("people");
    reveal_strlit("into");
    reveal_strlit("year");
    reveal_strlit("your");
    reveal_strlit("good");
    reveal_strlit("some");
    reveal_strlit("could");
    reveal_strlit("them");
    reveal_strlit("see");
    reveal_strlit("other");
    reveal_strlit("than");
    reveal_strlit("then");
    reveal_strlit("now");
    reveal_strlit("look");
    reveal_strlit("only");
    reveal_strlit("come");
    reveal_strlit("its");
    reveal_strlit("over");
    reveal_strlit("think");
    reveal_strlit("also");
    reveal_strlit("back");
    reveal_strlit("after");
    reveal_strlit("use");
    reveal_strlit("two");
    reveal_strlit("how");
    reveal_strlit("our");
    reveal_strlit("work");
}

} // verus!
