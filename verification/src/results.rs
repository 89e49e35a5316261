//! The counters of one exercise and the summary drawn from them at its end.

use vstd::prelude::*;

verus! {

/// What is counted while the user types.
#[derive(Clone, Copy, Debug, PartialEq, Eq, Structural)]
pub struct Results {
    /// Milliseconds from the first keystroke to the one that completed the
    /// text; 0 until then.
    pub ms_elapsed: u128,
    /// The length of the text to type.
    pub n_chars_to_type: usize,
    /// Character keystrokes so far.
    pub n_chars_typed: u16,
    /// Keystrokes that did not match the expected character.
    pub n_typos: u16,
    /// Backspaces that removed a character.
    pub n_backspaces: u16,
}

impl Default for Results {
    fn default() -> (results: Results)
        ensures
            results == Results::fresh(0),
    {
        Results::new(0)
    }
}

/// The number of positions below `n` at which `target` and `input` differ.
pub open spec fn mismatches_below(target: Seq<char>, input: Seq<char>, n: int) -> int
    decreases n,
{
    if n <= 0 {
        0
    } else {
        mismatches_below(target, input, n - 1) + if target[n - 1] != input[n - 1] {
            1int
        } else {
            0int
        }
    }
}

/// The number of positions at which `target` and `input` differ, as far as
/// both reach.
pub open spec fn mismatches(target: Seq<char>, input: Seq<char>) -> int {
    mismatches_below(
        target,
        input,
        if target.len() <= input.len() {
            target.len() as int
        } else {
            input.len() as int
        },
    )
}

/// `v` plus one, held at the largest value a counter can take.
pub open spec fn bumped(v: u16) -> u16 {
    if v < u16::MAX {
        (v + 1) as u16
    } else {
        v
    }
}

/// A counter plus one; at its largest value it stays.
pub fn bump(v: u16) -> (r: u16)
    ensures
        r == bumped(v),
        r >= v,
{
    if v < u16::MAX {
        v + 1
    } else {
        v
    }
}

/// The figures shown once an exercise is over.
#[derive(Clone, Copy, Debug, PartialEq, Eq, Structural)]
pub struct Summary {
    /// Character keystrokes made.
    pub n_chars_typed: u16,
    /// Positions at which the final input differs from the text.
    pub incorrect_at_end: usize,
    /// `incorrect_at_end` as a percentage of the text's length, rounded down.
    pub accuracy_error_pct: u128,
    /// Typos that were made and are no longer there.
    pub fudge_factor: i128,
    /// Milliseconds from the first keystroke to the last.
    pub ms_elapsed: u128,
    /// The same in whole seconds.
    pub elapsed_seconds: u128,
}

impl Results {
    /// The counters of an exercise of `n_chars_to_type` characters on which
    /// nothing was typed yet.
    pub open spec fn fresh(n_chars_to_type: usize) -> Results {
        Results { ms_elapsed: 0, n_chars_to_type, n_chars_typed: 0, n_typos: 0, n_backspaces: 0 }
    }

    /// The summary of these counters for a text and what was typed for it. A
    /// text of length 0 has an error percentage of 0.
    pub open spec fn summary(&self, target: Seq<char>, input: Seq<char>) -> Summary {
        Summary {
            n_chars_typed: self.n_chars_typed,
            incorrect_at_end: mismatches(target, input) as usize,
            accuracy_error_pct: if self.n_chars_to_type == 0 {
                0
            } else {
                (100 * mismatches(target, input) / self.n_chars_to_type as int) as u128
            },
            fudge_factor: (self.n_typos - mismatches(target, input)) as i128,
            ms_elapsed: self.ms_elapsed,
            elapsed_seconds: self.ms_elapsed / 1000,
        }
    }

    /// Fresh counters for a text of `n_chars_to_type` characters.
    pub fn new(n_chars_to_type: usize) -> (results: Results)
        ensures
            results == Results::fresh(n_chars_to_type),
    {
        Results { ms_elapsed: 0, n_chars_to_type, n_chars_typed: 0, n_typos: 0, n_backspaces: 0 }
    }

    /// Draws the summary from the counters, the text and the final input.
    pub fn summarize(&self, target: &Vec<char>, input: &Vec<char>) -> (summary: Summary)
        ensures
            summary == self.summary(target@, input@),
            summary.incorrect_at_end == mismatches(target@, input@),
            summary.incorrect_at_end <= target@.len(),
            summary.incorrect_at_end <= input@.len(),
            summary.fudge_factor == self.n_typos - mismatches(target@, input@),
            self.n_chars_to_type > 0 ==> summary.accuracy_error_pct == 100 * mismatches(
                target@,
                input@,
            ) / self.n_chars_to_type as int,
    {
        let incorrect_at_end = count_mismatches(target, input);
        let accuracy_error_pct: u128 = if self.n_chars_to_type == 0 {
            0
        } else {
            100 * (incorrect_at_end as u128) / (self.n_chars_to_type as u128)
        };
        let fudge_factor: i128 = self.n_typos as i128 - incorrect_at_end as i128;
        Summary {
            n_chars_typed: self.n_chars_typed,
            incorrect_at_end,
            accuracy_error_pct,
            fudge_factor,
            ms_elapsed: self.ms_elapsed,
            elapsed_seconds: self.ms_elapsed / 1000,
        }
    }
}

/// Counts the positions at which `target` and `input` differ, as far as both
/// reach.
pub fn count_mismatches(target: &Vec<char>, input: &Vec<char>) -> (count: usize)
    ensures
        count == mismatches(target@, input@),
        count <= target@.len(),
        count <= input@.len(),
{
    let n = if target.len() <= input.len() {
        target.len()
    } else {
        input.len()
    };
    let mut count: usize = 0;
    let mut i: usize = 0;
    while i < n
        invariant
            i <= n,
            n <= target@.len(),
            n <= input@.len(),
            count <= i,
            count == mismatches_below(target@, input@, i as int),
        decreases n - i,
    {
        if target[i] != input[i] {
            count += 1;
        }
        i += 1;
    }
    count
}

/// Positions below `n` are compared alike in inputs that agree below `n`.
pub proof fn lemma_mismatches_of_prefix(target: Seq<char>, a: Seq<char>, b: Seq<char>, n: int)
    requires
        n <= a.len(),
        n <= b.len(),
        forall|i: int| 0 <= i < n ==> a[i] == b[i],
    ensures
        mismatches_below(target, a, n) == mismatches_below(target, b, n),
    decreases n,
{
    if n > 0 {
        lemma_mismatches_of_prefix(target, a, b, n - 1);
    }
}

/// No more positions differ below `n` than below a larger bound, and never
/// more than `n`.
pub proof fn lemma_mismatches_grow(target: Seq<char>, input: Seq<char>, n: int, m: int)
    requires
        0 <= n <= m,
    ensures
        0 <= mismatches_below(target, input, n) <= mismatches_below(target, input, m),
        mismatches_below(target, input, n) <= n,
    decreases m,
{
    if n < m {
        lemma_mismatches_grow(target, input, n, m - 1);
    } else if n > 0 {
        lemma_mismatches_grow(target, input, n - 1, n - 1);
    }
}

} // verus!
