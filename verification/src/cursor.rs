//! How the cursor steps through the lines, as mathematics, and what holds of
//! steps forward and back.

use vstd::prelude::*;

verus! {

/// Where a cursor at line `at.0`, offset `at.1` stands after one step forward.
/// Inside a line the offset grows by one. From the last character of a line,
/// or from beyond it, the cursor goes to the start of the next line. On the
/// last line it stays where it is.
pub open spec fn advance(lengths: Seq<int>, at: (int, int)) -> (int, int) {
    if at.1 + 1 < lengths[at.0] {
        (at.0, at.1 + 1)
    } else if at.0 + 1 < lengths.len() {
        (at.0 + 1, 0)
    } else {
        at
    }
}

/// Where a cursor at line `at.0`, offset `at.1` stands after one step back.
/// Inside a line the offset shrinks by one. From the start of a line the
/// cursor goes to the line before, and there to the offset that equals that
/// line's length, one past its last character. At the start of the first line
/// it stays where it is.
pub open spec fn retreat(lengths: Seq<int>, at: (int, int)) -> (int, int) {
    if at.1 > 0 {
        (at.0, at.1 - 1)
    } else if at.0 > 0 {
        (at.0 - 1, lengths[at.0 - 1])
    } else {
        at
    }
}

/// Whether `at` names a line of the layout and an offset that is not
/// negative, and no line has a negative length.
pub open spec fn on_a_line(lengths: Seq<int>, at: (int, int)) -> bool {
    &&& 0 <= at.0 < lengths.len()
    &&& 0 <= at.1
    &&& forall|i: int| 0 <= i < lengths.len() ==> 0 <= #[trigger] lengths[i]
}

/// One step of the cursor.
pub enum Move {
    Forward,
    Back,
}

/// Where the cursor stands after one step.
pub open spec fn moved(lengths: Seq<int>, at: (int, int), step: Move) -> (int, int) {
    match step {
        Move::Forward => advance(lengths, at),
        Move::Back => retreat(lengths, at),
    }
}

/// Where the cursor stands after the steps, taken in order.
pub open spec fn walk(lengths: Seq<int>, at: (int, int), steps: Seq<Move>) -> (int, int)
    decreases steps.len(),
{
    if steps.len() == 0 {
        at
    } else {
        walk(lengths, moved(lengths, at, steps.first()), steps.drop_first())
    }
}

/// The steps forward less the steps back.
pub open spec fn net(steps: Seq<Move>) -> int
    decreases steps.len(),
{
    if steps.len() == 0 {
        0
    } else {
        net(steps.drop_first()) + match steps.first() {
            Move::Forward => 1int,
            Move::Back => -1int,
        }
    }
}

/// Whether every one of the steps, taken in order from `at`, stays on the
/// line: no step forward starts at the last character of the line or beyond
/// it, and no step back at its start.
pub open spec fn stays_on_line(lengths: Seq<int>, at: (int, int), steps: Seq<Move>) -> bool
    decreases steps.len(),
{
    steps.len() == 0 || {
        &&& match steps.first() {
            Move::Forward => at.1 + 1 < lengths[at.0],
            Move::Back => at.1 > 0,
        }
        &&& stays_on_line(lengths, moved(lengths, at, steps.first()), steps.drop_first())
    }
}

/// A step forward and then a step back bring the cursor back exactly where
/// the step forward stayed on the line, where it started one past the end of
/// a line that has a successor, or where neither step could move: at the
/// start of a layout of one line, that line holding one character at most.
pub proof fn lemma_forward_then_back(lengths: Seq<int>, at: (int, int))
    requires
        on_a_line(lengths, at),
    ensures
        retreat(lengths, advance(lengths, at)) == at <==> {
            ||| at.1 + 1 < lengths[at.0]
            ||| at.1 == lengths[at.0] && at.0 + 1 < lengths.len()
            ||| at == (0int, 0int) && lengths.len() == 1 && lengths[0] <= 1
        },
{
}

/// From the last character of a line that has a successor, a step forward
/// and then a step back do not bring the cursor back: they leave it one
/// further, past the end of the line.
pub proof fn lemma_forward_then_back_at_line_end(lengths: Seq<int>, at: (int, int))
    requires
        on_a_line(lengths, at),
        at.1 + 1 == lengths[at.0],
        at.0 + 1 < lengths.len(),
    ensures
        retreat(lengths, advance(lengths, at)) == (at.0, at.1 + 1),
{
}

/// A step back and then a step forward bring the cursor back exactly where
/// the step back started inside a line, where it started at the start of a
/// line that has a predecessor, or where neither step could move.
pub proof fn lemma_back_then_forward(lengths: Seq<int>, at: (int, int))
    requires
        on_a_line(lengths, at),
    ensures
        advance(lengths, retreat(lengths, at)) == at <==> {
            ||| 0 < at.1 < lengths[at.0]
            ||| at.1 == 0 && at.0 > 0
            ||| at == (0int, 0int) && lengths.len() == 1 && lengths[0] <= 1
        },
{
}

/// Steps that stay on the line move the offset by their net number and leave
/// the line as it is.
pub proof fn lemma_walk_on_line(lengths: Seq<int>, at: (int, int), steps: Seq<Move>)
    requires
        on_a_line(lengths, at),
        stays_on_line(lengths, at, steps),
    ensures
        walk(lengths, at, steps) == (at.0, at.1 + net(steps)),
    decreases steps.len(),
{
    if steps.len() > 0 {
        lemma_walk_on_line(lengths, moved(lengths, at, steps.first()), steps.drop_first());
    }
}

/// Steps that stay on the line, as many forward as back, bring the cursor
/// back to where it stood.
pub proof fn lemma_round_trip(lengths: Seq<int>, at: (int, int), steps: Seq<Move>)
    requires
        on_a_line(lengths, at),
        stays_on_line(lengths, at, steps),
        net(steps) == 0,
    ensures
        walk(lengths, at, steps) == at,
{
    lemma_walk_on_line(lengths, at, steps);
}

/// The number of characters on the lines before line `line`.
pub open spec fn line_start(lengths: Seq<int>, line: int) -> int
    decreases line,
{
    if line <= 0 {
        0
    } else {
        line_start(lengths, line - 1) + lengths[line - 1]
    }
}

/// The place of the cursor counted in characters from the start of the text.
pub open spec fn linear(lengths: Seq<int>, at: (int, int)) -> int {
    line_start(lengths, at.0) + at.1
}

/// The number of characters on all lines.
pub open spec fn total(lengths: Seq<int>) -> int {
    line_start(lengths, lengths.len() as int)
}

/// Whether every line holds a character.
pub open spec fn no_empty_line(lengths: Seq<int>) -> bool {
    forall|i: int| 0 <= i < lengths.len() ==> 0 < #[trigger] lengths[i]
}

/// Whether the cursor stands on a character of its line.
pub open spec fn on_a_char(lengths: Seq<int>, at: (int, int)) -> bool {
    &&& on_a_line(lengths, at)
    &&& at.1 < lengths[at.0]
}

/// A step forward from a character that is not the last one of the text
/// leads to the character that follows it in the text, on the same line or at
/// the start of the next one.
pub proof fn lemma_forward_is_the_next_char(lengths: Seq<int>, at: (int, int))
    requires
        on_a_char(lengths, at),
        no_empty_line(lengths),
        linear(lengths, at) + 1 < total(lengths),
    ensures
        on_a_char(lengths, advance(lengths, at)),
        linear(lengths, advance(lengths, at)) == linear(lengths, at) + 1,
{
    if at.1 + 1 >= lengths[at.0] && at.0 + 1 >= lengths.len() {
        assert(line_start(lengths, at.0 + 1) == line_start(lengths, at.0) + lengths[at.0]);
    }
}

/// A step back inside a line leads to the character before. A step back from
/// the start of a line leads past the end of the line before, which is the
/// same place counted in characters.
pub proof fn lemma_back_is_the_char_before(lengths: Seq<int>, at: (int, int))
    requires
        on_a_line(lengths, at),
    ensures
        on_a_line(lengths, retreat(lengths, at)),
        at.1 > 0 ==> linear(lengths, retreat(lengths, at)) == linear(lengths, at) - 1,
        at.1 == 0 ==> linear(lengths, retreat(lengths, at)) == linear(lengths, at),
{
}

} // verus!
