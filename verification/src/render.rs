//! The logical operations that the screen asks of the terminal, and a way to
//! say which operations a step has issued.

use crate::text::Color;
use crate::text::foreground_code;
use crate::text::is_colored;
use crate::text::Text;
use crate::text::underlined;
use vstd::prelude::*;

verus! {

/// One operation on the terminal. The library queues them; whoever owns the
/// terminal carries them out in order.
#[derive(Debug, PartialEq, Eq)]
pub enum RenderOp {
    /// Clear the whole screen.
    ClearAll,
    /// Hide the terminal's cursor.
    HideCursor,
    /// Show the terminal's cursor.
    ShowCursor,
    /// Give the cursor the shape of a blinking bar.
    BlinkingBar,
    /// Give the cursor the shape of a steady block.
    SteadyBlock,
    /// Move the cursor to a column and a row.
    Goto(u16, u16),
    /// Write text at the cursor.
    Write(Text),
    /// Send what was written so far to the terminal.
    Flush,
    /// Leave raw mode.
    SuspendRawMode,
}

/// An operation with its text as plain characters.
pub enum Drawn {
    ClearAll,
    HideCursor,
    ShowCursor,
    BlinkingBar,
    SteadyBlock,
    Goto(u16, u16),
    Write(Seq<char>),
    Flush,
    SuspendRawMode,
}

impl View for RenderOp {
    type V = Drawn;

    open spec fn view(&self) -> Drawn {
        match self {
            RenderOp::ClearAll => Drawn::ClearAll,
            RenderOp::HideCursor => Drawn::HideCursor,
            RenderOp::ShowCursor => Drawn::ShowCursor,
            RenderOp::BlinkingBar => Drawn::BlinkingBar,
            RenderOp::SteadyBlock => Drawn::SteadyBlock,
            RenderOp::Goto(x, y) => Drawn::Goto(*x, *y),
            RenderOp::Write(text) => Drawn::Write(text@),
            RenderOp::Flush => Drawn::Flush,
            RenderOp::SuspendRawMode => Drawn::SuspendRawMode,
        }
    }
}

/// The operations of a queue, each with its text as plain characters.
pub open spec fn drawn(ops: Seq<RenderOp>) -> Seq<Drawn> {
    ops.map_values(|op: RenderOp| op@)
}

/// What a step is expected to issue. A styled write is not pinned to one
/// string: the terminal library leaves out green and red where colours are
/// switched off.
pub enum Expect {
    /// Exactly this operation.
    Op(Drawn),
    /// A write of the characters, painted in the colour.
    Painted(Seq<char>, Color),
    /// A write of the characters, painted red and underlined.
    Marked(Seq<char>),
}

/// Whether the characters `out` are `inner` painted red and then underlined.
pub open spec fn is_marked(out: Seq<char>, inner: Seq<char>) -> bool {
    ||| out == underlined(
        foreground_code(Color::Red) + inner + foreground_code(Color::Reset),
    )
    ||| out == underlined(inner + foreground_code(Color::Reset))
}

/// Whether an operation is what was expected.
pub open spec fn meets(op: Drawn, expected: Expect) -> bool {
    match expected {
        Expect::Op(wanted) => op == wanted,
        Expect::Painted(inner, color) => op matches Drawn::Write(out) && is_colored(
            out,
            inner,
            color,
        ),
        Expect::Marked(inner) => op matches Drawn::Write(out) && is_marked(out, inner),
    }
}

/// Whether the queue `after` is the queue `before` with operations added at
/// its end that are, one by one, what `expected` lists.
pub open spec fn wrote(before: Seq<RenderOp>, after: Seq<RenderOp>, expected: Seq<Expect>) -> bool {
    &&& after.len() == before.len() + expected.len()
    &&& forall|i: int|
        0 <= i < after.len() ==> if i < before.len() {
            (#[trigger] after[i])@ == before[i]@
        } else {
            meets(after[i]@, expected[i - before.len()])
        }
}

/// Two steps in a row have issued what the first was expected to issue, then
/// what the second was.
pub proof fn lemma_wrote_both(
    before: Seq<RenderOp>,
    between: Seq<RenderOp>,
    after: Seq<RenderOp>,
    first: Seq<Expect>,
    second: Seq<Expect>,
)
    requires
        wrote(before, between, first),
        wrote(between, after, second),
    ensures
        wrote(before, after, first + second),
{
    assert forall|i: int| 0 <= i < after.len() implies if i < before.len() {
        (#[trigger] after[i])@ == before[i]@
    } else {
        meets(after[i]@, (first + second)[i - before.len()])
    } by {
        if i < between.len() {
            assert(after[i]@ == between[i]@);
        }
    }
}

} // verus!
