use vstd::prelude::*;

use crate::state::State;

verus! {

/// The span of one recognized token, derived purely from the committed state
/// before the recognition and the scratch state after it. All nine fields are
/// fixed at construction and never change.
#[derive(Clone, Copy, Debug, PartialEq, Eq, Structural)]
pub struct TokenMeta {
    pub index_start: usize,
    pub index_end: usize,
    pub line_start: usize,
    pub line_end: usize,
    pub col_start: usize,
    pub col_end: usize,
    pub line_count: usize,
    pub col_count: usize,
    pub length: usize,
}

impl TokenMeta {
    /// The internal consistency of a span: the derived counts agree with the
    /// endpoints. The column count is meaningful for single-line tokens; when
    /// the end column lies left of the start column the span wrapped a line
    /// and the count is reported as 0.
    pub open spec fn wf(&self) -> bool {
        &&& self.index_start <= self.index_end
        &&& self.length == self.index_end - self.index_start
        &&& 1 <= self.line_start <= self.line_end
        &&& self.line_count == self.line_end - self.line_start + 1
        &&& self.col_count == if self.col_start <= self.col_end {
            self.col_end - self.col_start + 1
        } else {
            0
        }
    }

    /// Builds the span for a successful recognition that moved the cursor
    /// from `current` to `next`. The length is exactly the number of consumed
    /// characters and the line count is exactly the number of lines touched.
    /// The end column is the column of the last consumed character for a
    /// token that stays on one line; for a token that crosses a line boundary
    /// it is the column right after the last consumed character.
    pub fn new_state_meta(current: &State, next: &State) -> (r: TokenMeta)
        requires
            current.index < next.index,
            current.line <= next.line,
            1 <= current.line,
            1 <= current.column,
            1 <= next.column,
            current.line == next.line ==> current.column < next.column,
        ensures
            r.wf(),
            r.index_start == current.index,
            r.index_end == next.index,
            r.length == next.index - current.index,
            r.line_start == current.line,
            r.line_end == next.line,
            r.line_count == next.line - current.line + 1,
            r.col_start == current.column,
            current.line == next.line ==> r.col_end == next.column - 1,
            current.line < next.line ==> r.col_end == next.column,
    {
        let col_end = if current.line() == next.line() {
            next.column() - 1
        } else {
            next.column()
        };
        let col_count = if current.column() <= col_end {
            col_end - current.column() + 1
        } else {
            0
        };
        TokenMeta {
            index_start: current.index(),
            index_end: next.index(),
            line_start: current.line(),
            line_end: next.line(),
            col_start: current.column(),
            col_end,
            line_count: next.line() - current.line() + 1,
            col_count,
            length: next.index() - current.index(),
        }
    }

    /// The span invariant: every well-formed span's length is exactly the
    /// distance between its end and start offsets, and its line count is
    /// exactly one more than the distance between its end and start lines.
    pub proof fn lemma_span_invariant(self)
        requires
            self.wf(),
        ensures
            self.length == self.index_end - self.index_start,
            self.line_count == self.line_end - self.line_start + 1,
    {
    }

    pub fn index_start(&self) -> (r: usize)
        ensures
            r == self.index_start,
    {
        self.index_start
    }

    pub fn index_end(&self) -> (r: usize)
        ensures
            r == self.index_end,
    {
        self.index_end
    }

    pub fn line_start(&self) -> (r: usize)
        ensures
            r == self.line_start,
    {
        self.line_start
    }

    pub fn line_end(&self) -> (r: usize)
        ensures
            r == self.line_end,
    {
        self.line_end
    }

    pub fn col_start(&self) -> (r: usize)
        ensures
            r == self.col_start,
    {
        self.col_start
    }

    pub fn col_end(&self) -> (r: usize)
        ensures
            r == self.col_end,
    {
        self.col_end
    }

    pub fn line_count(&self) -> (r: usize)
        ensures
            r == self.line_count,
    {
        self.line_count
    }

    pub fn col_count(&self) -> (r: usize)
        ensures
            r == self.col_count,
    {
        self.col_count
    }

    pub fn len(&self) -> (r: usize)
        ensures
            r == self.length,
    {
        self.length
    }
}

/// Consecutive spans tile a range: each one starts exactly where the one
/// before it ended. This is how the loop lays tokens out, since every
/// acceptance commits the scratch state the next recognition starts from.
pub open spec fn spans_tiled(ms: Seq<TokenMeta>) -> bool {
    forall|i: int|
        0 <= i < ms.len() - 1 ==> (#[trigger] ms[i]).index_end == ms[i + 1].index_start
}

/// The characters covered by a sequence of spans, counted span by span.
pub open spec fn total_length(ms: Seq<TokenMeta>) -> int
    decreases ms.len(),
{
    if ms.len() == 0 {
        0
    } else {
        total_length(ms.drop_last()) + ms.last().length
    }
}

/// Tiled spans cover their range with no gap and no overlap: the lengths of
/// well-formed consecutive spans sum to exactly the distance from the first
/// start to the last end. The tokenization step pins each yielded token's
/// span to the committed cursor before and after the call, so the tokens of
/// one session are tiled in exactly this sense; a session that covers the
/// whole input yields lengths summing to the input's length.
pub proof fn lemma_tiled_spans_cover(ms: Seq<TokenMeta>)
    requires
        ms.len() > 0,
        forall|i: int| 0 <= i < ms.len() ==> (#[trigger] ms[i]).wf(),
        spans_tiled(ms),
    ensures
        total_length(ms) == ms.last().index_end - ms.first().index_start,
    decreases ms.len(),
{
    if ms.len() > 1 {
        let front = ms.drop_last();
        assert forall|i: int| 0 <= i < front.len() implies (#[trigger] front[i]).wf() by {
            assert(front[i] == ms[i]);
        }
        assert forall|i: int|
            0 <= i < front.len() - 1 implies (#[trigger] front[i]).index_end == front[i
            + 1].index_start by {
            assert(front[i] == ms[i]);
            assert(front[i + 1] == ms[i + 1]);
        }
        lemma_tiled_spans_cover(front);
        assert(front.last() == ms[ms.len() - 2]);
        assert(front.first() == ms.first());
        assert((#[trigger] ms[ms.len() - 2]).index_end == ms[ms.len() - 1].index_start);
        assert(ms.last() == ms[ms.len() - 1]);
        assert(ms.last().wf());
    } else {
        assert(ms.last() == ms[0]);
        assert(ms.first() == ms[0]);
        assert(ms[0].wf());
        assert(total_length(ms) == total_length(ms.drop_last()) + ms.last().length);
        assert(ms.drop_last().len() == 0);
    }
}

} // verus!
