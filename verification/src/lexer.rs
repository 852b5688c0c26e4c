use vstd::prelude::*;

use crate::input::Input;
use crate::reader::Reader;
use crate::reader_result::ReaderResult;
use crate::readers::Readers;
use crate::state::State;
use crate::state::lemma_line_col_monotone;
use crate::state::lemma_wf_bounds;
use crate::token::Token;
use crate::token_error::TokenError;
use crate::token_meta::TokenMeta;

verus! {

/// What one recognizer trial decides for the step: emit a token, flag a
/// protocol violation, raise the recognizer's own error, or pass the
/// position on to the next recognizer.
pub enum StepAction<K, V, E> {
    Emit(Token<K, V>),
    Violation,
    Raise(E),
    Pass,
}

/// Settles one recognizer trial: for every value a recognizer can hand back,
/// this fixes the step's answer. An acceptance that advanced the scratch
/// state becomes a finished token whose span is computed here, from the
/// committed and scratch states; an acceptance that consumed nothing is a
/// protocol violation; an error and a declination pass through unchanged.
pub fn settle<K, V, E>(outcome: ReaderResult<(K, V), E>, current: &State, scratch: &State) -> (r:
    StepAction<K, V, E>)
    requires
        1 <= current.line,
        1 <= current.column,
        1 <= scratch.column,
        current.index < scratch.index ==> current.line <= scratch.line,
        (current.index < scratch.index && current.line == scratch.line) ==> current.column
            < scratch.column,
    ensures
        (match outcome {
            ReaderResult::Accept(kv) => {
                if current.index < scratch.index {
                    r matches StepAction::Emit(t) && t.kind == kv.0 && t.value == kv.1
                        && t.meta.wf() && t.meta.index_start == current.index
                        && t.meta.index_end == scratch.index && t.meta.length == scratch.index
                        - current.index && t.meta.line_start == current.line && t.meta.line_end
                        == scratch.line && t.meta.line_count == scratch.line - current.line + 1
                        && t.meta.col_start == current.column && (current.line == scratch.line
                        ==> t.meta.col_end == scratch.column - 1) && (current.line < scratch.line
                        ==> t.meta.col_end == scratch.column)
                } else {
                    r matches StepAction::Violation
                }
            },
            ReaderResult::Fail(e) => r matches StepAction::Raise(err) && err == e,
            ReaderResult::Decline => r matches StepAction::Pass,
        }),
{
    match outcome {
        ReaderResult::Accept((kind, value)) => {
            if current.index() < scratch.index() {
                StepAction::Emit(
                    Token::new(TokenMeta::new_state_meta(current, scratch), kind, value),
                )
            } else {
                StepAction::Violation
            }
        },
        ReaderResult::Fail(error) => StepAction::Raise(error),
        ReaderResult::Decline => StepAction::Pass,
    }
}

/// One lexing session: a recognizer set, a character source and the
/// committed cursor. The session is single pass and never seeks backwards;
/// it is restarted only by opening a new session over the same set.
///
/// Each step either yields a token, yields an error, or reports the end of
/// input. The recovery policy after a failure is fixed and documented here:
/// after a no-match the session skips exactly one character and goes on;
/// after a domain error it keeps whatever the recognizer consumed, else
/// skips one character; after a non-advancing acceptance the session halts
/// for good, since such a recognizer could stall it forever.
pub struct Lexer<'a, R> {
    pub readers: &'a Readers<R>,
    pub input: Input,
    pub state: State,
    pub halted: bool,
}

impl<'a, R> Lexer<'a, R> {
    /// The session invariant: the source is well formed and the committed
    /// cursor is a true position in it, reached by the advance rule.
    pub open spec fn wf(&self) -> bool {
        &&& self.input.wf()
        &&& self.state.wf_in(self.input.chars())
    }

    /// Whether the whole input has been consumed.
    pub fn done(&self) -> (r: bool)
        requires
            self.wf(),
        ensures
            r == (self.state.index >= self.input.chars().len()),
    {
        self.input.done(&self.state)
    }
}

impl<'a, R: Reader> Lexer<'a, R> {
    /// One step of the tokenization loop. While input remains, the
    /// recognizers are tried in priority order against a scratch copy of the
    /// committed cursor; the first one that does not decline settles the
    /// step (see `settle`). A yielded token's span is computed by this loop
    /// from the cursor pair, so it covers exactly the characters between the
    /// committed cursor before and after the call: successive tokens tile
    /// the input with no gap and no overlap. Every yielded item makes
    /// progress (or halts the session), so a session never loops without
    /// bound: the no-match error names exactly the failing position and
    /// skips exactly one character past it.
    pub fn next(&mut self) -> (r: Option<
        Result<Token<<R as Reader>::Kind, <R as Reader>::Value>, TokenError<<R as Reader>::Error>>,
    >)
        requires
            old(self).wf(),
        ensures
            final(self).wf(),
            final(self).input == old(self).input,
            final(self).readers == old(self).readers,
            r is None <==> (old(self).halted || old(self).state.index >= old(
                self,
            ).input.chars().len()),
            r is None ==> *final(self) == *old(self),
            (match r {
                Some(Ok(t)) => {
                    &&& final(self).state.index > old(self).state.index
                    &&& !final(self).halted
                    &&& !old(self).halted
                    &&& t.meta.wf()
                    &&& t.meta.index_start == old(self).state.index
                    &&& t.meta.index_end == final(self).state.index
                    &&& t.meta.length == final(self).state.index - old(self).state.index
                    &&& t.meta.line_start == old(self).state.line
                    &&& t.meta.line_end == final(self).state.line
                    &&& t.meta.line_count == final(self).state.line - old(self).state.line + 1
                    &&& t.meta.col_start == old(self).state.column
                    &&& (old(self).state.line == final(self).state.line ==> t.meta.col_end
                        == final(self).state.column - 1)
                    &&& (old(self).state.line < final(self).state.line ==> t.meta.col_end
                        == final(self).state.column)
                },
                Some(Err(TokenError::Reader(_))) => {
                    &&& final(self).state.index > old(self).state.index
                    &&& final(self).halted == old(self).halted
                },
                Some(Err(TokenError::NoMatch(s))) => {
                    &&& s == old(self).state
                    &&& final(self).state.index == old(self).state.index + 1
                    &&& final(self).halted == old(self).halted
                },
                Some(Err(TokenError::NoAdvance(s))) => {
                    &&& s == old(self).state
                    &&& final(self).state == old(self).state
                    &&& final(self).halted
                },
                None => true,
            }),
            final(self).state.index <= final(self).input.chars().len(),
            old(self).readers.entries@.len() == 0 && r is Some ==> r matches Some(
                Err(TokenError::NoMatch(_)),
            ),
    {
        if self.halted {
            return None;
        }
        if self.done() {
            return None;
        }
        let n = self.readers.len();
        let mut i: usize = 0;
        while i < n
            invariant
                old(self).wf(),
                !old(self).halted,
                old(self).state.index < old(self).input.chars().len(),
                *self == *old(self),
                i <= n,
                n == self.readers.entries@.len(),
            decreases n - i,
        {
            let mut scratch = self.state;
            let entry = self.readers.get(i);
            let outcome = entry.reader.read(&self.input, &self.state, &mut scratch);
            proof {
                lemma_wf_bounds(self.state, self.input.chars());
                lemma_wf_bounds(scratch, self.input.chars());
                lemma_line_col_monotone(
                    self.input.chars(),
                    self.state.index as int,
                    scratch.index as int,
                );
            }
            match settle(outcome, &self.state, &scratch) {
                StepAction::Emit(token) => {
                    self.state = scratch;
                    return Some(Ok(token));
                },
                StepAction::Violation => {
                    self.halted = true;
                    return Some(Err(TokenError::NoAdvance(self.state)));
                },
                StepAction::Raise(error) => {
                    if scratch.index() > self.state.index() {
                        self.state = scratch;
                    } else {
                        let mut cursor = self.state;
                        let _skipped = self.input.read(&mut cursor);
                        self.state = cursor;
                    }
                    return Some(Err(TokenError::Reader(error)));
                },
                StepAction::Pass => {
                    i = i + 1;
                },
            }
        }
        let failed = self.state;
        let mut cursor = self.state;
        let _skipped = self.input.read(&mut cursor);
        self.state = cursor;
        Some(Err(TokenError::NoMatch(failed)))
    }
}

} // verus!
