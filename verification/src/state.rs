use vstd::prelude::*;

verus! {

/// The character that ends a line and resets column counting.
pub open spec fn is_line_break(c: char) -> bool {
    c == '\n'
}

/// Line number (1-based) of the position reached after consuming `consumed`.
pub open spec fn line_of(consumed: Seq<char>) -> int
    decreases consumed.len(),
{
    if consumed.len() == 0 {
        1
    } else if is_line_break(consumed.last()) {
        line_of(consumed.drop_last()) + 1
    } else {
        line_of(consumed.drop_last())
    }
}

/// Column number (1-based) of the position reached after consuming `consumed`.
/// It is reset to 1 by every line break.
pub open spec fn col_of(consumed: Seq<char>) -> int
    decreases consumed.len(),
{
    if consumed.len() == 0 {
        1
    } else if is_line_break(consumed.last()) {
        1
    } else {
        col_of(consumed.drop_last()) + 1
    }
}

/// A cursor into the input: an absolute character offset together with the
/// 1-based line and column it falls on. States are plain values; during one
/// recognition attempt the committed state stays untouched while a scratch
/// copy is advanced.
#[derive(Clone, Copy, Debug)]
pub struct State {
    pub index: usize,
    pub line: usize,
    pub column: usize,
}

impl State {
    /// The state is exactly the position reached by consuming the first
    /// `index` characters of `chars`, starting from line 1, column 1.
    /// Line and column are thereby pure functions of the consumed prefix.
    pub open spec fn wf_in(self, chars: Seq<char>) -> bool {
        &&& self.index <= chars.len()
        &&& self.line == line_of(chars.take(self.index as int))
        &&& self.column == col_of(chars.take(self.index as int))
    }

    /// The position before anything has been consumed.
    pub fn new() -> (r: State)
        ensures
            r == (State { index: 0, line: 1, column: 1 }),
    {
        State { index: 0, line: 1, column: 1 }
    }

    pub fn index(&self) -> (r: usize)
        ensures
            r == self.index,
    {
        self.index
    }

    pub fn line(&self) -> (r: usize)
        ensures
            r == self.line,
    {
        self.line
    }

    pub fn column(&self) -> (r: usize)
        ensures
            r == self.column,
    {
        self.column
    }

    /// The sole authority for position bookkeeping: consuming `c` moves the
    /// offset one forward; a line break starts the next line at column 1,
    /// any other character moves one column to the right.
    pub fn advance(&mut self, c: char)
        requires
            old(self).index < usize::MAX,
            old(self).line < usize::MAX,
            old(self).column < usize::MAX,
        ensures
            final(self).index == old(self).index + 1,
            is_line_break(c) ==> final(self).line == old(self).line + 1 && final(self).column
                == 1,
            !is_line_break(c) ==> final(self).line == old(self).line && final(self).column == old(
                self,
            ).column + 1,
    {
        self.index = self.index + 1;
        if c == '\n' {
            self.line = self.line + 1;
            self.column = 1;
        } else {
            self.column = self.column + 1;
        }
    }
}

/// The initial state is well formed for every input.
pub proof fn lemma_start_wf(chars: Seq<char>)
    ensures
        (State { index: 0, line: 1, column: 1 }).wf_in(chars),
{
    assert(chars.take(0) =~= Seq::<char>::empty());
}

/// Line and column never run further than one past the consumed length.
proof fn lemma_pos_bounds(consumed: Seq<char>)
    ensures
        1 <= line_of(consumed) <= consumed.len() + 1,
        1 <= col_of(consumed) <= consumed.len() + 1,
    decreases consumed.len(),
{
    if consumed.len() > 0 {
        lemma_pos_bounds(consumed.drop_last());
    }
}

/// Bounds on a well-formed state, needed to rule out arithmetic overflow.
pub proof fn lemma_wf_bounds(s: State, chars: Seq<char>)
    requires
        s.wf_in(chars),
    ensures
        1 <= s.line <= s.index + 1,
        1 <= s.column <= s.index + 1,
{
    lemma_pos_bounds(chars.take(s.index as int));
}

/// Consuming more characters never moves the position to an earlier line,
/// and while the line stays the same the column advances exactly one per
/// character.
pub proof fn lemma_line_col_monotone(chars: Seq<char>, a: int, b: int)
    requires
        0 <= a <= b <= chars.len(),
    ensures
        line_of(chars.take(a)) <= line_of(chars.take(b)),
        line_of(chars.take(a)) == line_of(chars.take(b)) ==> col_of(chars.take(b)) - col_of(
            chars.take(a),
        ) == b - a,
    decreases b - a,
{
    if a < b {
        lemma_line_col_monotone(chars, a, b - 1);
        lemma_take_one_more(chars, b - 1);
    }
}

/// Extending the consumed prefix by one character changes line and column
/// exactly as the advance rule prescribes.
pub proof fn lemma_take_one_more(chars: Seq<char>, n: int)
    requires
        0 <= n < chars.len(),
    ensures
        line_of(chars.take(n + 1)) == if is_line_break(chars[n]) {
            line_of(chars.take(n)) + 1
        } else {
            line_of(chars.take(n))
        },
        col_of(chars.take(n + 1)) == if is_line_break(chars[n]) {
            1
        } else {
            col_of(chars.take(n)) + 1
        },
{
    assert(chars.take(n + 1).drop_last() =~= chars.take(n));
    assert(chars.take(n + 1).last() == chars[n]);
}

} // verus!
