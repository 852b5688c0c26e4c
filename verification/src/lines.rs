use vstd::prelude::*;

use crate::line::Line;
use crate::state::is_line_break;

verus! {

/// A proper line buffer: a line break may stand only as its last character.
pub open spec fn breaks_only_at_end(content: Seq<char>) -> bool {
    forall|j: int| 0 <= j < content.len() - 1 ==> !is_line_break(#[trigger] content[j])
}

/// The characters held by a sequence of line buffers, in order.
pub open spec fn lines_chars(ls: Seq<Line>) -> Seq<char>
    decreases ls.len(),
{
    if ls.len() == 0 {
        Seq::<char>::empty()
    } else {
        lines_chars(ls.drop_last()) + ls.last().content@
    }
}

/// Every line starts exactly where the lines before it end.
pub open spec fn lines_contiguous(ls: Seq<Line>) -> bool {
    forall|i: int|
        0 <= i < ls.len() ==> (#[trigger] ls[i]).offset == lines_chars(ls.take(i)).len()
}

/// The streaming realization of a character source: a pre-materialized
/// sequence of line buffers, each tagged with its absolute starting offset.
/// `total` caches the overall character count.
#[derive(Debug)]
pub struct Lines {
    pub lines: Vec<Line>,
    pub total: usize,
}

/// Appending one more line appends exactly its characters.
pub proof fn lemma_lines_chars_push(ls: Seq<Line>, l: Line)
    ensures
        lines_chars(ls.push(l)) == lines_chars(ls) + l.content@,
{
    assert(ls.push(l).drop_last() =~= ls);
    assert(ls.push(l).last() == l);
}

/// Taking one more line appends exactly its characters.
pub proof fn lemma_lines_chars_take_succ(ls: Seq<Line>, k: int)
    requires
        0 <= k < ls.len(),
    ensures
        lines_chars(ls.take(k + 1)) == lines_chars(ls.take(k)) + ls[k].content@,
{
    assert(ls.take(k + 1).drop_last() =~= ls.take(k));
    assert(ls.take(k + 1).last() == ls[k]);
}

/// The characters of the first `k` lines are a prefix of the whole.
pub proof fn lemma_lines_chars_prefix(ls: Seq<Line>, k: int)
    requires
        0 <= k <= ls.len(),
    ensures
        lines_chars(ls.take(k)).len() <= lines_chars(ls).len(),
        forall|m: int|
            0 <= m < lines_chars(ls.take(k)).len() ==> lines_chars(ls)[m] == lines_chars(
                ls.take(k),
            )[m],
    decreases ls.len() - k,
{
    if k == ls.len() {
        assert(ls.take(k) =~= ls);
    } else {
        lemma_lines_chars_take_succ(ls, k);
        lemma_lines_chars_prefix(ls, k + 1);
    }
}

impl Lines {
    /// All the characters of this source, in reading order.
    pub open spec fn chars(&self) -> Seq<char> {
        lines_chars(self.lines@)
    }

    pub open spec fn wf(&self) -> bool {
        &&& lines_contiguous(self.lines@)
        &&& self.total == self.chars().len()
        &&& self.total < usize::MAX
    }

    /// A source with no characters at all.
    pub fn new() -> (r: Lines)
        ensures
            r.wf(),
            r.chars() == Seq::<char>::empty(),
            r.lines@.len() == 0,
    {
        Lines { lines: Vec::new(), total: 0 }
    }

    pub fn len(&self) -> (r: usize)
        ensures
            r == self.total,
    {
        self.total
    }

    pub fn line_count(&self) -> (r: usize)
        ensures
            r == self.lines@.len(),
    {
        self.lines.len()
    }

    /// Appends one line buffer at the end of the source; its absolute offset
    /// is the total length so far.
    pub fn push(&mut self, content: Vec<char>)
        requires
            old(self).wf(),
            old(self).total + content@.len() < usize::MAX,
        ensures
            final(self).wf(),
            final(self).chars() == old(self).chars() + content@,
            final(self).lines@.len() == old(self).lines@.len() + 1,
            final(self).lines@.last().offset == old(self).total,
            final(self).lines@.last().content@ == content@,
            forall|i: int|
                0 <= i < old(self).lines@.len() ==> final(self).lines@[i] == old(self).lines@[i],
    {
        let line = Line { offset: self.total, content };
        self.total = self.total + line.content.len();
        let ghost prev = self.lines@;
        self.lines.push(line);
        proof {
            lemma_lines_chars_push(prev, self.lines@.last());
            assert forall|i: int| 0 <= i < self.lines@.len() implies (#[trigger] self.lines@[i]).offset
                == lines_chars(self.lines@.take(i)).len() by {
                if i < prev.len() {
                    assert(self.lines@.take(i) =~= prev.take(i));
                } else {
                    assert(self.lines@.take(i) =~= prev);
                }
            }
        }
    }

    /// Accepts a caller-built sequence of line buffers, each tagged with its
    /// absolute starting offset. The buffers are taken exactly when every
    /// tag is consistent — each line starts where the lines before it end —
    /// and the total length stays below the machine limit; otherwise nothing
    /// is taken.
    pub fn from_buffers(buffers: Vec<Line>) -> (r: Option<Lines>)
        ensures
            (match r {
                Some(ls) => {
                    &&& ls.wf()
                    &&& ls.lines@ == buffers@
                    &&& ls.chars() == lines_chars(buffers@)
                },
                None => !(lines_contiguous(buffers@) && lines_chars(buffers@).len()
                    < usize::MAX),
            }),
    {
        let n = buffers.len();
        let mut total: usize = 0;
        let mut i: usize = 0;
        while i < n
            invariant
                i <= n,
                n == buffers@.len(),
                total == lines_chars(buffers@.take(i as int)).len(),
                forall|j: int|
                    0 <= j < i ==> (#[trigger] buffers@[j]).offset == lines_chars(
                        buffers@.take(j),
                    ).len(),
            decreases n - i,
        {
            let line = &buffers[i];
            if line.offset != total {
                return None;
            }
            proof {
                lemma_lines_chars_take_succ(buffers@, i as int);
            }
            match total.checked_add(line.content.len()) {
                Some(t) => {
                    total = t;
                },
                None => {
                    proof {
                        lemma_lines_chars_prefix(buffers@, i as int + 1);
                    }
                    return None;
                },
            }
            i = i + 1;
        }
        proof {
            assert(buffers@.take(n as int) =~= buffers@);
        }
        if total == usize::MAX {
            return None;
        }
        Some(Lines { lines: buffers, total })
    }

    /// Builds the line-buffer realization of a text by splitting it after
    /// every line break: a break stands only at the end of a line, every
    /// line but the last ends with one, and each line keeps its break
    /// character, so the lines concatenate back to exactly the text.
    pub fn from_text(text: &Vec<char>) -> (r: Lines)
        requires
            text@.len() < usize::MAX,
        ensures
            r.wf(),
            r.chars() == text@,
            forall|k: int|
                0 <= k < r.lines@.len() ==> breaks_only_at_end(
                    (#[trigger] r.lines@[k]).content@,
                ),
            forall|k: int|
                0 <= k < r.lines@.len() - 1 ==> (#[trigger] r.lines@[k]).content@.len() > 0
                    && is_line_break(r.lines@[k].content@.last()),
    {
        let n = text.len();
        let mut out = Lines::new();
        let mut current: Vec<char> = Vec::new();
        let mut i: usize = 0;
        while i < n
            invariant
                i <= n,
                n == text@.len(),
                n < usize::MAX,
                out.wf(),
                out.chars() + current@ == text@.take(i as int),
                forall|k: int|
                    0 <= k < out.lines@.len() ==> breaks_only_at_end(
                        (#[trigger] out.lines@[k]).content@,
                    ) && out.lines@[k].content@.len() > 0 && is_line_break(
                        out.lines@[k].content@.last(),
                    ),
                forall|j: int| 0 <= j < current@.len() ==> !is_line_break(#[trigger] current@[j]),
            decreases n - i,
        {
            let c = text[i];
            let ghost prev_cur = current@;
            current.push(c);
            i = i + 1;
            proof {
                assert(current@ == prev_cur.push(c));
                assert(text@.take(i as int) =~= text@.take(i as int - 1).push(
                    text@[i as int - 1],
                ));
                assert(out.chars() + current@ =~= (out.chars() + prev_cur).push(c));
                assert(out.chars() + current@ =~= text@.take(i as int));
            }
            if c == '\n' {
                let ghost prev_lines = out.lines@;
                let ghost flushed = current@;
                out.push(current);
                current = Vec::new();
                proof {
                    assert(out.chars() + current@ =~= out.chars());
                    assert forall|k: int| 0 <= k < out.lines@.len() implies breaks_only_at_end(
                        (#[trigger] out.lines@[k]).content@,
                    ) && out.lines@[k].content@.len() > 0 && is_line_break(
                        out.lines@[k].content@.last(),
                    ) by {
                        if k < prev_lines.len() {
                            assert(out.lines@[k] == prev_lines[k]);
                        } else {
                            assert(out.lines@[k] == out.lines@.last());
                            assert(out.lines@.last().content@ == flushed);
                        }
                    }
                }
            }
        }
        if current.len() > 0 {
            let ghost prev_lines = out.lines@;
            out.push(current);
            proof {
                assert forall|k: int| 0 <= k < out.lines@.len() - 1 implies breaks_only_at_end(
                    (#[trigger] out.lines@[k]).content@,
                ) && out.lines@[k].content@.len() > 0 && is_line_break(
                    out.lines@[k].content@.last(),
                ) by {
                    assert(out.lines@[k] == prev_lines[k]);
                }
                assert(breaks_only_at_end(out.lines@.last().content@));
            }
        } else {
            proof {
                assert(out.chars() + current@ =~= out.chars());
            }
        }
        proof {
            assert(text@.take(n as int) =~= text@);
        }
        out
    }

    /// The character at absolute position `index + lookahead`, if any.
    pub fn peek_at(&self, index: usize, lookahead: usize) -> (r: Option<char>)
        requires
            self.wf(),
        ensures
            r == (if index + lookahead < self.chars().len() {
                Some(self.chars()[index + lookahead])
            } else {
                None::<char>
            }),
    {
        let target = match index.checked_add(lookahead) {
            Some(t) => t,
            None => {
                return None;
            },
        };
        if target >= self.total {
            return None;
        }
        let n = self.lines.len();
        let mut i: usize = 0;
        while i < n
            invariant
                self.wf(),
                n == self.lines@.len(),
                i <= n,
                target < self.total,
                target == index + lookahead,
                target >= lines_chars(self.lines@.take(i as int)).len(),
            decreases n - i,
        {
            proof {
                lemma_lines_chars_take_succ(self.lines@, i as int);
                lemma_lines_chars_prefix(self.lines@, i as int + 1);
            }
            let line = &self.lines[i];
            let end = line.offset + line.content.len();
            if target < end {
                let local = target - line.offset;
                proof {
                    assert(lines_chars(self.lines@.take(i as int + 1))[target as int] == line.content@[local as int]);
                }
                return Some(line.content[local]);
            }
            i = i + 1;
        }
        // Unreachable: the target lies before the total length, so some line
        // owns it and the loop has returned.
        proof {
            assert(self.lines@.take(n as int) =~= self.lines@);
            assert(false);
        }
        None
    }
}

} // verus!
