use vstd::prelude::*;

use crate::input::Input;
use crate::lexer::Lexer;
use crate::reader::Reader;
use crate::state::State;
use crate::state::lemma_start_wf;

verus! {

/// One recognizer together with the priority it reported when it was
/// registered. The key is fixed at registration, so the dispatch order of a
/// built set can never change afterwards.
#[derive(Clone, Copy, Debug)]
pub struct ReaderEntry<R> {
    pub priority: usize,
    pub reader: R,
}

/// Entries are ordered by strictly descending-or-equal priority: the highest
/// priority stands first.
pub open spec fn sorted_by_priority<R>(s: Seq<ReaderEntry<R>>) -> bool {
    forall|i: int, j: int|
        #![trigger s[i], s[j]]
        0 <= i < j < s.len() ==> s[i].priority >= s[j].priority
}

/// The position where an entry of priority `p` is inserted: right after every
/// entry whose priority is at least `p`, so that equal priorities keep their
/// registration order.
pub open spec fn slot<R>(s: Seq<ReaderEntry<R>>, p: usize) -> int
    decreases s.len(),
{
    if s.len() == 0 {
        0
    } else if s.first().priority < p {
        0
    } else {
        1 + slot(s.drop_first(), p)
    }
}

/// Registering a recognizer is a stable insertion at its slot.
pub open spec fn insert_stable<R>(s: Seq<ReaderEntry<R>>, e: ReaderEntry<R>) -> Seq<
    ReaderEntry<R>,
> {
    s.insert(slot(s, e.priority), e)
}

pub proof fn lemma_slot_range<R>(s: Seq<ReaderEntry<R>>, p: usize)
    ensures
        0 <= slot(s, p) <= s.len(),
    decreases s.len(),
{
    if s.len() > 0 && s.first().priority >= p {
        lemma_slot_range(s.drop_first(), p);
    }
}

/// Ties break by registration order: everything before the slot has at least
/// priority `p` (so an equal-priority newcomer goes after it), and the entry
/// at the slot, if any, has strictly lower priority (so a higher-priority
/// newcomer goes before every strictly lower one, regardless of when those
/// were registered).
pub proof fn lemma_slot_order<R>(s: Seq<ReaderEntry<R>>, p: usize)
    ensures
        forall|j: int| 0 <= j < slot(s, p) ==> (#[trigger] s[j]).priority >= p,
        slot(s, p) < s.len() ==> s[slot(s, p)].priority < p,
    decreases s.len(),
{
    lemma_slot_range(s, p);
    if s.len() > 0 && s.first().priority >= p {
        lemma_slot_order(s.drop_first(), p);
        assert forall|j: int| 0 <= j < slot(s, p) implies (#[trigger] s[j]).priority >= p by {
            if j > 0 {
                assert(s[j] == s.drop_first()[j - 1]);
            }
        }
        if slot(s, p) < s.len() {
            lemma_slot_range(s.drop_first(), p);
            assert(s[slot(s, p)] == s.drop_first()[slot(s.drop_first(), p)]);
        }
    }
}

/// A stable insertion keeps the set sorted.
pub proof fn lemma_insert_sorted<R>(s: Seq<ReaderEntry<R>>, e: ReaderEntry<R>)
    requires
        sorted_by_priority(s),
    ensures
        sorted_by_priority(insert_stable(s, e)),
{
    lemma_slot_range(s, e.priority);
    lemma_slot_order(s, e.priority);
    let k = slot(s, e.priority);
    let t = s.insert(k, e);
    assert forall|i: int, j: int|
        #![trigger t[i], t[j]]
        0 <= i < j < t.len() implies t[i].priority >= t[j].priority by {
        assert(i < k ==> t[i] == s[i]);
        assert(i == k ==> t[i] == e);
        assert(i > k ==> t[i] == s[i - 1]);
        assert(j < k ==> t[j] == s[j]);
        assert(j == k ==> t[j] == e);
        assert(j > k ==> t[j] == s[j - 1]);
    }
}

/// Exactly the slot is computed by scanning from the front for the first
/// entry of strictly lower priority.
proof fn lemma_slot_unique<R>(s: Seq<ReaderEntry<R>>, p: usize, i: int)
    requires
        0 <= i <= s.len(),
        forall|j: int| 0 <= j < i ==> (#[trigger] s[j]).priority >= p,
        i < s.len() ==> s[i].priority < p,
    ensures
        slot(s, p) == i,
    decreases s.len(),
{
    if s.len() > 0 && s.first().priority >= p {
        assert(i > 0);
        lemma_slot_unique(s.drop_first(), p, i - 1);
    }
}

/// Collects recognizers one at a time; `build` freezes them into an
/// immutable, priority-sorted set. Insertion happens eagerly, so the
/// collection is sorted at every moment.
#[derive(Debug)]
pub struct ReadersBuilder<R> {
    pub entries: Vec<ReaderEntry<R>>,
}

/// The immutable, priority-sorted recognizer set, built once and shared
/// read-only by any number of lexing sessions.
#[derive(Debug)]
pub struct Readers<R> {
    pub entries: Vec<ReaderEntry<R>>,
}

impl<R> ReadersBuilder<R> {
    pub fn new() -> (r: ReadersBuilder<R>)
        ensures
            r.entries@ == Seq::<ReaderEntry<R>>::empty(),
            sorted_by_priority(r.entries@),
    {
        ReadersBuilder { entries: Vec::new() }
    }

    /// Registers one recognizer under an explicit ordering key: exactly a
    /// stable insertion at the key's slot. The new entry goes after every
    /// entry of the same or higher priority and before every entry of
    /// strictly lower priority.
    pub fn add_with_priority(self, priority: usize, reader: R) -> (r: ReadersBuilder<R>)
        ensures
            r.entries@ == insert_stable(
                self.entries@,
                ReaderEntry { priority: priority, reader: reader },
            ),
            sorted_by_priority(self.entries@) ==> sorted_by_priority(r.entries@),
            r.entries@.len() == self.entries@.len() + 1,
    {
        let entry = ReaderEntry { priority, reader };
        let mut entries = self.entries;
        let n = entries.len();
        let mut i: usize = 0;
        while i < n && entries[i].priority >= priority
            invariant
                i <= n,
                n == entries@.len(),
                forall|j: int| 0 <= j < i ==> (#[trigger] entries@[j]).priority >= priority,
            decreases n - i,
        {
            i = i + 1;
        }
        proof {
            lemma_slot_unique(entries@, priority, i as int);
            if sorted_by_priority(entries@) {
                lemma_insert_sorted(entries@, entry);
            }
        }
        entries.insert(i, entry);
        proof {
            assert(entries@ == insert_stable(
                self.entries@,
                ReaderEntry { priority: priority, reader: reader },
            ));
        }
        ReadersBuilder { entries }
    }

    /// Freezes the collected recognizers into the immutable set.
    pub fn build(self) -> (r: Readers<R>)
        ensures
            r.entries@ == self.entries@,
    {
        Readers { entries: self.entries }
    }
}

impl<R: Reader> ReadersBuilder<R> {
    /// Registers one recognizer under the priority it reports: the one call
    /// that reads the key, handed on to the exact insertion.
    pub fn add(self, reader: R) -> (r: ReadersBuilder<R>)
        ensures
            exists|p: usize|
                r.entries@ == insert_stable(
                    self.entries@,
                    ReaderEntry { priority: p, reader: reader },
                ),
            sorted_by_priority(self.entries@) ==> sorted_by_priority(r.entries@),
            r.entries@.len() == self.entries@.len() + 1,
    {
        let p = reader.priority();
        self.add_with_priority(p, reader)
    }
}

impl<R> Readers<R> {
    /// A set with no recognizers: every position is a no-match.
    pub fn new() -> (r: Readers<R>)
        ensures
            r.entries@ == Seq::<ReaderEntry<R>>::empty(),
    {
        Readers { entries: Vec::new() }
    }

    pub fn len(&self) -> (r: usize)
        ensures
            r == self.entries@.len(),
    {
        self.entries.len()
    }

    pub fn get(&self, i: usize) -> (r: &ReaderEntry<R>)
        requires
            i < self.entries@.len(),
        ensures
            *r == self.entries@[i as int],
    {
        &self.entries[i]
    }

    /// Opens a lexing session of this set over `input`, starting at the
    /// beginning of the text. The set itself is only borrowed and may drive
    /// any number of sessions.
    pub fn lexer<'a>(&'a self, input: Input) -> (r: Lexer<'a, R>)
        requires
            input.wf(),
        ensures
            r.readers == self,
            r.input == input,
            r.state == (State { index: 0, line: 1, column: 1 }),
            r.halted == false,
            r.wf(),
    {
        proof {
            lemma_start_wf(input.chars());
        }
        Lexer { readers: self, input, state: State::new(), halted: false }
    }
}

} // verus!
