//! The monitor's command history: a ring of the last sixteen distinct lines.

use vstd::prelude::*;
use crate::line::{InputLine, INPUT_LINE_MAX, all_ascii, str_bytes};
use crate::text::{bytes_equal, str_from_utf8, lemma_ascii_is_utf8};

verus! {

/// How many lines the history keeps.
pub const HISTORY_CAPACITY: usize = 16;

/// One remembered line.
#[derive(Clone, Copy)]
pub struct HistoryEntry {
    bytes: [u8; INPUT_LINE_MAX],
    len: usize,
}

impl View for HistoryEntry {
    type V = Seq<u8>;

    closed spec fn view(&self) -> Seq<u8> {
        self.bytes@.subrange(0, self.len as int)
    }
}

impl HistoryEntry {
    #[verifier::type_invariant]
    spec fn inv(self) -> bool {
        &&& self.len <= INPUT_LINE_MAX
        &&& forall|i: int| 0 <= i < self.len ==> #[trigger] self.bytes@[i] < 128
    }

    /// An entry that holds the empty line.
    pub fn empty() -> (r: Self)
        ensures
            r@ == Seq::<u8>::empty(),
    {
        let r = Self { bytes: [0; INPUT_LINE_MAX], len: 0 };
        assert(r@ =~= Seq::<u8>::empty());
        r
    }

    /// Remembers the text of a line.
    pub fn set_from_line(&mut self, line: &InputLine)
        ensures
            final(self)@ == line@.text,
    {
        let src = line.as_bytes();
        let n = src.len();
        let mut bytes = self.bytes;
        let mut k: usize = 0;
        while k < n
            invariant
                k <= n,
                n == src@.len(),
                n <= INPUT_LINE_MAX,
                bytes@.len() == INPUT_LINE_MAX,
                forall|i: int| 0 <= i < k ==> bytes@[i] == src@[i],
            decreases n - k,
        {
            bytes[k] = src[k];
            k += 1;
        }
        assert(bytes@.subrange(0, n as int) =~= src@);
        assert forall|i: int| 0 <= i < n implies #[trigger] bytes@[i] < 128 by {
            assert(bytes@[i] == src@[i]);
        }
        *self = Self { bytes, len: n };
    }

    /// The remembered bytes.
    pub fn as_bytes(&self) -> (r: &[u8])
        ensures
            r@ == self@,
            r@.len() <= INPUT_LINE_MAX,
            all_ascii(r@),
    {
        proof { use_type_invariant(self); }
        &self.bytes[0..self.len]
    }

    /// The remembered text.
    pub fn as_str(&self) -> (r: &str)
        ensures
            str_bytes(r) == self@,
    {
        let bytes = self.as_bytes();
        proof { lemma_ascii_is_utf8(bytes@); }
        match str_from_utf8(bytes) {
            Some(s) => s,
            None => "",
        }
    }
}

/// What the history holds: its lines, newest first, and the age of the line being
/// browsed, if any.
pub ghost struct HistoryView {
    pub lines: Seq<Seq<u8>>,
    pub browsing: Option<nat>,
}

/// What every history keeps: at most sixteen lines, and a browsed age that names
/// one of them.
pub open spec fn history_wf(v: HistoryView) -> bool {
    &&& v.lines.len() <= HISTORY_CAPACITY
    &&& (v.browsing matches Some(a) ==> a < v.lines.len())
}

/// The ring of remembered lines.
pub struct CommandHistory {
    entries: [HistoryEntry; HISTORY_CAPACITY],
    len: usize,
    next_insert: usize,
    browsing_age: Option<usize>,
}

/// The slot that holds the line of a given age, counted from the newest.
pub open spec fn slot_of(next_insert: int, age: int) -> int {
    (next_insert + HISTORY_CAPACITY - 1 - age) % (HISTORY_CAPACITY as int)
}

/// The history after remembering `line`: an empty line, or one equal to the newest,
/// changes nothing but ends browsing.
pub open spec fn pushed(lines: Seq<Seq<u8>>, line: Seq<u8>) -> Seq<Seq<u8>> {
    if line.len() == 0 || (lines.len() > 0 && lines[0] == line) {
        lines
    } else if lines.len() < HISTORY_CAPACITY {
        seq![line] + lines
    } else {
        seq![line] + lines.subrange(0, HISTORY_CAPACITY - 1)
    }
}

impl View for CommandHistory {
    type V = HistoryView;

    closed spec fn view(&self) -> HistoryView {
        HistoryView {
            lines: Seq::new(
                self.len as nat,
                |age: int| self.entries@[slot_of(self.next_insert as int, age)]@,
            ),
            browsing: match self.browsing_age {
                Some(a) => Some(a as nat),
                None => None,
            },
        }
    }
}

impl CommandHistory {
    #[verifier::type_invariant]
    spec fn inv(self) -> bool {
        &&& self.len <= HISTORY_CAPACITY
        &&& self.next_insert < HISTORY_CAPACITY
        &&& (self.browsing_age matches Some(a) ==> a < self.len)
    }

    /// An empty history.
    pub fn new() -> (r: Self)
        ensures
            r@.lines == Seq::<Seq<u8>>::empty(),
            r@.browsing is None,
            history_wf(r@),
    {
        let r = Self {
            entries: [HistoryEntry::empty(); HISTORY_CAPACITY],
            len: 0,
            next_insert: 0,
            browsing_age: None,
        };
        assert(r@.lines =~= Seq::<Seq<u8>>::empty());
        r
    }

    /// Remembers a line as the newest one and ends browsing.
    pub fn push_line(&mut self, line: &InputLine)
        ensures
            final(self)@.lines == pushed(old(self)@.lines, line@.text),
            line@.text.len() == 0 ==> final(self)@.browsing == old(self)@.browsing,
            line@.text.len() != 0 ==> final(self)@.browsing is None,
            final(self)@.lines.len() <= HISTORY_CAPACITY,
            history_wf(final(self)@),
    {
        proof { use_type_invariant(&*self); }
        let ghost old_lines = self@.lines;
        if line.is_empty() {
            return;
        }
        let same = match self.entry_by_age(0) {
            Some(entry) => bytes_equal(entry.as_bytes(), line.as_bytes()),
            None => false,
        };
        if same {
            self.browsing_age = None;
            proof { use_type_invariant(&*self); }
            return;
        }
        let n = self.next_insert;
        let mut entries = self.entries;
        let mut entry = entries[n];
        entry.set_from_line(line);
        entries[n] = entry;
        let new_len = if self.len < HISTORY_CAPACITY { self.len + 1 } else { self.len };
        let new_next = (n + 1) % HISTORY_CAPACITY;
        let ghost old_entries = self.entries@;
        *self = Self { entries, len: new_len, next_insert: new_next, browsing_age: None };
        proof {
            use_type_invariant(&*self);
            let new_lines = final(self)@.lines;
            let expected = pushed(old_lines, line@.text);
            assert(slot_of(new_next as int, 0) == n);
            assert forall|age: int| 0 < age < new_len implies
                slot_of(new_next as int, age) == slot_of(n as int, age - 1)
                && slot_of(n as int, age - 1) != n as int by {
            }
            assert(new_lines =~= expected);
        }
    }

    /// Browses one line further back (stopping at the oldest) and returns it.
    pub fn previous(&mut self) -> (r: Option<&HistoryEntry>)
        ensures
            final(self)@.lines == old(self)@.lines,
            old(self)@.lines.len() == 0 ==> r is None && final(self)@.browsing == old(self)@.browsing,
            old(self)@.lines.len() > 0 ==> {
                let age = match old(self)@.browsing {
                    None => 0,
                    Some(a) => if a + 1 < old(self)@.lines.len() { a + 1 } else { a },
                };
                &&& final(self)@.browsing == Some(age)
                &&& r is Some
                &&& r.unwrap()@ == old(self)@.lines[age as int]
            },
            history_wf(old(self)@),
            history_wf(final(self)@),
    {
        proof { use_type_invariant(&*self); }
        if self.len == 0 {
            return None;
        }
        let next_age = match self.browsing_age {
            None => 0,
            Some(age) => if age + 1 < self.len - 1 { age + 1 } else { self.len - 1 },
        };
        self.browsing_age = Some(next_age);
        proof { use_type_invariant(&*self); }
        self.entry_by_age(next_age)
    }

    /// Browses one line forward; past the newest, browsing ends and nothing is returned.
    pub fn next(&mut self) -> (r: Option<&HistoryEntry>)
        ensures
            final(self)@.lines == old(self)@.lines,
            old(self)@.browsing is None ==> r is None && final(self)@.browsing is None,
            old(self)@.browsing == Some(0nat) ==> r is None && final(self)@.browsing is None,
            old(self)@.browsing is Some && old(self)@.browsing.unwrap() > 0 ==> {
                let a = old(self)@.browsing.unwrap();
                &&& final(self)@.browsing == Some((a - 1) as nat)
                &&& r is Some
                &&& r.unwrap()@ == old(self)@.lines[a - 1]
            },
            history_wf(old(self)@),
            history_wf(final(self)@),
    {
        proof { use_type_invariant(&*self); }
        let age = match self.browsing_age {
            None => return None,
            Some(age) => age,
        };
        if age == 0 {
            self.browsing_age = None;
            proof { use_type_invariant(&*self); }
            return None;
        }
        let next_age = age - 1;
        self.browsing_age = Some(next_age);
        proof { use_type_invariant(&*self); }
        self.entry_by_age(next_age)
    }

    /// Ends browsing.
    pub fn reset_browsing(&mut self)
        ensures
            final(self)@.lines == old(self)@.lines,
            final(self)@.browsing is None,
            history_wf(final(self)@),
    {
        proof { use_type_invariant(&*self); }
        self.browsing_age = None;
        proof { use_type_invariant(&*self); }
    }

    /// The line of the given age (0 is the newest), if there is one.
    pub fn entry_by_age(&self, age_from_newest: usize) -> (r: Option<&HistoryEntry>)
        ensures
            age_from_newest >= self@.lines.len() ==> r is None,
            age_from_newest < self@.lines.len() ==> r is Some
                && r.unwrap()@ == self@.lines[age_from_newest as int],
            history_wf(self@),
    {
        proof { use_type_invariant(self); }
        if age_from_newest >= self.len {
            return None;
        }
        let newest_index = (self.next_insert + HISTORY_CAPACITY - 1) % HISTORY_CAPACITY;
        let index = (newest_index + HISTORY_CAPACITY - age_from_newest) % HISTORY_CAPACITY;
        assert(index == slot_of(self.next_insert as int, age_from_newest as int));
        Some(&self.entries[index])
    }

    /// The line at the given position when the history is listed oldest first, if
    /// there is one.
    pub fn entry_oldest_first(&self, position: usize) -> (r: Option<&HistoryEntry>)
        ensures
            position >= self@.lines.len() ==> r is None,
            position < self@.lines.len() ==> r is Some
                && r.unwrap()@ == self@.lines[self@.lines.len() - 1 - position],
    {
        proof { use_type_invariant(self); }
        if position >= self.len {
            return None;
        }
        self.entry_by_age(self.len - 1 - position)
    }

    /// How many lines are remembered.
    pub fn len(&self) -> (r: usize)
        ensures
            r == self@.lines.len(),
            history_wf(self@),
    {
        proof { use_type_invariant(self); }
        self.len
    }
}

/// Remembering a non-empty line that differs from the newest one makes it the
/// newest; the history never holds more than sixteen lines, and an empty line or a
/// repeat of the newest leaves it as it was.
pub proof fn lemma_pushed(lines: Seq<Seq<u8>>, line: Seq<u8>)
    requires
        lines.len() <= HISTORY_CAPACITY,
    ensures
        pushed(lines, line).len() <= HISTORY_CAPACITY,
        line.len() != 0 ==> pushed(lines, line).len() > 0 && pushed(lines, line)[0] == line,
        line.len() == 0 || (lines.len() > 0 && lines[0] == line) ==> pushed(lines, line) == lines,
        line.len() != 0 && !(lines.len() > 0 && lines[0] == line) ==> forall|age: int|
            0 <= age < lines.len() && age + 1 < HISTORY_CAPACITY ==> #[trigger] pushed(lines, line)[age + 1] == lines[age],
{
}

} // verus!
