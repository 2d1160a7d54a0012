//! The monitor's editable input line: a bounded ASCII buffer with a cursor.

use vstd::prelude::*;
use vstd::string::StringSliceAdditionalSpecFns;
use crate::text::{str_from_utf8, lemma_ascii_is_utf8};

verus! {

/// Capacity of an input line, in bytes.
pub const INPUT_LINE_MAX: usize = 128;

/// True for the bytes that `u8::is_ascii_whitespace` accepts.
pub open spec fn is_space_byte(b: u8) -> bool {
    b == 0x20 || b == 0x09 || b == 0x0A || b == 0x0C || b == 0x0D
}

/// True for ASCII letters, digits and `_`.
pub open spec fn is_word(b: u8) -> bool {
    (0x30 <= b <= 0x39) || (0x41 <= b <= 0x5A) || (0x61 <= b <= 0x7A) || b == 0x5F
}

/// The three kinds of bytes that word-wise motion distinguishes.
pub enum ByteClass {
    Space,
    Word,
    Other,
}

pub open spec fn class_of(b: u8) -> ByteClass {
    if is_space_byte(b) {
        ByteClass::Space
    } else if is_word(b) {
        ByteClass::Word
    } else {
        ByteClass::Other
    }
}

/// Start of the maximal run of bytes of class `k` that ends at `p`.
pub open spec fn run_start(t: Seq<u8>, p: int, k: ByteClass) -> int
    decreases p,
{
    if p > 0 && p <= t.len() && class_of(t[p - 1]) == k { run_start(t, p - 1, k) } else { p }
}

/// End of the maximal run of bytes of class `k` that starts at `p`.
pub open spec fn run_end(t: Seq<u8>, p: int, k: ByteClass) -> int
    decreases t.len() - p,
{
    if 0 <= p < t.len() && class_of(t[p]) == k { run_end(t, p + 1, k) } else { p }
}

proof fn lemma_run_start_bounds(t: Seq<u8>, p: int, k: ByteClass)
    requires
        0 <= p <= t.len(),
    ensures
        0 <= run_start(t, p, k) <= p,
    decreases p,
{
    if p > 0 && class_of(t[p - 1]) == k {
        lemma_run_start_bounds(t, p - 1, k);
    }
}

proof fn lemma_run_end_bounds(t: Seq<u8>, p: int, k: ByteClass)
    requires
        0 <= p <= t.len(),
    ensures
        p <= run_end(t, p, k) <= t.len(),
    decreases t.len() - p,
{
    if p < t.len() && class_of(t[p]) == k {
        lemma_run_end_bounds(t, p + 1, k);
    }
}

/// Word-wise motion stays within the line and always moves when it can: to the
/// left from any position but the start, to the right from any position but the end.
pub proof fn lemma_word_boundaries(t: Seq<u8>, c: int)
    requires
        0 <= c <= t.len(),
    ensures
        0 <= word_boundary_left(t, c) <= c,
        c > 0 ==> word_boundary_left(t, c) < c,
        c <= word_boundary_right(t, c) <= t.len(),
        c < t.len() ==> word_boundary_right(t, c) > c,
{
    if c > 0 {
        lemma_run_start_bounds(t, c, ByteClass::Space);
        let a = run_start(t, c, ByteClass::Space);
        lemma_run_start_bounds(t, a, ByteClass::Word);
        let p = run_start(t, a, ByteClass::Word);
        lemma_run_start_bounds(t, p, ByteClass::Other);
    }
    if c < t.len() {
        lemma_run_end_bounds(t, c, ByteClass::Space);
        let a = run_end(t, c, ByteClass::Space);
        lemma_run_end_bounds(t, a, ByteClass::Word);
        let p = run_end(t, a, ByteClass::Word);
        lemma_run_end_bounds(t, p, ByteClass::Other);
    }
}

/// Typing a character and then deleting it with Backspace gives back the text, and
/// the cursor comes back to where it was.
pub proof fn lemma_insert_then_backspace(text: Seq<u8>, cursor: int, c: u8)
    requires
        0 <= cursor <= text.len(),
    ensures
        text.insert(cursor, c).remove((cursor + 1) - 1) == text,
{
    assert(text.insert(cursor, c).remove(cursor) =~= text);
}

/// Where a word-wise move to the left from `c` stops: over whitespace, then over a
/// word; failing a word, over a run of punctuation.
pub open spec fn word_boundary_left(t: Seq<u8>, c: int) -> int {
    if c == 0 {
        0
    } else {
        let p = run_start(t, run_start(t, c, ByteClass::Space), ByteClass::Word);
        let q = if p == c { run_start(t, p, ByteClass::Other) } else { p };
        if q == c { c - 1 } else { q }
    }
}

/// Where a word-wise move to the right from `c` stops: over whitespace, then over a
/// word; failing a word, over a run of punctuation.
pub open spec fn word_boundary_right(t: Seq<u8>, c: int) -> int {
    if c >= t.len() {
        t.len() as int
    } else {
        let p = run_end(t, run_end(t, c, ByteClass::Space), ByteClass::Word);
        let q = if p == c { run_end(t, p, ByteClass::Other) } else { p };
        if q == c { c + 1 } else { q }
    }
}

/// True when every byte is ASCII.
pub open spec fn all_ascii(t: Seq<u8>) -> bool {
    forall|i: int| 0 <= i < t.len() ==> #[trigger] t[i] < 128
}

/// What an input line holds: its text and the cursor position within it.
pub ghost struct LineView {
    pub text: Seq<u8>,
    pub cursor: nat,
}

/// A bounded ASCII line with a cursor.
#[derive(Clone, Copy)]
pub struct InputLine {
    bytes: [u8; INPUT_LINE_MAX],
    len: usize,
    cursor: usize,
}

impl View for InputLine {
    type V = LineView;

    closed spec fn view(&self) -> LineView {
        LineView { text: self.bytes@.subrange(0, self.len as int), cursor: self.cursor as nat }
    }
}

/// The byte-level text without the lifetime bookkeeping of a `&str`.
pub open spec fn str_bytes(s: &str) -> Seq<u8> {
    s.spec_bytes()
}

fn char_is_ascii(c: char) -> (r: bool)
    ensures
        r == ((c as u32) < 128),
{
    (c as u32) < 128
}

impl InputLine {
    #[verifier::type_invariant]
    spec fn inv(self) -> bool {
        &&& self.len <= INPUT_LINE_MAX
        &&& self.cursor <= self.len
        &&& forall|i: int| 0 <= i < self.len ==> #[trigger] self.bytes@[i] < 128
    }

    /// An empty line.
    pub fn new() -> (r: Self)
        ensures
            r@.text == Seq::<u8>::empty(),
            r@.cursor == 0,
    {
        let r = Self { bytes: [0; INPUT_LINE_MAX], len: 0, cursor: 0 };
        assert(r@.text =~= Seq::<u8>::empty());
        r
    }

    /// Inserts an ASCII character at the cursor and moves the cursor past it; refuses
    /// other characters and a full line.
    pub fn insert_char(&mut self, character: char) -> (r: bool)
        ensures
            r == ((character as u32) < 128 && old(self)@.text.len() < INPUT_LINE_MAX),
            r ==> final(self)@.text == old(self)@.text.insert(old(self)@.cursor as int, character as u8),
            r ==> final(self)@.cursor == old(self)@.cursor + 1,
            !r ==> final(self)@ == old(self)@,
    {
        proof { use_type_invariant(&*self); }
        if !char_is_ascii(character) || self.len >= INPUT_LINE_MAX {
            return false;
        }
        let ghost old_bytes = self.bytes@;
        let len = self.len;
        let cursor = self.cursor;
        let mut bytes = self.bytes;
        let mut index = len;
        while index > cursor
            invariant
                cursor <= index <= len < INPUT_LINE_MAX,
                bytes@.len() == INPUT_LINE_MAX,
                old_bytes.len() == INPUT_LINE_MAX,
                forall|i: int| 0 <= i < len ==> old_bytes[i] < 128,
                forall|i: int| 0 <= i <= index ==> bytes@[i] == old_bytes[i],
                forall|i: int| index < i <= len ==> bytes@[i] == old_bytes[i - 1],
            decreases index,
        {
            bytes[index] = bytes[index - 1];
            index -= 1;
        }
        bytes[cursor] = character as u8;
        let ghost new_text = bytes@.subrange(0, len + 1);
        assert(new_text =~= old_bytes.subrange(0, len as int).insert(cursor as int, character as u8));
        assert forall|i: int| 0 <= i < len + 1 implies #[trigger] bytes@[i] < 128 by {
            if i < cursor {
                assert(bytes@[i] == old_bytes[i]);
            } else if i > cursor {
                assert(bytes@[i] == old_bytes[i - 1]);
            }
        }
        *self = Self { bytes, len: len + 1, cursor: cursor + 1 };
        true
    }

    /// In overwrite mode with the cursor inside the text, replaces the byte under the
    /// cursor; otherwise inserts.
    pub fn insert_or_overwrite_char(&mut self, character: char, overwrite_mode: bool) -> (r: bool)
        ensures
            (character as u32) >= 128 ==> !r && final(self)@ == old(self)@,
            (character as u32) < 128 && overwrite_mode && old(self)@.cursor < old(self)@.text.len()
                ==> r && final(self)@.text == old(self)@.text.update(old(self)@.cursor as int, character as u8)
                    && final(self)@.cursor == old(self)@.cursor + 1,
            (character as u32) < 128 && !(overwrite_mode && old(self)@.cursor < old(self)@.text.len())
                ==> (r == (old(self)@.text.len() < INPUT_LINE_MAX))
                    && (r ==> final(self)@.text == old(self)@.text.insert(old(self)@.cursor as int, character as u8)
                        && final(self)@.cursor == old(self)@.cursor + 1)
                    && (!r ==> final(self)@ == old(self)@),
    {
        proof { use_type_invariant(&*self); }
        if !char_is_ascii(character) {
            return false;
        }
        if overwrite_mode && self.cursor < self.len {
            let mut bytes = self.bytes;
            bytes[self.cursor] = character as u8;
            let ghost t = bytes@.subrange(0, self.len as int);
            assert(t =~= self@.text.update(self.cursor as int, character as u8));
            *self = Self { bytes, len: self.len, cursor: self.cursor + 1 };
            return true;
        }
        self.insert_char(character)
    }

    /// Inserts an ASCII text at the cursor and moves the cursor past it; refuses
    /// non-ASCII text and text that does not fit.
    pub fn append_str(&mut self, text: &str) -> (r: bool)
        ensures
            r == (text.is_ascii() && old(self)@.text.len() + str_bytes(text).len() <= INPUT_LINE_MAX),
            r ==> final(self)@.text == old(self)@.text.subrange(0, old(self)@.cursor as int)
                + str_bytes(text) + old(self)@.text.subrange(old(self)@.cursor as int, old(self)@.text.len() as int),
            r ==> final(self)@.cursor == old(self)@.cursor + str_bytes(text).len(),
            !r ==> final(self)@ == old(self)@,
    {
        if !text.is_ascii() {
            return false;
        }
        proof {
            vstd::string::is_ascii_spec_bytes(text);
            vstd::utf8::is_ascii_chars_encode_utf8(text@);
            assert forall|i: int| 0 <= i < str_bytes(text).len() implies #[trigger] str_bytes(text)[i] < 128 by {
                assert(text@[i] <= '\u{7f}');
            }
        }
        self.append_bytes(text.as_bytes())
    }

    /// Inserts ASCII bytes at the cursor and moves the cursor past them; refuses
    /// bytes that are not all ASCII and bytes that do not fit.
    pub fn append_bytes(&mut self, src: &[u8]) -> (r: bool)
        ensures
            r == (all_ascii(src@) && old(self)@.text.len() + src@.len() <= INPUT_LINE_MAX),
            r ==> final(self)@.text == old(self)@.text.subrange(0, old(self)@.cursor as int)
                + src@ + old(self)@.text.subrange(old(self)@.cursor as int, old(self)@.text.len() as int),
            r ==> final(self)@.cursor == old(self)@.cursor + src@.len(),
            !r ==> final(self)@ == old(self)@,
    {
        proof { use_type_invariant(&*self); }
        if src.len() > INPUT_LINE_MAX - self.len {
            return false;
        }
        let mut j: usize = 0;
        while j < src.len()
            invariant
                j <= src@.len(),
                forall|i: int| 0 <= i < j ==> #[trigger] src@[i] < 128,
            decreases src@.len() - j,
        {
            if src[j] >= 128 {
                return false;
            }
            j += 1;
        }
        let insert_len = src.len();
        let len = self.len;
        let cursor = self.cursor;
        let ghost old_bytes = self.bytes@;
        let mut bytes = self.bytes;
        let mut index = len;
        while index > cursor
            invariant
                cursor <= index <= len,
                len + insert_len <= INPUT_LINE_MAX,
                bytes@.len() == INPUT_LINE_MAX,
                old_bytes.len() == INPUT_LINE_MAX,
                forall|i: int| 0 <= i < len ==> old_bytes[i] < 128,
                forall|i: int| 0 <= i < index ==> bytes@[i] == old_bytes[i],
                forall|i: int| index <= i < len ==> bytes@[i + insert_len] == old_bytes[i],
            decreases index,
        {
            bytes[index - 1 + insert_len] = bytes[index - 1];
            index -= 1;
        }
        let mut k: usize = 0;
        while k < insert_len
            invariant
                k <= insert_len,
                insert_len == src@.len(),
                cursor <= len,
                len + insert_len <= INPUT_LINE_MAX,
                bytes@.len() == INPUT_LINE_MAX,
                old_bytes.len() == INPUT_LINE_MAX,
                forall|i: int| 0 <= i < len ==> old_bytes[i] < 128,
                forall|i: int| 0 <= i < cursor ==> bytes@[i] == old_bytes[i],
                forall|i: int| cursor <= i < len ==> bytes@[i + insert_len] == old_bytes[i],
                forall|i: int| 0 <= i < k ==> bytes@[cursor + i] == src@[i],
            decreases insert_len - k,
        {
            bytes[cursor + k] = src[k];
            k += 1;
        }
        let ghost t = bytes@.subrange(0, (len + insert_len) as int);
        assert(t =~= old_bytes.subrange(0, cursor as int) + src@ + old_bytes.subrange(cursor as int, len as int));
        assert forall|i: int| 0 <= i < len + insert_len implies #[trigger] bytes@[i] < 128 by {
            if i < cursor {
                assert(bytes@[i] == old_bytes[i]);
            } else if i < cursor + insert_len {
                assert(bytes@[cursor + (i - cursor)] == src@[i - cursor]);
            } else {
                assert(bytes@[(i - insert_len) + insert_len] == old_bytes[i - insert_len]);
            }
        }
        *self = Self { bytes, len: len + insert_len, cursor: cursor + insert_len };
        true
    }

    /// Replaces the whole line by an ASCII text, cursor at its end; refuses non-ASCII
    /// text and text that does not fit.
    pub fn set_from_str(&mut self, text: &str) -> (r: bool)
        ensures
            r == (text.is_ascii() && str_bytes(text).len() <= INPUT_LINE_MAX),
            r ==> final(self)@.text == str_bytes(text),
            r ==> final(self)@.cursor == str_bytes(text).len(),
            !r ==> final(self)@ == old(self)@,
    {
        if !text.is_ascii() {
            return false;
        }
        proof {
            vstd::string::is_ascii_spec_bytes(text);
            vstd::utf8::is_ascii_chars_encode_utf8(text@);
            assert forall|i: int| 0 <= i < str_bytes(text).len() implies #[trigger] str_bytes(text)[i] < 128 by {
                assert(text@[i] <= '\u{7f}');
            }
        }
        self.set_from_bytes(text.as_bytes())
    }

    /// Replaces the whole line by ASCII bytes, cursor at their end; refuses bytes
    /// that are not all ASCII and bytes that do not fit.
    pub fn set_from_bytes(&mut self, src: &[u8]) -> (r: bool)
        ensures
            r == (all_ascii(src@) && src@.len() <= INPUT_LINE_MAX),
            r ==> final(self)@.text == src@,
            r ==> final(self)@.cursor == src@.len(),
            !r ==> final(self)@ == old(self)@,
    {
        if src.len() > INPUT_LINE_MAX {
            return false;
        }
        let mut j: usize = 0;
        while j < src.len()
            invariant
                j <= src@.len(),
                forall|i: int| 0 <= i < j ==> #[trigger] src@[i] < 128,
            decreases src@.len() - j,
        {
            if src[j] >= 128 {
                return false;
            }
            j += 1;
        }
        self.clear();
        let ok = self.append_bytes(src);
        assert(ok);
        proof {
            assert(final(self)@.text =~= src@);
        }
        true
    }

    /// Removes the byte before the cursor and moves the cursor back.
    pub fn backspace(&mut self) -> (r: bool)
        ensures
            r == (old(self)@.cursor > 0),
            r ==> final(self)@.text == old(self)@.text.remove(old(self)@.cursor - 1),
            r ==> final(self)@.cursor == old(self)@.cursor - 1,
            !r ==> final(self)@ == old(self)@,
    {
        proof { use_type_invariant(&*self); }
        if self.cursor == 0 {
            return false;
        }
        let cursor = self.cursor;
        self.delete_range(cursor - 1, cursor);
        proof { use_type_invariant(&*self); }
        self.cursor = cursor - 1;
        proof {
            assert(final(self)@.text =~= old(self)@.text.remove(cursor - 1));
        }
        true
    }

    /// Removes the byte under the cursor.
    pub fn delete(&mut self) -> (r: bool)
        ensures
            r == (old(self)@.cursor < old(self)@.text.len()),
            r ==> final(self)@.text == old(self)@.text.remove(old(self)@.cursor as int),
            final(self)@.cursor == old(self)@.cursor,
            !r ==> final(self)@ == old(self)@,
    {
        proof { use_type_invariant(&*self); }
        if self.cursor >= self.len {
            return false;
        }
        let cursor = self.cursor;
        self.delete_range(cursor, cursor + 1);
        proof {
            assert(final(self)@.text =~= old(self)@.text.remove(cursor as int));
        }
        true
    }

    /// The text of the line.
    pub fn as_str(&self) -> (r: &str)
        ensures
            str_bytes(r) == self@.text,
    {
        proof {
            use_type_invariant(self);
            lemma_ascii_is_utf8(self@.text);
        }
        let text = &self.bytes[0..self.len];
        assert(text@ == self@.text);
        match str_from_utf8(text) {
            Some(s) => s,
            None => "",
        }
    }

    /// The bytes of the text.
    pub fn as_bytes(&self) -> (r: &[u8])
        ensures
            r@ == self@.text,
            r@.len() <= INPUT_LINE_MAX,
            all_ascii(r@),
    {
        proof { use_type_invariant(self); }
        &self.bytes[0..self.len]
    }

    /// The text before the cursor.
    pub fn as_prefix_str(&self) -> (r: &str)
        ensures
            str_bytes(r) == self@.text.subrange(0, self@.cursor as int),
    {
        proof {
            use_type_invariant(self);
            lemma_ascii_is_utf8(self@.text.subrange(0, self@.cursor as int));
        }
        let text = &self.bytes[0..self.cursor];
        assert(text@ =~= self@.text.subrange(0, self@.cursor as int));
        match str_from_utf8(text) {
            Some(s) => s,
            None => "",
        }
    }

    pub fn len(&self) -> (r: usize)
        ensures
            r == self@.text.len(),
            r <= INPUT_LINE_MAX,
            self@.cursor <= r,
    {
        proof { use_type_invariant(self); }
        self.len
    }

    pub fn cursor(&self) -> (r: usize)
        ensures
            r == self@.cursor,
    {
        proof { use_type_invariant(&*self); }
        self.cursor
    }

    pub fn is_cursor_at_end(&self) -> (r: bool)
        ensures
            r == (self@.cursor == self@.text.len()),
    {
        proof { use_type_invariant(&*self); }
        self.cursor == self.len
    }

    pub fn move_left(&mut self) -> (r: bool)
        ensures
            r == (old(self)@.cursor > 0),
            final(self)@.text == old(self)@.text,
            final(self)@.cursor == if r { old(self)@.cursor - 1 } else { old(self)@.cursor as int },
    {
        proof { use_type_invariant(&*self); }
        if self.cursor == 0 {
            return false;
        }
        self.cursor -= 1;
        true
    }

    pub fn move_right(&mut self) -> (r: bool)
        ensures
            r == (old(self)@.cursor < old(self)@.text.len()),
            final(self)@.text == old(self)@.text,
            final(self)@.cursor == if r { (old(self)@.cursor + 1) as int } else { old(self)@.cursor as int },
    {
        proof { use_type_invariant(&*self); }
        if self.cursor >= self.len {
            return false;
        }
        self.cursor += 1;
        true
    }

    pub fn move_home(&mut self) -> (r: bool)
        ensures
            r == (old(self)@.cursor != 0),
            final(self)@.text == old(self)@.text,
            final(self)@.cursor == 0,
    {
        proof { use_type_invariant(&*self); }
        if self.cursor == 0 {
            return false;
        }
        self.cursor = 0;
        true
    }

    pub fn move_end(&mut self) -> (r: bool)
        ensures
            r == (old(self)@.cursor != old(self)@.text.len()),
            final(self)@.text == old(self)@.text,
            final(self)@.cursor == old(self)@.text.len(),
    {
        proof { use_type_invariant(&*self); }
        if self.cursor == self.len {
            return false;
        }
        self.cursor = self.len;
        true
    }

    /// Moves the cursor to the previous word boundary.
    pub fn move_word_left(&mut self) -> (r: bool)
        ensures
            final(self)@.text == old(self)@.text,
            final(self)@.cursor == word_boundary_left(old(self)@.text, old(self)@.cursor as int),
            r == (final(self)@.cursor != old(self)@.cursor),
    {
        proof { use_type_invariant(&*self); }
        let previous = self.previous_word_boundary();
        proof { lemma_word_boundaries(self@.text, self.cursor as int); }
        if previous == self.cursor {
            return false;
        }
        self.cursor = previous;
        true
    }

    /// Moves the cursor to the next word boundary.
    pub fn move_word_right(&mut self) -> (r: bool)
        ensures
            final(self)@.text == old(self)@.text,
            final(self)@.cursor == word_boundary_right(old(self)@.text, old(self)@.cursor as int),
            r == (final(self)@.cursor != old(self)@.cursor),
    {
        proof { use_type_invariant(&*self); }
        let next = self.next_word_boundary();
        proof { lemma_word_boundaries(self@.text, self.cursor as int); }
        if next == self.cursor {
            return false;
        }
        self.cursor = next;
        true
    }

    /// Deletes from the previous word boundary up to the cursor.
    pub fn delete_word_left(&mut self) -> (r: bool)
        ensures
            ({
                let start = word_boundary_left(old(self)@.text, old(self)@.cursor as int);
                &&& r == (start != old(self)@.cursor)
                &&& final(self)@.text == old(self)@.text.subrange(0, start)
                    + old(self)@.text.subrange(old(self)@.cursor as int, old(self)@.text.len() as int)
                &&& final(self)@.cursor == start
            }),
    {
        proof { use_type_invariant(&*self); }
        let start = self.previous_word_boundary();
        let cursor = self.cursor;
        proof { lemma_word_boundaries(self@.text, cursor as int); }
        if start == cursor {
            proof {
                use_type_invariant(&*self);
                assert(self@.text =~= self@.text.subrange(0, start as int)
                    + self@.text.subrange(cursor as int, self@.text.len() as int));
            }
            return false;
        }
        self.delete_range(start, cursor);
        proof { use_type_invariant(&*self); }
        self.cursor = start;
        true
    }

    /// Deletes from the cursor up to the next word boundary.
    pub fn delete_word_right(&mut self) -> (r: bool)
        ensures
            ({
                let end = word_boundary_right(old(self)@.text, old(self)@.cursor as int);
                &&& r == (end != old(self)@.cursor)
                &&& final(self)@.text == old(self)@.text.subrange(0, old(self)@.cursor as int)
                    + old(self)@.text.subrange(end, old(self)@.text.len() as int)
                &&& final(self)@.cursor == old(self)@.cursor
            }),
    {
        proof { use_type_invariant(&*self); }
        let end = self.next_word_boundary();
        let cursor = self.cursor;
        proof { lemma_word_boundaries(self@.text, cursor as int); }
        if end == cursor {
            proof {
                use_type_invariant(&*self);
                assert(self@.text =~= self@.text.subrange(0, cursor as int)
                    + self@.text.subrange(end as int, self@.text.len() as int));
            }
            return false;
        }
        self.delete_range(cursor, end);
        true
    }

    /// Removes the bytes in `start..end`; a cursor past the new end moves to the end.
    fn delete_range(&mut self, start: usize, end: usize)
        requires
            start <= end <= old(self)@.text.len(),
        ensures
            final(self)@.text == old(self)@.text.subrange(0, start as int)
                + old(self)@.text.subrange(end as int, old(self)@.text.len() as int),
            final(self)@.cursor == if old(self)@.cursor > final(self)@.text.len() {
                final(self)@.text.len()
            } else {
                old(self)@.cursor
            },
    {
        proof { use_type_invariant(&*self); }
        let removed = end - start;
        if removed == 0 {
            proof {
                assert(self@.text =~= self@.text.subrange(0, start as int)
                    + self@.text.subrange(end as int, self@.text.len() as int));
            }
            return;
        }
        let len = self.len;
        let ghost old_bytes = self.bytes@;
        let mut bytes = self.bytes;
        let mut index = end;
        while index < len
            invariant
                start + removed == end,
                end <= index <= len <= INPUT_LINE_MAX,
                bytes@.len() == INPUT_LINE_MAX,
                old_bytes.len() == INPUT_LINE_MAX,
                forall|i: int| 0 <= i < len ==> old_bytes[i] < 128,
                forall|i: int| 0 <= i < start ==> bytes@[i] == old_bytes[i],
                forall|i: int| start <= i < index - removed ==> bytes@[i] == old_bytes[i + removed],
                forall|i: int| index - removed <= i < INPUT_LINE_MAX ==> bytes@[i] == old_bytes[i],
            decreases len - index,
        {
            bytes[index - removed] = bytes[index];
            index += 1;
        }
        let new_len = len - removed;
        let ghost t = bytes@.subrange(0, new_len as int);
        assert(t =~= old_bytes.subrange(0, start as int) + old_bytes.subrange(end as int, len as int));
        let cursor = if self.cursor > new_len { new_len } else { self.cursor };
        assert forall|i: int| 0 <= i < new_len implies #[trigger] bytes@[i] < 128 by {
            if i < start {
                assert(bytes@[i] == old_bytes[i]);
            } else {
                assert(bytes@[i] == old_bytes[i + removed]);
            }
        }
        *self = Self { bytes, len: new_len, cursor };
    }

    /// Where a word-wise move to the left from the cursor stops.
    fn previous_word_boundary(&self) -> (r: usize)
        ensures
            r == word_boundary_left(self@.text, self@.cursor as int),
    {
        proof { use_type_invariant(self); }
        let ghost t = self@.text;
        let cursor = self.cursor;
        if cursor == 0 {
            return 0;
        }
        let mut position = cursor;
        while position > 0 && is_ascii_whitespace(self.bytes[position - 1])
            invariant
                position <= cursor <= self.len <= INPUT_LINE_MAX,
                t == self@.text,
                t.len() == self.len,
                run_start(t, position as int, ByteClass::Space) == run_start(t, cursor as int, ByteClass::Space),
            decreases position,
        {
            assert(self.bytes@[position - 1] == t[position - 1]);
            position -= 1;
        }
        let ghost a = position;
        assert(run_start(t, a as int, ByteClass::Space) == a as int) by {
            if a > 0 { assert(self.bytes@[a - 1] == t[a - 1]); }
        }
        while position > 0 && Self::is_word_byte(self.bytes[position - 1])
            invariant
                position <= a <= cursor <= self.len <= INPUT_LINE_MAX,
                t == self@.text,
                t.len() == self.len,
                run_start(t, position as int, ByteClass::Word) == run_start(t, a as int, ByteClass::Word),
            decreases position,
        {
            assert(self.bytes@[position - 1] == t[position - 1]);
            position -= 1;
        }
        let ghost b = position;
        assert(run_start(t, b as int, ByteClass::Word) == b as int) by {
            if b > 0 { assert(self.bytes@[b - 1] == t[b - 1]); }
        }
        if position == cursor {
            while position > 0 && !is_ascii_whitespace(self.bytes[position - 1])
                && !Self::is_word_byte(self.bytes[position - 1])
                invariant
                    position <= b <= cursor <= self.len <= INPUT_LINE_MAX,
                    t == self@.text,
                    t.len() == self.len,
                    run_start(t, position as int, ByteClass::Other) == run_start(t, b as int, ByteClass::Other),
                decreases position,
            {
                assert(self.bytes@[position - 1] == t[position - 1]);
                position -= 1;
            }
            assert(run_start(t, position as int, ByteClass::Other) == position as int) by {
                if position > 0 { assert(self.bytes@[position - 1] == t[position - 1]); }
            }
        }
        if position == cursor {
            position.saturating_sub(1)
        } else {
            position
        }
    }

    /// Where a word-wise move to the right from the cursor stops.
    fn next_word_boundary(&self) -> (r: usize)
        ensures
            r == word_boundary_right(self@.text, self@.cursor as int),
    {
        proof { use_type_invariant(self); }
        let ghost t = self@.text;
        let cursor = self.cursor;
        let len = self.len;
        if cursor >= len {
            return len;
        }
        let mut position = cursor;
        while position < len && is_ascii_whitespace(self.bytes[position])
            invariant
                cursor <= position <= len <= INPUT_LINE_MAX,
                len == self.len,
                t == self@.text,
                t.len() == len,
                run_end(t, position as int, ByteClass::Space) == run_end(t, cursor as int, ByteClass::Space),
            decreases len - position,
        {
            assert(self.bytes@[position as int] == t[position as int]);
            position += 1;
        }
        let ghost a = position;
        assert(run_end(t, a as int, ByteClass::Space) == a as int) by {
            if a < len { assert(self.bytes@[a as int] == t[a as int]); }
        }
        while position < len && Self::is_word_byte(self.bytes[position])
            invariant
                cursor <= a <= position <= len <= INPUT_LINE_MAX,
                len == self.len,
                t == self@.text,
                t.len() == len,
                run_end(t, position as int, ByteClass::Word) == run_end(t, a as int, ByteClass::Word),
            decreases len - position,
        {
            assert(self.bytes@[position as int] == t[position as int]);
            position += 1;
        }
        let ghost b = position;
        assert(run_end(t, b as int, ByteClass::Word) == b as int) by {
            if b < len { assert(self.bytes@[b as int] == t[b as int]); }
        }
        if position == cursor {
            while position < len && !is_ascii_whitespace(self.bytes[position])
                && !Self::is_word_byte(self.bytes[position])
                invariant
                    cursor <= b <= position <= len <= INPUT_LINE_MAX,
                    len == self.len,
                    t == self@.text,
                    t.len() == len,
                    run_end(t, position as int, ByteClass::Other) == run_end(t, b as int, ByteClass::Other),
                decreases len - position,
            {
                assert(self.bytes@[position as int] == t[position as int]);
                position += 1;
            }
            assert(run_end(t, position as int, ByteClass::Other) == position as int) by {
                if position < len { assert(self.bytes@[position as int] == t[position as int]); }
            }
        }
        if position == cursor {
            if position + 1 < len { position + 1 } else { len }
        } else {
            position
        }
    }

    /// ASCII letters, digits and `_` make up words.
    pub fn is_word_byte(byte: u8) -> (r: bool)
        ensures
            r == is_word(byte),
    {
        (0x30 <= byte && byte <= 0x39) || (0x41 <= byte && byte <= 0x5A) || (0x61 <= byte
            && byte <= 0x7A) || byte == 0x5F
    }

    pub fn is_empty(&self) -> (r: bool)
        ensures
            r == (self@.text.len() == 0),
    {
        proof { use_type_invariant(&*self); }
        self.len == 0
    }

    /// Empties the line.
    pub fn clear(&mut self)
        ensures
            final(self)@.text == Seq::<u8>::empty(),
            final(self)@.cursor == 0,
    {
        *self = Self { bytes: self.bytes, len: 0, cursor: 0 };
        proof {
            assert(final(self)@.text =~= Seq::<u8>::empty());
        }
    }
}

/// `u8::is_ascii_whitespace`.
pub fn is_ascii_whitespace(b: u8) -> (r: bool)
    ensures
        r == is_space_byte(b),
{
    b == 0x20 || b == 0x09 || b == 0x0A || b == 0x0C || b == 0x0D
}

} // verus!
