//! PS/2 scancode set 1 decoding into key events, with modifier tracking.

use vstd::prelude::*;

verus! {

/// A decoded key press.
#[derive(Debug, Clone, Copy, PartialEq, Eq, Structural)]
pub enum KeyEvent {
    Char(char),
    Ctrl(char),
    Alt(char),
    CtrlAlt(char),
    Enter,
    Backspace,
    Tab,
    Escape,
    ArrowUp,
    ArrowDown,
    ArrowLeft,
    ArrowRight,
    WordLeft,
    WordRight,
    Insert,
    Delete,
    WordDeleteLeft,
    WordDeleteRight,
    Home,
    End,
    PageUp,
    PageDown,
    Function(u8),
    Unknown(u8),
}

/// Decoder state: a pending `0xE0` prefix and the held modifier keys.
#[derive(Debug, Clone, Copy, PartialEq, Eq, Structural)]
pub struct KeyboardDecoder {
    pub extended: bool,
    pub left_shift: bool,
    pub right_shift: bool,
    pub left_ctrl: bool,
    pub right_ctrl: bool,
    pub left_alt: bool,
    pub right_alt: bool,
    pub caps_lock: bool,
}

/// The lower-case letter that a make code stands for.
pub open spec fn letter_of(code: u8) -> Option<char> {
    if code == 0x1E { Some('a') }
    else if code == 0x30 { Some('b') }
    else if code == 0x2E { Some('c') }
    else if code == 0x20 { Some('d') }
    else if code == 0x12 { Some('e') }
    else if code == 0x21 { Some('f') }
    else if code == 0x22 { Some('g') }
    else if code == 0x23 { Some('h') }
    else if code == 0x17 { Some('i') }
    else if code == 0x24 { Some('j') }
    else if code == 0x25 { Some('k') }
    else if code == 0x26 { Some('l') }
    else if code == 0x32 { Some('m') }
    else if code == 0x31 { Some('n') }
    else if code == 0x18 { Some('o') }
    else if code == 0x19 { Some('p') }
    else if code == 0x10 { Some('q') }
    else if code == 0x13 { Some('r') }
    else if code == 0x1F { Some('s') }
    else if code == 0x14 { Some('t') }
    else if code == 0x16 { Some('u') }
    else if code == 0x2F { Some('v') }
    else if code == 0x11 { Some('w') }
    else if code == 0x2D { Some('x') }
    else if code == 0x15 { Some('y') }
    else if code == 0x2C { Some('z') }
    else { None }
}

/// The (unshifted, shifted) characters of a digit or symbol make code.
pub open spec fn symbol_pair_of(code: u8) -> Option<(char, char)> {
    if code == 0x02 { Some(('1', '!')) }
    else if code == 0x03 { Some(('2', '@')) }
    else if code == 0x04 { Some(('3', '#')) }
    else if code == 0x05 { Some(('4', '$')) }
    else if code == 0x06 { Some(('5', '%')) }
    else if code == 0x07 { Some(('6', '^')) }
    else if code == 0x08 { Some(('7', '&')) }
    else if code == 0x09 { Some(('8', '*')) }
    else if code == 0x0A { Some(('9', '(')) }
    else if code == 0x0B { Some(('0', ')')) }
    else if code == 0x39 { Some((' ', ' ')) }
    else if code == 0x0C { Some(('-', '_')) }
    else if code == 0x0D { Some(('=', '+')) }
    else if code == 0x1A { Some(('[', '{')) }
    else if code == 0x1B { Some((']', '}')) }
    else if code == 0x27 { Some((';', ':')) }
    else if code == 0x28 { Some(('\'', '"')) }
    else if code == 0x29 { Some(('`', '~')) }
    else if code == 0x2B { Some(('\\', '|')) }
    else if code == 0x33 { Some((',', '<')) }
    else if code == 0x34 { Some(('.', '>')) }
    else if code == 0x35 { Some(('/', '?')) }
    else { None }
}

/// `a` to `z`.
pub open spec fn is_lowercase_letter(l: char) -> bool {
    'a' <= l <= 'z'
}

/// The make codes of the letters, in alphabetical order.
pub open spec fn letter_codes() -> Seq<u8> {
    seq![
        0x1Eu8, 0x30, 0x2E, 0x20, 0x12, 0x21, 0x22, 0x23, 0x17, 0x24, 0x25, 0x26, 0x32,
        0x31, 0x18, 0x19, 0x10, 0x13, 0x1F, 0x14, 0x16, 0x2F, 0x11, 0x2D, 0x15, 0x2C,
    ]
}

/// Letter decoding is a one-to-one map from exactly twenty-six make codes onto the
/// lowercase letters `a` to `z`, and no letter code is also a digit or symbol code.
pub proof fn lemma_letter_decoding()
    ensures
        letter_codes().len() == 26,
        letter_codes().no_duplicates(),
        forall|c: u8| #[trigger] letter_of(c) is Some <==> letter_codes().contains(c),
        Set::new(|c: u8| letter_of(c) is Some).len() == 26,
        forall|i: int| 0 <= i < 26 ==> #[trigger] letter_of(letter_codes()[i]) == Some((97 + i) as char),
        forall|c: u8| #[trigger] letter_of(c) is Some ==> is_lowercase_letter(letter_of(c).unwrap()),
        forall|c: u8| #[trigger] letter_of(c) is Some ==> symbol_pair_of(c) is None,
        forall|c1: u8, c2: u8| #[trigger] letter_of(c1) == #[trigger] letter_of(c2) && letter_of(c1) is Some ==> c1 == c2,
        forall|l: char| #[trigger] is_lowercase_letter(l) ==> exists|c: u8| #[trigger] letter_of(c) == Some(l),
        letter_of(0x1E) == Some('a'),
        letter_of(0x2C) == Some('z'),
        letter_of(0x02) is None,
{
    let codes = letter_codes();
    assert forall|i: int, j: int| 0 <= i < codes.len() && 0 <= j < codes.len() && i != j
        implies codes[i] != codes[j] by {}
    assert forall|c: u8| #[trigger] letter_of(c) is Some <==> codes.contains(c) by {
        if letter_of(c) is Some {
            let k: int = choose|k: int| 0 <= k < 26 && codes[k] == c;
            assert(codes[k] == c);
        }
        if codes.contains(c) {
            let k: int = choose|k: int| 0 <= k < codes.len() && codes[k] == c;
            assert(letter_of(codes[k]) is Some);
        }
    }
    assert(Set::new(|c: u8| letter_of(c) is Some) =~= codes.to_set());
    codes.unique_seq_to_set();
    assert forall|i: int| 0 <= i < 26 implies #[trigger] letter_of(codes[i]) == Some((97 + i) as char) by {}
    assert forall|l: char| #[trigger] is_lowercase_letter(l) implies exists|c: u8| #[trigger] letter_of(c) == Some(l) by {
        let i = (l as int) - 97;
        assert(letter_of(codes[i]) == Some((97 + i) as char));
        assert((97 + i) as char == l);
    }
}

/// Digit and symbol decoding: the number row gives `1` to `9` then `0` from make
/// codes 0x02 to 0x0B, with the shifted symbols of a US keyboard; different codes
/// give different unshifted characters and different shifted ones (the space bar
/// aside, which is a space either way), and no such code is a letter code.
pub proof fn lemma_symbol_decoding()
    ensures
        forall|k: int| 0 <= k < 9 ==> #[trigger] symbol_pair_of((2 + k) as u8) is Some
            && symbol_pair_of((2 + k) as u8).unwrap().0 == (49 + k) as char,
        symbol_pair_of(0x0B) == Some(('0', ')')),
        symbol_pair_of(0x02) == Some(('1', '!')),
        symbol_pair_of(0x0A) == Some(('9', '(')),
        symbol_pair_of(0x39) == Some((' ', ' ')),
        forall|c1: u8, c2: u8| #[trigger] symbol_pair_of(c1) is Some && #[trigger] symbol_pair_of(c2) is Some
            && symbol_pair_of(c1).unwrap().0 == symbol_pair_of(c2).unwrap().0 ==> c1 == c2,
        forall|c1: u8, c2: u8| #[trigger] symbol_pair_of(c1) is Some && #[trigger] symbol_pair_of(c2) is Some
            && symbol_pair_of(c1).unwrap().1 == symbol_pair_of(c2).unwrap().1 ==> c1 == c2,
        forall|c: u8| #[trigger] symbol_pair_of(c) is Some ==> letter_of(c) is None,
{
    assert forall|k: int| 0 <= k < 9 implies #[trigger] symbol_pair_of((2 + k) as u8) is Some
        && symbol_pair_of((2 + k) as u8).unwrap().0 == (49 + k) as char by {
        if k == 0 {} else if k == 1 {} else if k == 2 {} else if k == 3 {} else if k == 4 {}
        else if k == 5 {} else if k == 6 {} else if k == 7 {} else {}
    }
}

/// ASCII upper case of a character (other characters are unchanged).
pub open spec fn ascii_upper(c: char) -> char {
    if 'a' <= c <= 'z' { ((c as u32) - 32) as char } else { c }
}

impl KeyboardDecoder {
    pub open spec fn shift_held(self) -> bool {
        self.left_shift || self.right_shift
    }

    pub open spec fn ctrl_held(self) -> bool {
        self.left_ctrl || self.right_ctrl
    }

    pub open spec fn alt_held(self) -> bool {
        self.left_alt || self.right_alt
    }

    /// A character event qualified by the held Ctrl and Alt keys.
    pub open spec fn qualified(self, c: char) -> KeyEvent {
        if self.ctrl_held() && self.alt_held() {
            KeyEvent::CtrlAlt(c)
        } else if self.ctrl_held() {
            KeyEvent::Ctrl(c)
        } else if self.alt_held() {
            KeyEvent::Alt(c)
        } else {
            KeyEvent::Char(c)
        }
    }

    /// The decoder that results from a (non-prefix) scancode of the plain set.
    pub open spec fn after_plain(self, scancode: u8) -> KeyboardDecoder {
        let released = scancode >= 0x80;
        let code = scancode % 0x80;
        if code == 0x2A {
            KeyboardDecoder { left_shift: !released, ..self }
        } else if code == 0x36 {
            KeyboardDecoder { right_shift: !released, ..self }
        } else if code == 0x1D {
            KeyboardDecoder { left_ctrl: !released, ..self }
        } else if code == 0x38 {
            KeyboardDecoder { left_alt: !released, ..self }
        } else if code == 0x3A && !released {
            KeyboardDecoder { caps_lock: !self.caps_lock, ..self }
        } else {
            self
        }
    }

    /// The event that a (non-prefix) scancode of the plain set yields.
    pub open spec fn plain_event(self, scancode: u8) -> Option<KeyEvent> {
        let released = scancode >= 0x80;
        let code = scancode % 0x80;
        if code == 0x2A || code == 0x36 || code == 0x1D || code == 0x38 || code == 0x3A
            || released {
            None
        } else if letter_of(code) is Some {
            let letter = letter_of(code).unwrap();
            let c = if self.shift_held() != self.caps_lock { ascii_upper(letter) } else { letter };
            Some(self.qualified(c))
        } else if symbol_pair_of(code) is Some {
            let pair = symbol_pair_of(code).unwrap();
            Some(self.qualified(if self.shift_held() { pair.1 } else { pair.0 }))
        } else if code == 0x1C {
            Some(KeyEvent::Enter)
        } else if code == 0x0E {
            Some(if self.ctrl_held() { KeyEvent::WordDeleteLeft } else { KeyEvent::Backspace })
        } else if code == 0x0F {
            Some(KeyEvent::Tab)
        } else if code == 0x01 {
            Some(KeyEvent::Escape)
        } else if 0x3B <= code <= 0x44 {
            Some(KeyEvent::Function((code - 0x3A) as u8))
        } else if code == 0x57 {
            Some(KeyEvent::Function(11))
        } else if code == 0x58 {
            Some(KeyEvent::Function(12))
        } else {
            Some(KeyEvent::Unknown(scancode))
        }
    }

    /// The decoder that results from the scancode that follows an `0xE0` prefix.
    pub open spec fn after_extended(self, scancode: u8) -> KeyboardDecoder {
        let released = scancode >= 0x80;
        let code = scancode % 0x80;
        if code == 0x1D {
            KeyboardDecoder { extended: false, right_ctrl: !released, ..self }
        } else if code == 0x38 {
            KeyboardDecoder { extended: false, right_alt: !released, ..self }
        } else {
            KeyboardDecoder { extended: false, ..self }
        }
    }

    /// The event that the scancode after an `0xE0` prefix yields.
    pub open spec fn extended_event(self, scancode: u8) -> Option<KeyEvent> {
        let released = scancode >= 0x80;
        let code = scancode % 0x80;
        if code == 0x1D || code == 0x38 || released {
            None
        } else if code == 0x48 {
            Some(KeyEvent::ArrowUp)
        } else if code == 0x50 {
            Some(KeyEvent::ArrowDown)
        } else if code == 0x4B {
            Some(if self.ctrl_held() { KeyEvent::WordLeft } else { KeyEvent::ArrowLeft })
        } else if code == 0x4D {
            Some(if self.ctrl_held() { KeyEvent::WordRight } else { KeyEvent::ArrowRight })
        } else if code == 0x52 {
            Some(KeyEvent::Insert)
        } else if code == 0x53 {
            Some(if self.ctrl_held() { KeyEvent::WordDeleteRight } else { KeyEvent::Delete })
        } else if code == 0x47 {
            Some(KeyEvent::Home)
        } else if code == 0x4F {
            Some(KeyEvent::End)
        } else if code == 0x49 {
            Some(KeyEvent::PageUp)
        } else if code == 0x51 {
            Some(KeyEvent::PageDown)
        } else {
            Some(KeyEvent::Unknown(scancode))
        }
    }

    /// The decoder after one scancode.
    pub open spec fn after(self, scancode: u8) -> KeyboardDecoder {
        if scancode == 0xE0 {
            KeyboardDecoder { extended: true, ..self }
        } else if self.extended {
            self.after_extended(scancode)
        } else {
            self.after_plain(scancode)
        }
    }

    /// The event that one scancode yields.
    pub open spec fn event(self, scancode: u8) -> Option<KeyEvent> {
        if scancode == 0xE0 {
            None
        } else if self.extended {
            self.extended_event(scancode)
        } else {
            self.plain_event(scancode)
        }
    }

    pub open spec fn is_idle(self) -> bool {
        &&& !self.extended
        &&& !self.left_shift
        &&& !self.right_shift
        &&& !self.left_ctrl
        &&& !self.right_ctrl
        &&& !self.left_alt
        &&& !self.right_alt
        &&& !self.caps_lock
    }

    /// A decoder with no prefix pending, no modifier held and Caps Lock off.
    pub fn new() -> (r: Self)
        ensures
            r.is_idle(),
    {
        Self {
            extended: false,
            left_shift: false,
            right_shift: false,
            left_ctrl: false,
            right_ctrl: false,
            left_alt: false,
            right_alt: false,
            caps_lock: false,
        }
    }

    /// Feeds one scancode; returns the key event it completes, if any.
    pub fn feed(&mut self, scancode: u8) -> (r: Option<KeyEvent>)
        ensures
            *final(self) == old(self).after(scancode),
            r == old(self).event(scancode),
    {
        if scancode == 0xE0 {
            self.extended = true;
            return None;
        }
        if self.extended {
            self.extended = false;
            return self.decode_extended(scancode);
        }
        let released = scancode & 0x80 != 0;
        let code = scancode & 0x7f;
        assert(released == (scancode >= 0x80) && code == scancode % 0x80) by (bit_vector)
            requires
                released == (scancode & 0x80 != 0),
                code == scancode & 0x7f,
        ;
        if code == 0x2A {
            self.left_shift = !released;
            return None;
        } else if code == 0x36 {
            self.right_shift = !released;
            return None;
        } else if code == 0x1D {
            self.left_ctrl = !released;
            return None;
        } else if code == 0x38 {
            self.left_alt = !released;
            return None;
        } else if code == 0x3A {
            if !released {
                self.caps_lock = !self.caps_lock;
            }
            return None;
        }
        if released {
            return None;
        }
        if let Some(letter) = decode_letter(code) {
            let upper = self.shift_active() != self.caps_lock;
            let character = if upper { to_ascii_uppercase(letter) } else { letter };
            return Some(self.classify_char(character));
        }
        if let Some((normal, shifted)) = decode_symbol_pair(code) {
            let ch = if self.shift_active() { shifted } else { normal };
            return Some(self.classify_char(ch));
        }
        if code == 0x1C {
            Some(KeyEvent::Enter)
        } else if code == 0x0E {
            if self.ctrl_active() {
                Some(KeyEvent::WordDeleteLeft)
            } else {
                Some(KeyEvent::Backspace)
            }
        } else if code == 0x0F {
            Some(KeyEvent::Tab)
        } else if code == 0x01 {
            Some(KeyEvent::Escape)
        } else if 0x3B <= code && code <= 0x44 {
            Some(KeyEvent::Function(code - 0x3A))
        } else if code == 0x57 {
            Some(KeyEvent::Function(11))
        } else if code == 0x58 {
            Some(KeyEvent::Function(12))
        } else {
            Some(KeyEvent::Unknown(scancode))
        }
    }

    fn decode_extended(&mut self, scancode: u8) -> (r: Option<KeyEvent>)
        requires
            !old(self).extended,
        ensures
            *final(self) == old(self).after_extended(scancode),
            r == old(self).extended_event(scancode),
    {
        let released = scancode & 0x80 != 0;
        let code = scancode & 0x7f;
        assert(released == (scancode >= 0x80) && code == scancode % 0x80) by (bit_vector)
            requires
                released == (scancode & 0x80 != 0),
                code == scancode & 0x7f,
        ;
        if code == 0x1D {
            self.right_ctrl = !released;
            return None;
        } else if code == 0x38 {
            self.right_alt = !released;
            return None;
        }
        if released {
            return None;
        }
        if code == 0x48 {
            Some(KeyEvent::ArrowUp)
        } else if code == 0x50 {
            Some(KeyEvent::ArrowDown)
        } else if code == 0x4B {
            if self.ctrl_active() {
                Some(KeyEvent::WordLeft)
            } else {
                Some(KeyEvent::ArrowLeft)
            }
        } else if code == 0x4D {
            if self.ctrl_active() {
                Some(KeyEvent::WordRight)
            } else {
                Some(KeyEvent::ArrowRight)
            }
        } else if code == 0x52 {
            Some(KeyEvent::Insert)
        } else if code == 0x53 {
            if self.ctrl_active() {
                Some(KeyEvent::WordDeleteRight)
            } else {
                Some(KeyEvent::Delete)
            }
        } else if code == 0x47 {
            Some(KeyEvent::Home)
        } else if code == 0x4F {
            Some(KeyEvent::End)
        } else if code == 0x49 {
            Some(KeyEvent::PageUp)
        } else if code == 0x51 {
            Some(KeyEvent::PageDown)
        } else {
            Some(KeyEvent::Unknown(scancode))
        }
    }

    fn shift_active(&self) -> (r: bool)
        ensures
            r == self.shift_held(),
    {
        self.left_shift || self.right_shift
    }

    fn ctrl_active(&self) -> (r: bool)
        ensures
            r == self.ctrl_held(),
    {
        self.left_ctrl || self.right_ctrl
    }

    fn alt_active(&self) -> (r: bool)
        ensures
            r == self.alt_held(),
    {
        self.left_alt || self.right_alt
    }

    fn classify_char(&self, character: char) -> (r: KeyEvent)
        ensures
            r == self.qualified(character),
    {
        let ctrl = self.ctrl_active();
        let alt = self.alt_active();
        if ctrl && alt {
            KeyEvent::CtrlAlt(character)
        } else if ctrl {
            KeyEvent::Ctrl(character)
        } else if alt {
            KeyEvent::Alt(character)
        } else {
            KeyEvent::Char(character)
        }
    }
}

/// A key release (any scancode with the top bit set, the `0xE0` prefix included)
/// never yields an event, in whatever state the decoder is.
pub proof fn lemma_release_yields_no_event(d: KeyboardDecoder, scancode: u8)
    requires
        scancode >= 0x80,
    ensures
        d.event(scancode) is None,
{
}

/// Pressing Caps Lock twice leaves the decoder as it was.
pub proof fn lemma_caps_lock_twice(d: KeyboardDecoder)
    requires
        !d.extended,
    ensures
        d.after(0x3A).after(0x3A) == d,
{
}

/// A letter key, with no Ctrl or Alt held, types the upper-case letter exactly when
/// one of Shift and Caps Lock is on.
pub proof fn lemma_letter_case(d: KeyboardDecoder, code: u8)
    requires
        !d.extended,
        code < 0x80,
        letter_of(code) is Some,
        !d.ctrl_held(),
        !d.alt_held(),
    ensures
        d.event(code) == Some(KeyEvent::Char(
            if d.shift_held() != d.caps_lock { ascii_upper(letter_of(code).unwrap()) } else { letter_of(code).unwrap() },
        )),
{
}

fn to_ascii_uppercase(c: char) -> (r: char)
    ensures
        r == ascii_upper(c),
{
    if 'a' <= c && c <= 'z' {
        let byte: u8 = (c as u8) - 32;
        byte as char
    } else {
        c
    }
}

/// The letter of a make code, if it is one.
pub fn decode_letter(code: u8) -> (r: Option<char>)
    ensures
        r == letter_of(code),
{
    match code {
        0x1E => Some('a'),
        0x30 => Some('b'),
        0x2E => Some('c'),
        0x20 => Some('d'),
        0x12 => Some('e'),
        0x21 => Some('f'),
        0x22 => Some('g'),
        0x23 => Some('h'),
        0x17 => Some('i'),
        0x24 => Some('j'),
        0x25 => Some('k'),
        0x26 => Some('l'),
        0x32 => Some('m'),
        0x31 => Some('n'),
        0x18 => Some('o'),
        0x19 => Some('p'),
        0x10 => Some('q'),
        0x13 => Some('r'),
        0x1F => Some('s'),
        0x14 => Some('t'),
        0x16 => Some('u'),
        0x2F => Some('v'),
        0x11 => Some('w'),
        0x2D => Some('x'),
        0x15 => Some('y'),
        0x2C => Some('z'),
        _ => None,
    }
}

fn decode_symbol_pair(code: u8) -> (r: Option<(char, char)>)
    ensures
        r == symbol_pair_of(code),
{
    match code {
        0x02 => Some(('1', '!')),
        0x03 => Some(('2', '@')),
        0x04 => Some(('3', '#')),
        0x05 => Some(('4', '$')),
        0x06 => Some(('5', '%')),
        0x07 => Some(('6', '^')),
        0x08 => Some(('7', '&')),
        0x09 => Some(('8', '*')),
        0x0A => Some(('9', '(')),
        0x0B => Some(('0', ')')),
        0x39 => Some((' ', ' ')),
        0x0C => Some(('-', '_')),
        0x0D => Some(('=', '+')),
        0x1A => Some(('[', '{')),
        0x1B => Some((']', '}')),
        0x27 => Some((';', ':')),
        0x28 => Some(('\'', '"')),
        0x29 => Some(('`', '~')),
        0x2B => Some(('\\', '|')),
        0x33 => Some((',', '<')),
        0x34 => Some(('.', '>')),
        0x35 => Some(('/', '?')),
        _ => None,
    }
}

} // verus!
