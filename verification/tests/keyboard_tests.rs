use jingos::keyboard::{decode_letter, KeyEvent, KeyboardDecoder};

#[test]
fn letter_press_gives_lowercase_char() {
    let mut decoder = KeyboardDecoder::new();
    assert_eq!(decoder.feed(0x1E), Some(KeyEvent::Char('a')));
    assert_eq!(decoder.feed(0x9E), None);
}

#[test]
fn shift_gives_uppercase_and_symbols() {
    let mut decoder = KeyboardDecoder::new();
    assert_eq!(decoder.feed(0x2A), None);
    assert_eq!(decoder.feed(0x1E), Some(KeyEvent::Char('A')));
    assert_eq!(decoder.feed(0x02), Some(KeyEvent::Char('!')));
    assert_eq!(decoder.feed(0xAA), None);
    assert_eq!(decoder.feed(0x02), Some(KeyEvent::Char('1')));
}

#[test]
fn caps_lock_toggles_on_press_only() {
    let mut decoder = KeyboardDecoder::new();
    assert_eq!(decoder.feed(0x3A), None);
    assert_eq!(decoder.feed(0xBA), None);
    assert_eq!(decoder.feed(0x10), Some(KeyEvent::Char('Q')));
    // shift with caps lock gives lower case again
    decoder.feed(0x36);
    assert_eq!(decoder.feed(0x10), Some(KeyEvent::Char('q')));
    // caps lock does not change digits
    assert_eq!(decoder.feed(0x03), Some(KeyEvent::Char('@')));
    decoder.feed(0xB6);
    assert_eq!(decoder.feed(0x03), Some(KeyEvent::Char('2')));
    // pressing caps lock twice leaves letters lower case
    decoder.feed(0x3A);
    assert_eq!(decoder.feed(0x10), Some(KeyEvent::Char('q')));
    decoder.feed(0x3A);
    decoder.feed(0x3A);
    assert_eq!(decoder.feed(0x10), Some(KeyEvent::Char('q')));
}

#[test]
fn ctrl_and_alt_classify_characters() {
    let mut decoder = KeyboardDecoder::new();
    decoder.feed(0x1D);
    assert_eq!(decoder.feed(0x2E), Some(KeyEvent::Ctrl('c')));
    decoder.feed(0x38);
    assert_eq!(decoder.feed(0x2E), Some(KeyEvent::CtrlAlt('c')));
    decoder.feed(0x9D);
    assert_eq!(decoder.feed(0x2E), Some(KeyEvent::Alt('c')));
    decoder.feed(0xB8);
    assert_eq!(decoder.feed(0x2E), Some(KeyEvent::Char('c')));
}

#[test]
fn special_keys_and_function_keys() {
    let mut decoder = KeyboardDecoder::new();
    assert_eq!(decoder.feed(0x1C), Some(KeyEvent::Enter));
    assert_eq!(decoder.feed(0x0E), Some(KeyEvent::Backspace));
    assert_eq!(decoder.feed(0x0F), Some(KeyEvent::Tab));
    assert_eq!(decoder.feed(0x01), Some(KeyEvent::Escape));
    assert_eq!(decoder.feed(0x3B), Some(KeyEvent::Function(1)));
    assert_eq!(decoder.feed(0x44), Some(KeyEvent::Function(10)));
    assert_eq!(decoder.feed(0x57), Some(KeyEvent::Function(11)));
    assert_eq!(decoder.feed(0x58), Some(KeyEvent::Function(12)));
    assert_eq!(decoder.feed(0x39), Some(KeyEvent::Char(' ')));
    assert_eq!(decoder.feed(0x59), Some(KeyEvent::Unknown(0x59)));
    decoder.feed(0x1D);
    assert_eq!(decoder.feed(0x0E), Some(KeyEvent::WordDeleteLeft));
}

#[test]
fn extended_keys_decode_with_prefix() {
    let mut decoder = KeyboardDecoder::new();
    assert_eq!(decoder.feed(0xE0), None);
    assert_eq!(decoder.feed(0x48), Some(KeyEvent::ArrowUp));
    decoder.feed(0xE0);
    assert_eq!(decoder.feed(0x50), Some(KeyEvent::ArrowDown));
    decoder.feed(0xE0);
    assert_eq!(decoder.feed(0x4B), Some(KeyEvent::ArrowLeft));
    decoder.feed(0xE0);
    assert_eq!(decoder.feed(0x4D), Some(KeyEvent::ArrowRight));
    decoder.feed(0xE0);
    assert_eq!(decoder.feed(0x47), Some(KeyEvent::Home));
    decoder.feed(0xE0);
    assert_eq!(decoder.feed(0x4F), Some(KeyEvent::End));
    decoder.feed(0xE0);
    assert_eq!(decoder.feed(0x52), Some(KeyEvent::Insert));
    decoder.feed(0xE0);
    assert_eq!(decoder.feed(0x53), Some(KeyEvent::Delete));
    decoder.feed(0xE0);
    assert_eq!(decoder.feed(0x49), Some(KeyEvent::PageUp));
    decoder.feed(0xE0);
    assert_eq!(decoder.feed(0x51), Some(KeyEvent::PageDown));
    decoder.feed(0xE0);
    assert_eq!(decoder.feed(0x60), Some(KeyEvent::Unknown(0x60)));
    decoder.feed(0xE0);
    assert_eq!(decoder.feed(0xC8), None);
    // right ctrl is an extended key
    decoder.feed(0xE0);
    assert_eq!(decoder.feed(0x1D), None);
    decoder.feed(0xE0);
    assert_eq!(decoder.feed(0x4B), Some(KeyEvent::WordLeft));
    decoder.feed(0xE0);
    assert_eq!(decoder.feed(0x4D), Some(KeyEvent::WordRight));
    decoder.feed(0xE0);
    assert_eq!(decoder.feed(0x53), Some(KeyEvent::WordDeleteRight));
    decoder.feed(0xE0);
    decoder.feed(0x9D);
    decoder.feed(0xE0);
    assert_eq!(decoder.feed(0x4B), Some(KeyEvent::ArrowLeft));
}

#[test]
fn release_of_any_key_gives_no_event() {
    let mut decoder = KeyboardDecoder::new();
    for code in 0x80u16..0x100 {
        let code = code as u8;
        if code == 0xE0 {
            continue;
        }
        assert_eq!(decoder.feed(code), None);
    }
}

#[test]
fn symbols_with_and_without_shift() {
    let mut decoder = KeyboardDecoder::new();
    let pairs: [(u8, char, char); 6] =
        [(0x0C, '-', '_'), (0x0D, '=', '+'), (0x28, '\'', '"'), (0x2B, '\\', '|'), (0x35, '/', '?'), (0x29, '`', '~')];
    for (code, normal, shifted) in pairs {
        assert_eq!(decoder.feed(code), Some(KeyEvent::Char(normal)));
        decoder.feed(0x2A);
        assert_eq!(decoder.feed(code), Some(KeyEvent::Char(shifted)));
        decoder.feed(0xAA);
    }
}

#[test]
fn letter_codes_map_one_to_one_onto_a_to_z() {
    assert_eq!(decode_letter(0x1E), Some('a'));
    assert_eq!(decode_letter(0x2C), Some('z'));
    assert_eq!(decode_letter(0x02), None);
    let mut letters: Vec<char> = (0..=255u8).filter_map(decode_letter).collect();
    assert_eq!(letters.len(), 26);
    letters.sort();
    let expected: Vec<char> = ('a'..='z').collect();
    assert_eq!(letters, expected);
}
