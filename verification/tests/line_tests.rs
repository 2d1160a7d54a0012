use jingos::history::{CommandHistory, HISTORY_CAPACITY};
use jingos::line::{is_ascii_whitespace, InputLine, INPUT_LINE_MAX};

fn line_of(text: &str) -> InputLine {
    let mut line = InputLine::new();
    assert!(line.set_from_str(text));
    line
}

#[test]
fn insert_and_edit_at_cursor() {
    let mut line = InputLine::new();
    assert!(line.is_empty());
    assert!(line.insert_char('a'));
    assert!(line.insert_char('c'));
    assert!(line.move_left());
    assert!(line.insert_char('b'));
    assert_eq!(line.as_str(), "abc");
    assert_eq!(line.cursor(), 2);
    assert_eq!(line.as_prefix_str(), "ab");
    assert!(!line.insert_char('é'));
    assert_eq!(line.len(), 3);
    assert!(line.backspace());
    assert_eq!(line.as_str(), "ac");
    assert!(line.delete());
    assert_eq!(line.as_str(), "a");
    assert!(!line.delete());
    assert!(line.is_cursor_at_end());
}

#[test]
fn overwrite_mode_replaces_until_end() {
    let mut line = line_of("abc");
    assert!(line.move_home());
    assert!(line.insert_or_overwrite_char('x', true));
    assert_eq!(line.as_str(), "xbc");
    assert!(line.move_end());
    assert!(line.insert_or_overwrite_char('d', true));
    assert_eq!(line.as_str(), "xbcd");
    assert!(!line.insert_or_overwrite_char('\u{263A}', false));
}

#[test]
fn line_is_bounded() {
    let mut line = InputLine::new();
    for _ in 0..INPUT_LINE_MAX {
        assert!(line.insert_char('x'));
    }
    assert!(!line.insert_char('y'));
    assert_eq!(line.len(), INPUT_LINE_MAX);
    let long = "y".repeat(INPUT_LINE_MAX + 1);
    let mut other = InputLine::new();
    assert!(!other.set_from_str(&long));
    assert!(!other.set_from_str("héllo"));
    assert!(other.is_empty());
}

#[test]
fn append_inserts_at_cursor() {
    let mut line = line_of("help");
    assert!(line.move_home());
    assert!(line.append_str("x "));
    assert_eq!(line.as_str(), "x help");
    assert_eq!(line.cursor(), 2);
    assert!(!line.append_str("ü"));
    assert!(line.move_end());
    assert!(line.append_bytes(b" me"));
    assert_eq!(line.as_str(), "x help me");
}

#[test]
fn cursor_moves_report_change() {
    let mut line = line_of("ab");
    assert!(!line.move_right());
    assert!(!line.move_end());
    assert!(line.move_left());
    assert!(line.move_right());
    assert!(line.move_home());
    assert!(!line.move_home());
    assert!(!line.move_left());
    assert!(!line.backspace());
}

#[test]
fn word_motion_and_deletion() {
    let mut line = line_of("echo hello_world  foo");
    assert!(line.move_word_left());
    assert_eq!(line.cursor(), 18);
    assert!(line.move_word_left());
    assert_eq!(line.cursor(), 5);
    assert!(line.move_word_right());
    assert_eq!(line.cursor(), 16);
    assert!(line.delete_word_right());
    assert_eq!(line.as_str(), "echo hello_world");
    assert!(line.delete_word_left());
    assert_eq!(line.as_str(), "echo ");
    assert_eq!(line.cursor(), 5);
    assert!(!line.delete_word_right());
}

#[test]
fn word_motion_over_punctuation() {
    let mut line = line_of("a--b");
    assert!(line.move_word_left());
    assert_eq!(line.cursor(), 3);
    assert!(line.move_word_left());
    assert_eq!(line.cursor(), 1);
    assert!(line.move_word_left());
    assert_eq!(line.cursor(), 0);
    assert!(!line.move_word_left());
    assert!(line.move_word_right());
    assert_eq!(line.cursor(), 1);
    assert!(line.move_word_right());
    assert_eq!(line.cursor(), 3);
}

#[test]
fn word_bytes_and_whitespace() {
    assert!(InputLine::is_word_byte(b'a'));
    assert!(InputLine::is_word_byte(b'Z'));
    assert!(InputLine::is_word_byte(b'7'));
    assert!(InputLine::is_word_byte(b'_'));
    assert!(!InputLine::is_word_byte(b'-'));
    assert!(is_ascii_whitespace(b' '));
    assert!(is_ascii_whitespace(b'\t'));
    assert!(is_ascii_whitespace(0x0C));
    assert!(!is_ascii_whitespace(0x0B));
}

#[test]
fn clear_empties_the_line() {
    let mut line = line_of("status");
    line.clear();
    assert!(line.is_empty());
    assert_eq!(line.cursor(), 0);
    assert_eq!(line.as_str(), "");
}

#[test]
fn history_keeps_newest_first_and_skips_repeats() {
    let mut history = CommandHistory::new();
    history.push_line(&InputLine::new());
    assert_eq!(history.len(), 0);
    history.push_line(&line_of("help"));
    history.push_line(&line_of("status"));
    history.push_line(&line_of("status"));
    assert_eq!(history.len(), 2);
    assert_eq!(history.entry_by_age(0).map(|e| e.as_str()), Some("status"));
    assert_eq!(history.entry_by_age(1).map(|e| e.as_str()), Some("help"));
    assert!(history.entry_by_age(2).is_none());
}

#[test]
fn history_browsing_stops_at_ends() {
    let mut history = CommandHistory::new();
    assert!(history.previous().is_none());
    history.push_line(&line_of("one"));
    history.push_line(&line_of("two"));
    assert_eq!(history.previous().map(|e| e.as_str().to_string()), Some("two".to_string()));
    assert_eq!(history.previous().map(|e| e.as_str().to_string()), Some("one".to_string()));
    assert_eq!(history.previous().map(|e| e.as_str().to_string()), Some("one".to_string()));
    assert_eq!(history.next().map(|e| e.as_str().to_string()), Some("two".to_string()));
    assert!(history.next().is_none());
    assert!(history.next().is_none());
    history.previous();
    history.reset_browsing();
    assert_eq!(history.previous().map(|e| e.as_bytes().to_vec()), Some(b"two".to_vec()));
}

#[test]
fn history_holds_at_most_sixteen() {
    let mut history = CommandHistory::new();
    for index in 0..20 {
        history.push_line(&line_of(&format!("cmd{index}")));
    }
    assert_eq!(history.len(), HISTORY_CAPACITY);
    assert_eq!(history.entry_by_age(0).map(|e| e.as_str()), Some("cmd19"));
    assert_eq!(history.entry_by_age(15).map(|e| e.as_str()), Some("cmd4"));
}

#[test]
fn history_lists_oldest_first() {
    let mut history = CommandHistory::new();
    assert!(history.entry_oldest_first(0).is_none());
    history.push_line(&line_of("help"));
    history.push_line(&line_of("status"));
    history.push_line(&line_of("ticks"));
    let listed: Vec<String> = (0..history.len())
        .map(|position| history.entry_oldest_first(position).unwrap().as_str().to_string())
        .collect();
    assert_eq!(listed, vec!["help", "status", "ticks"]);
    assert!(history.entry_oldest_first(3).is_none());
}

#[test]
fn history_browsing_never_passes_the_oldest_line() {
    let mut history = CommandHistory::new();
    for index in 0..20 {
        history.push_line(&line_of(&format!("cmd{index}")));
    }
    for _ in 0..40 {
        assert!(history.previous().is_some());
    }
    assert_eq!(history.previous().map(|e| e.as_str().to_string()), Some("cmd4".to_string()));
    for _ in 0..15 {
        assert!(history.next().is_some());
    }
    assert!(history.next().is_none());
}
