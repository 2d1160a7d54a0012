use jingos::monitor::MONITOR_READY_MARKER;
use jingos::script::{
    normalize_raw_script_bytes, parse_serial_script, ready_marker_wait_ms, strip_inline_comment, ReadyMarkerScanner,
    ScriptError, SerialScriptAction, SleepDirective, DEFAULT_SERIAL_SCRIPT_DELAY_MS,
};

fn send(text: &str) -> SerialScriptAction {
    let mut bytes = text.as_bytes().to_vec();
    bytes.push(b'\r');
    SerialScriptAction::Send(bytes)
}

#[test]
fn script_lines_become_actions() {
    let script = "# demo script\nhelp\n\n  status   # show status\nsleep 250\nsleep_ms 10\nsleep_s 2\r\necho a#b\n";
    let actions = parse_serial_script(script.as_bytes().to_vec()).unwrap();
    assert_eq!(
        actions,
        vec![
            send("help"),
            send("status"),
            SerialScriptAction::SleepMs(250),
            SerialScriptAction::SleepMs(10),
            SerialScriptAction::SleepMs(2000),
            send("echo a#b"),
        ]
    );
}

#[test]
fn sleep_values_are_trimmed_and_saturate() {
    let actions = parse_serial_script(b"sleep    7  \nsleep_s 18446744073709551615".to_vec()).unwrap();
    assert_eq!(actions, vec![SerialScriptAction::SleepMs(7), SerialScriptAction::SleepMs(u64::MAX)]);
}

#[test]
fn bad_sleep_value_reports_its_line() {
    let err = parse_serial_script(b"help\n\nsleep_ms soon\nexit\n".to_vec()).unwrap_err();
    assert_eq!(
        err,
        ScriptError::InvalidSleep { line_number: 3, directive: SleepDirective::SleepMs, value: "soon".to_string() }
    );
    let err = parse_serial_script(b"sleep -1".to_vec()).unwrap_err();
    assert_eq!(err, ScriptError::InvalidSleep { line_number: 1, directive: SleepDirective::Sleep, value: "-1".to_string() });
    assert_eq!(SleepDirective::Sleep.name(), "sleep");
    assert_eq!(SleepDirective::SleepMs.name(), "sleep_ms");
    assert_eq!(SleepDirective::SleepS.name(), "sleep_s");
}

#[test]
fn script_without_actions_is_refused() {
    assert_eq!(parse_serial_script(b"# only a comment\n\n   \n".to_vec()), Err(ScriptError::NoActions));
    assert_eq!(parse_serial_script(Vec::new()), Err(ScriptError::NoActions));
    assert_eq!(parse_serial_script(b" # inline only".to_vec()), Err(ScriptError::NoActions));
}

#[test]
fn directive_needs_its_space() {
    let actions = parse_serial_script(b"sleep\nsleeping 5\nsleep_x 3".to_vec()).unwrap();
    assert_eq!(actions, vec![send("sleep"), send("sleeping 5"), send("sleep_x 3")]);
}

#[test]
fn non_utf8_script_is_sent_raw() {
    let raw = vec![0xff, b'a', b'\n', b'b', b'\n'];
    assert_eq!(
        parse_serial_script(raw).unwrap(),
        vec![SerialScriptAction::Send(vec![0xff, b'a', b'\r', b'b', b'\r'])]
    );
    let raw = vec![0xfe, b'\r', b'\n'];
    assert_eq!(parse_serial_script(raw.clone()).unwrap(), vec![SerialScriptAction::Send(raw)]);
}

#[test]
fn unicode_text_lines_are_kept() {
    let actions = parse_serial_script("\u{3000}echo 你好\u{3000}\n".as_bytes().to_vec()).unwrap();
    assert_eq!(actions, vec![send("echo 你好")]);
}

#[test]
fn inline_comments() {
    assert_eq!(strip_inline_comment("status # now"), "status");
    assert_eq!(strip_inline_comment("# all comment"), "");
    assert_eq!(strip_inline_comment("a#b"), "a#b");
    assert_eq!(strip_inline_comment("a#b\t# c"), "a#b");
    assert_eq!(strip_inline_comment("plain"), "plain");
}

#[test]
fn raw_bytes_normalization() {
    assert_eq!(normalize_raw_script_bytes(b"a\nb\n".to_vec()), b"a\rb\r".to_vec());
    assert_eq!(normalize_raw_script_bytes(b"a\r\nb\n".to_vec()), b"a\r\nb\n".to_vec());
    assert_eq!(normalize_raw_script_bytes(Vec::new()), Vec::<u8>::new());
}

#[test]
fn ready_marker_is_found_across_chunks() {
    let mut scanner = ReadyMarkerScanner::new(MONITOR_READY_MARKER.as_bytes());
    let output = b"boot...\n[[JINGOS_MONITOR_READY]]\njingos> ";
    let mut found_at = None;
    for (index, byte) in output.iter().enumerate() {
        if scanner.feed(*byte) {
            found_at = Some(index);
            break;
        }
    }
    assert_eq!(found_at, Some(8 + MONITOR_READY_MARKER.len() - 1));
}

#[test]
fn partial_marker_is_not_enough() {
    let mut scanner = ReadyMarkerScanner::new(b"[[OK]]");
    for byte in b"[[OK][[OK" {
        assert!(!scanner.feed(*byte));
    }
    assert!(!scanner.feed(b']'));
    assert!(scanner.feed(b']'));
    assert!(!scanner.feed(b'x'));
}

#[test]
fn ready_marker_wait_is_five_times_the_delay() {
    assert_eq!(ready_marker_wait_ms(DEFAULT_SERIAL_SCRIPT_DELAY_MS), 30_000);
    assert_eq!(ready_marker_wait_ms(9000), 45_000);
    assert_eq!(ready_marker_wait_ms(u64::MAX / 4), u64::MAX);
}
