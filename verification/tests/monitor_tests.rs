use jingos::command::{parse_command, AddressArg, MonitorCommand};
use jingos::keyboard::KeyEvent;
use jingos::line::InputLine;
use jingos::monitor::{
    command_names, complete_command, maps_listing, qemu_process_exit_code, serial_byte_to_key_event, uptime_parts,
    Completion, InputWindow, KeyOutcome, MapsListing, MonitorInput, QemuExitCode, COMMAND_COUNT, INPUT_WINDOW_TICKS,
};
use jingos::number::{parse_decimal, parse_u64};
use jingos::task::TaskKind;

fn line_of(text: &str) -> InputLine {
    let mut line = InputLine::new();
    assert!(line.set_from_str(text));
    line
}

fn type_text(input: &mut MonitorInput, text: &str) {
    for c in text.chars() {
        assert_eq!(input.handle_key_event(KeyEvent::Char(c)), KeyOutcome::Redraw);
    }
}

#[test]
fn qemu_exit_codes() {
    assert_eq!(QemuExitCode::Success.code(), 0x10);
    assert_eq!(QemuExitCode::Failed.code(), 0x11);
    assert_eq!(qemu_process_exit_code(0x10), 0);
    assert_eq!(qemu_process_exit_code(0x21), 0);
    assert_eq!(qemu_process_exit_code(0x11), 1);
    assert_eq!(qemu_process_exit_code(0x23), 1);
    assert_eq!(qemu_process_exit_code(0), 2);
    assert_eq!(qemu_process_exit_code(-1), 2);
}

#[test]
fn serial_bytes_become_keys() {
    assert_eq!(serial_byte_to_key_event(b'\r'), Some(KeyEvent::Enter));
    assert_eq!(serial_byte_to_key_event(b'\n'), Some(KeyEvent::Enter));
    assert_eq!(serial_byte_to_key_event(0x08), Some(KeyEvent::Backspace));
    assert_eq!(serial_byte_to_key_event(0x7F), Some(KeyEvent::Backspace));
    assert_eq!(serial_byte_to_key_event(b'\t'), Some(KeyEvent::Tab));
    assert_eq!(serial_byte_to_key_event(0x1B), Some(KeyEvent::Escape));
    assert_eq!(serial_byte_to_key_event(b'a'), Some(KeyEvent::Char('a')));
    assert_eq!(serial_byte_to_key_event(b'~'), Some(KeyEvent::Char('~')));
    assert_eq!(serial_byte_to_key_event(0x01), None);
    assert_eq!(serial_byte_to_key_event(0x80), None);
}

#[test]
fn command_names_are_listed_in_order() {
    let names = command_names();
    assert_eq!(names.len(), COMMAND_COUNT);
    assert_eq!(names[0], "help");
    assert_eq!(names[26], "quit");
}

#[test]
fn completion_cases() {
    let mut line = line_of("sta");
    assert_eq!(complete_command(&mut line), Completion::Extended);
    assert_eq!(line.as_str(), "status");
    assert_eq!(line.cursor(), 6);

    let mut line = line_of("status");
    assert_eq!(complete_command(&mut line), Completion::Exact);

    let mut line = line_of("task");
    assert_eq!(
        complete_command(&mut line),
        Completion::Ambiguous(vec!["tasks", "tasknew", "taskstep", "taskrun", "tasksleep"])
    );
    assert_eq!(line.as_str(), "task");

    let mut line = line_of("zzz");
    assert_eq!(complete_command(&mut line), Completion::NoMatch);

    let mut line = line_of("echo he");
    assert_eq!(complete_command(&mut line), Completion::Skipped);

    let mut line = line_of("he");
    line.move_left();
    assert_eq!(complete_command(&mut line), Completion::Skipped);
    assert_eq!(line.as_str(), "he");

    let mut line = InputLine::new();
    assert!(matches!(complete_command(&mut line), Completion::Ambiguous(names) if names.len() == COMMAND_COUNT));
}

#[test]
fn keys_edit_the_line_and_submit_records_history() {
    let mut input = MonitorInput::new();
    type_text(&mut input, "helo");
    assert_eq!(input.handle_key_event(KeyEvent::ArrowLeft), KeyOutcome::Redraw);
    type_text(&mut input, "l");
    assert_eq!(input.line.as_str(), "hello");
    assert_eq!(input.handle_key_event(KeyEvent::Home), KeyOutcome::Redraw);
    assert_eq!(input.handle_key_event(KeyEvent::Home), KeyOutcome::Nothing);
    assert_eq!(input.handle_key_event(KeyEvent::Delete), KeyOutcome::Redraw);
    assert_eq!(input.handle_key_event(KeyEvent::Backspace), KeyOutcome::Nothing);
    assert_eq!(input.handle_key_event(KeyEvent::End), KeyOutcome::Redraw);
    assert_eq!(input.line.as_str(), "ello");
    assert_eq!(input.handle_key_event(KeyEvent::Enter), KeyOutcome::Submit);
    assert_eq!(input.history.len(), 1);
    input.finish_command();
    assert!(input.line.is_empty());
    assert_eq!(input.handle_key_event(KeyEvent::ArrowUp), KeyOutcome::Redraw);
    assert_eq!(input.line.as_str(), "ello");
    assert_eq!(input.handle_key_event(KeyEvent::ArrowDown), KeyOutcome::Redraw);
    assert!(input.line.is_empty());
}

#[test]
fn insert_toggles_overwrite_and_other_keys_echo() {
    let mut input = MonitorInput::new();
    type_text(&mut input, "abc");
    input.handle_key_event(KeyEvent::Home);
    assert_eq!(input.handle_key_event(KeyEvent::Insert), KeyOutcome::EditModeChanged);
    assert!(input.overwrite_mode);
    type_text(&mut input, "x");
    assert_eq!(input.line.as_str(), "xbc");
    assert_eq!(input.handle_key_event(KeyEvent::Function(3)), KeyOutcome::Echo);
    assert_eq!(input.handle_key_event(KeyEvent::Ctrl('c')), KeyOutcome::Echo);
    assert_eq!(input.handle_key_event(KeyEvent::PageUp), KeyOutcome::Echo);
    assert_eq!(input.handle_key_event(KeyEvent::Unknown(0x59)), KeyOutcome::Echo);
    assert_eq!(input.handle_key_event(KeyEvent::Char('é')), KeyOutcome::LineFull);
    assert_eq!(input.handle_key_event(KeyEvent::Escape), KeyOutcome::Exit);
}

#[test]
fn word_keys_and_tab() {
    let mut input = MonitorInput::new();
    type_text(&mut input, "echo one two");
    assert_eq!(input.handle_key_event(KeyEvent::WordDeleteLeft), KeyOutcome::Redraw);
    assert_eq!(input.line.as_str(), "echo one ");
    assert_eq!(input.handle_key_event(KeyEvent::WordLeft), KeyOutcome::Redraw);
    assert_eq!(input.line.cursor(), 5);
    assert_eq!(input.handle_key_event(KeyEvent::WordDeleteRight), KeyOutcome::Redraw);
    assert_eq!(input.line.as_str(), "echo  ");
    assert_eq!(input.handle_key_event(KeyEvent::WordRight), KeyOutcome::Redraw);

    let mut input = MonitorInput::new();
    type_text(&mut input, "uptim");
    assert_eq!(input.handle_key_event(KeyEvent::Tab), KeyOutcome::Completed(Completion::Extended));
    assert_eq!(input.line.as_str(), "uptime");
}

#[test]
fn history_browsing_with_arrows() {
    let mut input = MonitorInput::new();
    for command in ["one", "two", "three"] {
        type_text(&mut input, command);
        input.handle_key_event(KeyEvent::Enter);
        input.finish_command();
    }
    assert_eq!(input.handle_key_event(KeyEvent::ArrowUp), KeyOutcome::Redraw);
    assert_eq!(input.line.as_str(), "three");
    input.handle_key_event(KeyEvent::ArrowUp);
    input.handle_key_event(KeyEvent::ArrowUp);
    input.handle_key_event(KeyEvent::ArrowUp);
    assert_eq!(input.line.as_str(), "one");
    input.handle_key_event(KeyEvent::ArrowDown);
    assert_eq!(input.line.as_str(), "two");
    type_text(&mut input, "!");
    assert_eq!(input.handle_key_event(KeyEvent::ArrowDown), KeyOutcome::Redraw);
    assert!(input.line.is_empty());
    let mut fresh = MonitorInput::new();
    assert_eq!(fresh.handle_key_event(KeyEvent::ArrowUp), KeyOutcome::Nothing);
}

#[test]
fn parse_simple_commands() {
    assert_eq!(parse_command(&line_of("")), MonitorCommand::Empty);
    assert_eq!(parse_command(&line_of("   ")), MonitorCommand::Empty);
    assert_eq!(parse_command(&line_of("help")), MonitorCommand::Help);
    assert_eq!(parse_command(&line_of("  status  ")), MonitorCommand::Status);
    assert_eq!(parse_command(&line_of("ticks")), MonitorCommand::Ticks);
    assert_eq!(parse_command(&line_of("uptime")), MonitorCommand::Uptime);
    assert_eq!(parse_command(&line_of("irq")), MonitorCommand::Irq);
    assert_eq!(parse_command(&line_of("mem")), MonitorCommand::Mem);
    assert_eq!(parse_command(&line_of("heap")), MonitorCommand::Heap);
    assert_eq!(parse_command(&line_of("sysabi")), MonitorCommand::SysAbi);
    assert_eq!(parse_command(&line_of("tasks")), MonitorCommand::Tasks);
    assert_eq!(parse_command(&line_of("taskstep")), MonitorCommand::TaskStep);
    assert_eq!(parse_command(&line_of("userdemo")), MonitorCommand::UserDemo);
    assert_eq!(parse_command(&line_of("usermode")), MonitorCommand::UserMode);
    assert_eq!(parse_command(&line_of("usermode_syscall")), MonitorCommand::UserModeSyscall);
    assert_eq!(parse_command(&line_of("usermode_syscall_fail")), MonitorCommand::UserModeSyscallFail);
    assert_eq!(parse_command(&line_of("history")), MonitorCommand::History);
    assert_eq!(parse_command(&line_of("clear")), MonitorCommand::Clear);
    assert_eq!(parse_command(&line_of("exit")), MonitorCommand::Exit);
    assert_eq!(parse_command(&line_of("quit")), MonitorCommand::Exit);
    assert_eq!(parse_command(&line_of("HELP")), MonitorCommand::Unknown("HELP"));
}

#[test]
fn parse_commands_with_arguments() {
    assert_eq!(parse_command(&line_of("maps")), MonitorCommand::Maps { limit: Some(12) });
    assert_eq!(parse_command(&line_of("maps all")), MonitorCommand::Maps { limit: None });
    assert_eq!(parse_command(&line_of("maps 0x10")), MonitorCommand::Maps { limit: Some(16) });
    assert_eq!(parse_command(&line_of("maps many")), MonitorCommand::InvalidMapsLimit("many"));
    assert_eq!(parse_command(&line_of("vm")), MonitorCommand::Vm(AddressArg::Default));
    assert_eq!(parse_command(&line_of("vm 0x1000")), MonitorCommand::Vm(AddressArg::Address(0x1000)));
    assert_eq!(parse_command(&line_of("vmmap zz")), MonitorCommand::Vmmap(AddressArg::Invalid("zz")));
    assert_eq!(parse_command(&line_of("fault")), MonitorCommand::Fault { address: 0xDEAD_BEEF });
    assert_eq!(parse_command(&line_of("fault 4096")), MonitorCommand::Fault { address: 4096 });
    assert_eq!(parse_command(&line_of("fault x")), MonitorCommand::InvalidFaultAddress("x"));
    assert_eq!(parse_command(&line_of("syscall")), MonitorCommand::SyscallUsage);
    assert_eq!(parse_command(&line_of("syscall two")), MonitorCommand::InvalidSyscallNumber("two"));
    assert_eq!(
        parse_command(&line_of("syscall 2 40 2")),
        MonitorCommand::Syscall { number: 2, arg0: 40, arg1: 2, arg2: 0 }
    );
    assert_eq!(
        parse_command(&line_of("syscall 2 1 q")),
        MonitorCommand::InvalidSyscallArg { index: 1, text: "q" }
    );
    assert_eq!(parse_command(&line_of("tasknew")), MonitorCommand::TaskNew(TaskKind::UserDemo));
    assert_eq!(parse_command(&line_of("tasknew fastfail")), MonitorCommand::TaskNew(TaskKind::FastSyscallError));
    assert_eq!(parse_command(&line_of("tasknew bogus")), MonitorCommand::TaskNewUsage("bogus"));
    assert_eq!(parse_command(&line_of("taskrun")), MonitorCommand::TaskRun { steps: 4 });
    assert_eq!(parse_command(&line_of("taskrun 1000")), MonitorCommand::TaskRun { steps: 256 });
    assert_eq!(parse_command(&line_of("taskrun 0")), MonitorCommand::TaskRunZero);
    assert_eq!(parse_command(&line_of("taskrun x")), MonitorCommand::TaskRunUsage("x"));
    assert_eq!(parse_command(&line_of("tasksleep")), MonitorCommand::TaskSleepUsage);
    assert_eq!(parse_command(&line_of("tasksleep 2")), MonitorCommand::TaskSleep { id: 2, ticks: 100 });
    assert_eq!(parse_command(&line_of("tasksleep 2 30")), MonitorCommand::TaskSleep { id: 2, ticks: 30 });
    assert_eq!(parse_command(&line_of("tasksleep 2 0")), MonitorCommand::TaskSleepZero);
    assert_eq!(parse_command(&line_of("tasksleep a")), MonitorCommand::TaskSleepBadId("a"));
    assert_eq!(parse_command(&line_of("tasksleep 2 b")), MonitorCommand::TaskSleepBadTicks("b"));
    assert_eq!(parse_command(&line_of("echo   hello  world")), MonitorCommand::Echo("hello  world"));
    assert_eq!(parse_command(&line_of("echo")), MonitorCommand::Echo(""));
}

#[test]
fn numbers_in_decimal_and_hex() {
    assert_eq!(parse_u64("42"), Some(42));
    assert_eq!(parse_u64("+7"), Some(7));
    assert_eq!(parse_u64("0x1F"), Some(31));
    assert_eq!(parse_u64("0Xff"), Some(255));
    assert_eq!(parse_u64("0x"), None);
    assert_eq!(parse_u64(""), None);
    assert_eq!(parse_u64("12a"), None);
    assert_eq!(parse_u64("-1"), None);
    assert_eq!(parse_u64("18446744073709551615"), Some(u64::MAX));
    assert_eq!(parse_u64("18446744073709551616"), None);
    assert_eq!(parse_u64("0xffffffffffffffff"), Some(u64::MAX));
    assert_eq!(parse_u64("0x10000000000000000"), None);
    assert_eq!(parse_decimal("9000"), Some(9000));
    assert_eq!(parse_decimal("0x10"), None);
    assert_eq!(parse_decimal(" 1"), None);
}

#[test]
fn keys_extend_the_input_window() {
    let mut window = InputWindow::open(100);
    assert_eq!(window.deadline, 100 + INPUT_WINDOW_TICKS);
    assert!(!window.expired(899));
    assert!(window.expired(900));
    window.key_decoded(850);
    assert_eq!(window.decoded_events, 1);
    assert!(!window.expired(1649));
    assert!(window.expired(1650));
    let late = InputWindow::open(u64::MAX - 10);
    assert_eq!(late.deadline, u64::MAX);
}

#[test]
fn uptime_splits_ticks_into_seconds_and_hundredths() {
    assert_eq!(uptime_parts(0), (0, 0));
    assert_eq!(uptime_parts(1234), (12, 34));
    assert_eq!(uptime_parts(99), (0, 99));
    assert_eq!(uptime_parts(100), (1, 0));
}

#[test]
fn maps_listing_shows_at_most_the_limit() {
    assert_eq!(maps_listing(Some(12), 20), MapsListing { shown: 12, hidden: 8 });
    assert_eq!(maps_listing(Some(12), 5), MapsListing { shown: 5, hidden: 0 });
    assert_eq!(maps_listing(None, 20), MapsListing { shown: 20, hidden: 0 });
    assert_eq!(maps_listing(Some(0), 3), MapsListing { shown: 0, hidden: 3 });
}
