//! The monitor's input side: serial bytes to key events, command completion and the
//! editing decisions for each key, plus the QEMU exit codes.

use vstd::prelude::*;
use vstd::string::StringSliceAdditionalSpecFns;
use crate::keyboard::KeyEvent;
use crate::line::{InputLine, LineView, all_ascii, word_boundary_left, word_boundary_right, INPUT_LINE_MAX};
use crate::history::{CommandHistory, pushed};
use crate::syscall::TIMER_HZ;
use crate::command::{command_for, tokens_from, lit, lemma_ascii_literal_bytes, lemma_single_word, is_ws, CommandSpec};

verus! {

/// Exit codes understood by QEMU's `isa-debug-exit` device.
#[derive(Debug, Clone, Copy, PartialEq, Eq, Structural)]
pub enum QemuExitCode {
    Success,
    Failed,
}

impl QemuExitCode {
    /// The value written to the exit port.
    pub fn code(self) -> (r: u32)
        ensures
            r == match self {
                QemuExitCode::Success => 0x10u32,
                QemuExitCode::Failed => 0x11u32,
            },
    {
        match self {
            QemuExitCode::Success => 0x10,
            QemuExitCode::Failed => 0x11,
        }
    }
}

/// The host process status for QEMU's exit status: the kernel's success code (also
/// as QEMU reports it, `(0x10 << 1) | 1`) gives 0, its failure code gives 1, anything
/// else 2.
pub fn qemu_process_exit_code(status: i32) -> (r: i32)
    ensures
        r == if status == 0x10 || status == 0x21 { 0i32 } else if status == 0x11 || status == 0x23 { 1i32 } else { 2i32 },
{
    match status {
        0x10 | 0x21 => 0,
        0x11 | 0x23 => 1,
        _ => 2,
    }
}

/// The key event for a byte received on the serial line.
pub fn serial_byte_to_key_event(byte: u8) -> (r: Option<KeyEvent>)
    ensures
        r == if byte == 0x0D || byte == 0x0A {
            Some(KeyEvent::Enter)
        } else if byte == 0x08 || byte == 0x7F {
            Some(KeyEvent::Backspace)
        } else if byte == 0x09 {
            Some(KeyEvent::Tab)
        } else if byte == 0x1B {
            Some(KeyEvent::Escape)
        } else if 0x20 <= byte <= 0x7E {
            Some(KeyEvent::Char(byte as char))
        } else {
            None
        },
{
    match byte {
        0x0D | 0x0A => Some(KeyEvent::Enter),
        0x08 | 0x7F => Some(KeyEvent::Backspace),
        0x09 => Some(KeyEvent::Tab),
        0x1B => Some(KeyEvent::Escape),
        0x20..=0x7E => Some(KeyEvent::Char(byte as char)),
        _ => None,
    }
}

/// The line the monitor prints when it starts reading commands, which the host
/// runner waits for before it types a script.
pub const MONITOR_READY_MARKER: &'static str = "[[JINGOS_MONITOR_READY]]";

/// Number of monitor commands.
pub const COMMAND_COUNT: usize = 27;

/// The monitor's commands, in the order completion lists them.
pub open spec fn command_list() -> Seq<&'static str> {
    seq![
        "help", "status", "ticks", "uptime", "irq", "mem", "maps", "heap", "vm", "vmmap", "fault",
        "syscall", "sysabi", "tasks", "tasknew", "taskstep", "taskrun", "tasksleep", "userdemo",
        "usermode", "usermode_syscall", "usermode_syscall_fail", "echo", "history", "clear",
        "exit", "quit",
    ]
}

/// The monitor's commands.
pub fn command_names() -> (r: [&'static str; COMMAND_COUNT])
    ensures
        r@ == command_list(),
{
    let r = [
        "help", "status", "ticks", "uptime", "irq", "mem", "maps", "heap", "vm", "vmmap", "fault",
        "syscall", "sysabi", "tasks", "tasknew", "taskstep", "taskrun", "tasksleep", "userdemo",
        "usermode", "usermode_syscall", "usermode_syscall_fail", "echo", "history", "clear",
        "exit", "quit",
    ];
    assert(r@ =~= command_list());
    r
}

proof fn lemma_ascii_literal(s: &str)
    requires
        vstd::string::is_ascii(s),
        s@.len() <= 32,
    ensures
        all_ascii(s.spec_bytes()),
        s.spec_bytes().len() <= 32,
{
    vstd::string::is_ascii_spec_bytes(s);
    vstd::utf8::is_ascii_chars_encode_utf8(s@);
    assert forall|i: int| 0 <= i < s.spec_bytes().len() implies #[trigger] s.spec_bytes()[i] < 128 by {
        assert(s@[i] <= '\u{7f}');
    }
}

/// Every command name is short ASCII.
proof fn lemma_command_names_ascii()
    ensures
        forall|i: int| 0 <= i < COMMAND_COUNT ==> all_ascii(#[trigger] command_list()[i].spec_bytes())
            && command_list()[i].spec_bytes().len() <= 32,
{
    reveal_strlit("help");
    reveal_strlit("status");
    reveal_strlit("ticks");
    reveal_strlit("uptime");
    reveal_strlit("irq");
    reveal_strlit("mem");
    reveal_strlit("maps");
    reveal_strlit("heap");
    reveal_strlit("vm");
    reveal_strlit("vmmap");
    reveal_strlit("fault");
    reveal_strlit("syscall");
    reveal_strlit("sysabi");
    reveal_strlit("tasks");
    reveal_strlit("tasknew");
    reveal_strlit("taskstep");
    reveal_strlit("taskrun");
    reveal_strlit("tasksleep");
    reveal_strlit("userdemo");
    reveal_strlit("usermode");
    reveal_strlit("usermode_syscall");
    reveal_strlit("usermode_syscall_fail");
    reveal_strlit("echo");
    reveal_strlit("history");
    reveal_strlit("clear");
    reveal_strlit("exit");
    reveal_strlit("quit");
    assert forall|i: int| 0 <= i < COMMAND_COUNT implies all_ascii(#[trigger] command_list()[i].spec_bytes())
        && command_list()[i].spec_bytes().len() <= 32 by {
        lemma_ascii_literal(command_list()[i]);
    }
}

proof fn lemma_command_word(s: &str)
    requires
        s@.len() > 0,
        forall|j: int| 0 <= j < s@.len() ==> ('a' <= #[trigger] s@[j] <= 'z' || s@[j] == '_'),
    ensures
        tokens_from(lit(s), 0) == seq![lit(s)],
{
    assert(vstd::string::is_ascii(s));
    lemma_ascii_literal_bytes(s);
    assert forall|j: int| 0 <= j < lit(s).len() implies !is_ws(#[trigger] lit(s)[j]) by {
        assert(lit(s)[j] == s@[j] as u8);
    }
    lemma_single_word(lit(s));
}

/// A line that the parser runs as a command: neither blank nor unknown.
#[verifier::opaque]
pub open spec fn command_is_named(b: Seq<u8>) -> bool {
    !(command_for(b) is Unknown) && !(command_for(b) is Empty)
}

proof fn lemma_word_is_command(b: Seq<u8>)
    requires
        tokens_from(b, 0) == seq![b],
        b == lit("help") || b == lit("status") || b == lit("ticks") || b == lit("uptime") || b == lit("irq") || b == lit("mem") || b == lit("maps") || b == lit("heap") || b == lit("vm") || b == lit("vmmap") || b == lit("fault") || b == lit("syscall") || b == lit("sysabi") || b == lit("tasks") || b == lit("tasknew") || b == lit("taskstep") || b == lit("taskrun") || b == lit("tasksleep") || b == lit("userdemo") || b == lit("usermode") || b == lit("usermode_syscall") || b == lit("usermode_syscall_fail") || b == lit("echo") || b == lit("history") || b == lit("clear") || b == lit("exit") || b == lit("quit"),
    ensures
        command_is_named(b),
{
    reveal(command_is_named);
}

proof fn lemma_command_names_part1()
    ensures
        command_is_named(lit("help")),
        command_is_named(lit("status")),
        command_is_named(lit("ticks")),
        command_is_named(lit("uptime")),
        command_is_named(lit("irq")),
        command_is_named(lit("mem")),
        command_is_named(lit("maps")),
        command_is_named(lit("heap")),
        command_is_named(lit("vm")),
{
    assert(command_is_named(lit("help"))) by {
        reveal_strlit("help");
        lemma_command_word("help");
        lemma_word_is_command(lit("help"));
    }
    assert(command_is_named(lit("status"))) by {
        reveal_strlit("status");
        lemma_command_word("status");
        lemma_word_is_command(lit("status"));
    }
    assert(command_is_named(lit("ticks"))) by {
        reveal_strlit("ticks");
        lemma_command_word("ticks");
        lemma_word_is_command(lit("ticks"));
    }
    assert(command_is_named(lit("uptime"))) by {
        reveal_strlit("uptime");
        lemma_command_word("uptime");
        lemma_word_is_command(lit("uptime"));
    }
    assert(command_is_named(lit("irq"))) by {
        reveal_strlit("irq");
        lemma_command_word("irq");
        lemma_word_is_command(lit("irq"));
    }
    assert(command_is_named(lit("mem"))) by {
        reveal_strlit("mem");
        lemma_command_word("mem");
        lemma_word_is_command(lit("mem"));
    }
    assert(command_is_named(lit("maps"))) by {
        reveal_strlit("maps");
        lemma_command_word("maps");
        lemma_word_is_command(lit("maps"));
    }
    assert(command_is_named(lit("heap"))) by {
        reveal_strlit("heap");
        lemma_command_word("heap");
        lemma_word_is_command(lit("heap"));
    }
    assert(command_is_named(lit("vm"))) by {
        reveal_strlit("vm");
        lemma_command_word("vm");
        lemma_word_is_command(lit("vm"));
    }
}

proof fn lemma_command_names_part2()
    ensures
        command_is_named(lit("vmmap")),
        command_is_named(lit("fault")),
        command_is_named(lit("syscall")),
        command_is_named(lit("sysabi")),
        command_is_named(lit("tasks")),
        command_is_named(lit("tasknew")),
        command_is_named(lit("taskstep")),
        command_is_named(lit("taskrun")),
        command_is_named(lit("tasksleep")),
{
    assert(command_is_named(lit("vmmap"))) by {
        reveal_strlit("vmmap");
        lemma_command_word("vmmap");
        lemma_word_is_command(lit("vmmap"));
    }
    assert(command_is_named(lit("fault"))) by {
        reveal_strlit("fault");
        lemma_command_word("fault");
        lemma_word_is_command(lit("fault"));
    }
    assert(command_is_named(lit("syscall"))) by {
        reveal_strlit("syscall");
        lemma_command_word("syscall");
        lemma_word_is_command(lit("syscall"));
    }
    assert(command_is_named(lit("sysabi"))) by {
        reveal_strlit("sysabi");
        lemma_command_word("sysabi");
        lemma_word_is_command(lit("sysabi"));
    }
    assert(command_is_named(lit("tasks"))) by {
        reveal_strlit("tasks");
        lemma_command_word("tasks");
        lemma_word_is_command(lit("tasks"));
    }
    assert(command_is_named(lit("tasknew"))) by {
        reveal_strlit("tasknew");
        lemma_command_word("tasknew");
        lemma_word_is_command(lit("tasknew"));
    }
    assert(command_is_named(lit("taskstep"))) by {
        reveal_strlit("taskstep");
        lemma_command_word("taskstep");
        lemma_word_is_command(lit("taskstep"));
    }
    assert(command_is_named(lit("taskrun"))) by {
        reveal_strlit("taskrun");
        lemma_command_word("taskrun");
        lemma_word_is_command(lit("taskrun"));
    }
    assert(command_is_named(lit("tasksleep"))) by {
        reveal_strlit("tasksleep");
        lemma_command_word("tasksleep");
        lemma_word_is_command(lit("tasksleep"));
    }
}

proof fn lemma_command_names_part3()
    ensures
        command_is_named(lit("userdemo")),
        command_is_named(lit("usermode")),
        command_is_named(lit("usermode_syscall")),
        command_is_named(lit("usermode_syscall_fail")),
        command_is_named(lit("echo")),
        command_is_named(lit("history")),
        command_is_named(lit("clear")),
        command_is_named(lit("exit")),
        command_is_named(lit("quit")),
{
    assert(command_is_named(lit("userdemo"))) by {
        reveal_strlit("userdemo");
        lemma_command_word("userdemo");
        lemma_word_is_command(lit("userdemo"));
    }
    assert(command_is_named(lit("usermode"))) by {
        reveal_strlit("usermode");
        lemma_command_word("usermode");
        lemma_word_is_command(lit("usermode"));
    }
    assert(command_is_named(lit("usermode_syscall"))) by {
        reveal_strlit("usermode_syscall");
        lemma_command_word("usermode_syscall");
        lemma_word_is_command(lit("usermode_syscall"));
    }
    assert(command_is_named(lit("usermode_syscall_fail"))) by {
        reveal_strlit("usermode_syscall_fail");
        lemma_command_word("usermode_syscall_fail");
        lemma_word_is_command(lit("usermode_syscall_fail"));
    }
    assert(command_is_named(lit("echo"))) by {
        reveal_strlit("echo");
        lemma_command_word("echo");
        lemma_word_is_command(lit("echo"));
    }
    assert(command_is_named(lit("history"))) by {
        reveal_strlit("history");
        lemma_command_word("history");
        lemma_word_is_command(lit("history"));
    }
    assert(command_is_named(lit("clear"))) by {
        reveal_strlit("clear");
        lemma_command_word("clear");
        lemma_word_is_command(lit("clear"));
    }
    assert(command_is_named(lit("exit"))) by {
        reveal_strlit("exit");
        lemma_command_word("exit");
        lemma_word_is_command(lit("exit"));
    }
    assert(command_is_named(lit("quit"))) by {
        reveal_strlit("quit");
        lemma_command_word("quit");
        lemma_word_is_command(lit("quit"));
    }
}

/// The names that completion offers are commands: each of them, typed alone, is a
/// line the parser runs as a command.
#[verifier::rlimit(60)]
pub proof fn lemma_completion_names_are_commands()
    ensures
        forall|i: int| 0 <= i < COMMAND_COUNT ==> command_is_named(#[trigger] command_list()[i].spec_bytes()),
{
    lemma_command_names_part1();
    lemma_command_names_part2();
    lemma_command_names_part3();
    assert(command_list()[0] == "help");
    assert(command_list()[1] == "status");
    assert(command_list()[2] == "ticks");
    assert(command_list()[3] == "uptime");
    assert(command_list()[4] == "irq");
    assert(command_list()[5] == "mem");
    assert(command_list()[6] == "maps");
    assert(command_list()[7] == "heap");
    assert(command_list()[8] == "vm");
    assert(command_list()[9] == "vmmap");
    assert(command_list()[10] == "fault");
    assert(command_list()[11] == "syscall");
    assert(command_list()[12] == "sysabi");
    assert(command_list()[13] == "tasks");
    assert(command_list()[14] == "tasknew");
    assert(command_list()[15] == "taskstep");
    assert(command_list()[16] == "taskrun");
    assert(command_list()[17] == "tasksleep");
    assert(command_list()[18] == "userdemo");
    assert(command_list()[19] == "usermode");
    assert(command_list()[20] == "usermode_syscall");
    assert(command_list()[21] == "usermode_syscall_fail");
    assert(command_list()[22] == "echo");
    assert(command_list()[23] == "history");
    assert(command_list()[24] == "clear");
    assert(command_list()[25] == "exit");
    assert(command_list()[26] == "quit");
    assert forall|i: int| 0 <= i < COMMAND_COUNT implies command_is_named(#[trigger] command_list()[i].spec_bytes()) by {
        if i == 0 {} else if i == 1 {} else if i == 2 {} else if i == 3 {} else if i == 4 {} else if i == 5 {} else if i == 6 {} else if i == 7 {} else if i == 8 {} else if i == 9 {} else if i == 10 {} else if i == 11 {} else if i == 12 {} else if i == 13 {} else if i == 14 {} else if i == 15 {} else if i == 16 {} else if i == 17 {} else if i == 18 {} else if i == 19 {} else if i == 20 {} else if i == 21 {} else if i == 22 {} else if i == 23 {} else if i == 24 {} else if i == 25 {} else {}
    }
}

/// Every line that the parser runs as a command starts with a name that
/// completion offers.
pub proof fn lemma_commands_are_completion_names(b: Seq<u8>)
    requires
        command_is_named(b),
    ensures
        exists|k: int| 0 <= k < COMMAND_COUNT && tokens_from(b, 0)[0] == #[trigger] command_list()[k].spec_bytes(),
{
    reveal(command_is_named);
    let c = tokens_from(b, 0)[0];
    if c == lit("help") {
            assert(c == command_list()[0].spec_bytes());
        } else if c == lit("status") {
            assert(c == command_list()[1].spec_bytes());
        } else if c == lit("ticks") {
            assert(c == command_list()[2].spec_bytes());
        } else if c == lit("uptime") {
            assert(c == command_list()[3].spec_bytes());
        } else if c == lit("irq") {
            assert(c == command_list()[4].spec_bytes());
        } else if c == lit("mem") {
            assert(c == command_list()[5].spec_bytes());
        } else if c == lit("maps") {
            assert(c == command_list()[6].spec_bytes());
        } else if c == lit("heap") {
            assert(c == command_list()[7].spec_bytes());
        } else if c == lit("vm") {
            assert(c == command_list()[8].spec_bytes());
        } else if c == lit("vmmap") {
            assert(c == command_list()[9].spec_bytes());
        } else if c == lit("fault") {
            assert(c == command_list()[10].spec_bytes());
        } else if c == lit("syscall") {
            assert(c == command_list()[11].spec_bytes());
        } else if c == lit("sysabi") {
            assert(c == command_list()[12].spec_bytes());
        } else if c == lit("tasks") {
            assert(c == command_list()[13].spec_bytes());
        } else if c == lit("tasknew") {
            assert(c == command_list()[14].spec_bytes());
        } else if c == lit("taskstep") {
            assert(c == command_list()[15].spec_bytes());
        } else if c == lit("taskrun") {
            assert(c == command_list()[16].spec_bytes());
        } else if c == lit("tasksleep") {
            assert(c == command_list()[17].spec_bytes());
        } else if c == lit("userdemo") {
            assert(c == command_list()[18].spec_bytes());
        } else if c == lit("usermode") {
            assert(c == command_list()[19].spec_bytes());
        } else if c == lit("usermode_syscall") {
            assert(c == command_list()[20].spec_bytes());
        } else if c == lit("usermode_syscall_fail") {
            assert(c == command_list()[21].spec_bytes());
        } else if c == lit("echo") {
            assert(c == command_list()[22].spec_bytes());
        } else if c == lit("history") {
            assert(c == command_list()[23].spec_bytes());
        } else if c == lit("clear") {
            assert(c == command_list()[24].spec_bytes());
        } else if c == lit("exit") {
            assert(c == command_list()[25].spec_bytes());
        } else if c == lit("quit") {
            assert(c == command_list()[26].spec_bytes());
        } else {
            assert(command_for(b) is Unknown);
        }
}

/// True when the text is the start of the name.
pub open spec fn name_matches(t: Seq<u8>, name: &str) -> bool {
    t.len() <= name.spec_bytes().len() && name.spec_bytes().take(t.len() as int) == t
}

/// The names that start with the text, in order.
pub open spec fn matching_names(names: Seq<&'static str>, t: Seq<u8>) -> Seq<&'static str>
    decreases names.len(),
{
    if names.len() == 0 {
        Seq::empty()
    } else {
        let rest = matching_names(names.drop_last(), t);
        if name_matches(t, names.last()) { rest.push(names.last()) } else { rest }
    }
}

pub open spec fn has_space(t: Seq<u8>) -> bool {
    exists|i: int| 0 <= i < t.len() && t[i] == 0x20
}

/// What a Tab did.
#[derive(Debug, PartialEq, Eq)]
pub enum Completion {
    /// The line holds a space or the cursor is not at its end: nothing to complete.
    Skipped,
    /// No command starts with the line.
    NoMatch,
    /// One command starts with the line, which now holds it in full.
    Extended,
    /// The line already holds the one command that starts with it.
    Exact,
    /// Several commands start with the line: these.
    Ambiguous(Vec<&'static str>),
}

/// The effect of a Tab on a line.
pub open spec fn completion_holds(before: LineView, after: LineView, c: Completion) -> bool {
    let t = before.text;
    if has_space(t) || before.cursor != t.len() {
        c == Completion::Skipped && after == before
    } else {
        let m = matching_names(command_list(), t);
        if m.len() == 0 {
            c == Completion::NoMatch && after == before
        } else if m.len() == 1 {
            if m[0].spec_bytes().len() > t.len() {
                c == Completion::Extended && after.text == m[0].spec_bytes()
                    && after.cursor == m[0].spec_bytes().len()
            } else {
                c == Completion::Exact && after == before
            }
        } else {
            c matches Completion::Ambiguous(v) && v@ == m && after == before
        }
    }
}

fn starts_with(name: &[u8], text: &[u8]) -> (r: bool)
    ensures
        r == (text@.len() <= name@.len() && name@.take(text@.len() as int) == text@),
{
    if text.len() > name.len() {
        return false;
    }
    let mut i: usize = 0;
    while i < text.len()
        invariant
            i <= text@.len() <= name@.len(),
            forall|j: int| 0 <= j < i ==> name@[j] == text@[j],
        decreases text@.len() - i,
    {
        if name[i] != text[i] {
            return false;
        }
        i += 1;
    }
    assert(name@.take(text@.len() as int) =~= text@);
    true
}

proof fn lemma_matching_names_sub(names: Seq<&'static str>, t: Seq<u8>)
    ensures
        forall|k: int| 0 <= k < matching_names(names, t).len() ==> exists|j: int| 0 <= j < names.len()
            && #[trigger] matching_names(names, t)[k] == names[j] && name_matches(t, names[j]),
    decreases names.len(),
{
    if names.len() > 0 {
        lemma_matching_names_sub(names.drop_last(), t);
        let rest = matching_names(names.drop_last(), t);
        assert forall|k: int| 0 <= k < matching_names(names, t).len() implies exists|j: int| 0 <= j < names.len()
            && #[trigger] matching_names(names, t)[k] == names[j] && name_matches(t, names[j]) by {
            if k < rest.len() {
                let j = choose|j: int| 0 <= j < names.drop_last().len() && rest[k] == names.drop_last()[j]
                    && name_matches(t, names.drop_last()[j]);
                assert(names.drop_last()[j] == names[j]);
            } else {
                assert(matching_names(names, t)[k] == names[names.len() - 1]);
            }
        }
    }
}

/// Completes the command name at the cursor (Tab).
pub fn complete_command(line: &mut InputLine) -> (r: Completion)
    ensures
        completion_holds(old(line)@, final(line)@, r),
{
    let text = line.as_bytes();
    let mut i: usize = 0;
    while i < text.len()
        invariant
            i <= text@.len(),
            text@ == old(line)@.text,
            forall|j: int| 0 <= j < i ==> text@[j] != 0x20,
        decreases text@.len() - i,
    {
        if text[i] == 0x20 {
            assert(has_space(old(line)@.text));
            return Completion::Skipped;
        }
        i += 1;
    }
    if !line.is_cursor_at_end() {
        return Completion::Skipped;
    }
    let names = command_names();
    let ghost t = text@;
    let mut matches: Vec<&'static str> = Vec::new();
    let mut k: usize = 0;
    while k < COMMAND_COUNT
        invariant
            k <= COMMAND_COUNT,
            names@ == command_list(),
            t == text@,
            matches@ == matching_names(command_list().take(k as int), t),
        decreases COMMAND_COUNT - k,
    {
        assert(command_list().take(k as int + 1).drop_last() =~= command_list().take(k as int));
        let name = names[k];
        if starts_with(name.as_bytes(), text) {
            matches.push(name);
        }
        k += 1;
    }
    assert(command_list().take(COMMAND_COUNT as int) =~= command_list());
    if matches.len() == 0 {
        return Completion::NoMatch;
    }
    if matches.len() > 1 {
        return Completion::Ambiguous(matches);
    }
    let first = matches[0];
    let name_bytes = first.as_bytes();
    if name_bytes.len() <= text.len() {
        return Completion::Exact;
    }
    proof {
        lemma_matching_names_sub(command_list(), t);
        lemma_command_names_ascii();
        let j = choose|j: int| 0 <= j < command_list().len() && matching_names(command_list(), t)[0]
            == command_list()[j] && name_matches(t, command_list()[j]);
        assert(all_ascii(first.spec_bytes()));
    }
    let n = text.len();
    let suffix = &name_bytes[n..name_bytes.len()];
    proof {
        assert(all_ascii(suffix@)) by {
            assert forall|j: int| 0 <= j < suffix@.len() implies #[trigger] suffix@[j] < 128 by {
                assert(suffix@[j] == name_bytes@[n + j]);
            }
        }
    }
    let ok = line.append_bytes(suffix);
    assert(ok);
    proof {
        assert(final(line)@.text =~= name_bytes@);
    }
    Completion::Extended
}

/// The monitor's editing state: the line being typed, the history and whether typed
/// characters overwrite.
pub struct MonitorInput {
    pub line: InputLine,
    pub history: CommandHistory,
    pub overwrite_mode: bool,
}

/// What the monitor has to show or do after a key.
#[derive(Debug, PartialEq, Eq)]
pub enum KeyOutcome {
    /// Nothing changed.
    Nothing,
    /// The line or the cursor changed: redraw the prompt.
    Redraw,
    /// A character did not fit.
    LineFull,
    /// A key with no editing meaning: show its marker.
    Echo,
    /// Enter: the line is in the history and is to be run, then cleared.
    Submit,
    /// Tab: the completion that happened.
    Completed(Completion),
    /// Insert: the edit mode flipped.
    EditModeChanged,
    /// Escape: leave the monitor.
    Exit,
}

pub open spec fn same_history(a: CommandHistory, b: CommandHistory) -> bool {
    a@ == b@
}

/// The history after an edit: the lines stay, browsing ends when the line changed.
pub open spec fn history_after_edit(before: CommandHistory, after: CommandHistory, changed: bool) -> bool {
    &&& after@.lines == before@.lines
    &&& if changed { after@.browsing is None } else { after@.browsing == before@.browsing }
}

/// The line after a character is typed, if it is taken.
pub open spec fn typed(v: LineView, c: char, overwrite: bool) -> Option<LineView> {
    if (c as u32) >= 128 {
        None
    } else if overwrite && v.cursor < v.text.len() {
        Some(LineView { text: v.text.update(v.cursor as int, c as u8), cursor: v.cursor + 1 })
    } else if v.text.len() < INPUT_LINE_MAX {
        Some(LineView { text: v.text.insert(v.cursor as int, c as u8), cursor: v.cursor + 1 })
    } else {
        None
    }
}

/// The line after a cursor motion, and whether the cursor moved.
pub open spec fn moved(v: LineView, to: int) -> (LineView, bool) {
    (LineView { text: v.text, cursor: to as nat }, to != v.cursor)
}

impl MonitorInput {
    /// An empty line, an empty history, insert mode.
    pub fn new() -> (r: Self)
        ensures
            r.line@.text == Seq::<u8>::empty(),
            r.line@.cursor == 0,
            r.history@.lines == Seq::<Seq<u8>>::empty(),
            r.history@.browsing is None,
            !r.overwrite_mode,
    {
        MonitorInput { line: InputLine::new(), history: CommandHistory::new(), overwrite_mode: false }
    }

    /// After a submitted line has been run: the line is emptied and browsing ends.
    pub fn finish_command(&mut self)
        ensures
            final(self).line@.text == Seq::<u8>::empty(),
            final(self).line@.cursor == 0,
            final(self).history@.lines == old(self).history@.lines,
            final(self).history@.browsing is None,
            final(self).overwrite_mode == old(self).overwrite_mode,
    {
        self.line.clear();
        self.history.reset_browsing();
    }

    /// Applies one key to the line and the history and says what to show or do.
    pub fn handle_key_event(&mut self, event: KeyEvent) -> (r: KeyOutcome)
        ensures
            ({
                let o = *old(self);
                let f = *final(self);
                let v = o.line@;
                match event {
                    KeyEvent::Char(c) => match typed(v, c, o.overwrite_mode) {
                        Some(w) => r == KeyOutcome::Redraw && f.line@ == w
                            && history_after_edit(o.history, f.history, true)
                            && f.overwrite_mode == o.overwrite_mode,
                        None => r == KeyOutcome::LineFull && f.line@ == v
                            && same_history(o.history, f.history) && f.overwrite_mode == o.overwrite_mode,
                    },
                    KeyEvent::Enter => r == KeyOutcome::Submit && f.line@ == v
                        && f.history@.lines == pushed(o.history@.lines, v.text)
                        && (v.text.len() != 0 ==> f.history@.browsing is None)
                        && (v.text.len() == 0 ==> f.history@.browsing == o.history@.browsing)
                        && f.overwrite_mode == o.overwrite_mode,
                    KeyEvent::Tab => (r matches KeyOutcome::Completed(c) && completion_holds(v, f.line@, c))
                        && same_history(o.history, f.history) && f.overwrite_mode == o.overwrite_mode,
                    KeyEvent::Backspace => {
                        let changed = v.cursor > 0;
                        &&& r == (if changed { KeyOutcome::Redraw } else { KeyOutcome::Nothing })
                        &&& changed ==> f.line@ == LineView { text: v.text.remove(v.cursor - 1), cursor: (v.cursor - 1) as nat }
                        &&& !changed ==> f.line@ == v
                        &&& history_after_edit(o.history, f.history, changed)
                        &&& f.overwrite_mode == o.overwrite_mode
                    },
                    KeyEvent::Delete => {
                        let changed = v.cursor < v.text.len();
                        &&& r == (if changed { KeyOutcome::Redraw } else { KeyOutcome::Nothing })
                        &&& changed ==> f.line@ == LineView { text: v.text.remove(v.cursor as int), cursor: v.cursor }
                        &&& !changed ==> f.line@ == v
                        &&& history_after_edit(o.history, f.history, changed)
                        &&& f.overwrite_mode == o.overwrite_mode
                    },
                    KeyEvent::WordDeleteLeft => {
                        let start = word_boundary_left(v.text, v.cursor as int);
                        let changed = start != v.cursor;
                        &&& r == (if changed { KeyOutcome::Redraw } else { KeyOutcome::Nothing })
                        &&& f.line@.text == v.text.subrange(0, start) + v.text.subrange(v.cursor as int, v.text.len() as int)
                        &&& f.line@.cursor == start
                        &&& history_after_edit(o.history, f.history, changed)
                        &&& f.overwrite_mode == o.overwrite_mode
                    },
                    KeyEvent::WordDeleteRight => {
                        let end = word_boundary_right(v.text, v.cursor as int);
                        let changed = end != v.cursor;
                        &&& r == (if changed { KeyOutcome::Redraw } else { KeyOutcome::Nothing })
                        &&& f.line@.text == v.text.subrange(0, v.cursor as int) + v.text.subrange(end, v.text.len() as int)
                        &&& f.line@.cursor == v.cursor
                        &&& history_after_edit(o.history, f.history, changed)
                        &&& f.overwrite_mode == o.overwrite_mode
                    },
                    KeyEvent::ArrowUp => {
                        let h = o.history@;
                        &&& f.history@.lines == h.lines
                        &&& f.overwrite_mode == o.overwrite_mode
                        &&& if h.lines.len() == 0 {
                            r == KeyOutcome::Nothing && f.line@ == v && f.history@.browsing == h.browsing
                        } else {
                            let age = match h.browsing {
                                None => 0,
                                Some(a) => if a + 1 < h.lines.len() { a + 1 } else { a },
                            };
                            &&& r == KeyOutcome::Redraw
                            &&& f.history@.browsing == Some(age)
                            &&& f.line@ == LineView { text: h.lines[age as int], cursor: h.lines[age as int].len() }
                        }
                    },
                    KeyEvent::ArrowDown => {
                        let h = o.history@;
                        &&& r == KeyOutcome::Redraw
                        &&& f.history@.lines == h.lines
                        &&& f.overwrite_mode == o.overwrite_mode
                        &&& if h.browsing is Some && h.browsing.unwrap() > 0 {
                            let a = h.browsing.unwrap();
                            &&& f.history@.browsing == Some((a - 1) as nat)
                            &&& f.line@ == LineView { text: h.lines[a - 1], cursor: h.lines[a - 1].len() }
                        } else {
                            &&& f.history@.browsing is None
                            &&& f.line@ == LineView { text: Seq::empty(), cursor: 0 }
                        }
                    },
                    KeyEvent::ArrowLeft => {
                        let to = if v.cursor > 0 { v.cursor - 1 } else { v.cursor as int };
                        &&& f.line@ == moved(v, to).0
                        &&& r == (if moved(v, to).1 { KeyOutcome::Redraw } else { KeyOutcome::Nothing })
                        &&& same_history(o.history, f.history) && f.overwrite_mode == o.overwrite_mode
                    },
                    KeyEvent::ArrowRight => {
                        let to = if v.cursor < v.text.len() { (v.cursor + 1) as int } else { v.cursor as int };
                        &&& f.line@ == moved(v, to).0
                        &&& r == (if moved(v, to).1 { KeyOutcome::Redraw } else { KeyOutcome::Nothing })
                        &&& same_history(o.history, f.history) && f.overwrite_mode == o.overwrite_mode
                    },
                    KeyEvent::WordLeft => {
                        let to = word_boundary_left(v.text, v.cursor as int);
                        &&& f.line@ == moved(v, to).0
                        &&& r == (if moved(v, to).1 { KeyOutcome::Redraw } else { KeyOutcome::Nothing })
                        &&& same_history(o.history, f.history) && f.overwrite_mode == o.overwrite_mode
                    },
                    KeyEvent::WordRight => {
                        let to = word_boundary_right(v.text, v.cursor as int);
                        &&& f.line@ == moved(v, to).0
                        &&& r == (if moved(v, to).1 { KeyOutcome::Redraw } else { KeyOutcome::Nothing })
                        &&& same_history(o.history, f.history) && f.overwrite_mode == o.overwrite_mode
                    },
                    KeyEvent::Home => {
                        &&& f.line@ == moved(v, 0).0
                        &&& r == (if moved(v, 0).1 { KeyOutcome::Redraw } else { KeyOutcome::Nothing })
                        &&& same_history(o.history, f.history) && f.overwrite_mode == o.overwrite_mode
                    },
                    KeyEvent::End => {
                        &&& f.line@ == moved(v, v.text.len() as int).0
                        &&& r == (if moved(v, v.text.len() as int).1 { KeyOutcome::Redraw } else { KeyOutcome::Nothing })
                        &&& same_history(o.history, f.history) && f.overwrite_mode == o.overwrite_mode
                    },
                    KeyEvent::Insert => r == KeyOutcome::EditModeChanged && f.line@ == v
                        && same_history(o.history, f.history) && f.overwrite_mode == !o.overwrite_mode,
                    KeyEvent::Escape => r == KeyOutcome::Exit && f.line@ == v
                        && same_history(o.history, f.history) && f.overwrite_mode == o.overwrite_mode,
                    _ => r == KeyOutcome::Echo && f.line@ == v
                        && same_history(o.history, f.history) && f.overwrite_mode == o.overwrite_mode,
                }
            }),
    {
        match event {
            KeyEvent::Char(character) => {
                if self.line.insert_or_overwrite_char(character, self.overwrite_mode) {
                    self.history.reset_browsing();
                    KeyOutcome::Redraw
                } else {
                    KeyOutcome::LineFull
                }
            },
            KeyEvent::Enter => {
                self.history.push_line(&self.line);
                KeyOutcome::Submit
            },
            KeyEvent::Tab => KeyOutcome::Completed(complete_command(&mut self.line)),
            KeyEvent::Backspace => {
                if self.line.backspace() {
                    self.history.reset_browsing();
                    KeyOutcome::Redraw
                } else {
                    KeyOutcome::Nothing
                }
            },
            KeyEvent::Delete => {
                if self.line.delete() {
                    self.history.reset_browsing();
                    KeyOutcome::Redraw
                } else {
                    KeyOutcome::Nothing
                }
            },
            KeyEvent::WordDeleteLeft => {
                if self.line.delete_word_left() {
                    self.history.reset_browsing();
                    KeyOutcome::Redraw
                } else {
                    KeyOutcome::Nothing
                }
            },
            KeyEvent::WordDeleteRight => {
                if self.line.delete_word_right() {
                    self.history.reset_browsing();
                    KeyOutcome::Redraw
                } else {
                    KeyOutcome::Nothing
                }
            },
            KeyEvent::ArrowUp => {
                match self.history.previous() {
                    Some(entry) => {
                        let ok = self.line.set_from_bytes(entry.as_bytes());
                        KeyOutcome::Redraw
                    },
                    None => KeyOutcome::Nothing,
                }
            },
            KeyEvent::ArrowDown => {
                match self.history.next() {
                    Some(entry) => {
                        let ok = self.line.set_from_bytes(entry.as_bytes());
                    },
                    None => self.line.clear(),
                }
                KeyOutcome::Redraw
            },
            KeyEvent::ArrowLeft => if self.line.move_left() { KeyOutcome::Redraw } else { KeyOutcome::Nothing },
            KeyEvent::ArrowRight => if self.line.move_right() { KeyOutcome::Redraw } else { KeyOutcome::Nothing },
            KeyEvent::WordLeft => if self.line.move_word_left() { KeyOutcome::Redraw } else { KeyOutcome::Nothing },
            KeyEvent::WordRight => if self.line.move_word_right() { KeyOutcome::Redraw } else { KeyOutcome::Nothing },
            KeyEvent::Home => if self.line.move_home() { KeyOutcome::Redraw } else { KeyOutcome::Nothing },
            KeyEvent::End => if self.line.move_end() { KeyOutcome::Redraw } else { KeyOutcome::Nothing },
            KeyEvent::Insert => {
                self.overwrite_mode = !self.overwrite_mode;
                KeyOutcome::EditModeChanged
            },
            KeyEvent::Escape => KeyOutcome::Exit,
            _ => KeyOutcome::Echo,
        }
    }
}

/// The uptime the monitor shows for a tick count: whole seconds and hundredths of a
/// second, the timer running at `TIMER_HZ` (100) ticks a second.
pub fn uptime_parts(ticks: u64) -> (r: (u64, u64))
    ensures
        r.0 == ticks / TIMER_HZ,
        r.1 == ticks % TIMER_HZ,
        r.0 * TIMER_HZ + r.1 == ticks,
        r.1 < 100,
{
    (ticks / TIMER_HZ, ticks % TIMER_HZ)
}

/// How a memory map listing splits the regions: those shown and those left out.
#[derive(Debug, Clone, Copy, PartialEq, Eq, Structural)]
pub struct MapsListing {
    pub shown: usize,
    pub hidden: usize,
}

/// The number of regions `maps` shows under an optional limit.
pub open spec fn maps_shown(limit: Option<usize>, region_count: usize) -> usize {
    match limit {
        None => region_count,
        Some(max) => if max < region_count { max } else { region_count },
    }
}

/// Splits `region_count` regions under an optional limit: the first
/// `min(limit, region_count)` are shown (all of them without a limit), the rest
/// are counted as left out.
pub fn maps_listing(limit: Option<usize>, region_count: usize) -> (r: MapsListing)
    ensures
        r.shown == maps_shown(limit, region_count),
        r.shown + r.hidden == region_count,
{
    let shown = match limit {
        None => region_count,
        Some(max) => if max < region_count { max } else { region_count },
    };
    MapsListing { shown, hidden: region_count - shown }
}


/// How long the monitor waits for input, in timer ticks, after it opens and after
/// each key.
pub const INPUT_WINDOW_TICKS: u64 = 800;

/// `a + b`, or `u64::MAX` when that does not fit.
pub open spec fn saturating_add_u64(a: u64, b: u64) -> u64 {
    if a + b > u64::MAX { u64::MAX } else { (a + b) as u64 }
}

/// The monitor's input window: it stays open until a deadline that every decoded
/// key pushes back, and counts the keys.
pub struct InputWindow {
    pub deadline: u64,
    pub decoded_events: u64,
}

impl InputWindow {
    /// A window opened at tick `now`.
    pub fn open(now: u64) -> (r: Self)
        ensures
            r.deadline == saturating_add_u64(now, INPUT_WINDOW_TICKS),
            r.decoded_events == 0,
    {
        InputWindow { deadline: now.saturating_add(INPUT_WINDOW_TICKS), decoded_events: 0 }
    }

    /// A key was decoded at tick `now`: counted, and the window extended from `now`.
    pub fn key_decoded(&mut self, now: u64)
        ensures
            final(self).deadline == saturating_add_u64(now, INPUT_WINDOW_TICKS),
            final(self).decoded_events == saturating_add_u64(old(self).decoded_events, 1),
    {
        self.decoded_events = self.decoded_events.saturating_add(1);
        self.deadline = now.saturating_add(INPUT_WINDOW_TICKS);
    }

    /// Whether the window has closed by tick `now`.
    pub fn expired(&self, now: u64) -> (r: bool)
        ensures
            r == (now >= self.deadline),
    {
        now >= self.deadline
    }
}

/// A key keeps the monitor open: after a key decoded at tick `now`, the window is
/// still open at every tick before `now + INPUT_WINDOW_TICKS` (but the last tick
/// that a `u64` holds, where the deadline saturates).
pub proof fn lemma_key_keeps_window_open(w: InputWindow, now: u64, later: u64)
    requires
        w.deadline == saturating_add_u64(now, INPUT_WINDOW_TICKS),
        now <= later < now + INPUT_WINDOW_TICKS,
        later < u64::MAX,
    ensures
        !(later >= w.deadline),
{
}

} // verus!
