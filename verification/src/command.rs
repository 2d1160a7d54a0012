//! Reading a monitor command line: the command word and its arguments, with the
//! defaults and checks that each command applies before it runs.

use vstd::prelude::*;
use vstd::string::StringSliceAdditionalSpecFns;
use crate::line::{InputLine, all_ascii, str_bytes};
use crate::number::{parse_number, parse_u64};
use crate::task::{TaskKind, parse_task_kind, task_kind_named};
use crate::text::bytes_equal;

verus! {

/// Whitespace as `str::split_whitespace` sees it, for ASCII bytes.
pub open spec fn is_ws(b: u8) -> bool {
    (0x09 <= b <= 0x0D) || b == 0x20
}

pub open spec fn skip_ws(b: Seq<u8>, i: int) -> int
    decreases b.len() - i,
{
    if 0 <= i < b.len() && is_ws(b[i]) { skip_ws(b, i + 1) } else { i }
}

pub open spec fn token_end(b: Seq<u8>, i: int) -> int
    decreases b.len() - i,
{
    if 0 <= i < b.len() && !is_ws(b[i]) { token_end(b, i + 1) } else { i }
}

pub proof fn lemma_skip_ws(b: Seq<u8>, i: int)
    requires
        0 <= i <= b.len(),
    ensures
        i <= skip_ws(b, i) <= b.len(),
        skip_ws(b, i) < b.len() ==> !is_ws(b[skip_ws(b, i)]),
    decreases b.len() - i,
{
    if i < b.len() && is_ws(b[i]) {
        lemma_skip_ws(b, i + 1);
    }
}

pub proof fn lemma_token_end(b: Seq<u8>, i: int)
    requires
        0 <= i <= b.len(),
    ensures
        i <= token_end(b, i) <= b.len(),
        i < b.len() && !is_ws(b[i]) ==> i < token_end(b, i),
    decreases b.len() - i,
{
    if i < b.len() && !is_ws(b[i]) {
        lemma_token_end(b, i + 1);
    }
}

/// The whitespace-separated words of `b` from position `i` on.
pub open spec fn tokens_from(b: Seq<u8>, i: int) -> Seq<Seq<u8>>
    decreases b.len() - i,
{
    if i < 0 || i > b.len() {
        Seq::empty()
    } else {
        let s = skip_ws(b, i);
        proof {
            lemma_skip_ws(b, i);
            lemma_token_end(b, s);
        }
        if s >= b.len() {
            Seq::empty()
        } else {
            let e = token_end(b, s);
            seq![b.subrange(s, e)] + tokens_from(b, e)
        }
    }
}

/// A word of the line, or `None` past the last one.
pub open spec fn word(ts: Seq<Seq<u8>>, k: int) -> Option<Seq<u8>> {
    if 0 <= k < ts.len() { Some(ts[k]) } else { None }
}

/// The text after a leading `echo`, without the whitespace that follows it; empty
/// when the line does not start with `echo`.
pub open spec fn echo_text(b: Seq<u8>) -> Seq<u8> {
    if b.len() >= 4 && b.subrange(0, 4) == "echo".spec_bytes() {
        b.subrange(skip_ws(b, 4), b.len() as int)
    } else {
        Seq::empty()
    }
}

/// The argument of `vm`, `vmmap`: none, an address, or text that is not one.
#[derive(Debug, Clone, Copy, PartialEq, Eq)]
pub enum AddressArg<'a> {
    Default,
    Address(u64),
    Invalid(&'a str),
}

/// A command line, read.
#[derive(Debug, Clone, Copy, PartialEq, Eq)]
pub enum MonitorCommand<'a> {
    /// A blank line.
    Empty,
    Help,
    Status,
    Ticks,
    Uptime,
    Irq,
    Mem,
    /// `maps [n|all]`: at most `limit` regions (all for `None`).
    Maps { limit: Option<usize> },
    InvalidMapsLimit(&'a str),
    Heap,
    Vm(AddressArg<'a>),
    Vmmap(AddressArg<'a>),
    Fault { address: u64 },
    InvalidFaultAddress(&'a str),
    SyscallUsage,
    InvalidSyscallNumber(&'a str),
    /// The first syscall argument (0, 1 or 2) that is not a number.
    InvalidSyscallArg { index: u8, text: &'a str },
    Syscall { number: u64, arg0: u64, arg1: u64, arg2: u64 },
    SysAbi,
    Tasks,
    TaskNew(TaskKind),
    /// `tasknew` with a kind name that is not one.
    TaskNewUsage(&'a str),
    TaskStep,
    TaskRun { steps: u64 },
    TaskRunUsage(&'a str),
    TaskRunZero,
    TaskSleepUsage,
    TaskSleepBadId(&'a str),
    TaskSleepBadTicks(&'a str),
    TaskSleepZero,
    TaskSleep { id: u64, ticks: u64 },
    UserDemo,
    UserMode,
    UserModeSyscall,
    UserModeSyscallFail,
    Echo(&'a str),
    History,
    Clear,
    Exit,
    Unknown(&'a str),
}

/// An argument of `vm`/`vmmap`, by its text's bytes.
pub ghost enum AddressArgSpec {
    Default,
    Address(u64),
    Invalid(Seq<u8>),
}

/// A command, with each text argument by its bytes.
pub ghost enum CommandSpec {
    Empty,
    Help,
    Status,
    Ticks,
    Uptime,
    Irq,
    Mem,
    Maps { limit: Option<usize> },
    InvalidMapsLimit(Seq<u8>),
    Heap,
    Vm(AddressArgSpec),
    Vmmap(AddressArgSpec),
    Fault { address: u64 },
    InvalidFaultAddress(Seq<u8>),
    SyscallUsage,
    InvalidSyscallNumber(Seq<u8>),
    InvalidSyscallArg { index: u8, text: Seq<u8> },
    Syscall { number: u64, arg0: u64, arg1: u64, arg2: u64 },
    SysAbi,
    Tasks,
    TaskNew(TaskKind),
    TaskNewUsage(Seq<u8>),
    TaskStep,
    TaskRun { steps: u64 },
    TaskRunUsage(Seq<u8>),
    TaskRunZero,
    TaskSleepUsage,
    TaskSleepBadId(Seq<u8>),
    TaskSleepBadTicks(Seq<u8>),
    TaskSleepZero,
    TaskSleep { id: u64, ticks: u64 },
    UserDemo,
    UserMode,
    UserModeSyscall,
    UserModeSyscallFail,
    Echo(Seq<u8>),
    History,
    Clear,
    Exit,
    Unknown(Seq<u8>),
}

impl<'a> View for AddressArg<'a> {
    type V = AddressArgSpec;

    open spec fn view(&self) -> AddressArgSpec {
        match *self {
            AddressArg::Default => AddressArgSpec::Default,
            AddressArg::Address(a) => AddressArgSpec::Address(a),
            AddressArg::Invalid(t) => AddressArgSpec::Invalid(t.spec_bytes()),
        }
    }
}

impl<'a> View for MonitorCommand<'a> {
    type V = CommandSpec;

    open spec fn view(&self) -> CommandSpec {
        match *self {
            MonitorCommand::Empty => CommandSpec::Empty,
            MonitorCommand::Help => CommandSpec::Help,
            MonitorCommand::Status => CommandSpec::Status,
            MonitorCommand::Ticks => CommandSpec::Ticks,
            MonitorCommand::Uptime => CommandSpec::Uptime,
            MonitorCommand::Irq => CommandSpec::Irq,
            MonitorCommand::Mem => CommandSpec::Mem,
            MonitorCommand::Maps { limit } => CommandSpec::Maps { limit },
            MonitorCommand::InvalidMapsLimit(t) => CommandSpec::InvalidMapsLimit(t.spec_bytes()),
            MonitorCommand::Heap => CommandSpec::Heap,
            MonitorCommand::Vm(a) => CommandSpec::Vm(a@),
            MonitorCommand::Vmmap(a) => CommandSpec::Vmmap(a@),
            MonitorCommand::Fault { address } => CommandSpec::Fault { address },
            MonitorCommand::InvalidFaultAddress(t) => CommandSpec::InvalidFaultAddress(t.spec_bytes()),
            MonitorCommand::SyscallUsage => CommandSpec::SyscallUsage,
            MonitorCommand::InvalidSyscallNumber(t) => CommandSpec::InvalidSyscallNumber(t.spec_bytes()),
            MonitorCommand::InvalidSyscallArg { index, text } => CommandSpec::InvalidSyscallArg { index, text: text.spec_bytes() },
            MonitorCommand::Syscall { number, arg0, arg1, arg2 } => CommandSpec::Syscall { number, arg0, arg1, arg2 },
            MonitorCommand::SysAbi => CommandSpec::SysAbi,
            MonitorCommand::Tasks => CommandSpec::Tasks,
            MonitorCommand::TaskNew(k) => CommandSpec::TaskNew(k),
            MonitorCommand::TaskNewUsage(t) => CommandSpec::TaskNewUsage(t.spec_bytes()),
            MonitorCommand::TaskStep => CommandSpec::TaskStep,
            MonitorCommand::TaskRun { steps } => CommandSpec::TaskRun { steps },
            MonitorCommand::TaskRunUsage(t) => CommandSpec::TaskRunUsage(t.spec_bytes()),
            MonitorCommand::TaskRunZero => CommandSpec::TaskRunZero,
            MonitorCommand::TaskSleepUsage => CommandSpec::TaskSleepUsage,
            MonitorCommand::TaskSleepBadId(t) => CommandSpec::TaskSleepBadId(t.spec_bytes()),
            MonitorCommand::TaskSleepBadTicks(t) => CommandSpec::TaskSleepBadTicks(t.spec_bytes()),
            MonitorCommand::TaskSleepZero => CommandSpec::TaskSleepZero,
            MonitorCommand::TaskSleep { id, ticks } => CommandSpec::TaskSleep { id, ticks },
            MonitorCommand::UserDemo => CommandSpec::UserDemo,
            MonitorCommand::UserMode => CommandSpec::UserMode,
            MonitorCommand::UserModeSyscall => CommandSpec::UserModeSyscall,
            MonitorCommand::UserModeSyscallFail => CommandSpec::UserModeSyscallFail,
            MonitorCommand::Echo(t) => CommandSpec::Echo(t.spec_bytes()),
            MonitorCommand::History => CommandSpec::History,
            MonitorCommand::Clear => CommandSpec::Clear,
            MonitorCommand::Exit => CommandSpec::Exit,
            MonitorCommand::Unknown(t) => CommandSpec::Unknown(t.spec_bytes()),
        }
    }
}

pub open spec fn lit(s: &str) -> Seq<u8> {
    s.spec_bytes()
}

/// The address argument of `vm`/`vmmap`.
pub open spec fn address_arg(w: Option<Seq<u8>>) -> AddressArgSpec {
    match w {
        None => AddressArgSpec::Default,
        Some(t) => match parse_number(t) {
            Some(a) => AddressArgSpec::Address(a),
            None => AddressArgSpec::Invalid(t),
        },
    }
}

/// An optional numeric syscall argument: 0 when absent.
pub open spec fn syscall_arg(w: Option<Seq<u8>>) -> Option<u64> {
    match w {
        None => Some(0),
        Some(t) => parse_number(t),
    }
}

pub open spec fn command_syscall(ts: Seq<Seq<u8>>) -> CommandSpec {
    match word(ts, 1) {
        None => CommandSpec::SyscallUsage,
        Some(t) => match parse_number(t) {
            None => CommandSpec::InvalidSyscallNumber(t),
            Some(number) => if syscall_arg(word(ts, 2)) is None {
                CommandSpec::InvalidSyscallArg { index: 0, text: ts[2] }
            } else if syscall_arg(word(ts, 3)) is None {
                CommandSpec::InvalidSyscallArg { index: 1, text: ts[3] }
            } else if syscall_arg(word(ts, 4)) is None {
                CommandSpec::InvalidSyscallArg { index: 2, text: ts[4] }
            } else {
                CommandSpec::Syscall {
                    number,
                    arg0: syscall_arg(word(ts, 2)).unwrap(),
                    arg1: syscall_arg(word(ts, 3)).unwrap(),
                    arg2: syscall_arg(word(ts, 4)).unwrap(),
                }
            },
        },
    }
}

pub open spec fn command_tasks(ts: Seq<Seq<u8>>, c: Seq<u8>) -> CommandSpec {
    if c == lit("tasknew") {
        let t = match word(ts, 1) { Some(t) => t, None => lit("userdemo") };
        match task_kind_named(vstd::utf8::decode_utf8(t)) {
            Some(k) => CommandSpec::TaskNew(k),
            None => CommandSpec::TaskNewUsage(t),
        }
    } else if c == lit("taskstep") {
        CommandSpec::TaskStep
    } else if c == lit("taskrun") {
        match word(ts, 1) {
            None => CommandSpec::TaskRun { steps: 4 },
            Some(t) => match parse_number(t) {
                None => CommandSpec::TaskRunUsage(t),
                Some(n) => if n == 0 {
                    CommandSpec::TaskRunZero
                } else {
                    CommandSpec::TaskRun { steps: if n < 256 { n } else { 256 } }
                },
            },
        }
    } else {
        match word(ts, 1) {
            None => CommandSpec::TaskSleepUsage,
            Some(t) => match parse_number(t) {
                None => CommandSpec::TaskSleepBadId(t),
                Some(id) => match word(ts, 2) {
                    None => CommandSpec::TaskSleep { id, ticks: 100 },
                    Some(u) => match parse_number(u) {
                        None => CommandSpec::TaskSleepBadTicks(u),
                        Some(n) => if n == 0 { CommandSpec::TaskSleepZero } else { CommandSpec::TaskSleep { id, ticks: n } },
                    },
                },
            },
        }
    }
}

/// The command that a line holds.
pub open spec fn command_for(b: Seq<u8>) -> CommandSpec {
    let ts = tokens_from(b, 0);
    if ts.len() == 0 {
        CommandSpec::Empty
    } else {
        let c = ts[0];
        if c == lit("help") {
            CommandSpec::Help
        } else if c == lit("status") {
            CommandSpec::Status
        } else if c == lit("ticks") {
            CommandSpec::Ticks
        } else if c == lit("uptime") {
            CommandSpec::Uptime
        } else if c == lit("irq") {
            CommandSpec::Irq
        } else if c == lit("mem") {
            CommandSpec::Mem
        } else if c == lit("maps") {
            match word(ts, 1) {
                None => CommandSpec::Maps { limit: Some(12) },
                Some(t) => if t == lit("all") {
                    CommandSpec::Maps { limit: None }
                } else {
                    match parse_number(t) {
                        Some(n) => CommandSpec::Maps { limit: Some(n as usize) },
                        None => CommandSpec::InvalidMapsLimit(t),
                    }
                },
            }
        } else if c == lit("heap") {
            CommandSpec::Heap
        } else if c == lit("vm") {
            CommandSpec::Vm(address_arg(word(ts, 1)))
        } else if c == lit("vmmap") {
            CommandSpec::Vmmap(address_arg(word(ts, 1)))
        } else if c == lit("fault") {
            match word(ts, 1) {
                None => CommandSpec::Fault { address: 0xDEAD_BEEF },
                Some(t) => match parse_number(t) {
                    Some(a) => CommandSpec::Fault { address: a },
                    None => CommandSpec::InvalidFaultAddress(t),
                },
            }
        } else if c == lit("syscall") {
            command_syscall(ts)
        } else if c == lit("sysabi") {
            CommandSpec::SysAbi
        } else if c == lit("tasks") {
            CommandSpec::Tasks
        } else if c == lit("tasknew") || c == lit("taskstep") || c == lit("taskrun") || c == lit("tasksleep") {
            command_tasks(ts, c)
        } else if c == lit("userdemo") {
            CommandSpec::UserDemo
        } else if c == lit("usermode") {
            CommandSpec::UserMode
        } else if c == lit("usermode_syscall") {
            CommandSpec::UserModeSyscall
        } else if c == lit("usermode_syscall_fail") {
            CommandSpec::UserModeSyscallFail
        } else if c == lit("echo") {
            CommandSpec::Echo(echo_text(b))
        } else if c == lit("history") {
            CommandSpec::History
        } else if c == lit("clear") {
            CommandSpec::Clear
        } else if c == lit("exit") || c == lit("quit") {
            CommandSpec::Exit
        } else {
            CommandSpec::Unknown(c)
        }
    }
}

/// An ASCII text's bytes are its characters, one byte each.
pub proof fn lemma_ascii_literal_bytes(s: &str)
    requires
        vstd::string::is_ascii(s),
    ensures
        lit(s) == Seq::new(s@.len(), |i: int| s@[i] as u8),
{
    vstd::string::is_ascii_spec_bytes(s);
}

/// Two ASCII texts with different characters have different bytes.
pub proof fn lemma_ascii_literals_differ(a: &str, b: &str)
    requires
        vstd::string::is_ascii(a),
        vstd::string::is_ascii(b),
        a@ != b@,
    ensures
        lit(a) != lit(b),
{
    lemma_ascii_literal_bytes(a);
    lemma_ascii_literal_bytes(b);
    if lit(a) == lit(b) {
        assert forall|i: int| 0 <= i < a@.len() implies a@[i] == b@[i] by {
            assert(lit(a)[i] == lit(b)[i]);
        }
        assert(a@ =~= b@);
    }
}

proof fn lemma_token_end_of_word(b: Seq<u8>, i: int)
    requires
        0 <= i <= b.len(),
        forall|j: int| 0 <= j < b.len() ==> !is_ws(#[trigger] b[j]),
    ensures
        token_end(b, i) == b.len(),
    decreases b.len() - i,
{
    if i < b.len() {
        lemma_token_end_of_word(b, i + 1);
    }
}

/// A line that is one word, with no whitespace in it, has that word as its only
/// word.
pub proof fn lemma_single_word(b: Seq<u8>)
    requires
        b.len() > 0,
        forall|j: int| 0 <= j < b.len() ==> !is_ws(#[trigger] b[j]),
    ensures
        tokens_from(b, 0) == seq![b],
{
    lemma_token_end_of_word(b, 0);
    assert(skip_ws(b, 0) == 0);
    assert(skip_ws(b, b.len() as int) == b.len());
    assert(tokens_from(b, b.len() as int) =~= Seq::<Seq<u8>>::empty());
    assert(b.subrange(0, b.len() as int) =~= b);
    assert(tokens_from(b, 0) =~= seq![b]);
}

/// `taskrun` runs the number of steps it is given, but at most 256, and four
/// without a number; zero steps and text that is not a number are refused.
pub proof fn lemma_taskrun_steps(b: Seq<u8>)
    requires
        tokens_from(b, 0).len() >= 1,
        tokens_from(b, 0)[0] == lit("taskrun"),
    ensures
        tokens_from(b, 0).len() == 1 ==> command_for(b) == (CommandSpec::TaskRun { steps: 4 }),
        tokens_from(b, 0).len() >= 2 ==> ({
            let arg = tokens_from(b, 0)[1];
            match parse_number(arg) {
                None => command_for(b) == CommandSpec::TaskRunUsage(arg),
                Some(n) => {
                    &&& n == 0 ==> command_for(b) == CommandSpec::TaskRunZero
                    &&& n > 0 ==> (command_for(b) matches CommandSpec::TaskRun { steps }
                        && steps <= 256 && steps <= n
                        && (n <= 256 ==> steps == n)
                        && (n > 256 ==> steps == 256))
                },
            }
        }),
{
    reveal_strlit("taskrun");
    reveal_strlit("help");
    reveal_strlit("status");
    reveal_strlit("ticks");
    reveal_strlit("uptime");
    reveal_strlit("irq");
    reveal_strlit("mem");
    reveal_strlit("maps");
    reveal_strlit("heap");
    reveal_strlit("vm");
    reveal_strlit("vmmap");
    reveal_strlit("fault");
    reveal_strlit("syscall");
    reveal_strlit("sysabi");
    reveal_strlit("tasks");
    reveal_strlit("tasknew");
    reveal_strlit("taskstep");
    lemma_ascii_literals_differ("taskrun", "help");
    lemma_ascii_literals_differ("taskrun", "status");
    lemma_ascii_literals_differ("taskrun", "ticks");
    lemma_ascii_literals_differ("taskrun", "uptime");
    lemma_ascii_literals_differ("taskrun", "irq");
    lemma_ascii_literals_differ("taskrun", "mem");
    lemma_ascii_literals_differ("taskrun", "maps");
    lemma_ascii_literals_differ("taskrun", "heap");
    lemma_ascii_literals_differ("taskrun", "vm");
    lemma_ascii_literals_differ("taskrun", "vmmap");
    lemma_ascii_literals_differ("taskrun", "fault");
    assert("taskrun"@[0] != "syscall"@[0]);
    lemma_ascii_literals_differ("taskrun", "syscall");
    assert("taskrun"@[0] != "sysabi"@[0]);
    lemma_ascii_literals_differ("taskrun", "sysabi");
    lemma_ascii_literals_differ("taskrun", "tasks");
    assert("taskrun"@[4] != "tasknew"@[4]);
    lemma_ascii_literals_differ("taskrun", "tasknew");
    lemma_ascii_literals_differ("taskrun", "taskstep");
}

proof fn lemma_ascii_boundary(b: Seq<u8>, i: int)
    requires
        vstd::utf8::valid_utf8(b),
        all_ascii(b),
        0 <= i <= b.len(),
    ensures
        vstd::utf8::is_char_boundary(b, i),
{
    vstd::utf8::is_char_boundary_start_end_of_seq(b);
    if i < b.len() {
        vstd::utf8::is_char_boundary_iff_not_is_continuation_byte(b, i);
    }
}

/// The part `start..end` of an ASCII text.
fn ascii_slice<'a>(s: &'a str, start: usize, end: usize) -> (r: &'a str)
    requires
        all_ascii(s.spec_bytes()),
        start <= end <= s.spec_bytes().len(),
    ensures
        r.spec_bytes() == s.spec_bytes().subrange(start as int, end as int),
        all_ascii(r.spec_bytes()),
{
    proof {
        vstd::utf8::encode_utf8_valid_utf8(s@);
        lemma_ascii_boundary(s.spec_bytes(), start as int);
    }
    let (_, tail) = s.split_at(start);
    proof {
        vstd::utf8::encode_utf8_valid_utf8(tail@);
        assert(all_ascii(tail.spec_bytes()));
        lemma_ascii_boundary(tail.spec_bytes(), (end - start) as int);
    }
    let (r, _) = tail.split_at(end - start);
    assert(r.spec_bytes() =~= s.spec_bytes().subrange(start as int, end as int));
    r
}

/// The next word from `from` on: its start and end.
fn next_token(b: &[u8], from: usize) -> (r: Option<(usize, usize)>)
    requires
        from <= b@.len(),
    ensures
        skip_ws(b@, from as int) >= b@.len() ==> r is None,
        skip_ws(b@, from as int) < b@.len() ==> r is Some && r.unwrap().0 == skip_ws(b@, from as int)
            && r.unwrap().1 == token_end(b@, r.unwrap().0 as int) && r.unwrap().0 < r.unwrap().1 <= b@.len(),
{
    proof {
        lemma_skip_ws(b@, from as int);
    }
    let mut s = from;
    while s < b.len() && is_ws_byte(b[s])
        invariant
            from <= s <= b@.len(),
            skip_ws(b@, s as int) == skip_ws(b@, from as int),
        decreases b@.len() - s,
    {
        s += 1;
    }
    if s >= b.len() {
        return None;
    }
    proof {
        lemma_token_end(b@, s as int);
    }
    let mut e = s;
    while e < b.len() && !is_ws_byte(b[e])
        invariant
            s <= e <= b@.len(),
            token_end(b@, e as int) == token_end(b@, s as int),
        decreases b@.len() - e,
    {
        e += 1;
    }
    Some((s, e))
}

fn is_ws_byte(b: u8) -> (r: bool)
    ensures
        r == is_ws(b),
{
    (0x09 <= b && b <= 0x0D) || b == 0x20
}

/// The first five words of an ASCII text (`None` past the last word).
fn first_words<'a>(text: &'a str) -> (r: [Option<&'a str>; 5])
    requires
        all_ascii(text.spec_bytes()),
    ensures
        forall|k: int| 0 <= k < 5 ==> (#[trigger] r@[k] is Some <==> k < tokens_from(text.spec_bytes(), 0).len()),
        forall|k: int| 0 <= k < 5 && #[trigger] r@[k] is Some ==> r@[k].unwrap().spec_bytes() == tokens_from(text.spec_bytes(), 0)[k],
{
    let bytes = text.as_bytes();
    let ghost b = bytes@;
    let mut words: [Option<&'a str>; 5] = [None, None, None, None, None];
    let mut pos: usize = 0;
    let mut k: usize = 0;
    let mut done = false;
    while k < 5
        invariant
            k <= 5,
            pos <= b.len(),
            b == bytes@,
            b == text.spec_bytes(),
            all_ascii(b),
            done ==> tokens_from(b, 0).len() < k,
            !done ==> k <= tokens_from(b, 0).len(),
            !done ==> tokens_from(b, 0) == tokens_from(b, 0).take(k as int) + tokens_from(b, pos as int),
            forall|j: int| 0 <= j < k ==> (#[trigger] words@[j] is Some <==> j < tokens_from(b, 0).len()),
            forall|j: int| 0 <= j < k && #[trigger] words@[j] is Some ==> words@[j].unwrap().spec_bytes() == tokens_from(b, 0)[j],
            forall|j: int| k <= j < 5 ==> #[trigger] words@[j] is None,
        decreases 5 - k,
    {
        proof {
            lemma_skip_ws(b, pos as int);
        }
        let ghost ts = tokens_from(b, 0);
        if !done {
            match next_token(bytes, pos) {
                Some((s, e)) => {
                    proof {
                        lemma_token_end(b, s as int);
                        let rest = tokens_from(b, pos as int);
                        assert(rest =~= seq![b.subrange(s as int, e as int)] + tokens_from(b, e as int));
                        assert(ts[k as int] == b.subrange(s as int, e as int));
                        assert(ts =~= ts.take(k as int + 1) + tokens_from(b, e as int));
                    }
                    words[k] = Some(ascii_slice(text, s, e));
                    pos = e;
                },
                None => {
                    done = true;
                    proof {
                        assert(tokens_from(b, pos as int) =~= Seq::<Seq<u8>>::empty());
                        assert(ts.len() == k);
                    }
                },
            }
        }
        k += 1;
    }
    words
}

fn is_word(w: &str, literal: &str) -> (r: bool)
    ensures
        r == (w.spec_bytes() == literal.spec_bytes()),
{
    bytes_equal(w.as_bytes(), literal.as_bytes())
}

/// A numeric syscall argument: 0 when absent, `Err` with the text when it is not a number.
fn syscall_argument<'a>(w: Option<&'a str>) -> (r: Result<u64, &'a str>)
    ensures
        w is None ==> r == Ok::<u64, &'a str>(0),
        w is Some ==> match parse_number(w.unwrap().spec_bytes()) {
            Some(v) => r == Ok::<u64, &'a str>(v),
            None => r == Err::<u64, &'a str>(w.unwrap()),
        },
{
    match w {
        None => Ok(0),
        Some(text) => match parse_u64(text) {
            Some(v) => Ok(v),
            None => Err(text),
        },
    }
}

fn parse_address_arg<'a>(w: Option<&'a str>) -> (r: AddressArg<'a>)
    ensures
        r@ == address_arg(match w { Some(t) => Some(t.spec_bytes()), None => None }),
{
    match w {
        None => AddressArg::Default,
        Some(text) => match parse_u64(text) {
            Some(a) => AddressArg::Address(a),
            None => AddressArg::Invalid(text),
        },
    }
}

/// Reads a command line: the first word picks the command, the next words are its
/// arguments.
#[verifier::rlimit(80)]
#[verifier::spinoff_prover]
pub fn parse_command<'a>(line: &'a InputLine) -> (r: MonitorCommand<'a>)
    ensures
        r@ == command_for(line@.text),
{
    let bytes = line.as_bytes();
    let text = line.as_str();
    let ghost b = line@.text;
    assert(text.spec_bytes() == b);
    let words = first_words(text);
    let ghost ts = tokens_from(b, 0);
    assert(forall|k: int| 0 <= k < 5 ==> #[trigger] word(ts, k) == match words@[k] {
        Some(t) => Some(t.spec_bytes()),
        None => None::<Seq<u8>>,
    });
    let command = match words[0] {
        Some(c) => c,
        None => return MonitorCommand::Empty,
    };
    let w1 = words[1];
    let ghost o1 = word(ts, 1);
    assert(o1 == match w1 { Some(t) => Some(t.spec_bytes()), None => None::<Seq<u8>> });
    if is_word(command, "help") {
        MonitorCommand::Help
    } else if is_word(command, "status") {
        MonitorCommand::Status
    } else if is_word(command, "ticks") {
        MonitorCommand::Ticks
    } else if is_word(command, "uptime") {
        MonitorCommand::Uptime
    } else if is_word(command, "irq") {
        MonitorCommand::Irq
    } else if is_word(command, "mem") {
        MonitorCommand::Mem
    } else if is_word(command, "maps") {
        match w1 {
            None => MonitorCommand::Maps { limit: Some(12) },
            Some(raw) => {
                if is_word(raw, "all") {
                    MonitorCommand::Maps { limit: None }
                } else {
                    match parse_u64(raw) {
                        Some(parsed) => MonitorCommand::Maps { limit: Some(parsed as usize) },
                        None => MonitorCommand::InvalidMapsLimit(raw),
                    }
                }
            },
        }
    } else if is_word(command, "heap") {
        MonitorCommand::Heap
    } else if is_word(command, "vm") {
        MonitorCommand::Vm(parse_address_arg(w1))
    } else if is_word(command, "vmmap") {
        MonitorCommand::Vmmap(parse_address_arg(w1))
    } else if is_word(command, "fault") {
        match w1 {
            None => MonitorCommand::Fault { address: 0xDEAD_BEEF },
            Some(raw) => match parse_u64(raw) {
                Some(address) => MonitorCommand::Fault { address },
                None => MonitorCommand::InvalidFaultAddress(raw),
            },
        }
    } else if is_word(command, "syscall") {
        let number_text = match w1 {
            Some(t) => t,
            None => return MonitorCommand::SyscallUsage,
        };
        let number = match parse_u64(number_text) {
            Some(n) => n,
            None => return MonitorCommand::InvalidSyscallNumber(number_text),
        };
        let arg0 = match syscall_argument(words[2]) {
            Ok(v) => v,
            Err(text) => return MonitorCommand::InvalidSyscallArg { index: 0, text },
        };
        let arg1 = match syscall_argument(words[3]) {
            Ok(v) => v,
            Err(text) => return MonitorCommand::InvalidSyscallArg { index: 1, text },
        };
        let arg2 = match syscall_argument(words[4]) {
            Ok(v) => v,
            Err(text) => return MonitorCommand::InvalidSyscallArg { index: 2, text },
        };
        MonitorCommand::Syscall { number, arg0, arg1, arg2 }
    } else if is_word(command, "sysabi") {
        MonitorCommand::SysAbi
    } else if is_word(command, "tasks") {
        MonitorCommand::Tasks
    } else if is_word(command, "tasknew") {
        let kind_text = match w1 {
            Some(t) => t,
            None => "userdemo",
        };
        proof {
            vstd::utf8::encode_utf8_decode_utf8(kind_text@);
        }
        match parse_task_kind(kind_text) {
            Some(kind) => MonitorCommand::TaskNew(kind),
            None => MonitorCommand::TaskNewUsage(kind_text),
        }
    } else if is_word(command, "taskstep") {
        MonitorCommand::TaskStep
    } else if is_word(command, "taskrun") {
        match w1 {
            None => MonitorCommand::TaskRun { steps: 4 },
            Some(raw) => match parse_u64(raw) {
                None => MonitorCommand::TaskRunUsage(raw),
                Some(parsed) => {
                    if parsed == 0 {
                        MonitorCommand::TaskRunZero
                    } else {
                        MonitorCommand::TaskRun { steps: if parsed < 256 { parsed } else { 256 } }
                    }
                },
            },
        }
    } else if is_word(command, "tasksleep") {
        let raw_id = match w1 {
            Some(t) => t,
            None => return MonitorCommand::TaskSleepUsage,
        };
        let id = match parse_u64(raw_id) {
            Some(v) => v,
            None => return MonitorCommand::TaskSleepBadId(raw_id),
        };
        match words[2] {
            None => MonitorCommand::TaskSleep { id, ticks: 100 },
            Some(raw_ticks) => match parse_u64(raw_ticks) {
                None => MonitorCommand::TaskSleepBadTicks(raw_ticks),
                Some(parsed) => {
                    if parsed == 0 {
                        MonitorCommand::TaskSleepZero
                    } else {
                        MonitorCommand::TaskSleep { id, ticks: parsed }
                    }
                },
            },
        }
    } else if is_word(command, "userdemo") {
        MonitorCommand::UserDemo
    } else if is_word(command, "usermode") {
        MonitorCommand::UserMode
    } else if is_word(command, "usermode_syscall") {
        MonitorCommand::UserModeSyscall
    } else if is_word(command, "usermode_syscall_fail") {
        MonitorCommand::UserModeSyscallFail
    } else if is_word(command, "echo") {
        MonitorCommand::Echo(echo_argument(text))
    } else if is_word(command, "history") {
        MonitorCommand::History
    } else if is_word(command, "clear") {
        MonitorCommand::Clear
    } else if is_word(command, "exit") || is_word(command, "quit") {
        MonitorCommand::Exit
    } else {
        MonitorCommand::Unknown(command)
    }
}

/// The text after a leading `echo`, without the whitespace that follows it.
fn echo_argument<'a>(text: &'a str) -> (r: &'a str)
    requires
        all_ascii(text.spec_bytes()),
    ensures
        r.spec_bytes() == echo_text(text.spec_bytes()),
{
    let bytes = text.as_bytes();
    let ghost b = bytes@;
    let echo = "echo".as_bytes();
    if bytes.len() < 4 || echo.len() != 4 || !bytes_equal(&bytes[0..4], echo) {
        let empty = ascii_slice(text, 0, 0);
        assert(empty.spec_bytes() =~= Seq::<u8>::empty());
        proof {
            if b.len() >= 4 {
                assert(bytes@.subrange(0, 4) == b.subrange(0, 4));
            }
        }
        return empty;
    }
    proof { lemma_skip_ws(b, 4); }
    let mut start: usize = 4;
    while start < bytes.len() && is_ws_byte(bytes[start])
        invariant
            4 <= start <= b.len(),
            b == bytes@,
            skip_ws(b, start as int) == skip_ws(b, 4),
        decreases b.len() - start,
    {
        start += 1;
    }
    ascii_slice(text, start, bytes.len())
}

} // verus!
