//! The host runner's serial scripts: what a script file asks to be typed at the
//! monitor and how long to wait between lines.

use vstd::prelude::*;
use vstd::string::StringSliceAdditionalSpecFns;
use vstd::utf8::{decode_utf8, encode_utf8, valid_utf8, is_char_boundary, length_of_first_scalar, pop_first_scalar};
use crate::number::{parse_radix, parse_radix_bytes};
use crate::text::str_from_utf8;

verus! {

/// The characters with the Unicode `White_Space` property (`char::is_whitespace`).
pub open spec fn is_unicode_whitespace(c: char) -> bool {
    let v = c as u32;
    (0x09 <= v <= 0x0D) || v == 0x20 || v == 0x85 || v == 0xA0 || v == 0x1680 || (0x2000 <= v <= 0x200A)
        || v == 0x2028 || v == 0x2029 || v == 0x202F || v == 0x205F || v == 0x3000
}

/// A text without its trailing whitespace.
pub open spec fn trim_end_chars(s: Seq<char>) -> Seq<char>
    decreases s.len(),
{
    if s.len() > 0 && is_unicode_whitespace(s.last()) { trim_end_chars(s.drop_last()) } else { s }
}

/// `str::trim_end`: the text without its trailing Unicode whitespace.
#[verifier::external_body]
fn str_trim_end(s: &str) -> (r: &str)
    ensures
        r@ == trim_end_chars(s@),
{
    s.trim_end()
}

/// True for the bytes that `u8::is_ascii_whitespace` accepts.
pub open spec fn is_ascii_space(b: u8) -> bool {
    b == 0x20 || b == 0x09 || b == 0x0A || b == 0x0C || b == 0x0D
}

/// Where an inline comment starts: the first `#` at the start of the line or right
/// after whitespace.
pub open spec fn comment_start(b: Seq<u8>, from: int) -> Option<int>
    decreases b.len() - from,
{
    if from < 0 || from >= b.len() {
        None
    } else if b[from] == 0x23 && (from == 0 || is_ascii_space(b[from - 1])) {
        Some(from)
    } else {
        comment_start(b, from + 1)
    }
}

/// Cuts an inline comment (a `#` at the start or after whitespace) and the
/// whitespace before it; a line without one is returned as it is.
pub fn strip_inline_comment(line: &str) -> (r: &str)
    ensures
        ({
            let b = line.spec_bytes();
            match comment_start(b, 0) {
                None => r@ == line@,
                Some(i) => r@ == trim_end_chars(vstd::utf8::decode_utf8(b.subrange(0, i))),
            }
        }),
{
    let bytes = line.as_bytes();
    let ghost b = bytes@;
    let mut index: usize = 0;
    while index < bytes.len()
        invariant
            index <= b.len(),
            b == bytes@,
            b == line.spec_bytes(),
            comment_start(b, 0) == comment_start(b, index as int),
        decreases b.len() - index,
    {
        if bytes[index] == 0x23 && (index == 0 || is_ascii_whitespace_byte(bytes[index - 1])) {
            proof {
                vstd::utf8::encode_utf8_valid_utf8(line@);
                vstd::utf8::is_char_boundary_iff_not_is_continuation_byte(b, index as int);
            }
            let (head, _) = line.split_at(index);
            proof {
                vstd::utf8::encode_utf8_decode_utf8(head@);
            }
            return str_trim_end(head);
        }
        index += 1;
    }
    line
}

fn is_ascii_whitespace_byte(b: u8) -> (r: bool)
    ensures
        r == is_ascii_space(b),
{
    b == 0x20 || b == 0x09 || b == 0x0A || b == 0x0C || b == 0x0D
}

/// A script that is not UTF-8 text is sent as it is, except that without any `\r`
/// every `\n` becomes `\r`.
pub fn normalize_raw_script_bytes(bytes: Vec<u8>) -> (r: Vec<u8>)
    ensures
        bytes@.contains(0x0D) ==> r@ == bytes@,
        !bytes@.contains(0x0D) ==> r@ == bytes@.map_values(|b: u8| if b == 0x0A { 0x0Du8 } else { b }),
{
    let mut i: usize = 0;
    while i < bytes.len()
        invariant
            i <= bytes@.len(),
            forall|j: int| 0 <= j < i ==> bytes@[j] != 0x0D,
        decreases bytes@.len() - i,
    {
        if bytes[i] == 0x0D {
            return bytes;
        }
        i += 1;
    }
    let mut normalized: Vec<u8> = Vec::new();
    let mut k: usize = 0;
    while k < bytes.len()
        invariant
            k <= bytes@.len(),
            normalized@ == bytes@.take(k as int).map_values(|b: u8| if b == 0x0A { 0x0Du8 } else { b }),
        decreases bytes@.len() - k,
    {
        let byte = bytes[k];
        if byte == 0x0A {
            normalized.push(0x0D);
        } else {
            normalized.push(byte);
        }
        proof {
            assert(bytes@.take(k as int + 1).map_values(|b: u8| if b == 0x0A { 0x0Du8 } else { b })
                =~= bytes@.take(k as int).map_values(|b: u8| if b == 0x0A { 0x0Du8 } else { b }).push(
                if byte == 0x0A { 0x0Du8 } else { byte }));
        }
        k += 1;
    }
    assert(bytes@.take(bytes@.len() as int) =~= bytes@);
    normalized
}


/// A text without its leading whitespace.
pub open spec fn trim_start_chars(s: Seq<char>) -> Seq<char>
    decreases s.len(),
{
    if s.len() > 0 && is_unicode_whitespace(s[0]) { trim_start_chars(s.drop_first()) } else { s }
}

/// A text without leading and trailing whitespace.
pub open spec fn trim_chars(s: Seq<char>) -> Seq<char> {
    trim_start_chars(trim_end_chars(s))
}

/// `str::trim`: the text without leading and trailing Unicode whitespace.
#[verifier::external_body]
fn str_trim(s: &str) -> (r: &str)
    ensures
        r@ == trim_chars(s@),
{
    s.trim()
}

/// Where the first `\n` of `s` stands, or its length when there is none.
pub open spec fn first_newline(s: Seq<u8>) -> int
    decreases s.len(),
{
    if s.len() == 0 {
        0
    } else if s[0] == 0x0A {
        0
    } else {
        1 + first_newline(s.drop_first())
    }
}

proof fn lemma_first_newline(s: Seq<u8>, k: int)
    requires
        0 <= k <= s.len(),
        forall|i: int| 0 <= i < k ==> s[i] != 0x0A,
        k == s.len() || s[k] == 0x0A,
    ensures
        first_newline(s) == k,
    decreases s.len(),
{
    if s.len() > 0 && s[0] != 0x0A {
        lemma_first_newline(s.drop_first(), k - 1);
    }
}

pub proof fn lemma_first_newline_bounds(s: Seq<u8>)
    ensures
        0 <= first_newline(s) <= s.len(),
        first_newline(s) < s.len() ==> s[first_newline(s)] == 0x0A,
    decreases s.len(),
{
    if s.len() > 0 && s[0] != 0x0A {
        lemma_first_newline_bounds(s.drop_first());
    }
}

/// A line of the text that starts with `s`, as `str::lines` gives it: up to the
/// next `\n`, without a `\r` just before that `\n`.
pub open spec fn first_line(s: Seq<u8>) -> Seq<u8> {
    let k = first_newline(s);
    if k < s.len() && k > 0 && s[k - 1] == 0x0D { s.take(k - 1) } else { s.take(k) }
}

/// The text after the first line and its line ending.
pub open spec fn after_first_line(s: Seq<u8>) -> Seq<u8> {
    let k = first_newline(s);
    if k < s.len() { s.skip(k + 1) } else { Seq::empty() }
}

/// A position right after an ASCII byte of valid UTF-8 is a character boundary.
proof fn lemma_boundary_after_ascii(b: Seq<u8>, i: int)
    requires
        valid_utf8(b),
        0 < i <= b.len(),
        b[i - 1] <= 0x7F,
    ensures
        is_char_boundary(b, i),
    decreases b.len(),
{
    let n = length_of_first_scalar(b);
    let rest = pop_first_scalar(b);
    assert(valid_utf8(rest));
    if i - 1 >= n {
        assert(rest[i - n - 1] == b[i - 1]);
        lemma_boundary_after_ascii(rest, i - n);
    } else {
        assert(n == 1);
        assert(is_char_boundary(rest, 0));
    }
    assert(is_char_boundary(b, i) == is_char_boundary(rest, i - n));
}

/// The end of a valid UTF-8 prefix is a character boundary.
proof fn lemma_prefix_boundary(b: Seq<u8>, p: Seq<u8>)
    requires
        valid_utf8(b),
        valid_utf8(p),
        p.len() <= b.len(),
        b.take(p.len() as int) == p,
    ensures
        is_char_boundary(b, p.len() as int),
    decreases p.len(),
{
    if p.len() > 0 {
        assert(b[0] == p[0]);
        let n = length_of_first_scalar(p);
        assert(pop_first_scalar(b).take(p.len() - n) =~= pop_first_scalar(p));
        lemma_prefix_boundary(pop_first_scalar(b), pop_first_scalar(p));
    }
}


/// What a script asks of the runner: bytes to type, or a pause.
#[derive(Debug, PartialEq, Eq)]
pub enum SerialScriptAction {
    Send(Vec<u8>),
    SleepMs(u64),
}

/// A script action as a value.
pub enum ActionView {
    Send(Seq<u8>),
    SleepMs(u64),
}

impl View for SerialScriptAction {
    type V = ActionView;

    open spec fn view(&self) -> ActionView {
        match self {
            SerialScriptAction::Send(bytes) => ActionView::Send(bytes@),
            SerialScriptAction::SleepMs(ms) => ActionView::SleepMs(*ms),
        }
    }
}

/// The pause directives of a script.
#[derive(Debug, Clone, Copy, PartialEq, Eq)]
pub enum SleepDirective {
    /// `sleep <ms>`
    Sleep,
    /// `sleep_ms <ms>`
    SleepMs,
    /// `sleep_s <seconds>`
    SleepS,
}

impl SleepDirective {
    /// The directive as it is written in a script.
    pub fn name(&self) -> (r: &'static str)
        ensures
            *self == SleepDirective::Sleep ==> r@ == "sleep"@,
            *self == SleepDirective::SleepMs ==> r@ == "sleep_ms"@,
            *self == SleepDirective::SleepS ==> r@ == "sleep_s"@,
    {
        match self {
            SleepDirective::Sleep => "sleep",
            SleepDirective::SleepMs => "sleep_ms",
            SleepDirective::SleepS => "sleep_s",
        }
    }
}

/// Why a script cannot be run.
#[derive(Debug, PartialEq, Eq)]
pub enum ScriptError {
    /// A pause whose value is not a number; `line_number` counts from 1.
    InvalidSleep { line_number: usize, directive: SleepDirective, value: String },
    /// A script with nothing to send and nothing to wait for.
    NoActions,
}

/// A script error as a value.
pub enum ScriptErrorView {
    InvalidSleep { line_number: int, directive: SleepDirective, value: Seq<char> },
    NoActions,
}

impl View for ScriptError {
    type V = ScriptErrorView;

    open spec fn view(&self) -> ScriptErrorView {
        match self {
            ScriptError::InvalidSleep { line_number, directive, value } => ScriptErrorView::InvalidSleep {
                line_number: *line_number as int,
                directive: *directive,
                value: value@,
            },
            ScriptError::NoActions => ScriptErrorView::NoActions,
        }
    }
}

/// What one line of a script asks for.
pub enum LineOutcome {
    Skip,
    Act(ActionView),
    BadSleep(SleepDirective, Seq<char>),
}

/// A line with its inline comment cut off, as [`strip_inline_comment`] does it.
pub open spec fn without_comment(t: Seq<char>) -> Seq<char> {
    let b = encode_utf8(t);
    match comment_start(b, 0) {
        None => t,
        Some(i) => trim_end_chars(decode_utf8(b.subrange(0, i))),
    }
}

/// `n * scale`, or `u64::MAX` when that does not fit.
pub open spec fn saturating_product(n: u64, scale: u64) -> u64 {
    if n * scale > u64::MAX { u64::MAX } else { (n * scale) as u64 }
}

/// A pause of `value` units of `scale` milliseconds, when `value` is a number.
pub open spec fn sleep_outcome(d: SleepDirective, value: Seq<char>, scale: u64) -> LineOutcome {
    match parse_radix(encode_utf8(value), 10) {
        Some(n) => LineOutcome::Act(ActionView::SleepMs(saturating_product(n, scale))),
        None => LineOutcome::BadSleep(d, value),
    }
}

pub open spec fn has_prefix(b: Seq<u8>, p: Seq<u8>) -> bool {
    p.len() <= b.len() && b.take(p.len() as int) == p
}

/// The argument after a directive word: what follows it, trimmed.
pub open spec fn directive_value(lb: Seq<u8>, p: Seq<u8>) -> Seq<char> {
    trim_chars(decode_utf8(lb.skip(p.len() as int)))
}

/// What a line with text asks for: a pause directive, or the line itself followed
/// by a carriage return.
pub open spec fn directive_outcome(lb: Seq<u8>) -> LineOutcome {
    if has_prefix(lb, "sleep ".spec_bytes()) {
        sleep_outcome(SleepDirective::Sleep, directive_value(lb, "sleep ".spec_bytes()), 1)
    } else if has_prefix(lb, "sleep_ms ".spec_bytes()) {
        sleep_outcome(SleepDirective::SleepMs, directive_value(lb, "sleep_ms ".spec_bytes()), 1)
    } else if has_prefix(lb, "sleep_s ".spec_bytes()) {
        sleep_outcome(SleepDirective::SleepS, directive_value(lb, "sleep_s ".spec_bytes()), 1000)
    } else {
        LineOutcome::Act(ActionView::Send(lb.push(0x0D)))
    }
}

/// What a line of a script (its bytes, without the line ending) asks for: nothing
/// for a blank line, a comment line or a line that is only a comment.
#[verifier::opaque]
pub open spec fn line_outcome(raw: Seq<u8>) -> LineOutcome {
    let t = trim_chars(decode_utf8(raw));
    let tb = encode_utf8(t);
    if tb.len() == 0 || tb[0] == 0x23 {
        LineOutcome::Skip
    } else {
        let l = trim_chars(without_comment(t));
        if encode_utf8(l).len() == 0 {
            LineOutcome::Skip
        } else {
            directive_outcome(encode_utf8(l))
        }
    }
}

/// A bad pause directive and the line where it stands.
pub struct BadLine {
    pub line_number: int,
    pub directive: SleepDirective,
    pub value: Seq<char>,
}

/// The actions of the lines of `s`, the first of them numbered `n`, or the first
/// bad pause among them.
pub open spec fn lines_outcome(s: Seq<u8>, n: int) -> Result<Seq<ActionView>, BadLine>
    decreases s.len(),
{
    if s.len() == 0 {
        Ok(Seq::empty())
    } else {
        proof {
            lemma_first_newline_bounds(s);
        }
        let rest = lines_outcome(after_first_line(s), n + 1);
        match line_outcome(first_line(s)) {
            LineOutcome::Skip => rest,
            LineOutcome::Act(a) => match rest {
                Ok(acts) => Ok(seq![a] + acts),
                Err(e) => Err(e),
            },
            LineOutcome::BadSleep(d, v) => Err(BadLine { line_number: n, directive: d, value: v }),
        }
    }
}

/// The bytes of a script that is not text, as they are sent: with every `\n`
/// turned into `\r` unless the script already holds a `\r`.
pub open spec fn raw_script_bytes(b: Seq<u8>) -> Seq<u8> {
    if b.contains(0x0D) { b } else { b.map_values(|x: u8| if x == 0x0A { 0x0Du8 } else { x }) }
}

/// What a script file asks for, or why it cannot be run.
pub open spec fn script_result(b: Seq<u8>) -> Result<Seq<ActionView>, ScriptErrorView> {
    if !valid_utf8(b) {
        Ok(seq![ActionView::Send(raw_script_bytes(b))])
    } else {
        match lines_outcome(b, 1) {
            Err(e) => Err(ScriptErrorView::InvalidSleep {
                line_number: e.line_number,
                directive: e.directive,
                value: e.value,
            }),
            Ok(acts) => if acts.len() == 0 { Err(ScriptErrorView::NoActions) } else { Ok(acts) },
        }
    }
}

/// The actions of a list, as values.
pub open spec fn actions_view(v: Seq<SerialScriptAction>) -> Seq<ActionView> {
    v.map_values(|a: SerialScriptAction| a@)
}

pub open spec fn script_result_view(r: Result<Vec<SerialScriptAction>, ScriptError>) -> Result<Seq<ActionView>, ScriptErrorView> {
    match r {
        Ok(v) => Ok(actions_view(v@)),
        Err(e) => Err(e@),
    }
}


/// Where the first `\n` of `b` stands, or its length when there is none.
fn find_newline(b: &[u8]) -> (k: usize)
    ensures
        k == first_newline(b@),
{
    let mut k: usize = 0;
    while k < b.len() && b[k] != 0x0A
        invariant
            k <= b@.len(),
            forall|i: int| 0 <= i < k ==> b@[i] != 0x0A,
        decreases b@.len() - k,
    {
        k += 1;
    }
    proof {
        lemma_first_newline(b@, k as int);
    }
    k
}

/// `str::strip_prefix`: the text after `p` when the text starts with it.
fn strip_prefix<'a>(l: &'a str, p: &str) -> (r: Option<&'a str>)
    ensures
        r is Some <==> has_prefix(l.spec_bytes(), p.spec_bytes()),
        r matches Some(v) ==> v.spec_bytes() == l.spec_bytes().skip(p.spec_bytes().len() as int),
{
    let lb = l.as_bytes();
    let pb = p.as_bytes();
    if pb.len() > lb.len() {
        return None;
    }
    let mut i: usize = 0;
    while i < pb.len()
        invariant
            i <= pb@.len() <= lb@.len(),
            lb@ == l.spec_bytes(),
            pb@ == p.spec_bytes(),
            forall|j: int| 0 <= j < i ==> lb@[j] == pb@[j],
        decreases pb@.len() - i,
    {
        if lb[i] != pb[i] {
            assert(lb@.take(pb@.len() as int)[i as int] != pb@[i as int]);
            assert(lb@.take(pb@.len() as int) != pb@);
            return None;
        }
        i += 1;
    }
    assert(lb@.take(pb@.len() as int) =~= pb@);
    proof {
        vstd::utf8::encode_utf8_valid_utf8(l@);
        vstd::utf8::encode_utf8_valid_utf8(p@);
        lemma_prefix_boundary(lb@, pb@);
    }
    let (_, rest) = l.split_at(pb.len());
    Some(rest)
}

/// What a line asks for, with the text of a bad pause value.
enum LineAction<'a> {
    Skip,
    Act(SerialScriptAction),
    BadSleep(SleepDirective, &'a str),
}

impl<'a> View for LineAction<'a> {
    type V = LineOutcome;

    closed spec fn view(&self) -> LineOutcome {
        match self {
            LineAction::Skip => LineOutcome::Skip,
            LineAction::Act(a) => LineOutcome::Act(a@),
            LineAction::BadSleep(d, v) => LineOutcome::BadSleep(*d, v@),
        }
    }
}

fn sleep_action<'a>(d: SleepDirective, value: &'a str, scale: u64) -> (r: LineAction<'a>)
    ensures
        r@ == sleep_outcome(d, value@, scale),
{
    match parse_radix_bytes(value.as_bytes(), 10) {
        Some(n) => {
            let ms = match n.checked_mul(scale) {
                Some(v) => v,
                None => u64::MAX,
            };
            LineAction::Act(SerialScriptAction::SleepMs(ms))
        },
        None => LineAction::BadSleep(d, value),
    }
}

fn directive_action<'a>(l: &'a str) -> (r: LineAction<'a>)
    ensures
        r@ == directive_outcome(l.spec_bytes()),
{
    let lb = l.as_bytes();
    if let Some(rest) = strip_prefix(l, "sleep ") {
        let value = str_trim(rest);
        proof {
            vstd::utf8::encode_utf8_decode_utf8(rest@);
        }
        return sleep_action(SleepDirective::Sleep, value, 1);
    }
    if let Some(rest) = strip_prefix(l, "sleep_ms ") {
        let value = str_trim(rest);
        proof {
            vstd::utf8::encode_utf8_decode_utf8(rest@);
        }
        return sleep_action(SleepDirective::SleepMs, value, 1);
    }
    if let Some(rest) = strip_prefix(l, "sleep_s ") {
        let value = str_trim(rest);
        proof {
            vstd::utf8::encode_utf8_decode_utf8(rest@);
        }
        return sleep_action(SleepDirective::SleepS, value, 1000);
    }
    let mut command = vstd::slice::slice_to_vec(lb);
    command.push(0x0D);
    LineAction::Act(SerialScriptAction::Send(command))
}

fn line_action<'a>(raw: &'a str) -> (r: LineAction<'a>)
    ensures
        r@ == line_outcome(raw.spec_bytes()),
{
    proof {
        vstd::utf8::encode_utf8_decode_utf8(raw@);
        reveal(line_outcome);
    }
    let t = str_trim(raw);
    let tb = t.as_bytes();
    if tb.len() == 0 || tb[0] == 0x23 {
        return LineAction::Skip;
    }
    let l = str_trim(strip_inline_comment(t));
    if l.as_bytes().len() == 0 {
        return LineAction::Skip;
    }
    directive_action(l)
}


/// Actions already read, followed by what the rest of the script gives.
pub open spec fn after_actions(done: Seq<ActionView>, rest: Result<Seq<ActionView>, BadLine>) -> Result<Seq<ActionView>, BadLine> {
    match rest {
        Ok(acts) => Ok(done + acts),
        Err(e) => Err(e),
    }
}

/// Reads a serial script file: one action per line that is not blank or a comment
/// (a `#` at its start, or after whitespace for an inline one), where `sleep <ms>`,
/// `sleep_ms <ms>` and `sleep_s <seconds>` pause and any other line is sent with a
/// carriage return. A file that is not UTF-8 text is sent as it is, with `\n`
/// turned into `\r` when it has no `\r`. Fails at the first pause whose value is
/// not a number, and when nothing is left to do.
pub fn parse_serial_script(bytes: Vec<u8>) -> (r: Result<Vec<SerialScriptAction>, ScriptError>)
    ensures
        script_result_view(r) == script_result(bytes@),
{
    let ghost whole = bytes@;
    let total = bytes.len();
    let text = match str_from_utf8(bytes.as_slice()) {
        Some(t) => t,
        None => {
            let raw = normalize_raw_script_bytes(bytes);
            let mut single: Vec<SerialScriptAction> = Vec::new();
            single.push(SerialScriptAction::Send(raw));
            proof {
                assert(actions_view(single@) =~= seq![ActionView::Send(raw_script_bytes(whole))]);
            }
            return Ok(single);
        },
    };
    let mut rest: &str = text;
    let mut line_number: usize = 0;
    let mut actions: Vec<SerialScriptAction> = Vec::new();
    assert(actions_view(actions@) + Seq::empty() =~= Seq::<ActionView>::empty());
    while rest.as_bytes().len() > 0
        invariant
            valid_utf8(whole),
            whole == bytes@,
            whole.len() == total,
            line_number + rest.spec_bytes().len() <= whole.len(),
            lines_outcome(whole, 1) == after_actions(
                actions_view(actions@),
                lines_outcome(rest.spec_bytes(), line_number + 1),
            ),
        decreases rest.spec_bytes().len(),
    {
        let rb = rest.as_bytes();
        let ghost s = rb@;
        let k = find_newline(rb);
        proof {
            lemma_first_newline_bounds(s);
            vstd::utf8::encode_utf8_valid_utf8(rest@);
            vstd::utf8::is_char_boundary_start_end_of_seq(s);
            if k < s.len() {
                vstd::utf8::is_char_boundary_iff_not_is_continuation_byte(s, k as int);
            }
        }
        let (head, tail) = rest.split_at(k);
        let line = if k < rb.len() && k > 0 && rb[k - 1] == 0x0D {
            proof {
                vstd::utf8::encode_utf8_valid_utf8(head@);
                vstd::utf8::is_char_boundary_iff_not_is_continuation_byte(head.spec_bytes(), k - 1);
            }
            let (without_cr, _) = head.split_at(k - 1);
            assert(without_cr.spec_bytes() =~= s.take(k - 1));
            without_cr
        } else {
            assert(head.spec_bytes() =~= s.take(k as int));
            head
        };
        assert(line.spec_bytes() == first_line(s));
        line_number += 1;
        let ghost done = actions_view(actions@);
        match line_action(line) {
            LineAction::Skip => {},
            LineAction::Act(a) => {
                actions.push(a);
                proof {
                    assert(actions_view(actions@) =~= done.push(a@));
                    match lines_outcome(after_first_line(s), line_number + 1) {
                        Ok(acts) => {
                            assert(done.push(a@) + acts =~= done + (seq![a@] + acts));
                        },
                        Err(_) => {},
                    }
                }
            },
            LineAction::BadSleep(d, v) => {
                assert(lines_outcome(s, line_number as int) == Err::<Seq<ActionView>, BadLine>(
                    BadLine { line_number: line_number as int, directive: d, value: v@ },
                ));
                let value = v.to_owned();
                return Err(ScriptError::InvalidSleep { line_number, directive: d, value });
            },
        }
        if k < rb.len() {
            proof {
                vstd::utf8::encode_utf8_valid_utf8(tail@);
                lemma_boundary_after_ascii(tail.spec_bytes(), 1);
            }
            let (_, next) = tail.split_at(1);
            assert(next.spec_bytes() =~= after_first_line(s));
            rest = next;
        } else {
            assert(tail.spec_bytes() =~= after_first_line(s));
            rest = tail;
        }
    }
    assert(rest.spec_bytes().len() == 0);
    assert(actions_view(actions@) + Seq::empty() =~= actions_view(actions@));
    if actions.len() == 0 {
        return Err(ScriptError::NoActions);
    }
    Ok(actions)
}


/// True when the bytes end with the marker.
pub open spec fn ends_with(seen: Seq<u8>, marker: Seq<u8>) -> bool {
    marker.len() <= seen.len() && seen.skip(seen.len() - marker.len()) == marker
}

/// The last bytes of `seen`, as many as the marker has (or all of them when fewer).
pub open spec fn marker_window(seen: Seq<u8>, n: nat) -> Seq<u8> {
    if seen.len() <= n { seen } else { seen.skip(seen.len() - n) }
}

/// Watches the output of the machine for the line the monitor prints when it is
/// ready for input: it keeps the last bytes seen, as many as the marker has.
pub struct ReadyMarkerScanner {
    marker: Vec<u8>,
    window: Vec<u8>,
    seen: Ghost<Seq<u8>>,
}

impl ReadyMarkerScanner {
    /// The window holds the last bytes seen, as many as the marker has.
    pub closed spec fn wf(self) -> bool {
        &&& self.marker@.len() > 0
        &&& self.window@ == marker_window(self.seen@, self.marker@.len())
    }

    /// The marker watched for.
    pub closed spec fn marker(self) -> Seq<u8> {
        self.marker@
    }

    /// Every byte fed so far.
    pub closed spec fn seen(self) -> Seq<u8> {
        self.seen@
    }

    /// A scanner that has seen nothing yet.
    pub fn new(marker: &[u8]) -> (r: Self)
        requires
            marker@.len() > 0,
        ensures
            r.wf(),
            r.marker() == marker@,
            r.seen() == Seq::<u8>::empty(),
    {
        ReadyMarkerScanner {
            marker: vstd::slice::slice_to_vec(marker),
            window: Vec::new(),
            seen: Ghost(Seq::empty()),
        }
    }

    /// Takes the next byte of output; true when the output now ends with the marker.
    pub fn feed(&mut self, byte: u8) -> (found: bool)
        requires
            old(self).wf(),
        ensures
            final(self).wf(),
            final(self).marker() == old(self).marker(),
            final(self).seen() == old(self).seen().push(byte),
            found == ends_with(final(self).seen(), final(self).marker()),
    {
        let ghost before = self.seen@;
        let ghost n = self.marker@.len();
        let ghost after = before.push(byte);
        if self.window.len() == self.marker.len() {
            self.window.remove(0);
        }
        self.window.push(byte);
        self.seen = Ghost(after);
        proof {
            if before.len() >= n {
                assert(self.window@ =~= after.skip(after.len() - n));
            } else {
                assert(self.window@ =~= after);
            }
        }
        let found = crate::text::bytes_equal(self.window.as_slice(), self.marker.as_slice());
        proof {
            if after.len() < n {
                assert(self.window@.len() < n);
                assert(self.window@ != self.marker@);
            } else {
                assert(self.window@ == after.skip(after.len() - n));
            }
        }
        found
    }
}


/// The runner's base delay, in milliseconds, for the monitor's ready line.
pub const DEFAULT_SERIAL_SCRIPT_DELAY_MS: u64 = 6000;

/// How long the runner waits for the monitor's ready line before it types the
/// script anyway: five times the base delay, saturating.
pub fn ready_marker_wait_ms(delay_ms: u64) -> (r: u64)
    ensures
        r == if delay_ms * 5 > u64::MAX { u64::MAX } else { (delay_ms * 5) as u64 },
{
    match delay_ms.checked_mul(5) {
        Some(v) => v,
        None => u64::MAX,
    }
}

} // verus!
