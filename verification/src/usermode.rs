//! Ring-3 demo programs: machine-code assembly for the fast-syscall demos, their
//! reports, and the bookkeeping of a user-mode session.

use vstd::prelude::*;
use crate::syscall::{SyscallRegisters, SYSCALL_ADD, SYSCALL_GET_TICKS, SYSCALL_STATUS_OK,
    SYSCALL_STATUS_OVERFLOW, SYSCALL_STATUS_UNKNOWN_NUMBER};

verus! {

pub const USERMODE_EXIT_INTERRUPT_VECTOR: u8 = 0x81;
pub const USER_CODE_START: u64 = 0x0000_6666_0000_0000;
pub const USER_STACK_START: u64 = 0x0000_6666_0000_8000;
pub const USER_STACK_TOP: u64 = 0x0000_6666_0000_A000;

/// A syscall number that no handler serves.
pub const USER_FAST_SYSCALL_UNKNOWN_NUMBER: u32 = 0xFFFF_FF00;

/// Capacity of a demo program, in bytes.
pub const USER_CODE_MAX_BYTES: usize = 256;

/// Where a user-mode program starts and where its stack begins.
#[derive(Debug, Clone, Copy, PartialEq, Eq, Structural)]
pub struct UserModeContext {
    pub entry: u64,
    pub stack_top: u64,
}

#[derive(Debug, Clone, Copy, PartialEq, Eq, Structural)]
pub enum FastSyscallDemoKind {
    SuccessPath,
    ErrorPath,
}

/// The values and statuses that the two syscalls of a fast-syscall demo returned.
#[derive(Debug, Clone, Copy, PartialEq, Eq, Structural)]
pub struct FastSyscallDemoReport {
    pub kind: FastSyscallDemoKind,
    pub call0_value: u64,
    pub call0_status: u64,
    pub call1_value: u64,
    pub call1_status: u64,
}

impl FastSyscallDemoReport {
    pub fn kind_name(self) -> (r: &'static str)
        ensures
            r == match self.kind {
                FastSyscallDemoKind::SuccessPath => "success-path",
                FastSyscallDemoKind::ErrorPath => "error-path",
            },
    {
        match self.kind {
            FastSyscallDemoKind::SuccessPath => "success-path",
            FastSyscallDemoKind::ErrorPath => "error-path",
        }
    }

    pub fn expected_summary(self) -> (r: &'static str)
        ensures
            r == match self.kind {
                FastSyscallDemoKind::SuccessPath => "call0 status=0; call1 value=42 status=0 (SYSCALL_ADD 40+2)",
                FastSyscallDemoKind::ErrorPath => "call0 value=0xffff_ff00 status=1 (unknown syscall); call1 value=0 status=2 (overflow)",
            },
    {
        match self.kind {
            FastSyscallDemoKind::SuccessPath => {
                "call0 status=0; call1 value=42 status=0 (SYSCALL_ADD 40+2)"
            },
            FastSyscallDemoKind::ErrorPath => {
                "call0 value=0xffff_ff00 status=1 (unknown syscall); call1 value=0 status=2 (overflow)"
            },
        }
    }

    /// Whether the demo got the results it was built to provoke.
    pub fn passed(self) -> (r: bool)
        ensures
            r == match self.kind {
                FastSyscallDemoKind::SuccessPath => self.call0_status == SYSCALL_STATUS_OK
                    && self.call1_value == 42 && self.call1_status == SYSCALL_STATUS_OK,
                FastSyscallDemoKind::ErrorPath => self.call0_value == USER_FAST_SYSCALL_UNKNOWN_NUMBER
                    && self.call0_status == SYSCALL_STATUS_UNKNOWN_NUMBER && self.call1_value == 0
                    && self.call1_status == SYSCALL_STATUS_OVERFLOW,
            },
    {
        match self.kind {
            FastSyscallDemoKind::SuccessPath => {
                self.call0_status == SYSCALL_STATUS_OK && self.call1_value == 42
                    && self.call1_status == SYSCALL_STATUS_OK
            },
            FastSyscallDemoKind::ErrorPath => {
                self.call0_value == USER_FAST_SYSCALL_UNKNOWN_NUMBER as u64 && self.call0_status
                    == SYSCALL_STATUS_UNKNOWN_NUMBER && self.call1_value == 0 && self.call1_status
                    == SYSCALL_STATUS_OVERFLOW
            },
        }
    }
}

/// Byte `k` of the little-endian encoding of `v`.
pub open spec fn le_byte(v: u64, k: int) -> u8 {
    ((v >> (8 * k) as u64) & 0xff) as u8
}

/// The `n`-byte little-endian encoding of `v`.
pub open spec fn le_bytes(v: u64, n: nat) -> Seq<u8> {
    Seq::new(n, |k: int| le_byte(v, k))
}

/// An assembled program.
pub struct UserCode {
    bytes: [u8; USER_CODE_MAX_BYTES],
    len: usize,
}

impl View for UserCode {
    type V = Seq<u8>;

    closed spec fn view(&self) -> Seq<u8> {
        self.bytes@.subrange(0, self.len as int)
    }
}

impl UserCode {
    #[verifier::type_invariant]
    spec fn inv(self) -> bool {
        self.len <= USER_CODE_MAX_BYTES
    }

    /// The program's bytes.
    pub fn as_slice(&self) -> (r: &[u8])
        ensures
            r@ == self@,
    {
        proof { use_type_invariant(self); }
        &self.bytes[0..self.len]
    }
}

/// Assembles a program into a fixed buffer.
pub struct UserCodeBuilder {
    bytes: [u8; USER_CODE_MAX_BYTES],
    len: usize,
}

impl View for UserCodeBuilder {
    type V = Seq<u8>;

    closed spec fn view(&self) -> Seq<u8> {
        self.bytes@.subrange(0, self.len as int)
    }
}

/// The code after emitting `b`: appended when it fits, unchanged otherwise.
pub open spec fn after_emit(code: Seq<u8>, b: Seq<u8>) -> Seq<u8> {
    if code.len() + b.len() <= USER_CODE_MAX_BYTES { code + b } else { code }
}

/// The code after emitting the parts in order, stopping at the first part that
/// does not fit: what the builder holds after a sequence of emits that each
/// refuse to overflow and that give up at the first refusal.
pub open spec fn emit_parts(code: Seq<u8>, parts: Seq<Seq<u8>>) -> Seq<u8>
    decreases parts.len(),
{
    if parts.len() == 0 {
        code
    } else if code.len() + parts[0].len() <= USER_CODE_MAX_BYTES {
        emit_parts(code + parts[0], parts.drop_first())
    } else {
        code
    }
}

/// True when every part fits in turn.
pub open spec fn parts_fit(code: Seq<u8>, parts: Seq<Seq<u8>>) -> bool
    decreases parts.len(),
{
    parts.len() == 0 || (code.len() + parts[0].len() <= USER_CODE_MAX_BYTES && parts_fit(
        code + parts[0],
        parts.drop_first(),
    ))
}

/// The parts one after the other.
pub open spec fn concat_parts(parts: Seq<Seq<u8>>) -> Seq<u8>
    decreases parts.len(),
{
    if parts.len() == 0 { Seq::empty() } else { parts[0] + concat_parts(parts.drop_first()) }
}

/// Emitting `a` then `b` is emitting `a + b`, where the emission of `b` only
/// happens when all of `a` fit.
pub proof fn lemma_emit_concat(code: Seq<u8>, a: Seq<Seq<u8>>, b: Seq<Seq<u8>>)
    ensures
        parts_fit(code, a + b) == (parts_fit(code, a) && parts_fit(emit_parts(code, a), b)),
        emit_parts(code, a + b) == if parts_fit(code, a) { emit_parts(emit_parts(code, a), b) } else { emit_parts(code, a) },
    decreases a.len(),
{
    if a.len() == 0 {
        assert(a + b =~= b);
    } else {
        assert((a + b).drop_first() =~= a.drop_first() + b);
        assert((a + b)[0] == a[0]);
        lemma_emit_concat(code + a[0], a.drop_first(), b);
    }
}

/// When every part fits, the code grows by all of them.
pub proof fn lemma_emit_parts_fit(code: Seq<u8>, parts: Seq<Seq<u8>>)
    requires
        code.len() <= USER_CODE_MAX_BYTES,
    ensures
        parts_fit(code, parts) == (code.len() + concat_parts(parts).len() <= USER_CODE_MAX_BYTES),
        parts_fit(code, parts) ==> emit_parts(code, parts) == code + concat_parts(parts),
    decreases parts.len(),
{
    if parts.len() > 0 {
        assert(code + parts[0] + concat_parts(parts.drop_first()) =~= code + concat_parts(parts));
        if code.len() + parts[0].len() > USER_CODE_MAX_BYTES {
            assert(code.len() + concat_parts(parts).len() > USER_CODE_MAX_BYTES);
        } else {
            lemma_emit_parts_fit(code + parts[0], parts.drop_first());
        }
    }
}

/// A two-part instruction: an opcode and its immediate.
pub open spec fn two_parts(op: Seq<u8>, imm: Seq<u8>) -> Seq<Seq<u8>> {
    seq![op, imm]
}

proof fn lemma_one_part(code: Seq<u8>, a: Seq<u8>)
    ensures
        emit_parts(code, seq![a]) == after_emit(code, a),
        parts_fit(code, seq![a]) == (code.len() + a.len() <= USER_CODE_MAX_BYTES),
{
    reveal_with_fuel(emit_parts, 2);
    reveal_with_fuel(parts_fit, 2);
    assert(seq![a].drop_first() =~= Seq::<Seq<u8>>::empty());
}

proof fn lemma_concat_parts_append(a: Seq<Seq<u8>>, b: Seq<Seq<u8>>)
    ensures
        concat_parts(a + b) == concat_parts(a) + concat_parts(b),
    decreases a.len(),
{
    if a.len() == 0 {
        assert(a + b =~= b);
        assert(concat_parts(a) + concat_parts(b) =~= concat_parts(b));
    } else {
        assert((a + b).drop_first() =~= a.drop_first() + b);
        assert((a + b)[0] == a[0]);
        lemma_concat_parts_append(a.drop_first(), b);
        assert(a[0] + (concat_parts(a.drop_first()) + concat_parts(b)) =~= concat_parts(a) + concat_parts(b));
    }
}

proof fn lemma_concat_small(a: Seq<u8>, b: Seq<u8>)
    ensures
        concat_parts(seq![a]) == a,
        concat_parts(two_parts(a, b)) == a + b,
{
    reveal_with_fuel(concat_parts, 3);
    assert(seq![a].drop_first() =~= Seq::<Seq<u8>>::empty());
    assert(two_parts(a, b).drop_first() =~= seq![b]);
    assert(seq![b].drop_first() =~= Seq::<Seq<u8>>::empty());
    assert(a + Seq::<u8>::empty() =~= a);
    assert(a + (b + Seq::<u8>::empty()) =~= a + b);
}

proof fn lemma_two_parts(code: Seq<u8>, a: Seq<u8>, b: Seq<u8>)
    ensures
        emit_parts(code, two_parts(a, b)) == if code.len() + a.len() <= USER_CODE_MAX_BYTES {
            after_emit(code + a, b)
        } else {
            code
        },
        parts_fit(code, two_parts(a, b)) == (code.len() + a.len() + b.len() <= USER_CODE_MAX_BYTES),
{
    reveal_with_fuel(emit_parts, 3);
    reveal_with_fuel(parts_fit, 3);
    let p = two_parts(a, b);
    assert(p.drop_first() =~= seq![b]);
    assert(seq![b].drop_first() =~= Seq::<Seq<u8>>::empty());
}

/// The message of a program that does not fit.
pub open spec fn too_long() -> Result<(), &'static str> {
    Err("user mode demo code exceeded max length")
}

/// `mov eax, imm32`.
pub open spec fn mov_eax_imm32(v: u32) -> Seq<u8> {
    seq![0xB8u8] + le_bytes(v as u64, 4)
}

/// `mov rdi, imm64`.
pub open spec fn mov_rdi_imm64(v: u64) -> Seq<u8> {
    seq![0x48u8, 0xBFu8] + le_bytes(v, 8)
}

/// `mov rsi, imm64`.
pub open spec fn mov_rsi_imm64(v: u64) -> Seq<u8> {
    seq![0x48u8, 0xBEu8] + le_bytes(v, 8)
}

/// `mov rdx, imm64`.
pub open spec fn mov_rdx_imm64(v: u64) -> Seq<u8> {
    seq![0x48u8, 0xBAu8] + le_bytes(v, 8)
}

/// Loads a syscall number and three arguments, then executes `syscall`.
pub open spec fn syscall_sequence(number: u32, arg0: u64, arg1: u64, arg2: u64) -> Seq<u8> {
    mov_eax_imm32(number) + mov_rdi_imm64(arg0) + mov_rsi_imm64(arg1) + mov_rdx_imm64(arg2)
        + seq![0x0Fu8, 0x05u8]
}

/// A syscall whose value lands in r8 and status in r9.
pub open spec fn capture_slot0(number: u32, arg0: u64, arg1: u64, arg2: u64) -> Seq<u8> {
    syscall_sequence(number, arg0, arg1, arg2) + seq![0x49u8, 0x89u8, 0xC0u8]
        + seq![0x4Du8, 0x89u8, 0xD1u8]
}

/// A syscall whose status lands in r12 and value in r10.
pub open spec fn capture_slot1(number: u32, arg0: u64, arg1: u64, arg2: u64) -> Seq<u8> {
    syscall_sequence(number, arg0, arg1, arg2) + seq![0x4Du8, 0x89u8, 0xD4u8]
        + seq![0x49u8, 0x89u8, 0xC2u8]
}

/// The emits of a syscall whose value lands in r8 and status in r9, one part per
/// emit.
pub open spec fn slot0_parts(number: u32, arg0: u64, arg1: u64, arg2: u64) -> Seq<Seq<u8>> {
    load_parts(number, arg0, arg1, arg2) + (seq![seq![0x0Fu8, 0x05u8]] + (seq![seq![0x49u8, 0x89u8, 0xC0u8]]
        + seq![seq![0x4Du8, 0x89u8, 0xD1u8]]))
}

/// The emits of a syscall whose status lands in r12 and value in r10.
pub open spec fn slot1_parts(number: u32, arg0: u64, arg1: u64, arg2: u64) -> Seq<Seq<u8>> {
    load_parts(number, arg0, arg1, arg2) + (seq![seq![0x0Fu8, 0x05u8]] + (seq![seq![0x4Du8, 0x89u8, 0xD4u8]]
        + seq![seq![0x49u8, 0x89u8, 0xC2u8]]))
}

/// The emits that load a syscall number and its three arguments.
pub open spec fn load_parts(number: u32, arg0: u64, arg1: u64, arg2: u64) -> Seq<Seq<u8>> {
    two_parts(seq![0xB8u8], le_bytes(number as u64, 4)) + (two_parts(seq![0x48u8, 0xBFu8], le_bytes(arg0, 8))
        + (two_parts(seq![0x48u8, 0xBEu8], le_bytes(arg1, 8)) + two_parts(seq![0x48u8, 0xBAu8], le_bytes(arg2, 8))))
}

/// `int 0x81` back to the monitor, then `jmp $`.
pub open spec fn exit_sequence() -> Seq<u8> {
    seq![0xCDu8, USERMODE_EXIT_INTERRUPT_VECTOR] + seq![0xEBu8, 0xFEu8]
}

/// The success-path demo: reads the tick count, then adds 40 and 2.
pub open spec fn success_program() -> Seq<u8> {
    capture_slot0(SYSCALL_GET_TICKS as u32, 0, 0, 0) + capture_slot1(SYSCALL_ADD as u32, 40, 2, 0)
        + exit_sequence()
}

/// The error-path demo: an unknown syscall, then an addition that overflows.
pub open spec fn error_program() -> Seq<u8> {
    capture_slot0(USER_FAST_SYSCALL_UNKNOWN_NUMBER, 0, 0, 0) + capture_slot1(SYSCALL_ADD as u32, u64::MAX, 1, 0)
        + exit_sequence()
}

/// The interrupt demo: `mov eax, 0; int 0x80; int 0x81; jmp $`.
pub open spec fn interrupt_program() -> Seq<u8> {
    seq![0xB8u8, 0x00u8, 0x00u8, 0x00u8, 0x00u8, 0xCDu8, 0x80u8, 0xCDu8, 0x81u8, 0xEBu8, 0xFEu8]
}

impl UserCodeBuilder {
    #[verifier::type_invariant]
    spec fn inv(self) -> bool {
        self.len <= USER_CODE_MAX_BYTES
    }

    pub fn new() -> (r: Self)
        ensures
            r@ == Seq::<u8>::empty(),
    {
        let r = Self { bytes: [0; USER_CODE_MAX_BYTES], len: 0 };
        assert(r@ =~= Seq::<u8>::empty());
        r
    }

    pub fn finish(self) -> (r: UserCode)
        ensures
            r@ == self@,
    {
        proof { use_type_invariant(&self); }
        UserCode { bytes: self.bytes, len: self.len }
    }

    pub fn emit_byte(&mut self, byte: u8) -> (r: Result<(), &'static str>)
        ensures
            final(self)@ == after_emit(old(self)@, seq![byte]),
            r == if old(self)@.len() + 1 <= USER_CODE_MAX_BYTES { Ok(()) } else { too_long() },
    {
        proof { use_type_invariant(&*self); }
        if self.len >= USER_CODE_MAX_BYTES {
            return Err("user mode demo code exceeded max length");
        }
        let mut bytes = self.bytes;
        bytes[self.len] = byte;
        let ghost old_code = self@;
        *self = Self { bytes, len: self.len + 1 };
        assert(self@ =~= old_code + seq![byte]);
        Ok(())
    }

    pub fn emit_bytes(&mut self, bytes: &[u8]) -> (r: Result<(), &'static str>)
        ensures
            final(self)@ == after_emit(old(self)@, bytes@),
            r == if old(self)@.len() + bytes@.len() <= USER_CODE_MAX_BYTES { Ok(()) } else { too_long() },
    {
        proof { use_type_invariant(&*self); }
        if bytes.len() > USER_CODE_MAX_BYTES - self.len {
            return Err("user mode demo code exceeded max length");
        }
        let ghost old_code = self@;
        let len = self.len;
        let n = bytes.len();
        let mut buf = self.bytes;
        let mut k: usize = 0;
        while k < n
            invariant
                k <= n,
                n == bytes@.len(),
                len + n <= USER_CODE_MAX_BYTES,
                buf@.len() == USER_CODE_MAX_BYTES,
                old_code == self.bytes@.subrange(0, len as int),
                forall|i: int| 0 <= i < len ==> buf@[i] == self.bytes@[i],
                forall|i: int| 0 <= i < k ==> buf@[len + i] == bytes@[i],
            decreases n - k,
        {
            buf[len + k] = bytes[k];
            k += 1;
        }
        *self = Self { bytes: buf, len: len + n };
        assert(self@ =~= old_code + bytes@);
        Ok(())
    }

    fn emit_le(&mut self, value: u64, width: usize) -> (r: Result<(), &'static str>)
        requires
            width == 4 || width == 8,
        ensures
            final(self)@ == after_emit(old(self)@, le_bytes(value, width as nat)),
            r == if old(self)@.len() + width <= USER_CODE_MAX_BYTES { Ok(()) } else { too_long() },
    {
        let mut buf = [0u8; 8];
        let mut k: usize = 0;
        while k < width
            invariant
                k <= width <= 8,
                buf@.len() == 8,
                forall|i: int| 0 <= i < k ==> buf@[i] == le_byte(value, i),
            decreases width - k,
        {
            buf[k] = ((value >> (8 * k) as u64) & 0xff) as u8;
            k += 1;
        }
        let slice = &buf[0..width];
        assert(slice@ =~= le_bytes(value, width as nat));
        self.emit_bytes(slice)
    }

    pub fn emit_mov_eax_imm32(&mut self, value: u32) -> (r: Result<(), &'static str>)
        ensures
            final(self)@ == emit_parts(old(self)@, two_parts(seq![0xB8u8], le_bytes(value as u64, 4))),
            r == if old(self)@.len() + 5 <= USER_CODE_MAX_BYTES { Ok(()) } else { too_long() },
            old(self)@.len() + 5 <= USER_CODE_MAX_BYTES ==> final(self)@ == old(self)@ + mov_eax_imm32(value),
    {
        proof {
            lemma_two_parts(old(self)@, seq![0xB8u8], le_bytes(value as u64, 4));
        }
        self.emit_byte(0xB8)?;
        let r = self.emit_le(value as u64, 4);
        assert(old(self)@ + seq![0xB8u8] + le_bytes(value as u64, 4) =~= old(self)@ + mov_eax_imm32(value));
        r
    }

    pub fn emit_mov_rdi_imm64(&mut self, value: u64) -> (r: Result<(), &'static str>)
        ensures
            final(self)@ == emit_parts(old(self)@, two_parts(seq![0x48u8, 0xBFu8], le_bytes(value, 8))),
            r == if old(self)@.len() + 10 <= USER_CODE_MAX_BYTES { Ok(()) } else { too_long() },
            old(self)@.len() + 10 <= USER_CODE_MAX_BYTES ==> final(self)@ == old(self)@ + mov_rdi_imm64(value),
    {
        proof {
            lemma_two_parts(old(self)@, seq![0x48u8, 0xBFu8], le_bytes(value, 8));
        }
        self.emit_bytes(&[0x48, 0xBF])?;
        let r = self.emit_le(value, 8);
        assert(old(self)@ + seq![0x48u8, 0xBFu8] + le_bytes(value, 8) =~= old(self)@ + mov_rdi_imm64(value));
        r
    }

    pub fn emit_mov_rsi_imm64(&mut self, value: u64) -> (r: Result<(), &'static str>)
        ensures
            final(self)@ == emit_parts(old(self)@, two_parts(seq![0x48u8, 0xBEu8], le_bytes(value, 8))),
            r == if old(self)@.len() + 10 <= USER_CODE_MAX_BYTES { Ok(()) } else { too_long() },
            old(self)@.len() + 10 <= USER_CODE_MAX_BYTES ==> final(self)@ == old(self)@ + mov_rsi_imm64(value),
    {
        proof {
            lemma_two_parts(old(self)@, seq![0x48u8, 0xBEu8], le_bytes(value, 8));
        }
        self.emit_bytes(&[0x48, 0xBE])?;
        let r = self.emit_le(value, 8);
        assert(old(self)@ + seq![0x48u8, 0xBEu8] + le_bytes(value, 8) =~= old(self)@ + mov_rsi_imm64(value));
        r
    }

    pub fn emit_mov_rdx_imm64(&mut self, value: u64) -> (r: Result<(), &'static str>)
        ensures
            final(self)@ == emit_parts(old(self)@, two_parts(seq![0x48u8, 0xBAu8], le_bytes(value, 8))),
            r == if old(self)@.len() + 10 <= USER_CODE_MAX_BYTES { Ok(()) } else { too_long() },
            old(self)@.len() + 10 <= USER_CODE_MAX_BYTES ==> final(self)@ == old(self)@ + mov_rdx_imm64(value),
    {
        proof {
            lemma_two_parts(old(self)@, seq![0x48u8, 0xBAu8], le_bytes(value, 8));
        }
        self.emit_bytes(&[0x48, 0xBA])?;
        let r = self.emit_le(value, 8);
        assert(old(self)@ + seq![0x48u8, 0xBAu8] + le_bytes(value, 8) =~= old(self)@ + mov_rdx_imm64(value));
        r
    }

    pub fn emit_syscall(&mut self) -> (r: Result<(), &'static str>)
        ensures
            final(self)@ == after_emit(old(self)@, seq![0x0Fu8, 0x05u8]),
            r == if old(self)@.len() + 2 <= USER_CODE_MAX_BYTES { Ok(()) } else { too_long() },
    {
        let r = self.emit_bytes(&[0x0F, 0x05]);
        assert([0x0Fu8, 0x05u8]@ =~= seq![0x0Fu8, 0x05u8]);
        r
    }

    pub fn emit_mov_r8_rax(&mut self) -> (r: Result<(), &'static str>)
        ensures
            final(self)@ == after_emit(old(self)@, seq![0x49u8, 0x89u8, 0xC0u8]),
            r == if old(self)@.len() + 3 <= USER_CODE_MAX_BYTES { Ok(()) } else { too_long() },
    {
        let r = self.emit_bytes(&[0x49, 0x89, 0xC0]);
        assert([0x49u8, 0x89u8, 0xC0u8]@ =~= seq![0x49u8, 0x89u8, 0xC0u8]);
        r
    }

    pub fn emit_mov_r9_r10(&mut self) -> (r: Result<(), &'static str>)
        ensures
            final(self)@ == after_emit(old(self)@, seq![0x4Du8, 0x89u8, 0xD1u8]),
            r == if old(self)@.len() + 3 <= USER_CODE_MAX_BYTES { Ok(()) } else { too_long() },
    {
        let r = self.emit_bytes(&[0x4D, 0x89, 0xD1]);
        assert([0x4Du8, 0x89u8, 0xD1u8]@ =~= seq![0x4Du8, 0x89u8, 0xD1u8]);
        r
    }

    pub fn emit_mov_r12_r10(&mut self) -> (r: Result<(), &'static str>)
        ensures
            final(self)@ == after_emit(old(self)@, seq![0x4Du8, 0x89u8, 0xD4u8]),
            r == if old(self)@.len() + 3 <= USER_CODE_MAX_BYTES { Ok(()) } else { too_long() },
    {
        let r = self.emit_bytes(&[0x4D, 0x89, 0xD4]);
        assert([0x4Du8, 0x89u8, 0xD4u8]@ =~= seq![0x4Du8, 0x89u8, 0xD4u8]);
        r
    }

    pub fn emit_mov_r10_rax(&mut self) -> (r: Result<(), &'static str>)
        ensures
            final(self)@ == after_emit(old(self)@, seq![0x49u8, 0x89u8, 0xC2u8]),
            r == if old(self)@.len() + 3 <= USER_CODE_MAX_BYTES { Ok(()) } else { too_long() },
    {
        let r = self.emit_bytes(&[0x49, 0x89, 0xC2]);
        assert([0x49u8, 0x89u8, 0xC2u8]@ =~= seq![0x49u8, 0x89u8, 0xC2u8]);
        r
    }

    pub fn emit_interrupt(&mut self, vector: u8) -> (r: Result<(), &'static str>)
        ensures
            final(self)@ == after_emit(old(self)@, seq![0xCDu8, vector]),
            r == if old(self)@.len() + 2 <= USER_CODE_MAX_BYTES { Ok(()) } else { too_long() },
    {
        let r = self.emit_bytes(&[0xCD, vector]);
        assert([0xCDu8, vector]@ =~= seq![0xCDu8, vector]);
        r
    }

    pub fn emit_hang_loop(&mut self) -> (r: Result<(), &'static str>)
        ensures
            final(self)@ == after_emit(old(self)@, seq![0xEBu8, 0xFEu8]),
            r == if old(self)@.len() + 2 <= USER_CODE_MAX_BYTES { Ok(()) } else { too_long() },
    {
        let r = self.emit_bytes(&[0xEB, 0xFE]);
        assert([0xEBu8, 0xFEu8]@ =~= seq![0xEBu8, 0xFEu8]);
        r
    }
}

/// Emits a syscall that leaves its value in r8 and its status in r9.
/// Gives up at the first emit that does not fit, leaving what was emitted before it.
pub fn emit_fast_syscall_capture_slot0(
    builder: &mut UserCodeBuilder,
    number: u32,
    arg0: u64,
    arg1: u64,
    arg2: u64,
) -> (r: Result<(), &'static str>)
    ensures
        final(builder)@ == emit_parts(old(builder)@, slot0_parts(number, arg0, arg1, arg2)),
        r == if parts_fit(old(builder)@, slot0_parts(number, arg0, arg1, arg2)) {
            Ok(())
        } else {
            too_long()
        },
        parts_fit(old(builder)@, slot0_parts(number, arg0, arg1, arg2)) == (old(builder)@.len()
            + capture_slot0(number, arg0, arg1, arg2).len() <= USER_CODE_MAX_BYTES),
        parts_fit(old(builder)@, slot0_parts(number, arg0, arg1, arg2)) ==> final(builder)@ == old(builder)@
            + capture_slot0(number, arg0, arg1, arg2),
{
    let ghost c0 = builder@;
    let ghost q1 = two_parts(seq![0xB8u8], le_bytes(number as u64, 4));
    let ghost q2 = two_parts(seq![0x48u8, 0xBFu8], le_bytes(arg0, 8));
    let ghost q3 = two_parts(seq![0x48u8, 0xBEu8], le_bytes(arg1, 8));
    let ghost q4 = two_parts(seq![0x48u8, 0xBAu8], le_bytes(arg2, 8));
    let ghost t1: Seq<Seq<u8>> = seq![seq![0x0Fu8, 0x05u8]];
    let ghost t2: Seq<Seq<u8>> = seq![seq![0x49u8, 0x89u8, 0xC0u8]];
    let ghost t3: Seq<Seq<u8>> = seq![seq![0x4Du8, 0x89u8, 0xD1u8]];
    proof {
        use_type_invariant(&*builder);
        lemma_slot_bytes_slot0(number, arg0, arg1, arg2);
        lemma_emit_parts_fit(c0, slot0_parts(number, arg0, arg1, arg2));
        lemma_emit_concat(c0, q1 + (q2 + (q3 + q4)), t1 + (t2 + t3));
        lemma_emit_concat(c0, q1, q2 + (q3 + q4));
        lemma_two_parts(c0, seq![0xB8u8], le_bytes(number as u64, 4));
    }
    builder.emit_mov_eax_imm32(number)?;
    let ghost s1 = builder@;
    proof {
        lemma_emit_concat(s1, q2, q3 + q4);
        lemma_two_parts(s1, seq![0x48u8, 0xBFu8], le_bytes(arg0, 8));
    }
    builder.emit_mov_rdi_imm64(arg0)?;
    let ghost s2 = builder@;
    proof {
        lemma_emit_concat(s2, q3, q4);
        lemma_two_parts(s2, seq![0x48u8, 0xBEu8], le_bytes(arg1, 8));
    }
    builder.emit_mov_rsi_imm64(arg1)?;
    let ghost s3 = builder@;
    proof {
        lemma_two_parts(s3, seq![0x48u8, 0xBAu8], le_bytes(arg2, 8));
    }
    builder.emit_mov_rdx_imm64(arg2)?;
    let ghost s4 = builder@;
    proof {
        lemma_emit_concat(s4, t1, t2 + t3);
        lemma_one_part(s4, seq![0x0Fu8, 0x05u8]);
    }
    builder.emit_syscall()?;
    let ghost s5 = builder@;
    proof {
        lemma_emit_concat(s5, t2, t3);
        lemma_one_part(s5, seq![0x49u8, 0x89u8, 0xC0u8]);
    }
    builder.emit_mov_r8_rax()?;
    let ghost s6 = builder@;
    proof {
        lemma_one_part(s6, seq![0x4Du8, 0x89u8, 0xD1u8]);
    }
    builder.emit_mov_r9_r10()?;
    Ok(())
}

proof fn lemma_slot_bytes_slot0(number: u32, arg0: u64, arg1: u64, arg2: u64)
    ensures
        concat_parts(slot0_parts(number, arg0, arg1, arg2)) == capture_slot0(number, arg0, arg1, arg2),
{
    let q1 = two_parts(seq![0xB8u8], le_bytes(number as u64, 4));
    let q2 = two_parts(seq![0x48u8, 0xBFu8], le_bytes(arg0, 8));
    let q3 = two_parts(seq![0x48u8, 0xBEu8], le_bytes(arg1, 8));
    let q4 = two_parts(seq![0x48u8, 0xBAu8], le_bytes(arg2, 8));
    let t1: Seq<Seq<u8>> = seq![seq![0x0Fu8, 0x05u8]];
    let t2: Seq<Seq<u8>> = seq![seq![0x49u8, 0x89u8, 0xC0u8]];
    let t3: Seq<Seq<u8>> = seq![seq![0x4Du8, 0x89u8, 0xD1u8]];
    lemma_concat_small(seq![0xB8u8], le_bytes(number as u64, 4));
    lemma_concat_small(seq![0x48u8, 0xBFu8], le_bytes(arg0, 8));
    lemma_concat_small(seq![0x48u8, 0xBEu8], le_bytes(arg1, 8));
    lemma_concat_small(seq![0x48u8, 0xBAu8], le_bytes(arg2, 8));
    lemma_concat_small(seq![0x0Fu8, 0x05u8], seq![]);
    lemma_concat_small(seq![0x49u8, 0x89u8, 0xC0u8], seq![]);
    lemma_concat_small(seq![0x4Du8, 0x89u8, 0xD1u8], seq![]);
    lemma_concat_parts_append(q3, q4);
    lemma_concat_parts_append(q2, q3 + q4);
    lemma_concat_parts_append(q1, q2 + (q3 + q4));
    lemma_concat_parts_append(t2, t3);
    lemma_concat_parts_append(t1, t2 + t3);
    lemma_concat_parts_append(q1 + (q2 + (q3 + q4)), t1 + (t2 + t3));
    assert(concat_parts(slot0_parts(number, arg0, arg1, arg2)) =~= capture_slot0(number, arg0, arg1, arg2));
}

/// Emits a syscall that leaves its status in r12 and its value in r10.
/// Gives up at the first emit that does not fit, leaving what was emitted before it.
pub fn emit_fast_syscall_capture_slot1(
    builder: &mut UserCodeBuilder,
    number: u32,
    arg0: u64,
    arg1: u64,
    arg2: u64,
) -> (r: Result<(), &'static str>)
    ensures
        final(builder)@ == emit_parts(old(builder)@, slot1_parts(number, arg0, arg1, arg2)),
        r == if parts_fit(old(builder)@, slot1_parts(number, arg0, arg1, arg2)) {
            Ok(())
        } else {
            too_long()
        },
        parts_fit(old(builder)@, slot1_parts(number, arg0, arg1, arg2)) == (old(builder)@.len()
            + capture_slot1(number, arg0, arg1, arg2).len() <= USER_CODE_MAX_BYTES),
        parts_fit(old(builder)@, slot1_parts(number, arg0, arg1, arg2)) ==> final(builder)@ == old(builder)@
            + capture_slot1(number, arg0, arg1, arg2),
{
    let ghost c0 = builder@;
    let ghost q1 = two_parts(seq![0xB8u8], le_bytes(number as u64, 4));
    let ghost q2 = two_parts(seq![0x48u8, 0xBFu8], le_bytes(arg0, 8));
    let ghost q3 = two_parts(seq![0x48u8, 0xBEu8], le_bytes(arg1, 8));
    let ghost q4 = two_parts(seq![0x48u8, 0xBAu8], le_bytes(arg2, 8));
    let ghost t1: Seq<Seq<u8>> = seq![seq![0x0Fu8, 0x05u8]];
    let ghost t2: Seq<Seq<u8>> = seq![seq![0x4Du8, 0x89u8, 0xD4u8]];
    let ghost t3: Seq<Seq<u8>> = seq![seq![0x49u8, 0x89u8, 0xC2u8]];
    proof {
        use_type_invariant(&*builder);
        lemma_slot_bytes_slot1(number, arg0, arg1, arg2);
        lemma_emit_parts_fit(c0, slot1_parts(number, arg0, arg1, arg2));
        lemma_emit_concat(c0, q1 + (q2 + (q3 + q4)), t1 + (t2 + t3));
        lemma_emit_concat(c0, q1, q2 + (q3 + q4));
        lemma_two_parts(c0, seq![0xB8u8], le_bytes(number as u64, 4));
    }
    builder.emit_mov_eax_imm32(number)?;
    let ghost s1 = builder@;
    proof {
        lemma_emit_concat(s1, q2, q3 + q4);
        lemma_two_parts(s1, seq![0x48u8, 0xBFu8], le_bytes(arg0, 8));
    }
    builder.emit_mov_rdi_imm64(arg0)?;
    let ghost s2 = builder@;
    proof {
        lemma_emit_concat(s2, q3, q4);
        lemma_two_parts(s2, seq![0x48u8, 0xBEu8], le_bytes(arg1, 8));
    }
    builder.emit_mov_rsi_imm64(arg1)?;
    let ghost s3 = builder@;
    proof {
        lemma_two_parts(s3, seq![0x48u8, 0xBAu8], le_bytes(arg2, 8));
    }
    builder.emit_mov_rdx_imm64(arg2)?;
    let ghost s4 = builder@;
    proof {
        lemma_emit_concat(s4, t1, t2 + t3);
        lemma_one_part(s4, seq![0x0Fu8, 0x05u8]);
    }
    builder.emit_syscall()?;
    let ghost s5 = builder@;
    proof {
        lemma_emit_concat(s5, t2, t3);
        lemma_one_part(s5, seq![0x4Du8, 0x89u8, 0xD4u8]);
    }
    builder.emit_mov_r12_r10()?;
    let ghost s6 = builder@;
    proof {
        lemma_one_part(s6, seq![0x49u8, 0x89u8, 0xC2u8]);
    }
    builder.emit_mov_r10_rax()?;
    Ok(())
}

proof fn lemma_slot_bytes_slot1(number: u32, arg0: u64, arg1: u64, arg2: u64)
    ensures
        concat_parts(slot1_parts(number, arg0, arg1, arg2)) == capture_slot1(number, arg0, arg1, arg2),
{
    let q1 = two_parts(seq![0xB8u8], le_bytes(number as u64, 4));
    let q2 = two_parts(seq![0x48u8, 0xBFu8], le_bytes(arg0, 8));
    let q3 = two_parts(seq![0x48u8, 0xBEu8], le_bytes(arg1, 8));
    let q4 = two_parts(seq![0x48u8, 0xBAu8], le_bytes(arg2, 8));
    let t1: Seq<Seq<u8>> = seq![seq![0x0Fu8, 0x05u8]];
    let t2: Seq<Seq<u8>> = seq![seq![0x4Du8, 0x89u8, 0xD4u8]];
    let t3: Seq<Seq<u8>> = seq![seq![0x49u8, 0x89u8, 0xC2u8]];
    lemma_concat_small(seq![0xB8u8], le_bytes(number as u64, 4));
    lemma_concat_small(seq![0x48u8, 0xBFu8], le_bytes(arg0, 8));
    lemma_concat_small(seq![0x48u8, 0xBEu8], le_bytes(arg1, 8));
    lemma_concat_small(seq![0x48u8, 0xBAu8], le_bytes(arg2, 8));
    lemma_concat_small(seq![0x0Fu8, 0x05u8], seq![]);
    lemma_concat_small(seq![0x4Du8, 0x89u8, 0xD4u8], seq![]);
    lemma_concat_small(seq![0x49u8, 0x89u8, 0xC2u8], seq![]);
    lemma_concat_parts_append(q3, q4);
    lemma_concat_parts_append(q2, q3 + q4);
    lemma_concat_parts_append(q1, q2 + (q3 + q4));
    lemma_concat_parts_append(t2, t3);
    lemma_concat_parts_append(t1, t2 + t3);
    lemma_concat_parts_append(q1 + (q2 + (q3 + q4)), t1 + (t2 + t3));
    assert(concat_parts(slot1_parts(number, arg0, arg1, arg2)) =~= capture_slot1(number, arg0, arg1, arg2));
}

/// Assembles the success-path fast-syscall demo.
pub fn build_fast_syscall_success_code() -> (r: Result<UserCode, &'static str>)
    ensures
        r is Ok,
        r.unwrap()@ == success_program(),
{
    let mut builder = UserCodeBuilder::new();
    emit_fast_syscall_capture_slot0(&mut builder, SYSCALL_GET_TICKS as u32, 0, 0, 0)?;
    emit_fast_syscall_capture_slot1(&mut builder, SYSCALL_ADD as u32, 40, 2, 0)?;
    builder.emit_interrupt(USERMODE_EXIT_INTERRUPT_VECTOR)?;
    builder.emit_hang_loop()?;
    assert(builder@ =~= success_program());
    Ok(builder.finish())
}

/// Assembles the error-path fast-syscall demo.
pub fn build_fast_syscall_error_code() -> (r: Result<UserCode, &'static str>)
    ensures
        r is Ok,
        r.unwrap()@ == error_program(),
{
    let mut builder = UserCodeBuilder::new();
    emit_fast_syscall_capture_slot0(&mut builder, USER_FAST_SYSCALL_UNKNOWN_NUMBER, 0, 0, 0)?;
    emit_fast_syscall_capture_slot1(&mut builder, SYSCALL_ADD as u32, u64::MAX, 1, 0)?;
    builder.emit_interrupt(USERMODE_EXIT_INTERRUPT_VECTOR)?;
    builder.emit_hang_loop()?;
    assert(builder@ =~= error_program());
    Ok(builder.finish())
}

/// The interrupt demo program.
pub fn user_int_demo_code() -> (r: UserCode)
    ensures
        r@ == interrupt_program(),
{
    let mut builder = UserCodeBuilder::new();
    let _ = builder.emit_bytes(&[0xB8, 0x00, 0x00, 0x00, 0x00, 0xCD, 0x80, 0xCD, 0x81, 0xEB, 0xFE]);
    assert(builder@ =~= interrupt_program());
    builder.finish()
}

/// A program ready to be entered in ring 3.
pub struct UserModeLaunch {
    pub context: UserModeContext,
    pub code: UserCode,
}

/// The monitor's record of user-mode runs: where programs go (once the user pages
/// are mapped), the demo whose report is awaited, the last report and whether an
/// exit interrupt is expected.
#[derive(Debug, Clone, Copy, PartialEq, Eq, Structural)]
pub struct UserModeSession {
    pub context: Option<UserModeContext>,
    pub pending_kind: Option<FastSyscallDemoKind>,
    pub last_report: Option<FastSyscallDemoReport>,
    pub exit_expected: bool,
}

/// What the monitor does on an exit interrupt.
#[derive(Debug, Clone, Copy, PartialEq, Eq, Structural)]
pub enum UserModeExit {
    /// No user-mode run was under way: the interrupt is ignored.
    IgnoredUnexpected,
    /// A run ended: the monitor resumes.
    ResumeMonitor,
}

/// The session once a launch has been prepared.
pub open spec fn launched(s: UserModeSession, kind: Option<FastSyscallDemoKind>) -> UserModeSession {
    UserModeSession { pending_kind: kind, last_report: None, exit_expected: true, ..s }
}

/// The session after an exit interrupt.
pub open spec fn exited(s: UserModeSession, registers: SyscallRegisters) -> UserModeSession {
    if !s.exit_expected {
        s
    } else {
        UserModeSession {
            pending_kind: None,
            exit_expected: false,
            last_report: match s.pending_kind {
                Some(kind) => Some(FastSyscallDemoReport {
                    kind,
                    call0_value: registers.r8,
                    call0_status: registers.r9,
                    call1_value: registers.r10,
                    call1_status: registers.r12,
                }),
                None => None,
            },
            ..s
        }
    }
}

/// The session after its last report has been taken.
pub open spec fn report_taken(s: UserModeSession) -> UserModeSession {
    UserModeSession { last_report: None, ..s }
}

/// The session before user memory is set up.
pub fn new_session() -> (r: UserModeSession)
    ensures
        r == (UserModeSession { context: None, pending_kind: None, last_report: None, exit_expected: false }),
{
    UserModeSession { context: None, pending_kind: None, last_report: None, exit_expected: false }
}

/// Records that the user code and stack pages are mapped: programs start at
/// `USER_CODE_START` with the stack at `USER_STACK_TOP`.
pub fn set_memory_initialized(session: &mut UserModeSession)
    ensures
        *final(session) == (UserModeSession {
            context: Some(UserModeContext { entry: USER_CODE_START, stack_top: USER_STACK_TOP }),
            ..*old(session)
        }),
{
    session.context = Some(UserModeContext { entry: USER_CODE_START, stack_top: USER_STACK_TOP });
}

/// Prepares a run of `code`: refused until user memory is set up; otherwise the
/// demo kind is recorded, the last report dropped and an exit expected.
fn run_demo_code(
    session: &mut UserModeSession,
    code: UserCode,
    fast_syscall_kind: Option<FastSyscallDemoKind>,
) -> (r: Result<UserModeLaunch, &'static str>)
    ensures
        old(session).context is None ==> r is Err && r->Err_0 == "user mode memory not initialized"
            && *final(session) == *old(session),
        old(session).context is Some ==> r is Ok && r->Ok_0.context == old(session).context.unwrap()
            && r->Ok_0.code@ == code@ && *final(session) == launched(*old(session), fast_syscall_kind),
{
    let context = match session.context {
        Some(context) => context,
        None => return Err("user mode memory not initialized"),
    };
    session.pending_kind = fast_syscall_kind;
    session.last_report = None;
    session.exit_expected = true;
    Ok(UserModeLaunch { context, code })
}

/// Prepares the interrupt demo.
pub fn run_demo(session: &mut UserModeSession) -> (r: Result<UserModeLaunch, &'static str>)
    ensures
        old(session).context is None ==> r is Err && r->Err_0 == "user mode memory not initialized"
            && *final(session) == *old(session),
        old(session).context is Some ==> r is Ok && r->Ok_0.context == old(session).context.unwrap()
            && r->Ok_0.code@ == interrupt_program() && *final(session) == launched(*old(session), None),
{
    run_demo_code(session, user_int_demo_code(), None)
}

/// Prepares the success-path fast-syscall demo.
pub fn run_fast_syscall_demo(session: &mut UserModeSession) -> (r: Result<UserModeLaunch, &'static str>)
    ensures
        old(session).context is None ==> r is Err && r->Err_0 == "user mode memory not initialized"
            && *final(session) == *old(session),
        old(session).context is Some ==> r is Ok && r->Ok_0.context == old(session).context.unwrap()
            && r->Ok_0.code@ == success_program()
            && *final(session) == launched(*old(session), Some(FastSyscallDemoKind::SuccessPath)),
{
    let code = build_fast_syscall_success_code()?;
    run_demo_code(session, code, Some(FastSyscallDemoKind::SuccessPath))
}

/// Prepares the error-path fast-syscall demo.
pub fn run_fast_syscall_error_demo(session: &mut UserModeSession) -> (r: Result<UserModeLaunch, &'static str>)
    ensures
        old(session).context is None ==> r is Err && r->Err_0 == "user mode memory not initialized"
            && *final(session) == *old(session),
        old(session).context is Some ==> r is Ok && r->Ok_0.context == old(session).context.unwrap()
            && r->Ok_0.code@ == error_program()
            && *final(session) == launched(*old(session), Some(FastSyscallDemoKind::ErrorPath)),
{
    let code = build_fast_syscall_error_code()?;
    run_demo_code(session, code, Some(FastSyscallDemoKind::ErrorPath))
}

/// Takes the last fast-syscall report, leaving none.
pub fn take_last_fast_syscall_report(session: &mut UserModeSession) -> (r: Option<FastSyscallDemoReport>)
    ensures
        r == old(session).last_report,
        *final(session) == report_taken(*old(session)),
{
    let r = session.last_report;
    session.last_report = None;
    r
}

/// Handles the exit interrupt: ignored unless a run is under way; otherwise the run
/// is over and, for a fast-syscall demo, its report is taken from r8/r9 (first call)
/// and r10/r12 (second call).
pub fn handle_exit_interrupt_from_registers(
    session: &mut UserModeSession,
    registers: &SyscallRegisters,
) -> (r: UserModeExit)
    ensures
        *final(session) == exited(*old(session), *registers),
        r == if old(session).exit_expected { UserModeExit::ResumeMonitor } else { UserModeExit::IgnoredUnexpected },
{
    if !session.exit_expected {
        return UserModeExit::IgnoredUnexpected;
    }
    session.exit_expected = false;
    let pending_kind = session.pending_kind;
    session.pending_kind = None;
    match pending_kind {
        Some(kind) => {
            session.last_report = Some(FastSyscallDemoReport {
                kind,
                call0_value: registers.r8,
                call0_status: registers.r9,
                call1_value: registers.r10,
                call1_status: registers.r12,
            });
        },
        None => {
            session.last_report = None;
        },
    }
    UserModeExit::ResumeMonitor
}

/// A fast-syscall demo that was launched and then exited reports exactly its own
/// kind and the registers it left behind, once: a second exit interrupt is ignored
/// and, after the report is taken, none is left.
pub proof fn lemma_launch_exit_report(
    s: UserModeSession,
    kind: FastSyscallDemoKind,
    registers: SyscallRegisters,
    later: SyscallRegisters,
)
    ensures
        ({
            let after = exited(launched(s, Some(kind)), registers);
            &&& after.last_report == Some(FastSyscallDemoReport {
                kind,
                call0_value: registers.r8,
                call0_status: registers.r9,
                call1_value: registers.r10,
                call1_status: registers.r12,
            })
            &&& !after.exit_expected
            &&& exited(after, later) == after
            &&& report_taken(after).last_report is None
        }),
{
}

} // verus!
