//! The register-based syscall ABI: dispatch, status encoding and the fast-syscall
//! bring-up state.

use vstd::prelude::*;
use crate::memory::MemorySummary;

verus! {

pub const SYSCALL_INTERRUPT_VECTOR: u8 = 0x80;

pub const SYSCALL_GET_TICKS: u64 = 0;
pub const SYSCALL_GET_UPTIME_SECONDS: u64 = 1;
pub const SYSCALL_ADD: u64 = 2;
pub const SYSCALL_GET_USABLE_MEMORY: u64 = 3;
pub const SYSCALL_GET_USABLE_FRAMES: u64 = 4;

pub const SYSCALL_STATUS_OK: u64 = 0;
pub const SYSCALL_STATUS_UNKNOWN_NUMBER: u64 = 1;
pub const SYSCALL_STATUS_OVERFLOW: u64 = 2;
pub const SYSCALL_STATUS_CONTEXT_UNAVAILABLE: u64 = 3;

/// Timer interrupts per second, as the PIT is programmed.
pub const TIMER_HZ: u64 = 100;

#[derive(Debug, Clone, Copy, PartialEq, Eq, Structural)]
pub enum SyscallAbiMode {
    InterruptRegistersV2,
}

/// The ABI in use.
pub fn abi_mode() -> (r: SyscallAbiMode)
    ensures
        r == SyscallAbiMode::InterruptRegistersV2,
{
    SyscallAbiMode::InterruptRegistersV2
}

pub fn abi_mode_name() -> (r: &'static str)
    ensures
        r == "interrupt-register-v2",
{
    match abi_mode() {
        SyscallAbiMode::InterruptRegistersV2 => "interrupt-register-v2",
    }
}

pub fn abi_mode_details() -> (r: &'static str)
    ensures
        r == "int 0x80 + rax(number), rdi/rsi/rdx(args), rax(return), rcx(status)",
{
    match abi_mode() {
        SyscallAbiMode::InterruptRegistersV2 => {
            "int 0x80 + rax(number), rdi/rsi/rdx(args), rax(return), rcx(status)"
        },
    }
}

pub fn fast_abi_mode_details() -> (r: &'static str)
    ensures
        r == "syscall/sysret + rax(number), rdi/rsi/rdx(args), rax(return), r10(status)",
{
    "syscall/sysret + rax(number), rdi/rsi/rdx(args), rax(return), r10(status)"
}

#[derive(Debug, Clone, Copy, PartialEq, Eq, Structural)]
pub enum FastSyscallStage {
    Uninitialized,
    UnsupportedCpu,
    Scaffolded,
    MsrProgrammedNoSce,
    SceEnabledExperimental,
}

pub fn fast_syscall_stage_name(stage: FastSyscallStage) -> (r: &'static str)
    ensures
        r == match stage {
            FastSyscallStage::Uninitialized => "uninitialized",
            FastSyscallStage::UnsupportedCpu => "unsupported-cpu",
            FastSyscallStage::Scaffolded => "scaffolded-not-enabled",
            FastSyscallStage::MsrProgrammedNoSce => "msr-programmed-no-sce",
            FastSyscallStage::SceEnabledExperimental => "sce-enabled-experimental",
        },
{
    match stage {
        FastSyscallStage::Uninitialized => "uninitialized",
        FastSyscallStage::UnsupportedCpu => "unsupported-cpu",
        FastSyscallStage::Scaffolded => "scaffolded-not-enabled",
        FastSyscallStage::MsrProgrammedNoSce => "msr-programmed-no-sce",
        FastSyscallStage::SceEnabledExperimental => "sce-enabled-experimental",
    }
}

/// The segment selectors that STAR is programmed with.
#[derive(Debug, Clone, Copy, PartialEq, Eq, Structural)]
pub struct FastSyscallSelectorPlan {
    pub kernel_cs: u16,
    pub kernel_ss: u16,
    pub user_cs: u16,
    pub user_ss: u16,
}

#[derive(Debug, Clone, Copy, PartialEq, Eq)]
pub struct FastSyscallStatus {
    pub stage: FastSyscallStage,
    pub cpu_support: bool,
    pub sce_enabled: bool,
    pub selectors: Option<FastSyscallSelectorPlan>,
    pub lstar: Option<u64>,
    pub kernel_gs_base: Option<u64>,
    pub note: &'static str,
}

/// The status before the fast-syscall path is set up.
pub fn uninitialized_fast_syscall_status() -> (r: FastSyscallStatus)
    ensures
        r == (FastSyscallStatus {
            stage: FastSyscallStage::Uninitialized,
            cpu_support: false,
            sce_enabled: false,
            selectors: None,
            lstar: None,
            kernel_gs_base: None,
            note: "not initialized",
        }),
{
    FastSyscallStatus {
        stage: FastSyscallStage::Uninitialized,
        cpu_support: false,
        sce_enabled: false,
        selectors: None,
        lstar: None,
        kernel_gs_base: None,
        note: "not initialized",
    }
}

/// The fast-syscall status that the kernel keeps for the monitor.
pub struct FastSyscallRecord {
    status: FastSyscallStatus,
}

impl FastSyscallRecord {
    /// What is recorded.
    pub closed spec fn status(self) -> FastSyscallStatus {
        self.status
    }

    /// The record before the set-up has run: the uninitialized status.
    pub fn new() -> (r: Self)
        ensures
            r.status() == (FastSyscallStatus {
                stage: FastSyscallStage::Uninitialized,
                cpu_support: false,
                sce_enabled: false,
                selectors: None,
                lstar: None,
                kernel_gs_base: None,
                note: "not initialized",
            }),
    {
        FastSyscallRecord { status: uninitialized_fast_syscall_status() }
    }

    /// Records the status that the set-up ended in.
    pub fn record(&mut self, status: FastSyscallStatus)
        ensures
            final(self).status() == status,
    {
        self.status = status;
    }

    /// The recorded status.
    pub fn fast_syscall_status(&self) -> (r: FastSyscallStatus)
        ensures
            r == self.status(),
    {
        self.status
    }
}

/// Whether CPUID reports SYSCALL/SYSRET: the extended leaf 0x8000_0001 must exist and
/// bit 11 of its EDX must be set.
pub fn cpu_supports_syscall(max_extended_leaf: u32, extended_features_edx: u32) -> (r: bool)
    ensures
        r == (max_extended_leaf >= 0x8000_0001 && (extended_features_edx / 2048) % 2 == 1),
{
    if max_extended_leaf < 0x8000_0001 {
        return false;
    }
    let r = (extended_features_edx & (1u32 << 11u32)) != 0;
    assert(r == ((extended_features_edx / 2048) % 2 == 1)) by (bit_vector)
        requires
            r == ((extended_features_edx & (1u32 << 11u32)) != 0),
    ;
    r
}

/// The fast-syscall status that the set-up ends in, from what it observed: CPU
/// support, the SCE bit before, the selector plan, the outcome of programming the
/// MSRs (LSTAR and the kernel GS base, or why STAR was refused) and the SCE bit after.
pub fn fast_syscall_status_after_probe(
    cpu_support: bool,
    sce_before: bool,
    plan: FastSyscallSelectorPlan,
    programmed: Result<(u64, u64), &'static str>,
    sce_after: bool,
) -> (r: FastSyscallStatus)
    ensures
        !cpu_support ==> r == (FastSyscallStatus {
            stage: FastSyscallStage::UnsupportedCpu,
            cpu_support: false,
            sce_enabled: sce_before,
            selectors: None,
            lstar: None,
            kernel_gs_base: None,
            note: "cpu does not report SYSCALL/SYSRET support",
        }),
        cpu_support ==> match programmed {
            Err(note) => r == (FastSyscallStatus {
                stage: FastSyscallStage::Scaffolded,
                cpu_support: true,
                sce_enabled: sce_before,
                selectors: Some(plan),
                lstar: None,
                kernel_gs_base: None,
                note,
            }),
            Ok((lstar, gs)) => if sce_after {
                r == (FastSyscallStatus {
                    stage: FastSyscallStage::SceEnabledExperimental,
                    cpu_support: true,
                    sce_enabled: true,
                    selectors: Some(plan),
                    lstar: Some(lstar),
                    kernel_gs_base: Some(gs),
                    note: "SCE enabled (experimental); int 0x80 remains default monitor ABI while syscall path is validated",
                })
            } else {
                r == (FastSyscallStatus {
                    stage: FastSyscallStage::MsrProgrammedNoSce,
                    cpu_support: true,
                    sce_enabled: false,
                    selectors: Some(plan),
                    lstar: Some(lstar),
                    kernel_gs_base: Some(gs),
                    note: "STAR/LSTAR/SFMASK programmed; SCE not enabled (CPU/firmware policy)",
                })
            },
        },
{
    if !cpu_support {
        return FastSyscallStatus {
            stage: FastSyscallStage::UnsupportedCpu,
            cpu_support: false,
            sce_enabled: sce_before,
            selectors: None,
            lstar: None,
            kernel_gs_base: None,
            note: "cpu does not report SYSCALL/SYSRET support",
        };
    }
    let (lstar, kernel_gs_base) = match programmed {
        Ok(values) => values,
        Err(note) => {
            return FastSyscallStatus {
                stage: FastSyscallStage::Scaffolded,
                cpu_support: true,
                sce_enabled: sce_before,
                selectors: Some(plan),
                lstar: None,
                kernel_gs_base: None,
                note,
            };
        },
    };
    if sce_after {
        FastSyscallStatus {
            stage: FastSyscallStage::SceEnabledExperimental,
            cpu_support: true,
            sce_enabled: true,
            selectors: Some(plan),
            lstar: Some(lstar),
            kernel_gs_base: Some(kernel_gs_base),
            note: "SCE enabled (experimental); int 0x80 remains default monitor ABI while syscall path is validated",
        }
    } else {
        FastSyscallStatus {
            stage: FastSyscallStage::MsrProgrammedNoSce,
            cpu_support: true,
            sce_enabled: false,
            selectors: Some(plan),
            lstar: Some(lstar),
            kernel_gs_base: Some(kernel_gs_base),
            note: "STAR/LSTAR/SFMASK programmed; SCE not enabled (CPU/firmware policy)",
        }
    }
}

/// The general-purpose registers saved at a syscall interrupt.
#[derive(Debug, Clone, Copy, PartialEq, Eq, Structural)]
pub struct SyscallRegisters {
    pub rax: u64,
    pub rbx: u64,
    pub rcx: u64,
    pub rdx: u64,
    pub rsi: u64,
    pub rdi: u64,
    pub rbp: u64,
    pub r8: u64,
    pub r9: u64,
    pub r10: u64,
    pub r11: u64,
    pub r12: u64,
    pub r13: u64,
    pub r14: u64,
    pub r15: u64,
}

#[derive(Debug, Clone, Copy, PartialEq, Eq, Structural)]
pub enum SyscallError {
    UnknownNumber(u64),
    Overflow,
    ContextUnavailable,
}

/// What the kernel state offers to syscalls: the timer tick count and the memory
/// summary, once it has been computed.
#[derive(Debug, Clone, Copy, PartialEq, Eq, Structural)]
pub struct SyscallContext {
    pub ticks: u64,
    pub memory_summary: Option<MemorySummary>,
}

/// What a syscall returns.
pub open spec fn dispatch_result(number: u64, arg0: u64, arg1: u64, context: SyscallContext) -> Result<u64, SyscallError> {
    if number == SYSCALL_GET_TICKS {
        Ok(context.ticks)
    } else if number == SYSCALL_GET_UPTIME_SECONDS {
        Ok((context.ticks / TIMER_HZ) as u64)
    } else if number == SYSCALL_ADD {
        if arg0 + arg1 > u64::MAX { Err(SyscallError::Overflow) } else { Ok((arg0 + arg1) as u64) }
    } else if number == SYSCALL_GET_USABLE_MEMORY {
        match context.memory_summary {
            Some(s) => Ok(s.usable_bytes),
            None => Err(SyscallError::ContextUnavailable),
        }
    } else if number == SYSCALL_GET_USABLE_FRAMES {
        match context.memory_summary {
            Some(s) => Ok(s.usable_frames_4k as u64),
            None => Err(SyscallError::ContextUnavailable),
        }
    } else {
        Err(SyscallError::UnknownNumber(number))
    }
}

/// What each syscall answers: the tick count; the whole seconds since boot (the
/// timer runs at `TIMER_HZ` ticks a second); the sum of the two arguments, or an
/// overflow error when it does not fit; the memory figures once they are known;
/// any other number is refused as unknown, with the number.
pub proof fn lemma_syscall_answers(arg0: u64, arg1: u64, context: SyscallContext)
    ensures
        dispatch_result(SYSCALL_GET_TICKS, arg0, arg1, context) == Ok::<u64, SyscallError>(context.ticks),
        dispatch_result(SYSCALL_GET_UPTIME_SECONDS, arg0, arg1, context) matches Ok(seconds)
            && seconds * TIMER_HZ <= context.ticks < (seconds + 1) * TIMER_HZ,
        (dispatch_result(SYSCALL_ADD, arg0, arg1, context) matches Ok(sum) ==> sum == arg0 + arg1),
        dispatch_result(SYSCALL_ADD, arg0, arg1, context) is Err <==> arg0 + arg1 > u64::MAX,
        context.memory_summary is None ==> dispatch_result(SYSCALL_GET_USABLE_MEMORY, arg0, arg1, context)
            == Err::<u64, SyscallError>(SyscallError::ContextUnavailable),
        (context.memory_summary matches Some(m) ==> dispatch_result(SYSCALL_GET_USABLE_MEMORY, arg0, arg1, context)
            == Ok::<u64, SyscallError>(m.usable_bytes)),
        context.memory_summary is None ==> dispatch_result(SYSCALL_GET_USABLE_FRAMES, arg0, arg1, context)
            == Err::<u64, SyscallError>(SyscallError::ContextUnavailable),
        (context.memory_summary matches Some(m) ==> dispatch_result(SYSCALL_GET_USABLE_FRAMES, arg0, arg1, context)
            == Ok::<u64, SyscallError>(m.usable_frames_4k as u64)),
        forall|n: u64| n != SYSCALL_GET_TICKS && n != SYSCALL_GET_UPTIME_SECONDS && n != SYSCALL_ADD
            && n != SYSCALL_GET_USABLE_MEMORY && n != SYSCALL_GET_USABLE_FRAMES
            ==> #[trigger] dispatch_result(n, arg0, arg1, context) == Err::<u64, SyscallError>(SyscallError::UnknownNumber(n)),
{
    let t = context.ticks as int;
    let q = t / 100;
    assert(q * 100 <= t < (q + 1) * 100) by (nonlinear_arith)
        requires
            q == t / 100,
            t >= 0,
    ;
}

/// The (value, status) register pair that reports an error.
pub open spec fn error_registers(error: SyscallError) -> (u64, u64) {
    match error {
        SyscallError::UnknownNumber(n) => (n, SYSCALL_STATUS_UNKNOWN_NUMBER),
        SyscallError::Overflow => (0, SYSCALL_STATUS_OVERFLOW),
        SyscallError::ContextUnavailable => (0, SYSCALL_STATUS_CONTEXT_UNAVAILABLE),
    }
}

/// The result that a (status, value) register pair reports; unknown statuses read as
/// an unavailable context.
pub open spec fn response_of(status: u64, value: u64) -> Result<u64, SyscallError> {
    if status == SYSCALL_STATUS_OK {
        Ok(value)
    } else if status == SYSCALL_STATUS_UNKNOWN_NUMBER {
        Err(SyscallError::UnknownNumber(value))
    } else if status == SYSCALL_STATUS_OVERFLOW {
        Err(SyscallError::Overflow)
    } else {
        Err(SyscallError::ContextUnavailable)
    }
}

/// Runs a syscall against the kernel state in `context`.
pub fn dispatch(number: u64, arg0: u64, arg1: u64, _arg2: u64, context: &SyscallContext) -> (r: Result<u64, SyscallError>)
    ensures
        r == dispatch_result(number, arg0, arg1, *context),
        number == SYSCALL_GET_UPTIME_SECONDS ==> (r matches Ok(seconds)
            && seconds * TIMER_HZ <= context.ticks < (seconds + 1) * TIMER_HZ),
{
    proof { lemma_syscall_answers(arg0, arg1, *context); }
    match number {
        SYSCALL_GET_TICKS => Ok(context.ticks),
        SYSCALL_GET_UPTIME_SECONDS => Ok(context.ticks / TIMER_HZ),
        SYSCALL_ADD => match arg0.checked_add(arg1) {
            Some(sum) => Ok(sum),
            None => Err(SyscallError::Overflow),
        },
        SYSCALL_GET_USABLE_MEMORY => match context.memory_summary {
            Some(summary) => Ok(summary.usable_bytes),
            None => Err(SyscallError::ContextUnavailable),
        },
        SYSCALL_GET_USABLE_FRAMES => match context.memory_summary {
            Some(summary) => Ok(summary.usable_frames_4k as u64),
            None => Err(SyscallError::ContextUnavailable),
        },
        _ => Err(SyscallError::UnknownNumber(number)),
    }
}

/// The (value, status) register pair that reports an error.
pub fn encode_error(error: SyscallError) -> (r: (u64, u64))
    ensures
        r == error_registers(error),
{
    match error {
        SyscallError::UnknownNumber(number) => (number, SYSCALL_STATUS_UNKNOWN_NUMBER),
        SyscallError::Overflow => (0, SYSCALL_STATUS_OVERFLOW),
        SyscallError::ContextUnavailable => (0, SYSCALL_STATUS_CONTEXT_UNAVAILABLE),
    }
}

/// Reads the result that a (status, value) register pair reports.
pub fn decode_response(status: u64, value: u64) -> (r: Result<u64, SyscallError>)
    ensures
        r == response_of(status, value),
{
    match status {
        SYSCALL_STATUS_OK => Ok(value),
        SYSCALL_STATUS_UNKNOWN_NUMBER => Err(SyscallError::UnknownNumber(value)),
        SYSCALL_STATUS_OVERFLOW => Err(SyscallError::Overflow),
        SYSCALL_STATUS_CONTEXT_UNAVAILABLE => Err(SyscallError::ContextUnavailable),
        _ => Err(SyscallError::ContextUnavailable),
    }
}

/// Serves a syscall interrupt: reads the number from rax and the arguments from
/// rdi/rsi/rdx, writes the value to rax and the status to rcx.
pub fn handle_interrupt_from_registers(registers: &mut SyscallRegisters, context: &SyscallContext)
    ensures
        ({
            let result = dispatch_result(old(registers).rax, old(registers).rdi, old(registers).rsi, *context);
            let (value, status) = match result {
                Ok(v) => (v, SYSCALL_STATUS_OK),
                Err(e) => error_registers(e),
            };
            *final(registers) == SyscallRegisters { rax: value, rcx: status, ..*old(registers) }
        }),
{
    let number = registers.rax;
    let arg0 = registers.rdi;
    let arg1 = registers.rsi;
    let arg2 = registers.rdx;
    match dispatch(number, arg0, arg1, arg2, context) {
        Ok(value) => {
            registers.rax = value;
            registers.rcx = SYSCALL_STATUS_OK;
        },
        Err(error) => {
            let (value, status) = encode_error(error);
            registers.rax = value;
            registers.rcx = status;
        },
    }
}

pub fn syscall_name(number: u64) -> (r: &'static str)
    ensures
        r == if number == SYSCALL_GET_TICKS {
            "get_ticks"
        } else if number == SYSCALL_GET_UPTIME_SECONDS {
            "get_uptime_seconds"
        } else if number == SYSCALL_ADD {
            "add"
        } else if number == SYSCALL_GET_USABLE_MEMORY {
            "get_usable_memory"
        } else if number == SYSCALL_GET_USABLE_FRAMES {
            "get_usable_frames"
        } else {
            "unknown"
        },
{
    match number {
        SYSCALL_GET_TICKS => "get_ticks",
        SYSCALL_GET_UPTIME_SECONDS => "get_uptime_seconds",
        SYSCALL_ADD => "add",
        SYSCALL_GET_USABLE_MEMORY => "get_usable_memory",
        SYSCALL_GET_USABLE_FRAMES => "get_usable_frames",
        _ => "unknown",
    }
}

pub fn error_name(error: SyscallError) -> (r: &'static str)
    ensures
        r == match error {
            SyscallError::UnknownNumber(_) => "unknown syscall number",
            SyscallError::Overflow => "arithmetic overflow",
            SyscallError::ContextUnavailable => "syscall context unavailable",
        },
{
    match error {
        SyscallError::UnknownNumber(_) => "unknown syscall number",
        SyscallError::Overflow => "arithmetic overflow",
        SyscallError::ContextUnavailable => "syscall context unavailable",
    }
}

/// Every error survives the trip through the status registers.
pub proof fn lemma_error_round_trip(error: SyscallError)
    ensures
        response_of(error_registers(error).1, error_registers(error).0) == Err::<u64, SyscallError>(error),
{
}

/// What the caller of a syscall reads back from rcx and rax is exactly what
/// `dispatch` computed, for every number, argument and kernel state.
pub proof fn lemma_registers_carry_result(number: u64, arg0: u64, arg1: u64, context: SyscallContext)
    ensures
        ({
            let result = dispatch_result(number, arg0, arg1, context);
            let (value, status) = match result {
                Ok(v) => (v, SYSCALL_STATUS_OK),
                Err(e) => error_registers(e),
            };
            response_of(status, value) == result
        }),
{
}

} // verus!
