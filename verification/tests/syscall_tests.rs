use jingos::memory::MemorySummary;
use jingos::syscall::{
    abi_mode, abi_mode_name, cpu_supports_syscall, decode_response, dispatch, encode_error, error_name,
    fast_syscall_stage_name, fast_syscall_status_after_probe, handle_interrupt_from_registers, syscall_name,
    FastSyscallRecord, FastSyscallSelectorPlan, FastSyscallStage, SyscallAbiMode, SyscallContext, SyscallError,
    SyscallRegisters, SYSCALL_ADD, SYSCALL_GET_TICKS, SYSCALL_GET_UPTIME_SECONDS, SYSCALL_GET_USABLE_FRAMES,
    SYSCALL_GET_USABLE_MEMORY, SYSCALL_STATUS_OK, SYSCALL_STATUS_OVERFLOW, SYSCALL_STATUS_UNKNOWN_NUMBER,
};

fn summary() -> MemorySummary {
    MemorySummary {
        total_regions: 4,
        usable_regions: 2,
        usable_bytes: 0x20_0000,
        reserved_bytes: 0x1000,
        largest_usable_region_bytes: 0x10_0000,
        usable_frames_4k: 512,
    }
}

fn registers(rax: u64, rdi: u64, rsi: u64) -> SyscallRegisters {
    SyscallRegisters {
        rax,
        rbx: 11,
        rcx: 0xdead,
        rdx: 3,
        rsi,
        rdi,
        rbp: 12,
        r8: 13,
        r9: 14,
        r10: 15,
        r11: 16,
        r12: 17,
        r13: 18,
        r14: 19,
        r15: 20,
    }
}

#[test]
fn dispatch_serves_each_syscall() {
    let context = SyscallContext { ticks: 250, memory_summary: Some(summary()) };
    assert_eq!(dispatch(SYSCALL_GET_TICKS, 0, 0, 0, &context), Ok(250));
    assert_eq!(dispatch(SYSCALL_GET_UPTIME_SECONDS, 0, 0, 0, &context), Ok(2));
    assert_eq!(dispatch(SYSCALL_ADD, 40, 2, 0, &context), Ok(42));
    assert_eq!(dispatch(SYSCALL_ADD, u64::MAX, 1, 0, &context), Err(SyscallError::Overflow));
    assert_eq!(dispatch(SYSCALL_GET_USABLE_MEMORY, 0, 0, 0, &context), Ok(0x20_0000));
    assert_eq!(dispatch(SYSCALL_GET_USABLE_FRAMES, 0, 0, 0, &context), Ok(512));
    assert_eq!(dispatch(99, 0, 0, 0, &context), Err(SyscallError::UnknownNumber(99)));
}

#[test]
fn memory_syscalls_need_a_summary() {
    let context = SyscallContext { ticks: 0, memory_summary: None };
    assert_eq!(dispatch(SYSCALL_GET_USABLE_MEMORY, 0, 0, 0, &context), Err(SyscallError::ContextUnavailable));
    assert_eq!(dispatch(SYSCALL_GET_USABLE_FRAMES, 0, 0, 0, &context), Err(SyscallError::ContextUnavailable));
}

#[test]
fn errors_survive_the_register_round_trip() {
    for error in [SyscallError::UnknownNumber(7), SyscallError::Overflow, SyscallError::ContextUnavailable] {
        let (value, status) = encode_error(error);
        assert_eq!(decode_response(status, value), Err(error));
    }
    assert_eq!(encode_error(SyscallError::UnknownNumber(7)), (7, SYSCALL_STATUS_UNKNOWN_NUMBER));
    assert_eq!(encode_error(SyscallError::Overflow), (0, SYSCALL_STATUS_OVERFLOW));
    assert_eq!(decode_response(SYSCALL_STATUS_OK, 5), Ok(5));
    assert_eq!(decode_response(77, 5), Err(SyscallError::ContextUnavailable));
}

#[test]
fn interrupt_handler_writes_rax_and_rcx_only() {
    let context = SyscallContext { ticks: 9, memory_summary: None };
    let mut regs = registers(SYSCALL_ADD, 5, 6);
    handle_interrupt_from_registers(&mut regs, &context);
    let mut expected = registers(11, 5, 6);
    expected.rcx = SYSCALL_STATUS_OK;
    assert_eq!(regs, expected);

    let mut regs = registers(42, 5, 6);
    handle_interrupt_from_registers(&mut regs, &context);
    assert_eq!((regs.rax, regs.rcx), (42, SYSCALL_STATUS_UNKNOWN_NUMBER));
    assert_eq!(decode_response(regs.rcx, regs.rax), Err(SyscallError::UnknownNumber(42)));
}

#[test]
fn names_of_syscalls_and_errors() {
    assert_eq!(syscall_name(0), "get_ticks");
    assert_eq!(syscall_name(1), "get_uptime_seconds");
    assert_eq!(syscall_name(2), "add");
    assert_eq!(syscall_name(3), "get_usable_memory");
    assert_eq!(syscall_name(4), "get_usable_frames");
    assert_eq!(syscall_name(5), "unknown");
    assert_eq!(error_name(SyscallError::UnknownNumber(1)), "unknown syscall number");
    assert_eq!(error_name(SyscallError::Overflow), "arithmetic overflow");
    assert_eq!(error_name(SyscallError::ContextUnavailable), "syscall context unavailable");
    assert_eq!(abi_mode(), SyscallAbiMode::InterruptRegistersV2);
    assert_eq!(abi_mode_name(), "interrupt-register-v2");
    assert_eq!(fast_syscall_stage_name(FastSyscallStage::Scaffolded), "scaffolded-not-enabled");
}

#[test]
fn cpuid_bit_eleven_reports_syscall() {
    assert!(cpu_supports_syscall(0x8000_0008, 1 << 11));
    assert!(!cpu_supports_syscall(0x8000_0008, !(1 << 11)));
    assert!(!cpu_supports_syscall(0x8000_0000, u32::MAX));
}

#[test]
fn probe_outcomes_give_the_stage() {
    let plan = FastSyscallSelectorPlan { kernel_cs: 0x08, kernel_ss: 0x10, user_cs: 0x23, user_ss: 0x1b };
    let status = fast_syscall_status_after_probe(false, false, plan, Ok((1, 2)), true);
    assert_eq!(status.stage, FastSyscallStage::UnsupportedCpu);
    assert_eq!(status.selectors, None);
    let status = fast_syscall_status_after_probe(true, false, plan, Err("star refused"), false);
    assert_eq!(status.stage, FastSyscallStage::Scaffolded);
    assert_eq!(status.note, "star refused");
    let status = fast_syscall_status_after_probe(true, false, plan, Ok((0x1000, 0x2000)), false);
    assert_eq!(status.stage, FastSyscallStage::MsrProgrammedNoSce);
    assert_eq!(status.lstar, Some(0x1000));
    let status = fast_syscall_status_after_probe(true, false, plan, Ok((0x1000, 0x2000)), true);
    assert_eq!(status.stage, FastSyscallStage::SceEnabledExperimental);
    assert_eq!(status.kernel_gs_base, Some(0x2000));
    assert!(status.sce_enabled);
    let mut record = FastSyscallRecord::new();
    assert_eq!(record.fast_syscall_status().stage, FastSyscallStage::Uninitialized);
    assert_eq!(record.fast_syscall_status().note, "not initialized");
    record.record(status);
    assert_eq!(record.fast_syscall_status(), status);
}
