use jingos::syscall::{SyscallContext, SyscallError, SyscallRegisters, SYSCALL_ADD, SYSCALL_GET_TICKS};
use jingos::user_program::run_user_demo;
use jingos::usermode::{
    build_fast_syscall_error_code, build_fast_syscall_success_code, emit_fast_syscall_capture_slot0,
    handle_exit_interrupt_from_registers, new_session, run_demo, run_fast_syscall_demo, run_fast_syscall_error_demo,
    set_memory_initialized, take_last_fast_syscall_report, user_int_demo_code, FastSyscallDemoKind,
    FastSyscallDemoReport, UserCodeBuilder, UserModeExit, USER_CODE_MAX_BYTES, USER_CODE_START, USER_STACK_TOP,
};

fn slot_bytes(number: u32, arg0: u64, arg1: u64, arg2: u64, tail: [u8; 6]) -> Vec<u8> {
    let mut bytes = vec![0xB8];
    bytes.extend_from_slice(&number.to_le_bytes());
    bytes.extend_from_slice(&[0x48, 0xBF]);
    bytes.extend_from_slice(&arg0.to_le_bytes());
    bytes.extend_from_slice(&[0x48, 0xBE]);
    bytes.extend_from_slice(&arg1.to_le_bytes());
    bytes.extend_from_slice(&[0x48, 0xBA]);
    bytes.extend_from_slice(&arg2.to_le_bytes());
    bytes.extend_from_slice(&[0x0F, 0x05]);
    bytes.extend_from_slice(&tail);
    bytes
}

fn registers_with(r8: u64, r9: u64, r10: u64, r12: u64) -> SyscallRegisters {
    SyscallRegisters {
        rax: 0,
        rbx: 0,
        rcx: 0,
        rdx: 0,
        rsi: 0,
        rdi: 0,
        rbp: 0,
        r8,
        r9,
        r10,
        r11: 0,
        r12,
        r13: 0,
        r14: 0,
        r15: 0,
    }
}

#[test]
fn success_program_bytes() {
    let code = build_fast_syscall_success_code().unwrap();
    let mut expected = slot_bytes(0, 0, 0, 0, [0x49, 0x89, 0xC0, 0x4D, 0x89, 0xD1]);
    expected.extend(slot_bytes(2, 40, 2, 0, [0x4D, 0x89, 0xD4, 0x49, 0x89, 0xC2]));
    expected.extend_from_slice(&[0xCD, 0x81, 0xEB, 0xFE]);
    assert_eq!(code.as_slice(), expected.as_slice());
}

#[test]
fn error_program_bytes() {
    let code = build_fast_syscall_error_code().unwrap();
    let mut expected = slot_bytes(0xFFFF_FF00, 0, 0, 0, [0x49, 0x89, 0xC0, 0x4D, 0x89, 0xD1]);
    expected.extend(slot_bytes(2, u64::MAX, 1, 0, [0x4D, 0x89, 0xD4, 0x49, 0x89, 0xC2]));
    expected.extend_from_slice(&[0xCD, 0x81, 0xEB, 0xFE]);
    assert_eq!(code.as_slice(), expected.as_slice());
}

#[test]
fn interrupt_demo_bytes() {
    let code = user_int_demo_code();
    assert_eq!(code.as_slice(), &[0xB8, 0x00, 0x00, 0x00, 0x00, 0xCD, 0x80, 0xCD, 0x81, 0xEB, 0xFE]);
}

#[test]
fn builder_refuses_code_that_does_not_fit() {
    let mut builder = UserCodeBuilder::new();
    for _ in 0..USER_CODE_MAX_BYTES - 1 {
        builder.emit_byte(0x90).unwrap();
    }
    assert_eq!(builder.emit_hang_loop(), Err("user mode demo code exceeded max length"));
    assert_eq!(builder.emit_mov_rdi_imm64(5), Err("user mode demo code exceeded max length"));
    assert_eq!(builder.emit_byte(0xCC), Ok(()));
    assert_eq!(builder.emit_byte(0xCC), Err("user mode demo code exceeded max length"));
    let code = builder.finish();
    assert_eq!(code.as_slice().len(), USER_CODE_MAX_BYTES);
    assert_eq!(code.as_slice()[USER_CODE_MAX_BYTES - 1], 0xCC);
}

#[test]
fn partial_instruction_stays_when_its_immediate_does_not_fit() {
    let mut builder = UserCodeBuilder::new();
    for _ in 0..USER_CODE_MAX_BYTES - 3 {
        builder.emit_byte(0x90).unwrap();
    }
    assert!(builder.emit_mov_eax_imm32(7).is_err());
    let code = builder.finish();
    assert_eq!(code.as_slice().len(), USER_CODE_MAX_BYTES - 2);
    assert_eq!(code.as_slice()[USER_CODE_MAX_BYTES - 3], 0xB8);

    let mut builder = UserCodeBuilder::new();
    for _ in 0..USER_CODE_MAX_BYTES - 20 {
        builder.emit_byte(0x90).unwrap();
    }
    assert!(emit_fast_syscall_capture_slot0(&mut builder, 1, 2, 3, 4).is_err());
    // mov eax (5 bytes) and mov rdi (10 bytes) fit, the opcode of mov rsi (2 bytes) too
    assert_eq!(builder.finish().as_slice().len(), USER_CODE_MAX_BYTES - 20 + 17);
}

#[test]
fn demos_need_user_memory() {
    let mut session = new_session();
    assert_eq!(run_demo(&mut session).err(), Some("user mode memory not initialized"));
    assert_eq!(run_fast_syscall_demo(&mut session).err(), Some("user mode memory not initialized"));
    assert_eq!(session, new_session());
    set_memory_initialized(&mut session);
    let launch = run_demo(&mut session).unwrap();
    assert_eq!(launch.context.entry, USER_CODE_START);
    assert_eq!(launch.context.stack_top, USER_STACK_TOP);
    assert!(session.exit_expected);
    assert_eq!(session.pending_kind, None);
}

#[test]
fn exit_interrupt_records_the_report_once() {
    let mut session = new_session();
    set_memory_initialized(&mut session);
    run_fast_syscall_error_demo(&mut session).unwrap();
    assert_eq!(session.pending_kind, Some(FastSyscallDemoKind::ErrorPath));
    let regs = registers_with(0xFFFF_FF00, 1, 0, 2);
    assert_eq!(handle_exit_interrupt_from_registers(&mut session, &regs), UserModeExit::ResumeMonitor);
    let report = take_last_fast_syscall_report(&mut session).unwrap();
    assert_eq!(
        report,
        FastSyscallDemoReport {
            kind: FastSyscallDemoKind::ErrorPath,
            call0_value: 0xFFFF_FF00,
            call0_status: 1,
            call1_value: 0,
            call1_status: 2,
        }
    );
    assert!(report.passed());
    assert_eq!(report.kind_name(), "error-path");
    assert_eq!(take_last_fast_syscall_report(&mut session), None);
    assert_eq!(handle_exit_interrupt_from_registers(&mut session, &regs), UserModeExit::IgnoredUnexpected);
}

#[test]
fn success_report_checks_its_values() {
    let mut session = new_session();
    set_memory_initialized(&mut session);
    run_fast_syscall_demo(&mut session).unwrap();
    handle_exit_interrupt_from_registers(&mut session, &registers_with(123, 0, 42, 0));
    let report = take_last_fast_syscall_report(&mut session).unwrap();
    assert_eq!(report.kind, FastSyscallDemoKind::SuccessPath);
    assert!(report.passed());
    assert_eq!(report.expected_summary(), "call0 status=0; call1 value=42 status=0 (SYSCALL_ADD 40+2)");
    let wrong = FastSyscallDemoReport { call1_value: 41, ..report };
    assert!(!wrong.passed());
}

#[test]
fn interrupt_demo_leaves_no_report() {
    let mut session = new_session();
    set_memory_initialized(&mut session);
    run_fast_syscall_demo(&mut session).unwrap();
    handle_exit_interrupt_from_registers(&mut session, &registers_with(1, 0, 42, 0));
    run_demo(&mut session).unwrap();
    assert_eq!(session.last_report, None);
    handle_exit_interrupt_from_registers(&mut session, &registers_with(1, 0, 42, 0));
    assert_eq!(take_last_fast_syscall_report(&mut session), None);
}

#[test]
fn user_demo_issues_five_syscalls() {
    let context = SyscallContext { ticks: 345, memory_summary: None };
    let calls = std::cell::RefCell::new(Vec::new());
    let result = run_user_demo(|n, a, b, c| {
        calls.borrow_mut().push((n, a, b, c));
        if n == 3 || n == 4 {
            Ok(n * 100)
        } else {
            jingos::syscall::dispatch(n, a, b, c, &context)
        }
    })
    .unwrap();
    assert_eq!(result.ticks, 345);
    assert_eq!(result.uptime_seconds, 3);
    assert_eq!(result.sum, 42);
    assert_eq!(result.usable_bytes, 300);
    assert_eq!(result.usable_frames, 400);
    assert_eq!(calls.borrow().as_slice(), &[(SYSCALL_GET_TICKS, 0, 0, 0), (1, 0, 0, 0), (SYSCALL_ADD, 40, 2, 0), (3, 0, 0, 0), (4, 0, 0, 0)]);
}

#[test]
fn user_demo_stops_at_first_error() {
    let context = SyscallContext { ticks: 1, memory_summary: None };
    let mut count = 0;
    let counter = std::cell::Cell::new(0);
    let result = run_user_demo(|n, a, b, c| {
        counter.set(counter.get() + 1);
        jingos::syscall::dispatch(n, a, b, c, &context)
    });
    count += counter.get();
    assert_eq!(result.err(), Some(SyscallError::ContextUnavailable));
    assert_eq!(count, 4);
}
