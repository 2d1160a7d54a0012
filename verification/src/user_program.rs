//! The in-kernel user demo: five syscalls through the interrupt ABI.

use vstd::prelude::*;
use crate::syscall::{SyscallError, SYSCALL_ADD, SYSCALL_GET_TICKS, SYSCALL_GET_UPTIME_SECONDS,
    SYSCALL_GET_USABLE_FRAMES, SYSCALL_GET_USABLE_MEMORY};

verus! {

#[derive(Debug, Clone, Copy, PartialEq, Eq, Structural)]
pub struct UserDemoReport {
    pub ticks: u64,
    pub uptime_seconds: u64,
    pub sum: u64,
    pub usable_bytes: u64,
    pub usable_frames: u64,
}

/// The five requests of the demo, in order.
pub open spec fn demo_request(i: int) -> (u64, u64, u64, u64) {
    if i == 0 {
        (SYSCALL_GET_TICKS, 0, 0, 0)
    } else if i == 1 {
        (SYSCALL_GET_UPTIME_SECONDS, 0, 0, 0)
    } else if i == 2 {
        (SYSCALL_ADD, 40, 2, 0)
    } else if i == 3 {
        (SYSCALL_GET_USABLE_MEMORY, 0, 0, 0)
    } else {
        (SYSCALL_GET_USABLE_FRAMES, 0, 0, 0)
    }
}

/// Issues the demo's syscalls through `invoke` in order, stopping at the first
/// error; on success the report holds the five values.
pub fn run_user_demo<F: Fn(u64, u64, u64, u64) -> Result<u64, SyscallError>>(invoke: F) -> (r: Result<UserDemoReport, SyscallError>)
    requires
        forall|a: u64, b: u64, c: u64, d: u64| invoke.requires((a, b, c, d)),
    ensures
        r matches Ok(report) ==> {
            &&& invoke.ensures(demo_request(0), Ok::<u64, SyscallError>(report.ticks))
            &&& invoke.ensures(demo_request(1), Ok::<u64, SyscallError>(report.uptime_seconds))
            &&& invoke.ensures(demo_request(2), Ok::<u64, SyscallError>(report.sum))
            &&& invoke.ensures(demo_request(3), Ok::<u64, SyscallError>(report.usable_bytes))
            &&& invoke.ensures(demo_request(4), Ok::<u64, SyscallError>(report.usable_frames))
        },
        r matches Err(e) ==> exists|i: int| 0 <= i < 5 && invoke.ensures(#[trigger] demo_request(i), Err::<u64, SyscallError>(e))
            && forall|j: int| 0 <= j < i ==> exists|v: u64| invoke.ensures(#[trigger] demo_request(j), Ok::<u64, SyscallError>(v)),
{
    let ticks_value = match invoke(SYSCALL_GET_TICKS, 0, 0, 0) {
        Ok(v) => v,
        Err(e) => {
            assert(invoke.ensures(demo_request(0), Err::<u64, SyscallError>(e)));
            return Err(e);
        },
    };
    let uptime_seconds = match invoke(SYSCALL_GET_UPTIME_SECONDS, 0, 0, 0) {
        Ok(v) => v,
        Err(e) => {
            assert(invoke.ensures(demo_request(1), Err::<u64, SyscallError>(e)));
            return Err(e);
        },
    };
    let sum = match invoke(SYSCALL_ADD, 40, 2, 0) {
        Ok(v) => v,
        Err(e) => {
            assert(invoke.ensures(demo_request(2), Err::<u64, SyscallError>(e)));
            return Err(e);
        },
    };
    let usable_bytes = match invoke(SYSCALL_GET_USABLE_MEMORY, 0, 0, 0) {
        Ok(v) => v,
        Err(e) => {
            assert(invoke.ensures(demo_request(3), Err::<u64, SyscallError>(e)));
            return Err(e);
        },
    };
    let usable_frames = match invoke(SYSCALL_GET_USABLE_FRAMES, 0, 0, 0) {
        Ok(v) => v,
        Err(e) => {
            assert(invoke.ensures(demo_request(4), Err::<u64, SyscallError>(e)));
            return Err(e);
        },
    };
    Ok(UserDemoReport { ticks: ticks_value, uptime_seconds, sum, usable_bytes, usable_frames })
}

} // verus!
