//! Kernel heap constants and the allocation probe.

use vstd::prelude::*;

verus! {

pub const HEAP_START: u64 = 0x0000_4444_4444_0000;
pub const HEAP_SIZE: usize = 100 * 1024;

/// Boxes a marker value and sums a vector of 1..=16: exercises the allocator and
/// returns (the boxed value, the sum).
pub fn probe_allocations() -> (r: (u64, u64))
    ensures
        r == (0xA1B2_C3D4_E5F6_1234u64, 136u64),
{
    let boxed = Box::new(0xA1B2_C3D4_E5F6_1234u64);
    let mut values: Vec<u64> = Vec::new();
    let mut value: u64 = 1;
    while value <= 16
        invariant
            1 <= value <= 17,
            values@.len() == value - 1,
            forall|i: int| 0 <= i < values@.len() ==> values@[i] == i + 1,
        decreases 17 - value,
    {
        values.push(value);
        value += 1;
    }
    let mut sum: u64 = 0;
    let mut i: usize = 0;
    while i < values.len()
        invariant
            i <= values@.len() == 16,
            forall|j: int| 0 <= j < values@.len() ==> values@[j] == j + 1,
            sum == i * (i + 1) / 2,
        decreases values@.len() - i,
    {
        assert(sum <= 120) by (nonlinear_arith)
            requires
                sum == i * (i + 1) / 2,
                i < 16,
        ;
        sum = sum + values[i];
        i += 1;
        assert(sum == i * (i + 1) / 2) by (nonlinear_arith)
            requires
                sum == (i - 1) * i / 2 + i,
                i >= 1,
        ;
    }
    (*boxed, sum)
}

} // verus!
