use jingos::heap::{probe_allocations, HEAP_SIZE, HEAP_START};
use jingos::interrupts::{
    pit_divisor, pit_program_bytes, InterruptIndex, InterruptState, ScancodeBuffer, PIC_1_OFFSET, PIC_2_OFFSET,
    SCANCODE_BUFFER_SIZE,
};

#[test]
fn scancodes_come_out_in_order() {
    let mut buffer = ScancodeBuffer::new();
    assert_eq!(buffer.pop(), None);
    for code in 1..=3u8 {
        buffer.push(code);
    }
    assert_eq!(buffer.pop(), Some(1));
    buffer.push(4);
    assert_eq!(buffer.pop(), Some(2));
    assert_eq!(buffer.pop(), Some(3));
    assert_eq!(buffer.pop(), Some(4));
    assert_eq!(buffer.pop(), None);
    assert_eq!(buffer.dropped(), 0);
}

#[test]
fn full_buffer_drops_and_counts() {
    let mut buffer = ScancodeBuffer::new();
    for index in 0..SCANCODE_BUFFER_SIZE + 5 {
        buffer.push(index as u8);
    }
    assert_eq!(buffer.dropped(), 5);
    for index in 0..SCANCODE_BUFFER_SIZE {
        assert_eq!(buffer.pop(), Some(index as u8));
    }
    assert_eq!(buffer.pop(), None);
    // wrap around the ring
    for round in 0..300u32 {
        buffer.push(round as u8);
        assert_eq!(buffer.pop(), Some(round as u8));
    }
}

#[test]
fn interrupt_state_counts_events() {
    let mut state = InterruptState::new();
    assert_eq!(state.ticks(), 0);
    state.on_timer();
    state.on_timer();
    assert_eq!(state.ticks(), 2);
    state.on_keyboard(0x1E);
    state.on_keyboard(0x9E);
    assert_eq!(state.queued(), 2);
    assert_eq!(state.keyboard_counters(), (2, 0));
    assert_eq!(state.pop_scancode(), Some(0x1E));
    assert_eq!(state.pop_scancode(), Some(0x9E));
    assert_eq!(state.pop_scancode(), None);
    for _ in 0..SCANCODE_BUFFER_SIZE + 1 {
        state.on_keyboard(0x10);
    }
    assert_eq!(state.keyboard_counters(), (2 + SCANCODE_BUFFER_SIZE as u64 + 1, 1));
    assert_eq!(state.queued(), SCANCODE_BUFFER_SIZE);
    assert_eq!(state.ticks(), 2);
}

#[test]
fn interrupt_vectors() {
    assert_eq!(PIC_1_OFFSET, 32);
    assert_eq!(PIC_2_OFFSET, 40);
    assert_eq!(InterruptIndex::Timer.as_u8(), 32);
    assert_eq!(InterruptIndex::Keyboard.as_u8(), 33);
}

#[test]
fn pit_divisor_for_common_rates() {
    assert_eq!(pit_divisor(100), 11931);
    assert_eq!(pit_divisor(1000), 1193);
    assert_eq!(pit_divisor(0), 62799);
    assert_eq!(pit_divisor(19), 62799);
    assert_eq!(pit_divisor(u32::MAX), 1);
    assert_eq!(pit_program_bytes(11931), (0x36, 0x9B, 0x2E));
}

#[test]
fn heap_probe_and_layout() {
    assert_eq!(probe_allocations(), (0xA1B2_C3D4_E5F6_1234, 136));
    assert_eq!(HEAP_START, 0x0000_4444_4444_0000);
    assert_eq!(HEAP_SIZE, 100 * 1024);
}
