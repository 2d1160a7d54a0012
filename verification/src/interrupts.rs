//! Interrupt-side state: the scancode ring buffer, the interrupt vectors and the
//! timer divisor.

use vstd::prelude::*;

verus! {

pub const PIC_1_OFFSET: u8 = 32;
pub const PIC_2_OFFSET: u8 = 40;

pub const PIT_INPUT_HZ: u32 = 1_193_182;
pub const PIT_MIN_HZ: u32 = 19;
pub const PIT_MAX_HZ: u32 = 1_193_182;

/// Capacity of the scancode buffer.
pub const SCANCODE_BUFFER_SIZE: usize = 128;

/// A bounded FIFO of scancodes; scancodes that arrive while it is full are counted
/// and dropped.
pub struct ScancodeBuffer {
    entries: [u8; SCANCODE_BUFFER_SIZE],
    read_index: usize,
    write_index: usize,
    len: usize,
    dropped: u64,
}

/// What the buffer holds: its scancodes, oldest first, and how many were dropped.
pub ghost struct ScancodeBufferView {
    pub queue: Seq<u8>,
    pub dropped: u64,
}

impl View for ScancodeBuffer {
    type V = ScancodeBufferView;

    closed spec fn view(&self) -> ScancodeBufferView {
        ScancodeBufferView {
            queue: Seq::new(
                self.len as nat,
                |i: int| self.entries@[(self.read_index + i) % (SCANCODE_BUFFER_SIZE as int)],
            ),
            dropped: self.dropped,
        }
    }
}

impl ScancodeBuffer {
    #[verifier::type_invariant]
    spec fn inv(self) -> bool {
        &&& self.len <= SCANCODE_BUFFER_SIZE
        &&& self.read_index < SCANCODE_BUFFER_SIZE
        &&& self.write_index == (self.read_index + self.len) % (SCANCODE_BUFFER_SIZE as int)
    }

    pub fn new() -> (r: Self)
        ensures
            r@.queue == Seq::<u8>::empty(),
            r@.dropped == 0,
    {
        let r = Self { entries: [0; SCANCODE_BUFFER_SIZE], read_index: 0, write_index: 0, len: 0, dropped: 0 };
        assert(r@.queue =~= Seq::<u8>::empty());
        r
    }

    /// Appends a scancode, or counts it as dropped when the buffer is full.
    pub fn push(&mut self, scancode: u8)
        requires
            old(self)@.queue.len() < SCANCODE_BUFFER_SIZE || old(self)@.dropped < u64::MAX,
        ensures
            old(self)@.queue.len() < SCANCODE_BUFFER_SIZE ==> final(self)@.queue == old(self)@.queue.push(scancode)
                && final(self)@.dropped == old(self)@.dropped,
            old(self)@.queue.len() == SCANCODE_BUFFER_SIZE ==> final(self)@.queue == old(self)@.queue
                && final(self)@.dropped == old(self)@.dropped + 1,
            final(self)@.queue.len() <= SCANCODE_BUFFER_SIZE,
    {
        proof { use_type_invariant(&*self); }
        if self.len == SCANCODE_BUFFER_SIZE {
            self.dropped += 1;
            return;
        }
        let ghost old_q = self@.queue;
        let mut entries = self.entries;
        entries[self.write_index] = scancode;
        *self = Self {
            entries,
            read_index: self.read_index,
            write_index: (self.write_index + 1) % SCANCODE_BUFFER_SIZE,
            len: self.len + 1,
            dropped: self.dropped,
        };
        assert(self@.queue =~= old_q.push(scancode));
    }

    /// Removes and returns the oldest scancode.
    pub fn pop(&mut self) -> (r: Option<u8>)
        ensures
            old(self)@.queue.len() == 0 ==> r is None && final(self)@ == old(self)@,
            old(self)@.queue.len() > 0 ==> r == Some(old(self)@.queue[0])
                && final(self)@.queue == old(self)@.queue.drop_first()
                && final(self)@.dropped == old(self)@.dropped,
    {
        proof { use_type_invariant(&*self); }
        if self.len == 0 {
            return None;
        }
        let ghost old_q = self@.queue;
        let scancode = self.entries[self.read_index];
        *self = Self {
            entries: self.entries,
            read_index: (self.read_index + 1) % SCANCODE_BUFFER_SIZE,
            write_index: self.write_index,
            len: self.len - 1,
            dropped: self.dropped,
        };
        assert(self@.queue =~= old_q.drop_first());
        Some(scancode)
    }

    /// How many scancodes were dropped.
    pub fn dropped(&self) -> (r: u64)
        ensures
            r == self@.dropped,
    {
        self.dropped
    }

    /// How many scancodes are queued.
    pub fn len(&self) -> (r: usize)
        ensures
            r == self@.queue.len(),
    {
        self.len
    }
}

/// What the interrupt handlers record: timer ticks, keyboard interrupts and the
/// scancodes that the keyboard handler queued for the monitor.
pub struct InterruptState {
    ticks: u64,
    keyboard_irqs: u64,
    scancodes: ScancodeBuffer,
}

/// The interrupt counters and the scancode queue, as values.
pub ghost struct InterruptStateView {
    pub ticks: u64,
    pub keyboard_irqs: u64,
    pub queue: Seq<u8>,
    pub dropped: u64,
}

impl View for InterruptState {
    type V = InterruptStateView;

    closed spec fn view(&self) -> InterruptStateView {
        InterruptStateView {
            ticks: self.ticks,
            keyboard_irqs: self.keyboard_irqs,
            queue: self.scancodes@.queue,
            dropped: self.scancodes@.dropped,
        }
    }
}

/// A counter after one more event; the counters wrap around as atomic adds do.
pub open spec fn counted(n: u64) -> u64 {
    if n == u64::MAX { 0 } else { (n + 1) as u64 }
}

impl InterruptState {
    /// Nothing counted, nothing queued.
    pub fn new() -> (r: Self)
        ensures
            r@.ticks == 0,
            r@.keyboard_irqs == 0,
            r@.queue == Seq::<u8>::empty(),
            r@.dropped == 0,
    {
        InterruptState { ticks: 0, keyboard_irqs: 0, scancodes: ScancodeBuffer::new() }
    }

    /// The timer interrupt: one more tick.
    pub fn on_timer(&mut self)
        ensures
            final(self)@ == (InterruptStateView { ticks: counted(old(self)@.ticks), ..old(self)@ }),
    {
        self.ticks = self.ticks.wrapping_add(1);
    }

    /// The keyboard interrupt with the scancode it read: counted, and the scancode
    /// queued (or counted as dropped when the queue is full).
    pub fn on_keyboard(&mut self, scancode: u8)
        requires
            old(self)@.queue.len() < SCANCODE_BUFFER_SIZE || old(self)@.dropped < u64::MAX,
        ensures
            final(self)@.ticks == old(self)@.ticks,
            final(self)@.keyboard_irqs == counted(old(self)@.keyboard_irqs),
            old(self)@.queue.len() < SCANCODE_BUFFER_SIZE ==> final(self)@.queue == old(self)@.queue.push(scancode)
                && final(self)@.dropped == old(self)@.dropped,
            old(self)@.queue.len() >= SCANCODE_BUFFER_SIZE ==> final(self)@.queue == old(self)@.queue
                && final(self)@.dropped == old(self)@.dropped + 1,
    {
        proof {
            use_type_invariant(&self.scancodes);
        }
        self.keyboard_irqs = self.keyboard_irqs.wrapping_add(1);
        self.scancodes.push(scancode);
    }

    /// Timer ticks since start.
    pub fn ticks(&self) -> (r: u64)
        ensures
            r == self@.ticks,
    {
        self.ticks
    }

    /// The oldest queued scancode, taken off the queue.
    pub fn pop_scancode(&mut self) -> (r: Option<u8>)
        ensures
            final(self)@.ticks == old(self)@.ticks,
            final(self)@.keyboard_irqs == old(self)@.keyboard_irqs,
            final(self)@.dropped == old(self)@.dropped,
            old(self)@.queue.len() == 0 ==> r is None && final(self)@.queue == old(self)@.queue,
            old(self)@.queue.len() > 0 ==> r == Some(old(self)@.queue[0])
                && final(self)@.queue == old(self)@.queue.drop_first(),
    {
        self.scancodes.pop()
    }

    /// How many scancodes wait in the queue.
    pub fn queued(&self) -> (r: usize)
        ensures
            r == self@.queue.len(),
    {
        self.scancodes.len()
    }

    /// Keyboard interrupts seen, and scancodes dropped because the queue was full.
    pub fn keyboard_counters(&self) -> (r: (u64, u64))
        ensures
            r == (self@.keyboard_irqs, self@.dropped),
    {
        (self.keyboard_irqs, self.scancodes.dropped())
    }
}

/// The hardware interrupts that the kernel serves.
#[derive(Debug, Clone, Copy, PartialEq, Eq, Structural)]
pub enum InterruptIndex {
    Timer,
    Keyboard,
}

impl InterruptIndex {
    /// The interrupt vector: the timer is the first vector of the first PIC, the
    /// keyboard the next.
    pub fn as_u8(self) -> (r: u8)
        ensures
            r == match self {
                InterruptIndex::Timer => PIC_1_OFFSET,
                InterruptIndex::Keyboard => (PIC_1_OFFSET + 1) as u8,
            },
    {
        match self {
            InterruptIndex::Timer => PIC_1_OFFSET,
            InterruptIndex::Keyboard => PIC_1_OFFSET + 1,
        }
    }
}

/// `x.clamp(lo, hi)` for `lo <= hi`.
pub open spec fn clamped(x: int, lo: int, hi: int) -> int {
    if x < lo { lo } else if x > hi { hi } else { x }
}

/// The channel-0 reload value for a requested timer frequency: the frequency is
/// clamped to what the PIT can produce and the divisor to 16 bits.
pub fn pit_divisor(requested_hz: u32) -> (r: u16)
    ensures
        r == clamped((PIT_INPUT_HZ as int) / clamped(requested_hz as int, PIT_MIN_HZ as int, PIT_MAX_HZ as int), 1, 0xFFFF),
{
    let hz = if requested_hz < PIT_MIN_HZ { PIT_MIN_HZ } else if requested_hz > PIT_MAX_HZ { PIT_MAX_HZ } else { requested_hz };
    let quotient = PIT_INPUT_HZ / hz;
    let divisor = if quotient < 1 { 1 } else if quotient > 0xFFFF { 0xFFFF } else { quotient };
    divisor as u16
}

/// The bytes written to program channel 0: the mode command (channel 0, lobyte/hibyte,
/// square wave), then the divisor's low and high byte.
pub fn pit_program_bytes(divisor: u16) -> (r: (u8, u8, u8))
    ensures
        r == (0x36u8, (divisor % 256) as u8, (divisor / 256) as u8),
{
    let low = (divisor & 0x00ff) as u8;
    let high = (divisor >> 8u16) as u8;
    assert(low == divisor % 256 && high == divisor / 256) by (bit_vector)
        requires
            low == (divisor & 0x00ff) as u8,
            high == (divisor >> 8u16) as u8,
    ;
    (0x36, low, high)
}

} // verus!
