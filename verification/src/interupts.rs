//! Tick source and frame clock: the reload value of the hardware timer, the
//! counter that each timer interrupt advances, and the rule by which the
//! render loop tells one frame from the next.
use core::sync::atomic::{AtomicBool, AtomicU64, Ordering};
use vstd::prelude::*;

verus! {

/// Input frequency of the programmable interval timer, in hertz.
pub const PIT_BASE_HZ: u32 = 1_193_182;

/// Port of the timer's mode/command register.
pub const PIT_COMMAND_PORT: u16 = 0x43;

/// Data port of the timer's channel 0.
pub const PIT_CHANNEL0_PORT: u16 = 0x40;

/// Command byte: channel 0, low byte then high byte, square wave, binary counter.
pub const PIT_SQUARE_WAVE: u8 = 0x36;

/// Tick frequency that the kernel asks of the timer, in hertz.
pub const TARGET_HZ: u32 = 60;

/// First interrupt vector of the primary interrupt controller.
pub const PIC_1_OFFSET: u8 = 32;

/// First interrupt vector of the secondary interrupt controller.
pub const PIC_2_OFFSET: u8 = PIC_1_OFFSET + 8;

/// The hardware interrupts that the kernel handles.
#[derive(Debug, Clone, Copy, PartialEq, Eq, Structural)]
pub enum InterruptIndex {
    Timer,
    Keyboard,
}

impl InterruptIndex {
    /// The interrupt vector that the controller raises for this source.
    pub open spec fn vector(self) -> u8 {
        match self {
            InterruptIndex::Timer => PIC_1_OFFSET,
            InterruptIndex::Keyboard => (PIC_1_OFFSET + 1) as u8,
        }
    }

    /// Returns the interrupt vector that the controller raises for this source.
    pub fn as_u8(self) -> (vector: u8)
        ensures
            vector == self.vector(),
    {
        match self {
            InterruptIndex::Timer => PIC_1_OFFSET,
            InterruptIndex::Keyboard => PIC_1_OFFSET + 1,
        }
    }
}

/// The reload divisor for a tick frequency of `target_hz`: the base
/// frequency divided by the target, held to what the timer can count,
/// from 1 to 65535. A target of 0 is taken as 1.
pub open spec fn divisor_for(target_hz: u32) -> int {
    let hz: int = if target_hz < 1 {
        1
    } else {
        target_hz as int
    };
    let divisor = PIT_BASE_HZ as int / hz;
    if divisor < 1 {
        1
    } else if divisor > u16::MAX {
        u16::MAX as int
    } else {
        divisor
    }
}

/// Computes the reload divisor for a tick frequency of `target_hz`.
pub fn pit_divisor(target_hz: u32) -> (divisor: u16)
    ensures
        divisor == divisor_for(target_hz),
{
    let hz: u32 = if target_hz < 1 {
        1
    } else {
        target_hz
    };
    let divisor: u32 = PIT_BASE_HZ / hz;
    if divisor < 1 {
        1
    } else if divisor > 0xFFFF {
        0xFFFF
    } else {
        divisor as u16
    }
}

/// One byte to write to one I/O port.
#[derive(Debug, Clone, Copy, PartialEq, Eq, Structural)]
pub struct PortWrite {
    pub port: u16,
    pub value: u8,
}

/// The writes to I/O ports that set the timer to a tick frequency of `target_hz`,
/// in the order they are made: the command byte, then the low and the
/// high byte of the divisor.
pub open spec fn pit_program(target_hz: u32) -> Seq<PortWrite> {
    seq![
        PortWrite { port: PIT_COMMAND_PORT, value: PIT_SQUARE_WAVE },
        PortWrite { port: PIT_CHANNEL0_PORT, value: (divisor_for(target_hz) % 256) as u8 },
        PortWrite { port: PIT_CHANNEL0_PORT, value: (divisor_for(target_hz) / 256) as u8 },
    ]
}

/// Computes the writes to I/O ports that set the timer to a tick frequency of
/// `target_hz`. An out-of-range frequency is clamped, never refused.
pub fn init_pit(target_hz: u32) -> (program: [PortWrite; 3])
    ensures
        program@ == pit_program(target_hz),
{
    let divisor: u16 = pit_divisor(target_hz);
    let low: u8 = (divisor % 256) as u8;
    let high: u8 = (divisor / 256) as u8;
    let program = [
        PortWrite { port: PIT_COMMAND_PORT, value: PIT_SQUARE_WAVE },
        PortWrite { port: PIT_CHANNEL0_PORT, value: low },
        PortWrite { port: PIT_CHANNEL0_PORT, value: high },
    ];
    program
}

/// The tick counter and the cursor's blink flag: the state that the timer
/// interrupt advances while the render loop reads it. Both are atomic, so
/// the handler and the loop share them without a lock.
///
/// The handler may run between any two steps of the loop, so no contract
/// speaks of what the two atomics hold: a reading is a value that the
/// caller hands on, and the functions that take it say what follows from
/// it ([`wait_for_next_frame`] for a tick, the terminal's cursor drawing for
/// the blink flag).
pub struct TickCounter {
    ticks: AtomicU64,
    cursor_visible: AtomicBool,
}

impl TickCounter {
    /// A counter at tick 0, with the cursor hidden.
    ///
    /// The start values are handed to the atomics as they are made; no
    /// clause can repeat them, since an atomic has no value in contracts.
    pub fn new() -> TickCounter {
        TickCounter { ticks: AtomicU64::new(0), cursor_visible: AtomicBool::new(false) }
    }

    /// Handles one underflow of the timer: counts the tick with relaxed
    /// ordering and flips the cursor's blink flag. Returns the interrupt
    /// vector that the caller must acknowledge to the interrupt controller
    /// before it returns from the interrupt.
    pub fn on_underflow(&self) -> (acknowledge: u8)
        ensures
            acknowledge == InterruptIndex::Timer.vector(),
    {
        self.ticks.fetch_add(1, Ordering::Relaxed);
        let visible = self.cursor_visible.load(Ordering::SeqCst);
        self.cursor_visible.store(!visible, Ordering::SeqCst);
        InterruptIndex::Timer.as_u8()
    }

    /// Returns a snapshot of the tick counter: one relaxed atomic load. It
    /// never blocks.
    ///
    /// Nothing is claimed of the value read: the timer interrupt may have
    /// counted any number of ticks since the last reading.
    pub fn read_ticks(&self) -> u64 {
        self.ticks.load(Ordering::Relaxed)
    }

    /// Returns whether the cursor is in the visible half of its blink: one
    /// atomic load.
    ///
    /// Nothing is claimed of the value read: the timer interrupt flips the
    /// flag with every tick.
    pub fn cursor_visible(&self) -> bool {
        self.cursor_visible.load(Ordering::SeqCst)
    }
}

/// Returns a snapshot of the tick counter, as [`TickCounter::read_ticks`]
/// does, and with as little claimed of it.
pub fn timer_ticks(counter: &TickCounter) -> u64 {
    counter.read_ticks()
}

/// What the frame clock makes of one reading `now` of the tick counter,
/// when the last frame began at `last_seen_tick`: the tick at which the
/// next frame begins, once the counter has moved.
pub open spec fn frame_after(last_seen_tick: u64, now: u64) -> Option<u64> {
    if now != last_seen_tick {
        Some(now)
    } else {
        None
    }
}

/// Decides one turn of the wait for the next frame. `None` tells the
/// caller to yield the pipeline and read the counter again; `Some` ends the
/// wait with the new tick.
pub fn wait_for_next_frame(last_seen_tick: u64, now: u64) -> (next: Option<u64>)
    ensures
        next == frame_after(last_seen_tick, now),
{
    if now != last_seen_tick {
        Some(now)
    } else {
        None
    }
}

/// The ticks at which consecutive frames begin increase strictly, so none
/// is seen twice. It holds of a counter that never decreases: each reading
/// is no smaller than the tick of the frame before it.
pub proof fn lemma_frame_ticks_increase(start: u64, first_reading: u64, second_reading: u64)
    requires
        start <= first_reading,
        frame_after(start, first_reading).is_some(),
        frame_after(start, first_reading).unwrap() <= second_reading,
        frame_after(frame_after(start, first_reading).unwrap(), second_reading).is_some(),
    ensures
        start < frame_after(start, first_reading).unwrap() < frame_after(
            frame_after(start, first_reading).unwrap(),
            second_reading,
        ).unwrap(),
{
}

} // verus!
