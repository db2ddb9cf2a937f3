//! The two fixed-rate clock gates that drive the emulation loop.
use vstd::prelude::*;

verus! {

/// Instructions execute at this rate.
pub const OPCODE_HZ: u32 = 500;

/// Timers decrement, events are polled and the framebuffer is handed to the
/// renderer at this rate.
pub const RENDER_HZ: u32 = 60;

/// A gate fires when at least one period, `1000 / freq` milliseconds, has
/// passed since it last fired.
pub open spec fn gate_due_spec(current: u32, last: u32, freq: u32) -> bool {
    current - last >= 1000u32 / freq
}

/// The two gates' last firing times, in host milliseconds.
pub struct Clocks {
    pub last_opcode_tick: u32,
    pub last_render_tick: u32,
}

impl Clocks {
    pub fn new() -> (r: Self)
        ensures
            r.last_opcode_tick == 0,
            r.last_render_tick == 0,
    {
        Clocks { last_opcode_tick: 0, last_render_tick: 0 }
    }

    /// The instruction gate: fires at most once per call, at `OPCODE_HZ`,
    /// however much time has actually passed.
    pub fn opcode_gate(&mut self, current: u32) -> (fired: bool)
        requires
            old(self).last_opcode_tick <= current,
        ensures
            fired == gate_due_spec(current, old(self).last_opcode_tick, OPCODE_HZ),
            final(self).last_opcode_tick == if fired {
                current
            } else {
                old(self).last_opcode_tick
            },
            final(self).last_render_tick == old(self).last_render_tick,
    {
        if current - self.last_opcode_tick >= 1000 / OPCODE_HZ {
            self.last_opcode_tick = current;
            true
        } else {
            false
        }
    }

    /// The timer/render gate: fires at most once per call, at `RENDER_HZ`.
    pub fn render_gate(&mut self, current: u32) -> (fired: bool)
        requires
            old(self).last_render_tick <= current,
        ensures
            fired == gate_due_spec(current, old(self).last_render_tick, RENDER_HZ),
            final(self).last_render_tick == if fired {
                current
            } else {
                old(self).last_render_tick
            },
            final(self).last_opcode_tick == old(self).last_opcode_tick,
    {
        if current - self.last_render_tick >= 1000 / RENDER_HZ {
            self.last_render_tick = current;
            true
        } else {
            false
        }
    }
}

} // verus!
