//! Laws of the instruction set that span whole instructions or several of
//! them, proved over the step relation itself.
use vstd::prelude::*;

use crate::cpu::step_spec;
use crate::hexfmt::trace_line_spec;
use crate::machine::{EmuError, MState};
use crate::snapshot::push_trace_spec;

verus! {

/// The sequences of a machine state that came from a real machine have the
/// machine's fixed dimensions.
pub open spec fn sized(m: MState) -> bool {
    &&& m.memory.len() == 4096
    &&& m.v.len() == 16
    &&& m.stack.len() == 16
}

/// Loading a constant with 0x6XRR and then testing it with 0x3XRR always
/// skips the following instruction: the program counter lands 6 bytes past
/// the load.
pub proof fn lemma_load_then_skip_eq(
    m: MState,
    fb: Seq<u8>,
    keys: Seq<bool>,
    wait: Option<u8>,
    rnd1: u8,
    rnd2: u8,
    x: u8,
    rr: u8,
)
    requires
        sized(m),
        x < 16,
        m.pc as int + 3 < 4096,
        m.memory[m.pc as int] == 0x60u8 | x,
        m.memory[m.pc as int + 1] == rr,
        m.memory[m.pc as int + 2] == 0x30u8 | x,
        m.memory[m.pc as int + 3] == rr,
    ensures
        ({
            let s1 = step_spec(m, fb, keys, wait, rnd1);
            let s2 = step_spec(s1.m, s1.fb, keys, s1.wait, rnd2);
            &&& s1.err is None
            &&& s2.err is None
            &&& s2.m.pc == m.pc + 6
        }),
{
    let op1 = ((m.memory[m.pc as int] as u16) << 8) | (m.memory[m.pc as int + 1] as u16);
    let op2 = ((m.memory[m.pc as int + 2] as u16) << 8) | (m.memory[m.pc as int + 3] as u16);
    assert((((0x60u8 | x) as u16) << 8 | (rr as u16)) >> 12 == 6 && ((((0x60u8 | x) as u16) << 8
        | (rr as u16)) >> 8) & 0xF == x as u16 && ((((0x60u8 | x) as u16) << 8 | (rr as u16))
        & 0xFF) as u8 == rr && (((0x30u8 | x) as u16) << 8 | (rr as u16)) >> 12 == 3 && ((((0x30u8
        | x) as u16) << 8 | (rr as u16)) >> 8) & 0xF == x as u16 && ((((0x30u8 | x) as u16) << 8
        | (rr as u16)) & 0xFF) as u8 == rr) by (bit_vector)
        requires
            x < 16,
    ;
    let s1 = step_spec(m, fb, keys, wait, rnd1);
    assert(s1.m.v[x as int] == rr);
}

/// The same load followed by 0x4XRR never skips: the program counter lands
/// only 4 bytes past the load.
pub proof fn lemma_load_then_skip_ne(
    m: MState,
    fb: Seq<u8>,
    keys: Seq<bool>,
    wait: Option<u8>,
    rnd1: u8,
    rnd2: u8,
    x: u8,
    rr: u8,
)
    requires
        sized(m),
        x < 16,
        m.pc as int + 3 < 4096,
        m.memory[m.pc as int] == 0x60u8 | x,
        m.memory[m.pc as int + 1] == rr,
        m.memory[m.pc as int + 2] == 0x40u8 | x,
        m.memory[m.pc as int + 3] == rr,
    ensures
        ({
            let s1 = step_spec(m, fb, keys, wait, rnd1);
            let s2 = step_spec(s1.m, s1.fb, keys, s1.wait, rnd2);
            &&& s1.err is None
            &&& s2.err is None
            &&& s2.m.pc == m.pc + 4
        }),
{
    assert((((0x60u8 | x) as u16) << 8 | (rr as u16)) >> 12 == 6 && ((((0x60u8 | x) as u16) << 8
        | (rr as u16)) >> 8) & 0xF == x as u16 && ((((0x60u8 | x) as u16) << 8 | (rr as u16))
        & 0xFF) as u8 == rr && (((0x40u8 | x) as u16) << 8 | (rr as u16)) >> 12 == 4 && ((((0x40u8
        | x) as u16) << 8 | (rr as u16)) >> 8) & 0xF == x as u16 && ((((0x40u8 | x) as u16) << 8
        | (rr as u16)) & 0xFF) as u8 == rr) by (bit_vector)
        requires
            x < 16,
    ;
    let s1 = step_spec(m, fb, keys, wait, rnd1);
    assert(s1.m.v[x as int] == rr);
}

/// 0x8XY4 on `V[X] = 0xFF`, `V[Y] = 0x01` reports the carry in `V[F]` and
/// wraps `V[X]` to zero. (When X is the flag register itself, the flag write
/// lands first and the sum overwrites it, so that case is left out.)
pub proof fn lemma_add_carry(
    m: MState,
    fb: Seq<u8>,
    keys: Seq<bool>,
    wait: Option<u8>,
    rnd: u8,
    x: u8,
    y: u8,
)
    requires
        sized(m),
        x < 15,
        y < 16,
        m.pc as int + 1 < 4096,
        m.memory[m.pc as int] == 0x80u8 | x,
        m.memory[m.pc as int + 1] == (y << 4) | 0x4,
        m.v[x as int] == 0xFF,
        m.v[y as int] == 0x01,
    ensures
        ({
            let s1 = step_spec(m, fb, keys, wait, rnd);
            &&& s1.err is None
            &&& s1.m.v[15] == 1
            &&& s1.m.v[x as int] == 0x00
        }),
{
    assert((((0x80u8 | x) as u16) << 8 | (((y << 4) | 0x4u8) as u16)) >> 12 == 8 && ((((0x80u8
        | x) as u16) << 8 | (((y << 4) | 0x4u8) as u16)) >> 8) & 0xF == x as u16 && ((((0x80u8 | x)
        as u16) << 8 | (((y << 4) | 0x4u8) as u16)) >> 4) & 0xF == y as u16 && (((0x80u8 | x)
        as u16) << 8 | (((y << 4) | 0x4u8) as u16)) & 0xF == 4) by (bit_vector)
        requires
            x < 15,
            y < 16,
    ;
}

/// 0x8XY5 on `V[X] = 0x01`, `V[Y] = 0x02` clears the borrow flag and wraps
/// `V[X]` to 0xFF. (When X or Y is the flag register, the earlier flag write
/// feeds into the subtraction, so those cases are left out.)
pub proof fn lemma_sub_borrow(
    m: MState,
    fb: Seq<u8>,
    keys: Seq<bool>,
    wait: Option<u8>,
    rnd: u8,
    x: u8,
    y: u8,
)
    requires
        sized(m),
        x < 15,
        y < 15,
        m.pc as int + 1 < 4096,
        m.memory[m.pc as int] == 0x80u8 | x,
        m.memory[m.pc as int + 1] == (y << 4) | 0x5,
        m.v[x as int] == 0x01,
        m.v[y as int] == 0x02,
    ensures
        ({
            let s1 = step_spec(m, fb, keys, wait, rnd);
            &&& s1.err is None
            &&& s1.m.v[15] == 0
            &&& s1.m.v[x as int] == 0xFF
        }),
{
    assert((((0x80u8 | x) as u16) << 8 | (((y << 4) | 0x5u8) as u16)) >> 12 == 8 && ((((0x80u8
        | x) as u16) << 8 | (((y << 4) | 0x5u8) as u16)) >> 8) & 0xF == x as u16 && ((((0x80u8 | x)
        as u16) << 8 | (((y << 4) | 0x5u8) as u16)) >> 4) & 0xF == y as u16 && (((0x80u8 | x)
        as u16) << 8 | (((y << 4) | 0x5u8) as u16)) & 0xF == 5) by (bit_vector)
        requires
            x < 15,
            y < 15,
    ;
}

/// A call with 0x2NNN followed by 0x00EE returns: the program counter lands
/// on the instruction after the call, the stack pointer is back where it
/// was, and registers and memory are untouched.
pub proof fn lemma_call_then_return(
    m: MState,
    fb: Seq<u8>,
    keys: Seq<bool>,
    wait: Option<u8>,
    rnd1: u8,
    rnd2: u8,
    nnn: u16,
)
    requires
        sized(m),
        m.sp < 16,
        m.pc as int + 1 < 4096,
        nnn < 4095,
        m.memory[m.pc as int] == 0x20u8 | (nnn >> 8) as u8,
        m.memory[m.pc as int + 1] == (nnn & 0xFF) as u8,
        m.memory[nnn as int] == 0x00u8,
        m.memory[nnn as int + 1] == 0xEEu8,
    ensures
        ({
            let s1 = step_spec(m, fb, keys, wait, rnd1);
            let s2 = step_spec(s1.m, s1.fb, keys, s1.wait, rnd2);
            &&& s1.err is None
            &&& s2.err is None
            &&& s2.m.pc == m.pc + 2
            &&& s2.m.sp == m.sp
            &&& s2.m.v == m.v
            &&& s2.m.memory == m.memory
        }),
{
    assert((((0x20u8 | (nnn >> 8) as u8) as u16) << 8 | (((nnn & 0xFF) as u8) as u16)) >> 12 == 2
        && (((0x20u8 | (nnn >> 8) as u8) as u16) << 8 | (((nnn & 0xFF) as u8) as u16)) & 0xFFF
        == nnn && ((0x00u8 as u16) << 8 | (0xEEu8 as u16)) == 0x00EE && 0x00EEu16 >> 12 == 0)
        by (bit_vector)
        requires
            nnn < 4095,
    ;
    let s1 = step_spec(m, fb, keys, wait, rnd1);
    assert(s1.m.stack[m.sp as int] == m.pc + 2);
    assert(s1.m.sp == m.sp + 1);
}

/// A seventeenth nested call finds all 16 stack slots full and fails as a
/// stack overflow, leaving the machine exactly as it was.
pub proof fn lemma_call_overflow(
    m: MState,
    fb: Seq<u8>,
    keys: Seq<bool>,
    wait: Option<u8>,
    rnd: u8,
    nnn: u16,
)
    requires
        sized(m),
        m.sp == 16,
        m.pc as int + 1 < 4096,
        nnn < 4096,
        m.memory[m.pc as int] == 0x20u8 | (nnn >> 8) as u8,
        m.memory[m.pc as int + 1] == (nnn & 0xFF) as u8,
    ensures
        ({
            let s1 = step_spec(m, fb, keys, wait, rnd);
            &&& s1.err == Some(EmuError::StackOverflow)
            &&& s1.m == m
            &&& s1.fb == fb
            &&& s1.wait == wait
        }),
{
    assert((((0x20u8 | (nnn >> 8) as u8) as u16) << 8 | (((nnn & 0xFF) as u8) as u16)) >> 12 == 2)
        by (bit_vector)
        requires
            nnn < 4096,
    ;
}

/// Executing 0xFX0A arms the key-wait latch with register X and changes
/// nothing else; from then on the instruction gate is a no-op until a
/// key-press edge clears the latch, and a key release never does.
pub proof fn lemma_key_wait_entered(
    m: MState,
    fb: Seq<u8>,
    keys: Seq<bool>,
    wait: Option<u8>,
    rnd: u8,
    x: u8,
)
    requires
        sized(m),
        x < 16,
        m.pc as int + 1 < 4096,
        m.memory[m.pc as int] == 0xF0u8 | x,
        m.memory[m.pc as int + 1] == 0x0Au8,
    ensures
        ({
            let s1 = step_spec(m, fb, keys, wait, rnd);
            &&& s1.err is None
            &&& s1.wait == Some(x)
            &&& s1.m == (MState { pc: (m.pc + 2) as u16, ..m })
            &&& s1.fb == fb
        }),
{
    assert((((0xF0u8 | x) as u16) << 8 | (0x0Au8 as u16)) >> 12 == 0xF && ((((0xF0u8 | x) as u16)
        << 8 | (0x0Au8 as u16)) >> 8) & 0xF == x as u16 && (((0xF0u8 | x) as u16) << 8 | (0x0Au8
        as u16)) & 0xFF == 0x0A && ((((0xF0u8 | x) as u16) << 8 | (0x0Au8 as u16)) >> 8) & 0xF
        == x as u16) by (bit_vector)
        requires
            x < 16,
    ;
}

/// Whether `memory[pc..pc+2]` holds a 0x1NNN jump whose target is the jump's
/// own address.
pub open spec fn self_jump(m: MState) -> bool {
    &&& m.pc < 4095
    &&& m.memory[m.pc as int] == (0x10u8 | (m.pc >> 8) as u8)
    &&& m.memory[m.pc as int + 1] == (m.pc & 0xFF) as u8
}

/// The opcode such a jump fetches.
pub open spec fn self_jump_op(m: MState) -> u16 {
    ((m.memory[m.pc as int] as u16) << 8) | (m.memory[m.pc as int + 1] as u16)
}

/// Executing a jump-to-self sets the loop flag and otherwise changes
/// nothing: the program counter lands back on the jump.
pub proof fn lemma_self_jump_sets_endloop(
    m: MState,
    fb: Seq<u8>,
    keys: Seq<bool>,
    wait: Option<u8>,
    rnd: u8,
)
    requires
        sized(m),
        self_jump(m),
    ensures
        ({
            let s1 = step_spec(m, fb, keys, wait, rnd);
            &&& s1.err is None
            &&& s1.m == (MState { endloop: true, ..m })
            &&& s1.fb == fb
            &&& s1.wait == wait
            &&& s1.line == trace_line_spec(m.pc, self_jump_op(m), "Endloop"@)
        }),
{
    let pc = m.pc;
    assert((((0x10u8 | (pc >> 8) as u8) as u16) << 8 | (((pc & 0xFF) as u8) as u16)) >> 12 == 1
        && (((0x10u8 | (pc >> 8) as u8) as u16) << 8 | (((pc & 0xFF) as u8) as u16)) & 0xFFF == pc)
        by (bit_vector)
        requires
            pc < 4095,
    ;
}

/// Ticks run one after the other, each publishing its trace line into the
/// log as the snapshot does; an erroring tick stops the run.
pub open spec fn run_ticks(
    m: MState,
    fb: Seq<u8>,
    keys: Seq<bool>,
    wait: Option<u8>,
    rnds: Seq<u8>,
    log: Seq<Seq<char>>,
) -> (MState, Seq<Seq<char>>)
    decreases rnds.len(),
{
    if rnds.len() == 0 {
        (m, log)
    } else {
        let out = step_spec(m, fb, keys, wait, rnds[0]);
        if out.err is Some {
            (m, log)
        } else {
            run_ticks(
                out.m,
                out.fb,
                keys,
                out.wait,
                rnds.subrange(1, rnds.len() as int),
                push_trace_spec(log, out.line, out.m.endloop),
            )
        }
    }
}

/// Once a self-loop has set the loop flag and logged its one line, any
/// number of further ticks leaves both the machine and the trace log
/// exactly as they are: the loop collapses to a single entry.
pub proof fn lemma_self_loop_single_entry(
    m: MState,
    fb: Seq<u8>,
    keys: Seq<bool>,
    wait: Option<u8>,
    rnds: Seq<u8>,
    log: Seq<Seq<char>>,
)
    requires
        sized(m),
        self_jump(m),
        m.endloop == true,
        log.len() > 0,
        log.last() == trace_line_spec(m.pc, self_jump_op(m), "Endloop"@),
    ensures
        run_ticks(m, fb, keys, wait, rnds, log) == (m, log),
    decreases rnds.len(),
{
    if rnds.len() == 0 {
    } else {
        lemma_self_jump_sets_endloop(m, fb, keys, wait, rnds[0]);
        let out = step_spec(m, fb, keys, wait, rnds[0]);
        assert(out.m == m);
        assert(push_trace_spec(log, out.line, out.m.endloop) == log);
        lemma_self_loop_single_entry(m, fb, keys, wait, rnds.subrange(1, rnds.len() as int), log);
    }
}

} // verus!
