//! The decoder/executor: fetch a 2-byte big-endian instruction, advance the
//! program counter, apply exactly one state mutation, and describe it.
use vstd::prelude::*;
use vstd::wrapping::u16_specs;
use vstd::wrapping::u8_specs;

use crate::framebuffer::draw_collision;
use crate::framebuffer::draw_fb_spec;
use crate::framebuffer::sprite_of;
use crate::framebuffer::Framebuffer;
use crate::hexfmt::trace_line;
use crate::hexfmt::trace_line_spec;
use crate::input::InputLatch;
use crate::machine::{C8, EmuError, MState};

verus! {

/// Result of one decode/execute step over the mathematical model. On an
/// error, the machine, framebuffer and wait latch are exactly as they were.
#[verifier::ext_equal]
pub ghost struct StepOut {
    pub m: MState,
    pub fb: Seq<u8>,
    pub wait: Option<u8>,
    pub line: Seq<char>,
    pub err: Option<EmuError>,
}

/// The nibble fields of an opcode stay inside their ranges.
pub proof fn lemma_op_fields(op: u16)
    ensures
        op >> 12 < 16,
        (op >> 8) & 0xF < 16,
        (op >> 4) & 0xF < 16,
        op & 0xF < 16,
        op & 0xFF < 256,
        op & 0xFFF < 4096,
{
    assert(op >> 12 < 16 && (op >> 8) & 0xF < 16 && (op >> 4) & 0xF < 16 && op & 0xF < 16 && op
        & 0xFF < 256 && op & 0xFFF < 4096) by (bit_vector);
}

/// Memory after the block store of `V[0..=x]` at `ii`.
pub open spec fn store_regs_spec(mem: Seq<u8>, v: Seq<u8>, ii: int, x: int) -> Seq<u8> {
    Seq::new(
        4096,
        |a: int|
            if ii <= a <= ii + x {
                v[a - ii]
            } else {
                mem[a]
            },
    )
}

/// Registers after the block load of `memory[ii..=ii+x]` into `V[0..=x]`.
pub open spec fn load_regs_spec(mem: Seq<u8>, v: Seq<u8>, ii: int, x: int) -> Seq<u8> {
    Seq::new(
        16,
        |k: int|
            if k <= x {
                mem[ii + k]
            } else {
                v[k]
            },
    )
}

/// The register file after an 0x8XYk arithmetic/logic instruction, written
/// as the same two assignments the executor performs (the flag register is
/// written first, so an instruction naming it observes the flag value).
pub open spec fn alu8_spec(v: Seq<u8>, op: u16) -> Seq<u8> {
    let x = ((op >> 8) & 0xF) as int;
    let y = ((op >> 4) & 0xF) as int;
    let k = op & 0xF;
    if k == 0 {
        v.update(x, v[y])
    } else if k == 1 {
        v.update(x, v[x] | v[y]).update(15, 0u8)
    } else if k == 2 {
        v.update(x, v[x] & v[y]).update(15, 0u8)
    } else if k == 3 {
        v.update(x, v[x] ^ v[y]).update(15, 0u8)
    } else if k == 4 {
        let c: u8 = if v[x] as int + v[y] as int > 255 {
            1u8
        } else {
            0u8
        };
        let v1 = v.update(15, c);
        v1.update(x, u8_specs::wrapping_add(v1[x], v1[y]))
    } else if k == 5 {
        let b: u8 = if v[x] > v[y] {
            1u8
        } else {
            0u8
        };
        let v1 = v.update(15, b);
        v1.update(x, u8_specs::wrapping_sub(v1[x], v1[y]))
    } else if k == 6 {
        let v1 = v.update(15, v[x] & 1);
        v1.update(x, v1[x] >> 1)
    } else if k == 7 {
        let b: u8 = if v[y] > v[x] {
            1u8
        } else {
            0u8
        };
        let v1 = v.update(15, b);
        v1.update(x, u8_specs::wrapping_sub(v1[y], v1[x]))
    } else if k == 0xE {
        let v1 = v.update(15, v[x] >> 7);
        v1.update(x, v1[x] << 1)
    } else {
        v
    }
}

/// The description an 0x8XYk instruction leaves in the trace.
pub open spec fn alu8_desc(op: u16) -> Seq<char> {
    let k = op & 0xF;
    if k == 0 {
        "Moving VY into VX"@
    } else if k == 1 {
        "Setting VX to VX OR VY"@
    } else if k == 2 {
        "Setting VX to VX AND VY"@
    } else if k == 3 {
        "Setting VX to VX XOR VY"@
    } else if k == 4 {
        "Adding VY to VX with carry in VF"@
    } else if k == 5 {
        "Subtracting VY from VX with borrow in VF"@
    } else if k == 6 {
        "Shifting VX right into VF"@
    } else if k == 7 {
        "Setting VX to VY minus VX with borrow in VF"@
    } else if k == 0xE {
        "Shifting VX left into VF"@
    } else {
        "unknown/unimplemented instruction"@
    }
}

/// Whether an 0xFXkk instruction would address memory out of range; such an
/// instruction is refused before it touches anything.
pub open spec fn fx_err(m: MState, op: u16) -> Option<EmuError> {
    let x = ((op >> 8) & 0xF) as int;
    let sub = op & 0xFF;
    if sub == 0x33 {
        if m.i as int + 2 >= 4096 {
            Some(EmuError::AddressOutOfRange)
        } else {
            None
        }
    } else if sub == 0x55 || sub == 0x65 {
        if m.i as int + x >= 4096 {
            Some(EmuError::AddressOutOfRange)
        } else {
            None
        }
    } else {
        None
    }
}

/// State and wait latch after an 0xFXkk instruction (program counter aside).
pub open spec fn fx_apply(m: MState, wait: Option<u8>, op: u16) -> (MState, Option<u8>) {
    let x = ((op >> 8) & 0xF) as int;
    let sub = op & 0xFF;
    if sub == 0x07 {
        (MState { v: m.v.update(x, m.delay_timer), ..m }, wait)
    } else if sub == 0x0A {
        (m, Some(((op >> 8) & 0xF) as u8))
    } else if sub == 0x15 {
        (MState { delay_timer: m.v[x], ..m }, wait)
    } else if sub == 0x18 {
        (MState { sound_timer: m.v[x], ..m }, wait)
    } else if sub == 0x1E {
        (MState { i: u16_specs::wrapping_add(m.i, m.v[x] as u16), ..m }, wait)
    } else if sub == 0x29 {
        (MState { i: (m.v[x] as int * 5) as u16, ..m }, wait)
    } else if sub == 0x33 {
        (
            MState {
                memory: m.memory.update(m.i as int, m.v[x] / 100).update(
                    m.i as int + 1,
                    (m.v[x] / 10) % 10,
                ).update(m.i as int + 2, m.v[x] % 10),
                ..m
            },
            wait,
        )
    } else if sub == 0x55 {
        (MState { memory: store_regs_spec(m.memory, m.v, m.i as int, x), ..m }, wait)
    } else if sub == 0x65 {
        (MState { v: load_regs_spec(m.memory, m.v, m.i as int, x), ..m }, wait)
    } else {
        (m, wait)
    }
}

/// The description an 0xFXkk instruction leaves in the trace.
pub open spec fn fx_desc(op: u16) -> Seq<char> {
    let sub = op & 0xFF;
    if sub == 0x07 {
        "Putting delay timer into VX"@
    } else if sub == 0x0A {
        "Waiting for keypress into VX"@
    } else if sub == 0x15 {
        "Setting delay timer to VX"@
    } else if sub == 0x18 {
        "Setting sound timer to VX"@
    } else if sub == 0x1E {
        "Adding VX to I"@
    } else if sub == 0x29 {
        "Setting I to the font sprite of VX"@
    } else if sub == 0x33 {
        "Storing BCD of VX at I"@
    } else if sub == 0x55 {
        "Storing registers V0 through VX at I"@
    } else if sub == 0x65 {
        "Loading registers V0 through VX from I"@
    } else {
        "unknown/unimplemented instruction"@
    }
}

/// A step that leaves everything as it was and reports `e`.
pub open spec fn err_out(
    m: MState,
    fb: Seq<u8>,
    wait: Option<u8>,
    e: EmuError,
) -> StepOut {
    StepOut { m, fb, wait, line: Seq::empty(), err: Some(e) }
}

/// An unrecognized opcode: a no-op beyond the already advanced program
/// counter, described as such.
pub open spec fn unknown_out(
    m: MState,
    fb: Seq<u8>,
    wait: Option<u8>,
    pc: u16,
    npc: u16,
    op: u16,
) -> StepOut {
    StepOut {
        m: MState { pc: npc, ..m },
        fb,
        wait,
        line: trace_line_spec(pc, op, "unknown/unimplemented instruction"@),
        err: None,
    }
}

/// One instruction, already fetched: the whole opcode table of the machine.
/// `m.pc` still holds the instruction's own address; every branch advances
/// it by 2 first (jumps overwrite the advanced value).
pub open spec fn step_decoded(
    m: MState,
    fb: Seq<u8>,
    keys: Seq<bool>,
    wait: Option<u8>,
    rnd: u8,
    op: u16,
) -> StepOut {
    let pc = m.pc;
    let npc = (m.pc + 2) as u16;
    let x = ((op >> 8) & 0xF) as int;
    let y = ((op >> 4) & 0xF) as int;
    let kk = (op & 0xFF) as u8;
    let nnn = op & 0xFFF;
    let fam = op >> 12;
    if fam == 0 {
        if op == 0x00E0 {
            StepOut {
                m: MState { pc: npc, ..m },
                fb: Seq::new(2048, |c: int| 0u8),
                wait,
                line: trace_line_spec(pc, op, "Clearing screen"@),
                err: None,
            }
        } else if op == 0x00EE {
            if m.sp == 0 {
                err_out(m, fb, wait, EmuError::StackUnderflow)
            } else {
                StepOut {
                    m: MState { pc: m.stack[m.sp - 1], sp: (m.sp - 1) as usize, ..m },
                    fb,
                    wait,
                    line: trace_line_spec(pc, op, "Returning from subroutine"@),
                    err: None,
                }
            }
        } else {
            unknown_out(m, fb, wait, pc, npc, op)
        }
    } else if fam == 1 {
        if nnn == pc {
            StepOut {
                m: MState { pc: nnn, endloop: true, ..m },
                fb,
                wait,
                line: trace_line_spec(pc, op, "Endloop"@),
                err: None,
            }
        } else {
            StepOut {
                m: MState { pc: nnn, ..m },
                fb,
                wait,
                line: trace_line_spec(pc, op, "Jumping to location NNN"@),
                err: None,
            }
        }
    } else if fam == 2 {
        if m.sp == 16 {
            err_out(m, fb, wait, EmuError::StackOverflow)
        } else {
            StepOut {
                m: MState {
                    stack: m.stack.update(m.sp as int, npc),
                    sp: (m.sp + 1) as usize,
                    pc: nnn,
                    ..m
                },
                fb,
                wait,
                line: trace_line_spec(pc, op, "Jumping to subroutine at NNN"@),
                err: None,
            }
        }
    } else if fam == 3 {
        StepOut {
            m: MState {
                pc: if m.v[x] == kk {
                    (npc + 2) as u16
                } else {
                    npc
                },
                ..m
            },
            fb,
            wait,
            line: trace_line_spec(pc, op, "Skipping next instruction if VX == RR"@),
            err: None,
        }
    } else if fam == 4 {
        StepOut {
            m: MState {
                pc: if m.v[x] != kk {
                    (npc + 2) as u16
                } else {
                    npc
                },
                ..m
            },
            fb,
            wait,
            line: trace_line_spec(pc, op, "Skipping next instruction if VX != RR"@),
            err: None,
        }
    } else if fam == 5 {
        StepOut {
            m: MState {
                pc: if m.v[x] == m.v[y] {
                    (npc + 2) as u16
                } else {
                    npc
                },
                ..m
            },
            fb,
            wait,
            line: trace_line_spec(pc, op, "Skipping next instruction if VX == VY"@),
            err: None,
        }
    } else if fam == 6 {
        StepOut {
            m: MState { v: m.v.update(x, kk), pc: npc, ..m },
            fb,
            wait,
            line: trace_line_spec(pc, op, "Moving RR into VX"@),
            err: None,
        }
    } else if fam == 7 {
        StepOut {
            m: MState { v: m.v.update(x, u8_specs::wrapping_add(m.v[x], kk)), pc: npc, ..m },
            fb,
            wait,
            line: trace_line_spec(pc, op, "Adding RR to VX"@),
            err: None,
        }
    } else if fam == 8 {
        StepOut {
            m: MState { v: alu8_spec(m.v, op), pc: npc, ..m },
            fb,
            wait,
            line: trace_line_spec(pc, op, alu8_desc(op)),
            err: None,
        }
    } else if fam == 9 {
        StepOut {
            m: MState {
                pc: if m.v[x] != m.v[y] {
                    (npc + 2) as u16
                } else {
                    npc
                },
                ..m
            },
            fb,
            wait,
            line: trace_line_spec(pc, op, "Skipping next instruction if VX != VY"@),
            err: None,
        }
    } else if fam == 0xA {
        StepOut {
            m: MState { i: nnn, pc: npc, ..m },
            fb,
            wait,
            line: trace_line_spec(pc, op, "Putting NNN into I"@),
            err: None,
        }
    } else if fam == 0xB {
        StepOut {
            m: MState { pc: (nnn + m.v[0]) as u16, ..m },
            fb,
            wait,
            line: trace_line_spec(pc, op, "Jumping to NNN plus V0"@),
            err: None,
        }
    } else if fam == 0xC {
        StepOut {
            m: MState { v: m.v.update(x, rnd & kk), pc: npc, ..m },
            fb,
            wait,
            line: trace_line_spec(pc, op, "Setting VX to a random number AND RR"@),
            err: None,
        }
    } else if fam == 0xD {
        let n = (op & 0xF) as int;
        if n > 0 && m.i as int + n > 4096 {
            err_out(m, fb, wait, EmuError::AddressOutOfRange)
        } else {
            let sprite = sprite_of(m.memory, m.i as int, n);
            let vf: u8 = if draw_collision(fb, sprite, m.v[x] as int, m.v[y] as int) {
                1u8
            } else {
                0u8
            };
            StepOut {
                m: MState { v: m.v.update(15, vf), pc: npc, ..m },
                fb: draw_fb_spec(fb, sprite, m.v[x] as int, m.v[y] as int),
                wait,
                line: trace_line_spec(pc, op, "Drawing sprite"@),
                err: None,
            }
        }
    } else if fam == 0xE {
        let sub = op & 0xFF;
        if sub == 0x9E {
            if m.v[x] as int >= 16 {
                err_out(m, fb, wait, EmuError::KeyOutOfRange)
            } else {
                StepOut {
                    m: MState {
                        pc: if keys[m.v[x] as int] {
                            (npc + 2) as u16
                        } else {
                            npc
                        },
                        ..m
                    },
                    fb,
                    wait,
                    line: trace_line_spec(pc, op, "Skipping next instruction if key VX pressed"@),
                    err: None,
                }
            }
        } else if sub == 0xA1 {
            if m.v[x] as int >= 16 {
                err_out(m, fb, wait, EmuError::KeyOutOfRange)
            } else {
                StepOut {
                    m: MState {
                        pc: if !keys[m.v[x] as int] {
                            (npc + 2) as u16
                        } else {
                            npc
                        },
                        ..m
                    },
                    fb,
                    wait,
                    line: trace_line_spec(
                        pc,
                        op,
                        "Skipping next instruction if key VX not pressed"@,
                    ),
                    err: None,
                }
            }
        } else {
            unknown_out(m, fb, wait, pc, npc, op)
        }
    } else {
        if fx_err(m, op) is Some {
            err_out(m, fb, wait, fx_err(m, op).unwrap())
        } else {
            let applied = fx_apply(m, wait, op);
            StepOut {
                m: MState { pc: npc, ..applied.0 },
                fb,
                wait: applied.1,
                line: trace_line_spec(pc, op, fx_desc(op)),
                err: None,
            }
        }
    }
}

/// One full step: fetch from `memory[pc..pc+2]` (an out-of-range fetch is a
/// fatal error), then decode and execute.
pub open spec fn step_spec(
    m: MState,
    fb: Seq<u8>,
    keys: Seq<bool>,
    wait: Option<u8>,
    rnd: u8,
) -> StepOut {
    if m.pc as int + 1 >= 4096 {
        err_out(m, fb, wait, EmuError::AddressOutOfRange)
    } else {
        let op = ((m.memory[m.pc as int] as u16) << 8) | (m.memory[m.pc as int + 1] as u16);
        step_decoded(m, fb, keys, wait, rnd, op)
    }
}

/// One full fetch/decode/execute step. The machine, framebuffer and wait
/// latch move exactly as `step_spec` says; on a fatal error nothing is
/// touched and the error is reported for the control surface.
pub fn step(m: &mut C8, fb: &mut Framebuffer, latch: &mut InputLatch, rnd: u8) -> (r: Result<
    String,
    EmuError,
>)
    requires
        old(m).wf(),
        old(fb).wf(),
    ensures
        ({
            let out = step_spec(
                old(m)@,
                old(fb)@,
                old(latch).key_states@,
                old(latch).wait_register,
                rnd,
            );
            &&& final(m)@ == out.m
            &&& final(fb)@ == out.fb
            &&& final(latch).wait_register == out.wait
            &&& final(latch).key_states == old(latch).key_states
            &&& (match r {
                Ok(line) => out.err is None && line@ == out.line,
                Err(e) => out.err == Some(e),
            })
        }),
        final(m).wf(),
        final(fb).wf(),
        old(latch).wf() ==> final(latch).wf(),
{
    if m.PC as usize + 1 >= 4096 {
        return Err(EmuError::AddressOutOfRange);
    }
    let pc: u16 = m.PC;
    let hi: u8 = m.memory[pc as usize];
    let lo: u8 = m.memory[pc as usize + 1];
    let op: u16 = ((hi as u16) << 8) | (lo as u16);
    proof {
        lemma_op_fields(op);
    }
    let npc: u16 = pc + 2;
    let x: usize = ((op >> 8) & 0xF) as usize;
    let y: usize = ((op >> 4) & 0xF) as usize;
    let kk: u8 = (op & 0xFF) as u8;
    let nnn: u16 = op & 0xFFF;
    let fam: u16 = op >> 12;
    if fam == 0 {
        if op == 0x00E0 {
            fb.clear();
            m.PC = npc;
            Ok(trace_line(pc, op, "Clearing screen"))
        } else if op == 0x00EE {
            if m.SP == 0 {
                return Err(EmuError::StackUnderflow);
            }
            m.SP = m.SP - 1;
            m.PC = m.stack[m.SP];
            Ok(trace_line(pc, op, "Returning from subroutine"))
        } else {
            m.PC = npc;
            Ok(trace_line(pc, op, "unknown/unimplemented instruction"))
        }
    } else if fam == 1 {
        if nnn == pc {
            m.endloop = true;
            m.PC = nnn;
            Ok(trace_line(pc, op, "Endloop"))
        } else {
            m.PC = nnn;
            Ok(trace_line(pc, op, "Jumping to location NNN"))
        }
    } else if fam == 2 {
        if m.SP == 16 {
            return Err(EmuError::StackOverflow);
        }
        m.stack[m.SP] = npc;
        m.SP = m.SP + 1;
        m.PC = nnn;
        Ok(trace_line(pc, op, "Jumping to subroutine at NNN"))
    } else if fam == 3 {
        if m.V[x] == kk {
            m.PC = npc + 2;
        } else {
            m.PC = npc;
        }
        Ok(trace_line(pc, op, "Skipping next instruction if VX == RR"))
    } else if fam == 4 {
        if m.V[x] != kk {
            m.PC = npc + 2;
        } else {
            m.PC = npc;
        }
        Ok(trace_line(pc, op, "Skipping next instruction if VX != RR"))
    } else if fam == 5 {
        if m.V[x] == m.V[y] {
            m.PC = npc + 2;
        } else {
            m.PC = npc;
        }
        Ok(trace_line(pc, op, "Skipping next instruction if VX == VY"))
    } else if fam == 6 {
        m.V[x] = kk;
        m.PC = npc;
        Ok(trace_line(pc, op, "Moving RR into VX"))
    } else if fam == 7 {
        m.V[x] = m.V[x].wrapping_add(kk);
        m.PC = npc;
        Ok(trace_line(pc, op, "Adding RR to VX"))
    } else if fam == 8 {
        let desc = exec_alu8(m, op);
        m.PC = npc;
        Ok(trace_line(pc, op, desc))
    } else if fam == 9 {
        if m.V[x] != m.V[y] {
            m.PC = npc + 2;
        } else {
            m.PC = npc;
        }
        Ok(trace_line(pc, op, "Skipping next instruction if VX != VY"))
    } else if fam == 0xA {
        m.I = nnn;
        m.PC = npc;
        Ok(trace_line(pc, op, "Putting NNN into I"))
    } else if fam == 0xB {
        m.PC = nnn + (m.V[0] as u16);
        Ok(trace_line(pc, op, "Jumping to NNN plus V0"))
    } else if fam == 0xC {
        m.V[x] = rnd & kk;
        m.PC = npc;
        Ok(trace_line(pc, op, "Setting VX to a random number AND RR"))
    } else if fam == 0xD {
        let n: usize = (op & 0xF) as usize;
        if n > 0 && m.I as usize + n > 4096 {
            return Err(EmuError::AddressOutOfRange);
        }
        let sx: u8 = m.V[x];
        let sy: u8 = m.V[y];
        let vf: u8 = fb.draw(&m.memory, m.I as usize, n, sx, sy);
        m.V[0xF] = vf;
        m.PC = npc;
        Ok(trace_line(pc, op, "Drawing sprite"))
    } else if fam == 0xE {
        let sub: u16 = op & 0xFF;
        if sub == 0x9E {
            if m.V[x] as usize >= 16 {
                return Err(EmuError::KeyOutOfRange);
            }
            if latch.key_states[m.V[x] as usize] {
                m.PC = npc + 2;
            } else {
                m.PC = npc;
            }
            Ok(trace_line(pc, op, "Skipping next instruction if key VX pressed"))
        } else if sub == 0xA1 {
            if m.V[x] as usize >= 16 {
                return Err(EmuError::KeyOutOfRange);
            }
            if !latch.key_states[m.V[x] as usize] {
                m.PC = npc + 2;
            } else {
                m.PC = npc;
            }
            Ok(trace_line(pc, op, "Skipping next instruction if key VX not pressed"))
        } else {
            m.PC = npc;
            Ok(trace_line(pc, op, "unknown/unimplemented instruction"))
        }
    } else {
        let sub: u16 = op & 0xFF;
        if sub == 0x33 {
            if m.I as usize + 2 >= 4096 {
                return Err(EmuError::AddressOutOfRange);
            }
        } else if sub == 0x55 || sub == 0x65 {
            if m.I as usize + x >= 4096 {
                return Err(EmuError::AddressOutOfRange);
            }
        }
        let desc = exec_fx(m, latch, op);
        m.PC = npc;
        Ok(trace_line(pc, op, desc))
    }
}

/// Executes an 0x8XYk instruction on the register file.
fn exec_alu8(m: &mut C8, op: u16) -> (desc: &'static str)
    requires
        op >> 12 == 8,
    ensures
        final(m)@ == (MState { v: alu8_spec(old(m)@.v, op), ..old(m)@ }),
        desc@ == alu8_desc(op),
{
    proof {
        lemma_op_fields(op);
    }
    let x: usize = ((op >> 8) & 0xF) as usize;
    let y: usize = ((op >> 4) & 0xF) as usize;
    let k: u16 = op & 0xF;
    if k == 0 {
        m.V[x] = m.V[y];
        "Moving VY into VX"
    } else if k == 1 {
        m.V[x] = m.V[x] | m.V[y];
        m.V[0xF] = 0;
        "Setting VX to VX OR VY"
    } else if k == 2 {
        m.V[x] = m.V[x] & m.V[y];
        m.V[0xF] = 0;
        "Setting VX to VX AND VY"
    } else if k == 3 {
        m.V[x] = m.V[x] ^ m.V[y];
        m.V[0xF] = 0;
        "Setting VX to VX XOR VY"
    } else if k == 4 {
        let c: u8 = if m.V[x] as u16 + m.V[y] as u16 > 255 {
            1
        } else {
            0
        };
        m.V[0xF] = c;
        m.V[x] = m.V[x].wrapping_add(m.V[y]);
        "Adding VY to VX with carry in VF"
    } else if k == 5 {
        let b: u8 = if m.V[x] > m.V[y] {
            1
        } else {
            0
        };
        m.V[0xF] = b;
        m.V[x] = m.V[x].wrapping_sub(m.V[y]);
        "Subtracting VY from VX with borrow in VF"
    } else if k == 6 {
        m.V[0xF] = m.V[x] & 1;
        m.V[x] = m.V[x] >> 1;
        "Shifting VX right into VF"
    } else if k == 7 {
        let b: u8 = if m.V[y] > m.V[x] {
            1
        } else {
            0
        };
        m.V[0xF] = b;
        m.V[x] = m.V[y].wrapping_sub(m.V[x]);
        "Setting VX to VY minus VX with borrow in VF"
    } else if k == 0xE {
        m.V[0xF] = m.V[x] >> 7;
        m.V[x] = m.V[x] << 1;
        "Shifting VX left into VF"
    } else {
        "unknown/unimplemented instruction"
    }
}

/// Executes an 0xFXkk instruction, its address checks already passed.
fn exec_fx(m: &mut C8, latch: &mut InputLatch, op: u16) -> (desc: &'static str)
    requires
        op >> 12 == 0xF,
        fx_err(old(m)@, op) is None,
    ensures
        final(m)@ == fx_apply(old(m)@, old(latch).wait_register, op).0,
        final(latch).wait_register == fx_apply(old(m)@, old(latch).wait_register, op).1,
        final(latch).key_states == old(latch).key_states,
        desc@ == fx_desc(op),
{
    proof {
        lemma_op_fields(op);
    }
    let x: usize = ((op >> 8) & 0xF) as usize;
    let sub: u16 = op & 0xFF;
    if sub == 0x07 {
        m.V[x] = m.delay_timer;
        "Putting delay timer into VX"
    } else if sub == 0x0A {
        latch.wait_register = Some(((op >> 8) & 0xF) as u8);
        "Waiting for keypress into VX"
    } else if sub == 0x15 {
        m.delay_timer = m.V[x];
        "Setting delay timer to VX"
    } else if sub == 0x18 {
        m.sound_timer = m.V[x];
        "Setting sound timer to VX"
    } else if sub == 0x1E {
        m.I = m.I.wrapping_add(m.V[x] as u16);
        "Adding VX to I"
    } else if sub == 0x29 {
        m.I = m.V[x] as u16 * 5;
        "Setting I to the font sprite of VX"
    } else if sub == 0x33 {
        let i: usize = m.I as usize;
        m.memory[i] = m.V[x] / 100;
        m.memory[i + 1] = (m.V[x] / 10) % 10;
        m.memory[i + 2] = m.V[x] % 10;
        "Storing BCD of VX at I"
    } else if sub == 0x55 {
        let i: usize = m.I as usize;
        let mut k: usize = 0;
        while k <= x
            invariant
                op >> 12 == 0xF,
                sub == op & 0xFF,
                sub == 0x55,
                x == ((op >> 8) & 0xF) as usize,
                x < 16,
                i == old(m)@.i as usize,
                i + x < 4096,
                k <= x + 1,
                m.V == old(m).V,
                m.I == old(m).I,
                m.PC == old(m).PC,
                m.stack == old(m).stack,
                m.SP == old(m).SP,
                m.delay_timer == old(m).delay_timer,
                m.sound_timer == old(m).sound_timer,
                m.endloop == old(m).endloop,
                forall|a: int|
                    0 <= a < 4096 ==> m@.memory[a] == (if i <= a < i + k {
                        old(m)@.v[a - i]
                    } else {
                        old(m)@.memory[a]
                    }),
            decreases x + 1 - k,
        {
            let ghost pre = m@.memory;
            m.memory[i + k] = m.V[k];
            proof {
                assert(m@.memory == pre.update((i + k) as int, old(m)@.v[k as int]));
                assert forall|a: int|
                    0 <= a < 4096 implies m@.memory[a] == (if i <= a < i + (k + 1) {
                        old(m)@.v[a - i]
                    } else {
                        old(m)@.memory[a]
                    }) by {
                    if a == i + k {
                    }
                }
            }
            k = k + 1;
        }
        proof {
            assert(m@.memory =~= store_regs_spec(old(m)@.memory, old(m)@.v, old(m)@.i as int, x as int));
        }
        "Storing registers V0 through VX at I"
    } else if sub == 0x65 {
        let i: usize = m.I as usize;
        let mut k: usize = 0;
        while k <= x
            invariant
                op >> 12 == 0xF,
                sub == op & 0xFF,
                sub == 0x65,
                x == ((op >> 8) & 0xF) as usize,
                x < 16,
                i == old(m)@.i as usize,
                i + x < 4096,
                k <= x + 1,
                m.memory == old(m).memory,
                m.I == old(m).I,
                m.PC == old(m).PC,
                m.stack == old(m).stack,
                m.SP == old(m).SP,
                m.delay_timer == old(m).delay_timer,
                m.sound_timer == old(m).sound_timer,
                m.endloop == old(m).endloop,
                forall|a: int|
                    0 <= a < 16 ==> m@.v[a] == (if a < k {
                        old(m)@.memory[i + a]
                    } else {
                        old(m)@.v[a]
                    }),
            decreases x + 1 - k,
        {
            let ghost pre = m@.v;
            m.V[k] = m.memory[i + k];
            proof {
                assert(m@.v == pre.update(k as int, old(m)@.memory[i + k]));
                assert forall|a: int|
                    0 <= a < 16 implies m@.v[a] == (if a < k + 1 {
                        old(m)@.memory[i + a]
                    } else {
                        old(m)@.v[a]
                    }) by {
                    if a == k {
                    }
                }
            }
            k = k + 1;
        }
        proof {
            assert(m@.v =~= load_regs_spec(old(m)@.memory, old(m)@.v, old(m)@.i as int, x as int));
        }
        "Loading registers V0 through VX from I"
    } else {
        "unknown/unimplemented instruction"
    }
}

} // verus!
