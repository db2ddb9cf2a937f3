//! One running machine: registers and memory, framebuffer, keypad latch and
//! key map, driven tick by tick and publishing into the snapshot record.
use vstd::prelude::*;

use rand::Rng;

use crate::cpu::{step, step_spec};
use crate::framebuffer::Framebuffer;
use crate::input::{key_index_spec, keycode_to_index, InputLatch};
use crate::machine::{boot_mstate, C8, EmuError, MState, MAX_PROGRAM_LEN};
use crate::snapshot::{push_trace_spec, trace_appended, InterThreadData};

verus! {

/// Relies on rand's `thread_rng` and `Rng::gen_range` over the non-empty
/// range `0..=255`: some byte comes back, and nothing more is assumed of it.
#[verifier::external_body]
fn random_byte() -> u8 {
    rand::thread_rng().gen_range(0..=255) as u8
}

/// The whole virtual machine as the emulation thread owns it.
#[derive(Debug)]
pub struct Chip8 {
    pub internals: C8,
    pub gbuf: Framebuffer,
    pub input: InputLatch,
    pub keymap: [i32; 16],
}

/// Everything one executed (and published) instruction tick did, for some
/// random byte `rnd`: the machine moved as `step_spec` says, and on success
/// the snapshot took the trace line and the fresh state copy.
pub open spec fn tick_outcome(
    pre: Chip8,
    presnap: InterThreadData,
    post: Chip8,
    postsnap: InterThreadData,
    r: Result<bool, EmuError>,
    rnd: u8,
) -> bool {
    let out = step_spec(pre.internals@, pre.gbuf@, pre.input.key_states@, pre.input.wait_register, rnd);
    &&& post.internals@ == out.m
    &&& post.gbuf@ == out.fb
    &&& post.input.wait_register == out.wait
    &&& post.input.key_states == pre.input.key_states
    &&& post.keymap == pre.keymap
    &&& match r {
        Ok(published) => {
            &&& out.err is None
            &&& published == true
            &&& postsnap.log_view() == push_trace_spec(presnap.log_view(), out.line, out.m.endloop)
            &&& postsnap.internal_state == (if trace_appended(
                presnap.log_view(),
                out.line,
                out.m.endloop,
            ) {
                post.internals
            } else {
                presnap.internal_state
            })
            &&& postsnap.freeze == presnap.freeze
            &&& postsnap.keymap == presnap.keymap
        },
        Err(e) => {
            &&& out.err == Some(e)
            &&& postsnap == presnap
        },
    }
}

impl Chip8 {
    pub open spec fn wf(&self) -> bool {
        &&& self.internals.wf()
        &&& self.gbuf.wf()
        &&& self.input.wf()
    }

    /// Builds the machine around a program image and a key map; an image
    /// longer than `MAX_PROGRAM_LEN` bytes is refused outright.
    pub fn new(program: &Vec<u8>, keymap: &[i32; 16]) -> (r: Result<Chip8, EmuError>)
        ensures
            program@.len() <= MAX_PROGRAM_LEN ==> (r matches Ok(c) && c.internals@ == boot_mstate(
                program@,
            ) && c.gbuf@ == Seq::new(2048, |a: int| 0u8) && c.input.key_states@ == Seq::new(
                16,
                |k: int| false,
            ) && c.input.wait_register is None && c.keymap == *keymap && c.wf()),
            program@.len() > MAX_PROGRAM_LEN ==> r == Err::<Chip8, EmuError>(
                EmuError::ProgramTooLarge,
            ),
    {
        match C8::boot(program) {
            Ok(internals) => Ok(
                Chip8 { internals, gbuf: Framebuffer::new(), input: InputLatch::new(), keymap: *keymap },
            ),
            Err(e) => Err(e),
        }
    }

    /// Runtime test of the machine invariant, for callers outside verified
    /// code.
    pub fn is_wf(&self) -> (r: bool)
        ensures
            r == self.wf(),
    {
        if !self.internals.is_wf() {
            return false;
        }
        match self.input.wait_register {
            Some(x) => {
                if x >= 16 {
                    proof {
                        assert(self.input.wait_register == Some(x));
                        assert(!self.input.wf());
                    }
                    return false;
                }
            },
            None => {},
        }
        let mut c: usize = 0;
        while c < 2048
            invariant
                c <= 2048,
                forall|a: int| 0 <= a < c ==> self.gbuf@[a] <= 1,
            decreases 2048 - c,
        {
            if self.gbuf.cells[c] > 1 {
                proof {
                    assert(self.gbuf@[c as int] > 1);
                    assert(!self.gbuf.wf());
                }
                return false;
            }
            c = c + 1;
        }
        true
    }

    /// One instruction tick. While the observer holds the pause flag, or
    /// while the key-wait latch blocks, nothing at all happens; otherwise
    /// one instruction executes with a fresh random byte, and its trace line
    /// and the new machine state are published into the snapshot. A fatal
    /// error is handed up with everything untouched.
    pub fn instruction_tick(&mut self, snap: &mut InterThreadData) -> (r: Result<bool, EmuError>)
        requires
            old(self).wf(),
        ensures
            final(self).wf(),
            old(snap).wf() ==> final(snap).wf(),
            (old(snap).freeze || old(self).input.wait_register is Some) ==> {
                &&& *final(self) == *old(self)
                &&& *final(snap) == *old(snap)
                &&& r == Ok::<bool, EmuError>(false)
            },
            (!old(snap).freeze && old(self).input.wait_register is None) ==> exists|rnd: u8|
                #[trigger] tick_outcome(*old(self), *old(snap), *final(self), *final(snap), r, rnd),
    {
        if snap.freeze {
            return Ok(false);
        }
        if self.input.wait_register.is_some() {
            return Ok(false);
        }
        let rnd = random_byte();
        match step(&mut self.internals, &mut self.gbuf, &mut self.input, rnd) {
            Ok(line) => {
                snap.send_state(line, &self.internals);
                proof {
                    assert(tick_outcome(
                        *old(self),
                        *old(snap),
                        *self,
                        *snap,
                        Ok::<bool, EmuError>(true),
                        rnd,
                    ));
                }
                Ok(true)
            },
            Err(e) => {
                proof {
                    assert(tick_outcome(
                        *old(self),
                        *old(snap),
                        *self,
                        *snap,
                        Err::<bool, EmuError>(e),
                        rnd,
                    ));
                }
                Err(e)
            },
        }
    }

    /// One timer tick: both countdown timers step toward 0 — unless the
    /// observer holds the pause flag, which freezes them too.
    pub fn timer_tick(&mut self, frozen: bool)
        ensures
            frozen ==> *final(self) == *old(self),
            !frozen ==> final(self).internals@ == (MState {
                delay_timer: if old(self).internals@.delay_timer > 0 {
                    (old(self).internals@.delay_timer - 1) as u8
                } else {
                    0u8
                },
                sound_timer: if old(self).internals@.sound_timer > 0 {
                    (old(self).internals@.sound_timer - 1) as u8
                } else {
                    0u8
                },
                ..old(self).internals@
            }),
            final(self).gbuf == old(self).gbuf,
            final(self).input == old(self).input,
            final(self).keymap == old(self).keymap,
            old(self).wf() ==> final(self).wf(),
    {
        if frozen {
            return ;
        }
        if self.internals.delay_timer > 0 {
            self.internals.delay_timer = self.internals.delay_timer - 1;
        }
        if self.internals.sound_timer > 0 {
            self.internals.sound_timer = self.internals.sound_timer - 1;
        }
    }

    /// A key-press edge from the host. The pressed state latches; a pending
    /// key wait (unless the machine is paused) takes the key index into its
    /// register and clears.
    pub fn key_down(&mut self, keycode: usize, frozen: bool)
        requires
            old(self).wf(),
        ensures
            final(self).wf(),
            final(self).gbuf == old(self).gbuf,
            final(self).keymap == old(self).keymap,
            match key_index_spec(keycode, old(self).keymap@) {
                None => *final(self) == *old(self),
                Some(k) => {
                    &&& final(self).input.key_states@ == old(self).input.key_states@.update(
                        k as int,
                        true,
                    )
                    &&& if old(self).input.wait_register is Some && !frozen {
                        &&& final(self).internals@ == (MState {
                            v: old(self).internals@.v.update(
                                old(self).input.wait_register.unwrap() as int,
                                k as u8,
                            ),
                            ..old(self).internals@
                        })
                        &&& final(self).input.wait_register is None
                    } else {
                        &&& final(self).internals == old(self).internals
                        &&& final(self).input.wait_register == old(self).input.wait_register
                    }
                },
            },
    {
        match keycode_to_index(keycode, &self.keymap) {
            Some(k) => {
                self.input.key_states[k] = true;
                if !frozen {
                    match self.input.wait_register {
                        Some(reg) => {
                            self.internals.V[reg as usize] = k as u8;
                            self.input.wait_register = None;
                        },
                        None => {},
                    }
                }
            },
            None => {},
        }
    }

    /// A key-release edge from the host: only the pressed state changes; a
    /// pending key wait is never resolved by a release.
    pub fn key_up(&mut self, keycode: usize)
        requires
            old(self).wf(),
        ensures
            final(self).wf(),
            final(self).gbuf == old(self).gbuf,
            final(self).keymap == old(self).keymap,
            final(self).internals == old(self).internals,
            final(self).input.wait_register == old(self).input.wait_register,
            match key_index_spec(keycode, old(self).keymap@) {
                None => *final(self) == *old(self),
                Some(k) => final(self).input.key_states@ == old(self).input.key_states@.update(
                    k as int,
                    false,
                ),
            },
    {
        match keycode_to_index(keycode, &self.keymap) {
            Some(k) => {
                self.input.key_states[k] = false;
            },
            None => {},
        }
    }
}

} // verus!
