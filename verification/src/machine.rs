//! The register/memory/stack record of the virtual machine.
use vstd::prelude::*;

verus! {

/// Lowest address a loaded program may occupy.
pub const PROGRAM_BASE: usize = 0x200;

/// Largest program image that fits between `PROGRAM_BASE` and the end of memory.
pub const MAX_PROGRAM_LEN: usize = 0xE00;

/// Setup and runtime failures of the machine, reported to the control surface
/// instead of panicking.
#[derive(Clone, Copy, Debug, PartialEq, Eq, Structural)]
pub enum EmuError {
    /// A program image longer than `MAX_PROGRAM_LEN` bytes was offered.
    ProgramTooLarge,
    /// A call instruction found all 16 stack slots in use.
    StackOverflow,
    /// A return instruction found the stack empty.
    StackUnderflow,
    /// A decoded instruction addressed memory outside `0x000..=0xFFF`.
    AddressOutOfRange,
    /// A key-state test named a key index outside `0x0..=0xF`.
    KeyOutOfRange,
}

/// Mathematical model of the machine state.
#[verifier::ext_equal]
pub ghost struct MState {
    pub memory: Seq<u8>,
    pub v: Seq<u8>,
    pub i: u16,
    pub pc: u16,
    pub stack: Seq<u16>,
    pub sp: usize,
    pub delay_timer: u8,
    pub sound_timer: u8,
    pub endloop: bool,
}

impl MState {
    /// The stack pointer is the next free slot and never passes the 16 entries.
    pub open spec fn wf(self) -> bool {
        self.sp <= 16
    }
}

/// The machine state: 4KB of memory, sixteen 8-bit registers, the index and
/// program counter, a 16-slot call stack, the two countdown timers, and the
/// flag that records a detected self-loop.
#[allow(non_snake_case)]
#[derive(Clone, Copy, Debug)]
pub struct C8 {
    pub memory: [u8; 4096],
    pub V: [u8; 16],
    pub I: u16,
    pub PC: u16,
    pub stack: [u16; 16],
    pub SP: usize,
    pub delay_timer: u8,
    pub sound_timer: u8,
    pub endloop: bool,
}

impl View for C8 {
    type V = MState;

    open spec fn view(&self) -> MState {
        MState {
            memory: self.memory@,
            v: self.V@,
            i: self.I,
            pc: self.PC,
            stack: self.stack@,
            sp: self.SP,
            delay_timer: self.delay_timer,
            sound_timer: self.sound_timer,
            endloop: self.endloop,
        }
    }
}

impl C8 {
    pub open spec fn wf(&self) -> bool {
        self@.wf()
    }

    /// Runtime test of the state invariant, for callers outside verified code.
    pub fn is_wf(&self) -> (r: bool)
        ensures
            r == self.wf(),
    {
        self.SP <= 16
    }
}

/// The state a machine powers up in: cleared memory and registers, with the
/// program counter at `PROGRAM_BASE`.
pub open spec fn reset_mstate() -> MState {
    MState {
        memory: Seq::new(4096, |a: int| 0u8),
        v: Seq::new(16, |a: int| 0u8),
        i: 0u16,
        pc: 0x200u16,
        stack: Seq::new(16, |a: int| 0u16),
        sp: 0usize,
        delay_timer: 0u8,
        sound_timer: 0u8,
        endloop: false,
    }
}

/// The font sprite table held in `memory[0..80]`: 16 glyphs of 5 bytes each.
pub open spec fn font_spec() -> Seq<u8> {
    seq![
        0xF0u8, 0x90, 0x90, 0x90, 0xF0, 0x20, 0x60, 0x20, 0x20, 0x70, 0xF0, 0x10, 0xF0, 0x80,
        0xF0, 0xF0, 0x10, 0xF0, 0x10, 0xF0, 0x90, 0x90, 0xF0, 0x10, 0x10, 0xF0, 0x80, 0xF0, 0x10,
        0xF0, 0xF0, 0x80, 0xF0, 0x90, 0xF0, 0xF0, 0x10, 0x20, 0x40, 0x40, 0xF0, 0x90, 0xF0, 0x90,
        0xF0, 0xF0, 0x90, 0xF0, 0x10, 0xF0, 0xF0, 0x90, 0xF0, 0x90, 0x90, 0xE0, 0x90, 0xE0, 0x90,
        0xE0, 0xF0, 0x80, 0x80, 0x80, 0xF0, 0xE0, 0x90, 0x90, 0x90, 0xE0, 0xF0, 0x80, 0xF0, 0x80,
        0xF0, 0xF0, 0x80, 0xF0, 0x80, 0x80,
    ]
}

/// The glyphs 0 through F, 5 bytes per glyph, as seeded into low memory.
pub fn fontset() -> (r: [u8; 80])
    ensures
        r@ == font_spec(),
{
    let r: [u8; 80] = [
        0xF0, 0x90, 0x90, 0x90, 0xF0, 0x20, 0x60, 0x20, 0x20, 0x70, 0xF0, 0x10, 0xF0, 0x80, 0xF0,
        0xF0, 0x10, 0xF0, 0x10, 0xF0, 0x90, 0x90, 0xF0, 0x10, 0x10, 0xF0, 0x80, 0xF0, 0x10, 0xF0,
        0xF0, 0x80, 0xF0, 0x90, 0xF0, 0xF0, 0x10, 0x20, 0x40, 0x40, 0xF0, 0x90, 0xF0, 0x90, 0xF0,
        0xF0, 0x90, 0xF0, 0x10, 0xF0, 0xF0, 0x90, 0xF0, 0x90, 0x90, 0xE0, 0x90, 0xE0, 0x90, 0xE0,
        0xF0, 0x80, 0x80, 0x80, 0xF0, 0xE0, 0x90, 0x90, 0x90, 0xE0, 0xF0, 0x80, 0xF0, 0x80, 0xF0,
        0xF0, 0x80, 0xF0, 0x80, 0x80,
    ];
    proof {
        assert(r@ =~= font_spec());
    }
    r
}

/// The machine state after power-up with a program image: the font table in
/// low memory, the program at `PROGRAM_BASE`, everything else cleared.
pub open spec fn boot_mstate(prog: Seq<u8>) -> MState {
    MState {
        memory: Seq::new(
            4096,
            |a: int|
                if a < 80 {
                    font_spec()[a]
                } else if 0x200 <= a < 0x200 + prog.len() {
                    prog[a - 0x200]
                } else {
                    0u8
                },
        ),
        ..reset_mstate()
    }
}

impl C8 {
    /// Seeds a fresh machine with the font table and the program image,
    /// loaded verbatim at `PROGRAM_BASE`. An image that does not fit is a
    /// fatal setup error: no machine is created.
    pub fn boot(program: &Vec<u8>) -> (r: Result<C8, EmuError>)
        ensures
            program@.len() <= MAX_PROGRAM_LEN ==> (r matches Ok(c) && c@ == boot_mstate(program@)
                && c.wf()),
            program@.len() > MAX_PROGRAM_LEN ==> r == Err::<C8, EmuError>(
                EmuError::ProgramTooLarge,
            ),
    {
        if program.len() > MAX_PROGRAM_LEN {
            return Err(EmuError::ProgramTooLarge);
        }
        let mut c = C8::default();
        let font = fontset();
        let mut k: usize = 0;
        while k < 80
            invariant
                k <= 80,
                font@ == font_spec(),
                c.I == 0,
                c.PC == 0x200,
                c.SP == 0,
                c.delay_timer == 0,
                c.sound_timer == 0,
                c.endloop == false,
                c.stack@ == reset_mstate().stack,
                c.V@ == reset_mstate().v,
                forall|a: int|
                    0 <= a < 4096 ==> c@.memory[a] == (if a < k {
                        font_spec()[a]
                    } else {
                        0u8
                    }),
            decreases 80 - k,
        {
            let ghost pre = c@.memory;
            c.memory[k] = font[k];
            proof {
                assert(c@.memory == pre.update(k as int, font_spec()[k as int]));
            }
            k = k + 1;
        }
        let n: usize = program.len();
        let mut k: usize = 0;
        while k < n
            invariant
                k <= n,
                n == program@.len(),
                n <= MAX_PROGRAM_LEN,
                c.I == 0,
                c.PC == 0x200,
                c.SP == 0,
                c.delay_timer == 0,
                c.sound_timer == 0,
                c.endloop == false,
                c.stack@ == reset_mstate().stack,
                c.V@ == reset_mstate().v,
                forall|a: int|
                    0 <= a < 4096 ==> c@.memory[a] == (if a < 80 {
                        font_spec()[a]
                    } else if 0x200 <= a < 0x200 + k {
                        program@[a - 0x200]
                    } else {
                        0u8
                    }),
            decreases n - k,
        {
            let ghost pre = c@.memory;
            c.memory[0x200 + k] = program[k];
            proof {
                assert(c@.memory == pre.update(0x200 + k as int, program@[k as int]));
            }
            k = k + 1;
        }
        proof {
            assert(c@ =~= boot_mstate(program@));
        }
        Ok(c)
    }
}

impl Default for C8 {
    fn default() -> (r: Self)
        ensures
            r@ == reset_mstate(),
    {
        let r = C8 {
            memory: [0; 4096],
            V: [0; 16],
            I: 0,
            PC: 0x200,
            stack: [0; 16],
            SP: 0,
            delay_timer: 0,
            sound_timer: 0,
            endloop: false,
        };
        proof {
            assert(r@ =~= reset_mstate());
        }
        r
    }
}

} // verus!
