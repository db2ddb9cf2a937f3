//! The keypad latch: per-key pressed state plus the blocking key-wait register.
use vstd::prelude::*;

verus! {

/// The first logical key the keymap binds to this host key code, if any.
pub open spec fn key_index_from(keycode: usize, km: Seq<i32>, start: int) -> Option<usize>
    decreases 16 - start,
{
    if start < 0 || start >= 16 {
        None
    } else if km[start] as usize == keycode {
        Some(start as usize)
    } else {
        key_index_from(keycode, km, start + 1)
    }
}

pub open spec fn key_index_spec(keycode: usize, km: Seq<i32>) -> Option<usize> {
    key_index_from(keycode, km, 0)
}

/// Walks the keymap in order and returns the first logical key bound to the
/// host key code.
pub fn keycode_to_index(keycode: usize, keymap: &[i32; 16]) -> (r: Option<usize>)
    ensures
        r == key_index_spec(keycode, keymap@),
        r matches Some(k) ==> k < 16,
{
    let mut i: usize = 0;
    while i < 16
        invariant
            i <= 16,
            key_index_spec(keycode, keymap@) == key_index_from(keycode, keymap@, i as int),
        decreases 16 - i,
    {
        if keycode == keymap[i] as usize {
            return Some(i);
        }
        i = i + 1;
    }
    None
}

/// Pressed/released state for the sixteen logical keys, and the key-wait
/// latch: `Some(x)` while instruction 0xFX0A is blocking on a key press that
/// will be stored in `V[x]`.
#[derive(Debug)]
pub struct InputLatch {
    pub key_states: [bool; 16],
    pub wait_register: Option<u8>,
}

impl InputLatch {
    /// A pending wait always names one of the sixteen registers.
    pub open spec fn wf(&self) -> bool {
        self.wait_register matches Some(x) ==> x < 16
    }

    pub fn new() -> (r: Self)
        ensures
            r.key_states@ == Seq::new(16, |k: int| false),
            r.wait_register is None,
            r.wf(),
    {
        let r = InputLatch { key_states: [false; 16], wait_register: None };
        proof {
            assert(r.key_states@ =~= Seq::new(16, |k: int| false));
        }
        r
    }
}

} // verus!
