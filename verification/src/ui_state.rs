//! Observer-side state that the core defines: the default key bindings and
//! the small record a configuration UI edits.
use vstd::prelude::*;

verus! {

/// The key map rows `0x0..=0xF` are bound to, as host key codes: the digit
/// keys `0`..`9` then the letter keys `a`..`f`.
pub open spec fn keymap_default_spec() -> Seq<i32> {
    seq![48i32, 49, 50, 51, 52, 53, 54, 55, 56, 57, 97, 98, 99, 100, 101, 102]
}

/// State of the key-binding editor: which memory page the inspector shows,
/// the current bindings, and the row waiting for a key press (-1 for none).
pub struct UIStates {
    pub memory_slider: i32,
    pub keymap: [i32; 16],
    pub listen_for_key: i32,
}

impl UIStates {
    /// The bindings a machine starts with.
    pub fn keymap_default() -> (r: [i32; 16])
        ensures
            r@ == keymap_default_spec(),
    {
        let r: [i32; 16] = [48, 49, 50, 51, 52, 53, 54, 55, 56, 57, 97, 98, 99, 100, 101, 102];
        proof {
            assert(r@ =~= keymap_default_spec());
        }
        r
    }
}

impl Default for UIStates {
    fn default() -> (r: Self)
        ensures
            r.memory_slider == 3840,
            r.keymap@ == keymap_default_spec(),
            r.listen_for_key == -1,
    {
        UIStates { memory_slider: 3840, keymap: UIStates::keymap_default(), listen_for_key: -1 }
    }
}

} // verus!
