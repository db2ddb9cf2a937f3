//! A verified CHIP-8 virtual machine core: the decode/execute state machine,
//! the XOR-sprite framebuffer, the key latch with its blocking key-wait, the
//! dual fixed-rate clock gates, and the snapshot record an observer reads.
//!
//! Window creation, rendering, host key mapping UI and program loading are
//! external collaborators; they drive this core through plain values.

pub mod cpu;
pub mod framebuffer;
pub mod hexfmt;
pub mod input;
pub mod laws;
pub mod machine;
pub mod sched;
pub mod snapshot;
pub mod ui_state;
pub mod vm;
