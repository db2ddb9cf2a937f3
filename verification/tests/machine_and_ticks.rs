use chip8::input::keycode_to_index;
use chip8::machine::{fontset, C8, EmuError, MAX_PROGRAM_LEN};
use chip8::sched::Clocks;
use chip8::snapshot::InterThreadData;
use chip8::ui_state::UIStates;
use chip8::vm::Chip8;

fn machine(program: &[u8]) -> Chip8 {
    Chip8::new(&program.to_vec(), &UIStates::keymap_default()).unwrap()
}

#[test]
fn boot_seeds_font_program_and_registers() {
    let program = [0x12u8, 0x34, 0x56];
    let c = C8::boot(&program.to_vec()).unwrap();
    let font = fontset();
    for k in 0..80 {
        assert_eq!(c.memory[k], font[k]);
    }
    for k in 80..0x200 {
        assert_eq!(c.memory[k], 0);
    }
    assert_eq!(&c.memory[0x200..0x203], &program);
    for k in 0x203..4096 {
        assert_eq!(c.memory[k], 0);
    }
    assert_eq!(c.PC, 0x200);
    assert_eq!(c.SP, 0);
    assert_eq!(c.I, 0);
    assert!(!c.endloop);
}

#[test]
fn oversized_program_is_refused() {
    let program = vec![0u8; MAX_PROGRAM_LEN + 1];
    assert_eq!(C8::boot(&program).unwrap_err(), EmuError::ProgramTooLarge);
    let largest = vec![0u8; MAX_PROGRAM_LEN];
    assert!(C8::boot(&largest).is_ok());
}

#[test]
fn default_keymap_lookup() {
    let km = UIStates::keymap_default();
    assert_eq!(keycode_to_index(48, &km), Some(0));
    assert_eq!(keycode_to_index(57, &km), Some(9));
    assert_eq!(keycode_to_index(97, &km), Some(10));
    assert_eq!(keycode_to_index(102, &km), Some(15));
    assert_eq!(keycode_to_index(1000, &km), None);
}

#[test]
fn clock_gates_fire_at_their_rates() {
    let mut clocks = Clocks::new();
    // The instruction gate runs at 500 Hz: one firing per 2 ms.
    assert!(!clocks.opcode_gate(1));
    assert!(clocks.opcode_gate(2));
    assert!(!clocks.opcode_gate(3));
    assert!(clocks.opcode_gate(4));
    // The render gate runs at 60 Hz: one firing per 16 ms.
    assert!(!clocks.render_gate(15));
    assert!(clocks.render_gate(16));
    assert!(!clocks.render_gate(31));
    assert!(clocks.render_gate(32));
}

#[test]
fn key_wait_blocks_until_a_press_edge() {
    // 0xF50A waits for a key into V[5].
    let mut vm = machine(&[0xF5, 0x0A, 0x00, 0x00]);
    let mut snap = InterThreadData::new();
    assert_eq!(vm.instruction_tick(&mut snap), Ok(true));
    assert_eq!(vm.input.wait_register, Some(5));
    let pc_after_wait = vm.internals.PC;
    // Further ticks execute nothing while the latch blocks.
    for _ in 0..10 {
        assert_eq!(vm.instruction_tick(&mut snap), Ok(false));
    }
    assert_eq!(vm.internals.PC, pc_after_wait);
    assert_eq!(snap.executed_instructions.len(), 1);
    // A key release never resolves the wait.
    vm.key_up(48);
    assert_eq!(vm.input.wait_register, Some(5));
    // An unmapped key press does not resolve it either.
    vm.key_down(9999, false);
    assert_eq!(vm.input.wait_register, Some(5));
    // A mapped key press does: key code 97 is logical key 0xA.
    vm.key_down(97, false);
    assert_eq!(vm.input.wait_register, None);
    assert_eq!(vm.internals.V[5], 0xA);
    assert!(vm.input.key_states[0xA]);
    assert_eq!(vm.instruction_tick(&mut snap), Ok(true));
    assert_eq!(vm.internals.PC, pc_after_wait + 2);
}

#[test]
fn pause_freezes_execution_trace_and_timers() {
    // V[1] = 5, delay timer = 5, then a spin of unknown opcodes.
    let mut vm = machine(&[0x61, 0x05, 0xF1, 0x15, 0x00, 0x00, 0x00, 0x00]);
    let mut snap = InterThreadData::new();
    assert_eq!(vm.instruction_tick(&mut snap), Ok(true));
    assert_eq!(vm.instruction_tick(&mut snap), Ok(true));
    assert_eq!(vm.internals.delay_timer, 5);
    let log_len = snap.executed_instructions.len();
    let pc = vm.internals.PC;
    snap.freeze = true;
    for _ in 0..10 {
        assert_eq!(vm.instruction_tick(&mut snap), Ok(false));
        vm.timer_tick(snap.freeze);
    }
    assert_eq!(vm.internals.PC, pc);
    assert_eq!(vm.internals.delay_timer, 5);
    assert_eq!(snap.executed_instructions.len(), log_len);
    assert_eq!(snap.internal_state.PC, pc);
    // Resuming continues from the frozen state.
    snap.freeze = false;
    assert_eq!(vm.instruction_tick(&mut snap), Ok(true));
    assert_eq!(vm.internals.PC, pc + 2);
    vm.timer_tick(false);
    assert_eq!(vm.internals.delay_timer, 4);
}

#[test]
fn timers_floor_at_zero() {
    let mut vm = machine(&[0x00, 0x00]);
    vm.internals.delay_timer = 2;
    vm.internals.sound_timer = 1;
    vm.timer_tick(false);
    assert_eq!(vm.internals.delay_timer, 1);
    assert_eq!(vm.internals.sound_timer, 0);
    vm.timer_tick(false);
    vm.timer_tick(false);
    assert_eq!(vm.internals.delay_timer, 0);
    assert_eq!(vm.internals.sound_timer, 0);
}

#[test]
fn key_states_follow_edges() {
    let mut vm = machine(&[0x00, 0x00]);
    vm.key_down(50, false);
    assert!(vm.input.key_states[2]);
    vm.key_up(50);
    assert!(!vm.input.key_states[2]);
}

#[test]
fn fatal_error_reported_through_tick() {
    // 0x00EE on an empty stack.
    let mut vm = machine(&[0x00, 0xEE]);
    let mut snap = InterThreadData::new();
    assert_eq!(vm.instruction_tick(&mut snap), Err(EmuError::StackUnderflow));
    assert_eq!(snap.executed_instructions.len(), 0);
}

#[test]
fn machine_reports_well_formed() {
    let vm = machine(&[0x00, 0x00]);
    assert!(vm.is_wf());
}
