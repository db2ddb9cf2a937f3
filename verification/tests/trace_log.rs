use chip8::machine::C8;
use chip8::snapshot::InterThreadData;
use chip8::ui_state::UIStates;
use chip8::vm::Chip8;

#[test]
fn trace_log_caps_at_100_and_evicts_oldest() {
    let mut snap = InterThreadData::new();
    let state = C8::default();
    for i in 0..150 {
        snap.send_state(format!("line {}", i), &state);
        assert!(snap.executed_instructions.len() <= 100);
    }
    assert_eq!(snap.executed_instructions.len(), 100);
    assert_eq!(snap.executed_instructions[0], "line 50");
    assert_eq!(snap.executed_instructions[99], "line 149");
}

#[test]
fn identical_lines_append_while_not_looping() {
    let mut snap = InterThreadData::new();
    let state = C8::default();
    snap.send_state("same".to_string(), &state);
    snap.send_state("same".to_string(), &state);
    assert_eq!(snap.executed_instructions.len(), 2);
}

#[test]
fn looping_machine_collapses_repeated_lines() {
    let mut snap = InterThreadData::new();
    let mut state = C8::default();
    state.endloop = true;
    snap.send_state("loop".to_string(), &state);
    snap.send_state("loop".to_string(), &state);
    snap.send_state("loop".to_string(), &state);
    assert_eq!(snap.executed_instructions.len(), 1);
}

#[test]
fn state_copy_follows_appended_lines() {
    let mut snap = InterThreadData::new();
    let mut state = C8::default();
    state.PC = 0x246;
    snap.send_state("a".to_string(), &state);
    assert_eq!(snap.internal_state.PC, 0x246);
}

#[test]
fn self_loop_produces_exactly_one_trace_entry() {
    // The whole program is 0x1200: a jump to its own address.
    let mut vm = Chip8::new(&vec![0x12, 0x00], &UIStates::keymap_default()).unwrap();
    let mut snap = InterThreadData::new();
    for _ in 0..1000 {
        assert_eq!(vm.instruction_tick(&mut snap), Ok(true));
    }
    assert!(vm.internals.endloop);
    assert_eq!(vm.internals.PC, 0x200);
    assert_eq!(snap.executed_instructions.len(), 1);
    assert_eq!(snap.executed_instructions[0], "0200: 1200 - Endloop");
}
