use chip8::cpu::step;
use chip8::framebuffer::Framebuffer;
use chip8::input::InputLatch;
use chip8::machine::{C8, EmuError};

fn boot(program: &[u8]) -> (C8, Framebuffer, InputLatch) {
    let c = C8::boot(&program.to_vec()).unwrap();
    (c, Framebuffer::new(), InputLatch::new())
}

#[test]
fn load_then_skip_eq_skips() {
    // 0x6A42: V[A] = 0x42; 0x3A42: skip because V[A] == 0x42.
    let (mut m, mut fb, mut latch) = boot(&[0x6A, 0x42, 0x3A, 0x42]);
    step(&mut m, &mut fb, &mut latch, 0).unwrap();
    assert_eq!(m.V[0xA], 0x42);
    step(&mut m, &mut fb, &mut latch, 0).unwrap();
    assert_eq!(m.PC, 0x206);
}

#[test]
fn load_then_skip_ne_does_not_skip() {
    // 0x6A42 then 0x4A42: no skip because V[A] == 0x42.
    let (mut m, mut fb, mut latch) = boot(&[0x6A, 0x42, 0x4A, 0x42]);
    step(&mut m, &mut fb, &mut latch, 0).unwrap();
    step(&mut m, &mut fb, &mut latch, 0).unwrap();
    assert_eq!(m.PC, 0x204);
}

#[test]
fn add_with_carry_wraps() {
    // V[1] = 0xFF, V[2] = 0x01, then 0x8124.
    let (mut m, mut fb, mut latch) = boot(&[0x61, 0xFF, 0x62, 0x01, 0x81, 0x24]);
    step(&mut m, &mut fb, &mut latch, 0).unwrap();
    step(&mut m, &mut fb, &mut latch, 0).unwrap();
    step(&mut m, &mut fb, &mut latch, 0).unwrap();
    assert_eq!(m.V[0xF], 1);
    assert_eq!(m.V[1], 0x00);
}

#[test]
fn sub_with_borrow_wraps() {
    // V[1] = 0x01, V[2] = 0x02, then 0x8125.
    let (mut m, mut fb, mut latch) = boot(&[0x61, 0x01, 0x62, 0x02, 0x81, 0x25]);
    step(&mut m, &mut fb, &mut latch, 0).unwrap();
    step(&mut m, &mut fb, &mut latch, 0).unwrap();
    step(&mut m, &mut fb, &mut latch, 0).unwrap();
    assert_eq!(m.V[0xF], 0);
    assert_eq!(m.V[1], 0xFF);
}

#[test]
fn bitwise_ops_clear_flag() {
    // V[1] = 0x0F, V[2] = 0xF0, V[F] = 1, then 0x8121 (OR).
    let (mut m, mut fb, mut latch) = boot(&[0x61, 0x0F, 0x62, 0xF0, 0x6F, 0x01, 0x81, 0x21]);
    for _ in 0..4 {
        step(&mut m, &mut fb, &mut latch, 0).unwrap();
    }
    assert_eq!(m.V[1], 0xFF);
    assert_eq!(m.V[0xF], 0);
}

#[test]
fn shift_right_keeps_low_bit() {
    // V[1] = 0x05, then 0x8106.
    let (mut m, mut fb, mut latch) = boot(&[0x61, 0x05, 0x81, 0x06]);
    step(&mut m, &mut fb, &mut latch, 0).unwrap();
    step(&mut m, &mut fb, &mut latch, 0).unwrap();
    assert_eq!(m.V[1], 0x02);
    assert_eq!(m.V[0xF], 1);
}

#[test]
fn bcd_of_157() {
    // V[1] = 157, I = 0x300, then 0xF133.
    let (mut m, mut fb, mut latch) = boot(&[0x61, 0x9D, 0xA3, 0x00, 0xF1, 0x33]);
    step(&mut m, &mut fb, &mut latch, 0).unwrap();
    step(&mut m, &mut fb, &mut latch, 0).unwrap();
    step(&mut m, &mut fb, &mut latch, 0).unwrap();
    assert_eq!(m.memory[0x300], 1);
    assert_eq!(m.memory[0x301], 5);
    assert_eq!(m.memory[0x302], 7);
}

#[test]
fn store_and_load_registers() {
    // V[0]=7, V[1]=9, I=0x300, 0xF155 stores V[0..=1], then V[0] and V[1]
    // are overwritten and 0xF165 loads them back.
    let (mut m, mut fb, mut latch) = boot(&[
        0x60, 0x07, 0x61, 0x09, 0xA3, 0x00, 0xF1, 0x55, 0x60, 0x00, 0x61, 0x00, 0xF1, 0x65,
    ]);
    for _ in 0..7 {
        step(&mut m, &mut fb, &mut latch, 0).unwrap();
    }
    assert_eq!(m.memory[0x300], 7);
    assert_eq!(m.memory[0x301], 9);
    assert_eq!(m.V[0], 7);
    assert_eq!(m.V[1], 9);
}

#[test]
fn font_sprite_address() {
    // V[1] = 0xB, then 0xF129: I = 0xB * 5.
    let (mut m, mut fb, mut latch) = boot(&[0x61, 0x0B, 0xF1, 0x29]);
    step(&mut m, &mut fb, &mut latch, 0).unwrap();
    step(&mut m, &mut fb, &mut latch, 0).unwrap();
    assert_eq!(m.I, 55);
}

#[test]
fn random_is_masked() {
    // 0xC1F0: V[1] = rnd & 0xF0.
    let (mut m, mut fb, mut latch) = boot(&[0xC1, 0xF0]);
    step(&mut m, &mut fb, &mut latch, 0xAB).unwrap();
    assert_eq!(m.V[1], 0xA0);
}

#[test]
fn unknown_opcode_is_noop_with_description() {
    let (mut m, mut fb, mut latch) = boot(&[0x0F, 0xFF]);
    let line = step(&mut m, &mut fb, &mut latch, 0).unwrap();
    assert_eq!(line, "0200: 0FFF - unknown/unimplemented instruction");
    assert_eq!(m.PC, 0x202);
}

#[test]
fn jump_sets_pc() {
    let (mut m, mut fb, mut latch) = boot(&[0x13, 0x45]);
    let line = step(&mut m, &mut fb, &mut latch, 0).unwrap();
    assert_eq!(m.PC, 0x345);
    assert!(!m.endloop);
    assert!(line.starts_with("0200: 1345 - "));
}

#[test]
fn jump_plus_v0() {
    let (mut m, mut fb, mut latch) = boot(&[0x60, 0x10, 0xB3, 0x00]);
    step(&mut m, &mut fb, &mut latch, 0).unwrap();
    step(&mut m, &mut fb, &mut latch, 0).unwrap();
    assert_eq!(m.PC, 0x310);
}

#[test]
fn delay_timer_round_trip() {
    // V[1] = 0x21, 0xF115 sets the delay timer, 0xF207 reads it into V[2].
    let (mut m, mut fb, mut latch) = boot(&[0x61, 0x21, 0xF1, 0x15, 0xF2, 0x07]);
    step(&mut m, &mut fb, &mut latch, 0).unwrap();
    step(&mut m, &mut fb, &mut latch, 0).unwrap();
    assert_eq!(m.delay_timer, 0x21);
    step(&mut m, &mut fb, &mut latch, 0).unwrap();
    assert_eq!(m.V[2], 0x21);
}

#[test]
fn index_add_wraps() {
    // I = 0xFFF via 0xAFFF, V[1] = 2, then 0xF11E.
    let (mut m, mut fb, mut latch) = boot(&[0xAF, 0xFF, 0x61, 0x02, 0xF1, 0x1E]);
    step(&mut m, &mut fb, &mut latch, 0).unwrap();
    step(&mut m, &mut fb, &mut latch, 0).unwrap();
    step(&mut m, &mut fb, &mut latch, 0).unwrap();
    assert_eq!(m.I, 0x1001);
}

#[test]
fn bcd_out_of_range_fails() {
    // I = 0xFFF, then 0xF133 would write past the end of memory.
    let (mut m, mut fb, mut latch) = boot(&[0xAF, 0xFF, 0xF1, 0x33]);
    step(&mut m, &mut fb, &mut latch, 0).unwrap();
    let before_pc = m.PC;
    let err = step(&mut m, &mut fb, &mut latch, 0).unwrap_err();
    assert_eq!(err, EmuError::AddressOutOfRange);
    assert_eq!(m.PC, before_pc);
}

#[test]
fn key_test_out_of_range_fails() {
    // V[1] = 200, then 0xE19E names a key outside the pad.
    let (mut m, mut fb, mut latch) = boot(&[0x61, 0xC8, 0xE1, 0x9E]);
    step(&mut m, &mut fb, &mut latch, 0).unwrap();
    let err = step(&mut m, &mut fb, &mut latch, 0).unwrap_err();
    assert_eq!(err, EmuError::KeyOutOfRange);
}

#[test]
fn skip_if_key_pressed() {
    let (mut m, mut fb, mut latch) = boot(&[0x61, 0x03, 0xE1, 0x9E, 0x00, 0x00, 0xE1, 0xA1]);
    latch.key_states[3] = true;
    step(&mut m, &mut fb, &mut latch, 0).unwrap();
    step(&mut m, &mut fb, &mut latch, 0).unwrap();
    // Key 3 pressed: 0xE19E skips over the 0x0000 at 0x204.
    assert_eq!(m.PC, 0x206);
    step(&mut m, &mut fb, &mut latch, 0).unwrap();
    // Key 3 still pressed: 0xE1A1 does not skip.
    assert_eq!(m.PC, 0x208);
}
