use chip8::cpu::step;
use chip8::framebuffer::Framebuffer;
use chip8::input::InputLatch;
use chip8::machine::{C8, EmuError};

fn boot(program: &[u8]) -> (C8, Framebuffer, InputLatch) {
    let c = C8::boot(&program.to_vec()).unwrap();
    (c, Framebuffer::new(), InputLatch::new())
}

#[test]
fn call_then_return_restores_pc_and_sp() {
    // 0x2206 calls 0x206, which holds 0x00EE.
    let (mut m, mut fb, mut latch) = boot(&[0x22, 0x06, 0x00, 0x00, 0x00, 0x00, 0x00, 0xEE]);
    step(&mut m, &mut fb, &mut latch, 0).unwrap();
    assert_eq!(m.PC, 0x206);
    assert_eq!(m.SP, 1);
    step(&mut m, &mut fb, &mut latch, 0).unwrap();
    assert_eq!(m.PC, 0x202);
    assert_eq!(m.SP, 0);
}

#[test]
fn seventeenth_nested_call_overflows() {
    // 0x2200 calls its own address over and over, pushing each time.
    let (mut m, mut fb, mut latch) = boot(&[0x22, 0x00]);
    for _ in 0..16 {
        step(&mut m, &mut fb, &mut latch, 0).unwrap();
    }
    assert_eq!(m.SP, 16);
    let err = step(&mut m, &mut fb, &mut latch, 0).unwrap_err();
    assert_eq!(err, EmuError::StackOverflow);
    assert_eq!(m.SP, 16);
}

#[test]
fn return_on_empty_stack_underflows() {
    let (mut m, mut fb, mut latch) = boot(&[0x00, 0xEE]);
    let err = step(&mut m, &mut fb, &mut latch, 0).unwrap_err();
    assert_eq!(err, EmuError::StackUnderflow);
    assert_eq!(m.PC, 0x200);
}

#[test]
fn draw_twice_clears_and_flags_collision() {
    // Glyph 0 (5 bytes at address 0) drawn twice at (2, 3).
    let (mut m, mut fb, mut latch) = boot(&[
        0x61, 0x02, 0x62, 0x03, 0xA0, 0x00, 0xD1, 0x25, 0xD1, 0x25,
    ]);
    for _ in 0..3 {
        step(&mut m, &mut fb, &mut latch, 0).unwrap();
    }
    step(&mut m, &mut fb, &mut latch, 0).unwrap();
    assert_eq!(m.V[0xF], 0);
    // Glyph 0's top row is 0xF0: four cells from (2, 3) on.
    assert_eq!(fb.cells[3 * 64 + 2], 1);
    assert_eq!(fb.cells[3 * 64 + 5], 1);
    assert_eq!(fb.cells[3 * 64 + 6], 0);
    step(&mut m, &mut fb, &mut latch, 0).unwrap();
    assert_eq!(m.V[0xF], 1);
    for c in 0..2048 {
        assert_eq!(fb.cells[c], 0);
    }
}

#[test]
fn sprite_wraps_at_the_edges() {
    // An 8x2 all-ones sprite drawn at (63, 31): columns wrap to 0.., the
    // second row wraps to row 0.
    let mut mem = [0u8; 4096];
    mem[0x300] = 0xFF;
    mem[0x301] = 0xFF;
    let mut fb = Framebuffer::new();
    let vf = fb.draw(&mem, 0x300, 2, 63, 31);
    assert_eq!(vf, 0);
    for row in [31usize, 0usize] {
        assert_eq!(fb.cells[row * 64 + 63], 1);
        for col in 0..7usize {
            assert_eq!(fb.cells[row * 64 + col], 1);
        }
        for col in 7..63usize {
            assert_eq!(fb.cells[row * 64 + col], 0);
        }
    }
}

#[test]
fn clear_screen_zeroes_every_cell() {
    let (mut m, mut fb, mut latch) = boot(&[0xA0, 0x00, 0xD0, 0x05, 0x00, 0xE0]);
    step(&mut m, &mut fb, &mut latch, 0).unwrap();
    step(&mut m, &mut fb, &mut latch, 0).unwrap();
    assert!(fb.cells.iter().any(|&c| c == 1));
    step(&mut m, &mut fb, &mut latch, 0).unwrap();
    assert!(fb.cells.iter().all(|&c| c == 0));
}

#[test]
fn zero_height_draw_only_clears_flag() {
    let (mut m, mut fb, mut latch) = boot(&[0x6F, 0x01, 0xD0, 0x00]);
    step(&mut m, &mut fb, &mut latch, 0).unwrap();
    step(&mut m, &mut fb, &mut latch, 0).unwrap();
    assert_eq!(m.V[0xF], 0);
    assert!(fb.cells.iter().all(|&c| c == 0));
}

#[test]
fn draw_past_end_of_memory_fails() {
    let (mut m, mut fb, mut latch) = boot(&[0xAF, 0xFF, 0xD0, 0x05]);
    step(&mut m, &mut fb, &mut latch, 0).unwrap();
    let err = step(&mut m, &mut fb, &mut latch, 0).unwrap_err();
    assert_eq!(err, EmuError::AddressOutOfRange);
}
