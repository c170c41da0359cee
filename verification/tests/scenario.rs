use chip8::cpu::{ControlEvent, Cpu};

// CLS; LD V0,0x08; LD V1,0x0A; LD I,0x050; DRW V0,V1,5; JP 0x204.
// After the draw, the digit-0 font glyph must stand at (8,10) with no
// collision reported.
#[test]
fn end_to_end_draws_digit_zero_glyph() {
    let rom: Vec<u8> = vec![
        0x00, 0xe0, // CLS
        0x60, 0x08, // LD V0,0x08
        0x61, 0x0a, // LD V1,0x0A
        0xa0, 0x50, // LD I,0x050
        0xd0, 0x15, // DRW V0,V1,5
        0x12, 0x04, // JP 0x204
    ];
    let mut cpu = Cpu::new(&rom).expect("image loads");
    cpu.apply_event(ControlEvent::ToggleStep);
    for _ in 0..5 {
        cpu.tick().expect("the program runs without faults");
    }
    let glyph: [u8; 5] = [0xf0, 0x90, 0x90, 0x90, 0xf0];
    let d = cpu.get_display();
    for r in 0..5 {
        for c in 0..8 {
            let expected = (glyph[r] >> (7 - c)) & 1;
            assert_eq!(
                d.get_pixel(8 + c, 10 + r),
                expected,
                "glyph bit at column {} row {}",
                c,
                r
            );
        }
    }
    assert_eq!(cpu.get_vx(0xf), 0, "first draw on a blank screen collides with nothing");
    // The final jump loops the program back to the second instruction.
    cpu.tick().expect("the jump runs");
    assert_eq!(cpu.get_pc(), 0x204);
}
