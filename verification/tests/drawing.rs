use chip8::cpu::Cpu;
use chip8::display::{Display, Pixel};
use chip8::instr::{execute, Fault, Instruction};

fn fresh() -> Cpu {
    let rom: Vec<u8> = vec![];
    Cpu::new(&rom).expect("empty image loads")
}

fn load_sprite(cpu: &mut Cpu, addr: u16, rows: &[u8]) {
    for (k, b) in rows.iter().enumerate() {
        cpu.put_mem(addr as usize + k, *b);
    }
    cpu.set_i(addr);
}

#[test]
fn pixel_accessors() {
    let p = Pixel::new(3, 4, 1);
    assert_eq!(p.x(), 3);
    assert_eq!(p.y(), 4);
    assert_eq!(p.value(), 1);
}

#[test]
fn display_draw_and_clear() {
    let mut d = Display::new();
    assert_eq!(d.get_pixel(1, 2), 0);
    d.draw(vec![Pixel::new(1, 2, 1), Pixel::new(63, 31, 1)]);
    assert_eq!(d.get_pixel(1, 2), 1);
    assert_eq!(d.get_pixel(63, 31), 1);
    assert_eq!(d.get_pixel(0, 0), 0);
    d.clear();
    assert_eq!(d.get_pixel(1, 2), 0);
    assert_eq!(d.get_pixel(63, 31), 0);
}

#[test]
fn display_draw_last_write_wins() {
    let mut d = Display::new();
    d.draw(vec![Pixel::new(5, 5, 1), Pixel::new(5, 5, 0)]);
    assert_eq!(d.get_pixel(5, 5), 0);
}

#[test]
fn draw_renders_sprite_and_reports_no_collision() {
    let mut cpu = fresh();
    load_sprite(&mut cpu, 0x300, &[0b10100000, 0b01000000]);
    cpu.set_vx(0, 10);
    cpu.set_vx(1, 5);
    execute(Instruction::Drw { x: 0, y: 1, n: 2 }, &mut cpu).unwrap();
    assert_eq!(cpu.get_vx(0xf), 0);
    let d = cpu.get_display();
    assert_eq!(d.get_pixel(10, 5), 1);
    assert_eq!(d.get_pixel(11, 5), 0);
    assert_eq!(d.get_pixel(12, 5), 1);
    assert_eq!(d.get_pixel(10, 6), 0);
    assert_eq!(d.get_pixel(11, 6), 1);
    assert_eq!(d.get_pixel(9, 5), 0);
}

#[test]
fn draw_twice_restores_screen_and_flags_collision() {
    let mut cpu = fresh();
    load_sprite(&mut cpu, 0x300, &[0xff, 0x81, 0xff]);
    cpu.set_vx(0, 20);
    cpu.set_vx(1, 12);
    execute(Instruction::Drw { x: 0, y: 1, n: 3 }, &mut cpu).unwrap();
    assert_eq!(cpu.get_vx(0xf), 0);
    assert_eq!(cpu.get_display().get_pixel(20, 12), 1);
    execute(Instruction::Drw { x: 0, y: 1, n: 3 }, &mut cpu).unwrap();
    assert_eq!(cpu.get_vx(0xf), 1, "every bit set by the first draw now clears a pixel");
    for y in 0..32 {
        for x in 0..64 {
            assert_eq!(cpu.get_display().get_pixel(x, y), 0);
        }
    }
}

#[test]
fn draw_twice_with_blank_sprite_sets_nothing() {
    let mut cpu = fresh();
    load_sprite(&mut cpu, 0x300, &[0x00, 0x00]);
    cpu.set_vx(0, 3);
    cpu.set_vx(1, 3);
    execute(Instruction::Drw { x: 0, y: 1, n: 2 }, &mut cpu).unwrap();
    assert_eq!(cpu.get_vx(0xf), 0);
    execute(Instruction::Drw { x: 0, y: 1, n: 2 }, &mut cpu).unwrap();
    assert_eq!(cpu.get_vx(0xf), 0, "nothing was set, so nothing is cleared");
}

#[test]
fn draw_wraps_around_both_edges() {
    let mut cpu = fresh();
    load_sprite(&mut cpu, 0x300, &[0xff]);
    cpu.set_vx(0, 63);
    cpu.set_vx(1, 31);
    execute(Instruction::Drw { x: 0, y: 1, n: 1 }, &mut cpu).unwrap();
    assert_eq!(cpu.get_vx(0xf), 0);
    let d = cpu.get_display();
    assert_eq!(d.get_pixel(63, 31), 1);
    for c in 0..7 {
        assert_eq!(d.get_pixel(c, 31), 1);
    }
    assert_eq!(d.get_pixel(7, 31), 0);
    assert_eq!(d.get_pixel(63, 0), 0);
}

#[test]
fn draw_wraps_rows_past_the_bottom() {
    let mut cpu = fresh();
    load_sprite(&mut cpu, 0x300, &[0x80, 0x80]);
    cpu.set_vx(0, 0);
    cpu.set_vx(1, 31);
    execute(Instruction::Drw { x: 0, y: 1, n: 2 }, &mut cpu).unwrap();
    let d = cpu.get_display();
    assert_eq!(d.get_pixel(0, 31), 1);
    assert_eq!(d.get_pixel(0, 0), 1, "second row wraps to the top edge");
}

#[test]
fn draw_collision_only_on_overlap() {
    let mut cpu = fresh();
    load_sprite(&mut cpu, 0x300, &[0b11000000]);
    cpu.set_vx(0, 0);
    cpu.set_vx(1, 0);
    execute(Instruction::Drw { x: 0, y: 1, n: 1 }, &mut cpu).unwrap();
    assert_eq!(cpu.get_vx(0xf), 0);
    load_sprite(&mut cpu, 0x310, &[0b01100000]);
    execute(Instruction::Drw { x: 0, y: 1, n: 1 }, &mut cpu).unwrap();
    assert_eq!(cpu.get_vx(0xf), 1);
    let d = cpu.get_display();
    assert_eq!(d.get_pixel(0, 0), 1);
    assert_eq!(d.get_pixel(1, 0), 0);
    assert_eq!(d.get_pixel(2, 0), 1);
}

#[test]
fn draw_with_zero_rows_changes_nothing() {
    let mut cpu = fresh();
    cpu.set_vx(0, 5);
    cpu.set_vx(1, 5);
    cpu.set_vx(0xf, 1);
    cpu.set_i(0x300);
    execute(Instruction::Drw { x: 0, y: 1, n: 0 }, &mut cpu).unwrap();
    assert_eq!(cpu.get_vx(0xf), 0);
    for y in 0..32 {
        for x in 0..64 {
            assert_eq!(cpu.get_display().get_pixel(x, y), 0);
        }
    }
}

#[test]
fn draw_sprite_read_past_memory_end_faults() {
    let mut cpu = fresh();
    cpu.set_i(4094);
    assert_eq!(
        execute(Instruction::Drw { x: 0, y: 1, n: 3 }, &mut cpu),
        Err(Fault::MemoryOutOfBounds { addr: 4094 })
    );
    assert_eq!(cpu.get_vx(0xf), 0);
}

#[test]
fn cls_blanks_the_screen() {
    let mut cpu = fresh();
    load_sprite(&mut cpu, 0x300, &[0xff]);
    cpu.set_vx(0, 1);
    cpu.set_vx(1, 1);
    execute(Instruction::Drw { x: 0, y: 1, n: 1 }, &mut cpu).unwrap();
    assert_eq!(cpu.get_display().get_pixel(1, 1), 1);
    execute(Instruction::Cls, &mut cpu).unwrap();
    for y in 0..32 {
        for x in 0..64 {
            assert_eq!(cpu.get_display().get_pixel(x, y), 0);
        }
    }
}
