use chip8::arch;
use chip8::cpu::{sync_delay, ControlEvent, Cpu};
use chip8::instr::{execute, Fault, Instruction};

fn fresh() -> Cpu {
    let rom: Vec<u8> = vec![];
    Cpu::new(&rom).expect("empty image loads")
}

#[test]
fn new_machine_layout() {
    let rom: Vec<u8> = vec![0xaa, 0xbb];
    let mut cpu = Cpu::new(&rom).expect("image loads");
    assert_eq!(cpu.get_pc(), 0x200);
    assert_eq!(cpu.get_i(), 0);
    assert_eq!(cpu.get_dt(), 0);
    assert_eq!(cpu.get_st(), 0);
    assert_eq!(cpu.get_sp(), 0);
    assert!(cpu.is_running());
    for r in 0..16 {
        assert_eq!(cpu.get_vx(r), 0);
    }
    assert_eq!(cpu.read_mem(0x200, 2), vec![0xaa, 0xbb]);
    assert_eq!(cpu.read_mem(0x202, 1), vec![0x00]);
    assert_eq!(cpu.read_mem(0x50, 5), vec![0xf0, 0x90, 0x90, 0x90, 0xf0]);
    assert_eq!(cpu.read_mem(0x9b, 5), vec![0xf0, 0x80, 0xf0, 0x80, 0x80]);
    assert_eq!(cpu.read_mem(0, 1), vec![0x00]);
}

#[test]
fn rom_too_large_is_rejected() {
    let rom: Vec<u8> = vec![0; 3585];
    match Cpu::new(&rom) {
        Err(Fault::RomTooLarge { len }) => assert_eq!(len, 3585),
        _ => panic!("oversize image must be rejected"),
    }
    let rom_max: Vec<u8> = vec![0x12; 3584];
    assert!(Cpu::new(&rom_max).is_ok());
}

#[test]
fn call_then_ret_restores_pc() {
    let mut cpu = fresh();
    cpu.set_pc(0x300);
    execute(Instruction::Call { addr: 0x400 }, &mut cpu).unwrap();
    assert_eq!(cpu.get_pc(), 0x400);
    assert_eq!(cpu.get_sp(), 1);
    execute(Instruction::Ret, &mut cpu).unwrap();
    assert_eq!(cpu.get_pc(), 0x300);
    assert_eq!(cpu.get_sp(), 0);
}

#[test]
fn stack_overflow_on_sixteenth_call() {
    let mut cpu = fresh();
    for _ in 0..15 {
        execute(Instruction::Call { addr: 0x400 }, &mut cpu).unwrap();
    }
    assert_eq!(cpu.get_sp(), 15);
    assert_eq!(
        execute(Instruction::Call { addr: 0x400 }, &mut cpu),
        Err(Fault::StackOverflow)
    );
    assert_eq!(cpu.get_sp(), 15);
}

#[test]
fn ret_on_empty_stack_underflows() {
    let mut cpu = fresh();
    assert_eq!(execute(Instruction::Ret, &mut cpu), Err(Fault::StackUnderflow));
}

#[test]
fn timer_floor_at_zero() {
    let mut cpu = fresh();
    cpu.set_dt(2);
    cpu.dec_dt();
    assert_eq!(cpu.get_dt(), 1);
    cpu.dec_dt();
    assert_eq!(cpu.get_dt(), 0);
    for _ in 0..10 {
        cpu.dec_dt();
        assert_eq!(cpu.get_dt(), 0);
    }
}

#[test]
fn timer_load_and_read() {
    let mut cpu = fresh();
    cpu.set_vx(1, 77);
    execute(Instruction::LdDt { x: 1 }, &mut cpu).unwrap();
    assert_eq!(cpu.get_dt(), 77);
    execute(Instruction::LdVxDt { x: 2 }, &mut cpu).unwrap();
    assert_eq!(cpu.get_vx(2), 77);
    execute(Instruction::LdSt { x: 1 }, &mut cpu).unwrap();
    assert_eq!(cpu.get_st(), 77);
}

#[test]
fn bcd_of_157() {
    let mut cpu = fresh();
    cpu.set_vx(0, 157);
    cpu.set_i(0x300);
    execute(Instruction::LdBcd { x: 0 }, &mut cpu).unwrap();
    assert_eq!(cpu.read_mem(0x300, 3), vec![1, 5, 7]);
}

#[test]
fn bcd_near_end_of_memory_faults() {
    let mut cpu = fresh();
    cpu.set_vx(0, 9);
    cpu.set_i(4094);
    assert_eq!(
        execute(Instruction::LdBcd { x: 0 }, &mut cpu),
        Err(Fault::MemoryOutOfBounds { addr: 4094 })
    );
    cpu.set_i(4093);
    assert!(execute(Instruction::LdBcd { x: 0 }, &mut cpu).is_ok());
    assert_eq!(cpu.read_mem(4093, 3), vec![0, 0, 9]);
}

#[test]
fn save_and_restore_registers_inclusive() {
    let mut cpu = fresh();
    for r in 0..4 {
        cpu.set_vx(r, 10 + r as u8);
    }
    cpu.set_i(0x320);
    execute(Instruction::SaveRegs { x: 3 }, &mut cpu).unwrap();
    assert_eq!(cpu.read_mem(0x320, 5), vec![10, 11, 12, 13, 0]);
    for r in 0..4 {
        cpu.set_vx(r, 0);
    }
    execute(Instruction::RestoreRegs { x: 3 }, &mut cpu).unwrap();
    for r in 0..4 {
        assert_eq!(cpu.get_vx(r), 10 + r as u8);
    }
    assert_eq!(cpu.get_vx(4), 0);
}

#[test]
fn save_registers_out_of_bounds_faults() {
    let mut cpu = fresh();
    cpu.set_i(4093);
    assert_eq!(
        execute(Instruction::SaveRegs { x: 3 }, &mut cpu),
        Err(Fault::MemoryOutOfBounds { addr: 4093 })
    );
    assert_eq!(
        execute(Instruction::RestoreRegs { x: 3 }, &mut cpu),
        Err(Fault::MemoryOutOfBounds { addr: 4093 })
    );
}

#[test]
fn skips_on_keys() {
    let mut cpu = fresh();
    cpu.apply_event(ControlEvent::Key { index: 5, down: true });
    cpu.set_vx(0, 5);
    let pc = cpu.get_pc();
    execute(Instruction::Skp { x: 0 }, &mut cpu).unwrap();
    assert_eq!(cpu.get_pc(), pc + 2);
    execute(Instruction::Sknp { x: 0 }, &mut cpu).unwrap();
    assert_eq!(cpu.get_pc(), pc + 2);
    cpu.apply_event(ControlEvent::Key { index: 5, down: false });
    execute(Instruction::Skp { x: 0 }, &mut cpu).unwrap();
    assert_eq!(cpu.get_pc(), pc + 2);
    execute(Instruction::Sknp { x: 0 }, &mut cpu).unwrap();
    assert_eq!(cpu.get_pc(), pc + 4);
}

#[test]
fn key_value_out_of_range_faults() {
    let mut cpu = fresh();
    cpu.set_vx(0, 99);
    assert_eq!(
        execute(Instruction::Skp { x: 0 }, &mut cpu),
        Err(Fault::KeyOutOfRange { key: 99 })
    );
}

#[test]
fn wait_for_key_rolls_pc_back() {
    let mut cpu = fresh();
    let pc = cpu.get_pc();
    execute(Instruction::LdVxK { x: 0 }, &mut cpu).unwrap();
    assert_eq!(cpu.get_pc(), pc - 2);
    cpu.set_pc(pc);
    cpu.apply_event(ControlEvent::Key { index: 7, down: true });
    cpu.apply_event(ControlEvent::Key { index: 3, down: true });
    execute(Instruction::LdVxK { x: 0 }, &mut cpu).unwrap();
    assert_eq!(cpu.get_pc(), pc);
    assert_eq!(cpu.get_vx(0), 3);
}

#[test]
fn out_of_range_key_event_is_ignored() {
    let mut cpu = fresh();
    cpu.apply_event(ControlEvent::Key { index: 99, down: true });
    for k in 0..16 {
        assert!(!cpu.get_keyboard().pressed(k));
    }
}

#[test]
fn random_byte_is_masked() {
    let mut cpu = fresh();
    cpu.set_vx(0, 0xff);
    execute(Instruction::Rnd { x: 0, byte: 0 }, &mut cpu).unwrap();
    assert_eq!(cpu.get_vx(0), 0);
    for _ in 0..32 {
        execute(Instruction::Rnd { x: 0, byte: 0x0f }, &mut cpu).unwrap();
        assert_eq!(cpu.get_vx(0) & 0xf0, 0);
    }
}

#[test]
fn add_i_wraps_at_sixteen_bits() {
    let mut cpu = fresh();
    cpu.set_i(0xffff);
    cpu.set_vx(0, 5);
    execute(Instruction::AddI { x: 0 }, &mut cpu).unwrap();
    assert_eq!(cpu.get_i(), 4);
    cpu.set_i(0x300);
    execute(Instruction::AddI { x: 0 }, &mut cpu).unwrap();
    assert_eq!(cpu.get_i(), 0x305);
}

#[test]
fn font_addresses() {
    let mut cpu = fresh();
    cpu.set_vx(0, 0);
    execute(Instruction::LdFont { x: 0 }, &mut cpu).unwrap();
    assert_eq!(cpu.get_i(), arch::FONT_BASE as u16);
    cpu.set_vx(0, 0xf);
    execute(Instruction::LdFont { x: 0 }, &mut cpu).unwrap();
    assert_eq!(cpu.get_i(), arch::FONT_BASE as u16 + 75);
}

#[test]
fn register_loads_and_jumps() {
    let mut cpu = fresh();
    execute(Instruction::LdByte { x: 2, byte: 0x42 }, &mut cpu).unwrap();
    assert_eq!(cpu.get_vx(2), 0x42);
    execute(Instruction::LdReg { x: 3, y: 2 }, &mut cpu).unwrap();
    assert_eq!(cpu.get_vx(3), 0x42);
    execute(Instruction::Jp { addr: 0x456 }, &mut cpu).unwrap();
    assert_eq!(cpu.get_pc(), 0x456);
    execute(Instruction::LdI { addr: 0x234 }, &mut cpu).unwrap();
    assert_eq!(cpu.get_i(), 0x234);
}

#[test]
fn conditional_skips_on_bytes() {
    let mut cpu = fresh();
    cpu.set_vx(0, 7);
    let pc = cpu.get_pc();
    execute(Instruction::SeByte { x: 0, byte: 7 }, &mut cpu).unwrap();
    assert_eq!(cpu.get_pc(), pc + 2);
    execute(Instruction::SeByte { x: 0, byte: 8 }, &mut cpu).unwrap();
    assert_eq!(cpu.get_pc(), pc + 2);
    execute(Instruction::SneByte { x: 0, byte: 8 }, &mut cpu).unwrap();
    assert_eq!(cpu.get_pc(), pc + 4);
    cpu.set_vx(1, 7);
    execute(Instruction::SeReg { x: 0, y: 1 }, &mut cpu).unwrap();
    assert_eq!(cpu.get_pc(), pc + 6);
    execute(Instruction::SneReg { x: 0, y: 1 }, &mut cpu).unwrap();
    assert_eq!(cpu.get_pc(), pc + 6);
}

#[test]
fn control_events() {
    let mut cpu = fresh();
    assert!(cpu.is_running());
    cpu.apply_event(ControlEvent::Quit);
    assert!(!cpu.is_running());
    let mut cpu2 = fresh();
    cpu2.apply_event(ControlEvent::ToggleStep);
    let rom: Vec<u8> = vec![0x60, 0x01, 0x60, 0x02];
    let mut cpu3 = Cpu::new(&rom).expect("image loads");
    cpu3.tick().unwrap();
    assert_eq!(cpu3.get_vx(0), 1);
    cpu3.tick().unwrap();
    assert_eq!(cpu3.get_vx(0), 1, "single-step mode pauses after one tick");
    cpu3.apply_event(ControlEvent::Resume);
    cpu3.tick().unwrap();
    assert_eq!(cpu3.get_vx(0), 2);
}

#[test]
fn tick_faults_on_unknown_instruction() {
    let rom: Vec<u8> = vec![0xff, 0xff];
    let mut cpu = Cpu::new(&rom).expect("image loads");
    assert_eq!(
        cpu.tick(),
        Err(Fault::UnknownInstruction { raw: 0xffff, pc: 0x200 })
    );
    assert_eq!(cpu.get_pc(), 0x202);
}

#[test]
fn tick_faults_on_pc_out_of_bounds() {
    let mut cpu = fresh();
    cpu.set_pc(4095);
    assert_eq!(cpu.tick(), Err(Fault::PcOutOfBounds { pc: 4095 }));
}

#[test]
fn tick_decrements_delay_timer() {
    let rom: Vec<u8> = vec![0x60, 0x01, 0x60, 0x02];
    let mut cpu = Cpu::new(&rom).expect("image loads");
    cpu.set_dt(5);
    cpu.tick().unwrap();
    assert_eq!(cpu.get_dt(), 4);
}

#[test]
fn tick_reads_instructions_from_memory_writes() {
    // Self-modifying programs must see their own writes: store 0x61 0x07
    // ("LD V1,7") over the next instruction slot, then execute it.
    let rom: Vec<u8> = vec![
        0x60, 0x61, // LD V0,0x61
        0x62, 0x07, // LD V2,0x07
        0xa2, 0x08, // LD I,0x208
        0xf0, 0x33, // LD B,V0 (placeholder; overwritten below before fetch)
        0x00, 0x00, // slot that the program overwrites
    ];
    let mut cpu = Cpu::new(&rom).expect("image loads");
    cpu.apply_event(ControlEvent::ToggleStep);
    cpu.tick().unwrap();
    cpu.tick().unwrap();
    cpu.tick().unwrap();
    // Overwrite both the placeholder at 0x206 and the slot at 0x208.
    cpu.put_mem(0x206, 0x12); // JP 0x208
    cpu.put_mem(0x207, 0x08);
    cpu.put_mem(0x208, 0x61);
    cpu.put_mem(0x209, 0x07);
    cpu.tick().unwrap(); // JP 0x208
    assert_eq!(cpu.get_pc(), 0x208);
    cpu.tick().unwrap(); // LD V1,7 read from rewritten memory
    assert_eq!(cpu.get_vx(1), 7);
}

#[test]
fn sync_delay_holds_the_frame_budget() {
    assert_eq!(sync_delay(0), 16);
    assert_eq!(sync_delay(10), 6);
    assert_eq!(sync_delay(16), 0);
    assert_eq!(sync_delay(1000), 0);
}
