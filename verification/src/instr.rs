//! Instruction decoding and execution: the closed set of opcodes, the decoder
//! from a raw 16-bit word, the mathematical transition each opcode makes, and
//! the executor that realizes it.

use vstd::prelude::*;
use vstd::arithmetic::div_mod::lemma_mod_multiples_vanish;
use vstd::arithmetic::div_mod::lemma_small_mod;

use crate::arch;
use crate::cpu::Cpu;
use crate::cpu::CpuV;
use crate::cpu::cpu_wf;
use crate::cpu::drawn_cpu;
use crate::cpu::restored_regs;
use crate::cpu::saved_regs_mem;
use crate::keyboard::first_pressed;

verus! {

/// One decoded instruction. Register operands are 4-bit indices, `addr` is a
/// 12-bit address, `byte` an immediate byte and `n` a 4-bit sprite height.
#[derive(Clone, Copy, Debug, PartialEq, Eq, Structural)]
pub enum Instruction {
    /// `00E0`: clear the display.
    Cls,
    /// `00EE`: return from a subroutine.
    Ret,
    /// `1nnn`: jump to `addr`.
    Jp { addr: u16 },
    /// `2nnn`: call the subroutine at `addr`.
    Call { addr: u16 },
    /// `3xkk`: skip the next instruction if `Vx == byte`.
    SeByte { x: u8, byte: u8 },
    /// `4xkk`: skip the next instruction if `Vx != byte`.
    SneByte { x: u8, byte: u8 },
    /// `5xy0`: skip the next instruction if `Vx == Vy`.
    SeReg { x: u8, y: u8 },
    /// `6xkk`: set `Vx = byte`.
    LdByte { x: u8, byte: u8 },
    /// `7xkk`: set `Vx = Vx + byte` (wrapping, no flag).
    AddByte { x: u8, byte: u8 },
    /// `8xy0`: set `Vx = Vy`.
    LdReg { x: u8, y: u8 },
    /// `8xy1`: set `Vx = Vx | Vy`.
    Or { x: u8, y: u8 },
    /// `8xy2`: set `Vx = Vx & Vy`.
    And { x: u8, y: u8 },
    /// `8xy3`: set `Vx = Vx ^ Vy`.
    Xor { x: u8, y: u8 },
    /// `8xy4`: set `Vx = Vx + Vy` truncated to 8 bits, `VF` = carry.
    AddReg { x: u8, y: u8 },
    /// `8xy5`: set `Vx = Vx - Vy` wrapped, `VF` = not borrow.
    Sub { x: u8, y: u8 },
    /// `8xy6`: shift `Vx` right by one, `VF` = the bit shifted out.
    Shr { x: u8 },
    /// `8xy7`: set `Vx = Vy - Vx` wrapped, `VF` = not borrow.
    Subn { x: u8, y: u8 },
    /// `8xyE`: shift `Vx` left by one, `VF` = the bit shifted out.
    Shl { x: u8 },
    /// `9xy0`: skip the next instruction if `Vx != Vy`.
    SneReg { x: u8, y: u8 },
    /// `Annn`: set `I = addr`.
    LdI { addr: u16 },
    /// `Bnnn`: jump to `addr + V0`.
    JpV0 { addr: u16 },
    /// `Cxkk`: set `Vx` to a random byte ANDed with `byte`.
    Rnd { x: u8, byte: u8 },
    /// `Dxyn`: XOR-blit the `n`-row sprite at `I` to `(Vx, Vy)`, `VF` = collision.
    Drw { x: u8, y: u8, n: u8 },
    /// `Ex9E`: skip the next instruction if key `Vx` is pressed.
    Skp { x: u8 },
    /// `ExA1`: skip the next instruction if key `Vx` is not pressed.
    Sknp { x: u8 },
    /// `Fx07`: set `Vx` to the delay timer.
    LdVxDt { x: u8 },
    /// `Fx0A`: wait for a key press and store its index in `Vx`.
    LdVxK { x: u8 },
    /// `Fx15`: set the delay timer to `Vx`.
    LdDt { x: u8 },
    /// `Fx18`: set the sound timer to `Vx`.
    LdSt { x: u8 },
    /// `Fx1E`: set `I = I + Vx` (wrapping at 16 bits, no flag).
    AddI { x: u8 },
    /// `Fx29`: set `I` to the font glyph address for digit `Vx`.
    LdFont { x: u8 },
    /// `Fx33`: store the decimal digits of `Vx` at `I`, `I+1`, `I+2`.
    LdBcd { x: u8 },
    /// `Fx55`: store `V0..=Vx` into memory starting at `I`.
    SaveRegs { x: u8 },
    /// `Fx65`: load `V0..=Vx` from memory starting at `I`.
    RestoreRegs { x: u8 },
}

/// A fatal machine fault. The machine is a closed deterministic interpreter:
/// every fault halts it; none is recovered from.
#[derive(Clone, Copy, Debug, PartialEq, Eq, Structural)]
pub enum Fault {
    /// A fetched word matches no documented opcode pattern.
    UnknownInstruction { raw: u16, pc: u16 },
    /// A seventeenth nested call.
    StackOverflow,
    /// A return with an empty call stack.
    StackUnderflow,
    /// A memory access reaching past the last valid address; `addr` is the
    /// base address of the access.
    MemoryOutOfBounds { addr: u16 },
    /// A fetch from a program counter too close to the end of memory.
    PcOutOfBounds { pc: u16 },
    /// A key test with a register value outside the virtual keypad.
    KeyOutOfRange { key: u8 },
    /// A program image larger than the memory region reserved for it.
    RomTooLarge { len: usize },
}

/// The register index in bits 8-11 of a raw word.
pub open spec fn field_x(raw: u16) -> u8 {
    ((raw >> 8) & 0xf) as u8
}

/// The register index in bits 4-7 of a raw word.
pub open spec fn field_y(raw: u16) -> u8 {
    ((raw >> 4) & 0xf) as u8
}

/// The immediate byte in bits 0-7 of a raw word.
pub open spec fn field_byte(raw: u16) -> u8 {
    (raw & 0xff) as u8
}

/// The 12-bit address in bits 0-11 of a raw word.
pub open spec fn field_addr(raw: u16) -> u16 {
    raw & 0xfff
}

/// The nibble in bits 0-3 of a raw word.
pub open spec fn field_n(raw: u16) -> u8 {
    (raw & 0xf) as u8
}

/// The meaning of a raw word: the decoded instruction, or `None` for any bit
/// pattern outside the documented opcode table.
pub open spec fn parse_spec(raw: u16) -> Option<Instruction> {
    let x = field_x(raw);
    let y = field_y(raw);
    let byte = field_byte(raw);
    let addr = field_addr(raw);
    let n = field_n(raw);
    match raw >> 12 {
        0x0 => if raw == 0x00e0 {
            Some(Instruction::Cls)
        } else if raw == 0x00ee {
            Some(Instruction::Ret)
        } else {
            None
        },
        0x1 => Some(Instruction::Jp { addr }),
        0x2 => Some(Instruction::Call { addr }),
        0x3 => Some(Instruction::SeByte { x, byte }),
        0x4 => Some(Instruction::SneByte { x, byte }),
        0x5 => if n == 0 {
            Some(Instruction::SeReg { x, y })
        } else {
            None
        },
        0x6 => Some(Instruction::LdByte { x, byte }),
        0x7 => Some(Instruction::AddByte { x, byte }),
        0x8 => match n {
            0x0 => Some(Instruction::LdReg { x, y }),
            0x1 => Some(Instruction::Or { x, y }),
            0x2 => Some(Instruction::And { x, y }),
            0x3 => Some(Instruction::Xor { x, y }),
            0x4 => Some(Instruction::AddReg { x, y }),
            0x5 => Some(Instruction::Sub { x, y }),
            0x6 => Some(Instruction::Shr { x }),
            0x7 => Some(Instruction::Subn { x, y }),
            0xe => Some(Instruction::Shl { x }),
            _ => None,
        },
        0x9 => if n == 0 {
            Some(Instruction::SneReg { x, y })
        } else {
            None
        },
        0xa => Some(Instruction::LdI { addr }),
        0xb => Some(Instruction::JpV0 { addr }),
        0xc => Some(Instruction::Rnd { x, byte }),
        0xd => Some(Instruction::Drw { x, y, n }),
        0xe => if byte == 0x9e {
            Some(Instruction::Skp { x })
        } else if byte == 0xa1 {
            Some(Instruction::Sknp { x })
        } else {
            None
        },
        0xf => match byte {
            0x07 => Some(Instruction::LdVxDt { x }),
            0x0a => Some(Instruction::LdVxK { x }),
            0x15 => Some(Instruction::LdDt { x }),
            0x18 => Some(Instruction::LdSt { x }),
            0x1e => Some(Instruction::AddI { x }),
            0x29 => Some(Instruction::LdFont { x }),
            0x33 => Some(Instruction::LdBcd { x }),
            0x55 => Some(Instruction::SaveRegs { x }),
            0x65 => Some(Instruction::RestoreRegs { x }),
            _ => None,
        },
        _ => None,
    }
}

/// Operand fields of a decoded instruction stay in their bit widths.
pub open spec fn instruction_wf(inst: Instruction) -> bool {
    match inst {
        Instruction::Jp { addr } => addr <= 0xfff,
        Instruction::Call { addr } => addr <= 0xfff,
        Instruction::SeByte { x, byte } => x <= 0xf,
        Instruction::SneByte { x, byte } => x <= 0xf,
        Instruction::SeReg { x, y } => x <= 0xf && y <= 0xf,
        Instruction::LdByte { x, byte } => x <= 0xf,
        Instruction::AddByte { x, byte } => x <= 0xf,
        Instruction::LdReg { x, y } => x <= 0xf && y <= 0xf,
        Instruction::Or { x, y } => x <= 0xf && y <= 0xf,
        Instruction::And { x, y } => x <= 0xf && y <= 0xf,
        Instruction::Xor { x, y } => x <= 0xf && y <= 0xf,
        Instruction::AddReg { x, y } => x <= 0xf && y <= 0xf,
        Instruction::Sub { x, y } => x <= 0xf && y <= 0xf,
        Instruction::Shr { x } => x <= 0xf,
        Instruction::Subn { x, y } => x <= 0xf && y <= 0xf,
        Instruction::Shl { x } => x <= 0xf,
        Instruction::SneReg { x, y } => x <= 0xf && y <= 0xf,
        Instruction::LdI { addr } => addr <= 0xfff,
        Instruction::JpV0 { addr } => addr <= 0xfff,
        Instruction::Rnd { x, byte } => x <= 0xf,
        Instruction::Drw { x, y, n } => x <= 0xf && y <= 0xf && n <= 0xf,
        Instruction::Skp { x } => x <= 0xf,
        Instruction::Sknp { x } => x <= 0xf,
        Instruction::LdVxDt { x } => x <= 0xf,
        Instruction::LdVxK { x } => x <= 0xf,
        Instruction::LdDt { x } => x <= 0xf,
        Instruction::LdSt { x } => x <= 0xf,
        Instruction::AddI { x } => x <= 0xf,
        Instruction::LdFont { x } => x <= 0xf,
        Instruction::LdBcd { x } => x <= 0xf,
        Instruction::SaveRegs { x } => x <= 0xf,
        Instruction::RestoreRegs { x } => x <= 0xf,
        _ => true,
    }
}

/// Operand fields extracted from a word stay in their bit widths, so every
/// decodable word yields a well-formed instruction.
pub proof fn lemma_parse_wf(raw: u16)
    ensures
        (raw >> 8) & 0xf <= 0xf,
        (raw >> 4) & 0xf <= 0xf,
        raw & 0xfff <= 0xfff,
        raw & 0xf <= 0xf,
        field_x(raw) == (raw >> 8) & 0xf,
        field_y(raw) == (raw >> 4) & 0xf,
        field_n(raw) == raw & 0xf,
        field_byte(raw) == raw & 0xff,
        parse_spec(raw) matches Some(inst) ==> instruction_wf(inst),
{
    assert((raw >> 8) & 0xf <= 0xf) by (bit_vector);
    assert((raw >> 4) & 0xf <= 0xf) by (bit_vector);
    assert(raw & 0xfff <= 0xfff) by (bit_vector);
    assert(raw & 0xf <= 0xf) by (bit_vector);
    assert(raw & 0xff <= 0xff) by (bit_vector);
}

/// Decode a raw word, or report that it matches no documented pattern.
pub fn parse(raw: u16) -> (r: Option<Instruction>)
    ensures
        r == parse_spec(raw),
        r matches Some(inst) ==> instruction_wf(inst),
{
    proof {
        lemma_parse_wf(raw);
    }
    let x = ((raw >> 8) & 0xf) as u8;
    let y = ((raw >> 4) & 0xf) as u8;
    let byte = (raw & 0xff) as u8;
    let addr = raw & 0xfff;
    let n = (raw & 0xf) as u8;
    match raw >> 12 {
        0x0 => if raw == 0x00e0 {
            Some(Instruction::Cls)
        } else if raw == 0x00ee {
            Some(Instruction::Ret)
        } else {
            None
        },
        0x1 => Some(Instruction::Jp { addr }),
        0x2 => Some(Instruction::Call { addr }),
        0x3 => Some(Instruction::SeByte { x, byte }),
        0x4 => Some(Instruction::SneByte { x, byte }),
        0x5 => if n == 0 {
            Some(Instruction::SeReg { x, y })
        } else {
            None
        },
        0x6 => Some(Instruction::LdByte { x, byte }),
        0x7 => Some(Instruction::AddByte { x, byte }),
        0x8 => match n {
            0x0 => Some(Instruction::LdReg { x, y }),
            0x1 => Some(Instruction::Or { x, y }),
            0x2 => Some(Instruction::And { x, y }),
            0x3 => Some(Instruction::Xor { x, y }),
            0x4 => Some(Instruction::AddReg { x, y }),
            0x5 => Some(Instruction::Sub { x, y }),
            0x6 => Some(Instruction::Shr { x }),
            0x7 => Some(Instruction::Subn { x, y }),
            0xe => Some(Instruction::Shl { x }),
            _ => None,
        },
        0x9 => if n == 0 {
            Some(Instruction::SneReg { x, y })
        } else {
            None
        },
        0xa => Some(Instruction::LdI { addr }),
        0xb => Some(Instruction::JpV0 { addr }),
        0xc => Some(Instruction::Rnd { x, byte }),
        0xd => Some(Instruction::Drw { x, y, n }),
        0xe => if byte == 0x9e {
            Some(Instruction::Skp { x })
        } else if byte == 0xa1 {
            Some(Instruction::Sknp { x })
        } else {
            None
        },
        0xf => match byte {
            0x07 => Some(Instruction::LdVxDt { x }),
            0x0a => Some(Instruction::LdVxK { x }),
            0x15 => Some(Instruction::LdDt { x }),
            0x18 => Some(Instruction::LdSt { x }),
            0x1e => Some(Instruction::AddI { x }),
            0x29 => Some(Instruction::LdFont { x }),
            0x33 => Some(Instruction::LdBcd { x }),
            0x55 => Some(Instruction::SaveRegs { x }),
            0x65 => Some(Instruction::RestoreRegs { x }),
            _ => None,
        },
        _ => None,
    }
}

/// The state with the program counter moved past one more instruction.
pub open spec fn skip_if(s: CpuV, cond: bool) -> CpuV {
    if cond {
        CpuV { pc: (s.pc + 2) as u16, ..s }
    } else {
        s
    }
}

/// The state with register `Vx` set to `v`.
pub open spec fn with_vx(s: CpuV, x: u8, v: u8) -> CpuV {
    CpuV { vx: s.vx.update(x as int, v), ..s }
}

/// The state with register `Vx` set to `v` and then `VF` set to `flag`; when
/// `x` is `VF` itself the flag wins.
pub open spec fn with_vx_flag(s: CpuV, x: u8, v: u8, flag: u8) -> CpuV {
    CpuV { vx: s.vx.update(x as int, v).update(15, flag), ..s }
}

/// Addition modulo 256.
pub open spec fn wrap_add(a: u8, b: u8) -> u8 {
    ((a + b) % 256) as u8
}

/// Subtraction modulo 256.
pub open spec fn wrap_sub(a: u8, b: u8) -> u8 {
    ((a - b) % 256) as u8
}

/// 1 exactly when the unsigned sum of `a` and `b` exceeds one byte.
pub open spec fn carry_flag(a: u8, b: u8) -> u8 {
    if a + b > 255 {
        1u8
    } else {
        0u8
    }
}

/// 1 exactly when `a > b`, i.e. when `a - b` does not borrow.
pub open spec fn no_borrow_flag(a: u8, b: u8) -> u8 {
    if a > b {
        1u8
    } else {
        0u8
    }
}

/// A left shift by one, truncated to 8 bits.
pub open spec fn shl_result(a: u8) -> u8 {
    ((2 * a) % 256) as u8
}

/// The transition one decoded instruction makes from machine state `s`, or
/// the fault it raises. `rnd` is the byte the random-number instruction
/// consumes; every other instruction ignores it.
pub open spec fn step(s: CpuV, inst: Instruction, rnd: u8) -> Result<CpuV, Fault> {
    match inst {
        Instruction::Cls => Ok(CpuV { grid: crate::display::blank_grid(), ..s }),
        Instruction::Ret => if s.sp == 0 {
            Err(Fault::StackUnderflow)
        } else {
            Ok(CpuV { pc: s.stack[s.sp as int], sp: (s.sp - 1) as u8, ..s })
        },
        Instruction::Jp { addr } => Ok(CpuV { pc: addr, ..s }),
        Instruction::Call { addr } => if s.sp + 1 >= arch::STACK_SIZE {
            Err(Fault::StackOverflow)
        } else {
            Ok(
                CpuV {
                    sp: (s.sp + 1) as u8,
                    stack: s.stack.update(s.sp as int + 1, s.pc),
                    pc: addr,
                    ..s
                },
            )
        },
        Instruction::SeByte { x, byte } => Ok(skip_if(s, s.vx[x as int] == byte)),
        Instruction::SneByte { x, byte } => Ok(skip_if(s, s.vx[x as int] != byte)),
        Instruction::SeReg { x, y } => Ok(skip_if(s, s.vx[x as int] == s.vx[y as int])),
        Instruction::LdByte { x, byte } => Ok(with_vx(s, x, byte)),
        Instruction::AddByte { x, byte } => Ok(with_vx(s, x, wrap_add(s.vx[x as int], byte))),
        Instruction::LdReg { x, y } => Ok(with_vx(s, x, s.vx[y as int])),
        Instruction::Or { x, y } => Ok(with_vx(s, x, s.vx[x as int] | s.vx[y as int])),
        Instruction::And { x, y } => Ok(with_vx(s, x, s.vx[x as int] & s.vx[y as int])),
        Instruction::Xor { x, y } => Ok(with_vx(s, x, s.vx[x as int] ^ s.vx[y as int])),
        Instruction::AddReg { x, y } => {
            let a = s.vx[x as int];
            let b = s.vx[y as int];
            Ok(with_vx_flag(s, x, wrap_add(a, b), carry_flag(a, b)))
        },
        Instruction::Sub { x, y } => {
            let a = s.vx[x as int];
            let b = s.vx[y as int];
            Ok(with_vx_flag(s, x, wrap_sub(a, b), no_borrow_flag(a, b)))
        },
        Instruction::Shr { x } => {
            let a = s.vx[x as int];
            Ok(with_vx_flag(s, x, a >> 1u8, a & 1u8))
        },
        Instruction::Subn { x, y } => {
            let a = s.vx[x as int];
            let b = s.vx[y as int];
            Ok(with_vx_flag(s, x, wrap_sub(b, a), no_borrow_flag(b, a)))
        },
        Instruction::Shl { x } => {
            let a = s.vx[x as int];
            Ok(with_vx_flag(s, x, shl_result(a), a >> 7u8))
        },
        Instruction::SneReg { x, y } => Ok(skip_if(s, s.vx[x as int] != s.vx[y as int])),
        Instruction::LdI { addr } => Ok(CpuV { i: addr, ..s }),
        Instruction::JpV0 { addr } => Ok(CpuV { pc: (addr + s.vx[0]) as u16, ..s }),
        Instruction::Rnd { x, byte } => Ok(with_vx(s, x, rnd & byte)),
        Instruction::Drw { x, y, n } => if s.i + n > arch::MEM_SIZE {
            Err(Fault::MemoryOutOfBounds { addr: s.i })
        } else {
            Ok(drawn_cpu(s, x, y, n))
        },
        Instruction::Skp { x } => if s.vx[x as int] >= arch::NUM_KEYS {
            Err(Fault::KeyOutOfRange { key: s.vx[x as int] })
        } else {
            Ok(skip_if(s, s.keys[s.vx[x as int] as int]))
        },
        Instruction::Sknp { x } => if s.vx[x as int] >= arch::NUM_KEYS {
            Err(Fault::KeyOutOfRange { key: s.vx[x as int] })
        } else {
            Ok(skip_if(s, !s.keys[s.vx[x as int] as int]))
        },
        Instruction::LdVxDt { x } => Ok(with_vx(s, x, s.dt)),
        Instruction::LdVxK { x } => match first_pressed(s.keys) {
            Some(k) => Ok(with_vx(s, x, k)),
            None => Ok(CpuV { pc: (s.pc - 2) as u16, ..s }),
        },
        Instruction::LdDt { x } => Ok(CpuV { dt: s.vx[x as int], ..s }),
        Instruction::LdSt { x } => Ok(CpuV { st: s.vx[x as int], ..s }),
        Instruction::AddI { x } => Ok(
            CpuV { i: ((s.i + s.vx[x as int]) % 0x10000) as u16, ..s },
        ),
        Instruction::LdFont { x } => Ok(
            CpuV { i: (arch::FONT_BASE + 5 * s.vx[x as int]) as u16, ..s },
        ),
        Instruction::LdBcd { x } => if s.i + 2 >= arch::MEM_SIZE {
            Err(Fault::MemoryOutOfBounds { addr: s.i })
        } else {
            let v = s.vx[x as int];
            Ok(
                CpuV {
                    mem: s.mem.update(s.i as int, (v / 100) as u8).update(
                        s.i as int + 1,
                        ((v / 10) % 10) as u8,
                    ).update(s.i as int + 2, (v % 10) as u8),
                    ..s
                },
            )
        },
        Instruction::SaveRegs { x } => if s.i + x >= arch::MEM_SIZE {
            Err(Fault::MemoryOutOfBounds { addr: s.i })
        } else {
            Ok(CpuV { mem: saved_regs_mem(s, x), ..s })
        },
        Instruction::RestoreRegs { x } => if s.i + x >= arch::MEM_SIZE {
            Err(Fault::MemoryOutOfBounds { addr: s.i })
        } else {
            Ok(CpuV { vx: restored_regs(s, x), ..s })
        },
    }
}

/// How one executor call relates its result and final state to `step`: a
/// faulting instruction reports its fault and leaves the machine unchanged,
/// any other instruction performs its transition.
pub open spec fn step_outcome(
    pre: CpuV,
    inst: Instruction,
    rnd: u8,
    r: Result<(), Fault>,
    post: CpuV,
) -> bool {
    match step(pre, inst, rnd) {
        Ok(s) => r is Ok && post == s,
        Err(f) => r == Err::<(), Fault>(f) && post == pre,
    }
}

/// Subtraction modulo 256, case by case.
proof fn lemma_wrap_sub_cases(a: u8, b: u8)
    ensures
        a >= b ==> wrap_sub(a, b) == a - b,
        a < b ==> wrap_sub(a, b) == a - b + 256,
{
    lemma_mod_multiples_vanish(1, a - b, 256);
    if a >= b {
        lemma_small_mod((a - b) as nat, 256);
    } else {
        lemma_small_mod((a - b + 256) as nat, 256);
    }
}

/// Execute one decoded instruction against the machine, consuming `rnd` as
/// the random byte if the instruction asks for one.
#[verifier::rlimit(50)]
pub fn execute_with(inst: Instruction, cpu: &mut Cpu, rnd: u8) -> (r: Result<(), Fault>)
    requires
        old(cpu).wf(),
        instruction_wf(inst),
        old(cpu)@.pc + 2 <= u16::MAX,
        inst matches Instruction::LdVxK { .. } ==> old(cpu)@.pc >= 2,
    ensures
        final(cpu).wf(),
        step_outcome(old(cpu)@, inst, rnd, r, final(cpu)@),
{
    match inst {
        Instruction::Cls => {
            cpu.clear_display();
            Ok(())
        },
        Instruction::Ret => {
            if cpu.get_sp() == 0 {
                return Err(Fault::StackUnderflow);
            }
            let addr = cpu.pop_stack();
            cpu.set_pc(addr);
            Ok(())
        },
        Instruction::Jp { addr } => {
            cpu.set_pc(addr);
            Ok(())
        },
        Instruction::Call { addr } => {
            if cpu.get_sp() as usize + 1 >= arch::STACK_SIZE {
                return Err(Fault::StackOverflow);
            }
            let cur_pc = cpu.get_pc();
            cpu.push_stack(cur_pc);
            cpu.set_pc(addr);
            Ok(())
        },
        Instruction::SeByte { x, byte } => {
            if cpu.get_vx(x as usize) == byte {
                cpu.inc_pc();
            }
            Ok(())
        },
        Instruction::SneByte { x, byte } => {
            if cpu.get_vx(x as usize) != byte {
                cpu.inc_pc();
            }
            Ok(())
        },
        Instruction::SeReg { x, y } => {
            if cpu.get_vx(x as usize) == cpu.get_vx(y as usize) {
                cpu.inc_pc();
            }
            Ok(())
        },
        Instruction::LdByte { x, byte } => {
            cpu.set_vx(x as usize, byte);
            Ok(())
        },
        Instruction::AddByte { x, byte } => {
            let a = cpu.get_vx(x as usize);
            let sum = a as u16 + byte as u16;
            cpu.set_vx(x as usize, (sum % 256) as u8);
            Ok(())
        },
        Instruction::LdReg { x, y } => {
            let v = cpu.get_vx(y as usize);
            cpu.set_vx(x as usize, v);
            Ok(())
        },
        Instruction::Or { x, y } => {
            let v = cpu.get_vx(x as usize) | cpu.get_vx(y as usize);
            cpu.set_vx(x as usize, v);
            Ok(())
        },
        Instruction::And { x, y } => {
            let v = cpu.get_vx(x as usize) & cpu.get_vx(y as usize);
            cpu.set_vx(x as usize, v);
            Ok(())
        },
        Instruction::Xor { x, y } => {
            let v = cpu.get_vx(x as usize) ^ cpu.get_vx(y as usize);
            cpu.set_vx(x as usize, v);
            Ok(())
        },
        Instruction::AddReg { x, y } => {
            let a = cpu.get_vx(x as usize);
            let b = cpu.get_vx(y as usize);
            let sum = a as u16 + b as u16;
            cpu.set_vx(x as usize, (sum % 256) as u8);
            cpu.set_vx(0xf, if sum > 255 { 1 } else { 0 });
            Ok(())
        },
        Instruction::Sub { x, y } => {
            let a = cpu.get_vx(x as usize);
            let b = cpu.get_vx(y as usize);
            proof {
                lemma_wrap_sub_cases(a, b);
            }
            let diff = ((a as u16 + 256 - b as u16) % 256) as u8;
            cpu.set_vx(x as usize, diff);
            cpu.set_vx(0xf, if a > b { 1 } else { 0 });
            Ok(())
        },
        Instruction::Shr { x } => {
            let a = cpu.get_vx(x as usize);
            cpu.set_vx(x as usize, a >> 1u8);
            cpu.set_vx(0xf, a & 1u8);
            Ok(())
        },
        Instruction::Subn { x, y } => {
            let a = cpu.get_vx(x as usize);
            let b = cpu.get_vx(y as usize);
            proof {
                lemma_wrap_sub_cases(b, a);
            }
            let diff = ((b as u16 + 256 - a as u16) % 256) as u8;
            cpu.set_vx(x as usize, diff);
            cpu.set_vx(0xf, if b > a { 1 } else { 0 });
            Ok(())
        },
        Instruction::Shl { x } => {
            let a = cpu.get_vx(x as usize);
            cpu.set_vx(x as usize, ((a as u16 * 2) % 256) as u8);
            cpu.set_vx(0xf, a >> 7u8);
            Ok(())
        },
        Instruction::SneReg { x, y } => {
            if cpu.get_vx(x as usize) != cpu.get_vx(y as usize) {
                cpu.inc_pc();
            }
            Ok(())
        },
        Instruction::LdI { addr } => {
            cpu.set_i(addr);
            Ok(())
        },
        Instruction::JpV0 { addr } => {
            let v0 = cpu.get_vx(0);
            cpu.set_pc(addr + v0 as u16);
            Ok(())
        },
        Instruction::Rnd { x, byte } => {
            cpu.set_vx(x as usize, rnd & byte);
            Ok(())
        },
        Instruction::Drw { x, y, n } => cpu.op_drw(x, y, n),
        Instruction::Skp { x } => {
            let k = cpu.get_vx(x as usize);
            if k as usize >= arch::NUM_KEYS {
                return Err(Fault::KeyOutOfRange { key: k });
            }
            if cpu.get_keyboard().pressed(k as usize) {
                cpu.inc_pc();
            }
            Ok(())
        },
        Instruction::Sknp { x } => {
            let k = cpu.get_vx(x as usize);
            if k as usize >= arch::NUM_KEYS {
                return Err(Fault::KeyOutOfRange { key: k });
            }
            if !cpu.get_keyboard().pressed(k as usize) {
                cpu.inc_pc();
            }
            Ok(())
        },
        Instruction::LdVxDt { x } => {
            let v = cpu.get_dt();
            cpu.set_vx(x as usize, v);
            Ok(())
        },
        Instruction::LdVxK { x } => {
            cpu.wait_for_input(x as usize);
            Ok(())
        },
        Instruction::LdDt { x } => {
            let v = cpu.get_vx(x as usize);
            cpu.set_dt(v);
            Ok(())
        },
        Instruction::LdSt { x } => {
            let v = cpu.get_vx(x as usize);
            cpu.set_st(v);
            Ok(())
        },
        Instruction::AddI { x } => {
            let v = cpu.get_vx(x as usize);
            let i0 = cpu.get_i();
            cpu.set_i(((i0 as u32 + v as u32) % 0x10000) as u16);
            Ok(())
        },
        Instruction::LdFont { x } => {
            let d = cpu.get_vx(x as usize);
            cpu.set_i((arch::FONT_BASE + 5 * (d as usize)) as u16);
            Ok(())
        },
        Instruction::LdBcd { x } => {
            let v = cpu.get_vx(x as usize);
            let base = cpu.get_i() as usize;
            if base + 2 >= arch::MEM_SIZE {
                return Err(Fault::MemoryOutOfBounds { addr: cpu.get_i() });
            }
            cpu.set_mem(base, v / 100);
            cpu.set_mem(base + 1, (v / 10) % 10);
            cpu.set_mem(base + 2, v % 10);
            Ok(())
        },
        Instruction::SaveRegs { x } => cpu.op_save_regs(x),
        Instruction::RestoreRegs { x } => cpu.op_restore_regs(x),
    }
}

/// For all byte values `a` (in `Vx`) and `b` (in `Vy`): `SUB Vx,Vy` stores
/// `(a - b) mod 256` and sets `VF` to 1 exactly when `a > b`; `SUBN Vx,Vy`
/// is the mirror with the operands reversed. When `x` is `VF` itself the
/// flag write wins over the result.
pub proof fn lemma_sub_subn_semantics(s: CpuV, x: u8, y: u8, rnd: u8)
    requires
        cpu_wf(s),
        x <= 0xf,
        y <= 0xf,
    ensures
        ({
            let a = s.vx[x as int];
            let b = s.vx[y as int];
            let sub = with_vx_flag(s, x, wrap_sub(a, b), no_borrow_flag(a, b));
            let subn = with_vx_flag(s, x, wrap_sub(b, a), no_borrow_flag(b, a));
            &&& step(s, Instruction::Sub { x, y }, rnd) == Ok::<CpuV, Fault>(sub)
            &&& step(s, Instruction::Subn { x, y }, rnd) == Ok::<CpuV, Fault>(subn)
            &&& sub.vx[15] == (if a > b {
                1u8
            } else {
                0u8
            })
            &&& subn.vx[15] == (if b > a {
                1u8
            } else {
                0u8
            })
            &&& x != 15 ==> sub.vx[x as int] == (a - b) % 256
            &&& x != 15 ==> subn.vx[x as int] == (b - a) % 256
        }),
{
}

/// For every byte value `a` in `Vx`: `SHR Vx` stores `a >> 1` and sets `VF`
/// to `a & 1`; `SHL Vx` stores `(2 * a) mod 256` and sets `VF` to
/// `(a >> 7) & 1`. When `x` is `VF` itself the flag write wins.
pub proof fn lemma_shift_semantics(s: CpuV, x: u8, rnd: u8)
    requires
        cpu_wf(s),
        x <= 0xf,
    ensures
        ({
            let a = s.vx[x as int];
            let right = with_vx_flag(s, x, a >> 1u8, a & 1u8);
            let left = with_vx_flag(s, x, shl_result(a), a >> 7u8);
            &&& step(s, Instruction::Shr { x }, rnd) == Ok::<CpuV, Fault>(right)
            &&& step(s, Instruction::Shl { x }, rnd) == Ok::<CpuV, Fault>(left)
            &&& right.vx[15] == a & 1u8
            &&& left.vx[15] == ((a >> 7u8) & 1u8)
            &&& x != 15 ==> right.vx[x as int] == a >> 1u8
            &&& x != 15 ==> left.vx[x as int] == (2 * a) % 256
        }),
{
    let a = s.vx[x as int];
    assert((a >> 7u8) == ((a >> 7u8) & 1u8)) by (bit_vector);
}

/// Stack round trip: `CALL addr` followed immediately by `RET` restores the
/// program counter to its value right after the call instruction's own
/// fetch-advance, and restores the stack pointer.
pub proof fn lemma_call_ret_round_trip(s: CpuV, addr: u16, rnd1: u8, rnd2: u8)
    requires
        cpu_wf(s),
        s.sp + 1 < arch::STACK_SIZE,
    ensures
        ({
            let called = CpuV {
                sp: (s.sp + 1) as u8,
                stack: s.stack.update(s.sp as int + 1, s.pc),
                pc: addr,
                ..s
            };
            let returned = CpuV { pc: s.pc, sp: s.sp, ..called };
            &&& step(s, Instruction::Call { addr }, rnd1) == Ok::<CpuV, Fault>(called)
            &&& step(called, Instruction::Ret, rnd2) == Ok::<CpuV, Fault>(returned)
            &&& returned.pc == s.pc
            &&& returned.sp == s.sp
        }),
{
}

/// Draw idempotence under double-XOR: executing the same `DRW Vx,Vy,n` twice
/// in succession restores the pre-draw framebuffer exactly, and the second
/// draw's `VF` is 1 precisely when the first draw turned some cell on (every
/// originally-set sprite bit then clears the cell it lit). `VF` itself may
/// not serve as a coordinate register, since the first draw overwrites it.
pub proof fn lemma_draw_twice(s: CpuV, x: u8, y: u8, n: u8, rnd1: u8, rnd2: u8)
    requires
        cpu_wf(s),
        x <= 0xf,
        y <= 0xf,
        n <= 0xf,
        x != 15,
        y != 15,
        s.i + n <= arch::MEM_SIZE,
    ensures
        ({
            let spr = s.mem.subrange(s.i as int, s.i as int + n as int);
            let xv = s.vx[x as int];
            let yv = s.vx[y as int];
            let once = drawn_cpu(s, x, y, n);
            let twice = drawn_cpu(once, x, y, n);
            &&& step(s, Instruction::Drw { x, y, n }, rnd1) == Ok::<CpuV, Fault>(once)
            &&& step(once, Instruction::Drw { x, y, n }, rnd2) == Ok::<CpuV, Fault>(twice)
            &&& twice.grid == s.grid
            &&& twice.vx[15] == (if exists|j: int|
                0 <= j < 8 * spr.len() && crate::display::sprite_bit_at(spr, j) == 1
                    && s.grid[crate::display::sprite_cell(xv, yv, j)] == 0 {
                1u8
            } else {
                0u8
            })
        }),
{
    let spr = s.mem.subrange(s.i as int, s.i as int + n as int);
    let xv = s.vx[x as int];
    let yv = s.vx[y as int];
    let once = drawn_cpu(s, x, y, n);
    assert(once.mem.subrange(s.i as int, s.i as int + n as int) == spr);
    assert(once.vx[x as int] == xv);
    assert(once.vx[y as int] == yv);
    crate::display::lemma_draw_involution(s.grid, spr, xv, yv);
}

/// `0nnn - SYS addr`: a jump to a machine-code routine on the original
/// hardware. Modern interpreters ignore it, so it leaves the machine
/// unchanged; the decoder likewise rejects its encoding.
#[allow(unused_variables)]
pub fn sys_addr(cpu: &mut Cpu, instr: u16)
    requires
        old(cpu).wf(),
    ensures
        final(cpu).wf(),
        *final(cpu) == *old(cpu),
{
}

/// `8xy1 - OR Vx, Vy`: set `Vx = Vx | Vy`.
pub fn or_vx_vy(cpu: &mut Cpu, instr: u16)
    requires
        old(cpu).wf(),
    ensures
        final(cpu).wf(),
        final(cpu)@ == with_vx(
            old(cpu)@,
            field_x(instr),
            old(cpu)@.vx[field_x(instr) as int] | old(cpu)@.vx[field_y(instr) as int],
        ),
{
    proof {
        lemma_parse_wf(instr);
    }
    let x = ((instr >> 8) & 0xf) as usize;
    let y = ((instr >> 4) & 0xf) as usize;
    let v = cpu.get_vx(x) | cpu.get_vx(y);
    cpu.set_vx(x, v);
}

/// `8xy4 - ADD Vx, Vy`: set `Vx` to the sum truncated to 8 bits, and `VF` to
/// 1 exactly when the sum exceeds 255. For all byte values `a` and `b` the
/// result is `(a + b) mod 256`.
pub fn add_vx_vy(cpu: &mut Cpu, instr: u16)
    requires
        old(cpu).wf(),
    ensures
        final(cpu).wf(),
        ({
            let a = old(cpu)@.vx[field_x(instr) as int];
            let b = old(cpu)@.vx[field_y(instr) as int];
            &&& final(cpu)@ == with_vx_flag(
                old(cpu)@,
                field_x(instr),
                wrap_add(a, b),
                carry_flag(a, b),
            )
            &&& final(cpu)@.vx[15] == (if a + b > 255 {
                1u8
            } else {
                0u8
            })
            &&& field_x(instr) != 15 ==> final(cpu)@.vx[field_x(instr) as int] == (a + b) % 256
        }),
{
    proof {
        lemma_parse_wf(instr);
    }
    let x = ((instr >> 8) & 0xf) as usize;
    let y = ((instr >> 4) & 0xf) as usize;
    let a = cpu.get_vx(x);
    let b = cpu.get_vx(y);
    let sum = a as u16 + b as u16;
    cpu.set_vx(x, (sum % 256) as u8);
    cpu.set_vx(0xf, if sum > 255 { 1 } else { 0 });
}

/// `8xy7 - SUBN Vx, Vy`: the operand-reversed borrow variant of `SUB`: set
/// `Vx` to `(Vy - Vx) mod 256` and `VF` to 1 exactly when `Vy > Vx`.
pub fn subn_vx_vy(cpu: &mut Cpu, instr: u16)
    requires
        old(cpu).wf(),
    ensures
        final(cpu).wf(),
        ({
            let a = old(cpu)@.vx[field_x(instr) as int];
            let b = old(cpu)@.vx[field_y(instr) as int];
            &&& final(cpu)@ == with_vx_flag(
                old(cpu)@,
                field_x(instr),
                wrap_sub(b, a),
                no_borrow_flag(b, a),
            )
            &&& final(cpu)@.vx[15] == (if b > a {
                1u8
            } else {
                0u8
            })
            &&& field_x(instr) != 15 ==> final(cpu)@.vx[field_x(instr) as int] == (b - a) % 256
        }),
{
    proof {
        lemma_parse_wf(instr);
    }
    let x = ((instr >> 8) & 0xf) as usize;
    let y = ((instr >> 4) & 0xf) as usize;
    let a = cpu.get_vx(x);
    let b = cpu.get_vx(y);
    proof {
        lemma_wrap_sub_cases(b, a);
    }
    let diff = ((b as u16 + 256 - a as u16) % 256) as u8;
    cpu.set_vx(x, diff);
    cpu.set_vx(0xf, if b > a { 1 } else { 0 });
}

/// `8xyE - SHL Vx`: set `Vx` to `(Vx << 1) mod 256` and `VF` to the bit
/// shifted out, `(Vx >> 7) & 1`.
pub fn shl_vx_vy(cpu: &mut Cpu, instr: u16)
    requires
        old(cpu).wf(),
    ensures
        final(cpu).wf(),
        ({
            let a = old(cpu)@.vx[field_x(instr) as int];
            &&& final(cpu)@ == with_vx_flag(old(cpu)@, field_x(instr), shl_result(a), a >> 7u8)
            &&& final(cpu)@.vx[15] == ((a >> 7u8) & 1u8)
            &&& field_x(instr) != 15 ==> final(cpu)@.vx[field_x(instr) as int] == (2 * a) % 256
        }),
{
    proof {
        lemma_parse_wf(instr);
        assert(forall|a: u8| #[trigger] (a >> 7u8) == ((a >> 7u8) & 1u8)) by (bit_vector);
    }
    let x = ((instr >> 8) & 0xf) as usize;
    let a = cpu.get_vx(x);
    cpu.set_vx(x, ((a as u16 * 2) % 256) as u8);
    cpu.set_vx(0xf, a >> 7u8);
}

/// `9xy0 - SNE Vx, Vy`: skip the next instruction if `Vx != Vy`.
pub fn sne_vx_vy(cpu: &mut Cpu, instr: u16)
    requires
        old(cpu).wf(),
        old(cpu)@.pc + 2 <= u16::MAX,
    ensures
        final(cpu).wf(),
        final(cpu)@ == skip_if(
            old(cpu)@,
            old(cpu)@.vx[field_x(instr) as int] != old(cpu)@.vx[field_y(instr) as int],
        ),
{
    proof {
        lemma_parse_wf(instr);
    }
    let x = ((instr >> 8) & 0xf) as usize;
    let y = ((instr >> 4) & 0xf) as usize;
    if cpu.get_vx(x) != cpu.get_vx(y) {
        cpu.inc_pc();
    }
}

/// `Bnnn - JP V0, addr`: jump to `addr + V0`.
pub fn jp_v0_addr(cpu: &mut Cpu, instr: u16)
    requires
        old(cpu).wf(),
    ensures
        final(cpu).wf(),
        final(cpu)@ == (CpuV {
            pc: (field_addr(instr) + old(cpu)@.vx[0]) as u16,
            ..old(cpu)@
        }),
{
    proof {
        assert(field_addr(instr) <= 0xfff) by (bit_vector);
    }
    let addr = instr & 0xfff;
    let v0 = cpu.get_vx(0);
    cpu.set_pc(addr + v0 as u16);
}

/// `Fx18 - LD ST, Vx`: set the sound timer to `Vx`.
pub fn ld_st_vx(cpu: &mut Cpu, instr: u16)
    requires
        old(cpu).wf(),
    ensures
        final(cpu).wf(),
        final(cpu)@ == (CpuV { st: old(cpu)@.vx[field_x(instr) as int], ..old(cpu)@ }),
{
    proof {
        lemma_parse_wf(instr);
    }
    let x = ((instr >> 8) & 0xf) as usize;
    let v = cpu.get_vx(x);
    cpu.set_st(v);
}

/// Execute one decoded instruction, drawing the random byte from the host
/// generator when the instruction asks for one.
pub fn execute(inst: Instruction, cpu: &mut Cpu) -> (r: Result<(), Fault>)
    requires
        old(cpu).wf(),
        instruction_wf(inst),
        old(cpu)@.pc + 2 <= u16::MAX,
        inst matches Instruction::LdVxK { .. } ==> old(cpu)@.pc >= 2,
    ensures
        final(cpu).wf(),
        exists|b: u8| step_outcome(old(cpu)@, inst, b, r, final(cpu)@),
{
    let b = crate::cpu::random_byte();
    let r = execute_with(inst, cpu, b);
    proof {
        assert(step_outcome(old(cpu)@, inst, b, r, cpu@));
    }
    r
}

} // verus!
