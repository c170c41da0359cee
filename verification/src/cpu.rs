//! The machine state: memory, registers, timers, call stack, framebuffer and
//! keyboard, with the accessors the instruction executor is built from.

use vstd::prelude::*;
use vstd::arithmetic::div_mod::lemma_fundamental_div_mod;
use vstd::arithmetic::div_mod::lemma_mod_bound;

use rand::Rng;

use crate::arch;
use crate::display;
use crate::display::Display;
use crate::display::Pixel;
use crate::instr::Fault;
use crate::keyboard;
use crate::keyboard::Keyboard;

verus! {

/// Mathematical image of the whole machine.
pub ghost struct CpuV {
    /// General-purpose registers `V0`..`VF`.
    pub vx: Seq<u8>,
    /// Index register `I`.
    pub i: u16,
    /// Delay timer.
    pub dt: u8,
    /// Sound timer.
    pub st: u8,
    /// Program counter.
    pub pc: u16,
    /// Stack pointer.
    pub sp: u8,
    /// Call stack.
    pub stack: Seq<u16>,
    /// Addressable memory.
    pub mem: Seq<u8>,
    /// Framebuffer cells.
    pub grid: Seq<u8>,
    /// Keyboard state.
    pub keys: Seq<bool>,
    /// Whether the machine keeps ticking.
    pub running: bool,
    /// Whether the next tick skips execution.
    pub paused: bool,
    /// Whether the machine pauses again after every executed instruction.
    pub debug: bool,
}

/// A well-formed machine: every array has its architectural size, the stack
/// pointer stays inside the call stack, and the framebuffer holds single bits.
pub open spec fn cpu_wf(s: CpuV) -> bool {
    &&& s.vx.len() == arch::NUM_REGISTERS
    &&& s.stack.len() == arch::STACK_SIZE
    &&& s.mem.len() == arch::MEM_SIZE
    &&& display::grid_wf(s.grid)
    &&& keyboard::keys_wf(s.keys)
    &&& s.sp < arch::STACK_SIZE
}

/// A delay-timer step: down by one, saturating at zero.
pub open spec fn dec_timer(dt: u8) -> u8 {
    if dt == 0 {
        0u8
    } else {
        (dt - 1) as u8
    }
}

/// The big-endian instruction word at address `pc`.
pub open spec fn fetch_word(mem: Seq<u8>, pc: u16) -> u16 {
    ((mem[pc as int] as u16) << 8) | (mem[pc as int + 1] as u16)
}

/// The built-in font: five bytes per glyph for the digits `0`..`F`.
pub open spec fn font_table() -> Seq<u8> {
    seq![
        0xf0u8, 0x90, 0x90, 0x90, 0xf0,  // 0
        0x20, 0x60, 0x20, 0x20, 0x70,  // 1
        0xf0, 0x10, 0xf0, 0x80, 0xf0,  // 2
        0xf0, 0x10, 0xf0, 0x10, 0xf0,  // 3
        0x90, 0x90, 0xf0, 0x10, 0x10,  // 4
        0xf0, 0x80, 0xf0, 0x10, 0xf0,  // 5
        0xf0, 0x80, 0xf0, 0x90, 0xf0,  // 6
        0xf0, 0x10, 0x20, 0x40, 0x40,  // 7
        0xf0, 0x90, 0xf0, 0x90, 0xf0,  // 8
        0xf0, 0x90, 0xf0, 0x10, 0xf0,  // 9
        0xf0, 0x90, 0xf0, 0x90, 0x90,  // A
        0xe0, 0x90, 0xe0, 0x90, 0xe0,  // B
        0xf0, 0x80, 0x80, 0x80, 0xf0,  // C
        0xe0, 0x90, 0x90, 0x90, 0xe0,  // D
        0xf0, 0x80, 0xf0, 0x80, 0xf0,  // E
        0xf0, 0x80, 0xf0, 0x80, 0x80,  // F
    ]
}

/// Memory right after loading: the font table at its base, the program image
/// at the program start, zeroes everywhere else.
pub open spec fn initial_mem(rom: Seq<u8>) -> Seq<u8> {
    Seq::new(
        arch::MEM_SIZE as nat,
        |a: int|
            if arch::FONT_BASE <= a < arch::FONT_BASE + font_table().len() {
                font_table()[a - arch::FONT_BASE]
            } else if arch::PROGRAM_START <= a < arch::PROGRAM_START + rom.len() {
                rom[a - arch::PROGRAM_START]
            } else {
                0u8
            },
    )
}

/// Font addressing: in freshly loaded memory, the five glyph bytes for digit
/// `d` stand at the address the font-load instruction computes for `d`.
pub proof fn lemma_font_addressing(rom: Seq<u8>, d: u8, k: int)
    requires
        d <= 0xf,
        0 <= k < arch::FONT_GLYPH_SIZE,
    ensures
        initial_mem(rom)[arch::FONT_BASE + 5 * d + k] == font_table()[5 * d + k],
{
}

/// The machine right after loading a program image.
pub open spec fn initial_cpu(rom: Seq<u8>) -> CpuV {
    CpuV {
        vx: Seq::new(arch::NUM_REGISTERS as nat, |k: int| 0u8),
        i: 0,
        dt: 0,
        st: 0,
        pc: arch::PROGRAM_START as u16,
        sp: 0,
        stack: Seq::new(arch::STACK_SIZE as nat, |k: int| 0u16),
        mem: initial_mem(rom),
        grid: display::blank_grid(),
        keys: keyboard::no_keys(),
        running: true,
        paused: false,
        debug: true,
    }
}

/// The machine state.
pub struct Cpu {
    display: Display,
    keyboard: Keyboard,
    running: bool,
    paused: bool,
    debug: bool,
    r_vx: Vec<u8>,
    r_i: u16,
    r_dt: u8,
    r_st: u8,
    r_pc: u16,
    r_sp: u8,
    stack: Vec<u16>,
    mem: Vec<u8>,
}

impl View for Cpu {
    type V = CpuV;

    closed spec fn view(&self) -> CpuV {
        CpuV {
            vx: self.r_vx@,
            i: self.r_i,
            dt: self.r_dt,
            st: self.r_st,
            pc: self.r_pc,
            sp: self.r_sp,
            stack: self.stack@,
            mem: self.mem@,
            grid: self.display@,
            keys: self.keyboard@,
            running: self.running,
            paused: self.paused,
            debug: self.debug,
        }
    }
}

/// Relies on rand::thread_rng and rand::Rng::gen::<u8>, for the byte drawn by
/// the random-number instruction. Nothing is promised about the value.
#[verifier::external_body]
pub(crate) fn random_byte() -> u8 {
    rand::thread_rng().gen::<u8>()
}

/// The font table as bytes.
fn font_data() -> (v: Vec<u8>)
    ensures
        v@ == font_table(),
{
    let mut v: Vec<u8> = Vec::new();
    v.push(0xf0);
    v.push(0x90);
    v.push(0x90);
    v.push(0x90);
    v.push(0xf0);
    v.push(0x20);
    v.push(0x60);
    v.push(0x20);
    v.push(0x20);
    v.push(0x70);
    v.push(0xf0);
    v.push(0x10);
    v.push(0xf0);
    v.push(0x80);
    v.push(0xf0);
    v.push(0xf0);
    v.push(0x10);
    v.push(0xf0);
    v.push(0x10);
    v.push(0xf0);
    v.push(0x90);
    v.push(0x90);
    v.push(0xf0);
    v.push(0x10);
    v.push(0x10);
    v.push(0xf0);
    v.push(0x80);
    v.push(0xf0);
    v.push(0x10);
    v.push(0xf0);
    v.push(0xf0);
    v.push(0x80);
    v.push(0xf0);
    v.push(0x90);
    v.push(0xf0);
    v.push(0xf0);
    v.push(0x10);
    v.push(0x20);
    v.push(0x40);
    v.push(0x40);
    v.push(0xf0);
    v.push(0x90);
    v.push(0xf0);
    v.push(0x90);
    v.push(0xf0);
    v.push(0xf0);
    v.push(0x90);
    v.push(0xf0);
    v.push(0x10);
    v.push(0xf0);
    v.push(0xf0);
    v.push(0x90);
    v.push(0xf0);
    v.push(0x90);
    v.push(0x90);
    v.push(0xe0);
    v.push(0x90);
    v.push(0xe0);
    v.push(0x90);
    v.push(0xe0);
    v.push(0xf0);
    v.push(0x80);
    v.push(0x80);
    v.push(0x80);
    v.push(0xf0);
    v.push(0xe0);
    v.push(0x90);
    v.push(0x90);
    v.push(0x90);
    v.push(0xe0);
    v.push(0xf0);
    v.push(0x80);
    v.push(0xf0);
    v.push(0x80);
    v.push(0xf0);
    v.push(0xf0);
    v.push(0x80);
    v.push(0xf0);
    v.push(0x80);
    v.push(0x80);
    proof {
        assert(v@ =~= font_table());
    }
    v
}

impl Cpu {
    /// Whether the machine state is well formed. Construction establishes
    /// this and every operation preserves it.
    pub open spec fn wf(&self) -> bool {
        cpu_wf(self@)
    }

    /// Build a machine with the font table and the given program image
    /// loaded, all registers at zero and the program counter at the program
    /// start. An image too large for memory is rejected.
    pub fn new(rom: &Vec<u8>) -> (r: Result<Cpu, Fault>)
        ensures
            rom@.len() > crate::max_rom_len() ==> r == Err::<Cpu, Fault>(
                Fault::RomTooLarge { len: rom@.len() as usize },
            ),
            rom@.len() <= crate::max_rom_len() ==> (r matches Ok(c) && c@ == initial_cpu(rom@)
                && c.wf()),
    {
        if rom.len() > arch::MEM_SIZE - arch::PROGRAM_START {
            return Err(Fault::RomTooLarge { len: rom.len() });
        }
        let mut mem: Vec<u8> = Vec::new();
        let mut a: usize = 0;
        while a < arch::MEM_SIZE
            invariant
                a <= arch::MEM_SIZE,
                mem@.len() == a,
                forall|k: int| 0 <= k < a ==> #[trigger] mem@[k] == 0,
            decreases arch::MEM_SIZE - a,
        {
            mem.push(0);
            a = a + 1;
        }
        let font = font_data();
        let mut k: usize = 0;
        while k < arch::FONT_GLYPH_SIZE * arch::NUM_KEYS
            invariant
                k <= 80,
                font@ == font_table(),
                mem@.len() == arch::MEM_SIZE,
                forall|j: int|
                    0 <= j < arch::MEM_SIZE ==> #[trigger] mem@[j] == (if arch::FONT_BASE <= j
                        < arch::FONT_BASE + k {
                        font_table()[j - arch::FONT_BASE]
                    } else {
                        0u8
                    }),
            decreases 80 - k,
        {
            proof {
                assert(font_table().len() == 80);
            }
            mem.set(arch::FONT_BASE + k, font[k]);
            k = k + 1;
        }
        let mut i: usize = 0;
        while i < rom.len()
            invariant
                i <= rom@.len(),
                rom@.len() <= arch::MEM_SIZE - arch::PROGRAM_START,
                mem@.len() == arch::MEM_SIZE,
                forall|j: int|
                    0 <= j < arch::MEM_SIZE ==> #[trigger] mem@[j] == (if arch::FONT_BASE <= j
                        < arch::FONT_BASE + font_table().len() {
                        font_table()[j - arch::FONT_BASE]
                    } else if arch::PROGRAM_START <= j < arch::PROGRAM_START + i {
                        rom@[j - arch::PROGRAM_START]
                    } else {
                        0u8
                    }),
            decreases rom@.len() - i,
        {
            mem.set(arch::PROGRAM_START + i, rom[i]);
            i = i + 1;
        }
        let mut r_vx: Vec<u8> = Vec::new();
        let mut v: usize = 0;
        while v < arch::NUM_REGISTERS
            invariant
                v <= arch::NUM_REGISTERS,
                r_vx@.len() == v,
                forall|j: int| 0 <= j < v ==> #[trigger] r_vx@[j] == 0,
            decreases arch::NUM_REGISTERS - v,
        {
            r_vx.push(0);
            v = v + 1;
        }
        let mut stack: Vec<u16> = Vec::new();
        let mut s: usize = 0;
        while s < arch::STACK_SIZE
            invariant
                s <= arch::STACK_SIZE,
                stack@.len() == s,
                forall|j: int| 0 <= j < s ==> #[trigger] stack@[j] == 0,
            decreases arch::STACK_SIZE - s,
        {
            stack.push(0);
            s = s + 1;
        }
        let cpu = Cpu {
            display: Display::new(),
            keyboard: Keyboard::new(),
            running: true,
            paused: false,
            debug: true,
            r_vx,
            r_i: 0,
            r_dt: 0,
            r_st: 0,
            r_pc: arch::PROGRAM_START as u16,
            r_sp: 0,
            stack,
            mem,
        };
        proof {
            assert(cpu@.mem =~= initial_mem(rom@));
            assert(cpu@.vx =~= initial_cpu(rom@).vx);
            assert(cpu@.stack =~= initial_cpu(rom@).stack);
            assert(cpu@ == initial_cpu(rom@));
        }
        Ok(cpu)
    }

    /// Read the instruction word at the program counter and advance past it.
    pub fn read_instr(&mut self) -> (r: u16)
        requires
            old(self).wf(),
            old(self)@.pc + 1 < arch::MEM_SIZE,
        ensures
            final(self).wf(),
            r == fetch_word(old(self)@.mem, old(self)@.pc),
            final(self)@ == (CpuV { pc: (old(self)@.pc + 2) as u16, ..old(self)@ }),
    {
        let pc = self.r_pc as usize;
        let word = ((self.mem[pc] as u16) << 8) | (self.mem[pc + 1] as u16);
        self.inc_pc();
        word
    }

    /// Read `n` bytes of memory starting at `addr`.
    pub fn read_mem(&mut self, addr: usize, n: usize) -> (r: Vec<u8>)
        requires
            old(self).wf(),
            addr + n <= arch::MEM_SIZE,
        ensures
            final(self).wf(),
            *final(self) == *old(self),
            r@ == old(self)@.mem.subrange(addr as int, addr as int + n as int),
    {
        let mut r: Vec<u8> = Vec::new();
        let mut k: usize = 0;
        while k < n
            invariant
                k <= n,
                addr + n <= arch::MEM_SIZE,
                self.wf(),
                r@.len() == k,
                forall|j: int| 0 <= j < k ==> #[trigger] r@[j] == self@.mem[addr + j],
            decreases n - k,
        {
            r.push(self.mem[addr + k]);
            k = k + 1;
        }
        proof {
            assert(r@ =~= self@.mem.subrange(addr as int, addr as int + n as int));
        }
        r
    }

    /// Write one byte of memory.
    pub fn put_mem(&mut self, addr: usize, value: u8)
        requires
            old(self).wf(),
            addr < arch::MEM_SIZE,
        ensures
            final(self).wf(),
            final(self)@ == (CpuV { mem: old(self)@.mem.update(addr as int, value), ..old(self)@ }),
    {
        self.mem.set(addr, value);
    }

    /// Write one byte of memory.
    pub fn set_mem(&mut self, addr: usize, value: u8)
        requires
            old(self).wf(),
            addr < arch::MEM_SIZE,
        ensures
            final(self).wf(),
            final(self)@ == (CpuV { mem: old(self)@.mem.update(addr as int, value), ..old(self)@ }),
    {
        self.mem.set(addr, value);
    }

    /// The program counter.
    pub fn get_pc(&self) -> (r: u16)
        ensures
            r == self@.pc,
    {
        self.r_pc
    }

    /// Move the program counter back one instruction.
    pub fn dec_pc(&mut self)
        requires
            old(self).wf(),
            old(self)@.pc >= 2,
        ensures
            final(self).wf(),
            final(self)@ == (CpuV { pc: (old(self)@.pc - 2) as u16, ..old(self)@ }),
    {
        let cur_pc = self.r_pc;
        self.set_pc(cur_pc - 2);
    }

    /// Move the program counter forward one instruction.
    pub fn inc_pc(&mut self)
        requires
            old(self).wf(),
            old(self)@.pc + 2 <= u16::MAX,
        ensures
            final(self).wf(),
            final(self)@ == (CpuV { pc: (old(self)@.pc + 2) as u16, ..old(self)@ }),
    {
        let cur_pc = self.r_pc;
        self.set_pc(cur_pc + 2);
    }

    /// Set the program counter.
    pub fn set_pc(&mut self, addr: u16)
        requires
            old(self).wf(),
        ensures
            final(self).wf(),
            final(self)@ == (CpuV { pc: addr, ..old(self)@ }),
    {
        self.r_pc = addr;
    }

    /// Raise the stack pointer, then store `value` at its new position.
    pub fn push_stack(&mut self, value: u16)
        requires
            old(self).wf(),
            old(self)@.sp + 1 < arch::STACK_SIZE,
        ensures
            final(self).wf(),
            final(self)@ == (CpuV {
                sp: (old(self)@.sp + 1) as u8,
                stack: old(self)@.stack.update(old(self)@.sp + 1, value),
                ..old(self)@
            }),
    {
        self.r_sp = self.r_sp + 1;
        self.stack.set(self.r_sp as usize, value);
    }

    /// Read the value at the stack pointer, then lower the pointer.
    pub fn pop_stack(&mut self) -> (r: u16)
        requires
            old(self).wf(),
            old(self)@.sp >= 1,
        ensures
            final(self).wf(),
            r == old(self)@.stack[old(self)@.sp as int],
            final(self)@ == (CpuV { sp: (old(self)@.sp - 1) as u8, ..old(self)@ }),
    {
        let value = self.stack[self.r_sp as usize];
        self.r_sp = self.r_sp - 1;
        value
    }

    /// The value of register `Vx`.
    pub fn get_vx(&self, reg: usize) -> (r: u8)
        requires
            self.wf(),
            reg < arch::NUM_REGISTERS,
        ensures
            r == self@.vx[reg as int],
    {
        self.r_vx[reg]
    }

    /// Set register `Vx`.
    pub fn set_vx(&mut self, reg: usize, value: u8)
        requires
            old(self).wf(),
            reg < arch::NUM_REGISTERS,
        ensures
            final(self).wf(),
            final(self)@ == (CpuV { vx: old(self)@.vx.update(reg as int, value), ..old(self)@ }),
    {
        self.r_vx.set(reg, value);
    }

    /// The index register `I`.
    pub fn get_i(&self) -> (r: u16)
        ensures
            r == self@.i,
    {
        self.r_i
    }

    /// Set the index register `I`.
    pub fn set_i(&mut self, value: u16)
        requires
            old(self).wf(),
        ensures
            final(self).wf(),
            final(self)@ == (CpuV { i: value, ..old(self)@ }),
    {
        self.r_i = value;
    }

    /// The delay timer.
    pub fn get_dt(&self) -> (r: u8)
        ensures
            r == self@.dt,
    {
        self.r_dt
    }

    /// Set the delay timer.
    pub fn set_dt(&mut self, value: u8)
        requires
            old(self).wf(),
        ensures
            final(self).wf(),
            final(self)@ == (CpuV { dt: value, ..old(self)@ }),
    {
        self.r_dt = value;
    }

    /// The sound timer.
    pub fn get_st(&self) -> (r: u8)
        ensures
            r == self@.st,
    {
        self.r_st
    }

    /// Set the sound timer.
    pub fn set_st(&mut self, value: u8)
        requires
            old(self).wf(),
        ensures
            final(self).wf(),
            final(self)@ == (CpuV { st: value, ..old(self)@ }),
    {
        self.r_st = value;
    }

    /// Lower the delay timer by one, saturating at zero.
    pub fn dec_dt(&mut self)
        requires
            old(self).wf(),
        ensures
            final(self).wf(),
            final(self)@ == (CpuV { dt: dec_timer(old(self)@.dt), ..old(self)@ }),
    {
        if self.r_dt > 0 {
            self.r_dt = self.r_dt - 1;
        }
    }

    /// The framebuffer.
    pub fn get_display(&self) -> (r: &Display)
        ensures
            r@ == self@.grid,
    {
        &self.display
    }

    /// The keyboard.
    pub fn get_keyboard(&self) -> (r: &Keyboard)
        ensures
            r@ == self@.keys,
    {
        &self.keyboard
    }

    /// Whether the machine keeps ticking.
    pub fn is_running(&self) -> (r: bool)
        ensures
            r == self@.running,
    {
        self.running
    }

    /// The stack pointer.
    pub fn get_sp(&self) -> (r: u8)
        ensures
            r == self@.sp,
    {
        self.r_sp
    }

    /// Turn every framebuffer cell off.
    pub fn clear_display(&mut self)
        requires
            old(self).wf(),
        ensures
            final(self).wf(),
            final(self)@ == (CpuV { grid: display::blank_grid(), ..old(self)@ }),
    {
        self.display.clear();
    }

    /// Store the lowest pressed key index in `Vx`; with no key pressed, move
    /// the program counter back one instruction so the same opcode is
    /// presented again next tick.
    pub fn wait_for_input(&mut self, reg: usize)
        requires
            old(self).wf(),
            reg < arch::NUM_REGISTERS,
            old(self)@.pc >= 2,
        ensures
            final(self).wf(),
            keyboard::first_pressed(old(self)@.keys) matches Some(k) ==> final(self)@ == (CpuV {
                vx: old(self)@.vx.update(reg as int, k),
                ..old(self)@
            }),
            keyboard::first_pressed(old(self)@.keys) is None ==> final(self)@ == (CpuV {
                pc: (old(self)@.pc - 2) as u16,
                ..old(self)@
            }),
    {
        let mut i: usize = 0;
        while i < arch::NUM_KEYS
            invariant
                i <= arch::NUM_KEYS,
                *self == *old(self),
                self.wf(),
                reg < arch::NUM_REGISTERS,
                old(self)@.pc >= 2,
                keyboard::first_pressed(old(self)@.keys) == keyboard::first_pressed_from(
                    old(self)@.keys,
                    i as int,
                ),
            decreases arch::NUM_KEYS - i,
        {
            if self.keyboard.pressed(i) {
                self.r_vx.set(reg, i as u8);
                return ;
            }
            i = i + 1;
        }
        self.dec_pc()
    }

    /// Apply one external control event: a quit signal, a toggle of
    /// single-step mode, a resume while paused, or a key transition.
    pub fn apply_event(&mut self, event: ControlEvent)
        requires
            old(self).wf(),
        ensures
            final(self).wf(),
            event == ControlEvent::Quit ==> final(self)@ == (CpuV {
                running: false,
                ..old(self)@
            }),
            event == ControlEvent::ToggleStep ==> final(self)@ == (CpuV {
                debug: !old(self)@.debug,
                paused: !old(self)@.debug,
                ..old(self)@
            }),
            event == ControlEvent::Resume ==> final(self)@ == (CpuV {
                paused: false,
                ..old(self)@
            }),
            event matches ControlEvent::Key { index, down } ==> final(self)@ == (CpuV {
                keys: if index < arch::NUM_KEYS {
                    old(self)@.keys.update(index as int, down)
                } else {
                    old(self)@.keys
                },
                ..old(self)@
            }),
    {
        match event {
            ControlEvent::Quit => {
                self.running = false;
            },
            ControlEvent::ToggleStep => {
                self.debug = !self.debug;
                self.paused = self.debug;
            },
            ControlEvent::Resume => {
                self.paused = false;
            },
            ControlEvent::Key { index, down } => {
                self.keyboard.press(index, down);
            },
        }
    }

    /// Run one tick with the given random byte: if not paused, fetch, decode
    /// and execute one instruction, decrementing the delay timer once, and in
    /// single-step mode pause again. A fault halts the machine where it
    /// stood.
    pub fn tick_with(&mut self, rnd: u8) -> (r: Result<(), Fault>)
        requires
            old(self).wf(),
        ensures
            final(self).wf(),
            tick_outcome(old(self)@, rnd, r, final(self)@),
    {
        if self.paused {
            return Ok(());
        }
        if self.r_pc as usize + 1 >= arch::MEM_SIZE {
            return Err(Fault::PcOutOfBounds { pc: self.r_pc });
        }
        let pc0 = self.r_pc;
        let raw = self.read_instr();
        match crate::instr::parse(raw) {
            Option::None => Err(Fault::UnknownInstruction { raw: raw, pc: pc0 }),
            Option::Some(inst) => {
                self.dec_dt();
                let res = crate::instr::execute_with(inst, self, rnd);
                match res {
                    Result::Ok(()) => {
                        self.paused = self.debug;
                        Ok(())
                    },
                    Result::Err(f) => Err(f),
                }
            },
        }
    }

    /// Run one tick, drawing the random byte from the host generator.
    pub fn tick(&mut self) -> (r: Result<(), Fault>)
        requires
            old(self).wf(),
        ensures
            final(self).wf(),
            exists|b: u8| tick_outcome(old(self)@, b, r, final(self)@),
    {
        let b = random_byte();
        let r = self.tick_with(b);
        proof {
            assert(tick_outcome(old(self)@, b, r, self@));
        }
        r
    }

    /// `DRW Vx,Vy,n`: XOR-blit the `n`-row sprite at `I` onto the framebuffer
    /// at `(Vx, Vy)` with toroidal wraparound, and set `VF` to 1 exactly when
    /// some lit cell was turned off. A sprite read past the last memory
    /// address is a fault that leaves the machine unchanged.
    pub(crate) fn op_drw(&mut self, x: u8, y: u8, n: u8) -> (r: Result<(), Fault>)
        requires
            old(self).wf(),
            x < arch::NUM_REGISTERS,
            y < arch::NUM_REGISTERS,
            n <= 0xf,
        ensures
            final(self).wf(),
            old(self)@.i + n > arch::MEM_SIZE ==> r == Err::<(), Fault>(
                Fault::MemoryOutOfBounds { addr: old(self)@.i },
            ) && final(self)@ == old(self)@,
            old(self)@.i + n <= arch::MEM_SIZE ==> r is Ok && final(self)@ == drawn_cpu(
                old(self)@,
                x,
                y,
                n,
            ),
    {
        let xv = self.r_vx[x as usize];
        let yv = self.r_vx[y as usize];
        let i = self.r_i;
        if i as usize + n as usize > arch::MEM_SIZE {
            return Err(Fault::MemoryOutOfBounds { addr: i });
        }
        let sprite = self.read_mem(i as usize, n as usize);
        let ghost g0 = self@.grid;
        let ghost spr = sprite@;
        let mut pixels: Vec<Pixel> = Vec::new();
        let mut vf: u8 = 0;
        let total = 8 * (n as usize);
        let mut j: usize = 0;
        while j < total
            invariant
                j <= total,
                total == 8 * n,
                n <= 0xf,
                *self == *old(self),
                self.wf(),
                old(self)@.i + n <= arch::MEM_SIZE,
                g0 == old(self)@.grid,
                spr == old(self)@.mem.subrange(
                    old(self)@.i as int,
                    old(self)@.i as int + n as int,
                ),
                sprite@ == spr,
                spr.len() == n,
                pixels@.len() == j,
                forall|k: int|
                    0 <= k < j ==> #[trigger] pixels@[k]@ == display::sprite_pixel(
                        g0,
                        spr,
                        xv,
                        yv,
                        k,
                    ),
                forall|k: int| 0 <= k < j ==> display::pixel_in_grid(#[trigger] pixels@[k]@),
                vf <= 1,
                vf == 1 <==> (exists|k: int|
                    0 <= k < j && display::sprite_hit(g0, spr, xv, yv, k)),
            decreases total - j,
        {
            let r = j / 8;
            let c = j % 8;
            proof {
                lemma_fundamental_div_mod(j as int, 8);
                lemma_mod_bound(j as int, 8);
                display::lemma_bit_facts();
            }
            let row = sprite[r];
            let dy = (yv as usize + r) % 32;
            let dx = (xv as usize + c) % 64;
            let bit = (row >> ((7 - c) as u8)) & 1;
            let old_px = self.display.get_pixel(dx, dy);
            let new_px = old_px ^ bit;
            proof {
                assert(bit == display::sprite_bit_at(spr, j as int));
                assert(display::cell_index(dx as int, dy as int) == display::sprite_cell(
                    xv,
                    yv,
                    j as int,
                ));
                assert(old_px == g0[display::sprite_cell(xv, yv, j as int)]);
                assert(old_px <= 1);
                assert(bit <= 1);
                assert((old_px == 1 && new_px == 0) <==> display::sprite_hit(
                    g0,
                    spr,
                    xv,
                    yv,
                    j as int,
                ));
            }
            if old_px == 1 && new_px == 0 {
                vf = 1;
            }
            pixels.push(Pixel::new(dx, dy, new_px));
            proof {
                assert(pixels@[j as int]@ == display::sprite_pixel(g0, spr, xv, yv, j as int));
                assert((exists|k: int| 0 <= k < j + 1 && display::sprite_hit(g0, spr, xv, yv, k))
                    <==> ((exists|k: int| 0 <= k < j && display::sprite_hit(g0, spr, xv, yv, k))
                    || display::sprite_hit(g0, spr, xv, yv, j as int)));
            }
            j = j + 1;
        }
        proof {
            display::lemma_sprite_pixels_draw(g0, spr, xv, yv, pixels@);
            assert(vf == 1 <==> display::draw_collision(g0, spr, xv, yv));
        }
        self.r_vx.set(0xf, vf);
        self.display.draw(pixels);
        Ok(())
    }

    /// `LD [I],Vx`: store `V0..=Vx` into memory starting at `I`; a write past
    /// the last address is a fault that leaves the machine unchanged.
    pub(crate) fn op_save_regs(&mut self, x: u8) -> (r: Result<(), Fault>)
        requires
            old(self).wf(),
            x < arch::NUM_REGISTERS,
        ensures
            final(self).wf(),
            old(self)@.i + x >= arch::MEM_SIZE ==> r == Err::<(), Fault>(
                Fault::MemoryOutOfBounds { addr: old(self)@.i },
            ) && final(self)@ == old(self)@,
            old(self)@.i + x < arch::MEM_SIZE ==> r is Ok && final(self)@ == (CpuV {
                mem: saved_regs_mem(old(self)@, x),
                ..old(self)@
            }),
    {
        let base = self.r_i as usize;
        if base + x as usize >= arch::MEM_SIZE {
            return Err(Fault::MemoryOutOfBounds { addr: self.r_i });
        }
        let mut k: usize = 0;
        while k <= x as usize
            invariant
                k <= x + 1,
                x < arch::NUM_REGISTERS,
                base == old(self)@.i,
                base + x < arch::MEM_SIZE,
                self.wf(),
                self@ == (CpuV { mem: self@.mem, ..old(self)@ }),
                forall|j: int|
                    0 <= j < arch::MEM_SIZE ==> #[trigger] self@.mem[j] == (if base <= j < base
                        + k {
                        old(self)@.vx[j - base]
                    } else {
                        old(self)@.mem[j]
                    }),
            decreases x + 1 - k,
        {
            let value = self.r_vx[k];
            self.mem.set(base + k, value);
            k = k + 1;
        }
        proof {
            assert(self@.mem =~= saved_regs_mem(old(self)@, x));
        }
        Ok(())
    }

    /// `LD Vx,[I]`: load `V0..=Vx` from memory starting at `I`; a read past
    /// the last address is a fault that leaves the machine unchanged.
    pub(crate) fn op_restore_regs(&mut self, x: u8) -> (r: Result<(), Fault>)
        requires
            old(self).wf(),
            x < arch::NUM_REGISTERS,
        ensures
            final(self).wf(),
            old(self)@.i + x >= arch::MEM_SIZE ==> r == Err::<(), Fault>(
                Fault::MemoryOutOfBounds { addr: old(self)@.i },
            ) && final(self)@ == old(self)@,
            old(self)@.i + x < arch::MEM_SIZE ==> r is Ok && final(self)@ == (CpuV {
                vx: restored_regs(old(self)@, x),
                ..old(self)@
            }),
    {
        let base = self.r_i as usize;
        if base + x as usize >= arch::MEM_SIZE {
            return Err(Fault::MemoryOutOfBounds { addr: self.r_i });
        }
        let mut k: usize = 0;
        while k <= x as usize
            invariant
                k <= x + 1,
                x < arch::NUM_REGISTERS,
                base == old(self)@.i,
                base + x < arch::MEM_SIZE,
                self.wf(),
                self@ == (CpuV { vx: self@.vx, ..old(self)@ }),
                forall|j: int|
                    0 <= j < arch::NUM_REGISTERS ==> #[trigger] self@.vx[j] == (if 0 <= j < k {
                        old(self)@.mem[base + j]
                    } else {
                        old(self)@.vx[j]
                    }),
            decreases x + 1 - k,
        {
            let value = self.mem[base + k];
            self.r_vx.set(k, value);
            k = k + 1;
        }
        proof {
            assert(self@.vx =~= restored_regs(old(self)@, x));
        }
        Ok(())
    }
}

/// Milliseconds still to sleep to hold the fixed frame cadence: the frame
/// budget less the time already spent, and zero once the budget is used up.
pub fn sync_delay(elapsed_ms: u64) -> (r: u64)
    ensures
        elapsed_ms < arch::MILLIS_PER_FRAME ==> r == arch::MILLIS_PER_FRAME - elapsed_ms,
        elapsed_ms >= arch::MILLIS_PER_FRAME ==> r == 0,
{
    if elapsed_ms < arch::MILLIS_PER_FRAME {
        arch::MILLIS_PER_FRAME - elapsed_ms
    } else {
        0
    }
}

/// One external control event, as the front end reports it.
#[derive(Clone, Copy, Debug, PartialEq, Eq, Structural)]
pub enum ControlEvent {
    /// Stop the machine.
    Quit,
    /// Toggle single-step mode; entering it pauses, leaving it resumes.
    ToggleStep,
    /// Resume for one tick while paused.
    Resume,
    /// A virtual key went down or up.
    Key { index: usize, down: bool },
}

/// The delay timer after `n` decrements.
pub open spec fn dec_timer_iter(dt: u8, n: nat) -> u8
    decreases n,
{
    if n == 0 {
        dt
    } else {
        dec_timer(dec_timer_iter(dt, (n - 1) as nat))
    }
}

/// Timer floor: however many times the delay timer is decremented from zero,
/// it stays at zero and never wraps around.
pub proof fn lemma_timer_floor(n: nat)
    ensures
        dec_timer_iter(0, n) == 0,
    decreases n,
{
    if n > 0 {
        lemma_timer_floor((n - 1) as nat);
    }
}

/// How one tick relates its result and final state to the starting state:
/// a paused machine does nothing; otherwise one instruction is fetched,
/// decoded and executed with the delay timer decremented once in between,
/// and in single-step mode the machine pauses again. A fault halts the
/// machine where it stood when the fault was found.
pub open spec fn tick_outcome(pre: CpuV, rnd: u8, r: Result<(), Fault>, post: CpuV) -> bool {
    if pre.paused {
        r is Ok && post == pre
    } else if pre.pc + 1 >= arch::MEM_SIZE {
        r == Err::<(), Fault>(Fault::PcOutOfBounds { pc: pre.pc }) && post == pre
    } else {
        let raw = fetch_word(pre.mem, pre.pc);
        let fetched = CpuV { pc: (pre.pc + 2) as u16, ..pre };
        match crate::instr::parse_spec(raw) {
            Option::None => r == Err::<(), Fault>(
                Fault::UnknownInstruction { raw: raw, pc: pre.pc },
            ) && post == fetched,
            Option::Some(inst) => {
                let ready = CpuV { dt: dec_timer(fetched.dt), ..fetched };
                match crate::instr::step(ready, inst, rnd) {
                    Result::Err(f) => r == Err::<(), Fault>(f) && post == ready,
                    Result::Ok(stepped) => r is Ok && post == (CpuV {
                        paused: stepped.debug,
                        ..stepped
                    }),
                }
            },
        }
    }
}

/// The machine after `DRW Vx,Vy,n`: the `n`-row sprite at `I` is XOR-blitted
/// onto the framebuffer at `(Vx, Vy)` and `VF` records whether any lit cell
/// was turned off.
pub open spec fn drawn_cpu(s: CpuV, x: u8, y: u8, n: u8) -> CpuV {
    let spr = s.mem.subrange(s.i as int, s.i as int + n as int);
    let xv = s.vx[x as int];
    let yv = s.vx[y as int];
    let flag: u8 = if display::draw_collision(s.grid, spr, xv, yv) {
        1u8
    } else {
        0u8
    };
    CpuV { grid: display::drawn_grid(s.grid, spr, xv, yv), vx: s.vx.update(15, flag), ..s }
}

/// Memory after `LD [I],Vx`: registers `V0..=Vx` written at `I..=I+x`.
pub open spec fn saved_regs_mem(s: CpuV, x: u8) -> Seq<u8> {
    Seq::new(
        s.mem.len(),
        |a: int|
            if s.i <= a <= s.i + x {
                s.vx[a - s.i]
            } else {
                s.mem[a]
            },
    )
}

/// Registers after `LD Vx,[I]`: `V0..=Vx` read from `I..=I+x`.
pub open spec fn restored_regs(s: CpuV, x: u8) -> Seq<u8> {
    Seq::new(
        s.vx.len(),
        |k: int|
            if 0 <= k <= x {
                s.mem[s.i + k]
            } else {
                s.vx[k]
            },
    )
}

} // verus!
