//! The virtual machine: registers, timers, the fetch/decode/execute cycle and the
//! entry points for the driver (timer ticks, key events, the framebuffer).
use vstd::prelude::*;

use crate::display::{blank_frame, pixel_index, Display, FRAME_LEN};
use crate::instructions::{decoded, Instruction};
use crate::keypad::{Key, KeyState, KeyWait, Keypad};
use crate::memory::{
    pop_spec, push_spec, word_at, with_rom, Memory, Registers, Stack, FONT_BASE, GLYPH_SIZE,
    RAM_SIZE, ROM_START,
};

verus! {

/// What can go wrong in a cycle or while loading a program.
#[derive(Debug, PartialEq, Eq)]
pub enum VMError {
    /// The opcode matches no instruction.
    UnknownInstruction(u16),
    /// A register named as a key holds a value above `0xF`.
    UnknownKey(u8),
    /// The program could not be loaded.
    RomLoadFailure(String),
    /// A return with no call to return from.
    StackUnderflow(),
    /// A call beyond the stack's depth.
    StackOverflow(),
    /// An instruction reached past the end of memory from this address.
    AddressOutOfRange(usize),
}

/// The program counter is a 16-bit register: it wraps at this bound.
pub const PC_BOUND: usize = 0x10000;

/// Everything the machine holds, as mathematical values.
pub struct MachineState {
    /// Memory, byte by byte.
    pub mem: Seq<u8>,
    /// The program counter.
    pub pc: int,
    /// `V0` to `VF`.
    pub regs: Seq<u8>,
    /// The index register `I`.
    pub index: u16,
    /// Return addresses, the top last.
    pub stack: Seq<u16>,
    /// How many return addresses the stack holds.
    pub stack_max: nat,
    /// The framebuffer, row by row.
    pub pixels: Seq<bool>,
    /// Each key's state, by key code.
    pub keys: Seq<KeyState>,
    /// Where the key-wait protocol stands.
    pub wait: KeyWait,
    /// The delay timer.
    pub delay: u8,
    /// The sound timer.
    pub sound: u8,
}

impl MachineState {
    /// The shapes that every machine's state has.
    pub open spec fn wf(self) -> bool {
        &&& self.mem.len() == RAM_SIZE
        &&& 0 <= self.pc < PC_BOUND
        &&& self.regs.len() == 16
        &&& self.stack.len() <= self.stack_max
        &&& self.pixels.len() == FRAME_LEN
        &&& self.keys.len() == 16
        &&& (self.wait matches KeyWait::WaitingForPress(r) ==> r < 16)
    }

    pub open spec fn with_reg(self, r: u8, v: u8) -> MachineState {
        MachineState { regs: self.regs.update(r as int, v), ..self }
    }

    pub open spec fn with_mem(self, mem: Seq<u8>) -> MachineState {
        MachineState { mem, ..self }
    }

    pub open spec fn with_regs(self, regs: Seq<u8>) -> MachineState {
        MachineState { regs, ..self }
    }

    pub open spec fn with_pixels(self, pixels: Seq<bool>) -> MachineState {
        MachineState { pixels, ..self }
    }

    pub open spec fn with_pc(self, pc: int) -> MachineState {
        MachineState { pc, ..self }
    }

    /// Moves the program counter past one more instruction where `cond` holds.
    pub open spec fn skip_if(self, cond: bool) -> MachineState {
        if cond {
            self.with_pc(pc_plus(self.pc, 2))
        } else {
            self
        }
    }

    pub open spec fn is_waiting(self) -> bool {
        !(self.wait is NotWaiting)
    }
}

/// `pc + d` on the 16-bit program counter.
pub open spec fn pc_plus(pc: int, d: int) -> int {
    (pc + d) % (PC_BOUND as int)
}

/// Row of the sprite drawn at `(vx, vy)` that covers pixel `p`, counted with wraparound.
pub open spec fn sprite_row(p: int, vy: u8) -> int {
    (p / 64 - vy) % 32
}

/// Column of the sprite drawn at `(vx, vy)` that covers pixel `p`, counted with
/// wraparound.
pub open spec fn sprite_col(p: int, vx: u8) -> int {
    (p % 64 - vx) % 64
}

/// Bit `col` of a sprite row, the most significant bit first.
pub open spec fn row_bit(byte: u8, col: int) -> bool {
    (byte >> ((7 - col) as u8)) & 1u8 == 1u8
}

/// Whether the sprite of `n` rows at `mem[i..]`, drawn at `(vx, vy)`, has a set bit over
/// pixel `p`.
pub open spec fn sprite_lit(mem: Seq<u8>, i: int, vx: u8, vy: u8, n: u8, p: int) -> bool {
    let row = sprite_row(p, vy);
    let col = sprite_col(p, vx);
    row < n && col < 8 && row_bit(mem[i + row], col)
}

/// The framebuffer after drawing the sprite: every pixel under a set bit flips.
pub open spec fn drawn(pixels: Seq<bool>, mem: Seq<u8>, i: int, vx: u8, vy: u8, n: u8) -> Seq<bool> {
    Seq::new(pixels.len(), |p: int| pixels[p] != sprite_lit(mem, i, vx, vy, n, p))
}

/// Whether drawing the sprite turns some lit pixel off.
pub open spec fn collides(pixels: Seq<bool>, mem: Seq<u8>, i: int, vx: u8, vy: u8, n: u8) -> bool {
    exists|p: int| 0 <= p < pixels.len() && sprite_lit(mem, i, vx, vy, n, p) && pixels[p]
}

pub open spec fn flag(b: bool) -> u8 {
    if b {
        1
    } else {
        0
    }
}

/// The state after executing `instr` (the program counter already past it), and whether
/// it succeeded; `rnd` is the byte that `Random` draws. Where an instruction fails, the
/// state is left as it was.
pub open spec fn execute_spec(s: MachineState, instr: Instruction, rnd: u8) -> (MachineState, Result<(), VMError>) {
    let ok = Ok::<(), VMError>(());
    match instr {
        Instruction::Unknown(w) => (s, Err(VMError::UnknownInstruction(w))),
        Instruction::ClearScreen => (MachineState { pixels: blank_frame(), ..s }, ok),
        Instruction::ExitSubroutine => {
            let (stack, r) = pop_spec(s.stack);
            match r {
                Ok(addr) => (MachineState { stack, pc: addr as int, ..s }, ok),
                Err(e) => (s, Err(e)),
            }
        },
        Instruction::Jump(a) => (s.with_pc(a as int), ok),
        Instruction::CallSubroutine(a) => {
            let (stack, r) = push_spec(s.stack, s.stack_max, s.pc as u16);
            match r {
                Ok(_) => (MachineState { stack, pc: a as int, ..s }, ok),
                Err(e) => (s, Err(e)),
            }
        },
        Instruction::SkipValEqual(x, nn) => (s.skip_if(s.regs[x as int] == nn), ok),
        Instruction::SkipValNotEqual(x, nn) => (s.skip_if(s.regs[x as int] != nn), ok),
        Instruction::SkipRegEqual(x, y) => (s.skip_if(s.regs[x as int] == s.regs[y as int]), ok),
        Instruction::SkipRegNotEqual(x, y) => (s.skip_if(s.regs[x as int] != s.regs[y as int]), ok),
        Instruction::SetVal(x, nn) => (s.with_reg(x, nn), ok),
        Instruction::AddVal(x, nn) => (s.with_reg(x, ((s.regs[x as int] + nn) % 256) as u8), ok),
        Instruction::SetReg(x, y) => (s.with_reg(x, s.regs[y as int]), ok),
        Instruction::OR(x, y) => (s.with_reg(x, s.regs[x as int] | s.regs[y as int]), ok),
        Instruction::AND(x, y) => (s.with_reg(x, s.regs[x as int] & s.regs[y as int]), ok),
        Instruction::XOR(x, y) => (s.with_reg(x, s.regs[x as int] ^ s.regs[y as int]), ok),
        Instruction::Add(x, y) => {
            let sum = s.regs[x as int] + s.regs[y as int];
            (s.with_reg(x, (sum % 256) as u8).with_reg(15, flag(sum > 255)), ok)
        },
        Instruction::SubLeft(x, y) => {
            let (vx, vy) = (s.regs[x as int], s.regs[y as int]);
            (s.with_reg(x, ((vx - vy) % 256) as u8).with_reg(15, flag(vx >= vy)), ok)
        },
        Instruction::SubRight(x, y) => {
            let (vx, vy) = (s.regs[x as int], s.regs[y as int]);
            (s.with_reg(x, ((vy - vx) % 256) as u8).with_reg(15, flag(vy >= vx)), ok)
        },
        Instruction::ShiftRight(x, _) => {
            let vx = s.regs[x as int];
            (s.with_reg(x, vx / 2).with_reg(15, vx % 2), ok)
        },
        Instruction::ShiftLeft(x, _) => {
            let vx = s.regs[x as int];
            (s.with_reg(x, ((vx * 2) % 256) as u8).with_reg(15, vx / 128), ok)
        },
        Instruction::SetIndex(a) => (MachineState { index: a, ..s }, ok),
        Instruction::JumpOffset(a) => (s.with_pc((s.regs[0] + a) % 4096), ok),
        Instruction::Random(x, nn) => (s.with_reg(x, rnd & nn), ok),
        Instruction::Display(x, y, n) => {
            if s.index + n > RAM_SIZE {
                (s, Err(VMError::AddressOutOfRange(s.index as usize)))
            } else {
                let (vx, vy) = (s.regs[x as int], s.regs[y as int]);
                let pixels = drawn(s.pixels, s.mem, s.index as int, vx, vy, n);
                let hit = collides(s.pixels, s.mem, s.index as int, vx, vy, n);
                (MachineState { pixels, ..s }.with_reg(15, flag(hit)), ok)
            }
        },
        Instruction::SkipIfPressed(x) => {
            let k = s.regs[x as int];
            if k < 16 {
                (s.skip_if(s.keys[k as int] == KeyState::Pressed), ok)
            } else {
                (s, Err(VMError::UnknownKey(k)))
            }
        },
        Instruction::SkipNotPressed(x) => {
            let k = s.regs[x as int];
            if k < 16 {
                (s.skip_if(s.keys[k as int] == KeyState::NotPressed), ok)
            } else {
                (s, Err(VMError::UnknownKey(k)))
            }
        },
        Instruction::GetDelayTimer(x) => (s.with_reg(x, s.delay), ok),
        Instruction::SetDelayTimer(x) => (MachineState { delay: s.regs[x as int], ..s }, ok),
        Instruction::SetSoundTimer(x) => (MachineState { sound: s.regs[x as int], ..s }, ok),
        Instruction::AddToIndex(x) => (MachineState { index: ((s.index + s.regs[x as int]) % 0x10000) as u16, ..s }, ok),
        Instruction::GetKey(x) => {
            if s.is_waiting() {
                (s, ok)
            } else {
                (MachineState { pc: pc_plus(s.pc, -2), wait: KeyWait::WaitingForPress(x), ..s }, ok)
            }
        },
        Instruction::FontChar(x) => {
            let digit = s.regs[x as int] % 16;
            (MachineState { index: (FONT_BASE + digit * GLYPH_SIZE) as u16, ..s }, ok)
        },
        Instruction::BinDecConv(x) => {
            if s.index + 3 > RAM_SIZE {
                (s, Err(VMError::AddressOutOfRange(s.index as usize)))
            } else {
                let v = s.regs[x as int];
                let i = s.index as int;
                let mem = s.mem.update(i, (v / 100) as u8).update(i + 1, ((v / 10) % 10) as u8).update(i + 2, (v % 10) as u8);
                (MachineState { mem, ..s }, ok)
            }
        },
        Instruction::StoreMem(x) => {
            if s.index + x + 1 > RAM_SIZE {
                (s, Err(VMError::AddressOutOfRange(s.index as usize)))
            } else {
                (s.with_mem(stored(s, x)), ok)
            }
        },
        Instruction::LoadMem(x) => {
            if s.index + x + 1 > RAM_SIZE {
                (s, Err(VMError::AddressOutOfRange(s.index as usize)))
            } else {
                (s.with_regs(loaded_regs(s, x)), ok)
            }
        },
    }
}

/// Memory after `V0` to `Vx` are written to it from `I` on.
pub open spec fn stored(s: MachineState, x: u8) -> Seq<u8> {
    Seq::new(s.mem.len(), |a: int| if s.index <= a <= s.index + x { s.regs[a - s.index] } else { s.mem[a] })
}

/// The registers after `V0` to `Vx` are read from memory from `I` on.
pub open spec fn loaded_regs(s: MachineState, x: u8) -> Seq<u8> {
    Seq::new(s.regs.len(), |r: int| if r <= x { s.mem[s.index + r] } else { s.regs[r] })
}

/// One cycle: nothing while a key wait is under way; otherwise fetch the opcode at the
/// program counter, move past it and execute it.
pub open spec fn cycle_spec(s: MachineState, rnd: u8) -> (MachineState, Result<(), VMError>) {
    if s.is_waiting() {
        (s, Ok(()))
    } else if s.pc + 1 >= RAM_SIZE {
        (s, Err(VMError::AddressOutOfRange(s.pc as usize)))
    } else {
        execute_spec(s.with_pc(s.pc + 2), decoded(word_at(s.mem, s.pc)), rnd)
    }
}

/// The state after one 60 Hz tick: both timers count down, stopping at zero.
pub open spec fn tick_spec(s: MachineState) -> MachineState {
    MachineState {
        delay: if s.delay == 0 { 0 } else { (s.delay - 1) as u8 },
        sound: if s.sound == 0 { 0 } else { (s.sound - 1) as u8 },
        ..s
    }
}

/// The state after a key event. Codes above `0xF` are ignored. A press ends a wait for a
/// press, storing the code in the waiting register; then only the release of that same
/// key ends the wait, moving the program counter past the waiting instruction.
pub open spec fn handle_key_spec(s: MachineState, code: u8, is_pressed: bool) -> MachineState {
    if code >= 16 {
        s
    } else {
        let s1 = MachineState {
            keys: s.keys.update(code as int, if is_pressed { KeyState::Pressed } else { KeyState::NotPressed }),
            ..s
        };
        match s.wait {
            KeyWait::WaitingForPress(r) => if is_pressed {
                MachineState { wait: KeyWait::WaitingForRelease(code), ..s1.with_reg(r, code) }
            } else {
                s1
            },
            KeyWait::WaitingForRelease(k) => if !is_pressed && k == code {
                MachineState { wait: KeyWait::NotWaiting, pc: pc_plus(s.pc, 2), ..s1 }
            } else {
                s1
            },
            KeyWait::NotWaiting => s1,
        }
    }
}

/// The state of a new machine.
pub open spec fn initial_state() -> MachineState {
    MachineState {
        mem: crate::memory::initial_memory(),
        pc: ROM_START as int,
        regs: Seq::new(16, |i: int| 0u8),
        index: 0,
        stack: Seq::empty(),
        stack_max: crate::memory::MAX_STACK_SIZE as nat,
        pixels: blank_frame(),
        keys: Seq::new(16, |i: int| KeyState::NotPressed),
        wait: KeyWait::NotWaiting,
        delay: 0,
        sound: 0,
    }
}

/// The state after loading `rom`: its bytes from `ROM_START` on, all else as it was.
pub open spec fn loaded(s: MachineState, rom: Seq<u8>) -> MachineState {
    s.with_mem(with_rom(s.mem, rom))
}

/// Relies on rand's `thread_rng` and `Rng::gen_range` on the non-empty range `0..=255`,
/// which does not panic there: a uniformly drawn byte, of which nothing can be promised.
#[verifier::external_body]
fn random_byte() -> (r: u8) {
    rand::Rng::gen_range(&mut rand::thread_rng(), 0..=255u8)
}

/// A CHIP-8 machine.
pub struct Chip8VM {
    memory: Memory,
    display: Display,
    registers: Registers,
    stack: Stack,
    keypad: Keypad,
    index_register: u16,
    delay_timer: u8,
    sound_timer: u8,
}

impl View for Chip8VM {
    type V = MachineState;

    closed spec fn view(&self) -> MachineState {
        MachineState {
            mem: self.memory@,
            pc: self.memory.pc() as int,
            regs: self.registers@,
            index: self.index_register,
            stack: self.stack@,
            stack_max: self.stack.max_size() as nat,
            pixels: self.display@,
            keys: self.keypad.keys(),
            wait: self.keypad.wait_state(),
            delay: self.delay_timer,
            sound: self.sound_timer,
        }
    }
}

impl Chip8VM {
    pub closed spec fn wf(&self) -> bool {
        &&& self.memory.wf()
        &&& self.display.wf()
        &&& self.registers.wf()
        &&& self.stack.wf()
        &&& self.keypad.wf()
        &&& self@.wf()
    }

    /// A well-formed machine has the shapes of its state model: 4096 bytes of memory,
    /// sixteen registers, 2048 pixels, sixteen keys.
    pub proof fn lemma_wf_view(&self)
        requires
            self.wf(),
        ensures
            self@.wf(),
    {
    }

    /// A machine with zeroed registers, the font in memory, the program counter at
    /// `ROM_START`, an empty stack, a blank screen and no key down.
    pub fn new() -> (vm: Chip8VM)
        ensures
            vm.wf(),
            vm@ == initial_state(),
    {
        let vm = Chip8VM {
            memory: Memory::new(),
            display: Display::new(),
            registers: Registers::new(),
            stack: Stack::default(),
            keypad: Keypad::new(),
            index_register: 0,
            delay_timer: 0,
            sound_timer: 0,
        };
        assert(vm@.regs =~= initial_state().regs);
        vm
    }

    /// Copies a program into memory from `ROM_START`, leaving the program counter and
    /// everything else as it was; fails, changing nothing, where the program does not fit.
    pub fn load_rom(&mut self, rom: &[u8]) -> (r: Result<(), VMError>)
        requires
            old(self).wf(),
        ensures
            final(self).wf(),
            rom@.len() <= RAM_SIZE - ROM_START ==> r is Ok && final(self)@ == loaded(old(self)@, rom@),
            rom@.len() > RAM_SIZE - ROM_START ==> (r matches Err(VMError::RomLoadFailure(_)))
                && final(self)@ == old(self)@,
    {
        let pc = self.memory.pc();
        let r = self.memory.load_rom(rom);
        self.memory.set_pc(pc);
        r
    }

    /// Runs one cycle: nothing while a key wait is under way, else fetch, decode and
    /// execute the instruction at the program counter. `Random` draws a byte at random.
    pub fn run_cycle(&mut self) -> (r: Result<(), VMError>)
        requires
            old(self).wf(),
        ensures
            final(self).wf(),
            (exists|rnd: u8| (final(self)@, r) == cycle_spec(old(self)@, rnd)),
    {
        let ghost s0 = self@;
        if self.keypad.is_waiting() {
            assert((self@, Ok::<(), VMError>(())) == cycle_spec(s0, 0));
            return Ok(());
        }
        let op = match self.memory.fetch_next() {
            Ok(op) => op,
            Err(e) => {
                assert((self@, Err::<(), VMError>(e)) == cycle_spec(s0, 0));
                return Err(e);
            },
        };
        assert(self@ == s0.with_pc(s0.pc + 2));
        let instr = Instruction::decode(op);
        let rnd = Chip8VM::random_operand(instr);
        let r = self.execute_with(instr, rnd);
        assert((self@, r) == cycle_spec(s0, rnd));
        r
    }

    /// A byte drawn at random where `instr` is `Random`, which alone reads it.
    fn random_operand(instr: Instruction) -> u8 {
        match instr {
            Instruction::Random(_, _) => random_byte(),
            _ => 0,
        }
    }

    /// The framebuffer, row by row.
    pub fn get_framebuffer(&self) -> (r: &[bool])
        ensures
            r@ == self@.pixels,
    {
        self.display.get_framebuffer()
    }

    /// The value of register `V<reg>`.
    pub fn register(&self, reg: u8) -> (r: u8)
        requires
            self.wf(),
            reg < 16,
        ensures
            r == self@.regs[reg as int],
    {
        self.registers.get(reg)
    }

    /// The program counter.
    pub fn pc(&self) -> (r: usize)
        ensures
            r == self@.pc,
    {
        self.memory.pc()
    }

    /// The index register `I`.
    pub fn index_register(&self) -> (r: u16)
        ensures
            r == self@.index,
    {
        self.index_register
    }

    /// The delay timer.
    pub fn delay_timer(&self) -> (r: u8)
        ensures
            r == self@.delay,
    {
        self.delay_timer
    }

    /// The sound timer.
    pub fn sound_timer(&self) -> (r: u8)
        ensures
            r == self@.sound,
    {
        self.sound_timer
    }

    /// Whether a key wait is under way, so that cycles do nothing.
    pub fn is_waiting(&self) -> (r: bool)
        ensures
            r == self@.is_waiting(),
    {
        self.keypad.is_waiting()
    }

    /// The byte at `addr`.
    pub fn read_memory(&self, addr: usize) -> (r: u8)
        requires
            self.wf(),
            addr < RAM_SIZE,
        ensures
            r == self@.mem[addr as int],
    {
        self.memory.read(addr)
    }

    /// One 60 Hz tick: both timers count down, stopping at zero.
    pub fn tick_timers(&mut self)
        requires
            old(self).wf(),
        ensures
            final(self).wf(),
            final(self)@ == tick_spec(old(self)@),
    {
        self.delay_timer = if self.delay_timer == 0 {
            0
        } else {
            self.delay_timer - 1
        };
        self.sound_timer = if self.sound_timer == 0 {
            0
        } else {
            self.sound_timer - 1
        };
    }

    /// A key went down (`is_pressed`) or up. Codes above `0xF` are ignored.
    pub fn handle_key(&mut self, key_code: u8, is_pressed: bool)
        requires
            old(self).wf(),
        ensures
            final(self).wf(),
            final(self)@ == handle_key_spec(old(self)@, key_code, is_pressed),
    {
        if let Ok(key) = Key::try_from(key_code) {
            let state = if is_pressed {
                KeyState::Pressed
            } else {
                KeyState::NotPressed
            };
            self.keypad.set_key_state(key, state);
            match self.keypad.wait_state() {
                KeyWait::WaitingForPress(vx) => {
                    if is_pressed {
                        self.registers.set(vx, key_code);
                        self.keypad.set_wait(KeyWait::WaitingForRelease(key_code));
                    }
                },
                KeyWait::WaitingForRelease(wait_key_code) => {
                    if !is_pressed && key_code == wait_key_code {
                        self.keypad.set_wait(KeyWait::NotWaiting);
                        self.advance_pc();
                    }
                },
                KeyWait::NotWaiting => {},
            }
        }
    }

    /// Moves the program counter past one instruction.
    fn advance_pc(&mut self)
        requires
            old(self).memory.pc() < PC_BOUND,
        ensures
            final(self).memory.pc() == pc_plus(old(self).memory.pc() as int, 2),
            final(self).memory@ == old(self).memory@,
            final(self).display == old(self).display,
            final(self).registers == old(self).registers,
            final(self).stack == old(self).stack,
            final(self).keypad == old(self).keypad,
            final(self).index_register == old(self).index_register,
            final(self).delay_timer == old(self).delay_timer,
            final(self).sound_timer == old(self).sound_timer,
    {
        let pc = self.memory.pc();
        self.memory.set_pc((pc + 2) % PC_BOUND);
    }

    /// Executes one instruction; `Random` draws a byte at random.
    pub fn execute(&mut self, instr: Instruction) -> (r: Result<(), VMError>)
        requires
            old(self).wf(),
            instr.wf(),
        ensures
            final(self).wf(),
            (exists|rnd: u8| (final(self)@, r) == execute_spec(old(self)@, instr, rnd)),
    {
        let rnd = Chip8VM::random_operand(instr);
        self.execute_with(instr, rnd)
    }

    /// Executes one instruction, with `rnd` as the byte that `Random` draws.
    pub fn execute_with(&mut self, instr: Instruction, rnd: u8) -> (r: Result<(), VMError>)
        requires
            old(self).wf(),
            instr.wf(),
        ensures
            final(self).wf(),
            (final(self)@, r) == execute_spec(old(self)@, instr, rnd),
    {
        match instr {
            Instruction::Unknown(code) => Err(VMError::UnknownInstruction(code)),
            Instruction::ClearScreen | Instruction::ExitSubroutine | Instruction::Jump(..)
            | Instruction::CallSubroutine(..) | Instruction::JumpOffset(..) | Instruction::GetKey(..) => {
                self.execute_flow(instr)
            },
            Instruction::SkipValEqual(..) | Instruction::SkipValNotEqual(..) | Instruction::SkipRegEqual(..)
            | Instruction::SkipRegNotEqual(..) => self.execute_skip(instr),
            Instruction::SetVal(..) | Instruction::AddVal(..) | Instruction::SetReg(..)
            | Instruction::OR(..) | Instruction::AND(..) | Instruction::XOR(..)
            | Instruction::Add(..) | Instruction::SubLeft(..) | Instruction::SubRight(..)
            | Instruction::ShiftRight(..) | Instruction::ShiftLeft(..) | Instruction::Random(..) => {
                self.execute_alu(instr, rnd)
            },
            Instruction::SetIndex(..) | Instruction::AddToIndex(..) | Instruction::FontChar(..)
            | Instruction::Display(..) | Instruction::BinDecConv(..) | Instruction::StoreMem(..)
            | Instruction::LoadMem(..) => {
                self.execute_memory(instr)
            },
            Instruction::SkipIfPressed(..) | Instruction::SkipNotPressed(..)
            | Instruction::GetDelayTimer(..) | Instruction::SetDelayTimer(..)
            | Instruction::SetSoundTimer(..) => {
                self.execute_io(instr)
            },
        }
    }

    /// Executes an instruction that clears the screen or moves the program counter.
    fn execute_flow(&mut self, instr: Instruction) -> (r: Result<(), VMError>)
        requires
            old(self).wf(),
            instr.wf(),
            ({
                ||| instr is ClearScreen || instr is ExitSubroutine || instr is Jump
                ||| instr is CallSubroutine || instr is JumpOffset || instr is GetKey
            }),
        ensures
            final(self).wf(),
            (final(self)@, r) == execute_spec(old(self)@, instr, 0),
    {
        match instr {
            Instruction::ClearScreen => {
                self.display.clear();
                Ok(())
            },
            Instruction::ExitSubroutine => match self.stack.pop() {
                Ok(addr) => {
                    self.memory.set_pc(addr as usize);
                    Ok(())
                },
                Err(e) => Err(e),
            },
            Instruction::Jump(addr) => {
                self.memory.set_pc(addr as usize);
                Ok(())
            },
            Instruction::CallSubroutine(addr) => {
                let pc = self.memory.pc();
                match self.stack.push(pc as u16) {
                    Ok(()) => {
                        self.memory.set_pc(addr as usize);
                        Ok(())
                    },
                    Err(e) => Err(e),
                }
            },
            Instruction::JumpOffset(val) => {
                let v0 = self.registers.get(0);
                self.memory.set_pc((v0 as usize + val as usize) % 4096);
                Ok(())
            },
            Instruction::GetKey(vx) => {
                if !self.keypad.is_waiting() {
                    // park on this instruction until the key is released
                    let pc = self.memory.pc();
                    proof {
                        vstd::arithmetic::div_mod::lemma_mod_add_multiples_vanish(pc - 2, PC_BOUND as int);
                    }
                    self.memory.set_pc((pc + PC_BOUND - 2) % PC_BOUND);
                    self.keypad.set_wait(KeyWait::WaitingForPress(vx));
                }
                Ok(())
            },
            _ => Ok(()),
        }
    }

    /// Executes a conditional skip of the next instruction.
    fn execute_skip(&mut self, instr: Instruction) -> (r: Result<(), VMError>)
        requires
            old(self).wf(),
            instr.wf(),
            ({
                ||| instr is SkipValEqual || instr is SkipValNotEqual || instr is SkipRegEqual
                ||| instr is SkipRegNotEqual
            }),
        ensures
            final(self).wf(),
            (final(self)@, r) == execute_spec(old(self)@, instr, 0),
    {
        match instr {
            Instruction::SkipValEqual(vx, val) => {
                if self.registers.get(vx) == val {
                    self.advance_pc();
                }
                Ok(())
            },
            Instruction::SkipValNotEqual(vx, val) => {
                if self.registers.get(vx) != val {
                    self.advance_pc();
                }
                Ok(())
            },
            Instruction::SkipRegEqual(vx, vy) => {
                if self.registers.get(vx) == self.registers.get(vy) {
                    self.advance_pc();
                }
                Ok(())
            },
            Instruction::SkipRegNotEqual(vx, vy) => {
                if self.registers.get(vx) != self.registers.get(vy) {
                    self.advance_pc();
                }
                Ok(())
            },
            _ => Ok(()),
        }
    }

    /// Executes an instruction that computes a register from registers and operands.
    fn execute_alu(&mut self, instr: Instruction, rnd: u8) -> (r: Result<(), VMError>)
        requires
            old(self).wf(),
            instr.wf(),
            ({
                ||| instr is SetVal || instr is AddVal || instr is SetReg
                ||| instr is OR || instr is AND || instr is XOR
                ||| instr is Add || instr is SubLeft || instr is SubRight
                ||| instr is ShiftRight || instr is ShiftLeft || instr is Random
            }),
        ensures
            final(self).wf(),
            (final(self)@, r) == execute_spec(old(self)@, instr, rnd),
    {
        match instr {
            Instruction::SetVal(vx, val) => {
                self.registers.set(vx, val);
                Ok(())
            },
            Instruction::AddVal(vx, val) => {
                self.registers.add(vx, val);
                Ok(())
            },
            Instruction::SetReg(vx, vy) => {
                let v = self.registers.get(vy);
                self.registers.set(vx, v);
                Ok(())
            },
            Instruction::OR(vx, vy) => {
                let v = self.registers.get(vx) | self.registers.get(vy);
                self.registers.set(vx, v);
                Ok(())
            },
            Instruction::AND(vx, vy) => {
                let v = self.registers.get(vx) & self.registers.get(vy);
                self.registers.set(vx, v);
                Ok(())
            },
            Instruction::XOR(vx, vy) => {
                let v = self.registers.get(vx) ^ self.registers.get(vy);
                self.registers.set(vx, v);
                Ok(())
            },
            Instruction::Add(vx, vy) => {
                let vx_val = self.registers.get(vx);
                let vy_val = self.registers.get(vy);
                self.registers.add(vx, vy_val);
                // carry flag
                self.registers.set(0xF, if vx_val as u16 + vy_val as u16 > 255 { 1 } else { 0 });
                Ok(())
            },
            Instruction::SubLeft(vx, vy) => {
                let vx_val = self.registers.get(vx);
                let vy_val = self.registers.get(vy);
                self.registers.sub(vx, vy_val);
                // no-borrow flag
                self.registers.set(0xF, if vx_val >= vy_val { 1 } else { 0 });
                Ok(())
            },
            Instruction::SubRight(vx, vy) => {
                let vx_val = self.registers.get(vx);
                let vy_val = self.registers.get(vy);
                self.registers.set(vx, vy_val.wrapping_sub(vx_val));
                // no-borrow flag
                self.registers.set(0xF, if vy_val >= vx_val { 1 } else { 0 });
                Ok(())
            },
            Instruction::ShiftRight(vx, _) => {
                let v = self.registers.get(vx);
                let shifted = v >> 1;
                let low = v & 1;
                assert(shifted == v / 2 && low == v % 2) by (bit_vector)
                    requires
                        shifted == v >> 1,
                        low == v & 1,
                ;
                self.registers.set(vx, shifted);
                self.registers.set(0xF, low);
                Ok(())
            },
            Instruction::ShiftLeft(vx, _) => {
                let v = self.registers.get(vx);
                let shifted = v << 1;
                let high = (v >> 7) & 1;
                assert(shifted == (v * 2) % 256 && high == v / 128) by (bit_vector)
                    requires
                        shifted == v << 1,
                        high == (v >> 7) & 1,
                ;
                self.registers.set(vx, shifted);
                self.registers.set(0xF, high);
                Ok(())
            },
            Instruction::Random(vx, val) => {
                self.registers.set(vx, rnd & val);
                Ok(())
            },
            _ => Ok(()),
        }
    }

    /// Executes an instruction that uses the index register and memory.
    fn execute_memory(&mut self, instr: Instruction) -> (r: Result<(), VMError>)
        requires
            old(self).wf(),
            instr.wf(),
            ({
                ||| instr is SetIndex || instr is AddToIndex || instr is FontChar
                ||| instr is Display || instr is BinDecConv || instr is StoreMem
                ||| instr is LoadMem
            }),
        ensures
            final(self).wf(),
            (final(self)@, r) == execute_spec(old(self)@, instr, 0),
    {
        match instr {
            Instruction::SetIndex(val) => {
                self.index_register = val;
                Ok(())
            },
            Instruction::AddToIndex(vx) => {
                let v = self.registers.get(vx);
                self.index_register = self.index_register.wrapping_add(v as u16);
                Ok(())
            },
            Instruction::FontChar(vx) => {
                let digit = self.registers.get(vx) % 16;
                self.index_register = (FONT_BASE + digit as usize * GLYPH_SIZE) as u16;
                Ok(())
            },
            Instruction::Display(vx, vy, height) => {
                let i = self.index_register as usize;
                if i + height as usize > RAM_SIZE {
                    return Err(VMError::AddressOutOfRange(i));
                }
                let x = self.registers.get(vx);
                let y = self.registers.get(vy);
                let hit = self.draw_sprite(x, y, height);
                self.registers.set(0xF, if hit { 1 } else { 0 });
                Ok(())
            },
            Instruction::BinDecConv(vx) => {
                let i = self.index_register as usize;
                if i + 3 > RAM_SIZE {
                    return Err(VMError::AddressOutOfRange(i));
                }
                let v = self.registers.get(vx);
                self.memory.write(i, v / 100);
                self.memory.write(i + 1, v / 10 % 10);
                self.memory.write(i + 2, v % 10);
                Ok(())
            },
            Instruction::StoreMem(vx) => {
                let i = self.index_register as usize;
                if i + vx as usize + 1 > RAM_SIZE {
                    return Err(VMError::AddressOutOfRange(i));
                }
                self.store_registers(vx);
                Ok(())
            },
            Instruction::LoadMem(vx) => {
                let i = self.index_register as usize;
                if i + vx as usize + 1 > RAM_SIZE {
                    return Err(VMError::AddressOutOfRange(i));
                }
                self.load_registers(vx);
                Ok(())
            },
            _ => Ok(()),
        }
    }

    /// Executes an instruction that reads the keypad or the timers.
    fn execute_io(&mut self, instr: Instruction) -> (r: Result<(), VMError>)
        requires
            old(self).wf(),
            instr.wf(),
            ({
                ||| instr is SkipIfPressed || instr is SkipNotPressed || instr is GetDelayTimer
                ||| instr is SetDelayTimer || instr is SetSoundTimer
            }),
        ensures
            final(self).wf(),
            (final(self)@, r) == execute_spec(old(self)@, instr, 0),
    {
        match instr {
            Instruction::SkipIfPressed(vx) => {
                let k = self.registers.get(vx);
                match Key::try_from(k) {
                    Ok(key) => {
                        if self.keypad.key_state(key) == KeyState::Pressed {
                            self.advance_pc();
                        }
                        Ok(())
                    },
                    Err(e) => Err(e),
                }
            },
            Instruction::SkipNotPressed(vx) => {
                let k = self.registers.get(vx);
                match Key::try_from(k) {
                    Ok(key) => {
                        if self.keypad.key_state(key) == KeyState::NotPressed {
                            self.advance_pc();
                        }
                        Ok(())
                    },
                    Err(e) => Err(e),
                }
            },
            Instruction::GetDelayTimer(vx) => {
                self.registers.set(vx, self.delay_timer);
                Ok(())
            },
            Instruction::SetDelayTimer(vx) => {
                self.delay_timer = self.registers.get(vx);
                Ok(())
            },
            Instruction::SetSoundTimer(vx) => {
                self.sound_timer = self.registers.get(vx);
                Ok(())
            },
            _ => Ok(()),
        }
    }

    /// Writes `V0` to `Vx` to memory from `I` on.
    fn store_registers(&mut self, x: u8)
        requires
            old(self).wf(),
            x < 16,
            old(self).index_register + x + 1 <= RAM_SIZE,
        ensures
            final(self).wf(),
            final(self)@ == old(self)@.with_mem(stored(old(self)@, x)),
    {
        let ghost s0 = self@;
        let i = self.index_register as usize;
        let mut vn: u8 = 0;
        while vn <= x
            invariant
                x < 16,
                i == s0.index,
                i + x + 1 <= RAM_SIZE,
                vn <= x + 1,
                self.wf(),
                self@ == s0.with_mem(self@.mem),
                forall|a: int|
                    0 <= a < RAM_SIZE ==> self@.mem[a] == (if i <= a < i + vn {
                        s0.regs[a - i]
                    } else {
                        s0.mem[a]
                    }),
            decreases x + 1 - vn,
        {
            let v = self.registers.get(vn);
            self.memory.write(i + vn as usize, v);
            vn = vn + 1;
        }
        assert(self@.mem =~= stored(s0, x));
    }

    /// Reads `V0` to `Vx` from memory from `I` on.
    fn load_registers(&mut self, x: u8)
        requires
            old(self).wf(),
            x < 16,
            old(self).index_register + x + 1 <= RAM_SIZE,
        ensures
            final(self).wf(),
            final(self)@ == old(self)@.with_regs(loaded_regs(old(self)@, x)),
    {
        let ghost s0 = self@;
        let i = self.index_register as usize;
        let mut vn: u8 = 0;
        while vn <= x
            invariant
                x < 16,
                i == s0.index,
                i + x + 1 <= RAM_SIZE,
                vn <= x + 1,
                self.wf(),
                self@ == s0.with_regs(self@.regs),
                forall|r: int|
                    0 <= r < 16 ==> self@.regs[r] == (if r < vn {
                        s0.mem[i + r]
                    } else {
                        s0.regs[r]
                    }),
            decreases x + 1 - vn,
        {
            let v = self.memory.read(i + vn as usize);
            self.registers.set(vn, v);
            vn = vn + 1;
        }
        assert(self@.regs =~= loaded_regs(s0, x));
    }

    /// Draws the sprite of `n` rows at memory `I` with its top-left corner at `(vx, vy)`,
    /// wrapping around the edges; returns whether a lit pixel was turned off.
    fn draw_sprite(&mut self, vx: u8, vy: u8, n: u8) -> (hit: bool)
        requires
            old(self).wf(),
            n < 16,
            old(self).index_register + n <= RAM_SIZE,
        ensures
            final(self).wf(),
            final(self)@ == old(self)@.with_pixels(
                drawn(old(self)@.pixels, old(self)@.mem, old(self)@.index as int, vx, vy, n),
            ),
            hit == collides(old(self)@.pixels, old(self)@.mem, old(self)@.index as int, vx, vy, n),
    {
        let ghost s0 = self@;
        let ghost px0 = s0.pixels;
        let ghost mem = s0.mem;
        let i = self.index_register as usize;
        let mut hit = false;
        let mut r: u8 = 0;
        while r < n
            invariant
                px0 == s0.pixels,
                mem == s0.mem,
                n < 16,
                i == s0.index,
                i + n <= RAM_SIZE,
                r <= n,
                self.wf(),
                self@ == s0.with_pixels(self@.pixels),
                self@.pixels == drawn_upto(px0, mem, i as int, vx, vy, n, r as int, 0),
                hit == collides_upto(px0, mem, i as int, vx, vy, n, r as int, 0),
            decreases n - r,
        {
            let byte = self.memory.read(i + r as usize);
            assert(byte == mem[i + r]);
            let mut c: u8 = 0;
            while c < 8
                invariant
                    px0 == s0.pixels,
                    mem == s0.mem,
                    n < 16,
                    i == s0.index,
                    i + n <= RAM_SIZE,
                    r < n,
                    c <= 8,
                    byte == mem[i + r],
                    self.wf(),
                    self@ == s0.with_pixels(self@.pixels),
                    self@.pixels == drawn_upto(px0, mem, i as int, vx, vy, n, r as int, c as int),
                    hit == collides_upto(px0, mem, i as int, vx, vy, n, r as int, c as int),
                decreases 8 - c,
            {
                let b = (byte >> (7 - c)) & 1;
                let x = vx as usize + c as usize;
                let y = vy as usize + r as usize;
                let ghost p0 = pixel_index(x as int, y as int);
                proof {
                    lemma_sprite_cell(vx, vy, r as int, c as int);
                    assert(sprite_lit(mem, i as int, vx, vy, n, p0) == (b == 1));
                }
                let ghost before = self@.pixels;
                if b == 1 {
                    if self.display.get(x, y) {
                        self.display.set(x, y, false);
                        hit = true;
                    } else {
                        self.display.set(x, y, true);
                    }
                }
                proof {
                    assert(self@.pixels =~= drawn_upto(px0, mem, i as int, vx, vy, n, r as int, c + 1));
                    if b == 1 && before[p0] {
                        assert(drawn_before(p0, vx, vy, r as int, c + 1));
                    }
                    if collides_upto(px0, mem, i as int, vx, vy, n, r as int, c + 1) {
                        let p = choose|p: int|
                            0 <= p < px0.len() && drawn_before(p, vx, vy, r as int, c + 1)
                                && sprite_lit(mem, i as int, vx, vy, n, p) && px0[p];
                        if p != p0 {
                            assert(drawn_before(p, vx, vy, r as int, c as int));
                        }
                    }
                }
                c = c + 1;
            }
            proof {
                assert(drawn_upto(px0, mem, i as int, vx, vy, n, r as int, 8) =~= drawn_upto(
                    px0,
                    mem,
                    i as int,
                    vx,
                    vy,
                    n,
                    r + 1,
                    0,
                ));
                lemma_collides_next_row(px0, mem, i as int, vx, vy, n, r as int);
            }
            r = r + 1;
        }
        proof {
            assert(drawn_upto(px0, mem, i as int, vx, vy, n, n as int, 0) =~= drawn(px0, mem, i as int, vx, vy, n));
            lemma_collides_all_rows(px0, mem, i as int, vx, vy, n);
        }
        hit
    }
}

/// Whether pixel `p`, under the sprite, comes before row `r`, column `c` in drawing order.
spec fn drawn_before(p: int, vx: u8, vy: u8, r: int, c: int) -> bool {
    sprite_row(p, vy) < r || (sprite_row(p, vy) == r && sprite_col(p, vx) < c)
}

/// The framebuffer once the sprite has been drawn up to row `r`, column `c`.
spec fn drawn_upto(pixels: Seq<bool>, mem: Seq<u8>, i: int, vx: u8, vy: u8, n: u8, r: int, c: int) -> Seq<bool> {
    Seq::new(
        pixels.len(),
        |p: int| pixels[p] != (sprite_lit(mem, i, vx, vy, n, p) && drawn_before(p, vx, vy, r, c)),
    )
}

/// Whether drawing up to row `r`, column `c` has turned a lit pixel off.
spec fn collides_upto(pixels: Seq<bool>, mem: Seq<u8>, i: int, vx: u8, vy: u8, n: u8, r: int, c: int) -> bool {
    exists|p: int|
        0 <= p < pixels.len() && drawn_before(p, vx, vy, r, c) && sprite_lit(mem, i, vx, vy, n, p)
            && pixels[p]
}

proof fn lemma_collides_next_row(pixels: Seq<bool>, mem: Seq<u8>, i: int, vx: u8, vy: u8, n: u8, r: int)
    ensures
        collides_upto(pixels, mem, i, vx, vy, n, r, 8) == collides_upto(pixels, mem, i, vx, vy, n, r + 1, 0),
{
    if collides_upto(pixels, mem, i, vx, vy, n, r + 1, 0) {
        let p = choose|p: int|
            0 <= p < pixels.len() && drawn_before(p, vx, vy, r + 1, 0) && sprite_lit(mem, i, vx, vy, n, p)
                && pixels[p];
        assert(drawn_before(p, vx, vy, r, 8));
    }
}

proof fn lemma_collides_all_rows(pixels: Seq<bool>, mem: Seq<u8>, i: int, vx: u8, vy: u8, n: u8)
    ensures
        collides_upto(pixels, mem, i, vx, vy, n, n as int, 0) == collides(pixels, mem, i, vx, vy, n),
{
    if collides(pixels, mem, i, vx, vy, n) {
        let p = choose|p: int| 0 <= p < pixels.len() && sprite_lit(mem, i, vx, vy, n, p) && pixels[p];
        assert(drawn_before(p, vx, vy, n as int, 0));
    }
}

/// The sprite cell at row `r`, column `c` lands on exactly one pixel, the one that
/// `(vx + c, vy + r)` addresses.
proof fn lemma_sprite_cell(vx: u8, vy: u8, r: int, c: int)
    requires
        0 <= r < 32,
        0 <= c < 64,
    ensures
        ({
            let p0 = pixel_index(vx + c, vy + r);
            &&& 0 <= p0 < FRAME_LEN
            &&& sprite_row(p0, vy) == r
            &&& sprite_col(p0, vx) == c
            &&& forall|p: int|
                0 <= p < FRAME_LEN && sprite_row(p, vy) == r && sprite_col(p, vx) == c ==> p == p0
        }),
{
    let y0 = (vy + r) % 32;
    let x0 = (vx + c) % 64;
    let p0 = pixel_index(vx + c, vy + r);
    assert(p0 == y0 * 64 + x0);
    vstd::arithmetic::div_mod::lemma_fundamental_div_mod_converse(p0, 64, y0, x0);
    assert(sprite_row(p0, vy) == r);
    assert(sprite_col(p0, vx) == c);
    assert forall|p: int|
        0 <= p < FRAME_LEN && sprite_row(p, vy) == r && sprite_col(p, vx) == c implies p == p0 by {
        vstd::arithmetic::div_mod::lemma_fundamental_div_mod(p, 64);
        assert(p / 64 == y0);
        assert(p % 64 == x0);
    }
}

} // verus!
