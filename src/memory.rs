//! Byte memory with the font preloaded and the program counter, the general registers,
//! and the bounded return-address stack.
use vstd::prelude::*;

use crate::vm::VMError;

verus! {

/// Bytes of memory.
pub const RAM_SIZE: usize = 4096;

/// Address at which a program is loaded and execution starts.
pub const ROM_START: usize = 0x200;

/// Address of the first font glyph; the glyphs follow one another from there.
pub const FONT_BASE: usize = 0x50;

/// Bytes per font glyph.
pub const GLYPH_SIZE: usize = 5;

/// Number of general registers, `V0` to `VF`.
pub const NUM_REGISTERS: usize = 16;

/// Depth of the stack that a new machine gets: deeper than the 16 levels of the classic
/// interpreter, so that a call overflows only at the 101st nested level.
pub const MAX_STACK_SIZE: usize = 100;

/// The sixteen hexadecimal glyphs `0` to `F`, five rows of four pixels each, one after
/// the other.
pub open spec fn font_glyphs() -> Seq<u8> {
    seq![
        0xF0, 0x90, 0x90, 0x90, 0xF0,
        0x20, 0x60, 0x20, 0x20, 0x70,
        0xF0, 0x10, 0xF0, 0x80, 0xF0,
        0xF0, 0x10, 0xF0, 0x10, 0xF0,
        0x90, 0x90, 0xF0, 0x10, 0x10,
        0xF0, 0x80, 0xF0, 0x10, 0xF0,
        0xF0, 0x80, 0xF0, 0x90, 0xF0,
        0xF0, 0x10, 0x20, 0x40, 0x40,
        0xF0, 0x90, 0xF0, 0x90, 0xF0,
        0xF0, 0x90, 0xF0, 0x10, 0xF0,
        0xF0, 0x90, 0xF0, 0x90, 0x90,
        0xE0, 0x90, 0xE0, 0x90, 0xE0,
        0xF0, 0x80, 0x80, 0x80, 0xF0,
        0xE0, 0x90, 0x90, 0x90, 0xE0,
        0xF0, 0x80, 0xF0, 0x80, 0xF0,
        0xF0, 0x80, 0xF0, 0x80, 0x80u8,
    ]
}

/// Memory as a new machine has it: the font at `FONT_BASE`, zero elsewhere.
pub open spec fn initial_memory() -> Seq<u8> {
    Seq::new(
        RAM_SIZE as nat,
        |i: int|
            if FONT_BASE <= i < FONT_BASE + font_glyphs().len() {
                font_glyphs()[i - FONT_BASE]
            } else {
                0u8
            },
    )
}

/// The big-endian word at `addr` and `addr + 1`.
pub open spec fn word_at(mem: Seq<u8>, addr: int) -> u16 {
    (mem[addr] as int * 256 + mem[addr + 1] as int) as u16
}

/// `mem` with `rom` copied in from `ROM_START`.
pub open spec fn with_rom(mem: Seq<u8>, rom: Seq<u8>) -> Seq<u8> {
    Seq::new(
        mem.len(),
        |i: int|
            if ROM_START <= i < ROM_START + rom.len() {
                rom[i - ROM_START]
            } else {
                mem[i]
            },
    )
}

/// The machine's memory and its program counter.
pub struct Memory {
    data: Vec<u8>,
    pc: usize,
}

impl View for Memory {
    type V = Seq<u8>;

    closed spec fn view(&self) -> Seq<u8> {
        self.data@
    }
}

impl Memory {
    pub closed spec fn spec_pc(&self) -> usize {
        self.pc
    }

    pub open spec fn wf(&self) -> bool {
        self@.len() == RAM_SIZE
    }

    /// Zeroed memory with the font loaded, the program counter at `ROM_START`.
    pub fn new() -> (m: Memory)
        ensures
            m.wf(),
            m@ == initial_memory(),
            m.pc() == ROM_START,
    {
        let font: Vec<u8> = vec![
            0xF0, 0x90, 0x90, 0x90, 0xF0,
            0x20, 0x60, 0x20, 0x20, 0x70,
            0xF0, 0x10, 0xF0, 0x80, 0xF0,
            0xF0, 0x10, 0xF0, 0x10, 0xF0,
            0x90, 0x90, 0xF0, 0x10, 0x10,
            0xF0, 0x80, 0xF0, 0x10, 0xF0,
            0xF0, 0x80, 0xF0, 0x90, 0xF0,
            0xF0, 0x10, 0x20, 0x40, 0x40,
            0xF0, 0x90, 0xF0, 0x90, 0xF0,
            0xF0, 0x90, 0xF0, 0x10, 0xF0,
            0xF0, 0x90, 0xF0, 0x90, 0x90,
            0xE0, 0x90, 0xE0, 0x90, 0xE0,
            0xF0, 0x80, 0x80, 0x80, 0xF0,
            0xE0, 0x90, 0x90, 0x90, 0xE0,
            0xF0, 0x80, 0xF0, 0x80, 0xF0,
            0xF0, 0x80, 0xF0, 0x80, 0x80,
        ];
        assert(font@ =~= font_glyphs());
        let mut data: Vec<u8> = vec![0u8; RAM_SIZE];
        let mut i: usize = 0;
        while i < font.len()
            invariant
                font@ == font_glyphs(),
                i <= font@.len(),
                data@.len() == RAM_SIZE,
                forall|j: int| 0 <= j < i ==> data@[FONT_BASE + j] == font@[j],
                forall|j: int| 0 <= j < FONT_BASE ==> data@[j] == 0,
                forall|j: int| FONT_BASE + i <= j < RAM_SIZE ==> data@[j] == 0,
            decreases font.len() - i,
        {
            data.set(FONT_BASE + i, font[i]);
            i = i + 1;
        }
        let m = Memory { data, pc: ROM_START };
        assert(m@ =~= initial_memory());
        m
    }

    /// The program counter.
    #[verifier::when_used_as_spec(spec_pc)]
    pub fn pc(&self) -> (r: usize)
        ensures
            r == self.pc(),
    {
        self.pc
    }

    pub fn set_pc(&mut self, pc: usize)
        ensures
            final(self)@ == old(self)@,
            final(self).pc() == pc,
    {
        self.pc = pc
    }

    pub fn add_pc(&mut self, val: usize)
        requires
            old(self).pc() + val <= usize::MAX,
        ensures
            final(self)@ == old(self)@,
            final(self).pc() == old(self).pc() + val,
    {
        self.pc = self.pc + val
    }

    pub fn write(&mut self, addr: usize, val: u8)
        requires
            old(self).wf(),
            addr < RAM_SIZE,
        ensures
            final(self).wf(),
            final(self)@ == old(self)@.update(addr as int, val),
            final(self).pc() == old(self).pc(),
    {
        self.data.set(addr, val);
    }

    /// Writes `val` at `addr`, as `write` does.
    pub fn set(&mut self, addr: usize, val: u8)
        requires
            old(self).wf(),
            addr < RAM_SIZE,
        ensures
            final(self).wf(),
            final(self)@ == old(self)@.update(addr as int, val),
            final(self).pc() == old(self).pc(),
    {
        self.write(addr, val);
    }

    pub fn read(&self, addr: usize) -> (r: u8)
        requires
            self.wf(),
            addr < RAM_SIZE,
        ensures
            r == self@[addr as int],
    {
        self.data[addr]
    }

    /// Reads the opcode at the program counter and moves the counter past it; fails,
    /// changing nothing, where the opcode would reach past the end of memory.
    pub fn fetch_next(&mut self) -> (r: Result<u16, VMError>)
        requires
            old(self).wf(),
        ensures
            final(self).wf(),
            final(self)@ == old(self)@,
            old(self).pc() + 1 < RAM_SIZE ==> r == Ok::<u16, VMError>(word_at(old(self)@, old(self).pc() as int))
                && final(self).pc() == old(self).pc() + 2,
            old(self).pc() + 1 >= RAM_SIZE ==> r == Err::<u16, VMError>(VMError::AddressOutOfRange(old(self).pc()))
                && final(self).pc() == old(self).pc(),
    {
        if self.pc >= RAM_SIZE - 1 {
            return Err(VMError::AddressOutOfRange(self.pc));
        }
        let hi = self.data[self.pc] as u16;
        let lo = self.data[self.pc + 1] as u16;
        let op = (hi << 8) | lo;
        assert(op == hi * 256 + lo) by (bit_vector)
            requires
                op == (hi << 8) | lo,
                hi < 256,
                lo < 256,
        ;
        self.pc = self.pc + 2;
        Ok(op)
    }

    /// Copies `rom` into memory from `ROM_START` and moves the program counter there;
    /// fails, changing nothing, where `rom` does not fit.
    pub fn load_rom(&mut self, rom: &[u8]) -> (r: Result<(), VMError>)
        requires
            old(self).wf(),
        ensures
            final(self).wf(),
            rom@.len() <= RAM_SIZE - ROM_START ==> r is Ok && final(self)@ == with_rom(old(self)@, rom@)
                && final(self).pc() == ROM_START,
            rom@.len() > RAM_SIZE - ROM_START ==> (r matches Err(VMError::RomLoadFailure(_)))
                && final(self)@ == old(self)@ && final(self).pc() == old(self).pc(),
    {
        if rom.len() > RAM_SIZE - ROM_START {
            return Err(VMError::RomLoadFailure(String::from_str("rom is too large to fit into memory")));
        }
        let ghost before = self@;
        let mut i: usize = 0;
        while i < rom.len()
            invariant
                rom@.len() <= RAM_SIZE - ROM_START,
                i <= rom@.len(),
                self.wf(),
                forall|j: int| 0 <= j < RAM_SIZE ==> self@[j] == (if ROM_START <= j < ROM_START + i {
                    rom@[j - ROM_START]
                } else {
                    before[j]
                }),
            decreases rom.len() - i,
        {
            self.data.set(ROM_START + i, rom[i]);
            i = i + 1;
        }
        self.pc = ROM_START;
        assert(self@ =~= with_rom(before, rom@));
        Ok(())
    }
}

/// The general registers `V0` to `VF`.
pub struct Registers {
    data: Vec<u8>,
}

impl View for Registers {
    type V = Seq<u8>;

    closed spec fn view(&self) -> Seq<u8> {
        self.data@
    }
}

impl Registers {
    pub open spec fn wf(&self) -> bool {
        self@.len() == NUM_REGISTERS
    }

    /// Sixteen registers, all zero.
    pub fn new() -> (r: Registers)
        ensures
            r.wf(),
            r@ == Seq::new(NUM_REGISTERS as nat, |i: int| 0u8),
    {
        let r = Registers { data: vec![0u8; NUM_REGISTERS] };
        assert(r@ =~= Seq::new(NUM_REGISTERS as nat, |i: int| 0u8));
        r
    }

    pub fn get(&self, reg: u8) -> (r: u8)
        requires
            self.wf(),
            reg < NUM_REGISTERS,
        ensures
            r == self@[reg as int],
    {
        self.data[reg as usize]
    }

    pub fn set(&mut self, reg: u8, val: u8)
        requires
            old(self).wf(),
            reg < NUM_REGISTERS,
        ensures
            final(self).wf(),
            final(self)@ == old(self)@.update(reg as int, val),
    {
        self.data.set(reg as usize, val);
    }

    /// Adds `val` to the register, modulo 256.
    pub fn add(&mut self, reg: u8, val: u8)
        requires
            old(self).wf(),
            reg < NUM_REGISTERS,
        ensures
            final(self).wf(),
            final(self)@ == old(self)@.update(reg as int, ((old(self)@[reg as int] + val) % 256) as u8),
    {
        let reg_val = self.data[reg as usize];
        self.data.set(reg as usize, reg_val.wrapping_add(val));
    }

    /// Subtracts `val` from the register, modulo 256.
    pub fn sub(&mut self, reg: u8, val: u8)
        requires
            old(self).wf(),
            reg < NUM_REGISTERS,
        ensures
            final(self).wf(),
            final(self)@ == old(self)@.update(reg as int, ((old(self)@[reg as int] - val) % 256) as u8),
    {
        let reg_val = self.data[reg as usize];
        self.data.set(reg as usize, reg_val.wrapping_sub(val));
    }
}

/// The stack after pushing `value` onto `items` with room for `max_size`, and whether the
/// push succeeded; a full stack is left as it is.
pub open spec fn push_spec(items: Seq<u16>, max_size: nat, value: u16) -> (Seq<u16>, Result<(), VMError>) {
    if items.len() < max_size {
        (items.push(value), Ok(()))
    } else {
        (items, Err(VMError::StackOverflow()))
    }
}

/// The stack after popping from `items`, and the address popped; an empty stack is left
/// as it is.
pub open spec fn pop_spec(items: Seq<u16>) -> (Seq<u16>, Result<u16, VMError>) {
    if items.len() > 0 {
        (items.drop_last(), Ok(items.last()))
    } else {
        (items, Err(VMError::StackUnderflow()))
    }
}

/// Pushes each of `values` in turn; `None` as soon as one push fails.
pub open spec fn push_all(items: Seq<u16>, max_size: nat, values: Seq<u16>) -> Option<Seq<u16>>
    decreases values.len(),
{
    if values.len() == 0 {
        Some(items)
    } else {
        match push_all(items, max_size, values.drop_last()) {
            Some(before) => {
                let (after, r) = push_spec(before, max_size, values.last());
                if r is Ok {
                    Some(after)
                } else {
                    None
                }
            },
            None => None,
        }
    }
}

/// A bounded last-in first-out stack of return addresses.
pub struct Stack {
    data: Vec<u16>,
    max_size: usize,
}

impl View for Stack {
    type V = Seq<u16>;

    /// The addresses on the stack, the top last.
    closed spec fn view(&self) -> Seq<u16> {
        self.data@
    }
}

impl Stack {
    pub closed spec fn spec_max_size(&self) -> usize {
        self.max_size
    }

    pub open spec fn wf(&self) -> bool {
        self@.len() <= self.max_size()
    }

    /// An empty stack of depth `MAX_STACK_SIZE`.
    pub fn default() -> (s: Stack)
        ensures
            s.wf(),
            s@ == Seq::<u16>::empty(),
            s.max_size() == MAX_STACK_SIZE,
    {
        Stack::new(MAX_STACK_SIZE)
    }

    /// An empty stack that holds at most `max_size` addresses.
    pub fn new(max_size: usize) -> (s: Stack)
        ensures
            s.wf(),
            s@ == Seq::<u16>::empty(),
            s.max_size() == max_size,
    {
        Stack { data: Vec::new(), max_size }
    }

    /// The most addresses the stack holds.
    #[verifier::when_used_as_spec(spec_max_size)]
    pub fn max_size(&self) -> (r: usize)
        ensures
            r == self.max_size(),
    {
        self.max_size
    }

    /// Pushes `value`; a full stack fails with `StackOverflow` and is left unchanged.
    pub fn push(&mut self, value: u16) -> (r: Result<(), VMError>)
        requires
            old(self).wf(),
        ensures
            final(self).wf(),
            final(self).max_size() == old(self).max_size(),
            (final(self)@, r) == push_spec(old(self)@, old(self).max_size() as nat, value),
    {
        if self.data.len() >= self.max_size {
            return Err(VMError::StackOverflow());
        }
        self.data.push(value);
        Ok(())
    }

    /// Pops the top address; an empty stack fails with `StackUnderflow`.
    pub fn pop(&mut self) -> (r: Result<u16, VMError>)
        requires
            old(self).wf(),
        ensures
            final(self).wf(),
            final(self).max_size() == old(self).max_size(),
            (final(self)@, r) == pop_spec(old(self)@),
    {
        match self.data.pop() {
            Some(v) => Ok(v),
            None => Err(VMError::StackUnderflow()),
        }
    }
}

/// Filling an empty stack with exactly as many addresses as it holds succeeds, push by
/// push; the push after that fails with `StackOverflow` and leaves the stack as it was, so
/// the next pop still returns the last address pushed.
pub proof fn lemma_stack_fills_to_capacity(values: Seq<u16>, extra: u16)
    ensures
        push_all(Seq::empty(), values.len(), values) == Some(values),
        push_spec(values, values.len(), extra) == (values, Err::<(), VMError>(VMError::StackOverflow())),
        values.len() > 0 ==> pop_spec(values) == (values.drop_last(), Ok::<u16, VMError>(values.last())),
{
    lemma_push_prefix(values, values.len());
    assert(values.take(values.len() as int) =~= values);
}

/// Pushing the first `k` of `values` onto an empty stack with room for `max_size >= k`
/// gives exactly those `k` addresses.
proof fn lemma_push_prefix(values: Seq<u16>, max_size: nat)
    requires
        values.len() <= max_size,
    ensures
        push_all(Seq::empty(), max_size, values) == Some(values),
    decreases values.len(),
{
    if values.len() == 0 {
        assert(values =~= Seq::<u16>::empty());
    } else {
        lemma_push_prefix(values.drop_last(), max_size);
        assert(values.drop_last().push(values.last()) =~= values);
    }
}

/// A new machine's memory.
pub fn new_memory() -> (m: Memory)
    ensures
        m.wf(),
        m@ == initial_memory(),
        m.pc() == ROM_START,
{
    Memory::new()
}

/// A new machine's registers.
pub fn new_registers() -> (r: Registers)
    ensures
        r.wf(),
        r@ == Seq::new(NUM_REGISTERS as nat, |i: int| 0u8),
{
    Registers::new()
}

/// A new machine's stack.
pub fn new_stack() -> (s: Stack)
    ensures
        s.wf(),
        s@ == Seq::<u16>::empty(),
        s.max_size() == MAX_STACK_SIZE,
{
    Stack::new(MAX_STACK_SIZE)
}

} // verus!
