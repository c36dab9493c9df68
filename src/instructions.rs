//! The instruction set and the decoder from 16-bit opcodes.
use vstd::prelude::*;

verus! {

/// One CHIP-8 instruction. Register operands are register numbers, addresses are the
/// low 12 bits of the opcode. Opcode patterns use `X`, `Y` for register nibbles, `N`,
/// `NN`, `NNN` for immediate operands.
#[derive(Debug, Clone, Copy, PartialEq, Eq, Structural)]
pub enum Instruction {
    /// An opcode that matches no pattern.
    Unknown(u16),
    /// 00E0
    ClearScreen,
    /// 00EE
    ExitSubroutine,
    /// 1NNN
    Jump(u16),
    /// 2NNN
    CallSubroutine(u16),
    /// 3XNN
    SkipValEqual(u8, u8),
    /// 4XNN
    SkipValNotEqual(u8, u8),
    /// 5XY0
    SkipRegEqual(u8, u8),
    /// 6XNN
    SetVal(u8, u8),
    /// 7XNN
    AddVal(u8, u8),
    /// 8XY0
    SetReg(u8, u8),
    /// 8XY1
    OR(u8, u8),
    /// 8XY2
    AND(u8, u8),
    /// 8XY3
    XOR(u8, u8),
    /// 8XY4
    Add(u8, u8),
    /// 8XY5
    SubLeft(u8, u8),
    /// 8XY7
    SubRight(u8, u8),
    /// 8XY6
    ShiftRight(u8, u8),
    /// 8XYE
    ShiftLeft(u8, u8),
    /// 9XY0
    SkipRegNotEqual(u8, u8),
    /// ANNN
    SetIndex(u16),
    /// BNNN
    JumpOffset(u16),
    /// CXNN
    Random(u8, u8),
    /// DXYN
    Display(u8, u8, u8),
    /// EX9E
    SkipIfPressed(u8),
    /// EXA1
    SkipNotPressed(u8),
    /// FX07
    GetDelayTimer(u8),
    /// FX15
    SetDelayTimer(u8),
    /// FX18
    SetSoundTimer(u8),
    /// FX1E
    AddToIndex(u8),
    /// FX0A
    GetKey(u8),
    /// FX29
    FontChar(u8),
    /// FX33
    BinDecConv(u8),
    /// FX55
    StoreMem(u8),
    /// FX65
    LoadMem(u8),
}

/// Second nibble of an opcode (`X`).
pub open spec fn x_of(w: u16) -> u8 {
    ((w / 256) % 16) as u8
}

/// Third nibble of an opcode (`Y`).
pub open spec fn y_of(w: u16) -> u8 {
    ((w / 16) % 16) as u8
}

/// Low nibble of an opcode (`N`).
pub open spec fn n_of(w: u16) -> u8 {
    (w % 16) as u8
}

/// Low byte of an opcode (`NN`).
pub open spec fn nn_of(w: u16) -> u8 {
    (w % 256) as u8
}

/// Low twelve bits of an opcode (`NNN`).
pub open spec fn nnn_of(w: u16) -> u16 {
    (w % 4096) as u16
}

/// The instruction that an opcode stands for: the high nibble selects the family, and the
/// families 0, 8, E and F are split further by the low byte or the low nibble.
pub open spec fn decoded(w: u16) -> Instruction {
    let x = x_of(w);
    let y = y_of(w);
    let nn = nn_of(w);
    match w / 4096 {
        0 => if nn == 0xE0 {
            Instruction::ClearScreen
        } else if nn == 0xEE {
            Instruction::ExitSubroutine
        } else {
            Instruction::Unknown(w)
        },
        1 => Instruction::Jump(nnn_of(w)),
        2 => Instruction::CallSubroutine(nnn_of(w)),
        3 => Instruction::SkipValEqual(x, nn),
        4 => Instruction::SkipValNotEqual(x, nn),
        5 => Instruction::SkipRegEqual(x, y),
        6 => Instruction::SetVal(x, nn),
        7 => Instruction::AddVal(x, nn),
        8 => match n_of(w) {
            0x0 => Instruction::SetReg(x, y),
            0x1 => Instruction::OR(x, y),
            0x2 => Instruction::AND(x, y),
            0x3 => Instruction::XOR(x, y),
            0x4 => Instruction::Add(x, y),
            0x5 => Instruction::SubLeft(x, y),
            0x6 => Instruction::ShiftRight(x, y),
            0x7 => Instruction::SubRight(x, y),
            0xE => Instruction::ShiftLeft(x, y),
            _ => Instruction::Unknown(w),
        },
        9 => Instruction::SkipRegNotEqual(x, y),
        10 => Instruction::SetIndex(nnn_of(w)),
        11 => Instruction::JumpOffset(nnn_of(w)),
        12 => Instruction::Random(x, nn),
        13 => Instruction::Display(x, y, n_of(w)),
        14 => if nn == 0x9E {
            Instruction::SkipIfPressed(x)
        } else if nn == 0xA1 {
            Instruction::SkipNotPressed(x)
        } else {
            Instruction::Unknown(w)
        },
        _ => if nn == 0x07 {
            Instruction::GetDelayTimer(x)
        } else if nn == 0x15 {
            Instruction::SetDelayTimer(x)
        } else if nn == 0x18 {
            Instruction::SetSoundTimer(x)
        } else if nn == 0x1E {
            Instruction::AddToIndex(x)
        } else if nn == 0x0A {
            Instruction::GetKey(x)
        } else if nn == 0x29 {
            Instruction::FontChar(x)
        } else if nn == 0x33 {
            Instruction::BinDecConv(x)
        } else if nn == 0x55 {
            Instruction::StoreMem(x)
        } else if nn == 0x65 {
            Instruction::LoadMem(x)
        } else {
            Instruction::Unknown(w)
        },
    }
}

impl Instruction {
    /// Every register operand names one of the sixteen registers, every address fits in
    /// twelve bits and a sprite is at most fifteen rows high: true of all that `decode`
    /// returns.
    pub open spec fn wf(self) -> bool {
        match self {
            Instruction::Unknown(_) | Instruction::ClearScreen | Instruction::ExitSubroutine => true,
            Instruction::Jump(a) | Instruction::CallSubroutine(a) | Instruction::SetIndex(a)
            | Instruction::JumpOffset(a) => a < 4096,
            Instruction::SkipValEqual(x, _) | Instruction::SkipValNotEqual(x, _)
            | Instruction::SetVal(x, _) | Instruction::AddVal(x, _)
            | Instruction::Random(x, _) => x < 16,
            Instruction::SkipRegEqual(x, y) | Instruction::SetReg(x, y) | Instruction::OR(x, y)
            | Instruction::AND(x, y) | Instruction::XOR(x, y) | Instruction::Add(x, y)
            | Instruction::SubLeft(x, y) | Instruction::SubRight(x, y)
            | Instruction::ShiftRight(x, y) | Instruction::ShiftLeft(x, y)
            | Instruction::SkipRegNotEqual(x, y) => x < 16 && y < 16,
            Instruction::Display(x, y, n) => x < 16 && y < 16 && n < 16,
            Instruction::SkipIfPressed(x) | Instruction::SkipNotPressed(x)
            | Instruction::GetDelayTimer(x) | Instruction::SetDelayTimer(x)
            | Instruction::SetSoundTimer(x) | Instruction::AddToIndex(x) | Instruction::GetKey(x)
            | Instruction::FontChar(x) | Instruction::BinDecConv(x) | Instruction::StoreMem(x)
            | Instruction::LoadMem(x) => x < 16,
        }
    }

    /// Decodes a big-endian opcode.
    pub fn decode(instr: u16) -> (r: Instruction)
        ensures
            r == decoded(instr),
            r.wf(),
    {
        let opcode = (instr & 0xF000) >> 12;
        assert(opcode == instr / 4096) by (bit_vector)
            requires
                opcode == (instr & 0xF000) >> 12,
        ;
        let low = instr & 0x00FF;
        assert(low == instr % 256) by (bit_vector)
            requires
                low == instr & 0x00FF,
        ;
        let x = d_reg1(instr);
        let y = d_reg2(instr);
        let nn = d_val(instr);
        match opcode {
            0x0 => if low == 0xE0 {
                Instruction::ClearScreen
            } else if low == 0xEE {
                Instruction::ExitSubroutine
            } else {
                Instruction::Unknown(instr)
            },
            0x1 => Instruction::Jump(d_val16(instr)),
            0x2 => Instruction::CallSubroutine(d_val16(instr)),
            0x3 => Instruction::SkipValEqual(x, nn),
            0x4 => Instruction::SkipValNotEqual(x, nn),
            0x5 => Instruction::SkipRegEqual(x, y),
            0x6 => Instruction::SetVal(x, nn),
            0x7 => Instruction::AddVal(x, nn),
            0x8 => {
                let sub = d_nibble(instr);
                if sub == 0x0 {
                    Instruction::SetReg(x, y)
                } else if sub == 0x1 {
                    Instruction::OR(x, y)
                } else if sub == 0x2 {
                    Instruction::AND(x, y)
                } else if sub == 0x3 {
                    Instruction::XOR(x, y)
                } else if sub == 0x4 {
                    Instruction::Add(x, y)
                } else if sub == 0x5 {
                    Instruction::SubLeft(x, y)
                } else if sub == 0x6 {
                    Instruction::ShiftRight(x, y)
                } else if sub == 0x7 {
                    Instruction::SubRight(x, y)
                } else if sub == 0xE {
                    Instruction::ShiftLeft(x, y)
                } else {
                    Instruction::Unknown(instr)
                }
            },
            0x9 => Instruction::SkipRegNotEqual(x, y),
            0xA => Instruction::SetIndex(d_val16(instr)),
            0xB => Instruction::JumpOffset(d_val16(instr)),
            0xC => Instruction::Random(x, nn),
            0xD => Instruction::Display(x, y, d_nibble(instr)),
            0xE => if low == 0x9E {
                Instruction::SkipIfPressed(x)
            } else if low == 0xA1 {
                Instruction::SkipNotPressed(x)
            } else {
                Instruction::Unknown(instr)
            },
            _ => if low == 0x07 {
                Instruction::GetDelayTimer(x)
            } else if low == 0x15 {
                Instruction::SetDelayTimer(x)
            } else if low == 0x18 {
                Instruction::SetSoundTimer(x)
            } else if low == 0x1E {
                Instruction::AddToIndex(x)
            } else if low == 0x0A {
                Instruction::GetKey(x)
            } else if low == 0x29 {
                Instruction::FontChar(x)
            } else if low == 0x33 {
                Instruction::BinDecConv(x)
            } else if low == 0x55 {
                Instruction::StoreMem(x)
            } else if low == 0x65 {
                Instruction::LoadMem(x)
            } else {
                Instruction::Unknown(instr)
            },
        }
    }
}

/// The `NN` operand.
fn d_val(instr: u16) -> (r: u8)
    ensures
        r == nn_of(instr),
{
    let r = instr & 0x00FF;
    assert(r == instr % 256) by (bit_vector)
        requires
            r == instr & 0x00FF,
    ;
    r as u8
}

/// The `NNN` operand.
fn d_val16(instr: u16) -> (r: u16)
    ensures
        r == nnn_of(instr),
        r < 4096,
{
    let r = instr & 0x0FFF;
    assert(r == instr % 4096) by (bit_vector)
        requires
            r == instr & 0x0FFF,
    ;
    r
}

/// The `X` operand.
fn d_reg1(instr: u16) -> (r: u8)
    ensures
        r == x_of(instr),
        r < 16,
{
    let r = (instr & 0x0F00) >> 8;
    assert(r == (instr / 256) % 16) by (bit_vector)
        requires
            r == (instr & 0x0F00) >> 8,
    ;
    r as u8
}

/// The `Y` operand.
fn d_reg2(instr: u16) -> (r: u8)
    ensures
        r == y_of(instr),
        r < 16,
{
    let r = (instr & 0x00F0) >> 4;
    assert(r == (instr / 16) % 16) by (bit_vector)
        requires
            r == (instr & 0x00F0) >> 4,
    ;
    r as u8
}

/// The `N` operand.
fn d_nibble(instr: u16) -> (r: u8)
    ensures
        r == n_of(instr),
        r < 16,
{
    let r = instr & 0x000F;
    assert(r == instr % 16) by (bit_vector)
        requires
            r == instr & 0x000F,
    ;
    r as u8
}

/// Every decoded instruction is well formed.
pub proof fn lemma_decoded_wf(w: u16)
    ensures
        decoded(w).wf(),
{
}

} // verus!
