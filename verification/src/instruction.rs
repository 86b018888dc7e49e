//! Instructions and the decoder that produces them from 16-bit words.

use vstd::prelude::*;

verus! {

/// A 12-bit memory address, held in the low bits of a `u16`.
pub type Address = u16;

/// An immediate operand: a byte, or a 4-bit value held in the low bits.
pub type Nybble = u8;

/// One of the sixteen general registers.
#[derive(Clone, Copy, Debug, PartialEq, Eq, Structural)]
pub enum Register {
    V0,
    V1,
    V2,
    V3,
    V4,
    V5,
    V6,
    V7,
    V8,
    V9,
    VA,
    VB,
    VC,
    VD,
    VE,
    VF,
}

impl Register {
    /// The register's number, `0` for `V0` up to `15` for `VF`.
    pub open spec fn spec_index(self) -> usize {
        match self {
            Register::V0 => 0,
            Register::V1 => 1,
            Register::V2 => 2,
            Register::V3 => 3,
            Register::V4 => 4,
            Register::V5 => 5,
            Register::V6 => 6,
            Register::V7 => 7,
            Register::V8 => 8,
            Register::V9 => 9,
            Register::VA => 10,
            Register::VB => 11,
            Register::VC => 12,
            Register::VD => 13,
            Register::VE => 14,
            Register::VF => 15,
        }
    }

    /// The register with number `i`; `VF` stands for every number above 14.
    pub open spec fn numbered(i: int) -> Register {
        if i == 0 {
            Register::V0
        } else if i == 1 {
            Register::V1
        } else if i == 2 {
            Register::V2
        } else if i == 3 {
            Register::V3
        } else if i == 4 {
            Register::V4
        } else if i == 5 {
            Register::V5
        } else if i == 6 {
            Register::V6
        } else if i == 7 {
            Register::V7
        } else if i == 8 {
            Register::V8
        } else if i == 9 {
            Register::V9
        } else if i == 10 {
            Register::VA
        } else if i == 11 {
            Register::VB
        } else if i == 12 {
            Register::VC
        } else if i == 13 {
            Register::VD
        } else if i == 14 {
            Register::VE
        } else {
            Register::VF
        }
    }

    /// The register's number, for indexing the register file.
    #[verifier::when_used_as_spec(spec_index)]
    pub fn index(self) -> (i: usize)
        ensures
            i == self.spec_index(),
            i < 16,
    {
        match self {
            Register::V0 => 0,
            Register::V1 => 1,
            Register::V2 => 2,
            Register::V3 => 3,
            Register::V4 => 4,
            Register::V5 => 5,
            Register::V6 => 6,
            Register::V7 => 7,
            Register::V8 => 8,
            Register::V9 => 9,
            Register::VA => 10,
            Register::VB => 11,
            Register::VC => 12,
            Register::VD => 13,
            Register::VE => 14,
            Register::VF => 15,
        }
    }

    /// The register that a 4-bit operand names.
    pub fn from_nybble(i: Nybble) -> (r: Register)
        requires
            i <= 15,
        ensures
            r == Register::numbered(i as int),
            r.spec_index() == i,
    {
        match i {
            0x00 => Register::V0,
            0x01 => Register::V1,
            0x02 => Register::V2,
            0x03 => Register::V3,
            0x04 => Register::V4,
            0x05 => Register::V5,
            0x06 => Register::V6,
            0x07 => Register::V7,
            0x08 => Register::V8,
            0x09 => Register::V9,
            0x0A => Register::VA,
            0x0B => Register::VB,
            0x0C => Register::VC,
            0x0D => Register::VD,
            0x0E => Register::VE,
            _ => Register::VF,
        }
    }
}

/// A decoded instruction with its operands.
#[derive(Clone, Copy, Debug, PartialEq, Eq, Structural)]
pub enum Instruction {
    ClearDisplay,
    ReturnFromSubRoutine,
    JumpTo(Address),
    Call(Address),
    SkipIf(Register, Nybble),
    SkipIfNot(Register, Nybble),
    SkipIfRegistersEqual(Register, Register),
    LoadInto(Register, Nybble),
    Add(Register, Nybble),
    LoadIntoRegister(Register, Register),
    Or(Register, Register),
    And(Register, Register),
    Xor(Register, Register),
    AddRegisters(Register, Register),
    Sub(Register, Register),
    ShiftRight(Register, Register),
    SubBorrow(Register, Register),
    ShiftLeft(Register, Register),
    SkipIfNotEqual(Register, Register),
    LoadIntoI(Address),
    JumpV0(Address),
    Random(Register, Nybble),
    Draw(Register, Register, Nybble),
    SkipIfPressed(Register),
    SkipIfNotPressed(Register),
    LoadFromDelay(Register),
    WaitForKey(Register),
    LoadToDelay(Register),
    LoadToSound(Register),
    AddToI(Register),
    LoadSpriteToI(Register),
    LoadBcd(Register),
    LoadToMemory(Register),
    LoadFromMemory(Register),
    Nop,
}

impl Instruction {
    /// Whether the operands fit the fields of an instruction word: an
    /// address in 12 bits, the height of a sprite in 4 bits.
    pub open spec fn wf(self) -> bool {
        match self {
            Instruction::JumpTo(a) => a < 0x1000,
            Instruction::Call(a) => a < 0x1000,
            Instruction::LoadIntoI(a) => a < 0x1000,
            Instruction::JumpV0(a) => a < 0x1000,
            Instruction::Draw(_, _, n) => n < 16,
            _ => true,
        }
    }
}

/// Bits 12 to 15 of an instruction word: the family of the opcode.
pub open spec fn word_family(word: u16) -> int {
    word as int / 0x1000
}

/// Bits 8 to 11 of an instruction word: the first register operand.
pub open spec fn word_x(word: u16) -> int {
    (word as int / 0x100) % 16
}

/// Bits 4 to 7 of an instruction word: the second register operand.
pub open spec fn word_y(word: u16) -> int {
    (word as int / 0x10) % 16
}

/// Bits 0 to 3 of an instruction word.
pub open spec fn word_nybble(word: u16) -> int {
    word as int % 16
}

/// Bits 0 to 7 of an instruction word.
pub open spec fn word_byte(word: u16) -> int {
    word as int % 0x100
}

/// Bits 0 to 11 of an instruction word.
pub open spec fn word_address(word: u16) -> int {
    word as int % 0x1000
}

/// The instruction that a word stands for. A word that no opcode is
/// assigned to stands for `Nop`.
pub open spec fn decode(word: u16) -> Instruction {
    let x = Register::numbered(word_x(word));
    let y = Register::numbered(word_y(word));
    let n = word_nybble(word) as u8;
    let byte = word_byte(word) as u8;
    let address = word_address(word) as u16;
    let family = word_family(word);
    if family == 0x0 {
        if word == 0x00E0 {
            Instruction::ClearDisplay
        } else if word == 0x00EE {
            Instruction::ReturnFromSubRoutine
        } else {
            Instruction::Nop
        }
    } else if family == 0x1 {
        Instruction::JumpTo(address)
    } else if family == 0x2 {
        Instruction::Call(address)
    } else if family == 0x3 {
        Instruction::SkipIf(x, byte)
    } else if family == 0x4 {
        Instruction::SkipIfNot(x, byte)
    } else if family == 0x5 {
        Instruction::SkipIfRegistersEqual(x, y)
    } else if family == 0x6 {
        Instruction::LoadInto(x, byte)
    } else if family == 0x7 {
        Instruction::Add(x, byte)
    } else if family == 0x8 {
        if n == 0x0 {
            Instruction::LoadIntoRegister(x, y)
        } else if n == 0x1 {
            Instruction::Or(x, y)
        } else if n == 0x2 {
            Instruction::And(x, y)
        } else if n == 0x3 {
            Instruction::Xor(x, y)
        } else if n == 0x4 {
            Instruction::AddRegisters(x, y)
        } else if n == 0x5 {
            Instruction::Sub(x, y)
        } else if n == 0x6 {
            Instruction::ShiftRight(x, y)
        } else if n == 0x7 {
            Instruction::SubBorrow(x, y)
        } else if n == 0xE {
            Instruction::ShiftLeft(x, y)
        } else {
            Instruction::Nop
        }
    } else if family == 0x9 {
        Instruction::SkipIfNotEqual(x, y)
    } else if family == 0xA {
        Instruction::LoadIntoI(address)
    } else if family == 0xB {
        Instruction::JumpV0(address)
    } else if family == 0xC {
        Instruction::Random(x, byte)
    } else if family == 0xD {
        Instruction::Draw(x, y, n)
    } else if family == 0xE {
        if byte == 0x9E {
            Instruction::SkipIfPressed(x)
        } else if byte == 0xA1 {
            Instruction::SkipIfNotPressed(x)
        } else {
            Instruction::Nop
        }
    } else {
        if byte == 0x07 {
            Instruction::LoadFromDelay(x)
        } else if byte == 0x0A {
            Instruction::WaitForKey(x)
        } else if byte == 0x15 {
            Instruction::LoadToDelay(x)
        } else if byte == 0x18 {
            Instruction::LoadToSound(x)
        } else if byte == 0x1E {
            Instruction::AddToI(x)
        } else if byte == 0x29 {
            Instruction::LoadSpriteToI(x)
        } else if byte == 0x33 {
            Instruction::LoadBcd(x)
        } else if byte == 0x55 {
            Instruction::LoadToMemory(x)
        } else if byte == 0x65 {
            Instruction::LoadFromMemory(x)
        } else {
            Instruction::Nop
        }
    }
}

/// The word of an opcode family with two register operands and a low nybble.
pub open spec fn word_xyn(family: int, x: Register, y: Register, n: int) -> int {
    family * 0x1000 + x.spec_index() * 0x100 + y.spec_index() * 0x10 + n
}

/// The word of an opcode family with one register operand and a low byte.
pub open spec fn word_xkk(family: int, x: Register, byte: int) -> int {
    family * 0x1000 + x.spec_index() * 0x100 + byte
}

/// The word that stands for an instruction; for `Nop`, one of the words
/// that no opcode is assigned to.
pub open spec fn encode(i: Instruction) -> int {
    match i {
        Instruction::ClearDisplay => 0x00E0,
        Instruction::ReturnFromSubRoutine => 0x00EE,
        Instruction::JumpTo(a) => 0x1000 + a,
        Instruction::Call(a) => 0x2000 + a,
        Instruction::SkipIf(x, byte) => word_xkk(0x3, x, byte as int),
        Instruction::SkipIfNot(x, byte) => word_xkk(0x4, x, byte as int),
        Instruction::SkipIfRegistersEqual(x, y) => word_xyn(0x5, x, y, 0),
        Instruction::LoadInto(x, byte) => word_xkk(0x6, x, byte as int),
        Instruction::Add(x, byte) => word_xkk(0x7, x, byte as int),
        Instruction::LoadIntoRegister(x, y) => word_xyn(0x8, x, y, 0x0),
        Instruction::Or(x, y) => word_xyn(0x8, x, y, 0x1),
        Instruction::And(x, y) => word_xyn(0x8, x, y, 0x2),
        Instruction::Xor(x, y) => word_xyn(0x8, x, y, 0x3),
        Instruction::AddRegisters(x, y) => word_xyn(0x8, x, y, 0x4),
        Instruction::Sub(x, y) => word_xyn(0x8, x, y, 0x5),
        Instruction::ShiftRight(x, y) => word_xyn(0x8, x, y, 0x6),
        Instruction::SubBorrow(x, y) => word_xyn(0x8, x, y, 0x7),
        Instruction::ShiftLeft(x, y) => word_xyn(0x8, x, y, 0xE),
        Instruction::SkipIfNotEqual(x, y) => word_xyn(0x9, x, y, 0),
        Instruction::LoadIntoI(a) => 0xA000 + a,
        Instruction::JumpV0(a) => 0xB000 + a,
        Instruction::Random(x, byte) => word_xkk(0xC, x, byte as int),
        Instruction::Draw(x, y, n) => word_xyn(0xD, x, y, n as int),
        Instruction::SkipIfPressed(x) => word_xkk(0xE, x, 0x9E),
        Instruction::SkipIfNotPressed(x) => word_xkk(0xE, x, 0xA1),
        Instruction::LoadFromDelay(x) => word_xkk(0xF, x, 0x07),
        Instruction::WaitForKey(x) => word_xkk(0xF, x, 0x0A),
        Instruction::LoadToDelay(x) => word_xkk(0xF, x, 0x15),
        Instruction::LoadToSound(x) => word_xkk(0xF, x, 0x18),
        Instruction::AddToI(x) => word_xkk(0xF, x, 0x1E),
        Instruction::LoadSpriteToI(x) => word_xkk(0xF, x, 0x29),
        Instruction::LoadBcd(x) => word_xkk(0xF, x, 0x33),
        Instruction::LoadToMemory(x) => word_xkk(0xF, x, 0x55),
        Instruction::LoadFromMemory(x) => word_xkk(0xF, x, 0x65),
        Instruction::Nop => 0x0000,
    }
}

/// The register named by bits 8 to 11 of an instruction word.
pub fn x_register(i: u16) -> (r: Register)
    ensures
        r == Register::numbered(word_x(i)),
{
    let n: u16 = (i & 0x0F00) >> 8;
    assert(n == (i / 0x100) % 16) by (bit_vector)
        requires
            n == (i & 0x0F00) >> 8,
    ;
    Register::from_nybble(n as Nybble)
}

/// The register named by bits 4 to 7 of an instruction word.
pub fn y_register(i: u16) -> (r: Register)
    ensures
        r == Register::numbered(word_y(i)),
{
    let n: u16 = (i & 0x00F0) >> 4;
    assert(n == (i / 0x10) % 16) by (bit_vector)
        requires
            n == (i & 0x00F0) >> 4,
    ;
    Register::from_nybble(n as Nybble)
}

/// The low byte of an instruction word.
pub fn low_byte(i: u16) -> (b: Nybble)
    ensures
        b == word_byte(i),
{
    let n: u16 = i & 0x00FF;
    assert(n == i % 0x100) by (bit_vector)
        requires
            n == i & 0x00FF,
    ;
    n as Nybble
}

/// The low four bits of an instruction word.
pub fn low_nybble(i: u16) -> (n: Nybble)
    ensures
        n == word_nybble(i),
{
    let n: u16 = i & 0x000F;
    assert(n == i % 16) by (bit_vector)
        requires
            n == i & 0x000F,
    ;
    n as Nybble
}

/// The low twelve bits of an instruction word.
pub fn address(i: u16) -> (a: Address)
    ensures
        a == word_address(i),
{
    let a: u16 = i & 0x0FFF;
    assert(a == i % 0x1000) by (bit_vector)
        requires
            a == i & 0x0FFF,
    ;
    a
}

/// Decodes an instruction word. Every word decodes; one that no opcode is
/// assigned to gives `Nop`.
pub fn parse_opcode(i: u16) -> (r: Instruction)
    ensures
        r == decode(i),
        r.wf(),
{
    match i {
        0x00E0 => Instruction::ClearDisplay,
        0x00EE => Instruction::ReturnFromSubRoutine,
        0x1000..0x2000 => Instruction::JumpTo(address(i)),
        0x2000..0x3000 => Instruction::Call(address(i)),
        0x3000..0x4000 => Instruction::SkipIf(x_register(i), low_byte(i)),
        0x4000..0x5000 => Instruction::SkipIfNot(x_register(i), low_byte(i)),
        0x5000..0x6000 => Instruction::SkipIfRegistersEqual(x_register(i), y_register(i)),
        0x6000..0x7000 => Instruction::LoadInto(x_register(i), low_byte(i)),
        0x7000..0x8000 => Instruction::Add(x_register(i), low_byte(i)),
        0x8000..0x9000 => match low_nybble(i) {
            0x0 => Instruction::LoadIntoRegister(x_register(i), y_register(i)),
            0x1 => Instruction::Or(x_register(i), y_register(i)),
            0x2 => Instruction::And(x_register(i), y_register(i)),
            0x3 => Instruction::Xor(x_register(i), y_register(i)),
            0x4 => Instruction::AddRegisters(x_register(i), y_register(i)),
            0x5 => Instruction::Sub(x_register(i), y_register(i)),
            0x6 => Instruction::ShiftRight(x_register(i), y_register(i)),
            0x7 => Instruction::SubBorrow(x_register(i), y_register(i)),
            0xE => Instruction::ShiftLeft(x_register(i), y_register(i)),
            _ => Instruction::Nop,
        },
        0x9000..0xA000 => Instruction::SkipIfNotEqual(x_register(i), y_register(i)),
        0xA000..0xB000 => Instruction::LoadIntoI(address(i)),
        0xB000..0xC000 => Instruction::JumpV0(address(i)),
        0xC000..0xD000 => Instruction::Random(x_register(i), low_byte(i)),
        0xD000..0xE000 => Instruction::Draw(x_register(i), y_register(i), low_nybble(i)),
        0xE000..0xF000 => match low_byte(i) {
            0x9E => Instruction::SkipIfPressed(x_register(i)),
            0xA1 => Instruction::SkipIfNotPressed(x_register(i)),
            _ => Instruction::Nop,
        },
        0xF000..=0xFFFF => match low_byte(i) {
            0x07 => Instruction::LoadFromDelay(x_register(i)),
            0x0A => Instruction::WaitForKey(x_register(i)),
            0x15 => Instruction::LoadToDelay(x_register(i)),
            0x18 => Instruction::LoadToSound(x_register(i)),
            0x1E => Instruction::AddToI(x_register(i)),
            0x29 => Instruction::LoadSpriteToI(x_register(i)),
            0x33 => Instruction::LoadBcd(x_register(i)),
            0x55 => Instruction::LoadToMemory(x_register(i)),
            0x65 => Instruction::LoadFromMemory(x_register(i)),
            _ => Instruction::Nop,
        },
        _ => Instruction::Nop,
    }
}

} // verus!
