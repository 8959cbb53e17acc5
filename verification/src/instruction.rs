//! The instruction set: the decoded form of an opcode, and the decoder.

use vstd::prelude::*;

verus! {

/// A 12-bit memory address.
pub type Addr = u16;

/// The index of one of the sixteen general-purpose registers.
pub type Reg = u8;

/// One decoded instruction. Register operands are named `x` and `y` after their
/// position in the opcode.
#[derive(Debug, Clone, Copy, PartialEq, Eq, Structural)]
pub enum Instruction {
    /// `0nnn`: a call into machine code of the host, which is ignored.
    Nop,
    /// `00E0`: clear the display.
    Cls,
    /// `00EE`: return from a subroutine.
    Ret,
    /// `1nnn`: jump to `nnn`.
    Jmp(Addr),
    /// `2nnn`: call the subroutine at `nnn`.
    Call(Addr),
    /// `3xkk`: skip the next instruction if `Vx == kk`.
    Ske(Reg, u8),
    /// `4xkk`: skip the next instruction if `Vx != kk`.
    Skne(Reg, u8),
    /// `5xy0`: skip the next instruction if `Vx == Vy`.
    Skre(Reg, Reg),
    /// `6xkk`: set `Vx` to `kk`.
    Setr(Reg, u8),
    /// `7xkk`: add `kk` to `Vx`, wrapping, without touching the flag.
    Addr(Reg, u8),
    /// `8xy0`: set `Vx` to `Vy`.
    Move(Reg, Reg),
    /// `8xy1`: set `Vx` to `Vx | Vy`.
    Or(Reg, Reg),
    /// `8xy2`: set `Vx` to `Vx & Vy`.
    And(Reg, Reg),
    /// `8xy3`: set `Vx` to `Vx ^ Vy`.
    Xor(Reg, Reg),
    /// `8xy4`: set `Vx` to `Vx + Vy`, and `VF` to the carry.
    Add(Reg, Reg),
    /// `8xy5`: set `Vx` to `Vx - Vy`, and `VF` to 1 unless there was a borrow.
    Sub(Reg, Reg),
    /// `8xy6`: set `VF` to the low bit of `Vx`, then shift `Vx` right by one.
    Shr(Reg, Reg),
    /// `8xy7`: set `Vx` to `Vy - Vx`, and `VF` to 1 unless there was a borrow.
    Ssub(Reg, Reg),
    /// `8xyE`: set `VF` to the high bit of `Vx`, then shift `Vx` left by one.
    Shl(Reg, Reg),
    /// `9xy0`: skip the next instruction if `Vx != Vy`.
    Skrne(Reg, Reg),
    /// `Annn`: set the index register to `nnn`.
    Seti(Addr),
    /// `Bnnn`: jump to `nnn + V0`.
    Jmpr(Addr),
    /// `Cxkk`: set `Vx` to a random byte masked with `kk`.
    Rand(Reg, u8),
    /// `Dxyn`: draw the `n`-row sprite at the index register at `(Vx, Vy)`.
    Draw(Reg, Reg, u8),
    /// `Ex9E`: skip the next instruction if the key `Vx` is down.
    Skp(Reg),
    /// `ExA1`: skip the next instruction if the key `Vx` is up.
    Sknp(Reg),
    /// `Fx07`: set `Vx` to the delay timer.
    Moved(Reg),
    /// `Fx0A`: wait for a key, then set `Vx` to its index.
    Key(Reg),
    /// `Fx15`: set the delay timer to `Vx`.
    Setrd(Reg),
    /// `Fx18`: set the sound timer to `Vx`.
    Setrs(Reg),
    /// `Fx1E`: add `Vx` to the index register.
    Addi(Reg),
    /// `Fx29`: point the index register at the glyph of the digit `Vx`.
    Ldfnt(Reg),
    /// `Fx33`: store the three decimal digits of `Vx` at the index register.
    Bcd(Reg),
    /// `Fx55`: store `V0..=Vx` at the index register.
    Store(Reg),
    /// `Fx65`: load `V0..=Vx` from the index register.
    Load(Reg),
}

/// An opcode that matches no instruction.
#[derive(Debug, Clone, Copy, PartialEq, Eq, Structural)]
pub struct DecodeError {
    /// The opcode that was refused.
    pub opcode: u16,
}

/// The four 4-bit fields of an opcode, the most significant first.
pub open spec fn nibbles_of(n: u16) -> (u8, u8, u8, u8) {
    ((n / 4096) as u8, (n / 256 % 16) as u8, (n / 16 % 16) as u8, (n % 16) as u8)
}

/// The instruction that an opcode stands for, by the family that its first nibble
/// selects, or the error for an opcode outside every family.
pub open spec fn decode_spec(opcode: u16) -> Result<Instruction, DecodeError> {
    let addr = opcode % 4096;
    let byte = (opcode % 256) as u8;
    let (family, x, y, n) = nibbles_of(opcode);
    let unknown = Err(DecodeError { opcode });
    if family == 0 {
        if opcode == 0x00EE {
            Ok(Instruction::Ret)
        } else if opcode == 0x00E0 {
            Ok(Instruction::Cls)
        } else {
            Ok(Instruction::Nop)
        }
    } else if family == 1 {
        Ok(Instruction::Jmp(addr))
    } else if family == 2 {
        Ok(Instruction::Call(addr))
    } else if family == 3 {
        Ok(Instruction::Ske(x, byte))
    } else if family == 4 {
        Ok(Instruction::Skne(x, byte))
    } else if family == 5 {
        if n == 0 {
            Ok(Instruction::Skre(x, y))
        } else {
            unknown
        }
    } else if family == 6 {
        Ok(Instruction::Setr(x, byte))
    } else if family == 7 {
        Ok(Instruction::Addr(x, byte))
    } else if family == 8 {
        if n == 0 {
            Ok(Instruction::Move(x, y))
        } else if n == 1 {
            Ok(Instruction::Or(x, y))
        } else if n == 2 {
            Ok(Instruction::And(x, y))
        } else if n == 3 {
            Ok(Instruction::Xor(x, y))
        } else if n == 4 {
            Ok(Instruction::Add(x, y))
        } else if n == 5 {
            Ok(Instruction::Sub(x, y))
        } else if n == 6 {
            Ok(Instruction::Shr(x, y))
        } else if n == 7 {
            Ok(Instruction::Ssub(x, y))
        } else if n == 0xE {
            Ok(Instruction::Shl(x, y))
        } else {
            unknown
        }
    } else if family == 9 {
        if n == 0 {
            Ok(Instruction::Skrne(x, y))
        } else {
            unknown
        }
    } else if family == 0xA {
        Ok(Instruction::Seti(addr))
    } else if family == 0xB {
        Ok(Instruction::Jmpr(addr))
    } else if family == 0xC {
        Ok(Instruction::Rand(x, byte))
    } else if family == 0xD {
        Ok(Instruction::Draw(x, y, n))
    } else if family == 0xE {
        if byte == 0x9E {
            Ok(Instruction::Skp(x))
        } else if byte == 0xA1 {
            Ok(Instruction::Sknp(x))
        } else {
            unknown
        }
    } else {
        if byte == 0x07 {
            Ok(Instruction::Moved(x))
        } else if byte == 0x0A {
            Ok(Instruction::Key(x))
        } else if byte == 0x15 {
            Ok(Instruction::Setrd(x))
        } else if byte == 0x18 {
            Ok(Instruction::Setrs(x))
        } else if byte == 0x1E {
            Ok(Instruction::Addi(x))
        } else if byte == 0x29 {
            Ok(Instruction::Ldfnt(x))
        } else if byte == 0x33 {
            Ok(Instruction::Bcd(x))
        } else if byte == 0x55 {
            Ok(Instruction::Store(x))
        } else if byte == 0x65 {
            Ok(Instruction::Load(x))
        } else {
            unknown
        }
    }
}

/// The opcode of an instruction. Of the many opcodes that are ignored, the one made
/// of zeros stands for all.
pub open spec fn encode(instruction: Instruction) -> int {
    match instruction {
        Instruction::Nop => 0x0000,
        Instruction::Cls => 0x00E0,
        Instruction::Ret => 0x00EE,
        Instruction::Jmp(addr) => 0x1000 + addr,
        Instruction::Call(addr) => 0x2000 + addr,
        Instruction::Ske(x, byte) => 0x3000 + 0x100 * x + byte,
        Instruction::Skne(x, byte) => 0x4000 + 0x100 * x + byte,
        Instruction::Skre(x, y) => 0x5000 + 0x100 * x + 0x10 * y,
        Instruction::Setr(x, byte) => 0x6000 + 0x100 * x + byte,
        Instruction::Addr(x, byte) => 0x7000 + 0x100 * x + byte,
        Instruction::Move(x, y) => 0x8000 + 0x100 * x + 0x10 * y,
        Instruction::Or(x, y) => 0x8001 + 0x100 * x + 0x10 * y,
        Instruction::And(x, y) => 0x8002 + 0x100 * x + 0x10 * y,
        Instruction::Xor(x, y) => 0x8003 + 0x100 * x + 0x10 * y,
        Instruction::Add(x, y) => 0x8004 + 0x100 * x + 0x10 * y,
        Instruction::Sub(x, y) => 0x8005 + 0x100 * x + 0x10 * y,
        Instruction::Shr(x, y) => 0x8006 + 0x100 * x + 0x10 * y,
        Instruction::Ssub(x, y) => 0x8007 + 0x100 * x + 0x10 * y,
        Instruction::Shl(x, y) => 0x800E + 0x100 * x + 0x10 * y,
        Instruction::Skrne(x, y) => 0x9000 + 0x100 * x + 0x10 * y,
        Instruction::Seti(addr) => 0xA000 + addr,
        Instruction::Jmpr(addr) => 0xB000 + addr,
        Instruction::Rand(x, byte) => 0xC000 + 0x100 * x + byte,
        Instruction::Draw(x, y, n) => 0xD000 + 0x100 * x + 0x10 * y + n,
        Instruction::Skp(x) => 0xE09E + 0x100 * x,
        Instruction::Sknp(x) => 0xE0A1 + 0x100 * x,
        Instruction::Moved(x) => 0xF007 + 0x100 * x,
        Instruction::Key(x) => 0xF00A + 0x100 * x,
        Instruction::Setrd(x) => 0xF015 + 0x100 * x,
        Instruction::Setrs(x) => 0xF018 + 0x100 * x,
        Instruction::Addi(x) => 0xF01E + 0x100 * x,
        Instruction::Ldfnt(x) => 0xF029 + 0x100 * x,
        Instruction::Bcd(x) => 0xF033 + 0x100 * x,
        Instruction::Store(x) => 0xF055 + 0x100 * x,
        Instruction::Load(x) => 0xF065 + 0x100 * x,
    }
}

/// An opcode is made of its four fields, its address of the lower three, and its
/// byte of the lower two.
proof fn lemma_fields(opcode: u16)
    ensures
        ({
            let (family, x, y, n) = nibbles_of(opcode);
            &&& family < 16 && x < 16 && y < 16 && n < 16
            &&& opcode == 0x1000 * family + 0x100 * x + 0x10 * y + n
            &&& opcode % 4096 == 0x100 * x + 0x10 * y + n
            &&& opcode % 256 == 0x10 * y + n
        }),
{
    let v = opcode as int;
    vstd::arithmetic::div_mod::lemma_fundamental_div_mod(v, 4096);
    vstd::arithmetic::div_mod::lemma_fundamental_div_mod(v, 256);
    vstd::arithmetic::div_mod::lemma_fundamental_div_mod(v, 16);
    vstd::arithmetic::div_mod::lemma_fundamental_div_mod(v / 256, 16);
    vstd::arithmetic::div_mod::lemma_fundamental_div_mod(v / 16, 16);
    vstd::arithmetic::div_mod::lemma_div_denominator(v, 256, 16);
    vstd::arithmetic::div_mod::lemma_div_denominator(v, 16, 16);
}

/// The fields of an opcode that is put together from a family, a register and a
/// byte.
proof fn lemma_compose(family: int, x: int, byte: int)
    requires
        0 <= family < 16,
        0 <= x < 16,
        0 <= byte < 256,
    ensures
        ({
            let opcode = (0x1000 * family + 0x100 * x + byte) as u16;
            &&& opcode == 0x1000 * family + 0x100 * x + byte
            &&& nibbles_of(opcode) == ((family as u8, x as u8, (byte / 16) as u8, (byte % 16) as u8))
            &&& opcode % 4096 == 0x100 * x + byte
            &&& opcode % 256 == byte
        }),
{
    let v = 0x1000 * family + 0x100 * x + byte;
    let high = byte / 16;
    let low = byte % 16;
    vstd::arithmetic::div_mod::lemma_fundamental_div_mod_converse(v, 4096, family, 0x100 * x + byte);
    vstd::arithmetic::div_mod::lemma_fundamental_div_mod_converse(v, 256, 16 * family + x, byte);
    vstd::arithmetic::div_mod::lemma_fundamental_div_mod_converse(16 * family + x, 16, family, x);
    vstd::arithmetic::div_mod::lemma_fundamental_div_mod_converse(
        v,
        16,
        256 * family + 16 * x + high,
        low,
    );
    vstd::arithmetic::div_mod::lemma_fundamental_div_mod_converse(
        256 * family + 16 * x + high,
        16,
        16 * family + x,
        high,
    );
}

/// Every opcode decodes, to an instruction with operands in range or to the error
/// that names the opcode; and an instruction other than the ignored one comes from
/// one opcode only, its own.
pub proof fn lemma_decode_total(opcode: u16)
    ensures
        decode_spec(opcode) matches Ok(instruction) ==> instruction.wf() && (instruction
            != Instruction::Nop ==> encode(instruction) == opcode),
        decode_spec(opcode) matches Err(e) ==> e.opcode == opcode,
{
    lemma_fields(opcode);
}

/// Every instruction with operands in range is what its opcode decodes to.
pub proof fn lemma_decode_encode(instruction: Instruction)
    requires
        instruction.wf(),
    ensures
        0 <= encode(instruction) < 0x10000,
        decode_spec(encode(instruction) as u16) == Ok::<Instruction, DecodeError>(instruction),
{
    match instruction {
        Instruction::Nop => lemma_compose(0, 0, 0),
        Instruction::Cls => lemma_compose(0, 0, 0xE0),
        Instruction::Ret => lemma_compose(0, 0, 0xEE),
        Instruction::Jmp(addr) => lemma_compose(1, (addr / 256) as int, (addr % 256) as int),
        Instruction::Call(addr) => lemma_compose(2, (addr / 256) as int, (addr % 256) as int),
        Instruction::Ske(x, byte) => lemma_compose(3, x as int, byte as int),
        Instruction::Skne(x, byte) => lemma_compose(4, x as int, byte as int),
        Instruction::Skre(x, y) => lemma_compose(5, x as int, 16 * y),
        Instruction::Setr(x, byte) => lemma_compose(6, x as int, byte as int),
        Instruction::Addr(x, byte) => lemma_compose(7, x as int, byte as int),
        Instruction::Move(x, y) => lemma_compose(8, x as int, 16 * y),
        Instruction::Or(x, y) => lemma_compose(8, x as int, 16 * y + 1),
        Instruction::And(x, y) => lemma_compose(8, x as int, 16 * y + 2),
        Instruction::Xor(x, y) => lemma_compose(8, x as int, 16 * y + 3),
        Instruction::Add(x, y) => lemma_compose(8, x as int, 16 * y + 4),
        Instruction::Sub(x, y) => lemma_compose(8, x as int, 16 * y + 5),
        Instruction::Shr(x, y) => lemma_compose(8, x as int, 16 * y + 6),
        Instruction::Ssub(x, y) => lemma_compose(8, x as int, 16 * y + 7),
        Instruction::Shl(x, y) => lemma_compose(8, x as int, 16 * y + 0xE),
        Instruction::Skrne(x, y) => lemma_compose(9, x as int, 16 * y),
        Instruction::Seti(addr) => lemma_compose(0xA, (addr / 256) as int, (addr % 256) as int),
        Instruction::Jmpr(addr) => lemma_compose(0xB, (addr / 256) as int, (addr % 256) as int),
        Instruction::Rand(x, byte) => lemma_compose(0xC, x as int, byte as int),
        Instruction::Draw(x, y, n) => lemma_compose(0xD, x as int, 16 * y + n),
        Instruction::Skp(x) => lemma_compose(0xE, x as int, 0x9E),
        Instruction::Sknp(x) => lemma_compose(0xE, x as int, 0xA1),
        Instruction::Moved(x) => lemma_compose(0xF, x as int, 0x07),
        Instruction::Key(x) => lemma_compose(0xF, x as int, 0x0A),
        Instruction::Setrd(x) => lemma_compose(0xF, x as int, 0x15),
        Instruction::Setrs(x) => lemma_compose(0xF, x as int, 0x18),
        Instruction::Addi(x) => lemma_compose(0xF, x as int, 0x1E),
        Instruction::Ldfnt(x) => lemma_compose(0xF, x as int, 0x29),
        Instruction::Bcd(x) => lemma_compose(0xF, x as int, 0x33),
        Instruction::Store(x) => lemma_compose(0xF, x as int, 0x55),
        Instruction::Load(x) => lemma_compose(0xF, x as int, 0x65),
    }
}

/// The shift-and-mask form of the four fields agrees with their arithmetic form.
proof fn lemma_nibbles(n: u16)
    by (bit_vector)
    ensures
        (n >> 12) == n / 4096,
        ((n >> 8) & 0b1111) == n / 256 % 16,
        ((n >> 4) & 0b1111) == n / 16 % 16,
        (n & 0b1111) == n % 16,
        (n & 0x0fff) == n % 4096,
        (n & 0x00ff) == n % 256,
{
}

/// Splits an opcode into its four nibbles, the most significant first.
pub fn nibbles(n: u16) -> (r: (u8, u8, u8, u8))
    ensures
        r == nibbles_of(n),
        r.0 < 16 && r.1 < 16 && r.2 < 16 && r.3 < 16,
{
    proof {
        lemma_nibbles(n);
    }
    let n3 = (n >> 12) as u8;
    let n2 = ((n >> 8) & 0b1111) as u8;
    let n1 = ((n >> 4) & 0b1111) as u8;
    let n0 = (n & 0b1111) as u8;
    (n3, n2, n1, n0)
}

impl Instruction {
    /// Every register operand names one of the sixteen registers, every address has
    /// twelve bits, and a sprite height has four.
    pub open spec fn wf(self) -> bool {
        match self {
            Instruction::Nop | Instruction::Cls | Instruction::Ret => true,
            Instruction::Jmp(addr)
            | Instruction::Call(addr)
            | Instruction::Seti(addr)
            | Instruction::Jmpr(addr) => addr < 4096,
            Instruction::Ske(x, _)
            | Instruction::Skne(x, _)
            | Instruction::Setr(x, _)
            | Instruction::Addr(x, _)
            | Instruction::Rand(x, _) => x < 16,
            Instruction::Skre(x, y)
            | Instruction::Move(x, y)
            | Instruction::Or(x, y)
            | Instruction::And(x, y)
            | Instruction::Xor(x, y)
            | Instruction::Add(x, y)
            | Instruction::Sub(x, y)
            | Instruction::Shr(x, y)
            | Instruction::Ssub(x, y)
            | Instruction::Shl(x, y)
            | Instruction::Skrne(x, y) => x < 16 && y < 16,
            Instruction::Draw(x, y, n) => x < 16 && y < 16 && n < 16,
            Instruction::Skp(x)
            | Instruction::Sknp(x)
            | Instruction::Moved(x)
            | Instruction::Key(x)
            | Instruction::Setrd(x)
            | Instruction::Setrs(x)
            | Instruction::Addi(x)
            | Instruction::Ldfnt(x)
            | Instruction::Bcd(x)
            | Instruction::Store(x)
            | Instruction::Load(x) => x < 16,
        }
    }

    /// Decodes one opcode. Every opcode gives either its instruction, with operands
    /// in range, or the error that carries the opcode back.
    pub fn decode(opcode: u16) -> (r: Result<Instruction, DecodeError>)
        ensures
            r == decode_spec(opcode),
            r matches Ok(instruction) ==> instruction.wf(),
            r matches Err(e) ==> e.opcode == opcode,
    {
        proof {
            lemma_nibbles(opcode);
        }
        let addr = opcode & 0x0fff;
        let byte = (opcode & 0x00ff) as u8;

        match nibbles(opcode) {
            (0, 0, 0xE, 0xE) => Ok(Instruction::Ret),
            (0, 0, 0xE, 0) => Ok(Instruction::Cls),
            (0, _, _, _) => Ok(Instruction::Nop),
            (1, _, _, _) => Ok(Instruction::Jmp(addr)),
            (2, _, _, _) => Ok(Instruction::Call(addr)),
            (3, x, _, _) => Ok(Instruction::Ske(x, byte)),
            (4, x, _, _) => Ok(Instruction::Skne(x, byte)),
            (5, x, y, 0) => Ok(Instruction::Skre(x, y)),
            (6, x, _, _) => Ok(Instruction::Setr(x, byte)),
            (7, x, _, _) => Ok(Instruction::Addr(x, byte)),
            (8, x, y, 0) => Ok(Instruction::Move(x, y)),
            (8, x, y, 1) => Ok(Instruction::Or(x, y)),
            (8, x, y, 2) => Ok(Instruction::And(x, y)),
            (8, x, y, 3) => Ok(Instruction::Xor(x, y)),
            (8, x, y, 4) => Ok(Instruction::Add(x, y)),
            (8, x, y, 5) => Ok(Instruction::Sub(x, y)),
            (8, x, y, 6) => Ok(Instruction::Shr(x, y)),
            (8, x, y, 7) => Ok(Instruction::Ssub(x, y)),
            (8, x, y, 0xE) => Ok(Instruction::Shl(x, y)),
            (9, x, y, 0) => Ok(Instruction::Skrne(x, y)),
            (0xA, _, _, _) => Ok(Instruction::Seti(addr)),
            (0xB, _, _, _) => Ok(Instruction::Jmpr(addr)),
            (0xC, x, _, _) => Ok(Instruction::Rand(x, byte)),
            (0xD, x, y, n) => Ok(Instruction::Draw(x, y, n)),
            (0xE, x, 9, 0xE) => Ok(Instruction::Skp(x)),
            (0xE, x, 0xA, 1) => Ok(Instruction::Sknp(x)),
            (0xF, x, 0, 7) => Ok(Instruction::Moved(x)),
            (0xF, x, 0, 0xA) => Ok(Instruction::Key(x)),
            (0xF, x, 1, 5) => Ok(Instruction::Setrd(x)),
            (0xF, x, 1, 8) => Ok(Instruction::Setrs(x)),
            (0xF, x, 1, 0xE) => Ok(Instruction::Addi(x)),
            (0xF, x, 2, 9) => Ok(Instruction::Ldfnt(x)),
            (0xF, x, 3, 3) => Ok(Instruction::Bcd(x)),
            (0xF, x, 5, 5) => Ok(Instruction::Store(x)),
            (0xF, x, 6, 5) => Ok(Instruction::Load(x)),
            _ => Err(DecodeError { opcode }),
        }
    }
}

} // verus!
