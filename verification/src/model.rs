//! The machine as a mathematical value, and what each instruction makes of it.

use vstd::prelude::*;
use crate::display::{blank_grid, collides, draw, is_grid};
use crate::fault::{Fault, StackFault};
use crate::font::{glyph_address, FONT, FONT_START};
use crate::instruction::{decode_spec, Instruction};
use crate::timer::Timers;

verus! {

/// The number of bytes of memory.
pub const MEMORY_SIZE: usize = 4096;

/// The address at which a program is loaded and starts.
pub const PROGRAM_START: u16 = 0x200;

/// The largest program image, in bytes: what lies between the program's start and
/// the end of memory.
pub const MAX_PROGRAM_SIZE: usize = 3584;

/// The index of the flag register `VF`.
pub const FLAG: u8 = 0xF;

/// The whole state of the machine.
#[verifier::ext_equal]
pub struct MachineState {
    /// The 4096 bytes of memory.
    pub memory: Seq<u8>,
    /// The registers `V0` to `VF`.
    pub registers: Seq<u8>,
    /// The address of the next instruction.
    pub pc: u16,
    /// The index register `I`.
    pub index: u16,
    /// The return addresses of the calls that have not returned, the oldest first.
    pub stack: Seq<u16>,
    /// The display, as 32 rows of 64 pixels.
    pub display: Seq<Seq<bool>>,
    /// The duration of one clock cycle in nanoseconds.
    pub period: u64,
    /// The delay and sound timers.
    pub timers: Timers,
}

/// An address reduced to the twelve bits that memory has.
pub open spec fn mask(addr: int) -> u16 {
    (addr % 4096) as u16
}

/// Whether the key with the given index is down. An index above 15 names no key.
pub open spec fn key_down(keys: Seq<bool>, key: u8) -> bool {
    key < 16 && keys[key as int]
}

/// Whether `key` is the lowest key that is down.
pub open spec fn is_first_pressed(keys: Seq<bool>, key: int) -> bool {
    &&& 0 <= key < keys.len()
    &&& keys[key]
    &&& forall|j: int| 0 <= j < key ==> !keys[j]
}

/// Whether any key is down.
pub open spec fn any_pressed(keys: Seq<bool>) -> bool {
    exists|k: int| 0 <= k < keys.len() && keys[k]
}

/// The lowest key that is down, where one is.
pub open spec fn first_pressed(keys: Seq<bool>) -> int {
    choose|k: int| is_first_pressed(keys, k)
}

/// If a key is the lowest one that is down, then some key is down and the lowest
/// such key is that one.
pub proof fn lemma_first_pressed(keys: Seq<bool>, key: int)
    requires
        is_first_pressed(keys, key),
    ensures
        any_pressed(keys),
        first_pressed(keys) == key,
{
    let chosen = first_pressed(keys);
    assert(is_first_pressed(keys, chosen));
    if chosen < key {
        assert(!keys[chosen]);
    }
    if key < chosen {
        assert(!keys[key]);
    }
}

/// The value with the given decimal digits.
pub open spec fn from_digits(hundreds: u8, tens: u8, units: u8) -> int {
    100 * hundreds + 10 * tens + units
}

impl MachineState {
    /// Memory and registers have their sizes, addresses have twelve bits, the stack
    /// holds at most sixteen of them, and the display is a 64x32 grid.
    pub open spec fn wf(self) -> bool {
        &&& self.memory.len() == 4096
        &&& self.registers.len() == 16
        &&& self.pc < 4096
        &&& self.index < 4096
        &&& self.stack.len() <= 16
        &&& forall|i: int| 0 <= i < self.stack.len() ==> #[trigger] self.stack[i] < 4096
        &&& is_grid(self.display)
        &&& self.timers.wf()
    }

    /// The machine when it is switched on with a clock cycle of `period`
    /// nanoseconds: memory is zero but for the glyphs, the registers, the index
    /// and the timers are zero, the stack is empty, the display is blank, and the
    /// program counter is at the program's start.
    pub open spec fn initial(period: u64) -> MachineState {
        MachineState {
            memory: Seq::new(
                4096,
                |a: int|
                    if FONT_START <= a < FONT_START + 80 {
                        FONT@[a - FONT_START]
                    } else {
                        0u8
                    },
            ),
            registers: Seq::new(16, |r: int| 0u8),
            pc: PROGRAM_START,
            index: 0,
            stack: Seq::empty(),
            display: blank_grid(),
            period,
            timers: Timers::fresh(),
        }
    }

    /// The machine with a program image copied to the program's start, and the
    /// program counter set there.
    pub open spec fn with_program(self, image: Seq<u8>) -> MachineState {
        MachineState {
            memory: Seq::new(
                4096,
                |a: int|
                    if PROGRAM_START <= a < PROGRAM_START + image.len() {
                        image[a - PROGRAM_START]
                    } else {
                        self.memory[a]
                    },
            ),
            pc: PROGRAM_START,
            ..self
        }
    }

    /// The opcode at the program counter: two bytes, the high one first. The byte
    /// after the last one of memory is the first.
    pub open spec fn opcode(self) -> u16 {
        (256 * self.memory[self.pc as int] + self.memory[mask(self.pc + 1) as int]) as u16
    }

    /// The program counter moved past one instruction.
    pub open spec fn advance(self) -> MachineState {
        MachineState { pc: mask(self.pc + 2), ..self }
    }

    /// The program counter moved back by one instruction.
    pub open spec fn rewind(self) -> MachineState {
        MachineState { pc: mask(self.pc + 4094), ..self }
    }

    /// The program counter moved past one instruction if the condition holds.
    pub open spec fn skip_if(self, condition: bool) -> MachineState {
        if condition {
            self.advance()
        } else {
            self
        }
    }

    /// The timers after one clock cycle.
    pub open spec fn tick(self) -> MachineState {
        MachineState { timers: self.timers.tick_spec(self.period), ..self }
    }

    /// The value of the register `Vx`.
    pub open spec fn reg(self, x: u8) -> u8 {
        self.registers[x as int]
    }

    /// The register `Vx` set to a value.
    pub open spec fn set_reg(self, x: u8, value: u8) -> MachineState {
        MachineState { registers: self.registers.update(x as int, value), ..self }
    }

    /// The flag register set to 1 if the condition holds, to 0 if not.
    pub open spec fn set_flag(self, condition: bool) -> MachineState {
        self.set_reg(FLAG, if condition { 1u8 } else { 0u8 })
    }

    /// The bytes of the sprite that a draw of `n` rows reads: at most fifteen, from
    /// the index register on, and none from beyond the end of memory.
    pub open spec fn sprite(self, n: u8) -> Seq<u8> {
        let rows = if n < 15 { n as int } else { 15 };
        let end = if self.index + rows < 4096 { self.index + rows } else { 4096 };
        self.memory.subrange(self.index as int, end)
    }

    /// Memory with the registers `V0..=Vx` stored from the index register on.
    pub open spec fn stored(self, x: u8) -> Seq<u8> {
        Seq::new(
            4096,
            |a: int|
                {
                    let r = (a - self.index) % 4096;
                    if r <= x {
                        self.registers[r]
                    } else {
                        self.memory[a]
                    }
                },
        )
    }

    /// The registers with `V0..=Vx` loaded from the index register on.
    pub open spec fn loaded(self, x: u8) -> Seq<u8> {
        Seq::new(
            16,
            |r: int|
                if r <= x {
                    self.memory[mask(self.index + r) as int]
                } else {
                    self.registers[r]
                },
        )
    }

    /// The call stack's objection to an instruction: a call finds it full, or a
    /// return finds it empty.
    pub open spec fn fault(self, instruction: Instruction) -> Option<StackFault> {
        match instruction {
            Instruction::Call(_) if self.stack.len() >= 16 => Some(StackFault::Overflow),
            Instruction::Ret if self.stack.len() == 0 => Some(StackFault::Underflow),
            _ => None,
        }
    }

    /// The machine after an instruction to which the call stack does not object,
    /// given the keys that are down and the byte that a random instruction draws.
    pub open spec fn apply(self, instruction: Instruction, keys: Seq<bool>, random: u8) -> MachineState {
        match instruction {
            Instruction::Nop => self,
            Instruction::Cls => MachineState { display: blank_grid(), ..self },
            Instruction::Ret => MachineState {
                pc: self.stack.last(),
                stack: self.stack.drop_last(),
                ..self
            },
            Instruction::Jmp(addr) => MachineState { pc: addr, ..self },
            Instruction::Call(addr) => MachineState {
                pc: addr,
                stack: self.stack.push(self.pc),
                ..self
            },
            Instruction::Ske(x, byte) => self.skip_if(self.reg(x) == byte),
            Instruction::Skne(x, byte) => self.skip_if(self.reg(x) != byte),
            Instruction::Skre(x, y) => self.skip_if(self.reg(x) == self.reg(y)),
            Instruction::Setr(x, byte) => self.set_reg(x, byte),
            Instruction::Addr(x, byte) => self.set_reg(x, ((self.reg(x) + byte) % 256) as u8),
            Instruction::Move(x, y) => self.set_reg(x, self.reg(y)),
            Instruction::Or(x, y) => self.set_reg(x, self.reg(x) | self.reg(y)),
            Instruction::And(x, y) => self.set_reg(x, self.reg(x) & self.reg(y)),
            Instruction::Xor(x, y) => self.set_reg(x, self.reg(x) ^ self.reg(y)),
            Instruction::Add(x, y) => {
                let sum = self.reg(x) + self.reg(y);
                self.set_reg(x, (sum % 256) as u8).set_flag(sum > 255)
            },
            Instruction::Sub(x, y) => {
                let difference = self.reg(x) - self.reg(y);
                self.set_reg(x, (difference % 256) as u8).set_flag(difference >= 0)
            },
            Instruction::Shr(x, _) => {
                let flagged = self.set_flag(self.reg(x) % 2 == 1);
                flagged.set_reg(x, flagged.reg(x) / 2)
            },
            Instruction::Ssub(x, y) => {
                let difference = self.reg(y) - self.reg(x);
                self.set_reg(x, (difference % 256) as u8).set_flag(difference >= 0)
            },
            Instruction::Shl(x, _) => {
                let flagged = self.set_flag(self.reg(x) >= 128);
                flagged.set_reg(x, ((2 * flagged.reg(x)) % 256) as u8)
            },
            Instruction::Skrne(x, y) => self.skip_if(self.reg(x) != self.reg(y)),
            Instruction::Seti(addr) => MachineState { index: addr, ..self },
            Instruction::Jmpr(addr) => MachineState { pc: mask(addr + self.reg(0)), ..self },
            Instruction::Rand(x, byte) => self.set_reg(x, random & byte),
            Instruction::Draw(x, y, n) => {
                let cleared = self.set_flag(false);
                let ox = cleared.reg(x) % 64;
                let oy = cleared.reg(y) % 32;
                let sprite = self.sprite(n);
                MachineState {
                    display: draw(self.display, sprite, ox as int, oy as int),
                    ..cleared.set_flag(collides(self.display, sprite, ox as int, oy as int))
                }
            },
            Instruction::Skp(x) => self.skip_if(key_down(keys, self.reg(x))),
            Instruction::Sknp(x) => self.skip_if(!key_down(keys, self.reg(x))),
            Instruction::Moved(x) => self.set_reg(x, self.timers.delay),
            Instruction::Key(x) => if any_pressed(keys) {
                self.set_reg(x, first_pressed(keys) as u8)
            } else {
                self.rewind()
            },
            Instruction::Setrd(x) => MachineState {
                timers: Timers { delay: self.reg(x), ..self.timers },
                ..self
            },
            Instruction::Setrs(x) => MachineState {
                timers: Timers { sound: self.reg(x), ..self.timers },
                ..self
            },
            Instruction::Addi(x) => MachineState { index: mask(self.index + self.reg(x)), ..self },
            Instruction::Ldfnt(x) => MachineState {
                index: glyph_address(self.reg(x)) as u16,
                ..self
            },
            Instruction::Bcd(x) => {
                let value = self.reg(x);
                MachineState {
                    memory: self.memory.update(self.index as int, value / 100).update(
                        mask(self.index + 1) as int,
                        value / 10 % 10,
                    ).update(mask(self.index + 2) as int, value % 10),
                    ..self
                }
            },
            Instruction::Store(x) => MachineState { memory: self.stored(x), ..self },
            Instruction::Load(x) => MachineState { registers: self.loaded(x), ..self },
        }
    }

    /// The frame that an instruction hands to the host: the display after it, for
    /// the two instructions that change the display, and nothing for the others.
    pub open spec fn frame(self, instruction: Instruction) -> Option<Seq<Seq<bool>>> {
        match instruction {
            Instruction::Cls | Instruction::Draw(_, _, _) => Some(self.display),
            _ => None,
        }
    }

    /// What running an instruction gives: the fault, with the machine untouched, or
    /// the machine after it and the frame for the host.
    pub open spec fn execute(self, instruction: Instruction, keys: Seq<bool>, random: u8) -> (
        MachineState,
        Result<Option<Seq<Seq<bool>>>, StackFault>,
    ) {
        match self.fault(instruction) {
            Some(fault) => (self, Err(fault)),
            None => {
                let after = self.apply(instruction, keys, random);
                (after, Ok(after.frame(instruction)))
            },
        }
    }

    /// One cycle: the opcode at the program counter is fetched, which moves the
    /// program counter past it, and decoded; the timers account for the cycle; then
    /// the instruction runs. An opcode that matches no instruction stops the cycle
    /// after the fetch, and an instruction to which the call stack objects stops it
    /// after the timers: each is a fault of this cycle alone.
    pub open spec fn step(self, keys: Seq<bool>, random: u8) -> (
        MachineState,
        Result<Option<Seq<Seq<bool>>>, Fault>,
    ) {
        match decode_spec(self.opcode()) {
            Err(e) => (self.advance(), Err(Fault::Decode(e))),
            Ok(instruction) => {
                let ready = self.advance().tick();
                match ready.fault(instruction) {
                    Some(fault) => (ready, Err(Fault::Stack(fault))),
                    None => {
                        let after = ready.apply(instruction, keys, random);
                        (after, Ok(after.frame(instruction)))
                    },
                }
            },
        }
    }
}

} // verus!
