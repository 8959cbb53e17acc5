//! The machine itself: its memory, registers, stack, display and timers, and the
//! cycle that fetches, decodes and runs one instruction.

use vstd::prelude::*;
use crate::display::{blank, draw_sprite, grid_view, Display};
use crate::fault::{Fault, LoadError, StackFault};
use crate::font::{FONT, FONT_START};
use crate::instruction::{decode_spec, Instruction};
use crate::model::{
    any_pressed, first_pressed, is_first_pressed, lemma_first_pressed, mask, MachineState,
    MAX_PROGRAM_SIZE, PROGRAM_START,
};
use crate::timer::{clock_period, period_of, Timers};

verus! {

/// The state of the sixteen keys of the keypad: `true` for a key that is down.
pub type Keys = [bool; 16];

/// A CHIP-8 machine.
pub struct ChipState {
    memory: [u8; 4096],
    registers: [u8; 16],
    pc: u16,
    index: u16,
    pointer: u8,
    stack: [u16; 16],
    display: Display,
    speed: u64,
    timers: Timers,
}

/// The frame that a cycle hands to the host, as a grid.
pub open spec fn frame_view(frame: Option<Display>) -> Option<Seq<Seq<bool>>> {
    match frame {
        Some(d) => Some(grid_view(d)),
        None => None,
    }
}

/// The outcome of a cycle, with its frame as a grid.
pub open spec fn outcome_view<E>(outcome: Result<Option<Display>, E>) -> Result<
    Option<Seq<Seq<bool>>>,
    E,
> {
    match outcome {
        Ok(frame) => Ok(frame_view(frame)),
        Err(e) => Err(e),
    }
}

/// The instructions that only move the program counter, but for the key that the
/// wait for a key stores.
spec fn is_branch(instruction: Instruction) -> bool {
    match instruction {
        Instruction::Jmp(_)
        | Instruction::Jmpr(_)
        | Instruction::Ske(_, _)
        | Instruction::Skne(_, _)
        | Instruction::Skre(_, _)
        | Instruction::Skrne(_, _)
        | Instruction::Skp(_)
        | Instruction::Sknp(_)
        | Instruction::Key(_) => true,
        _ => false,
    }
}

/// The instructions that compute a register.
spec fn is_compute(instruction: Instruction) -> bool {
    match instruction {
        Instruction::Setr(_, _)
        | Instruction::Addr(_, _)
        | Instruction::Move(_, _)
        | Instruction::Or(_, _)
        | Instruction::And(_, _)
        | Instruction::Xor(_, _)
        | Instruction::Add(_, _)
        | Instruction::Sub(_, _)
        | Instruction::Shr(_, _)
        | Instruction::Ssub(_, _)
        | Instruction::Shl(_, _)
        | Instruction::Rand(_, _) => true,
        _ => false,
    }
}

/// The instructions that move data between the registers, the index register, the
/// timers and memory.
spec fn is_transfer(instruction: Instruction) -> bool {
    match instruction {
        Instruction::Seti(_)
        | Instruction::Addi(_)
        | Instruction::Ldfnt(_)
        | Instruction::Moved(_)
        | Instruction::Setrd(_)
        | Instruction::Setrs(_)
        | Instruction::Bcd(_)
        | Instruction::Store(_)
        | Instruction::Load(_) => true,
        _ => false,
    }
}

/// Masking with twelve bits is the remainder by 4096.
proof fn lemma_mask(v: u16)
    by (bit_vector)
    ensures
        v & 0x0FFF == v % 4096,
{
}

/// Shifting a byte by one bit, and testing its lowest and highest bit, in
/// arithmetic.
proof fn lemma_shift(v: u8)
    by (bit_vector)
    ensures
        v & 0b1 == v % 2,
        v >> 1 == v / 2,
        (v & 0x80) >> 7 == v / 128,
        v < 128 ==> v << 1 == 2 * v,
        v >= 128 ==> v << 1 == 2 * v - 256,
{
}

/// The lowest key that is down, if any is.
pub fn first_key(keys: &Keys) -> (key: Option<u8>)
    ensures
        key matches Some(k) ==> is_first_pressed(keys@, k as int) && first_pressed(keys@) == k,
        key is Some <==> any_pressed(keys@),
{
    let mut k: u8 = 0;
    while k < 16
        invariant
            k <= 16,
            forall|j: int| 0 <= j < k ==> !keys@[j],
        decreases 16 - k,
    {
        if keys[k as usize] {
            proof {
                lemma_first_pressed(keys@, k as int);
            }
            return Some(k);
        }
        k = k + 1;
    }
    None
}

/// A byte from the thread-local generator of `rand::random`. Nothing is known of
/// the byte but its type: two calls need not agree.
#[verifier::external_body]
fn random_byte() -> (byte: u8) {
    rand::random::<u8>()
}

impl ChipState {
    #[verifier::type_invariant]
    spec fn inv(self) -> bool {
        &&& self.pc < 4096
        &&& self.index < 4096
        &&& self.pointer <= 16
        &&& forall|i: int| 0 <= i < self.pointer ==> #[trigger] self.stack@[i] < 4096
        &&& self.timers.wf()
    }

    /// The machine as a mathematical value.
    #[verifier::opaque]
    pub closed spec fn view(&self) -> MachineState {
        MachineState {
            memory: self.memory@,
            registers: self.registers@,
            pc: self.pc,
            index: self.index,
            stack: self.stack@.take(self.pointer as int),
            display: grid_view(self.display),
            period: self.speed,
            timers: self.timers,
        }
    }

    /// A machine that runs at `clock_freq` instructions per second, switched on:
    /// the glyphs are in memory, everything else is zero, and the program counter
    /// is at the program's start.
    pub fn new(clock_freq: u32) -> (chip: Self)
        requires
            clock_freq > 0,
        ensures
            chip@ == MachineState::initial(clock_period(clock_freq as int) as u64),
            chip@.wf(),
    {
        let mut memory: [u8; 4096] = [0; 4096];
        let mut i: usize = 0;
        while i < 80
            invariant
                i <= 80,
                forall|a: int|
                    0 <= a < 4096 ==> #[trigger] memory@[a] == (if FONT_START <= a < FONT_START
                        + i {
                        FONT@[a - FONT_START]
                    } else {
                        0u8
                    }),
            decreases 80 - i,
        {
            memory[FONT_START as usize + i] = FONT[i];
            i = i + 1;
        }
        let chip = ChipState {
            memory,
            registers: [0; 16],
            pc: PROGRAM_START,
            index: 0,
            pointer: 0,
            stack: [0; 16],
            display: blank(),
            speed: period_of(clock_freq),
            timers: Timers::new(),
        };
        proof {
            reveal(ChipState::view);
            assert(chip@ =~= MachineState::initial(clock_period(clock_freq as int) as u64));
        }
        chip
    }

    /// Copies a program image to the program's start and sets the program counter
    /// there. An image of more than 3584 bytes does not fit, and is refused with
    /// the machine untouched.
    pub fn load(&mut self, image: &[u8]) -> (r: Result<(), LoadError>)
        ensures
            image@.len() <= MAX_PROGRAM_SIZE ==> r is Ok && final(self)@ == old(self)@.with_program(
                image@,
            ),
            image@.len() > MAX_PROGRAM_SIZE ==> r == Err::<(), LoadError>(
                LoadError { size: image.len() },
            ) && final(self)@ == old(self)@,
            final(self)@.wf(),
    {
        proof {
            use_type_invariant(&*self);
            reveal(ChipState::view);
        }
        if image.len() > MAX_PROGRAM_SIZE {
            return Err(LoadError { size: image.len() });
        }
        let mut i: usize = 0;
        while i < image.len()
            invariant
                i <= image.len() <= MAX_PROGRAM_SIZE,
                self.inv(),
                self.registers == old(self).registers,
                self.pc == old(self).pc,
                self.index == old(self).index,
                self.pointer == old(self).pointer,
                self.stack == old(self).stack,
                self.display == old(self).display,
                self.speed == old(self).speed,
                self.timers == old(self).timers,
                forall|a: int|
                    0 <= a < 4096 ==> #[trigger] self.memory@[a] == (if PROGRAM_START <= a
                        < PROGRAM_START + i {
                        image@[a - PROGRAM_START]
                    } else {
                        old(self).memory@[a]
                    }),
            decreases image.len() - i,
        {
            self.memory[PROGRAM_START as usize + i] = image[i];
            i = i + 1;
        }
        self.pc = PROGRAM_START;
        assert(self@ =~= old(self)@.with_program(image@));
        Ok(())
    }

    /// The registers `V0` to `VF`.
    pub fn registers(&self) -> (registers: &[u8; 16])
        ensures
            registers@ == self@.registers,
    {
        proof {
            reveal(ChipState::view);
        }
        &self.registers
    }

    /// The 4096 bytes of memory.
    pub fn memory(&self) -> (memory: &[u8; 4096])
        ensures
            memory@ == self@.memory,
    {
        proof {
            reveal(ChipState::view);
        }
        &self.memory
    }

    /// The display.
    pub fn display(&self) -> (display: &Display)
        ensures
            grid_view(*display) == self@.display,
    {
        proof {
            reveal(ChipState::view);
        }
        &self.display
    }

    /// The address of the next instruction.
    pub fn pc(&self) -> (pc: u16)
        ensures
            pc == self@.pc,
            pc < 4096,
    {
        proof {
            use_type_invariant(self);
            reveal(ChipState::view);
        }
        self.pc
    }

    /// The index register.
    pub fn index(&self) -> (index: u16)
        ensures
            index == self@.index,
            index < 4096,
    {
        proof {
            use_type_invariant(self);
            reveal(ChipState::view);
        }
        self.index
    }

    /// The number of calls that have not returned.
    pub fn depth(&self) -> (depth: usize)
        ensures
            depth == self@.stack.len(),
            depth <= 16,
    {
        proof {
            use_type_invariant(self);
            reveal(ChipState::view);
        }
        self.pointer as usize
    }

    /// The delay and sound timers.
    pub fn timers(&self) -> (timers: Timers)
        ensures
            timers == self@.timers,
    {
        proof {
            reveal(ChipState::view);
        }
        self.timers
    }

    /// The duration of one clock cycle, in nanoseconds.
    pub fn speed(&self) -> (nanos: u64)
        ensures
            nanos == self@.period,
    {
        proof {
            reveal(ChipState::view);
        }
        self.speed
    }

    /// Whether the buzzer sounds: it does while the sound timer is not zero.
    pub fn buzzer_active(&self) -> (active: bool)
        ensures
            active == (self@.timers.sound != 0),
    {
        proof {
            reveal(ChipState::view);
        }
        self.timers.sound != 0
    }

    /// Moves the program counter past one instruction. After the last address it
    /// is at the first again.
    pub fn increment_pc(&mut self)
        ensures
            final(self)@ == old(self)@.advance(),
            final(self)@.wf(),
    {
        proof {
            use_type_invariant(&*self);
            reveal(ChipState::view);
            lemma_mask((self.pc + 2) as u16);
        }
        self.pc = (self.pc + 2) & 0x0FFF;
        assert(self@ =~= old(self)@.advance());
    }

    /// Reads the opcode at the program counter and moves the program counter past
    /// it.
    pub fn fetch(&mut self) -> (opcode: u16)
        ensures
            opcode == old(self)@.opcode(),
            final(self)@ == old(self)@.advance(),
            final(self)@.wf(),
    {
        proof {
            use_type_invariant(&*self);
            reveal(ChipState::view);
            lemma_mask((self.pc + 1) as u16);
        }
        let high = self.memory[self.pc as usize];
        let low = self.memory[((self.pc + 1) & 0x0FFF) as usize];
        let instruction = high as u16 * 256 + low as u16;

        self.increment_pc();
        instruction
    }

    /// Runs one instruction, given the keys that are down and the byte that a
    /// random instruction draws. A call on a full stack and a return on an empty
    /// one are faults, and leave the machine untouched. Clearing the display and
    /// drawing hand the new display to the host.
    pub fn execute_with(&mut self, instruction: Instruction, keys: &Keys, random: u8) -> (r: Result<
        Option<Display>,
        StackFault,
    >)
        requires
            instruction.wf(),
        ensures
            (final(self)@, outcome_view(r)) == old(self)@.execute(instruction, keys@, random),
            final(self)@.wf(),
    {
        match instruction {
            Instruction::Nop => self.idle(),
            Instruction::Cls => {
                self.clear();
                return Ok(self.frame());
            },
            Instruction::Ret => {
                match self.ret() {
                    Ok(()) => {},
                    Err(fault) => {
                        return Err(fault);
                    },
                }
            },
            Instruction::Call(addr) => {
                match self.call(addr) {
                    Ok(()) => {},
                    Err(fault) => {
                        return Err(fault);
                    },
                }
            },
            Instruction::Draw(x, y, n) => {
                self.draw(x, y, n);
                return Ok(self.frame());
            },
            Instruction::Jmp(_)
            | Instruction::Jmpr(_)
            | Instruction::Ske(_, _)
            | Instruction::Skne(_, _)
            | Instruction::Skre(_, _)
            | Instruction::Skrne(_, _)
            | Instruction::Skp(_)
            | Instruction::Sknp(_)
            | Instruction::Key(_) => self.branch(instruction, keys),
            Instruction::Setr(_, _)
            | Instruction::Addr(_, _)
            | Instruction::Move(_, _)
            | Instruction::Or(_, _)
            | Instruction::And(_, _)
            | Instruction::Xor(_, _)
            | Instruction::Add(_, _)
            | Instruction::Sub(_, _)
            | Instruction::Shr(_, _)
            | Instruction::Ssub(_, _)
            | Instruction::Shl(_, _)
            | Instruction::Rand(_, _) => self.compute(instruction, random),
            Instruction::Seti(_)
            | Instruction::Addi(_)
            | Instruction::Ldfnt(_)
            | Instruction::Moved(_)
            | Instruction::Setrd(_)
            | Instruction::Setrs(_)
            | Instruction::Bcd(_)
            | Instruction::Store(_)
            | Instruction::Load(_) => self.transfer(instruction),
        };
        Ok(None)
    }

    /// Runs one instruction, given the keys that are down. A random instruction
    /// draws its byte from the generator of the thread; every other instruction
    /// has one outcome.
    pub fn execute(&mut self, instruction: Instruction, keys: &Keys) -> (r: Result<
        Option<Display>,
        StackFault,
    >)
        requires
            instruction.wf(),
        ensures
            exists|random: u8|
                (final(self)@, outcome_view(r)) == old(self)@.execute(instruction, keys@, random),
            !(instruction is Rand) ==> (final(self)@, outcome_view(r)) == old(self)@.execute(
                instruction,
                keys@,
                0,
            ),
            final(self)@.wf(),
    {
        let random = match instruction {
            Instruction::Rand(_, _) => random_byte(),
            _ => 0,
        };
        self.execute_with(instruction, keys, random)
    }

    /// Runs one cycle: fetches and decodes the opcode at the program counter, lets
    /// the timers account for the cycle, and runs the instruction. The frame is the
    /// new display where the instruction changed it. An opcode that matches no
    /// instruction and a call or return that the stack cannot serve are faults.
    pub fn step(&mut self, keys: &Keys) -> (r: Result<Option<Display>, Fault>)
        ensures
            exists|random: u8| (final(self)@, outcome_view(r)) == old(self)@.step(keys@, random),
            !(decode_spec(old(self)@.opcode()) matches Ok(Instruction::Rand(_, _))) ==> (
                final(self)@,
                outcome_view(r),
            ) == old(self)@.step(keys@, 0),
            final(self)@.wf(),
    {
        let opcode = self.fetch();
        let instruction = match Instruction::decode(opcode) {
            Ok(instruction) => instruction,
            Err(e) => {
                assert((self@, outcome_view(Err::<Option<Display>, Fault>(Fault::Decode(e))))
                    == old(self)@.step(keys@, 0));
                return Err(Fault::Decode(e));
            },
        };

        // Handle timers
        self.tick();

        let ghost ready = self@;
        match self.execute(instruction, keys) {
            Ok(frame) => {
                proof {
                    let random = choose|random: u8|
                        (self@, outcome_view(Ok::<Option<Display>, StackFault>(frame)))
                            == ready.execute(instruction, keys@, random);
                    assert((self@, outcome_view(Ok::<Option<Display>, Fault>(frame))) == old(
                        self,
                    )@.step(keys@, random));
                }
                Ok(frame)
            },
            Err(fault) => {
                assert((self@, outcome_view(Err::<Option<Display>, Fault>(Fault::Stack(fault))))
                    == old(self)@.step(keys@, 0));
                Err(Fault::Stack(fault))
            },
        }
    }

    /// Runs a jump, a skip or the wait for a key: the instructions that only move
    /// the program counter, but for the key that the wait stores.
    fn branch(&mut self, instruction: Instruction, keys: &Keys)
        requires
            instruction.wf(),
            is_branch(instruction),
        ensures
            final(self)@ == old(self)@.apply(instruction, keys@, 0),
            final(self)@.wf(),
    {
        match instruction {
            Instruction::Jmp(addr) => self.jump(addr),
            Instruction::Jmpr(addr) => {
                let offset = self.v(0);
                proof {
                    lemma_mask((addr + offset) as u16);
                }
                self.jump((addr + offset as u16) & 0x0FFF);
            },
            Instruction::Ske(x, byte) => {
                let equal = self.v(x) == byte;
                self.skip_if(equal);
            },
            Instruction::Skne(x, byte) => {
                let differ = self.v(x) != byte;
                self.skip_if(differ);
            },
            Instruction::Skre(x, y) => {
                let equal = self.v(x) == self.v(y);
                self.skip_if(equal);
            },
            Instruction::Skrne(x, y) => {
                let differ = self.v(x) != self.v(y);
                self.skip_if(differ);
            },
            Instruction::Skp(x) => {
                let key = self.v(x);
                let down = key < 16 && keys[key as usize];
                self.skip_if(down);
            },
            Instruction::Sknp(x) => {
                let key = self.v(x);
                let down = key < 16 && keys[key as usize];
                self.skip_if(!down);
            },
            Instruction::Key(x) => {
                match first_key(keys) {
                    None => self.rewind(),
                    Some(key) => self.set_v(x, key),
                }
            },
            _ => self.idle(),
        }
    }

    /// Runs an instruction that computes a register from registers, an immediate
    /// byte or the random byte, with the flag where it has one.
    fn compute(&mut self, instruction: Instruction, random: u8)
        requires
            instruction.wf(),
            is_compute(instruction),
        ensures
            final(self)@ == old(self)@.apply(instruction, Seq::empty(), random),
            final(self)@.wf(),
    {
        match instruction {
            Instruction::Setr(x, byte) => self.set_v(x, byte),
            Instruction::Addr(x, byte) => {
                let sum = self.v(x).wrapping_add(byte);
                self.set_v(x, sum);
            },
            Instruction::Move(x, y) => {
                let value = self.v(y);
                self.set_v(x, value);
            },
            Instruction::Or(x, y) => {
                let value = self.v(x) | self.v(y);
                self.set_v(x, value);
            },
            Instruction::And(x, y) => {
                let value = self.v(x) & self.v(y);
                self.set_v(x, value);
            },
            Instruction::Xor(x, y) => {
                let value = self.v(x) ^ self.v(y);
                self.set_v(x, value);
            },
            Instruction::Add(x, y) => {
                let vx = self.v(x);
                let vy = self.v(y);
                self.set_v(x, vx.wrapping_add(vy));
                self.set_flag(vx as u16 + vy as u16 > 255);
            },
            Instruction::Sub(x, y) => {
                let vx = self.v(x);
                let vy = self.v(y);
                self.set_v(x, vx.wrapping_sub(vy));
                self.set_flag(vx >= vy);
            },
            Instruction::Shr(x, _) => {
                let low = self.v(x) & 0b1;
                proof {
                    lemma_shift(self@.reg(x));
                }
                self.set_flag(low == 1);
                let value = self.v(x);
                proof {
                    lemma_shift(value);
                }
                self.set_v(x, value >> 1);
            },
            Instruction::Ssub(x, y) => {
                let vx = self.v(x);
                let vy = self.v(y);
                self.set_v(x, vy.wrapping_sub(vx));
                self.set_flag(vy >= vx);
            },
            Instruction::Shl(x, _) => {
                let high = (self.v(x) & 0x80) >> 7;
                proof {
                    lemma_shift(self@.reg(x));
                }
                self.set_flag(high == 1);
                let value = self.v(x);
                proof {
                    lemma_shift(value);
                }
                self.set_v(x, value << 1);
            },
            Instruction::Rand(x, byte) => self.set_v(x, random & byte),
            _ => self.idle(),
        }
    }

    /// Runs an instruction that moves data between the registers, the index
    /// register, the timers and memory.
    fn transfer(&mut self, instruction: Instruction)
        requires
            instruction.wf(),
            is_transfer(instruction),
        ensures
            final(self)@ == old(self)@.apply(instruction, Seq::empty(), 0),
            final(self)@.wf(),
    {
        match instruction {
            Instruction::Seti(addr) => self.point(addr),
            Instruction::Addi(x) => {
                let offset = self.v(x);
                let index = self.index();
                proof {
                    lemma_mask((index + offset) as u16);
                }
                self.point((index + offset as u16) & 0x0FFF);
            },
            Instruction::Ldfnt(x) => {
                let digit = self.v(x);
                self.point(FONT_START + 5 * digit as u16);
            },
            Instruction::Moved(x) => {
                let delay = self.timers().delay;
                self.set_v(x, delay);
            },
            Instruction::Setrd(x) => {
                let value = self.v(x);
                self.set_delay(value);
            },
            Instruction::Setrs(x) => {
                let value = self.v(x);
                self.set_sound(value);
            },
            Instruction::Bcd(x) => self.bcd(x),
            Instruction::Store(x) => self.store(x),
            Instruction::Load(x) => self.restore(x),
            _ => self.idle(),
        }
    }

    /// Accounts for one clock cycle in the timers.
    fn tick(&mut self)
        ensures
            final(self)@ == old(self)@.tick(),
            final(self)@.wf(),
    {
        proof {
            use_type_invariant(&*self);
            reveal(ChipState::view);
        }
        let mut timers = self.timers;
        timers.tick(self.speed);
        self.timers = timers;
        assert(self@ =~= old(self)@.tick());
    }

    /// Leaves the machine as it is.
    fn idle(&self)
        ensures
            self@.wf(),
    {
        proof {
            use_type_invariant(self);
            reveal(ChipState::view);
        }
    }

    /// The value of the register `Vx`.
    fn v(&self, x: u8) -> (value: u8)
        requires
            x < 16,
        ensures
            value == self@.reg(x),
            self@.wf(),
    {
        proof {
            use_type_invariant(self);
            reveal(ChipState::view);
        }
        self.registers[x as usize]
    }

    /// Sets the register `Vx`.
    fn set_v(&mut self, x: u8, value: u8)
        requires
            x < 16,
        ensures
            final(self)@ == old(self)@.set_reg(x, value),
            final(self)@.wf(),
    {
        proof {
            use_type_invariant(&*self);
            reveal(ChipState::view);
        }
        self.registers[x as usize] = value;
        assert(self@ =~= old(self)@.set_reg(x, value));
    }

    /// Sets the flag register to 1 or 0.
    fn set_flag(&mut self, condition: bool)
        ensures
            final(self)@ == old(self)@.set_flag(condition),
            final(self)@.wf(),
    {
        self.set_v(
            0xF,
            if condition {
                1
            } else {
                0
            },
        );
    }

    /// Moves the program counter past one instruction if the condition holds.
    fn skip_if(&mut self, condition: bool)
        ensures
            final(self)@ == old(self)@.skip_if(condition),
            final(self)@.wf(),
    {
        if condition {
            self.increment_pc();
        } else {
            proof {
                use_type_invariant(&*self);
                reveal(ChipState::view);
            }
        }
    }

    /// Sets the program counter.
    fn jump(&mut self, addr: u16)
        requires
            addr < 4096,
        ensures
            final(self)@ == (MachineState { pc: addr, ..old(self)@ }),
            final(self)@.wf(),
    {
        proof {
            use_type_invariant(&*self);
            reveal(ChipState::view);
        }
        self.pc = addr;
        assert(self@ =~= (MachineState { pc: addr, ..old(self)@ }));
    }

    /// Sets the index register.
    fn point(&mut self, addr: u16)
        requires
            addr < 4096,
        ensures
            final(self)@ == (MachineState { index: addr, ..old(self)@ }),
            final(self)@.wf(),
    {
        proof {
            use_type_invariant(&*self);
            reveal(ChipState::view);
        }
        self.index = addr;
        assert(self@ =~= (MachineState { index: addr, ..old(self)@ }));
    }

    /// Pushes the program counter and jumps, unless the stack is full.
    fn call(&mut self, addr: u16) -> (r: Result<(), StackFault>)
        requires
            addr < 4096,
        ensures
            old(self)@.stack.len() < 16 ==> r is Ok && final(self)@ == old(self)@.apply(
                Instruction::Call(addr),
                Seq::empty(),
                0,
            ),
            old(self)@.stack.len() >= 16 ==> r == Err::<(), StackFault>(StackFault::Overflow)
                && final(self)@ == old(self)@,
            final(self)@.wf(),
    {
        proof {
            use_type_invariant(&*self);
            reveal(ChipState::view);
        }
        if self.pointer >= 16 {
            return Err(StackFault::Overflow);
        }
        self.stack[self.pointer as usize] = self.pc;
        self.pointer += 1;
        self.pc = addr;
        assert(self@ =~= old(self)@.apply(Instruction::Call(addr), Seq::empty(), 0));
        Ok(())
    }

    /// Pops the return address into the program counter, unless the stack is
    /// empty.
    fn ret(&mut self) -> (r: Result<(), StackFault>)
        ensures
            old(self)@.stack.len() > 0 ==> r is Ok && final(self)@ == old(self)@.apply(
                Instruction::Ret,
                Seq::empty(),
                0,
            ),
            old(self)@.stack.len() == 0 ==> r == Err::<(), StackFault>(StackFault::Underflow)
                && final(self)@ == old(self)@,
            final(self)@.wf(),
    {
        proof {
            use_type_invariant(&*self);
            reveal(ChipState::view);
        }
        if self.pointer == 0 {
            return Err(StackFault::Underflow);
        }
        self.pc = self.stack[self.pointer as usize - 1];
        self.pointer -= 1;
        assert(self@ =~= old(self)@.apply(Instruction::Ret, Seq::empty(), 0));
        Ok(())
    }

    /// Clears the display.
    fn clear(&mut self)
        ensures
            final(self)@ == old(self)@.apply(Instruction::Cls, Seq::empty(), 0),
            final(self)@.wf(),
    {
        proof {
            use_type_invariant(&*self);
            reveal(ChipState::view);
        }
        self.display = blank();
        assert(self@ =~= old(self)@.apply(Instruction::Cls, Seq::empty(), 0));
    }

    /// A copy of the display, as the frame for the host.
    fn frame(&self) -> (frame: Option<Display>)
        ensures
            frame_view(frame) == Some(self@.display),
    {
        proof {
            reveal(ChipState::view);
        }
        Some(self.display)
    }

    /// Sets the delay timer.
    fn set_delay(&mut self, value: u8)
        ensures
            final(self)@ == (MachineState {
                timers: Timers { delay: value, ..old(self)@.timers },
                ..old(self)@
            }),
            final(self)@.wf(),
    {
        proof {
            use_type_invariant(&*self);
            reveal(ChipState::view);
        }
        self.timers.delay = value;
        assert(self@ =~= (MachineState {
            timers: Timers { delay: value, ..old(self)@.timers },
            ..old(self)@
        }));
    }

    /// Sets the sound timer.
    fn set_sound(&mut self, value: u8)
        ensures
            final(self)@ == (MachineState {
                timers: Timers { sound: value, ..old(self)@.timers },
                ..old(self)@
            }),
            final(self)@.wf(),
    {
        proof {
            use_type_invariant(&*self);
            reveal(ChipState::view);
        }
        self.timers.sound = value;
        assert(self@ =~= (MachineState {
            timers: Timers { sound: value, ..old(self)@.timers },
            ..old(self)@
        }));
    }

    /// Moves the program counter back by one instruction.
    fn rewind(&mut self)
        ensures
            final(self)@ == old(self)@.rewind(),
            final(self)@.wf(),
    {
        proof {
            use_type_invariant(&*self);
            reveal(ChipState::view);
            lemma_mask((self.pc + 4094) as u16);
        }
        self.pc = (self.pc + 4094) & 0x0FFF;
        assert(self@ =~= old(self)@.rewind());
    }

    /// Stores the three decimal digits of a value at the index register.
    fn bcd(&mut self, x: u8)
        requires
            x < 16,
        ensures
            final(self)@ == old(self)@.apply(Instruction::Bcd(x), Seq::empty(), 0),
            final(self)@.wf(),
    {
        proof {
            use_type_invariant(&*self);
            reveal(ChipState::view);
            lemma_mask((self.index + 1) as u16);
            lemma_mask((self.index + 2) as u16);
        }
        let value = self.registers[x as usize];
        self.memory[self.index as usize] = value / 100;
        self.memory[((self.index + 1) & 0x0FFF) as usize] = value % 100 / 10;
        self.memory[((self.index + 2) & 0x0FFF) as usize] = value % 10;
        assert(self@ =~= old(self)@.apply(Instruction::Bcd(x), Seq::empty(), 0));
    }

    /// Stores the registers `V0..=Vx` in memory from the index register on.
    fn store(&mut self, x: u8)
        requires
            x < 16,
        ensures
            final(self)@ == (MachineState { memory: old(self)@.stored(x), ..old(self)@ }),
            final(self)@.wf(),
    {
        proof {
            use_type_invariant(&*self);
            reveal(ChipState::view);
        }
        let mut r: usize = 0;
        while r <= x as usize
            invariant
                x < 16,
                r <= x + 1,
                self.inv(),
                self.registers == old(self).registers,
                self.pc == old(self).pc,
                self.index == old(self).index,
                self.pointer == old(self).pointer,
                self.stack == old(self).stack,
                self.display == old(self).display,
                self.speed == old(self).speed,
                self.timers == old(self).timers,
                forall|a: int|
                    0 <= a < 4096 ==> #[trigger] self.memory@[a] == (if (a - self.index) % 4096
                        < r {
                        self.registers@[(a - self.index) % 4096]
                    } else {
                        old(self).memory@[a]
                    }),
            decreases x + 1 - r,
        {
            proof {
                lemma_mask((self.index + r) as u16);
            }
            let address = ((self.index + r as u16) & 0x0FFF) as usize;
            self.memory[address] = self.registers[r];
            r = r + 1;
        }
        assert(self@ =~= (MachineState { memory: old(self)@.stored(x), ..old(self)@ }));
    }

    /// Loads the registers `V0..=Vx` from memory from the index register on.
    fn restore(&mut self, x: u8)
        requires
            x < 16,
        ensures
            final(self)@ == (MachineState { registers: old(self)@.loaded(x), ..old(self)@ }),
            final(self)@.wf(),
    {
        proof {
            use_type_invariant(&*self);
            reveal(ChipState::view);
        }
        let mut r: usize = 0;
        while r <= x as usize
            invariant
                x < 16,
                r <= x + 1,
                self.inv(),
                self.memory == old(self).memory,
                self.pc == old(self).pc,
                self.index == old(self).index,
                self.pointer == old(self).pointer,
                self.stack == old(self).stack,
                self.display == old(self).display,
                self.speed == old(self).speed,
                self.timers == old(self).timers,
                forall|i: int|
                    0 <= i < 16 ==> #[trigger] self.registers@[i] == (if i < r {
                        self.memory@[mask(self.index + i) as int]
                    } else {
                        old(self).registers@[i]
                    }),
            decreases x + 1 - r,
        {
            proof {
                lemma_mask((self.index + r) as u16);
            }
            let address = ((self.index + r as u16) & 0x0FFF) as usize;
            self.registers[r] = self.memory[address];
            r = r + 1;
        }
        assert(self@ =~= (MachineState { registers: old(self)@.loaded(x), ..old(self)@ }));
    }

    /// Draws the sprite of `n` rows at the index register at `(Vx, Vy)`.
    fn draw(&mut self, x: u8, y: u8, n: u8)
        requires
            x < 16,
            y < 16,
        ensures
            final(self)@ == old(self)@.apply(Instruction::Draw(x, y, n), Seq::empty(), 0),
            final(self)@.wf(),
    {
        proof {
            use_type_invariant(&*self);
            reveal(ChipState::view);
        }
        self.registers[0xF] = 0;
        let rows: usize = if n < 15 {
            n as usize
        } else {
            15
        };
        let ox = self.registers[x as usize] % 64;
        let oy = self.registers[y as usize] % 32;
        let start = self.index as usize;
        let end = if start + rows < 4096 {
            start + rows
        } else {
            4096
        };
        let sprite = vstd::slice::slice_subrange(self.memory.as_slice(), start, end);
        let mut display = self.display;
        let collision = draw_sprite(&mut display, sprite, ox, oy);
        self.display = display;
        if collision {
            self.registers[0xF] = 1;
        }
        assert(self@ =~= old(self)@.apply(Instruction::Draw(x, y, n), Seq::empty(), 0));
    }
}

} // verus!
