//! What holds of the instructions on every machine: the flags of the arithmetic
//! instructions, the decimal digits, the call stack, loading, drawing, and the wait
//! for a key.

use vstd::prelude::*;
use crate::display::{
    blank_grid, collides, lemma_draw_clips, lemma_draw_twice_on_blank, lemma_draw_twice_restores, sprite_pixel,
    visible,
};
use crate::fault::{Fault, StackFault};
use crate::instruction::{decode_spec, lemma_decode_total, DecodeError, Instruction};
use crate::model::{
    any_pressed, from_digits, is_first_pressed, lemma_first_pressed, mask, MachineState, FLAG,
    PROGRAM_START,
};
use crate::timer::lemma_ticks_wf;

verus! {

/// Every instruction that the call stack lets through leaves the machine well
/// formed: addresses keep their twelve bits, the stack its bound and the display
/// its size. No instruction changes the clock period.
pub proof fn lemma_apply_keeps_wf(
    s: MachineState,
    instruction: Instruction,
    keys: Seq<bool>,
    random: u8,
)
    requires
        s.wf(),
        instruction.wf(),
        s.fault(instruction) is None,
    ensures
        s.apply(instruction, keys, random).wf(),
        s.apply(instruction, keys, random).period == s.period,
{
    match instruction {
        Instruction::Draw(x, y, n) => {
            let cleared = s.set_flag(false);
            lemma_draw_clips(
                s.display,
                s.sprite(n),
                (cleared.reg(x) % 64) as int,
                (cleared.reg(y) % 32) as int,
                0,
                0,
            );
        },
        _ => {},
    }
}

/// Every cycle leaves the machine well formed and the clock period as it was,
/// whether it ends in a fault or not.
pub proof fn lemma_step_keeps_wf(s: MachineState, keys: Seq<bool>, random: u8)
    requires
        s.wf(),
    ensures
        s.step(keys, random).0.wf(),
        s.step(keys, random).0.period == s.period,
{
    lemma_decode_total(s.opcode());
    if let Ok(instruction) = decode_spec(s.opcode()) {
        let ready = s.advance().tick();
        if ready.fault(instruction) is None {
            lemma_apply_keeps_wf(ready, instruction, keys, random);
        }
    }
}

/// Addition: the flag is 1 exactly if the sum of the two registers does not fit in
/// eight bits, and `Vx`, where it is not the flag register, holds the sum's low
/// eight bits.
pub proof fn lemma_add_flag(s: MachineState, x: u8, y: u8, keys: Seq<bool>, random: u8)
    requires
        s.wf(),
        x < 16,
        y < 16,
    ensures
        ({
            let after = s.apply(Instruction::Add(x, y), keys, random);
            &&& after.reg(FLAG) == (if s.reg(x) + s.reg(y) > 255 { 1u8 } else { 0u8 })
            &&& x != FLAG ==> after.reg(x) == (s.reg(x) + s.reg(y)) % 256
            &&& after.wf()
        }),
{
}

/// Subtraction: the flag is 1 exactly if `Vx >= Vy` before it, so that nothing is
/// borrowed, and `Vx`, where it is not the flag register, holds the difference
/// modulo 256.
pub proof fn lemma_sub_flag(s: MachineState, x: u8, y: u8, keys: Seq<bool>, random: u8)
    requires
        s.wf(),
        x < 16,
        y < 16,
    ensures
        ({
            let after = s.apply(Instruction::Sub(x, y), keys, random);
            &&& after.reg(FLAG) == (if s.reg(x) >= s.reg(y) { 1u8 } else { 0u8 })
            &&& x != FLAG ==> after.reg(x) == (s.reg(x) - s.reg(y)) % 256
            &&& after.wf()
        }),
{
}

/// Reversed subtraction: the flag is 1 exactly if `Vy >= Vx` before it, and `Vx`,
/// where it is not the flag register, holds `Vy - Vx` modulo 256.
pub proof fn lemma_subn_flag(s: MachineState, x: u8, y: u8, keys: Seq<bool>, random: u8)
    requires
        s.wf(),
        x < 16,
        y < 16,
    ensures
        ({
            let after = s.apply(Instruction::Ssub(x, y), keys, random);
            &&& after.reg(FLAG) == (if s.reg(y) >= s.reg(x) { 1u8 } else { 0u8 })
            &&& x != FLAG ==> after.reg(x) == (s.reg(y) - s.reg(x)) % 256
            &&& after.wf()
        }),
{
}

/// Shift right: the flag is the low bit that `Vx` had, and `Vx` is halved. Where
/// `Vx` is the flag register itself this holds only of the value 0, since the flag
/// is written first and then shifted.
pub proof fn lemma_shr(s: MachineState, x: u8, y: u8, keys: Seq<bool>, random: u8)
    requires
        s.wf(),
        x < 16,
        x != FLAG || s.reg(FLAG) == 0,
    ensures
        ({
            let after = s.apply(Instruction::Shr(x, y), keys, random);
            &&& after.reg(FLAG) == s.reg(x) % 2
            &&& after.reg(x) == s.reg(x) / 2
            &&& after.wf()
        }),
{
}

/// Shift left: the flag is the high bit that `Vx` had, and `Vx` is doubled modulo
/// 256. Where `Vx` is the flag register itself this holds only of the value 0,
/// since the flag is written first and then shifted.
pub proof fn lemma_shl(s: MachineState, x: u8, y: u8, keys: Seq<bool>, random: u8)
    requires
        s.wf(),
        x < 16,
        x != FLAG || s.reg(FLAG) == 0,
    ensures
        ({
            let after = s.apply(Instruction::Shl(x, y), keys, random);
            &&& after.reg(FLAG) == s.reg(x) / 128
            &&& after.reg(x) == (2 * s.reg(x)) % 256
            &&& after.wf()
        }),
{
}

/// Decimal digits: the three bytes stored at the index register are digits, and
/// read as hundreds, tens and units they give the register's value back.
pub proof fn lemma_bcd_round_trip(s: MachineState, x: u8, keys: Seq<bool>, random: u8)
    requires
        s.wf(),
        x < 16,
    ensures
        ({
            let after = s.apply(Instruction::Bcd(x), keys, random);
            let hundreds = after.memory[s.index as int];
            let tens = after.memory[mask(s.index + 1) as int];
            let units = after.memory[mask(s.index + 2) as int];
            &&& hundreds <= 2 && tens <= 9 && units <= 9
            &&& from_digits(hundreds, tens, units) == s.reg(x)
            &&& after.wf()
        }),
{
}

/// The machine after calls to the given addresses, one inside the other.
pub open spec fn after_calls(s: MachineState, targets: Seq<u16>) -> MachineState
    decreases targets.len(),
{
    if targets.len() == 0 {
        s
    } else {
        after_calls(s, targets.drop_last()).apply(
            Instruction::Call(targets.last()),
            Seq::empty(),
            0,
        )
    }
}

/// Stack discipline: from an empty stack up to sixteen nested calls go through,
/// each finding room; after sixteen the next call is refused as an overflow. A
/// return on the empty stack is refused as an underflow.
pub proof fn lemma_nested_calls(s: MachineState, targets: Seq<u16>)
    requires
        s.wf(),
        s.stack.len() == 0,
        targets.len() <= 16,
        forall|i: int| 0 <= i < targets.len() ==> #[trigger] targets[i] < 4096,
    ensures
        s.fault(Instruction::Ret) == Some(StackFault::Underflow),
        forall|k: int|
            0 <= k < targets.len() ==> (#[trigger] after_calls(s, targets.take(k))).fault(
                Instruction::Call(targets[k]),
            ) is None,
        after_calls(s, targets).wf(),
        after_calls(s, targets).stack.len() == targets.len(),
        forall|addr: u16|
            targets.len() == 16 ==> #[trigger] after_calls(s, targets).fault(
                Instruction::Call(addr),
            ) == Some(StackFault::Overflow),
    decreases targets.len(),
{
    if targets.len() > 0 {
        let outer = targets.drop_last();
        lemma_nested_calls(s, outer);
        assert forall|k: int| 0 <= k < targets.len() implies (#[trigger] after_calls(
            s,
            targets.take(k),
        )).fault(Instruction::Call(targets[k])) is None by {
            if k < outer.len() {
                assert(targets.take(k) =~= outer.take(k));
            } else {
                assert(targets.take(k) =~= outer);
            }
        }
    }
}

/// A call followed by a return comes back to the instruction after the call and
/// leaves the stack as it was.
pub proof fn lemma_call_then_return(s: MachineState, addr: u16, keys: Seq<bool>, random: u8)
    requires
        s.wf(),
        addr < 4096,
        s.stack.len() < 16,
    ensures
        ({
            let called = s.apply(Instruction::Call(addr), keys, random);
            &&& called.fault(Instruction::Ret) is None
            &&& called.pc == addr
            &&& called.apply(Instruction::Ret, keys, random) == s
        }),
{
    let called = s.apply(Instruction::Call(addr), keys, random);
    assert(called.stack.drop_last() =~= s.stack);
}

/// Loading: the bytes of the image lie in memory from the program's start on, in
/// order, and no other byte of memory changes. An image of 3584 bytes fills memory
/// from 0x200 to 0xFFF.
pub proof fn lemma_program_placement(s: MachineState, image: Seq<u8>)
    requires
        s.wf(),
        image.len() <= 3584,
    ensures
        s.with_program(image).wf(),
        s.with_program(image).pc == PROGRAM_START,
        forall|i: int|
            0 <= i < image.len() ==> #[trigger] s.with_program(image).memory[PROGRAM_START + i]
                == image[i],
        forall|a: int|
            0 <= a < PROGRAM_START || PROGRAM_START + image.len() <= a < 4096
                ==> #[trigger] s.with_program(image).memory[a] == s.memory[a],
        image.len() == 3584 ==> s.with_program(image).memory.subrange(0x200, 0x1000) == image,
{
    if image.len() == 3584 {
        assert(s.with_program(image).memory.subrange(0x200, 0x1000) =~= image);
    }
}

/// Drawing twice: a draw instruction run twice in a row gives the display back.
/// The second draw sets the flag exactly if the first lit a pixel that was off. On
/// a blank display the first draw clears the flag, and the second sets it exactly
/// if the sprite shows a lit pixel.
pub proof fn lemma_draw_twice(s: MachineState, x: u8, y: u8, n: u8, keys: Seq<bool>, random: u8)
    requires
        s.wf(),
        x < 16,
        y < 16,
    ensures
        ({
            let once = s.apply(Instruction::Draw(x, y, n), keys, random);
            let twice = once.apply(Instruction::Draw(x, y, n), keys, random);
            let ox = s.set_flag(false).reg(x) % 64;
            let oy = s.set_flag(false).reg(y) % 32;
            &&& once.wf()
            &&& twice.display == s.display
            &&& once.reg(FLAG) == (if collides(s.display, s.sprite(n), ox as int, oy as int) {
                1u8
            } else {
                0u8
            })
            &&& twice.reg(FLAG) == (if exists|px: int, py: int|
                0 <= px < 64 && 0 <= py < 32 && !s.display[py][px] && sprite_pixel(
                    s.sprite(n),
                    ox as int,
                    oy as int,
                    px,
                    py,
                ) {
                1u8
            } else {
                0u8
            })
            &&& s.display == blank_grid() ==> once.reg(FLAG) == 0 && twice.reg(FLAG) == (if visible(
                s.sprite(n),
                ox as int,
                oy as int,
            ) {
                1u8
            } else {
                0u8
            })
        }),
{
    let once = s.apply(Instruction::Draw(x, y, n), keys, random);
    let ox = (s.set_flag(false).reg(x) % 64) as int;
    let oy = (s.set_flag(false).reg(y) % 32) as int;
    let sprite = s.sprite(n);
    assert(once.set_flag(false).registers =~= s.set_flag(false).registers);
    assert(once.sprite(n) == sprite);
    lemma_draw_twice_restores(s.display, sprite, ox, oy);
    if s.display == blank_grid() {
        lemma_draw_twice_on_blank(sprite, ox, oy);
    }
}

/// The machine after `n` cycles during which no key is down.
pub open spec fn idle_cycles(s: MachineState, keys: Seq<bool>, n: nat) -> MachineState
    decreases n,
{
    if n == 0 {
        s
    } else {
        idle_cycles(s, keys, (n - 1) as nat).step(keys, 0).0
    }
}

/// Waiting for a key: while no key is down, a cycle on an opcode that waits for a
/// key leaves the machine where it was, but for the timers, which account for the
/// cycle. It neither faults nor hands out a frame.
pub proof fn lemma_key_wait_cycle(s: MachineState, x: u8, keys: Seq<bool>, random: u8)
    requires
        s.wf(),
        decode_spec(s.opcode()) == Ok::<Instruction, DecodeError>(
            Instruction::Key(x),
        ),
        !any_pressed(keys),
    ensures
        s.step(keys, random).0 == s.tick(),
        s.step(keys, random).0.pc == s.pc,
        s.step(keys, random).0.wf(),
        s.step(keys, random).1 == Ok::<Option<Seq<Seq<bool>>>, Fault>(None),
{
    let ready = s.advance().tick();
    assert(ready.fault(Instruction::Key(x)) is None);
    assert(ready.apply(Instruction::Key(x), keys, random) == ready.rewind());
    assert(ready.rewind() =~= s.tick());
}

/// Waiting for a key: while the opcode at the program counter waits for a key and
/// no key is down, any number of cycles leaves the machine where it was, but for
/// the timers, which account for each cycle.
pub proof fn lemma_key_wait_stalls(s: MachineState, x: u8, keys: Seq<bool>, n: nat)
    requires
        s.wf(),
        decode_spec(s.opcode()) == Ok::<Instruction, DecodeError>(
            Instruction::Key(x),
        ),
        !any_pressed(keys),
    ensures
        idle_cycles(s, keys, n) == (MachineState {
            timers: s.timers.ticks(s.period, n),
            ..s
        }),
        idle_cycles(s, keys, n).pc == s.pc,
    decreases n,
{
    if n > 0 {
        lemma_key_wait_stalls(s, x, keys, (n - 1) as nat);
        let before = idle_cycles(s, keys, (n - 1) as nat);
        assert(before.opcode() == s.opcode());
        assert(before.timers.wf()) by {
            lemma_ticks_wf(s.timers, s.period, (n - 1) as nat);
        }
        lemma_key_wait_cycle(before, x, keys, 0);
    }
}

/// Waiting for a key: once a key is down, the cycle stores the lowest such key in
/// `Vx` and goes on to the next instruction.
pub proof fn lemma_key_wait_ends(s: MachineState, x: u8, keys: Seq<bool>, key: int, random: u8)
    requires
        s.wf(),
        x < 16,
        decode_spec(s.opcode()) == Ok::<Instruction, DecodeError>(
            Instruction::Key(x),
        ),
        is_first_pressed(keys, key),
        keys.len() == 16,
    ensures
        s.step(keys, random).0 == s.advance().tick().set_reg(x, key as u8),
        s.step(keys, random).0.reg(x) == key,
        s.step(keys, random).0.pc == mask(s.pc + 2),
        s.step(keys, random).1 == Ok::<Option<Seq<Seq<bool>>>, Fault>(None),
{
    lemma_first_pressed(keys, key);
}

} // verus!
