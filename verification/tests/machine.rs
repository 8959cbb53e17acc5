use chip8::display::{blank, Display};
use chip8::font::{FONT, FONT_START};
use chip8::instruction::Instruction;
use chip8::model::{MAX_PROGRAM_SIZE, MEMORY_SIZE, PROGRAM_START};
use chip8::timer::{Timers, TIMER_INTERVAL};
use chip8::{ChipState, DecodeError, Fault, Keys, LoadError, StackFault};

const NO_KEYS: Keys = [false; 16];

fn machine() -> ChipState {
    ChipState::new(700)
}

fn with_program(words: &[u16]) -> ChipState {
    let mut image = Vec::new();
    for w in words {
        image.push((w >> 8) as u8);
        image.push((w & 0xFF) as u8);
    }
    let mut chip = machine();
    assert_eq!(chip.load(&image), Ok(()));
    chip
}

fn run(chip: &mut ChipState, instruction: Instruction) -> Option<Display> {
    chip.execute_with(instruction, &NO_KEYS, 0).expect("no stack fault")
}

fn set(chip: &mut ChipState, x: u8, value: u8) {
    assert_eq!(run(chip, Instruction::Setr(x, value)), None);
}

fn lit(display: &Display) -> Vec<(usize, usize)> {
    let mut found = Vec::new();
    for y in 0..32 {
        for x in 0..64 {
            if display[y][x] {
                found.push((x, y));
            }
        }
    }
    found
}

#[test]
fn a_new_machine_holds_the_font_and_nothing_else() {
    let chip = machine();
    assert_eq!(chip.pc(), 0x200);
    assert_eq!(chip.index(), 0);
    assert_eq!(chip.depth(), 0);
    assert_eq!(chip.registers(), &[0u8; 16]);
    assert_eq!(chip.display(), &blank());
    assert_eq!(chip.timers(), Timers { ticker: TIMER_INTERVAL, delay: 0, sound: 0 });
    assert_eq!(chip.speed(), 1_428_571);
    assert!(!chip.buzzer_active());
    let memory = chip.memory();
    assert_eq!(memory.len(), MEMORY_SIZE);
    for (a, byte) in memory.iter().enumerate() {
        if (0x50..0xA0).contains(&a) {
            assert_eq!(*byte, FONT[a - 0x50]);
        } else {
            assert_eq!(*byte, 0);
        }
    }
    assert_eq!(FONT_START, 0x50);
    assert_eq!(&memory[0x50..0x55], &[0xF0, 0x90, 0x90, 0x90, 0xF0]);
    assert_eq!(&memory[0x9B..0xA0], &[0xF0, 0x80, 0xF0, 0x80, 0x80]);
}

#[test]
fn the_clock_period_follows_the_frequency() {
    assert_eq!(ChipState::new(1).speed(), 1_000_000_000);
    assert_eq!(ChipState::new(60).speed(), 16_666_667);
    assert_eq!(ChipState::new(1024).speed(), 976_562);
    assert_eq!(ChipState::new(u32::MAX).speed(), 0);
}

#[test]
fn load_copies_the_image_to_the_program_start() {
    let mut chip = machine();
    run(&mut chip, Instruction::Jmp(0x345));
    assert_eq!(chip.load(&[0x12, 0x34, 0x56]), Ok(()));
    assert_eq!(chip.pc(), PROGRAM_START);
    assert_eq!(&chip.memory()[0x200..0x204], &[0x12, 0x34, 0x56, 0x00]);
    assert_eq!(chip.memory()[0x1FF], 0);
    assert_eq!(chip.memory()[0x50], 0xF0);
}

#[test]
fn load_of_an_empty_image_only_resets_the_program_counter() {
    let mut chip = machine();
    run(&mut chip, Instruction::Jmp(0x345));
    let before = *chip.memory();
    assert_eq!(chip.load(&[]), Ok(()));
    assert_eq!(chip.pc(), 0x200);
    assert_eq!(chip.memory(), &before);
}

#[test]
fn an_image_of_3584_bytes_fills_memory_to_its_end() {
    let image: Vec<u8> = (0..3584u32).map(|i| (i % 251) as u8 + 1).collect();
    assert_eq!(image.len(), MAX_PROGRAM_SIZE);
    let mut chip = machine();
    assert_eq!(chip.load(&image), Ok(()));
    assert_eq!(&chip.memory()[0x200..0x1000], &image[..]);
    assert_eq!(chip.memory()[0xFFF], image[3583]);
    assert_eq!(chip.memory()[0x1FF], 0);
    assert_eq!(chip.pc(), 0x200);
}

#[test]
fn an_image_of_3585_bytes_is_refused() {
    let image = vec![0xAAu8; 3585];
    let mut chip = machine();
    run(&mut chip, Instruction::Jmp(0x345));
    let before = *chip.memory();
    assert_eq!(chip.load(&image), Err(LoadError { size: 3585 }));
    assert_eq!(chip.memory(), &before);
    assert_eq!(chip.pc(), 0x345);
}

#[test]
fn add_sets_the_flag_on_overflow() {
    let mut chip = machine();
    set(&mut chip, 1, 200);
    set(&mut chip, 2, 100);
    assert_eq!(run(&mut chip, Instruction::Add(1, 2)), None);
    assert_eq!(chip.registers()[1], 44);
    assert_eq!(chip.registers()[2], 100);
    assert_eq!(chip.registers()[0xF], 1);

    set(&mut chip, 1, 200);
    set(&mut chip, 2, 55);
    run(&mut chip, Instruction::Add(1, 2));
    assert_eq!(chip.registers()[1], 255);
    assert_eq!(chip.registers()[0xF], 0);

    set(&mut chip, 2, 1);
    run(&mut chip, Instruction::Add(1, 2));
    assert_eq!(chip.registers()[1], 0);
    assert_eq!(chip.registers()[0xF], 1);
}

#[test]
fn add_flag_for_all_register_values() {
    let mut chip = machine();
    for a in 0..=255u8 {
        for b in [0u8, 1, 2, 127, 128, 254, 255, a, 255 - a] {
            set(&mut chip, 3, a);
            set(&mut chip, 4, b);
            run(&mut chip, Instruction::Add(3, 4));
            let sum = a as u16 + b as u16;
            assert_eq!(chip.registers()[3], (sum % 256) as u8);
            assert_eq!(chip.registers()[0xF], if sum > 255 { 1 } else { 0 });
        }
    }
}

#[test]
fn add_into_the_flag_register_keeps_the_flag() {
    let mut chip = machine();
    set(&mut chip, 0xF, 200);
    set(&mut chip, 1, 100);
    run(&mut chip, Instruction::Add(0xF, 1));
    assert_eq!(chip.registers()[0xF], 1);
    set(&mut chip, 0xF, 20);
    run(&mut chip, Instruction::Add(0xF, 1));
    assert_eq!(chip.registers()[0xF], 0);
}

#[test]
fn sub_sets_the_flag_when_nothing_is_borrowed() {
    let mut chip = machine();
    for (a, b, result, flag) in
        [(10u8, 3u8, 7u8, 1u8), (3, 10, 249, 0), (5, 5, 0, 1), (0, 1, 255, 0), (255, 0, 255, 1), (0, 0, 0, 1)]
    {
        set(&mut chip, 1, a);
        set(&mut chip, 2, b);
        run(&mut chip, Instruction::Sub(1, 2));
        assert_eq!(chip.registers()[1], result);
        assert_eq!(chip.registers()[2], b);
        assert_eq!(chip.registers()[0xF], flag);
    }
}

#[test]
fn subn_subtracts_the_other_way() {
    let mut chip = machine();
    for (a, b, result, flag) in
        [(3u8, 10u8, 7u8, 1u8), (10, 3, 249, 0), (5, 5, 0, 1), (1, 0, 255, 0), (0, 255, 255, 1)]
    {
        set(&mut chip, 1, a);
        set(&mut chip, 2, b);
        run(&mut chip, Instruction::Ssub(1, 2));
        assert_eq!(chip.registers()[1], result);
        assert_eq!(chip.registers()[2], b);
        assert_eq!(chip.registers()[0xF], flag);
    }
}

#[test]
fn shr_halves_and_flags_the_low_bit() {
    let mut chip = machine();
    for v in 0..=255u8 {
        set(&mut chip, 1, v);
        set(&mut chip, 2, 0xAA);
        run(&mut chip, Instruction::Shr(1, 2));
        assert_eq!(chip.registers()[1], v / 2);
        assert_eq!(chip.registers()[0xF], v % 2);
        assert_eq!(chip.registers()[2], 0xAA);
    }
}

#[test]
fn shl_doubles_and_flags_the_high_bit() {
    let mut chip = machine();
    for v in 0..=255u8 {
        set(&mut chip, 1, v);
        set(&mut chip, 2, 0xAA);
        run(&mut chip, Instruction::Shl(1, 2));
        assert_eq!(chip.registers()[1], ((v as u16 * 2) % 256) as u8);
        assert_eq!(chip.registers()[0xF], v / 128);
        assert_eq!(chip.registers()[2], 0xAA);
    }
}

#[test]
fn shifting_the_flag_register_shifts_the_flag() {
    let mut chip = machine();
    set(&mut chip, 0xF, 3);
    run(&mut chip, Instruction::Shr(0xF, 0));
    assert_eq!(chip.registers()[0xF], 0);
    set(&mut chip, 0xF, 0x81);
    run(&mut chip, Instruction::Shl(0xF, 0));
    assert_eq!(chip.registers()[0xF], 2);
}

#[test]
fn logic_and_moves() {
    let mut chip = machine();
    set(&mut chip, 1, 0b1100);
    set(&mut chip, 2, 0b1010);
    run(&mut chip, Instruction::Or(1, 2));
    assert_eq!(chip.registers()[1], 0b1110);
    set(&mut chip, 1, 0b1100);
    run(&mut chip, Instruction::And(1, 2));
    assert_eq!(chip.registers()[1], 0b1000);
    set(&mut chip, 1, 0b1100);
    run(&mut chip, Instruction::Xor(1, 2));
    assert_eq!(chip.registers()[1], 0b0110);
    run(&mut chip, Instruction::Move(3, 2));
    assert_eq!(chip.registers()[3], 0b1010);
    assert_eq!(chip.registers()[0xF], 0);
}

#[test]
fn add_immediate_wraps_without_the_flag() {
    let mut chip = machine();
    set(&mut chip, 1, 250);
    run(&mut chip, Instruction::Addr(1, 10));
    assert_eq!(chip.registers()[1], 4);
    assert_eq!(chip.registers()[0xF], 0);
}

#[test]
fn skips_move_the_program_counter_by_two() {
    let mut chip = machine();
    set(&mut chip, 1, 7);
    set(&mut chip, 2, 7);
    set(&mut chip, 3, 8);
    run(&mut chip, Instruction::Ske(1, 7));
    assert_eq!(chip.pc(), 0x202);
    run(&mut chip, Instruction::Ske(1, 8));
    assert_eq!(chip.pc(), 0x202);
    run(&mut chip, Instruction::Skne(1, 8));
    assert_eq!(chip.pc(), 0x204);
    run(&mut chip, Instruction::Skne(1, 7));
    assert_eq!(chip.pc(), 0x204);
    run(&mut chip, Instruction::Skre(1, 2));
    assert_eq!(chip.pc(), 0x206);
    run(&mut chip, Instruction::Skre(1, 3));
    assert_eq!(chip.pc(), 0x206);
    run(&mut chip, Instruction::Skrne(1, 3));
    assert_eq!(chip.pc(), 0x208);
    run(&mut chip, Instruction::Skrne(1, 2));
    assert_eq!(chip.pc(), 0x208);
}

#[test]
fn a_skip_at_the_end_of_memory_wraps() {
    let mut chip = machine();
    run(&mut chip, Instruction::Jmp(0xFFE));
    run(&mut chip, Instruction::Ske(0, 0));
    assert_eq!(chip.pc(), 0x000);
    run(&mut chip, Instruction::Jmp(0xFFF));
    chip.increment_pc();
    assert_eq!(chip.pc(), 0x001);
}

#[test]
fn key_skips() {
    let mut keys = NO_KEYS;
    keys[0xA] = true;
    let mut chip = machine();
    set(&mut chip, 1, 0xA);
    set(&mut chip, 2, 0xB);
    chip.execute_with(Instruction::Skp(1), &keys, 0).unwrap();
    assert_eq!(chip.pc(), 0x202);
    chip.execute_with(Instruction::Skp(2), &keys, 0).unwrap();
    assert_eq!(chip.pc(), 0x202);
    chip.execute_with(Instruction::Sknp(2), &keys, 0).unwrap();
    assert_eq!(chip.pc(), 0x204);
    chip.execute_with(Instruction::Sknp(1), &keys, 0).unwrap();
    assert_eq!(chip.pc(), 0x204);
}

#[test]
fn a_key_index_above_fifteen_names_no_key() {
    let keys: Keys = [true; 16];
    let mut chip = machine();
    set(&mut chip, 1, 16);
    chip.execute_with(Instruction::Skp(1), &keys, 0).unwrap();
    assert_eq!(chip.pc(), 0x200);
    chip.execute_with(Instruction::Sknp(1), &keys, 0).unwrap();
    assert_eq!(chip.pc(), 0x202);
    set(&mut chip, 1, 0x1A);
    chip.execute_with(Instruction::Skp(1), &keys, 0).unwrap();
    assert_eq!(chip.pc(), 0x202);
}

#[test]
fn jumps_and_index() {
    let mut chip = machine();
    run(&mut chip, Instruction::Jmp(0xABC));
    assert_eq!(chip.pc(), 0xABC);
    set(&mut chip, 0, 0x10);
    run(&mut chip, Instruction::Jmpr(0x300));
    assert_eq!(chip.pc(), 0x310);
    set(&mut chip, 0, 0xFF);
    run(&mut chip, Instruction::Jmpr(0xFFF));
    assert_eq!(chip.pc(), 0x0FE);
    run(&mut chip, Instruction::Seti(0xFFE));
    assert_eq!(chip.index(), 0xFFE);
    set(&mut chip, 3, 5);
    run(&mut chip, Instruction::Addi(3));
    assert_eq!(chip.index(), 0x003);
    run(&mut chip, Instruction::Addi(3));
    assert_eq!(chip.index(), 0x008);
    assert_eq!(chip.registers()[0xF], 0);
}

#[test]
fn font_lookup_points_at_the_glyph() {
    let mut chip = machine();
    for digit in 0..16u8 {
        set(&mut chip, 4, digit);
        run(&mut chip, Instruction::Ldfnt(4));
        assert_eq!(chip.index(), 0x50 + 5 * digit as u16);
    }
    set(&mut chip, 4, 0xA);
    run(&mut chip, Instruction::Ldfnt(4));
    let i = chip.index() as usize;
    assert_eq!(&chip.memory()[i..i + 5], &[0xF0, 0x90, 0xF0, 0x90, 0x90]);
    set(&mut chip, 4, 255);
    run(&mut chip, Instruction::Ldfnt(4));
    assert_eq!(chip.index(), 0x50 + 1275);
}

#[test]
fn bcd_round_trip_for_every_value() {
    let mut chip = machine();
    run(&mut chip, Instruction::Seti(0x300));
    for v in 0..=255u8 {
        set(&mut chip, 5, v);
        assert_eq!(run(&mut chip, Instruction::Bcd(5)), None);
        let m = chip.memory();
        assert!(m[0x300] <= 2 && m[0x301] <= 9 && m[0x302] <= 9);
        assert_eq!(100 * m[0x300] as u16 + 10 * m[0x301] as u16 + m[0x302] as u16, v as u16);
        assert_eq!(m[0x303], 0);
        assert_eq!(m[0x2FF], 0);
    }
    set(&mut chip, 5, 254);
    run(&mut chip, Instruction::Bcd(5));
    assert_eq!(&chip.memory()[0x300..0x303], &[2, 5, 4]);
    assert_eq!(chip.index(), 0x300);
}

#[test]
fn bcd_at_the_end_of_memory_wraps() {
    let mut chip = machine();
    run(&mut chip, Instruction::Seti(0xFFE));
    set(&mut chip, 5, 123);
    run(&mut chip, Instruction::Bcd(5));
    assert_eq!(chip.memory()[0xFFE], 1);
    assert_eq!(chip.memory()[0xFFF], 2);
    assert_eq!(chip.memory()[0x000], 3);
}

#[test]
fn store_and_load_registers() {
    let mut chip = machine();
    for r in 0..16u8 {
        set(&mut chip, r, 0x10 + r);
    }
    run(&mut chip, Instruction::Seti(0x400));
    run(&mut chip, Instruction::Store(3));
    assert_eq!(&chip.memory()[0x400..0x405], &[0x10, 0x11, 0x12, 0x13, 0x00]);
    assert_eq!(chip.index(), 0x400);
    run(&mut chip, Instruction::Store(0xF));
    assert_eq!(chip.memory()[0x40F], 0x1F);
    assert_eq!(chip.memory()[0x410], 0x00);

    for r in 0..16u8 {
        set(&mut chip, r, 0);
    }
    run(&mut chip, Instruction::Load(2));
    assert_eq!(&chip.registers()[0..4], &[0x10, 0x11, 0x12, 0x00]);
    run(&mut chip, Instruction::Load(0));
    assert_eq!(&chip.registers()[0..4], &[0x10, 0x11, 0x12, 0x00]);
    run(&mut chip, Instruction::Load(0xF));
    assert_eq!(chip.registers()[0xF], 0x1F);
    assert_eq!(chip.index(), 0x400);
}

#[test]
fn store_and_load_wrap_at_the_end_of_memory() {
    let mut chip = machine();
    set(&mut chip, 0, 0xA0);
    set(&mut chip, 1, 0xA1);
    set(&mut chip, 2, 0xA2);
    run(&mut chip, Instruction::Seti(0xFFE));
    run(&mut chip, Instruction::Store(2));
    assert_eq!(chip.memory()[0xFFE], 0xA0);
    assert_eq!(chip.memory()[0xFFF], 0xA1);
    assert_eq!(chip.memory()[0x000], 0xA2);
    assert_eq!(chip.memory()[0x001], 0x00);
    set(&mut chip, 0, 0);
    set(&mut chip, 1, 0);
    set(&mut chip, 2, 0);
    run(&mut chip, Instruction::Load(2));
    assert_eq!(&chip.registers()[0..3], &[0xA0, 0xA1, 0xA2]);
}

#[test]
fn timers_are_set_and_read() {
    let mut chip = machine();
    set(&mut chip, 1, 42);
    run(&mut chip, Instruction::Setrd(1));
    assert_eq!(chip.timers().delay, 42);
    assert!(!chip.buzzer_active());
    run(&mut chip, Instruction::Setrs(1));
    assert_eq!(chip.timers().sound, 42);
    assert!(chip.buzzer_active());
    run(&mut chip, Instruction::Moved(2));
    assert_eq!(chip.registers()[2], 42);
}

#[test]
fn random_byte_is_masked() {
    let mut chip = machine();
    assert_eq!(chip.execute_with(Instruction::Rand(1, 0x0F), &NO_KEYS, 0xAB), Ok(None));
    assert_eq!(chip.registers()[1], 0x0B);
    assert_eq!(chip.execute_with(Instruction::Rand(1, 0xF0), &NO_KEYS, 0xAB), Ok(None));
    assert_eq!(chip.registers()[1], 0xA0);
    for _ in 0..200 {
        set(&mut chip, 1, 0xFF);
        assert_eq!(chip.execute(Instruction::Rand(1, 0x00), &NO_KEYS), Ok(None));
        assert_eq!(chip.registers()[1], 0);
        assert_eq!(chip.execute(Instruction::Rand(2, 0x3C), &NO_KEYS), Ok(None));
        assert_eq!(chip.registers()[2] & !0x3C, 0);
    }
}

#[test]
fn random_bytes_vary() {
    let mut chip = machine();
    let mut seen = [false; 256];
    for _ in 0..4000 {
        chip.execute(Instruction::Rand(1, 0xFF), &NO_KEYS).unwrap();
        seen[chip.registers()[1] as usize] = true;
    }
    assert!(seen.iter().filter(|s| **s).count() > 16);
}

#[test]
fn execute_without_a_random_instruction_has_one_outcome() {
    let mut a = machine();
    let mut b = machine();
    for instruction in [
        Instruction::Setr(1, 9),
        Instruction::Addr(1, 250),
        Instruction::Seti(0x50),
        Instruction::Draw(1, 1, 5),
        Instruction::Call(0x300),
        Instruction::Bcd(1),
    ] {
        assert_eq!(a.execute(instruction, &NO_KEYS), b.execute_with(instruction, &NO_KEYS, 77));
    }
    assert_eq!(a.registers(), b.registers());
    assert_eq!(a.memory(), b.memory());
    assert_eq!(a.display(), b.display());
    assert_eq!(a.pc(), b.pc());
}

#[test]
fn clear_blanks_the_display_and_emits_a_frame() {
    let mut chip = machine();
    run(&mut chip, Instruction::Seti(0x50));
    assert!(run(&mut chip, Instruction::Draw(0, 0, 5)).is_some());
    assert_ne!(chip.display(), &blank());
    assert_eq!(run(&mut chip, Instruction::Cls), Some(blank()));
    assert_eq!(chip.display(), &blank());
}

#[test]
fn draw_reads_the_sprite_at_the_index_register() {
    let mut chip = machine();
    set(&mut chip, 1, 2);
    set(&mut chip, 2, 3);
    set(&mut chip, 5, 1);
    run(&mut chip, Instruction::Ldfnt(5));
    let frame = run(&mut chip, Instruction::Draw(1, 2, 5)).expect("a frame");
    assert_eq!(&frame, chip.display());
    // The glyph of 1: 20 60 20 20 70
    assert_eq!(
        lit(&frame),
        vec![(4, 3), (3, 4), (4, 4), (4, 5), (4, 6), (3, 7), (4, 7), (5, 7)]
    );
    assert_eq!(chip.registers()[0xF], 0);
    assert_eq!(chip.index(), 0x55);
}

#[test]
fn drawing_twice_restores_the_display_and_collides_the_second_time() {
    let mut chip = machine();
    set(&mut chip, 1, 10);
    set(&mut chip, 2, 20);
    run(&mut chip, Instruction::Seti(0x50));
    let first = run(&mut chip, Instruction::Draw(1, 2, 5)).unwrap();
    assert_eq!(chip.registers()[0xF], 0);
    assert_ne!(first, blank());
    let second = run(&mut chip, Instruction::Draw(1, 2, 5)).unwrap();
    assert_eq!(chip.registers()[0xF], 1);
    assert_eq!(second, blank());
    let third = run(&mut chip, Instruction::Draw(1, 2, 5)).unwrap();
    assert_eq!(chip.registers()[0xF], 0);
    assert_eq!(third, first);
}

#[test]
fn draw_resets_a_stale_flag() {
    let mut chip = machine();
    set(&mut chip, 0xF, 1);
    run(&mut chip, Instruction::Seti(0x50));
    run(&mut chip, Instruction::Draw(1, 2, 5));
    assert_eq!(chip.registers()[0xF], 0);
    set(&mut chip, 0xF, 9);
    run(&mut chip, Instruction::Draw(1, 2, 0));
    assert_eq!(chip.registers()[0xF], 0);
}

#[test]
fn draw_at_column_sixty_is_clipped_not_wrapped() {
    let mut chip = machine();
    set(&mut chip, 0, 0xFF);
    run(&mut chip, Instruction::Seti(0x300));
    run(&mut chip, Instruction::Store(0));
    set(&mut chip, 1, 60);
    set(&mut chip, 2, 0);
    let frame = run(&mut chip, Instruction::Draw(1, 2, 1)).unwrap();
    assert_eq!(lit(&frame), vec![(60, 0), (61, 0), (62, 0), (63, 0)]);
    assert!(!frame[0][0] && !frame[0][1] && !frame[0][2] && !frame[0][3]);
    assert!(!frame[1][0]);
    assert_eq!(chip.registers()[0xF], 0);
}

#[test]
fn draw_origin_is_taken_modulo_the_display() {
    let mut chip = machine();
    set(&mut chip, 0, 0x80);
    run(&mut chip, Instruction::Seti(0x300));
    run(&mut chip, Instruction::Store(0));
    set(&mut chip, 1, 64 + 5);
    set(&mut chip, 2, 32 * 3 + 7);
    let frame = run(&mut chip, Instruction::Draw(1, 2, 1)).unwrap();
    assert_eq!(lit(&frame), vec![(5, 7)]);
    set(&mut chip, 1, 255);
    set(&mut chip, 2, 255);
    let frame = run(&mut chip, Instruction::Draw(1, 2, 1)).unwrap();
    assert_eq!(lit(&frame), vec![(5, 7), (63, 31)]);
}

#[test]
fn draw_height_fifteen() {
    let mut chip = machine();
    for r in 0..16u8 {
        set(&mut chip, r, 0x80);
    }
    run(&mut chip, Instruction::Seti(0x300));
    run(&mut chip, Instruction::Store(0xF));
    set(&mut chip, 1, 0);
    set(&mut chip, 2, 0);
    let frame = run(&mut chip, Instruction::Draw(1, 2, 0xF)).unwrap();
    assert_eq!(lit(&frame).len(), 15);
    assert!(frame[14][0]);
    assert!(!frame[15][0]);
    let frame = run(&mut chip, Instruction::Draw(1, 2, 0)).unwrap();
    assert_eq!(lit(&frame).len(), 15);
}

#[test]
fn draw_reads_no_sprite_row_beyond_the_end_of_memory() {
    let image = vec![0x80u8; 3584];
    let mut chip = machine();
    chip.load(&image).unwrap();
    run(&mut chip, Instruction::Seti(0xFFE));
    let frame = run(&mut chip, Instruction::Draw(0, 0, 5)).unwrap();
    assert_eq!(lit(&frame), vec![(0, 0), (0, 1)]);
}

#[test]
fn draw_with_the_flag_register_as_operand_starts_at_zero() {
    let mut chip = machine();
    set(&mut chip, 0, 0x80);
    run(&mut chip, Instruction::Seti(0x300));
    run(&mut chip, Instruction::Store(0));
    set(&mut chip, 0xF, 9);
    set(&mut chip, 2, 4);
    let frame = run(&mut chip, Instruction::Draw(0xF, 2, 1)).unwrap();
    assert_eq!(lit(&frame), vec![(0, 4)]);
}

#[test]
fn sixteen_nested_calls_and_no_more() {
    let mut chip = machine();
    for depth in 0..16u16 {
        assert_eq!(chip.depth(), depth as usize);
        assert_eq!(chip.execute(Instruction::Call(0x300 + 2 * depth), &NO_KEYS), Ok(None));
        assert_eq!(chip.pc(), 0x300 + 2 * depth);
    }
    assert_eq!(chip.depth(), 16);
    assert_eq!(chip.execute(Instruction::Call(0x400), &NO_KEYS), Err(StackFault::Overflow));
    assert_eq!(chip.depth(), 16);
    assert_eq!(chip.pc(), 0x31E);
    for depth in (1..16u16).rev() {
        assert_eq!(chip.execute(Instruction::Ret, &NO_KEYS), Ok(None));
        assert_eq!(chip.pc(), 0x300 + 2 * (depth - 1));
    }
    assert_eq!(chip.execute(Instruction::Ret, &NO_KEYS), Ok(None));
    assert_eq!(chip.pc(), 0x200);
    assert_eq!(chip.depth(), 0);
    assert_eq!(chip.execute(Instruction::Ret, &NO_KEYS), Err(StackFault::Underflow));
    assert_eq!(chip.pc(), 0x200);
}

#[test]
fn a_return_without_a_call_is_a_fault() {
    let mut chip = machine();
    assert_eq!(chip.execute(Instruction::Ret, &NO_KEYS), Err(StackFault::Underflow));
    assert_eq!(chip.depth(), 0);
    let mut chip = with_program(&[0x00EE]);
    assert_eq!(chip.step(&NO_KEYS), Err(Fault::Stack(StackFault::Underflow)));
}

#[test]
fn a_call_after_a_return_finds_room_again() {
    let mut chip = machine();
    for _ in 0..16 {
        run(&mut chip, Instruction::Call(0x300));
    }
    assert_eq!(chip.execute(Instruction::Call(0x300), &NO_KEYS), Err(StackFault::Overflow));
    run(&mut chip, Instruction::Ret);
    assert_eq!(chip.execute(Instruction::Call(0x300), &NO_KEYS), Ok(None));
}

#[test]
fn seventeen_calls_in_a_program() {
    // Each call targets the instruction after it.
    let words: Vec<u16> = (0..17u16).map(|i| 0x2000 | (0x202 + 2 * i)).collect();
    let mut chip = with_program(&words);
    for i in 0..16u16 {
        assert_eq!(chip.step(&NO_KEYS), Ok(None));
        assert_eq!(chip.pc(), 0x202 + 2 * i);
        assert_eq!(chip.depth(), i as usize + 1);
    }
    assert_eq!(chip.step(&NO_KEYS), Err(Fault::Stack(StackFault::Overflow)));
    assert_eq!(chip.depth(), 16);
}

#[test]
fn call_and_return_in_a_program() {
    // 0x200: call 0x206; 0x202: V1 = 1; 0x204: jump 0x204; 0x206: V2 = 2; 0x208: return
    let mut chip = with_program(&[0x2206, 0x6101, 0x1204, 0x6202, 0x00EE]);
    assert_eq!(chip.step(&NO_KEYS), Ok(None));
    assert_eq!(chip.pc(), 0x206);
    assert_eq!(chip.step(&NO_KEYS), Ok(None));
    assert_eq!(chip.registers()[2], 2);
    assert_eq!(chip.step(&NO_KEYS), Ok(None));
    assert_eq!(chip.pc(), 0x202);
    assert_eq!(chip.depth(), 0);
    assert_eq!(chip.step(&NO_KEYS), Ok(None));
    assert_eq!(chip.registers()[1], 1);
    assert_eq!(chip.step(&NO_KEYS), Ok(None));
    assert_eq!(chip.pc(), 0x204);
}

#[test]
fn fetch_reads_big_endian_and_advances() {
    let mut chip = with_program(&[0xA123, 0x00E0]);
    assert_eq!(chip.fetch(), 0xA123);
    assert_eq!(chip.pc(), 0x202);
    assert_eq!(chip.fetch(), 0x00E0);
    assert_eq!(chip.pc(), 0x204);
    assert_eq!(chip.fetch(), 0x0000);
}

#[test]
fn fetch_at_the_last_byte_wraps() {
    let mut image = vec![0u8; 3584];
    image[3583] = 0x61;
    let mut chip = machine();
    chip.load(&image).unwrap();
    run(&mut chip, Instruction::Jmp(0xFFF));
    assert_eq!(chip.fetch(), 0x6100);
    assert_eq!(chip.pc(), 0x001);
    run(&mut chip, Instruction::Jmp(0xFFE));
    assert_eq!(chip.fetch(), 0x0061);
    assert_eq!(chip.pc(), 0x000);
}

#[test]
fn step_runs_a_program() {
    // V1 = 200; V2 = 100; V1 += V2; I = 0x300; BCD V1
    let mut chip = with_program(&[0x61C8, 0x6264, 0x8124, 0xA300, 0xF133]);
    for _ in 0..5 {
        assert_eq!(chip.step(&NO_KEYS), Ok(None));
    }
    assert_eq!(chip.registers()[1], 44);
    assert_eq!(chip.registers()[0xF], 1);
    assert_eq!(&chip.memory()[0x300..0x303], &[0, 4, 4]);
    assert_eq!(chip.pc(), 0x20A);
}

#[test]
fn step_hands_out_frames_only_for_clear_and_draw() {
    // I = glyph 0; draw V0 V0 5; V1 = 1; clear
    let mut chip = with_program(&[0xA050, 0xD005, 0x6101, 0x00E0]);
    assert_eq!(chip.step(&NO_KEYS), Ok(None));
    let frame = chip.step(&NO_KEYS).unwrap().expect("a frame");
    assert_eq!(lit(&frame).len(), 14);
    assert_eq!(chip.step(&NO_KEYS), Ok(None));
    assert_eq!(chip.step(&NO_KEYS), Ok(Some(blank())));
}

#[test]
fn step_on_an_unknown_opcode_is_a_fault_of_that_cycle() {
    let mut chip = with_program(&[0xFFFF, 0x6107]);
    let timers = chip.timers();
    assert_eq!(chip.step(&NO_KEYS), Err(Fault::Decode(DecodeError { opcode: 0xFFFF })));
    assert_eq!(chip.pc(), 0x202);
    assert_eq!(chip.timers(), timers);
    assert_eq!(chip.registers(), &[0u8; 16]);
    assert_eq!(chip.step(&NO_KEYS), Ok(None));
    assert_eq!(chip.registers()[1], 7);
}

#[test]
fn step_ignores_system_calls() {
    let mut chip = with_program(&[0x0123, 0x6107]);
    assert_eq!(chip.step(&NO_KEYS), Ok(None));
    assert_eq!(chip.pc(), 0x202);
    assert_eq!(chip.registers(), &[0u8; 16]);
}

#[test]
fn waiting_for_a_key_stalls_until_one_is_down() {
    let mut chip = with_program(&[0xF30A, 0x6107]);
    let memory = *chip.memory();
    for _ in 0..50 {
        assert_eq!(chip.step(&NO_KEYS), Ok(None));
        assert_eq!(chip.pc(), 0x200);
        assert_eq!(chip.registers(), &[0u8; 16]);
    }
    assert_eq!(chip.memory(), &memory);
    let mut keys = NO_KEYS;
    keys[7] = true;
    keys[0xC] = true;
    assert_eq!(chip.step(&keys), Ok(None));
    assert_eq!(chip.registers()[3], 7);
    assert_eq!(chip.pc(), 0x202);
    assert_eq!(chip.step(&NO_KEYS), Ok(None));
    assert_eq!(chip.registers()[1], 7);
}

#[test]
fn waiting_for_a_key_takes_key_zero_and_key_fifteen() {
    let mut keys = NO_KEYS;
    keys[0xF] = true;
    let mut chip = machine();
    set(&mut chip, 2, 0xEE);
    chip.execute(Instruction::Key(2), &keys).unwrap();
    assert_eq!(chip.registers()[2], 0xF);
    keys[0] = true;
    chip.execute(Instruction::Key(2), &keys).unwrap();
    assert_eq!(chip.registers()[2], 0);
    assert_eq!(chip.pc(), 0x200);
}

#[test]
fn waiting_for_a_key_at_address_zero_rewinds_across_the_end() {
    let mut chip = machine();
    run(&mut chip, Instruction::Jmp(0x000));
    run(&mut chip, Instruction::Key(1));
    assert_eq!(chip.pc(), 0xFFE);
    run(&mut chip, Instruction::Jmp(0x001));
    run(&mut chip, Instruction::Key(1));
    assert_eq!(chip.pc(), 0xFFF);
}

#[test]
fn the_timers_run_while_the_machine_waits_for_a_key() {
    let mut chip = ChipState::new(600);
    chip.load(&[0xF3, 0x0A]).unwrap();
    set(&mut chip, 1, 3);
    run(&mut chip, Instruction::Setrd(1));
    for _ in 0..9 {
        chip.step(&NO_KEYS).unwrap();
        assert_eq!(chip.timers().delay, 3);
    }
    chip.step(&NO_KEYS).unwrap();
    assert_eq!(chip.timers().delay, 2);
    assert_eq!(chip.pc(), 0x200);
}

#[test]
fn the_delay_timer_decays_once_per_sixtieth_of_a_second() {
    // 600 Hz: ten cycles cover one interval. V0 = 5; delay = V0; then ignored calls.
    let mut chip = ChipState::new(600);
    chip.load(&[0x60, 0x05, 0xF0, 0x15]).unwrap();
    assert_eq!(chip.speed(), 1_666_667);
    for _ in 0..2 {
        assert_eq!(chip.step(&NO_KEYS), Ok(None));
    }
    assert_eq!(chip.timers().delay, 5);
    for _ in 2..9 {
        assert_eq!(chip.step(&NO_KEYS), Ok(None));
        assert_eq!(chip.timers().delay, 5);
    }
    assert_eq!(chip.step(&NO_KEYS), Ok(None));
    assert_eq!(chip.timers().delay, 4);
    assert_eq!(chip.timers().ticker, TIMER_INTERVAL);
    for _ in 0..9 {
        assert_eq!(chip.step(&NO_KEYS), Ok(None));
        assert_eq!(chip.timers().delay, 4);
    }
    assert_eq!(chip.step(&NO_KEYS), Ok(None));
    assert_eq!(chip.timers().delay, 3);
}

#[test]
fn the_buzzer_sounds_until_the_sound_timer_runs_out() {
    // 60 Hz: every cycle covers one interval. V0 = 2; sound = V0.
    let mut chip = ChipState::new(60);
    chip.load(&[0x60, 0x02, 0xF0, 0x18]).unwrap();
    chip.step(&NO_KEYS).unwrap();
    assert!(!chip.buzzer_active());
    chip.step(&NO_KEYS).unwrap();
    assert!(chip.buzzer_active());
    assert_eq!(chip.timers().sound, 2);
    chip.step(&NO_KEYS).unwrap();
    assert!(chip.buzzer_active());
    chip.step(&NO_KEYS).unwrap();
    assert!(!chip.buzzer_active());
    chip.step(&NO_KEYS).unwrap();
    assert_eq!(chip.timers().sound, 0);
}

#[test]
fn nop_changes_nothing() {
    let mut chip = with_program(&[0x6105]);
    chip.step(&NO_KEYS).unwrap();
    let (pc, registers, memory, timers) = (chip.pc(), *chip.registers(), *chip.memory(), chip.timers());
    assert_eq!(chip.execute(Instruction::Nop, &NO_KEYS), Ok(None));
    assert_eq!(chip.pc(), pc);
    assert_eq!(chip.registers(), &registers);
    assert_eq!(chip.memory(), &memory);
    assert_eq!(chip.timers(), timers);
}
