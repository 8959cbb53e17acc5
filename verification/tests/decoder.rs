use chip8::instruction::{nibbles, DecodeError, Instruction};

#[test]
fn nibbles_are_most_significant_first() {
    assert_eq!(nibbles(0xD12F), (0xD, 0x1, 0x2, 0xF));
    assert_eq!(nibbles(0x0000), (0, 0, 0, 0));
    assert_eq!(nibbles(0xFFFF), (0xF, 0xF, 0xF, 0xF));
    assert_eq!(nibbles(0x00E0), (0, 0, 0xE, 0));
}

#[test]
fn decodes_every_family() {
    let table: Vec<(u16, Instruction)> = vec![
        (0x00E0, Instruction::Cls),
        (0x00EE, Instruction::Ret),
        (0x1ABC, Instruction::Jmp(0xABC)),
        (0x2345, Instruction::Call(0x345)),
        (0x3A12, Instruction::Ske(0xA, 0x12)),
        (0x4B34, Instruction::Skne(0xB, 0x34)),
        (0x5120, Instruction::Skre(1, 2)),
        (0x6CFF, Instruction::Setr(0xC, 0xFF)),
        (0x7D01, Instruction::Addr(0xD, 0x01)),
        (0x8120, Instruction::Move(1, 2)),
        (0x8341, Instruction::Or(3, 4)),
        (0x8562, Instruction::And(5, 6)),
        (0x8783, Instruction::Xor(7, 8)),
        (0x89A4, Instruction::Add(9, 0xA)),
        (0x8BC5, Instruction::Sub(0xB, 0xC)),
        (0x8DE6, Instruction::Shr(0xD, 0xE)),
        (0x8F07, Instruction::Ssub(0xF, 0)),
        (0x812E, Instruction::Shl(1, 2)),
        (0x9AB0, Instruction::Skrne(0xA, 0xB)),
        (0xA123, Instruction::Seti(0x123)),
        (0xBFFF, Instruction::Jmpr(0xFFF)),
        (0xC10F, Instruction::Rand(1, 0x0F)),
        (0xD125, Instruction::Draw(1, 2, 5)),
        (0xE29E, Instruction::Skp(2)),
        (0xE3A1, Instruction::Sknp(3)),
        (0xF407, Instruction::Moved(4)),
        (0xF50A, Instruction::Key(5)),
        (0xF615, Instruction::Setrd(6)),
        (0xF718, Instruction::Setrs(7)),
        (0xF81E, Instruction::Addi(8)),
        (0xF929, Instruction::Ldfnt(9)),
        (0xFA33, Instruction::Bcd(0xA)),
        (0xFB55, Instruction::Store(0xB)),
        (0xFC65, Instruction::Load(0xC)),
    ];
    for (opcode, expected) in table {
        assert_eq!(Instruction::decode(opcode), Ok(expected), "opcode {:#06X}", opcode);
    }
}

#[test]
fn ignored_system_calls_decode_to_nop() {
    assert_eq!(Instruction::decode(0x0000), Ok(Instruction::Nop));
    assert_eq!(Instruction::decode(0x0123), Ok(Instruction::Nop));
    assert_eq!(Instruction::decode(0x00E1), Ok(Instruction::Nop));
    assert_eq!(Instruction::decode(0x00ED), Ok(Instruction::Nop));
    assert_eq!(Instruction::decode(0x0FFF), Ok(Instruction::Nop));
    assert_eq!(Instruction::decode(0x01EE), Ok(Instruction::Nop));
}

#[test]
fn unknown_opcodes_are_refused_with_the_opcode() {
    for opcode in [0x5121u16, 0x512F, 0x8128, 0x812F, 0x9121, 0xE100, 0xE19F, 0xF100, 0xF1FF, 0xFFFF] {
        assert_eq!(Instruction::decode(opcode), Err(DecodeError { opcode }));
    }
}

#[test]
fn decode_is_total_and_keeps_operands_in_range() {
    let mut refused = 0u32;
    let mut ignored = 0u32;
    for opcode in 0..=u16::MAX {
        match Instruction::decode(opcode) {
            Ok(Instruction::Nop) => {
                assert_eq!(opcode >> 12, 0);
                ignored += 1;
            }
            Ok(Instruction::Jmp(a))
            | Ok(Instruction::Call(a))
            | Ok(Instruction::Seti(a))
            | Ok(Instruction::Jmpr(a)) => assert_eq!(a, opcode & 0x0FFF),
            Ok(Instruction::Draw(x, y, n)) => {
                assert!(x < 16 && y < 16 && n < 16);
            }
            Ok(_) => {}
            Err(e) => {
                assert_eq!(e.opcode, opcode);
                refused += 1;
            }
        }
    }
    // 0x0000..=0x0FFF but for 00E0 and 00EE.
    assert_eq!(ignored, 4094);
    // 5xyn and 9xyn with n != 0; 8xyn with n in 8..=D or F; Exkk but for 9E and A1;
    // Fxkk but for the nine known bytes.
    assert_eq!(refused, 2 * 16 * 16 * 15 + 16 * 16 * 7 + 16 * 254 + 16 * 247);
}

#[test]
fn decode_gives_the_same_result_each_time() {
    for opcode in [0x00E0u16, 0x8124, 0xD015, 0xF10A, 0x5121] {
        assert_eq!(Instruction::decode(opcode), Instruction::decode(opcode));
    }
}
