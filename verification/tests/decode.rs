use chip8::insts::Instruction;

#[test]
fn decode_clear_screen() {
    assert_eq!(Instruction::new(0x00E0), Instruction::ClearScreen);
}

#[test]
fn decode_return() {
    assert_eq!(Instruction::new(0x00EE), Instruction::Ret);
}

#[test]
fn decode_one_opcode_of_every_row() {
    let rows: Vec<(u16, Instruction)> = vec![
        (0x00E0, Instruction::ClearScreen),
        (0x00EE, Instruction::Ret),
        (0x1ABC, Instruction::Jump(0xABC)),
        (0x2F01, Instruction::Call(0xF01)),
        (0x3A42, Instruction::SkipNextInstruction(0xA, 0x42)),
        (0x4BFF, Instruction::NSkipNextInstruction(0xB, 0xFF)),
        (0x5120, Instruction::R2SkipNextInstruction(1, 2)),
        (0x6C7D, Instruction::SetRegister(0xC, 0x7D)),
        (0x7E01, Instruction::AddRegister(0xE, 0x01)),
        (0x8340, Instruction::STORE(3, 4)),
        (0x8341, Instruction::OR(3, 4)),
        (0x8342, Instruction::AND(3, 4)),
        (0x8343, Instruction::XOR(3, 4)),
        (0x8344, Instruction::ADD(3, 4)),
        (0x8345, Instruction::SUB(3, 4)),
        (0x8346, Instruction::SHR(3)),
        (0x8347, Instruction::SUBN(3, 4)),
        (0x834E, Instruction::SHL(3)),
        (0x9560, Instruction::NR2SkipNextInstruction(5, 6)),
        (0xA123, Instruction::SetI(0x123)),
        (0xB456, Instruction::Jump2(0x456)),
        (0xC70F, Instruction::Random(7, 0x0F)),
        (0xD8A5, Instruction::Draw(8, 0xA, 5)),
        (0xE99E, Instruction::SkipIfPressed(9)),
        (0xE9A1, Instruction::SkipIfNotPressed(9)),
        (0xF207, Instruction::ReadDelay(2)),
        (0xF20A, Instruction::WaitKey(2)),
        (0xF215, Instruction::SetDelay(2)),
        (0xF218, Instruction::SetSound(2)),
        (0xF21E, Instruction::AddI(2)),
        (0xF229, Instruction::SpriteDigit(2)),
        (0xF233, Instruction::StoreBCD(2)),
        (0xF255, Instruction::StoreRegisters(2)),
        (0xF265, Instruction::ReadRegisters(2)),
    ];
    for (raw, expected) in rows {
        assert_eq!(Instruction::new(raw), expected, "opcode {:#06x}", raw);
    }
}

#[test]
fn decode_unrecognized_carries_the_opcode() {
    for raw in [
        0x0000u16, 0x00E1, 0x00EF, 0x0123, 0x5121, 0x512F, 0x8008, 0x834F, 0x9561, 0xE000,
        0xE99F, 0xE9A0, 0xF000, 0xF2FF, 0xF256, 0xFFFF,
    ] {
        assert_eq!(Instruction::new(raw), Instruction::ERROR(raw), "opcode {:#06x}", raw);
    }
}

#[test]
fn decode_shift_ignores_y() {
    assert_eq!(Instruction::new(0x8AB6), Instruction::SHR(0xA));
    assert_eq!(Instruction::new(0x8ABE), Instruction::SHL(0xA));
    assert_eq!(Instruction::new(0x8A06), Instruction::SHR(0xA));
}

#[test]
fn decode_extreme_operands() {
    assert_eq!(Instruction::new(0x1000), Instruction::Jump(0));
    assert_eq!(Instruction::new(0x1FFF), Instruction::Jump(0xFFF));
    assert_eq!(Instruction::new(0x6000), Instruction::SetRegister(0, 0));
    assert_eq!(Instruction::new(0x6FFF), Instruction::SetRegister(15, 255));
    assert_eq!(Instruction::new(0xD000), Instruction::Draw(0, 0, 0));
    assert_eq!(Instruction::new(0xDFFF), Instruction::Draw(15, 15, 15));
}

#[test]
fn decode_all_opcodes_agree_with_their_digits() {
    let mut unrecognized = 0u32;
    for raw in 0..=0xFFFFu16 {
        let x = (raw >> 8) & 0xF;
        let y = (raw >> 4) & 0xF;
        let n = raw & 0xF;
        let kk = raw & 0xFF;
        let nnn = raw & 0xFFF;
        match Instruction::new(raw) {
            Instruction::ERROR(v) => {
                assert_eq!(v, raw);
                unrecognized += 1;
            }
            Instruction::ClearScreen => assert_eq!(raw, 0x00E0),
            Instruction::Ret => assert_eq!(raw, 0x00EE),
            Instruction::Jump(a) => assert_eq!((raw >> 12, a), (0x1, nnn)),
            Instruction::Call(a) => assert_eq!((raw >> 12, a), (0x2, nnn)),
            Instruction::SetI(a) => assert_eq!((raw >> 12, a), (0xA, nnn)),
            Instruction::Jump2(a) => assert_eq!((raw >> 12, a), (0xB, nnn)),
            Instruction::SkipNextInstruction(r, k) => assert_eq!((raw >> 12, r, k), (0x3, x, kk)),
            Instruction::NSkipNextInstruction(r, k) => assert_eq!((raw >> 12, r, k), (0x4, x, kk)),
            Instruction::Random(r, k) => assert_eq!((raw >> 12, r, k), (0xC, x, kk)),
            Instruction::SetRegister(r, k) => {
                assert_eq!((raw >> 12, r as u16, k as u16), (0x6, x, kk))
            }
            Instruction::AddRegister(r, k) => {
                assert_eq!((raw >> 12, r as u16, k as u16), (0x7, x, kk))
            }
            Instruction::Draw(a, b, c) => assert_eq!((raw >> 12, a, b, c), (0xD, x, y, n)),
            Instruction::R2SkipNextInstruction(a, b) => {
                assert_eq!((raw >> 12, a, b, n), (0x5, x, y, 0))
            }
            Instruction::NR2SkipNextInstruction(a, b) => {
                assert_eq!((raw >> 12, a, b, n), (0x9, x, y, 0))
            }
            Instruction::STORE(a, b) => assert_eq!((raw >> 12, a, b, n), (0x8, x, y, 0x0)),
            Instruction::OR(a, b) => assert_eq!((raw >> 12, a, b, n), (0x8, x, y, 0x1)),
            Instruction::AND(a, b) => assert_eq!((raw >> 12, a, b, n), (0x8, x, y, 0x2)),
            Instruction::XOR(a, b) => assert_eq!((raw >> 12, a, b, n), (0x8, x, y, 0x3)),
            Instruction::ADD(a, b) => assert_eq!((raw >> 12, a, b, n), (0x8, x, y, 0x4)),
            Instruction::SUB(a, b) => assert_eq!((raw >> 12, a, b, n), (0x8, x, y, 0x5)),
            Instruction::SUBN(a, b) => assert_eq!((raw >> 12, a, b, n), (0x8, x, y, 0x7)),
            Instruction::SHR(a) => assert_eq!((raw >> 12, a, n), (0x8, x, 0x6)),
            Instruction::SHL(a) => assert_eq!((raw >> 12, a, n), (0x8, x, 0xE)),
            Instruction::SkipIfPressed(a) => assert_eq!((raw >> 12, a, kk), (0xE, x, 0x9E)),
            Instruction::SkipIfNotPressed(a) => assert_eq!((raw >> 12, a, kk), (0xE, x, 0xA1)),
            Instruction::ReadDelay(a) => assert_eq!((raw >> 12, a, kk), (0xF, x, 0x07)),
            Instruction::WaitKey(a) => assert_eq!((raw >> 12, a, kk), (0xF, x, 0x0A)),
            Instruction::SetDelay(a) => assert_eq!((raw >> 12, a, kk), (0xF, x, 0x15)),
            Instruction::SetSound(a) => assert_eq!((raw >> 12, a, kk), (0xF, x, 0x18)),
            Instruction::AddI(a) => assert_eq!((raw >> 12, a, kk), (0xF, x, 0x1E)),
            Instruction::SpriteDigit(a) => assert_eq!((raw >> 12, a, kk), (0xF, x, 0x29)),
            Instruction::StoreBCD(a) => assert_eq!((raw >> 12, a, kk), (0xF, x, 0x33)),
            Instruction::StoreRegisters(a) => assert_eq!((raw >> 12, a, kk), (0xF, x, 0x55)),
            Instruction::ReadRegisters(a) => assert_eq!((raw >> 12, a, kk), (0xF, x, 0x65)),
        }
    }
    // 0x0nnn but 00E0 and 00EE; 5xyn and 9xyn with n != 0; 8xyn with n in 8..=D or F;
    // Exkk but 9E and A1; Fxkk but the nine known low bytes.
    let expected = (4096 - 2) + 2 * (4096 - 256) + 7 * 256 + 16 * (256 - 2) + 16 * (256 - 9);
    assert_eq!(unrecognized, expected);
}
