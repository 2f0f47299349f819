use chip_oxide::hex::{push_char, push_hex, push_hex_padded, push_hex_prefixed};
use chip_oxide::instruction::Instruction;

#[test]
fn decodes_each_family() {
    let cases: Vec<(u16, Instruction)> = vec![
        (0x00E0, Instruction::I00E0),
        (0x00EE, Instruction::I00EE),
        (0x0123, Instruction::Invalid),
        (0x1ABC, Instruction::I1NNN(0xABC)),
        (0x2ABC, Instruction::I2NNN(0xABC)),
        (0x3A12, Instruction::I3XNN(0xA, 0x12)),
        (0x4A12, Instruction::I4XNN(0xA, 0x12)),
        (0x5AB0, Instruction::I5XY0(0xA, 0xB)),
        (0x5AB1, Instruction::Invalid),
        (0x6A12, Instruction::I6XNN(0xA, 0x12)),
        (0x7A12, Instruction::I7XNN(0xA, 0x12)),
        (0x8AB0, Instruction::I8XY0(0xA, 0xB)),
        (0x8AB1, Instruction::I8XY1(0xA, 0xB)),
        (0x8AB2, Instruction::I8XY2(0xA, 0xB)),
        (0x8AB3, Instruction::I8XY3(0xA, 0xB)),
        (0x8AB4, Instruction::I8XY4(0xA, 0xB)),
        (0x8AB5, Instruction::I8XY5(0xA, 0xB)),
        (0x8AB6, Instruction::I8XY6(0xA, 0xB)),
        (0x8AB7, Instruction::I8XY7(0xA, 0xB)),
        (0x8ABE, Instruction::I8XYE(0xA, 0xB)),
        (0x8AB8, Instruction::Invalid),
        (0x9AB0, Instruction::I9XY0(0xA, 0xB)),
        (0xAABC, Instruction::IANNN(0xABC)),
        (0xBABC, Instruction::IBNNN(0xABC)),
        (0xCA12, Instruction::ICXNN(0xA, 0x12)),
        (0xDAB5, Instruction::IDXYN(0xA, 0xB, 5)),
        (0xEA9E, Instruction::IEX9E(0xA)),
        (0xEAA1, Instruction::IEXA1(0xA)),
        (0xEA00, Instruction::Invalid),
        (0xFA07, Instruction::IFX07(0xA)),
        (0xFA0A, Instruction::IFX0A(0xA)),
        (0xFA15, Instruction::IFX15(0xA)),
        (0xFA18, Instruction::IFX18(0xA)),
        (0xFA1E, Instruction::IFX1E(0xA)),
        (0xFA29, Instruction::IFX29(0xA)),
        (0xFA33, Instruction::IFX33(0xA)),
        (0xFA55, Instruction::IFX55(0xA)),
        (0xFA65, Instruction::IFX65(0xA)),
        (0xFA66, Instruction::Invalid),
    ];
    for (op, expected) in cases {
        assert_eq!(Instruction::new(op, false), expected, "opcode {:04X}", op);
    }
}

#[test]
fn jump_quirk_selects_bxnn() {
    assert_eq!(Instruction::new(0xB3AB, true), Instruction::IBXNN(3, 0x3AB));
    assert_eq!(Instruction::new(0xB3AB, false), Instruction::IBNNN(0x3AB));
}

#[test]
fn renders_octo_text() {
    assert_eq!(Instruction::I00E0.to_string(), "clear");
    assert_eq!(Instruction::I00EE.to_string(), "return");
    assert_eq!(Instruction::I1NNN(0x200).to_string(), "jump 0x200");
    assert_eq!(Instruction::I2NNN(0x2A).to_string(), ":call 0x02A");
    assert_eq!(Instruction::I3XNN(1, 0x2A).to_string(), "if v1 != 0x2A then");
    assert_eq!(Instruction::I4XNN(0xB, 0x5).to_string(), "if vB == 0x05 then");
    assert_eq!(Instruction::I5XY0(1, 2).to_string(), "if v1 != v2 then");
    assert_eq!(Instruction::I6XNN(0xF, 0xFF).to_string(), "vF := 0xFF");
    assert_eq!(Instruction::I7XNN(0, 1).to_string(), "v0 += 0x01");
    assert_eq!(Instruction::I8XY7(3, 4).to_string(), "v3 =- v4");
    assert_eq!(Instruction::I8XYE(3, 4).to_string(), "v3 <<= v4");
    assert_eq!(Instruction::IBXNN(3, 0x45).to_string(), "jump3 0x045");
    assert_eq!(Instruction::IBNNN(0x345).to_string(), "jump0 0x345");
    assert_eq!(Instruction::ICXNN(2, 0x0F).to_string(), "v2 := random 0x0F");
    assert_eq!(Instruction::IDXYN(1, 2, 5).to_string(), "sprite v1 v2 0x5");
    assert_eq!(Instruction::IEX9E(9).to_string(), "if v9 -key then");
    assert_eq!(Instruction::IFX29(0xA).to_string(), "i := hex vA");
    assert_eq!(Instruction::IFX65(0xC).to_string(), "load vC");
    assert_eq!(Instruction::Invalid.to_string(), "");
}

#[test]
fn hex_rendering() {
    let mut s = String::new();
    push_char(&mut s, 'a');
    assert_eq!(s, "a");
    push_hex(&mut s, 0xBEEF);
    assert_eq!(s, "aBEEF");
    let mut s = String::new();
    push_hex_padded(&mut s, 0xB, 3);
    assert_eq!(s, "00B");
    let mut s = String::new();
    push_hex_padded(&mut s, 0x1234, 2);
    assert_eq!(s, "1234");
    let mut s = String::new();
    push_hex_prefixed(&mut s, 0, 5);
    assert_eq!(s, "0x000");
}
