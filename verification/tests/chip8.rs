use chip_oxide::chip8::{Chip8, Instruction};

#[test]
fn default_loads_font() {
    let c = Chip8::default();
    assert_eq!(c.pc, 0x200);
    assert_eq!(&c.get_memory()[0x50..0x55], &[0xF0, 0x90, 0x90, 0x90, 0xF0]);
    assert_eq!(c.instruction, Instruction::Invalid);
}

#[test]
fn runs_supported_instructions() {
    let mut c = Chip8::default();
    // 6105: V1 := 5; 7102: V1 += 2; A050: I := 0x050; D115: draw; 00E0: clear; 1200: jump
    c.load_program(vec![0x61, 0x05, 0x71, 0x02, 0xA0, 0x50, 0xD1, 0x15, 0x00, 0xE0, 0x12, 0x00]);
    assert_eq!(c.cycle(), None);
    assert_eq!(c.instruction, Instruction::I6XNN(1, 5));
    assert_eq!(c.cycle(), None);
    assert_eq!(c.v[1], 7);
    assert_eq!(c.cycle(), None);
    assert_eq!(c.i, 0x50);
    assert_eq!(
        c.cycle(),
        Some("x: 7 y: 7 sprite_vec: [240, 144, 144, 144, 240]".to_string())
    );
    assert_eq!(c.instruction, Instruction::IDXYN(1, 1, 5));
    assert!(c.get_screen_buffer()[7 * 64 + 7]);
    assert_eq!(c.v[0xF], 0);
    c.cycle();
    assert!(c.screen_buffer.iter().all(|p| !*p));
    c.cycle();
    assert_eq!(c.pc, 0x200);
    assert_eq!(c.instruction, Instruction::I1NNN(0x200));
}

#[test]
fn unsupported_opcodes_record_nothing() {
    let mut c = Chip8::default();
    c.load_program(vec![0x22, 0x00, 0x00, 0xEE]);
    c.cycle();
    assert_eq!(c.instruction, Instruction::Invalid);
    assert_eq!(c.pc, 0x202);
    c.cycle();
    assert_eq!(c.instruction, Instruction::I00EE);
}

#[test]
fn read_and_write_memory() {
    let mut c = Chip8::default();
    c.write_vector(vec![9, 8, 7], 0xFFD);
    assert_eq!(c.read_vector(0xFFD, 3), vec![9, 8, 7]);
    let before = c.get_memory().to_vec();
    c.write_vector(Vec::new(), 0x2000);
    assert_eq!(c.get_memory().to_vec(), before);
}

#[test]
fn draw_reports_wrapped_coordinates_and_sprite() {
    let mut c = Chip8::default();
    // 6046: V0 := 70; 6125: V1 := 37; A300: I := 0x300; D012: draw 2 rows; D010: draw none
    c.load_program(vec![0x60, 0x46, 0x61, 0x25, 0xA3, 0x00, 0xD0, 0x12, 0xD0, 0x10]);
    c.write_vector(vec![0x81, 0x0F], 0x300);
    c.cycle();
    c.cycle();
    c.cycle();
    assert_eq!(c.cycle(), Some("x: 6 y: 5 sprite_vec: [129, 15]".to_string()));
    assert_eq!(c.cycle(), Some("x: 6 y: 5 sprite_vec: []".to_string()));
}

#[test]
fn renders_classic_text() {
    assert_eq!(Instruction::I00E0.to_string(), "CLS");
    assert_eq!(Instruction::I0NNN(0x12).to_string(), "SYS 012");
    assert_eq!(Instruction::I3XNN(0xA, 0x5).to_string(), "SE VA, 05");
    assert_eq!(Instruction::I8XY5(1, 2).to_string(), "SUB V1, V2");
    assert_eq!(Instruction::IBNNN(0x300).to_string(), "JP V0, 300");
    assert_eq!(Instruction::IDXYN(1, 2, 15).to_string(), "DRW V1, V2, 15");
    assert_eq!(Instruction::IFX55(3).to_string(), "LD [I], V3");
    assert_eq!(Instruction::IFX65(3).to_string(), "LD V3, [I]");
    assert_eq!(Instruction::Invalid.to_string(), "NONE");
}

#[test]
fn memory_dump_layout() {
    let mut c = Chip8::default();
    c.write_vector((0u8..18).collect(), 0x300);
    assert_eq!(c.mem_slice_text(0x300, 0x302), "300  0001 02");
    assert_eq!(
        c.mem_slice_text(0x300, 0x311),
        "300  0001 0203 0405 0607 0809 0A0B 0C0D 0E0F\n310  1011 "
    );
    assert_eq!(c.mem_slice_text(0x300, 0x2FF), "");
    let whole = c.mem_text();
    assert_eq!(whole.lines().count(), 256);
    assert!(whole.starts_with("000  0000 0000"));
}

#[test]
fn register_dump_layout() {
    let mut c = Chip8::default();
    c.v[1] = 0xAB;
    c.i = 0x50;
    c.dt = 3;
    let text = c.registers_text();
    let lines: Vec<&str> = text.lines().collect();
    assert_eq!(lines[0], "PC: 200 Opcode: 0000 Instruction: NONE");
    assert_eq!(lines[1], "I: 050 DT: 03 ST: 00");
    assert_eq!(lines[2], "");
    assert_eq!(lines[3], "V0: 00 V1: AB");
    assert_eq!(lines[10], "VE: 00 VF: 00 ");
}

#[test]
fn screen_dump_layout() {
    let mut c = Chip8::default();
    c.screen_buffer[0] = true;
    c.screen_buffer[64 + 63] = true;
    let text = c.screen_text();
    let lines: Vec<&str> = text.lines().collect();
    assert_eq!(lines.len(), 32);
    assert!(lines[0].starts_with("\u{2588} "));
    assert!(lines[1].ends_with("\u{2588}"));
    assert_eq!(lines[2].chars().count(), 64);
}

#[test]
fn cycle_precondition_is_checked() {
    let mut c = Chip8::default();
    c.load_program(vec![0x71, 0xFF, 0xD0, 0x02]);
    assert!(c.can_cycle());
    c.v[1] = 1;
    assert!(!c.can_cycle());
    c.pc = 0x202;
    c.i = 0xFFF;
    assert!(!c.can_cycle());
    c.i = 0xFFE;
    assert!(c.can_cycle());
    c.pc = 0xFFFE;
    assert!(!c.can_cycle());
}
