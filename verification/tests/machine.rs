use chip_oxide::cli::Args;
use chip_oxide::instruction::Instruction;
use chip_oxide::keyboard::{HostKey, Keyboard};
use chip_oxide::machine::{FrameResult, Machine};

fn args() -> Args {
    Args {
        file: String::from("rom.ch8"),
        debug: false,
        step_mode: false,
        shift: false,
        jump: false,
        fx1e_i_overflow: false,
        get_key_on_release: false,
        instructions_per_frame: 20,
        memory_increment_by_x: false,
        memory_leave_i_unchanged: false,
        vblank: false,
        logic: false,
    }
}

fn machine() -> Machine {
    Machine::new(args(), Keyboard::new())
}

fn run(m: &mut Machine, instr: Instruction) -> Option<i32> {
    m.instruction = instr;
    m.execute_with(0)
}

#[test]
fn new_machine_is_reset_with_font() {
    let m = machine();
    assert_eq!(m.pc, 0x200);
    assert_eq!(m.i, 0);
    assert_eq!(m.v, [0; 16]);
    assert!(m.stack.is_empty());
    assert_eq!(&m.memory[0x50..0x55], &[0xF0, 0x90, 0x90, 0x90, 0xF0]);
    assert_eq!(&m.memory[0x9B..0xA0], &[0xF0, 0x80, 0xF0, 0x80, 0x80]);
    assert_eq!(m.memory[0x4F], 0);
    assert_eq!(m.memory[0xA0], 0);
    assert!(m.get_display_buffer().iter().all(|p| !*p));
}

#[test]
fn fetch_reads_big_endian_opcode() {
    let mut m = machine();
    m.load_program(vec![0x12, 0x34, 0xAB]);
    m.fetch();
    assert_eq!(m.opcode, 0x1234);
    assert_eq!(m.pc, 0x202);
    m.pc = 0xFFF;
    m.fetch();
    assert_eq!(m.opcode, 0x0000);
    assert_eq!(m.pc, 0x1001);
}

#[test]
fn read_after_write() {
    let mut m = machine();
    m.write_vector(vec![1, 2, 3, 4], 0x300);
    assert_eq!(m.read_vector(0x300, 4), vec![1, 2, 3, 4]);
    assert_eq!(m.read_vector(0x2FF, 6), vec![0, 1, 2, 3, 4, 0]);
    assert_eq!(m.read_vector(0xFFF, 0), Vec::<u8>::new());
    assert_eq!(m.get_memory()[0x302], 3);
    let before = m.get_memory().to_vec();
    m.write_vector(Vec::new(), 0x5000);
    assert_eq!(m.get_memory().to_vec(), before);
}

#[test]
fn clear_screen_and_jumps() {
    let mut m = machine();
    m.back_buffer[5] = true;
    run(&mut m, Instruction::I00E0);
    assert!(m.back_buffer.iter().all(|p| !*p));
    run(&mut m, Instruction::I1NNN(0x345));
    assert_eq!(m.pc, 0x345);
    m.v[0] = 0x10;
    run(&mut m, Instruction::IBNNN(0x300));
    assert_eq!(m.pc, 0x310);
    m.v[2] = 0x20;
    run(&mut m, Instruction::IBXNN(2, 0x200));
    assert_eq!(m.pc, 0x220);
}

#[test]
fn call_then_return() {
    let mut m = machine();
    m.pc = 0x206;
    run(&mut m, Instruction::I2NNN(0x400));
    assert_eq!(m.pc, 0x400);
    assert_eq!(m.stack, vec![0x206]);
    run(&mut m, Instruction::I00EE);
    assert_eq!(m.pc, 0x206);
    assert!(m.stack.is_empty());
}

#[test]
fn skips() {
    let mut m = machine();
    m.v[1] = 7;
    m.v[2] = 7;
    run(&mut m, Instruction::I3XNN(1, 7));
    assert_eq!(m.pc, 0x202);
    run(&mut m, Instruction::I3XNN(1, 8));
    assert_eq!(m.pc, 0x202);
    run(&mut m, Instruction::I4XNN(1, 8));
    assert_eq!(m.pc, 0x204);
    run(&mut m, Instruction::I5XY0(1, 2));
    assert_eq!(m.pc, 0x206);
    run(&mut m, Instruction::I9XY0(1, 2));
    assert_eq!(m.pc, 0x206);
}

#[test]
fn arithmetic_and_flags() {
    let mut m = machine();
    run(&mut m, Instruction::I6XNN(1, 200));
    run(&mut m, Instruction::I7XNN(1, 100));
    assert_eq!(m.v[1], 44);
    m.v[1] = 200;
    m.v[2] = 100;
    run(&mut m, Instruction::I8XY4(1, 2));
    assert_eq!((m.v[1], m.v[0xF]), (44, 1));
    m.v[1] = 10;
    run(&mut m, Instruction::I8XY4(1, 2));
    assert_eq!((m.v[1], m.v[0xF]), (110, 0));
    m.v[1] = 10;
    m.v[2] = 20;
    run(&mut m, Instruction::I8XY5(1, 2));
    assert_eq!((m.v[1], m.v[0xF]), (246, 0));
    m.v[1] = 30;
    run(&mut m, Instruction::I8XY5(1, 2));
    assert_eq!((m.v[1], m.v[0xF]), (10, 1));
    m.v[1] = 30;
    run(&mut m, Instruction::I8XY7(1, 2));
    assert_eq!((m.v[1], m.v[0xF]), (246, 0));
    m.v[1] = 0b1100_0011;
    m.v[2] = 0b1010_0101;
    run(&mut m, Instruction::I8XY1(1, 2));
    assert_eq!(m.v[1], 0b1110_0111);
    run(&mut m, Instruction::I8XY2(1, 2));
    assert_eq!(m.v[1], 0b1010_0101);
    run(&mut m, Instruction::I8XY3(1, 2));
    assert_eq!(m.v[1], 0);
    run(&mut m, Instruction::I8XY0(1, 2));
    assert_eq!(m.v[1], 0b1010_0101);
}

#[test]
fn shifts_follow_the_shift_quirk() {
    let mut m = machine();
    m.v[1] = 0x01;
    m.v[2] = 0x81;
    run(&mut m, Instruction::I8XY6(1, 2));
    assert_eq!((m.v[1], m.v[0xF]), (0x00, 1));
    m.v[1] = 0x81;
    run(&mut m, Instruction::I8XYE(1, 2));
    assert_eq!((m.v[1], m.v[0xF]), (0x02, 1));
    m.args.shift = true;
    m.v[1] = 0x02;
    m.v[2] = 0x04;
    run(&mut m, Instruction::I8XY6(1, 2));
    assert_eq!((m.v[1], m.v[0xF]), (0x02, 0));
    m.v[1] = 0x01;
    m.v[2] = 0x81;
    run(&mut m, Instruction::I8XYE(1, 2));
    assert_eq!((m.v[1], m.v[0xF]), (0x02, 1));
}

#[test]
fn logic_quirk_clears_vf() {
    let mut m = machine();
    m.v[0xF] = 9;
    run(&mut m, Instruction::I8XY1(1, 2));
    assert_eq!(m.v[0xF], 9);
    m.args.logic = true;
    run(&mut m, Instruction::I8XY1(1, 2));
    assert_eq!(m.v[0xF], 0);
}

#[test]
fn random_byte_is_masked() {
    let mut m = machine();
    m.v[3] = 0xFF;
    m.instruction = Instruction::ICXNN(3, 0);
    m.execute();
    assert_eq!(m.v[3], 0);
    m.instruction = Instruction::ICXNN(3, 0x0F);
    m.execute();
    assert!(m.v[3] <= 0x0F);
    m.instruction = Instruction::ICXNN(4, 0xF0);
    m.execute_with(0xAB);
    assert_eq!(m.v[4], 0xA0);
}

#[test]
fn draw_font_glyph_and_collisions() {
    let mut m = machine();
    m.v[0] = 2;
    run(&mut m, Instruction::IFX29(0));
    assert_eq!(m.i, 0x50 + 10);
    m.v[1] = 1;
    m.v[2] = 1;
    run(&mut m, Instruction::IDXYN(1, 2, 5));
    assert_eq!(m.v[0xF], 0);
    // glyph "2": F0 10 F0 80 F0 at (1, 1)
    let row = |y: usize| -> Vec<bool> { (0..6).map(|x| m.back_buffer[y * 64 + x]).collect() };
    assert_eq!(row(1), vec![false, true, true, true, true, false]);
    assert_eq!(row(2), vec![false, false, false, false, true, false]);
    assert_eq!(row(4), vec![false, true, false, false, false, false]);
    run(&mut m, Instruction::IDXYN(1, 2, 5));
    assert_eq!(m.v[0xF], 1);
    assert!(m.back_buffer.iter().all(|p| !*p));
}

#[test]
fn draw_clips_at_the_edges() {
    let mut m = machine();
    m.write_vector(vec![0xFF, 0xFF], 0x300);
    m.i = 0x300;
    m.v[1] = 62;
    m.v[2] = 31;
    run(&mut m, Instruction::IDXYN(1, 2, 2));
    let lit: Vec<usize> = (0..2048).filter(|p| m.back_buffer[*p]).collect();
    assert_eq!(lit, vec![31 * 64 + 62, 31 * 64 + 63]);
    // coordinates wrap before drawing: 64 + 2 draws at column 2
    m.v[1] = 66;
    m.v[2] = 0;
    run(&mut m, Instruction::IDXYN(1, 2, 1));
    assert!(m.back_buffer[2] && m.back_buffer[9] && !m.back_buffer[10] && !m.back_buffer[1]);
}

#[test]
fn vblank_draw_waits_for_next_frame() {
    let mut m = machine();
    m.args.vblank = true;
    m.i = 0x50;
    m.pc = 0x202;
    assert_eq!(run(&mut m, Instruction::IDXYN(0, 0, 1)), Some(1));
    assert_eq!(m.pc, 0x200);
    assert!(m.is_next_frame);
    assert_eq!(run(&mut m, Instruction::IDXYN(0, 0, 1)), None);
    assert!(!m.is_next_frame);
    assert!(m.back_buffer[0]);
}

#[test]
fn keys_and_timers() {
    let mut m = machine();
    m.keyboard.set_keys(&[HostKey::W]);
    m.v[1] = 5;
    run(&mut m, Instruction::IEX9E(1));
    assert_eq!(m.pc, 0x202);
    run(&mut m, Instruction::IEXA1(1));
    assert_eq!(m.pc, 0x202);
    m.v[1] = 6;
    run(&mut m, Instruction::IEXA1(1));
    assert_eq!(m.pc, 0x204);
    m.v[2] = 3;
    run(&mut m, Instruction::IFX15(2));
    run(&mut m, Instruction::IFX18(2));
    assert_eq!((m.dt, m.st), (3, 3));
    assert!(m.sound_on());
    m.st = 1;
    m.dt = 0;
    m.decrement_timers();
    assert_eq!((m.dt, m.st), (0, 0));
    assert!(!m.sound_on());
    m.dt = 9;
    run(&mut m, Instruction::IFX07(4));
    assert_eq!(m.v[4], 9);
}

#[test]
fn wait_for_key_press() {
    let mut m = machine();
    m.pc = 0x202;
    run(&mut m, Instruction::IFX0A(3));
    assert_eq!(m.pc, 0x200);
    m.keyboard.set_keys(&[HostKey::C, HostKey::Num4]);
    m.pc = 0x202;
    run(&mut m, Instruction::IFX0A(3));
    assert_eq!(m.pc, 0x202);
    assert_eq!(m.v[3], 0xB);
}

#[test]
fn wait_for_key_release() {
    let mut m = machine();
    m.args.get_key_on_release = true;
    m.keyboard.set_keys(&[HostKey::E]);
    m.pc = 0x202;
    run(&mut m, Instruction::IFX0A(3));
    assert_eq!(m.pc, 0x200);
    assert_eq!(m.waiting_for_key_release, Some(6));
    m.pc = 0x202;
    run(&mut m, Instruction::IFX0A(3));
    assert_eq!(m.pc, 0x200);
    m.keyboard.set_keys(&[]);
    m.pc = 0x202;
    run(&mut m, Instruction::IFX0A(3));
    assert_eq!(m.pc, 0x202);
    assert_eq!(m.v[3], 6);
    assert_eq!(m.waiting_for_key_release, None);
}

#[test]
fn index_register_and_bcd() {
    let mut m = machine();
    run(&mut m, Instruction::IANNN(0x300));
    m.v[5] = 234;
    run(&mut m, Instruction::IFX33(5));
    assert_eq!(&m.memory[0x300..0x303], &[2, 3, 4]);
    m.i = 0xFFF;
    m.v[5] = 2;
    run(&mut m, Instruction::IFX1E(5));
    assert_eq!(m.i, 0x001);
    assert_eq!(m.v[0xF], 0);
    m.args.fx1e_i_overflow = true;
    m.i = 0xFFF;
    run(&mut m, Instruction::IFX1E(5));
    assert_eq!((m.i, m.v[0xF]), (0x001, 1));
}

#[test]
fn save_then_load_registers() {
    let mut m = machine();
    m.v = [1, 2, 3, 4, 5, 6, 7, 8, 9, 10, 11, 12, 13, 14, 15, 16];
    m.i = 0x400;
    run(&mut m, Instruction::IFX55(3));
    assert_eq!(&m.memory[0x400..0x405], &[1, 2, 3, 4, 0]);
    assert_eq!(m.i, 0x404);
    m.v = [0; 16];
    m.i = 0x400;
    m.args.memory_increment_by_x = true;
    run(&mut m, Instruction::IFX65(3));
    assert_eq!(&m.v[0..5], &[1, 2, 3, 4, 0]);
    assert_eq!(m.i, 0x403);
    m.args.memory_leave_i_unchanged = true;
    run(&mut m, Instruction::IFX55(0));
    assert_eq!(m.i, 0x403);
}

#[test]
fn cycle_runs_a_program() {
    let mut m = machine();
    // 6A05: VA := 5; 7A03: VA += 3; 1200: jump 0x200
    m.load_program(vec![0x6A, 0x05, 0x7A, 0x03, 0x12, 0x00]);
    assert!(m.can_cycle());
    assert_eq!(m.cycle(), 0);
    assert_eq!(m.instruction, Instruction::I6XNN(0xA, 5));
    assert_eq!(m.cycle(), 0);
    assert_eq!(m.v[0xA], 8);
    assert_eq!(m.cycle(), 0);
    assert_eq!(m.pc, 0x200);
}

#[test]
fn invalid_or_unbalanced_code_cannot_cycle() {
    let mut m = machine();
    // memory at 0x200 is zero: opcode 0000 is not an instruction
    assert!(!m.can_cycle());
    m.load_program(vec![0x00, 0xEE]);
    assert!(!m.can_cycle());
    m.stack.push(0x300);
    assert!(m.can_cycle());
    m.load_program(vec![0xF2, 0x55]);
    m.i = 0xFFE;
    assert!(!m.can_cycle());
    m.i = 0xFFD;
    assert!(m.can_cycle());
}

#[test]
fn frame_runs_cycles_then_shows_back_buffer() {
    let mut m = machine();
    m.args.instructions_per_frame = 3;
    // 6005: V0 := 5; F018: buzzer := V0; 00E0 (clear); 6101 ...
    m.load_program(vec![0x60, 0x05, 0xF0, 0x18, 0x00, 0xE0, 0x61, 0x01]);
    m.back_buffer[0] = true;
    m.dt = 2;
    let r = m.run_frame();
    assert_eq!(r, FrameResult::Completed { beep: Some(true) });
    assert_eq!(m.pc, 0x206);
    assert_eq!(m.st, 4);
    assert_eq!(m.dt, 1);
    assert!(!m.front_buffer[0]);
    assert_eq!(m.get_display_buffer(), &m.back_buffer);
}

#[test]
fn frame_stops_at_vblank_draw_and_at_faults() {
    let mut m = machine();
    m.args.vblank = true;
    m.args.instructions_per_frame = 10;
    // D001: draw, 1200: jump back
    m.load_program(vec![0xD0, 0x01, 0x12, 0x00]);
    let r = m.run_frame();
    assert_eq!(r, FrameResult::Completed { beep: None });
    assert_eq!(m.pc, 0x200);
    assert!(m.is_next_frame);
    let r = m.run_frame();
    assert_eq!(r, FrameResult::Completed { beep: Some(false) });
    let mut bad = machine();
    assert_eq!(bad.run_frame(), FrameResult::Fault);
    let mut stepping = machine();
    stepping.args.step_mode = true;
    assert_eq!(stepping.run_frame(), FrameResult::Completed { beep: None });
    assert_eq!(stepping.pc, 0x200);
}

#[test]
fn swap_copies_back_buffer() {
    let mut m = machine();
    m.back_buffer[100] = true;
    m.swap_buffers();
    assert!(m.front_buffer[100]);
    assert!(m.back_buffer[100]);
}

#[test]
fn only_stores_write_memory() {
    let mut m = machine();
    m.load_program(vec![0x12, 0x34]);
    let before = m.memory;
    m.i = 0x300;
    m.v[1] = 3;
    for instr in [
        Instruction::I6XNN(1, 9),
        Instruction::I8XY4(1, 1),
        Instruction::IANNN(0x310),
        Instruction::IDXYN(1, 1, 2),
        Instruction::IFX1E(1),
        Instruction::IFX65(2),
        Instruction::I1NNN(0x222),
    ] {
        run(&mut m, instr);
    }
    assert_eq!(m.memory, before);
    m.v[1] = 123;
    run(&mut m, Instruction::IFX33(1));
    assert_ne!(m.memory, before);
}

#[test]
fn gray_image_and_words() {
    let mut buf = [false; 2048];
    buf[3] = true;
    let gray = chip_oxide::screen::convert(&buf);
    assert_eq!(gray[3], 255);
    assert_eq!(gray[2], 0);
    let mut memory = [0u8; 0x1000];
    memory[0x10] = 0xAB;
    memory[0x11] = 0xCD;
    memory[0xFFF] = 0x12;
    assert_eq!(chip_oxide::machine::opcode_at(&memory, 0x10), 0xABCD);
    assert_eq!(chip_oxide::machine::opcode_at(&memory, 0xFFF), 0x1200);
    assert_eq!(chip_oxide::machine::opcode_at(&memory, 0x2000), 0);
}
