use chip8::cpu::Cpu;
use chip8::machine::{decode, Fault, Instruction};

#[test]
fn test_op_00e0() {
    let mut cpu = Cpu::new();
    cpu.display.gfx[1] = 1;
    cpu.display.gfx[2] = 1;

    cpu.execute_opcode(0x00E0).unwrap();
    assert_eq!(cpu.display.gfx[1], 0);
    assert_eq!(cpu.display.gfx[2], 0);
    assert!(cpu.draw_flag);
}

#[test]
fn test_op_00ee() {
    let mut cpu = Cpu::new();
    let addr = 0x220;
    cpu.stack[0] = addr;
    cpu.sp = 1;
    cpu.pc = 0x300;

    cpu.execute_opcode(0x00EE).unwrap();
    assert_eq!(cpu.pc, addr);
    assert_eq!(cpu.sp, 0);
}

#[test]
fn test_op_1nnn() {
    let mut cpu = Cpu::new();
    cpu.pc = 0x220;

    cpu.execute_opcode(0x1210).unwrap();
    assert_eq!(cpu.pc, 0x210);
}

#[test]
fn test_op_2nnn() {
    let mut cpu = Cpu::new();
    cpu.pc = 0x300;

    cpu.execute_opcode(0x21AF).unwrap();
    assert_eq!(cpu.stack[0], 0x302);
    assert_eq!(cpu.sp, 1);
    assert_eq!(cpu.pc, 0x1AF);
}

#[test]
fn test_op_3xkk() {
    let mut cpu = Cpu::new();
    let pc = 0x400;
    cpu.v[3] = 5;
    cpu.pc = pc;

    cpu.execute_opcode(0x3306).unwrap();
    assert_eq!(cpu.pc, pc + 2);

    cpu.execute_opcode(0x3305).unwrap();
    assert_eq!(cpu.pc, pc + 6);
}

#[test]
fn test_op_4xkk() {
    let mut cpu = Cpu::new();
    let pc = 0x400;
    cpu.v[3] = 5;
    cpu.pc = pc;

    cpu.execute_opcode(0x4305).unwrap();
    assert_eq!(cpu.pc, pc + 2);

    cpu.execute_opcode(0x4306).unwrap();
    assert_eq!(cpu.pc, pc + 6);
}

#[test]
fn test_op_5xy0() {
    let mut cpu = Cpu::new();
    let pc = 0x2AF;
    cpu.v[2] = 30;
    cpu.v[3] = 40;
    cpu.pc = pc;

    cpu.execute_opcode(0x5230).unwrap();
    assert_eq!(cpu.pc, pc + 2);

    cpu.v[2] = 40;

    cpu.execute_opcode(0x5230).unwrap();
    assert_eq!(cpu.pc, pc + 6);
}

#[test]
fn test_op_6xkk() {
    let mut cpu = Cpu::new();
    cpu.v[4] = 10;

    cpu.execute_opcode(0x6455).unwrap();
    assert_eq!(cpu.v[4], 0x55);
}

fn booted() -> Cpu {
    let mut cpu = Cpu::new();
    cpu.reset();
    cpu
}

#[test]
fn new_cpu_is_zeroed() {
    let cpu = Cpu::new();
    assert_eq!(cpu.memory.len(), 4096);
    assert!(cpu.memory.iter().all(|&b| b == 0));
    assert_eq!(cpu.v, vec![0u8; 16]);
    assert_eq!(cpu.stack, vec![0u16; 16]);
    assert_eq!((cpu.pc, cpu.i, cpu.sp, cpu.dt, cpu.st), (0, 0, 0, 0, 0));
    assert!(!cpu.draw_pending());
}

#[test]
fn reset_loads_font_and_program_start() {
    let mut cpu = Cpu::new();
    cpu.v[1] = 9;
    cpu.i = 0x123;
    cpu.sp = 2;
    cpu.draw_flag = true;
    cpu.display.gfx[7] = 1;
    cpu.reset();
    assert_eq!(cpu.pc, 0x200);
    assert_eq!(&cpu.memory[0..5], &[0xF0, 0x90, 0x90, 0x90, 0xF0]);
    assert_eq!(&cpu.memory[75..80], &[0xF0, 0x80, 0xF0, 0x80, 0x80]);
    assert!(cpu.memory[80..].iter().all(|&b| b == 0));
    assert_eq!(cpu.v[1], 0);
    assert_eq!(cpu.i, 0);
    assert_eq!(cpu.sp, 0);
    assert!(!cpu.draw_flag);
    assert_eq!(cpu.display.gfx[7], 0);
}

#[test]
fn reset_twice_equals_reset_once() {
    let mut once = Cpu::new();
    once.v[2] = 3;
    once.memory[0x300] = 7;
    once.keypad.key_down(4);
    once.dt = 9;
    let mut twice = Cpu::new();
    twice.v[2] = 3;
    twice.memory[0x300] = 7;
    twice.keypad.key_down(4);
    twice.dt = 9;
    once.reset();
    twice.reset();
    twice.reset();
    assert_eq!(once.memory, twice.memory);
    assert_eq!(once.v, twice.v);
    assert_eq!(once.stack, twice.stack);
    assert_eq!(once.display.gfx, twice.display.gfx);
    assert_eq!(once.keypad.keys, twice.keypad.keys);
    assert_eq!(
        (once.pc, once.i, once.sp, once.dt, once.st, once.draw_flag),
        (twice.pc, twice.i, twice.sp, twice.dt, twice.st, twice.draw_flag)
    );
    assert!(twice.keypad.is_pressed(4));
    assert_eq!(twice.dt, 9);
}

#[test]
fn unknown_opcode_is_a_no_op() {
    let mut cpu = booted();
    cpu.v[0] = 1;
    assert_eq!(cpu.execute_opcode(0x0000), Ok(()));
    assert_eq!(cpu.pc, 0x202);
    assert_eq!(cpu.v[0], 1);
    assert_eq!(decode(0x0000), Instruction::Unknown);
    assert_eq!(decode(0x5231), Instruction::Unknown);
    assert_eq!(decode(0x8124), Instruction::AddReg(1, 2));
    assert_eq!(decode(0xDAB5), Instruction::Draw(0xA, 0xB, 5));
}

#[test]
fn add_imm_wraps_without_flag() {
    let mut cpu = booted();
    cpu.v[0] = 255;
    cpu.v[0xF] = 7;
    cpu.execute_opcode(0x7001).unwrap();
    assert_eq!(cpu.v[0], 0);
    assert_eq!(cpu.v[0xF], 7);
    cpu.v[2] = 200;
    cpu.execute_opcode(0x72C8).unwrap();
    assert_eq!(cpu.v[2], 144);
}

#[test]
fn move_or_and_xor() {
    let mut cpu = booted();
    cpu.v[1] = 0b1100;
    cpu.v[2] = 0b1010;
    cpu.execute_opcode(0x8121).unwrap();
    assert_eq!(cpu.v[1], 0b1110);
    cpu.v[1] = 0b1100;
    cpu.execute_opcode(0x8122).unwrap();
    assert_eq!(cpu.v[1], 0b1000);
    cpu.v[1] = 0b1100;
    cpu.execute_opcode(0x8123).unwrap();
    assert_eq!(cpu.v[1], 0b0110);
    cpu.execute_opcode(0x8120).unwrap();
    assert_eq!(cpu.v[1], 0b1010);
}

#[test]
fn add_reg_sets_carry() {
    let mut cpu = booted();
    cpu.v[1] = 200;
    cpu.v[2] = 100;
    cpu.execute_opcode(0x8124).unwrap();
    assert_eq!(cpu.v[1], 44);
    assert_eq!(cpu.v[0xF], 1);
    cpu.v[1] = 10;
    cpu.v[2] = 20;
    cpu.execute_opcode(0x8124).unwrap();
    assert_eq!(cpu.v[1], 30);
    assert_eq!(cpu.v[0xF], 0);
    cpu.v[1] = 128;
    cpu.v[2] = 128;
    cpu.execute_opcode(0x8124).unwrap();
    assert_eq!(cpu.v[1], 0);
    assert_eq!(cpu.v[0xF], 1);
}

#[test]
fn sub_sets_no_borrow_flag() {
    let mut cpu = booted();
    cpu.v[1] = 10;
    cpu.v[2] = 5;
    cpu.execute_opcode(0x8125).unwrap();
    assert_eq!((cpu.v[1], cpu.v[0xF]), (5, 1));
    cpu.v[1] = 5;
    cpu.v[2] = 10;
    cpu.execute_opcode(0x8125).unwrap();
    assert_eq!((cpu.v[1], cpu.v[0xF]), (251, 0));
    cpu.v[1] = 7;
    cpu.v[2] = 7;
    cpu.execute_opcode(0x8125).unwrap();
    assert_eq!((cpu.v[1], cpu.v[0xF]), (0, 1));
}

#[test]
fn subn_sets_no_borrow_flag() {
    let mut cpu = booted();
    cpu.v[1] = 5;
    cpu.v[2] = 10;
    cpu.execute_opcode(0x8127).unwrap();
    assert_eq!((cpu.v[1], cpu.v[0xF]), (5, 1));
    cpu.v[1] = 10;
    cpu.v[2] = 5;
    cpu.execute_opcode(0x8127).unwrap();
    assert_eq!((cpu.v[1], cpu.v[0xF]), (251, 0));
}

#[test]
fn shift_flags_hold_raw_bits() {
    let mut cpu = booted();
    cpu.v[1] = 0x81;
    cpu.execute_opcode(0x810E).unwrap();
    assert_eq!((cpu.v[1], cpu.v[0xF]), (0x02, 0x80));
    cpu.execute_opcode(0x810E).unwrap();
    assert_eq!((cpu.v[1], cpu.v[0xF]), (0x04, 0));
    cpu.v[1] = 0x03;
    cpu.execute_opcode(0x8106).unwrap();
    assert_eq!((cpu.v[1], cpu.v[0xF]), (0x01, 1));
    cpu.v[1] = 0x02;
    cpu.execute_opcode(0x8106).unwrap();
    assert_eq!((cpu.v[1], cpu.v[0xF]), (0x01, 0));
}

#[test]
fn skip_ne_reg_and_index_ops() {
    let mut cpu = booted();
    cpu.v[1] = 1;
    cpu.v[2] = 2;
    cpu.execute_opcode(0x9120).unwrap();
    assert_eq!(cpu.pc, 0x204);
    cpu.execute_opcode(0xA345).unwrap();
    assert_eq!(cpu.i, 0x345);
    cpu.v[0] = 4;
    cpu.execute_opcode(0xB300).unwrap();
    assert_eq!(cpu.pc, 0x304);
    cpu.i = 0xFFFF;
    cpu.execute_opcode(0xF21E).unwrap();
    assert_eq!(cpu.i, 1);
}

#[test]
fn random_and_masks_the_supplied_byte() {
    let mut cpu = booted();
    cpu.random_byte = 0xAB;
    cpu.execute_opcode(0xC30F).unwrap();
    assert_eq!(cpu.v[3], 0x0B);
}

#[test]
fn store_bcd_of_234() {
    let mut cpu = booted();
    cpu.v[5] = 234;
    cpu.i = 0x300;
    cpu.execute_opcode(0xF533).unwrap();
    assert_eq!(&cpu.memory[0x300..0x303], &[2, 3, 4]);
}

#[test]
fn font_glyph_address_of_a() {
    let mut cpu = booted();
    cpu.v[5] = 0xA;
    cpu.execute_opcode(0xF529).unwrap();
    assert_eq!(cpu.i, 50);
}

#[test]
fn store_and_load_registers() {
    let mut cpu = booted();
    for r in 0..16 {
        cpu.v[r] = r as u8 + 1;
    }
    cpu.i = 0x400;
    cpu.execute_opcode(0xF355).unwrap();
    assert_eq!(&cpu.memory[0x400..0x405], &[1, 2, 3, 4, 0]);
    cpu.memory[0x400] = 9;
    cpu.v[0] = 0;
    cpu.v[4] = 0;
    cpu.execute_opcode(0xF365).unwrap();
    assert_eq!(&cpu.v[0..5], &[9, 2, 3, 4, 0]);
    assert_eq!(cpu.i, 0x400);
}

#[test]
fn timer_ops() {
    let mut cpu = booted();
    cpu.v[1] = 30;
    cpu.execute_opcode(0xF115).unwrap();
    cpu.execute_opcode(0xF118).unwrap();
    assert_eq!((cpu.dt, cpu.st), (30, 30));
    cpu.execute_opcode(0xF207).unwrap();
    assert_eq!(cpu.v[2], 30);
}

#[test]
fn skip_on_key_state() {
    let mut cpu = booted();
    cpu.v[1] = 5;
    cpu.keypad.key_down(5);
    cpu.execute_opcode(0xE19E).unwrap();
    assert_eq!(cpu.pc, 0x204);
    cpu.execute_opcode(0xE1A1).unwrap();
    assert_eq!(cpu.pc, 0x206);
    cpu.keypad.key_up(5);
    cpu.execute_opcode(0xE1A1).unwrap();
    assert_eq!(cpu.pc, 0x20A);
}

#[test]
fn draw_glyph_then_redraw_collides() {
    let mut cpu = booted();
    cpu.v[0] = 0;
    cpu.v[1] = 0;
    cpu.i = 0;
    cpu.execute_opcode(0xD015).unwrap();
    assert_eq!(cpu.v[0xF], 0);
    assert!(cpu.draw_pending());
    assert_eq!(&cpu.display.gfx[0..4], &[1, 1, 1, 1]);
    assert_eq!(&cpu.display.gfx[64..68], &[1, 0, 0, 1]);
    cpu.unset_draw_flag();
    assert!(!cpu.draw_pending());
    cpu.execute_opcode(0xD015).unwrap();
    assert_eq!(cpu.v[0xF], 1);
    assert!(cpu.display.gfx.iter().all(|&p| p == 0));
}

#[test]
fn wait_for_key_stalls_then_takes_lowest_key() {
    let mut cpu = booted();
    cpu.load_program(&[0xF3, 0x0A]).unwrap();
    cpu.dt = 3;
    cpu.emulate_cycle().unwrap();
    assert_eq!(cpu.pc, 0x200);
    assert_eq!(cpu.dt, 2);
    cpu.keypad.key_down(9);
    cpu.keypad.key_down(5);
    cpu.emulate_cycle().unwrap();
    assert_eq!(cpu.pc, 0x202);
    assert_eq!(cpu.v[3], 5);
    assert_eq!(cpu.dt, 1);
}

#[test]
fn call_then_return_resumes_after_call() {
    let mut cpu = booted();
    cpu.load_program(&[0x22, 0x06, 0x00, 0x00, 0x00, 0x00, 0x00, 0xEE]).unwrap();
    cpu.emulate_cycle().unwrap();
    assert_eq!((cpu.pc, cpu.sp), (0x206, 1));
    cpu.emulate_cycle().unwrap();
    assert_eq!((cpu.pc, cpu.sp), (0x202, 0));
}

#[test]
fn timers_stop_at_zero() {
    let mut cpu = booted();
    cpu.dt = 2;
    cpu.st = 1;
    cpu.emulate_cycle().unwrap();
    assert_eq!((cpu.dt, cpu.st), (1, 0));
    cpu.emulate_cycle().unwrap();
    assert_eq!((cpu.dt, cpu.st), (0, 0));
    cpu.emulate_cycle().unwrap();
    assert_eq!((cpu.dt, cpu.st), (0, 0));
    assert_eq!(cpu.pc, 0x206);
}

#[test]
fn load_program_copies_at_program_start() {
    let mut cpu = booted();
    cpu.load_program(&[0x12, 0x34, 0x56]).unwrap();
    assert_eq!(&cpu.memory[0x1FF..0x204], &[0, 0x12, 0x34, 0x56, 0]);
    let big = vec![1u8; 4096 - 0x200 + 1];
    assert_eq!(cpu.load_program(&big), Err(Fault::AddressOutOfRange));
    assert_eq!(cpu.memory[0x203], 0);
    let exact = vec![1u8; 4096 - 0x200];
    assert_eq!(cpu.load_program(&exact), Ok(()));
    assert_eq!(cpu.memory[4095], 1);
}

#[test]
fn return_on_empty_stack_faults() {
    let mut cpu = booted();
    assert_eq!(cpu.execute_opcode(0x00EE), Err(Fault::StackUnderflow));
    assert_eq!((cpu.pc, cpu.sp), (0x200, 0));
}

#[test]
fn call_on_full_stack_faults() {
    let mut cpu = booted();
    cpu.sp = 16;
    assert_eq!(cpu.execute_opcode(0x2300), Err(Fault::StackOverflow));
    assert_eq!((cpu.pc, cpu.sp), (0x200, 16));
}

#[test]
fn memory_past_the_end_faults() {
    let mut cpu = booted();
    cpu.i = 4094;
    cpu.v[0] = 123;
    assert_eq!(cpu.execute_opcode(0xF033), Err(Fault::AddressOutOfRange));
    assert_eq!(cpu.memory[4094], 0);
    assert_eq!(cpu.execute_opcode(0xF255), Err(Fault::AddressOutOfRange));
    assert_eq!(cpu.execute_opcode(0xF265), Err(Fault::AddressOutOfRange));
    assert_eq!(cpu.execute_opcode(0xD003), Err(Fault::AddressOutOfRange));
    assert_eq!(cpu.execute_opcode(0xF155), Ok(()));
    assert_eq!(cpu.pc, 0x202);
    cpu.pc = 4095;
    assert_eq!(cpu.emulate_cycle(), Err(Fault::AddressOutOfRange));
    assert_eq!(cpu.pc, 4095);
}

#[test]
fn key_above_f_faults() {
    let mut cpu = booted();
    cpu.v[1] = 16;
    assert_eq!(cpu.execute_opcode(0xE19E), Err(Fault::InvalidKey));
    assert_eq!(cpu.execute_opcode(0xE1A1), Err(Fault::InvalidKey));
    assert_eq!(cpu.pc, 0x200);
}
