use chip8::cpu::{init, CPU};
use chip8::interpreter::{accept_opcode, can_execute, clear_display, execute};
use chip8::screen::pressed_keys;

const NO_KEYS: [bool; 16] = [false; 16];

fn machine() -> CPU {
    let mut cpu = init();
    cpu.pc = 0x200;
    cpu
}

fn run(cpu: &mut CPU, opcode: u16) {
    assert!(can_execute(cpu, opcode, &NO_KEYS));
    execute(cpu, opcode, NO_KEYS, 0);
}

#[test]
fn clear_screen_turns_all_pixels_off() {
    let mut cpu = machine();
    cpu.display.v_memory[0] = 1;
    cpu.display.v_memory[2047] = 1;
    run(&mut cpu, 0x00E0);
    assert!(cpu.display.v_memory.iter().all(|&b| b == 0));
    assert_eq!(cpu.pc, 0x202);
}

#[test]
fn clear_display_alone_keeps_pc() {
    let mut cpu = machine();
    cpu.display.v_memory[100] = 1;
    clear_display(&mut cpu);
    assert!(cpu.display.v_memory.iter().all(|&b| b == 0));
    assert_eq!(cpu.pc, 0x200);
}

#[test]
fn call_and_return() {
    let mut cpu = machine();
    run(&mut cpu, 0x2ABC);
    assert_eq!(cpu.pc, 0xABC);
    assert_eq!(cpu.stack.pop_index, 1);
    assert_eq!(cpu.stack.bytes[0], 0x202);
    run(&mut cpu, 0x00EE);
    assert_eq!(cpu.pc, 0x202);
    assert_eq!(cpu.stack.pop_index, 0);
    assert_eq!(cpu.stack.bytes, [0; 12]);
}

#[test]
fn jumps() {
    let mut cpu = machine();
    run(&mut cpu, 0x1345);
    assert_eq!(cpu.pc, 0x345);
    cpu.registers.v[0] = 0x10;
    run(&mut cpu, 0xB300);
    assert_eq!(cpu.pc, 0x310);
}

#[test]
fn skips_on_register_and_immediate() {
    let mut cpu = machine();
    cpu.registers.v[3] = 0x42;
    cpu.registers.v[4] = 0x42;
    run(&mut cpu, 0x3342);
    assert_eq!(cpu.pc, 0x204);
    run(&mut cpu, 0x3343);
    assert_eq!(cpu.pc, 0x206);
    run(&mut cpu, 0x4343);
    assert_eq!(cpu.pc, 0x20A);
    run(&mut cpu, 0x4342);
    assert_eq!(cpu.pc, 0x20C);
    run(&mut cpu, 0x5340);
    assert_eq!(cpu.pc, 0x210);
    run(&mut cpu, 0x9340);
    assert_eq!(cpu.pc, 0x212);
    cpu.registers.v[4] = 0;
    run(&mut cpu, 0x9340);
    assert_eq!(cpu.pc, 0x216);
}

#[test]
fn load_and_add_immediate() {
    let mut cpu = machine();
    run(&mut cpu, 0x6A7F);
    assert_eq!(cpu.registers.v[0xA], 0x7F);
    run(&mut cpu, 0x7A90);
    assert_eq!(cpu.registers.v[0xA], 0x0F);
    // the carry flag is untouched
    assert_eq!(cpu.registers.v[0xF], 0);
    assert_eq!(cpu.pc, 0x204);
}

#[test]
fn register_logic() {
    let mut cpu = machine();
    cpu.registers.v[1] = 0b1100;
    cpu.registers.v[2] = 0b1010;
    run(&mut cpu, 0x8121);
    assert_eq!(cpu.registers.v[1], 0b1110);
    cpu.registers.v[1] = 0b1100;
    run(&mut cpu, 0x8122);
    assert_eq!(cpu.registers.v[1], 0b1000);
    cpu.registers.v[1] = 0b1100;
    run(&mut cpu, 0x8123);
    assert_eq!(cpu.registers.v[1], 0b0110);
    run(&mut cpu, 0x8120);
    assert_eq!(cpu.registers.v[1], 0b1010);
}

#[test]
fn add_sets_carry() {
    let mut cpu = machine();
    cpu.registers.v[1] = 200;
    cpu.registers.v[2] = 100;
    run(&mut cpu, 0x8124);
    assert_eq!(cpu.registers.v[1], 44);
    assert_eq!(cpu.registers.v[0xF], 1);
    cpu.registers.v[1] = 20;
    run(&mut cpu, 0x8124);
    assert_eq!(cpu.registers.v[1], 120);
    assert_eq!(cpu.registers.v[0xF], 0);
}

#[test]
fn subtract_sets_no_borrow_flag() {
    let mut cpu = machine();
    cpu.registers.v[1] = 10;
    cpu.registers.v[2] = 3;
    run(&mut cpu, 0x8125);
    assert_eq!(cpu.registers.v[1], 7);
    assert_eq!(cpu.registers.v[0xF], 1);
    cpu.registers.v[1] = 3;
    cpu.registers.v[2] = 10;
    run(&mut cpu, 0x8125);
    assert_eq!(cpu.registers.v[1], 249);
    assert_eq!(cpu.registers.v[0xF], 0);
}

#[test]
fn reverse_subtract_wraps_on_borrow() {
    let mut cpu = machine();
    cpu.registers.v[1] = 3;
    cpu.registers.v[2] = 10;
    run(&mut cpu, 0x8127);
    assert_eq!(cpu.registers.v[1], 7);
    assert_eq!(cpu.registers.v[0xF], 1);
    cpu.registers.v[1] = 10;
    cpu.registers.v[2] = 3;
    run(&mut cpu, 0x8127);
    assert_eq!(cpu.registers.v[1], 249);
    assert_eq!(cpu.registers.v[0xF], 0);
}

#[test]
fn shifts_keep_the_dropped_bit_in_vf() {
    let mut cpu = machine();
    cpu.registers.v[5] = 0b1000_0011;
    run(&mut cpu, 0x8506);
    assert_eq!(cpu.registers.v[5], 0b0100_0001);
    assert_eq!(cpu.registers.v[0xF], 1);
    run(&mut cpu, 0x850E);
    assert_eq!(cpu.registers.v[5], 0b1000_0010);
    assert_eq!(cpu.registers.v[0xF], 0);
    run(&mut cpu, 0x850E);
    assert_eq!(cpu.registers.v[5], 0b0000_0100);
    assert_eq!(cpu.registers.v[0xF], 1);
}

#[test]
fn flag_register_as_operand_is_overwritten_by_the_result() {
    let mut cpu = machine();
    cpu.registers.v[0xF] = 200;
    cpu.registers.v[1] = 100;
    // VF = carry (1), then VF = VF + V1 = 1 + 100
    run(&mut cpu, 0x8F14);
    assert_eq!(cpu.registers.v[0xF], 101);
}

#[test]
fn set_index_and_add_to_index() {
    let mut cpu = machine();
    run(&mut cpu, 0xA123);
    assert_eq!(cpu.registers.i, 0x123);
    cpu.registers.v[2] = 0x10;
    run(&mut cpu, 0xF21E);
    assert_eq!(cpu.registers.i, 0x133);
    assert_eq!(cpu.registers.v[0xF], 0);
}

#[test]
fn random_byte_is_masked() {
    let mut cpu = machine();
    execute(&mut cpu, 0xC30F, NO_KEYS, 0xAB);
    assert_eq!(cpu.registers.v[3], 0x0B);
    assert_eq!(cpu.pc, 0x202);
}

#[test]
fn random_instruction_draws_from_the_whole_byte_range() {
    let mut seen = [false; 256];
    for _ in 0..3000 {
        let mut cpu = machine();
        accept_opcode(&mut cpu, 0xC4FF, NO_KEYS);
        seen[cpu.registers.v[4] as usize] = true;
        assert_eq!(cpu.pc, 0x202);
    }
    // with 3000 draws every value of a fair byte shows up but for a
    // vanishing chance; the highest value is among them
    assert!(seen.iter().filter(|&&b| b).count() > 200);
    assert!(seen[255]);
}

#[test]
fn random_instruction_masks_its_draw() {
    for _ in 0..200 {
        let mut cpu = machine();
        accept_opcode(&mut cpu, 0xC40F, NO_KEYS);
        assert!(cpu.registers.v[4] <= 0x0F);
    }
}

#[test]
fn accept_opcode_runs_deterministic_instructions() {
    let mut cpu = machine();
    accept_opcode(&mut cpu, 0x6512, NO_KEYS);
    assert_eq!(cpu.registers.v[5], 0x12);
    assert_eq!(cpu.pc, 0x202);
}

#[test]
fn draw_digit_zero() {
    let mut cpu = machine();
    // I points at the glyph of 0; N = 4 draws its five rows at (0, 0)
    run(&mut cpu, 0xD014);
    let expected_rows = [0xF0u8, 0x90, 0x90, 0x90, 0xF0];
    for (row, bits) in expected_rows.iter().enumerate() {
        for col in 0..8 {
            let lit = (bits >> (7 - col)) & 1;
            assert_eq!(cpu.display.v_memory[col + 64 * row], lit);
        }
    }
    let lit: usize = cpu.display.v_memory.iter().map(|&b| b as usize).sum();
    assert_eq!(lit, 14);
    assert_eq!(cpu.registers.v[0xF], 0);
    assert_eq!(cpu.pc, 0x202);
    // drawing it again erases it and reports the collision
    run(&mut cpu, 0xD014);
    assert!(cpu.display.v_memory.iter().all(|&b| b == 0));
    assert_eq!(cpu.registers.v[0xF], 1);
}

#[test]
fn draw_has_n_plus_one_rows() {
    let mut cpu = machine();
    run(&mut cpu, 0xD011);
    assert_eq!(&cpu.display.v_memory[0..8], &[1, 1, 1, 1, 0, 0, 0, 0]);
    assert_eq!(&cpu.display.v_memory[64..72], &[1, 0, 0, 1, 0, 0, 0, 0]);
    assert_eq!(&cpu.display.v_memory[128..136], &[0; 8]);
    assert_eq!(cpu.registers.v[0xF], 0);
    assert_eq!(cpu.registers.i, 0);
    assert_eq!(cpu.pc, 0x202);
}

#[test]
fn draw_at_offset_and_wrap() {
    let mut cpu = machine();
    cpu.registers.i = 0x300;
    cpu.memory.bytes[0x300] = 0b1000_0001;
    cpu.registers.v[1] = 62;
    cpu.registers.v[2] = 31;
    run(&mut cpu, 0xD120);
    // column 62 of row 31 is cell 2046; column 69 spills into cell 2053 % 2048
    assert_eq!(cpu.display.v_memory[62 + 64 * 31], 1);
    assert_eq!(cpu.display.v_memory[5], 1);
    let lit: usize = cpu.display.v_memory.iter().map(|&b| b as usize).sum();
    assert_eq!(lit, 2);
    assert_eq!(cpu.registers.v[0xF], 0);
}

#[test]
fn draw_with_n_zero_draws_one_row() {
    let mut cpu = machine();
    cpu.registers.v[0xF] = 7;
    cpu.registers.i = 4095;
    cpu.memory.bytes[4095] = 0b0100_0000;
    assert!(can_execute(&cpu, 0xD010, &NO_KEYS));
    execute(&mut cpu, 0xD010, NO_KEYS, 0);
    assert_eq!(cpu.display.v_memory[1], 1);
    let lit: usize = cpu.display.v_memory.iter().map(|&b| b as usize).sum();
    assert_eq!(lit, 1);
    assert_eq!(cpu.registers.v[0xF], 0);
    assert_eq!(cpu.pc, 0x202);
    // the row past the end of memory cannot be read
    cpu.registers.i = 4095;
    assert!(!can_execute(&cpu, 0xD011, &NO_KEYS));
}

#[test]
fn key_skips() {
    let mut cpu = machine();
    let mut keys = [false; 16];
    keys[7] = true;
    cpu.registers.v[2] = 7;
    execute(&mut cpu, 0xE29E, keys, 0);
    assert_eq!(cpu.pc, 0x204);
    execute(&mut cpu, 0xE2A1, keys, 0);
    assert_eq!(cpu.pc, 0x206);
    cpu.registers.v[2] = 8;
    execute(&mut cpu, 0xE29E, keys, 0);
    assert_eq!(cpu.pc, 0x208);
    execute(&mut cpu, 0xE2A1, keys, 0);
    assert_eq!(cpu.pc, 0x20C);
}

#[test]
fn wait_for_key() {
    let mut cpu = machine();
    execute(&mut cpu, 0xF30A, NO_KEYS, 0);
    assert_eq!(cpu.pc, 0x200);
    assert_eq!(cpu.registers.v[3], 0);
    let mut keys = [false; 16];
    keys[4] = true;
    keys[9] = true;
    execute(&mut cpu, 0xF30A, keys, 0);
    assert_eq!(cpu.pc, 0x202);
    assert_eq!(cpu.registers.v[3], 9);
}

#[test]
fn timer_registers() {
    let mut cpu = machine();
    cpu.registers.v[1] = 60;
    run(&mut cpu, 0xF115);
    assert_eq!(cpu.timers.delay_timer, 60);
    run(&mut cpu, 0xF118);
    assert_eq!(cpu.timers.sound_timer, 60);
    cpu.timers.delay_timer = 33;
    run(&mut cpu, 0xF207);
    assert_eq!(cpu.registers.v[2], 33);
    assert_eq!(cpu.pc, 0x206);
}

#[test]
fn font_address() {
    let mut cpu = machine();
    cpu.registers.v[6] = 0xB;
    run(&mut cpu, 0xF629);
    assert_eq!(cpu.registers.i, 55);
    assert_eq!(&cpu.memory.bytes[55..60], &[0xE0, 0x90, 0xE0, 0x90, 0xE0]);
}

#[test]
fn binary_coded_decimal() {
    let mut cpu = machine();
    cpu.registers.i = 0x400;
    cpu.registers.v[7] = 254;
    run(&mut cpu, 0xF733);
    assert_eq!(&cpu.memory.bytes[0x400..0x403], &[2, 5, 4]);
    cpu.registers.v[7] = 7;
    run(&mut cpu, 0xF733);
    assert_eq!(&cpu.memory.bytes[0x400..0x403], &[0, 0, 7]);
    assert_eq!(cpu.registers.i, 0x400);
}

#[test]
fn store_and_load_registers() {
    let mut cpu = machine();
    cpu.registers.i = 0x500;
    for k in 0..16 {
        cpu.registers.v[k] = (k as u8) * 3 + 1;
    }
    run(&mut cpu, 0xF355);
    assert_eq!(&cpu.memory.bytes[0x500..0x504], &[1, 4, 7, 10]);
    assert_eq!(cpu.memory.bytes[0x504], 0);
    assert_eq!(cpu.registers.i, 0x500);
    let saved = cpu.registers.v;
    for k in 0..16 {
        cpu.registers.v[k] = 0;
    }
    run(&mut cpu, 0xF365);
    assert_eq!(&cpu.registers.v[..4], &saved[..4]);
    assert!(cpu.registers.v[4..].iter().all(|&b| b == 0));
    assert_eq!(cpu.pc, 0x204);
}

#[test]
fn refused_opcodes() {
    let cpu = machine();
    // machine code routines, unknown arithmetic, key and misc opcodes
    assert!(!can_execute(&cpu, 0x0123, &NO_KEYS));
    assert!(!can_execute(&cpu, 0x8128, &NO_KEYS));
    assert!(!can_execute(&cpu, 0xE1FF, &NO_KEYS));
    assert!(!can_execute(&cpu, 0xF1FF, &NO_KEYS));
    // return with an empty stack
    assert!(!can_execute(&cpu, 0x00EE, &NO_KEYS));
    // call to address 0, jump to 0
    assert!(!can_execute(&cpu, 0x2000, &NO_KEYS));
    assert!(!can_execute(&cpu, 0xB000, &NO_KEYS));
    // known opcodes are accepted
    assert!(can_execute(&cpu, 0x00E0, &NO_KEYS));
    assert!(can_execute(&cpu, 0x1000, &NO_KEYS));
    assert!(can_execute(&cpu, 0xD125, &NO_KEYS));
}

#[test]
fn refused_by_state() {
    let mut cpu = machine();
    // a return to an address at or below 0x200
    cpu.stack.push(0x200);
    assert!(!can_execute(&cpu, 0x00EE, &NO_KEYS));
    // a full stack cannot take a call
    let mut full = machine();
    for _ in 0..12 {
        full.stack.push(0x300);
    }
    assert!(!can_execute(&full, 0x2300, &NO_KEYS));
    // a key register beyond the keypad
    let mut cpu = machine();
    cpu.registers.v[1] = 16;
    assert!(!can_execute(&cpu, 0xE19E, &NO_KEYS));
    // memory accesses past the end
    cpu.registers.i = 4094;
    assert!(!can_execute(&cpu, 0xF133, &NO_KEYS));
    assert!(!can_execute(&cpu, 0xD013, &NO_KEYS));
    cpu.registers.i = 4090;
    assert!(!can_execute(&cpu, 0xF655, &NO_KEYS));
    assert!(can_execute(&cpu, 0xF555, &NO_KEYS));
    // the program counter would pass 0xFFFF
    cpu.pc = 0xFFFE;
    assert!(!can_execute(&cpu, 0x6000, &NO_KEYS));
    assert!(can_execute(&cpu, 0x1200, &NO_KEYS));
}

#[test]
fn lit_pixels_in_cell_order() {
    let mut cpu = machine();
    cpu.display.v_memory[3] = 1;
    cpu.display.v_memory[64 * 2 + 5] = 1;
    cpu.display.v_memory[2047] = 1;
    cpu.display.v_memory[10] = 2;
    assert_eq!(cpu.display.lit_pixels(), vec![(3, 0), (5, 2), (63, 31)]);
}

#[test]
fn pressed_keys_in_order() {
    let mut keys = [false; 16];
    assert_eq!(pressed_keys(&keys), Vec::<usize>::new());
    keys[15] = true;
    keys[0] = true;
    keys[6] = true;
    assert_eq!(pressed_keys(&keys), vec![0, 6, 15]);
}
