use chip8::cpu::{init, Stack, Timers, MAX_ELAPSED_NANOS, PROGRAM_START, TICK_NANOS};

const FONT: [u8; 80] = [
    0xF0, 0x90, 0x90, 0x90, 0xF0, 0x20, 0x60, 0x20, 0x20, 0x70, 0xF0, 0x10, 0xF0, 0x80, 0xF0,
    0xF0, 0x10, 0xF0, 0x10, 0xF0, 0x90, 0x90, 0xF0, 0x10, 0x10, 0xF0, 0x80, 0xF0, 0x10, 0xF0,
    0xF0, 0x80, 0xF0, 0x90, 0xF0, 0xF0, 0x10, 0x20, 0x40, 0x40, 0xF0, 0x90, 0xF0, 0x90, 0xF0,
    0xF0, 0x90, 0xF0, 0x10, 0xF0, 0xF0, 0x90, 0xF0, 0x90, 0x90, 0xE0, 0x90, 0xE0, 0x90, 0xE0,
    0xF0, 0x80, 0x80, 0x80, 0xF0, 0xE0, 0x90, 0x90, 0x90, 0xE0, 0xF0, 0x80, 0xF0, 0x80, 0xF0,
    0xF0, 0x80, 0xF0, 0x80, 0x80,
];

#[test]
fn init_loads_font_and_clears_everything_else() {
    let cpu = init();
    assert_eq!(&cpu.memory.bytes[..80], &FONT[..]);
    assert!(cpu.memory.bytes[80..].iter().all(|&b| b == 0));
    assert_eq!(cpu.registers.v, [0; 16]);
    assert_eq!(cpu.registers.i, 0);
    assert_eq!(cpu.stack.bytes, [0; 12]);
    assert_eq!(cpu.stack.pop_index, 0);
    assert_eq!(cpu.timers.delay_timer, 0);
    assert_eq!(cpu.timers.sound_timer, 0);
    assert_eq!(cpu.timers.time_since_update, 0);
    assert!(cpu.display.v_memory.iter().all(|&b| b == 0));
    assert_eq!(cpu.pc, 0);
}

#[test]
fn load_rom_copies_program_at_0x200_and_keeps_font() {
    let mut cpu = init();
    let rom = vec![0x12, 0x34, 0xAB, 0xCD, 0x00];
    cpu.load_rom(&rom);
    assert_eq!(cpu.pc, PROGRAM_START);
    assert_eq!(cpu.pc, 0x200);
    assert_eq!(&cpu.memory.bytes[0x200..0x205], &rom[..]);
    assert_eq!(&cpu.memory.bytes[..80], &FONT[..]);
    assert!(cpu.memory.bytes[80..0x200].iter().all(|&b| b == 0));
    assert!(cpu.memory.bytes[0x205..].iter().all(|&b| b == 0));
}

#[test]
fn load_rom_keeps_memory_above_the_image() {
    let mut cpu = init();
    cpu.memory.bytes[0x300] = 0x77;
    cpu.memory.bytes[0xFFF] = 0x55;
    cpu.load_rom(&[1, 2, 3]);
    assert_eq!(cpu.memory.bytes[0x300], 0x77);
    assert_eq!(cpu.memory.bytes[0xFFF], 0x55);
    assert_eq!(&cpu.memory.bytes[0x200..0x203], &[1, 2, 3]);
}

#[test]
fn load_rom_fills_all_of_program_memory() {
    let mut cpu = init();
    let rom: Vec<u8> = (0..(4096 - 0x200)).map(|k| (k % 251) as u8).collect();
    cpu.load_rom(&rom);
    assert_eq!(&cpu.memory.bytes[0x200..], &rom[..]);
    assert_eq!(&cpu.memory.bytes[..80], &FONT[..]);
}

#[test]
fn fetch_reads_big_endian_opcode() {
    let mut cpu = init();
    cpu.load_rom(&[0xA2, 0xF0, 0x13, 0x37]);
    assert_eq!(cpu.fetch_opcode(), 0xA2F0);
    cpu.pc = 0x202;
    assert_eq!(cpu.fetch_opcode(), 0x1337);
}

#[test]
fn push_then_pop_returns_pushed_value() {
    let mut stack = Stack { bytes: [0; 12], pop_index: 0 };
    stack.push(0x202);
    stack.push(0x404);
    assert_eq!(stack.pop_index, 2);
    assert_eq!(stack.bytes[0], 0x202);
    assert_eq!(stack.bytes[1], 0x404);
    assert_eq!(stack.pop(), 0x404);
    assert_eq!(stack.bytes[1], 0);
    assert_eq!(stack.pop_index, 1);
    assert_eq!(stack.pop(), 0x202);
    assert_eq!(stack.pop_index, 0);
    assert_eq!(stack.bytes, [0; 12]);
}

#[test]
fn stack_holds_twelve_entries() {
    let mut stack = Stack { bytes: [0; 12], pop_index: 0 };
    for k in 0..12u16 {
        stack.push(0x200 + 2 * k);
    }
    assert_eq!(stack.pop_index, 12);
    for k in (0..12u16).rev() {
        assert_eq!(stack.pop(), 0x200 + 2 * k);
    }
    assert_eq!(stack.pop_index, 0);
}

#[test]
fn timers_accumulate_below_one_tick() {
    let mut timers = Timers { delay_timer: 5, sound_timer: 3, time_since_update: 0 };
    timers.update(4_000_000);
    assert_eq!(timers.delay_timer, 5);
    assert_eq!(timers.sound_timer, 3);
    assert_eq!(timers.time_since_update, 4_000_000);
    timers.update(6_000_000);
    // exactly one tick is not yet more than one tick
    assert_eq!(timers.delay_timer, 5);
    assert_eq!(timers.time_since_update, TICK_NANOS);
}

#[test]
fn timers_count_down_once_per_update() {
    let mut timers = Timers { delay_timer: 5, sound_timer: 1, time_since_update: 4_000_000 };
    timers.update(7_000_000);
    assert_eq!(timers.delay_timer, 4);
    assert_eq!(timers.sound_timer, 0);
    assert_eq!(timers.time_since_update, 1_000_000);
    // a long pause still counts only one tick
    timers.update(1_000_000_000);
    assert_eq!(timers.delay_timer, 3);
    assert_eq!(timers.sound_timer, 0);
    assert_eq!(timers.time_since_update, 1_000_000 + 1_000_000_000 - TICK_NANOS);
}

#[test]
fn timers_stop_at_zero() {
    let mut timers = Timers { delay_timer: 0, sound_timer: 0, time_since_update: 0 };
    timers.update(20_000_000);
    assert_eq!(timers.delay_timer, 0);
    assert_eq!(timers.sound_timer, 0);
    assert_eq!(timers.time_since_update, 10_000_000);
}

#[test]
fn timers_accept_the_longest_duration() {
    let mut timers = Timers { delay_timer: 2, sound_timer: 2, time_since_update: 0 };
    timers.update(MAX_ELAPSED_NANOS);
    assert_eq!(timers.delay_timer, 1);
    assert_eq!(timers.time_since_update, MAX_ELAPSED_NANOS - TICK_NANOS);
    assert_eq!(MAX_ELAPSED_NANOS, std::time::Duration::MAX.as_nanos());
}

#[test]
fn timers_drop_at_most_once_per_full_tick_over_many_updates() {
    let mut timers = Timers { delay_timer: 100, sound_timer: 100, time_since_update: 0 };
    let steps: [u128; 6] = [3_000_000, 12_000_000, 1_000_000, 25_000_000, 4_000_000, 9_000_000];
    let total: u128 = steps.iter().sum();
    for d in steps {
        timers.update(d);
    }
    let drop = (100 - timers.delay_timer) as u128;
    assert!(drop <= total / TICK_NANOS);
    assert_eq!(drop * TICK_NANOS + timers.time_since_update, total);
    assert_eq!(drop, 4);
}
