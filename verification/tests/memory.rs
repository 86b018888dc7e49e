use chip8::memory::{Ram, Registers};

#[test]
fn registers_start_at_rest() {
    let r = Registers::default();
    assert_eq!(r.r, [0u8; 16]);
    assert_eq!(r.vi, 0);
    assert_eq!(r.delay, 0);
    assert_eq!(r.sound, 0);
    assert_eq!(r.pc, 0x200);
    assert!(r.stack.is_empty());
}

#[test]
fn timers_count_down_to_zero_and_stay() {
    let mut r = Registers::default();
    r.delay = 2;
    r.sound = 1;
    r.tick();
    assert_eq!((r.delay, r.sound), (1, 0));
    r.tick();
    assert_eq!((r.delay, r.sound), (0, 0));
    r.tick();
    assert_eq!((r.delay, r.sound), (0, 0));
}

#[test]
fn tick_leaves_the_other_registers() {
    let mut r = Registers::default();
    r.r[3] = 9;
    r.vi = 0x123;
    r.pc = 0x456;
    r.stack.push(0x300);
    r.delay = 200;
    r.tick();
    assert_eq!(r.r[3], 9);
    assert_eq!(r.vi, 0x123);
    assert_eq!(r.pc, 0x456);
    assert_eq!(r.stack, vec![0x300]);
    assert_eq!(r.delay, 199);
}

#[test]
fn default_ram_is_zeroed() {
    let ram = Ram::default();
    assert!(ram.0.iter().all(|b| *b == 0));
}

#[test]
fn init_loads_at_program_start() {
    let ram = Ram::init(&[0xAA, 0xBB, 0xCC]);
    assert_eq!(ram.0[0x1FF], 0);
    assert_eq!(ram.0[0x200], 0xAA);
    assert_eq!(ram.0[0x201], 0xBB);
    assert_eq!(ram.0[0x202], 0xCC);
    assert_eq!(ram.0[0x203], 0);
}

#[test]
fn load_keeps_what_it_does_not_overwrite() {
    let mut ram = Ram::default();
    ram.0[0x10] = 7;
    ram.0[0x200] = 1;
    ram.0[0x201] = 2;
    ram.0[0x202] = 3;
    ram.load(&[9, 8]);
    assert_eq!(ram.0[0x10], 7);
    assert_eq!(ram.0[0x200], 9);
    assert_eq!(ram.0[0x201], 8);
    assert_eq!(ram.0[0x202], 3);
}

#[test]
fn load_of_nothing_changes_nothing() {
    let mut ram = Ram::default();
    ram.0[0x200] = 5;
    ram.load(&[]);
    assert_eq!(ram.0[0x200], 5);
}

#[test]
fn load_fills_memory_to_the_last_address() {
    let rom = vec![0x5Au8; 4096 - 0x200];
    let mut ram = Ram::default();
    ram.load(&rom);
    assert_eq!(ram.0[0x200], 0x5A);
    assert_eq!(ram.0[0xFFF], 0x5A);
    assert_eq!(ram.0[0x1FF], 0);
}

#[test]
fn load_drops_what_does_not_fit() {
    let mut rom = vec![1u8; 5000];
    rom[4096 - 0x200 - 1] = 2;
    let mut ram = Ram::default();
    ram.load(&rom);
    assert_eq!(ram.0[0xFFF], 2);
    assert_eq!(ram.0[0x000], 0);
    assert_eq!(ram.0[0x1FF], 0);
}

#[test]
fn read_and_write_wrap_addresses() {
    let mut ram = Ram::default();
    ram.write(0x0FFF, 1);
    ram.write(0x1000, 2);
    ram.write(0xFFFF, 3);
    assert_eq!(ram.0[0xFFF], 3);
    assert_eq!(ram.0[0x000], 2);
    assert_eq!(ram.read(0x2000), 2);
    assert_eq!(ram.read(0x0FFF), 3);
    assert_eq!(ram.read(0x0001), 0);
}
