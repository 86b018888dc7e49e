use chip8::display::DisplayCommand;
use chip8::input::Button;
use chip8::instruction::{parse_opcode, Instruction, Register};
use chip8::machine::{Chip8, InstructionResult, KeyWait};

#[test]
fn new_machine_is_at_rest() {
    let c8 = Chip8::new(&[0x12, 0x34]);
    assert_eq!(c8.registers.pc, 0x200);
    assert_eq!(c8.registers.r, [0u8; 16]);
    assert_eq!(c8.registers.vi, 0);
    assert!(c8.registers.stack.is_empty());
    assert_eq!(c8.memory.0[0x200], 0x12);
    assert_eq!(c8.memory.0[0x201], 0x34);
    assert_eq!(c8.memory.0[0x202], 0);
    assert_eq!(c8.frame_buffer, [false; 2048]);
    assert_eq!(c8.status, KeyWait::Idle);
    assert!(c8.controller.keys_to_buttons().is_empty());
}

#[test]
fn clear_then_jump_to_self() {
    let mut c8 = Chip8::new(&[0x00, 0xE0, 0x12, 0x02]);
    c8.frame_buffer[5] = true;
    assert_eq!(c8.cycle(), Ok(InstructionResult::Display(DisplayCommand::ClearDisplay)));
    assert_eq!(c8.frame_buffer, [false; 2048]);
    assert_eq!(c8.registers.pc, 0x202);
    for _ in 0..1000 {
        assert_eq!(c8.cycle(), Ok(InstructionResult::Success));
        assert_eq!(c8.registers.pc, 0x202);
        assert_eq!(c8.frame_buffer, [false; 2048]);
    }
}

#[test]
fn clear_then_jump_to_start() {
    let mut c8 = Chip8::new(&[0x00, 0xE0, 0x12, 0x00]);
    assert_eq!(c8.cycle(), Ok(InstructionResult::Display(DisplayCommand::ClearDisplay)));
    for _ in 0..500 {
        assert_eq!(c8.cycle(), Ok(InstructionResult::Success));
        assert_eq!(c8.registers.pc, 0x200);
        assert_eq!(c8.frame_buffer, [false; 2048]);
        assert_eq!(c8.cycle(), Ok(InstructionResult::Display(DisplayCommand::ClearDisplay)));
        assert_eq!(c8.registers.pc, 0x202);
        assert_eq!(c8.frame_buffer, [false; 2048]);
    }
}

#[test]
fn load_then_add_immediate() {
    let mut c8 = Chip8::new(&[0x60, 0x05, 0x70, 0x03]);
    c8.registers.r[15] = 0x77;
    assert_eq!(c8.cycle(), Ok(InstructionResult::Success));
    assert_eq!(c8.cycle(), Ok(InstructionResult::Success));
    assert_eq!(c8.registers.r[0], 8);
    assert_eq!(c8.registers.r[15], 0x77);
    assert_eq!(c8.registers.pc, 0x204);
}

#[test]
fn add_registers_with_carry() {
    let mut c8 = Chip8::new(&[0x80, 0x14]);
    c8.registers.r[0] = 250;
    c8.registers.r[1] = 10;
    assert_eq!(c8.cycle(), Ok(InstructionResult::Success));
    assert_eq!(c8.registers.r[0], 4);
    assert_eq!(c8.registers.r[1], 10);
    assert_eq!(c8.registers.r[15], 1);
}

#[test]
fn add_immediate_wraps_without_flag() {
    let mut c8 = Chip8::new(&[]);
    c8.registers.r[2] = 0xFF;
    c8.registers.r[15] = 0;
    c8.run_instruction(Instruction::Add(Register::V2, 2)).unwrap();
    assert_eq!(c8.registers.r[2], 1);
    assert_eq!(c8.registers.r[15], 0);
}

#[test]
fn add_registers_sets_carry_exactly_on_overflow() {
    for a in 0..=255u8 {
        for b in 0..=255u8 {
            let mut c8 = Chip8::new(&[]);
            c8.registers.r[3] = a;
            c8.registers.r[4] = b;
            c8.registers.r[15] = 9;
            c8.execute(Instruction::AddRegisters(Register::V3, Register::V4), 0).unwrap();
            assert_eq!(c8.registers.r[3], a.wrapping_add(b));
            assert_eq!(c8.registers.r[15], if a as u16 + b as u16 > 255 { 1 } else { 0 });
        }
    }
}

#[test]
fn sub_sets_flag_when_nothing_is_borrowed() {
    for (a, b, d, f) in [(10u8, 3u8, 7u8, 1u8), (3, 10, 249, 0), (5, 5, 0, 1), (0, 255, 1, 0)] {
        let mut c8 = Chip8::new(&[]);
        c8.registers.r[0] = a;
        c8.registers.r[1] = b;
        c8.run_instruction(Instruction::Sub(Register::V0, Register::V1)).unwrap();
        assert_eq!(c8.registers.r[0], d);
        assert_eq!(c8.registers.r[15], f);
    }
}

#[test]
fn sub_borrow_subtracts_the_other_way() {
    for (a, b, d, f) in [(3u8, 10u8, 7u8, 1u8), (10, 3, 249, 0), (5, 5, 0, 1)] {
        let mut c8 = Chip8::new(&[]);
        c8.registers.r[0] = a;
        c8.registers.r[1] = b;
        c8.run_instruction(Instruction::SubBorrow(Register::V0, Register::V1)).unwrap();
        assert_eq!(c8.registers.r[0], d);
        assert_eq!(c8.registers.r[15], f);
    }
}

#[test]
fn shifts_carry_out_the_lost_bit() {
    for b in 0..=255u8 {
        let mut c8 = Chip8::new(&[]);
        c8.registers.r[1] = b;
        c8.run_instruction(Instruction::ShiftRight(Register::V0, Register::V1)).unwrap();
        assert_eq!(c8.registers.r[0], b >> 1);
        assert_eq!(c8.registers.r[15], b & 1);
        c8.run_instruction(Instruction::ShiftLeft(Register::V2, Register::V1)).unwrap();
        assert_eq!(c8.registers.r[2], b << 1);
        assert_eq!(c8.registers.r[15], b >> 7);
        assert_eq!(c8.registers.r[1], b);
    }
}

#[test]
fn flag_overwrites_a_result_in_vf() {
    let mut c8 = Chip8::new(&[]);
    c8.registers.r[15] = 200;
    c8.registers.r[1] = 100;
    c8.run_instruction(Instruction::AddRegisters(Register::VF, Register::V1)).unwrap();
    assert_eq!(c8.registers.r[15], 1);
    c8.registers.r[15] = 7;
    c8.registers.r[1] = 3;
    c8.run_instruction(Instruction::Sub(Register::VF, Register::V1)).unwrap();
    assert_eq!(c8.registers.r[15], 1);
    c8.registers.r[1] = 0x81;
    c8.run_instruction(Instruction::ShiftRight(Register::VF, Register::V1)).unwrap();
    assert_eq!(c8.registers.r[15], 1);
}

#[test]
fn logic_instructions() {
    let mut c8 = Chip8::new(&[]);
    c8.registers.r[0] = 0b1100;
    c8.registers.r[1] = 0b1010;
    c8.run_instruction(Instruction::Or(Register::V0, Register::V1)).unwrap();
    assert_eq!(c8.registers.r[0], 0b1110);
    c8.run_instruction(Instruction::And(Register::V0, Register::V1)).unwrap();
    assert_eq!(c8.registers.r[0], 0b1010);
    c8.registers.r[0] = 0b1100;
    c8.run_instruction(Instruction::Xor(Register::V0, Register::V1)).unwrap();
    assert_eq!(c8.registers.r[0], 0b0110);
    c8.run_instruction(Instruction::LoadIntoRegister(Register::V5, Register::V1)).unwrap();
    assert_eq!(c8.registers.r[5], 0b1010);
    assert_eq!(c8.registers.pc, 0x200 + 8);
}

#[test]
fn skips_move_by_one_or_two() {
    let mut c8 = Chip8::new(&[]);
    c8.registers.r[0] = 7;
    c8.registers.r[1] = 7;
    c8.registers.r[2] = 8;
    c8.run_instruction(Instruction::SkipIf(Register::V0, 7)).unwrap();
    assert_eq!(c8.registers.pc, 0x204);
    c8.run_instruction(Instruction::SkipIf(Register::V0, 8)).unwrap();
    assert_eq!(c8.registers.pc, 0x206);
    c8.run_instruction(Instruction::SkipIfNot(Register::V0, 8)).unwrap();
    assert_eq!(c8.registers.pc, 0x20A);
    c8.run_instruction(Instruction::SkipIfNot(Register::V0, 7)).unwrap();
    assert_eq!(c8.registers.pc, 0x20C);
    c8.run_instruction(Instruction::SkipIfRegistersEqual(Register::V0, Register::V1)).unwrap();
    assert_eq!(c8.registers.pc, 0x210);
    c8.run_instruction(Instruction::SkipIfRegistersEqual(Register::V0, Register::V2)).unwrap();
    assert_eq!(c8.registers.pc, 0x212);
    c8.run_instruction(Instruction::SkipIfNotEqual(Register::V0, Register::V2)).unwrap();
    assert_eq!(c8.registers.pc, 0x216);
    c8.run_instruction(Instruction::SkipIfNotEqual(Register::V0, Register::V1)).unwrap();
    assert_eq!(c8.registers.pc, 0x218);
}

#[test]
fn jumps_set_the_program_counter() {
    let mut c8 = Chip8::new(&[]);
    c8.run_instruction(Instruction::JumpTo(0x345)).unwrap();
    assert_eq!(c8.registers.pc, 0x345);
    c8.registers.r[0] = 0x10;
    c8.run_instruction(Instruction::JumpV0(0x400)).unwrap();
    assert_eq!(c8.registers.pc, 0x410);
}

#[test]
fn call_then_return_comes_back_behind_the_call() {
    let mut c8 = Chip8::new(&[]);
    c8.registers.pc = 0x300;
    assert_eq!(c8.run_instruction(Instruction::Call(0x456)), Ok(InstructionResult::Success));
    assert_eq!(c8.registers.pc, 0x456);
    assert_eq!(c8.registers.stack, vec![0x302]);
    assert_eq!(
        c8.run_instruction(Instruction::ReturnFromSubRoutine),
        Ok(InstructionResult::Success)
    );
    assert_eq!(c8.registers.pc, 0x302);
    assert!(c8.registers.stack.is_empty());
}

#[test]
fn nested_calls_return_in_reverse() {
    let mut c8 = Chip8::new(&[]);
    c8.run_instruction(Instruction::Call(0x300)).unwrap();
    c8.run_instruction(Instruction::Call(0x400)).unwrap();
    assert_eq!(c8.registers.stack, vec![0x202, 0x302]);
    c8.run_instruction(Instruction::ReturnFromSubRoutine).unwrap();
    assert_eq!(c8.registers.pc, 0x302);
    c8.run_instruction(Instruction::ReturnFromSubRoutine).unwrap();
    assert_eq!(c8.registers.pc, 0x202);
}

#[test]
fn stack_grows_past_sixteen() {
    let mut c8 = Chip8::new(&[]);
    for _ in 0..40 {
        c8.run_instruction(Instruction::Call(0x300)).unwrap();
    }
    assert_eq!(c8.registers.stack.len(), 40);
}

#[test]
fn return_on_empty_stack_is_a_fault() {
    let mut c8 = Chip8::new(&[]);
    c8.registers.r[4] = 4;
    assert_eq!(c8.run_instruction(Instruction::ReturnFromSubRoutine), Err(()));
    assert_eq!(c8.registers.pc, 0x200);
    assert_eq!(c8.registers.r[4], 4);
    assert!(c8.registers.stack.is_empty());
}

#[test]
fn nop_moves_on() {
    let mut c8 = Chip8::new(&[0x00, 0x00]);
    assert_eq!(c8.cycle(), Ok(InstructionResult::Success));
    assert_eq!(c8.registers.pc, 0x202);
    assert_eq!(c8.run_instruction(Instruction::Nop), Ok(InstructionResult::Success));
    assert_eq!(c8.registers.pc, 0x204);
}

#[test]
fn program_counter_wraps() {
    let mut c8 = Chip8::new(&[]);
    c8.registers.pc = 0xFFFF;
    c8.run_instruction(Instruction::Nop).unwrap();
    assert_eq!(c8.registers.pc, 0x0001);
    c8.registers.pc = 0xFFFE;
    c8.increment_pc(2);
    assert_eq!(c8.registers.pc, 0x0002);
}

#[test]
fn fetch_reads_the_high_byte_first_and_wraps() {
    let mut c8 = Chip8::new(&[0xAB, 0xCD]);
    assert_eq!(c8.fetch(), 0xABCD);
    c8.memory.0[0xFFF] = 0x12;
    c8.memory.0[0x000] = 0x34;
    c8.registers.pc = 0x0FFF;
    assert_eq!(c8.fetch(), 0x1234);
    c8.registers.pc = 0x1200;
    assert_eq!(c8.fetch(), 0xABCD);
}

#[test]
fn index_register_instructions() {
    let mut c8 = Chip8::new(&[]);
    c8.run_instruction(Instruction::LoadIntoI(0x321)).unwrap();
    assert_eq!(c8.registers.vi, 0x321);
    c8.registers.r[6] = 0x10;
    c8.run_instruction(Instruction::AddToI(Register::V6)).unwrap();
    assert_eq!(c8.registers.vi, 0x331);
    c8.registers.vi = 0xFFFF;
    c8.run_instruction(Instruction::AddToI(Register::V6)).unwrap();
    assert_eq!(c8.registers.vi, 0x000F);
    c8.registers.r[6] = 0xA;
    c8.run_instruction(Instruction::LoadSpriteToI(Register::V6)).unwrap();
    assert_eq!(c8.registers.vi, 50);
    c8.registers.r[6] = 0xFF;
    c8.run_instruction(Instruction::LoadSpriteToI(Register::V6)).unwrap();
    assert_eq!(c8.registers.vi, 1275);
}

#[test]
fn timer_instructions() {
    let mut c8 = Chip8::new(&[]);
    c8.registers.r[1] = 3;
    c8.run_instruction(Instruction::LoadToDelay(Register::V1)).unwrap();
    c8.run_instruction(Instruction::LoadToSound(Register::V1)).unwrap();
    assert_eq!((c8.registers.delay, c8.registers.sound), (3, 3));
    c8.tick();
    c8.run_instruction(Instruction::LoadFromDelay(Register::V2)).unwrap();
    assert_eq!(c8.registers.r[2], 2);
    for _ in 0..5 {
        c8.tick();
    }
    assert_eq!((c8.registers.delay, c8.registers.sound), (0, 0));
    assert_eq!(c8.registers.pc, 0x206);
}

#[test]
fn bcd_writes_three_digits() {
    for x in 0..=255u8 {
        let mut c8 = Chip8::new(&[]);
        c8.registers.vi = 0x400;
        c8.registers.r[9] = x;
        c8.run_instruction(Instruction::LoadBcd(Register::V9)).unwrap();
        assert_eq!(c8.memory.0[0x400], x / 100);
        assert_eq!(c8.memory.0[0x401], (x / 10) % 10);
        assert_eq!(c8.memory.0[0x402], x % 10);
        assert_eq!(c8.memory.0[0x3FF], 0);
        assert_eq!(c8.memory.0[0x403], 0);
        assert_eq!(c8.registers.vi, 0x400);
    }
}

#[test]
fn bcd_of_two_hundred_thirty_four() {
    let mut c8 = Chip8::new(&[]);
    c8.registers.vi = 0x300;
    c8.registers.r[0] = 234;
    c8.run_instruction(Instruction::LoadBcd(Register::V0)).unwrap();
    assert_eq!(&c8.memory.0[0x300..0x303], &[2, 3, 4]);
}

#[test]
fn bcd_wraps_at_the_end_of_memory() {
    let mut c8 = Chip8::new(&[]);
    c8.registers.vi = 0x0FFF;
    c8.registers.r[0] = 123;
    c8.run_instruction(Instruction::LoadBcd(Register::V0)).unwrap();
    assert_eq!(c8.memory.0[0xFFF], 1);
    assert_eq!(c8.memory.0[0x000], 2);
    assert_eq!(c8.memory.0[0x001], 3);
}

#[test]
fn store_copies_registers_up_to_x() {
    let mut c8 = Chip8::new(&[]);
    for k in 0..16 {
        c8.registers.r[k] = 0x10 + k as u8;
    }
    c8.registers.vi = 0x500;
    c8.run_instruction(Instruction::LoadToMemory(Register::V3)).unwrap();
    assert_eq!(&c8.memory.0[0x500..0x505], &[0x10, 0x11, 0x12, 0x13, 0]);
    assert_eq!(c8.registers.vi, 0x500);
    c8.run_instruction(Instruction::LoadToMemory(Register::VF)).unwrap();
    assert_eq!(c8.memory.0[0x50F], 0x1F);
    assert_eq!(c8.memory.0[0x510], 0);
    c8.registers.vi = 0x600;
    c8.run_instruction(Instruction::LoadToMemory(Register::V0)).unwrap();
    assert_eq!(&c8.memory.0[0x600..0x602], &[0x10, 0]);
}

#[test]
fn load_copies_memory_up_to_x() {
    let mut c8 = Chip8::new(&[1, 2, 3, 4, 5]);
    c8.registers.vi = 0x200;
    c8.registers.r[3] = 0x99;
    c8.run_instruction(Instruction::LoadFromMemory(Register::V2)).unwrap();
    assert_eq!(&c8.registers.r[0..4], &[1, 2, 3, 0x99]);
    assert_eq!(c8.registers.vi, 0x200);
    assert_eq!(c8.registers.pc, 0x202);
}

#[test]
fn block_copies_wrap_at_the_end_of_memory() {
    let mut c8 = Chip8::new(&[]);
    c8.registers.r[0] = 1;
    c8.registers.r[1] = 2;
    c8.registers.r[2] = 3;
    c8.registers.vi = 0x0FFE;
    c8.run_instruction(Instruction::LoadToMemory(Register::V2)).unwrap();
    assert_eq!(c8.memory.0[0xFFE], 1);
    assert_eq!(c8.memory.0[0xFFF], 2);
    assert_eq!(c8.memory.0[0x000], 3);
    c8.registers.r = [0; 16];
    c8.run_instruction(Instruction::LoadFromMemory(Register::V2)).unwrap();
    assert_eq!(&c8.registers.r[0..3], &[1, 2, 3]);
}

#[test]
fn random_is_masked() {
    let mut c8 = Chip8::new(&[]);
    for _ in 0..200 {
        c8.registers.r[0] = 0xFF;
        c8.run_instruction(Instruction::Random(Register::V0, 0x0F)).unwrap();
        assert!(c8.registers.r[0] <= 0x0F);
        c8.run_instruction(Instruction::Random(Register::V0, 0x00)).unwrap();
        assert_eq!(c8.registers.r[0], 0);
    }
    assert_eq!(c8.registers.pc, 0x200 + 800);
}

#[test]
fn random_draws_differ() {
    let mut c8 = Chip8::new(&[]);
    let mut seen = [false; 256];
    for _ in 0..400 {
        c8.run_instruction(Instruction::Random(Register::V0, 0xFF)).unwrap();
        seen[c8.registers.r[0] as usize] = true;
    }
    assert!(seen.iter().filter(|s| **s).count() > 16);
}

#[test]
fn execute_takes_the_random_byte_as_given() {
    let mut c8 = Chip8::new(&[]);
    c8.execute(Instruction::Random(Register::V1, 0x3C), 0xA5).unwrap();
    assert_eq!(c8.registers.r[1], 0x24);
    c8.execute(Instruction::LoadInto(Register::V1, 7), 0xA5).unwrap();
    assert_eq!(c8.registers.r[1], 7);
}

#[test]
fn draw_reads_the_sprite_at_i() {
    let mut c8 = Chip8::new(&[0xF0, 0x90, 0x90, 0x90, 0xF0]);
    c8.registers.vi = 0x200;
    c8.registers.r[0] = 2;
    c8.registers.r[1] = 1;
    let r = c8.run_instruction(Instruction::Draw(Register::V0, Register::V1, 5)).unwrap();
    let mut expected = [false; 2048];
    for (row, bits) in [0xF0u8, 0x90, 0x90, 0x90, 0xF0].iter().enumerate() {
        for col in 0..8 {
            if (bits >> (7 - col)) & 1 == 1 {
                expected[(1 + row) * 64 + 2 + col] = true;
            }
        }
    }
    assert_eq!(c8.frame_buffer, expected);
    assert_eq!(r, InstructionResult::Display(DisplayCommand::Draw(expected)));
    assert_eq!(c8.registers.r[15], 0);
    assert_eq!(c8.registers.pc, 0x202);
}

#[test]
fn draw_twice_clears_and_collides() {
    let mut c8 = Chip8::new(&[0xFF, 0x81, 0xFF]);
    c8.registers.vi = 0x200;
    c8.registers.r[0] = 62;
    c8.registers.r[1] = 31;
    c8.run_instruction(Instruction::Draw(Register::V0, Register::V1, 3)).unwrap();
    assert_eq!(c8.registers.r[15], 0);
    assert_eq!(c8.frame_buffer.iter().filter(|c| **c).count(), 8 + 2 + 8);
    let r = c8.run_instruction(Instruction::Draw(Register::V0, Register::V1, 3)).unwrap();
    assert_eq!(c8.registers.r[15], 1);
    assert_eq!(c8.frame_buffer, [false; 2048]);
    assert_eq!(r, InstructionResult::Display(DisplayCommand::Draw([false; 2048])));
}

#[test]
fn draw_of_no_rows_changes_nothing() {
    let mut c8 = Chip8::new(&[0xFF]);
    c8.registers.vi = 0x200;
    c8.registers.r[15] = 1;
    c8.frame_buffer[0] = true;
    let r = c8.run_instruction(Instruction::Draw(Register::V0, Register::V0, 0)).unwrap();
    assert_eq!(c8.registers.r[15], 0);
    assert!(c8.frame_buffer[0]);
    assert_eq!(r, InstructionResult::Display(DisplayCommand::Draw(c8.frame_buffer)));
}

#[test]
fn draw_height_is_four_bits() {
    let mut a = Chip8::new(&[0x80, 0x80, 0x80]);
    let mut b = Chip8::new(&[0x80, 0x80, 0x80]);
    a.registers.vi = 0x200;
    b.registers.vi = 0x200;
    a.run_instruction(Instruction::Draw(Register::V0, Register::V0, 0x12)).unwrap();
    b.run_instruction(Instruction::Draw(Register::V0, Register::V0, 0x02)).unwrap();
    assert_eq!(a.frame_buffer, b.frame_buffer);
}

#[test]
fn draw_reads_coordinates_before_it_writes_the_flag() {
    let mut c8 = Chip8::new(&[0x80]);
    c8.registers.vi = 0x200;
    c8.registers.r[15] = 3;
    c8.run_instruction(Instruction::Draw(Register::VF, Register::VF, 1)).unwrap();
    assert!(c8.frame_buffer[3 * 64 + 3]);
    assert_eq!(c8.registers.r[15], 0);
}

#[test]
fn key_tests_skip_on_the_pressed_set() {
    let mut c8 = Chip8::new(&[]);
    c8.controller.0.on_press(Button::B7);
    c8.registers.r[0] = 7;
    c8.registers.r[1] = 8;
    c8.run_instruction(Instruction::SkipIfPressed(Register::V0)).unwrap();
    assert_eq!(c8.registers.pc, 0x204);
    c8.run_instruction(Instruction::SkipIfPressed(Register::V1)).unwrap();
    assert_eq!(c8.registers.pc, 0x206);
    c8.run_instruction(Instruction::SkipIfNotPressed(Register::V0)).unwrap();
    assert_eq!(c8.registers.pc, 0x208);
    c8.run_instruction(Instruction::SkipIfNotPressed(Register::V1)).unwrap();
    assert_eq!(c8.registers.pc, 0x20C);
}

#[test]
fn key_tests_with_a_value_that_names_no_key() {
    let mut c8 = Chip8::new(&[]);
    c8.controller.0.on_press(Button::B7);
    c8.registers.r[0] = 0x17;
    c8.run_instruction(Instruction::SkipIfPressed(Register::V0)).unwrap();
    assert_eq!(c8.registers.pc, 0x202);
    c8.run_instruction(Instruction::SkipIfNotPressed(Register::V0)).unwrap();
    assert_eq!(c8.registers.pc, 0x206);
}

#[test]
fn wait_for_key_blocks_until_a_release() {
    let mut c8 = Chip8::new(&[0xF3, 0x0A]);
    c8.controller.0.on_release(Button::B2);
    for _ in 0..50 {
        assert_eq!(c8.cycle(), Ok(InstructionResult::Waiting));
        assert_eq!(c8.registers.pc, 0x200);
        assert_eq!(c8.status, KeyWait::Waiting(Register::V3));
        assert_eq!(c8.registers.r[3], 0);
    }
    c8.controller.0.on_press(Button::BB);
    assert_eq!(c8.cycle(), Ok(InstructionResult::Waiting));
    c8.controller.0.on_release(Button::BB);
    assert_eq!(c8.cycle(), Ok(InstructionResult::Success));
    assert_eq!(c8.registers.r[3], 0xB);
    assert_eq!(c8.registers.pc, 0x202);
    assert_eq!(c8.status, KeyWait::Idle);
    assert_eq!(c8.controller.0.last_released, None);
}

#[test]
fn wait_for_key_resolves_on_the_first_cycle_after_the_release() {
    for blocked in [0usize, 1, 7] {
        let mut c8 = Chip8::new(&[]);
        let wait = Instruction::WaitForKey(Register::VA);
        assert_eq!(c8.run_instruction(wait), Ok(InstructionResult::Waiting));
        for _ in 0..blocked {
            assert_eq!(c8.run_instruction(wait), Ok(InstructionResult::Waiting));
        }
        c8.controller.0.on_release(Button::B9);
        assert_eq!(c8.run_instruction(wait), Ok(InstructionResult::Success));
        assert_eq!(c8.registers.r[10], 9);
    }
}

#[test]
fn a_second_wait_begins_anew() {
    let mut c8 = Chip8::new(&[]);
    let wait = Instruction::WaitForKey(Register::V0);
    c8.run_instruction(wait).unwrap();
    c8.controller.0.on_release(Button::B1);
    assert_eq!(c8.run_instruction(wait), Ok(InstructionResult::Success));
    assert_eq!(c8.run_instruction(wait), Ok(InstructionResult::Waiting));
    assert_eq!(c8.run_instruction(wait), Ok(InstructionResult::Waiting));
    c8.controller.0.on_release(Button::B4);
    assert_eq!(c8.run_instruction(wait), Ok(InstructionResult::Success));
    assert_eq!(c8.registers.r[0], 4);
    assert_eq!(c8.registers.pc, 0x204);
}

#[test]
fn another_instruction_ends_a_wait() {
    let mut c8 = Chip8::new(&[]);
    c8.run_instruction(Instruction::WaitForKey(Register::V0)).unwrap();
    assert_eq!(c8.status, KeyWait::Waiting(Register::V0));
    c8.run_instruction(Instruction::Nop).unwrap();
    assert_eq!(c8.status, KeyWait::Idle);
    c8.controller.0.on_release(Button::B1);
    assert_eq!(
        c8.run_instruction(Instruction::WaitForKey(Register::V0)),
        Ok(InstructionResult::Waiting)
    );
    assert_eq!(c8.controller.0.last_released, None);
}

#[test]
fn a_wait_for_another_register_begins_anew() {
    let mut c8 = Chip8::new(&[]);
    c8.run_instruction(Instruction::WaitForKey(Register::V0)).unwrap();
    c8.controller.0.on_release(Button::B1);
    assert_eq!(
        c8.run_instruction(Instruction::WaitForKey(Register::V1)),
        Ok(InstructionResult::Waiting)
    );
    assert_eq!(c8.status, KeyWait::Waiting(Register::V1));
    assert_eq!(c8.registers.r[0], 0);
    assert_eq!(c8.registers.r[1], 0);
}

#[test]
fn a_small_program_counts_to_three() {
    // V0 = 0; loop: V0 += 1; skip if V0 == 3; jump loop; jump to self
    let rom = [0x60, 0x00, 0x70, 0x01, 0x30, 0x03, 0x12, 0x02, 0x12, 0x08];
    let mut c8 = Chip8::new(&rom);
    for _ in 0..20 {
        c8.cycle().unwrap();
    }
    assert_eq!(c8.registers.r[0], 3);
    assert_eq!(c8.registers.pc, 0x208);
    assert_eq!(parse_opcode(c8.fetch()), Instruction::JumpTo(0x208));
}
