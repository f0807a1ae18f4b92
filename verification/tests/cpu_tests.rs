use chip8::cpu::Cpu;
use chip8::error::{ControlError, DecodeError, MemoryError, StepError};
use chip8::instr::Instruction;
use chip8::system::System;

#[test]
fn new_cpu_starts_at_program_base() {
    let c = Cpu::new();
    assert_eq!(c.pc(), 0x200);
    assert_eq!(c.index(), 0);
    assert_eq!(c.delay(), 0);
    assert_eq!(c.sound(), 0);
    assert_eq!(c.stack_depth(), 0);
    for r in 0..16 {
        assert_eq!(c.get_r(r), 0);
    }
}

#[test]
fn new_system_is_zeroed() {
    let s = System::new();
    assert_eq!(s.get_mem(0), 0);
    assert_eq!(s.get_mem(0xFFF), 0);
}

#[test]
fn add_reg_sets_carry_on_overflow() {
    let mut c = Cpu::new();
    c.set_r(1, 0xFF);
    c.set_r(2, 0x01);
    assert!(c.execute(Instruction::AddReg(1, 2)).is_ok());
    assert_eq!(c.get_r(1), 0x00);
    assert_eq!(c.get_r(15), 1);

    c.set_r(1, 0x01);
    c.set_r(2, 0x01);
    assert!(c.execute(Instruction::AddReg(1, 2)).is_ok());
    assert_eq!(c.get_r(1), 0x02);
    assert_eq!(c.get_r(15), 0);
}

#[test]
fn add_imm_wraps_and_leaves_flag_alone() {
    let mut c = Cpu::new();
    c.set_r(15, 9);
    c.set_r(1, 0xFF);
    assert!(c.execute(Instruction::AddImm(1, 0x02)).is_ok());
    assert_eq!(c.get_r(1), 0x01);
    assert_eq!(c.get_r(15), 9);
}

#[test]
fn sub_reports_not_borrow() {
    let mut c = Cpu::new();
    c.set_r(1, 0x05);
    c.set_r(2, 0x03);
    assert!(c.execute(Instruction::Sub(1, 2)).is_ok());
    assert_eq!(c.get_r(1), 0x02);
    assert_eq!(c.get_r(15), 1);

    c.set_r(1, 0x03);
    c.set_r(2, 0x05);
    assert!(c.execute(Instruction::Sub(1, 2)).is_ok());
    assert_eq!(c.get_r(1), 0xFE);
    assert_eq!(c.get_r(15), 0);
}

#[test]
fn sub_n_reverses_operands() {
    let mut c = Cpu::new();
    c.set_r(1, 0x03);
    c.set_r(2, 0x05);
    assert!(c.execute(Instruction::SubN(1, 2)).is_ok());
    assert_eq!(c.get_r(1), 0x02);
    assert_eq!(c.get_r(15), 1);

    c.set_r(1, 0x05);
    c.set_r(2, 0x03);
    assert!(c.execute(Instruction::SubN(1, 2)).is_ok());
    assert_eq!(c.get_r(1), 0xFE);
    assert_eq!(c.get_r(15), 0);
}

#[test]
fn shift_right_reports_dropped_bit() {
    let mut c = Cpu::new();
    c.set_r(0, 0x03);
    assert!(c.execute(Instruction::ShiftRight(0)).is_ok());
    assert_eq!(c.get_r(0), 0x01);
    assert_eq!(c.get_r(15), 1);

    c.set_r(0, 0x02);
    assert!(c.execute(Instruction::ShiftRight(0)).is_ok());
    assert_eq!(c.get_r(0), 0x01);
    assert_eq!(c.get_r(15), 0);
}

#[test]
fn shift_left_reports_dropped_bit() {
    let mut c = Cpu::new();
    c.set_r(0, 0x81);
    assert!(c.execute(Instruction::ShiftLeft(0)).is_ok());
    assert_eq!(c.get_r(0), 0x02);
    assert_eq!(c.get_r(15), 1);

    c.set_r(0, 0x41);
    assert!(c.execute(Instruction::ShiftLeft(0)).is_ok());
    assert_eq!(c.get_r(0), 0x82);
    assert_eq!(c.get_r(15), 0);
}

#[test]
fn bitwise_ops_combine_registers() {
    let mut c = Cpu::new();
    c.set_r(1, 0b1100);
    c.set_r(2, 0b1010);
    assert!(c.execute(Instruction::Or(1, 2)).is_ok());
    assert_eq!(c.get_r(1), 0b1110);
    c.set_r(1, 0b1100);
    assert!(c.execute(Instruction::And(1, 2)).is_ok());
    assert_eq!(c.get_r(1), 0b1000);
    c.set_r(1, 0b1100);
    assert!(c.execute(Instruction::Xor(1, 2)).is_ok());
    assert_eq!(c.get_r(1), 0b0110);
    assert!(c.execute(Instruction::LoadReg(1, 2)).is_ok());
    assert_eq!(c.get_r(1), 0b1010);
}

#[test]
fn call_then_return_restores_pc() {
    let mut c = Cpu::new();
    c.set_pc(0x202);
    assert!(c.execute(Instruction::Call(0x300)).is_ok());
    assert_eq!(c.pc(), 0x300);
    assert_eq!(c.stack_depth(), 1);
    assert!(c.execute(Instruction::Ret).is_ok());
    assert_eq!(c.pc(), 0x202);
    assert_eq!(c.stack_depth(), 0);
}

#[test]
fn seventeenth_call_overflows_the_stack() {
    let mut c = Cpu::new();
    for _ in 0..16 {
        assert!(c.execute(Instruction::Call(0x300)).is_ok());
    }
    assert_eq!(c.stack_depth(), 16);
    assert_eq!(
        c.execute(Instruction::Call(0x300)),
        Err(StepError::Control(ControlError::StackOverflow))
    );
    assert_eq!(c.stack_depth(), 16);
}

#[test]
fn return_on_empty_stack_underflows() {
    let mut c = Cpu::new();
    assert_eq!(
        c.execute(Instruction::Ret),
        Err(StepError::Control(ControlError::StackUnderflow))
    );
}

#[test]
fn jump_with_offset_adds_v0() {
    let mut c = Cpu::new();
    c.set_r(0, 0x10);
    assert!(c.execute(Instruction::JumpOffset(0x200)).is_ok());
    assert_eq!(c.pc(), 0x210);
}

#[test]
fn skips_compare_register_values() {
    let mut c = Cpu::new();
    c.set_r(1, 7);
    c.set_r(2, 7);
    c.set_pc(0x200);
    assert!(c.execute(Instruction::SkipEqImm(1, 7)).is_ok());
    assert_eq!(c.pc(), 0x202);
    assert!(c.execute(Instruction::SkipEqImm(1, 8)).is_ok());
    assert_eq!(c.pc(), 0x202);
    assert!(c.execute(Instruction::SkipNeImm(1, 8)).is_ok());
    assert_eq!(c.pc(), 0x204);
    assert!(c.execute(Instruction::SkipEqReg(1, 2)).is_ok());
    assert_eq!(c.pc(), 0x206);
    assert!(c.execute(Instruction::SkipNeReg(1, 2)).is_ok());
    assert_eq!(c.pc(), 0x206);
}

#[test]
fn draw_twice_clears_and_reports_collision() {
    let mut c = Cpu::new();
    c.set_index(0x300);
    c.write_mem(0x300, 0b1011_1111);
    c.write_mem(0x301, 0xFF);
    c.set_r(0, 4);
    c.set_r(1, 3);
    assert!(c.execute(Instruction::Draw(0, 1, 2)).is_ok());
    assert_eq!(c.get_r(15), 0);
    assert!(c.get_pixel(3 * 64 + 4));
    assert!(!c.get_pixel(3 * 64 + 5));
    assert!(c.get_pixel(4 * 64 + 4));
    assert!(c.execute(Instruction::Draw(0, 1, 2)).is_ok());
    assert_eq!(c.get_r(15), 1);
    for row in 0..2 {
        for bit in 0..8 {
            assert!(!c.get_pixel((3 + row) * 64 + 4 + bit));
        }
    }
}

#[test]
fn draw_clips_at_screen_edge() {
    let mut c = Cpu::new();
    c.set_index(0x300);
    c.write_mem(0x300, 0xFF);
    c.set_r(0, 60);
    c.set_r(1, 31);
    assert!(c.execute(Instruction::Draw(0, 0x1, 1)).is_ok());
    assert_eq!(c.get_r(15), 0);
    for col in 60..64 {
        assert!(c.get_pixel(31 * 64 + col));
    }
    // Nothing wrapped around to the left edge of the same row.
    for col in 0..4 {
        assert!(!c.get_pixel(31 * 64 + col));
    }
}

#[test]
fn draw_origin_wraps_modulo_screen_size() {
    let mut c = Cpu::new();
    c.set_index(0x300);
    c.write_mem(0x300, 0x80);
    c.set_r(0, 64);
    c.set_r(1, 32);
    assert!(c.execute(Instruction::Draw(0, 1, 1)).is_ok());
    assert!(c.get_pixel(0));
}

#[test]
fn draw_past_memory_end_is_out_of_bounds() {
    let mut c = Cpu::new();
    c.set_index(4090);
    assert_eq!(
        c.execute(Instruction::Draw(0, 1, 15)),
        Err(StepError::Memory(MemoryError::OutOfBounds(4090)))
    );
}

#[test]
fn clear_display_turns_every_pixel_off() {
    let mut c = Cpu::new();
    c.set_index(0x300);
    c.write_mem(0x300, 0xFF);
    assert!(c.execute(Instruction::Draw(0, 1, 1)).is_ok());
    assert!(c.get_pixel(0));
    assert!(c.execute(Instruction::Cls).is_ok());
    for p in 0..2048 {
        assert!(!c.get_pixel(p));
    }
}

#[test]
fn random_masks_with_zero_to_zero() {
    let mut c = Cpu::new();
    c.set_r(3, 0xAA);
    assert!(c.execute(Instruction::Random(3, 0x00)).is_ok());
    assert_eq!(c.get_r(3), 0);
    assert!(c.execute(Instruction::Random(3, 0x0F)).is_ok());
    assert_eq!(c.get_r(3) & 0xF0, 0);
}

#[test]
fn key_skips_follow_keypad_state() {
    let mut c = Cpu::new();
    c.set_key(7, true);
    c.set_r(2, 7);
    c.set_pc(0x200);
    assert!(c.execute(Instruction::SkipKey(2)).is_ok());
    assert_eq!(c.pc(), 0x202);
    assert!(c.execute(Instruction::SkipNoKey(2)).is_ok());
    assert_eq!(c.pc(), 0x202);
    c.set_key(7, false);
    assert!(c.execute(Instruction::SkipKey(2)).is_ok());
    assert_eq!(c.pc(), 0x202);
    assert!(c.execute(Instruction::SkipNoKey(2)).is_ok());
    assert_eq!(c.pc(), 0x204);
}

#[test]
fn wait_key_rewinds_until_a_key_is_down() {
    let mut c = Cpu::new();
    c.set_pc(0x204);
    assert!(c.execute(Instruction::WaitKey(0)).is_ok());
    assert_eq!(c.pc(), 0x202);
    assert!(c.execute(Instruction::WaitKey(0)).is_ok());
    assert_eq!(c.pc(), 0x200);
    c.set_key(9, true);
    assert!(c.execute(Instruction::WaitKey(0)).is_ok());
    assert_eq!(c.pc(), 0x200);
    assert_eq!(c.get_r(0), 9);
}

#[test]
fn timers_load_store_and_tick() {
    let mut c = Cpu::new();
    c.set_r(0, 2);
    assert!(c.execute(Instruction::SetDelay(0)).is_ok());
    assert!(c.execute(Instruction::SetSound(0)).is_ok());
    assert_eq!(c.delay(), 2);
    assert_eq!(c.sound(), 2);
    assert!(c.execute(Instruction::LoadDelay(5)).is_ok());
    assert_eq!(c.get_r(5), 2);
    c.tick_timers();
    assert_eq!(c.delay(), 1);
    assert_eq!(c.sound(), 1);
    c.tick_timers();
    c.tick_timers();
    assert_eq!(c.delay(), 0);
    assert_eq!(c.sound(), 0);
}

#[test]
fn add_index_wraps_at_sixteen_bits() {
    let mut c = Cpu::new();
    c.set_r(15, 7);
    c.set_index(0xFFFF);
    c.set_r(0, 2);
    assert!(c.execute(Instruction::AddIndex(0)).is_ok());
    assert_eq!(c.index(), 1);
    // The chosen policy: add-to-index never touches the carry flag.
    assert_eq!(c.get_r(15), 7);
}

#[test]
fn sprite_addr_points_at_five_byte_glyphs() {
    let mut c = Cpu::new();
    c.set_r(3, 0x2A);
    assert!(c.execute(Instruction::SpriteAddr(3)).is_ok());
    assert_eq!(c.index(), 5 * 0xA);
}

#[test]
fn bcd_store_writes_three_digits() {
    let mut c = Cpu::new();
    c.set_r(0, 254);
    c.set_index(0x400);
    assert!(c.execute(Instruction::BcdStore(0)).is_ok());
    assert_eq!(c.read_mem(0x400), 2);
    assert_eq!(c.read_mem(0x401), 5);
    assert_eq!(c.read_mem(0x402), 4);
}

#[test]
fn bcd_store_near_memory_end_is_out_of_bounds() {
    let mut c = Cpu::new();
    c.set_index(4094);
    assert_eq!(
        c.execute(Instruction::BcdStore(0)),
        Err(StepError::Memory(MemoryError::OutOfBounds(4094)))
    );
}

#[test]
fn reg_dump_and_load_round_trip() {
    let mut c = Cpu::new();
    for r in 0..4 {
        c.set_r(r, 10 + r);
    }
    c.set_index(0x450);
    assert!(c.execute(Instruction::RegDump(3)).is_ok());
    for r in 0..4u16 {
        assert_eq!(c.read_mem(0x450 + r as usize), 10 + r as u8);
    }
    assert_eq!(c.read_mem(0x454), 0);
    for r in 0..4 {
        c.set_r(r, 0);
    }
    assert!(c.execute(Instruction::RegLoad(3)).is_ok());
    for r in 0..4 {
        assert_eq!(c.get_r(r), 10 + r);
    }
    assert_eq!(c.get_r(4), 0);
}

#[test]
fn reg_dump_past_memory_end_is_out_of_bounds() {
    let mut c = Cpu::new();
    c.set_index(4093);
    assert_eq!(
        c.execute(Instruction::RegDump(3)),
        Err(StepError::Memory(MemoryError::OutOfBounds(4093)))
    );
}

#[test]
fn native_call_is_a_no_op() {
    let mut c = Cpu::new();
    assert!(c.execute(Instruction::Sys(0x123)).is_ok());
    assert_eq!(c.pc(), 0x200);
    assert_eq!(c.stack_depth(), 0);
}

#[test]
fn cycle_fetches_decodes_and_executes() {
    let mut c = Cpu::new();
    // 6105: V1 = 5; 7103: V1 += 3.
    c.write_mem(0x200, 0x61);
    c.write_mem(0x201, 0x05);
    c.write_mem(0x202, 0x71);
    c.write_mem(0x203, 0x03);
    assert!(c.cycle().is_ok());
    assert_eq!(c.get_r(1), 5);
    assert_eq!(c.pc(), 0x202);
    assert!(c.cycle().is_ok());
    assert_eq!(c.get_r(1), 8);
    assert_eq!(c.pc(), 0x204);
}

#[test]
fn cycle_surfaces_unknown_opcode_and_keeps_state() {
    let mut c = Cpu::new();
    c.write_mem(0x200, 0xFF);
    c.write_mem(0x201, 0xFF);
    assert_eq!(
        c.cycle(),
        Err(StepError::Decode(DecodeError::UnknownOpcode(0xFFFF)))
    );
    assert_eq!(c.pc(), 0x200);
}

#[test]
fn cycle_at_memory_end_is_out_of_bounds() {
    let mut c = Cpu::new();
    c.set_pc(0xFFF);
    assert_eq!(
        c.cycle(),
        Err(StepError::Memory(MemoryError::OutOfBounds(0xFFF)))
    );
    assert_eq!(c.pc(), 0xFFF);
}

#[test]
fn cycle_rolls_back_on_execute_error() {
    let mut c = Cpu::new();
    // 00EE: return, with an empty stack.
    c.write_mem(0x200, 0x00);
    c.write_mem(0x201, 0xEE);
    assert_eq!(
        c.cycle(),
        Err(StepError::Control(ControlError::StackUnderflow))
    );
    assert_eq!(c.pc(), 0x200);
}

#[test]
fn cycle_runs_a_call_and_return_program() {
    let mut c = Cpu::new();
    // 0x200: 2300 call 0x300; 0x300: 00EE ret.
    c.write_mem(0x200, 0x23);
    c.write_mem(0x201, 0x00);
    c.write_mem(0x300, 0x00);
    c.write_mem(0x301, 0xEE);
    assert!(c.cycle().is_ok());
    assert_eq!(c.pc(), 0x300);
    assert!(c.cycle().is_ok());
    assert_eq!(c.pc(), 0x202);
}
