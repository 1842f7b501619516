use chip8::{Chip8Error, Cpu, Effect, FrameBuffer, Instruction, KeyMatrix, Memory};

fn fresh() -> (Cpu, Memory, FrameBuffer, KeyMatrix) {
    (Cpu::new(), Memory::new(), FrameBuffer::new(), KeyMatrix::new())
}

fn load(cpu: &mut Cpu, mem: &mut Memory, fb: &mut FrameBuffer, km: &KeyMatrix, vx: u8, byte: u8) {
    let r = cpu.execute(Instruction::LdByte { vx, byte }, mem, fb, km);
    assert_eq!(r, Ok(Effect::Proceed));
}

#[test]
fn add_with_carry_wraps_and_sets_vf() {
    let (mut cpu, mut mem, mut fb, km) = fresh();
    load(&mut cpu, &mut mem, &mut fb, &km, 1, 0xFF);
    load(&mut cpu, &mut mem, &mut fb, &km, 2, 0x01);
    let r = cpu.execute(Instruction::AddRegCarry { vx: 1, vy: 2 }, &mut mem, &mut fb, &km);
    assert_eq!(r, Ok(Effect::Proceed));
    assert_eq!(cpu.get_reg(1), 0x00);
    assert_eq!(cpu.get_reg(15), 1);
}

#[test]
fn add_without_overflow_clears_vf() {
    let (mut cpu, mut mem, mut fb, km) = fresh();
    load(&mut cpu, &mut mem, &mut fb, &km, 1, 0x10);
    load(&mut cpu, &mut mem, &mut fb, &km, 2, 0x20);
    load(&mut cpu, &mut mem, &mut fb, &km, 15, 1);
    let r = cpu.execute(Instruction::AddRegCarry { vx: 1, vy: 2 }, &mut mem, &mut fb, &km);
    assert_eq!(r, Ok(Effect::Proceed));
    assert_eq!(cpu.get_reg(1), 0x30);
    assert_eq!(cpu.get_reg(15), 0);
}

#[test]
fn sub_without_borrow_sets_vf() {
    let (mut cpu, mut mem, mut fb, km) = fresh();
    load(&mut cpu, &mut mem, &mut fb, &km, 3, 0x05);
    load(&mut cpu, &mut mem, &mut fb, &km, 4, 0x01);
    let r = cpu.execute(Instruction::SubReg { vx: 3, vy: 4 }, &mut mem, &mut fb, &km);
    assert_eq!(r, Ok(Effect::Proceed));
    assert_eq!(cpu.get_reg(3), 0x04);
    assert_eq!(cpu.get_reg(15), 1);
}

#[test]
fn sub_with_borrow_wraps_and_clears_vf() {
    let (mut cpu, mut mem, mut fb, km) = fresh();
    load(&mut cpu, &mut mem, &mut fb, &km, 3, 0x01);
    load(&mut cpu, &mut mem, &mut fb, &km, 4, 0x05);
    let r = cpu.execute(Instruction::SubReg { vx: 3, vy: 4 }, &mut mem, &mut fb, &km);
    assert_eq!(r, Ok(Effect::Proceed));
    assert_eq!(cpu.get_reg(3), 0xFC);
    assert_eq!(cpu.get_reg(15), 0);
}

#[test]
fn reverse_sub_uses_swapped_operands() {
    let (mut cpu, mut mem, mut fb, km) = fresh();
    load(&mut cpu, &mut mem, &mut fb, &km, 3, 0x01);
    load(&mut cpu, &mut mem, &mut fb, &km, 4, 0x05);
    let r = cpu.execute(Instruction::SubNReg { vx: 3, vy: 4 }, &mut mem, &mut fb, &km);
    assert_eq!(r, Ok(Effect::Proceed));
    assert_eq!(cpu.get_reg(3), 0x04);
    assert_eq!(cpu.get_reg(15), 1);
}

#[test]
fn shifts_report_the_shifted_out_bit() {
    let (mut cpu, mut mem, mut fb, km) = fresh();
    load(&mut cpu, &mut mem, &mut fb, &km, 1, 0b1000_0101);
    let r = cpu.execute(Instruction::Shr { vx: 1 }, &mut mem, &mut fb, &km);
    assert_eq!(r, Ok(Effect::Proceed));
    assert_eq!(cpu.get_reg(1), 0b0100_0010);
    assert_eq!(cpu.get_reg(15), 1);

    load(&mut cpu, &mut mem, &mut fb, &km, 2, 0b1000_0101);
    let r = cpu.execute(Instruction::Shl { vx: 2 }, &mut mem, &mut fb, &km);
    assert_eq!(r, Ok(Effect::Proceed));
    assert_eq!(cpu.get_reg(2), 0b0000_1010);
    assert_eq!(cpu.get_reg(15), 1);

    load(&mut cpu, &mut mem, &mut fb, &km, 3, 0b0100_0010);
    let r = cpu.execute(Instruction::Shl { vx: 3 }, &mut mem, &mut fb, &km);
    assert_eq!(r, Ok(Effect::Proceed));
    assert_eq!(cpu.get_reg(3), 0b1000_0100);
    assert_eq!(cpu.get_reg(15), 0);
}

#[test]
fn logic_ops() {
    let (mut cpu, mut mem, mut fb, km) = fresh();
    load(&mut cpu, &mut mem, &mut fb, &km, 1, 0b1100);
    load(&mut cpu, &mut mem, &mut fb, &km, 2, 0b1010);
    let _ = cpu.execute(Instruction::OrReg { vx: 1, vy: 2 }, &mut mem, &mut fb, &km);
    assert_eq!(cpu.get_reg(1), 0b1110);
    load(&mut cpu, &mut mem, &mut fb, &km, 1, 0b1100);
    let _ = cpu.execute(Instruction::AndReg { vx: 1, vy: 2 }, &mut mem, &mut fb, &km);
    assert_eq!(cpu.get_reg(1), 0b1000);
    load(&mut cpu, &mut mem, &mut fb, &km, 1, 0b1100);
    let _ = cpu.execute(Instruction::XorReg { vx: 1, vy: 2 }, &mut mem, &mut fb, &km);
    assert_eq!(cpu.get_reg(1), 0b0110);
}

#[test]
fn add_byte_wraps_without_touching_vf() {
    let (mut cpu, mut mem, mut fb, km) = fresh();
    load(&mut cpu, &mut mem, &mut fb, &km, 1, 0xFE);
    let r = cpu.execute(Instruction::AddByte { vx: 1, byte: 0x05 }, &mut mem, &mut fb, &km);
    assert_eq!(r, Ok(Effect::Proceed));
    assert_eq!(cpu.get_reg(1), 0x03);
    assert_eq!(cpu.get_reg(15), 0);
}

#[test]
fn skips_advance_pc_by_two() {
    let (mut cpu, mut mem, mut fb, km) = fresh();
    let pc = cpu.get_pc();
    load(&mut cpu, &mut mem, &mut fb, &km, 1, 0x42);
    let _ = cpu.execute(Instruction::SeByte { vx: 1, byte: 0x42 }, &mut mem, &mut fb, &km);
    assert_eq!(cpu.get_pc(), pc + 2);
    let _ = cpu.execute(Instruction::SeByte { vx: 1, byte: 0x43 }, &mut mem, &mut fb, &km);
    assert_eq!(cpu.get_pc(), pc + 2);
    let _ = cpu.execute(Instruction::SneByte { vx: 1, byte: 0x43 }, &mut mem, &mut fb, &km);
    assert_eq!(cpu.get_pc(), pc + 4);
}

#[test]
fn sixteen_calls_succeed_seventeenth_overflows() {
    let (mut cpu, mut mem, mut fb, km) = fresh();
    for k in 0..16 {
        let r = cpu.execute(
            Instruction::Call { addr: 0x300 + k as u16 },
            &mut mem,
            &mut fb,
            &km,
        );
        assert_eq!(r, Ok(Effect::Proceed));
    }
    assert_eq!(cpu.get_sp(), 16);
    let r = cpu.execute(Instruction::Call { addr: 0x400 }, &mut mem, &mut fb, &km);
    assert_eq!(r, Err(Chip8Error::StackOverflow));
    assert_eq!(cpu.get_sp(), 16);
}

#[test]
fn return_on_empty_stack_underflows() {
    let (mut cpu, mut mem, mut fb, km) = fresh();
    let r = cpu.execute(Instruction::Ret, &mut mem, &mut fb, &km);
    assert_eq!(r, Err(Chip8Error::StackUnderflow));
}

#[test]
fn call_then_return_restores_pc() {
    let (mut cpu, mut mem, mut fb, km) = fresh();
    let pc_before = cpu.get_pc();
    let r = cpu.execute(Instruction::Call { addr: 0x345 }, &mut mem, &mut fb, &km);
    assert_eq!(r, Ok(Effect::Proceed));
    assert_eq!(cpu.get_pc(), 0x345);
    let r = cpu.execute(Instruction::Ret, &mut mem, &mut fb, &km);
    assert_eq!(r, Ok(Effect::Proceed));
    assert_eq!(cpu.get_pc(), pc_before);
    assert_eq!(cpu.get_sp(), 0);
}

#[test]
fn store_bcd_writes_three_digits() {
    let (mut cpu, mut mem, mut fb, km) = fresh();
    load(&mut cpu, &mut mem, &mut fb, &km, 7, 234);
    let _ = cpu.execute(Instruction::LdI { addr: 0x400 }, &mut mem, &mut fb, &km);
    let r = cpu.execute(Instruction::StoreBcd { vx: 7 }, &mut mem, &mut fb, &km);
    assert_eq!(r, Ok(Effect::Proceed));
    assert_eq!(mem.get(0x400), 2);
    assert_eq!(mem.get(0x401), 3);
    assert_eq!(mem.get(0x402), 4);
}

#[test]
fn store_and_read_round_trip_registers() {
    let (mut cpu, mut mem, mut fb, km) = fresh();
    load(&mut cpu, &mut mem, &mut fb, &km, 0, 0x11);
    load(&mut cpu, &mut mem, &mut fb, &km, 1, 0x22);
    load(&mut cpu, &mut mem, &mut fb, &km, 2, 0x33);
    let _ = cpu.execute(Instruction::LdI { addr: 0x500 }, &mut mem, &mut fb, &km);
    let r = cpu.execute(Instruction::Store { vx: 2 }, &mut mem, &mut fb, &km);
    assert_eq!(r, Ok(Effect::Proceed));
    assert_eq!(mem.get(0x500), 0x11);
    assert_eq!(mem.get(0x501), 0x22);
    assert_eq!(mem.get(0x502), 0x33);

    load(&mut cpu, &mut mem, &mut fb, &km, 0, 0);
    load(&mut cpu, &mut mem, &mut fb, &km, 1, 0);
    load(&mut cpu, &mut mem, &mut fb, &km, 2, 0);
    let r = cpu.execute(Instruction::Read { vx: 2 }, &mut mem, &mut fb, &km);
    assert_eq!(r, Ok(Effect::Proceed));
    assert_eq!(cpu.get_reg(0), 0x11);
    assert_eq!(cpu.get_reg(1), 0x22);
    assert_eq!(cpu.get_reg(2), 0x33);
}

#[test]
fn store_past_end_of_memory_faults() {
    let (mut cpu, mut mem, mut fb, km) = fresh();
    let _ = cpu.execute(Instruction::LdI { addr: 0xFFE }, &mut mem, &mut fb, &km);
    let r = cpu.execute(Instruction::Store { vx: 3 }, &mut mem, &mut fb, &km);
    assert_eq!(r, Err(Chip8Error::OutOfBoundsAccess));
}

#[test]
fn read_past_end_of_memory_faults() {
    let (mut cpu, mut mem, mut fb, km) = fresh();
    let _ = cpu.execute(Instruction::LdI { addr: 0xFFE }, &mut mem, &mut fb, &km);
    let r = cpu.execute(Instruction::Read { vx: 5 }, &mut mem, &mut fb, &km);
    assert_eq!(r, Err(Chip8Error::OutOfBoundsAccess));
}

#[test]
fn bcd_near_end_of_memory_faults() {
    let (mut cpu, mut mem, mut fb, km) = fresh();
    let _ = cpu.execute(Instruction::LdI { addr: 0xFFE }, &mut mem, &mut fb, &km);
    let r = cpu.execute(Instruction::StoreBcd { vx: 0 }, &mut mem, &mut fb, &km);
    assert_eq!(r, Err(Chip8Error::OutOfBoundsAccess));
}

#[test]
fn font_load_points_i_at_the_glyph() {
    let (mut cpu, mut mem, mut fb, km) = fresh();
    load(&mut cpu, &mut mem, &mut fb, &km, 2, 0xA);
    let r = cpu.execute(Instruction::LdFont { vx: 2 }, &mut mem, &mut fb, &km);
    assert_eq!(r, Ok(Effect::Proceed));
    assert_eq!(cpu.get_i(), 0x050 + 0xA * 5);
}

#[test]
fn timers_load_and_report() {
    let (mut cpu, mut mem, mut fb, km) = fresh();
    load(&mut cpu, &mut mem, &mut fb, &km, 1, 42);
    let _ = cpu.execute(Instruction::LdDt { vx: 1 }, &mut mem, &mut fb, &km);
    let _ = cpu.execute(Instruction::LdSt { vx: 1 }, &mut mem, &mut fb, &km);
    assert_eq!(cpu.get_dt(), 42);
    assert_eq!(cpu.get_st(), 42);
    let _ = cpu.execute(Instruction::LdRegDt { vx: 9 }, &mut mem, &mut fb, &km);
    assert_eq!(cpu.get_reg(9), 42);
}

#[test]
fn timer_tick_decays_to_zero_and_never_below() {
    let (mut cpu, mut mem, mut fb, km) = fresh();
    load(&mut cpu, &mut mem, &mut fb, &km, 1, 255);
    let _ = cpu.execute(Instruction::LdDt { vx: 1 }, &mut mem, &mut fb, &km);
    let mut previous: u8 = cpu.get_dt();
    for _ in 0..60 {
        cpu.tick_60hz();
        assert!(cpu.get_dt() <= previous);
        previous = cpu.get_dt();
    }
    assert_eq!(cpu.get_dt(), 195);
    for _ in 0..300 {
        cpu.tick_60hz();
    }
    assert_eq!(cpu.get_dt(), 0);
    cpu.tick_60hz();
    assert_eq!(cpu.get_dt(), 0);
}

#[test]
fn random_masks_every_draw() {
    let (mut cpu, mut mem, mut fb, km) = fresh();
    for _ in 0..100 {
        let r = cpu.execute(Instruction::Rnd { vx: 1, byte: 0x0F }, &mut mem, &mut fb, &km);
        assert_eq!(r, Ok(Effect::Proceed));
        assert!(cpu.get_reg(1) <= 0x0F);
    }
    for _ in 0..100 {
        let r = cpu.execute(Instruction::Rnd { vx: 1, byte: 0x00 }, &mut mem, &mut fb, &km);
        assert_eq!(r, Ok(Effect::Proceed));
        assert_eq!(cpu.get_reg(1), 0);
    }
}

#[test]
fn skp_and_sknp_follow_key_state() {
    let (mut cpu, mut mem, mut fb, mut km) = fresh();
    km.press(chip8::Chip8Key::K5);
    load(&mut cpu, &mut mem, &mut fb, &km, 0, 5);
    let pc = cpu.get_pc();
    let _ = cpu.execute(Instruction::Skp { vx: 0 }, &mut mem, &mut fb, &km);
    assert_eq!(cpu.get_pc(), pc + 2);
    let _ = cpu.execute(Instruction::Sknp { vx: 0 }, &mut mem, &mut fb, &km);
    assert_eq!(cpu.get_pc(), pc + 2);
    km.release(chip8::Chip8Key::K5);
    let _ = cpu.execute(Instruction::Skp { vx: 0 }, &mut mem, &mut fb, &km);
    assert_eq!(cpu.get_pc(), pc + 2);
    let _ = cpu.execute(Instruction::Sknp { vx: 0 }, &mut mem, &mut fb, &km);
    assert_eq!(cpu.get_pc(), pc + 4);
}

#[test]
fn draw_sets_pixels_clips_and_flags_collisions() {
    let (mut cpu, mut mem, mut fb, km) = fresh();
    assert_eq!(mem.write(0x600, 0xFF), Ok(()));
    assert_eq!(mem.write(0x601, 0xFF), Ok(()));
    assert_eq!(mem.write(0x602, 0xFF), Ok(()));
    assert_eq!(mem.write(0x603, 0xFF), Ok(()));
    let _ = cpu.execute(Instruction::LdI { addr: 0x600 }, &mut mem, &mut fb, &km);
    load(&mut cpu, &mut mem, &mut fb, &km, 0, 60);
    load(&mut cpu, &mut mem, &mut fb, &km, 1, 30);
    let r = cpu.execute(Instruction::Drw { vx: 0, vy: 1, nibble: 4 }, &mut mem, &mut fb, &km);
    assert_eq!(r, Ok(Effect::Drew));
    assert_eq!(cpu.get_reg(15), 0);
    let pixels = fb.get_ref();
    // Columns 60..64 of rows 30 and 31 are on; the sprite is clipped at both
    // edges, so nothing else changed.
    let mut on: usize = 0;
    for p in 0..pixels.len() {
        if pixels[p] {
            on += 1;
            let row = p / 64;
            let col = p % 64;
            assert!((30..32).contains(&row));
            assert!((60..64).contains(&col));
        }
    }
    assert_eq!(on, 8);

    // Drawing the same sprite again erases those pixels and flags VF.
    let r = cpu.execute(Instruction::Drw { vx: 0, vy: 1, nibble: 4 }, &mut mem, &mut fb, &km);
    assert_eq!(r, Ok(Effect::Drew));
    assert_eq!(cpu.get_reg(15), 1);
    let pixels = fb.get_ref();
    for p in 0..pixels.len() {
        assert!(!pixels[p]);
    }
}

#[test]
fn draw_with_sprite_past_end_of_memory_faults() {
    let (mut cpu, mut mem, mut fb, km) = fresh();
    let _ = cpu.execute(Instruction::LdI { addr: 0xFFE }, &mut mem, &mut fb, &km);
    let r = cpu.execute(Instruction::Drw { vx: 0, vy: 1, nibble: 4 }, &mut mem, &mut fb, &km);
    assert_eq!(r, Err(Chip8Error::OutOfBoundsAccess));
}

#[test]
fn clear_screen_zeroes_every_cell_and_reports_one_redraw() {
    let (mut cpu, mut mem, mut fb, km) = fresh();
    assert_eq!(mem.write(0x600, 0xFF), Ok(()));
    let _ = cpu.execute(Instruction::LdI { addr: 0x600 }, &mut mem, &mut fb, &km);
    let _ = cpu.execute(Instruction::Drw { vx: 0, vy: 1, nibble: 1 }, &mut mem, &mut fb, &km);
    assert!(fb.get_ref().iter().any(|p| *p));
    let r = cpu.execute(Instruction::Cls, &mut mem, &mut fb, &km);
    assert_eq!(r, Ok(Effect::Drew));
    let pixels = fb.get_ref();
    assert_eq!(pixels.len(), 2048);
    for p in 0..pixels.len() {
        assert!(!pixels[p]);
    }
}

#[test]
fn jumps_and_index_register() {
    let (mut cpu, mut mem, mut fb, km) = fresh();
    let _ = cpu.execute(Instruction::Jp { addr: 0x234 }, &mut mem, &mut fb, &km);
    assert_eq!(cpu.get_pc(), 0x234);
    load(&mut cpu, &mut mem, &mut fb, &km, 0, 0x10);
    let _ = cpu.execute(Instruction::JpV0 { addr: 0x300 }, &mut mem, &mut fb, &km);
    assert_eq!(cpu.get_pc(), 0x310);
    let _ = cpu.execute(Instruction::LdI { addr: 0x123 }, &mut mem, &mut fb, &km);
    assert_eq!(cpu.get_i(), 0x123);
    load(&mut cpu, &mut mem, &mut fb, &km, 3, 0x10);
    let _ = cpu.execute(Instruction::AddI { vx: 3 }, &mut mem, &mut fb, &km);
    assert_eq!(cpu.get_i(), 0x133);
}

#[test]
fn unknown_opcode_changes_nothing() {
    let (mut cpu, mut mem, mut fb, km) = fresh();
    let pc = cpu.get_pc();
    let r = cpu.execute(
        Instruction::Unknown { instruction: 0xFFFF },
        &mut mem,
        &mut fb,
        &km,
    );
    assert_eq!(r, Ok(Effect::Proceed));
    assert_eq!(cpu.get_pc(), pc);
    assert_eq!(cpu.get_sp(), 0);
}
