//! Behaviour of the individual instruction forms, driven through the
//! public engine.
use chip8::Chip8Error;
use chip8::decode::{Instr, decode};
use chip8::input::InputSnapshot;
use chip8::machine::Chip8;

fn idle() -> InputSnapshot {
    InputSnapshot::idle()
}

#[test]
fn decode_recognizes_every_family() {
    assert_eq!(decode(0x00E0), Ok(Instr::Cls));
    assert_eq!(decode(0x00EE), Ok(Instr::Ret));
    assert_eq!(decode(0x1ABC), Ok(Instr::Jump(0xABC)));
    assert_eq!(decode(0x2123), Ok(Instr::Call(0x123)));
    assert_eq!(decode(0x3A42), Ok(Instr::SkipEqImm(0xA, 0x42)));
    assert_eq!(decode(0x4A42), Ok(Instr::SkipNeImm(0xA, 0x42)));
    assert_eq!(decode(0x5AB0), Ok(Instr::SkipEqReg(0xA, 0xB)));
    assert_eq!(decode(0x6C77), Ok(Instr::LoadImm(0xC, 0x77)));
    assert_eq!(decode(0x7C77), Ok(Instr::AddImm(0xC, 0x77)));
    assert_eq!(decode(0x8AB0), Ok(Instr::CopyReg(0xA, 0xB)));
    assert_eq!(decode(0x8AB1), Ok(Instr::OrReg(0xA, 0xB)));
    assert_eq!(decode(0x8AB2), Ok(Instr::AndReg(0xA, 0xB)));
    assert_eq!(decode(0x8AB3), Ok(Instr::XorReg(0xA, 0xB)));
    assert_eq!(decode(0x8AB4), Ok(Instr::AddReg(0xA, 0xB)));
    assert_eq!(decode(0x8AB5), Ok(Instr::SubReg(0xA, 0xB)));
    assert_eq!(decode(0x8AB6), Ok(Instr::ShrReg(0xA)));
    assert_eq!(decode(0x8AB7), Ok(Instr::SubFrom(0xA, 0xB)));
    assert_eq!(decode(0x8ABE), Ok(Instr::ShlReg(0xA)));
    assert_eq!(decode(0x9AB0), Ok(Instr::SkipNeReg(0xA, 0xB)));
    assert_eq!(decode(0xA123), Ok(Instr::LoadI(0x123)));
    assert_eq!(decode(0xB123), Ok(Instr::JumpV0(0x123)));
    assert_eq!(decode(0xC5FF), Ok(Instr::Rand(0x5, 0xFF)));
    assert_eq!(decode(0xD125), Ok(Instr::Draw(0x1, 0x2, 0x5)));
    assert_eq!(decode(0xE39E), Ok(Instr::SkipKey(0x3)));
    assert_eq!(decode(0xE3A1), Ok(Instr::SkipNoKey(0x3)));
    assert_eq!(decode(0xF107), Ok(Instr::GetDelay(0x1)));
    assert_eq!(decode(0xF10A), Ok(Instr::WaitKey(0x1)));
    assert_eq!(decode(0xF115), Ok(Instr::SetDelay(0x1)));
    assert_eq!(decode(0xF118), Ok(Instr::SetSound(0x1)));
    assert_eq!(decode(0xF11E), Ok(Instr::AddI(0x1)));
    assert_eq!(decode(0xF129), Ok(Instr::FontAddr(0x1)));
    assert_eq!(decode(0xF133), Ok(Instr::Bcd(0x1)));
    assert_eq!(decode(0xF155), Ok(Instr::StoreRegs(0x1)));
    assert_eq!(decode(0xF165), Ok(Instr::LoadRegs(0x1)));
}

#[test]
fn decode_rejects_unknown_subforms() {
    assert_eq!(decode(0x00FF), Err(Chip8Error::IllegalOpcode(0x00FF)));
    assert_eq!(decode(0x8AB8), Err(Chip8Error::IllegalOpcode(0x8AB8)));
    assert_eq!(decode(0xE300), Err(Chip8Error::IllegalOpcode(0xE300)));
    assert_eq!(decode(0xF1FF), Err(Chip8Error::IllegalOpcode(0xF1FF)));
}

#[test]
fn jump_lands_exactly_on_target() {
    let mut m = Chip8::new();
    assert_eq!(m.execute(Instr::Jump(0x345), &idle(), 0), Ok(()));
    assert_eq!(m.pc, 0x345);
}

#[test]
fn jump_v0_adds_v0_to_target() {
    let mut m = Chip8::new();
    m.v[0] = 0x10;
    assert_eq!(m.execute(Instr::JumpV0(0x300), &idle(), 0), Ok(()));
    assert_eq!(m.pc, 0x310);
}

#[test]
fn call_lands_exactly_on_target_and_pushes() {
    let mut m = Chip8::new();
    m.pc = 0x202;
    assert_eq!(m.execute(Instr::Call(0x400), &idle(), 0), Ok(()));
    assert_eq!(m.pc, 0x400);
    assert_eq!(m.sp, 1);
    assert_eq!(m.stack[0], 0x202);
}

#[test]
fn call_then_ret_returns_to_instruction_after_call() {
    let mut m = Chip8::new();
    m.pc = 0x202;
    assert_eq!(m.execute(Instr::Call(0x400), &idle(), 0), Ok(()));
    assert_eq!(m.execute(Instr::Ret, &idle(), 0), Ok(()));
    assert_eq!(m.pc, 0x202);
    assert_eq!(m.sp, 0);
}

#[test]
fn sixteen_nested_calls_unwind_in_order() {
    let mut m = Chip8::new();
    m.pc = 0x200;
    let mut expected_returns: Vec<u16> = Vec::new();
    for k in 0..16u16 {
        expected_returns.push(m.pc);
        assert_eq!(m.execute(Instr::Call(0x300 + 2 * k), &idle(), 0), Ok(()));
        // Advance as a fetch would, so every frame is distinct.
        m.pc += 2;
    }
    for k in (0..16usize).rev() {
        assert_eq!(m.execute(Instr::Ret, &idle(), 0), Ok(()));
        assert_eq!(m.pc, expected_returns[k]);
    }
    assert_eq!(m.sp, 0);
}

#[test]
fn seventeenth_call_overwrites_oldest_frame() {
    let mut m = Chip8::new();
    m.pc = 0x200;
    for _ in 0..16 {
        assert_eq!(m.execute(Instr::Call(0x300), &idle(), 0), Ok(()));
        m.pc += 2;
    }
    assert_eq!(m.sp, 0);
    let first_slot_before = m.stack[0];
    m.pc = 0x0ABC;
    assert_eq!(m.execute(Instr::Call(0x300), &idle(), 0), Ok(()));
    assert_eq!(m.sp, 1);
    assert_ne!(m.stack[0], first_slot_before);
    assert_eq!(m.stack[0], 0x0ABC);
}

#[test]
fn skips_move_pc_by_two_only_when_condition_holds() {
    let mut m = Chip8::new();
    m.pc = 0x200;
    m.v[3] = 7;
    m.v[4] = 7;
    assert_eq!(m.execute(Instr::SkipEqImm(3, 7), &idle(), 0), Ok(()));
    assert_eq!(m.pc, 0x202);
    assert_eq!(m.execute(Instr::SkipEqImm(3, 8), &idle(), 0), Ok(()));
    assert_eq!(m.pc, 0x202);
    assert_eq!(m.execute(Instr::SkipNeImm(3, 8), &idle(), 0), Ok(()));
    assert_eq!(m.pc, 0x204);
    assert_eq!(m.execute(Instr::SkipEqReg(3, 4), &idle(), 0), Ok(()));
    assert_eq!(m.pc, 0x206);
    assert_eq!(m.execute(Instr::SkipNeReg(3, 4), &idle(), 0), Ok(()));
    assert_eq!(m.pc, 0x206);
}

#[test]
fn add_immediate_wraps_without_carry_flag() {
    let mut m = Chip8::new();
    m.v[2] = 0xFF;
    m.v[15] = 0xAA;
    assert_eq!(m.execute(Instr::AddImm(2, 3), &idle(), 0), Ok(()));
    assert_eq!(m.v[2], 2);
    assert_eq!(m.v[15], 0xAA);
}

#[test]
fn alu_bitwise_forms() {
    let mut m = Chip8::new();
    m.v[1] = 0b1100;
    m.v[2] = 0b1010;
    assert_eq!(m.execute(Instr::OrReg(1, 2), &idle(), 0), Ok(()));
    assert_eq!(m.v[1], 0b1110);
    m.v[1] = 0b1100;
    assert_eq!(m.execute(Instr::AndReg(1, 2), &idle(), 0), Ok(()));
    assert_eq!(m.v[1], 0b1000);
    m.v[1] = 0b1100;
    assert_eq!(m.execute(Instr::XorReg(1, 2), &idle(), 0), Ok(()));
    assert_eq!(m.v[1], 0b0110);
    m.v[7] = 9;
    assert_eq!(m.execute(Instr::CopyReg(6, 7), &idle(), 0), Ok(()));
    assert_eq!(m.v[6], 9);
}

#[test]
fn add_reg_sets_carry_exactly_at_256() {
    let mut m = Chip8::new();
    m.v[1] = 200;
    m.v[2] = 55;
    assert_eq!(m.execute(Instr::AddReg(1, 2), &idle(), 0), Ok(()));
    assert_eq!(m.v[1], 255);
    assert_eq!(m.v[15], 0);
    m.v[1] = 200;
    m.v[2] = 56;
    assert_eq!(m.execute(Instr::AddReg(1, 2), &idle(), 0), Ok(()));
    assert_eq!(m.v[1], 0);
    assert_eq!(m.v[15], 1);
    m.v[1] = 200;
    m.v[2] = 100;
    assert_eq!(m.execute(Instr::AddReg(1, 2), &idle(), 0), Ok(()));
    assert_eq!(m.v[1], 44);
    assert_eq!(m.v[15], 1);
}

#[test]
fn sub_forms_follow_no_borrow_convention_consistently() {
    let mut m = Chip8::new();
    // Vx - Vy, no borrow: VF = 1.
    m.v[1] = 9;
    m.v[2] = 4;
    assert_eq!(m.execute(Instr::SubReg(1, 2), &idle(), 0), Ok(()));
    assert_eq!(m.v[1], 5);
    assert_eq!(m.v[15], 1);
    // Vx - Vy, borrow: VF = 0 and the result wraps.
    m.v[1] = 4;
    m.v[2] = 9;
    assert_eq!(m.execute(Instr::SubReg(1, 2), &idle(), 0), Ok(()));
    assert_eq!(m.v[1], 251);
    assert_eq!(m.v[15], 0);
    // Vy - Vx, no borrow: VF = 1.
    m.v[1] = 4;
    m.v[2] = 9;
    assert_eq!(m.execute(Instr::SubFrom(1, 2), &idle(), 0), Ok(()));
    assert_eq!(m.v[1], 5);
    assert_eq!(m.v[15], 1);
    // Vy - Vx, borrow: VF = 0.
    m.v[1] = 9;
    m.v[2] = 4;
    assert_eq!(m.execute(Instr::SubFrom(1, 2), &idle(), 0), Ok(()));
    assert_eq!(m.v[1], 251);
    assert_eq!(m.v[15], 0);
}

#[test]
fn shifts_capture_shifted_out_bit_in_vf() {
    let mut m = Chip8::new();
    m.v[4] = 0b1001_0011;
    assert_eq!(m.execute(Instr::ShrReg(4), &idle(), 0), Ok(()));
    assert_eq!(m.v[4], 0b0100_1001);
    assert_eq!(m.v[15], 1);
    m.v[4] = 0b1001_0010;
    assert_eq!(m.execute(Instr::ShlReg(4), &idle(), 0), Ok(()));
    assert_eq!(m.v[4], 0b0010_0100);
    assert_eq!(m.v[15], 1);
    m.v[4] = 0b0001_0010;
    assert_eq!(m.execute(Instr::ShlReg(4), &idle(), 0), Ok(()));
    assert_eq!(m.v[4], 0b0010_0100);
    assert_eq!(m.v[15], 0);
}

#[test]
fn rand_with_zero_mask_loads_zero_for_every_byte() {
    for rnd in [0u8, 1, 0x55, 0xAA, 0xFF] {
        let mut m = Chip8::new();
        m.v[5] = 0x77;
        assert_eq!(m.execute(Instr::Rand(5, 0), &idle(), rnd), Ok(()));
        assert_eq!(m.v[5], 0);
    }
}

#[test]
fn rand_masks_the_drawn_byte() {
    let mut m = Chip8::new();
    assert_eq!(m.execute(Instr::Rand(5, 0x0F), &idle(), 0xAB), Ok(()));
    assert_eq!(m.v[5], 0x0B);
}

#[test]
fn rand_through_cycle_with_zero_mask_is_zero() {
    // C500 at the load address: the mask wins whatever the generator drew.
    let mut m = Chip8::new();
    m.mem[0x200] = 0xC5;
    m.mem[0x201] = 0x00;
    m.v[5] = 0x99;
    assert_eq!(m.cycle(&idle()), Ok(()));
    assert_eq!(m.v[5], 0);
    assert_eq!(m.pc, 0x202);
}

#[test]
fn bcd_writes_decimal_digits() {
    let mut m = Chip8::new();
    m.i = 0x300;
    m.v[6] = 234;
    assert_eq!(m.execute(Instr::Bcd(6), &idle(), 0), Ok(()));
    assert_eq!(&m.mem[0x300..0x303], &[2, 3, 4]);
    m.v[6] = 7;
    assert_eq!(m.execute(Instr::Bcd(6), &idle(), 0), Ok(()));
    assert_eq!(&m.mem[0x300..0x303], &[0, 0, 7]);
}

#[test]
fn bcd_out_of_range_is_a_fault() {
    let mut m = Chip8::new();
    m.i = 4094;
    m.v[6] = 5;
    assert_eq!(
        m.execute(Instr::Bcd(6), &idle(), 0),
        Err(Chip8Error::MemoryAddressOutOfRange)
    );
}

#[test]
fn store_load_round_trip_restores_registers() {
    // The range is exclusive: x registers are stored, V0..V(x-1).
    let mut m = Chip8::new();
    m.i = 0x300;
    for k in 0..16 {
        m.v[k] = (k as u8) * 3 + 1;
    }
    let saved = m.v.clone();
    assert_eq!(m.execute(Instr::StoreRegs(15), &idle(), 0), Ok(()));
    for k in 0..16 {
        m.v[k] = 0;
    }
    assert_eq!(m.execute(Instr::LoadRegs(15), &idle(), 0), Ok(()));
    for k in 0..15 {
        assert_eq!(m.v[k], saved[k]);
    }
    // V15 lies outside the exclusive range and stays cleared.
    assert_eq!(m.v[15], 0);
}

#[test]
fn store_with_zero_count_writes_nothing() {
    let mut m = Chip8::new();
    m.i = 0x300;
    m.v[0] = 42;
    assert_eq!(m.execute(Instr::StoreRegs(0), &idle(), 0), Ok(()));
    assert_eq!(m.mem[0x300], 0);
}

#[test]
fn store_out_of_range_is_a_fault() {
    let mut m = Chip8::new();
    m.i = 4090;
    assert_eq!(
        m.execute(Instr::StoreRegs(8), &idle(), 0),
        Err(Chip8Error::MemoryAddressOutOfRange)
    );
    assert_eq!(
        m.execute(Instr::LoadRegs(8), &idle(), 0),
        Err(Chip8Error::MemoryAddressOutOfRange)
    );
}

#[test]
fn add_i_wraps_at_sixteen_bits() {
    let mut m = Chip8::new();
    m.i = 0xFFFF;
    m.v[3] = 2;
    assert_eq!(m.execute(Instr::AddI(3), &idle(), 0), Ok(()));
    assert_eq!(m.i, 1);
}

#[test]
fn timers_load_and_read_back() {
    let mut m = Chip8::new();
    m.v[2] = 77;
    assert_eq!(m.execute(Instr::SetDelay(2), &idle(), 0), Ok(()));
    assert_eq!(m.delay_timer, 77);
    assert_eq!(m.execute(Instr::SetSound(2), &idle(), 0), Ok(()));
    assert_eq!(m.sound_timer, 77);
    m.delay_timer = 9;
    assert_eq!(m.execute(Instr::GetDelay(4), &idle(), 0), Ok(()));
    assert_eq!(m.v[4], 9);
}

#[test]
fn key_skips_read_the_snapshot() {
    let mut m = Chip8::new();
    m.pc = 0x200;
    m.v[1] = 0xB;
    let mut inp = InputSnapshot::idle();
    inp.held[0xB] = true;
    assert_eq!(m.execute(Instr::SkipKey(1), &inp, 0), Ok(()));
    assert_eq!(m.pc, 0x202);
    assert_eq!(m.execute(Instr::SkipNoKey(1), &inp, 0), Ok(()));
    assert_eq!(m.pc, 0x202);
    inp.released[0xB] = true;
    assert_eq!(m.execute(Instr::SkipNoKey(1), &inp, 0), Ok(()));
    assert_eq!(m.pc, 0x204);
}

#[test]
fn wait_key_rewinds_until_a_key_is_held() {
    let mut m = Chip8::new();
    m.pc = 0x204;
    assert_eq!(m.execute(Instr::WaitKey(2), &idle(), 0), Ok(()));
    assert_eq!(m.pc, 0x202);
    let mut inp = InputSnapshot::idle();
    inp.held[0x7] = true;
    inp.held[0xC] = true;
    assert_eq!(m.execute(Instr::WaitKey(2), &inp, 0), Ok(()));
    assert_eq!(m.pc, 0x202);
    assert_eq!(m.v[2], 0x7);
}

#[test]
fn illegal_word_through_cycle_reports_the_raw_word() {
    let mut m = Chip8::new();
    m.mem[0x200] = 0x8A;
    m.mem[0x201] = 0xB9;
    assert_eq!(m.cycle_with(&idle(), 0), Err(Chip8Error::IllegalOpcode(0x8AB9)));
    assert_eq!(m.pc, 0x200);
}

#[test]
fn fetch_past_memory_end_is_a_fault() {
    let mut m = Chip8::new();
    m.pc = 4095;
    assert_eq!(
        m.cycle_with(&idle(), 0),
        Err(Chip8Error::MemoryAddressOutOfRange)
    );
    assert_eq!(m.pc, 4095);
}
