//! Scenario tests for the machine as a whole: construction, the loader,
//! timers, keypad, drawing, faults, and the laws' concrete instances.

use chip8::Chip8;
use chip8::Fault;
use chip8::Opcode;

#[test]
fn init_state() {
    let c = Chip8::init();
    assert_eq!(c.pc, 0x200);
    assert_eq!(c.I, 0);
    assert_eq!(c.sp, 0);
    assert_eq!(c.delay_timer, 0);
    assert_eq!(c.sound_timer, 0);
    assert_eq!(c.memory.len(), 4096);
    assert_eq!(c.v_register.len(), 16);
    assert_eq!(c.gfx.len(), 64 * 32);
    assert_eq!(c.key.len(), 16);
    assert!(c.gfx.iter().all(|p| *p == 0));
    assert!(c.v_register.iter().all(|v| *v == 0));
}

#[test]
fn init_font_loaded() {
    let c = Chip8::init();
    // glyph 0 starts the font block, glyph F ends it
    assert_eq!(&c.memory[0x50..0x55], &[0xf0, 0x90, 0x90, 0x90, 0xf0]);
    assert_eq!(&c.memory[0x9b..0xa0], &[0xf0, 0x80, 0xf0, 0x80, 0x80]);
    assert!(c.memory[..0x50].iter().all(|b| *b == 0));
    assert!(c.memory[0xa0..].iter().all(|b| *b == 0));
}

#[test]
fn load_rom_copies_at_0x200() {
    let mut c = Chip8::init();
    let rom = vec![0x12u8, 0x34, 0x56];
    assert_eq!(c.load_rom(&rom), Ok(()));
    assert_eq!(&c.memory[0x200..0x203], &[0x12, 0x34, 0x56]);
    assert_eq!(c.memory[0x203], 0);
}

#[test]
fn load_rom_rejects_oversize() {
    let mut c = Chip8::init();
    let rom = vec![0xabu8; 3585];
    assert_eq!(c.load_rom(&rom), Err(Fault::RomTooLarge));
    assert!(c.memory[0x200..].iter().all(|b| *b == 0));
    let exact = vec![0xcdu8; 3584];
    assert_eq!(c.load_rom(&exact), Ok(()));
    assert_eq!(c.memory[0xfff], 0xcd);
}

#[test]
fn fetch_reads_two_bytes_at_pc() {
    let mut c = Chip8::init();
    let rom = vec![0xa2u8, 0x1e];
    c.load_rom(&rom).unwrap();
    assert_eq!(c.fetch_opcode(), [0xa2, 0x1e]);
}

#[test]
fn timers_count_down_and_floor() {
    let mut c = Chip8::init();
    c.delay_timer = 2;
    c.sound_timer = 1;
    c.decrease_timers();
    assert_eq!((c.delay_timer, c.sound_timer), (1, 0));
    c.decrease_timers();
    assert_eq!((c.delay_timer, c.sound_timer), (0, 0));
    c.decrease_timers();
    assert_eq!((c.delay_timer, c.sound_timer), (0, 0));
}

#[test]
fn set_key_updates_snapshot() {
    let mut c = Chip8::init();
    c.set_key(0xb, true);
    assert!(c.key[0xb]);
    c.set_key(0xb, false);
    assert!(!c.key[0xb]);
}

#[test]
fn skip_instruction_advances_pc() {
    let mut c = Chip8::init();
    c.skip_instruction();
    assert_eq!(c.pc, 0x202);
}

#[test]
fn pc_wraps_at_top_of_address_space() {
    let mut c = Chip8::init();
    c.pc = 0xfffe;
    let _ = c.execute_opcode((Opcode::SYS, [0x01, 0x23]));
    assert_eq!(c.pc, 0x0000);
}

// Two immediate adds summing past 255 wrap modulo 256 and leave VF alone.
#[test]
fn add_immediate_twice_wraps_without_flag() {
    let mut c = Chip8::init();
    c.v_register[0xf] = 0x77;
    let _ = c.execute_opcode((Opcode::ADD_VB, [0x77, 0xff]));
    let _ = c.execute_opcode((Opcode::ADD_VB, [0x77, 0x25]));
    assert_eq!(c.v_register[7], 0x24);
    assert_eq!(c.v_register[0xf], 0x77);
}

// CALL then RET is a round trip: depth one in between, resumption just
// past the CALL.
#[test]
fn call_ret_round_trip() {
    let mut c = Chip8::init();
    c.pc = 0x44;
    assert_eq!(c.execute_opcode((Opcode::CALL, [0x22, 0x22])), Ok(()));
    assert_eq!(c.sp, 1);
    assert_eq!(c.stack[1], 0x44);
    assert_eq!(c.pc, 0x222);
    assert_eq!(c.execute_opcode((Opcode::RET, [0x00, 0xee])), Ok(()));
    assert_eq!(c.sp, 0);
    assert_eq!(c.pc, 0x46);
}

#[test]
fn call_faults_when_stack_full() {
    let mut c = Chip8::init();
    for _ in 0..16 {
        assert_eq!(c.execute_opcode((Opcode::CALL, [0x23, 0x00])), Ok(()));
    }
    assert_eq!(c.sp, 16);
    let pc_before = c.pc;
    assert_eq!(
        c.execute_opcode((Opcode::CALL, [0x23, 0x00])),
        Err(Fault::StackOverflow)
    );
    assert_eq!(c.sp, 16);
    assert_eq!(c.pc, pc_before);
}

#[test]
fn ret_faults_when_stack_empty() {
    let mut c = Chip8::init();
    assert_eq!(
        c.execute_opcode((Opcode::RET, [0x00, 0xee])),
        Err(Fault::StackUnderflow)
    );
    assert_eq!(c.pc, 0x200);
    assert_eq!(c.sp, 0);
}

// Drawing the same non-empty sprite twice at one origin: no collision on
// a blank framebuffer, a collision on the second draw, and every pixel
// toggled back off.
#[test]
fn draw_twice_toggles_off_and_collides() {
    let mut c = Chip8::init();
    // point I at the font glyph for 0, a non-empty 5-row sprite
    c.v_register[0] = 0x0;
    let _ = c.execute_opcode((Opcode::LD_FV, [0xf0, 0x29]));
    assert_eq!(c.I, 0x50);
    c.v_register[1] = 10;
    c.v_register[2] = 7;
    let _ = c.execute_opcode((Opcode::DRW, [0xd1, 0x25]));
    assert_eq!(c.v_register[0xf], 0);
    assert!(c.gfx.iter().any(|p| *p == 1));
    // top-left pixel of the glyph: bit 7 of 0xf0 at (10, 7)
    assert_eq!(c.gfx[7 * 64 + 10], 1);
    let _ = c.execute_opcode((Opcode::DRW, [0xd1, 0x25]));
    assert_eq!(c.v_register[0xf], 1);
    assert!(c.gfx.iter().all(|p| *p == 0));
}

#[test]
fn draw_wraps_around_edges() {
    let mut c = Chip8::init();
    c.v_register[0] = 0x0;
    let _ = c.execute_opcode((Opcode::LD_FV, [0xf0, 0x29]));
    c.v_register[1] = 62; // two columns before the right edge
    c.v_register[2] = 30; // two rows above the bottom edge
    let _ = c.execute_opcode((Opcode::DRW, [0xd1, 0x25]));
    // bit 7 of row 0 lands at (62, 30); bit 3 wraps to column 2; row 2
    // wraps to the top
    assert_eq!(c.gfx[30 * 64 + 62], 1);
    assert_eq!(c.gfx[30 * 64 + 2], 0);
    assert_eq!(c.gfx[0 * 64 + 62], 1);
}

#[test]
fn cls_clears_framebuffer() {
    let mut c = Chip8::init();
    let _ = c.execute_opcode((Opcode::LD_FV, [0xf0, 0x29]));
    let _ = c.execute_opcode((Opcode::DRW, [0xd1, 0x25]));
    assert!(c.gfx.iter().any(|p| *p == 1));
    let pc_before = c.pc;
    let _ = c.execute_opcode((Opcode::CLS, [0x00, 0xe0]));
    assert!(c.gfx.iter().all(|p| *p == 0));
    assert_eq!(c.pc, pc_before.wrapping_add(2));
}

// The skip instruction advances by 4 when equal and 2 otherwise, and
// moves nothing else.
#[test]
fn se_moves_only_the_pc() {
    let mut c = Chip8::init();
    c.v_register[3] = 0x10;
    let regs_before = c.v_register.clone();
    let _ = c.execute_opcode((Opcode::SE_VB, [0x33, 0x10]));
    assert_eq!(c.pc, 0x204);
    assert_eq!(c.v_register, regs_before);
    assert_eq!(c.sp, 0);
    assert_eq!(c.I, 0);
    let _ = c.execute_opcode((Opcode::SE_VB, [0x33, 0x11]));
    assert_eq!(c.pc, 0x206);
    assert_eq!(c.v_register, regs_before);
}

// The key-wait instruction re-executes without effect until a key is
// pressed, then records that key and moves on.
#[test]
fn key_wait_is_idempotent_until_pressed() {
    let mut c = Chip8::init();
    c.v_register[6] = 0x99;
    for _ in 0..3 {
        assert_eq!(c.execute_opcode((Opcode::LD_VK, [0xf6, 0x0a])), Ok(()));
        assert_eq!(c.pc, 0x200);
        assert_eq!(c.v_register[6], 0x99);
        assert_eq!(c.delay_timer, 0);
    }
    c.set_key(0xb, true);
    assert_eq!(c.execute_opcode((Opcode::LD_VK, [0xf6, 0x0a])), Ok(()));
    assert_eq!(c.pc, 0x202);
    assert_eq!(c.v_register[6], 0xb);
}

#[test]
fn key_wait_takes_highest_pressed_key() {
    let mut c = Chip8::init();
    c.set_key(0x2, true);
    c.set_key(0xd, true);
    let _ = c.execute_opcode((Opcode::LD_VK, [0xf6, 0x0a]));
    assert_eq!(c.v_register[6], 0xd);
}

// The random byte is masked: a zero mask forces zero, a nibble mask
// bounds the result.
#[test]
fn rnd_masks_the_random_byte() {
    let mut c = Chip8::init();
    c.v_register[2] = 0x77;
    let _ = c.execute_opcode((Opcode::RND, [0xc2, 0x00]));
    assert_eq!(c.v_register[2], 0);
    assert_eq!(c.pc, 0x202);
    for _ in 0..20 {
        let _ = c.execute_opcode((Opcode::RND, [0xc2, 0x0f]));
        assert!(c.v_register[2] < 16);
    }
}

#[test]
fn ld_vdt_and_ld_dtv_and_ld_stv() {
    let mut c = Chip8::init();
    c.delay_timer = 42;
    let _ = c.execute_opcode((Opcode::LD_VDT, [0xf3, 0x07]));
    assert_eq!(c.v_register[3], 42);
    c.v_register[4] = 99;
    let _ = c.execute_opcode((Opcode::LD_DTV, [0xf4, 0x15]));
    assert_eq!(c.delay_timer, 99);
    c.v_register[5] = 7;
    let _ = c.execute_opcode((Opcode::LD_STV, [0xf5, 0x18]));
    assert_eq!(c.sound_timer, 7);
}

#[test]
fn add_iv_wraps_modulo_memory_size() {
    let mut c = Chip8::init();
    let _ = c.execute_opcode((Opcode::LD_IA, [0xaf, 0xfa]));
    assert_eq!(c.I, 0xffa);
    c.v_register[1] = 10;
    let _ = c.execute_opcode((Opcode::ADD_IV, [0xf1, 0x1e]));
    assert_eq!(c.I, 4);
}

#[test]
fn ld_fv_points_at_glyph() {
    let mut c = Chip8::init();
    c.v_register[9] = 0xa;
    let _ = c.execute_opcode((Opcode::LD_FV, [0xf9, 0x29]));
    assert_eq!(c.I, 0x50 + 5 * 0xa);
    assert_eq!(c.memory[c.I as usize], 0xf0);
}

#[test]
fn bcd_splits_decimal_digits() {
    let mut c = Chip8::init();
    c.v_register[7] = 234;
    let _ = c.execute_opcode((Opcode::LD_IA, [0xa3, 0x00]));
    let _ = c.execute_opcode((Opcode::LD_BV, [0xf7, 0x33]));
    assert_eq!(&c.memory[0x300..0x303], &[2, 3, 4]);
}

#[test]
fn store_and_load_register_block() {
    let mut c = Chip8::init();
    for j in 0..4 {
        c.v_register[j] = (j as u8) * 10 + 1;
    }
    let _ = c.execute_opcode((Opcode::LD_IA, [0xa3, 0x00]));
    let _ = c.execute_opcode((Opcode::LD_IV, [0xf3, 0x55]));
    assert_eq!(&c.memory[0x300..0x304], &[1, 11, 21, 31]);
    assert_eq!(c.memory[0x304], 0);
    let mut d = Chip8::init();
    d.memory[0x300..0x304].copy_from_slice(&[5, 6, 7, 8]);
    let _ = d.execute_opcode((Opcode::LD_IA, [0xa3, 0x00]));
    let _ = d.execute_opcode((Opcode::LD_VI, [0xf3, 0x65]));
    assert_eq!(&d.v_register[0..4], &[5, 6, 7, 8]);
    assert_eq!(d.v_register[4], 0);
}

// The shift-left flag is the top bit itself: the value 0x80 shifts to 0
// with the flag set.
#[test]
fn shl_flags_the_top_bit_exactly() {
    let mut c = Chip8::init();
    c.v_register[4] = 0x80;
    let _ = c.execute_opcode((Opcode::SHL, [0x84, 0x3e]));
    assert_eq!(c.v_register[4], 0x00);
    assert_eq!(c.v_register[0xf], 1);
}

// Only the low nibble of the register selects a key for the skip tests.
#[test]
fn skp_uses_low_nibble_of_register() {
    let mut c = Chip8::init();
    c.v_register[1] = 0x1e;
    c.key[0xe] = true;
    let _ = c.execute_opcode((Opcode::SKP, [0xe1, 0x9e]));
    assert_eq!(c.pc, 0x204);
}

// When VF is itself the destination of a flagged instruction, the flag
// write wins: last write wins.
#[test]
fn flag_write_wins_when_vf_is_destination() {
    let mut c = Chip8::init();
    c.v_register[0xf] = 0xaa;
    c.v_register[4] = 0xa0;
    let _ = c.execute_opcode((Opcode::ADD_VV, [0x8f, 0x44]));
    assert_eq!(c.v_register[0xf], 1);
    let mut d = Chip8::init();
    d.v_register[0xf] = 0x0a;
    d.v_register[4] = 0xaa;
    let _ = d.execute_opcode((Opcode::SUB, [0x8f, 0x44]));
    assert_eq!(d.v_register[0xf], 0);
}

#[test]
fn xy_coord_wraps_both_axes() {
    assert_eq!(chip8::draw::xy_coord(70, 40), 8 * 64 + 6);
    assert_eq!(chip8::draw::xy_coord(10, 7), 7 * 64 + 10);
}

#[test]
fn sys_is_a_no_op_that_advances() {
    let mut c = Chip8::init();
    let regs = c.v_register.clone();
    let _ = c.execute_opcode((Opcode::SYS, [0x02, 0x34]));
    assert_eq!(c.pc, 0x202);
    assert_eq!(c.v_register, regs);
    assert_eq!(c.sp, 0);
}
