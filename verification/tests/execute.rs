//! Execute-step tests: each instruction's register, flag, stack and
//! program-counter effects on a fresh machine.

use chip8::Chip8;
use chip8::Opcode;

#[test]
fn execute_ret() {
    let mut test_chip8 = Chip8::init();
    test_chip8.sp += 1;
    test_chip8.stack[test_chip8.sp as usize] = 32;
    let _ = test_chip8.execute_opcode((Opcode::RET, [0x00, 0xee]));
    assert_eq!(test_chip8.sp, 0);
    assert_eq!(test_chip8.pc, 34);
}

#[test]
fn execute_jp_a() {
    let mut test_chip8 = Chip8::init();
    let _ = test_chip8.execute_opcode((Opcode::JP_A, [0x13, 0x33]));
    assert_eq!(test_chip8.pc, 0x0333);
}

#[test]
fn execute_call() {
    let mut test_chip8 = Chip8::init();
    test_chip8.pc = 0x44;
    let _ = test_chip8.execute_opcode((Opcode::CALL, [0x22, 0x22]));
    assert_eq!(test_chip8.sp, 1);
    assert_eq!(test_chip8.stack[test_chip8.sp as usize], 0x44);
    assert_eq!(test_chip8.pc, 0x222);
}

#[test]
fn execute_se_vb() {
    let mut test_chip8 = Chip8::init();
    test_chip8.v_register[0xa] = 0xef;
    let _ = test_chip8.execute_opcode((Opcode::SE_VB, [0x3a, 0xef]));
    assert_eq!(test_chip8.pc, 0x204);
}

#[test]
fn execute_sne_vb() {
    let mut test_chip8 = Chip8::init();
    test_chip8.v_register[0xa] = 0xfe;
    let _ = test_chip8.execute_opcode((Opcode::SNE_VB, [0x4a, 0xef]));
    assert_eq!(test_chip8.pc, 0x204);
}

#[test]
fn exectue_se_vv() {
    let mut test_chip8 = Chip8::init();
    test_chip8.v_register[0] = 4;
    test_chip8.v_register[0xa] = 4;
    let _ = test_chip8.execute_opcode((Opcode::SE_VV, [0x50, 0xa0]));
    assert_eq!(test_chip8.pc, 0x204);
}

#[test]
fn execute_ld_vb() {
    let mut test_chip8 = Chip8::init();
    let _ = test_chip8.execute_opcode((Opcode::LD_VB, [0x65, 0xe3]));
    assert_eq!(test_chip8.v_register[5], 0xe3);
}

#[test]
fn execute_add_vb_no_overflow() {
    let mut test_chip8 = Chip8::init();
    let _ = test_chip8.execute_opcode((Opcode::ADD_VB, [0x77, 0x25]));
    assert_eq!(test_chip8.v_register[7], 0x25);
}

#[test]
fn execute_add_vb_overflow() {
    let mut test_chip8 = Chip8::init();
    test_chip8.v_register[7] = 0xff;
    let _ = test_chip8.execute_opcode((Opcode::ADD_VB, [0x77, 0x25]));
    assert_eq!(test_chip8.v_register[7], 0x24);
}

#[test]
fn execute_ld_vv() {
    let mut test_chip8 = Chip8::init();
    test_chip8.v_register[4] = 0xff;
    let _ = test_chip8.execute_opcode((Opcode::LD_VV, [0x88, 0x40]));
    assert_eq!(test_chip8.v_register[8], 0xff);
}

#[test]
fn execute_or() {
    let mut test_chip8 = Chip8::init();
    test_chip8.v_register[8] = 0xaa;
    test_chip8.v_register[4] = 0x99;
    let _ = test_chip8.execute_opcode((Opcode::OR, [0x88, 0x41]));
    assert_eq!(test_chip8.v_register[8], 0xbb);
}

#[test]
fn execute_and() {
    let mut test_chip8 = Chip8::init();
    test_chip8.v_register[8] = 0xaa;
    test_chip8.v_register[4] = 0xc3;
    let _ = test_chip8.execute_opcode((Opcode::AND, [0x88, 0x42]));
    assert_eq!(test_chip8.v_register[8], 0x82);
}

#[test]
fn execute_xor() {
    let mut test_chip8 = Chip8::init();
    test_chip8.v_register[8] = 0xaa;
    test_chip8.v_register[4] = 0xc3;
    let _ = test_chip8.execute_opcode((Opcode::XOR, [0x88, 0x43]));
    assert_eq!(test_chip8.v_register[8], 0x69);
}

#[test]
fn execute_add_vv_no_overflow() {
    let mut test_chip8 = Chip8::init();
    test_chip8.v_register[8] = 0x0a;
    test_chip8.v_register[4] = 0xa0;
    let _ = test_chip8.execute_opcode((Opcode::ADD_VV, [0x88, 0x44]));
    assert_eq!(test_chip8.v_register[8], 0xaa);
    assert_eq!(test_chip8.v_register[0xf], 0x00);
}

#[test]
fn execute_add_vv_overflow() {
    let mut test_chip8 = Chip8::init();
    test_chip8.v_register[8] = 0xaa;
    test_chip8.v_register[4] = 0xa0;
    let _ = test_chip8.execute_opcode((Opcode::ADD_VV, [0x88, 0x44]));
    assert_eq!(test_chip8.v_register[8], 0x4a);
    assert_eq!(test_chip8.v_register[0xf], 0x01);
}

#[test]
fn execute_sub_no_underflow() {
    let mut test_chip8 = Chip8::init();
    test_chip8.v_register[8] = 0xaa;
    test_chip8.v_register[4] = 0x0a;
    let _ = test_chip8.execute_opcode((Opcode::SUB, [0x88, 0x45]));
    assert_eq!(test_chip8.v_register[8], 0xa0);
    assert_eq!(test_chip8.v_register[0xf], 0x01);
}

#[test]
fn execute_sub_underflow() {
    let mut test_chip8 = Chip8::init();
    test_chip8.v_register[8] = 0x0a;
    test_chip8.v_register[4] = 0xaa;
    let _ = test_chip8.execute_opcode((Opcode::SUB, [0x88, 0x45]));
    assert_eq!(test_chip8.v_register[8], 0x60);
    assert_eq!(test_chip8.v_register[0xf], 0x00);
}

#[test]
fn execute_shr_no_overflow() {
    let mut test_chip8 = Chip8::init();
    test_chip8.v_register[8] = 0xee;
    let _ = test_chip8.execute_opcode((Opcode::SHR, [0x88, 0x46]));
    assert_eq!(test_chip8.v_register[8], 0x77);
    assert_eq!(test_chip8.v_register[0xf], 0x00);
}

#[test]
fn execute_shr_overflow() {
    let mut test_chip8 = Chip8::init();
    test_chip8.v_register[8] = 0xef;
    let _ = test_chip8.execute_opcode((Opcode::SHR, [0x88, 0x46]));
    assert_eq!(test_chip8.v_register[8], 0x77);
    assert_eq!(test_chip8.v_register[0xf], 0x01);
}

#[test]
fn execute_subn_no_overflow() {
    let mut test_chip8 = Chip8::init();
    test_chip8.v_register[8] = 0x0a;
    test_chip8.v_register[4] = 0xaa;
    let _ = test_chip8.execute_opcode((Opcode::SUBN, [0x88, 0x47]));
    assert_eq!(test_chip8.v_register[8], 0xa0);
    assert_eq!(test_chip8.v_register[0xf], 0x01);
}

#[test]
fn execute_subn_overflow() {
    let mut test_chip8 = Chip8::init();
    test_chip8.v_register[8] = 0xaa;
    test_chip8.v_register[4] = 0xa0;
    let _ = test_chip8.execute_opcode((Opcode::SUBN, [0x88, 0x47]));
    assert_eq!(test_chip8.v_register[8], 0xf6);
    assert_eq!(test_chip8.v_register[0xf], 0x00);
}

#[test]
fn execute_shl_overflow() {
    let mut test_chip8 = Chip8::init();
    test_chip8.v_register[4] = 0xaa;
    let _ = test_chip8.execute_opcode((Opcode::SHL, [0x84, 0x3e]));
    assert_eq!(test_chip8.v_register[4], 0x54);
    assert_eq!(test_chip8.v_register[0xf], 1);
}

#[test]
fn execute_shl_no_overflow() {
    let mut test_chip8 = Chip8::init();
    test_chip8.v_register[4] = 0x1a;
    let _ = test_chip8.execute_opcode((Opcode::SHL, [0x84, 0x3e]));
    assert_eq!(test_chip8.v_register[4], 0x34);
    assert_eq!(test_chip8.v_register[0xf], 0);
}

#[test]
#[allow(non_snake_case)]
fn execute_sne_VV_not_equal() {
    let mut test_chip8 = Chip8::init();
    test_chip8.v_register[4] = 0xaa;
    test_chip8.v_register[3] = 0xba;
    let _ = test_chip8.execute_opcode((Opcode::SNE_VV, [0x94, 0x30]));
    assert_eq!(test_chip8.pc, 0x204);
}

#[test]
#[allow(non_snake_case)]
fn execute_sne_VV_equal() {
    let mut test_chip8 = Chip8::init();
    test_chip8.v_register[4] = 0xaa;
    test_chip8.v_register[3] = 0xaa;
    let _ = test_chip8.execute_opcode((Opcode::SNE_VV, [0x94, 0x30]));
    assert_eq!(test_chip8.pc, 0x202);
}

#[test]
fn execute_ld_ia() {
    let mut test_chip8 = Chip8::init();
    let _ = test_chip8.execute_opcode((Opcode::LD_IA, [0xA4, 0x30]));
    assert_eq!(test_chip8.I, 0x430);
}

#[test]
fn execute_jp_va() {
    let mut test_chip8 = Chip8::init();
    test_chip8.v_register[0] = 0xa;
    let _ = test_chip8.execute_opcode((Opcode::JP_VA, [0xb4, 0x30]));
    assert_eq!(test_chip8.pc, 0x43a);
}

#[test]
fn execute_skp_pressed() {
    let mut test_chip8 = Chip8::init();
    test_chip8.key[0xe] = true;
    test_chip8.v_register[0xe] = 0xe;
    let _ = test_chip8.execute_opcode((Opcode::SKP, [0xee, 0x9e]));
    assert_eq!(test_chip8.pc, 0x204);
}

#[test]
fn execute_skp_not_pressed() {
    let mut test_chip8 = Chip8::init();
    test_chip8.key[0xe] = false;
    test_chip8.v_register[0x4] = 0xe;
    let _ = test_chip8.execute_opcode((Opcode::SKP, [0xee, 0x9e]));
    assert_eq!(test_chip8.pc, 0x202);
}

#[test]
fn execute_sknp_pressed() {
    let mut test_chip8 = Chip8::init();
    test_chip8.key[0x4] = true;
    test_chip8.v_register[4] = 4;
    let _ = test_chip8.execute_opcode((Opcode::SKNP, [0xe4, 0xa1]));
    assert_eq!(test_chip8.pc, 0x202);
}

#[test]
fn execute_sknp_not_pressed() {
    let mut test_chip8 = Chip8::init();
    test_chip8.key[0x4] = false;
    test_chip8.v_register[4] = 4;
    let _ = test_chip8.execute_opcode((Opcode::SKNP, [0xe4, 0xa1]));
    assert_eq!(test_chip8.pc, 0x204);
}
