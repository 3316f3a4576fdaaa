use trashgb::alu::{
    adc_a_r8, add_a_r8, add_hl_r16, add_sp_imm8, alu_op, and_a_r8, bit_b3_r8, cp_a_r8, cpl, daa,
    dec_r8, inc_r8, or_a_r8, res_b3_r8, rl_r8, rlc_r8, rr_r8, rrc_r8, sbc_a_r8, set_b3_r8, shift_op,
    sla_r8, sra_r8, srl_r8, sub_a_r8, swap_r8, xor_a_r8,
};
use trashgb::registers::Flags;

fn flags(zero: bool, subtract: bool, half_carry: bool, carry: bool) -> Flags {
    Flags { zero, subtract, half_carry, carry }
}

#[test]
fn add_sets_half_carry_and_carry() {
    assert_eq!(add_a_r8(0x0F, 0x01), (0x10, flags(false, false, true, false)));
    assert_eq!(add_a_r8(0xFF, 0x01), (0x00, flags(true, false, true, true)));
    assert_eq!(add_a_r8(0x12, 0x34), (0x46, flags(false, false, false, false)));
}

#[test]
fn adc_adds_the_carry() {
    assert_eq!(adc_a_r8(0x0E, 0x01, true), (0x10, flags(false, false, true, false)));
    assert_eq!(adc_a_r8(0xFE, 0x01, true), (0x00, flags(true, false, true, true)));
}

#[test]
fn sub_and_sbc_borrow() {
    assert_eq!(sub_a_r8(0x10, 0x01), (0x0F, flags(false, true, true, false)));
    assert_eq!(sub_a_r8(0x00, 0x01), (0xFF, flags(false, true, true, true)));
    assert_eq!(sub_a_r8(0x42, 0x42), (0x00, flags(true, true, false, false)));
    assert_eq!(sbc_a_r8(0x10, 0x0F, true), (0x00, flags(true, true, true, false)));
}

#[test]
fn logic_operations() {
    assert_eq!(and_a_r8(0xF0, 0x0F), (0x00, flags(true, false, true, false)));
    assert_eq!(xor_a_r8(0xFF, 0x0F), (0xF0, flags(false, false, false, false)));
    assert_eq!(or_a_r8(0x00, 0x00), (0x00, flags(true, false, false, false)));
    assert_eq!(cp_a_r8(0x05, 0x06), flags(false, true, true, true));
}

#[test]
fn alu_op_dispatches_by_opcode_bits() {
    let f = flags(false, false, false, true);
    assert_eq!(alu_op(1, 0x01, 0x01, f).0, 0x03);
    assert_eq!(alu_op(7, 0x01, 0x01, f), (0x01, flags(true, true, false, false)));
}

#[test]
fn inc_and_dec_keep_carry() {
    let f = flags(false, false, false, true);
    assert_eq!(inc_r8(0xFF, f), (0x00, flags(true, false, true, true)));
    assert_eq!(dec_r8(0x10, f), (0x0F, flags(false, true, true, true)));
}

#[test]
fn inc_then_dec_restores_the_byte() {
    let f = flags(true, true, false, true);
    for v in 0..=255u8 {
        let (a, f1) = inc_r8(v, f);
        let (b, f2) = dec_r8(a, f1);
        assert_eq!(b, v);
        assert_eq!(f2.carry, f.carry);
        assert!(f2.subtract);
    }
}

#[test]
fn rotates_and_shifts() {
    assert_eq!(rlc_r8(0x85), (0x0B, flags(false, false, false, true)));
    assert_eq!(rrc_r8(0x01), (0x80, flags(false, false, false, true)));
    assert_eq!(rl_r8(0x80, false), (0x00, flags(true, false, false, true)));
    assert_eq!(rr_r8(0x01, true), (0x80, flags(false, false, false, true)));
    assert_eq!(sla_r8(0xC0), (0x80, flags(false, false, false, true)));
    assert_eq!(sra_r8(0x81), (0xC0, flags(false, false, false, true)));
    assert_eq!(swap_r8(0xAB), (0xBA, flags(false, false, false, false)));
    assert_eq!(srl_r8(0x01), (0x00, flags(true, false, false, true)));
    assert_eq!(shift_op(6, 0xF0, flags(false, false, false, true)).0, 0x0F);
}

#[test]
fn set_then_res_restores_a_clear_bit() {
    for b in 0..=255u8 {
        for i in 0..8u8 {
            let r = res_b3_r8(i, set_b3_r8(i, b));
            if b & (1 << i) == 0 {
                assert_eq!(r, b);
            } else {
                assert_eq!(r, b & !(1 << i));
            }
        }
    }
}

#[test]
fn bit_tests_one_bit() {
    let f = flags(false, true, false, true);
    assert_eq!(bit_b3_r8(7, 0x7F, f), flags(true, false, true, true));
    assert_eq!(bit_b3_r8(0, 0x01, f), flags(false, false, true, true));
}

#[test]
fn add_then_sub_restores_a() {
    for a in 0..=255u8 {
        for b in [0u8, 1, 0x0F, 0x80, 0xFF] {
            let (r1, _) = add_a_r8(a, b);
            let (r2, f2) = sub_a_r8(r1, b);
            assert_eq!(r2, a);
            assert!(f2.subtract);
            assert_eq!(f2.carry, a as u16 + b as u16 > 255);
        }
    }
}

#[test]
fn daa_after_add_scenario() {
    let (sum, f) = add_a_r8(0x45, 0x38);
    let (a, f2) = daa(sum, f);
    assert_eq!(a, 0x83);
    assert_eq!(f2, flags(false, false, false, false));
}

fn bcd(n: u32) -> u8 {
    ((n / 10) * 16 + n % 10) as u8
}

#[test]
fn daa_after_add_gives_bcd_sums() {
    for x in 0..100u32 {
        for y in 0..100u32 {
            let (sum, f) = add_a_r8(bcd(x), bcd(y));
            let (a, f2) = daa(sum, f);
            assert_eq!(a, bcd((x + y) % 100));
            assert_eq!(f2.carry, x + y >= 100);
        }
    }
}

#[test]
fn daa_after_sub() {
    let (diff, f) = sub_a_r8(0x42, 0x05);
    assert_eq!(daa(diff, f).0, 0x37);
}

#[test]
fn cpl_complements() {
    let f = flags(true, false, false, true);
    assert_eq!(cpl(0x35, f), (0xCA, flags(true, true, true, true)));
}

#[test]
fn sixteen_bit_additions() {
    let f = flags(true, true, false, false);
    assert_eq!(add_hl_r16(0x0FFF, 0x0001, f), (0x1000, flags(true, false, true, false)));
    assert_eq!(add_hl_r16(0xFFFF, 0x0001, f), (0x0000, flags(true, false, true, true)));
    assert_eq!(add_sp_imm8(0xFFF8, 0x08), (0x0000, flags(false, false, true, true)));
    assert_eq!(add_sp_imm8(0x0000, 0xFF), (0xFFFF, flags(false, false, false, false)));
}
