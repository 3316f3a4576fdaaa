use trashgb::mapper::{Mapper, Mbc1};
use trashgb::registers::{Flags, R16OrSP, R16mem, R16stk, R8OrMem, Registers, R16, R8};

#[test]
fn operand_decoding() {
    assert_eq!(R8::from_u8(0b110), R8::M);
    assert_eq!(R8::from_u8(0xFF), R8::A);
    assert_eq!(R16::from_u8(3), R16::SP);
    assert_eq!(R16stk::from_u8(3), R16stk::AF);
    assert_eq!(R16mem::from_u8(2), R16mem::HLi);
}

#[test]
fn flags_pack_and_unpack() {
    let f = Flags { zero: true, subtract: false, half_carry: true, carry: true };
    assert_eq!(f.to_u8(), 0xB0);
    let mut g = Flags { zero: false, subtract: false, half_carry: false, carry: false };
    g.set_from_u8(0xBF);
    assert_eq!(g, f);
    assert!(f.get_condition(1) && !f.get_condition(0) && f.get_condition(3) && !f.get_condition(2));
}

#[test]
fn register_access() {
    let mut r = Registers::new();
    assert_eq!(r.get_r8(R8::M), R8OrMem::Ptr(0xDE0B));
    r.set_r8(R8::B, 7);
    assert_eq!(r.get_r8(R8::B), R8OrMem::R8(7));
    r.set_r16(R16::DE, 0x1234);
    assert_eq!(r.get_r16(R16::DE), R16OrSP::R16(0x12, 0x34));
    assert_eq!(r.get_r16(R16::SP), R16OrSP::SP);
    assert_eq!(r.get_r16mem(R16mem::HLd), (0xDE, 0x0B));
    r.flags.carry = true;
    assert_eq!(r.get_r16stk(R16stk::AF), (100, 0x10));
}

#[test]
fn mbc1_bank_selection() {
    let mut m = Mbc1::new(64, 4);
    assert_eq!((m.get_low_bank(), m.get_high_bank(), m.get_ram_bank()), (0, 1, None));
    m.write_register(0x2000, 0x00);
    assert_eq!(m.get_high_bank(), 1);
    m.write_register(0x2000, 0x05);
    m.write_register(0x4000, 0x01);
    assert_eq!(m.get_high_bank(), 0x25);
    m.write_register(0x2000, 0x00);
    assert_eq!(m.get_high_bank(), 0x21);
    m.write_register(0x0000, 0x0A);
    assert_eq!(m.get_ram_bank(), Some(0));
    m.write_register(0x6000, 0x01);
    assert_eq!(m.get_low_bank(), 0x20);
    assert_eq!(m.get_ram_bank(), Some(1));
    m.write_register(0x0000, 0x00);
    assert_eq!(m.get_ram_bank(), None);
}

#[test]
fn mbc1_banks_wrap_to_rom_size() {
    let mut m = Mbc1::new(4, 0);
    m.write_register(0x2000, 0x06);
    assert_eq!(m.get_high_bank(), 2);
    m.write_register(0x0000, 0x0A);
    assert_eq!(m.get_ram_bank(), None);
}
