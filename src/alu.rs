use crate::registers::Flags;
use vstd::prelude::*;

verus! {

pub open spec fn bit(b: bool) -> int {
    if b {
        1
    } else {
        0
    }
}

/// A + v + carry-in: HC on a carry out of bit 3, C on a carry out of bit 7.
pub open spec fn add8(a: u8, v: u8, cin: bool) -> (u8, Flags) {
    let sum = a + v + bit(cin);
    let r = (sum % 256) as u8;
    (
        r,
        Flags {
            zero: r == 0,
            subtract: false,
            half_carry: a % 16 + v % 16 + bit(cin) > 15,
            carry: sum > 255,
        },
    )
}

/// A - v - borrow-in: HC on a borrow from bit 4, C on a borrow past bit 7.
pub open spec fn sub8(a: u8, v: u8, cin: bool) -> (u8, Flags) {
    let diff = a - v - bit(cin);
    let r = (diff % 256) as u8;
    (
        r,
        Flags {
            zero: r == 0,
            subtract: true,
            half_carry: a % 16 < v % 16 + bit(cin),
            carry: diff < 0,
        },
    )
}

/// All four flags clear.
pub open spec fn no_flags() -> Flags {
    Flags { zero: false, subtract: false, half_carry: false, carry: false }
}

pub open spec fn logic_flags(r: u8, half_carry: bool) -> Flags {
    Flags { zero: r == 0, subtract: false, half_carry, carry: false }
}

/// The eight accumulator operations of an opcode's bits 5..3: ADD, ADC, SUB, SBC, AND, XOR, OR,
/// CP. CP keeps A and sets the flags of SUB.
pub open spec fn alu(op: u8, a: u8, v: u8, f: Flags) -> (u8, Flags) {
    if op == 0 {
        add8(a, v, false)
    } else if op == 1 {
        add8(a, v, f.carry)
    } else if op == 2 {
        sub8(a, v, false)
    } else if op == 3 {
        sub8(a, v, f.carry)
    } else if op == 4 {
        (a & v, logic_flags(a & v, true))
    } else if op == 5 {
        (a ^ v, logic_flags(a ^ v, false))
    } else if op == 6 {
        (a | v, logic_flags(a | v, false))
    } else {
        (a, sub8(a, v, false).1)
    }
}

/// INC r8: C is kept.
pub open spec fn inc8(v: u8, f: Flags) -> (u8, Flags) {
    let r = ((v + 1) % 256) as u8;
    (r, Flags { zero: r == 0, subtract: false, half_carry: v % 16 == 15, carry: f.carry })
}

/// DEC r8: C is kept.
pub open spec fn dec8(v: u8, f: Flags) -> (u8, Flags) {
    let r = ((v - 1) % 256) as u8;
    (r, Flags { zero: r == 0, subtract: true, half_carry: v % 16 == 0, carry: f.carry })
}

pub open spec fn shift_flags(r: u8, carry: bool) -> Flags {
    Flags { zero: r == 0, subtract: false, half_carry: false, carry }
}

/// The CB-prefixed rotates and shifts of bits 5..3: RLC, RRC, RL, RR, SLA, SRA, SWAP, SRL.
pub open spec fn shift(op: u8, v: u8, f: Flags) -> (u8, Flags) {
    let r: u8 = if op == 0 {
        ((v * 2) % 256 + v / 128) as u8
    } else if op == 1 {
        (v / 2 + (v % 2) * 128) as u8
    } else if op == 2 {
        ((v * 2) % 256 + bit(f.carry)) as u8
    } else if op == 3 {
        (v / 2 + bit(f.carry) * 128) as u8
    } else if op == 4 {
        ((v * 2) % 256) as u8
    } else if op == 5 {
        (v / 2 + (v / 128) * 128) as u8
    } else if op == 6 {
        ((v % 16) * 16 + v / 16) as u8
    } else {
        (v / 2) as u8
    };
    let c = if op == 0 || op == 2 || op == 4 {
        v >= 128
    } else if op == 6 {
        false
    } else {
        v % 2 == 1
    };
    (r, shift_flags(r, c))
}

/// DAA: after an addition (N clear) add 0x06 when HC or the low digit is past 9 and 0x60 when
/// C or A is past 0x99, setting C; after a subtraction take away the same adjustments, C kept.
pub open spec fn daa8(a: u8, f: Flags) -> (u8, Flags) {
    let low = f.half_carry || (!f.subtract && a % 16 > 9);
    let high = f.carry || (!f.subtract && a > 0x99);
    let adjust = (if low { 0x06int } else { 0 }) + (if high { 0x60int } else { 0 });
    let r = (if f.subtract { (a - adjust) % 256 } else { (a + adjust) % 256 }) as u8;
    (r, Flags { zero: r == 0, subtract: f.subtract, half_carry: false, carry: high })
}

/// ADD HL, r16: N clear, HC on a carry out of bit 11, C on a carry out of bit 15, Z kept.
pub open spec fn add16(hl: u16, v: u16, f: Flags) -> (u16, Flags) {
    let sum = hl + v;
    (
        (sum % 65536) as u16,
        Flags {
            zero: f.zero,
            subtract: false,
            half_carry: hl % 4096 + v % 4096 > 4095,
            carry: sum > 65535,
        },
    )
}

/// The signed value of an offset byte.
pub open spec fn signed(e: u8) -> int {
    if e < 128 {
        e as int
    } else {
        e - 256
    }
}

/// SP + e8 (ADD SP,e8 and LD HL,SP+e8): Z and N clear, HC and C from the unsigned add of the
/// low bytes at bits 3 and 7.
pub open spec fn add_sp8(sp: u16, e: u8) -> (u16, Flags) {
    (
        ((sp + signed(e)) % 65536) as u16,
        Flags {
            zero: false,
            subtract: false,
            half_carry: sp % 16 + e % 16 > 15,
            carry: sp % 256 + e > 255,
        },
    )
}

pub fn add_a_r8(a: u8, value: u8) -> (r: (u8, Flags))
    ensures
        r == add8(a, value, false),
{
    let sum = a as u16 + value as u16;
    let res = (sum % 256) as u8;
    (
        res,
        Flags {
            zero: res == 0,
            subtract: false,
            half_carry: a % 16 + value % 16 > 15,
            carry: sum > 255,
        },
    )
}

pub fn adc_a_r8(a: u8, value: u8, carry: bool) -> (r: (u8, Flags))
    ensures
        r == add8(a, value, carry),
{
    let c: u16 = if carry {
        1
    } else {
        0
    };
    let sum = a as u16 + value as u16 + c;
    let res = (sum % 256) as u8;
    (
        res,
        Flags {
            zero: res == 0,
            subtract: false,
            half_carry: (a % 16) as u16 + (value % 16) as u16 + c > 15,
            carry: sum > 255,
        },
    )
}

pub fn sub_a_r8(a: u8, value: u8) -> (r: (u8, Flags))
    ensures
        r == sub8(a, value, false),
{
    sbc_a_r8(a, value, false)
}

pub fn sbc_a_r8(a: u8, value: u8, carry: bool) -> (r: (u8, Flags))
    ensures
        r == sub8(a, value, carry),
{
    let c: u16 = if carry {
        1
    } else {
        0
    };
    let take = value as u16 + c;
    let borrow = (a as u16) < take;
    let res: u8 = if borrow {
        (a as u16 + 256 - take) as u8
    } else {
        (a as u16 - take) as u8
    };
    (
        res,
        Flags {
            zero: res == 0,
            subtract: true,
            half_carry: ((a % 16) as u16) < (value % 16) as u16 + c,
            carry: borrow,
        },
    )
}

pub fn and_a_r8(a: u8, value: u8) -> (r: (u8, Flags))
    ensures
        r == (a & value, logic_flags(a & value, true)),
{
    let res = a & value;
    (res, Flags { zero: res == 0, subtract: false, half_carry: true, carry: false })
}

pub fn xor_a_r8(a: u8, value: u8) -> (r: (u8, Flags))
    ensures
        r == (a ^ value, logic_flags(a ^ value, false)),
{
    let res = a ^ value;
    (res, Flags { zero: res == 0, subtract: false, half_carry: false, carry: false })
}

pub fn or_a_r8(a: u8, value: u8) -> (r: (u8, Flags))
    ensures
        r == (a | value, logic_flags(a | value, false)),
{
    let res = a | value;
    (res, Flags { zero: res == 0, subtract: false, half_carry: false, carry: false })
}

/// The flags of A - value; A itself is not changed.
pub fn cp_a_r8(a: u8, value: u8) -> (r: Flags)
    ensures
        r == sub8(a, value, false).1,
{
    sub_a_r8(a, value).1
}

/// One of the eight accumulator operations on A and `value`.
pub fn alu_op(op: u8, a: u8, value: u8, f: Flags) -> (r: (u8, Flags))
    requires
        op < 8,
    ensures
        r == alu(op, a, value, f),
{
    if op == 0 {
        add_a_r8(a, value)
    } else if op == 1 {
        adc_a_r8(a, value, f.carry)
    } else if op == 2 {
        sub_a_r8(a, value)
    } else if op == 3 {
        sbc_a_r8(a, value, f.carry)
    } else if op == 4 {
        and_a_r8(a, value)
    } else if op == 5 {
        xor_a_r8(a, value)
    } else if op == 6 {
        or_a_r8(a, value)
    } else {
        (a, cp_a_r8(a, value))
    }
}

pub fn inc_r8(value: u8, f: Flags) -> (r: (u8, Flags))
    ensures
        r == inc8(value, f),
{
    let res: u8 = if value == 255 {
        0
    } else {
        value + 1
    };
    (res, Flags { zero: res == 0, subtract: false, half_carry: value % 16 == 15, carry: f.carry })
}

pub fn dec_r8(value: u8, f: Flags) -> (r: (u8, Flags))
    ensures
        r == dec8(value, f),
{
    let res: u8 = if value == 0 {
        255
    } else {
        value - 1
    };
    (res, Flags { zero: res == 0, subtract: true, half_carry: value % 16 == 0, carry: f.carry })
}

pub fn rlc_r8(value: u8) -> (r: (u8, Flags))
    ensures
        r == shift(0, value, no_flags()),
{
    let res = ((value as u16 * 2) % 256 + value as u16 / 128) as u8;
    (res, Flags { zero: res == 0, subtract: false, half_carry: false, carry: value >= 128 })
}

pub fn rrc_r8(value: u8) -> (r: (u8, Flags))
    ensures
        r == shift(1, value, no_flags()),
{
    let res = value / 2 + (value % 2) * 128;
    (res, Flags { zero: res == 0, subtract: false, half_carry: false, carry: value % 2 == 1 })
}

pub fn rl_r8(value: u8, carry: bool) -> (r: (u8, Flags))
    ensures
        r == shift(
            2,
            value,
            Flags { zero: false, subtract: false, half_carry: false, carry: carry },
        ),
{
    let c: u16 = if carry {
        1
    } else {
        0
    };
    let res = ((value as u16 * 2) % 256 + c) as u8;
    (res, Flags { zero: res == 0, subtract: false, half_carry: false, carry: value >= 128 })
}

pub fn rr_r8(value: u8, carry: bool) -> (r: (u8, Flags))
    ensures
        r == shift(
            3,
            value,
            Flags { zero: false, subtract: false, half_carry: false, carry: carry },
        ),
{
    let c: u8 = if carry {
        128
    } else {
        0
    };
    let res = value / 2 + c;
    (res, Flags { zero: res == 0, subtract: false, half_carry: false, carry: value % 2 == 1 })
}

pub fn sla_r8(value: u8) -> (r: (u8, Flags))
    ensures
        r == shift(4, value, no_flags()),
{
    let res = ((value as u16 * 2) % 256) as u8;
    (res, Flags { zero: res == 0, subtract: false, half_carry: false, carry: value >= 128 })
}

pub fn sra_r8(value: u8) -> (r: (u8, Flags))
    ensures
        r == shift(5, value, no_flags()),
{
    let res = value / 2 + (value / 128) * 128;
    (res, Flags { zero: res == 0, subtract: false, half_carry: false, carry: value % 2 == 1 })
}

pub fn swap_r8(value: u8) -> (r: (u8, Flags))
    ensures
        r == shift(6, value, no_flags()),
{
    let res = (value % 16) * 16 + value / 16;
    (res, Flags { zero: res == 0, subtract: false, half_carry: false, carry: false })
}

pub fn srl_r8(value: u8) -> (r: (u8, Flags))
    ensures
        r == shift(7, value, no_flags()),
{
    let res = value / 2;
    (res, Flags { zero: res == 0, subtract: false, half_carry: false, carry: value % 2 == 1 })
}

/// One of the eight CB-prefixed rotates and shifts; only RL and RR read the incoming carry.
pub fn shift_op(op: u8, value: u8, f: Flags) -> (r: (u8, Flags))
    requires
        op < 8,
    ensures
        r == shift(op, value, f),
{
    if op == 0 {
        rlc_r8(value)
    } else if op == 1 {
        rrc_r8(value)
    } else if op == 2 {
        rl_r8(value, f.carry)
    } else if op == 3 {
        rr_r8(value, f.carry)
    } else if op == 4 {
        sla_r8(value)
    } else if op == 5 {
        sra_r8(value)
    } else if op == 6 {
        swap_r8(value)
    } else {
        srl_r8(value)
    }
}

pub fn daa(a: u8, f: Flags) -> (r: (u8, Flags))
    ensures
        r == daa8(a, f),
{
    let low = f.half_carry || (!f.subtract && a % 16 > 9);
    let high = f.carry || (!f.subtract && a > 0x99);
    let adjust: u16 = (if low {
        0x06
    } else {
        0
    }) + (if high {
        0x60
    } else {
        0
    });
    let res: u8 = if f.subtract {
        ((a as u16 + 256 - adjust) % 256) as u8
    } else {
        ((a as u16 + adjust) % 256) as u8
    };
    (res, Flags { zero: res == 0, subtract: f.subtract, half_carry: false, carry: high })
}

/// CPL: A complemented, N and HC set.
pub fn cpl(a: u8, f: Flags) -> (r: (u8, Flags))
    ensures
        r == ((255 - a) as u8, Flags { subtract: true, half_carry: true, ..f }),
{
    (255 - a, Flags { subtract: true, half_carry: true, ..f })
}

pub fn add_hl_r16(hl: u16, value: u16, f: Flags) -> (r: (u16, Flags))
    ensures
        r == add16(hl, value, f),
{
    let sum = hl as u32 + value as u32;
    (
        (sum % 65536) as u16,
        Flags {
            zero: f.zero,
            subtract: false,
            half_carry: hl % 4096 + value % 4096 > 4095,
            carry: sum > 65535,
        },
    )
}

/// SP + e8, for ADD SP,e8 and LD HL,SP+e8.
pub fn add_sp_imm8(sp: u16, e: u8) -> (r: (u16, Flags))
    ensures
        r == add_sp8(sp, e),
{
    let res: u16 = if e < 128 {
        ((sp as u32 + e as u32) % 65536) as u16
    } else {
        ((sp as u32 + 65536 - (256 - e as u32)) % 65536) as u16
    };
    (
        res,
        Flags {
            zero: false,
            subtract: false,
            half_carry: sp % 16 + (e % 16) as u16 > 15,
            carry: sp % 256 + e as u16 > 255,
        },
    )
}

/// The mask of bit `i`.
pub open spec fn mask(i: u8) -> u8 {
    (1u8 << i) as u8
}

/// BIT i: Z when bit `i` of `value` is clear, N clear, HC set, C kept.
pub fn bit_b3_r8(bit_index: u8, value: u8, f: Flags) -> (r: Flags)
    requires
        bit_index < 8,
    ensures
        r == (Flags { zero: value & mask(bit_index) == 0, subtract: false, half_carry: true, ..f }),
{
    let m: u8 = 1u8 << bit_index;
    Flags { zero: value & m == 0, subtract: false, half_carry: true, ..f }
}

pub fn res_b3_r8(bit_index: u8, value: u8) -> (r: u8)
    requires
        bit_index < 8,
    ensures
        r == value & !mask(bit_index),
{
    let m: u8 = 1u8 << bit_index;
    value & !m
}

pub fn set_b3_r8(bit_index: u8, value: u8) -> (r: u8)
    requires
        bit_index < 8,
    ensures
        r == value | mask(bit_index),
{
    let m: u8 = 1u8 << bit_index;
    value | m
}

/// INC then DEC gives the byte back; C is as before both, N is set (so the flags are as before
/// except Z and HC when N was set before).
pub proof fn lemma_inc_dec(v: u8, f: Flags)
    ensures
        dec8(inc8(v, f).0, inc8(v, f).1).0 == v,
        dec8(inc8(v, f).0, inc8(v, f).1).1.carry == f.carry,
        dec8(inc8(v, f).0, inc8(v, f).1).1.subtract,
{
}

/// RES i after SET i gives the byte back when bit i was clear.
pub proof fn lemma_set_res(b: u8, i: u8)
    requires
        i < 8,
        b & mask(i) == 0,
    ensures
        (b | mask(i)) & !mask(i) == b,
{
    assert(i < 8 && b & ((1u8 << i) as u8) == 0 ==> (b | ((1u8 << i) as u8)) & !((1u8 << i) as u8)
        == b) by (bit_vector);
}

/// ADD A,b then SUB A,b gives A back with N set; C is left set only when the addition
/// overflowed.
pub proof fn lemma_add_sub(a: u8, b: u8)
    ensures
        sub8(add8(a, b, false).0, b, false).0 == a,
        sub8(add8(a, b, false).0, b, false).1.subtract,
        sub8(add8(a, b, false).0, b, false).1.carry == (a + b > 255),
{
}

/// The BCD byte of a number below 100.
pub open spec fn bcd(n: int) -> u8 {
    ((n / 10) * 16 + n % 10) as u8
}

proof fn lemma_div_mod(x: int, d: int, q: int, r: int)
    requires
        0 < d,
        0 <= r < d,
        x == q * d + r,
    ensures
        x / d == q,
        x % d == r,
{
    vstd::arithmetic::div_mod::lemma_fundamental_div_mod_converse(x, d, q, r);
}

proof fn lemma_bcd_digits(x: int)
    requires
        0 <= x < 100,
    ensures
        0 <= x / 10 < 10,
        0 <= x % 10 < 10,
        x == 10 * (x / 10) + x % 10,
        bcd(x) == 16 * (x / 10) + x % 10,
        bcd(x) % 16 == x % 10,
{
    vstd::arithmetic::div_mod::lemma_fundamental_div_mod(x, 10);
    lemma_div_mod(bcd(x) as int, 16, x / 10, x % 10);
}

/// The digit-level core of DAA after an addition: `r` is the byte sum of the BCD numbers with
/// digits `x1 x0` and `y1 y0`, `hc` and `c` its half carry and carry.
proof fn lemma_daa_digits(x1: int, x0: int, y1: int, y0: int, r: int, hc: bool, c: bool)
    requires
        0 <= x1 < 10 && 0 <= x0 < 10 && 0 <= y1 < 10 && 0 <= y0 < 10,
        r == (16 * (x1 + y1) + x0 + y0) % 256,
        hc == (x0 + y0 > 15),
        c == (16 * (x1 + y1) + x0 + y0 > 255),
    ensures
        ({
            let tens = x1 + y1 + (if x0 + y0 >= 10 { 1int } else { 0 });
            let ones = if x0 + y0 >= 10 { x0 + y0 - 10 } else { x0 + y0 };
            let low = hc || r % 16 > 9;
            let high = c || r > 0x99;
            let adjust = (if low { 0x06int } else { 0 }) + (if high { 0x60int } else { 0 });
            &&& high == (tens >= 10)
            &&& (r + adjust) % 256 == 16 * (if tens >= 10 { tens - 10 } else { tens }) + ones
        }),
{
    let ld = x0 + y0;
    let hd = x1 + y1;
    let sum = 16 * hd + ld;
    let tens = hd + (if ld >= 10 { 1int } else { 0 });
    let ones = if ld >= 10 { ld - 10 } else { ld };
    if sum > 255 {
        lemma_div_mod(sum, 256, 1, sum - 256);
        if ld >= 16 {
            lemma_div_mod(r, 16, hd - 15, ld - 16);
        } else {
            lemma_div_mod(r, 16, hd - 16, ld);
        }
    } else {
        lemma_div_mod(sum, 256, 0, sum);
        if ld >= 16 {
            lemma_div_mod(r, 16, hd + 1, ld - 16);
        } else {
            lemma_div_mod(r, 16, hd, ld);
        }
    }
    let low = hc || r % 16 > 9;
    let high = c || r > 0x99;
    let adjust = (if low { 0x06int } else { 0 }) + (if high { 0x60int } else { 0 });
    assert(low == (ld >= 10));
    assert(high == (tens >= 10));
    if sum > 255 {
        lemma_div_mod(r + adjust, 256, 0, 16 * (tens - 10) + ones);
    } else if tens >= 10 {
        lemma_div_mod(r + adjust, 256, 1, 16 * (tens - 10) + ones);
    } else {
        lemma_div_mod(r + adjust, 256, 0, 16 * tens + ones);
    }
}

/// After ADD A,b on two BCD numbers below 100, DAA gives the BCD of their sum modulo 100, and
/// C tells whether the sum reached 100.
pub proof fn lemma_daa_after_add(x: int, y: int)
    requires
        0 <= x < 100,
        0 <= y < 100,
    ensures
        daa8(add8(bcd(x), bcd(y), false).0, add8(bcd(x), bcd(y), false).1).0 == bcd((x + y) % 100),
        daa8(add8(bcd(x), bcd(y), false).0, add8(bcd(x), bcd(y), false).1).1.carry == (x + y
            >= 100),
{
    lemma_bcd_digits(x);
    lemma_bcd_digits(y);
    let (x1, x0, y1, y0) = (x / 10, x % 10, y / 10, y % 10);
    let (r, f1) = add8(bcd(x), bcd(y), false);
    lemma_daa_digits(x1, x0, y1, y0, r as int, f1.half_carry, f1.carry);
    let ld = x0 + y0;
    let tens = x1 + y1 + (if ld >= 10 { 1int } else { 0 });
    let ones = if ld >= 10 { ld - 10 } else { ld };
    assert(x + y == 10 * tens + ones);
    if tens >= 10 {
        lemma_div_mod(x + y, 100, 1, 10 * (tens - 10) + ones);
        lemma_div_mod((x + y) % 100, 10, tens - 10, ones);
    } else {
        lemma_div_mod(x + y, 100, 0, 10 * tens + ones);
        lemma_div_mod((x + y) % 100, 10, tens, ones);
    }
}

} // verus!
