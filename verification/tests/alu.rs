use gb_core::alu::{
    add_bytes, add_signed, add_words, daa, dec, inc, rl, rlc, rr, rrc, sla, sra, srl, sub_bytes,
    swap, Alu16, Alu8,
};

#[test]
fn add_and_subtract_are_inverse() {
    for a in 0..=255u8 {
        for b in 0..=255u8 {
            let sum = add_bytes(a, b, false).value;
            assert_eq!(sub_bytes(sum, b, false).value, a);
            let difference = sub_bytes(a, b, false).value;
            assert_eq!(add_bytes(difference, b, false).value, a);
        }
    }
}

#[test]
fn add_matches_wide_arithmetic() {
    for a in 0..=255u16 {
        for b in 0..=255u16 {
            for c in 0..=1u16 {
                let r = add_bytes(a as u8, b as u8, c == 1);
                assert_eq!(r.value as u16, (a + b + c) & 0xff);
                assert_eq!(r.carry, a + b + c > 0xff);
                assert_eq!(r.half_carry, (a & 0xf) + (b & 0xf) + c > 0xf);
            }
        }
    }
}

#[test]
fn subtract_matches_wide_arithmetic() {
    for a in 0..=255i32 {
        for b in 0..=255i32 {
            for c in 0..=1i32 {
                let r = sub_bytes(a as u8, b as u8, c == 1);
                assert_eq!(r.value as i32, (a - b - c) & 0xff);
                assert_eq!(r.carry, a < b + c);
                assert_eq!(r.half_carry, (a & 0xf) < (b & 0xf) + c);
            }
        }
    }
}

#[test]
fn add_examples() {
    assert_eq!(add_bytes(0x0f, 0x01, false), Alu8 { value: 0x10, half_carry: true, carry: false });
    assert_eq!(add_bytes(0xff, 0x01, false), Alu8 { value: 0x00, half_carry: true, carry: true });
    assert_eq!(add_bytes(0xf0, 0x10, false), Alu8 { value: 0x00, half_carry: false, carry: true });
    assert_eq!(add_bytes(0x0e, 0x01, true), Alu8 { value: 0x10, half_carry: true, carry: false });
    assert_eq!(sub_bytes(0x10, 0x01, false), Alu8 { value: 0x0f, half_carry: true, carry: false });
    assert_eq!(sub_bytes(0x00, 0x01, false), Alu8 { value: 0xff, half_carry: true, carry: true });
    assert_eq!(sub_bytes(0x10, 0x0f, true), Alu8 { value: 0x00, half_carry: true, carry: false });
}

#[test]
fn inc_and_dec_examples() {
    assert_eq!(inc(0x0f), (0x10, true));
    assert_eq!(inc(0xff), (0x00, true));
    assert_eq!(inc(0x10), (0x11, false));
    assert_eq!(dec(0x10), (0x0f, true));
    assert_eq!(dec(0x00), (0xff, true));
    assert_eq!(dec(0x01), (0x00, false));
}

#[test]
fn decimal_adjust_examples() {
    assert_eq!(daa(0x3c, false, false, false), (0x42, false));
    assert_eq!(daa(0x9a, false, false, false), (0x00, true));
    assert_eq!(daa(0x12, false, true, false), (0x18, false));
    assert_eq!(daa(0x12, false, false, true), (0x72, true));
    assert_eq!(daa(0x2d, true, true, false), (0x27, false));
    assert_eq!(daa(0x90, true, false, true), (0x30, true));
    assert_eq!(daa(0x0a, true, false, false), (0x0a, false));
}

#[test]
fn decimal_adjust_fixes_every_packed_sum() {
    for x in 0..100u8 {
        for y in 0..100u8 {
            let a = (x / 10) << 4 | (x % 10);
            let b = (y / 10) << 4 | (y % 10);
            let r = add_bytes(a, b, false);
            let (value, carry) = daa(r.value, false, r.half_carry, r.carry);
            let sum = x as u16 + y as u16;
            let expected = (((sum % 100) / 10) << 4 | (sum % 10)) as u8;
            assert_eq!(value, expected);
            assert_eq!(carry, sum >= 100);
        }
    }
}

#[test]
fn word_addition_examples() {
    assert_eq!(
        add_words(0x0fff, 0x0001),
        Alu16 { value: 0x1000, half_carry: true, carry: false }
    );
    assert_eq!(
        add_words(0xffff, 0x0001),
        Alu16 { value: 0x0000, half_carry: true, carry: true }
    );
    assert_eq!(
        add_words(0x8000, 0x8000),
        Alu16 { value: 0x0000, half_carry: false, carry: true }
    );
    assert_eq!(
        add_words(0x1234, 0x1111),
        Alu16 { value: 0x2345, half_carry: false, carry: false }
    );
}

#[test]
fn signed_addition_examples() {
    assert_eq!(
        add_signed(0x0001, 0xff),
        Alu16 { value: 0x0000, half_carry: true, carry: true }
    );
    assert_eq!(
        add_signed(0xfffe, 0x02),
        Alu16 { value: 0x0000, half_carry: true, carry: true }
    );
    assert_eq!(
        add_signed(0x1000, 0xf0),
        Alu16 { value: 0x0ff0, half_carry: false, carry: false }
    );
    assert_eq!(
        add_signed(0x0000, 0x80),
        Alu16 { value: 0xff80, half_carry: false, carry: false }
    );
    assert_eq!(
        add_signed(0x00ff, 0x7f),
        Alu16 { value: 0x017e, half_carry: true, carry: true }
    );
}

#[test]
fn signed_addition_matches_wide_arithmetic() {
    for a in [0x0000u16, 0x0001, 0x00ff, 0x0100, 0x7fff, 0x8000, 0xff00, 0xffff] {
        for e in 0..=255u8 {
            let r = add_signed(a, e);
            assert_eq!(r.value, a.wrapping_add(e as i8 as i16 as u16));
            assert_eq!(r.carry, (a & 0xff) + e as u16 > 0xff);
            assert_eq!(r.half_carry, (a & 0xf) + (e as u16 & 0xf) > 0xf);
        }
    }
}

#[test]
fn rotates_match_std() {
    for a in 0..=255u8 {
        assert_eq!(rlc(a), (a.rotate_left(1), a & 0x80 != 0));
        assert_eq!(rrc(a), (a.rotate_right(1), a & 0x01 != 0));
        assert_eq!(rl(a, false), (a << 1, a & 0x80 != 0));
        assert_eq!(rl(a, true), (a << 1 | 1, a & 0x80 != 0));
        assert_eq!(rr(a, false), (a >> 1, a & 0x01 != 0));
        assert_eq!(rr(a, true), (a >> 1 | 0x80, a & 0x01 != 0));
        assert_eq!(sla(a), (a << 1, a & 0x80 != 0));
        assert_eq!(sra(a), (((a as i8) >> 1) as u8, a & 0x01 != 0));
        assert_eq!(srl(a), (a >> 1, a & 0x01 != 0));
        assert_eq!(swap(a), a.rotate_left(4));
    }
}
