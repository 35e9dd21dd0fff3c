use bs2b::pcm::{i16_to_unsigned, i32_to_unsigned, i8_to_unsigned, u16_to_signed, u32_to_signed, u8_to_signed};

#[test]
fn unsigned_16_bit_offset_matches_signed() {
    let signed = [1000_i16, -2000, 8000, -100, -32000, 30000];
    let unsigned: Vec<u16> = signed.iter().map(|v| (*v as u16) ^ 0x8000).collect();
    for (s, u) in signed.iter().zip(unsigned.iter()) {
        assert_eq!(i16_to_unsigned(*s), *u);
        assert_eq!(u16_to_signed(*u), *s);
    }
}

#[test]
fn offset_extremes() {
    assert_eq!(u8_to_signed(0), i8::MIN);
    assert_eq!(u8_to_signed(0x80), 0);
    assert_eq!(u8_to_signed(0xff), i8::MAX);
    assert_eq!(i8_to_unsigned(i8::MIN), 0);
    assert_eq!(i8_to_unsigned(-1), 0x7f);
    assert_eq!(u16_to_signed(0), i16::MIN);
    assert_eq!(u16_to_signed(0xffff), i16::MAX);
    assert_eq!(i16_to_unsigned(0), 0x8000);
    assert_eq!(u32_to_signed(0), i32::MIN);
    assert_eq!(u32_to_signed(0x8000_0000), 0);
    assert_eq!(i32_to_unsigned(i32::MAX), u32::MAX);
    assert_eq!(i32_to_unsigned(-5), 0x7fff_fffb);
}

#[test]
fn offset_roundtrips() {
    for v in [0u8, 1, 0x7f, 0x80, 0xfe, 0xff] {
        assert_eq!(i8_to_unsigned(u8_to_signed(v)), v);
    }
    for v in [0u16, 1, 0x7fff, 0x8000, 0xffff, 12345] {
        assert_eq!(i16_to_unsigned(u16_to_signed(v)), v);
    }
    for v in [0u32, 1, 0x7fff_ffff, 0x8000_0000, u32::MAX, 123_456_789] {
        assert_eq!(i32_to_unsigned(u32_to_signed(v)), v);
    }
    for v in [i32::MIN, -1, 0, 1, i32::MAX] {
        assert_eq!(u32_to_signed(i32_to_unsigned(v)), v);
    }
}
