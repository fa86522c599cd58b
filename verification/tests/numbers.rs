use lune_std_ffi::binary32::{narrow, widen};
use lune_std_ffi::binary64::{power_of_two, to_integer};
use lune_std_ffi::decimal::parse_integer;
use lune_std_ffi::encoding::{
    integer_fits, integer_modulus, read_integer, write_integer, ByteOrder,
};
use lune_std_ffi::error::ConversionError;

#[test]
fn widening_agrees_with_the_machine() {
    let patterns = [
        0u32,
        0x8000_0000,
        1,
        2,
        3,
        0x0000_0100,
        0x007F_FFFF,
        0x0040_0000,
        0x0080_0000,
        0x0080_0001,
        0x3F80_0000,
        0xBFC0_0000,
        0x7F7F_FFFF,
        0x7F80_0000,
        0xFF80_0000,
        0x8000_0001,
        0x1234_5678,
        0xC2F7_0A3D,
    ];
    for p in patterns {
        let expected = (f32::from_bits(p) as f64).to_bits();
        assert_eq!(widen(p), expected, "{:#x}", p);
        assert_eq!(narrow(expected), Some(p), "{:#x}", p);
    }
}

#[test]
fn widening_keeps_what_is_not_a_number() {
    let p = 0x7FC0_0001u32;
    assert_eq!(widen(p), 0x7FF8_0000_2000_0000);
    assert_eq!(narrow(widen(p)), Some(p));
}

#[test]
fn narrowing_refuses_what_needs_rounding() {
    for x in [0.1f64, 1.0 + f64::EPSILON, 1e39, -1e39, 1e-46, f64::MIN_POSITIVE / 2.0] {
        assert_eq!(narrow(x.to_bits()), None, "{}", x);
    }
    assert_eq!(narrow(0x7FF0_0000_0000_0001), None);
    assert_eq!(narrow(1), None);
}

#[test]
fn narrowing_agrees_with_the_machine_where_it_is_exact() {
    let mut x = 1.0f64;
    for _ in 0..200 {
        x = x * 1.5 - 0.25;
        let single = x as f32;
        let exact = single as f64 == x;
        match narrow(x.to_bits()) {
            Some(p) => {
                assert!(exact);
                assert_eq!(p, single.to_bits());
            },
            None => assert!(!exact, "{}", x),
        }
    }
}

#[test]
fn floats_that_are_integers() {
    assert_eq!(to_integer(0.0f64.to_bits()), Ok(0));
    assert_eq!(to_integer((-0.0f64).to_bits()), Ok(0));
    assert_eq!(to_integer(1.0f64.to_bits()), Ok(1));
    assert_eq!(to_integer((-1.0f64).to_bits()), Ok(-1));
    assert_eq!(to_integer(1000.0f64.to_bits()), Ok(1000));
    assert_eq!(to_integer(9007199254740992.0f64.to_bits()), Ok(9007199254740992));
    assert_eq!(to_integer(9007199254740993.0f64.to_bits()), Ok(9007199254740992));
    assert_eq!(to_integer(18446744073709549568.0f64.to_bits()), Ok(18446744073709549568));
    assert_eq!(to_integer((-9223372036854775808.0f64).to_bits()), Ok(-9223372036854775808));
}

#[test]
fn floats_that_are_no_integers() {
    for x in [0.5f64, -0.5, 1.5, 1e-300, f64::MIN_POSITIVE, 4503599627370495.5] {
        assert_eq!(to_integer(x.to_bits()), Err(ConversionError::PrecisionLoss), "{}", x);
    }
    assert_eq!(to_integer(1), Err(ConversionError::PrecisionLoss));
    assert_eq!(to_integer(f64::NAN.to_bits()), Err(ConversionError::PrecisionLoss));
    assert_eq!(to_integer(f64::INFINITY.to_bits()), Err(ConversionError::PrecisionLoss));
    assert_eq!(to_integer(f64::NEG_INFINITY.to_bits()), Err(ConversionError::PrecisionLoss));
}

#[test]
fn floats_beyond_every_integer_type() {
    for x in [18446744073709551616.0f64, -18446744073709551616.0, 1e300, f64::MAX] {
        assert_eq!(to_integer(x.to_bits()), Err(ConversionError::OutOfRange), "{}", x);
    }
}

#[test]
fn floats_agree_with_the_machine() {
    let mut x = 3.0f64;
    for _ in 0..300 {
        x = x * 1.75;
        if x >= 18446744073709551616.0 {
            break;
        }
        let expected = if x.fract() == 0.0 {
            Ok(x as i128)
        } else {
            Err(ConversionError::PrecisionLoss)
        };
        assert_eq!(to_integer(x.to_bits()), expected, "{}", x);
        assert_eq!(to_integer((-x).to_bits()), expected.map(|n| -n), "{}", x);
    }
}

#[test]
fn powers_of_two() {
    assert_eq!(power_of_two(0), 1);
    assert_eq!(power_of_two(10), 1024);
    assert_eq!(power_of_two(63), 1u64 << 63);
}

#[test]
fn decimal_text_agrees_with_the_standard_parser() {
    let texts = [
        "0", "7", "007", "+7", "-7", "255", "256", "-128", "-129", "127", "128", "65535",
        "65536", "4294967295", "4294967296", "18446744073709551615", "18446744073709551616",
        "-9223372036854775808", "-9223372036854775809", "9223372036854775807",
        "99999999999999999999999999999999999999999999", "", "+", "-", "--1", "+-1", "1 ", " 1",
        "1_000", "1e3", "0x1", "١", "00000000000000000000000000000000000000000000000001",
    ];
    for text in texts {
        let bytes = text.as_bytes().to_vec();
        assert_eq!(parse_integer(&bytes, 1, false), text.parse::<u8>().ok().map(i128::from));
        assert_eq!(parse_integer(&bytes, 1, true), text.parse::<i8>().ok().map(i128::from));
        assert_eq!(parse_integer(&bytes, 2, false), text.parse::<u16>().ok().map(i128::from));
        assert_eq!(parse_integer(&bytes, 2, true), text.parse::<i16>().ok().map(i128::from));
        assert_eq!(parse_integer(&bytes, 4, false), text.parse::<u32>().ok().map(i128::from));
        assert_eq!(parse_integer(&bytes, 4, true), text.parse::<i32>().ok().map(i128::from));
        assert_eq!(parse_integer(&bytes, 8, false), text.parse::<u64>().ok().map(i128::from));
        assert_eq!(parse_integer(&bytes, 8, true), text.parse::<i64>().ok().map(i128::from));
    }
}

#[test]
fn decimal_text_with_bytes_that_are_no_text() {
    assert_eq!(parse_integer(&vec![0x31, 0xFF], 2, false), None);
    assert_eq!(parse_integer(&vec![0x80], 2, false), None);
    assert_eq!(parse_integer(&vec![0x31, 0x00], 2, false), None);
}

#[test]
fn ranges_of_the_integer_types() {
    assert_eq!(integer_modulus(1), 256);
    assert_eq!(integer_modulus(2), 65536);
    assert_eq!(integer_modulus(4), 1 << 32);
    assert_eq!(integer_modulus(8), 1 << 64);
    assert!(integer_fits(255, 1, false));
    assert!(!integer_fits(256, 1, false));
    assert!(!integer_fits(-1, 1, false));
    assert!(integer_fits(-128, 1, true));
    assert!(!integer_fits(-129, 1, true));
    assert!(integer_fits(127, 1, true));
    assert!(!integer_fits(128, 1, true));
    assert!(integer_fits(u64::MAX as i128, 8, false));
    assert!(!integer_fits(u64::MAX as i128 + 1, 8, false));
    assert!(integer_fits(i64::MIN as i128, 8, true));
    assert!(!integer_fits(i64::MIN as i128 - 1, 8, true));
}

#[test]
fn raw_integers_agree_with_the_machine() {
    let mut buf = vec![0u8; 8];
    write_integer(&mut buf, 0, 8, -1234567890123, true, ByteOrder::LittleEndian);
    assert_eq!(buf, (-1234567890123i64).to_le_bytes().to_vec());
    assert_eq!(read_integer(&buf, 0, 8, true, ByteOrder::LittleEndian), -1234567890123);
    write_integer(&mut buf, 0, 8, -1234567890123, true, ByteOrder::BigEndian);
    assert_eq!(buf, (-1234567890123i64).to_be_bytes().to_vec());
    assert_eq!(read_integer(&buf, 0, 8, true, ByteOrder::BigEndian), -1234567890123);
    let mut small = vec![0u8; 4];
    write_integer(&mut small, 1, 2, 0xABCD, false, ByteOrder::BigEndian);
    assert_eq!(small, vec![0, 0xAB, 0xCD, 0]);
    assert_eq!(read_integer(&small, 1, 2, false, ByteOrder::LittleEndian), 0xCDAB);
    assert_eq!(read_integer(&small, 1, 2, true, ByteOrder::BigEndian), 0xABCD - 0x10000);
}

#[test]
fn decimal_text_agrees_with_lossy_text() {
    let lossy = |bytes: &Vec<u8>| String::from_utf8_lossy(bytes).into_owned();
    for a in 0..=255u8 {
        let one = vec![a];
        assert_eq!(parse_integer(&one, 2, false), lossy(&one).parse::<u16>().ok().map(i128::from));
        assert_eq!(parse_integer(&one, 1, true), lossy(&one).parse::<i8>().ok().map(i128::from));
        for b in 0..=255u8 {
            let two = vec![a, b];
            let text = lossy(&two);
            assert_eq!(parse_integer(&two, 2, false), text.parse::<u16>().ok().map(i128::from));
            assert_eq!(parse_integer(&two, 1, true), text.parse::<i8>().ok().map(i128::from));
        }
    }
    for c in [b'0', b'9', b'+', b'-', 0xC3, 0x00] {
        for d in [b'1', b'5', 0xA9, b' '] {
            for e in [b'2', b'6', b'x'] {
                let three = vec![c, d, e, b'7'];
                let text = lossy(&three);
                assert_eq!(parse_integer(&three, 2, false), text.parse::<u16>().ok().map(i128::from));
                assert_eq!(parse_integer(&three, 2, true), text.parse::<i16>().ok().map(i128::from));
                assert_eq!(parse_integer(&three, 1, false), text.parse::<u8>().ok().map(i128::from));
            }
        }
    }
}

#[test]
fn every_single_precision_exponent_widens_as_the_machine_does() {
    for exponent in 0..=255u32 {
        for fraction in [0u32, 1, 0x400000, 0x7FFFFF, 0x2AAAAA, 0x000100] {
            for sign in [0u32, 0x8000_0000] {
                let p = sign | exponent << 23 | fraction;
                let expected = (f32::from_bits(p) as f64).to_bits();
                if exponent == 255 && fraction != 0 {
                    assert_eq!(narrow(widen(p)), Some(p));
                    continue;
                }
                assert_eq!(widen(p), expected, "{:#x}", p);
                assert_eq!(narrow(expected), Some(p), "{:#x}", p);
            }
        }
    }
    for k in 0..23u32 {
        let p = 1u32 << k;
        assert_eq!(widen(p), (f32::from_bits(p) as f64).to_bits());
        assert_eq!(widen(p | 1), (f32::from_bits(p | 1) as f64).to_bits());
    }
}
