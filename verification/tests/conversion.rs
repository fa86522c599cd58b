use lune_std_ffi::descriptor::{AbiKind, NativeType};
use lune_std_ffi::encoding::ByteOrder;
use lune_std_ffi::error::{AccessError, ConversionError, HandleError};
use lune_std_ffi::memory::FfiBox;
use lune_std_ffi::value::ScriptValue;

fn integer(width: usize, signed: bool) -> NativeType {
    NativeType::integer(width, signed).unwrap()
}

fn bounds(width: usize, signed: bool) -> (i128, i128) {
    let patterns: i128 = 1i128 << (8 * width);
    if signed {
        (-(patterns / 2), patterns / 2 - 1)
    } else {
        (0, patterns - 1)
    }
}

fn roundtrip(t: &NativeType, v: i128, order: ByteOrder) -> ScriptValue {
    let mut b = FfiBox::allocate(t.size() + 3, t.alignment());
    t.encode(&mut b, 3, &ScriptValue::Integer(v), order).unwrap();
    t.decode(&b, 3, order).unwrap()
}

#[test]
fn integers_round_trip_for_every_width_and_signedness() {
    for width in [1usize, 2, 4, 8] {
        for signed in [false, true] {
            let t = integer(width, signed);
            let (low, high) = bounds(width, signed);
            let samples = [low, low + 1, low / 2, -1, 0, 1, 100, high / 2, high - 1, high];
            for v in samples {
                if v < low || v > high {
                    continue;
                }
                for order in [ByteOrder::LittleEndian, ByteOrder::BigEndian] {
                    assert_eq!(roundtrip(&t, v, order), ScriptValue::Integer(v));
                }
            }
        }
    }
}

#[test]
fn integers_out_of_range_are_rejected() {
    for width in [1usize, 2, 4, 8] {
        for signed in [false, true] {
            let t = integer(width, signed);
            let (low, high) = bounds(width, signed);
            let mut b = FfiBox::allocate(width, width);
            for v in [low - 1, high + 1, i128::MIN, i128::MAX] {
                let r = t.encode(&mut b, 0, &ScriptValue::Integer(v), ByteOrder::LittleEndian);
                assert_eq!(r, Err(ConversionError::OutOfRange));
                assert_eq!(b.read(0, width).unwrap(), vec![0u8; width]);
            }
        }
    }
}

#[test]
fn u16_thousand_round_trips_and_minus_one_is_rejected() {
    let t = integer(2, false);
    let mut b = FfiBox::allocate(2, 2);
    assert_eq!(t.encode(&mut b, 0, &ScriptValue::Integer(1000), ByteOrder::LittleEndian), Ok(()));
    assert_eq!(t.decode(&b, 0, ByteOrder::LittleEndian), Ok(ScriptValue::Integer(1000)));
    assert_eq!(
        t.encode(&mut b, 0, &ScriptValue::Integer(-1), ByteOrder::LittleEndian),
        Err(ConversionError::OutOfRange)
    );
    assert_eq!(t.decode(&b, 0, ByteOrder::LittleEndian), Ok(ScriptValue::Integer(1000)));
}

#[test]
fn byte_patterns_follow_the_byte_order() {
    let t = integer(2, false);
    let mut b = FfiBox::allocate(4, 2);
    t.encode(&mut b, 0, &ScriptValue::Integer(1000), ByteOrder::LittleEndian).unwrap();
    t.encode(&mut b, 2, &ScriptValue::Integer(1000), ByteOrder::BigEndian).unwrap();
    assert_eq!(b.read(0, 4).unwrap(), vec![0xE8, 0x03, 0x03, 0xE8]);
    let s = integer(4, true);
    let mut c = FfiBox::allocate(4, 4);
    s.encode(&mut c, 0, &ScriptValue::Integer(-2), ByteOrder::LittleEndian).unwrap();
    assert_eq!(c.read(0, 4).unwrap(), vec![0xFE, 0xFF, 0xFF, 0xFF]);
    assert_eq!(c.read(0, 4).unwrap(), (-2i32).to_le_bytes().to_vec());
    s.encode(&mut c, 0, &ScriptValue::Integer(0x0102_0304), ByteOrder::BigEndian).unwrap();
    assert_eq!(c.read(0, 4).unwrap(), vec![1, 2, 3, 4]);
}

#[test]
fn encoding_leaves_other_bytes_alone() {
    let t = integer(2, false);
    let mut b = FfiBox::from_bytes(vec![9, 9, 9, 9, 9], 1);
    t.encode(&mut b, 2, &ScriptValue::Integer(0x0102), ByteOrder::BigEndian).unwrap();
    assert_eq!(b.into_bytes(), vec![9, 9, 1, 2, 9]);
}

#[test]
fn unsigned_full_width_decodes_exactly() {
    let t = integer(8, false);
    let b = FfiBox::from_bytes(vec![0xFF; 8], 8);
    assert_eq!(
        t.decode(&b, 0, ByteOrder::LittleEndian),
        Ok(ScriptValue::Integer(u64::MAX as i128))
    );
    let s = integer(8, true);
    assert_eq!(s.decode(&b, 0, ByteOrder::LittleEndian), Ok(ScriptValue::Integer(-1)));
}

#[test]
fn integer_types_accept_floats_without_fraction() {
    let t = integer(2, false);
    let mut b = FfiBox::allocate(2, 2);
    let order = ByteOrder::LittleEndian;
    assert_eq!(t.encode(&mut b, 0, &ScriptValue::Float(1000.0f64.to_bits()), order), Ok(()));
    assert_eq!(t.decode(&b, 0, order), Ok(ScriptValue::Integer(1000)));
    assert_eq!(t.encode(&mut b, 0, &ScriptValue::Float((-0.0f64).to_bits()), order), Ok(()));
    assert_eq!(t.decode(&b, 0, order), Ok(ScriptValue::Integer(0)));
    assert_eq!(
        t.encode(&mut b, 0, &ScriptValue::Float(0.5f64.to_bits()), order),
        Err(ConversionError::PrecisionLoss)
    );
    assert_eq!(
        t.encode(&mut b, 0, &ScriptValue::Float(f64::NAN.to_bits()), order),
        Err(ConversionError::PrecisionLoss)
    );
    assert_eq!(
        t.encode(&mut b, 0, &ScriptValue::Float(f64::INFINITY.to_bits()), order),
        Err(ConversionError::PrecisionLoss)
    );
    assert_eq!(
        t.encode(&mut b, 0, &ScriptValue::Float(65536.0f64.to_bits()), order),
        Err(ConversionError::OutOfRange)
    );
    assert_eq!(
        t.encode(&mut b, 0, &ScriptValue::Float((-1.0f64).to_bits()), order),
        Err(ConversionError::OutOfRange)
    );
    assert_eq!(
        t.encode(&mut b, 0, &ScriptValue::Float(1e300f64.to_bits()), order),
        Err(ConversionError::OutOfRange)
    );
}

#[test]
fn integer_types_accept_numeric_strings() {
    let t = integer(2, false);
    let s = integer(2, true);
    let mut b = FfiBox::allocate(2, 2);
    let order = ByteOrder::LittleEndian;
    let text = |s: &str| ScriptValue::String(s.as_bytes().to_vec());
    assert_eq!(t.encode(&mut b, 0, &text("1000"), order), Ok(()));
    assert_eq!(t.decode(&b, 0, order), Ok(ScriptValue::Integer(1000)));
    assert_eq!(t.encode(&mut b, 0, &text("+65535"), order), Ok(()));
    assert_eq!(t.decode(&b, 0, order), Ok(ScriptValue::Integer(65535)));
    assert_eq!(s.encode(&mut b, 0, &text("-32768"), order), Ok(()));
    assert_eq!(s.decode(&b, 0, order), Ok(ScriptValue::Integer(-32768)));
    for bad in ["", "+", "-", "12a", " 12", "1.0", "65536", "-1", "-0", "0x10", "١٢"] {
        assert_eq!(
            t.encode(&mut b, 0, &text(bad), order),
            Err(ConversionError::ParseFailure),
            "{:?}",
            bad
        );
    }
    assert_eq!(s.encode(&mut b, 0, &text("32768"), order), Err(ConversionError::ParseFailure));
    assert_eq!(s.encode(&mut b, 0, &text("-0"), order), Ok(()));
}

#[test]
fn other_kinds_of_value_are_unsupported_by_integer_types() {
    let t = integer(4, true);
    let mut b = FfiBox::allocate(4, 4);
    for v in [ScriptValue::Nil, ScriptValue::Boolean(true), ScriptValue::Handle(7)] {
        assert_eq!(
            t.encode(&mut b, 0, &v, ByteOrder::LittleEndian),
            Err(ConversionError::UnsupportedValueKind)
        );
    }
}

#[test]
fn pointers_hold_handles_only() {
    let t = NativeType::pointer();
    assert_eq!(t.kind(), AbiKind::Pointer);
    assert_eq!((t.size(), t.alignment(), t.get_signedness()), (8, 8, false));
    let mut b = FfiBox::allocate(8, 8);
    let order = ByteOrder::BigEndian;
    assert_eq!(t.encode(&mut b, 0, &ScriptValue::Handle(0xDEAD_BEEF), order), Ok(()));
    assert_eq!(t.decode(&b, 0, order), Ok(ScriptValue::Handle(0xDEAD_BEEF)));
    assert_eq!(
        t.encode(&mut b, 0, &ScriptValue::Integer(1), order),
        Err(ConversionError::UnsupportedValueKind)
    );
}

#[test]
fn void_holds_nothing() {
    let t = NativeType::void();
    assert_eq!((t.size(), t.alignment(), t.get_signedness()), (0, 1, false));
    let mut b = FfiBox::allocate(0, 1);
    assert_eq!(t.encode(&mut b, 0, &ScriptValue::Nil, ByteOrder::LittleEndian), Ok(()));
    assert_eq!(t.decode(&b, 0, ByteOrder::LittleEndian), Ok(ScriptValue::Nil));
    assert_eq!(
        t.encode(&mut b, 0, &ScriptValue::Integer(0), ByteOrder::LittleEndian),
        Err(ConversionError::UnsupportedValueKind)
    );
}

#[test]
fn aggregates_are_no_script_values() {
    let t = NativeType::aggregate(8, 4).unwrap();
    let mut b = FfiBox::allocate(8, 4);
    assert_eq!(
        t.encode(&mut b, 0, &ScriptValue::Integer(0), ByteOrder::LittleEndian),
        Err(ConversionError::UnsupportedValueKind)
    );
    assert_eq!(
        t.decode(&b, 0, ByteOrder::LittleEndian),
        Err(ConversionError::UnsupportedValueKind)
    );
}

#[test]
fn doubles_keep_their_pattern() {
    let t = NativeType::float(8).unwrap();
    let mut b = FfiBox::allocate(8, 8);
    let order = ByteOrder::LittleEndian;
    for x in [0.0f64, -0.0, 0.1, -1.5, f64::MAX, f64::MIN_POSITIVE, f64::INFINITY] {
        assert_eq!(t.encode(&mut b, 0, &ScriptValue::Float(x.to_bits()), order), Ok(()));
        assert_eq!(b.read(0, 8).unwrap(), x.to_le_bytes().to_vec());
        assert_eq!(t.decode(&b, 0, order), Ok(ScriptValue::Float(x.to_bits())));
    }
    assert_eq!(
        t.encode(&mut b, 0, &ScriptValue::Integer(1), order),
        Err(ConversionError::UnsupportedValueKind)
    );
}

#[test]
fn singles_take_what_needs_no_rounding() {
    let t = NativeType::float(4).unwrap();
    let mut b = FfiBox::allocate(4, 4);
    let order = ByteOrder::LittleEndian;
    for x in [0.0f32, -0.0, 1.5, -2.25, f32::MAX, f32::MIN_POSITIVE, 1e-45, f32::INFINITY] {
        let wide = ScriptValue::Float((x as f64).to_bits());
        assert_eq!(t.encode(&mut b, 0, &wide, order), Ok(()));
        assert_eq!(b.read(0, 4).unwrap(), x.to_le_bytes().to_vec());
        assert_eq!(t.decode(&b, 0, order), Ok(wide));
    }
    for x in [0.1f64, 1e300, 1e-300, f64::MIN_POSITIVE] {
        assert_eq!(
            t.encode(&mut b, 0, &ScriptValue::Float(x.to_bits()), order),
            Err(ConversionError::PrecisionLoss)
        );
    }
}

#[test]
fn descriptors_of_unsupported_widths_do_not_exist() {
    for width in [0usize, 3, 5, 6, 7, 9, 16] {
        assert_eq!(NativeType::integer(width, false), None);
        assert_eq!(NativeType::integer(width, true), None);
    }
    for width in [0usize, 1, 2, 3, 16] {
        assert_eq!(NativeType::float(width), None);
    }
    assert_eq!(NativeType::aggregate(6, 4), None);
    assert_eq!(NativeType::aggregate(6, 3), None);
}

#[test]
fn signedness_is_a_property_of_integers() {
    assert!(integer(2, true).get_signedness());
    assert!(!integer(2, false).get_signedness());
    assert!(!NativeType::float(8).unwrap().get_signedness());
    assert!(!NativeType::pointer().get_signedness());
    assert!(!NativeType::void().get_signedness());
}

#[test]
fn values_know_the_name_of_their_kind() {
    assert_eq!(ScriptValue::Nil.kind_name(), "nil");
    assert_eq!(ScriptValue::Boolean(false).kind_name(), "boolean");
    assert_eq!(ScriptValue::Integer(1).kind_name(), "integer");
    assert_eq!(ScriptValue::Float(0).kind_name(), "number");
    assert_eq!(ScriptValue::String(vec![]).kind_name(), "string");
    assert_eq!(ScriptValue::Handle(1).kind_name(), "userdata");
}

#[test]
fn a_box_checks_the_slot_itself() {
    let t = integer(4, true);
    let mut b = FfiBox::allocate(6, 2);
    let order = ByteOrder::LittleEndian;
    let out = AccessError::Handle(HandleError::OffsetOutOfBounds);
    assert_eq!(b.write_value(2, &t, &ScriptValue::Integer(-3), order), Ok(()));
    assert_eq!(b.read_value(2, &t, order), Ok(ScriptValue::Integer(-3)));
    assert_eq!(b.read(0, 6).unwrap(), vec![0, 0, 0xFD, 0xFF, 0xFF, 0xFF]);
    assert_eq!(b.write_value(3, &t, &ScriptValue::Integer(1), order), Err(out));
    assert_eq!(b.write_value(usize::MAX, &t, &ScriptValue::Integer(1), order), Err(out));
    assert_eq!(b.read_value(3, &t, order), Err(out));
    assert_eq!(
        b.write_value(0, &t, &ScriptValue::Boolean(false), order),
        Err(AccessError::Conversion(ConversionError::UnsupportedValueKind))
    );
    assert_eq!(b.read(0, 6).unwrap(), vec![0, 0, 0xFD, 0xFF, 0xFF, 0xFF]);
}
