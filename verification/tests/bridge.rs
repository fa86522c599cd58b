use lune_std_ffi::bit_mask::{u8_test, U8_MASK1, U8_MASK3, U8_MASK8};
use lune_std_ffi::bridge::{CallOutcome, Signature};
use lune_std_ffi::descriptor::NativeType;
use lune_std_ffi::encoding::ByteOrder;
use lune_std_ffi::error::{BridgeError, ConversionError};
use lune_std_ffi::memory::FfiBox;
use lune_std_ffi::stream::{chunk_capacity, chunk_value, CHUNK_SIZE};
use lune_std_ffi::types::{create_all_types, create_type};
use lune_std_ffi::value::ScriptValue;

const ORDER: ByteOrder = ByteOrder::LittleEndian;

fn int32() -> NativeType {
    NativeType::integer(4, true).unwrap()
}

fn native_add(signature: &Signature, frame: FfiBox) -> CallOutcome {
    let a = signature.argument(0).unwrap().decode(&frame, 0, ORDER).unwrap();
    let b = signature.argument(1).unwrap().decode(&frame, 4, ORDER).unwrap();
    match (a, b) {
        (ScriptValue::Integer(a), ScriptValue::Integer(b)) => {
            CallOutcome::Returned(((a + b) as i32).to_le_bytes().to_vec())
        },
        _ => CallOutcome::Failed,
    }
}

#[test]
fn calling_an_addition_of_two_integers() {
    let signature = Signature::prepare(0x1000, vec![int32(), int32()], int32()).unwrap();
    assert_eq!(signature.address(), 0x1000);
    assert_eq!(signature.arity(), 2);
    assert_eq!(signature.result(), int32());
    let arguments = vec![ScriptValue::Integer(2), ScriptValue::Integer(3)];
    let frame = signature.marshal(&arguments, ORDER).unwrap();
    assert_eq!(frame.read(0, frame.size()), Ok(vec![2, 0, 0, 0, 3, 0, 0, 0]));
    let outcome = native_add(&signature, frame);
    assert_eq!(signature.complete(outcome, ORDER), Ok(ScriptValue::Integer(5)));
}

#[test]
fn a_wrong_number_of_arguments_is_refused_before_the_call() {
    let signature = Signature::prepare(0x1000, vec![int32(), int32()], int32()).unwrap();
    let one = vec![ScriptValue::Integer(2)];
    assert!(matches!(signature.marshal(&one, ORDER), Err(BridgeError::ArityMismatch)));
    let three = vec![ScriptValue::Integer(2), ScriptValue::Integer(3), ScriptValue::Integer(4)];
    assert!(matches!(signature.marshal(&three, ORDER), Err(BridgeError::ArityMismatch)));
    let bad = vec![ScriptValue::Nil];
    assert!(matches!(signature.marshal(&bad, ORDER), Err(BridgeError::ArityMismatch)));
    assert!(matches!(signature.marshal(&vec![], ORDER), Err(BridgeError::ArityMismatch)));
}

#[test]
fn a_refused_argument_fails_the_call() {
    let signature = Signature::prepare(0x1000, vec![int32(), int32()], int32()).unwrap();
    let late = vec![ScriptValue::Integer(2), ScriptValue::Nil];
    assert!(matches!(
        signature.marshal(&late, ORDER),
        Err(BridgeError::Conversion(ConversionError::UnsupportedValueKind))
    ));
    let both = vec![ScriptValue::Integer(1 << 40), ScriptValue::Nil];
    assert!(matches!(
        signature.marshal(&both, ORDER),
        Err(BridgeError::Conversion(ConversionError::OutOfRange))
    ));
    let good = vec![ScriptValue::Integer(2), ScriptValue::Integer(3)];
    assert!(signature.marshal(&good, ORDER).is_ok());
}

#[test]
fn arguments_are_laid_out_like_a_struct() {
    let arguments = vec![
        NativeType::integer(1, false).unwrap(),
        NativeType::pointer(),
        NativeType::integer(2, true).unwrap(),
        NativeType::float(8).unwrap(),
    ];
    let signature = Signature::prepare(1, arguments.clone(), NativeType::void()).unwrap();
    assert_eq!(signature.arity(), 4);
    assert_eq!(signature.argument(3), Some(arguments[3]));
    assert_eq!(signature.argument(4), None);
    let values = vec![
        ScriptValue::Integer(0xAB),
        ScriptValue::Handle(0x0102_0304_0506_0708),
        ScriptValue::String(b"-2".to_vec()),
        ScriptValue::Float(1.0f64.to_bits()),
    ];
    let frame = signature.marshal(&values, ByteOrder::BigEndian).unwrap();
    assert_eq!(frame.alignment(), 8);
    let mut expected = vec![0xAB, 0, 0, 0, 0, 0, 0, 0, 1, 2, 3, 4, 5, 6, 7, 8, 0xFF, 0xFE];
    expected.extend([0u8; 6]);
    expected.extend(1.0f64.to_be_bytes());
    assert_eq!(frame.into_bytes(), expected);
    assert_eq!(signature.complete(CallOutcome::Returned(vec![]), ORDER), Ok(ScriptValue::Nil));
    assert_eq!(
        signature.complete(CallOutcome::Returned(vec![0]), ORDER),
        Err(BridgeError::NativeFailure)
    );
}

#[test]
fn a_call_without_arguments() {
    let signature = Signature::prepare(7, vec![], NativeType::integer(2, false).unwrap()).unwrap();
    let frame = signature.marshal(&vec![], ORDER).unwrap();
    assert_eq!(frame.size(), 0);
    assert_eq!(signature.unmarshal(vec![0xE8, 0x03], ORDER), Ok(ScriptValue::Integer(1000)));
    assert_eq!(signature.unmarshal(vec![0xE8], ORDER), Err(BridgeError::NativeFailure));
    assert_eq!(signature.unmarshal(vec![0xE8, 3, 0], ORDER), Err(BridgeError::NativeFailure));
    assert_eq!(signature.complete(CallOutcome::Failed, ORDER), Err(BridgeError::NativeFailure));
}

#[test]
fn preparing_needs_an_address_and_passable_types() {
    let unresolved = Signature::prepare(0, vec![int32()], int32());
    assert!(matches!(unresolved, Err(BridgeError::UnresolvedSymbol)));
    let unresolved = Signature::prepare(0, vec![NativeType::void()], int32());
    assert!(matches!(unresolved, Err(BridgeError::UnresolvedSymbol)));
    let void_argument = Signature::prepare(1, vec![int32(), NativeType::void()], int32());
    assert!(matches!(void_argument, Err(BridgeError::UnsupportedType)));
    let aggregate = NativeType::aggregate(64, 8).unwrap();
    let by_value = Signature::prepare(1, vec![aggregate], int32());
    assert!(matches!(by_value, Err(BridgeError::UnsupportedType)));
    let returned = Signature::prepare(1, vec![int32()], aggregate);
    assert!(matches!(returned, Err(BridgeError::UnsupportedType)));
    assert!(Signature::prepare(1, vec![NativeType::pointer()], NativeType::void()).is_ok());
}

#[test]
fn a_signature_serves_many_calls() {
    let signature = Signature::prepare(0x1000, vec![int32(), int32()], int32()).unwrap();
    for (a, b) in [(2i128, 3i128), (-7, 7), (i32::MAX as i128 - 1, 1), (i32::MIN as i128, 0)] {
        let arguments = vec![ScriptValue::Integer(a), ScriptValue::Integer(b)];
        let frame = signature.marshal(&arguments, ORDER).unwrap();
        let outcome = native_add(&signature, frame);
        assert_eq!(signature.complete(outcome, ORDER), Ok(ScriptValue::Integer(a + b)));
    }
}

#[test]
fn chunks_of_a_stream() {
    assert_eq!(CHUNK_SIZE, 8);
    assert_eq!(chunk_capacity(None), 8);
    assert_eq!(chunk_capacity(Some(0)), 0);
    assert_eq!(chunk_capacity(Some(4096)), 4096);
    assert_eq!(chunk_value(vec![]), ScriptValue::Nil);
    assert_eq!(chunk_value(vec![0]), ScriptValue::String(vec![0]));
    assert_eq!(chunk_value(b"hello".to_vec()), ScriptValue::String(b"hello".to_vec()));
}

#[test]
fn the_catalog_of_integer_types() {
    let (name, t) = create_type(2, false).unwrap();
    assert_eq!(name, "u16");
    assert_eq!((t.size(), t.alignment(), t.get_signedness()), (2, 2, false));
    assert_eq!(create_type(3, false), None);
    let all = create_all_types();
    let names: Vec<&str> = all.iter().map(|entry| entry.0).collect();
    assert_eq!(names, vec!["u8", "i8", "u16", "i16", "u32", "i32", "u64", "i64"]);
    for (name, t) in all {
        assert_eq!(name.starts_with('i'), t.get_signedness());
        assert_eq!(name[1..].parse::<usize>().unwrap(), 8 * t.size());
        assert_eq!(t.alignment(), t.size());
        assert_eq!(Some((name, t)), create_type(t.size(), t.get_signedness()));
    }
}

#[test]
fn argument_slots_of_a_signature() {
    let arguments = vec![NativeType::integer(1, false).unwrap(), int32(), NativeType::pointer()];
    let signature = Signature::prepare(9, arguments, NativeType::void()).unwrap();
    assert_eq!(signature.argument_offset(0), Some(0));
    assert_eq!(signature.argument_offset(1), Some(4));
    assert_eq!(signature.argument_offset(2), Some(8));
    assert_eq!(signature.argument_offset(3), None);
}

#[test]
fn flags_of_a_byte() {
    assert!(u8_test(0b1000_0101, U8_MASK1));
    assert!(u8_test(0b1000_0101, U8_MASK3));
    assert!(u8_test(0b1000_0101, U8_MASK8));
    assert!(!u8_test(0b0111_1010, U8_MASK1 | U8_MASK3 | U8_MASK8));
    assert!(!u8_test(0xFF, 0));
}

#[test]
fn values_can_be_copied() {
    for v in [
        ScriptValue::Nil,
        ScriptValue::Boolean(true),
        ScriptValue::Integer(-5),
        ScriptValue::Float(7),
        ScriptValue::String(vec![1, 2, 3]),
        ScriptValue::Handle(9),
    ] {
        assert_eq!(v.clone(), v);
    }
}
