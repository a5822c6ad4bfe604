use matios_host::typed_value::{KeyedTypedValue, TypedValue};

#[test]
fn scalar_constructors_tag_and_store() {
    let n = TypedValue::null();
    assert_eq!((n.value_type, n.value), (0, 0));
    assert_eq!((TypedValue::bool(true).value_type, TypedValue::bool(true).value), (1, 1));
    assert_eq!(TypedValue::bool(false).value, 0);
    assert_eq!((TypedValue::u8(200).value_type, TypedValue::u8(200).value), (2, 200));
    assert_eq!(TypedValue::i8(5).value_type, 3);
    assert_eq!(TypedValue::u16(65535).value_type, 4);
    assert_eq!(TypedValue::u16(65535).value, 65535);
    assert_eq!(TypedValue::i16(-2).value_type, 5);
    assert_eq!(TypedValue::u32(7).value_type, 6);
    assert_eq!(TypedValue::i32(7).value_type, 7);
    assert_eq!(TypedValue::u64(9).value_type, 8);
    assert_eq!(TypedValue::i64(9).value_type, 9);
}

#[test]
fn negative_values_are_sign_extended() {
    assert_eq!(TypedValue::i8(-1).value, usize::MAX);
    assert_eq!(TypedValue::i16(-2).value, usize::MAX - 1);
    assert_eq!(TypedValue::i32(-3).value, usize::MAX - 2);
    assert_eq!(TypedValue::i64(-4).value, usize::MAX - 3);
}

#[test]
fn u64_value_reads_back() {
    let x: u64 = 0xdead_beef_0123_4567;
    assert_eq!(TypedValue::u64(x).get_as_u64(), x);
    assert_eq!(TypedValue::u64(0).get_as_u64(), 0);
}

#[test]
fn vector_layout_lists_length_then_pairs() {
    let values = [TypedValue::u8(3), TypedValue::bool(true), TypedValue::null()];
    let words = TypedValue::vector_layout(&values);
    assert_eq!(words, vec![3, 2, 3, 1, 1, 0, 0]);
    assert_eq!(TypedValue::vector_layout(&[]), vec![0]);
}

#[test]
fn keyed_value_keeps_key_and_value() {
    let k = KeyedTypedValue::from("width".to_string(), TypedValue::u64(640));
    assert_eq!(k.key, "width");
    assert_eq!(k.value_type, 8);
    assert_eq!(k.value, 640);
}
