use triton_bridge::codec::{
    check_shape, checked_element_count, decode, encode, frame_elements, shape_holds,
    unframe_elements, CodecError,
};
use triton_bridge::proto::InferTensorContents;
use triton_bridge::utils::DataType;

fn uints(values: &[u32]) -> InferTensorContents {
    let mut contents = InferTensorContents::new();
    contents.uint_contents = values.to_vec();
    contents
}

fn ints(values: &[i32]) -> InferTensorContents {
    let mut contents = InferTensorContents::new();
    contents.int_contents = values.to_vec();
    contents
}

fn byte_strings(values: &[&[u8]]) -> InferTensorContents {
    let mut contents = InferTensorContents::new();
    contents.bytes_contents = values.iter().map(|v| v.to_vec()).collect();
    contents
}

#[test]
fn empty_contents_hold_nothing() {
    let contents = InferTensorContents::new();
    assert!(contents.bool_contents.is_empty());
    assert!(contents.int_contents.is_empty());
    assert!(contents.int64_contents.is_empty());
    assert!(contents.uint_contents.is_empty());
    assert!(contents.uint64_contents.is_empty());
    assert!(contents.fp32_contents.is_empty());
    assert!(contents.fp64_contents.is_empty());
    assert!(contents.bytes_contents.is_empty());
}

#[test]
fn shapes_are_checked() {
    assert_eq!(check_shape(&[]), Ok(()));
    assert_eq!(check_shape(&[0]), Ok(()));
    assert_eq!(check_shape(&[2, 3, 4]), Ok(()));
    assert_eq!(check_shape(&[-1]), Err(CodecError::InvalidShape));
    assert_eq!(check_shape(&[2, -3, 4]), Err(CodecError::InvalidShape));
    assert_eq!(check_shape(&[i64::MAX, i64::MIN]), Err(CodecError::InvalidShape));
}

#[test]
fn elements_are_counted() {
    assert_eq!(checked_element_count(&[]), Some(1));
    assert_eq!(checked_element_count(&[4]), Some(4));
    assert_eq!(checked_element_count(&[2, 3, 4]), Some(24));
    assert_eq!(checked_element_count(&[2, 0, 4]), Some(0));
    assert_eq!(checked_element_count(&[i64::MAX, i64::MAX, 0]), Some(0));
    assert_eq!(checked_element_count(&[0, i64::MAX, i64::MAX]), Some(0));
    assert_eq!(checked_element_count(&[i64::MAX, i64::MAX]), None);
    assert_eq!(checked_element_count(&[1 << 32, 1 << 32]), None);
    assert_eq!(checked_element_count(&[1 << 31, 1 << 31]), Some(1 << 62));
    assert!(shape_holds(&[2, 3], 6));
    assert!(!shape_holds(&[2, 3], 5));
    assert!(!shape_holds(&[i64::MAX, 2], 0));
    assert!(shape_holds(&[], 1));
}

#[test]
fn unsigned_values_are_little_endian() {
    assert_eq!(encode(DataType::Uint8, &[4], &uints(&[1, 2, 3, 4])), Ok(vec![1, 2, 3, 4]));
    assert_eq!(
        encode(DataType::Uint16, &[2], &uints(&[0x0102, 0xfffe])),
        Ok(vec![0x02, 0x01, 0xfe, 0xff])
    );
    assert_eq!(
        encode(DataType::Uint32, &[2], &uints(&[0x01020304, u32::MAX])),
        Ok(vec![4, 3, 2, 1, 255, 255, 255, 255])
    );
    let mut contents = InferTensorContents::new();
    contents.uint64_contents = vec![0x0102030405060708, 1];
    assert_eq!(
        encode(DataType::Uint64, &[2], &contents),
        Ok(vec![8, 7, 6, 5, 4, 3, 2, 1, 1, 0, 0, 0, 0, 0, 0, 0])
    );
}

#[test]
fn signed_values_are_twos_complement() {
    assert_eq!(encode(DataType::Int8, &[4], &ints(&[0, -1, 127, -128])), Ok(vec![0, 255, 127, 128]));
    assert_eq!(
        encode(DataType::Int16, &[3], &ints(&[-2, 32767, -32768])),
        Ok(vec![0xfe, 0xff, 0xff, 0x7f, 0x00, 0x80])
    );
    assert_eq!(
        encode(DataType::Int32, &[2], &ints(&[-1, i32::MIN])),
        Ok(vec![255, 255, 255, 255, 0, 0, 0, 0x80])
    );
    let mut contents = InferTensorContents::new();
    contents.int64_contents = vec![-1, i64::MIN, i64::MAX];
    let mut expected = vec![255u8; 8];
    expected.extend_from_slice(&i64::MIN.to_le_bytes());
    expected.extend_from_slice(&i64::MAX.to_le_bytes());
    assert_eq!(encode(DataType::Int64, &[3], &contents), Ok(expected));
}

#[test]
fn booleans_take_one_byte() {
    let mut contents = InferTensorContents::new();
    contents.bool_contents = vec![true, false, true];
    assert_eq!(encode(DataType::Bool, &[3], &contents), Ok(vec![1, 0, 1]));
    let decoded = decode(DataType::Bool, &[4], &[0, 1, 2, 255]).unwrap();
    assert_eq!(decoded.bool_contents, vec![false, true, true, true]);
}

#[test]
fn floats_travel_as_their_bits() {
    let mut contents = InferTensorContents::new();
    contents.fp32_contents = vec![1.0f32.to_bits(), (-2.5f32).to_bits(), f32::NAN.to_bits()];
    let encoded = encode(DataType::Fp32, &[3], &contents).unwrap();
    let mut expected = Vec::new();
    expected.extend_from_slice(&1.0f32.to_le_bytes());
    expected.extend_from_slice(&(-2.5f32).to_le_bytes());
    expected.extend_from_slice(&f32::NAN.to_le_bytes());
    assert_eq!(encoded, expected);
    assert_eq!(decode(DataType::Fp32, &[3], &encoded).unwrap().fp32_contents, contents.fp32_contents);

    let mut contents = InferTensorContents::new();
    contents.fp64_contents = vec![1.0f64.to_bits(), f64::MIN_POSITIVE.to_bits()];
    let encoded = encode(DataType::Fp64, &[2], &contents).unwrap();
    let mut expected = Vec::new();
    expected.extend_from_slice(&1.0f64.to_le_bytes());
    expected.extend_from_slice(&f64::MIN_POSITIVE.to_le_bytes());
    assert_eq!(encoded, expected);
    assert_eq!(decode(DataType::Fp64, &[2], &encoded).unwrap().fp64_contents, contents.fp64_contents);
}

#[test]
fn wide_values_keep_their_lowest_bytes() {
    assert_eq!(encode(DataType::Uint8, &[2], &uints(&[256, 0x1ff])), Ok(vec![0, 255]));
    assert_eq!(encode(DataType::Uint16, &[1], &uints(&[0x12345])), Ok(vec![0x45, 0x23]));
    assert_eq!(encode(DataType::Int8, &[2], &ints(&[128, -129])), Ok(vec![128, 127]));
    let decoded = decode(DataType::Uint8, &[2], &[0, 255]).unwrap();
    assert_eq!(decoded.uint_contents, vec![0, 255]);
}

#[test]
fn fixed_width_round_trip() {
    let shape = [2, 3];
    for datatype in [DataType::Uint8, DataType::Uint16, DataType::Uint32] {
        let values = [0u32, 1, 2, 127, 200, 255];
        let encoded = encode(datatype, &shape, &uints(&values)).unwrap();
        assert_eq!(decode(datatype, &shape, &encoded).unwrap().uint_contents, values);
    }
    for datatype in [DataType::Int8, DataType::Int16, DataType::Int32] {
        let values = [0i32, 1, -1, 127, -128, -5];
        let encoded = encode(datatype, &shape, &ints(&values)).unwrap();
        assert_eq!(decode(datatype, &shape, &encoded).unwrap().int_contents, values);
    }
    let mut contents = InferTensorContents::new();
    contents.uint64_contents = vec![0, 1, u64::MAX, 1 << 63, 12345678901234567890, 7];
    let encoded = encode(DataType::Uint64, &shape, &contents).unwrap();
    assert_eq!(decode(DataType::Uint64, &shape, &encoded).unwrap().uint64_contents, contents.uint64_contents);
    let mut contents = InferTensorContents::new();
    contents.int64_contents = vec![0, -1, i64::MAX, i64::MIN, -1234567890123456789, 7];
    let encoded = encode(DataType::Int64, &shape, &contents).unwrap();
    assert_eq!(decode(DataType::Int64, &shape, &encoded).unwrap().int64_contents, contents.int64_contents);
    let values = [u32::MAX, 0x8000_0000, 65536, 0, 1, 2];
    let encoded = encode(DataType::Uint32, &shape, &uints(&values)).unwrap();
    assert_eq!(decode(DataType::Uint32, &shape, &encoded).unwrap().uint_contents, values);
    let values = [i32::MAX, i32::MIN, -65536, 0, 1, 2];
    let encoded = encode(DataType::Int32, &shape, &ints(&values)).unwrap();
    assert_eq!(decode(DataType::Int32, &shape, &encoded).unwrap().int_contents, values);
}

#[test]
fn decoding_fills_only_the_list_of_the_datatype() {
    let decoded = decode(DataType::Int16, &[2], &[0xff, 0xff, 0x01, 0x00]).unwrap();
    assert_eq!(decoded.int_contents, vec![-1, 1]);
    assert!(decoded.uint_contents.is_empty());
    assert!(decoded.bool_contents.is_empty());
    assert!(decoded.int64_contents.is_empty());
    assert!(decoded.uint64_contents.is_empty());
    assert!(decoded.fp32_contents.is_empty());
    assert!(decoded.fp64_contents.is_empty());
    assert!(decoded.bytes_contents.is_empty());
}

#[test]
fn byte_strings_are_framed() {
    assert_eq!(
        encode(DataType::Bytes, &[2], &byte_strings(&[b"ab", b"c"])),
        Ok(vec![2, 0, 0, 0, b'a', b'b', 1, 0, 0, 0, b'c'])
    );
    assert_eq!(frame_elements(&vec![]), Vec::<u8>::new());
    assert_eq!(frame_elements(&vec![vec![]]), vec![0, 0, 0, 0]);
    let long = vec![7u8; 258];
    let framed = frame_elements(&vec![long.clone()]);
    assert_eq!(&framed[..4], &[2, 1, 0, 0]);
    assert_eq!(&framed[4..], &long[..]);
}

#[test]
fn byte_strings_round_trip() {
    let items: Vec<Vec<u8>> = vec![
        b"stringa".to_vec(),
        vec![],
        vec![0u8; 3],
        vec![1u8; 4],
        vec![2u8; 5],
        vec![3u8; 255],
        vec![4u8; 256],
        vec![5u8; 65536],
        vec![],
    ];
    let mut contents = InferTensorContents::new();
    contents.bytes_contents = items.clone();
    let encoded = encode(DataType::Bytes, &[3, 3], &contents).unwrap();
    assert_eq!(encoded.len(), 9 * 4 + items.iter().map(|i| i.len()).sum::<usize>());
    let decoded = decode(DataType::Bytes, &[3, 3], &encoded).unwrap();
    assert_eq!(decoded.bytes_contents, items);
    assert_eq!(unframe_elements(&encoded), Some(items));
}

#[test]
fn an_empty_buffer_holds_no_byte_string() {
    assert_eq!(unframe_elements(&[]), Some(vec![]));
    let decoded = decode(DataType::Bytes, &[0], &[]).unwrap();
    assert!(decoded.bytes_contents.is_empty());
}

#[test]
fn truncated_framing_is_refused() {
    assert_eq!(unframe_elements(&[1]), None);
    assert_eq!(unframe_elements(&[1, 0, 0]), None);
    assert_eq!(unframe_elements(&[1, 0, 0, 0]), None);
    assert_eq!(unframe_elements(&[2, 0, 0, 0, b'a']), None);
    assert_eq!(unframe_elements(&[1, 0, 0, 0, b'a', 9]), None);
    assert_eq!(unframe_elements(&[255, 255, 255, 255, b'a']), None);
    for buffer in [&[1u8][..], &[1, 0, 0, 0], &[1, 0, 0, 0, b'a', 0, 0], &[0, 0, 0, 1, 2]] {
        assert_eq!(decode(DataType::Bytes, &[1], buffer).err(), Some(CodecError::TruncatedBuffer));
    }
}

#[test]
fn unknown_datatypes_are_refused() {
    let contents = InferTensorContents::new();
    assert_eq!(encode(DataType::Invalid, &[0], &contents), Err(CodecError::InvalidDatatype));
    assert_eq!(encode(DataType::Invalid, &[-1], &contents), Err(CodecError::InvalidDatatype));
    assert_eq!(decode(DataType::Invalid, &[0], &[]).err(), Some(CodecError::InvalidDatatype));
    assert_eq!(decode(DataType::Invalid, &[-1], &[1]).err(), Some(CodecError::InvalidDatatype));
}

#[test]
fn negative_dimensions_are_refused() {
    assert_eq!(encode(DataType::Uint8, &[-4], &uints(&[1, 2, 3, 4])), Err(CodecError::InvalidShape));
    assert_eq!(encode(DataType::Uint8, &[2, -1, 0], &uints(&[])), Err(CodecError::InvalidShape));
    assert_eq!(encode(DataType::Bytes, &[-1], &byte_strings(&[])), Err(CodecError::InvalidShape));
    assert_eq!(decode(DataType::Uint8, &[-1], &[]).err(), Some(CodecError::InvalidShape));
    assert_eq!(decode(DataType::Bytes, &[-1], &[1]).err(), Some(CodecError::InvalidShape));
}

#[test]
fn values_must_fill_the_shape() {
    assert_eq!(encode(DataType::Uint8, &[3], &uints(&[1, 2, 3, 4])), Err(CodecError::InvalidShape));
    assert_eq!(encode(DataType::Uint8, &[5], &uints(&[1, 2, 3, 4])), Err(CodecError::InvalidShape));
    assert_eq!(encode(DataType::Uint8, &[], &uints(&[])), Err(CodecError::InvalidShape));
    assert_eq!(encode(DataType::Uint8, &[], &uints(&[9])), Ok(vec![9]));
    assert_eq!(encode(DataType::Uint8, &[2, 0], &uints(&[])), Ok(vec![]));
    assert_eq!(encode(DataType::Int32, &[2], &uints(&[1, 2])), Err(CodecError::InvalidShape));
    assert_eq!(encode(DataType::Bytes, &[2], &byte_strings(&[b"a"])), Err(CodecError::InvalidShape));
    assert_eq!(encode(DataType::Uint8, &[i64::MAX, i64::MAX], &uints(&[1])), Err(CodecError::InvalidShape));
    assert_eq!(decode(DataType::Uint16, &[2], &[1, 2, 3]).err(), Some(CodecError::InvalidShape));
    assert_eq!(decode(DataType::Uint16, &[2], &[1, 2, 3, 4, 5]).err(), Some(CodecError::InvalidShape));
    assert_eq!(decode(DataType::Uint16, &[i64::MAX, 2], &[1, 2]).err(), Some(CodecError::InvalidShape));
    assert_eq!(decode(DataType::Uint64, &[i64::MAX], &[1, 2]).err(), Some(CodecError::InvalidShape));
    assert_eq!(decode(DataType::Bytes, &[2], &[0, 0, 0, 0]).err(), Some(CodecError::InvalidShape));
}

#[test]
fn datatypes_without_a_typed_list_have_no_values() {
    let mut contents = InferTensorContents::new();
    contents.fp32_contents = vec![1.0f32.to_bits()];
    assert_eq!(encode(DataType::Fp16, &[1], &contents), Err(CodecError::InvalidShape));
    assert_eq!(encode(DataType::Bf16, &[0], &contents), Ok(vec![]));
    let decoded = decode(DataType::Fp16, &[2], &[0, 60, 0, 64]).unwrap();
    assert!(decoded.fp32_contents.is_empty());
    assert!(decoded.uint_contents.is_empty());
    assert_eq!(decode(DataType::Bf16, &[2], &[0, 60, 0]).err(), Some(CodecError::InvalidShape));
}

#[test]
fn a_shape_with_a_negative_dimension_holds_nothing() {
    assert_eq!(checked_element_count(&[-1]), None);
    assert_eq!(checked_element_count(&[0, -1]), None);
    assert_eq!(checked_element_count(&[-1, 0]), None);
    assert!(!shape_holds(&[0, -1], 0));
    assert!(!shape_holds(&[-2, -3], 6));
}
