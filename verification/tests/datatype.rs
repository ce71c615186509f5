use triton_bridge::utils::{
    data_type_size, data_type_to_string, str_equal, string_to_data_type, DataType,
    ElementSize,
};

const ALL: [(DataType, &str, usize, u32); 14] = [
    (DataType::Bool, "BOOL", 1, 1),
    (DataType::Uint8, "UINT8", 1, 2),
    (DataType::Uint16, "UINT16", 2, 3),
    (DataType::Uint32, "UINT32", 4, 4),
    (DataType::Uint64, "UINT64", 8, 5),
    (DataType::Int8, "INT8", 1, 6),
    (DataType::Int16, "INT16", 2, 7),
    (DataType::Int32, "INT32", 4, 8),
    (DataType::Int64, "INT64", 8, 9),
    (DataType::Fp16, "FP16", 2, 10),
    (DataType::Fp32, "FP32", 4, 11),
    (DataType::Fp64, "FP64", 8, 12),
    (DataType::Bytes, "BYTES", 0, 13),
    (DataType::Bf16, "BF16", 2, 14),
];

#[test]
fn names_are_read() {
    for (datatype, name, _, _) in ALL {
        assert_eq!(string_to_data_type(name), datatype);
    }
}

#[test]
fn names_are_written() {
    for (datatype, name, _, _) in ALL {
        assert_eq!(data_type_to_string(datatype), name);
    }
    assert_eq!(data_type_to_string(DataType::Invalid), "INVALID");
}

#[test]
fn name_round_trip() {
    for (datatype, _, _, _) in ALL {
        assert_eq!(string_to_data_type(data_type_to_string(datatype)), datatype);
    }
}

#[test]
fn unknown_names_are_invalid() {
    assert_eq!(string_to_data_type(""), DataType::Invalid);
    assert_eq!(string_to_data_type("fp32"), DataType::Invalid);
    assert_eq!(string_to_data_type("FP32 "), DataType::Invalid);
    assert_eq!(string_to_data_type("FP128"), DataType::Invalid);
    assert_eq!(string_to_data_type("INVALID"), DataType::Invalid);
    assert_eq!(string_to_data_type("BYTE"), DataType::Invalid);
    assert_eq!(string_to_data_type("ŪINT8"), DataType::Invalid);
}

#[test]
fn widths_follow_the_table() {
    assert_eq!(data_type_size(DataType::Bool), ElementSize::Fixed(1));
    assert_eq!(data_type_size(DataType::Uint8), ElementSize::Fixed(1));
    assert_eq!(data_type_size(DataType::Int8), ElementSize::Fixed(1));
    assert_eq!(data_type_size(DataType::Uint16), ElementSize::Fixed(2));
    assert_eq!(data_type_size(DataType::Int16), ElementSize::Fixed(2));
    assert_eq!(data_type_size(DataType::Fp16), ElementSize::Fixed(2));
    assert_eq!(data_type_size(DataType::Bf16), ElementSize::Fixed(2));
    assert_eq!(data_type_size(DataType::Uint32), ElementSize::Fixed(4));
    assert_eq!(data_type_size(DataType::Int32), ElementSize::Fixed(4));
    assert_eq!(data_type_size(DataType::Fp32), ElementSize::Fixed(4));
    assert_eq!(data_type_size(DataType::Uint64), ElementSize::Fixed(8));
    assert_eq!(data_type_size(DataType::Int64), ElementSize::Fixed(8));
    assert_eq!(data_type_size(DataType::Fp64), ElementSize::Fixed(8));
}

#[test]
fn the_size_is_positive_for_fixed_widths() {
    for (datatype, _, width, _) in ALL {
        if datatype == DataType::Bytes {
            continue;
        }
        match data_type_size(datatype) {
            ElementSize::Fixed(n) => {
                assert!(n > 0);
                assert_eq!(n, width);
            }
            other => panic!("{:?} has size {:?}", datatype, other),
        }
    }
}

#[test]
fn the_size_marks_variable_and_invalid() {
    assert_eq!(data_type_size(DataType::Bytes), ElementSize::Variable);
    assert_eq!(data_type_size(DataType::Invalid), ElementSize::Invalid);
    assert_eq!(data_type_size(string_to_data_type("COMPLEX64")), ElementSize::Invalid);
    assert_eq!(data_type_size(string_to_data_type("")), ElementSize::Invalid);
    assert_eq!(data_type_size(DataType::from_code(0)), ElementSize::Invalid);
    assert_eq!(data_type_size(DataType::from_code(99)), ElementSize::Invalid);
    assert_ne!(data_type_size(DataType::Bytes), data_type_size(DataType::Invalid));
}

#[test]
fn an_unknown_datatype_has_no_width_at_all() {
    for (datatype, _, _, _) in ALL {
        assert_ne!(data_type_size(datatype), data_type_size(DataType::Invalid));
    }
    assert_ne!(data_type_size(DataType::Invalid), ElementSize::Fixed(0));
    assert_ne!(data_type_size(DataType::Bytes), ElementSize::Fixed(0));
}

#[test]
fn codes_round_trip() {
    for (datatype, _, _, code) in ALL {
        assert_eq!(datatype.code(), code);
        assert_eq!(DataType::from_code(code), datatype);
    }
    assert_eq!(DataType::Invalid.code(), 0);
    assert_eq!(DataType::from_code(0), DataType::Invalid);
    assert_eq!(DataType::from_code(15), DataType::Invalid);
    assert_eq!(DataType::from_code(u32::MAX), DataType::Invalid);
}

#[test]
fn strings_compare_by_characters() {
    assert!(str_equal("", ""));
    assert!(str_equal("INPUT0", "INPUT0"));
    assert!(!str_equal("INPUT0", "INPUT1"));
    assert!(!str_equal("INPUT", "INPUT0"));
    assert!(str_equal("é", "é"));
    assert!(!str_equal("é", "e"));
}
