//! Tensor datatypes: their wire names, their numeric tags and their element sizes.

use vstd::prelude::*;
use vstd::utf8::{encode_utf8, encode_utf8_decode_utf8};

verus! {

/// Element datatype of a tensor. `Invalid` stands for every tag that is not recognized.
#[derive(Clone, Copy, Debug, PartialEq, Eq, Structural)]
pub enum DataType {
    Invalid,
    Bool,
    Uint8,
    Uint16,
    Uint32,
    Uint64,
    Int8,
    Int16,
    Int32,
    Int64,
    Fp16,
    Fp32,
    Fp64,
    Bytes,
    Bf16,
}

/// Size of one element: a positive number of bytes, or one of two markers that
/// keep "variable length" apart from "not a datatype".
#[derive(Clone, Copy, Debug, PartialEq, Eq, Structural)]
pub enum ElementSize {
    /// Every element takes this many bytes.
    Fixed(usize),
    /// Elements are byte strings of their own length.
    Variable,
    /// The datatype is not recognized.
    Invalid,
}

/// The datatype that a wire name stands for; `Invalid` for every other string.
pub open spec fn datatype_of_name(name: Seq<char>) -> DataType {
    if name == "BOOL"@ {
        DataType::Bool
    } else if name == "UINT8"@ {
        DataType::Uint8
    } else if name == "UINT16"@ {
        DataType::Uint16
    } else if name == "UINT32"@ {
        DataType::Uint32
    } else if name == "UINT64"@ {
        DataType::Uint64
    } else if name == "INT8"@ {
        DataType::Int8
    } else if name == "INT16"@ {
        DataType::Int16
    } else if name == "INT32"@ {
        DataType::Int32
    } else if name == "INT64"@ {
        DataType::Int64
    } else if name == "FP16"@ {
        DataType::Fp16
    } else if name == "FP32"@ {
        DataType::Fp32
    } else if name == "FP64"@ {
        DataType::Fp64
    } else if name == "BYTES"@ {
        DataType::Bytes
    } else if name == "BF16"@ {
        DataType::Bf16
    } else {
        DataType::Invalid
    }
}

/// The wire name of a datatype.
pub open spec fn name_of_datatype(dtype: DataType) -> Seq<char> {
    match dtype {
        DataType::Bool => "BOOL"@,
        DataType::Uint8 => "UINT8"@,
        DataType::Uint16 => "UINT16"@,
        DataType::Uint32 => "UINT32"@,
        DataType::Uint64 => "UINT64"@,
        DataType::Int8 => "INT8"@,
        DataType::Int16 => "INT16"@,
        DataType::Int32 => "INT32"@,
        DataType::Int64 => "INT64"@,
        DataType::Fp16 => "FP16"@,
        DataType::Fp32 => "FP32"@,
        DataType::Fp64 => "FP64"@,
        DataType::Bytes => "BYTES"@,
        DataType::Bf16 => "BF16"@,
        DataType::Invalid => "INVALID"@,
    }
}

/// Width in bytes of one element of a fixed-width datatype. For `Bytes` and
/// `Invalid`, which have no width, it is 0: `element_size_of` tells them apart.
pub open spec fn fixed_width(dtype: DataType) -> nat {
    match dtype {
        DataType::Bool | DataType::Uint8 | DataType::Int8 => 1,
        DataType::Uint16 | DataType::Int16 | DataType::Fp16 | DataType::Bf16 => 2,
        DataType::Uint32 | DataType::Int32 | DataType::Fp32 => 4,
        DataType::Uint64 | DataType::Int64 | DataType::Fp64 => 8,
        DataType::Bytes | DataType::Invalid => 0,
    }
}

/// The element size of a datatype, with its two markers.
pub open spec fn element_size_of(dtype: DataType) -> ElementSize {
    match dtype {
        DataType::Invalid => ElementSize::Invalid,
        DataType::Bytes => ElementSize::Variable,
        _ => ElementSize::Fixed(fixed_width(dtype) as usize),
    }
}

/// The numeric tag under which the inference engine knows a datatype.
pub open spec fn code_of_datatype(dtype: DataType) -> u32 {
    match dtype {
        DataType::Invalid => 0,
        DataType::Bool => 1,
        DataType::Uint8 => 2,
        DataType::Uint16 => 3,
        DataType::Uint32 => 4,
        DataType::Uint64 => 5,
        DataType::Int8 => 6,
        DataType::Int16 => 7,
        DataType::Int32 => 8,
        DataType::Int64 => 9,
        DataType::Fp16 => 10,
        DataType::Fp32 => 11,
        DataType::Fp64 => 12,
        DataType::Bytes => 13,
        DataType::Bf16 => 14,
    }
}

/// The datatype that a numeric tag stands for; `Invalid` for every tag without one.
pub open spec fn datatype_of_code(code: u32) -> DataType {
    if code == 1 {
        DataType::Bool
    } else if code == 2 {
        DataType::Uint8
    } else if code == 3 {
        DataType::Uint16
    } else if code == 4 {
        DataType::Uint32
    } else if code == 5 {
        DataType::Uint64
    } else if code == 6 {
        DataType::Int8
    } else if code == 7 {
        DataType::Int16
    } else if code == 8 {
        DataType::Int32
    } else if code == 9 {
        DataType::Int64
    } else if code == 10 {
        DataType::Fp16
    } else if code == 11 {
        DataType::Fp32
    } else if code == 12 {
        DataType::Fp64
    } else if code == 13 {
        DataType::Bytes
    } else if code == 14 {
        DataType::Bf16
    } else {
        DataType::Invalid
    }
}

/// Whether two strings hold the same characters.
pub fn str_equal(a: &str, b: &str) -> (same: bool)
    ensures
        same == (a@ == b@),
{
    let x = a.as_bytes();
    let y = b.as_bytes();
    proof {
        encode_utf8_decode_utf8(a@);
        encode_utf8_decode_utf8(b@);
    }
    if x.len() != y.len() {
        return false;
    }
    let mut i: usize = 0;
    while i < x.len()
        invariant
            i <= x.len(),
            x.len() == y.len(),
            x@ == encode_utf8(a@),
            y@ == encode_utf8(b@),
            forall|k: int| 0 <= k < i ==> x@[k] == y@[k],
        decreases x.len() - i,
    {
        if x[i] != y[i] {
            return false;
        }
        i += 1;
    }
    assert(x@ =~= y@);
    true
}

/// Reads a datatype from its wire name. A name that is not recognized gives `Invalid`.
pub fn string_to_data_type(dtype: &str) -> (datatype: DataType)
    ensures
        datatype == datatype_of_name(dtype@),
{
    if str_equal(dtype, "BOOL") {
        DataType::Bool
    } else if str_equal(dtype, "UINT8") {
        DataType::Uint8
    } else if str_equal(dtype, "UINT16") {
        DataType::Uint16
    } else if str_equal(dtype, "UINT32") {
        DataType::Uint32
    } else if str_equal(dtype, "UINT64") {
        DataType::Uint64
    } else if str_equal(dtype, "INT8") {
        DataType::Int8
    } else if str_equal(dtype, "INT16") {
        DataType::Int16
    } else if str_equal(dtype, "INT32") {
        DataType::Int32
    } else if str_equal(dtype, "INT64") {
        DataType::Int64
    } else if str_equal(dtype, "FP16") {
        DataType::Fp16
    } else if str_equal(dtype, "FP32") {
        DataType::Fp32
    } else if str_equal(dtype, "FP64") {
        DataType::Fp64
    } else if str_equal(dtype, "BYTES") {
        DataType::Bytes
    } else if str_equal(dtype, "BF16") {
        DataType::Bf16
    } else {
        DataType::Invalid
    }
}

/// The wire name of a datatype; `"INVALID"` for `Invalid`.
pub fn data_type_to_string(dtype: DataType) -> (name: &'static str)
    ensures
        name@ == name_of_datatype(dtype),
{
    match dtype {
        DataType::Bool => "BOOL",
        DataType::Uint8 => "UINT8",
        DataType::Uint16 => "UINT16",
        DataType::Uint32 => "UINT32",
        DataType::Uint64 => "UINT64",
        DataType::Int8 => "INT8",
        DataType::Int16 => "INT16",
        DataType::Int32 => "INT32",
        DataType::Int64 => "INT64",
        DataType::Fp16 => "FP16",
        DataType::Fp32 => "FP32",
        DataType::Fp64 => "FP64",
        DataType::Bytes => "BYTES",
        DataType::Bf16 => "BF16",
        DataType::Invalid => "INVALID",
    }
}

/// The element size of a datatype: a strictly positive width for each fixed-width
/// datatype, `Variable` for `Bytes`, `Invalid` for a datatype that is not
/// recognized. No two of the three are the same value.
pub fn data_type_size(dtype: DataType) -> (size: ElementSize)
    ensures
        size == element_size_of(dtype),
        size matches ElementSize::Fixed(width) ==> width > 0 && width == fixed_width(dtype),
        size == ElementSize::Variable <==> dtype == DataType::Bytes,
        size == ElementSize::Invalid <==> dtype == DataType::Invalid,
{
    match dtype {
        DataType::Bool | DataType::Uint8 | DataType::Int8 => ElementSize::Fixed(1),
        DataType::Uint16 | DataType::Int16 | DataType::Fp16 | DataType::Bf16 => ElementSize::Fixed(
            2,
        ),
        DataType::Uint32 | DataType::Int32 | DataType::Fp32 => ElementSize::Fixed(4),
        DataType::Uint64 | DataType::Int64 | DataType::Fp64 => ElementSize::Fixed(8),
        DataType::Bytes => ElementSize::Variable,
        DataType::Invalid => ElementSize::Invalid,
    }
}

impl DataType {
    /// The numeric tag of this datatype.
    pub fn code(self) -> (code: u32)
        ensures
            code == code_of_datatype(self),
    {
        match self {
            DataType::Invalid => 0,
            DataType::Bool => 1,
            DataType::Uint8 => 2,
            DataType::Uint16 => 3,
            DataType::Uint32 => 4,
            DataType::Uint64 => 5,
            DataType::Int8 => 6,
            DataType::Int16 => 7,
            DataType::Int32 => 8,
            DataType::Int64 => 9,
            DataType::Fp16 => 10,
            DataType::Fp32 => 11,
            DataType::Fp64 => 12,
            DataType::Bytes => 13,
            DataType::Bf16 => 14,
        }
    }

    /// The datatype of a numeric tag; `Invalid` for a tag that is not recognized.
    pub fn from_code(code: u32) -> (datatype: DataType)
        ensures
            datatype == datatype_of_code(code),
    {
        if code == 1 {
            DataType::Bool
        } else if code == 2 {
            DataType::Uint8
        } else if code == 3 {
            DataType::Uint16
        } else if code == 4 {
            DataType::Uint32
        } else if code == 5 {
            DataType::Uint64
        } else if code == 6 {
            DataType::Int8
        } else if code == 7 {
            DataType::Int16
        } else if code == 8 {
            DataType::Int32
        } else if code == 9 {
            DataType::Int64
        } else if code == 10 {
            DataType::Fp16
        } else if code == 11 {
            DataType::Fp32
        } else if code == 12 {
            DataType::Fp64
        } else if code == 13 {
            DataType::Bytes
        } else if code == 14 {
            DataType::Bf16
        } else {
            DataType::Invalid
        }
    }
}

/// Reveals what the fifteen wire names hold.
pub proof fn reveal_datatype_names()
    ensures
        "BOOL"@ == seq!['B', 'O', 'O', 'L'],
        "UINT8"@ == seq!['U', 'I', 'N', 'T', '8'],
        "UINT16"@ == seq!['U', 'I', 'N', 'T', '1', '6'],
        "UINT32"@ == seq!['U', 'I', 'N', 'T', '3', '2'],
        "UINT64"@ == seq!['U', 'I', 'N', 'T', '6', '4'],
        "INT8"@ == seq!['I', 'N', 'T', '8'],
        "INT16"@ == seq!['I', 'N', 'T', '1', '6'],
        "INT32"@ == seq!['I', 'N', 'T', '3', '2'],
        "INT64"@ == seq!['I', 'N', 'T', '6', '4'],
        "FP16"@ == seq!['F', 'P', '1', '6'],
        "FP32"@ == seq!['F', 'P', '3', '2'],
        "FP64"@ == seq!['F', 'P', '6', '4'],
        "BYTES"@ == seq!['B', 'Y', 'T', 'E', 'S'],
        "BF16"@ == seq!['B', 'F', '1', '6'],
        "INVALID"@ == seq!['I', 'N', 'V', 'A', 'L', 'I', 'D'],
{
    reveal_strlit("BOOL");
    reveal_strlit("UINT8");
    reveal_strlit("UINT16");
    reveal_strlit("UINT32");
    reveal_strlit("UINT64");
    reveal_strlit("INT8");
    reveal_strlit("INT16");
    reveal_strlit("INT32");
    reveal_strlit("INT64");
    reveal_strlit("FP16");
    reveal_strlit("FP32");
    reveal_strlit("FP64");
    reveal_strlit("BYTES");
    reveal_strlit("BF16");
    reveal_strlit("INVALID");
}

/// Reading the wire name of a datatype gives the datatype back.
pub proof fn lemma_name_round_trip(dtype: DataType)
    ensures
        datatype_of_name(name_of_datatype(dtype)) == dtype,
{
    reveal_datatype_names();
}

/// A name is recognized exactly when it is the wire name of a datatype other than
/// `Invalid`; every other tag has the `Invalid` element size, never a width and
/// never `Variable`.
pub proof fn lemma_unrecognized_name_has_no_size(name: Seq<char>)
    ensures
        datatype_of_name(name) != DataType::Invalid ==> name == name_of_datatype(
            datatype_of_name(name),
        ),
        datatype_of_name(name) == DataType::Invalid ==> element_size_of(datatype_of_name(name))
            == ElementSize::Invalid,
{
}

/// The numeric tag of a datatype gives the datatype back, and so every tag other
/// than the fifteen known ones has the `Invalid` element size.
pub proof fn lemma_code_round_trip(dtype: DataType, code: u32)
    ensures
        datatype_of_code(code_of_datatype(dtype)) == dtype,
        code > 14 ==> element_size_of(datatype_of_code(code)) == ElementSize::Invalid,
{
}

} // verus!
