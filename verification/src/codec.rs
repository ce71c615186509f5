//! The tensor codec: typed values to the engine's flat byte buffer and back.
//!
//! A fixed-width element is written as its little-endian bytes, a signed one in
//! two's complement. An element of a `BYTES` tensor is written as a four-byte
//! little-endian length followed by the bytes themselves.

use crate::codec_laws::{
    lemma_count_grows, lemma_count_of_empty_dimension, lemma_le_bytes_of_twos_complement,
    lemma_le_value_bound, lemma_radix_grows, lemma_radix_values,
};
use crate::proto::{buffers_view, InferTensorContents, TensorContentsView};
use crate::utils::{data_type_size, fixed_width, DataType, ElementSize};
use vstd::prelude::*;

verus! {

/// Why a tensor could not be encoded or decoded.
#[derive(Clone, Copy, Debug, PartialEq, Eq, Structural)]
pub enum CodecError {
    /// The datatype is not recognized.
    InvalidDatatype,
    /// A dimension is negative, or the shape does not hold as many elements as there are.
    InvalidShape,
    /// A length prefix or the element after it reaches past the end of the buffer.
    TruncatedBuffer,
}

/// Every dimension is at least 0.
pub open spec fn shape_is_valid(shape: Seq<i64>) -> bool {
    forall|i: int| 0 <= i < shape.len() ==> shape[i] >= 0
}

/// The number of elements of a tensor of this shape: the product of its dimensions.
pub open spec fn element_count(shape: Seq<i64>) -> int
    decreases shape.len(),
{
    if shape.len() == 0 {
        1
    } else {
        element_count(shape.drop_last()) * shape.last()
    }
}

/// 256 to the power of `width`: the number of values that `width` bytes can hold.
pub open spec fn radix(width: nat) -> nat
    decreases width,
{
    if width == 0 {
        1
    } else {
        256 * radix((width - 1) as nat)
    }
}

/// The lowest `width` bytes of `value`, least significant first. A negative value
/// is written in two's complement.
pub open spec fn le_bytes(value: int, width: nat) -> Seq<u8>
    decreases width,
{
    if width == 0 {
        Seq::empty()
    } else {
        seq![(value % 256) as u8] + le_bytes(value / 256, (width - 1) as nat)
    }
}

/// The unsigned number whose little-endian bytes are `bytes`.
pub open spec fn le_value(bytes: Seq<u8>) -> nat
    decreases bytes.len(),
{
    if bytes.len() == 0 {
        0
    } else {
        bytes[0] as nat + 256 * le_value(bytes.drop_first())
    }
}

/// The signed number whose little-endian two's complement bytes are `bytes`.
pub open spec fn le_signed(bytes: Seq<u8>) -> int {
    if 2 * le_value(bytes) >= radix(bytes.len()) {
        le_value(bytes) - radix(bytes.len())
    } else {
        le_value(bytes) as int
    }
}

/// The number that stands for a boolean in a buffer.
pub open spec fn bool_value(b: bool) -> int {
    if b {
        1
    } else {
        0
    }
}

/// The values of the list that `dtype` reads, as integers. A datatype without a
/// typed list has none, and neither has `Bytes`, whose elements are no numbers.
pub open spec fn typed_values(dtype: DataType, contents: TensorContentsView) -> Seq<int> {
    match dtype {
        DataType::Bool => Seq::new(
            contents.bool_contents.len(),
            |i: int| bool_value(contents.bool_contents[i]),
        ),
        DataType::Uint8 | DataType::Uint16 | DataType::Uint32 => Seq::new(
            contents.uint_contents.len(),
            |i: int| contents.uint_contents[i] as int,
        ),
        DataType::Uint64 => Seq::new(
            contents.uint64_contents.len(),
            |i: int| contents.uint64_contents[i] as int,
        ),
        DataType::Int8 | DataType::Int16 | DataType::Int32 => Seq::new(
            contents.int_contents.len(),
            |i: int| contents.int_contents[i] as int,
        ),
        DataType::Int64 => Seq::new(
            contents.int64_contents.len(),
            |i: int| contents.int64_contents[i] as int,
        ),
        DataType::Fp32 => Seq::new(
            contents.fp32_contents.len(),
            |i: int| contents.fp32_contents[i] as int,
        ),
        DataType::Fp64 => Seq::new(
            contents.fp64_contents.len(),
            |i: int| contents.fp64_contents[i] as int,
        ),
        _ => Seq::empty(),
    }
}

/// The number of elements that `contents` holds for a tensor of datatype `dtype`.
pub open spec fn value_count(dtype: DataType, contents: TensorContentsView) -> nat {
    if dtype == DataType::Bytes {
        contents.bytes_contents.len()
    } else {
        typed_values(dtype, contents).len()
    }
}

/// The buffer of fixed-width elements: each value in `width` little-endian bytes,
/// one after the other.
pub open spec fn pack(values: Seq<int>, width: nat) -> Seq<u8>
    decreases values.len(),
{
    if values.len() == 0 {
        Seq::empty()
    } else {
        pack(values.drop_last(), width) + le_bytes(values.last(), width)
    }
}

/// The buffer of byte-string elements: each as its length in four little-endian
/// bytes and then its bytes, one after the other. The prefix holds the length
/// modulo 2^32.
pub open spec fn frame(items: Seq<Seq<u8>>) -> Seq<u8>
    decreases items.len(),
{
    if items.len() == 0 {
        Seq::empty()
    } else {
        frame(items.drop_last()) + le_bytes(items.last().len() as int, 4) + items.last()
    }
}

/// The byte strings that a framed buffer holds, or `None` where a prefix or the
/// element after it reaches past the end.
pub open spec fn unframe(bytes: Seq<u8>) -> Option<Seq<Seq<u8>>>
    decreases bytes.len(),
{
    if bytes.len() == 0 {
        Some(Seq::empty())
    } else if bytes.len() < 4 {
        None
    } else {
        let n = le_value(bytes.subrange(0, 4)) as int;
        if bytes.len() - 4 < n {
            None
        } else {
            match unframe(bytes.subrange(4 + n, bytes.len() as int)) {
                Some(rest) => Some(seq![bytes.subrange(4, 4 + n)] + rest),
                None => None,
            }
        }
    }
}

/// The bytes of the element at `index` in a buffer of `width`-byte elements.
pub open spec fn chunk(bytes: Seq<u8>, index: int, width: nat) -> Seq<u8> {
    bytes.subrange(index * width, index * width + width)
}

/// The buffer that stands for the values of `contents` read as `dtype`.
pub open spec fn encoded(dtype: DataType, contents: TensorContentsView) -> Seq<u8> {
    if dtype == DataType::Bytes {
        frame(contents.bytes_contents)
    } else {
        pack(typed_values(dtype, contents), fixed_width(dtype))
    }
}

/// What `encode` returns.
pub open spec fn encode_spec(
    dtype: DataType,
    shape: Seq<i64>,
    contents: TensorContentsView,
) -> Result<Seq<u8>, CodecError> {
    if dtype == DataType::Invalid {
        Err(CodecError::InvalidDatatype)
    } else if !shape_is_valid(shape) {
        Err(CodecError::InvalidShape)
    } else if value_count(dtype, contents) != element_count(shape) {
        Err(CodecError::InvalidShape)
    } else {
        Ok(encoded(dtype, contents))
    }
}

/// The typed values that a buffer of `count` fixed-width elements stands for.
/// A datatype without a typed list gives contents without any value.
pub open spec fn unpacked(dtype: DataType, count: nat, bytes: Seq<u8>) -> TensorContentsView {
    let width = fixed_width(dtype);
    let none = TensorContentsView::empty();
    match dtype {
        DataType::Bool => TensorContentsView {
            bool_contents: Seq::new(count, |i: int| bytes[i] != 0),
            ..none
        },
        DataType::Uint8 | DataType::Uint16 | DataType::Uint32 => TensorContentsView {
            uint_contents: Seq::new(count, |i: int| le_value(chunk(bytes, i, width)) as u32),
            ..none
        },
        DataType::Uint64 => TensorContentsView {
            uint64_contents: Seq::new(count, |i: int| le_value(chunk(bytes, i, width)) as u64),
            ..none
        },
        DataType::Int8 | DataType::Int16 | DataType::Int32 => TensorContentsView {
            int_contents: Seq::new(count, |i: int| le_signed(chunk(bytes, i, width)) as i32),
            ..none
        },
        DataType::Int64 => TensorContentsView {
            int64_contents: Seq::new(count, |i: int| le_signed(chunk(bytes, i, width)) as i64),
            ..none
        },
        DataType::Fp32 => TensorContentsView {
            fp32_contents: Seq::new(count, |i: int| le_value(chunk(bytes, i, width)) as u32),
            ..none
        },
        DataType::Fp64 => TensorContentsView {
            fp64_contents: Seq::new(count, |i: int| le_value(chunk(bytes, i, width)) as u64),
            ..none
        },
        _ => none,
    }
}

/// What `decode` returns.
pub open spec fn decode_spec(dtype: DataType, shape: Seq<i64>, bytes: Seq<u8>) -> Result<
    TensorContentsView,
    CodecError,
> {
    if dtype == DataType::Invalid {
        Err(CodecError::InvalidDatatype)
    } else if !shape_is_valid(shape) {
        Err(CodecError::InvalidShape)
    } else if dtype == DataType::Bytes {
        match unframe(bytes) {
            None => Err(CodecError::TruncatedBuffer),
            Some(items) => if items.len() != element_count(shape) {
                Err(CodecError::InvalidShape)
            } else {
                Ok(TensorContentsView { bytes_contents: items, ..TensorContentsView::empty() })
            },
        }
    } else if bytes.len() != element_count(shape) * fixed_width(dtype) {
        Err(CodecError::InvalidShape)
    } else {
        Ok(unpacked(dtype, element_count(shape) as nat, bytes))
    }
}

/// The list that `dtype` reads, and nothing else.
pub open spec fn only_list(dtype: DataType, contents: TensorContentsView) -> TensorContentsView {
    let none = TensorContentsView::empty();
    match dtype {
        DataType::Bool => TensorContentsView { bool_contents: contents.bool_contents, ..none },
        DataType::Uint8 | DataType::Uint16 | DataType::Uint32 => TensorContentsView {
            uint_contents: contents.uint_contents,
            ..none
        },
        DataType::Uint64 => TensorContentsView { uint64_contents: contents.uint64_contents, ..none },
        DataType::Int8 | DataType::Int16 | DataType::Int32 => TensorContentsView {
            int_contents: contents.int_contents,
            ..none
        },
        DataType::Int64 => TensorContentsView { int64_contents: contents.int64_contents, ..none },
        DataType::Fp32 => TensorContentsView { fp32_contents: contents.fp32_contents, ..none },
        DataType::Fp64 => TensorContentsView { fp64_contents: contents.fp64_contents, ..none },
        DataType::Bytes => TensorContentsView { bytes_contents: contents.bytes_contents, ..none },
        _ => none,
    }
}

/// A fixed-width datatype whose values have a typed list.
pub open spec fn has_typed_list(dtype: DataType) -> bool {
    dtype != DataType::Invalid && dtype != DataType::Bytes && dtype != DataType::Fp16 && dtype
        != DataType::Bf16
}

/// Every value of the list that `dtype` reads can be written in the width of `dtype`.
pub open spec fn values_fit(dtype: DataType, contents: TensorContentsView) -> bool {
    match dtype {
        DataType::Uint8 => forall|i: int|
            0 <= i < contents.uint_contents.len() ==> contents.uint_contents[i] < 0x100,
        DataType::Uint16 => forall|i: int|
            0 <= i < contents.uint_contents.len() ==> contents.uint_contents[i] < 0x1_0000,
        DataType::Int8 => forall|i: int|
            0 <= i < contents.int_contents.len() ==> -0x80 <= (#[trigger] contents.int_contents[i])
                < 0x80,
        DataType::Int16 => forall|i: int|
            0 <= i < contents.int_contents.len() ==> -0x8000 <= (
            #[trigger] contents.int_contents[i]) < 0x8000,
        _ => true,
    }
}

/// The view of what `encode` returns.
pub open spec fn bytes_result_view(result: Result<Vec<u8>, CodecError>) -> Result<
    Seq<u8>,
    CodecError,
> {
    match result {
        Ok(bytes) => Ok(bytes@),
        Err(error) => Err(error),
    }
}

/// The view of what `decode` returns.
pub open spec fn contents_result_view(result: Result<InferTensorContents, CodecError>) -> Result<
    TensorContentsView,
    CodecError,
> {
    match result {
        Ok(contents) => Ok(contents@),
        Err(error) => Err(error),
    }
}

/// Checks that no dimension is negative.
pub fn check_shape(shape: &[i64]) -> (result: Result<(), CodecError>)
    ensures
        result == (if shape_is_valid(shape@) {
            Ok::<(), CodecError>(())
        } else {
            Err(CodecError::InvalidShape)
        }),
{
    let mut i: usize = 0;
    while i < shape.len()
        invariant
            i <= shape@.len(),
            forall|k: int| 0 <= k < i ==> shape@[k] >= 0,
        decreases shape.len() - i,
    {
        if shape[i] < 0 {
            return Err(CodecError::InvalidShape);
        }
        i += 1;
    }
    Ok(())
}

/// The number of elements of a shape, or `None` where a dimension is negative or
/// the number is more than a `usize` holds.
pub fn checked_element_count(shape: &[i64]) -> (count: Option<usize>)
    ensures
        match count {
            Some(n) => shape_is_valid(shape@) && n == element_count(shape@),
            None => !shape_is_valid(shape@) || element_count(shape@) > usize::MAX,
        },
{
    if check_shape(shape).is_err() {
        return None;
    }
    let mut i: usize = 0;
    while i < shape.len()
        invariant
            i <= shape@.len(),
            shape_is_valid(shape@),
            forall|k: int| 0 <= k < i ==> shape@[k] >= 1,
        decreases shape.len() - i,
    {
        if shape[i] == 0 {
            proof {
                lemma_count_of_empty_dimension(shape@, i as int);
            }
            return Some(0);
        }
        i += 1;
    }
    let mut count: usize = 1;
    let mut done: usize = 0;
    while done < shape.len()
        invariant
            done <= shape@.len(),
            forall|k: int| 0 <= k < shape@.len() ==> shape@[k] >= 1,
            count == element_count(shape@.take(done as int)),
        decreases shape.len() - done,
    {
        let dimension: i64 = shape[done];
        proof {
            let prefix = shape@.take(done + 1);
            assert(prefix.drop_last() =~= shape@.take(done as int));
            lemma_count_grows(shape@, done as int, done as int);
            lemma_count_grows(shape@, done + 1, shape@.len() as int);
            assert(shape@.take(shape@.len() as int) =~= shape@);
            assert(count * dimension >= dimension) by (nonlinear_arith)
                requires
                    count >= 1,
                    dimension >= 1,
            ;
        }
        if dimension as u64 > usize::MAX as u64 {
            return None;
        }
        match count.checked_mul(dimension as usize) {
            Some(product) => {
                count = product;
            },
            None => {
                return None;
            },
        }
        done += 1;
    }
    assert(shape@.take(done as int) =~= shape@);
    Some(count)
}

/// Whether a shape has no negative dimension and holds exactly `count` elements.
pub fn shape_holds(shape: &[i64], count: usize) -> (holds: bool)
    ensures
        holds == (shape_is_valid(shape@) && element_count(shape@) == count),
{
    match checked_element_count(shape) {
        Some(n) => n == count,
        None => false,
    }
}

/// Appends the lowest `width` bytes of `value`, least significant first.
fn push_le(out: &mut Vec<u8>, value: u64, width: usize)
    ensures
        final(out)@ == old(out)@ + le_bytes(value as int, width as nat),
{
    let ghost before = out@;
    let mut rest: u64 = value;
    let mut done: usize = 0;
    while done < width
        invariant
            done <= width,
            before + le_bytes(value as int, width as nat) == out@ + le_bytes(
                rest as int,
                (width - done) as nat,
            ),
        decreases width - done,
    {
        out.push((rest % 256) as u8);
        rest = rest / 256;
        done += 1;
    }
}

/// The 64-bit two's complement of `value`.
fn twos_complement(value: i64) -> (bits: u64)
    ensures
        value >= 0 ==> bits == value,
        value < 0 ==> bits == value + 0x1_0000_0000_0000_0000,
{
    if value >= 0 {
        value as u64
    } else {
        ((value - i64::MIN) as u64) + 0x8000_0000_0000_0000u64
    }
}

/// Appends the lowest `width` bytes of a signed `value` in two's complement.
fn push_le_signed(out: &mut Vec<u8>, value: i64, width: usize)
    requires
        width <= 8,
    ensures
        final(out)@ == old(out)@ + le_bytes(value as int, width as nat),
{
    proof {
        lemma_le_bytes_of_twos_complement(value as int, width as nat);
    }
    push_le(out, twos_complement(value), width);
}

/// Appends a copy of `bytes`.
fn append_bytes(out: &mut Vec<u8>, bytes: &[u8])
    ensures
        final(out)@ == old(out)@ + bytes@,
{
    let ghost before = out@;
    let mut i: usize = 0;
    while i < bytes.len()
        invariant
            i <= bytes@.len(),
            out@ == before + bytes@.take(i as int),
        decreases bytes.len() - i,
    {
        out.push(bytes[i]);
        i += 1;
    }
}

/// Packs booleans, one byte each: 1 for true, 0 for false.
fn pack_bools(values: &Vec<bool>, out: &mut Vec<u8>)
    ensures
        final(out)@ == old(out)@ + pack(
            Seq::new(values@.len(), |i: int| bool_value(values@[i])),
            1,
        ),
{
    let ghost before = out@;
    let ghost all = Seq::new(values@.len(), |i: int| bool_value(values@[i]));
    let mut i: usize = 0;
    while i < values.len()
        invariant
            i <= values@.len(),
            all == Seq::new(values@.len(), |i: int| bool_value(values@[i])),
            out@ == before + pack(all.take(i as int), 1),
        decreases values.len() - i,
    {
        let value: u64 = if values[i] {
            1
        } else {
            0
        };
        push_le(out, value, 1);
        proof {
            let prefix = all.take(i + 1);
            assert(prefix.drop_last() =~= all.take(i as int));
        }
        i += 1;
    }
    assert(all.take(i as int) =~= all);
}

/// Packs unsigned values of up to 32 bits, `width` bytes each.
fn pack_u32s(values: &Vec<u32>, width: usize, out: &mut Vec<u8>)
    ensures
        final(out)@ == old(out)@ + pack(
            Seq::new(values@.len(), |i: int| values@[i] as int),
            width as nat,
        ),
{
    let ghost before = out@;
    let ghost all = Seq::new(values@.len(), |i: int| values@[i] as int);
    let mut i: usize = 0;
    while i < values.len()
        invariant
            i <= values@.len(),
            all == Seq::new(values@.len(), |i: int| values@[i] as int),
            out@ == before + pack(all.take(i as int), width as nat),
        decreases values.len() - i,
    {
        push_le(out, values[i] as u64, width);
        proof {
            let prefix = all.take(i + 1);
            assert(prefix.drop_last() =~= all.take(i as int));
        }
        i += 1;
    }
    assert(all.take(i as int) =~= all);
}

/// Packs unsigned 64-bit values, eight bytes each.
fn pack_u64s(values: &Vec<u64>, out: &mut Vec<u8>)
    ensures
        final(out)@ == old(out)@ + pack(Seq::new(values@.len(), |i: int| values@[i] as int), 8),
{
    let ghost before = out@;
    let ghost all = Seq::new(values@.len(), |i: int| values@[i] as int);
    let mut i: usize = 0;
    while i < values.len()
        invariant
            i <= values@.len(),
            all == Seq::new(values@.len(), |i: int| values@[i] as int),
            out@ == before + pack(all.take(i as int), 8),
        decreases values.len() - i,
    {
        push_le(out, values[i], 8);
        proof {
            let prefix = all.take(i + 1);
            assert(prefix.drop_last() =~= all.take(i as int));
        }
        i += 1;
    }
    assert(all.take(i as int) =~= all);
}

/// Packs signed values of up to 32 bits in two's complement, `width` bytes each.
fn pack_i32s(values: &Vec<i32>, width: usize, out: &mut Vec<u8>)
    requires
        width <= 8,
    ensures
        final(out)@ == old(out)@ + pack(
            Seq::new(values@.len(), |i: int| values@[i] as int),
            width as nat,
        ),
{
    let ghost before = out@;
    let ghost all = Seq::new(values@.len(), |i: int| values@[i] as int);
    let mut i: usize = 0;
    while i < values.len()
        invariant
            i <= values@.len(),
            width <= 8,
            all == Seq::new(values@.len(), |i: int| values@[i] as int),
            out@ == before + pack(all.take(i as int), width as nat),
        decreases values.len() - i,
    {
        push_le_signed(out, values[i] as i64, width);
        proof {
            let prefix = all.take(i + 1);
            assert(prefix.drop_last() =~= all.take(i as int));
        }
        i += 1;
    }
    assert(all.take(i as int) =~= all);
}

/// Packs signed 64-bit values in two's complement, eight bytes each.
fn pack_i64s(values: &Vec<i64>, out: &mut Vec<u8>)
    ensures
        final(out)@ == old(out)@ + pack(Seq::new(values@.len(), |i: int| values@[i] as int), 8),
{
    let ghost before = out@;
    let ghost all = Seq::new(values@.len(), |i: int| values@[i] as int);
    let mut i: usize = 0;
    while i < values.len()
        invariant
            i <= values@.len(),
            all == Seq::new(values@.len(), |i: int| values@[i] as int),
            out@ == before + pack(all.take(i as int), 8),
        decreases values.len() - i,
    {
        push_le_signed(out, values[i], 8);
        proof {
            let prefix = all.take(i + 1);
            assert(prefix.drop_last() =~= all.take(i as int));
        }
        i += 1;
    }
    assert(all.take(i as int) =~= all);
}

/// Frames byte strings: each as its four-byte little-endian length and its bytes.
/// The prefix of a byte string of 2^32 bytes or more holds the lowest four bytes
/// of its length.
pub fn frame_elements(items: &Vec<Vec<u8>>) -> (bytes: Vec<u8>)
    ensures
        bytes@ == frame(buffers_view(items@)),
{
    let ghost all = buffers_view(items@);
    let mut out: Vec<u8> = Vec::new();
    let mut i: usize = 0;
    while i < items.len()
        invariant
            i <= items@.len(),
            all == buffers_view(items@),
            out@ == frame(all.take(i as int)),
        decreases items.len() - i,
    {
        let item = &items[i];
        push_le(&mut out, item.len() as u64, 4);
        append_bytes(&mut out, item.as_slice());
        proof {
            let prefix = all.take(i + 1);
            assert(prefix.drop_last() =~= all.take(i as int));
        }
        i += 1;
    }
    assert(all.take(i as int) =~= all);
    out
}

/// Encodes the typed values of a tensor as the flat byte buffer that the engine reads.
///
/// Fails with `InvalidDatatype` for a datatype that is not recognized, and with
/// `InvalidShape` where a dimension is negative or where the list that the
/// datatype reads does not hold exactly as many values as the shape has elements.
/// A value wider than the datatype keeps its lowest bytes, and so does the
/// length of a byte string that is wider than its prefix.
pub fn encode(datatype: DataType, shape: &[i64], values: &InferTensorContents) -> (result: Result<
    Vec<u8>,
    CodecError,
>)
    ensures
        bytes_result_view(result) == encode_spec(datatype, shape@, values@),
{
    let size = data_type_size(datatype);
    if size == ElementSize::Invalid {
        return Err(CodecError::InvalidDatatype);
    }
    if check_shape(shape).is_err() {
        return Err(CodecError::InvalidShape);
    }
    let count: usize = match datatype {
        DataType::Bool => values.bool_contents.len(),
        DataType::Uint8 | DataType::Uint16 | DataType::Uint32 => values.uint_contents.len(),
        DataType::Uint64 => values.uint64_contents.len(),
        DataType::Int8 | DataType::Int16 | DataType::Int32 => values.int_contents.len(),
        DataType::Int64 => values.int64_contents.len(),
        DataType::Fp32 => values.fp32_contents.len(),
        DataType::Fp64 => values.fp64_contents.len(),
        DataType::Bytes => values.bytes_contents.len(),
        _ => 0,
    };
    if !shape_holds(shape, count) {
        return Err(CodecError::InvalidShape);
    }
    match size {
        ElementSize::Invalid => Err(CodecError::InvalidDatatype),
        ElementSize::Variable => Ok(frame_elements(&values.bytes_contents)),
        ElementSize::Fixed(width) => {
            let mut out: Vec<u8> = Vec::new();
            match datatype {
                DataType::Bool => pack_bools(&values.bool_contents, &mut out),
                DataType::Uint8 | DataType::Uint16 | DataType::Uint32 => pack_u32s(
                    &values.uint_contents,
                    width,
                    &mut out,
                ),
                DataType::Uint64 => pack_u64s(&values.uint64_contents, &mut out),
                DataType::Int8 | DataType::Int16 | DataType::Int32 => pack_i32s(
                    &values.int_contents,
                    width,
                    &mut out,
                ),
                DataType::Int64 => pack_i64s(&values.int64_contents, &mut out),
                DataType::Fp32 => pack_u32s(&values.fp32_contents, width, &mut out),
                DataType::Fp64 => pack_u64s(&values.fp64_contents, &mut out),
                _ => {},
            }
            Ok(out)
        },
    }
}

/// Reads the unsigned number that the `width` bytes from `start` on hold, least
/// significant first.
fn read_le(bytes: &[u8], start: usize, width: usize) -> (value: u64)
    requires
        width <= 8,
        start + width <= bytes@.len(),
    ensures
        value == le_value(bytes@.subrange(start as int, start + width)),
{
    let total = bytes.len();
    let mut value: u64 = 0;
    let mut left: usize = width;
    while left > 0
        invariant
            left <= width <= 8,
            start + width <= bytes@.len() == total,
            value == le_value(bytes@.subrange(start + left, start + width)),
        decreases left,
    {
        proof {
            lemma_le_value_bound(bytes@.subrange(start + left, start + width));
            lemma_radix_grows((width - left) as nat, 7);
            lemma_radix_values();
        }
        left -= 1;
        let byte = bytes[start + left];
        proof {
            let wider = bytes@.subrange(start + left, start + width);
            assert(wider.drop_first() =~= bytes@.subrange(start + left + 1, start + width));
        }
        value = value * 256 + byte as u64;
    }
    value
}

/// The signed number that `bits` stands for in two's complement of `width` bytes.
fn to_signed(bits: u64, width: usize) -> (value: i64)
    requires
        width == 1 || width == 2 || width == 4 || width == 8,
        bits < radix(width as nat),
    ensures
        2 * bits >= radix(width as nat) ==> value == bits - radix(width as nat),
        2 * bits < radix(width as nat) ==> value == bits,
{
    proof {
        lemma_radix_values();
    }
    if width == 1 {
        if bits >= 0x80 {
            bits as i64 - 0x100
        } else {
            bits as i64
        }
    } else if width == 2 {
        if bits >= 0x8000 {
            bits as i64 - 0x1_0000
        } else {
            bits as i64
        }
    } else if width == 4 {
        if bits >= 0x8000_0000 {
            bits as i64 - 0x1_0000_0000
        } else {
            bits as i64
        }
    } else {
        if bits >= 0x8000_0000_0000_0000 {
            ((bits - 0x8000_0000_0000_0000) as i64) + i64::MIN
        } else {
            bits as i64
        }
    }
}

/// A copy of the bytes from `from` up to `to`.
fn copy_range(bytes: &[u8], from: usize, to: usize) -> (copy: Vec<u8>)
    requires
        from <= to <= bytes@.len(),
    ensures
        copy@ == bytes@.subrange(from as int, to as int),
{
    let mut copy: Vec<u8> = Vec::new();
    let mut i: usize = from;
    while i < to
        invariant
            from <= i <= to <= bytes@.len(),
            copy@ == bytes@.subrange(from as int, i as int),
        decreases to - i,
    {
        copy.push(bytes[i]);
        i += 1;
    }
    copy
}

/// Reads `count` booleans, one byte each: any byte but 0 is true.
fn unpack_bools(bytes: &[u8], count: usize) -> (values: Vec<bool>)
    requires
        count == bytes@.len(),
    ensures
        values@ == Seq::new(count as nat, |i: int| bytes@[i] != 0),
{
    let mut values: Vec<bool> = Vec::new();
    let mut i: usize = 0;
    while i < count
        invariant
            i <= count == bytes@.len(),
            values@ == Seq::new(i as nat, |k: int| bytes@[k] != 0),
        decreases count - i,
    {
        values.push(bytes[i] != 0);
        i += 1;
    }
    values
}

/// Reads `count` unsigned values of `width` bytes each, `width` being at most 4.
fn unpack_u32s(bytes: &[u8], count: usize, width: usize) -> (values: Vec<u32>)
    requires
        1 <= width <= 4,
        count * width == bytes@.len(),
    ensures
        values@ == Seq::new(
            count as nat,
            |i: int| le_value(chunk(bytes@, i, width as nat)) as u32,
        ),
{
    let mut values: Vec<u32> = Vec::new();
    let total = bytes.len();
    let mut i: usize = 0;
    let mut at: usize = 0;
    while i < count
        invariant
            i <= count,
            1 <= width <= 4,
            count * width == bytes@.len() == total,
            at == i * width,
            values@ == Seq::new(
                i as nat,
                |k: int| le_value(chunk(bytes@, k, width as nat)) as u32,
            ),
        decreases count - i,
    {
        assert(i * width + width <= count * width && (i + 1) * width == i * width + width)
            by (nonlinear_arith)
            requires
                i < count,
        ;
        let value = read_le(bytes, at, width);
        proof {
            lemma_le_value_bound(chunk(bytes@, i as int, width as nat));
            lemma_radix_grows(width as nat, 4);
            lemma_radix_values();
        }
        values.push(value as u32);
        at += width;
        i += 1;
    }
    values
}

/// Reads `count` unsigned values of eight bytes each.
fn unpack_u64s(bytes: &[u8], count: usize) -> (values: Vec<u64>)
    requires
        count * 8 == bytes@.len(),
    ensures
        values@ == Seq::new(count as nat, |i: int| le_value(chunk(bytes@, i, 8)) as u64),
{
    let mut values: Vec<u64> = Vec::new();
    let total = bytes.len();
    let mut i: usize = 0;
    while i < count
        invariant
            i <= count,
            count * 8 == bytes@.len() == total,
            values@ == Seq::new(i as nat, |k: int| le_value(chunk(bytes@, k, 8)) as u64),
        decreases count - i,
    {
        let value = read_le(bytes, i * 8, 8);
        values.push(value);
        i += 1;
    }
    values
}

/// Reads `count` signed values of `width` bytes each, `width` being 1, 2 or 4.
fn unpack_i32s(bytes: &[u8], count: usize, width: usize) -> (values: Vec<i32>)
    requires
        width == 1 || width == 2 || width == 4,
        count * width == bytes@.len(),
    ensures
        values@ == Seq::new(
            count as nat,
            |i: int| le_signed(chunk(bytes@, i, width as nat)) as i32,
        ),
{
    let mut values: Vec<i32> = Vec::new();
    let total = bytes.len();
    let mut i: usize = 0;
    let mut at: usize = 0;
    while i < count
        invariant
            i <= count,
            width == 1 || width == 2 || width == 4,
            count * width == bytes@.len() == total,
            at == i * width,
            values@ == Seq::new(
                i as nat,
                |k: int| le_signed(chunk(bytes@, k, width as nat)) as i32,
            ),
        decreases count - i,
    {
        assert(i * width + width <= count * width && (i + 1) * width == i * width + width)
            by (nonlinear_arith)
            requires
                i < count,
        ;
        let bits = read_le(bytes, at, width);
        proof {
            lemma_le_value_bound(chunk(bytes@, i as int, width as nat));
            lemma_radix_values();
        }
        let value = to_signed(bits, width);
        values.push(value as i32);
        at += width;
        i += 1;
    }
    values
}

/// Reads `count` signed values of eight bytes each.
fn unpack_i64s(bytes: &[u8], count: usize) -> (values: Vec<i64>)
    requires
        count * 8 == bytes@.len(),
    ensures
        values@ == Seq::new(count as nat, |i: int| le_signed(chunk(bytes@, i, 8)) as i64),
{
    let mut values: Vec<i64> = Vec::new();
    let total = bytes.len();
    let mut i: usize = 0;
    while i < count
        invariant
            i <= count,
            count * 8 == bytes@.len() == total,
            values@ == Seq::new(i as nat, |k: int| le_signed(chunk(bytes@, k, 8)) as i64),
        decreases count - i,
    {
        let bits = read_le(bytes, i * 8, 8);
        proof {
            lemma_le_value_bound(chunk(bytes@, i as int, 8));
            lemma_radix_values();
        }
        let value = to_signed(bits, 8);
        values.push(value);
        i += 1;
    }
    values
}

/// Reads the byte strings of a framed buffer, or `None` where a length prefix or
/// the element after it reaches past the end of the buffer.
pub fn unframe_elements(bytes: &[u8]) -> (items: Option<Vec<Vec<u8>>>)
    ensures
        match items {
            Some(list) => unframe(bytes@) == Some(buffers_view(list@)),
            None => unframe(bytes@).is_none(),
        },
{
    let mut items: Vec<Vec<u8>> = Vec::new();
    let mut at: usize = 0;
    assert(bytes@.subrange(0, bytes@.len() as int) =~= bytes@);
    while at < bytes.len()
        invariant
            at <= bytes@.len(),
            unframe(bytes@) == match unframe(bytes@.subrange(at as int, bytes@.len() as int)) {
                Some(rest) => Some(buffers_view(items@) + rest),
                None => None,
            },
        decreases bytes.len() - at,
    {
        let ghost suffix = bytes@.subrange(at as int, bytes@.len() as int);
        if bytes.len() - at < 4 {
            return None;
        }
        let length = read_le(bytes, at, 4);
        assert(suffix.subrange(0, 4) =~= bytes@.subrange(at as int, at + 4));
        if ((bytes.len() - at - 4) as u64) < length {
            return None;
        }
        let length = length as usize;
        let item = copy_range(bytes, at + 4, at + 4 + length);
        proof {
            assert(suffix.subrange(4, 4 + length) =~= item@);
            assert(suffix.subrange(4 + length, suffix.len() as int) =~= bytes@.subrange(
                at + 4 + length,
                bytes@.len() as int,
            ));
        }
        items.push(item);
        at = at + 4 + length;
    }
    Some(items)
}

/// Decodes the flat byte buffer of a tensor into typed values: the inverse of `encode`.
///
/// Fails with `InvalidDatatype` for a datatype that is not recognized, with
/// `InvalidShape` where a dimension is negative or where the buffer does not hold
/// exactly as many elements as the shape has, and with `TruncatedBuffer` where the
/// framing of a `BYTES` buffer reaches past its end. The values go to the list
/// that the datatype reads; a datatype without one gives no values.
pub fn decode(datatype: DataType, shape: &[i64], buffer: &[u8]) -> (result: Result<
    InferTensorContents,
    CodecError,
>)
    ensures
        contents_result_view(result) == decode_spec(datatype, shape@, buffer@),
{
    let element = data_type_size(datatype);
    if element == ElementSize::Invalid {
        return Err(CodecError::InvalidDatatype);
    }
    if check_shape(shape).is_err() {
        return Err(CodecError::InvalidShape);
    }
    let expected = checked_element_count(shape);
    let mut contents = InferTensorContents::new();
    match element {
        ElementSize::Invalid => Err(CodecError::InvalidDatatype),
        ElementSize::Variable => match unframe_elements(buffer) {
            None => Err(CodecError::TruncatedBuffer),
            Some(items) => {
                let found = items.len();
                let holds = match expected {
                    Some(n) => n == found,
                    None => false,
                };
                if holds {
                    contents.bytes_contents = items;
                    Ok(contents)
                } else {
                    Err(CodecError::InvalidShape)
                }
            },
        },
        ElementSize::Fixed(width) => {
            let size = buffer.len();
            let ghost needed = element_count(shape@) * fixed_width(datatype);
            let count: usize = match expected {
                Some(n) => n,
                None => {
                    assert(needed >= element_count(shape@)) by (nonlinear_arith)
                        requires
                            needed == element_count(shape@) * fixed_width(datatype),
                            element_count(shape@) >= 0,
                            fixed_width(datatype) >= 1,
                    ;
                    return Err(CodecError::InvalidShape);
                },
            };
            let fits = match count.checked_mul(width) {
                Some(total) => total == size,
                None => false,
            };
            if !fits {
                return Err(CodecError::InvalidShape);
            }
            match datatype {
                DataType::Bool => {
                    contents.bool_contents = unpack_bools(buffer, count);
                },
                DataType::Uint8 | DataType::Uint16 | DataType::Uint32 => {
                    contents.uint_contents = unpack_u32s(buffer, count, width);
                },
                DataType::Uint64 => {
                    contents.uint64_contents = unpack_u64s(buffer, count);
                },
                DataType::Int8 | DataType::Int16 | DataType::Int32 => {
                    contents.int_contents = unpack_i32s(buffer, count, width);
                },
                DataType::Int64 => {
                    contents.int64_contents = unpack_i64s(buffer, count);
                },
                DataType::Fp32 => {
                    contents.fp32_contents = unpack_u32s(buffer, count, width);
                },
                DataType::Fp64 => {
                    contents.fp64_contents = unpack_u64s(buffer, count);
                },
                _ => {},
            }
            Ok(contents)
        },
    }
}

} // verus!
