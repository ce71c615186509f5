//! Facts about the tensor codec: what its building blocks compute, and that
//! decoding undoes encoding.

use crate::codec::{
    chunk, decode_spec, element_count, encode_spec, encoded, frame, has_typed_list, le_bytes,
    le_signed, le_value, only_list, pack, radix, shape_is_valid, typed_values, unframe, unpacked,
    value_count, values_fit, CodecError,
};
use crate::proto::TensorContentsView;
use crate::utils::{fixed_width, DataType};
use vstd::prelude::*;

verus! {

/// The number of values that one, two, four and eight bytes hold.
pub proof fn lemma_radix_values()
    ensures
        radix(0) == 1,
        radix(1) == 0x100,
        radix(2) == 0x1_0000,
        radix(4) == 0x1_0000_0000,
        radix(8) == 0x1_0000_0000_0000_0000,
{
    reveal_with_fuel(radix, 9);
}

/// More bytes hold at least as many values, and never none.
pub proof fn lemma_radix_grows(narrow: nat, wide: nat)
    requires
        narrow <= wide,
    ensures
        0 < radix(narrow) <= radix(wide),
    decreases wide,
{
    if wide > 0 {
        if narrow == wide {
            lemma_radix_grows((narrow - 1) as nat, (wide - 1) as nat);
        } else {
            lemma_radix_grows(narrow, (wide - 1) as nat);
        }
    }
}

/// `radix` turns a sum of widths into a product.
pub proof fn lemma_radix_sum(a: nat, b: nat)
    ensures
        radix(a + b) == radix(a) * radix(b),
    decreases a,
{
    if a == 0 {
        assert(1 * radix(b) == radix(b));
    } else {
        lemma_radix_sum((a - 1) as nat, b);
        let ra = radix((a - 1) as nat) as int;
        let rb = radix(b) as int;
        assert(256 * (ra * rb) == (256 * ra) * rb) by (nonlinear_arith);
    }
}

/// `le_bytes` gives as many bytes as asked for.
pub proof fn lemma_le_bytes_len(value: int, width: nat)
    ensures
        le_bytes(value, width).len() == width,
    decreases width,
{
    if width > 0 {
        lemma_le_bytes_len(value / 256, (width - 1) as nat);
    }
}

/// The value of some bytes is below the number of values that they hold.
pub proof fn lemma_le_value_bound(bytes: Seq<u8>)
    ensures
        le_value(bytes) < radix(bytes.len()),
    decreases bytes.len(),
{
    if bytes.len() > 0 {
        lemma_le_value_bound(bytes.drop_first());
    }
}

/// A number that fits in `width` bytes is read back from its bytes.
pub proof fn lemma_le_round_trip(value: int, width: nat)
    requires
        0 <= value < radix(width),
    ensures
        le_value(le_bytes(value, width)) == value,
    decreases width,
{
    if width > 0 {
        let rest = le_bytes(value / 256, (width - 1) as nat);
        lemma_le_round_trip(value / 256, (width - 1) as nat);
        assert(le_bytes(value, width).drop_first() =~= rest);
    }
}

/// Some bytes are written back from the number that they stand for.
pub proof fn lemma_le_bytes_of_value(bytes: Seq<u8>)
    ensures
        le_bytes(le_value(bytes) as int, bytes.len()) == bytes,
    decreases bytes.len(),
{
    if bytes.len() > 0 {
        let rest = bytes.drop_first();
        lemma_le_bytes_of_value(rest);
    }
}

/// Adding a multiple of `radix(width)` changes none of the lowest `width` bytes.
pub proof fn lemma_le_bytes_wraps(value: int, width: nat, turns: int)
    ensures
        le_bytes(value + turns * radix(width), width) == le_bytes(value, width),
    decreases width,
{
    if width > 0 {
        let r = radix((width - 1) as nat) as int;
        let m = turns * r;
        assert(turns * radix(width) == 256 * m) by (nonlinear_arith)
            requires
                radix(width) == 256 * r,
                m == turns * r,
        ;
        assert((value + 256 * m) / 256 == value / 256 + m);
        lemma_le_bytes_wraps(value / 256, (width - 1) as nat, turns);
    }
}

/// The lowest bytes of a negative number are those of its 64-bit two's complement.
pub proof fn lemma_le_bytes_of_twos_complement(value: int, width: nat)
    requires
        width <= 8,
    ensures
        le_bytes(value + 0x1_0000_0000_0000_0000, width) == le_bytes(value, width),
{
    lemma_radix_values();
    lemma_radix_sum((8 - width) as nat, width);
    lemma_le_bytes_wraps(value, width, radix((8 - width) as nat) as int);
}

/// A signed number that fits in `width` bytes is read back from its bytes.
pub proof fn lemma_le_signed_round_trip(value: int, width: nat)
    requires
        -radix(width) <= 2 * value < radix(width),
    ensures
        le_signed(le_bytes(value, width)) == value,
{
    lemma_le_bytes_len(value, width);
    if value >= 0 {
        lemma_le_round_trip(value, width);
    } else {
        lemma_le_bytes_wraps(value, width, 1);
        lemma_le_round_trip(value + radix(width), width);
    }
}

/// A packed buffer takes `width` bytes for each value.
pub proof fn lemma_pack_len(values: Seq<int>, width: nat)
    ensures
        pack(values, width).len() == values.len() * width,
    decreases values.len(),
{
    if values.len() > 0 {
        lemma_pack_len(values.drop_last(), width);
        lemma_le_bytes_len(values.last(), width);
        assert((values.len() - 1) * width + width == values.len() * width)
            by (nonlinear_arith);
    }
}

/// The element at `index` of a packed buffer holds the bytes of the value at `index`.
pub proof fn lemma_pack_chunk(values: Seq<int>, width: nat, index: int)
    requires
        0 <= index < values.len(),
    ensures
        chunk(pack(values, width), index, width) == le_bytes(values[index], width),
    decreases values.len(),
{
    let head = values.drop_last();
    lemma_pack_len(head, width);
    lemma_le_bytes_len(values.last(), width);
    if index < values.len() - 1 {
        lemma_pack_chunk(head, width, index);
        assert(0 <= index * width && index * width + width <= (values.len() - 1) * width)
            by (nonlinear_arith)
            requires
                0 <= index < values.len() - 1,
        ;
    }
}

/// Framing a list is framing its first element and then the rest.
pub proof fn lemma_frame_prepend(first: Seq<u8>, rest: Seq<Seq<u8>>)
    ensures
        frame(seq![first] + rest) == le_bytes(first.len() as int, 4) + first + frame(rest),
    decreases rest.len(),
{
    let all = seq![first] + rest;
    if rest.len() == 0 {
        assert(frame(all.drop_last()) =~= Seq::<u8>::empty());
    } else {
        assert(all.drop_last() =~= seq![first] + rest.drop_last());
        lemma_frame_prepend(first, rest.drop_last());
    }
}

/// A framed buffer is read back as the byte strings that were framed, so long as
/// the length of each fits its four-byte prefix.
pub proof fn lemma_unframe_frame(items: Seq<Seq<u8>>)
    requires
        forall|i: int| 0 <= i < items.len() ==> (#[trigger] items[i]).len() < 0x1_0000_0000,
    ensures
        unframe(frame(items)) == Some(items),
    decreases items.len(),
{
    if items.len() > 0 {
        let first = items[0];
        let rest = items.drop_first();
        assert(items =~= seq![first] + rest);
        lemma_frame_prepend(first, rest);
        assert forall|i: int| 0 <= i < rest.len() implies (#[trigger] rest[i]).len()
            < 0x1_0000_0000 by {
        }
        lemma_unframe_frame(rest);
        let prefix = le_bytes(first.len() as int, 4);
        lemma_radix_values();
        lemma_le_bytes_len(first.len() as int, 4);
        lemma_le_round_trip(first.len() as int, 4);
        let bytes = frame(items);
        assert(bytes.subrange(0, 4) =~= prefix);
        assert(bytes.subrange(4, 4 + first.len() as int) =~= first);
        assert(bytes.subrange(4 + first.len() as int, bytes.len() as int) =~= frame(rest));
    }
}

/// The number of elements of a shape with a dimension of 0 is 0.
pub proof fn lemma_count_of_empty_dimension(shape: Seq<i64>, at: int)
    requires
        0 <= at < shape.len(),
        shape[at] == 0,
    ensures
        element_count(shape) == 0,
    decreases shape.len(),
{
    if at == shape.len() - 1 {
        assert(element_count(shape.drop_last()) * 0 == 0);
    } else {
        lemma_count_of_empty_dimension(shape.drop_last(), at);
    }
}

/// Where every dimension is at least 1, a longer prefix of the shape holds at
/// least as many elements, and at least one.
pub proof fn lemma_count_grows(shape: Seq<i64>, shorter: int, longer: int)
    requires
        0 <= shorter <= longer <= shape.len(),
        forall|i: int| 0 <= i < shape.len() ==> shape[i] >= 1,
    ensures
        1 <= element_count(shape.take(shorter)) <= element_count(shape.take(longer)),
    decreases longer,
{
    if longer > 0 {
        let prefix = shape.take(longer);
        assert(prefix.drop_last() =~= shape.take(longer - 1));
        if shorter == longer {
            lemma_count_grows(shape, shorter - 1, longer - 1);
        } else {
            lemma_count_grows(shape, shorter, longer - 1);
        }
        assert(element_count(shape.take(longer - 1)) * prefix.last() >= element_count(
            shape.take(longer - 1),
        )) by (nonlinear_arith)
            requires
                element_count(shape.take(longer - 1)) >= 1,
                prefix.last() >= 1,
        ;
    }
}

/// In a packed buffer, the element at `index` reads back as the value that was
/// packed there, so long as that value fits in `width` bytes.
pub proof fn lemma_packed_value(values: Seq<int>, width: nat, index: int)
    requires
        0 <= index < values.len(),
        0 <= values[index] < radix(width),
    ensures
        le_value(chunk(pack(values, width), index, width)) == values[index],
{
    lemma_pack_chunk(values, width, index);
    lemma_le_round_trip(values[index], width);
}

/// In a packed buffer, the element at `index` reads back as the signed value that
/// was packed there, so long as that value fits in `width` bytes.
pub proof fn lemma_packed_signed_value(values: Seq<int>, width: nat, index: int)
    requires
        0 <= index < values.len(),
        -radix(width) <= 2 * values[index] < radix(width),
    ensures
        le_signed(chunk(pack(values, width), index, width)) == values[index],
{
    lemma_pack_chunk(values, width, index);
    lemma_le_signed_round_trip(values[index], width);
}

/// Round trip of fixed-width tensors: for a datatype with a typed list, a shape
/// without a negative dimension and as many values as the shape has elements,
/// each of them fitting the width of the datatype, encoding succeeds, and
/// decoding its result gives the same values back.
pub proof fn lemma_fixed_width_round_trip(
    dtype: DataType,
    shape: Seq<i64>,
    contents: TensorContentsView,
)
    requires
        has_typed_list(dtype),
        shape_is_valid(shape),
        value_count(dtype, contents) == element_count(shape),
        values_fit(dtype, contents),
    ensures
        encode_spec(dtype, shape, contents) == Ok::<Seq<u8>, CodecError>(
            encoded(dtype, contents),
        ),
        decode_spec(dtype, shape, encoded(dtype, contents)) == Ok::<
            TensorContentsView,
            CodecError,
        >(only_list(dtype, contents)),
{
    let values = typed_values(dtype, contents);
    let width = fixed_width(dtype);
    let bytes = pack(values, width);
    let count = values.len();
    lemma_pack_len(values, width);
    lemma_radix_values();
    let decoded = unpacked(dtype, count, bytes);
    match dtype {
        DataType::Bool => {
            assert forall|i: int| 0 <= i < count implies (bytes[i] != 0)
                == contents.bool_contents[i] by {
                lemma_pack_chunk(values, 1, i);
                assert(chunk(bytes, i, 1)[0] == bytes[i]);
            }
        },
        DataType::Uint8 | DataType::Uint16 | DataType::Uint32 => {
            assert forall|i: int| 0 <= i < count implies le_value(chunk(bytes, i, width)) as u32
                == contents.uint_contents[i] by {
                lemma_packed_value(values, width, i);
            }
        },
        DataType::Uint64 => {
            assert forall|i: int| 0 <= i < count implies le_value(chunk(bytes, i, width)) as u64
                == contents.uint64_contents[i] by {
                lemma_packed_value(values, width, i);
            }
        },
        DataType::Int8 | DataType::Int16 | DataType::Int32 => {
            assert forall|i: int| 0 <= i < count implies le_signed(chunk(bytes, i, width)) as i32
                == contents.int_contents[i] by {
                lemma_packed_signed_value(values, width, i);
            }
        },
        DataType::Int64 => {
            assert forall|i: int| 0 <= i < count implies le_signed(chunk(bytes, i, width)) as i64
                == contents.int64_contents[i] by {
                lemma_packed_signed_value(values, width, i);
            }
        },
        DataType::Fp32 => {
            assert forall|i: int| 0 <= i < count implies le_value(chunk(bytes, i, width)) as u32
                == contents.fp32_contents[i] by {
                lemma_packed_value(values, width, i);
            }
        },
        DataType::Fp64 => {
            assert forall|i: int| 0 <= i < count implies le_value(chunk(bytes, i, width)) as u64
                == contents.fp64_contents[i] by {
                lemma_packed_value(values, width, i);
            }
        },
        _ => {},
    }
    assert(decoded =~= only_list(dtype, contents));
}

/// Round trip of `BYTES` tensors: for a shape without a negative dimension and
/// as many byte strings as the shape has elements, each shorter than 2^32 bytes,
/// an empty one included, encoding succeeds, and decoding its result gives the
/// same byte strings back.
pub proof fn lemma_bytes_round_trip(shape: Seq<i64>, contents: TensorContentsView)
    requires
        shape_is_valid(shape),
        contents.bytes_contents.len() == element_count(shape),
        forall|i: int|
            0 <= i < contents.bytes_contents.len() ==> (#[trigger] contents.bytes_contents[i]).len()
                < 0x1_0000_0000,
    ensures
        encode_spec(DataType::Bytes, shape, contents) == Ok::<Seq<u8>, CodecError>(
            frame(contents.bytes_contents),
        ),
        decode_spec(DataType::Bytes, shape, frame(contents.bytes_contents)) == Ok::<
            TensorContentsView,
            CodecError,
        >(only_list(DataType::Bytes, contents)),
{
    lemma_unframe_frame(contents.bytes_contents);
}

/// The bytes of a signed number are written back from the number.
pub proof fn lemma_le_bytes_of_signed(bytes: Seq<u8>)
    ensures
        le_bytes(le_signed(bytes), bytes.len()) == bytes,
{
    lemma_le_bytes_of_value(bytes);
    if 2 * le_value(bytes) >= radix(bytes.len()) {
        lemma_le_bytes_wraps(le_signed(bytes), bytes.len(), 1);
    }
}

/// Packing values whose bytes are the elements of a buffer gives the buffer back.
pub proof fn lemma_pack_of_chunks(bytes: Seq<u8>, width: nat, values: Seq<int>)
    requires
        bytes.len() == values.len() * width,
        forall|i: int|
            0 <= i < values.len() ==> le_bytes(#[trigger] values[i], width) == chunk(
                bytes,
                i,
                width,
            ),
    ensures
        pack(values, width) == bytes,
    decreases values.len(),
{
    if values.len() > 0 {
        let last = values.len() - 1;
        let head = values.drop_last();
        let head_bytes = bytes.subrange(0, last * width);
        assert(last * width + width == values.len() * width && 0 <= last * width)
            by (nonlinear_arith)
            requires
                last == values.len() - 1,
                last >= 0,
        ;
        assert forall|i: int| 0 <= i < head.len() implies le_bytes(#[trigger] head[i], width)
            == chunk(head_bytes, i, width) by {
            assert(0 <= i * width && i * width + width <= last * width) by (nonlinear_arith)
                requires
                    0 <= i < last,
            ;
        }
        lemma_pack_of_chunks(head_bytes, width, head);
    }
}

/// Framing the byte strings that a framed buffer holds gives the buffer back.
pub proof fn lemma_frame_unframe(bytes: Seq<u8>)
    requires
        unframe(bytes) is Some,
    ensures
        frame(unframe(bytes)->Some_0) == bytes,
    decreases bytes.len(),
{
    if bytes.len() > 0 {
        let prefix = bytes.subrange(0, 4);
        let n = le_value(prefix) as int;
        let item = bytes.subrange(4, 4 + n);
        let rest = bytes.subrange(4 + n, bytes.len() as int);
        lemma_frame_unframe(rest);
        lemma_frame_prepend(item, unframe(rest)->Some_0);
        lemma_le_bytes_of_value(prefix);
    }
}

/// Whether every element of a buffer is written as `encode` writes it. This
/// leaves out only buffers of booleans with a byte other than 0 and 1.
pub open spec fn is_canonical(dtype: DataType, bytes: Seq<u8>) -> bool {
    dtype == DataType::Bool ==> forall|i: int| 0 <= i < bytes.len() ==> #[trigger] bytes[i] <= 1
}

/// Decoding is undone by encoding: for a datatype with a typed list, and for
/// `BYTES`, the values that a canonical buffer decodes to encode to that buffer.
pub proof fn lemma_encode_undoes_decode(dtype: DataType, shape: Seq<i64>, bytes: Seq<u8>)
    requires
        has_typed_list(dtype) || dtype == DataType::Bytes,
        is_canonical(dtype, bytes),
        decode_spec(dtype, shape, bytes) is Ok,
    ensures
        encode_spec(dtype, shape, decode_spec(dtype, shape, bytes)->Ok_0) == Ok::<
            Seq<u8>,
            CodecError,
        >(bytes),
{
    let contents = decode_spec(dtype, shape, bytes)->Ok_0;
    if dtype == DataType::Bytes {
        lemma_frame_unframe(bytes);
    } else {
        let width = fixed_width(dtype);
        assert(element_count(shape) >= 0) by (nonlinear_arith)
            requires
                bytes.len() == element_count(shape) * width,
                width > 0,
        ;
        let count = element_count(shape) as nat;
        let values = typed_values(dtype, contents);
        lemma_radix_values();
        assert forall|i: int| 0 <= i < values.len() implies le_bytes(#[trigger] values[i], width)
            == chunk(bytes, i, width) by {
            let element = chunk(bytes, i, width);
            assert(0 <= i * width && i * width + width <= count * width) by (nonlinear_arith)
                requires
                    0 <= i < count,
            ;
            lemma_le_value_bound(element);
            lemma_le_bytes_of_value(element);
            lemma_le_bytes_of_signed(element);
            if dtype == DataType::Bool {
                assert(le_value(element) == bytes[i]);
            }
        }
        lemma_pack_of_chunks(bytes, width, values);
    }
}

/// Whether `encode` writes every value of `contents` in full: each number fits
/// the width of the datatype, and each byte string is shorter than 2^32 bytes.
pub open spec fn encodes_in_full(dtype: DataType, contents: TensorContentsView) -> bool {
    &&& values_fit(dtype, contents)
    &&& dtype == DataType::Bytes ==> forall|i: int|
        0 <= i < contents.bytes_contents.len() ==> (#[trigger] contents.bytes_contents[i]).len()
            < 0x1_0000_0000
}

/// Round trip of every tensor with typed values: where `encode` succeeds and
/// writes every value in full, `decode` gives the same values back from what
/// `encode` gave.
pub proof fn lemma_round_trip(dtype: DataType, shape: Seq<i64>, contents: TensorContentsView)
    requires
        has_typed_list(dtype) || dtype == DataType::Bytes,
        encodes_in_full(dtype, contents),
        encode_spec(dtype, shape, contents) is Ok,
    ensures
        decode_spec(dtype, shape, encode_spec(dtype, shape, contents)->Ok_0) == Ok::<
            TensorContentsView,
            CodecError,
        >(only_list(dtype, contents)),
{
    if dtype == DataType::Bytes {
        lemma_bytes_round_trip(shape, contents);
    } else {
        lemma_fixed_width_round_trip(dtype, shape, contents);
    }
}

} // verus!
