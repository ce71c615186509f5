use triton_bridge::error::{ErrorCode, ErrorKind, TritonError};
use triton_bridge::inference_response::{InferResponse, InferResponseOutput, MemoryType};
use triton_bridge::response_allocator::ResponseAllocator;
use triton_bridge::server::Server;
use triton_bridge::codec::encode;
use triton_bridge::proto::InferTensorContents;
use triton_bridge::utils::{data_type_to_string, DataType};

fn server() -> Server {
    Server::new(1, ResponseAllocator::new(2))
}

fn output(name: &str, datatype: DataType, shape: &[i64], data: &[u8]) -> InferResponseOutput {
    InferResponseOutput::new(
        name.to_string(),
        datatype,
        shape.to_vec(),
        data.to_vec(),
        MemoryType::Cpu,
        0,
    )
    .unwrap()
}

fn response(outputs: Vec<InferResponseOutput>) -> InferResponse {
    InferResponse::new(None, "model".to_string(), 7, "id-9".to_string(), outputs)
}

#[test]
fn an_output_says_what_it_holds() {
    let out = InferResponseOutput::new(
        "OUT".to_string(),
        DataType::Int16,
        vec![2, 3],
        vec![0; 12],
        MemoryType::CpuPinned,
        4,
    )
    .unwrap();
    assert_eq!(out.name(), "OUT");
    assert_eq!(out.datatype(), DataType::Int16);
    assert_eq!(out.shape(), &vec![2, 3]);
    assert_eq!(out.memory_type(), MemoryType::CpuPinned);
    assert_eq!(out.memory_type_id(), 4);
    assert_eq!(out.data(), &vec![0u8; 12]);
    assert_eq!(out.byte_size(), 12);
    assert_eq!(out.len(), 6);
    assert!(!out.is_empty());
    assert_eq!(out.capacity(), Some(6));
    let (name, datatype, shape, data) = out.into_parts();
    assert_eq!(name, "OUT");
    assert_eq!(datatype, DataType::Int16);
    assert_eq!(shape, vec![2, 3]);
    assert_eq!(data, vec![0u8; 12]);
}

#[test]
fn the_size_of_an_output_is_counted_in_elements() {
    assert_eq!(output("O", DataType::Fp32, &[], &[0; 4]).len(), 1);
    assert_eq!(output("O", DataType::Fp32, &[3, 0], &[]).len(), 0);
    assert!(output("O", DataType::Fp32, &[3, 0], &[]).is_empty());
    assert_eq!(output("O", DataType::Uint64, &[1], &[0; 20]).capacity(), Some(2));
    assert_eq!(output("O", DataType::Bool, &[1], &[0; 3]).capacity(), Some(3));
    assert_eq!(output("O", DataType::Bytes, &[1], &[0; 4]).capacity(), None);
    assert_eq!(output("O", DataType::Invalid, &[1], &[0; 4]).capacity(), None);
}

#[test]
fn an_output_with_a_shape_that_cannot_be_is_refused() {
    for shape in [vec![-1], vec![2, -2], vec![i64::MAX, i64::MAX], vec![i64::MAX, 3]] {
        let error = InferResponseOutput::new(
            "O".to_string(),
            DataType::Uint8,
            shape,
            vec![],
            MemoryType::Cpu,
            0,
        )
        .unwrap_err();
        assert_eq!(error.code(), ErrorCode::InvalidArg);
        assert_eq!(error.msg(), "invalid output shape");
    }
}

#[test]
fn memory_types_are_read_from_their_numbers() {
    assert_eq!(MemoryType::from_number(0), MemoryType::Cpu);
    assert_eq!(MemoryType::from_number(1), MemoryType::CpuPinned);
    assert_eq!(MemoryType::from_number(2), MemoryType::Gpu);
    assert_eq!(MemoryType::from_number(3), MemoryType::Cpu);
    assert_eq!(MemoryType::Cpu.number(), 0);
    assert_eq!(MemoryType::CpuPinned.number(), 1);
    assert_eq!(MemoryType::Gpu.number(), 2);
}

#[test]
fn a_response_says_what_it_holds() {
    let full = response(vec![
        output("A", DataType::Uint8, &[1], &[5]),
        output("B", DataType::Uint8, &[2], &[6, 7]),
    ]);
    assert!(full.error().is_none());
    assert_eq!(full.model(), ("model".to_string(), 7));
    assert_eq!(full.id(), "id-9");
    assert_eq!(full.output_count().unwrap(), 2);
    assert_eq!(full.output(0).unwrap().name(), "A");
    assert_eq!(full.output(1).unwrap().data(), &vec![6u8, 7]);
    let error = full.output(2).unwrap_err();
    assert_eq!(error.code(), ErrorCode::InvalidArg);
    assert_eq!(error.msg(), "output index out of range");
    let failed = InferResponse::new(
        Some(TritonError::new(ErrorCode::Internal, "boom".to_string())),
        "m".to_string(),
        1,
        "".to_string(),
        vec![],
    );
    assert_eq!(failed.error().unwrap().msg(), "boom");
    assert_eq!(failed.output_count().unwrap(), 0);
}

#[test]
fn typed_outputs_are_decoded() {
    let wire = server()
        .create_pb_response(
            response(vec![
                output("U8", DataType::Uint8, &[4], &[1, 2, 3, 4]),
                output("I16", DataType::Int16, &[2], &[0xff, 0xff, 2, 0]),
                output("B", DataType::Bool, &[2], &[1, 0]),
                output("S", DataType::Bytes, &[2], &[1, 0, 0, 0, b'x', 0, 0, 0, 0]),
                output("U64", DataType::Uint64, &[1], &[1, 0, 0, 0, 0, 0, 0, 128]),
            ]),
            false,
        )
        .unwrap();
    assert_eq!(wire.model_name, "model");
    assert_eq!(wire.model_version, "7");
    assert_eq!(wire.id, "id-9");
    assert!(wire.raw_output_contents.is_empty());
    assert_eq!(wire.outputs.len(), 5);
    assert_eq!(wire.outputs[0].name, "U8");
    assert_eq!(wire.outputs[0].datatype, "UINT8");
    assert_eq!(wire.outputs[0].shape, vec![4]);
    assert_eq!(wire.outputs[0].contents.as_ref().unwrap().uint_contents, vec![1, 2, 3, 4]);
    assert_eq!(wire.outputs[1].datatype, "INT16");
    assert_eq!(wire.outputs[1].contents.as_ref().unwrap().int_contents, vec![-1, 2]);
    assert_eq!(wire.outputs[2].contents.as_ref().unwrap().bool_contents, vec![true, false]);
    assert_eq!(wire.outputs[3].datatype, "BYTES");
    assert_eq!(
        wire.outputs[3].contents.as_ref().unwrap().bytes_contents,
        vec![b"x".to_vec(), vec![]]
    );
    assert_eq!(wire.outputs[4].contents.as_ref().unwrap().uint64_contents, vec![(1 << 63) + 1]);
}

#[test]
fn raw_outputs_are_handed_on_unchanged() {
    let wire = server()
        .create_pb_response(
            response(vec![
                output("A", DataType::Fp32, &[1], &[0, 0, 128, 63]),
                output("B", DataType::Bytes, &[9], &[1, 2, 3]),
                output("C", DataType::Invalid, &[1], &[]),
            ]),
            true,
        )
        .unwrap();
    assert_eq!(wire.raw_output_contents, vec![vec![0u8, 0, 128, 63], vec![1, 2, 3], vec![]]);
    assert_eq!(wire.outputs.len(), 3);
    assert_eq!(wire.outputs[0].name, "A");
    assert_eq!(wire.outputs[0].datatype, "FP32");
    assert_eq!(wire.outputs[1].name, "B");
    assert_eq!(wire.outputs[1].shape, vec![9]);
    assert_eq!(wire.outputs[2].datatype, "INVALID");
    assert!(wire.outputs.iter().all(|o| o.contents.is_none()));
}

#[test]
fn outputs_without_a_typed_list_are_skipped() {
    let wire = server()
        .create_pb_response(
            response(vec![
                output("H", DataType::Fp16, &[2], &[0, 60, 0, 64]),
                output("B", DataType::Bf16, &[5], &[1]),
                output("X", DataType::Invalid, &[1], &[1, 2, 3]),
                output("U", DataType::Uint8, &[1], &[9]),
            ]),
            false,
        )
        .unwrap();
    assert_eq!(wire.outputs.len(), 4);
    assert!(wire.outputs[0].contents.is_none());
    assert_eq!(wire.outputs[0].datatype, "FP16");
    assert!(wire.outputs[1].contents.is_none());
    assert!(wire.outputs[2].contents.is_none());
    assert_eq!(wire.outputs[3].contents.as_ref().unwrap().uint_contents, vec![9]);
    assert!(wire.raw_output_contents.is_empty());
}

#[test]
fn a_response_without_outputs_is_empty() {
    let wire = server().create_pb_response(response(vec![]), false).unwrap();
    assert!(wire.outputs.is_empty());
    assert!(wire.raw_output_contents.is_empty());
    let wire = server().create_pb_response(response(vec![]), true).unwrap();
    assert!(wire.outputs.is_empty());
    assert!(wire.raw_output_contents.is_empty());
}

#[test]
fn the_first_output_that_cannot_be_decoded_decides() {
    let error = server()
        .create_pb_response(
            response(vec![
                output("A", DataType::Uint8, &[1], &[1]),
                output("B", DataType::Bytes, &[1], &[4, 0, 0, 0, 1]),
                output("C", DataType::Uint16, &[1], &[1]),
            ]),
            false,
        )
        .unwrap_err();
    assert_eq!(error.kind, ErrorKind::TruncatedBuffer);
    assert_eq!(error.msg, "Truncated buffer");
    let error = server()
        .create_pb_response(
            response(vec![
                output("C", DataType::Uint16, &[1], &[1]),
                output("B", DataType::Bytes, &[1], &[4, 0, 0, 0, 1]),
            ]),
            false,
        )
        .unwrap_err();
    assert_eq!(error.kind, ErrorKind::InvalidShape);
    assert_eq!(error.msg, "Invalid shape");
}

#[test]
fn a_closed_channel_fails_the_call() {
    let error = server().complete(None, false).unwrap_err();
    assert_eq!(error.kind, ErrorKind::ReceiveFailed);
    assert_eq!(error.msg, "receive error");
}

#[test]
fn an_error_of_the_engine_fails_the_call() {
    let failed = InferResponse::new(
        Some(TritonError::new(ErrorCode::Unavailable, "request timed out".to_string())),
        "model".to_string(),
        1,
        "1".to_string(),
        vec![output("B", DataType::Bytes, &[1], &[4, 0, 0, 0, 1])],
    );
    let error = server().complete(Some(failed), false).unwrap_err();
    assert_eq!(error.kind, ErrorKind::EngineReportedError);
    assert_eq!(error.msg, "request timed out");
}

#[test]
fn a_response_completes_the_call() {
    let wire = server()
        .complete(Some(response(vec![output("A", DataType::Int8, &[2], &[255, 1])])), false)
        .unwrap();
    assert_eq!(wire.outputs[0].contents.as_ref().unwrap().int_contents, vec![-1, 1]);
    assert_eq!(wire.model_version, "7");
}

#[test]
fn what_was_encoded_comes_back_in_the_response() {
    use_encoded(DataType::Uint8, &[2, 2], |c| c.uint_contents = vec![0, 1, 254, 255]);
    use_encoded(DataType::Uint16, &[3], |c| c.uint_contents = vec![0, 256, 65535]);
    use_encoded(DataType::Uint32, &[1], |c| c.uint_contents = vec![u32::MAX]);
    use_encoded(DataType::Uint64, &[2], |c| c.uint64_contents = vec![u64::MAX, 1 << 40]);
    use_encoded(DataType::Int8, &[3], |c| c.int_contents = vec![-128, -1, 127]);
    use_encoded(DataType::Int16, &[2], |c| c.int_contents = vec![-32768, 32767]);
    use_encoded(DataType::Int32, &[2], |c| c.int_contents = vec![i32::MIN, i32::MAX]);
    use_encoded(DataType::Int64, &[2], |c| c.int64_contents = vec![i64::MIN, i64::MAX]);
    use_encoded(DataType::Bool, &[3], |c| c.bool_contents = vec![true, false, true]);
    use_encoded(DataType::Fp32, &[2], |c| c.fp32_contents = vec![1.5f32.to_bits(), 0]);
    use_encoded(DataType::Fp64, &[1], |c| c.fp64_contents = vec![(-2.25f64).to_bits()]);
    use_encoded(DataType::Bytes, &[3], |c| {
        c.bytes_contents = vec![b"stringa".to_vec(), vec![], vec![9; 300]]
    });
}

fn use_encoded(datatype: DataType, shape: &[i64], fill: fn(&mut InferTensorContents)) {
    let mut contents = InferTensorContents::new();
    fill(&mut contents);
    let buffer = encode(datatype, shape, &contents).unwrap();
    let wire = server()
        .create_pb_response(
            response(vec![
                output("BEFORE", DataType::Uint8, &[1], &[7]),
                output("OUT", datatype, shape, &buffer),
                output("AFTER", DataType::Fp16, &[1], &[0, 60]),
            ]),
            false,
        )
        .unwrap();
    assert_eq!(wire.outputs.len(), 3);
    let tensor = &wire.outputs[1];
    assert_eq!(tensor.name, "OUT");
    assert_eq!(tensor.datatype, data_type_to_string(datatype));
    assert_eq!(tensor.shape, shape);
    let back = tensor.contents.as_ref().unwrap();
    assert_eq!(back.bool_contents, contents.bool_contents);
    assert_eq!(back.int_contents, contents.int_contents);
    assert_eq!(back.int64_contents, contents.int64_contents);
    assert_eq!(back.uint_contents, contents.uint_contents);
    assert_eq!(back.uint64_contents, contents.uint64_contents);
    assert_eq!(back.fp32_contents, contents.fp32_contents);
    assert_eq!(back.fp64_contents, contents.fp64_contents);
    assert_eq!(back.bytes_contents, contents.bytes_contents);
}
