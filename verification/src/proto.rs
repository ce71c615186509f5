//! The wire messages of an inference call: typed tensors in, typed tensors out.
//!
//! Floating-point values travel as their IEEE 754 bit patterns: a 32-bit float
//! as the `u32` that holds its bits, a 64-bit float as the `u64`.

use vstd::prelude::*;

verus! {

/// The typed values of one tensor, one list per family of datatypes. Only the
/// list that belongs to the tensor's datatype is read.
#[derive(Debug)]
pub struct InferTensorContents {
    /// Values of a `BOOL` tensor.
    pub bool_contents: Vec<bool>,
    /// Values of an `INT8`, `INT16` or `INT32` tensor.
    pub int_contents: Vec<i32>,
    /// Values of an `INT64` tensor.
    pub int64_contents: Vec<i64>,
    /// Values of a `UINT8`, `UINT16` or `UINT32` tensor.
    pub uint_contents: Vec<u32>,
    /// Values of a `UINT64` tensor.
    pub uint64_contents: Vec<u64>,
    /// Bit patterns of the values of an `FP32` tensor.
    pub fp32_contents: Vec<u32>,
    /// Bit patterns of the values of an `FP64` tensor.
    pub fp64_contents: Vec<u64>,
    /// Elements of a `BYTES` tensor.
    pub bytes_contents: Vec<Vec<u8>>,
}

/// What an `InferTensorContents` holds.
#[verifier::ext_equal]
pub struct TensorContentsView {
    pub bool_contents: Seq<bool>,
    pub int_contents: Seq<i32>,
    pub int64_contents: Seq<i64>,
    pub uint_contents: Seq<u32>,
    pub uint64_contents: Seq<u64>,
    pub fp32_contents: Seq<u32>,
    pub fp64_contents: Seq<u64>,
    pub bytes_contents: Seq<Seq<u8>>,
}

/// The byte strings that a list of buffers holds.
pub open spec fn buffers_view(buffers: Seq<Vec<u8>>) -> Seq<Seq<u8>> {
    Seq::new(buffers.len(), |i: int| buffers[i]@)
}

/// The character strings that a list of strings holds.
pub open spec fn strings_view(strings: Seq<String>) -> Seq<Seq<char>> {
    Seq::new(strings.len(), |i: int| strings[i]@)
}

impl TensorContentsView {
    /// Contents without any value.
    pub open spec fn empty() -> TensorContentsView {
        TensorContentsView {
            bool_contents: Seq::empty(),
            int_contents: Seq::empty(),
            int64_contents: Seq::empty(),
            uint_contents: Seq::empty(),
            uint64_contents: Seq::empty(),
            fp32_contents: Seq::empty(),
            fp64_contents: Seq::empty(),
            bytes_contents: Seq::empty(),
        }
    }
}

impl View for InferTensorContents {
    type V = TensorContentsView;

    open spec fn view(&self) -> TensorContentsView {
        TensorContentsView {
            bool_contents: self.bool_contents@,
            int_contents: self.int_contents@,
            int64_contents: self.int64_contents@,
            uint_contents: self.uint_contents@,
            uint64_contents: self.uint64_contents@,
            fp32_contents: self.fp32_contents@,
            fp64_contents: self.fp64_contents@,
            bytes_contents: buffers_view(self.bytes_contents@),
        }
    }
}

impl InferTensorContents {
    /// Contents without any value.
    pub fn new() -> (contents: InferTensorContents)
        ensures
            contents@ == TensorContentsView::empty(),
    {
        let contents = InferTensorContents {
            bool_contents: Vec::new(),
            int_contents: Vec::new(),
            int64_contents: Vec::new(),
            uint_contents: Vec::new(),
            uint64_contents: Vec::new(),
            fp32_contents: Vec::new(),
            fp64_contents: Vec::new(),
            bytes_contents: Vec::new(),
        };
        contents
    }
}

/// One input tensor of a request.
#[derive(Debug)]
pub struct InferInputTensor {
    pub name: String,
    /// Wire name of the datatype.
    pub datatype: String,
    pub shape: Vec<i64>,
    /// Typed values; unused where the request carries raw buffers.
    pub contents: Option<InferTensorContents>,
}

/// What an `InferInputTensor` holds. An `InferOutputTensor` holds the same.
#[verifier::ext_equal]
pub struct TensorView {
    pub name: Seq<char>,
    pub datatype: Seq<char>,
    pub shape: Seq<i64>,
    pub contents: Option<TensorContentsView>,
}

/// The view of typed values that may be absent.
pub open spec fn contents_view(contents: Option<InferTensorContents>) -> Option<
    TensorContentsView,
> {
    match contents {
        Some(c) => Some(c@),
        None => None,
    }
}

impl View for InferInputTensor {
    type V = TensorView;

    open spec fn view(&self) -> TensorView {
        TensorView {
            name: self.name@,
            datatype: self.datatype@,
            shape: self.shape@,
            contents: contents_view(self.contents),
        }
    }
}

/// The name of one output that a request asks for.
#[derive(Debug)]
pub struct InferRequestedOutputTensor {
    pub name: String,
}

/// A request for one inference.
#[derive(Debug)]
pub struct ModelInferRequest {
    pub model_name: String,
    /// Decimal version of the model; anything that is no number asks for the latest.
    pub model_version: String,
    pub id: String,
    pub inputs: Vec<InferInputTensor>,
    pub outputs: Vec<InferRequestedOutputTensor>,
    /// Either empty, or one pre-serialized buffer for each input.
    pub raw_input_contents: Vec<Vec<u8>>,
}

/// What a `ModelInferRequest` holds.
#[verifier::ext_equal]
pub struct ModelInferRequestView {
    pub model_name: Seq<char>,
    pub model_version: Seq<char>,
    pub id: Seq<char>,
    pub inputs: Seq<TensorView>,
    pub outputs: Seq<Seq<char>>,
    pub raw_input_contents: Seq<Seq<u8>>,
}

impl View for ModelInferRequest {
    type V = ModelInferRequestView;

    open spec fn view(&self) -> ModelInferRequestView {
        ModelInferRequestView {
            model_name: self.model_name@,
            model_version: self.model_version@,
            id: self.id@,
            inputs: Seq::new(self.inputs@.len(), |i: int| self.inputs@[i]@),
            outputs: Seq::new(self.outputs@.len(), |i: int| self.outputs@[i].name@),
            raw_input_contents: buffers_view(self.raw_input_contents@),
        }
    }
}

/// One output tensor of a response.
#[derive(Debug)]
pub struct InferOutputTensor {
    pub name: String,
    /// Wire name of the datatype.
    pub datatype: String,
    pub shape: Vec<i64>,
    /// Typed values; absent where the response carries raw buffers, and for a
    /// datatype that has no typed list.
    pub contents: Option<InferTensorContents>,
}

impl View for InferOutputTensor {
    type V = TensorView;

    open spec fn view(&self) -> TensorView {
        TensorView {
            name: self.name@,
            datatype: self.datatype@,
            shape: self.shape@,
            contents: contents_view(self.contents),
        }
    }
}

/// The response to one inference.
#[derive(Debug)]
pub struct ModelInferResponse {
    pub model_name: String,
    /// Decimal version of the model that answered.
    pub model_version: String,
    pub id: String,
    pub outputs: Vec<InferOutputTensor>,
    /// Either empty, or the raw buffer of each output, in the order of `outputs`.
    pub raw_output_contents: Vec<Vec<u8>>,
}

/// What a `ModelInferResponse` holds.
#[verifier::ext_equal]
pub struct ModelInferResponseView {
    pub model_name: Seq<char>,
    pub model_version: Seq<char>,
    pub id: Seq<char>,
    pub outputs: Seq<TensorView>,
    pub raw_output_contents: Seq<Seq<u8>>,
}

impl View for ModelInferResponse {
    type V = ModelInferResponseView;

    open spec fn view(&self) -> ModelInferResponseView {
        ModelInferResponseView {
            model_name: self.model_name@,
            model_version: self.model_version@,
            id: self.id@,
            outputs: Seq::new(self.outputs@.len(), |i: int| self.outputs@[i]@),
            raw_output_contents: buffers_view(self.raw_output_contents@),
        }
    }
}

} // verus!
