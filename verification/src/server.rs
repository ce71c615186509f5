//! The bridge between wire messages and the engine: a wire request becomes the
//! request that the engine is given, and the engine's response becomes a wire
//! response.

use crate::codec::{
    check_shape, decode, decode_spec, element_count, encode, encode_spec, has_typed_list,
    only_list, shape_holds, shape_is_valid, CodecError,
};
use crate::codec_laws::{encodes_in_full, lemma_round_trip};
use crate::decimal::{decimal_of, model_version_of, parse_model_version, version_to_string};
use crate::error::{ErrorCode, ErrorKind, InferError, InferErrorView, TritonError};
use crate::inference_request::{
    after, channel, channel_bound, inputs_view, HolderView, InferRequest, InputData, InputView,
    Notification, RequestDataHolder, RequestInput, RequestState, RequestView,
};
use crate::inference_response::{outputs_view, InferResponse, InferResponseOutput, OutputView};
use crate::proto::{
    buffers_view, InferOutputTensor, InferTensorContents, ModelInferRequest,
    ModelInferRequestView, ModelInferResponse, ModelInferResponseView, TensorContentsView,
    TensorView,
};
use crate::response_allocator::ResponseAllocator;
use crate::utils::{
    data_type_to_string, datatype_of_name, name_of_datatype, string_to_data_type, DataType,
};
use vstd::prelude::*;

verus! {

/// The engine as the bridge knows it: the handle of the running engine, and the
/// allocator of its output buffers.
#[derive(Debug)]
pub struct Server {
    pub _server: usize,
    pub response_allocator: ResponseAllocator,
}

/// Whether the values of an output of this datatype go to a typed list of the
/// wire response.
pub open spec fn has_typed_field(dtype: DataType) -> bool {
    has_typed_list(dtype) || dtype == DataType::Bytes
}

/// The typed values of one output in a wire response: none in raw mode and for a
/// datatype without a typed list, else what the buffer decodes to.
pub open spec fn output_contents(output: OutputView, raw: bool) -> Result<
    Option<TensorContentsView>,
    CodecError,
> {
    if raw || !has_typed_field(output.datatype) {
        Ok(None)
    } else {
        match decode_spec(output.datatype, output.shape, output.data) {
            Ok(contents) => Ok(Some(contents)),
            Err(error) => Err(error),
        }
    }
}

/// One output as a tensor of a wire response.
pub open spec fn output_tensor(output: OutputView, raw: bool) -> Result<TensorView, CodecError> {
    match output_contents(output, raw) {
        Ok(contents) => Ok(
            TensorView {
                name: output.name,
                datatype: name_of_datatype(output.datatype),
                shape: output.shape,
                contents,
            },
        ),
        Err(error) => Err(error),
    }
}

/// The outputs as tensors of a wire response, in their order, or the error of the
/// first of them that cannot be decoded.
pub open spec fn output_tensors(outputs: Seq<OutputView>, raw: bool) -> Result<
    Seq<TensorView>,
    CodecError,
>
    decreases outputs.len(),
{
    if outputs.len() == 0 {
        Ok(Seq::empty())
    } else {
        match output_tensors(outputs.drop_last(), raw) {
            Err(error) => Err(error),
            Ok(tensors) => match output_tensor(outputs.last(), raw) {
                Err(error) => Err(error),
                Ok(tensor) => Ok(tensors.push(tensor)),
            },
        }
    }
}

/// The raw buffers of a wire response: in raw mode the bytes of each output, at
/// the index of the output, else none.
pub open spec fn raw_contents(outputs: Seq<OutputView>, raw: bool) -> Seq<Seq<u8>> {
    if raw {
        Seq::new(outputs.len(), |i: int| outputs[i].data)
    } else {
        Seq::empty()
    }
}

/// What `create_pb_response` returns.
pub open spec fn response_spec(
    model_name: Seq<char>,
    model_version: i64,
    id: Seq<char>,
    outputs: Seq<OutputView>,
    raw: bool,
) -> Result<ModelInferResponseView, InferErrorView> {
    match output_tensors(outputs, raw) {
        Err(error) => Err(InferErrorView::of_codec(error)),
        Ok(tensors) => Ok(
            ModelInferResponseView {
                model_name,
                model_version: decimal_of(model_version as int),
                id,
                outputs: tensors,
                raw_output_contents: raw_contents(outputs, raw),
            },
        ),
    }
}

/// What one input of a wire request becomes: the input as it is attached, and
/// the buffer that was encoded for it, if one was.
pub struct PlannedInput {
    pub input: InputView,
    pub encoded: Option<Seq<u8>>,
}

/// What the inputs of a wire request become: the inputs as they are attached,
/// and the buffers that were encoded for them.
#[verifier::ext_equal]
pub struct Plan {
    pub inputs: Seq<InputView>,
    pub bytes: Seq<Seq<u8>>,
}

/// What the input at `index` of a wire request becomes, `encoded` buffers having
/// been made for the inputs before it.
///
/// Its datatype is read from its name and must be recognized; no dimension of
/// its shape may be negative. In raw mode its bytes are the raw buffer at its
/// index. Else its typed values are encoded; an input without typed values has no
/// bytes, and its shape must then have no element.
pub open spec fn plan_input(tensor: TensorView, index: int, raw: bool, encoded: int) -> Result<
    PlannedInput,
    CodecError,
> {
    let datatype = datatype_of_name(tensor.datatype);
    let input = InputView { name: tensor.name, datatype, shape: tensor.shape, data: Seq::empty() };
    if datatype == DataType::Invalid {
        Err(CodecError::InvalidDatatype)
    } else if !shape_is_valid(tensor.shape) {
        Err(CodecError::InvalidShape)
    } else if raw {
        Ok(
            PlannedInput {
                input: InputView { data: seq![InputData::Raw(index as usize)], ..input },
                encoded: None,
            },
        )
    } else {
        match tensor.contents {
            None => if element_count(tensor.shape) == 0 {
                Ok(PlannedInput { input, encoded: None })
            } else {
                Err(CodecError::InvalidShape)
            },
            Some(contents) => match encode_spec(datatype, tensor.shape, contents) {
                Err(error) => Err(error),
                Ok(bytes) => Ok(
                    PlannedInput {
                        input: InputView {
                            data: seq![InputData::Encoded(encoded as usize)],
                            ..input
                        },
                        encoded: Some(bytes),
                    },
                ),
            },
        }
    }
}

/// What the inputs of a wire request become, in their order, or the error of the
/// first of them that is not valid.
pub open spec fn plan_inputs(tensors: Seq<TensorView>, raw: bool) -> Result<Plan, CodecError>
    decreases tensors.len(),
{
    if tensors.len() == 0 {
        Ok(Plan { inputs: Seq::empty(), bytes: Seq::empty() })
    } else {
        match plan_inputs(tensors.drop_last(), raw) {
            Err(error) => Err(error),
            Ok(plan) => match plan_input(
                tensors.last(),
                tensors.len() - 1,
                raw,
                plan.bytes.len() as int,
            ) {
                Err(error) => Err(error),
                Ok(planned) => Ok(
                    Plan {
                        inputs: plan.inputs.push(planned.input),
                        bytes: match planned.encoded {
                            Some(bytes) => plan.bytes.push(bytes),
                            None => plan.bytes,
                        },
                    },
                ),
            },
        }
    }
}

/// Whether a wire request carries its inputs as raw buffers.
pub open spec fn raw_mode(request: ModelInferRequestView) -> bool {
    request.raw_input_contents.len() != 0
}

/// Whether a wire request in raw mode has a raw buffer for each input.
pub open spec fn raw_buffers_match(request: ModelInferRequestView) -> bool {
    request.raw_input_contents.len() == 0 || request.raw_input_contents.len()
        == request.inputs.len()
}

/// What a wire request becomes, or why it is refused: its raw buffers must be
/// one for each input, and each input must be valid.
pub open spec fn parse_spec(request: ModelInferRequestView) -> Result<Plan, InferErrorView> {
    if !raw_buffers_match(request) {
        Err(
            InferErrorView {
                kind: ErrorKind::InvalidShape,
                msg: "raw_input_contents and inputs must be of same length"@,
            },
        )
    } else {
        match plan_inputs(request.inputs, raw_mode(request)) {
            Err(error) => Err(InferErrorView::of_codec(error)),
            Ok(plan) => Ok(plan),
        }
    }
}

/// Once an input is not valid, every longer list of inputs fails with the same
/// error: the first failure in the order of the inputs is the one returned.
pub proof fn lemma_first_invalid_input_stays(
    tensors: Seq<TensorView>,
    raw: bool,
    at: int,
    upto: int,
)
    requires
        0 <= at < upto <= tensors.len(),
        plan_inputs(tensors.take(at), raw) matches Ok(plan) && plan_input(
            tensors[at],
            at,
            raw,
            plan.bytes.len() as int,
        ) is Err,
    ensures
        plan_inputs(tensors.take(upto), raw) == Err::<Plan, CodecError>(
            plan_input(
                tensors[at],
                at,
                raw,
                plan_inputs(tensors.take(at), raw)->Ok_0.bytes.len() as int,
            )->Err_0,
        ),
    decreases upto,
{
    let prefix = tensors.take(upto);
    assert(prefix.drop_last() =~= tensors.take(upto - 1));
    if upto > at + 1 {
        lemma_first_invalid_input_stays(tensors, raw, at, upto - 1);
    }
}

/// What a valid list of inputs becomes, input by input: there is one attached
/// input for each, with its name, its datatype and its shape. In raw mode the
/// bytes of the input at `at` are the raw buffer at `at`, and no buffer is
/// encoded. Else an input without typed values has no bytes, and the bytes of
/// an input with typed values are one of the encoded buffers: the one that
/// holds its values as the codec encodes them.
pub proof fn lemma_plan_attaches_each_input(tensors: Seq<TensorView>, raw: bool, at: int)
    requires
        plan_inputs(tensors, raw) is Ok,
        0 <= at < tensors.len(),
    ensures
        ({
            let plan = plan_inputs(tensors, raw)->Ok_0;
            let input = plan.inputs[at];
            let datatype = datatype_of_name(tensors[at].datatype);
            &&& plan.inputs.len() == tensors.len()
            &&& plan.bytes.len() <= tensors.len()
            &&& input.name == tensors[at].name
            &&& input.datatype == datatype
            &&& input.shape == tensors[at].shape
            &&& datatype != DataType::Invalid
            &&& shape_is_valid(input.shape)
            &&& raw ==> input.data == seq![InputData::Raw(at as usize)] && plan.bytes.len() == 0
            &&& !raw && tensors[at].contents is None ==> input.data == Seq::<InputData>::empty()
            &&& !raw && tensors[at].contents is Some ==> exists|k: int|
                0 <= k < plan.bytes.len() && input.data == seq![InputData::Encoded(k as usize)]
                    && encode_spec(datatype, input.shape, tensors[at].contents->Some_0) == Ok::<
                    Seq<u8>,
                    CodecError,
                >(#[trigger] plan.bytes[k])
        }),
    decreases tensors.len(),
{
    let head = tensors.drop_last();
    let before = plan_inputs(head, raw)->Ok_0;
    let last = plan_input(tensors.last(), tensors.len() - 1, raw, before.bytes.len() as int)->Ok_0;
    let plan = plan_inputs(tensors, raw)->Ok_0;
    if head.len() > 0 {
        lemma_plan_attaches_each_input(head, raw, 0);
    }
    if at == tensors.len() - 1 {
        if !raw && tensors[at].contents is Some {
            let k = before.bytes.len() as int;
            assert(plan.bytes[k] == last.encoded->Some_0);
        }
    } else {
        lemma_plan_attaches_each_input(head, raw, at);
        if !raw && tensors[at].contents is Some {
            let datatype = datatype_of_name(tensors[at].datatype);
            let k = choose|k: int|
                0 <= k < before.bytes.len() && before.inputs[at].data == seq![
                    InputData::Encoded(k as usize),
                ] && encode_spec(datatype, tensors[at].shape, tensors[at].contents->Some_0)
                    == Ok::<Seq<u8>, CodecError>(#[trigger] before.bytes[k]);
            assert(plan.bytes[k] == before.bytes[k]);
        }
    }
}

/// The failure that a refusal of the engine to create a request becomes. The
/// engine then knows no model of the name, `ModelNotFound`, or has it in no such
/// version, `InvalidVersion`; the code of its error tells which: `NotFound` and
/// `Unavailable` the first, `InvalidArg` the second. Any other code is a refusal
/// of another kind, `EngineRejected`.
pub open spec fn creation_failure(code: ErrorCode) -> ErrorKind {
    match code {
        ErrorCode::NotFound | ErrorCode::Unavailable => ErrorKind::ModelNotFound,
        ErrorCode::InvalidArg => ErrorKind::InvalidVersion,
        _ => ErrorKind::EngineRejected,
    }
}

/// What `complete` returns.
pub open spec fn completion_spec(received: Option<InferResponse>, raw: bool) -> Result<
    ModelInferResponseView,
    InferErrorView,
> {
    match received {
        None => Err(InferErrorView { kind: ErrorKind::ReceiveFailed, msg: "receive error"@ }),
        Some(response) => match response.error {
            Some(error) => Err(
                InferErrorView { kind: ErrorKind::EngineReportedError, msg: error.msg@ },
            ),
            None => response_spec(
                response.model_name@,
                response.model_version,
                response.id@,
                outputs_view(response.outputs@),
                raw,
            ),
        },
    }
}

/// The view of the result of an inference call.
pub open spec fn response_result_view(result: Result<ModelInferResponse, InferError>) -> Result<
    ModelInferResponseView,
    InferErrorView,
> {
    match result {
        Ok(response) => Ok(response@),
        Err(error) => Err(error@),
    }
}

/// Once an output fails to decode, every longer list of outputs fails with the
/// same error: the first failure in the order of the outputs is the one returned.
pub proof fn lemma_first_failure_stays(outputs: Seq<OutputView>, raw: bool, at: int, upto: int)
    requires
        0 <= at < upto <= outputs.len(),
        output_tensors(outputs.take(at), raw) is Ok,
        output_tensor(outputs[at], raw) is Err,
    ensures
        output_tensors(outputs.take(upto), raw) == Err::<Seq<TensorView>, CodecError>(
            output_tensor(outputs[at], raw)->Err_0,
        ),
    decreases upto,
{
    let prefix = outputs.take(upto);
    assert(prefix.drop_last() =~= outputs.take(upto - 1));
    if upto > at + 1 {
        lemma_first_failure_stays(outputs, raw, at, upto - 1);
    }
}

/// The tensors of a response are those of its outputs, one for one and in their
/// order; there are none exactly where one of the outputs cannot be decoded.
pub proof fn lemma_output_tensors_each(outputs: Seq<OutputView>, raw: bool)
    ensures
        match output_tensors(outputs, raw) {
            Ok(tensors) => tensors.len() == outputs.len() && forall|i: int|
                0 <= i < outputs.len() ==> output_tensor(#[trigger] outputs[i], raw) == Ok::<
                    TensorView,
                    CodecError,
                >(tensors[i]),
            Err(_) => exists|i: int|
                0 <= i < outputs.len() && output_tensor(#[trigger] outputs[i], raw) is Err,
        },
    decreases outputs.len(),
{
    if outputs.len() > 0 {
        let head = outputs.drop_last();
        lemma_output_tensors_each(head, raw);
        match output_tensors(head, raw) {
            Ok(tensors) => {
                assert forall|i: int| 0 <= i < head.len() implies head[i] == outputs[i] by {}
                if output_tensor(outputs.last(), raw) is Err {
                    assert(output_tensor(outputs[outputs.len() - 1], raw) is Err);
                }
            },
            Err(_) => {
                let i = choose|i: int|
                    0 <= i < head.len() && output_tensor(#[trigger] head[i], raw) is Err;
                assert(head[i] == outputs[i]);
            },
        }
    }
}

/// Values that went through the engine unchanged come back unchanged. Where
/// the buffer of the output at `at` is what `encode` gives for `contents`, every
/// value written in full, and every other output can be decoded, the typed
/// response succeeds, and its tensor at `at` has the name and the shape of the
/// output, the wire name of its datatype, and the values of `contents`: as many,
/// in the same order, each the same.
pub proof fn lemma_response_returns_values(
    model_name: Seq<char>,
    model_version: i64,
    id: Seq<char>,
    outputs: Seq<OutputView>,
    at: int,
    contents: TensorContentsView,
)
    requires
        0 <= at < outputs.len(),
        has_typed_field(outputs[at].datatype),
        encodes_in_full(outputs[at].datatype, contents),
        encode_spec(outputs[at].datatype, outputs[at].shape, contents) == Ok::<
            Seq<u8>,
            CodecError,
        >(outputs[at].data),
        forall|j: int|
            0 <= j < outputs.len() && j != at ==> output_tensor(#[trigger] outputs[j], false)
                is Ok,
    ensures
        response_spec(model_name, model_version, id, outputs, false) matches Ok(response)
            && response.outputs.len() == outputs.len() && response.outputs[at]
            == (TensorView {
            name: outputs[at].name,
            datatype: name_of_datatype(outputs[at].datatype),
            shape: outputs[at].shape,
            contents: Some(only_list(outputs[at].datatype, contents)),
        }),
{
    lemma_round_trip(outputs[at].datatype, outputs[at].shape, contents);
    lemma_output_tensors_each(outputs, false);
}

/// In raw mode every response succeeds, and the raw buffer at the index of an
/// output holds the bytes of that output, unchanged.
pub proof fn lemma_raw_response_returns_bytes(
    model_name: Seq<char>,
    model_version: i64,
    id: Seq<char>,
    outputs: Seq<OutputView>,
    at: int,
)
    requires
        0 <= at < outputs.len(),
    ensures
        response_spec(model_name, model_version, id, outputs, true) matches Ok(response)
            && response.outputs.len() == outputs.len() && response.raw_output_contents.len()
            == outputs.len() && response.raw_output_contents[at] == outputs[at].data
            && response.outputs[at].contents is None,
{
    lemma_output_tensors_each(outputs, true);
}

/// The outputs in the opposite order.
fn reversed(outputs: Vec<InferResponseOutput>) -> (turned: Vec<InferResponseOutput>)
    ensures
        turned@.len() == outputs@.len(),
        forall|i: int| 0 <= i < turned@.len() ==> turned@[i] == outputs@[outputs@.len() - 1 - i],
{
    let ghost all = outputs@;
    let mut outputs = outputs;
    let mut turned: Vec<InferResponseOutput> = Vec::new();
    while outputs.len() > 0
        invariant
            outputs@.len() + turned@.len() == all.len(),
            outputs@ == all.take(outputs@.len() as int),
            forall|i: int| 0 <= i < turned@.len() ==> turned@[i] == all[all.len() - 1 - i],
        decreases outputs@.len(),
    {
        let output = outputs.pop().unwrap();
        turned.push(output);
    }
    turned
}

impl Server {
    /// The bridge to the engine with this handle.
    pub fn new(handle: usize, response_allocator: ResponseAllocator) -> (server: Server)
        ensures
            server._server == handle,
            server.response_allocator == response_allocator,
    {
        Server { _server: handle, response_allocator }
    }

    /// The handle of the engine.
    pub fn raw_pointer(self) -> (handle: usize)
        ensures
            handle == self._server,
    {
        self._server
    }

    /// Turns a wire request into the request that the engine is given.
    ///
    /// A request whose raw buffers are not one for each input fails with
    /// `InvalidShape`, and one with an input that is not valid fails with the
    /// error of the first such input; nothing is built then. Else the request is
    /// bound to the model and to the version that the wire request names, the
    /// latest where it names none. It has the id, the inputs with their bytes and
    /// the requested outputs of the wire request, in their order. It retains the
    /// wire request and the encoded buffers for the release notification, and has
    /// a completion channel of one slot, whose halves it holds.
    pub fn parse_pb_request(&self, pb_request: Box<ModelInferRequest>) -> (result: Result<
        InferRequest,
        InferError,
    >)
        ensures
            match result {
                Ok(request) => parse_spec(pb_request@) matches Ok(plan) && request@
                    == (RequestView {
                    model_name: pb_request@.model_name,
                    model_version: model_version_of(pb_request@.model_version),
                    id: pb_request@.id,
                    flags: 0,
                    priority: 0,
                    timeout_micro_seconds: 0,
                    inputs: plan.inputs,
                    requested_outputs: pb_request@.outputs,
                    retained: Some(HolderView { request: pb_request@, bytes: plan.bytes }),
                    allocator: Some(self.response_allocator._allocator),
                    sender: request.sender,
                    receiver: request.receiver,
                    raw_output: raw_mode(pb_request@),
                    state: RequestState::Built,
                }) && request.receiver is Some && (request.sender matches Some(sender)
                    && channel_bound(sender) == 1),
                Err(error) => parse_spec(pb_request@) == Err::<Plan, InferErrorView>(error@),
            },
    {
        let raw_input_length = pb_request.raw_input_contents.len();
        let input_length = pb_request.inputs.len();
        if raw_input_length != 0 && raw_input_length != input_length {
            return Err(
                InferError::new(
                    ErrorKind::InvalidShape,
                    "raw_input_contents and inputs must be of same length".to_owned(),
                ),
            );
        }
        let model_version = parse_model_version(pb_request.model_version.as_str());
        let mut infer_request = InferRequest::new(
            pb_request.model_name.as_str(),
            model_version,
            raw_input_length > 0,
        );
        match self.copy_request_data(&mut infer_request, pb_request) {
            Ok(()) => Ok(infer_request),
            Err(error) => {
                infer_request.delete();
                Err(error)
            },
        }
    }

    /// Attaches what a wire request holds to a request that is being built: its
    /// id, its inputs with their bytes, its requested outputs, what is retained
    /// for the release notification, and a completion channel of one slot.
    /// Where an input is not valid, the request stays as it was.
    fn copy_request_data(
        &self,
        infer_request: &mut InferRequest,
        pb_request: Box<ModelInferRequest>,
    ) -> (result: Result<(), InferError>)
        requires
            old(infer_request).state == RequestState::Built,
            raw_buffers_match(pb_request@),
        ensures
            match result {
                Ok(()) => plan_inputs(pb_request@.inputs, raw_mode(pb_request@)) matches Ok(plan)
                    && final(infer_request)@ == (RequestView {
                    id: pb_request@.id,
                    inputs: old(infer_request)@.inputs + plan.inputs,
                    requested_outputs: old(infer_request)@.requested_outputs
                        + pb_request@.outputs,
                    retained: Some(HolderView { request: pb_request@, bytes: plan.bytes }),
                    allocator: Some(self.response_allocator._allocator),
                    sender: final(infer_request).sender,
                    receiver: final(infer_request).receiver,
                    ..old(infer_request)@
                }) && final(infer_request).receiver is Some && (final(infer_request).sender
                    matches Some(sender) && channel_bound(sender) == 1),
                Err(error) => *final(infer_request) == *old(infer_request) && (plan_inputs(
                    pb_request@.inputs,
                    raw_mode(pb_request@),
                ) matches Err(invalid) && error@ == InferErrorView::of_codec(invalid)),
            },
    {
        let raw = pb_request.raw_input_contents.len() != 0;
        let ghost tensors = pb_request@.inputs;
        let mut inputs: Vec<RequestInput> = Vec::new();
        let mut bytes_slice: Vec<Vec<u8>> = Vec::new();
        let mut i: usize = 0;
        assert(inputs_view(inputs@) =~= Seq::<InputView>::empty());
        assert(buffers_view(bytes_slice@) =~= Seq::<Seq<u8>>::empty());
        while i < pb_request.inputs.len()
            invariant
                i <= pb_request.inputs@.len(),
                tensors == pb_request@.inputs,
                raw == raw_mode(pb_request@),
                plan_inputs(tensors.take(i as int), raw) == Ok::<Plan, CodecError>(
                    Plan { inputs: inputs_view(inputs@), bytes: buffers_view(bytes_slice@) },
                ),
            decreases pb_request.inputs.len() - i,
        {
            let input_tensor = &pb_request.inputs[i];
            let ghost prefix = tensors.take(i + 1);
            let ghost planned_before = inputs_view(inputs@);
            let ghost bytes_before = buffers_view(bytes_slice@);
            assert(prefix.drop_last() =~= tensors.take(i as int));
            let data_type = string_to_data_type(input_tensor.datatype.as_str());
            let shape = input_tensor.shape.as_slice();
            let mut data: Vec<InputData> = Vec::new();
            let checked: Result<(), CodecError> = if data_type == DataType::Invalid {
                Err(CodecError::InvalidDatatype)
            } else if check_shape(shape).is_err() {
                Err(CodecError::InvalidShape)
            } else if raw {
                data.push(InputData::Raw(i));
                Ok(())
            } else {
                match &input_tensor.contents {
                    None => {
                        if shape_holds(shape, 0) {
                            Ok(())
                        } else {
                            Err(CodecError::InvalidShape)
                        }
                    },
                    Some(contents) => match encode(data_type, shape, contents) {
                        Ok(encoded) => {
                            data.push(InputData::Encoded(bytes_slice.len()));
                            bytes_slice.push(encoded);
                            Ok(())
                        },
                        Err(error) => Err(error),
                    },
                }
            };
            match checked {
                Err(error) => {
                    proof {
                        lemma_first_invalid_input_stays(
                            tensors,
                            raw,
                            i as int,
                            tensors.len() as int,
                        );
                        assert(tensors.take(tensors.len() as int) =~= tensors);
                    }
                    return Err(InferError::from_codec(error));
                },
                Ok(()) => {},
            }
            let input = RequestInput {
                name: input_tensor.name.clone(),
                datatype: data_type,
                shape: vstd::slice::slice_to_vec(shape),
                data,
            };
            proof {
                let planned = plan_input(tensors[i as int], i as int, raw, bytes_before.len() as int);
                assert(planned->Ok_0.encoded is Some ==> buffers_view(bytes_slice@)
                    =~= bytes_before.push(planned->Ok_0.encoded->Some_0));
            }
            inputs.push(input);
            assert(inputs_view(inputs@) =~= planned_before.push(input@));
            i += 1;
        }
        assert(tensors.take(i as int) =~= tensors);
        let ghost plan = Plan { inputs: inputs_view(inputs@), bytes: buffers_view(bytes_slice@) };
        // Every input is valid. A request that is being built refuses none of the
        // steps that follow.
        match infer_request.set_id(pb_request.id.as_str()) {
            Ok(()) => {},
            Err(e) => {
                return Err(InferError::rejected(&e));
            },
        }
        let ghost inputs_before = infer_request@.inputs;
        infer_request.inputs.append(&mut inputs);
        let mut k: usize = 0;
        let ghost outputs_before = infer_request@.requested_outputs;
        while k < pb_request.outputs.len()
            invariant
                k <= pb_request.outputs@.len(),
                infer_request.state == RequestState::Built,
                infer_request@ == (RequestView {
                    id: pb_request@.id,
                    inputs: inputs_before + plan.inputs,
                    requested_outputs: outputs_before + pb_request@.outputs.take(k as int),
                    ..old(infer_request)@
                }),
            decreases pb_request.outputs.len() - k,
        {
            let name = pb_request.outputs[k].name.as_str();
            match infer_request.add_requested_output(name) {
                Ok(()) => {},
                Err(e) => {
                    return Err(InferError::rejected(&e));
                },
            }
            k += 1;
        }
        let request_data_holder = Box::new(RequestDataHolder::new(pb_request, bytes_slice));
        match infer_request.set_release_callback(request_data_holder) {
            Ok(()) => {},
            Err(e) => {
                return Err(InferError::rejected(&e));
            },
        }
        let (sender, receiver) = channel(1);
        match infer_request.set_response_callback(&self.response_allocator, sender) {
            Ok(()) => {},
            Err(e) => {
                return Err(InferError::rejected(&e));
            },
        }
        infer_request.set_response_receiver(receiver);
        Ok(())
    }

    /// The failure of an inference call whose request the engine refused to
    /// create: by the code of the engine's error, with the engine's message.
    pub fn creation_failed(&self, error: &TritonError) -> (failure: InferError)
        ensures
            failure@ == (InferErrorView { kind: creation_failure(error.code), msg: error.msg@ }),
    {
        let kind = match error.code {
            ErrorCode::NotFound | ErrorCode::Unavailable => ErrorKind::ModelNotFound,
            ErrorCode::InvalidArg => ErrorKind::InvalidVersion,
            _ => ErrorKind::EngineRejected,
        };
        InferError::new(kind, error.msg())
    }

    /// Takes note of the engine's answer to the creation of its request. Where
    /// the engine refused, the request is destroyed with what was retained for
    /// it and with the sending half of its completion channel, so that no
    /// notification can follow, and the call fails as `creation_failed` says: with
    /// `ModelNotFound` or `InvalidVersion` by the code of the engine's error, and
    /// with the engine's message. Else nothing changes.
    pub fn creation_answered(
        &self,
        request: &mut InferRequest,
        answer: Result<(), TritonError>,
    ) -> (result: Result<(), InferError>)
        ensures
            match answer {
                Ok(()) => result is Ok && *final(request) == *old(request),
                Err(refusal) => result matches Err(error) && error@ == (InferErrorView {
                    kind: creation_failure(refusal.code),
                    msg: refusal.msg@,
                }) && final(request).state == after(old(request).state, Notification::Refused)
                    && (if old(request).state == RequestState::Built {
                    final(request)@ == (RequestView {
                        retained: None,
                        sender: None,
                        state: RequestState::Deleted,
                        ..old(request)@
                    })
                } else {
                    *final(request) == *old(request)
                }),
            },
    {
        match answer {
            Ok(()) => Ok(()),
            Err(refusal) => {
                request.delete();
                Err(self.creation_failed(&refusal))
            },
        }
    }

    /// Takes note of the engine's answer to one step of handing it a request.
    /// Where the engine refused the step, no further step is taken: the request
    /// is destroyed with what was retained for it and with the sending half of
    /// its completion channel, and the call fails with `EngineRejected` and the
    /// engine's message. Else nothing changes.
    pub fn step_answered(&self, request: &mut InferRequest, answer: Result<(), TritonError>) -> (result:
        Result<(), InferError>)
        ensures
            match answer {
                Ok(()) => result is Ok && *final(request) == *old(request),
                Err(refusal) => result matches Err(error) && error@ == (InferErrorView {
                    kind: ErrorKind::EngineRejected,
                    msg: refusal.msg@,
                }) && final(request).state == after(old(request).state, Notification::Refused)
                    && (if old(request).state == RequestState::Built {
                    final(request)@ == (RequestView {
                        retained: None,
                        sender: None,
                        state: RequestState::Deleted,
                        ..old(request)@
                    })
                } else {
                    *final(request) == *old(request)
                }),
            },
    {
        match answer {
            Ok(()) => Ok(()),
            Err(refusal) => {
                request.delete();
                Err(InferError::rejected(&refusal))
            },
        }
    }

    /// Takes note of the engine's answer to the submission of a request that is
    /// being built. An accepted request is submitted: it is the engine's to
    /// release from then on. A refused request is destroyed, with what was
    /// retained for it, and the call fails with `EngineRejected` and the engine's
    /// message. A request that is not being built stays as it is.
    pub fn infer_async(&self, request: &mut InferRequest, answer: Result<(), TritonError>) -> (result:
        Result<(), InferError>)
        ensures
            match answer {
                Ok(()) => result is Ok && final(request)@ == (RequestView {
                    state: after(old(request).state, Notification::Accepted),
                    ..old(request)@
                }),
                Err(refusal) => result matches Err(error) && error@ == (InferErrorView {
                    kind: ErrorKind::EngineRejected,
                    msg: refusal.msg@,
                }) && final(request).state == after(old(request).state, Notification::Refused)
                    && (if old(request).state == RequestState::Built {
                    final(request)@ == (RequestView {
                        retained: None,
                        sender: None,
                        state: RequestState::Deleted,
                        ..old(request)@
                    })
                } else {
                    *final(request) == *old(request)
                }),
            },
    {
        match answer {
            Ok(()) => {
                if request.state == RequestState::Built {
                    request.state = RequestState::Submitted;
                }
                Ok(())
            },
            Err(refusal) => {
                request.delete();
                Err(InferError::rejected(&refusal))
            },
        }
    }

    /// Turns the response of the engine into a wire response.
    ///
    /// The outputs keep the order of the engine. In raw mode the bytes of each
    /// output go unchanged to the raw buffers, at the index of the output, and no
    /// output has typed values. Else each buffer is decoded by its datatype into
    /// typed values; an output of a datatype without a typed list has none. The
    /// call fails with the error of the first output that cannot be decoded.
    pub fn create_pb_response(&self, response: InferResponse, raw_output: bool) -> (result: Result<
        ModelInferResponse,
        InferError,
    >)
        ensures
            response_result_view(result) == response_spec(
                response.model_name@,
                response.model_version,
                response.id@,
                outputs_view(response.outputs@),
                raw_output,
            ),
    {
        let ghost all = outputs_view(response.outputs@);
        let InferResponse { error: _, model_name, model_version, id, outputs } = response;
        let total = outputs.len();
        let mut pending = reversed(outputs);
        let mut tensors: Vec<InferOutputTensor> = Vec::new();
        let mut raw_buffers: Vec<Vec<u8>> = Vec::new();
        let mut done: usize = 0;
        assert(Seq::new(tensors@.len(), |i: int| tensors@[i]@) =~= Seq::<TensorView>::empty());
        while pending.len() > 0
            invariant
                all == outputs_view(response.outputs@),
                done + pending@.len() == all.len() == total,
                forall|i: int|
                    0 <= i < pending@.len() ==> (#[trigger] pending@[i])@ == all[all.len() - 1
                        - i],
                output_tensors(all.take(done as int), raw_output) == Ok::<
                    Seq<TensorView>,
                    CodecError,
                >(Seq::new(tensors@.len(), |i: int| tensors@[i]@)),
                buffers_view(raw_buffers@) == raw_contents(all.take(done as int), raw_output),
            decreases pending@.len(),
        {
            let output = pending.pop().unwrap();
            let ghost prefix = all.take(done + 1);
            let ghost before = Seq::new(tensors@.len(), |i: int| tensors@[i]@);
            let ghost raw_before = buffers_view(raw_buffers@);
            assert(prefix.drop_last() =~= all.take(done as int));
            let (name, datatype, shape, data) = output.into_parts();
            let mut contents: Option<InferTensorContents> = None;
            if raw_output {
                raw_buffers.push(data);
            } else {
                let typed = match datatype {
                    DataType::Invalid | DataType::Fp16 | DataType::Bf16 => false,
                    _ => true,
                };
                if typed {
                    match decode(datatype, shape.as_slice(), data.as_slice()) {
                        Ok(decoded) => {
                            contents = Some(decoded);
                        },
                        Err(error) => {
                            proof {
                                lemma_first_failure_stays(
                                    all,
                                    raw_output,
                                    done as int,
                                    all.len() as int,
                                );
                                assert(all.take(all.len() as int) =~= all);
                            }
                            return Err(InferError::from_codec(error));
                        },
                    }
                }
            }
            let tensor = InferOutputTensor {
                name,
                datatype: data_type_to_string(datatype).to_owned(),
                shape,
                contents,
            };
            tensors.push(tensor);
            done += 1;
            proof {
                assert(Seq::new(tensors@.len(), |i: int| tensors@[i]@) =~= before.push(tensor@));
                if raw_output {
                    assert(raw_before.len() == done - 1);
                    assert forall|i: int| 0 <= i < done implies buffers_view(raw_buffers@)[i]
                        == prefix[i].data by {
                        if i < done - 1 {
                            assert(buffers_view(raw_buffers@)[i] == raw_before[i]);
                        }
                    }
                }
            }
        }
        assert(all.take(done as int) =~= all);
        Ok(
            ModelInferResponse {
                model_name,
                model_version: version_to_string(model_version),
                id,
                outputs: tensors,
                raw_output_contents: raw_buffers,
            },
        )
    }

    /// Ends an inference call with what came out of the completion channel.
    ///
    /// A channel that closed without a response fails the call with
    /// `ReceiveFailed`. A response that carries an error of the engine fails it
    /// with `EngineReportedError` and the engine's message, and none of its
    /// outputs is read. Every other response becomes a wire response.
    pub fn complete(&self, received: Option<InferResponse>, raw_output: bool) -> (result: Result<
        ModelInferResponse,
        InferError,
    >)
        ensures
            response_result_view(result) == completion_spec(received, raw_output),
    {
        match received {
            None => Err(InferError::new(ErrorKind::ReceiveFailed, "receive error".to_owned())),
            Some(response) => {
                let failed: Option<String> = match &response.error {
                    Some(error) => Some(error.msg()),
                    None => None,
                };
                match failed {
                    Some(msg) => Err(InferError::new(ErrorKind::EngineReportedError, msg)),
                    None => self.create_pb_response(response, raw_output),
                }
            },
        }
    }
}

} // verus!
