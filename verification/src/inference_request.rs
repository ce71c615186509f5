//! The request that the engine is given: what it is bound to, what is attached
//! to it, and where it stands between being built and being released.

use crate::error::{ErrorCode, TritonError};
use crate::inference_response::InferResponse;
use crate::proto::{buffers_view, strings_view, ModelInferRequest, ModelInferRequestView};
use crate::response_allocator::ResponseAllocator;
use crate::utils::DataType;
use tokio::sync::mpsc::{Receiver, Sender};
use vstd::prelude::*;

verus! {

/// `tokio::sync::mpsc::Sender`: the sending half of a channel. Nothing is known
/// of what is inside.
#[verifier::external_type_specification]
#[verifier::external_body]
#[verifier::reject_recursive_types(T)]
pub struct ExSender<T>(Sender<T>);

/// `tokio::sync::mpsc::Receiver`: the receiving half of a channel. Nothing is
/// known of what is inside.
#[verifier::external_type_specification]
#[verifier::external_body]
#[verifier::reject_recursive_types(T)]
pub struct ExReceiver<T>(Receiver<T>);

/// The number of responses that the channel of this sender holds at most: what
/// `Sender::max_capacity` reports, the capacity that the channel was made with.
pub uninterp spec fn channel_bound(sender: Sender<InferResponse>) -> nat;

/// `tokio::sync::mpsc::channel`: a new channel of `capacity` slots, as its two
/// halves. It is taken on trust that the channel holds at most `capacity`
/// responses. Left out are the capacities on which the call panics: 0, and more
/// than an eighth of `usize::MAX`.
#[verifier::external_body]
pub(crate) fn channel(capacity: usize) -> (halves: (Sender<InferResponse>, Receiver<InferResponse>))
    requires
        0 < capacity <= usize::MAX / 8,
    ensures
        channel_bound(halves.0) == capacity,
{
    tokio::sync::mpsc::channel(capacity)
}

/// `Sender::try_send`: puts a response into the channel without waiting, and says
/// whether it went in. It does not where the channel is full or closed; nothing
/// is claimed of when that is.
#[verifier::external_body]
fn try_send(sender: &Sender<InferResponse>, response: InferResponse) -> (sent: bool) {
    sender.try_send(response).is_ok()
}

/// What stays alive while the engine may read the inputs of a request: the wire
/// request itself, and the buffers that were encoded from its typed values.
#[derive(Debug)]
pub struct RequestDataHolder {
    pub _request: Box<ModelInferRequest>,
    pub _bytes: Vec<Vec<u8>>,
}

/// What a `RequestDataHolder` holds.
#[verifier::ext_equal]
pub struct HolderView {
    pub request: ModelInferRequestView,
    pub bytes: Seq<Seq<u8>>,
}

impl View for RequestDataHolder {
    type V = HolderView;

    open spec fn view(&self) -> HolderView {
        HolderView { request: self._request@, bytes: buffers_view(self._bytes@) }
    }
}

impl RequestDataHolder {
    /// Bundles a wire request with the buffers that were encoded from it.
    pub fn new(request: Box<ModelInferRequest>, bytes: Vec<Vec<u8>>) -> (holder: RequestDataHolder)
        ensures
            holder@ == (HolderView { request: request@, bytes: buffers_view(bytes@) }),
    {
        RequestDataHolder { _request: request, _bytes: bytes }
    }
}

/// Where the engine finds bytes of an input, in what is retained for the request.
#[derive(Clone, Copy, Debug, PartialEq, Eq, Structural)]
pub enum InputData {
    /// The raw buffer at this index of the wire request.
    Raw(usize),
    /// The buffer at this index of the encoded buffers.
    Encoded(usize),
}

/// The bytes that `data` names in what is retained, or `None` where it names none.
pub open spec fn resolved(holder: HolderView, data: InputData) -> Option<Seq<u8>> {
    match data {
        InputData::Raw(index) => if index < holder.request.raw_input_contents.len() {
            Some(holder.request.raw_input_contents[index as int])
        } else {
            None
        },
        InputData::Encoded(index) => if index < holder.bytes.len() {
            Some(holder.bytes[index as int])
        } else {
            None
        },
    }
}

impl RequestDataHolder {
    /// The bytes that `data` names, or `None` where it names none.
    pub fn resolve(&self, data: InputData) -> (bytes: Option<&Vec<u8>>)
        ensures
            match bytes {
                Some(found) => resolved(self@, data) == Some(found@),
                None => resolved(self@, data).is_none(),
            },
    {
        match data {
            InputData::Raw(index) => {
                if index < self._request.raw_input_contents.len() {
                    Some(&self._request.raw_input_contents[index])
                } else {
                    None
                }
            },
            InputData::Encoded(index) => {
                if index < self._bytes.len() {
                    Some(&self._bytes[index])
                } else {
                    None
                }
            },
        }
    }
}

/// One input as it is attached to the request.
#[derive(Debug)]
pub struct RequestInput {
    pub name: String,
    pub datatype: DataType,
    pub shape: Vec<i64>,
    /// The buffers that were appended, in their order.
    pub data: Vec<InputData>,
}

/// What a `RequestInput` holds.
#[verifier::ext_equal]
pub struct InputView {
    pub name: Seq<char>,
    pub datatype: DataType,
    pub shape: Seq<i64>,
    pub data: Seq<InputData>,
}

impl View for RequestInput {
    type V = InputView;

    open spec fn view(&self) -> InputView {
        InputView {
            name: self.name@,
            datatype: self.datatype,
            shape: self.shape@,
            data: self.data@,
        }
    }
}

/// The views of a list of inputs.
pub open spec fn inputs_view(inputs: Seq<RequestInput>) -> Seq<InputView> {
    Seq::new(inputs.len(), |i: int| inputs[i]@)
}

/// Where a request stands.
#[derive(Clone, Copy, Debug, PartialEq, Eq, Structural)]
pub enum RequestState {
    /// It is being built: inputs and outputs are attached, callbacks registered.
    Built,
    /// The engine has accepted it and may read its inputs.
    Submitted,
    /// The engine has said that it is done with it; it is destroyed.
    ReleaseNotified,
    /// It was destroyed without the engine ever accepting it.
    Deleted,
}

/// The flag of a release notification that says that the engine is done with
/// every part of the request.
pub const REQUEST_RELEASE_ALL: u32 = 1;

/// The flag of a completion notification that says that no response follows.
pub const RESPONSE_COMPLETE_FINAL: u32 = 1;

/// The request that the engine is given, as far as the bridge has built it.
#[derive(Debug)]
pub struct InferRequest {
    pub model_name: String,
    pub model_version: i64,
    pub id: String,
    pub flags: u32,
    pub priority: u32,
    pub timeout_micro_seconds: u64,
    pub inputs: Vec<RequestInput>,
    pub requested_outputs: Vec<String>,
    /// What the release notification gets as its token, once it is registered.
    pub retained: Option<Box<RequestDataHolder>>,
    /// The handle of the allocator that goes with the completion notification.
    pub allocator: Option<usize>,
    /// What the completion notification gets as its token, once it is registered.
    pub sender: Option<Sender<InferResponse>>,
    /// Where the response is awaited.
    pub receiver: Option<Receiver<InferResponse>>,
    /// Whether the outputs go back as raw buffers.
    pub raw_output: bool,
    pub state: RequestState,
}

/// What an `InferRequest` holds.
#[verifier::ext_equal]
pub struct RequestView {
    pub model_name: Seq<char>,
    pub model_version: i64,
    pub id: Seq<char>,
    pub flags: u32,
    pub priority: u32,
    pub timeout_micro_seconds: u64,
    pub inputs: Seq<InputView>,
    pub requested_outputs: Seq<Seq<char>>,
    pub retained: Option<HolderView>,
    pub allocator: Option<usize>,
    pub sender: Option<Sender<InferResponse>>,
    pub receiver: Option<Receiver<InferResponse>>,
    pub raw_output: bool,
    pub state: RequestState,
}

/// The view of what is retained, if anything is.
pub open spec fn retained_view(retained: Option<Box<RequestDataHolder>>) -> Option<HolderView> {
    match retained {
        Some(holder) => Some(holder@),
        None => None,
    }
}

impl View for InferRequest {
    type V = RequestView;

    open spec fn view(&self) -> RequestView {
        RequestView {
            model_name: self.model_name@,
            model_version: self.model_version,
            id: self.id@,
            flags: self.flags,
            priority: self.priority,
            timeout_micro_seconds: self.timeout_micro_seconds,
            inputs: inputs_view(self.inputs@),
            requested_outputs: strings_view(self.requested_outputs@),
            retained: retained_view(self.retained),
            allocator: self.allocator,
            sender: self.sender,
            receiver: self.receiver,
            raw_output: self.raw_output,
            state: self.state,
        }
    }
}

/// The index of the first input of this name, or the number of inputs where
/// there is none.
pub open spec fn position_of(inputs: Seq<InputView>, name: Seq<char>) -> int
    decreases inputs.len(),
{
    if inputs.len() == 0 {
        0
    } else if inputs[0].name == name {
        0
    } else {
        1 + position_of(inputs.drop_first(), name)
    }
}

/// The error of a step that comes too late: the request is no longer being built.
pub open spec fn is_late(error: TritonError) -> bool {
    error.code == ErrorCode::InvalidArg && error.msg@ == "request is not being built"@
}

/// The error of a step that names an input that the request does not have.
pub open spec fn is_unknown_input(error: TritonError) -> bool {
    error.code == ErrorCode::NotFound && error.msg@ == "input does not exist in request"@
}

/// The error of a step that comes too late.
fn late() -> (error: TritonError)
    ensures
        is_late(error),
{
    TritonError::new(ErrorCode::InvalidArg, "request is not being built".to_owned())
}

/// The error of a step that names an input that the request does not have.
fn unknown_input() -> (error: TritonError)
    ensures
        is_unknown_input(error),
{
    TritonError::new(ErrorCode::NotFound, "input does not exist in request".to_owned())
}

impl InferRequest {
    /// A request for the model of this name and version, with nothing attached.
    pub fn new(model_name: &str, model_version: i64, raw_output: bool) -> (request: InferRequest)
        ensures
            request@ == (RequestView {
                model_name: model_name@,
                model_version,
                id: Seq::empty(),
                flags: 0,
                priority: 0,
                timeout_micro_seconds: 0,
                inputs: Seq::empty(),
                requested_outputs: Seq::empty(),
                retained: None,
                allocator: None,
                sender: None,
                receiver: None,
                raw_output,
                state: RequestState::Built,
            }),
    {
        let request = InferRequest {
            model_name: model_name.to_owned(),
            model_version,
            id: String::new(),
            flags: 0,
            priority: 0,
            timeout_micro_seconds: 0,
            inputs: Vec::new(),
            requested_outputs: Vec::new(),
            retained: None,
            allocator: None,
            sender: None,
            receiver: None,
            raw_output,
            state: RequestState::Built,
        };
        request
    }

    /// The index of the first input of this name, if there is one.
    pub fn find_input(&self, name: &str) -> (found: Option<usize>)
        ensures
            match found {
                Some(index) => index == position_of(self@.inputs, name@) && index
                    < self.inputs@.len() && self.inputs@[index as int].name@ == name@,
                None => position_of(self@.inputs, name@) == self.inputs@.len(),
            },
    {
        let mut i: usize = 0;
        assert(self@.inputs.subrange(0, self@.inputs.len() as int) =~= self@.inputs);
        while i < self.inputs.len()
            invariant
                i <= self.inputs@.len(),
                position_of(self@.inputs, name@) == i + position_of(
                    self@.inputs.subrange(i as int, self@.inputs.len() as int),
                    name@,
                ),
            decreases self.inputs.len() - i,
        {
            let ghost rest = self@.inputs.subrange(i as int, self@.inputs.len() as int);
            assert(rest.drop_first() =~= self@.inputs.subrange(
                i + 1,
                self@.inputs.len() as int,
            ));
            if crate::utils::str_equal(self.inputs[i].name.as_str(), name) {
                return Some(i);
            }
            i += 1;
        }
        None
    }

    /// The id of the request.
    pub fn id(&self) -> (id: String)
        ensures
            id@ == self@.id,
    {
        self.id.clone()
    }

    /// Sets the id. Fails where the request is no longer being built.
    pub fn set_id(&mut self, id: &str) -> (result: Result<(), TritonError>)
        ensures
            match result {
                Ok(()) => old(self).state == RequestState::Built && final(self)@ == (RequestView {
                    id: id@,
                    ..old(self)@
                }),
                Err(error) => old(self).state != RequestState::Built && is_late(error)
                    && *final(self) == *old(self),
            },
    {
        if self.state != RequestState::Built {
            return Err(late());
        }
        self.id = id.to_owned();
        Ok(())
    }

    /// The flags of the request.
    pub fn flags(&self) -> (flags: u32)
        ensures
            flags == self@.flags,
    {
        self.flags
    }

    /// Sets the flags. Fails where the request is no longer being built.
    pub fn set_flags(&mut self, flags: u32) -> (result: Result<(), TritonError>)
        ensures
            match result {
                Ok(()) => old(self).state == RequestState::Built && final(self)@ == (RequestView {
                    flags,
                    ..old(self)@
                }),
                Err(error) => old(self).state != RequestState::Built && is_late(error)
                    && *final(self) == *old(self),
            },
    {
        if self.state != RequestState::Built {
            return Err(late());
        }
        self.flags = flags;
        Ok(())
    }

    /// The priority of the request.
    pub fn priority(&self) -> (priority: u32)
        ensures
            priority == self@.priority,
    {
        self.priority
    }

    /// Sets the priority. Fails where the request is no longer being built.
    pub fn set_priority(&mut self, priority: u32) -> (result: Result<(), TritonError>)
        ensures
            match result {
                Ok(()) => old(self).state == RequestState::Built && final(self)@ == (RequestView {
                    priority,
                    ..old(self)@
                }),
                Err(error) => old(self).state != RequestState::Built && is_late(error)
                    && *final(self) == *old(self),
            },
    {
        if self.state != RequestState::Built {
            return Err(late());
        }
        self.priority = priority;
        Ok(())
    }

    /// The time, in microseconds, after which the engine is to give the request up.
    pub fn timeout_micro_seconds(&self) -> (timeout: u64)
        ensures
            timeout == self@.timeout_micro_seconds,
    {
        self.timeout_micro_seconds
    }

    /// Sets the time, in microseconds, after which the engine is to give the
    /// request up. Fails where the request is no longer being built.
    pub fn set_timeout_micro_seconds(&mut self, timeout: u64) -> (result: Result<
        (),
        TritonError,
    >)
        ensures
            match result {
                Ok(()) => old(self).state == RequestState::Built && final(self)@ == (RequestView {
                    timeout_micro_seconds: timeout,
                    ..old(self)@
                }),
                Err(error) => old(self).state != RequestState::Built && is_late(error)
                    && *final(self) == *old(self),
            },
    {
        if self.state != RequestState::Built {
            return Err(late());
        }
        self.timeout_micro_seconds = timeout;
        Ok(())
    }

    /// Attaches an input without data, behind those that are attached. Fails
    /// where the request is no longer being built.
    pub fn add_input(&mut self, name: &str, datatype: DataType, shape: &[i64]) -> (result: Result<
        (),
        TritonError,
    >)
        ensures
            match result {
                Ok(()) => old(self).state == RequestState::Built && final(self)@ == (RequestView {
                    inputs: old(self)@.inputs.push(
                        InputView { name: name@, datatype, shape: shape@, data: Seq::empty() },
                    ),
                    ..old(self)@
                }),
                Err(error) => old(self).state != RequestState::Built && is_late(error)
                    && *final(self) == *old(self),
            },
    {
        if self.state != RequestState::Built {
            return Err(late());
        }
        let input = RequestInput {
            name: name.to_owned(),
            datatype,
            shape: vstd::slice::slice_to_vec(shape),
            data: Vec::new(),
        };
        self.inputs.push(input);
        Ok(())
    }

    /// Asks for the output of this name, behind those that are asked for. Fails
    /// where the request is no longer being built.
    pub fn add_requested_output(&mut self, name: &str) -> (result: Result<(), TritonError>)
        ensures
            match result {
                Ok(()) => old(self).state == RequestState::Built && final(self)@ == (RequestView {
                    requested_outputs: old(self)@.requested_outputs.push(name@),
                    ..old(self)@
                }),
                Err(error) => old(self).state != RequestState::Built && is_late(error)
                    && *final(self) == *old(self),
            },
    {
        if self.state != RequestState::Built {
            return Err(late());
        }
        self.requested_outputs.push(name.to_owned());
        Ok(())
    }
}

impl InferRequest {
    /// Takes the first input of this name off the request. Fails where the
    /// request is no longer being built, and where it has no input of this name.
    pub fn remove_input(&mut self, name: &str) -> (result: Result<(), TritonError>)
        ensures
            match result {
                Ok(()) => old(self).state == RequestState::Built && position_of(
                    old(self)@.inputs,
                    name@,
                ) < old(self)@.inputs.len() && final(self)@ == (RequestView {
                    inputs: old(self)@.inputs.remove(position_of(old(self)@.inputs, name@)),
                    ..old(self)@
                }),
                Err(error) => *final(self) == *old(self) && (if old(self).state
                    != RequestState::Built {
                    is_late(error)
                } else {
                    is_unknown_input(error) && position_of(old(self)@.inputs, name@) == old(
                        self,
                    )@.inputs.len()
                }),
            },
    {
        if self.state != RequestState::Built {
            return Err(late());
        }
        match self.find_input(name) {
            None => Err(unknown_input()),
            Some(index) => {
                self.inputs.remove(index);
                Ok(())
            },
        }
    }

    /// Takes every input off the request. Fails where the request is no longer
    /// being built.
    pub fn remove_all_inputs(&mut self) -> (result: Result<(), TritonError>)
        ensures
            match result {
                Ok(()) => old(self).state == RequestState::Built && final(self)@ == (RequestView {
                    inputs: Seq::empty(),
                    ..old(self)@
                }),
                Err(error) => old(self).state != RequestState::Built && is_late(error)
                    && *final(self) == *old(self),
            },
    {
        if self.state != RequestState::Built {
            return Err(late());
        }
        self.inputs.clear();
        Ok(())
    }

    /// Appends a buffer to the first input of this name. Fails where the request
    /// is no longer being built, and where it has no input of this name.
    pub fn append_input_data(&mut self, name: &str, data: InputData) -> (result: Result<
        (),
        TritonError,
    >)
        ensures
            match result {
                Ok(()) => {
                    let at = position_of(old(self)@.inputs, name@);
                    let input = old(self)@.inputs[at];
                    old(self).state == RequestState::Built && at < old(self)@.inputs.len()
                        && final(self)@ == (RequestView {
                        inputs: old(self)@.inputs.update(
                            at,
                            InputView { data: input.data.push(data), ..input },
                        ),
                        ..old(self)@
                    })
                },
                Err(error) => *final(self) == *old(self) && (if old(self).state
                    != RequestState::Built {
                    is_late(error)
                } else {
                    is_unknown_input(error) && position_of(old(self)@.inputs, name@) == old(
                        self,
                    )@.inputs.len()
                }),
            },
    {
        if self.state != RequestState::Built {
            return Err(late());
        }
        match self.find_input(name) {
            None => Err(unknown_input()),
            Some(index) => {
                self.inputs[index].data.push(data);
                Ok(())
            },
        }
    }

    /// Registers the release notification, with what is to stay alive until it
    /// comes as its token. Fails where the request is no longer being built; the
    /// token is then dropped.
    pub fn set_release_callback(&mut self, request_data_holder: Box<RequestDataHolder>) -> (result:
        Result<(), TritonError>)
        ensures
            match result {
                Ok(()) => old(self).state == RequestState::Built && final(self)@ == (RequestView {
                    retained: Some(request_data_holder@),
                    ..old(self)@
                }),
                Err(error) => old(self).state != RequestState::Built && is_late(error)
                    && *final(self) == *old(self),
            },
    {
        if self.state != RequestState::Built {
            return Err(late());
        }
        self.retained = Some(request_data_holder);
        Ok(())
    }

    /// Registers the completion notification, with the allocator of the output
    /// buffers, and with the sending half of the completion channel as its token.
    /// Fails where the request is no longer being built; the token is then dropped.
    pub fn set_response_callback(
        &mut self,
        response_allocator: &ResponseAllocator,
        response_userp: Sender<InferResponse>,
    ) -> (result: Result<(), TritonError>)
        ensures
            match result {
                Ok(()) => old(self).state == RequestState::Built && final(self)@ == (RequestView {
                    allocator: Some(response_allocator._allocator),
                    sender: Some(response_userp),
                    ..old(self)@
                }),
                Err(error) => old(self).state != RequestState::Built && is_late(error)
                    && *final(self) == *old(self),
            },
    {
        if self.state != RequestState::Built {
            return Err(late());
        }
        self.allocator = Some(response_allocator.raw_pointer());
        self.sender = Some(response_userp);
        Ok(())
    }

    /// Keeps the receiving half of the completion channel for the one who awaits
    /// the response.
    pub fn set_response_receiver(&mut self, receiver: Receiver<InferResponse>)
        ensures
            final(self)@ == (RequestView { receiver: Some(receiver), ..old(self)@ }),
    {
        self.receiver = Some(receiver);
    }

    /// Destroys a request that the engine has not accepted, and says whether it
    /// did. What was retained for it is dropped, and with the sending half the
    /// completion channel closes. A request that the engine has accepted is the
    /// engine's to release: it stays as it is.
    pub fn delete(&mut self) -> (destroyed: bool)
        ensures
            destroyed == (old(self).state == RequestState::Built),
            destroyed ==> final(self)@ == (RequestView {
                retained: None,
                sender: None,
                state: RequestState::Deleted,
                ..old(self)@
            }),
            !destroyed ==> *final(self) == *old(self),
    {
        if self.state != RequestState::Built {
            return false;
        }
        self.retained = None;
        self.sender = None;
        self.state = RequestState::Deleted;
        true
    }
}

/// One step of handing a request to the engine.
#[derive(Clone, Copy, Debug, PartialEq, Eq, Structural)]
pub enum EngineCall {
    /// Set the id of the request.
    SetId,
    /// Attach the input at this index.
    AddInput(usize),
    /// Append, to the input at the first index, its buffer at the second.
    AppendInputData(usize, usize),
    /// Ask for the output at this index.
    AddRequestedOutput(usize),
    /// Set the flags of the request.
    SetFlags,
    /// Set the priority of the request.
    SetPriority,
    /// Set the timeout of the request.
    SetTimeout,
    /// Register the release notification, with what is retained as its token.
    SetReleaseCallback,
    /// Register the completion notification, with the sending half as its token.
    SetResponseCallback,
}

/// The steps that append the first `count` buffers of the input at `input`.
pub open spec fn data_calls(input: int, count: int) -> Seq<EngineCall> {
    Seq::new(count as nat, |j: int| EngineCall::AppendInputData(input as usize, j as usize))
}

/// The steps that attach the first `count` inputs: each input, and right behind
/// it its buffers in their order.
pub open spec fn input_calls(inputs: Seq<InputView>, count: int) -> Seq<EngineCall>
    decreases count,
{
    if count <= 0 {
        Seq::empty()
    } else {
        input_calls(inputs, count - 1) + seq![EngineCall::AddInput((count - 1) as usize)]
            + data_calls(count - 1, inputs[count - 1].data.len() as int)
    }
}

/// The steps that ask for the first `count` outputs.
pub open spec fn output_calls(count: int) -> Seq<EngineCall> {
    Seq::new(count as nat, |k: int| EngineCall::AddRequestedOutput(k as usize))
}

/// The steps that register the notifications for which the request holds a token.
pub open spec fn callback_calls(request: RequestView) -> Seq<EngineCall> {
    (if request.retained is Some {
        seq![EngineCall::SetReleaseCallback]
    } else {
        Seq::empty()
    }) + (if request.sender is Some {
        seq![EngineCall::SetResponseCallback]
    } else {
        Seq::empty()
    })
}

/// The steps that hand a request to the engine, in their order: the id, the
/// inputs with their buffers, the requested outputs, the settings, and last the
/// notifications. The submission follows them.
pub open spec fn calls_of(request: RequestView) -> Seq<EngineCall> {
    seq![EngineCall::SetId] + input_calls(request.inputs, request.inputs.len() as int)
        + output_calls(request.requested_outputs.len() as int) + seq![
        EngineCall::SetFlags,
        EngineCall::SetPriority,
        EngineCall::SetTimeout,
    ] + callback_calls(request)
}

impl InferRequest {
    /// The steps that hand this request to the engine, in their order.
    pub fn engine_calls(&self) -> (calls: Vec<EngineCall>)
        ensures
            calls@ == calls_of(self@),
    {
        let mut calls: Vec<EngineCall> = Vec::new();
        calls.push(EngineCall::SetId);
        let ghost inputs = self@.inputs;
        let mut i: usize = 0;
        while i < self.inputs.len()
            invariant
                i <= self.inputs@.len(),
                inputs == self@.inputs,
                calls@ == seq![EngineCall::SetId] + input_calls(inputs, i as int),
            decreases self.inputs.len() - i,
        {
            let ghost attached = calls@;
            calls.push(EngineCall::AddInput(i));
            let count = self.inputs[i].data.len();
            let mut j: usize = 0;
            while j < count
                invariant
                    j <= count,
                    calls@ == attached + seq![EngineCall::AddInput(i)] + data_calls(
                        i as int,
                        j as int,
                    ),
                decreases count - j,
            {
                calls.push(EngineCall::AppendInputData(i, j));
                j += 1;
            }
            i += 1;
        }
        let ghost with_inputs = calls@;
        let mut k: usize = 0;
        while k < self.requested_outputs.len()
            invariant
                k <= self.requested_outputs@.len(),
                calls@ == with_inputs + output_calls(k as int),
            decreases self.requested_outputs.len() - k,
        {
            calls.push(EngineCall::AddRequestedOutput(k));
            k += 1;
        }
        calls.push(EngineCall::SetFlags);
        calls.push(EngineCall::SetPriority);
        calls.push(EngineCall::SetTimeout);
        if self.retained.is_some() {
            calls.push(EngineCall::SetReleaseCallback);
        }
        if self.sender.is_some() {
            calls.push(EngineCall::SetResponseCallback);
        }
        calls
    }
}

/// In the steps that hand a request to the engine, the buffers of an input are
/// appended only once the input is attached, and every notification is
/// registered only once every input and every requested output is attached.
pub proof fn lemma_calls_are_in_order(request: RequestView, early: int, late: int)
    requires
        request.inputs.len() <= usize::MAX,
        0 <= early < late < calls_of(request).len(),
    ensures
        calls_of(request)[early] matches EngineCall::AppendInputData(input, _) ==> calls_of(
            request,
        )[late] != EngineCall::AddInput(input),
        calls_of(request)[early] == EngineCall::SetReleaseCallback || calls_of(request)[early]
            == EngineCall::SetResponseCallback ==> (calls_of(request)[late]
            == EngineCall::SetReleaseCallback || calls_of(request)[late]
            == EngineCall::SetResponseCallback),
{
    let inputs = request.inputs;
    let attach = input_calls(inputs, inputs.len() as int);
    lemma_input_calls(inputs, inputs.len() as int);
    if 1 <= early < 1 + attach.len() && 1 <= late < 1 + attach.len() {
        lemma_input_calls_in_order(inputs, inputs.len() as int, early - 1, late - 1);
    }
}

/// The steps that attach inputs are nothing but attachments of inputs below
/// `count` and of their buffers.
pub proof fn lemma_input_calls(inputs: Seq<InputView>, count: int)
    requires
        0 <= count <= inputs.len(),
    ensures
        forall|at: int|
            0 <= at < input_calls(inputs, count).len() ==> match #[trigger] input_calls(
                inputs,
                count,
            )[at] {
                EngineCall::AddInput(input) => input < count,
                EngineCall::AppendInputData(input, _) => input < count,
                _ => false,
            },
    decreases count,
{
    if count > 0 {
        lemma_input_calls(inputs, count - 1);
    }
}

/// Among the steps that attach inputs, no input is attached behind one of its
/// buffers.
pub proof fn lemma_input_calls_in_order(
    inputs: Seq<InputView>,
    count: int,
    early: int,
    late: int,
)
    requires
        0 <= count <= inputs.len() <= usize::MAX,
        0 <= early < late < input_calls(inputs, count).len(),
    ensures
        input_calls(inputs, count)[early] matches EngineCall::AppendInputData(input, _)
            ==> input_calls(inputs, count)[late] != EngineCall::AddInput(input),
    decreases count,
{
    if count > 0 {
        let before = input_calls(inputs, count - 1);
        lemma_input_calls(inputs, count - 1);
        if late < before.len() {
            lemma_input_calls_in_order(inputs, count - 1, early, late);
        }
    }
}

/// What happens to a request after it was built.
pub enum Notification {
    /// The engine accepted the request.
    Accepted,
    /// The engine refused the request when it was submitted.
    Refused,
    /// The engine notified the release of the request, with these flags.
    Released(u32),
    /// The engine notified the completion of the request; `failed` says whether
    /// the response carries an error.
    Completed { failed: bool },
}

/// Whether the flags of a release notification say that the engine is done with
/// every part of the request.
pub open spec fn releases_all(flags: u32) -> bool {
    flags & REQUEST_RELEASE_ALL != 0
}

/// Whether a notification destroys the request and drops what is retained for it.
pub open spec fn destroys(state: RequestState, notification: Notification) -> bool {
    match (state, notification) {
        (RequestState::Built, Notification::Refused) => true,
        (RequestState::Submitted, Notification::Released(flags)) => releases_all(flags),
        _ => false,
    }
}

/// Where a request stands after a notification.
pub open spec fn after(state: RequestState, notification: Notification) -> RequestState {
    match (state, notification) {
        (RequestState::Built, Notification::Accepted) => RequestState::Submitted,
        (RequestState::Built, Notification::Refused) => RequestState::Deleted,
        (RequestState::Submitted, Notification::Released(flags)) => if releases_all(flags) {
            RequestState::ReleaseNotified
        } else {
            RequestState::Submitted
        },
        _ => state,
    }
}

/// Where a request stands after some notifications, one after the other.
pub open spec fn after_all(state: RequestState, notifications: Seq<Notification>) -> RequestState
    decreases notifications.len(),
{
    if notifications.len() == 0 {
        state
    } else {
        after_all(after(state, notifications[0]), notifications.drop_first())
    }
}

/// How often some notifications, one after the other, destroy the request.
pub open spec fn destructions(state: RequestState, notifications: Seq<Notification>) -> nat
    decreases notifications.len(),
{
    if notifications.len() == 0 {
        0
    } else {
        let first: nat = if destroys(state, notifications[0]) {
            1
        } else {
            0
        };
        first + destructions(after(state, notifications[0]), notifications.drop_first())
    }
}

/// No order of notifications destroys a request twice, and none destroys a
/// request that is destroyed already.
pub proof fn lemma_destroyed_at_most_once(state: RequestState, notifications: Seq<Notification>)
    ensures
        destructions(state, notifications) <= 1,
        state == RequestState::ReleaseNotified || state == RequestState::Deleted ==> destructions(
            state,
            notifications,
        ) == 0,
    decreases notifications.len(),
{
    if notifications.len() > 0 {
        lemma_destroyed_at_most_once(after(state, notifications[0]), notifications.drop_first());
    }
}

/// A submitted request is destroyed exactly once by notifications among which
/// there is a release of all of it, whatever else they hold and in whatever
/// order: a completion before or after the release, with an error or without,
/// changes nothing of that.
pub proof fn lemma_release_destroys_exactly_once(notifications: Seq<Notification>, at: int)
    requires
        0 <= at < notifications.len(),
        notifications[at] matches Notification::Released(flags) && releases_all(flags),
    ensures
        destructions(RequestState::Submitted, notifications) == 1,
        after_all(RequestState::Submitted, notifications) == RequestState::ReleaseNotified,
    decreases notifications.len(),
{
    let first = notifications[0];
    let rest = notifications.drop_first();
    if destroys(RequestState::Submitted, first) {
        lemma_destroyed_at_most_once(RequestState::ReleaseNotified, rest);
        lemma_release_is_final(rest);
    } else {
        lemma_release_destroys_exactly_once(rest, at - 1);
    }
}

/// A released request stays released.
pub proof fn lemma_release_is_final(notifications: Seq<Notification>)
    ensures
        after_all(RequestState::ReleaseNotified, notifications) == RequestState::ReleaseNotified,
    decreases notifications.len(),
{
    if notifications.len() > 0 {
        lemma_release_is_final(notifications.drop_first());
    }
}

/// Answers a release notification. With the flag that releases all of the
/// request, what was retained for it is dropped and `None` is returned: the
/// request is to be destroyed. With other flags the token is handed back
/// unchanged, and the request stays.
pub fn release_callback(request_data_holder: Box<RequestDataHolder>, flags: u32) -> (kept: Option<
    Box<RequestDataHolder>,
>)
    ensures
        kept.is_none() == destroys(RequestState::Submitted, Notification::Released(flags)),
        kept matches Some(holder) ==> holder == request_data_holder,
{
    if flags & REQUEST_RELEASE_ALL != 0 {
        None
    } else {
        Some(request_data_holder)
    }
}

/// What became of a completion notification.
#[derive(Clone, Copy, Debug, PartialEq, Eq, Structural)]
pub enum Delivery {
    /// The response is in the completion channel.
    Delivered,
    /// The channel did not take the response: it is dropped, and the one who
    /// awaits it sees the channel close.
    Dropped,
    /// The notification came without a response.
    NoResponse,
}

/// Answers a completion notification: a response goes into the completion
/// channel, without waiting. The sending half is given up either way, so that
/// the channel closes behind the one response.
pub fn response_callback(
    response_userp: Sender<InferResponse>,
    response: Option<InferResponse>,
    flags: u32,
) -> (delivery: Delivery)
    ensures
        response.is_none() <==> delivery == Delivery::NoResponse,
{
    match response {
        None => Delivery::NoResponse,
        Some(response) => {
            if try_send(&response_userp, response) {
                Delivery::Delivered
            } else {
                Delivery::Dropped
            }
        },
    }
}

} // verus!
