//! What the engine hands back for one inference: the response and its outputs.

use crate::codec::{checked_element_count, element_count, shape_is_valid};
use crate::error::{ErrorCode, TritonError};
use crate::utils::{data_type_size, element_size_of, DataType, ElementSize};
use vstd::prelude::*;

verus! {

/// Where a buffer of the engine lives.
#[derive(Clone, Copy, Debug, PartialEq, Eq, Structural)]
pub enum MemoryType {
    Cpu,
    CpuPinned,
    Gpu,
}

/// The memory type of the engine's number for it; `Cpu` for a number without one.
pub open spec fn memory_type_of_number(number: u32) -> MemoryType {
    if number == 1 {
        MemoryType::CpuPinned
    } else if number == 2 {
        MemoryType::Gpu
    } else {
        MemoryType::Cpu
    }
}

/// The engine's number for a memory type.
pub open spec fn number_of_memory_type(memory_type: MemoryType) -> u32 {
    match memory_type {
        MemoryType::Cpu => 0,
        MemoryType::CpuPinned => 1,
        MemoryType::Gpu => 2,
    }
}

impl MemoryType {
    /// The engine's number for this memory type; `from_number` reads it back.
    pub fn number(self) -> (number: u32)
        ensures
            number == number_of_memory_type(self),
            memory_type_of_number(number) == self,
    {
        match self {
            MemoryType::Cpu => 0,
            MemoryType::CpuPinned => 1,
            MemoryType::Gpu => 2,
        }
    }

    /// The memory type of the engine's number for it; `Cpu` for a number without one.
    pub fn from_number(number: u32) -> (memory_type: MemoryType)
        ensures
            memory_type == memory_type_of_number(number),
    {
        if number == 1 {
            MemoryType::CpuPinned
        } else if number == 2 {
            MemoryType::Gpu
        } else {
            MemoryType::Cpu
        }
    }
}

/// One output of a response: what the engine says of it, and the bytes of its buffer.
///
/// No dimension of its shape is negative, and a `usize` holds its number of elements.
#[derive(Debug)]
pub struct InferResponseOutput {
    name: String,
    datatype: DataType,
    shape: Vec<i64>,
    memory_type: MemoryType,
    memory_type_id: i64,
    data: Vec<u8>,
}

/// What an `InferResponseOutput` holds.
#[verifier::ext_equal]
pub struct OutputView {
    pub name: Seq<char>,
    pub datatype: DataType,
    pub shape: Seq<i64>,
    pub memory_type: MemoryType,
    pub memory_type_id: i64,
    pub data: Seq<u8>,
}

impl OutputView {
    /// The shape has no negative dimension, and a `usize` holds its number of elements.
    pub open spec fn well_formed(self) -> bool {
        shape_is_valid(self.shape) && element_count(self.shape) <= usize::MAX
    }
}

impl View for InferResponseOutput {
    type V = OutputView;

    closed spec fn view(&self) -> OutputView {
        OutputView {
            name: self.name@,
            datatype: self.datatype,
            shape: self.shape@,
            memory_type: self.memory_type,
            memory_type_id: self.memory_type_id,
            data: self.data@,
        }
    }
}

impl InferResponseOutput {
    #[verifier::type_invariant]
    spec fn type_invariant(&self) -> bool {
        self@.well_formed()
    }

    /// An output from what the engine says of it. Fails with `InvalidArg` where a
    /// dimension is negative or the number of elements is more than a `usize` holds.
    pub fn new(
        name: String,
        datatype: DataType,
        shape: Vec<i64>,
        data: Vec<u8>,
        memory_type: MemoryType,
        memory_type_id: i64,
    ) -> (result: Result<InferResponseOutput, TritonError>)
        ensures
            match result {
                Ok(output) => output@ == (OutputView {
                    name: name@,
                    datatype,
                    shape: shape@,
                    memory_type,
                    memory_type_id,
                    data: data@,
                }) && output@.well_formed(),
                Err(error) => error.code == ErrorCode::InvalidArg && error.msg@
                    == "invalid output shape"@ && !(shape_is_valid(shape@) && element_count(
                    shape@,
                ) <= usize::MAX),
            },
    {
        if checked_element_count(shape.as_slice()).is_none() {
            return Err(TritonError::new(ErrorCode::InvalidArg, "invalid output shape".to_owned()));
        }
        Ok(InferResponseOutput { name, datatype, shape, memory_type, memory_type_id, data })
    }

    /// The name of the output.
    pub fn name(&self) -> (name: &str)
        ensures
            name@ == self@.name,
    {
        self.name.as_str()
    }

    /// The datatype of the elements.
    pub fn datatype(&self) -> (datatype: DataType)
        ensures
            datatype == self@.datatype,
    {
        self.datatype
    }

    /// The shape of the output.
    pub fn shape(&self) -> (shape: &Vec<i64>)
        ensures
            shape@ == self@.shape,
            self@.well_formed(),
    {
        proof {
            use_type_invariant(self);
        }
        &self.shape
    }

    /// Where the buffer lived in the engine.
    pub fn memory_type(&self) -> (memory_type: MemoryType)
        ensures
            memory_type == self@.memory_type,
    {
        self.memory_type
    }

    /// The location of the buffer within its kind of memory.
    pub fn memory_type_id(&self) -> (id: i64)
        ensures
            id == self@.memory_type_id,
    {
        self.memory_type_id
    }

    /// The bytes of the buffer.
    pub fn data(&self) -> (data: &Vec<u8>)
        ensures
            data@ == self@.data,
    {
        &self.data
    }

    /// The size of the buffer in bytes.
    pub fn byte_size(&self) -> (size: usize)
        ensures
            size == self@.data.len(),
    {
        self.data.len()
    }

    /// The number of elements: the product of the dimensions.
    pub fn len(&self) -> (count: usize)
        ensures
            count == element_count(self@.shape),
    {
        proof {
            use_type_invariant(self);
        }
        match checked_element_count(self.shape.as_slice()) {
            Some(count) => count,
            None => 0,
        }
    }

    /// Whether the output has no element.
    pub fn is_empty(&self) -> (empty: bool)
        ensures
            empty == (element_count(self@.shape) == 0),
    {
        self.len() == 0
    }

    /// The number of whole elements that the buffer has room for, or `None` for a
    /// datatype without a fixed width.
    pub fn capacity(&self) -> (capacity: Option<usize>)
        ensures
            capacity == (match element_size_of(self@.datatype) {
                ElementSize::Fixed(width) => Some((self@.data.len() / width as nat) as usize),
                _ => None,
            }),
    {
        match data_type_size(self.datatype) {
            ElementSize::Fixed(width) => Some(self.data.len() / width),
            _ => None,
        }
    }

    /// Takes the output apart: its name, its datatype, its shape and its bytes.
    pub fn into_parts(self) -> (parts: (String, DataType, Vec<i64>, Vec<u8>))
        ensures
            parts.0@ == self@.name,
            parts.1 == self@.datatype,
            parts.2@ == self@.shape,
            parts.3@ == self@.data,
            self@.well_formed(),
    {
        proof {
            use_type_invariant(&self);
        }
        (self.name, self.datatype, self.shape, self.data)
    }
}

/// The response of the engine to one request, read out of the engine's hands.
#[derive(Debug)]
pub struct InferResponse {
    /// The error that the engine attached, if it did.
    pub error: Option<TritonError>,
    pub model_name: String,
    pub model_version: i64,
    pub id: String,
    /// The outputs in the order in which the engine reports them.
    pub outputs: Vec<InferResponseOutput>,
}

/// The views of a list of outputs.
pub open spec fn outputs_view(outputs: Seq<InferResponseOutput>) -> Seq<OutputView> {
    Seq::new(outputs.len(), |i: int| outputs[i]@)
}

impl InferResponse {
    /// A response as it was read out of the engine's hands.
    pub fn new(
        error: Option<TritonError>,
        model_name: String,
        model_version: i64,
        id: String,
        outputs: Vec<InferResponseOutput>,
    ) -> (response: InferResponse)
        ensures
            response.error == error,
            response.model_name == model_name,
            response.model_version == model_version,
            response.id == id,
            response.outputs == outputs,
    {
        InferResponse { error, model_name, model_version, id, outputs }
    }

    /// The error that the engine attached, if it did.
    pub fn error(&self) -> (error: Option<&TritonError>)
        ensures
            match error {
                Some(e) => self.error == Some(*e),
                None => self.error.is_none(),
            },
    {
        self.error.as_ref()
    }

    /// The name and the version of the model that answered.
    pub fn model(&self) -> (model: (String, i64))
        ensures
            model.0@ == self.model_name@,
            model.1 == self.model_version,
    {
        (self.model_name.clone(), self.model_version)
    }

    /// The id of the request that this answers.
    pub fn id(&self) -> (id: String)
        ensures
            id@ == self.id@,
    {
        self.id.clone()
    }

    /// The number of outputs. Fails with `InvalidArg` where a `u32` does not hold it.
    pub fn output_count(&self) -> (count: Result<u32, TritonError>)
        ensures
            match count {
                Ok(n) => n == self.outputs@.len(),
                Err(error) => error.code == ErrorCode::InvalidArg && self.outputs@.len()
                    > u32::MAX,
            },
    {
        let count = self.outputs.len();
        if count > u32::MAX as usize {
            Err(TritonError::new(ErrorCode::InvalidArg, "too many outputs".to_owned()))
        } else {
            Ok(count as u32)
        }
    }

    /// The output at `index`. Fails with `InvalidArg` where there is none.
    pub fn output(&self, index: u32) -> (output: Result<&InferResponseOutput, TritonError>)
        ensures
            match output {
                Ok(found) => index < self.outputs@.len() && *found == self.outputs@[index as int],
                Err(error) => error.code == ErrorCode::InvalidArg && index >= self.outputs@.len(),
            },
    {
        if (index as usize) < self.outputs.len() {
            Ok(&self.outputs[index as usize])
        } else {
            Err(TritonError::new(ErrorCode::InvalidArg, "output index out of range".to_owned()))
        }
    }
}

} // verus!
