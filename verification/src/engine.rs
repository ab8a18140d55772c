//! How the bindings of a serialized TensorRT engine are checked and mapped:
//! the engine must have exactly one FP32 input and one FP32 output.
use vstd::prelude::*;

verus! {

/// What the pipeline reads of one engine binding.
#[derive(Debug, Clone, Copy, PartialEq, Eq, Structural)]
pub struct BindingInfo {
    /// Whether the binding is an input (otherwise it is an output).
    pub is_input: bool,
    /// Whether its elements are 32-bit floats.
    pub is_float: bool,
    /// Its size in bytes.
    pub byte_size: usize,
}

/// Where the input and output live among the bindings, and how many `f32`
/// values each holds.
#[derive(Debug, Clone, Copy, PartialEq, Eq, Structural)]
pub struct EngineLayout {
    pub input_index: usize,
    pub output_index: usize,
    pub input_count: usize,
    pub output_count: usize,
}

/// Why an engine's bindings are refused.
#[derive(Debug, Clone, Copy, PartialEq, Eq, Structural)]
pub enum BindingError {
    /// No binding is an input.
    NoInput,
    /// No binding is an output.
    NoOutput,
    /// There are not exactly two bindings, or the input or output is not FP32.
    NotOneFloatInputAndOutput,
}

/// Size in bytes of one `f32` element.
pub const F32_BYTES: usize = 4;

/// `i` is the first binding whose direction is `input`.
pub open spec fn is_first(b: Seq<BindingInfo>, i: int, input: bool) -> bool {
    &&& 0 <= i < b.len()
    &&& b[i].is_input == input
    &&& forall|j: int| 0 <= j < i ==> #[trigger] b[j].is_input != input
}

/// Some binding has direction `input`.
pub open spec fn has_binding(b: Seq<BindingInfo>, input: bool) -> bool {
    exists|j: int| 0 <= j < b.len() && #[trigger] b[j].is_input == input
}

fn first_binding(b: &[BindingInfo], input: bool) -> (r: Option<usize>)
    ensures
        r matches Some(i) ==> is_first(b@, i as int, input),
        r is None ==> !has_binding(b@, input),
{
    let mut i: usize = 0;
    while i < b.len()
        invariant
            i <= b@.len(),
            forall|j: int| 0 <= j < i ==> #[trigger] b@[j].is_input != input,
        decreases b@.len() - i,
    {
        if b[i].is_input == input {
            return Some(i);
        }
        i = i + 1;
    }
    None
}

/// Picks the input and output bindings: the first input and the first
/// output. The engine is refused when it has no input, then when it has no
/// output, then when it does not have exactly two bindings that are both FP32.
/// Element counts are byte sizes over `F32_BYTES`.
pub fn select_bindings(b: &[BindingInfo]) -> (r: Result<EngineLayout, BindingError>)
    ensures
        r == Err::<EngineLayout, BindingError>(BindingError::NoInput) <==> !has_binding(b@, true),
        r == Err::<EngineLayout, BindingError>(BindingError::NoOutput) <==> has_binding(b@, true)
            && !has_binding(b@, false),
        r == Err::<EngineLayout, BindingError>(BindingError::NotOneFloatInputAndOutput) ==> exists|
            i: int,
            o: int,
        |
            is_first(b@, i, true) && is_first(b@, o, false) && (b@.len() != 2 || !b@[i].is_float
                || !b@[o].is_float),
        r matches Ok(l) ==> {
            &&& is_first(b@, l.input_index as int, true)
            &&& is_first(b@, l.output_index as int, false)
            &&& b@.len() == 2
            &&& b@[l.input_index as int].is_float
            &&& b@[l.output_index as int].is_float
            &&& l.input_count == b@[l.input_index as int].byte_size / F32_BYTES
            &&& l.output_count == b@[l.output_index as int].byte_size / F32_BYTES
        },
{
    let input_index = match first_binding(b, true) {
        Some(i) => i,
        None => return Err(BindingError::NoInput),
    };
    let output_index = match first_binding(b, false) {
        Some(o) => o,
        None => return Err(BindingError::NoOutput),
    };
    if b.len() != 2 || !b[input_index].is_float || !b[output_index].is_float {
        return Err(BindingError::NotOneFloatInputAndOutput);
    }
    Ok(
        EngineLayout {
            input_index,
            output_index,
            input_count: b[input_index].byte_size / F32_BYTES,
            output_count: b[output_index].byte_size / F32_BYTES,
        },
    )
}

/// An input of `len` values that does not fit the engine's input binding.
#[derive(Debug, Clone, Copy, PartialEq, Eq, Structural)]
pub struct InputSizeMismatch {
    pub expected: usize,
    pub got: usize,
}

impl EngineLayout {
    /// Checks that an input of `len` values fills the input binding exactly.
    pub fn check_input_len(&self, len: usize) -> (r: Result<(), InputSizeMismatch>)
        ensures
            r is Ok <==> len == self.input_count,
            r matches Err(e) ==> e.expected == self.input_count && e.got == len,
    {
        if len != self.input_count {
            Err(InputSizeMismatch { expected: self.input_count, got: len })
        } else {
            Ok(())
        }
    }
}

} // verus!
