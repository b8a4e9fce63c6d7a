//! Error types for every layer of the interpreter.
//!
//! Each layer has a small closed enum; the engine composes the lower
//! layers' errors into its own without losing the original kind, and the
//! top-level [`Error`] wraps the engine's. Every variant carries the data
//! that identifies the failing input.

use vstd::prelude::*;

verus! {

/// Common interface for rendering an error as a human-readable message.
/// `message` is the specification of what `to_string` returns.
pub trait ErrorTrait {
    spec fn message(&self) -> Seq<char>;

    fn to_string(&self) -> (r: String)
        ensures
            r@ == self.message(),
    ;
}

/// A pixel access outside the fixed display grid.
#[derive(Clone, Copy, Debug, PartialEq, Eq, Structural)]
pub enum DisplayError {
    OutOfBounds { x: u8, y: u8, width: u8, height: u8 },
}

/// A key index outside the fixed 16-key pad.
#[derive(Clone, Copy, Debug, PartialEq, Eq, Structural)]
pub enum InputError {
    OutOfBounds { index: u8, size: usize },
}

/// A failure reported by the interpreter engine. Bounds are checked before
/// any mutation, so an error never leaves the engine partially updated
/// beyond the unconditional program-counter advance of a decoded cycle.
#[derive(Clone, Copy, Debug, PartialEq, Eq, Structural)]
pub enum EngineError {
    /// The program image does not fit between the program origin and the
    /// end of memory.
    RomTooLarge { size: usize },
    /// The fetched instruction matches no entry of the decode table; the
    /// payload is the low byte of the opcode.
    OpCodeNotFound { op_code: u8 },
    /// A fetch or a memory-block operation would touch an address outside
    /// the memory region; the payload is the base address of the access.
    MemoryOutOfBounds { address: u16 },
    /// A subroutine call with all 16 stack slots already in use.
    StackOverflow,
    /// A subroutine return with an empty call stack.
    StackUnderflow,
    DisplayError(DisplayError),
    InputError(InputError),
}

/// The top-level error handed to the host.
#[derive(Clone, Copy, Debug, PartialEq, Eq, Structural)]
pub enum Error {
    EngineError(EngineError),
}

impl ErrorTrait for DisplayError {
    open spec fn message(&self) -> Seq<char> {
        "pixel coordinates out of bounds for the display"@
    }

    fn to_string(&self) -> (r: String) {
        "pixel coordinates out of bounds for the display".to_owned()
    }
}

impl ErrorTrait for InputError {
    open spec fn message(&self) -> Seq<char> {
        "key index out of bounds for the key pad"@
    }

    fn to_string(&self) -> (r: String) {
        "key index out of bounds for the key pad".to_owned()
    }
}

impl ErrorTrait for EngineError {
    open spec fn message(&self) -> Seq<char> {
        match *self {
            EngineError::RomTooLarge { .. } => "ROM image exceeds the available memory"@,
            EngineError::OpCodeNotFound { .. } => "opcode not found"@,
            EngineError::MemoryOutOfBounds { .. } => "memory access out of bounds"@,
            EngineError::StackOverflow => "call stack overflow"@,
            EngineError::StackUnderflow => "call stack underflow"@,
            EngineError::DisplayError(e) => e.message(),
            EngineError::InputError(e) => e.message(),
        }
    }

    fn to_string(&self) -> (r: String) {
        match self {
            EngineError::RomTooLarge { .. } => "ROM image exceeds the available memory".to_owned(),
            EngineError::OpCodeNotFound { .. } => "opcode not found".to_owned(),
            EngineError::MemoryOutOfBounds { .. } => "memory access out of bounds".to_owned(),
            EngineError::StackOverflow => "call stack overflow".to_owned(),
            EngineError::StackUnderflow => "call stack underflow".to_owned(),
            EngineError::DisplayError(e) => e.to_string(),
            EngineError::InputError(e) => e.to_string(),
        }
    }
}

impl ErrorTrait for Error {
    open spec fn message(&self) -> Seq<char> {
        match *self {
            Error::EngineError(e) => e.message(),
        }
    }

    fn to_string(&self) -> (r: String) {
        match self {
            Error::EngineError(e) => e.to_string(),
        }
    }
}

impl vstd::std_specs::convert::FromSpecImpl<DisplayError> for EngineError {
    open spec fn obeys_from_spec() -> bool {
        true
    }

    open spec fn from_spec(v: DisplayError) -> Self {
        EngineError::DisplayError(v)
    }
}

impl From<DisplayError> for EngineError {
    fn from(err: DisplayError) -> (r: Self) {
        EngineError::DisplayError(err)
    }
}

impl vstd::std_specs::convert::FromSpecImpl<InputError> for EngineError {
    open spec fn obeys_from_spec() -> bool {
        true
    }

    open spec fn from_spec(v: InputError) -> Self {
        EngineError::InputError(v)
    }
}

impl From<InputError> for EngineError {
    fn from(err: InputError) -> (r: Self) {
        EngineError::InputError(err)
    }
}

impl vstd::std_specs::convert::FromSpecImpl<EngineError> for Error {
    open spec fn obeys_from_spec() -> bool {
        true
    }

    open spec fn from_spec(v: EngineError) -> Self {
        Error::EngineError(v)
    }
}

impl From<EngineError> for Error {
    fn from(err: EngineError) -> (r: Self) {
        Error::EngineError(err)
    }
}

} // verus!
