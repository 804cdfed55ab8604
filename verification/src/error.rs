//! The error type of the scheduler and its tasks.

use crate::codec::CodecError;
use crate::stack::StackError;
use vstd::prelude::*;
use vstd::std_specs::convert::FromSpecImpl;

verus! {

/// Everything that can go wrong in a scheduler operation or inside a task.
#[derive(Debug)]
pub enum Error {
    /// A pop found the stack empty.
    EmptyStack,
    /// The arena refused a push.
    StackCapacity(StackError),
    /// A value could not be encoded; the text is the encoder's message.
    Serialization(String),
    /// A frame could not be decoded as the expected type; the text says why.
    Deserialization(String),
    /// Invalid task length.
    InvalidTaskLength,
    /// Generic execution error.
    Execution(String),
    /// Task-specific error.
    Task(String),
}

impl From<StackError> for Error {
    fn from(e: StackError) -> (r: Error) {
        Error::StackCapacity(e)
    }
}

impl FromSpecImpl<StackError> for Error {
    open spec fn obeys_from_spec() -> bool {
        true
    }

    open spec fn from_spec(e: StackError) -> Error {
        Error::StackCapacity(e)
    }
}

impl Error {
    /// The scheduler error that stands for a codec error: same kind, same text.
    pub fn from_codec(e: CodecError) -> (r: Error)
        ensures
            match e {
                CodecError::SerializationError(text) => r == Error::Serialization(text),
                CodecError::DeserializationError(text) => r == Error::Deserialization(text),
                CodecError::EmptyStack => r == Error::EmptyStack,
            },
    {
        match e {
            CodecError::SerializationError(text) => Error::Serialization(text),
            CodecError::DeserializationError(text) => Error::Deserialization(text),
            CodecError::EmptyStack => Error::EmptyStack,
        }
    }

    /// The text of this error as a sequence of characters.
    pub open spec fn message_model(&self) -> Seq<char> {
        match self {
            Error::EmptyStack => "Empty stack"@,
            Error::StackCapacity(e) => e.message_model(),
            Error::Serialization(text) => text@,
            Error::Deserialization(text) => text@,
            Error::InvalidTaskLength => "Invalid task length"@,
            Error::Execution(text) => "Execution error: "@ + text@,
            Error::Task(text) => "Task error: "@ + text@,
        }
    }

    /// The text of this error.
    pub fn message(&self) -> (text: String)
        ensures
            text@ == self.message_model(),
    {
        match self {
            Error::EmptyStack => String::from_str("Empty stack"),
            Error::StackCapacity(e) => e.message(),
            Error::Serialization(text) => text.clone(),
            Error::Deserialization(text) => text.clone(),
            Error::InvalidTaskLength => String::from_str("Invalid task length"),
            Error::Execution(text) => String::from_str("Execution error: ").concat(text.as_str()),
            Error::Task(text) => String::from_str("Task error: ").concat(text.as_str()),
        }
    }
}

} // verus!
