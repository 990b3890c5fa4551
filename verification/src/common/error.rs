//! Errors shared by the pipeline components.
//!
//! A failure reported by the transport, the codecs or the file system is
//! carried as that library's own message; the library types themselves
//! stay with the program around this crate.

use vstd::prelude::*;
use vstd::string::*;

verus! {

/// Common pipeline errors shared across components
#[derive(Debug, Clone)]
pub enum PipelineError {
    /// ZeroMQ transport error, with the transport's message
    ZmqTransport(String),
    /// ZeroMQ socket error, with the socket's message
    ZmqSocket(String),
    /// MessagePack serialization error, with the encoder's message
    Serialization(String),
    /// MessagePack deserialization error, with the decoder's message
    Deserialization(String),
    /// JSON serialization/deserialization error, with the codec's message
    Json(String),
    /// I/O error (file operations), with the system's message
    Io(String),
    /// Channel send failed (receiver dropped)
    ChannelSend,
    /// Channel receive failed (sender dropped)
    ChannelRecv,
    /// Configuration error
    Config(String),
    /// Component not in expected state
    InvalidState { expected: String, actual: String },
    /// Timeout waiting for operation
    Timeout(String),
    /// Generic error with message
    Other(String),
}

/// The message of a pipeline error.
pub open spec fn pipeline_error_text(e: PipelineError) -> Seq<char> {
    match e {
        PipelineError::ZmqTransport(m) => "ZMQ transport error: "@ + m@,
        PipelineError::ZmqSocket(m) => "ZMQ socket error: "@ + m@,
        PipelineError::Serialization(m) => "Serialization error: "@ + m@,
        PipelineError::Deserialization(m) => "Deserialization error: "@ + m@,
        PipelineError::Json(m) => "JSON error: "@ + m@,
        PipelineError::Io(m) => "I/O error: "@ + m@,
        PipelineError::ChannelSend => "Channel send failed: receiver dropped"@,
        PipelineError::ChannelRecv => "Channel receive failed: sender dropped"@,
        PipelineError::Config(m) => "Configuration error: "@ + m@,
        PipelineError::InvalidState { expected, actual } => "Invalid state: expected "@ + expected@ + ", got "@
            + actual@,
        PipelineError::Timeout(m) => "Operation timed out: "@ + m@,
        PipelineError::Other(m) => m@,
    }
}

fn prefixed(prefix: &str, m: &String) -> (r: String)
    ensures
        r@ == prefix@ + m@,
{
    let mut s = String::from_str(prefix);
    s.append(m.as_str());
    s
}

impl PipelineError {
    /// Create a configuration error
    pub fn config(msg: &str) -> (r: PipelineError)
        ensures
            r matches PipelineError::Config(m) && m@ == msg@,
    {
        PipelineError::Config(String::from_str(msg))
    }

    /// Create an invalid state error
    pub fn invalid_state(expected: &str, actual: &str) -> (r: PipelineError)
        ensures
            r matches PipelineError::InvalidState { expected: e, actual: a } && e@ == expected@ && a@ == actual@,
    {
        PipelineError::InvalidState { expected: String::from_str(expected), actual: String::from_str(actual) }
    }

    /// Create a timeout error
    pub fn timeout(msg: &str) -> (r: PipelineError)
        ensures
            r matches PipelineError::Timeout(m) && m@ == msg@,
    {
        PipelineError::Timeout(String::from_str(msg))
    }

    /// Create a generic error
    pub fn other(msg: &str) -> (r: PipelineError)
        ensures
            r matches PipelineError::Other(m) && m@ == msg@,
    {
        PipelineError::Other(String::from_str(msg))
    }

    /// The error's message.
    pub fn to_string(&self) -> (r: String)
        ensures
            r@ == pipeline_error_text(*self),
    {
        match self {
            PipelineError::ZmqTransport(m) => prefixed("ZMQ transport error: ", m),
            PipelineError::ZmqSocket(m) => prefixed("ZMQ socket error: ", m),
            PipelineError::Serialization(m) => prefixed("Serialization error: ", m),
            PipelineError::Deserialization(m) => prefixed("Deserialization error: ", m),
            PipelineError::Json(m) => prefixed("JSON error: ", m),
            PipelineError::Io(m) => prefixed("I/O error: ", m),
            PipelineError::ChannelSend => String::from_str("Channel send failed: receiver dropped"),
            PipelineError::ChannelRecv => String::from_str("Channel receive failed: sender dropped"),
            PipelineError::Config(m) => prefixed("Configuration error: ", m),
            PipelineError::InvalidState { expected, actual } => {
                let mut s = prefixed("Invalid state: expected ", expected);
                s.append(", got ");
                s.append(actual.as_str());
                s
            },
            PipelineError::Timeout(m) => prefixed("Operation timed out: ", m),
            PipelineError::Other(m) => m.clone(),
        }
    }
}

} // verus!
