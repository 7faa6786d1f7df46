//! Errors of the debugger transport and of request handlers.
use vstd::prelude::*;

verus! {

/// Why talking to the debugger failed.
#[derive(Debug, Clone, PartialEq, Eq)]
pub enum DebuggerError {
    IoError(String),
    AddrParseError(String),
    ConnectionError(String),
    SerializationError(String),
    NotConnected,
}

/// The text that reports a transport error.
pub open spec fn debugger_error_text(e: DebuggerError) -> Seq<char> {
    match e {
        DebuggerError::IoError(s) => "IO Error: "@ + s@,
        DebuggerError::AddrParseError(s) => "Parse Error: "@ + s@,
        DebuggerError::ConnectionError(s) => "Connection Error: "@ + s@,
        DebuggerError::SerializationError(s) => "Serialization Error: "@ + s@,
        DebuggerError::NotConnected => "not connected"@,
    }
}

impl DebuggerError {
    /// The text that reports this error.
    pub fn message(&self) -> (r: String)
        ensures
            r@ == debugger_error_text(*self),
    {
        let mut r = String::new();
        match self {
            DebuggerError::IoError(s) => {
                r.append("IO Error: ");
                r.append(s.as_str());
            },
            DebuggerError::AddrParseError(s) => {
                r.append("Parse Error: ");
                r.append(s.as_str());
            },
            DebuggerError::ConnectionError(s) => {
                r.append("Connection Error: ");
                r.append(s.as_str());
            },
            DebuggerError::SerializationError(s) => {
                r.append("Serialization Error: ");
                r.append(s.as_str());
            },
            DebuggerError::NotConnected => {
                r.append("not connected");
            },
        }
        r
    }
}

/// Why a request handler failed.
#[derive(Debug, Clone, PartialEq, Eq)]
pub enum RequestHandlerError {
    Message(String),
    ServerError(String),
}

impl RequestHandlerError {
    /// The text that reports this error.
    pub fn message(&self) -> (r: String)
        ensures
            r@ == match *self {
                RequestHandlerError::Message(s) => s@,
                RequestHandlerError::ServerError(s) => s@,
            },
    {
        match self {
            RequestHandlerError::Message(s) => s.clone(),
            RequestHandlerError::ServerError(s) => s.clone(),
        }
    }
}

} // verus!
