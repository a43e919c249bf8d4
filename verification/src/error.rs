//! The errors of the mesh library and of its links.
use vstd::prelude::*;
use vstd::string::StringExecFns;

verus! {

/// Errors raised by the mesh library.
#[derive(Debug)]
pub enum RustMeshError {
    Io(String),
    Serialization(String),
    Deserialization(String),
    LibP2P(String),
    Channel(String),
    Timeout,
    Configuration(String),
    NotFound(String),
    InvalidState(String),
}

/// The message that describes an error.
pub open spec fn error_text(e: RustMeshError) -> Seq<char> {
    match e {
        RustMeshError::Io(m) => "IO Error: "@ + m@,
        RustMeshError::Serialization(m) => "Serialization Error: "@ + m@,
        RustMeshError::Deserialization(m) => "Deserialization Error: "@ + m@,
        RustMeshError::LibP2P(m) => "libp2p Error: "@ + m@,
        RustMeshError::Channel(m) => "Channel Error: "@ + m@,
        RustMeshError::Timeout => "Timeout"@,
        RustMeshError::Configuration(m) => "Configuration Error: "@ + m@,
        RustMeshError::NotFound(m) => "Not Found Error: "@ + m@,
        RustMeshError::InvalidState(m) => "Invalid State Error: "@ + m@,
    }
}

/// `prefix` followed by `detail`.
fn prefixed(prefix: &str, detail: &String) -> (s: String)
    ensures
        s@ == prefix@ + detail@,
{
    let mut s = String::from_str(prefix);
    s.append(detail.as_str());
    s
}

impl RustMeshError {
    /// The message that describes this error.
    pub fn to_string(&self) -> (s: String)
        ensures
            s@ == error_text(*self),
    {
        match self {
            RustMeshError::Io(m) => prefixed("IO Error: ", m),
            RustMeshError::Serialization(m) => prefixed("Serialization Error: ", m),
            RustMeshError::Deserialization(m) => prefixed("Deserialization Error: ", m),
            RustMeshError::LibP2P(m) => prefixed("libp2p Error: ", m),
            RustMeshError::Channel(m) => prefixed("Channel Error: ", m),
            RustMeshError::Timeout => String::from_str("Timeout"),
            RustMeshError::Configuration(m) => prefixed("Configuration Error: ", m),
            RustMeshError::NotFound(m) => prefixed("Not Found Error: ", m),
            RustMeshError::InvalidState(m) => prefixed("Invalid State Error: ", m),
        }
    }
}

/// A failure of a link to send or to receive.
#[derive(Debug)]
pub enum LinkError {
    SendError(String),
    RecvError(String),
}

/// A failure to open a Wi-Fi link.
#[derive(Debug)]
pub enum WifiLinkError {
    BindingError(String),
}

/// A failure to open a Bluetooth Low Energy link.
#[derive(Debug)]
pub enum BLEError {
    BindingError(String),
}

} // verus!
