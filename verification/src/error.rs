//! What can go wrong, as values handed back to the caller.

use crate::wire::{Wire, WireKind, WireValue};
use vstd::prelude::*;

verus! {

/// How a payload failed to match the fixed layout of the type it was read
/// as.
#[derive(Clone, Copy, Debug, PartialEq, Eq, Structural)]
pub enum SchemaMismatch {
    /// The payload is not the kind of container the layout is made of.
    Shape { expected: WireKind, got: WireKind },
    /// The container holds fewer fields than the layout has.
    FieldCount { expected_fields: usize, got: usize },
    /// The field at this position cannot be read as the kind the layout
    /// puts there.
    Field { field_index: usize, expected_kind: WireKind },
}

/// Why a wire value could not be read as a domain value.
#[derive(Clone, Copy, Debug, PartialEq, Eq, Structural)]
pub enum DecodeError {
    /// The payload does not have the layout of the type.
    SchemaMismatch(SchemaMismatch),
    /// An enumeration was given a code that none of its variants has.
    UnknownVariant { code: i128 },
}

/// What a failed call is, mathematically: the view of [`NetworkError`].
pub enum Failure {
    Connect,
    Timeout { method: Seq<char>, id: u64 },
    Rpc { method: Seq<char>, payload: Wire },
    ConnectionLost,
    Decode(DecodeError),
}

/// Why a call gave no value.
#[derive(Debug, PartialEq)]
pub enum NetworkError {
    /// The stream to the server could not be opened.
    ConnectError,
    /// No response came within the bound of the call.
    TimeoutError { method: String, id: u64 },
    /// The server answered with something in the error slot.
    RpcError { method: String, payload: WireValue },
    /// The stream ended while the call was outstanding, or had ended before.
    ConnectionLost,
    /// The response came, and its payload is not what the call returns.
    Decode(DecodeError),
}

impl View for NetworkError {
    type V = Failure;

    open spec fn view(&self) -> Failure {
        match self {
            NetworkError::ConnectError => Failure::Connect,
            NetworkError::TimeoutError { method, id } => Failure::Timeout {
                method: method@,
                id: *id,
            },
            NetworkError::RpcError { method, payload } => Failure::Rpc {
                method: method@,
                payload: payload@,
            },
            NetworkError::ConnectionLost => Failure::ConnectionLost,
            NetworkError::Decode(e) => Failure::Decode(*e),
        }
    }
}

/// What a call gives: its value, or why there is none.
pub type NetworkResult<T> = Result<T, NetworkError>;

/// What a call yielded, mathematically.
pub open spec fn outcome_view(outcome: Result<WireValue, NetworkError>) -> Result<Wire, Failure> {
    match outcome {
        Ok(value) => Ok(value@),
        Err(e) => Err(e@),
    }
}

/// What a typed reply is, mathematically.
pub open spec fn reply_view<T>(reply: Result<T, NetworkError>) -> Result<T, Failure> {
    match reply {
        Ok(value) => Ok(value),
        Err(e) => Err(e@),
    }
}

/// What a call returns whose payload is read as a `T`: the value read, the
/// decode error where the payload is no `T`, and the failure of the call
/// where there is no payload.
pub open spec fn typed_reply<T>(
    outcome: Result<Wire, Failure>,
    decoded: spec_fn(Wire) -> Result<T, DecodeError>,
) -> Result<T, Failure> {
    match outcome {
        Ok(value) => match decoded(value) {
            Ok(t) => Ok(t),
            Err(e) => Err(Failure::Decode(e)),
        },
        Err(e) => Err(e),
    }
}

} // verus!
