//! The ways in which a call on the API can fail.

use vstd::prelude::*;

verus! {

/// Why a call gave no result.
#[derive(Debug, Clone, PartialEq, Eq)]
pub enum CallError {
    /// The body of the request could not be written as JSON.
    Serialization,
    /// The client could not carry the request; its own account of the failure.
    Transport(String),
    /// The service answered with a status of failure and said why.
    Api { status: u16, message: String },
    /// The body of the response is not JSON of the expected shape.
    Deserialization,
}

/// What a [`CallError`] says.
pub enum CallErrorView {
    Serialization,
    Transport(Seq<char>),
    Api { status: u16, message: Seq<char> },
    Deserialization,
}

impl View for CallError {
    type V = CallErrorView;

    open spec fn view(&self) -> CallErrorView {
        match *self {
            CallError::Serialization => CallErrorView::Serialization,
            CallError::Transport(reason) => CallErrorView::Transport(reason@),
            CallError::Api { status, message } => CallErrorView::Api { status, message: message@ },
            CallError::Deserialization => CallErrorView::Deserialization,
        }
    }
}

} // verus!
