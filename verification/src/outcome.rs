//! Per-endpoint failures.
//!
//! A broadcast never fails as a whole: each endpoint settles on its own, and
//! a failure is captured in that endpoint's result slot. Two kinds are told
//! apart: the transport never delivered a well-formed response, or the remote
//! endpoint answered with an error of its own. The text is whatever the
//! transport or the endpoint reported; the dispatcher never inspects it.

use vstd::prelude::*;

verus! {

/// Why one endpoint's dispatch failed.
pub enum CallError {
    /// The request never yielded a well-formed response: connection failure,
    /// timeout, malformed address, HTTP-level failure.
    Transport(String),
    /// The endpoint returned a well-formed error response of its own.
    Rpc(String),
}

impl CallError {
    /// The reported text, as the transport or the endpoint gave it.
    pub fn message(&self) -> (m: &String)
        ensures
            self is Transport ==> m@ == self->Transport_0@,
            self is Rpc ==> m@ == self->Rpc_0@,
    {
        match self {
            CallError::Transport(m) => m,
            CallError::Rpc(m) => m,
        }
    }

    /// Whether the failure was a transport failure, as opposed to an error
    /// response from the endpoint itself.
    pub fn is_transport(&self) -> (r: bool)
        ensures
            r == (self is Transport),
    {
        match self {
            CallError::Transport(_) => true,
            CallError::Rpc(_) => false,
        }
    }
}

} // verus!
