//! The request template: one RPC method invocation, replayable against any
//! endpoint.
//!
//! An [`RpcCall`] is a method name together with an ordered list of
//! parameters, each already serialized by the caller (a bundle travels as
//! opaque text). It carries no target address: the address is supplied at
//! dispatch time, so one call can be replayed, unchanged, against every
//! endpoint of a registry.

use vstd::prelude::*;
use vstd::string::StringExecFns;

verus! {

/// The mathematical value of an [`RpcCall`]: the method name and the
/// parameters, as sequences of characters.
pub ghost struct RpcCallView {
    pub method: Seq<char>,
    pub params: Seq<Seq<char>>,
}

/// One RPC method invocation: a method name plus ordered, pre-serialized
/// parameters. Immutable once constructed.
pub struct RpcCall {
    method: String,
    params: Vec<String>,
}

impl View for RpcCall {
    type V = RpcCallView;

    closed spec fn view(&self) -> RpcCallView {
        RpcCallView {
            method: self.method@,
            params: self.params@.map_values(|p: String| p@),
        }
    }
}

impl Clone for RpcCall {
    /// A clone carries the same method and parameters; nothing is re-encoded.
    fn clone(&self) -> (c: Self)
        ensures
            c@ == self@,
    {
        let c = RpcCall { method: self.method.clone(), params: clone_params(&self.params) };
        proof {
            assert(c@ == self@);
        }
        c
    }
}

/// Clone a parameter list element by element, keeping every value.
fn clone_params(params: &Vec<String>) -> (c: Vec<String>)
    ensures
        c@ == params@,
{
    let mut c: Vec<String> = Vec::new();
    let mut i: usize = 0;
    while i < params.len()
        invariant
            i <= params@.len(),
            c@ == params@.take(i as int),
        decreases params@.len() - i,
    {
        c.push(params[i].clone());
        i = i + 1;
        proof {
            assert(c@ =~= params@.take(i as int));
        }
    }
    proof {
        assert(params@.take(params@.len() as int) =~= params@);
    }
    c
}

impl RpcCall {
    /// Form a call from a method name and its pre-serialized parameters.
    pub fn new(method: String, params: Vec<String>) -> (c: Self)
        ensures
            c@.method == method@,
            c@.params.len() == params@.len(),
            forall|i: int| 0 <= i < params@.len() ==> c@.params[i] == params@[i]@,
    {
        RpcCall { method, params }
    }

    /// The method name.
    pub fn method(&self) -> (m: &String)
        ensures
            m@ == self@.method,
    {
        &self.method
    }

    /// How many parameters the call carries.
    pub fn params_len(&self) -> (n: usize)
        ensures
            n == self@.params.len(),
    {
        self.params.len()
    }

    /// The parameter at position `i`.
    pub fn param(&self, i: usize) -> (p: &String)
        requires
            i < self@.params.len(),
        ensures
            p@ == self@.params[i as int],
    {
        &self.params[i]
    }

    /// The call that submits a bundle: method `eth_sendBundle` with the
    /// serialized bundle as its one parameter.
    pub fn send_bundle(bundle: String) -> (c: Self)
        ensures
            c@.method == "eth_sendBundle"@,
            c@.params == seq![bundle@],
    {
        Self::single_param(String::from_str("eth_sendBundle"), bundle)
    }

    /// The call that simulates a bundle: method `eth_callBundle` with the
    /// serialized bundle as its one parameter.
    pub fn call_bundle(bundle: String) -> (c: Self)
        ensures
            c@.method == "eth_callBundle"@,
            c@.params == seq![bundle@],
    {
        Self::single_param(String::from_str("eth_callBundle"), bundle)
    }

    /// The call that cancels a bundle: method `eth_cancelBundle` with the
    /// serialized cancellation request as its one parameter.
    pub fn cancel_bundle(request: String) -> (c: Self)
        ensures
            c@.method == "eth_cancelBundle"@,
            c@.params == seq![request@],
    {
        Self::single_param(String::from_str("eth_cancelBundle"), request)
    }

    /// The call that submits a private transaction: method
    /// `eth_sendPrivateTransaction` with the serialized request as its one
    /// parameter.
    pub fn send_private_transaction(request: String) -> (c: Self)
        ensures
            c@.method == "eth_sendPrivateTransaction"@,
            c@.params == seq![request@],
    {
        Self::single_param(String::from_str("eth_sendPrivateTransaction"), request)
    }

    /// A call with exactly one parameter.
    fn single_param(method: String, param: String) -> (c: Self)
        ensures
            c@.method == method@,
            c@.params == seq![param@],
    {
        let ghost param_view = param@;
        let mut params: Vec<String> = Vec::new();
        params.push(param);
        let c = RpcCall { method, params };
        proof {
            assert(c@.params =~= seq![param_view]);
        }
        c
    }
}

} // verus!
