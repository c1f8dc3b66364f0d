//! The endpoint registry: an ordered, immutable list of target addresses.
//!
//! A registry is grown by a builder (append only) and then frozen. Order is
//! significant: the result at index `i` of a broadcast is the outcome of the
//! endpoint registered at index `i`. Addresses are opaque strings; duplicates
//! are permitted and treated as distinct targets, and nothing is validated
//! here — a malformed address surfaces as that endpoint's transport error at
//! dispatch time.

use vstd::prelude::*;

verus! {

/// An ordered, immutable registry of endpoint addresses.
///
/// Its view is the sequence of addresses, in registration order.
pub struct Endpoints {
    urls: Vec<String>,
}

impl View for Endpoints {
    type V = Seq<Seq<char>>;

    closed spec fn view(&self) -> Seq<Seq<char>> {
        self.urls@.map_values(|u: String| u@)
    }
}

impl Endpoints {
    /// Start building a registry.
    pub fn builder() -> (b: EndpointsBuilder)
        ensures
            b@ == Seq::<Seq<char>>::empty(),
    {
        EndpointsBuilder::new()
    }

    /// The number of registered endpoints.
    pub fn len(&self) -> (n: usize)
        ensures
            n == self@.len(),
    {
        self.urls.len()
    }

    /// The address registered at position `i`.
    pub fn get(&self, i: usize) -> (url: &String)
        requires
            i < self@.len(),
        ensures
            url@ == self@[i as int],
    {
        &self.urls[i]
    }
}

/// Accumulates endpoint addresses and freezes them into an [`Endpoints`]
/// registry. Its view is the sequence of addresses added so far.
pub struct EndpointsBuilder {
    urls: Vec<String>,
}

impl View for EndpointsBuilder {
    type V = Seq<Seq<char>>;

    closed spec fn view(&self) -> Seq<Seq<char>> {
        self.urls@.map_values(|u: String| u@)
    }
}

impl EndpointsBuilder {
    /// An empty builder.
    pub fn new() -> (b: Self)
        ensures
            b@ == Seq::<Seq<char>>::empty(),
    {
        let b = EndpointsBuilder { urls: Vec::new() };
        proof {
            assert(b@ =~= Seq::<Seq<char>>::empty());
        }
        b
    }

    /// Append one endpoint address, returning the builder for chaining.
    ///
    /// No uniqueness or reachability check: a duplicate address is one more
    /// distinct target.
    pub fn endpoint(self, url: String) -> (b: Self)
        ensures
            b@ == self@.push(url@),
    {
        let mut urls = self.urls;
        let ghost before = urls@;
        urls.push(url);
        let b = EndpointsBuilder { urls };
        proof {
            assert(b@ =~= before.map_values(|u: String| u@).push(url@));
        }
        b
    }

    /// Freeze the accumulated addresses into an immutable registry.
    pub fn build(self) -> (e: Endpoints)
        ensures
            e@ == self@,
    {
        Endpoints { urls: self.urls }
    }
}

} // verus!
