//! Plain data shared by the router and the clients: endpoints, request
//! contexts and errors.

use vstd::prelude::*;

verus! {

/// What an endpoint stands for: its host address and its port.
pub type EndpointView = (Seq<char>, u32);

/// A network address of a server instance.
#[derive(Debug, Clone, PartialEq, Eq)]
pub struct Endpoint {
    pub addr: String,
    pub port: u32,
}

impl View for Endpoint {
    type V = EndpointView;

    open spec fn view(&self) -> EndpointView {
        (self.addr@, self.port)
    }
}

impl Endpoint {
    pub fn new(addr: String, port: u32) -> (r: Endpoint)
        ensures
            r@ == (addr@, port),
    {
        Endpoint { addr, port }
    }

    /// A copy of this endpoint, field by field.
    pub fn duplicate(&self) -> (r: Endpoint)
        ensures
            r@ == self@,
    {
        Endpoint { addr: self.addr.clone(), port: self.port }
    }
}

/// The view of an optional endpoint.
pub open spec fn opt_view(o: Option<Endpoint>) -> Option<EndpointView> {
    match o {
        Some(e) => Some(e@),
        None => None,
    }
}

/// The scope of a request: the database it addresses and, if any, a bound on
/// how long the remote call may take, in milliseconds.
#[derive(Debug, Clone)]
pub struct RpcContext {
    pub database: Option<String>,
    pub timeout_ms: Option<u64>,
}

/// Why a request failed.
#[derive(Debug, Clone, PartialEq, Eq)]
pub enum Error {
    /// The request carries no database, and no default one is configured.
    InvalidContext,
    /// The route service answered with a table that was not asked for.
    UnexpectedRouteEntry(String),
    /// The remote call did not complete.
    Transport(String),
    /// The remote call did not complete in time.
    Timeout,
}

} // verus!
