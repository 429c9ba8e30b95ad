//! The client of a standalone server: every request goes to one endpoint,
//! scoped to the request's database or else to the client's default one.

use std::sync::Arc;
use vstd::prelude::*;

use crate::model::{Error, RpcContext};

verus! {

/// A client of a standalone server, reached through RPC clients that
/// `factory` makes.
pub struct RawImpl<F> {
    factory: Arc<F>,
    endpoint: String,
    default_database: Option<String>,
}

impl<F> RawImpl<F> {
    /// The factory of the RPC clients.
    pub closed spec fn factory_view(&self) -> Arc<F> {
        self.factory
    }

    /// The server's address.
    pub closed spec fn endpoint_view(&self) -> Seq<char> {
        self.endpoint@
    }

    /// The database used when a request names none.
    pub closed spec fn default_database_view(&self) -> Option<Seq<char>> {
        match self.default_database {
            Some(d) => Some(d@),
            None => None,
        }
    }

    pub fn new(factory: Arc<F>, endpoint: String, default_database: Option<String>) -> (r: Self)
        ensures
            r.factory_view() == factory,
            r.endpoint_view() == endpoint@,
            r.default_database_view() == match default_database {
                Some(d) => Some(d@),
                None => None::<Seq<char>>,
            },
    {
        RawImpl { factory, endpoint, default_database }
    }

    pub fn factory(&self) -> (r: &Arc<F>)
        ensures
            *r == self.factory_view(),
    {
        &self.factory
    }

    pub fn endpoint(&self) -> (r: &String)
        ensures
            r@ == self.endpoint_view(),
    {
        &self.endpoint
    }

    /// The context a request is sent with: its own database if it names one,
    /// else the default database; with neither, the request is refused.
    pub fn resolve_database(&self, ctx: &RpcContext) -> (r: Result<RpcContext, Error>)
        ensures
            match r {
                Ok(c) => {
                    &&& c.timeout_ms == ctx.timeout_ms
                    &&& c.database is Some
                    &&& c.database->Some_0@ == match ctx.database {
                        Some(d) => d@,
                        None => self.default_database_view()->Some_0,
                    }
                },
                Err(e) => {
                    &&& e == Error::InvalidContext
                    &&& ctx.database is None
                    &&& self.default_database_view() is None
                },
            },
            r is Err <==> (ctx.database is None && self.default_database_view() is None),
    {
        let database = match &ctx.database {
            Some(d) => d.clone(),
            None => match &self.default_database {
                Some(d) => d.clone(),
                None => {
                    return Err(Error::InvalidContext);
                },
            },
        };
        Ok(RpcContext { database: Some(database), timeout_ms: ctx.timeout_ms })
    }
}

} // verus!
