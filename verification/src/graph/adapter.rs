//! Pieces of the Graph adapter that do not touch the network: its
//! construction error and the source of access tokens.

use vstd::prelude::*;

use crate::graph::error::GraphInternalError;

verus! {

/// Errors constructing the adapter.
#[derive(Debug)]
pub enum GraphAdapterError {
    /// The HTTP client could not be built; the builder's message.
    ClientBuild(String),
}

impl GraphAdapterError {
    /// The error's message.
    pub fn message(&self) -> (s: String)
        ensures
            match self {
                GraphAdapterError::ClientBuild(m) => s@ == "failed to build HTTP client: "@ + m@,
            },
    {
        match self {
            GraphAdapterError::ClientBuild(m) => String::from_str("failed to build HTTP client: ").concat(
                m.as_str(),
            ),
        }
    }
}

/// Where the adapter gets the bearer token of each request.
pub trait TokenSource {
    /// A currently valid access token.
    fn access_token(&self) -> Result<String, GraphInternalError>;
}

/// A token source that always hands out the same token.
#[derive(Debug, Clone)]
pub struct FixedTokenSource(pub String);

impl TokenSource for FixedTokenSource {
    /// The fixed token.
    fn access_token(&self) -> (r: Result<String, GraphInternalError>)
        ensures
            r matches Ok(t) && t@ == self.0@,
    {
        Ok(self.0.clone())
    }
}

} // verus!
