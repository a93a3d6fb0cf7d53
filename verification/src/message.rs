//! The decoded messages of the exchange. Framing and byte layout belong to
//! the packet channel; these are the values it hands over.

use vstd::prelude::*;

verus! {

/// The request that opens the exchange.
#[derive(Debug)]
pub struct PrepareRequest<'a> {
    pub sql: &'a str,
}

impl<'a> PrepareRequest<'a> {
    pub fn new(sql: &'a str) -> (request: Self)
        ensures
            request.sql == sql,
    {
        PrepareRequest { sql }
    }
}

/// The success payload of the response.
#[derive(Clone, Copy, Debug, PartialEq, Eq)]
pub struct PrepareOk {
    pub statement_handle: u32,
    pub parameter_count: u16,
    pub column_count: u16,
    pub warning_count: u16,
}

/// The error payload of the response.
#[derive(Clone, Debug, PartialEq, Eq)]
pub struct ServerError {
    pub code: u16,
    pub message: String,
}

/// The response to the request: a success or an error.
#[derive(Clone, Debug, PartialEq, Eq)]
pub enum PrepareResponse {
    Success(PrepareOk),
    Error(ServerError),
}

impl PrepareResponse {
    pub open spec fn as_result(self) -> Result<PrepareOk, ServerError> {
        match self {
            PrepareResponse::Success(ok) => Ok(ok),
            PrepareResponse::Error(error) => Err(error),
        }
    }

    pub fn into_result(self) -> (result: Result<PrepareOk, ServerError>)
        ensures
            result == self.as_result(),
    {
        match self {
            PrepareResponse::Success(ok) => Ok(ok),
            PrepareResponse::Error(error) => Err(error),
        }
    }
}

/// A column-definition packet. Parameters and result columns are both
/// described by packets of this shape.
#[derive(Clone, Debug, PartialEq, Eq)]
pub struct ColumnDefinition {
    pub name: String,
    pub collation: u16,
    pub max_size: u32,
    pub type_tag: u8,
    pub flags: u16,
    pub decimals: u8,
}

} // verus!
