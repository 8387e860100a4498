//! The HTTP status codes that the service answers with.

use vstd::prelude::*;

verus! {

/// A status code of a response.
#[derive(Clone, Copy, Debug, PartialEq, Eq, Structural)]
pub enum StatusCode {
    /// 200
    Okay,
    /// 201
    Created,
    /// 204
    NoContent,
    /// 404
    NotFound,
    /// 408
    RequestTimeout,
    /// 500
    InternalServerError,
}

impl StatusCode {
    /// The number of each status code.
    pub open spec fn code(self) -> u16 {
        match self {
            StatusCode::Okay => 200,
            StatusCode::Created => 201,
            StatusCode::NoContent => 204,
            StatusCode::NotFound => 404,
            StatusCode::RequestTimeout => 408,
            StatusCode::InternalServerError => 500,
        }
    }

    /// The number that goes on the wire.
    pub fn as_u16(&self) -> (n: u16)
        ensures
            n == self.code(),
    {
        match self {
            StatusCode::Okay => 200,
            StatusCode::Created => 201,
            StatusCode::NoContent => 204,
            StatusCode::NotFound => 404,
            StatusCode::RequestTimeout => 408,
            StatusCode::InternalServerError => 500,
        }
    }
}

} // verus!
