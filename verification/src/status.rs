use vstd::prelude::*;

verus! {

/// How an error surfaces to the client, as an HTTP status code.
pub trait ToStatus {
    fn to_status(self) -> u16;
}

impl ToStatus for crate::sheets::Error {
    /// An absent resource is a 404, a failed ownership check a 403.
    fn to_status(self) -> (r: u16)
        ensures
            self == crate::sheets::Error::NotFound ==> r == 404,
            self == crate::sheets::Error::Forbidden ==> r == 403,
    {
        match self {
            crate::sheets::Error::NotFound => 404,
            crate::sheets::Error::Forbidden => 403,
        }
    }
}

impl ToStatus for crate::auth::Error {
    /// A storage- or entropy-level failure surfaces as an internal
    /// error.
    fn to_status(self) -> (r: u16)
        ensures
            r == 500,
    {
        match self {
            crate::auth::Error::Conflict => 500,
            crate::auth::Error::TokenUnavailable => 500,
        }
    }
}

impl ToStatus for crate::transport::SheetTransportValidationError {
    /// A sheet that fails validation is a bad request.
    fn to_status(self) -> (r: u16)
        ensures
            r == 400,
    {
        match self {
            crate::transport::SheetTransportValidationError::TitleEmpty => 400,
        }
    }
}

} // verus!
