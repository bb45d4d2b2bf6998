//! The status codes of replies, and refusals with a message.
use crate::observation::ObservationError;
use vstd::prelude::*;

verus! {

pub const CREATED: u16 = 201;

pub const ACCEPTED: u16 = 202;

pub const BAD_REQUEST: u16 = 400;

pub const UNAUTHORIZED: u16 = 401;

pub const FORBIDDEN: u16 = 403;

pub const NOT_FOUND: u16 = 404;

pub const CONFLICT: u16 = 409;

pub const PAYLOAD_TOO_LARGE: u16 = 413;

pub const UNSUPPORTED_MEDIA_TYPE: u16 = 415;

pub const TOO_MANY_REQUESTS: u16 = 429;

pub const INTERNAL_SERVER_ERROR: u16 = 500;

pub const BAD_GATEWAY: u16 = 502;

/// A refused request: the status code and the message of the reply.
#[derive(Debug, Clone, PartialEq, Eq)]
pub struct ApiError {
    pub status: u16,
    pub message: String,
}

impl ApiError {
    /// The refusal has this status and this message.
    pub open spec fn says(&self, status: u16, message: Seq<char>) -> bool {
        self.status == status && self.message@ == message
    }

    /// A refusal with a status and a message.
    pub fn new(status: u16, message: &str) -> (r: Self)
        ensures
            r.says(status, message@),
    {
        ApiError { status, message: message.to_owned() }
    }

    /// The refusal of a request that could not be stored.
    pub fn of_storage(error: &ObservationError) -> (r: Self)
        ensures
            r.says(INTERNAL_SERVER_ERROR, error.says()),
    {
        ApiError { status: INTERNAL_SERVER_ERROR, message: error.message() }
    }
}

/// A refusal has the status and the message that it is made with; one of a storage that failed has
/// the status 500 and the message of the error.
pub proof fn a_refusal_has_its_status_and_message(
    status: u16,
    message: &str,
    r: ApiError,
    error: &ObservationError,
    storage: ApiError,
)
    requires
        call_ensures(ApiError::new, (status, message), r),
        call_ensures(ApiError::of_storage, (error,), storage),
    ensures
        r.status == status,
        r.message@ == message@,
        storage.status == 500,
        storage.message@ == error.says(),
{
}

} // verus!
