//! What goes back to the client: a status and a body.

use vstd::prelude::*;
use crate::archive::PackError;
use crate::engine::SegmentationError;
use crate::request::UploadError;

verus! {

/// The path that uploads are posted to.
pub const SEGMENT_PATH: &'static str = "/ffmpeg";

/// The path of the liveness probe.
pub const HEALTH_PATH: &'static str = "/health";

/// The most bytes a request may have: two gibibytes.
pub const MAX_REQUEST_BYTES: u64 = 2147483648;

/// The status of a request that was served.
pub const STATUS_OK: u16 = 200;

/// The status of a request that the client got wrong.
pub const STATUS_BAD_REQUEST: u16 = 400;

/// The status of a request that failed on the server's side.
pub const STATUS_INTERNAL_ERROR: u16 = 500;

/// Everything that can go wrong with a request.
#[derive(Clone, Copy, Debug, PartialEq, Eq, Structural)]
pub enum ServiceError {
    /// The upload was turned away.
    Upload(UploadError),
    /// The segmentation was given up.
    Segmentation(SegmentationError),
    /// The archive could not be made.
    Pack(PackError),
}

/// A response: the status code and the body.
#[derive(Clone, Debug, PartialEq, Eq)]
pub struct Response {
    pub status: u16,
    pub body: Vec<u8>,
}

/// The status that an error is answered with: a faulty upload is the client's
/// fault, everything else the server's.
pub open spec fn spec_status(error: ServiceError) -> u16 {
    match error {
        ServiceError::Upload(_) => STATUS_BAD_REQUEST,
        ServiceError::Segmentation(_) => STATUS_INTERNAL_ERROR,
        ServiceError::Pack(_) => STATUS_INTERNAL_ERROR,
    }
}

/// The status that `error` is answered with.
pub fn status_of(error: ServiceError) -> (status: u16)
    ensures
        status == spec_status(error),
{
    match error {
        ServiceError::Upload(_) => STATUS_BAD_REQUEST,
        ServiceError::Segmentation(_) => STATUS_INTERNAL_ERROR,
        ServiceError::Pack(_) => STATUS_INTERNAL_ERROR,
    }
}

/// The response to an upload: the archive with status 200, or the status of
/// the error with an empty body, so that no detail of a failure leaves the server.
pub fn respond(outcome: Result<Vec<u8>, ServiceError>) -> (response: Response)
    ensures
        match outcome {
            Ok(archive) => response.status == STATUS_OK && response.body@ == archive@,
            Err(error) => response.status == spec_status(error) && response.body@.len() == 0,
        },
{
    match outcome {
        Ok(archive) => Response { status: STATUS_OK, body: archive },
        Err(error) => Response { status: status_of(error), body: Vec::new() },
    }
}

/// The response to the liveness probe: status 200 and an empty body, whatever else is going on.
pub fn health() -> (response: Response)
    ensures
        response.status == STATUS_OK,
        response.body@.len() == 0,
{
    Response { status: STATUS_OK, body: Vec::new() }
}

} // verus!
