use vstd::prelude::*;

verus! {

/// Everything that can go wrong on the client side.
#[derive(Debug, PartialEq, Eq)]
pub enum RemindmeError {
    /// A time expression that is neither `<n><unit>` nor one of the date formats.
    ParseTime(String),
    /// A number of seconds too large for a signed duration.
    TimeDeltaSec(u64),
    /// A number of minutes too large for a signed duration.
    TimeDeltaMin(u64),
    /// A number of hours too large for a signed duration.
    TimeDeltaH(u64),
    /// A number of days too large for a signed duration.
    TimeDeltaD(u64),
    /// A number of weeks too large for a signed duration.
    TimeDeltaW(u64),
    /// A failed request to the synchronization service.
    Reqwest(String),
    /// The external action exited unsuccessfully, with this code.
    CommandExit(i32),
    /// A local stream or process failure.
    IO(String),
}

pub type RemindmeResult<T> = Result<T, RemindmeError>;

/// The outcome of a refused service operation.
#[derive(Debug, Clone, Copy, PartialEq, Eq, Structural)]
pub enum ServiceError {
    /// Bad credentials or an unknown user: the two are never told apart.
    Unauthorized,
    /// The reminder to acknowledge is not pending for this user.
    NotFound,
}

} // verus!
