use vstd::prelude::*;

verus! {

/// Why an operation against the scheduling service failed.
#[derive(Debug, Clone, Copy, PartialEq, Eq, Structural)]
pub enum ScheduleError {
    /// The service could not be reached at all (DNS, TLS, timeout, ...).
    TransportError,
    /// The token exchange answered with a status other than 200.
    AuthenticationFailed { status: u16 },
    /// The appointment fetch answered with a status other than 200.
    ResponseError { status: u16 },
    /// A body did not parse as JSON or did not match the expected shape.
    MalformedResponse,
}

impl ScheduleError {
    /// A short description of the failure.
    pub fn message(&self) -> (r: &'static str)
        ensures
            *self is TransportError ==> r@ == "could not reach the service"@,
            *self is AuthenticationFailed ==> r@ == "response code is not 200"@,
            *self is ResponseError ==> r@ == "response code is not 200"@,
            *self is MalformedResponse ==> r@ == "response has an unexpected shape"@,
    {
        match self {
            ScheduleError::TransportError => "could not reach the service",
            ScheduleError::AuthenticationFailed { .. } => "response code is not 200",
            ScheduleError::ResponseError { .. } => "response code is not 200",
            ScheduleError::MalformedResponse => "response has an unexpected shape",
        }
    }
}

} // verus!
