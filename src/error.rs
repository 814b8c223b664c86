use vstd::prelude::*;

verus! {

/// The closed set of failures the response pipeline can meet.
#[derive(Debug, Clone, Copy, PartialEq, Eq, Structural)]
pub enum ServiceError {
    /// The content source could not be queried.
    SourceUnavailable,
    /// The content source answered with no candidates.
    EmptyResultSet,
    /// The configuration names a source the service does not know.
    InvalidSourceMode,
    /// The admission gate has been shut down.
    AdmissionClosed,
    /// The stream consumer went away; absorbed by the streaming task.
    ConsumerDisconnected,
}

/// The coarse signal a failure becomes at the transport boundary.
#[derive(Debug, Clone, Copy, PartialEq, Eq, Structural)]
pub enum TransportError {
    FetchFailed,
    BadConfiguration,
    /// Nothing is reported: the response is already under way.
    Silent,
}

pub open spec fn transport_of(e: ServiceError) -> TransportError {
    match e {
        ServiceError::SourceUnavailable => TransportError::FetchFailed,
        ServiceError::EmptyResultSet => TransportError::FetchFailed,
        ServiceError::AdmissionClosed => TransportError::FetchFailed,
        ServiceError::InvalidSourceMode => TransportError::BadConfiguration,
        ServiceError::ConsumerDisconnected => TransportError::Silent,
    }
}

impl ServiceError {
    /// Collapses a failure to the signal the transport reports.
    pub fn to_transport(&self) -> (r: TransportError)
        ensures
            r == transport_of(*self),
    {
        match self {
            ServiceError::SourceUnavailable => TransportError::FetchFailed,
            ServiceError::EmptyResultSet => TransportError::FetchFailed,
            ServiceError::AdmissionClosed => TransportError::FetchFailed,
            ServiceError::InvalidSourceMode => TransportError::BadConfiguration,
            ServiceError::ConsumerDisconnected => TransportError::Silent,
        }
    }
}

} // verus!
