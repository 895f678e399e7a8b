use vstd::prelude::*;

verus! {

/// What went wrong with a request.
#[derive(Debug, Clone, Copy, PartialEq, Eq, Structural)]
pub enum ErrorKind {
    /// No task has the given id.
    NotFound(u32),
    /// The request did not have the expected shape.
    InvalidInput,
    /// The store could not do the work (for instance, the ids ran out).
    Internal,
}

/// The failure of one request, as reported to its caller.
#[derive(Debug, Clone, Copy, PartialEq, Eq, Structural)]
pub struct AppError {
    pub kind: ErrorKind,
}

/// HTTP status for a request that named no existing task.
pub const STATUS_NOT_FOUND: u16 = 404;

/// HTTP status for a request whose body had the wrong shape.
pub const STATUS_BAD_REQUEST: u16 = 400;

/// HTTP status for a failure inside the store.
pub const STATUS_INTERNAL: u16 = 500;

/// The status that a failure of the given kind is reported with.
pub open spec fn status_of(kind: ErrorKind) -> u16 {
    match kind {
        ErrorKind::NotFound(_) => STATUS_NOT_FOUND,
        ErrorKind::InvalidInput => STATUS_BAD_REQUEST,
        ErrorKind::Internal => STATUS_INTERNAL,
    }
}

impl AppError {
    pub fn not_found(id: u32) -> (e: AppError)
        ensures
            e.kind == ErrorKind::NotFound(id),
    {
        AppError { kind: ErrorKind::NotFound(id) }
    }

    pub fn invalid_input() -> (e: AppError)
        ensures
            e.kind == ErrorKind::InvalidInput,
    {
        AppError { kind: ErrorKind::InvalidInput }
    }

    pub fn internal() -> (e: AppError)
        ensures
            e.kind == ErrorKind::Internal,
    {
        AppError { kind: ErrorKind::Internal }
    }

    /// The HTTP status that this failure is answered with. A missing task is a
    /// client error, a malformed body a bad request; anything else is a
    /// generic server error that says nothing of the store's state.
    pub fn status_code(&self) -> (s: u16)
        ensures
            s == status_of(self.kind),
    {
        match self.kind {
            ErrorKind::NotFound(_) => STATUS_NOT_FOUND,
            ErrorKind::InvalidInput => STATUS_BAD_REQUEST,
            ErrorKind::Internal => STATUS_INTERNAL,
        }
    }

    /// Whether this failure says that a task was missing.
    pub fn is_not_found(&self) -> (b: bool)
        ensures
            b == (self.kind is NotFound),
    {
        match self.kind {
            ErrorKind::NotFound(_) => true,
            _ => false,
        }
    }
}

} // verus!
