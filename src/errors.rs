use vstd::prelude::*;

verus! {

/// The closed set of failures that reach a caller.
#[derive(Debug, Clone, Copy, PartialEq, Eq, Structural)]
pub enum AppError {
    NotFound,
    InternalServerError,
    NotImplementedError,
}

/// A failure of the task store: the connection or the statement failed,
/// or a constraint (such as the exhaustion of ids) was violated.
#[derive(Debug, Clone, Copy, PartialEq, Eq, Structural)]
pub enum StorageError {
    Unavailable,
    ConstraintViolation,
}

/// What went wrong, before it is classified.
#[derive(Debug, Clone, Copy, PartialEq, Eq, Structural)]
pub enum Condition {
    /// The requested resource or route does not exist.
    Missing,
    /// The task store failed.
    Storage(StorageError),
    /// A deliberately unfinished operation was invoked.
    Unimplemented,
    /// Any other unexpected failure during processing.
    Unexpected,
}

/// The transport status of each kind: one row per variant, no fallthrough.
pub open spec fn status_of(e: AppError) -> u16 {
    match e {
        AppError::NotFound => 404,
        AppError::InternalServerError => 500,
        AppError::NotImplementedError => 501,
    }
}

/// The fixed human-readable message of each kind.
pub open spec fn message_of(e: AppError) -> Seq<char> {
    match e {
        AppError::NotFound => "Not Found"@,
        AppError::InternalServerError => "Internal Server Error"@,
        AppError::NotImplementedError => "Not Implemented"@,
    }
}

/// The kind that each condition is classified as.
pub open spec fn classify_spec(c: Condition) -> AppError {
    match c {
        Condition::Missing => AppError::NotFound,
        Condition::Storage(_) => AppError::InternalServerError,
        Condition::Unimplemented => AppError::NotImplementedError,
        Condition::Unexpected => AppError::InternalServerError,
    }
}

impl AppError {
    /// The HTTP status code with which this error is rendered.
    pub fn status_code(&self) -> (r: u16)
        ensures
            r == status_of(*self),
    {
        match self {
            AppError::NotFound => 404,
            AppError::InternalServerError => 500,
            AppError::NotImplementedError => 501,
        }
    }

    /// The fixed message of this error.
    pub fn message(&self) -> (r: &'static str)
        ensures
            r@ == message_of(*self),
    {
        match self {
            AppError::NotFound => {
                proof { reveal_strlit("Not Found"); }
                "Not Found"
            },
            AppError::InternalServerError => {
                proof { reveal_strlit("Internal Server Error"); }
                "Internal Server Error"
            },
            AppError::NotImplementedError => {
                proof { reveal_strlit("Not Implemented"); }
                "Not Implemented"
            },
        }
    }

    /// Classifies a failure condition.
    pub fn classify(c: Condition) -> (r: AppError)
        ensures
            r == classify_spec(c),
    {
        match c {
            Condition::Missing => AppError::NotFound,
            Condition::Storage(_) => AppError::InternalServerError,
            Condition::Unimplemented => AppError::NotImplementedError,
            Condition::Unexpected => AppError::InternalServerError,
        }
    }

    /// A store failure as it reaches a caller: always an internal error.
    pub fn from_storage(e: StorageError) -> (r: AppError)
        ensures
            r == classify_spec(Condition::Storage(e)),
            r == AppError::InternalServerError,
    {
        AppError::classify(Condition::Storage(e))
    }
}

/// Every kind has exactly one status, among 404, 500 and 501, and no two
/// kinds share one: the status determines the kind.
pub proof fn lemma_status_table(a: AppError, b: AppError)
    ensures
        status_of(a) == 404 || status_of(a) == 500 || status_of(a) == 501,
        status_of(a) == 404 <==> a == AppError::NotFound,
        status_of(a) == 500 <==> a == AppError::InternalServerError,
        status_of(a) == 501 <==> a == AppError::NotImplementedError,
        status_of(a) == status_of(b) <==> a == b,
{
}

} // verus!
