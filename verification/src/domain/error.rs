use vstd::prelude::*;

verus! {

/// Stable machine-readable error codes returned to the user interface.
#[derive(Debug, Clone, Copy, PartialEq, Eq, Structural)]
pub enum ErrorCode {
    InvalidPath,
    InvalidSettings,
    PathNotFound,
    PathProtected,
    PermissionDenied,
    ScanAlreadyRunning,
    ScanCancelled,
    FilesystemError,
    HashError,
    TrashFailed,
    DeleteFailed,
    PlanExpired,
    PlanValidationFailed,
    CommandUnavailable,
    DiskInfoFailed,
    SerializationFailed,
    ApplicationRunning,
    InternalError,
}

/// An error reported by a command: a code, a human-readable message, whether
/// the user can recover, and optional path and technical details.
#[derive(Debug, Clone)]
pub struct CommandError {
    pub code: ErrorCode,
    pub message: String,
    pub recoverable: bool,
    pub path: Option<String>,
    pub details: Option<String>,
}

impl CommandError {
    /// A new error without path or details.
    pub fn new(code: ErrorCode, message: &str, recoverable: bool) -> (e: Self)
        ensures
            e.code == code,
            e.message@ == message@,
            e.recoverable == recoverable,
            e.path is None,
            e.details is None,
    {
        CommandError {
            code,
            message: String::from_str(message),
            recoverable,
            path: None,
            details: None,
        }
    }

    /// The same error, now naming the path it concerns.
    pub fn with_path(self, path: &str) -> (e: Self)
        ensures
            e.code == self.code,
            e.message == self.message,
            e.recoverable == self.recoverable,
            e.path matches Some(p) && p@ == path@,
            e.details == self.details,
    {
        let mut e = self;
        e.path = Some(String::from_str(path));
        e
    }

    /// The same error, now carrying technical details.
    pub fn with_details(self, details: &str) -> (e: Self)
        ensures
            e.code == self.code,
            e.message == self.message,
            e.recoverable == self.recoverable,
            e.path == self.path,
            e.details matches Some(d) && d@ == details@,
    {
        let mut e = self;
        e.details = Some(String::from_str(details));
        e
    }

    /// An identical copy of the error.
    pub fn clone_error(&self) -> (e: Self)
        ensures
            e == *self,
    {
        CommandError {
            code: self.code,
            message: self.message.clone(),
            recoverable: self.recoverable,
            path: match &self.path {
                Some(p) => Some(p.clone()),
                None => None,
            },
            details: match &self.details {
                Some(d) => Some(d.clone()),
                None => None,
            },
        }
    }

    /// A recoverable internal error carrying the given details.
    pub fn internal(details: &str) -> (e: Self)
        ensures
            e.code == ErrorCode::InternalError,
            e.message@ == "An internal local error occurred."@,
            e.recoverable,
            e.path is None,
            e.details matches Some(d) && d@ == details@,
    {
        Self::new(ErrorCode::InternalError, "An internal local error occurred.", true).with_details(details)
    }
}

} // verus!
