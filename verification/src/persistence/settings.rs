use vstd::prelude::*;
use crate::domain::error::{CommandError, ErrorCode};
use crate::domain::settings::{default_settings, settings_failure, AppSettings};
use crate::persistence::common::{operation_details, operation_error};
use crate::scanner::walker::FsErrorKind;

verus! {

/// The settings file.
#[derive(Debug, Clone)]
pub struct SettingsRepository {
    pub path: String,
}

impl SettingsRepository {
    pub fn new(path: &str) -> (r: Self)
        ensures
            r.path@ == path@,
    {
        SettingsRepository { path: String::from_str(path) }
    }

    /// The settings when no file exists yet: the safe defaults.
    pub fn missing_file_settings() -> (s: AppSettings)
        ensures
            default_settings(s),
    {
        AppSettings::default()
    }

    /// The settings read from the file: `decoded` is the decoded content, or
    /// the decoder's description of why it could not be decoded. A file that
    /// cannot be decoded is reported and left unchanged; decoded settings must
    /// still pass validation.
    pub fn accept_loaded(decoded: Result<AppSettings, String>) -> (r: Result<AppSettings, CommandError>)
        ensures
            match decoded {
                Err(d) => r matches Err(e) && e.code == ErrorCode::SerializationFailed
                    && e.message@ == "Local settings are unreadable. The file was left unchanged."@
                    && e.recoverable && (e.details matches Some(x) && x@ == d@),
                Ok(s) => match settings_failure(s) {
                    None => r == Ok::<AppSettings, CommandError>(s),
                    Some(m) => r matches Err(e) && e.code == ErrorCode::InvalidSettings && e.message@ == m,
                },
            },
    {
        match decoded {
            Err(d) => Err(CommandError::new(ErrorCode::SerializationFailed, "Local settings are unreadable. The file was left unchanged.", true)
                .with_details(d.as_str())),
            Ok(s) => {
                match s.validate() {
                    Ok(()) => Ok(s),
                    Err(e) => Err(e),
                }
            },
        }
    }

    /// The error for a settings path without a parent directory.
    pub fn location_error() -> (e: CommandError)
        ensures
            e.code == ErrorCode::SerializationFailed,
            e.message@ == "Settings location is invalid."@,
            !e.recoverable,
    {
        CommandError::new(ErrorCode::SerializationFailed, "Settings location is invalid.", false)
    }

    /// The error for settings that could not be encoded.
    pub fn encoding_error(details: &str) -> (e: CommandError)
        ensures
            e.code == ErrorCode::SerializationFailed,
            e.message@ == "Settings could not be encoded."@,
            e.recoverable,
            e.details matches Some(d) && d@ == details@,
    {
        CommandError::new(ErrorCode::SerializationFailed, "Settings could not be encoded.", true).with_details(details)
    }

    /// The error for failed access to the settings file.
    pub fn io_error(operation: &str, kind: FsErrorKind, details: &str) -> (e: CommandError)
        ensures
            e.code == (if kind == FsErrorKind::PermissionDenied { ErrorCode::PermissionDenied } else { ErrorCode::FilesystemError }),
            e.message@ == "Local settings could not be accessed."@,
            e.recoverable,
            e.details matches Some(d) && d@ == operation_details(operation@, details@),
    {
        let code = if kind == FsErrorKind::PermissionDenied { ErrorCode::PermissionDenied } else { ErrorCode::FilesystemError };
        operation_error(code, "Local settings could not be accessed.", operation, details)
    }
}

} // verus!
