use vstd::prelude::*;
use crate::domain::error::{CommandError, ErrorCode};
use crate::paths::{path_starts_with, path_starts_with_exec, PathStyle};
use crate::text::{chars_of, contains_chars, has_infix, lower, lower_chars};

verus! {

/// App data that macOS keeps private to its owner: anything under a
/// `/Library/Containers/` or `/Library/Group Containers/` folder.
pub open spec fn is_private_application_data(path: Seq<char>) -> bool {
    has_infix(path, "/Library/Containers/"@) || has_infix(path, "/Library/Group Containers/"@)
}

pub fn is_private_application_data_exec(path: &str) -> (r: bool)
    ensures
        r == is_private_application_data(path@),
{
    crate::text::contains_text(path, "/Library/Containers/") || crate::text::contains_text(path, "/Library/Group Containers/")
}

/// The system's description says access was denied.
pub open spec fn says_permission_denied(lowered: Seq<char>) -> bool {
    has_infix(lowered, "permission denied"@) || has_infix(lowered, "operation not permitted"@)
        || has_infix(lowered, "access denied"@) || has_infix(lowered, "os error 1"@)
        || has_infix(lowered, "os error 13"@)
}

/// The system's description says the item is in use.
pub open spec fn says_in_use(lowered: Seq<char>) -> bool {
    has_infix(lowered, "resource busy"@) || has_infix(lowered, "device or resource busy"@)
        || has_infix(lowered, "being used"@) || has_infix(lowered, "in use"@)
}

/// The code and message for a failed move to Trash: private app data, an
/// application, or another item that macOS denied; an item in use; or
/// another failure.
pub open spec fn trash_failure(path: Seq<char>, details: Seq<char>) -> (ErrorCode, Seq<char>) {
    let l = lower(details);
    if says_permission_denied(l) && is_private_application_data(path) {
        (ErrorCode::PermissionDenied, "macOS blocked access to this app data. Quit the app and grant DiskSage Full Disk Access in System Settings > Privacy & Security, then review the uninstall again."@)
    } else if says_permission_denied(l) && path_starts_with(path, "/Applications"@, PathStyle::Posix) {
        (ErrorCode::PermissionDenied, "macOS denied permission to move this application. Quit the app and grant DiskSage Full Disk Access; administrator-owned apps may need to be moved with Finder."@)
    } else if says_permission_denied(l) {
        (ErrorCode::PermissionDenied, "macOS denied access to this item. Grant DiskSage Full Disk Access in System Settings > Privacy & Security, then try again."@)
    } else if says_in_use(l) {
        (ErrorCode::TrashFailed, "This item is currently in use. Close the application using it, then review the cleanup again."@)
    } else {
        (ErrorCode::TrashFailed, "macOS could not move this item to Trash. Close the related application and try again; if it still fails, review the item in Finder."@)
    }
}

fn has(l: &Vec<char>, needle: &str) -> (r: bool)
    ensures
        r == has_infix(l@, needle@),
{
    let n = chars_of(needle);
    contains_chars(l.as_slice(), n.as_slice())
}

/// The error for a failed move to Trash, from the system's description of the
/// failure; it names the item and keeps the description as details.
pub fn classify_trash_error(path: &str, details: &str) -> (e: CommandError)
    ensures
        e.code == trash_failure(path@, details@).0,
        e.message@ == trash_failure(path@, details@).1,
        e.recoverable,
        e.path matches Some(p) && p@ == path@,
        e.details matches Some(d) && d@ == details@,
{
    let l = lower_chars(chars_of(details).as_slice());
    let permission_denied = has(&l, "permission denied") || has(&l, "operation not permitted")
        || has(&l, "access denied") || has(&l, "os error 1") || has(&l, "os error 13");
    let item_in_use = has(&l, "resource busy") || has(&l, "device or resource busy")
        || has(&l, "being used") || has(&l, "in use");
    let (code, message) = if permission_denied && is_private_application_data_exec(path) {
        (ErrorCode::PermissionDenied, "macOS blocked access to this app data. Quit the app and grant DiskSage Full Disk Access in System Settings > Privacy & Security, then review the uninstall again.")
    } else if permission_denied && path_starts_with_exec(path, "/Applications", PathStyle::Posix) {
        (ErrorCode::PermissionDenied, "macOS denied permission to move this application. Quit the app and grant DiskSage Full Disk Access; administrator-owned apps may need to be moved with Finder.")
    } else if permission_denied {
        (ErrorCode::PermissionDenied, "macOS denied access to this item. Grant DiskSage Full Disk Access in System Settings > Privacy & Security, then try again.")
    } else if item_in_use {
        (ErrorCode::TrashFailed, "This item is currently in use. Close the application using it, then review the cleanup again.")
    } else {
        (ErrorCode::TrashFailed, "macOS could not move this item to Trash. Close the related application and try again; if it still fails, review the item in Finder.")
    };
    CommandError::new(code, message, true).with_path(path).with_details(details)
}

} // verus!
