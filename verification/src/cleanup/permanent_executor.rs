use vstd::prelude::*;
use crate::domain::error::{CommandError, ErrorCode};
use crate::domain::finding::FindingType;
use crate::scanner::walker::FsError;

verus! {

/// What a stat of an item, without following links, said it is.
#[derive(Debug, Clone, Copy, PartialEq, Eq, Structural)]
pub enum ItemKind {
    Symlink,
    File,
    Directory,
    Other,
}

/// How an item is to be removed.
#[derive(Debug, Clone, Copy, PartialEq, Eq, Structural)]
pub enum Removal {
    RemoveFile,
    RemoveDirectoryTree,
}

/// The error for a failed permanent deletion; no retry is made.
pub fn delete_error(path: &str, details: &str) -> (e: CommandError)
    ensures
        e.code == ErrorCode::DeleteFailed,
        e.message@ == "The item could not be permanently deleted. No retry was attempted."@,
        !e.recoverable,
        e.path matches Some(p) && p@ == path@,
        e.details matches Some(d) && d@ == details@,
{
    CommandError::new(ErrorCode::DeleteFailed, "The item could not be permanently deleted. No retry was attempted.", false)
        .with_path(path).with_details(details)
}

/// How to delete an item permanently, from what its stat said: a link is
/// never followed, and the item must still be of the expected type.
pub fn permanent_removal(path: &str, stat: Result<ItemKind, FsError>, expected_type: FindingType) -> (r: Result<Removal, CommandError>)
    ensures
        match stat {
            Err(e) => r matches Err(err) && err.code == ErrorCode::DeleteFailed && (err.details matches Some(d) && d@ == e.details@),
            Ok(ItemKind::Symlink) => r matches Err(err) && err.code == ErrorCode::PlanValidationFailed
                && err.message@ == "Symbolic links are not supported by permanent deletion."@ && !err.recoverable,
            Ok(kind) => if expected_type == FindingType::File && kind == ItemKind::File {
                r == Ok::<Removal, CommandError>(Removal::RemoveFile)
            } else if expected_type == FindingType::Directory && kind == ItemKind::Directory {
                r == Ok::<Removal, CommandError>(Removal::RemoveDirectoryTree)
            } else {
                r matches Err(err) && err.code == ErrorCode::PlanValidationFailed
                    && err.message@ == "The permanent-delete item type changed during execution."@ && !err.recoverable
            },
        },
{
    match stat {
        Err(e) => Err(delete_error(path, e.details.as_str())),
        Ok(ItemKind::Symlink) => Err(CommandError::new(ErrorCode::PlanValidationFailed, "Symbolic links are not supported by permanent deletion.", false).with_path(path)),
        Ok(kind) => {
            if expected_type == FindingType::File && kind == ItemKind::File {
                Ok(Removal::RemoveFile)
            } else if expected_type == FindingType::Directory && kind == ItemKind::Directory {
                Ok(Removal::RemoveDirectoryTree)
            } else {
                Err(CommandError::new(ErrorCode::PlanValidationFailed, "The permanent-delete item type changed during execution.", false).with_path(path))
            }
        },
    }
}

} // verus!
