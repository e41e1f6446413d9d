use vstd::prelude::*;
use crate::domain::cleanup::CleanupSummary;
use crate::domain::error::{CommandError, ErrorCode};
use crate::persistence::common::{operation_details, operation_error, page, page_of};
use crate::scanner::walker::FsErrorKind;

verus! {

/// The cleanup history: one recorded cleanup per line of a file.
#[derive(Debug, Clone)]
pub struct HistoryRepository {
    pub path: String,
}

/// The most history entries one page holds.
pub const MAX_HISTORY_PAGE: usize = 200;

impl HistoryRepository {
    pub fn new(path: &str) -> (r: Self)
        ensures
            r.path@ == path@,
    {
        HistoryRepository { path: String::from_str(path) }
    }

    /// A history page holds between 1 and 200 entries.
    pub fn check_page_size(limit: usize) -> (r: Result<(), CommandError>)
        ensures
            (1 <= limit <= MAX_HISTORY_PAGE) <==> r is Ok,
            r matches Err(e) ==> e.code == ErrorCode::InvalidPath && e.message@ == "History page size must be between 1 and 200."@,
    {
        if limit == 0 || limit > MAX_HISTORY_PAGE {
            return Err(CommandError::new(ErrorCode::InvalidPath, "History page size must be between 1 and 200.", true));
        }
        Ok(())
    }

    /// A page of the history, newest entry first; `entries` are in recorded order.
    pub fn newest_first(entries: Vec<CleanupSummary>, offset: usize, limit: usize) -> (r: Vec<CleanupSummary>)
        ensures
            r@ == page(entries@.reverse(), offset as int, limit as int),
    {
        let ghost all = entries@;
        let mut rest = entries;
        let mut reversed: Vec<CleanupSummary> = Vec::new();
        while rest.len() > 0
            invariant
                rest@.len() <= all.len(),
                rest@ == all.subrange(0, rest@.len() as int),
                reversed@ == all.subrange(rest@.len() as int, all.len() as int).reverse(),
            decreases rest.len(),
        {
            let x = rest.pop().unwrap();
            let ghost before = reversed@;
            reversed.push(x);
            assert(rest@ =~= all.subrange(0, rest@.len() as int));
            assert(reversed@ =~= all.subrange(rest@.len() as int, all.len() as int).reverse());
        }
        assert(all.subrange(0, all.len() as int) =~= all);
        page_of(reversed, offset, limit)
    }

    /// The error for failed access to the history file.
    pub fn io_error(operation: &str, kind: FsErrorKind, details: &str) -> (e: CommandError)
        ensures
            e.code == (if kind == FsErrorKind::PermissionDenied { ErrorCode::PermissionDenied } else { ErrorCode::FilesystemError }),
            e.message@ == "Local cleanup history could not be accessed."@,
            e.recoverable,
            e.details matches Some(d) && d@ == operation_details(operation@, details@),
    {
        let code = if kind == FsErrorKind::PermissionDenied { ErrorCode::PermissionDenied } else { ErrorCode::FilesystemError };
        operation_error(code, "Local cleanup history could not be accessed.", operation, details)
    }

    /// The error for a history entry that could not be decoded.
    pub fn serialization_error(details: &str) -> (e: CommandError)
        ensures
            e.code == ErrorCode::SerializationFailed,
            e.message@ == "Local cleanup history is unreadable."@,
            e.recoverable,
            e.details matches Some(d) && d@ == details@,
    {
        CommandError::new(ErrorCode::SerializationFailed, "Local cleanup history is unreadable.", true).with_details(details)
    }
}

} // verus!
