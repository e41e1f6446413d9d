use vstd::prelude::*;
use crate::domain::duplicate::DuplicateGroup;
use crate::domain::error::{CommandError, ErrorCode};
use crate::paths::{join, join_exec, PathStyle};
use crate::persistence::common::{data_access_code, operation_details, operation_error, parse_uuid, uuid_parses};
use crate::scanner::walker::FsErrorKind;
use crate::text::same_text;

verus! {

/// Where duplicate scans are stored: one directory per scan under a root.
#[derive(Debug, Clone)]
pub struct DuplicateRepository {
    pub root: String,
}

/// The most groups one page holds.
pub const MAX_GROUP_PAGE: usize = 500;

/// The error for an identifier that is not a UUID; `kind` names what it identifies.
pub fn invalid_identifier(kind: &str) -> (e: CommandError)
    ensures
        e.code == ErrorCode::InvalidPath,
        e.message@ == "The duplicate "@ + kind@ + " identifier is invalid."@,
        e.recoverable,
        e.path is None,
        e.details is None,
{
    let mut message = String::from_str("The duplicate ");
    message.append(kind);
    message.append(" identifier is invalid.");
    CommandError { code: ErrorCode::InvalidPath, message, recoverable: true, path: None, details: None }
}

/// `k` is the first group with this identifier.
pub open spec fn first_id_match(s: Seq<DuplicateGroup>, k: int, id: Seq<char>) -> bool {
    0 <= k < s.len() && s[k].id@ == id && forall|j: int| 0 <= j < k ==> (#[trigger] s[j]).id@ != id
}

impl DuplicateRepository {
    pub fn new(root: &str) -> (r: Self)
        ensures
            r.root@ == root@,
    {
        DuplicateRepository { root: String::from_str(root) }
    }

    /// The directory of a duplicate scan; the identifier must be a UUID.
    pub fn scan_directory(&self, scan_id: &str) -> (r: Result<String, CommandError>)
        ensures
            uuid_parses(scan_id@) ==> (r matches Ok(d) && d@ == join(self.root@, scan_id@, PathStyle::Posix)),
            !uuid_parses(scan_id@) ==> (r matches Err(e) && e.code == ErrorCode::InvalidPath
                && e.message@ == "The duplicate scan identifier is invalid."@),
    {
        if !parse_uuid(scan_id) {
            return Err(CommandError::new(ErrorCode::InvalidPath, "The duplicate scan identifier is invalid.", true));
        }
        Ok(join_exec(self.root.as_str(), scan_id, PathStyle::Posix))
    }

    /// A group identifier must be a UUID.
    pub fn check_group_id(group_id: &str) -> (r: Result<(), CommandError>)
        ensures
            uuid_parses(group_id@) <==> r is Ok,
            r matches Err(e) ==> e.code == ErrorCode::InvalidPath && e.message@ == "The duplicate group identifier is invalid."@,
    {
        if !parse_uuid(group_id) {
            return Err(CommandError::new(ErrorCode::InvalidPath, "The duplicate group identifier is invalid.", true));
        }
        Ok(())
    }

    /// A group page holds between 1 and 500 groups.
    pub fn check_page_size(limit: usize) -> (r: Result<(), CommandError>)
        ensures
            (1 <= limit <= MAX_GROUP_PAGE) <==> r is Ok,
            r matches Err(e) ==> e.code == ErrorCode::InvalidPath && e.message@ == "Duplicate group page size must be between 1 and 500."@,
    {
        if limit == 0 || limit > MAX_GROUP_PAGE {
            return Err(CommandError::new(ErrorCode::InvalidPath, "Duplicate group page size must be between 1 and 500.", true));
        }
        Ok(())
    }

    /// The stored group with this identifier: the first one, in stored order.
    pub fn select_group(groups: Vec<DuplicateGroup>, group_id: &str) -> (r: Result<DuplicateGroup, CommandError>)
        ensures
            match r {
                Ok(g) => g.id@ == group_id@ && exists|k: int| #[trigger] first_id_match(groups@, k, group_id@) && groups@[k] == g,
                Err(e) => e.code == ErrorCode::PathNotFound && e.message@ == "The duplicate group no longer exists."@
                    && forall|k: int| 0 <= k < groups@.len() ==> (#[trigger] groups@[k]).id@ != group_id@,
            },
    {
        let ghost all = groups@;
        let n = groups.len();
        let mut rest = groups;
        let mut i: usize = 0;
        while rest.len() > 0
            invariant
                i <= all.len(),
                all.len() == n,
                all == groups@,
                rest@ == all.subrange(i as int, all.len() as int),
                forall|j: int| 0 <= j < i ==> (#[trigger] all[j]).id@ != group_id@,
            decreases rest.len(),
        {
            let g = rest.remove(0);
            assert(g == all[i as int]);
            if same_text(g.id.as_str(), group_id) {
                assert(first_id_match(all, i as int, group_id@));
                assert(exists|k: int| #[trigger] first_id_match(all, k, group_id@) && all[k] == g);
                return Ok(g);
            }
            i = i + 1;
            assert(rest@ =~= all.subrange(i as int, all.len() as int));
        }
        Err(CommandError::new(ErrorCode::PathNotFound, "The duplicate group no longer exists.", true))
    }

    /// The error for failed access to local duplicate scan data.
    pub fn io_error(operation: &str, kind: FsErrorKind, details: &str) -> (e: CommandError)
        ensures
            e.code == data_access_code(kind),
            e.message@ == "Local duplicate scan data could not be accessed."@,
            e.recoverable,
            e.details matches Some(d) && d@ == operation_details(operation@, details@),
    {
        let code = match kind {
            FsErrorKind::NotFound => ErrorCode::PathNotFound,
            FsErrorKind::PermissionDenied => ErrorCode::PermissionDenied,
            FsErrorKind::Other => ErrorCode::FilesystemError,
        };
        operation_error(code, "Local duplicate scan data could not be accessed.", operation, details)
    }

    /// The error for local duplicate scan data that could not be decoded.
    pub fn serialization_error(details: &str) -> (e: CommandError)
        ensures
            e.code == ErrorCode::SerializationFailed,
            e.message@ == "Local duplicate scan data is unreadable."@,
            e.recoverable,
            e.details matches Some(d) && d@ == details@,
    {
        CommandError::new(ErrorCode::SerializationFailed, "Local duplicate scan data is unreadable.", true).with_details(details)
    }
}

} // verus!
