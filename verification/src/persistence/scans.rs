use vstd::prelude::*;
use crate::domain::error::{CommandError, ErrorCode};
use crate::domain::finding::Finding;
use crate::paths::{join, join_exec, PathStyle};
use crate::persistence::common::{data_access_code, operation_details, operation_error, parse_uuid, uuid_parses};
use crate::scanner::walker::FsErrorKind;
use crate::text::same_text;

verus! {

/// Where scans are stored: one directory per scan under a root.
#[derive(Debug, Clone)]
pub struct ScanRepository {
    pub root: String,
}

/// The most findings one page holds.
pub const MAX_FINDING_PAGE: usize = 500;

/// `k` is the first finding with this identifier.
pub open spec fn first_id_match(s: Seq<Finding>, k: int, id: Seq<char>) -> bool {
    0 <= k < s.len() && s[k].id@ == id && forall|j: int| 0 <= j < k ==> (#[trigger] s[j]).id@ != id
}

impl ScanRepository {
    pub fn new(root: &str) -> (r: Self)
        ensures
            r.root@ == root@,
    {
        ScanRepository { root: String::from_str(root) }
    }

    /// The directory of a scan; the identifier must be a UUID, so that it
    /// can never name a path outside the root.
    pub fn scan_directory(&self, scan_id: &str) -> (r: Result<String, CommandError>)
        ensures
            uuid_parses(scan_id@) ==> (r matches Ok(d) && d@ == join(self.root@, scan_id@, PathStyle::Posix)),
            !uuid_parses(scan_id@) ==> (r matches Err(e) && e.code == ErrorCode::InvalidPath
                && e.message@ == "The scan identifier is invalid."@ && e.recoverable),
    {
        if !parse_uuid(scan_id) {
            return Err(CommandError::new(ErrorCode::InvalidPath, "The scan identifier is invalid.", true));
        }
        Ok(join_exec(self.root.as_str(), scan_id, PathStyle::Posix))
    }

    /// A finding page holds between 1 and 500 findings.
    pub fn check_page_size(limit: usize) -> (r: Result<(), CommandError>)
        ensures
            (1 <= limit <= MAX_FINDING_PAGE) <==> r is Ok,
            r matches Err(e) ==> e.code == ErrorCode::InvalidPath && e.message@ == "Finding page size must be between 1 and 500."@,
    {
        if limit == 0 || limit > MAX_FINDING_PAGE {
            return Err(CommandError::new(ErrorCode::InvalidPath, "Finding page size must be between 1 and 500.", true));
        }
        Ok(())
    }

    /// The stored finding with this identifier: the first one, in stored order.
    pub fn select_finding(findings: Vec<Finding>, finding_id: &str) -> (r: Result<Finding, CommandError>)
        ensures
            match r {
                Ok(f) => f.id@ == finding_id@ && exists|k: int| #[trigger] first_id_match(findings@, k, finding_id@) && findings@[k] == f,
                Err(e) => e.code == ErrorCode::PathNotFound && e.message@ == "The finding no longer exists."@
                    && forall|k: int| 0 <= k < findings@.len() ==> (#[trigger] findings@[k]).id@ != finding_id@,
            },
    {
        let ghost all = findings@;
        let n = findings.len();
        let mut rest = findings;
        let mut i: usize = 0;
        while rest.len() > 0
            invariant
                i <= all.len(),
                all.len() == n,
                all == findings@,
                rest@ == all.subrange(i as int, all.len() as int),
                forall|j: int| 0 <= j < i ==> (#[trigger] all[j]).id@ != finding_id@,
            decreases rest.len(),
        {
            let f = rest.remove(0);
            assert(f == all[i as int]);
            if same_text(f.id.as_str(), finding_id) {
                assert(first_id_match(all, i as int, finding_id@));
                assert(exists|k: int| #[trigger] first_id_match(all, k, finding_id@) && all[k] == f);
                return Ok(f);
            }
            i = i + 1;
            assert(rest@ =~= all.subrange(i as int, all.len() as int));
        }
        Err(CommandError::new(ErrorCode::PathNotFound, "The finding no longer exists.", true))
    }

    /// The error for failed access to local scan data.
    pub fn io_error(operation: &str, kind: FsErrorKind, details: &str) -> (e: CommandError)
        ensures
            e.code == data_access_code(kind),
            e.message@ == "Local scan data could not be accessed."@,
            e.recoverable,
            e.details matches Some(d) && d@ == operation_details(operation@, details@),
    {
        let code = match kind {
            FsErrorKind::NotFound => ErrorCode::PathNotFound,
            FsErrorKind::PermissionDenied => ErrorCode::PermissionDenied,
            FsErrorKind::Other => ErrorCode::FilesystemError,
        };
        operation_error(code, "Local scan data could not be accessed.", operation, details)
    }

    /// The error for local scan data that could not be decoded.
    pub fn serialization_error(details: &str) -> (e: CommandError)
        ensures
            e.code == ErrorCode::SerializationFailed,
            e.message@ == "Local scan data is unreadable."@,
            e.recoverable,
            e.details matches Some(d) && d@ == details@,
    {
        CommandError::new(ErrorCode::SerializationFailed, "Local scan data is unreadable.", true).with_details(details)
    }
}

} // verus!
