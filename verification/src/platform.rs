//! Mounted disks: how a reported disk becomes a `DiskInfo`, the order in which
//! disks are listed, and looking one up by its mount path.
use vstd::prelude::*;
use crate::domain::disk::DiskInfo;
use crate::domain::error::{CommandError, ErrorCode};
use crate::sorting::{KeyOrder, merge_sort, sorted_by_key, views_of};
use crate::text::{chars_of, same_text, text_less, text_lt, lemma_text_lt_irreflexive, lemma_text_lt_total, lemma_text_lt_transitive};

verus! {

impl View for DiskInfo {
    type V = DiskInfo;

    open spec fn view(&self) -> DiskInfo {
        *self
    }
}

/// Disks are listed by mount path.
impl KeyOrder for DiskInfo {
    open spec fn before(a: DiskInfo, b: DiskInfo) -> bool {
        text_lt(a.mount_path@, b.mount_path@)
    }

    proof fn lemma_asymmetric(a: DiskInfo, b: DiskInfo) {
        if text_lt(b.mount_path@, a.mount_path@) {
            lemma_text_lt_transitive(a.mount_path@, b.mount_path@, a.mount_path@);
            lemma_text_lt_irreflexive(a.mount_path@);
        }
    }

    proof fn lemma_not_before_transitive(a: DiskInfo, b: DiskInfo, c: DiskInfo) {
        if text_lt(c.mount_path@, a.mount_path@) && a.mount_path@ != b.mount_path@ {
            lemma_text_lt_total(a.mount_path@, b.mount_path@);
            lemma_text_lt_transitive(c.mount_path@, a.mount_path@, b.mount_path@);
        }
    }

    fn less(&self, other: &Self) -> (r: bool) {
        text_less(chars_of(self.mount_path.as_str()).as_slice(), chars_of(other.mount_path.as_str()).as_slice())
    }

    fn duplicate(&self) -> (r: Self) {
        DiskInfo {
            id: self.id.clone(),
            name: self.name.clone(),
            mount_path: self.mount_path.clone(),
            file_system: self.file_system.clone(),
            total_bytes: self.total_bytes,
            used_bytes: self.used_bytes,
            available_bytes: self.available_bytes,
            removable: self.removable,
        }
    }
}

/// A disk as the operating system reports it: the available space is capped
/// at the total, the rest of the total is used, and the mount path is its id.
pub fn disk_info(
    mount_path: String,
    name: String,
    file_system: String,
    total_bytes: u64,
    available_bytes: u64,
    removable: bool,
) -> (d: DiskInfo)
    ensures
        d.id@ == mount_path@,
        d.mount_path@ == mount_path@,
        d.name@ == name@,
        d.file_system@ == file_system@,
        d.total_bytes == total_bytes,
        d.available_bytes == (if available_bytes < total_bytes { available_bytes } else { total_bytes }),
        d.used_bytes == d.total_bytes - d.available_bytes,
        d.removable == removable,
{
    let available = if available_bytes < total_bytes { available_bytes } else { total_bytes };
    DiskInfo {
        id: mount_path.clone(),
        name,
        mount_path,
        file_system,
        total_bytes,
        used_bytes: total_bytes - available,
        available_bytes: available,
        removable,
    }
}

/// The reported disks in the order they are listed: by mount path.
pub fn sort_disks(disks: Vec<DiskInfo>) -> (r: Vec<DiskInfo>)
    ensures
        sorted_by_key::<DiskInfo>(views_of(r@)),
        views_of(r@).to_multiset() == views_of(disks@).to_multiset(),
{
    merge_sort(disks)
}

/// A mount path can name a disk unless it is empty or holds a NUL.
pub open spec fn valid_mount_path(mount_path: Seq<char>) -> bool {
    mount_path.len() > 0 && !mount_path.contains('\0')
}

/// The index of the first disk mounted at `mount_path`.
pub open spec fn first_mounted_at(disks: Seq<DiskInfo>, mount_path: Seq<char>, i: int) -> bool {
    &&& 0 <= i < disks.len()
    &&& disks[i].mount_path@ == mount_path
    &&& forall|k: int| 0 <= k < i ==> (#[trigger] disks[k]).mount_path@ != mount_path
}

/// The disk mounted at `mount_path` among the listed `disks`.
pub fn get_disk(mount_path: &str, disks: &Vec<DiskInfo>) -> (r: Result<DiskInfo, CommandError>)
    ensures
        !valid_mount_path(mount_path@) ==> (r matches Err(e) && e.code == ErrorCode::InvalidPath
            && e.message@ == "The mount path is invalid."@ && e.recoverable && e.path is None),
        valid_mount_path(mount_path@) && (forall|k: int| 0 <= k < disks@.len()
            ==> (#[trigger] disks@[k]).mount_path@ != mount_path@) ==> (r matches Err(e)
            && e.code == ErrorCode::PathNotFound && e.message@ == "The mounted disk is no longer available."@
            && e.recoverable && (e.path matches Some(p) && p@ == mount_path@)),
        valid_mount_path(mount_path@) && (exists|k: int| 0 <= k < disks@.len()
            && (#[trigger] disks@[k]).mount_path@ == mount_path@) ==> (r matches Ok(d)
            && exists|i: int| first_mounted_at(disks@, mount_path@, i) && d == disks@[i]),
{
    let chars = chars_of(mount_path);
    let mut has_nul = false;
    let mut j: usize = 0;
    while j < chars.len()
        invariant
            0 <= j <= chars@.len(),
            chars@ == mount_path@,
            has_nul == (exists|k: int| 0 <= k < j && chars@[k] == '\0'),
        decreases chars@.len() - j,
    {
        if chars[j] == '\0' {
            has_nul = true;
        }
        j = j + 1;
    }
    if chars.len() == 0 || has_nul {
        proof {
            if chars@.len() > 0 {
                let k = choose|k: int| 0 <= k < chars@.len() && chars@[k] == '\0';
                assert(mount_path@[k] == '\0');
            }
        }
        return Err(CommandError::new(ErrorCode::InvalidPath, "The mount path is invalid.", true));
    }
    proof {
        if mount_path@.contains('\0') {
            let k = choose|k: int| 0 <= k < mount_path@.len() && mount_path@[k] == '\0';
            assert(chars@[k] == '\0');
        }
    }
    let mut i: usize = 0;
    while i < disks.len()
        invariant
            valid_mount_path(mount_path@),
            0 <= i <= disks@.len(),
            forall|k: int| 0 <= k < i ==> (#[trigger] disks@[k]).mount_path@ != mount_path@,
        decreases disks@.len() - i,
    {
        if same_text(disks[i].mount_path.as_str(), mount_path) {
            assert(first_mounted_at(disks@, mount_path@, i as int));
            return Ok(disks[i].duplicate());
        }
        i = i + 1;
    }
    Err(CommandError::new(ErrorCode::PathNotFound, "The mounted disk is no longer available.", true).with_path(mount_path))
}

} // verus!
