//! Cleanup of duplicate copies: plans that move selected copies to the Trash
//! while each group keeps at least one copy, their single use, and the checks
//! made again before each move.
use vstd::prelude::*;
use crate::cleanup::coordinator::{free_space_change, free_space_change_spec, plain_error, ItemOutcome};
use crate::cleanup::revalidation::{fs_failure, is_failure, Failure};
use crate::domain::cleanup::{CleanupAction, CleanupItemResult, CleanupItemStatus, CleanupProgress, CleanupSummary};
use crate::domain::disk::DiskInfo;
use crate::domain::duplicate::{
    CreateDuplicateCleanupPlanRequest, DuplicateCleanupPlan, DuplicateCleanupPlanItem, DuplicateCleanupSelection,
    DuplicateCopy, DuplicateGroup, DuplicateScanPhase, ExecuteDuplicateCleanupRequest,
};
use crate::domain::error::{CommandError, ErrorCode};
use crate::ids::{is_hyphenated_uuid, new_v4_string};
use crate::paths::{display_path, display_path_exec};
use crate::persistence::common::{parse_uuid, uuid_parses};
use crate::persistence::duplicates::DuplicateRepository;
use crate::persistence::history::HistoryRepository;
use crate::safety::protected_paths::{policy_cleanup_check, ProtectedPathPolicy};
use crate::scanner::walker::FsError;
use crate::text::{same_text, string_of};

verus! {

/// How long a reviewed duplicate cleanup plan stays valid: 15 minutes, in milliseconds.
pub const PLAN_LIFETIME_MS: i64 = 900_000;

/// The most duplicate plans that may await review at once.
pub const MAX_PENDING_PLANS: usize = 128;

/// How many used plan identifiers are remembered before the record is reset.
pub const MAX_CONSUMED_PLANS: usize = 1024;

/// The most groups one plan may select.
pub const MAX_SELECTIONS: usize = 250;

/// The most copies one plan may move.
pub const MAX_PLAN_ITEMS: usize = 500;

/// The duplicate cleanup that is running, and whether it was asked to stop.
#[derive(Debug, Clone)]
pub struct ActiveDuplicateCleanup {
    pub operation_id: String,
    pub cancelled: bool,
}

/// The plans awaiting confirmation, the identifiers of plans already used,
/// and the one duplicate cleanup that may run.
#[derive(Debug)]
pub struct DuplicateCleanupManager {
    pub active: Option<ActiveDuplicateCleanup>,
    pub plans: Vec<DuplicateCleanupPlan>,
    pub consumed_plans: Vec<String>,
    pub repository: DuplicateRepository,
    pub history: HistoryRepository,
}

impl DuplicateCleanupManager {
    pub closed spec fn wf(&self) -> bool {
        unique_plan_ids(self.plans@)
    }

    /// A manager with no plan pending and no cleanup running.
    pub fn new(repository: DuplicateRepository, history: HistoryRepository) -> (m: Self)
        ensures
            m.wf(),
            m.active is None,
            m.plans@.len() == 0,
            m.consumed_plans@.len() == 0,
            m.repository == repository,
            m.history == history,
    {
        DuplicateCleanupManager { active: None, plans: Vec::new(), consumed_plans: Vec::new(), repository, history }
    }
}

fn clone_time(t: &Option<i64>) -> (r: Option<i64>)
    ensures
        r == *t,
{
    *t
}

/// A copy of a plan item, equal to it.
pub fn copy_duplicate_item(item: &DuplicateCleanupPlanItem) -> (r: DuplicateCleanupPlanItem)
    ensures
        r == *item,
{
    DuplicateCleanupPlanItem {
        group_id: item.group_id.clone(),
        copy_id: item.copy_id.clone(),
        path: item.path.clone(),
        canonical_path: item.canonical_path.clone(),
        expected_size: item.expected_size,
        expected_modified_at: clone_time(&item.expected_modified_at),
        full_hash: item.full_hash.clone(),
        keep_copy_id: item.keep_copy_id.clone(),
        keep_path: item.keep_path.clone(),
        keep_canonical_path: item.keep_canonical_path.clone(),
        keep_modified_at: clone_time(&item.keep_modified_at),
        byte_for_byte_verified: item.byte_for_byte_verified,
        validation_token: item.validation_token.clone(),
    }
}

/// A copy of a plan, with the same items.
pub fn copy_duplicate_plan(plan: &DuplicateCleanupPlan) -> (r: DuplicateCleanupPlan)
    ensures
        r.id == plan.id,
        r.scan_id == plan.scan_id,
        r.created_at == plan.created_at,
        r.expires_at == plan.expires_at,
        r.action == plan.action,
        r.items@ == plan.items@,
        r.expected_reclaimable_bytes == plan.expected_reclaimable_bytes,
        r.kept_copy_count == plan.kept_copy_count,
        r.confirmation_token == plan.confirmation_token,
{
    let mut items: Vec<DuplicateCleanupPlanItem> = Vec::new();
    let mut i: usize = 0;
    while i < plan.items.len()
        invariant
            i <= plan.items@.len(),
            items@ == plan.items@.subrange(0, i as int),
        decreases plan.items.len() - i,
    {
        items.push(copy_duplicate_item(&plan.items[i]));
        assert(items@ =~= plan.items@.subrange(0, i + 1));
        i = i + 1;
    }
    assert(items@ =~= plan.items@);
    DuplicateCleanupPlan {
        id: plan.id.clone(),
        scan_id: plan.scan_id.clone(),
        created_at: plan.created_at,
        expires_at: plan.expires_at,
        action: plan.action,
        items,
        expected_reclaimable_bytes: plan.expected_reclaimable_bytes,
        kept_copy_count: plan.kept_copy_count,
        confirmation_token: plan.confirmation_token.clone(),
    }
}

pub open spec fn consumed_views(v: Seq<String>) -> Seq<Seq<char>> {
    v.map_values(|s: String| s@)
}

/// The position of the first of the first `n` plans with this identifier.
pub open spec fn first_plan(plans: Seq<DuplicateCleanupPlan>, id: Seq<char>, n: int) -> Option<int>
    decreases n,
{
    if n <= 0 {
        None
    } else {
        match first_plan(plans, id, n - 1) {
            Some(k) => Some(k),
            None => if plans[n - 1].id@ == id { Some(n - 1) } else { None },
        }
    }
}

/// The position of the plan with this identifier, if one awaits confirmation.
pub open spec fn plan_index(plans: Seq<DuplicateCleanupPlan>, id: Seq<char>) -> Option<int> {
    first_plan(plans, id, plans.len() as int)
}

proof fn lemma_first_plan_stable(plans: Seq<DuplicateCleanupPlan>, id: Seq<char>, n: int, m: int)
    requires
        0 <= n <= m,
        first_plan(plans, id, n) is Some,
    ensures
        first_plan(plans, id, m) == first_plan(plans, id, n),
    decreases m - n,
{
    if m > n {
        lemma_first_plan_stable(plans, id, n, m - 1);
    }
}

proof fn lemma_first_plan_none(plans: Seq<DuplicateCleanupPlan>, id: Seq<char>, n: int)
    requires
        0 <= n <= plans.len(),
        forall|j: int| 0 <= j < n ==> (#[trigger] plans[j]).id@ != id,
    ensures
        first_plan(plans, id, n) is None,
    decreases n,
{
    if n > 0 {
        lemma_first_plan_none(plans, id, n - 1);
    }
}

/// No two pending plans share an identifier.
pub open spec fn unique_plan_ids(plans: Seq<DuplicateCleanupPlan>) -> bool {
    forall|a: int, b: int| 0 <= a < b < plans.len() ==> (#[trigger] plans[a]).id@ != (#[trigger] plans[b]).id@
}


/// `consume_plan`: a plan is handed out once, only before it expires and only
/// with the confirmation token it was issued with. An expired plan is
/// dropped; a wrong token leaves the plan in place; a used plan's identifier
/// is remembered so that reuse is told apart from expiry.
pub open spec fn consume_spec(
    before: DuplicateCleanupManager,
    after: DuplicateCleanupManager,
    request: ExecuteDuplicateCleanupRequest,
    now: i64,
    r: Result<DuplicateCleanupPlan, CommandError>,
) -> bool {
    let id = request.plan_id@;
    &&& after.active == before.active
    &&& if !uuid_parses(id) {
        &&& after.plans == before.plans
        &&& after.consumed_plans == before.consumed_plans
        &&& r matches Err(e) && plain_error(e, ErrorCode::PlanValidationFailed, "The duplicate cleanup plan identifier is invalid."@, true)
    } else {
        match plan_index(before.plans@, id) {
            None => {
                &&& after.plans == before.plans
                &&& after.consumed_plans == before.consumed_plans
                &&& if consumed_views(before.consumed_plans@).contains(id) {
                    r matches Err(e) && plain_error(e, ErrorCode::PlanValidationFailed, "This duplicate cleanup plan has already been used."@, true)
                } else {
                    r matches Err(e) && plain_error(e, ErrorCode::PlanExpired, "This duplicate cleanup plan is unavailable or expired."@, true)
                }
            },
            Some(k) => {
                let plan = before.plans@[k];
                if now >= plan.expires_at {
                    &&& after.plans@ == before.plans@.remove(k)
                    &&& after.consumed_plans == before.consumed_plans
                    &&& r matches Err(e) && plain_error(e, ErrorCode::PlanExpired, "This duplicate cleanup plan expired. Review the duplicate groups again."@, true)
                } else if request.confirmation_token@ != plan.confirmation_token@ {
                    &&& after.plans == before.plans
                    &&& after.consumed_plans == before.consumed_plans
                    &&& r matches Err(e) && plain_error(e, ErrorCode::PlanValidationFailed, "Duplicate cleanup confirmation did not match the reviewed plan."@, true)
                } else {
                    &&& r == Ok::<DuplicateCleanupPlan, CommandError>(plan)
                    &&& after.plans@ == before.plans@.remove(k)
                    &&& consumed_views(after.consumed_plans@) == (if before.consumed_plans@.len() >= MAX_CONSUMED_PLANS {
                        Seq::<Seq<char>>::empty()
                    } else {
                        consumed_views(before.consumed_plans@)
                    }).push(id)
                }
            },
        }
    }
}


/// The plans that have not expired by `now`, in their order.
pub open spec fn live_plans(plans: Seq<DuplicateCleanupPlan>, now: i64) -> Seq<DuplicateCleanupPlan>
    decreases plans.len(),
{
    if plans.len() == 0 {
        Seq::empty()
    } else if now < plans[0].expires_at {
        seq![plans[0]] + live_plans(plans.drop_first(), now)
    } else {
        live_plans(plans.drop_first(), now)
    }
}

/// The pending plans with `plan` put among them: it takes the place of the
/// plan with its identifier, or comes last.
pub open spec fn put_plan(plans: Seq<DuplicateCleanupPlan>, plan: DuplicateCleanupPlan) -> Seq<DuplicateCleanupPlan> {
    match plan_index(plans, plan.id@) {
        Some(k) => plans.update(k, plan),
        None => plans.push(plan),
    }
}

/// Two plans agree in every field.
pub open spec fn same_plan(p: DuplicateCleanupPlan, q: DuplicateCleanupPlan) -> bool {
    &&& p.id == q.id
    &&& p.scan_id == q.scan_id
    &&& p.created_at == q.created_at
    &&& p.expires_at == q.expires_at
    &&& p.action == q.action
    &&& p.items@ == q.items@
    &&& p.expected_reclaimable_bytes == q.expected_reclaimable_bytes
    &&& p.kept_copy_count == q.kept_copy_count
    &&& p.confirmation_token == q.confirmation_token
}

/// `store_plan`: the plans that expired by `now` are dropped; the plan is
/// refused exactly when 128 unexpired plans already wait, and is otherwise
/// put among them. Nothing else changes.
pub open spec fn store_spec(
    before: DuplicateCleanupManager,
    after: DuplicateCleanupManager,
    plan: DuplicateCleanupPlan,
    now: i64,
    r: Result<DuplicateCleanupPlan, CommandError>,
) -> bool {
    let live = live_plans(before.plans@, now);
    &&& after.active == before.active
    &&& after.consumed_plans == before.consumed_plans
    &&& (r is Err <==> live.len() >= MAX_PENDING_PLANS)
    &&& match r {
        Ok(p) => same_plan(p, plan) && after.plans@ == put_plan(live, plan),
        Err(e) => plain_error(e, ErrorCode::CommandUnavailable, "Too many duplicate cleanup plans are awaiting review."@, true)
            && after.plans@ == live,
    }
}

/// A plan is among the unexpired ones exactly when it waits and has not expired.
pub proof fn lemma_live_plans(plans: Seq<DuplicateCleanupPlan>, now: i64)
    ensures
        forall|p: DuplicateCleanupPlan| #[trigger] live_plans(plans, now).contains(p) <==> plans.contains(p) && now < p.expires_at,
    decreases plans.len(),
{
    if plans.len() > 0 {
        let rest = plans.drop_first();
        lemma_live_plans(rest, now);
        let live = live_plans(plans, now);
        let tail = live_plans(rest, now);
        assert forall|p: DuplicateCleanupPlan| #[trigger] live.contains(p) <==> plans.contains(p) && now < p.expires_at by {
            if live.contains(p) {
                let j = choose|j: int| 0 <= j < live.len() && live[j] == p;
                if now < plans[0].expires_at {
                    if j == 0 {
                        assert(plans[0] == p);
                    } else {
                        assert(tail[j - 1] == p);
                        assert(tail.contains(p));
                        let i = choose|i: int| 0 <= i < rest.len() && rest[i] == p;
                        assert(plans[i + 1] == p);
                    }
                } else {
                    assert(tail[j] == p);
                    assert(tail.contains(p));
                    let i = choose|i: int| 0 <= i < rest.len() && rest[i] == p;
                    assert(plans[i + 1] == p);
                }
            }
            if plans.contains(p) && now < p.expires_at {
                let i = choose|i: int| 0 <= i < plans.len() && plans[i] == p;
                if i == 0 {
                    assert(live[0] == p);
                } else {
                    assert(rest[i - 1] == p);
                    assert(tail.contains(p));
                    let j = choose|j: int| 0 <= j < tail.len() && tail[j] == p;
                    if now < plans[0].expires_at {
                        assert(live[j + 1] == p);
                    } else {
                        assert(live[j] == p);
                    }
                }
            }
        }
    }
}

/// The plan at a position is the one `plan_index` finds for its identifier
/// when identifiers are unique.
proof fn lemma_plan_index_of_unique(plans: Seq<DuplicateCleanupPlan>, j: int)
    requires
        unique_plan_ids(plans),
        0 <= j < plans.len(),
    ensures
        plan_index(plans, plans[j].id@) == Some(j),
{
    let id = plans[j].id@;
    assert forall|i: int| 0 <= i < j implies (#[trigger] plans[i]).id@ != id by {}
    lemma_first_plan_none(plans, id, j);
    assert(first_plan(plans, id, j + 1) == Some(j));
    lemma_first_plan_stable(plans, id, j + 1, plans.len() as int);
}

/// Storing a plan keeps every other plan that waits and has not expired.
pub proof fn law_storing_keeps_waiting_duplicate_plans(
    m0: DuplicateCleanupManager,
    m1: DuplicateCleanupManager,
    plan: DuplicateCleanupPlan,
    now: i64,
    r: Result<DuplicateCleanupPlan, CommandError>,
    waiting: DuplicateCleanupPlan,
)
    requires
        store_spec(m0, m1, plan, now, r),
        m0.plans@.contains(waiting),
        now < waiting.expires_at,
        waiting.id@ != plan.id@,
    ensures
        m1.plans@.contains(waiting),
{
    let live = live_plans(m0.plans@, now);
    lemma_live_plans(m0.plans@, now);
    assert(live.contains(waiting));
    if r is Ok {
        let j = choose|j: int| 0 <= j < live.len() && live[j] == waiting;
        lemma_first_plan_is_match(live, plan.id@, live.len() as int);
        match plan_index(live, plan.id@) {
            Some(k) => {
                assert(m1.plans@[j] == waiting);
            },
            None => {
                assert(m1.plans@[j] == waiting);
            },
        }
    }
}

/// A stored plan is handed out, as it was stored, to a request that names it
/// with its confirmation token before it expires.
pub proof fn law_stored_duplicate_plan_can_be_confirmed(
    m0: DuplicateCleanupManager,
    m1: DuplicateCleanupManager,
    m2: DuplicateCleanupManager,
    plan: DuplicateCleanupPlan,
    now0: i64,
    r1: Result<DuplicateCleanupPlan, CommandError>,
    request: ExecuteDuplicateCleanupRequest,
    now1: i64,
    r2: Result<DuplicateCleanupPlan, CommandError>,
)
    requires
        store_spec(m0, m1, plan, now0, r1),
        unique_plan_ids(m1.plans@),
        r1 is Ok,
        uuid_parses(plan.id@),
        request.plan_id@ == plan.id@,
        request.confirmation_token@ == plan.confirmation_token@,
        now1 < plan.expires_at,
        consume_spec(m1, m2, request, now1, r2),
    ensures
        r2 == Ok::<DuplicateCleanupPlan, CommandError>(plan),
{
    let live = live_plans(m0.plans@, now0);
    lemma_first_plan_is_match(live, plan.id@, live.len() as int);
    let j = match plan_index(live, plan.id@) {
        Some(k) => k,
        None => live.len() as int,
    };
    assert(m1.plans@[j] == plan);
    lemma_plan_index_of_unique(m1.plans@, j);
}

proof fn lemma_push_contains(s: Seq<Seq<char>>, x: Seq<char>, id: Seq<char>)
    ensures
        s.push(x).contains(id) == (s.contains(id) || x == id),
{
    if s.push(x).contains(id) {
        let j = choose|j: int| 0 <= j < s.push(x).len() && s.push(x)[j] == id;
        if j < s.len() {
            assert(s[j] == id);
        }
    }
    if s.contains(id) {
        let j = choose|j: int| 0 <= j < s.len() && s[j] == id;
        assert(s.push(x)[j] == id);
    }
    if x == id {
        assert(s.push(x)[s.len() as int] == x);
    }
}

proof fn lemma_remove_keeps_unique(plans: Seq<DuplicateCleanupPlan>, k: int)
    requires
        0 <= k < plans.len(),
    ensures
        unique_plan_ids(plans) ==> unique_plan_ids(plans.remove(k)),
{
    if unique_plan_ids(plans) {
        let r = plans.remove(k);
        assert forall|a: int, b: int| 0 <= a < b < r.len() implies (#[trigger] r[a]).id@ != (#[trigger] r[b]).id@ by {
            let a0 = if a < k { a } else { a + 1 };
            let b0 = if b < k { b } else { b + 1 };
            assert(r[a] == plans[a0] && r[b] == plans[b0]);
        }
    }
}

/// The position of the first plan with this identifier, or the number of plans.
fn find_plan(plans: &Vec<DuplicateCleanupPlan>, id: &str) -> (k: usize)
    ensures
        k <= plans@.len(),
        forall|j: int| 0 <= j < k ==> (#[trigger] plans@[j]).id@ != id@,
        k < plans@.len() ==> plans@[k as int].id@ == id@,
{
    let mut k: usize = 0;
    while k < plans.len()
        invariant
            k <= plans@.len(),
            forall|j: int| 0 <= j < k ==> (#[trigger] plans@[j]).id@ != id@,
        decreases plans.len() - k,
    {
        if same_text(plans[k].id.as_str(), id) {
            return k;
        }
        k = k + 1;
    }
    k
}


impl DuplicateCleanupManager {
    /// Keeps a plan for confirmation after dropping the plans that expired by
    /// `now`; at most 128 plans may wait (see `store_spec`). A plan with the
    /// same identifier is replaced.
    pub fn store_plan(&mut self, plan: DuplicateCleanupPlan, now: i64) -> (r: Result<DuplicateCleanupPlan, CommandError>)
        requires
            unique_plan_ids(old(self).plans@),
        ensures
            store_spec(*old(self), *final(self), plan, now, r),
            unique_plan_ids(final(self).plans@),
    {
        let ghost start = self.plans@;
        let mut kept: Vec<DuplicateCleanupPlan> = Vec::new();
        while self.plans.len() > 0
            invariant
                unique_plan_ids(start),
                unique_plan_ids(kept@),
                kept@ + live_plans(self.plans@, now) == live_plans(start, now),
                forall|k: int| 0 <= k < self.plans@.len() ==> start.contains(#[trigger] self.plans@[k]),
                forall|a: int, b: int| 0 <= a < kept@.len() && 0 <= b < self.plans@.len() ==> (#[trigger] kept@[a]).id@ != (#[trigger] self.plans@[b]).id@,
                unique_plan_ids(self.plans@),
                self.active == old(self).active,
                self.consumed_plans == old(self).consumed_plans,
            decreases self.plans@.len(),
        {
            let ghost before = self.plans@;
            let p = self.plans.remove(0);
            assert(p == before[0]);
            assert(self.plans@ =~= before.drop_first());
            assert forall|k: int| 0 <= k < self.plans@.len() implies start.contains(#[trigger] self.plans@[k]) by {
                assert(self.plans@[k] == before[k + 1]);
            }
            assert forall|a: int, b: int| 0 <= a < b < self.plans@.len() implies (#[trigger] self.plans@[a]).id@ != (#[trigger] self.plans@[b]).id@ by {
                assert(self.plans@[a] == before[a + 1] && self.plans@[b] == before[b + 1]);
            }
            if now < p.expires_at {
                let ghost kb = kept@;
                kept.push(p);
                proof {
                    assert(kept@ + live_plans(self.plans@, now) =~= kb + live_plans(before, now));
                    assert forall|a: int, b: int| 0 <= a < b < kept@.len() implies (#[trigger] kept@[a]).id@ != (#[trigger] kept@[b]).id@ by {
                        if b == kept@.len() - 1 {
                            assert(kept@[a] == kb[a]);
                        }
                    }
                    assert forall|a: int, b: int| 0 <= a < kept@.len() && 0 <= b < self.plans@.len() implies (#[trigger] kept@[a]).id@ != (#[trigger] self.plans@[b]).id@ by {
                        assert(self.plans@[b] == before[b + 1]);
                        if a == kept@.len() - 1 {
                        } else {
                            assert(kept@[a] == kb[a]);
                        }
                    }
                }
            } else {
                proof {
                    assert forall|a: int, b: int| 0 <= a < kept@.len() && 0 <= b < self.plans@.len() implies (#[trigger] kept@[a]).id@ != (#[trigger] self.plans@[b]).id@ by {
                        assert(self.plans@[b] == before[b + 1]);
                    }
                }
            }
        }
        assert(kept@ + live_plans(self.plans@, now) =~= kept@);
        if kept.len() >= MAX_PENDING_PLANS {
            self.plans = kept;
            return Err(CommandError::new(ErrorCode::CommandUnavailable, "Too many duplicate cleanup plans are awaiting review.", true));
        }
        // Replace a kept plan with the same identifier.
        let mut k: usize = 0;
        let mut same: Option<usize> = None;
        while k < kept.len()
            invariant
                k <= kept@.len(),
                same is None <==> first_plan(kept@, plan.id@, k as int) is None,
                same matches Some(s) ==> first_plan(kept@, plan.id@, k as int) == Some(s as int),
                same is None ==> forall|j: int| 0 <= j < k ==> (#[trigger] kept@[j]).id@ != plan.id@,
                same matches Some(s) ==> s < kept@.len() && kept@[s as int].id@ == plan.id@,
            decreases kept.len() - k,
        {
            if same.is_none() && same_text(kept[k].id.as_str(), plan.id.as_str()) {
                same = Some(k);
            }
            k = k + 1;
        }
        let copy = copy_duplicate_plan(&plan);
        let ghost kb = kept@;
        match same {
            Some(s) => {
                kept.set(s, plan);
                proof {
                    assert(kept@ == kb.update(s as int, plan));
                    assert(kept@[s as int] == plan);
                    assert forall|a: int, b: int| 0 <= a < b < kept@.len() implies (#[trigger] kept@[a]).id@ != (#[trigger] kept@[b]).id@ by {
                        if a != s && b != s {
                            assert(kept@[a] == kb[a] && kept@[b] == kb[b]);
                        } else if a == s {
                            assert(kept@[b] == kb[b]);
                        } else {
                            assert(kept@[a] == kb[a]);
                        }
                    }
                }
            },
            None => {
                kept.push(plan);
                proof {
                    assert(kept@[kept@.len() - 1] == plan);
                    assert forall|a: int, b: int| 0 <= a < b < kept@.len() implies (#[trigger] kept@[a]).id@ != (#[trigger] kept@[b]).id@ by {
                        assert(kept@[a] == kb[a]);
                        if b < kb.len() { assert(kept@[b] == kb[b]); }
                    }
                }
            },
        }
        self.plans = kept;
        Ok(copy)
    }

    /// Whether no two pending plans share an identifier, as `store_plan` and
    /// `consume_plan` expect of the manager.
    pub fn plan_ids_are_unique(&self) -> (r: bool)
        ensures
            r == unique_plan_ids(self.plans@),
    {
        let mut a: usize = 0;
        while a < self.plans.len()
            invariant
                a <= self.plans@.len(),
                forall|x: int, y: int| 0 <= x < y < self.plans@.len() && x < a ==> (#[trigger] self.plans@[x]).id@ != (#[trigger] self.plans@[y]).id@,
            decreases self.plans.len() - a,
        {
            let mut b: usize = a + 1;
            while b < self.plans.len()
                invariant
                    a < self.plans@.len(),
                    a + 1 <= b <= self.plans@.len(),
                    forall|x: int, y: int| 0 <= x < y < self.plans@.len() && x < a ==> (#[trigger] self.plans@[x]).id@ != (#[trigger] self.plans@[y]).id@,
                    forall|y: int| a < y < b ==> self.plans@[a as int].id@ != (#[trigger] self.plans@[y]).id@,
                decreases self.plans.len() - b,
            {
                if same_text(self.plans[a].id.as_str(), self.plans[b].id.as_str()) {
                    return false;
                }
                b = b + 1;
            }
            a = a + 1;
        }
        true
    }

    /// Hands out a confirmed plan once (see `consume_spec`).
    pub fn consume_plan(&mut self, request: &ExecuteDuplicateCleanupRequest, now: i64) -> (r: Result<DuplicateCleanupPlan, CommandError>)
        requires
            unique_plan_ids(old(self).plans@),
        ensures
            consume_spec(*old(self), *final(self), *request, now, r),
            unique_plan_ids(final(self).plans@),
    {
        if !parse_uuid(request.plan_id.as_str()) {
            return Err(CommandError::new(ErrorCode::PlanValidationFailed, "The duplicate cleanup plan identifier is invalid.", true));
        }
        let ghost id = request.plan_id@;
        let k = find_plan(&self.plans, request.plan_id.as_str());
        if k == self.plans.len() {
            proof { lemma_first_plan_none(self.plans@, id, k as int); }
            let mut consumed = false;
            let mut c: usize = 0;
            while c < self.consumed_plans.len()
                invariant
                    c <= self.consumed_plans@.len(),
                    id == request.plan_id@,
                    consumed == consumed_views(self.consumed_plans@).subrange(0, c as int).contains(id),
                decreases self.consumed_plans.len() - c,
            {
                let ghost before = consumed_views(self.consumed_plans@).subrange(0, c as int);
                let ghost x = self.consumed_plans@[c as int]@;
                assert(consumed_views(self.consumed_plans@).subrange(0, c + 1) =~= before.push(x));
                proof { lemma_push_contains(before, x, id); }
                if same_text(self.consumed_plans[c].as_str(), request.plan_id.as_str()) {
                    consumed = true;
                }
                c = c + 1;
            }
            assert(consumed_views(self.consumed_plans@).subrange(0, self.consumed_plans@.len() as int) =~= consumed_views(self.consumed_plans@));
            if consumed {
                return Err(CommandError::new(ErrorCode::PlanValidationFailed, "This duplicate cleanup plan has already been used.", true));
            }
            return Err(CommandError::new(ErrorCode::PlanExpired, "This duplicate cleanup plan is unavailable or expired.", true));
        }
        proof {
            lemma_first_plan_none(self.plans@, id, k as int);
            lemma_first_plan_stable(self.plans@, id, k + 1, self.plans@.len() as int);
        }
        if now >= self.plans[k].expires_at {
            let ghost before = self.plans@;
            self.plans.remove(k);
            proof { lemma_remove_keeps_unique(before, k as int); }
            return Err(CommandError::new(ErrorCode::PlanExpired, "This duplicate cleanup plan expired. Review the duplicate groups again.", true));
        }
        if !same_text(request.confirmation_token.as_str(), self.plans[k].confirmation_token.as_str()) {
            return Err(CommandError::new(ErrorCode::PlanValidationFailed, "Duplicate cleanup confirmation did not match the reviewed plan.", true));
        }
        let ghost before = self.plans@;
        let plan = self.plans.remove(k);
        proof { lemma_remove_keeps_unique(before, k as int); }
        let ghost consumed_before = consumed_views(self.consumed_plans@);
        if self.consumed_plans.len() >= MAX_CONSUMED_PLANS {
            self.consumed_plans.clear();
        }
        let ghost base = self.consumed_plans@;
        assert(consumed_views(base) == (if old(self).consumed_plans@.len() >= MAX_CONSUMED_PLANS {
            Seq::<Seq<char>>::empty()
        } else {
            consumed_before
        }));
        self.consumed_plans.push(request.plan_id.clone());
        assert(consumed_views(self.consumed_plans@) =~= consumed_views(base).push(request.plan_id@));
        Ok(plan)
    }
}


impl DuplicateCleanupManager {
    /// Starts executing a confirmed plan: no other cleanup may be running, and
    /// the plan is consumed (see `consume_spec`). Returns the new operation's
    /// identifier with the plan.
    pub fn begin_execute(&mut self, request: &ExecuteDuplicateCleanupRequest, now: i64) -> (r: Result<(String, DuplicateCleanupPlan), CommandError>)
        requires
            unique_plan_ids(old(self).plans@),
        ensures
            old(self).active is Some ==> (r matches Err(e) && plain_error(e, ErrorCode::CommandUnavailable, "Another duplicate cleanup is already running."@, true)
                && *final(self) == *old(self)),
            old(self).active is None ==> exists|mid: DuplicateCleanupManager, consumed: Result<DuplicateCleanupPlan, CommandError>| {
                &&& #[trigger] consume_spec(*old(self), mid, *request, now, consumed)
                &&& match consumed {
                    Err(e) => r == Err::<(String, DuplicateCleanupPlan), CommandError>(e) && *final(self) == mid,
                    Ok(plan) => r matches Ok((op, p)) && p == plan && is_hyphenated_uuid(op@)
                        && final(self).plans == mid.plans && final(self).consumed_plans == mid.consumed_plans
                        && (final(self).active matches Some(a) && a.operation_id == op && !a.cancelled),
                }
            },
            unique_plan_ids(final(self).plans@),
    {
        if self.active.is_some() {
            return Err(CommandError::new(ErrorCode::CommandUnavailable, "Another duplicate cleanup is already running.", true));
        }
        let ghost before = *self;
        let consumed = self.consume_plan(request, now);
        let ghost mid = *self;
        assert(consume_spec(before, mid, *request, now, consumed));
        match consumed {
            Err(e) => Err(e),
            Ok(plan) => {
                let operation_id = new_v4_string();
                self.active = Some(ActiveDuplicateCleanup { operation_id: operation_id.clone(), cancelled: false });
                Ok((operation_id, plan))
            },
        }
    }

    /// Asks the running cleanup to stop; only the running cleanup can be cancelled.
    pub fn cancel(&mut self, operation_id: &str) -> (r: Result<(), CommandError>)
        ensures
            final(self).plans == old(self).plans,
            final(self).consumed_plans == old(self).consumed_plans,
            match old(self).active {
                Some(a) => if a.operation_id@ == operation_id@ {
                    r is Ok && (final(self).active matches Some(b) && b.operation_id == a.operation_id && b.cancelled)
                } else {
                    r matches Err(e) && plain_error(e, ErrorCode::PathNotFound, "That duplicate cleanup operation is not running."@, true)
                        && final(self).active == old(self).active
                },
                None => r matches Err(e) && plain_error(e, ErrorCode::PathNotFound, "That duplicate cleanup operation is not running."@, true)
                    && final(self).active == old(self).active,
            },
    {
        match &mut self.active {
            Some(active) => {
                if same_text(active.operation_id.as_str(), operation_id) {
                    active.cancelled = true;
                    return Ok(());
                }
            },
            None => {},
        }
        Err(CommandError::new(ErrorCode::PathNotFound, "That duplicate cleanup operation is not running.", true))
    }

    /// Whether the running cleanup with this identifier was asked to stop.
    pub fn is_cancelled(&self, operation_id: &str) -> (r: bool)
        ensures
            r == (self.active matches Some(a) && a.operation_id@ == operation_id@ && a.cancelled),
    {
        match &self.active {
            Some(a) => same_text(a.operation_id.as_str(), operation_id) && a.cancelled,
            None => false,
        }
    }

    /// The cleanup is no longer running; another operation's record is left alone.
    pub fn clear_active(&mut self, operation_id: &str)
        ensures
            final(self).plans == old(self).plans,
            final(self).consumed_plans == old(self).consumed_plans,
            (old(self).active matches Some(a) && a.operation_id@ == operation_id@) ==> final(self).active is None,
            !(old(self).active matches Some(a) && a.operation_id@ == operation_id@) ==> final(self).active == old(self).active,
    {
        let matches = match &self.active {
            Some(a) => same_text(a.operation_id.as_str(), operation_id),
            None => false,
        };
        if matches {
            self.active = None;
        }
    }
}


/// A plan that was handed out is never handed out again: a second request
/// for it is refused as already used.
pub proof fn law_consumed_duplicate_plan_cannot_be_reused(
    m0: DuplicateCleanupManager,
    m1: DuplicateCleanupManager,
    m2: DuplicateCleanupManager,
    request: ExecuteDuplicateCleanupRequest,
    second: ExecuteDuplicateCleanupRequest,
    now1: i64,
    now2: i64,
    r1: Result<DuplicateCleanupPlan, CommandError>,
    r2: Result<DuplicateCleanupPlan, CommandError>,
)
    requires
        unique_plan_ids(m0.plans@),
        consume_spec(m0, m1, request, now1, r1),
        r1 is Ok,
        second.plan_id@ == request.plan_id@,
        consume_spec(m1, m2, second, now2, r2),
    ensures
        r2 matches Err(e) && e.code == ErrorCode::PlanValidationFailed
            && e.message@ == "This duplicate cleanup plan has already been used."@,
        m2.plans == m1.plans,
{
    let id = request.plan_id@;
    let k = plan_index(m0.plans@, id)->0;
    lemma_first_plan_is_match(m0.plans@, id, m0.plans@.len() as int);
    lemma_remove_keeps_unique(m0.plans@, k);
    let rest = m0.plans@.remove(k);
    assert forall|j: int| 0 <= j < rest.len() implies (#[trigger] rest[j]).id@ != id by {
        let j0 = if j < k { j } else { j + 1 };
        assert(rest[j] == m0.plans@[j0]);
    }
    lemma_first_plan_none(rest, id, rest.len() as int);
    let views = consumed_views(m1.consumed_plans@);
    assert(views[views.len() - 1] == id);
}

/// An expired plan is refused, and it is dropped.
pub proof fn law_expired_duplicate_plan_is_refused(
    m0: DuplicateCleanupManager,
    m1: DuplicateCleanupManager,
    request: ExecuteDuplicateCleanupRequest,
    now: i64,
    r: Result<DuplicateCleanupPlan, CommandError>,
    k: int,
)
    requires
        uuid_parses(request.plan_id@),
        plan_index(m0.plans@, request.plan_id@) == Some(k),
        now >= m0.plans@[k].expires_at,
        consume_spec(m0, m1, request, now, r),
    ensures
        r matches Err(e) && e.code == ErrorCode::PlanExpired,
        m1.plans@ == m0.plans@.remove(k),
{
}

/// A request with the wrong confirmation token is refused and leaves the
/// plan waiting, unchanged.
pub proof fn law_wrong_duplicate_confirmation_keeps_the_plan(
    m0: DuplicateCleanupManager,
    m1: DuplicateCleanupManager,
    request: ExecuteDuplicateCleanupRequest,
    now: i64,
    r: Result<DuplicateCleanupPlan, CommandError>,
    k: int,
)
    requires
        uuid_parses(request.plan_id@),
        plan_index(m0.plans@, request.plan_id@) == Some(k),
        now < m0.plans@[k].expires_at,
        request.confirmation_token@ != m0.plans@[k].confirmation_token@,
        consume_spec(m0, m1, request, now, r),
    ensures
        r matches Err(e) && e.code == ErrorCode::PlanValidationFailed && e.recoverable,
        m1.plans == m0.plans,
{
}

proof fn lemma_first_plan_is_match(plans: Seq<DuplicateCleanupPlan>, id: Seq<char>, n: int)
    requires
        0 <= n <= plans.len(),
    ensures
        first_plan(plans, id, n) matches Some(k) ==> 0 <= k < n && plans[k].id@ == id,
    decreases n,
{
    if n > 0 {
        lemma_first_plan_is_match(plans, id, n - 1);
    }
}



/// What the file system reports about a duplicate copy: its metadata, read
/// without following a symbolic link, and its canonical path.
#[derive(Debug)]
pub struct CopyStat {
    pub is_symlink: bool,
    pub is_file: bool,
    pub len: u64,
    pub modified_at: Option<i64>,
}

#[derive(Debug)]
pub struct CopyFacts {
    pub stat: Result<CopyStat, FsError>,
    pub canonical: Result<String, FsError>,
}

/// A failure naming no path.
pub open spec fn plan_failure(message: Seq<char>) -> Failure {
    Failure { code: ErrorCode::PlanValidationFailed, message, recoverable: true, path: None, details: None }
}

pub fn invalid_plan(message: &str) -> (e: CommandError)
    ensures
        is_failure(e, plan_failure(message@)),
{
    CommandError::new(ErrorCode::PlanValidationFailed, message, true)
}

/// The message for a copy inside a protected location.
pub open spec fn protected_message(reason: Seq<char>) -> Seq<char> {
    "This duplicate is inside a protected "@ + reason + " location."@
}

pub open spec fn protected_copy_failure(path: Seq<char>, reason: Seq<char>) -> Failure {
    Failure { code: ErrorCode::PathProtected, message: protected_message(reason), recoverable: true, path: Some(path), details: None }
}

fn protected_error(path: &str, reason: &str) -> (e: CommandError)
    ensures
        is_failure(e, protected_copy_failure(path@, reason@)),
{
    let mut message = String::from_str("This duplicate is inside a protected ");
    let mut chars: Vec<char> = crate::text::chars_of(message.as_str());
    let r = crate::text::chars_of(reason);
    let tail = crate::text::chars_of(" location.");
    proof {
        reveal_strlit("This duplicate is inside a protected ");
    }
    let mut i: usize = 0;
    while i < r.len()
        invariant
            0 <= i <= r@.len(),
            chars@ == "This duplicate is inside a protected "@ + r@.take(i as int),
        decreases r@.len() - i,
    {
        chars.push(r[i]);
        assert(r@.take(i + 1) =~= r@.take(i as int).push(r@[i as int]));
        i = i + 1;
    }
    let mut j: usize = 0;
    assert(r@.take(r@.len() as int) =~= r@);
    while j < tail.len()
        invariant
            0 <= j <= tail@.len(),
            chars@ == "This duplicate is inside a protected "@ + r@ + tail@.take(j as int),
        decreases tail@.len() - j,
    {
        chars.push(tail[j]);
        assert(tail@.take(j + 1) =~= tail@.take(j as int).push(tail@[j as int]));
        j = j + 1;
    }
    assert(tail@.take(tail@.len() as int) =~= tail@);
    message = string_of(chars.as_slice());
    CommandError::new(ErrorCode::PathProtected, message.as_str(), true).with_path(path)
}

/// The message for a copy that could not be read.
pub open spec fn file_failure(path: Seq<char>, e: FsError) -> Failure {
    fs_failure(path, "A duplicate cleanup path could not be accessed."@, e)
}

fn file_error(path: &str, e: &FsError) -> (r: CommandError)
    ensures
        is_failure(r, file_failure(path@, *e)),
{
    let code = match e.kind {
        crate::scanner::walker::FsErrorKind::NotFound => ErrorCode::PathNotFound,
        crate::scanner::walker::FsErrorKind::PermissionDenied => ErrorCode::PermissionDenied,
        crate::scanner::walker::FsErrorKind::Other => ErrorCode::FilesystemError,
    };
    CommandError::new(code, "A duplicate cleanup path could not be accessed.", true).with_path(path).with_details(e.details.as_str())
}

/// A copy as it is now: its canonical path and modification time, when it is
/// still a regular file of the expected size and time.
pub open spec fn snapshot_spec(path: Seq<char>, size: u64, modified: Option<i64>, facts: CopyFacts) -> Result<(Seq<char>, Option<i64>), Failure> {
    match facts.stat {
        Err(e) => Err(file_failure(path, e)),
        Ok(s) => if s.is_symlink || !s.is_file || s.len != size {
            Err(plan_failure("A duplicate copy changed type or size after the scan. Scan again before cleanup."@))
        } else if s.modified_at != modified {
            Err(plan_failure("A duplicate copy changed after the scan. Scan again before cleanup."@))
        } else {
            match facts.canonical {
                Err(e) => Err(file_failure(path, e)),
                Ok(c) => Ok((c@, s.modified_at)),
            }
        },
    }
}

pub open spec fn snapshot_matches(r: Result<(String, Option<i64>), CommandError>, s: Result<(Seq<char>, Option<i64>), Failure>) -> bool {
    match s {
        Ok((c, m)) => r matches Ok((rc, rm)) && rc@ == c && rm == m,
        Err(f) => r matches Err(e) && is_failure(e, f),
    }
}

pub fn snapshot_file(path: &str, expected_size: u64, expected_modified_at: Option<i64>, facts: &CopyFacts)
    -> (r: Result<(String, Option<i64>), CommandError>)
    ensures
        snapshot_matches(r, snapshot_spec(path@, expected_size, expected_modified_at, *facts)),
{
    match &facts.stat {
        Err(e) => Err(file_error(path, e)),
        Ok(s) => {
            if s.is_symlink || !s.is_file || s.len != expected_size {
                return Err(invalid_plan("A duplicate copy changed type or size after the scan. Scan again before cleanup."));
            }
            if s.modified_at != expected_modified_at {
                return Err(invalid_plan("A duplicate copy changed after the scan. Scan again before cleanup."));
            }
            match &facts.canonical {
                Err(e) => Err(file_error(path, e)),
                Ok(c) => Ok((c.clone(), s.modified_at)),
            }
        },
    }
}

/// The position of the first copy with this identifier.
pub open spec fn copy_position(copies: Seq<DuplicateCopy>, id: Seq<char>, n: int) -> Option<int>
    decreases n,
{
    if n <= 0 {
        None
    } else {
        match copy_position(copies, id, n - 1) {
            Some(k) => Some(k),
            None => if copies[n - 1].id@ == id { Some(n - 1) } else { None },
        }
    }
}

proof fn lemma_copy_position_none(copies: Seq<DuplicateCopy>, id: Seq<char>, n: int)
    requires
        0 <= n <= copies.len(),
        forall|j: int| 0 <= j < n ==> (#[trigger] copies[j]).id@ != id,
    ensures
        copy_position(copies, id, n) is None,
    decreases n,
{
    if n > 0 {
        lemma_copy_position_none(copies, id, n - 1);
    }
}

proof fn lemma_copy_position_stable(copies: Seq<DuplicateCopy>, id: Seq<char>, n: int, m: int)
    requires
        0 <= n <= m,
        copy_position(copies, id, n) is Some,
    ensures
        copy_position(copies, id, m) == copy_position(copies, id, n),
    decreases m - n,
{
    if m > n {
        lemma_copy_position_stable(copies, id, n, m - 1);
    }
}

fn find_copy(copies: &Vec<DuplicateCopy>, id: &str) -> (r: Option<usize>)
    ensures
        match r {
            Some(k) => copy_position(copies@, id@, copies@.len() as int) == Some(k as int) && k < copies@.len(),
            None => copy_position(copies@, id@, copies@.len() as int) is None,
        },
{
    let mut k: usize = 0;
    while k < copies.len()
        invariant
            k <= copies@.len(),
            forall|j: int| 0 <= j < k ==> (#[trigger] copies@[j]).id@ != id@,
        decreases copies.len() - k,
    {
        if same_text(copies[k].id.as_str(), id) {
            proof {
                lemma_copy_position_none(copies@, id@, k as int);
                lemma_copy_position_stable(copies@, id@, k + 1, copies@.len() as int);
            }
            return Some(k);
        }
        k = k + 1;
    }
    proof {
        lemma_copy_position_none(copies@, id@, k as int);
    }
    None
}

/// One copy a plan moves, as plain values (the validation token aside).
pub ghost struct PlannedCopy {
    pub group_id: Seq<char>,
    pub copy_id: Seq<char>,
    pub path: Seq<char>,
    pub canonical_path: Seq<char>,
    pub expected_size: u64,
    pub expected_modified_at: Option<i64>,
    pub full_hash: Seq<char>,
    pub keep_copy_id: Seq<char>,
    pub keep_path: Seq<char>,
    pub keep_canonical_path: Seq<char>,
    pub keep_modified_at: Option<i64>,
    pub byte_for_byte_verified: bool,
}

pub open spec fn item_is(item: DuplicateCleanupPlanItem, p: PlannedCopy) -> bool {
    &&& item.group_id@ == p.group_id
    &&& item.copy_id@ == p.copy_id
    &&& item.path@ == p.path
    &&& item.canonical_path@ == p.canonical_path
    &&& item.expected_size == p.expected_size
    &&& item.expected_modified_at == p.expected_modified_at
    &&& item.full_hash@ == p.full_hash
    &&& item.keep_copy_id@ == p.keep_copy_id
    &&& item.keep_path@ == p.keep_path
    &&& item.keep_canonical_path@ == p.keep_canonical_path
    &&& item.keep_modified_at == p.keep_modified_at
    &&& item.byte_for_byte_verified == p.byte_for_byte_verified
    &&& is_hyphenated_uuid(item.validation_token@)
}

pub open spec fn items_are(items: Seq<DuplicateCleanupPlanItem>, planned: Seq<PlannedCopy>) -> bool {
    &&& items.len() == planned.len()
    &&& forall|i: int| 0 <= i < items.len() ==> item_is(#[trigger] items[i], planned[i])
}

/// The distinct identifiers among `ids` are exactly as many as `ids`.
pub open spec fn distinct_texts(ids: Seq<String>) -> bool {
    forall|a: int, b: int| 0 <= a < b < ids.len() ==> (#[trigger] ids[a])@ != (#[trigger] ids[b])@
}

pub open spec fn contains_text(ids: Seq<String>, id: Seq<char>) -> bool {
    exists|i: int| 0 <= i < ids.len() && (#[trigger] ids[i])@ == id
}

/// A selection that would not leave its group a copy, or that names its keep
/// copy for the Trash.
pub open spec fn keeps_nothing(sel: DuplicateCleanupSelection, group: DuplicateGroup) -> bool {
    ||| sel.trash_copy_ids@.len() == 0
    ||| !distinct_texts(sel.trash_copy_ids@)
    ||| contains_text(sel.trash_copy_ids@, sel.keep_copy_id@)
    ||| sel.trash_copy_ids@.len() >= group.copies@.len()
}

/// The copies moved for the first `n` Trash identifiers of a selection, or
/// the first failure among them.
pub open spec fn trash_spec(
    sel: DuplicateCleanupSelection,
    group: DuplicateGroup,
    facts: Seq<CopyFacts>,
    keep: DuplicateCopy,
    keep_canonical: Seq<char>,
    keep_modified: Option<i64>,
    home: Seq<char>,
    platform: Seq<char>,
    n: int,
) -> Result<Seq<PlannedCopy>, Failure>
    decreases n,
{
    if n <= 0 {
        Ok(Seq::empty())
    } else {
        match trash_spec(sel, group, facts, keep, keep_canonical, keep_modified, home, platform, n - 1) {
            Err(f) => Err(f),
            Ok(items) => {
                let copies = group.copies@;
                match copy_position(copies, sel.trash_copy_ids@[n - 1]@, copies.len() as int) {
                    None => Err(plan_failure("A selected Trash copy is not in its duplicate group."@)),
                    Some(c) => {
                        let copy = copies[c];
                        match snapshot_spec(copy.path@, group.file_size, copy.modified_at, facts[c]) {
                            Err(f) => Err(f),
                            Ok((canonical, modified)) => match policy_cleanup_check(home, platform, canonical, true) {
                                Some(reason) => Err(protected_copy_failure(copy.path@, reason.1)),
                                None => if canonical == keep_canonical {
                                    Err(plan_failure("The keep and Trash paths must be distinct."@))
                                } else {
                                    Ok(items.push(PlannedCopy {
                                        group_id: group.id@,
                                        copy_id: copy.id@,
                                        path: copy.path@,
                                        canonical_path: canonical,
                                        expected_size: group.file_size,
                                        expected_modified_at: modified,
                                        full_hash: group.full_hash@,
                                        keep_copy_id: keep.id@,
                                        keep_path: keep.path@,
                                        keep_canonical_path: keep_canonical,
                                        keep_modified_at: keep_modified,
                                        byte_for_byte_verified: group.byte_for_byte_verified,
                                    }))
                                },
                            },
                        }
                    },
                }
            },
        }
    }
}

/// The copies one selection moves, or why it cannot be planned: the keep
/// copy must be in the group, at least one copy must stay and the keep copy
/// may not be moved, the keep copy must be unchanged and unprotected, and so
/// must every copy moved, each at a place other than the keep copy's.
pub open spec fn selection_spec(
    sel: DuplicateCleanupSelection,
    group: DuplicateGroup,
    facts: Seq<CopyFacts>,
    home: Seq<char>,
    platform: Seq<char>,
) -> Result<Seq<PlannedCopy>, Failure> {
    let copies = group.copies@;
    match copy_position(copies, sel.keep_copy_id@, copies.len() as int) {
        None => Err(plan_failure("The selected keep copy is not in its duplicate group."@)),
        Some(k) => if keeps_nothing(sel, group) {
            Err(plan_failure("Every duplicate group must keep at least one copy, and the keep copy cannot be selected for Trash."@))
        } else {
            let keep = copies[k];
            match snapshot_spec(keep.path@, group.file_size, keep.modified_at, facts[k]) {
                Err(f) => Err(f),
                Ok((kc, km)) => match policy_cleanup_check(home, platform, kc, true) {
                    Some(reason) => Err(protected_copy_failure(keep.path@, reason.1)),
                    None => trash_spec(sel, group, facts, keep, kc, km, home, platform, sel.trash_copy_ids@.len() as int),
                },
            }
        },
    }
}

proof fn lemma_trash_failure_stays(
    sel: DuplicateCleanupSelection,
    group: DuplicateGroup,
    facts: Seq<CopyFacts>,
    keep: DuplicateCopy,
    keep_canonical: Seq<char>,
    keep_modified: Option<i64>,
    home: Seq<char>,
    platform: Seq<char>,
    n: int,
    m: int,
)
    requires
        0 <= n <= m,
        trash_spec(sel, group, facts, keep, keep_canonical, keep_modified, home, platform, n) is Err,
    ensures
        trash_spec(sel, group, facts, keep, keep_canonical, keep_modified, home, platform, m)
            == trash_spec(sel, group, facts, keep, keep_canonical, keep_modified, home, platform, n),
    decreases m - n,
{
    if m > n {
        lemma_trash_failure_stays(sel, group, facts, keep, keep_canonical, keep_modified, home, platform, n, m - 1);
    }
}

fn distinct_texts_exec(ids: &Vec<String>) -> (r: bool)
    ensures
        r == distinct_texts(ids@),
{
    let mut i: usize = 0;
    while i < ids.len()
        invariant
            i <= ids@.len(),
            forall|a: int, b: int| 0 <= a < b < ids@.len() && a < i ==> (#[trigger] ids@[a])@ != (#[trigger] ids@[b])@,
        decreases ids.len() - i,
    {
        let mut j: usize = i + 1;
        while j < ids.len()
            invariant
                i < ids@.len(),
                i + 1 <= j <= ids@.len(),
                forall|a: int, b: int| 0 <= a < b < ids@.len() && a < i ==> (#[trigger] ids@[a])@ != (#[trigger] ids@[b])@,
                forall|b: int| i < b < j ==> ids@[i as int]@ != (#[trigger] ids@[b])@,
            decreases ids.len() - j,
        {
            if same_text(ids[i].as_str(), ids[j].as_str()) {
                return false;
            }
            j = j + 1;
        }
        i = i + 1;
    }
    true
}

fn contains_text_exec(ids: &Vec<String>, id: &str) -> (r: bool)
    ensures
        r == contains_text(ids@, id@),
{
    let mut i: usize = 0;
    while i < ids.len()
        invariant
            i <= ids@.len(),
            forall|j: int| 0 <= j < i ==> (#[trigger] ids@[j])@ != id@,
        decreases ids.len() - i,
    {
        if same_text(ids[i].as_str(), id) {
            return true;
        }
        i = i + 1;
    }
    false
}

pub open spec fn outcome_matches(r: Result<Vec<DuplicateCleanupPlanItem>, CommandError>, s: Result<Seq<PlannedCopy>, Failure>) -> bool {
    match s {
        Ok(p) => r matches Ok(items) && items_are(items@, p),
        Err(f) => r matches Err(e) && is_failure(e, f),
    }
}

/// The plan items for one selection of a loaded group, with `facts` the file
/// system's report on each of the group's copies (see `selection_spec`).
pub fn selection_items(
    sel: &DuplicateCleanupSelection,
    group: &DuplicateGroup,
    facts: &Vec<CopyFacts>,
    home: &str,
    platform: &str,
) -> (r: Result<Vec<DuplicateCleanupPlanItem>, CommandError>)
    requires
        facts@.len() == group.copies@.len(),
    ensures
        outcome_matches(r, selection_spec(*sel, *group, facts@, home@, platform@)),
{
    let policy = ProtectedPathPolicy::for_platform(home, platform);
    let k = match find_copy(&group.copies, sel.keep_copy_id.as_str()) {
        None => return Err(invalid_plan("The selected keep copy is not in its duplicate group.")),
        Some(k) => k,
    };
    if sel.trash_copy_ids.len() == 0 || !distinct_texts_exec(&sel.trash_copy_ids)
        || contains_text_exec(&sel.trash_copy_ids, sel.keep_copy_id.as_str())
        || sel.trash_copy_ids.len() >= group.copies.len() {
        return Err(invalid_plan(
            "Every duplicate group must keep at least one copy, and the keep copy cannot be selected for Trash.",
        ));
    }
    let keep = &group.copies[k];
    let (kc, km) = match snapshot_file(keep.path.as_str(), group.file_size, keep.modified_at, &facts[k]) {
        Err(e) => return Err(e),
        Ok(s) => s,
    };
    match policy.check_cleanup_candidate(kc.as_str(), true) {
        Some(reason) => return Err(protected_error(keep.path.as_str(), reason.reason.as_str())),
        None => {},
    }
    let ghost keep_v = *keep;
    let ghost total = sel.trash_copy_ids@.len() as int;
    assert(selection_spec(*sel, *group, facts@, home@, platform@)
        == trash_spec(*sel, *group, facts@, keep_v, kc@, km, home@, platform@, total));
    let mut items: Vec<DuplicateCleanupPlanItem> = Vec::new();
    let mut t: usize = 0;
    while t < sel.trash_copy_ids.len()
        invariant
            facts@.len() == group.copies@.len(),
            k < group.copies@.len(),
            keep_v == group.copies@[k as int],
            *keep == keep_v,
            total == sel.trash_copy_ids@.len(),
            selection_spec(*sel, *group, facts@, home@, platform@)
                == trash_spec(*sel, *group, facts@, keep_v, kc@, km, home@, platform@, total),
            policy.home_view() == home@,
            policy.style_view() == crate::safety::protected_paths::style_of(platform@),
            policy.ci_view() == (platform@ == "windows"@),
            policy.roots_view() == crate::safety::protected_paths::policy_roots(home@, platform@),
            0 <= t <= sel.trash_copy_ids@.len(),
            trash_spec(*sel, *group, facts@, keep_v, kc@, km, home@, platform@, t as int) matches Ok(p) && items_are(items@, p),
        decreases sel.trash_copy_ids@.len() - t,
    {
        let ghost prev = trash_spec(*sel, *group, facts@, keep_v, kc@, km, home@, platform@, t as int)->Ok_0;
        let c = match find_copy(&group.copies, sel.trash_copy_ids[t].as_str()) {
            None => {
                proof { lemma_trash_failure_stays(*sel, *group, facts@, keep_v, kc@, km, home@, platform@, t + 1, total); }
                return Err(invalid_plan("A selected Trash copy is not in its duplicate group."));
            },
            Some(c) => c,
        };
        let copy = &group.copies[c];
        let (cc, cm) = match snapshot_file(copy.path.as_str(), group.file_size, copy.modified_at, &facts[c]) {
            Err(e) => {
                proof { lemma_trash_failure_stays(*sel, *group, facts@, keep_v, kc@, km, home@, platform@, t + 1, total); }
                return Err(e);
            },
            Ok(s) => s,
        };
        match policy.check_cleanup_candidate(cc.as_str(), true) {
            Some(reason) => {
                proof { lemma_trash_failure_stays(*sel, *group, facts@, keep_v, kc@, km, home@, platform@, t + 1, total); }
                return Err(protected_error(copy.path.as_str(), reason.reason.as_str()));
            },
            None => {},
        }
        if same_text(cc.as_str(), kc.as_str()) {
            proof { lemma_trash_failure_stays(*sel, *group, facts@, keep_v, kc@, km, home@, platform@, t + 1, total); }
            return Err(invalid_plan("The keep and Trash paths must be distinct."));
        }
        let item = DuplicateCleanupPlanItem {
            group_id: group.id.clone(),
            copy_id: copy.id.clone(),
            path: copy.path.clone(),
            canonical_path: cc,
            expected_size: group.file_size,
            expected_modified_at: cm,
            full_hash: group.full_hash.clone(),
            keep_copy_id: keep.id.clone(),
            keep_path: keep.path.clone(),
            keep_canonical_path: kc.clone(),
            keep_modified_at: km,
            byte_for_byte_verified: group.byte_for_byte_verified,
            validation_token: new_v4_string(),
        };
        let ghost before = items@;
        items.push(item);
        proof {
            let now = trash_spec(*sel, *group, facts@, keep_v, kc@, km, home@, platform@, t + 1);
            let copy_v = group.copies@[c as int];
            assert(now == Ok::<Seq<PlannedCopy>, Failure>(prev.push(PlannedCopy {
                group_id: group.id@,
                copy_id: copy_v.id@,
                path: copy_v.path@,
                canonical_path: items@.last().canonical_path@,
                expected_size: group.file_size,
                expected_modified_at: items@.last().expected_modified_at,
                full_hash: group.full_hash@,
                keep_copy_id: keep_v.id@,
                keep_path: keep_v.path@,
                keep_canonical_path: kc@,
                keep_modified_at: km,
                byte_for_byte_verified: group.byte_for_byte_verified,
            })));
            assert forall|i: int| 0 <= i < items@.len() implies item_is(#[trigger] items@[i], now->Ok_0[i]) by {
                if i < before.len() {
                    assert(items@[i] == before[i]);
                    assert(now->Ok_0[i] == prev[i]);
                    assert(item_is(before[i], prev[i]));
                } else {
                    assert(i == before.len());
                    assert(items@[i] == items@.last());
                    assert(now->Ok_0[i] == now->Ok_0.last());
                }
            }
        }
        t = t + 1;
    }
    Ok(items)
}


/// Why a plan could not be made: an error handed over as it came, or a
/// described failure.
pub ghost enum PlanError {
    Given(CommandError),
    Described(Failure),
}

pub open spec fn plan_error_is(e: CommandError, pe: PlanError) -> bool {
    match pe {
        PlanError::Given(x) => e == x,
        PlanError::Described(f) => is_failure(e, f),
    }
}

/// The copies moved for the first `n` selections, each with its loaded group
/// and the file system's report on the group's copies, or the first error.
pub open spec fn selections_spec(
    sels: Seq<DuplicateCleanupSelection>,
    groups: Seq<Result<DuplicateGroup, CommandError>>,
    facts: Seq<Vec<CopyFacts>>,
    home: Seq<char>,
    platform: Seq<char>,
    n: int,
) -> Result<Seq<PlannedCopy>, PlanError>
    decreases n,
{
    if n <= 0 {
        Ok(Seq::empty())
    } else {
        match selections_spec(sels, groups, facts, home, platform, n - 1) {
            Err(e) => Err(e),
            Ok(items) => match groups[n - 1] {
                Err(e) => Err(PlanError::Given(e)),
                Ok(g) => match selection_spec(sels[n - 1], g, facts[n - 1]@, home, platform) {
                    Err(f) => Err(PlanError::Described(f)),
                    Ok(p) => Ok(items + p),
                },
            },
        }
    }
}

proof fn lemma_selections_failure_stays(
    sels: Seq<DuplicateCleanupSelection>,
    groups: Seq<Result<DuplicateGroup, CommandError>>,
    facts: Seq<Vec<CopyFacts>>,
    home: Seq<char>,
    platform: Seq<char>,
    n: int,
    m: int,
)
    requires
        0 <= n <= m,
        selections_spec(sels, groups, facts, home, platform, n) is Err,
    ensures
        selections_spec(sels, groups, facts, home, platform, m) == selections_spec(sels, groups, facts, home, platform, n),
    decreases m - n,
{
    if m > n {
        lemma_selections_failure_stays(sels, groups, facts, home, platform, n, m - 1);
    }
}

/// The group identifiers of the selections are all different.
pub open spec fn distinct_groups(sels: Seq<DuplicateCleanupSelection>) -> bool {
    forall|a: int, b: int| 0 <= a < b < sels.len() ==> (#[trigger] sels[a]).group_id@ != (#[trigger] sels[b]).group_id@
}

/// The bytes the planned copies take, held at `u64::MAX`.
pub open spec fn planned_total(p: Seq<PlannedCopy>, n: int) -> u64
    decreases n,
{
    if n <= 0 {
        0
    } else {
        let before = planned_total(p, n - 1);
        if before + p[n - 1].expected_size > u64::MAX { u64::MAX } else { (before + p[n - 1].expected_size) as u64 }
    }
}

proof fn lemma_planned_total_prefix(a: Seq<PlannedCopy>, b: Seq<PlannedCopy>, n: int)
    requires
        0 <= n <= a.len(),
        n <= b.len(),
        forall|i: int| 0 <= i < n ==> a[i] == b[i],
    ensures
        planned_total(a, n) == planned_total(b, n),
    decreases n,
{
    if n > 0 {
        lemma_planned_total_prefix(a, b, n - 1);
    }
}

/// Why a duplicate cleanup request cannot be planned before any group is
/// read: only moving to the Trash is offered, the scan must have completed,
/// between 1 and 250 groups are selected, each once.
pub open spec fn request_failure(
    request: CreateDuplicateCleanupPlanRequest,
    scan_phase: Result<DuplicateScanPhase, CommandError>,
) -> Option<PlanError> {
    if request.action != CleanupAction::MoveToTrash {
        Some(PlanError::Described(Failure {
            code: ErrorCode::CommandUnavailable,
            message: "Duplicate cleanup is Trash-only. Permanent deletion is disabled."@,
            recoverable: true,
            path: None,
            details: None,
        }))
    } else {
        match scan_phase {
            Err(e) => Some(PlanError::Given(e)),
            Ok(phase) => if phase != DuplicateScanPhase::Completed {
                Some(PlanError::Described(plan_failure("Duplicate cleanup plans require a completed duplicate scan."@)))
            } else if request.selections@.len() == 0 || request.selections@.len() > MAX_SELECTIONS {
                Some(PlanError::Described(plan_failure("Select between 1 and 250 duplicate groups."@)))
            } else if !distinct_groups(request.selections@) {
                Some(PlanError::Described(plan_failure("Each duplicate group may appear only once in a cleanup plan."@)))
            } else {
                None
            },
        }
    }
}

/// A plan made at `created_at` that moves the planned copies.
pub open spec fn duplicate_plan_built(
    plan: DuplicateCleanupPlan,
    request: CreateDuplicateCleanupPlanRequest,
    planned: Seq<PlannedCopy>,
    created_at: i64,
) -> bool {
    &&& is_hyphenated_uuid(plan.id@)
    &&& is_hyphenated_uuid(plan.confirmation_token@)
    &&& plan.scan_id@ == request.scan_id@
    &&& plan.created_at == created_at
    &&& plan.expires_at == created_at + PLAN_LIFETIME_MS
    &&& plan.action == CleanupAction::MoveToTrash
    &&& items_are(plan.items@, planned)
    &&& plan.expected_reclaimable_bytes == planned_total(planned, planned.len() as int)
    &&& plan.kept_copy_count == request.selections@.len()
}

fn distinct_groups_exec(sels: &Vec<DuplicateCleanupSelection>) -> (r: bool)
    ensures
        r == distinct_groups(sels@),
{
    let mut i: usize = 0;
    while i < sels.len()
        invariant
            i <= sels@.len(),
            forall|a: int, b: int| 0 <= a < b < sels@.len() && a < i ==> (#[trigger] sels@[a]).group_id@ != (#[trigger] sels@[b]).group_id@,
        decreases sels.len() - i,
    {
        let mut j: usize = i + 1;
        while j < sels.len()
            invariant
                i < sels@.len(),
                i + 1 <= j <= sels@.len(),
                forall|a: int, b: int| 0 <= a < b < sels@.len() && a < i ==> (#[trigger] sels@[a]).group_id@ != (#[trigger] sels@[b]).group_id@,
                forall|b: int| i < b < j ==> sels@[i as int].group_id@ != (#[trigger] sels@[b]).group_id@,
            decreases sels.len() - j,
        {
            if same_text(sels[i].group_id.as_str(), sels[j].group_id.as_str()) {
                return false;
            }
            j = j + 1;
        }
        i = i + 1;
    }
    true
}

impl DuplicateCleanupManager {
    /// Makes and keeps a plan from a request (see `request_failure` and
    /// `selections_spec`), where `scan_phase` is the phase of the scan as
    /// stored, `groups` each selected group as loaded and `facts` the file
    /// system's report on each group's copies. A plan moves at most 500
    /// copies, is valid for 15 minutes from `now`, and waits for
    /// confirmation (see `store_spec`).
    pub fn create_plan(
        &mut self,
        request: &CreateDuplicateCleanupPlanRequest,
        scan_phase: Result<DuplicateScanPhase, CommandError>,
        groups: &Vec<Result<DuplicateGroup, CommandError>>,
        facts: &Vec<Vec<CopyFacts>>,
        home: &str,
        platform: &str,
        now: i64,
    ) -> (r: Result<DuplicateCleanupPlan, CommandError>)
        requires
            old(self).wf(),
            groups@.len() == request.selections@.len(),
            facts@.len() == request.selections@.len(),
            forall|i: int| 0 <= i < groups@.len() ==> (#[trigger] groups@[i] matches Ok(g) ==> facts@[i]@.len() == g.copies@.len()),
            now + PLAN_LIFETIME_MS <= i64::MAX,
        ensures
            final(self).wf(),
            final(self).active == old(self).active,
            final(self).consumed_plans == old(self).consumed_plans,
            match request_failure(*request, scan_phase) {
                Some(pe) => (r matches Err(e) && plan_error_is(e, pe)) && final(self).plans == old(self).plans,
                None => match selections_spec(request.selections@, groups@, facts@, home@, platform@, request.selections@.len() as int) {
                    Err(pe) => (r matches Err(e) && plan_error_is(e, pe)) && final(self).plans == old(self).plans,
                    Ok(planned) => if planned.len() > MAX_PLAN_ITEMS {
                        (r matches Err(e) && is_failure(e, plan_failure("A duplicate cleanup plan may move at most 500 files at once."@)))
                            && final(self).plans == old(self).plans
                    } else {
                        exists|plan: DuplicateCleanupPlan| duplicate_plan_built(plan, *request, planned, now)
                            && #[trigger] store_spec(*old(self), *final(self), plan, now, r)
                    },
                },
            },
    {
        if request.action != CleanupAction::MoveToTrash {
            return Err(CommandError::new(
                ErrorCode::CommandUnavailable,
                "Duplicate cleanup is Trash-only. Permanent deletion is disabled.",
                true,
            ));
        }
        let phase = match scan_phase {
            Err(e) => return Err(e),
            Ok(p) => p,
        };
        if phase != DuplicateScanPhase::Completed {
            return Err(invalid_plan("Duplicate cleanup plans require a completed duplicate scan."));
        }
        if request.selections.len() == 0 || request.selections.len() > MAX_SELECTIONS {
            return Err(invalid_plan("Select between 1 and 250 duplicate groups."));
        }
        if !distinct_groups_exec(&request.selections) {
            return Err(invalid_plan("Each duplicate group may appear only once in a cleanup plan."));
        }
        let ghost total_sels = request.selections@.len() as int;
        let mut items: Vec<DuplicateCleanupPlanItem> = Vec::new();
        let mut expected: u64 = 0;
        let mut s: usize = 0;
        while s < request.selections.len()
            invariant
                groups@.len() == request.selections@.len(),
                facts@.len() == request.selections@.len(),
                forall|i: int| 0 <= i < groups@.len() ==> (#[trigger] groups@[i] matches Ok(g) ==> facts@[i]@.len() == g.copies@.len()),
                total_sels == request.selections@.len(),
                request_failure(*request, scan_phase) is None,
                self.wf(),
                self.plans == old(self).plans,
                self.active == old(self).active,
                self.consumed_plans == old(self).consumed_plans,
                0 <= s <= request.selections@.len(),
                selections_spec(request.selections@, groups@, facts@, home@, platform@, s as int) matches Ok(p)
                    && items_are(items@, p) && expected == planned_total(p, p.len() as int),
            decreases request.selections@.len() - s,
        {
            let ghost prev = selections_spec(request.selections@, groups@, facts@, home@, platform@, s as int)->Ok_0;
            let group = match &groups[s] {
                Err(e) => {
                    proof { lemma_selections_failure_stays(request.selections@, groups@, facts@, home@, platform@, s + 1, total_sels); }
                    return Err(e.clone_error());
                },
                Ok(g) => g,
            };
            let more = match selection_items(&request.selections[s], group, &facts[s], home, platform) {
                Err(e) => {
                    proof { lemma_selections_failure_stays(request.selections@, groups@, facts@, home@, platform@, s + 1, total_sels); }
                    return Err(e);
                },
                Ok(v) => v,
            };
            let ghost p_s = selection_spec(request.selections@[s as int], *group, facts@[s as int]@, home@, platform@)->Ok_0;
            let ghost before = items@;
            let mut j: usize = 0;
            while j < more.len()
                invariant
                    0 <= j <= more@.len(),
                    items_are(more@, p_s),
                    items_are(items@, prev + p_s.take(j as int)),
                    expected == planned_total(prev + p_s.take(j as int), prev.len() + j),
                    items@.len() == prev.len() + j,
                decreases more@.len() - j,
            {
                let ghost q = prev + p_s.take(j as int);
                let ghost q1 = prev + p_s.take(j + 1);
                assert(q1 =~= q.push(p_s[j as int]));
                let item = copy_duplicate_item(&more[j]);
                assert(item_is(more@[j as int], p_s[j as int]));
                let size = item.expected_size;
                if expected > u64::MAX - size {
                    expected = u64::MAX;
                } else {
                    expected = expected + size;
                }
                let ghost items_before = items@;
                items.push(item);
                proof {
                    assert(planned_total(q1, q1.len() as int) == expected) by {
                        assert(q1.drop_last() =~= q);
                        assert(q1[q1.len() - 1] == p_s[j as int]);
                        lemma_planned_total_prefix(q1, q, q.len() as int);
                    }
                    assert forall|i: int| 0 <= i < items@.len() implies item_is(#[trigger] items@[i], q1[i]) by {
                        if i < items_before.len() {
                            assert(items@[i] == items_before[i]);
                            assert(q1[i] == q[i]);
                        }
                    }
                }
                j = j + 1;
            }
            assert(p_s.take(p_s.len() as int) =~= p_s);
            s = s + 1;
        }
        let ghost planned = selections_spec(request.selections@, groups@, facts@, home@, platform@, total_sels)->Ok_0;
        if items.len() > MAX_PLAN_ITEMS {
            return Err(invalid_plan("A duplicate cleanup plan may move at most 500 files at once."));
        }
        let plan = DuplicateCleanupPlan {
            id: new_v4_string(),
            scan_id: request.scan_id.clone(),
            created_at: now,
            expires_at: now + PLAN_LIFETIME_MS,
            action: CleanupAction::MoveToTrash,
            items,
            expected_reclaimable_bytes: expected,
            kept_copy_count: request.selections.len() as u64,
            confirmation_token: new_v4_string(),
        };
        let ghost built = plan;
        assert(duplicate_plan_built(built, *request, planned, now));
        self.store_plan(plan, now)
    }
}


proof fn lemma_copy_position_match(copies: Seq<DuplicateCopy>, id: Seq<char>, n: int)
    requires
        0 <= n <= copies.len(),
    ensures
        copy_position(copies, id, n) matches Some(k) ==> 0 <= k < n && copies[k].id@ == id,
    decreases n,
{
    if n > 0 {
        lemma_copy_position_match(copies, id, n - 1);
    }
}

proof fn lemma_trash_items(
    sel: DuplicateCleanupSelection,
    group: DuplicateGroup,
    facts: Seq<CopyFacts>,
    keep: DuplicateCopy,
    keep_canonical: Seq<char>,
    keep_modified: Option<i64>,
    home: Seq<char>,
    platform: Seq<char>,
    n: int,
)
    requires
        0 <= n <= sel.trash_copy_ids@.len(),
        trash_spec(sel, group, facts, keep, keep_canonical, keep_modified, home, platform, n) is Ok,
    ensures
        ({
            let p = trash_spec(sel, group, facts, keep, keep_canonical, keep_modified, home, platform, n)->Ok_0;
            &&& p.len() == n
            &&& forall|i: int| 0 <= i < n ==> (#[trigger] p[i]).copy_id == sel.trash_copy_ids@[i]@ && p[i].keep_copy_id == keep.id@
        }),
    decreases n,
{
    if n > 0 {
        lemma_trash_items(sel, group, facts, keep, keep_canonical, keep_modified, home, platform, n - 1);
        lemma_copy_position_match(group.copies@, sel.trash_copy_ids@[n - 1]@, group.copies@.len() as int);
        let p = trash_spec(sel, group, facts, keep, keep_canonical, keep_modified, home, platform, n)->Ok_0;
        let q = trash_spec(sel, group, facts, keep, keep_canonical, keep_modified, home, platform, n - 1)->Ok_0;
        assert forall|i: int| 0 <= i < n implies (#[trigger] p[i]).copy_id == sel.trash_copy_ids@[i]@ && p[i].keep_copy_id == keep.id@ by {
            if i < n - 1 {
                assert(p[i] == q[i]);
            }
        }
    }
}

/// Every group a plan touches keeps a copy: the kept copy is one of the
/// group's copies, it is never among the copies moved, each moved copy
/// names it as the copy kept, and fewer copies are moved than the group has.
pub proof fn law_plan_keeps_a_copy_of_each_group(
    sel: DuplicateCleanupSelection,
    group: DuplicateGroup,
    facts: Seq<CopyFacts>,
    home: Seq<char>,
    platform: Seq<char>,
)
    requires
        selection_spec(sel, group, facts, home, platform) is Ok,
    ensures
        ({
            let p = selection_spec(sel, group, facts, home, platform)->Ok_0;
            &&& exists|k: int| 0 <= k < group.copies@.len() && (#[trigger] group.copies@[k]).id@ == sel.keep_copy_id@
            &&& 1 <= p.len() < group.copies@.len()
            &&& forall|i: int| 0 <= i < p.len() ==> (#[trigger] p[i]).copy_id != sel.keep_copy_id@
                && p[i].keep_copy_id == sel.keep_copy_id@
        }),
{
    let copies = group.copies@;
    lemma_copy_position_match(copies, sel.keep_copy_id@, copies.len() as int);
    let k = copy_position(copies, sel.keep_copy_id@, copies.len() as int)->Some_0;
    let keep = copies[k];
    let (kc, km) = snapshot_spec(keep.path@, group.file_size, keep.modified_at, facts[k])->Ok_0;
    let n = sel.trash_copy_ids@.len() as int;
    lemma_trash_items(sel, group, facts, keep, kc, km, home, platform, n);
    let p = selection_spec(sel, group, facts, home, platform)->Ok_0;
    assert forall|i: int| 0 <= i < p.len() implies (#[trigger] p[i]).copy_id != sel.keep_copy_id@
        && p[i].keep_copy_id == sel.keep_copy_id@ by {
        if p[i].copy_id == sel.keep_copy_id@ {
            assert(sel.trash_copy_ids@[i]@ == sel.keep_copy_id@);
            assert(contains_text(sel.trash_copy_ids@, sel.keep_copy_id@));
        }
    }
}


/// Which check of the paths this is: the first, before the contents are
/// read, or the last, after.
#[derive(Debug, Clone, Copy, PartialEq, Eq, Structural)]
pub enum PathCheck {
    Before,
    After,
}

/// One of the checks a copy passes again before it is moved.
#[derive(Debug, Clone, Copy, PartialEq, Eq, Structural)]
pub enum CopyCheck {
    /// Both paths, before the contents are read.
    PathsBefore,
    /// The full hashes of both copies.
    Hashes,
    /// The two contents, byte for byte.
    Bytes,
    /// Both paths again, after the contents were read.
    PathsAfter,
}

/// The check that follows `last` (none yet at the start): the paths, then the
/// hashes, then the bytes when the group was verified byte for byte, then the
/// paths again; nothing after that.
pub open spec fn next_copy_check_spec(byte_for_byte_verified: bool, last: Option<CopyCheck>) -> Option<CopyCheck> {
    match last {
        None => Some(CopyCheck::PathsBefore),
        Some(CopyCheck::PathsBefore) => Some(CopyCheck::Hashes),
        Some(CopyCheck::Hashes) => if byte_for_byte_verified { Some(CopyCheck::Bytes) } else { Some(CopyCheck::PathsAfter) },
        Some(CopyCheck::Bytes) => Some(CopyCheck::PathsAfter),
        Some(CopyCheck::PathsAfter) => None,
    }
}

/// The check a copy takes next; a copy passes every check in turn, and a
/// failed check ends its revalidation (see `next_copy_check_spec`).
pub fn next_copy_check(byte_for_byte_verified: bool, last: Option<CopyCheck>) -> (r: Option<CopyCheck>)
    ensures
        r == next_copy_check_spec(byte_for_byte_verified, last),
{
    match last {
        None => Some(CopyCheck::PathsBefore),
        Some(CopyCheck::PathsBefore) => Some(CopyCheck::Hashes),
        Some(CopyCheck::Hashes) => if byte_for_byte_verified { Some(CopyCheck::Bytes) } else { Some(CopyCheck::PathsAfter) },
        Some(CopyCheck::Bytes) => Some(CopyCheck::PathsAfter),
        Some(CopyCheck::PathsAfter) => None,
    }
}

/// The checks a copy passes, in order, from the start.
pub open spec fn copy_checks(byte_for_byte_verified: bool) -> Seq<CopyCheck> {
    if byte_for_byte_verified {
        seq![CopyCheck::PathsBefore, CopyCheck::Hashes, CopyCheck::Bytes, CopyCheck::PathsAfter]
    } else {
        seq![CopyCheck::PathsBefore, CopyCheck::Hashes, CopyCheck::PathsAfter]
    }
}

/// Following the checks from the start visits exactly `copy_checks`: the
/// paths before and after the contents are read, the hashes, and the bytes
/// exactly when the group was verified byte for byte.
pub proof fn law_copy_checks_run_in_order(byte_for_byte_verified: bool)
    ensures
        ({
            let c = copy_checks(byte_for_byte_verified);
            &&& next_copy_check_spec(byte_for_byte_verified, None) == Some(c[0])
            &&& forall|i: int| 0 <= i < c.len() - 1 ==> next_copy_check_spec(byte_for_byte_verified, Some(#[trigger] c[i])) == Some(c[i + 1])
            &&& next_copy_check_spec(byte_for_byte_verified, Some(c[c.len() - 1])) is None
            &&& c.contains(CopyCheck::Bytes) == byte_for_byte_verified
        }),
{
    let c = copy_checks(byte_for_byte_verified);
    if byte_for_byte_verified {
        assert(c[2] == CopyCheck::Bytes);
    } else {
        assert forall|i: int| 0 <= i < c.len() implies c[i] != CopyCheck::Bytes by {}
    }
}

/// Why an item's paths no longer qualify, if they do not: both copies must
/// still be the files reviewed and resolve where they did; before the
/// contents are read, neither may be protected.
pub open spec fn paths_failure(
    item: DuplicateCleanupPlanItem,
    keep: CopyFacts,
    target: CopyFacts,
    home: Seq<char>,
    platform: Seq<char>,
    check: PathCheck,
) -> Option<Failure> {
    match snapshot_spec(item.keep_path@, item.expected_size, item.keep_modified_at, keep) {
        Err(f) => Some(f),
        Ok((kc, _)) => match snapshot_spec(item.path@, item.expected_size, item.expected_modified_at, target) {
            Err(f) => Some(f),
            Ok((tc, _)) => if kc != item.keep_canonical_path@ || tc != item.canonical_path@ {
                Some(plan_failure(if check == PathCheck::Before {
                    "A duplicate path now resolves somewhere else. The item was skipped."@
                } else {
                    "A duplicate path changed while it was being revalidated. The item was skipped."@
                }))
            } else if check == PathCheck::Before && (policy_cleanup_check(home, platform, kc, true) is Some
                || policy_cleanup_check(home, platform, tc, true) is Some) {
                Some(Failure {
                    code: ErrorCode::PathProtected,
                    message: "A duplicate path is protected and cannot be moved to Trash."@,
                    recoverable: true,
                    path: None,
                    details: None,
                })
            } else {
                None
            },
        },
    }
}

pub open spec fn check_matches(r: Result<(), CommandError>, f: Option<Failure>) -> bool {
    match f {
        None => r is Ok,
        Some(x) => r matches Err(e) && is_failure(e, x),
    }
}

/// Checks an item's two paths again (see `paths_failure`).
pub fn revalidate_paths(
    item: &DuplicateCleanupPlanItem,
    keep: &CopyFacts,
    target: &CopyFacts,
    home: &str,
    platform: &str,
    check: PathCheck,
) -> (r: Result<(), CommandError>)
    ensures
        check_matches(r, paths_failure(*item, *keep, *target, home@, platform@, check)),
{
    let (kc, _) = snapshot_file(item.keep_path.as_str(), item.expected_size, item.keep_modified_at, keep)?;
    let (tc, _) = snapshot_file(item.path.as_str(), item.expected_size, item.expected_modified_at, target)?;
    if !same_text(kc.as_str(), item.keep_canonical_path.as_str()) || !same_text(tc.as_str(), item.canonical_path.as_str()) {
        return Err(match check {
            PathCheck::Before => invalid_plan("A duplicate path now resolves somewhere else. The item was skipped."),
            PathCheck::After => invalid_plan("A duplicate path changed while it was being revalidated. The item was skipped."),
        });
    }
    if check == PathCheck::Before {
        let policy = ProtectedPathPolicy::for_platform(home, platform);
        if policy.check_cleanup_candidate(kc.as_str(), true).is_some() || policy.check_cleanup_candidate(tc.as_str(), true).is_some() {
            return Err(CommandError::new(
                ErrorCode::PathProtected,
                "A duplicate path is protected and cannot be moved to Trash.",
                true,
            ));
        }
    }
    Ok(())
}

/// Checks the fingerprints of both copies, taken again, against the
/// reviewed one: a failed fingerprint stops the item with its error (the
/// kept copy's first), and a different one skips it.
pub fn revalidate_hashes(
    item: &DuplicateCleanupPlanItem,
    keep_hash: Result<String, CommandError>,
    target_hash: Result<String, CommandError>,
) -> (r: Result<(), CommandError>)
    ensures
        match (keep_hash, target_hash) {
            (Err(e), _) => r == Err::<(), CommandError>(e),
            (Ok(_), Err(e)) => r == Err::<(), CommandError>(e),
            (Ok(k), Ok(t)) => if k@ != item.full_hash@ || t@ != item.full_hash@ {
                r matches Err(e) && is_failure(e, plan_failure("The keep copy or selected duplicate no longer matches the reviewed content."@))
            } else {
                r is Ok
            },
        },
{
    let k = keep_hash?;
    let t = target_hash?;
    if !same_text(k.as_str(), item.full_hash.as_str()) || !same_text(t.as_str(), item.full_hash.as_str()) {
        return Err(invalid_plan("The keep copy or selected duplicate no longer matches the reviewed content."));
    }
    Ok(())
}

/// Checks a byte-for-byte comparison of the two copies, made again when the
/// group was verified that way.
pub fn revalidate_bytes(equal: Result<bool, CommandError>) -> (r: Result<(), CommandError>)
    ensures
        match equal {
            Err(e) => r == Err::<(), CommandError>(e),
            Ok(true) => r is Ok,
            Ok(false) => r matches Err(e)
                && is_failure(e, plan_failure("Byte-for-byte verification no longer matches the reviewed duplicate group."@)),
        },
{
    if !equal? {
        return Err(invalid_plan("Byte-for-byte verification no longer matches the reviewed duplicate group."));
    }
    Ok(())
}

/// The rule identifier reported with duplicate cleanup results.
pub open spec fn duplicate_rule_id() -> Seq<char> {
    "duplicate.blake3-v1"@
}

/// The result of one duplicate copy, as shown to the user.
pub open spec fn duplicate_result_of(
    r: CleanupItemResult,
    item: DuplicateCleanupPlanItem,
    home: Seq<char>,
    status: CleanupItemStatus,
    error: Option<CommandError>,
) -> bool {
    &&& r.finding_id@ == item.copy_id@
    &&& r.rule_id@ == duplicate_rule_id()
    &&& r.display_path@ == display_path(item.path@, home)
    &&& r.expected_bytes == item.expected_size
    &&& r.status == status
    &&& r.error == error
}

pub fn duplicate_item_result(item: &DuplicateCleanupPlanItem, home: &str, status: CleanupItemStatus, error: Option<CommandError>)
    -> (r: CleanupItemResult)
    ensures
        duplicate_result_of(r, *item, home@, status, error),
{
    CleanupItemResult {
        finding_id: item.copy_id.clone(),
        rule_id: String::from_str("duplicate.blake3-v1"),
        display_path: display_path_exec(item.path.as_str(), home),
        expected_bytes: item.expected_size,
        status,
        error,
    }
}

/// What happened to one copy: the cleanup was cancelled before it, its
/// checks failed, or the move to the Trash succeeded or failed.
#[derive(Debug)]
pub enum CopyOutcome {
    Cancelled,
    Invalid(CommandError),
    Moved,
    MoveFailed(CommandError),
}

/// A copy's outcome from the outcome an item's steps ended with (see
/// `next_item_step`).
pub fn copy_outcome(o: ItemOutcome) -> (c: CopyOutcome)
    ensures
        match o {
            ItemOutcome::Cancelled => c is Cancelled,
            ItemOutcome::Invalid(e) => c == CopyOutcome::Invalid(e),
            ItemOutcome::Moved => c is Moved,
            ItemOutcome::MoveFailed(e) => c == CopyOutcome::MoveFailed(e),
        },
{
    match o {
        ItemOutcome::Cancelled => CopyOutcome::Cancelled,
        ItemOutcome::Invalid(e) => CopyOutcome::Invalid(e),
        ItemOutcome::Moved => CopyOutcome::Moved,
        ItemOutcome::MoveFailed(e) => CopyOutcome::MoveFailed(e),
    }
}

/// The result of a copy from its outcome: skipped when cancelled or no
/// longer valid, moved, or failed.
pub fn copy_outcome_result(item: &DuplicateCleanupPlanItem, home: &str, outcome: CopyOutcome) -> (r: CleanupItemResult)
    ensures
        match outcome {
            CopyOutcome::Cancelled => duplicate_result_of(r, *item, home@, CleanupItemStatus::Skipped, r.error)
                && (r.error matches Some(e) && plain_error(e, ErrorCode::ScanCancelled,
                    "Duplicate cleanup was cancelled before this item was moved."@, true)),
            CopyOutcome::Invalid(e) => duplicate_result_of(r, *item, home@, CleanupItemStatus::Skipped, Some(e)),
            CopyOutcome::Moved => duplicate_result_of(r, *item, home@, CleanupItemStatus::MovedToTrash, None),
            CopyOutcome::MoveFailed(e) => duplicate_result_of(r, *item, home@, CleanupItemStatus::Failed, Some(e)),
        },
{
    match outcome {
        CopyOutcome::Cancelled => duplicate_item_result(item, home, CleanupItemStatus::Skipped, Some(CommandError::new(
            ErrorCode::ScanCancelled,
            "Duplicate cleanup was cancelled before this item was moved.",
            true,
        ))),
        CopyOutcome::Invalid(e) => duplicate_item_result(item, home, CleanupItemStatus::Skipped, Some(e)),
        CopyOutcome::Moved => duplicate_item_result(item, home, CleanupItemStatus::MovedToTrash, None),
        CopyOutcome::MoveFailed(e) => duplicate_item_result(item, home, CleanupItemStatus::Failed, Some(e)),
    }
}

/// The recorded outcome of a duplicate cleanup: always a move to the Trash.
pub fn build_duplicate_summary(
    operation_id: &str,
    plan: &DuplicateCleanupPlan,
    started_at: i64,
    completed_at: i64,
    progress: &CleanupProgress,
    items: Vec<CleanupItemResult>,
    disks_before: &[DiskInfo],
    disks_after: Vec<DiskInfo>,
    cancelled: bool,
) -> (s: CleanupSummary)
    ensures
        s.operation_id@ == operation_id@,
        s.plan_id == plan.id,
        s.started_at == started_at,
        s.completed_at == completed_at,
        s.action == CleanupAction::MoveToTrash,
        s.selected_count == plan.items@.len(),
        s.success_count == progress.success_count,
        s.failure_count == progress.failure_count,
        s.skipped_count == progress.skipped_count,
        s.expected_bytes == plan.expected_reclaimable_bytes,
        s.actual_free_space_change_bytes == free_space_change_spec(disks_before@, disks_after@),
        s.cancelled == cancelled,
        s.items == items,
        s.disks == disks_after,
{
    let change = free_space_change(disks_before, disks_after.as_slice());
    CleanupSummary {
        operation_id: String::from_str(operation_id),
        plan_id: plan.id.clone(),
        started_at,
        completed_at,
        action: CleanupAction::MoveToTrash,
        selected_count: plan.items.len() as u64,
        success_count: progress.success_count,
        failure_count: progress.failure_count,
        skipped_count: progress.skipped_count,
        expected_bytes: plan.expected_reclaimable_bytes,
        actual_free_space_change_bytes: change,
        cancelled,
        items,
        disks: disks_after,
    }
}

/// A duplicate cleanup request passes the first checks only when it asks to
/// move to the Trash and names a completed duplicate scan; a request for
/// permanent deletion is refused as unavailable.
pub proof fn law_only_trash_duplicate_plans_from_completed_scans(
    request: CreateDuplicateCleanupPlanRequest,
    scan_phase: Result<DuplicateScanPhase, CommandError>,
)
    ensures
        request_failure(request, scan_phase) is None ==> request.action == CleanupAction::MoveToTrash
            && scan_phase == Ok::<DuplicateScanPhase, CommandError>(DuplicateScanPhase::Completed),
        request.action == CleanupAction::PermanentDelete ==> (request_failure(request, scan_phase) matches Some(PlanError::Described(f))
            && f.code == ErrorCode::CommandUnavailable),
{
}

} // verus!
