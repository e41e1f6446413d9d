use vstd::prelude::*;
use crate::domain::cleanup::{
    CleanupAction, CleanupItemResult, CleanupItemStatus, CleanupPlan, CleanupPlanItem, CleanupProgress,
    CleanupSummary, CreateCleanupPlanRequest, ExecuteCleanupRequest, RiskSummary,
};
use crate::domain::disk::DiskInfo;
use crate::domain::error::{CommandError, ErrorCode};
use crate::domain::rule::RiskLevel;
use crate::domain::scan::ScanPhase;
use crate::ids::{is_hyphenated_uuid, new_v4_string};
use crate::paths::{display_path, display_path_exec};
use crate::persistence::common::{parse_uuid, uuid_parses};
use crate::persistence::history::HistoryRepository;
use crate::persistence::scans::ScanRepository;
use crate::rules::registry::RulesRegistry;
use crate::text::same_text;

verus! {

/// How long a reviewed cleanup plan stays valid: 15 minutes, in milliseconds.
pub const PLAN_LIFETIME_MS: i64 = 900_000;

/// The most plans that may await review at once.
pub const MAX_PENDING_PLANS: usize = 128;

/// How many used plan identifiers are remembered before the record is reset.
pub const MAX_CONSUMED_PLANS: usize = 1024;

/// The most findings one plan may hold.
pub const MAX_PLAN_ITEMS: usize = 500;

/// The cleanup that is running, and whether it was asked to stop.
#[derive(Debug, Clone)]
pub struct ActiveCleanup {
    pub operation_id: String,
    pub cancelled: bool,
}

/// The bookkeeping of cleanups: the plans awaiting confirmation, the
/// identifiers of plans already used, and the one cleanup that may run.
#[derive(Debug)]
pub struct CleanupManager {
    pub active: Option<ActiveCleanup>,
    pub plans: Vec<CleanupPlan>,
    pub consumed_plans: Vec<String>,
    pub scan_repository: ScanRepository,
    pub history_repository: HistoryRepository,
    pub rules_registry: RulesRegistry,
}

pub open spec fn consumed_views(v: Seq<String>) -> Seq<Seq<char>> {
    v.map_values(|s: String| s@)
}

/// The position of the first of the first `n` plans with this identifier.
pub open spec fn first_plan(plans: Seq<CleanupPlan>, id: Seq<char>, n: int) -> Option<int>
    decreases n,
{
    if n <= 0 {
        None
    } else {
        match first_plan(plans, id, n - 1) {
            Some(k) => Some(k),
            None => if plans[n - 1].id@ == id { Some(n - 1) } else { None },
        }
    }
}

/// The position of the plan with this identifier, if one awaits confirmation.
pub open spec fn plan_index(plans: Seq<CleanupPlan>, id: Seq<char>) -> Option<int> {
    first_plan(plans, id, plans.len() as int)
}

proof fn lemma_first_plan_stable(plans: Seq<CleanupPlan>, id: Seq<char>, n: int, m: int)
    requires
        0 <= n <= m,
        first_plan(plans, id, n) is Some,
    ensures
        first_plan(plans, id, m) == first_plan(plans, id, n),
    decreases m - n,
{
    if m > n {
        lemma_first_plan_stable(plans, id, n, m - 1);
    }
}

proof fn lemma_first_plan_none(plans: Seq<CleanupPlan>, id: Seq<char>, n: int)
    requires
        0 <= n <= plans.len(),
        forall|j: int| 0 <= j < n ==> (#[trigger] plans[j]).id@ != id,
    ensures
        first_plan(plans, id, n) is None,
    decreases n,
{
    if n > 0 {
        lemma_first_plan_none(plans, id, n - 1);
    }
}

/// No two pending plans share an identifier.
pub open spec fn unique_plan_ids(plans: Seq<CleanupPlan>) -> bool {
    forall|a: int, b: int| 0 <= a < b < plans.len() ==> (#[trigger] plans[a]).id@ != (#[trigger] plans[b]).id@
}

/// The plans that have not expired by `now`, in their order.
pub open spec fn live_plans(plans: Seq<CleanupPlan>, now: i64) -> Seq<CleanupPlan>
    decreases plans.len(),
{
    if plans.len() == 0 {
        Seq::empty()
    } else if now < plans[0].expires_at {
        seq![plans[0]] + live_plans(plans.drop_first(), now)
    } else {
        live_plans(plans.drop_first(), now)
    }
}

/// The pending plans with `plan` put among them: it takes the place of the
/// plan with its identifier, or comes last.
pub open spec fn put_plan(plans: Seq<CleanupPlan>, plan: CleanupPlan) -> Seq<CleanupPlan> {
    match plan_index(plans, plan.id@) {
        Some(k) => plans.update(k, plan),
        None => plans.push(plan),
    }
}

/// Two plans agree in every field.
pub open spec fn same_plan(p: CleanupPlan, q: CleanupPlan) -> bool {
    &&& p.id == q.id
    &&& p.created_at == q.created_at
    &&& p.expires_at == q.expires_at
    &&& p.action == q.action
    &&& p.items@ == q.items@
    &&& p.expected_reclaimable_bytes == q.expected_reclaimable_bytes
    &&& p.risk_summary == q.risk_summary
    &&& p.confirmation_token == q.confirmation_token
}

/// `store_plan`: the plans that expired by `now` are dropped; the plan is
/// refused exactly when 128 unexpired plans already wait, and is otherwise
/// put among them. Nothing else changes.
pub open spec fn store_spec(
    before: CleanupManager,
    after: CleanupManager,
    plan: CleanupPlan,
    now: i64,
    r: Result<CleanupPlan, CommandError>,
) -> bool {
    let live = live_plans(before.plans@, now);
    &&& after.active == before.active
    &&& after.consumed_plans == before.consumed_plans
    &&& (r is Err <==> live.len() >= MAX_PENDING_PLANS)
    &&& match r {
        Ok(p) => same_plan(p, plan) && after.plans@ == put_plan(live, plan),
        Err(e) => plain_error(e, ErrorCode::CommandUnavailable, "Too many cleanup plans are awaiting review."@, true)
            && after.plans@ == live,
    }
}

/// A plan is among the unexpired ones exactly when it waits and has not expired.
pub proof fn lemma_live_plans(plans: Seq<CleanupPlan>, now: i64)
    ensures
        forall|p: CleanupPlan| #[trigger] live_plans(plans, now).contains(p) <==> plans.contains(p) && now < p.expires_at,
    decreases plans.len(),
{
    if plans.len() > 0 {
        let rest = plans.drop_first();
        lemma_live_plans(rest, now);
        let live = live_plans(plans, now);
        let tail = live_plans(rest, now);
        assert forall|p: CleanupPlan| #[trigger] live.contains(p) <==> plans.contains(p) && now < p.expires_at by {
            if live.contains(p) {
                let j = choose|j: int| 0 <= j < live.len() && live[j] == p;
                if now < plans[0].expires_at {
                    if j == 0 {
                        assert(plans[0] == p);
                    } else {
                        assert(tail[j - 1] == p);
                        assert(tail.contains(p));
                        let i = choose|i: int| 0 <= i < rest.len() && rest[i] == p;
                        assert(plans[i + 1] == p);
                    }
                } else {
                    assert(tail[j] == p);
                    assert(tail.contains(p));
                    let i = choose|i: int| 0 <= i < rest.len() && rest[i] == p;
                    assert(plans[i + 1] == p);
                }
            }
            if plans.contains(p) && now < p.expires_at {
                let i = choose|i: int| 0 <= i < plans.len() && plans[i] == p;
                if i == 0 {
                    assert(live[0] == p);
                } else {
                    assert(rest[i - 1] == p);
                    assert(tail.contains(p));
                    let j = choose|j: int| 0 <= j < tail.len() && tail[j] == p;
                    if now < plans[0].expires_at {
                        assert(live[j + 1] == p);
                    } else {
                        assert(live[j] == p);
                    }
                }
            }
        }
    }
}

/// The plan at a position is the one `plan_index` finds for its identifier
/// when identifiers are unique.
proof fn lemma_plan_index_of_unique(plans: Seq<CleanupPlan>, j: int)
    requires
        unique_plan_ids(plans),
        0 <= j < plans.len(),
    ensures
        plan_index(plans, plans[j].id@) == Some(j),
{
    let id = plans[j].id@;
    assert forall|i: int| 0 <= i < j implies (#[trigger] plans[i]).id@ != id by {}
    lemma_first_plan_none(plans, id, j);
    assert(first_plan(plans, id, j + 1) == Some(j));
    lemma_first_plan_stable(plans, id, j + 1, plans.len() as int);
}

/// Storing a plan keeps every other plan that waits and has not expired.
pub proof fn law_storing_keeps_waiting_plans(
    m0: CleanupManager,
    m1: CleanupManager,
    plan: CleanupPlan,
    now: i64,
    r: Result<CleanupPlan, CommandError>,
    waiting: CleanupPlan,
)
    requires
        store_spec(m0, m1, plan, now, r),
        m0.plans@.contains(waiting),
        now < waiting.expires_at,
        waiting.id@ != plan.id@,
    ensures
        m1.plans@.contains(waiting),
{
    let live = live_plans(m0.plans@, now);
    lemma_live_plans(m0.plans@, now);
    assert(live.contains(waiting));
    if r is Ok {
        let j = choose|j: int| 0 <= j < live.len() && live[j] == waiting;
        lemma_first_plan_is_match(live, plan.id@, live.len() as int);
        match plan_index(live, plan.id@) {
            Some(k) => {
                assert(m1.plans@[j] == waiting);
            },
            None => {
                assert(m1.plans@[j] == waiting);
            },
        }
    }
}

/// A stored plan is handed out, as it was stored, to a request that names it
/// with its confirmation token before it expires.
pub proof fn law_stored_plan_can_be_confirmed(
    m0: CleanupManager,
    m1: CleanupManager,
    m2: CleanupManager,
    plan: CleanupPlan,
    now0: i64,
    r1: Result<CleanupPlan, CommandError>,
    request: ExecuteCleanupRequest,
    now1: i64,
    r2: Result<CleanupPlan, CommandError>,
)
    requires
        store_spec(m0, m1, plan, now0, r1),
        unique_plan_ids(m1.plans@),
        r1 is Ok,
        uuid_parses(plan.id@),
        request.plan_id@ == plan.id@,
        request.confirmation_token@ == plan.confirmation_token@,
        now1 < plan.expires_at,
        consume_spec(m1, m2, request, now1, r2),
    ensures
        r2 == Ok::<CleanupPlan, CommandError>(plan),
{
    let live = live_plans(m0.plans@, now0);
    lemma_first_plan_is_match(live, plan.id@, live.len() as int);
    let j = match plan_index(live, plan.id@) {
        Some(k) => k,
        None => live.len() as int,
    };
    assert(m1.plans@[j] == plan);
    lemma_plan_index_of_unique(m1.plans@, j);
}

/// The error is the given code and message, recoverable or not, naming no path.
pub open spec fn plain_error(e: CommandError, code: ErrorCode, message: Seq<char>, recoverable: bool) -> bool {
    e.code == code && e.message@ == message && e.recoverable == recoverable && e.path is None && e.details is None
}

/// `consume_plan`: a plan is handed out once, only before it expires and only
/// with the confirmation token it was issued with. An expired plan is
/// dropped; a wrong token leaves the plan in place; a used plan's identifier
/// is remembered so that reuse is told apart from expiry.
pub open spec fn consume_spec(
    before: CleanupManager,
    after: CleanupManager,
    request: ExecuteCleanupRequest,
    now: i64,
    r: Result<CleanupPlan, CommandError>,
) -> bool {
    let id = request.plan_id@;
    &&& after.active == before.active
    &&& if !uuid_parses(id) {
        &&& after.plans == before.plans
        &&& after.consumed_plans == before.consumed_plans
        &&& r matches Err(e) && plain_error(e, ErrorCode::PlanValidationFailed, "The cleanup plan identifier is invalid."@, true)
    } else {
        match plan_index(before.plans@, id) {
            None => {
                &&& after.plans == before.plans
                &&& after.consumed_plans == before.consumed_plans
                &&& if consumed_views(before.consumed_plans@).contains(id) {
                    r matches Err(e) && plain_error(e, ErrorCode::PlanValidationFailed, "This cleanup plan has already been used."@, true)
                } else {
                    r matches Err(e) && plain_error(e, ErrorCode::PlanExpired, "This cleanup plan is unavailable or expired."@, true)
                }
            },
            Some(k) => {
                let plan = before.plans@[k];
                if now >= plan.expires_at {
                    &&& after.plans@ == before.plans@.remove(k)
                    &&& after.consumed_plans == before.consumed_plans
                    &&& r matches Err(e) && plain_error(e, ErrorCode::PlanExpired, "This cleanup plan expired. Review the findings again."@, true)
                } else if request.confirmation_token@ != plan.confirmation_token@ {
                    &&& after.plans == before.plans
                    &&& after.consumed_plans == before.consumed_plans
                    &&& r matches Err(e) && plain_error(e, ErrorCode::PlanValidationFailed, "Cleanup confirmation did not match the reviewed plan."@, false)
                } else {
                    &&& r == Ok::<CleanupPlan, CommandError>(plan)
                    &&& after.plans@ == before.plans@.remove(k)
                    &&& consumed_views(after.consumed_plans@) == (if before.consumed_plans@.len() >= MAX_CONSUMED_PLANS {
                        Seq::<Seq<char>>::empty()
                    } else {
                        consumed_views(before.consumed_plans@)
                    }).push(id)
                }
            },
        }
    }
}

/// A plan built from reviewed items at `created_at`.
pub open spec fn plan_built(p: CleanupPlan, items: Seq<CleanupPlanItem>, created_at: i64) -> bool {
    &&& is_hyphenated_uuid(p.id@)
    &&& is_hyphenated_uuid(p.confirmation_token@)
    &&& p.created_at == created_at
    &&& p.expires_at == created_at + PLAN_LIFETIME_MS
    &&& p.action == CleanupAction::MoveToTrash
    &&& p.items@ == items
    &&& p.expected_reclaimable_bytes == saturating_total(items, items.len() as int)
    &&& p.risk_summary.safe == risk_count(items, RiskLevel::Safe, items.len() as int)
    &&& p.risk_summary.careful == risk_count(items, RiskLevel::Careful, items.len() as int)
    &&& p.risk_summary.expert == risk_count(items, RiskLevel::Expert, items.len() as int)
}

/// The expected sizes of the first `n` items, added with saturation.
pub open spec fn saturating_total(items: Seq<CleanupPlanItem>, n: int) -> u64
    decreases n,
{
    if n <= 0 {
        0
    } else {
        saturating_total(items, n - 1).saturating_add(items[n - 1].expected_size)
    }
}

/// How many of the first `n` items have the given risk.
pub open spec fn risk_count(items: Seq<CleanupPlanItem>, risk: RiskLevel, n: int) -> int
    decreases n,
{
    if n <= 0 {
        0
    } else {
        risk_count(items, risk, n - 1) + if items[n - 1].risk == risk { 1int } else { 0int }
    }
}

proof fn lemma_risk_count_bounded(items: Seq<CleanupPlanItem>, risk: RiskLevel, n: int)
    requires
        0 <= n,
    ensures
        0 <= risk_count(items, risk, n) <= n,
    decreases n,
{
    if n > 0 {
        lemma_risk_count_bounded(items, risk, n - 1);
    }
}

/// Whether the plan request may proceed: only moves to Trash are planned,
/// only from a completed scan (`scan_phase` is what loading its summary gave),
/// with between 1 and 500 distinct findings.
pub open spec fn plan_request_failure(request: CreateCleanupPlanRequest, scan_phase: Result<ScanPhase, CommandError>) -> Option<(ErrorCode, Seq<char>)> {
    if request.action != CleanupAction::MoveToTrash {
        Some((ErrorCode::CommandUnavailable, "Permanent deletion is disabled. Move to Trash is the only cleanup action."@))
    } else {
        match scan_phase {
            Err(e) => Some((e.code, e.message@)),
            Ok(phase) => if phase != ScanPhase::Completed {
                Some((ErrorCode::PlanValidationFailed, "Cleanup plans can only be created from a completed scan."@))
            } else if request.finding_ids@.len() == 0 || request.finding_ids@.len() > MAX_PLAN_ITEMS {
                Some((ErrorCode::PlanValidationFailed, "Select between 1 and 500 findings for a cleanup plan."@))
            } else if !distinct_ids(request.finding_ids@) {
                Some((ErrorCode::PlanValidationFailed, "A cleanup plan cannot contain duplicate findings."@))
            } else {
                None
            },
        }
    }
}

/// No identifier occurs twice.
pub open spec fn distinct_ids(ids: Seq<String>) -> bool {
    forall|a: int, b: int| 0 <= a < b < ids.len() ==> (#[trigger] ids[a])@ != (#[trigger] ids[b])@
}

fn distinct_ids_exec(ids: &Vec<String>) -> (r: bool)
    ensures
        r == distinct_ids(ids@),
{
    let mut i: usize = 0;
    while i < ids.len()
        invariant
            i <= ids@.len(),
            forall|a: int, b: int| 0 <= a < b < ids@.len() && a < i ==> (#[trigger] ids@[a])@ != (#[trigger] ids@[b])@,
        decreases ids.len() - i,
    {
        let mut j: usize = i + 1;
        while j < ids.len()
            invariant
                i < ids@.len(),
                i + 1 <= j <= ids@.len(),
                forall|a: int, b: int| 0 <= a < b < ids@.len() && a < i ==> (#[trigger] ids@[a])@ != (#[trigger] ids@[b])@,
                forall|b: int| i < b < j ==> ids@[i as int]@ != (#[trigger] ids@[b])@,
            decreases ids.len() - j,
        {
            if same_text(ids[i].as_str(), ids[j].as_str()) {
                return false;
            }
            j = j + 1;
        }
        i = i + 1;
    }
    true
}

/// A copy of a plan item, equal to it.
pub fn copy_item(item: &CleanupPlanItem) -> (r: CleanupPlanItem)
    ensures
        r == *item,
{
    CleanupPlanItem {
        scan_id: item.scan_id.clone(),
        finding_id: item.finding_id.clone(),
        rule_id: item.rule_id.clone(),
        rule_version: item.rule_version,
        path: item.path.clone(),
        canonical_path: item.canonical_path.clone(),
        expected_type: item.expected_type,
        expected_size: item.expected_size,
        expected_modified_at: item.expected_modified_at,
        risk: item.risk,
        validation_token: item.validation_token.clone(),
    }
}

/// A copy of a plan, with the same items.
pub fn copy_plan(plan: &CleanupPlan) -> (r: CleanupPlan)
    ensures
        r.id == plan.id,
        r.created_at == plan.created_at,
        r.expires_at == plan.expires_at,
        r.action == plan.action,
        r.items@ == plan.items@,
        r.expected_reclaimable_bytes == plan.expected_reclaimable_bytes,
        r.risk_summary == plan.risk_summary,
        r.confirmation_token == plan.confirmation_token,
{
    let mut items: Vec<CleanupPlanItem> = Vec::new();
    let mut i: usize = 0;
    while i < plan.items.len()
        invariant
            i <= plan.items@.len(),
            items@ == plan.items@.subrange(0, i as int),
        decreases plan.items.len() - i,
    {
        items.push(copy_item(&plan.items[i]));
        assert(items@ =~= plan.items@.subrange(0, i + 1));
        i = i + 1;
    }
    assert(items@ =~= plan.items@);
    CleanupPlan {
        id: plan.id.clone(),
        created_at: plan.created_at,
        expires_at: plan.expires_at,
        action: plan.action,
        items,
        expected_reclaimable_bytes: plan.expected_reclaimable_bytes,
        risk_summary: plan.risk_summary,
        confirmation_token: plan.confirmation_token.clone(),
    }
}

proof fn lemma_push_contains(s: Seq<Seq<char>>, x: Seq<char>, id: Seq<char>)
    ensures
        s.push(x).contains(id) == (s.contains(id) || x == id),
{
    if s.push(x).contains(id) {
        let j = choose|j: int| 0 <= j < s.push(x).len() && s.push(x)[j] == id;
        if j < s.len() {
            assert(s[j] == id);
        }
    }
    if s.contains(id) {
        let j = choose|j: int| 0 <= j < s.len() && s[j] == id;
        assert(s.push(x)[j] == id);
    }
    if x == id {
        assert(s.push(x)[s.len() as int] == x);
    }
}

proof fn lemma_remove_keeps_unique(plans: Seq<CleanupPlan>, k: int)
    requires
        0 <= k < plans.len(),
    ensures
        unique_plan_ids(plans) ==> unique_plan_ids(plans.remove(k)),
{
    if unique_plan_ids(plans) {
        let r = plans.remove(k);
        assert forall|a: int, b: int| 0 <= a < b < r.len() implies (#[trigger] r[a]).id@ != (#[trigger] r[b]).id@ by {
            let a0 = if a < k { a } else { a + 1 };
            let b0 = if b < k { b } else { b + 1 };
            assert(r[a] == plans[a0] && r[b] == plans[b0]);
        }
    }
}

/// The position of the first plan with this identifier, or the number of plans.
fn find_plan(plans: &Vec<CleanupPlan>, id: &str) -> (k: usize)
    ensures
        k <= plans@.len(),
        forall|j: int| 0 <= j < k ==> (#[trigger] plans@[j]).id@ != id@,
        k < plans@.len() ==> plans@[k as int].id@ == id@,
{
    let mut k: usize = 0;
    while k < plans.len()
        invariant
            k <= plans@.len(),
            forall|j: int| 0 <= j < k ==> (#[trigger] plans@[j]).id@ != id@,
        decreases plans.len() - k,
    {
        if same_text(plans[k].id.as_str(), id) {
            return k;
        }
        k = k + 1;
    }
    k
}

impl CleanupManager {
    /// A manager with no plan pending and no cleanup running.
    pub fn new(scan_repository: ScanRepository, history_repository: HistoryRepository) -> (m: Self)
        ensures
            m.active is None,
            m.plans@.len() == 0,
            m.consumed_plans@.len() == 0,
            m.scan_repository == scan_repository,
            m.history_repository == history_repository,
    {
        CleanupManager {
            active: None,
            plans: Vec::new(),
            consumed_plans: Vec::new(),
            scan_repository,
            history_repository,
            rules_registry: RulesRegistry,
        }
    }

    /// Checks a plan request before its findings are looked at.
    pub fn check_plan_request(request: &CreateCleanupPlanRequest, scan_phase: Result<ScanPhase, CommandError>) -> (r: Result<(), CommandError>)
        ensures
            match plan_request_failure(*request, scan_phase) {
                None => r is Ok,
                Some((code, message)) => r matches Err(e) && e.code == code && e.message@ == message,
            },
    {
        if request.action != CleanupAction::MoveToTrash {
            return Err(CommandError::new(ErrorCode::CommandUnavailable, "Permanent deletion is disabled. Move to Trash is the only cleanup action.", true));
        }
        let phase = scan_phase?;
        if phase != ScanPhase::Completed {
            return Err(CommandError::new(ErrorCode::PlanValidationFailed, "Cleanup plans can only be created from a completed scan.", true));
        }
        if request.finding_ids.len() == 0 || request.finding_ids.len() > MAX_PLAN_ITEMS {
            return Err(CommandError::new(ErrorCode::PlanValidationFailed, "Select between 1 and 500 findings for a cleanup plan.", true));
        }
        if !distinct_ids_exec(&request.finding_ids) {
            return Err(CommandError::new(ErrorCode::PlanValidationFailed, "A cleanup plan cannot contain duplicate findings.", true));
        }
        Ok(())
    }

    /// A plan of the reviewed items, created at `created_at` with fresh
    /// identifier and confirmation token, valid for 15 minutes.
    pub fn build_plan(items: Vec<CleanupPlanItem>, created_at: i64) -> (p: CleanupPlan)
        requires
            created_at <= i64::MAX - PLAN_LIFETIME_MS,
        ensures
            plan_built(p, items@, created_at),
    {
        let mut safe: u64 = 0;
        let mut careful: u64 = 0;
        let mut expert: u64 = 0;
        let mut total: u64 = 0;
        let mut i: usize = 0;
        while i < items.len()
            invariant
                i <= items@.len(),
                safe == risk_count(items@, RiskLevel::Safe, i as int),
                careful == risk_count(items@, RiskLevel::Careful, i as int),
                expert == risk_count(items@, RiskLevel::Expert, i as int),
                total == saturating_total(items@, i as int),
            decreases items.len() - i,
        {
            proof {
                lemma_risk_count_bounded(items@, RiskLevel::Safe, i as int);
                lemma_risk_count_bounded(items@, RiskLevel::Careful, i as int);
                lemma_risk_count_bounded(items@, RiskLevel::Expert, i as int);
            }
            match items[i].risk {
                RiskLevel::Safe => safe = safe + 1,
                RiskLevel::Careful => careful = careful + 1,
                RiskLevel::Expert => expert = expert + 1,
            }
            total = total.saturating_add(items[i].expected_size);
            i = i + 1;
        }
        CleanupPlan {
            id: new_v4_string(),
            created_at,
            expires_at: created_at + PLAN_LIFETIME_MS,
            action: CleanupAction::MoveToTrash,
            items,
            expected_reclaimable_bytes: total,
            risk_summary: RiskSummary { safe, careful, expert },
            confirmation_token: new_v4_string(),
        }
    }

    /// Keeps a plan for confirmation after dropping the plans that expired by
    /// `now`; at most 128 plans may wait (see `store_spec`). A plan with the
    /// same identifier is replaced.
    pub fn store_plan(&mut self, plan: CleanupPlan, now: i64) -> (r: Result<CleanupPlan, CommandError>)
        requires
            unique_plan_ids(old(self).plans@),
        ensures
            store_spec(*old(self), *final(self), plan, now, r),
            unique_plan_ids(final(self).plans@),
    {
        let ghost start = self.plans@;
        let mut kept: Vec<CleanupPlan> = Vec::new();
        while self.plans.len() > 0
            invariant
                unique_plan_ids(start),
                unique_plan_ids(kept@),
                kept@ + live_plans(self.plans@, now) == live_plans(start, now),
                forall|k: int| 0 <= k < self.plans@.len() ==> start.contains(#[trigger] self.plans@[k]),
                forall|a: int, b: int| 0 <= a < kept@.len() && 0 <= b < self.plans@.len() ==> (#[trigger] kept@[a]).id@ != (#[trigger] self.plans@[b]).id@,
                unique_plan_ids(self.plans@),
                self.active == old(self).active,
                self.consumed_plans == old(self).consumed_plans,
            decreases self.plans@.len(),
        {
            let ghost before = self.plans@;
            let p = self.plans.remove(0);
            assert(p == before[0]);
            assert(self.plans@ =~= before.drop_first());
            assert forall|k: int| 0 <= k < self.plans@.len() implies start.contains(#[trigger] self.plans@[k]) by {
                assert(self.plans@[k] == before[k + 1]);
            }
            assert forall|a: int, b: int| 0 <= a < b < self.plans@.len() implies (#[trigger] self.plans@[a]).id@ != (#[trigger] self.plans@[b]).id@ by {
                assert(self.plans@[a] == before[a + 1] && self.plans@[b] == before[b + 1]);
            }
            if now < p.expires_at {
                let ghost kb = kept@;
                kept.push(p);
                proof {
                    assert(kept@ + live_plans(self.plans@, now) =~= kb + live_plans(before, now));
                    assert forall|a: int, b: int| 0 <= a < b < kept@.len() implies (#[trigger] kept@[a]).id@ != (#[trigger] kept@[b]).id@ by {
                        if b == kept@.len() - 1 {
                            assert(kept@[a] == kb[a]);
                        }
                    }
                    assert forall|a: int, b: int| 0 <= a < kept@.len() && 0 <= b < self.plans@.len() implies (#[trigger] kept@[a]).id@ != (#[trigger] self.plans@[b]).id@ by {
                        assert(self.plans@[b] == before[b + 1]);
                        if a == kept@.len() - 1 {
                        } else {
                            assert(kept@[a] == kb[a]);
                        }
                    }
                }
            } else {
                proof {
                    assert forall|a: int, b: int| 0 <= a < kept@.len() && 0 <= b < self.plans@.len() implies (#[trigger] kept@[a]).id@ != (#[trigger] self.plans@[b]).id@ by {
                        assert(self.plans@[b] == before[b + 1]);
                    }
                }
            }
        }
        assert(kept@ + live_plans(self.plans@, now) =~= kept@);
        if kept.len() >= MAX_PENDING_PLANS {
            self.plans = kept;
            return Err(CommandError::new(ErrorCode::CommandUnavailable, "Too many cleanup plans are awaiting review.", true));
        }
        // Replace a kept plan with the same identifier.
        let mut k: usize = 0;
        let mut same: Option<usize> = None;
        while k < kept.len()
            invariant
                k <= kept@.len(),
                same is None <==> first_plan(kept@, plan.id@, k as int) is None,
                same matches Some(s) ==> first_plan(kept@, plan.id@, k as int) == Some(s as int),
                same is None ==> forall|j: int| 0 <= j < k ==> (#[trigger] kept@[j]).id@ != plan.id@,
                same matches Some(s) ==> s < kept@.len() && kept@[s as int].id@ == plan.id@,
            decreases kept.len() - k,
        {
            if same.is_none() && same_text(kept[k].id.as_str(), plan.id.as_str()) {
                same = Some(k);
            }
            k = k + 1;
        }
        let copy = copy_plan(&plan);
        let ghost kb = kept@;
        match same {
            Some(s) => {
                kept.set(s, plan);
                proof {
                    assert(kept@ == kb.update(s as int, plan));
                    assert(kept@[s as int] == plan);
                    assert forall|a: int, b: int| 0 <= a < b < kept@.len() implies (#[trigger] kept@[a]).id@ != (#[trigger] kept@[b]).id@ by {
                        if a != s && b != s {
                            assert(kept@[a] == kb[a] && kept@[b] == kb[b]);
                        } else if a == s {
                            assert(kept@[b] == kb[b]);
                        } else {
                            assert(kept@[a] == kb[a]);
                        }
                    }
                }
            },
            None => {
                kept.push(plan);
                proof {
                    assert(kept@[kept@.len() - 1] == plan);
                    assert forall|a: int, b: int| 0 <= a < b < kept@.len() implies (#[trigger] kept@[a]).id@ != (#[trigger] kept@[b]).id@ by {
                        assert(kept@[a] == kb[a]);
                        if b < kb.len() { assert(kept@[b] == kb[b]); }
                    }
                }
            },
        }
        self.plans = kept;
        Ok(copy)
    }

    /// Whether no two pending plans share an identifier, as `store_plan` and
    /// `consume_plan` expect of the manager.
    pub fn plan_ids_are_unique(&self) -> (r: bool)
        ensures
            r == unique_plan_ids(self.plans@),
    {
        let mut a: usize = 0;
        while a < self.plans.len()
            invariant
                a <= self.plans@.len(),
                forall|x: int, y: int| 0 <= x < y < self.plans@.len() && x < a ==> (#[trigger] self.plans@[x]).id@ != (#[trigger] self.plans@[y]).id@,
            decreases self.plans.len() - a,
        {
            let mut b: usize = a + 1;
            while b < self.plans.len()
                invariant
                    a < self.plans@.len(),
                    a + 1 <= b <= self.plans@.len(),
                    forall|x: int, y: int| 0 <= x < y < self.plans@.len() && x < a ==> (#[trigger] self.plans@[x]).id@ != (#[trigger] self.plans@[y]).id@,
                    forall|y: int| a < y < b ==> self.plans@[a as int].id@ != (#[trigger] self.plans@[y]).id@,
                decreases self.plans.len() - b,
            {
                if same_text(self.plans[a].id.as_str(), self.plans[b].id.as_str()) {
                    return false;
                }
                b = b + 1;
            }
            a = a + 1;
        }
        true
    }

    /// Hands out a confirmed plan once (see `consume_spec`).
    pub fn consume_plan(&mut self, request: &ExecuteCleanupRequest, now: i64) -> (r: Result<CleanupPlan, CommandError>)
        requires
            unique_plan_ids(old(self).plans@),
        ensures
            consume_spec(*old(self), *final(self), *request, now, r),
            unique_plan_ids(final(self).plans@),
    {
        if !parse_uuid(request.plan_id.as_str()) {
            return Err(CommandError::new(ErrorCode::PlanValidationFailed, "The cleanup plan identifier is invalid.", true));
        }
        let ghost id = request.plan_id@;
        let k = find_plan(&self.plans, request.plan_id.as_str());
        if k == self.plans.len() {
            proof { lemma_first_plan_none(self.plans@, id, k as int); }
            let mut consumed = false;
            let mut c: usize = 0;
            while c < self.consumed_plans.len()
                invariant
                    c <= self.consumed_plans@.len(),
                    id == request.plan_id@,
                    consumed == consumed_views(self.consumed_plans@).subrange(0, c as int).contains(id),
                decreases self.consumed_plans.len() - c,
            {
                let ghost before = consumed_views(self.consumed_plans@).subrange(0, c as int);
                let ghost x = self.consumed_plans@[c as int]@;
                assert(consumed_views(self.consumed_plans@).subrange(0, c + 1) =~= before.push(x));
                proof { lemma_push_contains(before, x, id); }
                if same_text(self.consumed_plans[c].as_str(), request.plan_id.as_str()) {
                    consumed = true;
                }
                c = c + 1;
            }
            assert(consumed_views(self.consumed_plans@).subrange(0, self.consumed_plans@.len() as int) =~= consumed_views(self.consumed_plans@));
            if consumed {
                return Err(CommandError::new(ErrorCode::PlanValidationFailed, "This cleanup plan has already been used.", true));
            }
            return Err(CommandError::new(ErrorCode::PlanExpired, "This cleanup plan is unavailable or expired.", true));
        }
        proof {
            lemma_first_plan_none(self.plans@, id, k as int);
            lemma_first_plan_stable(self.plans@, id, k + 1, self.plans@.len() as int);
        }
        if now >= self.plans[k].expires_at {
            let ghost before = self.plans@;
            self.plans.remove(k);
            proof { lemma_remove_keeps_unique(before, k as int); }
            return Err(CommandError::new(ErrorCode::PlanExpired, "This cleanup plan expired. Review the findings again.", true));
        }
        if !same_text(request.confirmation_token.as_str(), self.plans[k].confirmation_token.as_str()) {
            return Err(CommandError::new(ErrorCode::PlanValidationFailed, "Cleanup confirmation did not match the reviewed plan.", false));
        }
        let ghost before = self.plans@;
        let plan = self.plans.remove(k);
        proof { lemma_remove_keeps_unique(before, k as int); }
        let ghost consumed_before = consumed_views(self.consumed_plans@);
        if self.consumed_plans.len() >= MAX_CONSUMED_PLANS {
            self.consumed_plans.clear();
        }
        let ghost base = self.consumed_plans@;
        assert(consumed_views(base) == (if old(self).consumed_plans@.len() >= MAX_CONSUMED_PLANS {
            Seq::<Seq<char>>::empty()
        } else {
            consumed_before
        }));
        self.consumed_plans.push(request.plan_id.clone());
        assert(consumed_views(self.consumed_plans@) =~= consumed_views(base).push(request.plan_id@));
        Ok(plan)
    }
}

impl CleanupManager {
    /// Starts executing a confirmed plan: no other cleanup may be running, and
    /// the plan is consumed (see `consume_spec`). Returns the new operation's
    /// identifier with the plan.
    pub fn begin_execute(&mut self, request: &ExecuteCleanupRequest, now: i64) -> (r: Result<(String, CleanupPlan), CommandError>)
        requires
            unique_plan_ids(old(self).plans@),
        ensures
            old(self).active is Some ==> (r matches Err(e) && plain_error(e, ErrorCode::CommandUnavailable, "Another cleanup operation is already running."@, true)
                && *final(self) == *old(self)),
            old(self).active is None ==> exists|mid: CleanupManager, consumed: Result<CleanupPlan, CommandError>| {
                &&& #[trigger] consume_spec(*old(self), mid, *request, now, consumed)
                &&& match consumed {
                    Err(e) => r == Err::<(String, CleanupPlan), CommandError>(e) && *final(self) == mid,
                    Ok(plan) => r matches Ok((op, p)) && p == plan && is_hyphenated_uuid(op@)
                        && final(self).plans == mid.plans && final(self).consumed_plans == mid.consumed_plans
                        && (final(self).active matches Some(a) && a.operation_id == op && !a.cancelled),
                }
            },
            unique_plan_ids(final(self).plans@),
    {
        if self.active.is_some() {
            return Err(CommandError::new(ErrorCode::CommandUnavailable, "Another cleanup operation is already running.", true));
        }
        let ghost before = *self;
        let consumed = self.consume_plan(request, now);
        let ghost mid = *self;
        assert(consume_spec(before, mid, *request, now, consumed));
        match consumed {
            Err(e) => Err(e),
            Ok(plan) => {
                let operation_id = new_v4_string();
                self.active = Some(ActiveCleanup { operation_id: operation_id.clone(), cancelled: false });
                Ok((operation_id, plan))
            },
        }
    }

    /// Asks the running cleanup to stop; only the running cleanup can be cancelled.
    pub fn cancel(&mut self, operation_id: &str) -> (r: Result<(), CommandError>)
        ensures
            final(self).plans == old(self).plans,
            final(self).consumed_plans == old(self).consumed_plans,
            match old(self).active {
                Some(a) => if a.operation_id@ == operation_id@ {
                    r is Ok && (final(self).active matches Some(b) && b.operation_id == a.operation_id && b.cancelled)
                } else {
                    r matches Err(e) && plain_error(e, ErrorCode::PathNotFound, "That cleanup operation is not running."@, true)
                        && final(self).active == old(self).active
                },
                None => r matches Err(e) && plain_error(e, ErrorCode::PathNotFound, "That cleanup operation is not running."@, true)
                    && final(self).active == old(self).active,
            },
    {
        match &mut self.active {
            Some(active) => {
                if same_text(active.operation_id.as_str(), operation_id) {
                    active.cancelled = true;
                    return Ok(());
                }
            },
            None => {},
        }
        Err(CommandError::new(ErrorCode::PathNotFound, "That cleanup operation is not running.", true))
    }

    /// Whether the running cleanup with this identifier was asked to stop.
    pub fn is_cancelled(&self, operation_id: &str) -> (r: bool)
        ensures
            r == (self.active matches Some(a) && a.operation_id@ == operation_id@ && a.cancelled),
    {
        match &self.active {
            Some(a) => same_text(a.operation_id.as_str(), operation_id) && a.cancelled,
            None => false,
        }
    }

    /// The cleanup is no longer running; another operation's record is left alone.
    pub fn clear_active(&mut self, operation_id: &str)
        ensures
            final(self).plans == old(self).plans,
            final(self).consumed_plans == old(self).consumed_plans,
            (old(self).active matches Some(a) && a.operation_id@ == operation_id@) ==> final(self).active is None,
            !(old(self).active matches Some(a) && a.operation_id@ == operation_id@) ==> final(self).active == old(self).active,
    {
        let matches = match &self.active {
            Some(a) => same_text(a.operation_id.as_str(), operation_id),
            None => false,
        };
        if matches {
            self.active = None;
        }
    }
}

/// The result of one plan item, as shown to the user.
pub open spec fn item_result_of(r: CleanupItemResult, item: CleanupPlanItem, home: Seq<char>, status: CleanupItemStatus, error: Option<CommandError>) -> bool {
    &&& r.finding_id == item.finding_id
    &&& r.rule_id == item.rule_id
    &&& r.display_path@ == display_path(item.path@, home)
    &&& r.expected_bytes == item.expected_size
    &&& r.status == status
    &&& r.error == error
}

/// The result of one plan item with the given status and error.
pub fn item_result(item: &CleanupPlanItem, home: &str, status: CleanupItemStatus, error: Option<CommandError>) -> (r: CleanupItemResult)
    ensures
        item_result_of(r, *item, home@, status, error),
{
    CleanupItemResult {
        finding_id: item.finding_id.clone(),
        rule_id: item.rule_id.clone(),
        display_path: display_path_exec(item.path.as_str(), home),
        expected_bytes: item.expected_size,
        status,
        error,
    }
}

/// What happened to one item: the cleanup was cancelled before it, its
/// revalidation failed, or the move to Trash succeeded or failed.
#[derive(Debug)]
pub enum ItemOutcome {
    Cancelled,
    Invalid(CommandError),
    Moved,
    MoveFailed(CommandError),
}

/// The next step for one plan item.
#[derive(Debug)]
pub enum ItemStep {
    /// Check the item against the file system again.
    Revalidate,
    /// Move the item to the Trash.
    Move,
    /// The item is done, with this outcome.
    Done(ItemOutcome),
}

/// The steps each item takes on its way to the Trash: a cancelled cleanup
/// skips it; otherwise it is revalidated first, an item that fails
/// revalidation is not moved, and only one that passed is moved.
pub open spec fn item_step_spec(
    cancelled: bool,
    revalidation: Option<Result<(), CommandError>>,
    moved: Option<Result<(), CommandError>>,
) -> ItemStep {
    if cancelled {
        ItemStep::Done(ItemOutcome::Cancelled)
    } else {
        match revalidation {
            None => ItemStep::Revalidate,
            Some(Err(e)) => ItemStep::Done(ItemOutcome::Invalid(e)),
            Some(Ok(_)) => match moved {
                None => ItemStep::Move,
                Some(Ok(_)) => ItemStep::Done(ItemOutcome::Moved),
                Some(Err(e)) => ItemStep::Done(ItemOutcome::MoveFailed(e)),
            },
        }
    }
}

/// The next step for an item, from whether the cleanup was cancelled when
/// the item came up, what its revalidation gave if it ran, and what the
/// move gave if it ran (see `item_step_spec`).
pub fn next_item_step(
    cancelled: bool,
    revalidation: &Option<Result<(), CommandError>>,
    moved: &Option<Result<(), CommandError>>,
) -> (s: ItemStep)
    ensures
        s == item_step_spec(cancelled, *revalidation, *moved),
{
    if cancelled {
        return ItemStep::Done(ItemOutcome::Cancelled);
    }
    match revalidation {
        None => ItemStep::Revalidate,
        Some(Err(e)) => ItemStep::Done(ItemOutcome::Invalid(e.clone_error())),
        Some(Ok(_)) => match moved {
            None => ItemStep::Move,
            Some(Ok(_)) => ItemStep::Done(ItemOutcome::Moved),
            Some(Err(e)) => ItemStep::Done(ItemOutcome::MoveFailed(e.clone_error())),
        },
    }
}

/// An item is moved only when the cleanup was not cancelled and its
/// revalidation succeeded; an item that failed revalidation is never moved.
pub proof fn law_only_revalidated_items_are_moved(
    cancelled: bool,
    revalidation: Option<Result<(), CommandError>>,
    moved: Option<Result<(), CommandError>>,
)
    ensures
        item_step_spec(cancelled, revalidation, moved) is Move ==> (!cancelled && (revalidation matches Some(Ok(_)))),
        (item_step_spec(cancelled, revalidation, moved) == ItemStep::Done(ItemOutcome::Moved)) ==> (!cancelled
            && (revalidation matches Some(Ok(_))) && (moved matches Some(Ok(_)))),
        (revalidation matches Some(Err(_))) ==> !(item_step_spec(cancelled, revalidation, moved) is Move),
{
}

/// The result of an item from its outcome: skipped when cancelled or no
/// longer valid, moved, or failed.
pub fn outcome_result(item: &CleanupPlanItem, home: &str, outcome: ItemOutcome) -> (r: CleanupItemResult)
    ensures
        match outcome {
            ItemOutcome::Cancelled => r.status == CleanupItemStatus::Skipped && item_result_of(r, *item, home@, CleanupItemStatus::Skipped, r.error)
                && (r.error matches Some(e) && plain_error(e, ErrorCode::ScanCancelled, "Cleanup was cancelled before this item was moved."@, true)),
            ItemOutcome::Invalid(e) => item_result_of(r, *item, home@, CleanupItemStatus::Skipped, Some(e)),
            ItemOutcome::Moved => item_result_of(r, *item, home@, CleanupItemStatus::MovedToTrash, None),
            ItemOutcome::MoveFailed(e) => item_result_of(r, *item, home@, CleanupItemStatus::Failed, Some(e)),
        },
{
    match outcome {
        ItemOutcome::Cancelled => item_result(item, home, CleanupItemStatus::Skipped,
            Some(CommandError::new(ErrorCode::ScanCancelled, "Cleanup was cancelled before this item was moved.", true))),
        ItemOutcome::Invalid(e) => item_result(item, home, CleanupItemStatus::Skipped, Some(e)),
        ItemOutcome::Moved => item_result(item, home, CleanupItemStatus::MovedToTrash, None),
        ItemOutcome::MoveFailed(e) => item_result(item, home, CleanupItemStatus::Failed, Some(e)),
    }
}

/// The progress of a cleanup that has not yet handled any item.
pub fn start_progress(operation_id: &str, total_items: u64) -> (p: CleanupProgress)
    ensures
        p.operation_id@ == operation_id@,
        p.total_items == total_items,
        p.completed_items == 0 && p.success_count == 0 && p.failure_count == 0 && p.skipped_count == 0,
        p.processed_bytes == 0,
        p.current_path is None,
{
    CleanupProgress {
        operation_id: String::from_str(operation_id),
        total_items,
        completed_items: 0,
        success_count: 0,
        failure_count: 0,
        skipped_count: 0,
        processed_bytes: 0,
        current_path: None,
    }
}

/// The progress after one more item's result: one more item completed, its
/// bytes counted, and one more success, failure or skip by its status.
pub open spec fn progress_recorded(before: CleanupProgress, after: CleanupProgress, result: CleanupItemResult) -> bool {
    &&& after.operation_id == before.operation_id
    &&& after.total_items == before.total_items
    &&& after.current_path == before.current_path
    &&& after.completed_items == before.completed_items + 1
    &&& after.processed_bytes == before.processed_bytes.saturating_add(result.expected_bytes)
    &&& after.success_count == before.success_count + (if result.status == CleanupItemStatus::MovedToTrash { 1int } else { 0int })
    &&& after.failure_count == before.failure_count + (if result.status == CleanupItemStatus::Failed { 1int } else { 0int })
    &&& after.skipped_count == before.skipped_count + (if result.status == CleanupItemStatus::Skipped { 1int } else { 0int })
}

/// Counts one handled item: completed, its bytes, and its status.
pub fn record_result(progress: &mut CleanupProgress, result: &CleanupItemResult)
    requires
        old(progress).completed_items < u64::MAX,
        old(progress).success_count < u64::MAX,
        old(progress).failure_count < u64::MAX,
        old(progress).skipped_count < u64::MAX,
    ensures
        progress_recorded(*old(progress), *final(progress), *result),
{
    progress.completed_items = progress.completed_items + 1;
    progress.processed_bytes = progress.processed_bytes.saturating_add(result.expected_bytes);
    match result.status {
        CleanupItemStatus::MovedToTrash => progress.success_count = progress.success_count + 1,
        CleanupItemStatus::Failed => progress.failure_count = progress.failure_count + 1,
        CleanupItemStatus::Skipped => progress.skipped_count = progress.skipped_count + 1,
        CleanupItemStatus::PermanentlyDeleted => {},
    }
}

/// The free space a disk had before, found by its identifier; when several
/// disks share an identifier the last one counts.
pub open spec fn before_available(before: Seq<DiskInfo>, id: Seq<char>, n: int) -> Option<u64>
    decreases n,
{
    if n <= 0 {
        None
    } else if before[n - 1].id@ == id {
        Some(before[n - 1].available_bytes)
    } else {
        before_available(before, id, n - 1)
    }
}

/// The free space gained over the first `n` disks after the cleanup, as
/// (free before, free after); `None` when a disk is unknown before or a sum overflows.
pub open spec fn free_space_totals(before: Seq<DiskInfo>, after: Seq<DiskInfo>, n: int) -> Option<(u64, u64)>
    decreases n,
{
    if n <= 0 {
        Some((0u64, 0u64))
    } else {
        match free_space_totals(before, after, n - 1) {
            None => None,
            Some((b, a)) => match before_available(before, after[n - 1].id@, before.len() as int) {
                None => None,
                Some(x) => if b + x > u64::MAX || a + after[n - 1].available_bytes > u64::MAX {
                    None
                } else {
                    Some(((b + x) as u64, (a + after[n - 1].available_bytes) as u64))
                },
            },
        }
    }
}

/// How much free space the cleanup gained across the disks, when the same
/// number of disks is seen before and after and every disk was seen before.
pub open spec fn free_space_change_spec(before: Seq<DiskInfo>, after: Seq<DiskInfo>) -> Option<u64> {
    if before.len() == 0 || before.len() != after.len() {
        None
    } else {
        match free_space_totals(before, after, after.len() as int) {
            None => None,
            Some((b, a)) => Some(if a >= b { (a - b) as u64 } else { 0u64 }),
        }
    }
}

fn find_before_available(before: &[DiskInfo], id: &str) -> (r: Option<u64>)
    ensures
        r == before_available(before@, id@, before@.len() as int),
{
    let mut i: usize = before.len();
    while i > 0
        invariant
            i <= before@.len(),
            before_available(before@, id@, before@.len() as int) == before_available(before@, id@, i as int),
        decreases i,
    {
        if same_text(before[i - 1].id.as_str(), id) {
            return Some(before[i - 1].available_bytes);
        }
        i = i - 1;
    }
    None
}

/// The free space gained by a cleanup (see `free_space_change_spec`).
pub fn free_space_change(before: &[DiskInfo], after: &[DiskInfo]) -> (r: Option<u64>)
    ensures
        r == free_space_change_spec(before@, after@),
{
    if before.len() == 0 || before.len() != after.len() {
        return None;
    }
    let mut before_total: u64 = 0;
    let mut after_total: u64 = 0;
    let mut i: usize = 0;
    while i < after.len()
        invariant
            i <= after@.len(),
            free_space_totals(before@, after@, i as int) == Some((before_total, after_total)),
        decreases after.len() - i,
    {
        let x = match find_before_available(before, after[i].id.as_str()) {
            None => {
                proof { lemma_totals_none_stays(before@, after@, i + 1, after@.len() as int); }
                return None;
            },
            Some(x) => x,
        };
        let b = match before_total.checked_add(x) {
            None => {
                proof { lemma_totals_none_stays(before@, after@, i + 1, after@.len() as int); }
                return None;
            },
            Some(b) => b,
        };
        let a = match after_total.checked_add(after[i].available_bytes) {
            None => {
                proof { lemma_totals_none_stays(before@, after@, i + 1, after@.len() as int); }
                return None;
            },
            Some(a) => a,
        };
        before_total = b;
        after_total = a;
        i = i + 1;
    }
    Some(if after_total >= before_total { after_total - before_total } else { 0 })
}

proof fn lemma_totals_none_stays(before: Seq<DiskInfo>, after: Seq<DiskInfo>, n: int, m: int)
    requires
        0 <= n <= m,
        free_space_totals(before, after, n) is None,
    ensures
        free_space_totals(before, after, m) is None,
    decreases m - n,
{
    if m > n {
        lemma_totals_none_stays(before, after, n, m - 1);
    }
}

/// The recorded outcome of a cleanup.
pub fn build_summary(
    operation_id: &str,
    plan: &CleanupPlan,
    started_at: i64,
    completed_at: i64,
    progress: &CleanupProgress,
    items: Vec<CleanupItemResult>,
    disks_before: &[DiskInfo],
    disks_after: Vec<DiskInfo>,
    cancelled: bool,
) -> (s: CleanupSummary)
    ensures
        s.operation_id@ == operation_id@,
        s.plan_id == plan.id,
        s.started_at == started_at,
        s.completed_at == completed_at,
        s.action == plan.action,
        s.selected_count == plan.items@.len(),
        s.success_count == progress.success_count,
        s.failure_count == progress.failure_count,
        s.skipped_count == progress.skipped_count,
        s.expected_bytes == plan.expected_reclaimable_bytes,
        s.actual_free_space_change_bytes == free_space_change_spec(disks_before@, disks_after@),
        s.cancelled == cancelled,
        s.items == items,
        s.disks == disks_after,
{
    let change = free_space_change(disks_before, disks_after.as_slice());
    CleanupSummary {
        operation_id: String::from_str(operation_id),
        plan_id: plan.id.clone(),
        started_at,
        completed_at,
        action: plan.action,
        selected_count: plan.items.len() as u64,
        success_count: progress.success_count,
        failure_count: progress.failure_count,
        skipped_count: progress.skipped_count,
        expected_bytes: plan.expected_reclaimable_bytes,
        actual_free_space_change_bytes: change,
        cancelled,
        items,
        disks: disks_after,
    }
}

/// A plan that was handed out is never handed out again: a second request
/// for it is refused as already used.
pub proof fn law_consumed_plan_cannot_be_reused(
    m0: CleanupManager,
    m1: CleanupManager,
    m2: CleanupManager,
    request: ExecuteCleanupRequest,
    second: ExecuteCleanupRequest,
    now1: i64,
    now2: i64,
    r1: Result<CleanupPlan, CommandError>,
    r2: Result<CleanupPlan, CommandError>,
)
    requires
        unique_plan_ids(m0.plans@),
        consume_spec(m0, m1, request, now1, r1),
        r1 is Ok,
        second.plan_id@ == request.plan_id@,
        consume_spec(m1, m2, second, now2, r2),
    ensures
        r2 matches Err(e) && e.code == ErrorCode::PlanValidationFailed
            && e.message@ == "This cleanup plan has already been used."@,
        m2.plans == m1.plans,
{
    let id = request.plan_id@;
    let k = plan_index(m0.plans@, id)->0;
    lemma_first_plan_is_match(m0.plans@, id, m0.plans@.len() as int);
    lemma_remove_keeps_unique(m0.plans@, k);
    let rest = m0.plans@.remove(k);
    assert forall|j: int| 0 <= j < rest.len() implies (#[trigger] rest[j]).id@ != id by {
        let j0 = if j < k { j } else { j + 1 };
        assert(rest[j] == m0.plans@[j0]);
    }
    lemma_first_plan_none(rest, id, rest.len() as int);
    let views = consumed_views(m1.consumed_plans@);
    assert(views[views.len() - 1] == id);
}

/// An expired plan is refused, and it is dropped.
pub proof fn law_expired_plan_is_refused(
    m0: CleanupManager,
    m1: CleanupManager,
    request: ExecuteCleanupRequest,
    now: i64,
    r: Result<CleanupPlan, CommandError>,
    k: int,
)
    requires
        uuid_parses(request.plan_id@),
        plan_index(m0.plans@, request.plan_id@) == Some(k),
        now >= m0.plans@[k].expires_at,
        consume_spec(m0, m1, request, now, r),
    ensures
        r matches Err(e) && e.code == ErrorCode::PlanExpired,
        m1.plans@ == m0.plans@.remove(k),
{
}

/// A request with the wrong confirmation token is refused and leaves the
/// plan waiting, unchanged.
pub proof fn law_wrong_confirmation_keeps_the_plan(
    m0: CleanupManager,
    m1: CleanupManager,
    request: ExecuteCleanupRequest,
    now: i64,
    r: Result<CleanupPlan, CommandError>,
    k: int,
)
    requires
        uuid_parses(request.plan_id@),
        plan_index(m0.plans@, request.plan_id@) == Some(k),
        now < m0.plans@[k].expires_at,
        request.confirmation_token@ != m0.plans@[k].confirmation_token@,
        consume_spec(m0, m1, request, now, r),
    ensures
        r matches Err(e) && e.code == ErrorCode::PlanValidationFailed && !e.recoverable,
        m1.plans == m0.plans,
{
}

proof fn lemma_first_plan_is_match(plans: Seq<CleanupPlan>, id: Seq<char>, n: int)
    requires
        0 <= n <= plans.len(),
    ensures
        first_plan(plans, id, n) matches Some(k) ==> 0 <= k < n && plans[k].id@ == id,
    decreases n,
{
    if n > 0 {
        lemma_first_plan_is_match(plans, id, n - 1);
    }
}

/// An item's result is moved, failed or skipped: never a permanent deletion.
pub proof fn law_item_results_are_never_permanent_deletions(item: CleanupPlanItem, home: Seq<char>, outcome: ItemOutcome, r: CleanupItemResult)
    requires
        match outcome {
            ItemOutcome::Cancelled => item_result_of(r, item, home, CleanupItemStatus::Skipped, r.error),
            ItemOutcome::Invalid(e) => item_result_of(r, item, home, CleanupItemStatus::Skipped, Some(e)),
            ItemOutcome::Moved => item_result_of(r, item, home, CleanupItemStatus::MovedToTrash, None),
            ItemOutcome::MoveFailed(e) => item_result_of(r, item, home, CleanupItemStatus::Failed, Some(e)),
        },
    ensures
        r.status != CleanupItemStatus::PermanentlyDeleted,
        r.status == CleanupItemStatus::MovedToTrash <==> outcome is Moved,
{
}

/// A run that starts from no progress and records one result for each of
/// `n` items, none a permanent deletion, has completed `n` items, and every
/// one of them counts once as a success, a failure or a skip.
pub proof fn law_run_accounts_for_every_item(progress: Seq<CleanupProgress>, results: Seq<CleanupItemResult>, n: int)
    requires
        0 <= n,
        progress.len() == n + 1,
        results.len() == n,
        progress[0].completed_items == 0,
        progress[0].success_count == 0,
        progress[0].failure_count == 0,
        progress[0].skipped_count == 0,
        forall|k: int| 0 <= k < n ==> progress_recorded(#[trigger] progress[k], progress[k + 1], results[k]),
        forall|k: int| 0 <= k < n ==> (#[trigger] results[k]).status != CleanupItemStatus::PermanentlyDeleted,
    ensures
        progress[n].completed_items == n,
        progress[n].success_count + progress[n].failure_count + progress[n].skipped_count == n,
    decreases n,
{
    if n > 0 {
        law_run_accounts_for_every_item(progress.take(n), results.take(n - 1), n - 1);
        assert(progress_recorded(progress[n - 1], progress[n], results[n - 1]));
        assert(progress.take(n)[n - 1] == progress[n - 1]);
    }
}

/// The summary of a run that recorded one result for each item of its plan
/// accounts for every selected item: selected = moved + failed + skipped.
pub proof fn law_summary_accounts_for_every_selected_item(
    plan: CleanupPlan,
    progress: Seq<CleanupProgress>,
    results: Seq<CleanupItemResult>,
    summary: CleanupSummary,
)
    requires
        progress.len() == plan.items@.len() + 1,
        results.len() == plan.items@.len(),
        progress[0].completed_items == 0,
        progress[0].success_count == 0,
        progress[0].failure_count == 0,
        progress[0].skipped_count == 0,
        forall|k: int| 0 <= k < results.len() ==> progress_recorded(#[trigger] progress[k], progress[k + 1], results[k]),
        forall|k: int| 0 <= k < results.len() ==> (#[trigger] results[k]).status != CleanupItemStatus::PermanentlyDeleted,
        summary.selected_count == plan.items@.len(),
        summary.success_count == progress[results.len() as int].success_count,
        summary.failure_count == progress[results.len() as int].failure_count,
        summary.skipped_count == progress[results.len() as int].skipped_count,
    ensures
        summary.selected_count == summary.success_count + summary.failure_count + summary.skipped_count,
{
    law_run_accounts_for_every_item(progress, results, results.len() as int);
}

/// A cleanup plan request passes only when it asks to move to the Trash,
/// names a completed scan, and selects between 1 and 500 distinct findings;
/// a request for permanent deletion is refused as unavailable.
pub proof fn law_only_trash_plans_from_completed_scans(request: CreateCleanupPlanRequest, scan_phase: Result<ScanPhase, CommandError>)
    ensures
        plan_request_failure(request, scan_phase) is None ==> request.action == CleanupAction::MoveToTrash
            && scan_phase == Ok::<ScanPhase, CommandError>(ScanPhase::Completed)
            && 1 <= request.finding_ids@.len() <= 500
            && forall|a: int, b: int| 0 <= a < b < request.finding_ids@.len() ==> (#[trigger] request.finding_ids@[a])@ != (#[trigger] request.finding_ids@[b])@,
        request.action == CleanupAction::PermanentDelete ==> (plan_request_failure(request, scan_phase) matches Some((code, _))
            && code == ErrorCode::CommandUnavailable),
{
}

} // verus!
