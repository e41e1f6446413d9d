//! The uninstall workflow: the inventory of installed applications, plans
//! reviewed by the user and used once, and the checks and report around the
//! moves to the Trash.
use vstd::prelude::*;
use crate::applications::bundles::{allowed_application_path, is_allowed_application_path, own_bundle_id};
use crate::applications::inventory::{copy_identity, FileIdentity, InventoryEntry};
use crate::applications::related::{copy_planned, copy_related_public, PlannedRelatedItem, RelatedView};
use crate::cleanup::coordinator::plain_error;
use crate::domain::application::{
    ApplicationScope, ApplicationUninstallFailure, ApplicationUninstallMode, ApplicationUninstallPlan,
    ApplicationUninstallResult, ExecuteApplicationUninstallRequest, InstalledApplication, RelatedApplicationItem,
    RelatedItemConfidence,
};
use crate::domain::error::{CommandError, ErrorCode};
use crate::ids::{is_hyphenated_uuid, new_v4_string};
use crate::persistence::common::{parse_uuid, uuid_parses};
use crate::sorting::{merge_sort, sorted_by_key, views_of, KeyOrder};
use crate::text::{chars_of, lemma_text_lt_irreflexive, lemma_text_lt_total, lemma_text_lt_transitive, same_text, string_of, text_less, text_lt};
use vstd::hash_set::StringHashSet;

verus! {

/// How long a reviewed uninstall plan stays valid: 10 minutes, in milliseconds.
pub const PLAN_LIFETIME_MS: i64 = 600_000;

/// The most uninstall plans that may await review at once.
pub const MAX_PENDING_PLANS: usize = 64;

/// How many used plan identifiers are remembered before the record is reset.
pub const MAX_CONSUMED_PLANS: usize = 512;

/// A plan kept for confirmation: the plan shown, under its identifier,
/// expiry and token, with the bundle identity and related items as reviewed.
#[derive(Debug)]
pub struct StoredPlan {
    pub id: String,
    pub expires_at: i64,
    pub confirmation_token: String,
    pub public: ApplicationUninstallPlan,
    pub identity: FileIdentity,
    pub related_items: Vec<PlannedRelatedItem>,
    pub verification_items: Vec<PlannedRelatedItem>,
}

/// The listed applications, the plans awaiting confirmation and the
/// identifiers of plans already used.
#[derive(Debug)]
pub struct ApplicationManager {
    pub inventory: Vec<InventoryEntry>,
    pub plans: Vec<StoredPlan>,
    pub consumed_plans: Vec<String>,
}

/// `str::to_lowercase`: the Unicode lower-case form of a text.
pub uninterp spec fn unicode_lower(s: Seq<char>) -> Seq<char>;

/// `str::to_lowercase` (Unicode lower-casing, from std): the contract names
/// its result and claims nothing more of it.
#[verifier::external_body]
pub(crate) fn to_lowercase(s: &str) -> (r: String)
    ensures
        r@ == unicode_lower(s@),
{
    s.to_lowercase()
}

pub fn copy_application(a: &InstalledApplication) -> (r: InstalledApplication)
    ensures
        r == *a,
{
    InstalledApplication {
        id: a.id.clone(),
        name: a.name.clone(),
        bundle_id: match &a.bundle_id { Some(b) => Some(b.clone()), None => None },
        version: match &a.version { Some(v) => Some(v.clone()), None => None },
        path: a.path.clone(),
        display_path: a.display_path.clone(),
        logical_size: a.logical_size,
        allocated_size: a.allocated_size,
        last_used_at: a.last_used_at,
        scope: a.scope,
        uninstall_allowed: a.uninstall_allowed,
        uninstall_block_reason: match &a.uninstall_block_reason { Some(r) => Some(r.clone()), None => None },
    }
}

/// An application with the key it is listed by.
#[derive(Debug)]
pub struct ListedApplication {
    pub key: String,
    pub application: InstalledApplication,
}

impl View for ListedApplication {
    type V = (Seq<char>, InstalledApplication);

    open spec fn view(&self) -> (Seq<char>, InstalledApplication) {
        (self.key@, self.application)
    }
}

/// Applications are listed by the lower-case form of their names.
impl KeyOrder for ListedApplication {
    open spec fn before(a: (Seq<char>, InstalledApplication), b: (Seq<char>, InstalledApplication)) -> bool {
        text_lt(a.0, b.0)
    }

    proof fn lemma_asymmetric(a: (Seq<char>, InstalledApplication), b: (Seq<char>, InstalledApplication)) {
        if text_lt(b.0, a.0) {
            lemma_text_lt_transitive(a.0, b.0, a.0);
            lemma_text_lt_irreflexive(a.0);
        }
    }

    proof fn lemma_not_before_transitive(
        a: (Seq<char>, InstalledApplication),
        b: (Seq<char>, InstalledApplication),
        c: (Seq<char>, InstalledApplication),
    ) {
        if text_lt(c.0, a.0) && a.0 != b.0 {
            lemma_text_lt_total(a.0, b.0);
            lemma_text_lt_transitive(c.0, a.0, b.0);
        }
    }

    fn less(&self, other: &Self) -> (r: bool) {
        text_less(chars_of(self.key.as_str()).as_slice(), chars_of(other.key.as_str()).as_slice())
    }

    fn duplicate(&self) -> (r: Self) {
        ListedApplication { key: self.key.clone(), application: copy_application(&self.application) }
    }
}

pub open spec fn applications_of(inventory: Seq<InventoryEntry>) -> Seq<InstalledApplication> {
    inventory.map_values(|e: InventoryEntry| e.application)
}

/// No two listed applications share an identifier.
pub open spec fn unique_application_ids(inventory: Seq<InventoryEntry>) -> bool {
    forall|a: int, b: int| 0 <= a < b < inventory.len() ==> (#[trigger] inventory[a]).application.id@
        != (#[trigger] inventory[b]).application.id@
}

/// The listed application has this bundle identifier.
pub open spec fn has_bundle_id(e: InventoryEntry, v: Seq<char>) -> bool {
    e.application.bundle_id matches Some(b) && b@ == v
}

/// Some text of the list is `v`.
pub open spec fn lists_text(s: Seq<String>, v: Seq<char>) -> bool {
    exists|k: int| 0 <= k < s.len() && (#[trigger] s[k])@ == v
}

/// One of the first `n` listed applications has bundle identifier `v`.
pub open spec fn some_bundle(inventory: Seq<InventoryEntry>, v: Seq<char>, n: int) -> bool {
    exists|j: int| 0 <= j < n && has_bundle_id(#[trigger] inventory[j], v)
}

proof fn lemma_lists_push(a: Seq<String>, x: String, v: Seq<char>)
    ensures
        lists_text(a.push(x), v) == (lists_text(a, v) || x@ == v),
{
    if lists_text(a.push(x), v) {
        let k = choose|k: int| 0 <= k < a.push(x).len() && (#[trigger] a.push(x)[k])@ == v;
        if k < a.len() {
            assert(a[k] == a.push(x)[k]);
        }
    }
    if lists_text(a, v) {
        let k = choose|k: int| 0 <= k < a.len() && (#[trigger] a[k])@ == v;
        assert(a.push(x)[k] == a[k]);
    }
    if x@ == v {
        assert(a.push(x)[a.len() as int] == x);
    }
}

proof fn lemma_some_bundle_step(inventory: Seq<InventoryEntry>, v: Seq<char>, i: int)
    requires
        0 <= i < inventory.len(),
    ensures
        some_bundle(inventory, v, i + 1) == (some_bundle(inventory, v, i) || has_bundle_id(inventory[i], v)),
{
    if has_bundle_id(inventory[i], v) {
        assert(some_bundle(inventory, v, i + 1));
    }
}

/// The inventory after adding entries one by one: an entry replaces the one
/// with its identifier, in place, or comes after the others.
pub open spec fn inventory_after(inventory: Seq<InventoryEntry>, entries: Seq<InventoryEntry>) -> Seq<InventoryEntry>
    decreases entries.len(),
{
    if entries.len() == 0 {
        inventory
    } else {
        let before = inventory_after(inventory, entries.drop_last());
        let e = entries.last();
        if exists|k: int| 0 <= k < before.len() && (#[trigger] before[k]).application.id@ == e.application.id@ {
            let k = choose|k: int| 0 <= k < before.len() && (#[trigger] before[k]).application.id@ == e.application.id@;
            before.update(k, e)
        } else {
            before.push(e)
        }
    }
}

pub open spec fn consumed_views(v: Seq<String>) -> Seq<Seq<char>> {
    v.map_values(|s: String| s@)
}

/// The position of the first of the first `n` plans with this identifier.
pub open spec fn first_plan(plans: Seq<StoredPlan>, id: Seq<char>, n: int) -> Option<int>
    decreases n,
{
    if n <= 0 {
        None
    } else {
        match first_plan(plans, id, n - 1) {
            Some(k) => Some(k),
            None => if plans[n - 1].id@ == id { Some(n - 1) } else { None },
        }
    }
}

/// The position of the plan with this identifier, if one awaits confirmation.
pub open spec fn plan_index(plans: Seq<StoredPlan>, id: Seq<char>) -> Option<int> {
    first_plan(plans, id, plans.len() as int)
}

proof fn lemma_first_plan_stable(plans: Seq<StoredPlan>, id: Seq<char>, n: int, m: int)
    requires
        0 <= n <= m,
        first_plan(plans, id, n) is Some,
    ensures
        first_plan(plans, id, m) == first_plan(plans, id, n),
    decreases m - n,
{
    if m > n {
        lemma_first_plan_stable(plans, id, n, m - 1);
    }
}

proof fn lemma_first_plan_none(plans: Seq<StoredPlan>, id: Seq<char>, n: int)
    requires
        0 <= n <= plans.len(),
        forall|j: int| 0 <= j < n ==> (#[trigger] plans[j]).id@ != id,
    ensures
        first_plan(plans, id, n) is None,
    decreases n,
{
    if n > 0 {
        lemma_first_plan_none(plans, id, n - 1);
    }
}

/// No two pending plans share an identifier.
pub open spec fn unique_plan_ids(plans: Seq<StoredPlan>) -> bool {
    forall|a: int, b: int| 0 <= a < b < plans.len() ==> (#[trigger] plans[a]).id@ != (#[trigger] plans[b]).id@
}



/// The plans that have not expired by `now`, in their order.
pub open spec fn live_plans(plans: Seq<StoredPlan>, now: i64) -> Seq<StoredPlan>
    decreases plans.len(),
{
    if plans.len() == 0 {
        Seq::empty()
    } else if now < plans[0].expires_at {
        seq![plans[0]] + live_plans(plans.drop_first(), now)
    } else {
        live_plans(plans.drop_first(), now)
    }
}

/// The pending plans with `plan` put among them: it takes the place of the
/// plan with its identifier, or comes last.
pub open spec fn put_plan(plans: Seq<StoredPlan>, plan: StoredPlan) -> Seq<StoredPlan> {
    match plan_index(plans, plan.id@) {
        Some(k) => plans.update(k, plan),
        None => plans.push(plan),
    }
}

/// Whether a result succeeded, and its error if not.
pub open spec fn unit_of<T>(r: Result<T, CommandError>) -> Result<(), CommandError> {
    match r {
        Ok(_) => Ok(()),
        Err(e) => Err(e),
    }
}

/// `store_plan`: the plans that expired by `now` are dropped; the plan is
/// refused exactly when 64 unexpired plans already wait, and is otherwise
/// put among them. Nothing else changes.
pub open spec fn store_spec(
    before: ApplicationManager,
    after: ApplicationManager,
    plan: StoredPlan,
    now: i64,
    r: Result<(), CommandError>,
) -> bool {
    let live = live_plans(before.plans@, now);
    &&& after.inventory == before.inventory
    &&& after.consumed_plans == before.consumed_plans
    &&& (r is Err <==> live.len() >= MAX_PENDING_PLANS)
    &&& match r {
        Ok(_) => after.plans@ == put_plan(live, plan),
        Err(e) => plain_error(e, ErrorCode::CommandUnavailable, "Too many application uninstall plans are awaiting review."@, true)
            && after.plans@ == live,
    }
}

/// A plan is among the unexpired ones exactly when it waits and has not expired.
pub proof fn lemma_live_plans(plans: Seq<StoredPlan>, now: i64)
    ensures
        forall|p: StoredPlan| #[trigger] live_plans(plans, now).contains(p) <==> plans.contains(p) && now < p.expires_at,
    decreases plans.len(),
{
    if plans.len() > 0 {
        let rest = plans.drop_first();
        lemma_live_plans(rest, now);
        let live = live_plans(plans, now);
        let tail = live_plans(rest, now);
        assert forall|p: StoredPlan| #[trigger] live.contains(p) <==> plans.contains(p) && now < p.expires_at by {
            if live.contains(p) {
                let j = choose|j: int| 0 <= j < live.len() && live[j] == p;
                if now < plans[0].expires_at {
                    if j == 0 {
                        assert(plans[0] == p);
                    } else {
                        assert(tail[j - 1] == p);
                        assert(tail.contains(p));
                        let i = choose|i: int| 0 <= i < rest.len() && rest[i] == p;
                        assert(plans[i + 1] == p);
                    }
                } else {
                    assert(tail[j] == p);
                    assert(tail.contains(p));
                    let i = choose|i: int| 0 <= i < rest.len() && rest[i] == p;
                    assert(plans[i + 1] == p);
                }
            }
            if plans.contains(p) && now < p.expires_at {
                let i = choose|i: int| 0 <= i < plans.len() && plans[i] == p;
                if i == 0 {
                    assert(live[0] == p);
                } else {
                    assert(rest[i - 1] == p);
                    assert(tail.contains(p));
                    let j = choose|j: int| 0 <= j < tail.len() && tail[j] == p;
                    if now < plans[0].expires_at {
                        assert(live[j + 1] == p);
                    } else {
                        assert(live[j] == p);
                    }
                }
            }
        }
    }
}

/// The plan at a position is the one `plan_index` finds for its identifier
/// when identifiers are unique.
proof fn lemma_plan_index_of_unique(plans: Seq<StoredPlan>, j: int)
    requires
        unique_plan_ids(plans),
        0 <= j < plans.len(),
    ensures
        plan_index(plans, plans[j].id@) == Some(j),
{
    let id = plans[j].id@;
    assert forall|i: int| 0 <= i < j implies (#[trigger] plans[i]).id@ != id by {}
    lemma_first_plan_none(plans, id, j);
    assert(first_plan(plans, id, j + 1) == Some(j));
    lemma_first_plan_stable(plans, id, j + 1, plans.len() as int);
}

/// Storing a plan keeps every other plan that waits and has not expired.
pub proof fn law_storing_keeps_waiting_application_plans(
    m0: ApplicationManager,
    m1: ApplicationManager,
    plan: StoredPlan,
    now: i64,
    r: Result<(), CommandError>,
    waiting: StoredPlan,
)
    requires
        store_spec(m0, m1, plan, now, r),
        m0.plans@.contains(waiting),
        now < waiting.expires_at,
        waiting.id@ != plan.id@,
    ensures
        m1.plans@.contains(waiting),
{
    let live = live_plans(m0.plans@, now);
    lemma_live_plans(m0.plans@, now);
    assert(live.contains(waiting));
    if r is Ok {
        let j = choose|j: int| 0 <= j < live.len() && live[j] == waiting;
        lemma_first_plan_is_match(live, plan.id@, live.len() as int);
        match plan_index(live, plan.id@) {
            Some(k) => {
                assert(m1.plans@[j] == waiting);
            },
            None => {
                assert(m1.plans@[j] == waiting);
            },
        }
    }
}

/// A stored plan is handed out to a request that names it with its
/// confirmation token before it expires, when the related items it selects
/// were offered and a deep cleanup is confirmed by its typed phrase.
pub proof fn law_stored_application_plan_can_be_confirmed(
    m0: ApplicationManager,
    m1: ApplicationManager,
    m2: ApplicationManager,
    plan: StoredPlan,
    now0: i64,
    r1: Result<(), CommandError>,
    request: ExecuteApplicationUninstallRequest,
    now1: i64,
    r2: Result<StoredPlan, CommandError>,
)
    requires
        store_spec(m0, m1, plan, now0, r1),
        unique_plan_ids(m1.plans@),
        r1 is Ok,
        uuid_parses(plan.id@),
        request.plan_id@ == plan.id@,
        request.confirmation_token@ == plan.confirmation_token@,
        now1 < plan.expires_at,
        selection_failure(request, plan) is None,
        app_consume_spec(m1, m2, request, now1, r2),
    ensures
        r2 matches Ok(s) && s.id == plan.id && s.public == plan.public && s.identity == plan.identity,
{
    let live = live_plans(m0.plans@, now0);
    lemma_first_plan_is_match(live, plan.id@, live.len() as int);
    let j = match plan_index(live, plan.id@) {
        Some(k) => k,
        None => live.len() as int,
    };
    assert(m1.plans@[j] == plan);
    lemma_plan_index_of_unique(m1.plans@, j);
}

proof fn lemma_push_contains(s: Seq<Seq<char>>, x: Seq<char>, id: Seq<char>)
    ensures
        s.push(x).contains(id) == (s.contains(id) || x == id),
{
    if s.push(x).contains(id) {
        let j = choose|j: int| 0 <= j < s.push(x).len() && s.push(x)[j] == id;
        if j < s.len() {
            assert(s[j] == id);
        }
    }
    if s.contains(id) {
        let j = choose|j: int| 0 <= j < s.len() && s[j] == id;
        assert(s.push(x)[j] == id);
    }
    if x == id {
        assert(s.push(x)[s.len() as int] == x);
    }
}

proof fn lemma_remove_keeps_unique(plans: Seq<StoredPlan>, k: int)
    requires
        0 <= k < plans.len(),
    ensures
        unique_plan_ids(plans) ==> unique_plan_ids(plans.remove(k)),
{
    if unique_plan_ids(plans) {
        let r = plans.remove(k);
        assert forall|a: int, b: int| 0 <= a < b < r.len() implies (#[trigger] r[a]).id@ != (#[trigger] r[b]).id@ by {
            let a0 = if a < k { a } else { a + 1 };
            let b0 = if b < k { b } else { b + 1 };
            assert(r[a] == plans[a0] && r[b] == plans[b0]);
        }
    }
}

/// The position of the first plan with this identifier, or the number of plans.
fn find_plan(plans: &Vec<StoredPlan>, id: &str) -> (k: usize)
    ensures
        k <= plans@.len(),
        forall|j: int| 0 <= j < k ==> (#[trigger] plans@[j]).id@ != id@,
        k < plans@.len() ==> plans@[k as int].id@ == id@,
{
    let mut k: usize = 0;
    while k < plans.len()
        invariant
            k <= plans@.len(),
            forall|j: int| 0 <= j < k ==> (#[trigger] plans@[j]).id@ != id@,
        decreases plans.len() - k,
    {
        if same_text(plans[k].id.as_str(), id) {
            return k;
        }
        k = k + 1;
    }
    k
}



impl ApplicationManager {
    /// Whether no two pending plans share an identifier, as `store_plan` and
    /// `consume_plan` expect of the manager.
    pub fn plan_ids_are_unique(&self) -> (r: bool)
        ensures
            r == unique_plan_ids(self.plans@),
    {
        let mut a: usize = 0;
        while a < self.plans.len()
            invariant
                a <= self.plans@.len(),
                forall|x: int, y: int| 0 <= x < y < self.plans@.len() && x < a ==> (#[trigger] self.plans@[x]).id@ != (#[trigger] self.plans@[y]).id@,
            decreases self.plans.len() - a,
        {
            let mut b: usize = a + 1;
            while b < self.plans.len()
                invariant
                    a < self.plans@.len(),
                    a + 1 <= b <= self.plans@.len(),
                    forall|x: int, y: int| 0 <= x < y < self.plans@.len() && x < a ==> (#[trigger] self.plans@[x]).id@ != (#[trigger] self.plans@[y]).id@,
                    forall|y: int| a < y < b ==> self.plans@[a as int].id@ != (#[trigger] self.plans@[y]).id@,
                decreases self.plans.len() - b,
            {
                if same_text(self.plans[a].id.as_str(), self.plans[b].id.as_str()) {
                    return false;
                }
                b = b + 1;
            }
            a = a + 1;
        }
        true
    }

    /// Keeps a plan for confirmation after dropping the plans that expired by
    /// `now`; at most 64 plans may wait (see `store_spec`). A plan with the
    /// same identifier is replaced.
    pub fn store_plan(&mut self, plan: StoredPlan, now: i64) -> (r: Result<(), CommandError>)
        requires
            unique_plan_ids(old(self).plans@),
        ensures
            store_spec(*old(self), *final(self), plan, now, r),
            unique_plan_ids(final(self).plans@),
    {
        let ghost start = self.plans@;
        let mut kept: Vec<StoredPlan> = Vec::new();
        while self.plans.len() > 0
            invariant
                unique_plan_ids(start),
                unique_plan_ids(kept@),
                kept@ + live_plans(self.plans@, now) == live_plans(start, now),
                forall|k: int| 0 <= k < self.plans@.len() ==> start.contains(#[trigger] self.plans@[k]),
                forall|a: int, b: int| 0 <= a < kept@.len() && 0 <= b < self.plans@.len() ==> (#[trigger] kept@[a]).id@ != (#[trigger] self.plans@[b]).id@,
                unique_plan_ids(self.plans@),
                self.inventory == old(self).inventory,
                self.consumed_plans == old(self).consumed_plans,
            decreases self.plans@.len(),
        {
            let ghost before = self.plans@;
            let p = self.plans.remove(0);
            assert(p == before[0]);
            assert(self.plans@ =~= before.drop_first());
            assert forall|k: int| 0 <= k < self.plans@.len() implies start.contains(#[trigger] self.plans@[k]) by {
                assert(self.plans@[k] == before[k + 1]);
            }
            assert forall|a: int, b: int| 0 <= a < b < self.plans@.len() implies (#[trigger] self.plans@[a]).id@ != (#[trigger] self.plans@[b]).id@ by {
                assert(self.plans@[a] == before[a + 1] && self.plans@[b] == before[b + 1]);
            }
            if now < p.expires_at {
                let ghost kb = kept@;
                kept.push(p);
                proof {
                    assert(kept@ + live_plans(self.plans@, now) =~= kb + live_plans(before, now));
                    assert forall|a: int, b: int| 0 <= a < b < kept@.len() implies (#[trigger] kept@[a]).id@ != (#[trigger] kept@[b]).id@ by {
                        if b == kept@.len() - 1 {
                            assert(kept@[a] == kb[a]);
                        }
                    }
                    assert forall|a: int, b: int| 0 <= a < kept@.len() && 0 <= b < self.plans@.len() implies (#[trigger] kept@[a]).id@ != (#[trigger] self.plans@[b]).id@ by {
                        assert(self.plans@[b] == before[b + 1]);
                        if a == kept@.len() - 1 {
                        } else {
                            assert(kept@[a] == kb[a]);
                        }
                    }
                }
            } else {
                proof {
                    assert forall|a: int, b: int| 0 <= a < kept@.len() && 0 <= b < self.plans@.len() implies (#[trigger] kept@[a]).id@ != (#[trigger] self.plans@[b]).id@ by {
                        assert(self.plans@[b] == before[b + 1]);
                    }
                }
            }
        }
        assert(kept@ + live_plans(self.plans@, now) =~= kept@);
        if kept.len() >= MAX_PENDING_PLANS {
            self.plans = kept;
            return Err(CommandError::new(ErrorCode::CommandUnavailable, "Too many application uninstall plans are awaiting review.", true));
        }
        // Replace a kept plan with the same identifier.
        let mut k: usize = 0;
        let mut same: Option<usize> = None;
        while k < kept.len()
            invariant
                k <= kept@.len(),
                same is None <==> first_plan(kept@, plan.id@, k as int) is None,
                same matches Some(s) ==> first_plan(kept@, plan.id@, k as int) == Some(s as int),
                same is None ==> forall|j: int| 0 <= j < k ==> (#[trigger] kept@[j]).id@ != plan.id@,
                same matches Some(s) ==> s < kept@.len() && kept@[s as int].id@ == plan.id@,
            decreases kept.len() - k,
        {
            if same.is_none() && same_text(kept[k].id.as_str(), plan.id.as_str()) {
                same = Some(k);
            }
            k = k + 1;
        }
        let ghost kb = kept@;
        match same {
            Some(s) => {
                kept.set(s, plan);
                proof {
                    assert(kept@ == kb.update(s as int, plan));
                    assert(kept@[s as int] == plan);
                    assert forall|a: int, b: int| 0 <= a < b < kept@.len() implies (#[trigger] kept@[a]).id@ != (#[trigger] kept@[b]).id@ by {
                        if a != s && b != s {
                            assert(kept@[a] == kb[a] && kept@[b] == kb[b]);
                        } else if a == s {
                            assert(kept@[b] == kb[b]);
                        } else {
                            assert(kept@[a] == kb[a]);
                        }
                    }
                }
            },
            None => {
                kept.push(plan);
                proof {
                    assert(kept@[kept@.len() - 1] == plan);
                    assert forall|a: int, b: int| 0 <= a < b < kept@.len() implies (#[trigger] kept@[a]).id@ != (#[trigger] kept@[b]).id@ by {
                        assert(kept@[a] == kb[a]);
                        if b < kb.len() { assert(kept@[b] == kb[b]); }
                    }
                }
            },
        }
        self.plans = kept;
        Ok(())
    }

}

impl ApplicationManager {
    pub closed spec fn wf(&self) -> bool {
        &&& unique_application_ids(self.inventory@)
        &&& unique_plan_ids(self.plans@)
    }

    /// A manager with nothing listed and no plan.
    pub fn new() -> (m: Self)
        ensures
            m.wf(),
            m.inventory@.len() == 0,
            m.plans@.len() == 0,
            m.consumed_plans@.len() == 0,
    {
        ApplicationManager { inventory: Vec::new(), plans: Vec::new(), consumed_plans: Vec::new() }
    }

    /// Whether no two listed applications share an identifier.
    pub fn application_ids_are_unique(&self) -> (r: bool)
        ensures
            r == unique_application_ids(self.inventory@),
    {
        let mut a: usize = 0;
        while a < self.inventory.len()
            invariant
                a <= self.inventory@.len(),
                forall|x: int, y: int| 0 <= x < y < self.inventory@.len() && x < a ==> (#[trigger] self.inventory@[x]).application.id@ != (#[trigger] self.inventory@[y]).application.id@,
            decreases self.inventory.len() - a,
        {
            let mut b: usize = a + 1;
            while b < self.inventory.len()
                invariant
                    a < self.inventory@.len(),
                    a + 1 <= b <= self.inventory@.len(),
                    forall|x: int, y: int| 0 <= x < y < self.inventory@.len() && x < a ==> (#[trigger] self.inventory@[x]).application.id@ != (#[trigger] self.inventory@[y]).application.id@,
                    forall|y: int| a < y < b ==> self.inventory@[a as int].application.id@ != (#[trigger] self.inventory@[y]).application.id@,
                decreases self.inventory.len() - b,
            {
                if same_text(self.inventory[a].application.id.as_str(), self.inventory[b].application.id.as_str()) {
                    return false;
                }
                b = b + 1;
            }
            a = a + 1;
        }
        true
    }

    /// Whether the manager is well formed, as its operations expect: no two
    /// listed applications and no two pending plans share an identifier.
    pub fn is_well_formed(&self) -> (r: bool)
        ensures
            r == self.wf(),
    {
        self.application_ids_are_unique() && self.plan_ids_are_unique()
    }

    /// Replaces the inventory with freshly inspected entries (a later entry
    /// with the same identifier replaces an earlier one) and lists the
    /// applications by the lower-case form of their names.
    pub fn replace_inventory(&mut self, entries: Vec<InventoryEntry>) -> (r: Vec<InstalledApplication>)
        requires
            old(self).wf(),
        ensures
            final(self).wf(),
            final(self).plans == old(self).plans,
            final(self).consumed_plans == old(self).consumed_plans,
            final(self).inventory@ == inventory_after(Seq::empty(), entries@),
            r@.map_values(|a: InstalledApplication| (unicode_lower(a.name@), a)).to_multiset()
                == applications_of(final(self).inventory@).map_values(|a: InstalledApplication| (unicode_lower(a.name@), a)).to_multiset(),
            forall|a: int, b: int| 0 <= a < b < r@.len() ==> !text_lt(unicode_lower((#[trigger] r@[b]).name@), unicode_lower((#[trigger] r@[a]).name@)),
    {
        let count: usize = entries.len();
        let ghost all = entries@;
        let mut inventory: Vec<InventoryEntry> = Vec::new();
        let mut source = entries;
        let mut reversed: Vec<InventoryEntry> = Vec::new();
        while source.len() > 0
            invariant
                source@ == all.take(source@.len() as int),
                reversed@.len() == all.len() - source@.len(),
                forall|k: int| 0 <= k < reversed@.len() ==> #[trigger] reversed@[k] == all[all.len() - 1 - k],
            decreases source@.len(),
        {
            let e = source.pop().unwrap();
            assert(source@ =~= all.take(source@.len() as int));
            reversed.push(e);
        }
        let mut n: usize = 0;
        assert(all.take(0) =~= Seq::<InventoryEntry>::empty());
        while reversed.len() > 0
            invariant
                reversed@.len() == all.len() - n,
                forall|k: int| 0 <= k < reversed@.len() ==> #[trigger] reversed@[k] == all[all.len() - 1 - k],
                0 <= n <= all.len(),
                all.len() <= usize::MAX,
                inventory@ == inventory_after(Seq::empty(), all.take(n as int)),
                unique_application_ids(inventory@),
            decreases reversed@.len(),
        {
            let e = reversed.pop().unwrap();
            assert(e == all[n as int]);
            assert(all.take(n + 1).drop_last() =~= all.take(n as int));
            assert(all.take(n + 1).last() == all[n as int]);
            let ghost before = inventory@;
            let mut k: usize = 0;
            let mut found: Option<usize> = None;
            while k < inventory.len()
                invariant
                    k <= inventory@.len(),
                    found is None ==> forall|j: int| 0 <= j < k ==> (#[trigger] inventory@[j]).application.id@ != e.application.id@,
                    found matches Some(f) ==> f < inventory@.len() && inventory@[f as int].application.id@ == e.application.id@,
                decreases inventory.len() - k,
            {
                if found.is_none() && same_text(inventory[k].application.id.as_str(), e.application.id.as_str()) {
                    found = Some(k);
                }
                k = k + 1;
            }
            match found {
                Some(f) => {
                    proof {
                        let c = choose|c: int| 0 <= c < before.len() && (#[trigger] before[c]).application.id@ == e.application.id@;
                        if c != f as int {
                            if c < f { assert(before[c].application.id@ != before[f as int].application.id@); }
                            else { assert(before[f as int].application.id@ != before[c].application.id@); }
                        }
                    }
                    inventory.set(f, e);
                    proof {
                        assert forall|a: int, b: int| 0 <= a < b < inventory@.len() implies (#[trigger] inventory@[a]).application.id@
                            != (#[trigger] inventory@[b]).application.id@ by {
                            if a != f && b != f {
                                assert(inventory@[a] == before[a] && inventory@[b] == before[b]);
                            } else if a == f {
                                assert(inventory@[b] == before[b]);
                            } else {
                                assert(inventory@[a] == before[a]);
                            }
                        }
                    }
                },
                None => {
                    inventory.push(e);
                    proof {
                        assert forall|a: int, b: int| 0 <= a < b < inventory@.len() implies (#[trigger] inventory@[a]).application.id@
                            != (#[trigger] inventory@[b]).application.id@ by {
                            assert(inventory@[a] == before[a]);
                            if b < before.len() {
                                assert(inventory@[b] == before[b]);
                            }
                        }
                    }
                },
            }
            n = n + 1;
        }
        assert(all.take(all.len() as int) =~= all);
        self.inventory = inventory;
        let mut listed: Vec<ListedApplication> = Vec::new();
        let mut i: usize = 0;
        while i < self.inventory.len()
            invariant
                0 <= i <= self.inventory@.len(),
                views_of(listed@) == applications_of(self.inventory@).take(i as int).map_values(|a: InstalledApplication| (unicode_lower(a.name@), a)),
            decreases self.inventory@.len() - i,
        {
            let a = copy_application(&self.inventory[i].application);
            let key = to_lowercase(a.name.as_str());
            let ghost before = views_of(listed@);
            listed.push(ListedApplication { key, application: a });
            proof {
                let apps = applications_of(self.inventory@);
                assert(apps.take(i + 1) =~= apps.take(i as int).push(apps[i as int]));
                assert(views_of(listed@) =~= before.push(listed@.last()@));
                assert(views_of(listed@) =~= apps.take(i + 1).map_values(|a: InstalledApplication| (unicode_lower(a.name@), a)));
            }
            i = i + 1;
        }
        assert(applications_of(self.inventory@).take(self.inventory@.len() as int) =~= applications_of(self.inventory@));
        let sorted = merge_sort(listed);
        let mut out: Vec<InstalledApplication> = Vec::new();
        let mut j: usize = 0;
        while j < sorted.len()
            invariant
                0 <= j <= sorted@.len(),
                out@.len() == j,
                forall|k: int| 0 <= k < j ==> #[trigger] out@[k] == sorted@[k].application,
            decreases sorted@.len() - j,
        {
            out.push(copy_application(&sorted[j].application));
            j = j + 1;
        }
        proof {
            assert(out@.map_values(|a: InstalledApplication| (unicode_lower(a.name@), a)) =~= views_of(sorted@)) by {
                assert forall|k: int| 0 <= k < out@.len() implies views_of(sorted@)[k]
                    == (unicode_lower(out@[k].name@), out@[k]) by {
                    assert(out@[k] == sorted@[k].application);
                    assert(sorted@[k].key@ == unicode_lower(sorted@[k].application.name@)) by {
                        assert(views_of(sorted@).to_multiset().count(views_of(sorted@)[k]) > 0) by {
                            vstd::seq_lib::to_multiset_contains(views_of(sorted@), views_of(sorted@)[k]);
                            assert(views_of(sorted@).contains(views_of(sorted@)[k]));
                        }
                        let apps = applications_of(self.inventory@).map_values(|a: InstalledApplication| (unicode_lower(a.name@), a));
                        vstd::seq_lib::to_multiset_contains(apps, views_of(sorted@)[k]);
                        let m = choose|m: int| 0 <= m < apps.len() && apps[m] == views_of(sorted@)[k];
                    }
                }
            }
            assert forall|a: int, b: int| 0 <= a < b < out@.len() implies !text_lt(unicode_lower((#[trigger] out@[b]).name@),
                unicode_lower((#[trigger] out@[a]).name@)) by {
                assert(views_of(sorted@)[a] == (unicode_lower(out@[a].name@), out@[a]));
                assert(views_of(sorted@)[b] == (unicode_lower(out@[b].name@), out@[b]));
            }
        }
        out
    }

    /// Whether nothing is listed.
    pub fn inventory_is_empty(&self) -> (r: bool)
        ensures
            r == (self.inventory@.len() == 0),
    {
        self.inventory.len() == 0
    }

    /// The bundle identifiers of the listed applications, each once.
    pub fn installed_bundle_ids(&self) -> (r: Vec<String>)
        ensures
            forall|a: int, b: int| 0 <= a < b < r@.len() ==> (#[trigger] r@[a])@ != (#[trigger] r@[b])@,
            forall|v: Seq<char>| #[trigger] lists_text(r@, v) <==> some_bundle(self.inventory@, v, self.inventory@.len() as int),
    {
        let mut seen = StringHashSet::new();
        let mut out: Vec<String> = Vec::new();
        let mut i: usize = 0;
        while i < self.inventory.len()
            invariant
                0 <= i <= self.inventory@.len(),
                forall|a: int, b: int| 0 <= a < b < out@.len() ==> (#[trigger] out@[a])@ != (#[trigger] out@[b])@,
                forall|v: Seq<char>| #[trigger] seen@.contains(v) <==> lists_text(out@, v),
                forall|v: Seq<char>| #[trigger] lists_text(out@, v) <==> some_bundle(self.inventory@, v, i as int),
            decreases self.inventory@.len() - i,
        {
            proof {
                assert forall|v: Seq<char>| #[trigger] some_bundle(self.inventory@, v, i + 1)
                    == (some_bundle(self.inventory@, v, i as int) || has_bundle_id(self.inventory@[i as int], v)) by {
                    lemma_some_bundle_step(self.inventory@, v, i as int);
                }
            }
            match &self.inventory[i].application.bundle_id {
                Some(b) => {
                    if !seen.contains(b.as_str()) {
                        let ghost before = out@;
                        seen.insert(b.clone());
                        out.push(b.clone());
                        proof {
                            assert(out@ == before.push(out@.last()));
                            assert forall|v: Seq<char>| #[trigger] lists_text(out@, v) == (lists_text(before, v) || b@ == v) by {
                                lemma_lists_push(before, out@.last(), v);
                            }
                            assert forall|x: int, y: int| 0 <= x < y < out@.len() implies (#[trigger] out@[x])@ != (#[trigger] out@[y])@ by {
                                assert(out@[x] == before[x]);
                                if y < before.len() {
                                    assert(out@[y] == before[y]);
                                } else if out@[x]@ == b@ {
                                    assert(lists_text(before, b@));
                                }
                            }
                        }
                    } else {
                        proof {
                            assert(lists_text(out@, b@));
                        }
                    }
                },
                None => {},
            }
            i = i + 1;
        }
        out
    }

    /// The listed application with this identifier.
    pub fn application(&self, application_id: &str) -> (r: Result<InstalledApplication, CommandError>)
        ensures
            match r {
                Ok(a) => exists|k: int| 0 <= k < self.inventory@.len() && (#[trigger] self.inventory@[k]).application == a
                    && a.id@ == application_id@,
                Err(e) => plain_error(e, ErrorCode::PathNotFound, "Scan applications again before revealing this item."@, true)
                    && forall|k: int| 0 <= k < self.inventory@.len() ==> (#[trigger] self.inventory@[k]).application.id@ != application_id@,
            },
    {
        let mut i: usize = 0;
        while i < self.inventory.len()
            invariant
                0 <= i <= self.inventory@.len(),
                forall|k: int| 0 <= k < i ==> (#[trigger] self.inventory@[k]).application.id@ != application_id@,
            decreases self.inventory@.len() - i,
        {
            if same_text(self.inventory[i].application.id.as_str(), application_id) {
                return Ok(copy_application(&self.inventory[i].application));
            }
            i = i + 1;
        }
        Err(CommandError::new(ErrorCode::PathNotFound, "Scan applications again before revealing this item.", true))
    }
}


/// The error for an application that may not be uninstalled: its own block
/// reason, or "This application is protected.", naming its shown path.
pub open spec fn blocked_error(e: CommandError, a: InstalledApplication) -> bool {
    &&& e.code == ErrorCode::PathProtected
    &&& e.message@ == (match a.uninstall_block_reason {
        Some(r) => r@,
        None => "This application is protected."@,
    })
    &&& !e.recoverable
    &&& e.path matches Some(p) && p@ == a.display_path@
    &&& e.details is None
}

/// The related items a plan of this mode moves: none, the identified ones,
/// or all of them.
pub open spec fn items_for_mode(items: Seq<RelatedView>, mode: ApplicationUninstallMode) -> Seq<RelatedView> {
    match mode {
        ApplicationUninstallMode::AppOnly => Seq::empty(),
        ApplicationUninstallMode::Complete => identified_only(items),
        ApplicationUninstallMode::DeepCleanup => items,
    }
}

/// The identified items, in order.
pub open spec fn identified_only(s: Seq<RelatedView>) -> Seq<RelatedView>
    decreases s.len(),
{
    if s.len() == 0 {
        Seq::empty()
    } else {
        let r = identified_only(s.drop_last());
        if s.last().confidence == RelatedItemConfidence::Identified { r.push(s.last()) } else { r }
    }
}

/// The space an item takes: its allocated size when known, else its length.
pub open spec fn item_bytes(v: RelatedView) -> u64 {
    match v.allocated_size {
        Some(a) => a,
        None => v.logical_size,
    }
}

pub open spec fn application_bytes(a: InstalledApplication) -> u64 {
    match a.allocated_size {
        Some(s) => s,
        None => a.logical_size,
    }
}

/// `start` plus the space of the items, held at `u64::MAX`.
pub open spec fn bytes_total(start: u64, items: Seq<RelatedView>) -> u64
    decreases items.len(),
{
    if items.len() == 0 {
        start
    } else {
        let before = bytes_total(start, items.drop_last());
        let b = item_bytes(items.last());
        if before + b > u64::MAX { u64::MAX } else { (before + b) as u64 }
    }
}

pub open spec fn public_view(p: RelatedApplicationItem) -> (Seq<char>, Seq<char>, Seq<char>, Seq<char>, u64, Option<u64>, bool, RelatedItemConfidence, bool, Seq<char>) {
    (p.id@, p.path@, p.display_path@, p.category@, p.logical_size, p.allocated_size, p.may_contain_user_data, p.confidence, p.default_selected, p.reason@)
}

pub open spec fn related_public_view(v: RelatedView) -> (Seq<char>, Seq<char>, Seq<char>, Seq<char>, u64, Option<u64>, bool, RelatedItemConfidence, bool, Seq<char>) {
    (v.id, v.path, v.display_path, v.category, v.logical_size, v.allocated_size, v.may_contain_user_data, v.confidence, v.default_selected, v.reason)
}

/// The phrase a deep cleanup must be confirmed with.
pub open spec fn deep_clean_phrase(name: Seq<char>) -> Seq<char> {
    "DEEP CLEAN "@ + name
}

/// A plan made at `now` for an application and mode from the related items
/// found for it.
pub open spec fn uninstall_plan_built(
    plan: ApplicationUninstallPlan,
    application: InstalledApplication,
    mode: ApplicationUninstallMode,
    found: Seq<RelatedView>,
    now: i64,
) -> bool {
    let moved = items_for_mode(found, mode);
    &&& is_hyphenated_uuid(plan.id@)
    &&& is_hyphenated_uuid(plan.confirmation_token@)
    &&& plan.created_at == now
    &&& plan.expires_at == now + PLAN_LIFETIME_MS
    &&& plan.application == application
    &&& plan.mode == mode
    &&& plan.related_items@.map_values(|p: RelatedApplicationItem| public_view(p)) == moved.map_values(|v: RelatedView| related_public_view(v))
    &&& plan.total_expected_bytes == bytes_total(application_bytes(application), moved)
    &&& match mode {
        ApplicationUninstallMode::DeepCleanup => plan.required_confirmation_phrase matches Some(p) && p@ == deep_clean_phrase(application.name@),
        _ => plan.required_confirmation_phrase is None,
    }
}

fn with_prefix(prefix: &str, s: &str) -> (r: String)
    ensures
        r@ == prefix@ + s@,
{
    let mut v = chars_of(prefix);
    let t = chars_of(s);
    let ghost start = v@;
    let mut i: usize = 0;
    while i < t.len()
        invariant
            0 <= i <= t@.len(),
            v@ == start + t@.take(i as int),
        decreases t@.len() - i,
    {
        v.push(t[i]);
        assert(t@.take(i + 1) =~= t@.take(i as int).push(t@[i as int]));
        i = i + 1;
    }
    assert(t@.take(t@.len() as int) =~= t@);
    string_of(v.as_slice())
}

fn copy_plan_public(p: &ApplicationUninstallPlan) -> (r: ApplicationUninstallPlan)
    ensures
        r.id == p.id,
        r.created_at == p.created_at,
        r.expires_at == p.expires_at,
        r.application == p.application,
        r.mode == p.mode,
        r.related_items@ == p.related_items@,
        r.total_expected_bytes == p.total_expected_bytes,
        r.required_confirmation_phrase == p.required_confirmation_phrase,
        r.confirmation_token == p.confirmation_token,
{
    let mut items: Vec<RelatedApplicationItem> = Vec::new();
    let mut i: usize = 0;
    while i < p.related_items.len()
        invariant
            0 <= i <= p.related_items@.len(),
            items@ == p.related_items@.take(i as int),
        decreases p.related_items@.len() - i,
    {
        items.push(copy_related_public(&p.related_items[i]));
        assert(p.related_items@.take(i + 1) =~= p.related_items@.take(i as int).push(p.related_items@[i as int]));
        i = i + 1;
    }
    assert(p.related_items@.take(p.related_items@.len() as int) =~= p.related_items@);
    ApplicationUninstallPlan {
        id: p.id.clone(),
        created_at: p.created_at,
        expires_at: p.expires_at,
        application: copy_application(&p.application),
        mode: p.mode,
        related_items: items,
        total_expected_bytes: p.total_expected_bytes,
        required_confirmation_phrase: match &p.required_confirmation_phrase { Some(s) => Some(s.clone()), None => None },
        confirmation_token: p.confirmation_token.clone(),
    }
}

impl ApplicationManager {
    /// The listed application to review for uninstall, with the identity it
    /// was listed with: it must be listed, and its uninstall allowed.
    pub fn plan_entry(&self, application_id: &str) -> (r: Result<(InstalledApplication, FileIdentity), CommandError>)
        ensures
            match r {
                Ok((a, i)) => exists|k: int| 0 <= k < self.inventory@.len() && (#[trigger] self.inventory@[k]).application == a
                    && self.inventory@[k].identity == i && a.id@ == application_id@ && a.uninstall_allowed,
                Err(e) => (forall|k: int| 0 <= k < self.inventory@.len() ==> (#[trigger] self.inventory@[k]).application.id@ != application_id@)
                    && plain_error(e, ErrorCode::PlanValidationFailed, "Scan applications again before reviewing this uninstall."@, true)
                    || exists|k: int| 0 <= k < self.inventory@.len() && (#[trigger] self.inventory@[k]).application.id@ == application_id@
                    && !self.inventory@[k].application.uninstall_allowed && blocked_error(e, self.inventory@[k].application),
            },
    {
        let mut i: usize = 0;
        while i < self.inventory.len()
            invariant
                0 <= i <= self.inventory@.len(),
                forall|k: int| 0 <= k < i ==> (#[trigger] self.inventory@[k]).application.id@ != application_id@,
            decreases self.inventory@.len() - i,
        {
            let entry = &self.inventory[i];
            if same_text(entry.application.id.as_str(), application_id) {
                if !entry.application.uninstall_allowed {
                    let message = match &entry.application.uninstall_block_reason {
                        Some(r) => r.clone(),
                        None => String::from_str("This application is protected."),
                    };
                    return Err(CommandError::new(ErrorCode::PathProtected, message.as_str(), false)
                        .with_path(entry.application.display_path.as_str()));
                }
                return Ok((copy_application(&entry.application), copy_identity(&entry.identity)));
            }
            i = i + 1;
        }
        Err(CommandError::new(ErrorCode::PlanValidationFailed, "Scan applications again before reviewing this uninstall.", true))
    }

    /// Makes and keeps the plan for a reviewed application: `found` are the
    /// related items found for it, in review order. The plan moves the items
    /// its mode asks for, counts their space with the bundle's, asks a deep
    /// cleanup to be confirmed by name, and is valid for 10 minutes.
    pub fn create_plan(
        &mut self,
        application: InstalledApplication,
        identity: FileIdentity,
        mode: ApplicationUninstallMode,
        found: Vec<PlannedRelatedItem>,
        now: i64,
    ) -> (r: Result<ApplicationUninstallPlan, CommandError>)
        requires
            old(self).wf(),
            now + PLAN_LIFETIME_MS <= i64::MAX,
        ensures
            final(self).wf(),
            final(self).inventory == old(self).inventory,
            final(self).consumed_plans == old(self).consumed_plans,
            exists|stored: StoredPlan| {
                &&& #[trigger] store_spec(*old(self), *final(self), stored, now, unit_of(r))
                &&& uninstall_plan_built(stored.public, application, mode, views_of(found@), now)
                &&& stored.id == stored.public.id
                &&& stored.expires_at == stored.public.expires_at
                &&& stored.confirmation_token == stored.public.confirmation_token
                &&& stored.identity == identity
                &&& views_of(stored.related_items@) == items_for_mode(views_of(found@), mode)
                &&& stored.verification_items@ == found@
                &&& (r matches Ok(plan) ==> uninstall_plan_built(plan, application, mode, views_of(found@), now)
                    && plan.id == stored.id && plan.confirmation_token == stored.confirmation_token)
            },
    {
        let ghost fv = views_of(found@);
        let mut related: Vec<PlannedRelatedItem> = Vec::new();
        let mut public: Vec<RelatedApplicationItem> = Vec::new();
        let mut total: u64 = match application.allocated_size { Some(s) => s, None => application.logical_size };
        let mut i: usize = 0;
        while i < found.len()
            invariant
                fv == views_of(found@),
                0 <= i <= found@.len(),
                views_of(related@) == items_for_mode(fv.take(i as int), mode),
                public@.map_values(|p: RelatedApplicationItem| public_view(p)) == items_for_mode(fv.take(i as int), mode).map_values(|v: RelatedView| related_public_view(v)),
                total == bytes_total(application_bytes(application), items_for_mode(fv.take(i as int), mode)),
            decreases found@.len() - i,
        {
            let item = &found[i];
            let take = match mode {
                ApplicationUninstallMode::AppOnly => false,
                ApplicationUninstallMode::Complete => item.public.confidence == RelatedItemConfidence::Identified,
                ApplicationUninstallMode::DeepCleanup => true,
            };
            let ghost prev_items = items_for_mode(fv.take(i as int), mode);
            let ghost before_related = views_of(related@);
            let ghost before_public = public@;
            proof {
                assert(fv.take(i + 1) =~= fv.take(i as int).push(fv[i as int]));
                assert(fv[i as int] == item@);
                assert(fv.take(i + 1).drop_last() =~= fv.take(i as int));
            }
            if take {
                let b = match item.public.allocated_size { Some(s) => s, None => item.public.logical_size };
                total = if total > u64::MAX - b { u64::MAX } else { total + b };
                related.push(copy_planned(item));
                public.push(copy_related_public(&item.public));
                proof {
                    assert(items_for_mode(fv.take(i + 1), mode) =~= prev_items.push(fv[i as int]));
                    assert(views_of(related@) =~= before_related.push(fv[i as int]));
                    assert(public@.map_values(|p: RelatedApplicationItem| public_view(p)) =~=
                        before_public.map_values(|p: RelatedApplicationItem| public_view(p)).push(related_public_view(fv[i as int])));
                    assert(items_for_mode(fv.take(i + 1), mode).drop_last() =~= prev_items);
                }
            } else {
                proof {
                    assert(items_for_mode(fv.take(i + 1), mode) =~= prev_items);
                }
            }
            i = i + 1;
        }
        assert(fv.take(fv.len() as int) =~= fv);
        let phrase = match mode {
            ApplicationUninstallMode::DeepCleanup => Some(with_prefix("DEEP CLEAN ", application.name.as_str())),
            _ => None,
        };
        let plan = ApplicationUninstallPlan {
            id: new_v4_string(),
            created_at: now,
            expires_at: now + PLAN_LIFETIME_MS,
            application,
            mode,
            related_items: public,
            total_expected_bytes: total,
            required_confirmation_phrase: phrase,
            confirmation_token: new_v4_string(),
        };
        let shown = copy_plan_public(&plan);
        let stored = StoredPlan {
            id: plan.id.clone(),
            expires_at: plan.expires_at,
            confirmation_token: plan.confirmation_token.clone(),
            public: plan,
            identity,
            related_items: related,
            verification_items: found,
        };
        let ghost kept = stored;
        let ghost fv_all = found@;
        let stored_result = self.store_plan(stored, now);
        let ghost sr = stored_result;
        match stored_result {
            Ok(u) => {
                let r: Result<ApplicationUninstallPlan, CommandError> = Ok(shown);
                assert(sr == Ok::<(), CommandError>(u));
                assert(unit_of(r) == Ok::<(), CommandError>(()));
                assert(u == ());
                assert(unit_of(r) == sr);
                r
            },
            Err(e) => {
                let r: Result<ApplicationUninstallPlan, CommandError> = Err(e);
                assert(unit_of(r) == sr);
                r
            },
        }
    }
}


/// Whether `ids` names an item of `items`.
pub open spec fn names_item(ids: Seq<String>, v: RelatedView) -> bool {
    exists|j: int| 0 <= j < ids.len() && (#[trigger] ids[j])@ == v.id
}

/// The items whose identifiers are selected, in order.
pub open spec fn selected_items(items: Seq<RelatedView>, ids: Seq<String>) -> Seq<RelatedView>
    decreases items.len(),
{
    if items.len() == 0 {
        Seq::empty()
    } else {
        let r = selected_items(items.drop_last(), ids);
        if names_item(ids, items.last()) { r.push(items.last()) } else { r }
    }
}

pub open spec fn distinct_ids(ids: Seq<String>) -> bool {
    forall|a: int, b: int| 0 <= a < b < ids.len() ==> (#[trigger] ids[a])@ != (#[trigger] ids[b])@
}

pub open spec fn text_option(o: Option<String>) -> Option<Seq<char>> {
    match o {
        Some(s) => Some(s@),
        None => None,
    }
}

/// The `j`-th selected identifier names no item.
pub open spec fn unknown_id(items: Seq<RelatedView>, ids: Seq<String>, j: int) -> bool {
    !(exists|k: int| 0 <= k < items.len() && (#[trigger] items[k]).id == ids[j]@)
}

/// Why a confirmed plan's selection of related data is refused, if it is:
/// it names each item at most once and only items of the plan; an app-only
/// plan takes none, a complete one takes all, and a deep cleanup must be
/// confirmed with its phrase.
pub open spec fn selection_failure(request: ExecuteApplicationUninstallRequest, p: StoredPlan) -> Option<Seq<char>> {
    let ids = request.selected_related_item_ids@;
    let items = views_of(p.related_items@);
    if !distinct_ids(ids) {
        Some("The related-data selection contains duplicate items."@)
    } else if exists|j: int| 0 <= j < ids.len() && #[trigger] unknown_id(items, ids, j) {
        Some("The related-data selection does not match the reviewed plan."@)
    } else {
        match p.public.mode {
            ApplicationUninstallMode::AppOnly => if ids.len() > 0 { Some("App-only uninstall cannot include related data."@) } else { None },
            ApplicationUninstallMode::Complete => if exists|k: int| 0 <= k < items.len() && !names_item(ids, #[trigger] items[k]) {
                Some("The identified-data selection changed after review."@)
            } else {
                None
            },
            ApplicationUninstallMode::DeepCleanup => if text_option(request.typed_confirmation) != text_option(p.public.required_confirmation_phrase) {
                Some("The expert deep-clean confirmation phrase did not match."@)
            } else {
                None
            },
        }
    }
}

/// `consume_plan`: a plan is handed out once, only before it expires, with
/// the token it was issued with and a selection that fits it; it then moves
/// only the selected related items. An expired plan is dropped; other
/// refusals leave it in place; a used plan's identifier is remembered.
pub open spec fn app_consume_spec(
    before: ApplicationManager,
    after: ApplicationManager,
    request: ExecuteApplicationUninstallRequest,
    now: i64,
    r: Result<StoredPlan, CommandError>,
) -> bool {
    let id = request.plan_id@;
    &&& after.inventory == before.inventory
    &&& if !uuid_parses(id) {
        &&& after.plans == before.plans
        &&& after.consumed_plans == before.consumed_plans
        &&& r matches Err(e) && plain_error(e, ErrorCode::PlanValidationFailed, "The application uninstall plan id is invalid."@, false)
    } else {
        match plan_index(before.plans@, id) {
            None => {
                &&& after.plans == before.plans
                &&& after.consumed_plans == before.consumed_plans
                &&& if consumed_views(before.consumed_plans@).contains(id) {
                    r matches Err(e) && plain_error(e, ErrorCode::PlanValidationFailed, "This application uninstall plan has already been used."@, true)
                } else {
                    r matches Err(e) && plain_error(e, ErrorCode::PlanExpired, "This application uninstall plan is unavailable or expired."@, true)
                }
            },
            Some(k) => {
                let p = before.plans@[k];
                if now >= p.expires_at {
                    &&& after.plans@ == before.plans@.remove(k)
                    &&& after.consumed_plans == before.consumed_plans
                    &&& r matches Err(e) && plain_error(e, ErrorCode::PlanExpired,
                        "This application uninstall plan expired. Review the application again."@, true)
                } else if request.confirmation_token@ != p.confirmation_token@ {
                    &&& after.plans == before.plans
                    &&& after.consumed_plans == before.consumed_plans
                    &&& r matches Err(e) && plain_error(e, ErrorCode::PlanValidationFailed,
                        "The uninstall confirmation did not match the reviewed plan."@, false)
                } else {
                    match selection_failure(request, p) {
                        Some(message) => {
                            &&& after.plans == before.plans
                            &&& after.consumed_plans == before.consumed_plans
                            &&& r matches Err(e) && plain_error(e, ErrorCode::PlanValidationFailed, message, false)
                        },
                        None => {
                            &&& r matches Ok(s) && s.id == p.id && s.expires_at == p.expires_at
                                && s.confirmation_token == p.confirmation_token && s.public == p.public
                                && s.identity == p.identity && s.verification_items == p.verification_items
                                && views_of(s.related_items@) == selected_items(views_of(p.related_items@),
                                    request.selected_related_item_ids@)
                            &&& after.plans@ == before.plans@.remove(k)
                            &&& consumed_views(after.consumed_plans@) == (if before.consumed_plans@.len() >= MAX_CONSUMED_PLANS {
                                Seq::<Seq<char>>::empty()
                            } else {
                                consumed_views(before.consumed_plans@)
                            }).push(id)
                        },
                    }
                }
            },
        }
    }
}

fn option_text_equal(a: &Option<String>, b: &Option<String>) -> (r: bool)
    ensures
        r == (text_option(*a) == text_option(*b)),
{
    match (a, b) {
        (None, None) => true,
        (Some(x), Some(y)) => same_text(x.as_str(), y.as_str()),
        _ => false,
    }
}

fn check_selection(request: &ExecuteApplicationUninstallRequest, p: &StoredPlan) -> (r: Option<&'static str>)
    ensures
        r is None ==> selection_failure(*request, *p) is None,
        r matches Some(m) ==> selection_failure(*request, *p) == Some(m@),
{
    let ids = &request.selected_related_item_ids;
    let ghost items = views_of(p.related_items@);
    let mut a: usize = 0;
    while a < ids.len()
        invariant
            *ids == request.selected_related_item_ids,
            a <= ids@.len(),
            forall|x: int, y: int| 0 <= x < y < ids@.len() && x < a ==> (#[trigger] ids@[x])@ != (#[trigger] ids@[y])@,
        decreases ids.len() - a,
    {
        let mut b: usize = a + 1;
        while b < ids.len()
            invariant
                *ids == request.selected_related_item_ids,
                a < ids@.len(),
                a + 1 <= b <= ids@.len(),
                forall|x: int, y: int| 0 <= x < y < ids@.len() && x < a ==> (#[trigger] ids@[x])@ != (#[trigger] ids@[y])@,
                forall|y: int| a < y < b ==> ids@[a as int]@ != (#[trigger] ids@[y])@,
            decreases ids.len() - b,
        {
            if same_text(ids[a].as_str(), ids[b].as_str()) {
                return Some("The related-data selection contains duplicate items.");
            }
            b = b + 1;
        }
        a = a + 1;
    }
    let mut j: usize = 0;
    while j < ids.len()
        invariant
            *ids == request.selected_related_item_ids,
            items == views_of(p.related_items@),
            distinct_ids(ids@),
            j <= ids@.len(),
            forall|q: int| 0 <= q < j ==> !unknown_id(items, ids@, q),
        decreases ids.len() - j,
    {
        let mut k: usize = 0;
        let mut hit = false;
        while k < p.related_items.len()
            invariant
                *ids == request.selected_related_item_ids,
                items == views_of(p.related_items@),
                distinct_ids(ids@),
                j < ids@.len(),
                k <= items.len(),
                hit ==> exists|t: int| 0 <= t < items.len() && (#[trigger] items[t]).id == ids@[j as int]@,
                !hit ==> forall|t: int| 0 <= t < k ==> (#[trigger] items[t]).id != ids@[j as int]@,
            decreases items.len() - k,
        {
            assert(items[k as int] == p.related_items@[k as int]@);
            if same_text(p.related_items[k].public.id.as_str(), ids[j].as_str()) {
                hit = true;
            }
            k = k + 1;
        }
        if !hit {
            assert(unknown_id(items, ids@, j as int));
            return Some("The related-data selection does not match the reviewed plan.");
        }
        j = j + 1;
    }
    match p.public.mode {
        ApplicationUninstallMode::AppOnly => {
            if ids.len() > 0 {
                return Some("App-only uninstall cannot include related data.");
            }
            None
        },
        ApplicationUninstallMode::Complete => {
            let mut k: usize = 0;
            while k < p.related_items.len()
                invariant
                    *ids == request.selected_related_item_ids,
                    items == views_of(p.related_items@),
                    distinct_ids(ids@),
                    forall|q: int| 0 <= q < ids@.len() ==> !unknown_id(items, ids@, q),
                    p.public.mode == ApplicationUninstallMode::Complete,
                    k <= items.len(),
                    forall|t: int| 0 <= t < k ==> names_item(ids@, #[trigger] items[t]),
                decreases items.len() - k,
            {
                let mut q: usize = 0;
                let mut hit = false;
                while q < ids.len()
                    invariant
                        *ids == request.selected_related_item_ids,
                        items == views_of(p.related_items@),
                        distinct_ids(ids@),
                        forall|q: int| 0 <= q < ids@.len() ==> !unknown_id(items, ids@, q),
                        k < items.len(),
                        q <= ids@.len(),
                        hit ==> names_item(ids@, items[k as int]),
                        !hit ==> forall|x: int| 0 <= x < q ==> (#[trigger] ids@[x])@ != items[k as int].id,
                    decreases ids.len() - q,
                {
                    assert(items[k as int] == p.related_items@[k as int]@);
                    if same_text(p.related_items[k].public.id.as_str(), ids[q].as_str()) {
                        hit = true;
                    }
                    q = q + 1;
                }
                if !hit {
                    assert(!names_item(ids@, items[k as int]));
                    return Some("The identified-data selection changed after review.");
                }
                k = k + 1;
            }
            None
        },
        ApplicationUninstallMode::DeepCleanup => {
            if !option_text_equal(&request.typed_confirmation, &p.public.required_confirmation_phrase) {
                return Some("The expert deep-clean confirmation phrase did not match.");
            }
            None
        },
    }
}

impl ApplicationManager {
    /// Hands out a confirmed plan once (see `app_consume_spec`).
    pub fn consume_plan(&mut self, request: &ExecuteApplicationUninstallRequest, now: i64) -> (r: Result<StoredPlan, CommandError>)
        requires
            old(self).wf(),
        ensures
            final(self).wf(),
            app_consume_spec(*old(self), *final(self), *request, now, r),
    {
        if !parse_uuid(request.plan_id.as_str()) {
            return Err(CommandError::new(ErrorCode::PlanValidationFailed, "The application uninstall plan id is invalid.", false));
        }
        let ghost id = request.plan_id@;
        let k = find_plan(&self.plans, request.plan_id.as_str());
        if k == self.plans.len() {
            proof { lemma_first_plan_none(self.plans@, id, k as int); }
            let mut consumed = false;
            let mut c: usize = 0;
            while c < self.consumed_plans.len()
                invariant
                    c <= self.consumed_plans@.len(),
                    id == request.plan_id@,
                    consumed == consumed_views(self.consumed_plans@).subrange(0, c as int).contains(id),
                decreases self.consumed_plans.len() - c,
            {
                let ghost before = consumed_views(self.consumed_plans@).subrange(0, c as int);
                let ghost x = self.consumed_plans@[c as int]@;
                assert(consumed_views(self.consumed_plans@).subrange(0, c + 1) =~= before.push(x));
                proof { lemma_push_contains(before, x, id); }
                if same_text(self.consumed_plans[c].as_str(), request.plan_id.as_str()) {
                    consumed = true;
                }
                c = c + 1;
            }
            assert(consumed_views(self.consumed_plans@).subrange(0, self.consumed_plans@.len() as int) =~= consumed_views(self.consumed_plans@));
            if consumed {
                return Err(CommandError::new(ErrorCode::PlanValidationFailed, "This application uninstall plan has already been used.", true));
            }
            return Err(CommandError::new(ErrorCode::PlanExpired, "This application uninstall plan is unavailable or expired.", true));
        }
        proof {
            lemma_first_plan_none(self.plans@, id, k as int);
            lemma_first_plan_stable(self.plans@, id, k + 1, self.plans@.len() as int);
        }
        if now >= self.plans[k].expires_at {
            let ghost before = self.plans@;
            self.plans.remove(k);
            proof { lemma_remove_keeps_unique(before, k as int); }
            return Err(CommandError::new(
                ErrorCode::PlanExpired,
                "This application uninstall plan expired. Review the application again.",
                true,
            ));
        }
        if !same_text(request.confirmation_token.as_str(), self.plans[k].confirmation_token.as_str()) {
            return Err(CommandError::new(ErrorCode::PlanValidationFailed, "The uninstall confirmation did not match the reviewed plan.", false));
        }
        match check_selection(request, &self.plans[k]) {
            Some(message) => return Err(CommandError::new(ErrorCode::PlanValidationFailed, message, false)),
            None => {},
        }
        let ghost before = self.plans@;
        let mut stored = self.plans.remove(k);
        proof { lemma_remove_keeps_unique(before, k as int); }
        let ghost original = stored;
        let mut kept: Vec<PlannedRelatedItem> = Vec::new();
        let mut i: usize = 0;
        let ghost items = views_of(stored.related_items@);
        while i < stored.related_items.len()
            invariant
                stored == original,
                items == views_of(original.related_items@),
                0 <= i <= items.len(),
                views_of(kept@) == selected_items(items.take(i as int), request.selected_related_item_ids@),
            decreases items.len() - i,
        {
            let item = &stored.related_items[i];
            let mut q: usize = 0;
            let mut hit = false;
            while q < request.selected_related_item_ids.len()
                invariant
                    stored == original,
                    items == views_of(original.related_items@),
                    i < items.len(),
                    *item == original.related_items@[i as int],
                    q <= request.selected_related_item_ids@.len(),
                    hit ==> names_item(request.selected_related_item_ids@, items[i as int]),
                    !hit ==> forall|x: int| 0 <= x < q ==> (#[trigger] request.selected_related_item_ids@[x])@ != items[i as int].id,
                decreases request.selected_related_item_ids@.len() - q,
            {
                if same_text(item.public.id.as_str(), request.selected_related_item_ids[q].as_str()) {
                    hit = true;
                }
                q = q + 1;
            }
            let ghost prev = views_of(kept@);
            proof {
                assert(items.take(i + 1) =~= items.take(i as int).push(items[i as int]));
                assert(items.take(i + 1).drop_last() =~= items.take(i as int));
                assert(items[i as int] == item@);
            }
            if hit {
                kept.push(copy_planned(item));
                assert(views_of(kept@) =~= prev.push(items[i as int]));
            }
            i = i + 1;
        }
        assert(items.take(items.len() as int) =~= items);
        stored.related_items = kept;
        let ghost consumed_before = consumed_views(self.consumed_plans@);
        if self.consumed_plans.len() >= MAX_CONSUMED_PLANS {
            self.consumed_plans.clear();
        }
        let ghost base = self.consumed_plans@;
        assert(consumed_views(base) == (if old(self).consumed_plans@.len() >= MAX_CONSUMED_PLANS {
            Seq::<Seq<char>>::empty()
        } else {
            consumed_before
        }));
        self.consumed_plans.push(request.plan_id.clone());
        assert(consumed_views(self.consumed_plans@) =~= consumed_views(base).push(request.plan_id@));
        Ok(stored)
    }

    /// Drops an application from the inventory once it was moved.
    pub fn forget_application(&mut self, application_id: &str)
        requires
            old(self).wf(),
        ensures
            final(self).wf(),
            final(self).plans == old(self).plans,
            final(self).consumed_plans == old(self).consumed_plans,
            forall|k: int| 0 <= k < final(self).inventory@.len() ==> (#[trigger] final(self).inventory@[k]).application.id@ != application_id@,
            forall|k: int| 0 <= k < old(self).inventory@.len() && (#[trigger] old(self).inventory@[k]).application.id@ != application_id@
                ==> final(self).inventory@.contains(old(self).inventory@[k]),
    {
        let mut i: usize = 0;
        while i < self.inventory.len()
            invariant
                0 <= i <= self.inventory@.len(),
                unique_application_ids(self.inventory@),
                unique_plan_ids(self.plans@),
                self.plans == old(self).plans,
                self.consumed_plans == old(self).consumed_plans,
                self.inventory@ == old(self).inventory@,
                forall|k: int| 0 <= k < i ==> (#[trigger] self.inventory@[k]).application.id@ != application_id@,
            decreases self.inventory@.len() - i,
        {
            if same_text(self.inventory[i].application.id.as_str(), application_id) {
                let ghost before = self.inventory@;
                self.inventory.remove(i);
                proof {
                    assert forall|a: int, b: int| 0 <= a < b < self.inventory@.len() implies (#[trigger] self.inventory@[a]).application.id@
                        != (#[trigger] self.inventory@[b]).application.id@ by {
                        let a0 = if a < i { a } else { a + 1 };
                        let b0 = if b < i { b } else { b + 1 };
                        assert(self.inventory@[a] == before[a0] && self.inventory@[b] == before[b0]);
                    }
                    assert forall|k: int| 0 <= k < self.inventory@.len() implies (#[trigger] self.inventory@[k]).application.id@ != application_id@ by {
                        let k0 = if k < i { k } else { k + 1 };
                        assert(self.inventory@[k] == before[k0]);
                        if k0 > i {
                            assert(before[i as int].application.id@ != before[k0].application.id@);
                        }
                    }
                    assert forall|k: int| 0 <= k < before.len() && (#[trigger] before[k]).application.id@ != application_id@
                        implies self.inventory@.contains(before[k]) by {
                        if k < i {
                            assert(self.inventory@[k] == before[k]);
                        } else {
                            assert(k != i);
                            assert(self.inventory@[k - 1] == before[k]);
                        }
                    }
                }
                return;
            }
            i = i + 1;
        }
        proof {
            assert forall|k: int| 0 <= k < self.inventory@.len() && (#[trigger] self.inventory@[k]).application.id@ != application_id@
                implies self.inventory@.contains(self.inventory@[k]) by {
            }
        }
    }
}

/// The error for a bundle that may not be moved.
pub open spec fn protected_bundle_error(e: CommandError, a: InstalledApplication) -> bool {
    &&& e.code == ErrorCode::PathProtected
    &&& e.message@ == "This application bundle is protected and cannot be moved by DiskSage."@
    &&& !e.recoverable
    &&& e.path matches Some(p) && p@ == a.display_path@
    &&& e.details is None
}

/// Checks that a confirmed plan's bundle may be moved: an allowed path, not
/// a system application, not this application.
pub fn check_removable(stored: &StoredPlan) -> (r: Result<(), CommandError>)
    ensures
        ({
            let a = stored.public.application;
            let refused = !allowed_application_path(stored.identity.canonical_path@) || a.scope == ApplicationScope::System
                || (a.bundle_id matches Some(b) && b@ == own_bundle_id());
            &&& refused ==> (r matches Err(e) && protected_bundle_error(e, a))
            &&& !refused ==> r is Ok
        }),
{
    let a = &stored.public.application;
    let own = match &a.bundle_id {
        Some(b) => same_text(b.as_str(), "com.disksage.desktop"),
        None => false,
    };
    if !is_allowed_application_path(stored.identity.canonical_path.as_str()) || a.scope == ApplicationScope::System || own {
        return Err(CommandError::new(
            ErrorCode::PathProtected,
            "This application bundle is protected and cannot be moved by DiskSage.",
            false,
        ).with_path(a.display_path.as_str()));
    }
    Ok(())
}

/// The error when the bundle is still there after the move: `still_there`
/// is whether its canonical path still exists.
pub fn check_bundle_moved(application: &InstalledApplication, still_there: bool) -> (r: Result<(), CommandError>)
    ensures
        !still_there <==> r is Ok,
        r matches Err(e) ==> e.code == ErrorCode::TrashFailed
            && e.message@ == "macOS did not move the application bundle. Close the app and try again."@
            && e.recoverable && (e.path matches Some(p) && p@ == application.display_path@) && e.details is None,
{
    if still_there {
        return Err(CommandError::new(
            ErrorCode::TrashFailed,
            "macOS did not move the application bundle. Close the app and try again.",
            true,
        ).with_path(application.display_path.as_str()));
    }
    Ok(())
}

/// How many outcomes succeeded.
pub open spec fn successes(o: Seq<Result<(), CommandError>>) -> int
    decreases o.len(),
{
    if o.len() == 0 { 0 } else { successes(o.drop_last()) + if o.last() is Ok { 1int } else { 0int } }
}

proof fn lemma_successes_bound(o: Seq<Result<(), CommandError>>)
    ensures
        0 <= successes(o) <= o.len(),
    decreases o.len(),
{
    if o.len() > 0 {
        lemma_successes_bound(o.drop_last());
    }
}

/// The failures among the first `n` moves of related items, in order: the
/// item's shown path, and the error's code and message.
pub open spec fn failures(items: Seq<PlannedRelatedItem>, o: Seq<Result<(), CommandError>>, n: int) -> Seq<(Seq<char>, ErrorCode, Seq<char>)>
    decreases n,
{
    if n <= 0 {
        Seq::empty()
    } else {
        let r = failures(items, o, n - 1);
        match o[n - 1] {
            Ok(_) => r,
            Err(e) => r.push((items[n - 1].public.display_path@, e.code, e.message@)),
        }
    }
}

/// The verification items still present after the moves, in order.
pub open spec fn remaining(items: Seq<PlannedRelatedItem>, present: Seq<bool>, n: int) -> Seq<RelatedApplicationItem>
    decreases n,
{
    if n <= 0 {
        Seq::empty()
    } else {
        let r = remaining(items, present, n - 1);
        if present[n - 1] { r.push(items[n - 1].public) } else { r }
    }
}

/// The report of an uninstall whose bundle was moved: `outcomes` are the
/// moves of the selected related items, in order, and `present` says for each
/// item found at review whether it is still there.
pub fn uninstall_result(
    stored: &StoredPlan,
    outcomes: Vec<Result<(), CommandError>>,
    present: &Vec<bool>,
) -> (r: ApplicationUninstallResult)
    requires
        outcomes@.len() == stored.related_items@.len(),
        present@.len() == stored.verification_items@.len(),
    ensures
        ({
            let a = stored.public.application;
            let n = stored.related_items@.len() as int;
            let f = failures(stored.related_items@, outcomes@, n);
            &&& r.application_id == a.id
            &&& r.name == a.name
            &&& r.display_path == a.display_path
            &&& r.moved_to_trash
            &&& r.expected_bytes == bytes_total(application_bytes(a), views_of(stored.related_items@))
            &&& r.mode == stored.public.mode
            &&& r.related_items_planned == n
            &&& r.related_items_moved == successes(outcomes@)
            &&& r.related_items_failed == n - successes(outcomes@)
            &&& r.failed_paths@.map_values(|s: String| s@) == f.map_values(|x: (Seq<char>, ErrorCode, Seq<char>)| x.0)
            &&& r.failed_items@.map_values(|x: ApplicationUninstallFailure| (x.display_path@, x.code, x.message@)) == f
            &&& r.remaining_items@ == remaining(stored.verification_items@, present@, present@.len() as int)
        }),
{
    let a = &stored.public.application;
    let ghost items = stored.related_items@;
    let ghost o = outcomes@;
    let mut total: u64 = match a.allocated_size { Some(s) => s, None => a.logical_size };
    let mut moved: u64 = 0;
    let mut failed_paths: Vec<String> = Vec::new();
    let mut failed_items: Vec<ApplicationUninstallFailure> = Vec::new();
    let mut i: usize = 0;
    while i < stored.related_items.len()
        invariant
            items == stored.related_items@,
            o == outcomes@,
            o.len() == items.len(),
            0 <= i <= items.len(),
            total == bytes_total(application_bytes(*a), views_of(items.take(i as int))),
            moved == successes(o.take(i as int)),
            failed_paths@.map_values(|s: String| s@) == failures(items, o, i as int).map_values(|x: (Seq<char>, ErrorCode, Seq<char>)| x.0),
            failed_items@.map_values(|x: ApplicationUninstallFailure| (x.display_path@, x.code, x.message@)) == failures(items, o, i as int),
            *a == stored.public.application,
        decreases items.len() - i,
    {
        let item = &stored.related_items[i];
        let b = match item.public.allocated_size { Some(s) => s, None => item.public.logical_size };
        total = if total > u64::MAX - b { u64::MAX } else { total + b };
        proof {
            assert(items.take(i + 1) =~= items.take(i as int).push(items[i as int]));
            assert(views_of(items.take(i + 1)) =~= views_of(items.take(i as int)).push(items[i as int]@));
            assert(views_of(items.take(i + 1)).drop_last() =~= views_of(items.take(i as int)));
            assert(o.take(i + 1) =~= o.take(i as int).push(o[i as int]));
            assert(o.take(i + 1).drop_last() =~= o.take(i as int));
            lemma_successes_bound(o.take(i as int));
        }
        let ghost fp = failed_paths@;
        let ghost fi = failed_items@;
        match &outcomes[i] {
            Ok(()) => {
                moved = moved + 1;
            },
            Err(e) => {
                failed_paths.push(item.public.display_path.clone());
                failed_items.push(ApplicationUninstallFailure {
                    display_path: item.public.display_path.clone(),
                    code: e.code,
                    message: e.message.clone(),
                });
                proof {
                    assert(failed_paths@.map_values(|s: String| s@) =~= fp.map_values(|s: String| s@).push(item.public.display_path@));
                    assert(failed_items@.map_values(|x: ApplicationUninstallFailure| (x.display_path@, x.code, x.message@))
                        =~= fi.map_values(|x: ApplicationUninstallFailure| (x.display_path@, x.code, x.message@)).push(
                        (item.public.display_path@, e.code, e.message@)));
                }
            },
        }
        i = i + 1;
    }
    proof {
        assert(items.take(items.len() as int) =~= items);
        assert(o.take(o.len() as int) =~= o);
        lemma_successes_bound(o);
    }
    let mut rest: Vec<RelatedApplicationItem> = Vec::new();
    let mut j: usize = 0;
    while j < stored.verification_items.len()
        invariant
            present@.len() == stored.verification_items@.len(),
            0 <= j <= present@.len(),
            rest@ == remaining(stored.verification_items@, present@, j as int),
        decreases present@.len() - j,
    {
        if present[j] {
            rest.push(copy_related_public(&stored.verification_items[j].public));
        }
        j = j + 1;
    }
    let planned = stored.related_items.len() as u64;
    ApplicationUninstallResult {
        application_id: a.id.clone(),
        name: a.name.clone(),
        display_path: a.display_path.clone(),
        moved_to_trash: true,
        expected_bytes: total,
        mode: stored.public.mode,
        related_items_planned: planned,
        related_items_moved: moved,
        related_items_failed: planned - moved,
        failed_paths,
        failed_items,
        remaining_items: rest,
    }
}


proof fn lemma_first_plan_is_match(plans: Seq<StoredPlan>, id: Seq<char>, n: int)
    requires
        0 <= n <= plans.len(),
    ensures
        first_plan(plans, id, n) matches Some(k) ==> 0 <= k < n && plans[k].id@ == id,
    decreases n,
{
    if n > 0 {
        lemma_first_plan_is_match(plans, id, n - 1);
    }
}

/// An uninstall plan that was handed out is never handed out again: a
/// second request for it is refused as already used, and changes nothing.
pub proof fn law_consumed_application_plan_cannot_be_reused(
    m0: ApplicationManager,
    m1: ApplicationManager,
    m2: ApplicationManager,
    request: ExecuteApplicationUninstallRequest,
    second: ExecuteApplicationUninstallRequest,
    now1: i64,
    now2: i64,
    r1: Result<StoredPlan, CommandError>,
    r2: Result<StoredPlan, CommandError>,
)
    requires
        m0.wf(),
        app_consume_spec(m0, m1, request, now1, r1),
        r1 is Ok,
        second.plan_id@ == request.plan_id@,
        app_consume_spec(m1, m2, second, now2, r2),
    ensures
        r2 matches Err(e) && e.code == ErrorCode::PlanValidationFailed
            && e.message@ == "This application uninstall plan has already been used."@,
        m2.plans == m1.plans,
{
    let id = request.plan_id@;
    let k = plan_index(m0.plans@, id)->0;
    lemma_first_plan_is_match(m0.plans@, id, m0.plans@.len() as int);
    lemma_remove_keeps_unique(m0.plans@, k);
    let rest = m0.plans@.remove(k);
    assert forall|j: int| 0 <= j < rest.len() implies (#[trigger] rest[j]).id@ != id by {
        let j0 = if j < k { j } else { j + 1 };
        assert(rest[j] == m0.plans@[j0]);
    }
    lemma_first_plan_none(rest, id, rest.len() as int);
    let views = consumed_views(m1.consumed_plans@);
    assert(views[views.len() - 1] == id);
}

/// An expert deep-clean plan is handed out only when the user typed the
/// confirmation phrase that the reviewed plan asked for.
pub proof fn law_deep_cleanup_requires_the_typed_phrase(
    m0: ApplicationManager,
    m1: ApplicationManager,
    request: ExecuteApplicationUninstallRequest,
    now: i64,
    stored: StoredPlan,
)
    requires
        app_consume_spec(m0, m1, request, now, Ok(stored)),
        stored.public.mode == ApplicationUninstallMode::DeepCleanup,
    ensures
        text_option(request.typed_confirmation) == text_option(stored.public.required_confirmation_phrase),
{
}

/// A confirmed plan moves only related items that were reviewed and
/// selected: each one it hands out was in the plan and is named by the
/// request, and an app-only plan hands out none.
pub proof fn law_only_selected_related_items_are_moved(
    m0: ApplicationManager,
    m1: ApplicationManager,
    request: ExecuteApplicationUninstallRequest,
    now: i64,
    stored: StoredPlan,
)
    requires
        app_consume_spec(m0, m1, request, now, Ok(stored)),
    ensures
        plan_index(m0.plans@, request.plan_id@) is Some,
        ({
            let p = m0.plans@[plan_index(m0.plans@, request.plan_id@)->0];
            &&& p.id@ == request.plan_id@
            &&& forall|i: int| 0 <= i < stored.related_items@.len() ==> views_of(p.related_items@).contains(
                #[trigger] views_of(stored.related_items@)[i]) && names_item(request.selected_related_item_ids@, views_of(stored.related_items@)[i])
            &&& p.public.mode == ApplicationUninstallMode::AppOnly ==> stored.related_items@.len() == 0
        }),
{
    let id = request.plan_id@;
    lemma_first_plan_is_match(m0.plans@, id, m0.plans@.len() as int);
    let k = plan_index(m0.plans@, id)->0;
    let p = m0.plans@[k];
    let items = views_of(p.related_items@);
    let ids = request.selected_related_item_ids@;
    lemma_selected_items(items, ids);
    assert(views_of(stored.related_items@) == selected_items(items, ids));
    if p.public.mode == ApplicationUninstallMode::AppOnly {
        lemma_selected_items_empty(items, ids);
    }
}

proof fn lemma_selected_items(items: Seq<RelatedView>, ids: Seq<String>)
    ensures
        forall|i: int| 0 <= i < selected_items(items, ids).len() ==> items.contains(#[trigger] selected_items(items, ids)[i])
            && names_item(ids, selected_items(items, ids)[i]),
    decreases items.len(),
{
    if items.len() > 0 {
        lemma_selected_items(items.drop_last(), ids);
        let r = selected_items(items.drop_last(), ids);
        assert forall|i: int| 0 <= i < selected_items(items, ids).len() implies items.contains(#[trigger] selected_items(items, ids)[i])
            && names_item(ids, selected_items(items, ids)[i]) by {
            if i < r.len() {
                assert(selected_items(items, ids)[i] == r[i]);
                assert(items.drop_last().contains(r[i]));
                let j = choose|j: int| 0 <= j < items.drop_last().len() && items.drop_last()[j] == r[i];
                assert(items[j] == r[i]);
            } else {
                assert(items[items.len() - 1] == items.last());
            }
        }
    }
}

proof fn lemma_selected_items_empty(items: Seq<RelatedView>, ids: Seq<String>)
    requires
        ids.len() == 0,
    ensures
        selected_items(items, ids).len() == 0,
    decreases items.len(),
{
    if items.len() > 0 {
        lemma_selected_items_empty(items.drop_last(), ids);
    }
}
proof fn lemma_identified_only(s: Seq<RelatedView>)
    ensures
        forall|i: int| 0 <= i < identified_only(s).len() ==> (#[trigger] identified_only(s)[i]).confidence == RelatedItemConfidence::Identified,
        forall|j: int| 0 <= j < s.len() && (#[trigger] s[j]).confidence == RelatedItemConfidence::Identified ==> identified_only(s).contains(s[j]),
    decreases s.len(),
{
    if s.len() > 0 {
        let p = s.drop_last();
        lemma_identified_only(p);
        let r = identified_only(p);
        assert forall|j: int| 0 <= j < s.len() && (#[trigger] s[j]).confidence == RelatedItemConfidence::Identified implies identified_only(s).contains(s[j]) by {
            if j < s.len() - 1 {
                assert(p[j] == s[j]);
                let t = choose|t: int| 0 <= t < r.len() && r[t] == p[j];
                if s.last().confidence == RelatedItemConfidence::Identified {
                    assert(identified_only(s)[t] == s[j]);
                } else {
                    assert(identified_only(s)[t] == s[j]);
                }
            } else {
                assert(identified_only(s)[identified_only(s).len() - 1] == s[j]);
            }
        }
    }
}

/// An uninstall plan lists related items by its mode: none for the
/// application alone; for a complete uninstall only identified items, and
/// every identified item found; for a deep cleanup every item found, in order.
pub proof fn law_plan_related_items_follow_the_mode(
    plan: ApplicationUninstallPlan,
    application: InstalledApplication,
    mode: ApplicationUninstallMode,
    found: Seq<RelatedView>,
    now: i64,
)
    requires
        uninstall_plan_built(plan, application, mode, found, now),
    ensures
        mode == ApplicationUninstallMode::AppOnly ==> plan.related_items@.len() == 0,
        mode == ApplicationUninstallMode::Complete ==> {
            &&& forall|i: int| 0 <= i < plan.related_items@.len()
                ==> (#[trigger] plan.related_items@[i]).confidence == RelatedItemConfidence::Identified
            &&& forall|j: int| 0 <= j < found.len() && (#[trigger] found[j]).confidence == RelatedItemConfidence::Identified
                ==> exists|i: int| 0 <= i < plan.related_items@.len() && (#[trigger] plan.related_items@[i]).id@ == found[j].id
                    && plan.related_items@[i].path@ == found[j].path
        },
        mode == ApplicationUninstallMode::DeepCleanup ==> plan.related_items@.len() == found.len()
            && forall|j: int| 0 <= j < found.len() ==> (#[trigger] plan.related_items@[j]).path@ == found[j].path
                && plan.related_items@[j].confidence == found[j].confidence,
{
    let pv = plan.related_items@.map_values(|p: RelatedApplicationItem| public_view(p));
    let moved = items_for_mode(found, mode);
    let mv = moved.map_values(|v: RelatedView| related_public_view(v));
    assert(pv == mv);
    assert(pv.len() == plan.related_items@.len());
    assert forall|i: int| 0 <= i < plan.related_items@.len() implies
        public_view(#[trigger] plan.related_items@[i]) == related_public_view(moved[i]) by {
        assert(pv[i] == mv[i]);
    }
    if mode == ApplicationUninstallMode::Complete {
        lemma_identified_only(found);
        assert forall|j: int| 0 <= j < found.len() && (#[trigger] found[j]).confidence == RelatedItemConfidence::Identified
            implies exists|i: int| 0 <= i < plan.related_items@.len() && (#[trigger] plan.related_items@[i]).id@ == found[j].id
                && plan.related_items@[i].path@ == found[j].path by {
            let t = choose|t: int| 0 <= t < moved.len() && moved[t] == found[j];
            assert(public_view(plan.related_items@[t]) == related_public_view(moved[t]));
        }
    }
}

} // verus!
