//! The sheriff's rounds: evicting expired leases and warning about leases
//! that are about to run out.
use vstd::prelude::*;

use crate::clock::PERIOD_MS;
use crate::hooks::{self, Data, Hook, HookFailure, HookPoint, Hooks};
use crate::models::{Asset, AssetType, Lease};
use crate::store::{
    due_for_eviction, due_for_notification, gate_after, gate_opens, has_asset_for, has_lease,
    has_type, is_first_asset, lease_ids_unique, lemma_filter_all, lemma_filter_congruent,
    lemma_filter_leases, lemma_filter_nothing, lemma_filter_step, with_notified, Store,
};

verus! {

/// The leases left after an eviction pass at `now`.
pub open spec fn after_eviction(leases: Seq<Lease>, now: i64) -> Seq<Lease> {
    leases.filter(|l: Lease| !due_for_eviction(l, now))
}

/// The deleted leases that an eviction pass tells the hooks about: those of
/// `due` that hold an asset, in order. A lease without an asset has no event
/// to report.
pub open spec fn reported(due: Seq<Lease>, assets: Seq<Asset>) -> Seq<Lease> {
    due.filter(|l: Lease| has_asset_for(assets, l.id))
}

/// The leases that an eviction pass at `now` over `leases` and `assets`
/// reports to the hooks, in order.
pub open spec fn eviction_reports(leases: Seq<Lease>, assets: Seq<Asset>, now: i64) -> Seq<Lease> {
    reported(leases.filter(|l: Lease| due_for_eviction(l, now)), assets)
}

/// One dispatch of an eviction pass: the deleted lease, the position of the
/// first asset it held, and the position of that asset's type.
#[derive(Debug, Clone, Copy, PartialEq, Eq)]
pub struct EvictionNotice {
    pub lease: Lease,
    pub asset: usize,
    pub asset_type: usize,
}

/// Whether `plan` lists, in order, one dispatch for each lease of
/// `reported(due, assets)`, with the first asset it held and that asset's
/// type.
pub open spec fn is_eviction_plan(
    plan: Seq<EvictionNotice>,
    due: Seq<Lease>,
    assets: Seq<Asset>,
    types: Seq<AssetType>,
) -> bool {
    &&& plan.len() == reported(due, assets).len()
    &&& forall|k: int|
        0 <= k < plan.len() ==> {
            &&& (#[trigger] plan[k]).lease == reported(due, assets)[k]
            &&& is_first_asset(assets, plan[k].lease.id, plan[k].asset as int)
            &&& (plan[k].asset_type as int) < types.len()
            &&& types[plan[k].asset_type as int].id == assets[plan[k].asset as int].type_id
        }
}

/// The dispatches an eviction pass makes for the deleted leases `due`: one
/// for each of them that holds an asset, in order, carrying its first asset
/// and that asset's type.
pub fn plan_evictions(store: &Store, due: &Vec<Lease>) -> (r: Vec<EvictionNotice>)
    requires
        store.wf(),
    ensures
        is_eviction_plan(r@, due@, store.assets@, store.asset_types@),
{
    let ghost pred = |l: Lease| has_asset_for(store.assets@, l.id);
    let mut plan: Vec<EvictionNotice> = Vec::new();
    let mut i: usize = 0;
    while i < due.len()
        invariant
            store.wf(),
            i <= due@.len(),
            pred == (|l: Lease| has_asset_for(store.assets@, l.id)),
            is_eviction_plan(plan@, due@.take(i as int), store.assets@, store.asset_types@),
        decreases due@.len() - i,
    {
        proof {
            lemma_filter_step(due@, pred, i as int);
        }
        let lease = due[i];
        match store.find_asset_of_lease(lease.id) {
            Some(a) => {
                let t = match store.find_asset_type(store.assets[a].type_id) {
                    Some(t) => t,
                    None => {
                        proof {
                            assert(has_type(store.asset_types@, store.assets@[a as int].type_id));
                        }
                        0
                    },
                };
                plan.push(EvictionNotice { lease, asset: a, asset_type: t });
            },
            None => {},
        }
        proof {
            let rep = reported(due@.take(i + 1), store.assets@);
            assert forall|k: int| 0 <= k < plan@.len() implies (#[trigger] plan@[k]).lease
                == rep[k] by {}
        }
        i = i + 1;
    }
    assert(due@.take(i as int) =~= due@);
    plan
}

/// Whether `now` falls inside the lease's warning window: less than a
/// twentieth of the lease's length is left before its end, that is
/// `now > end - (end - start) / 20`, computed without rounding. A lease
/// without an end time never enters its window.
pub open spec fn in_warning_window(l: Lease, now: i64) -> bool {
    l.end_time is Some && 20 * (l.end_time.unwrap() - now) < l.end_time.unwrap() - l.start_time
}

/// Whether a notification pass at `now` warns about the lease.
pub open spec fn warn_due(l: Lease, now: i64) -> bool {
    due_for_notification(l) && in_warning_window(l, now)
}

/// The leases after a notification pass at `now` that ran to completion.
pub open spec fn after_notices(leases: Seq<Lease>, now: i64) -> Seq<Lease> {
    leases.map_values(|l: Lease| if warn_due(l, now) { l.notified_at(now) } else { l })
}

/// Whether one of the first `j` candidates has id `id` and was in its window.
pub open spec fn warned_among(cands: Seq<Lease>, j: int, id: i32, now: i64) -> bool {
    exists|m: int| 0 <= m < j && (#[trigger] cands[m]).id == id && in_warning_window(cands[m], now)
}

/// The leases after a notification pass at `now` that warned about the
/// candidates before position `j` of its scan, and about no other lease.
pub open spec fn notices_before(leases: Seq<Lease>, j: int, now: i64) -> Seq<Lease> {
    leases.map_values(
        |l: Lease|
            if warned_among(leases.filter(|l: Lease| due_for_notification(l)), j, l.id, now) {
                l.notified_at(now)
            } else {
                l
            },
    )
}

/// The lease that a failed pass names.
pub open spec fn error_lease(e: SheriffError) -> i32 {
    match e {
        SheriffError::Hook { lease_id, .. } => lease_id,
        SheriffError::MissingAsset { lease_id } => lease_id,
    }
}

/// Whether a notification pass at `now` over `leases` and `assets` that
/// stopped with `e` leaves the leases `fin`: it stopped at the candidate `j`
/// of its scan, a lease inside its warning window, which keeps no warning,
/// as do the candidates after it, while the ones before keep theirs. The
/// candidate either holds no asset or had a `warned` hook fail.
pub open spec fn notices_failed(
    leases: Seq<Lease>,
    assets: Seq<Asset>,
    now: i64,
    e: SheriffError,
    fin: Seq<Lease>,
) -> bool {
    let cands = leases.filter(|l: Lease| due_for_notification(l));
    exists|j: int|
        0 <= j < cands.len() && (#[trigger] cands[j]).id == error_lease(e) && in_warning_window(
            cands[j],
            now,
        ) && fin == notices_before(leases, j, now) && (forall|m: int|
            0 <= m < j && in_warning_window(cands[m], now) ==> has_asset_for(
                assets,
                #[trigger] cands[m].id,
            )) && match e {
            SheriffError::MissingAsset { lease_id } => !has_asset_for(assets, lease_id),
            SheriffError::Hook { point, lease_id, .. } => point == HookPoint::Warned
                && has_asset_for(assets, lease_id),
        }
}

/// Whether every lease of `leases` that a notification pass at `now` warns
/// about holds an asset.
pub open spec fn warnings_hold_assets(leases: Seq<Lease>, assets: Seq<Asset>, now: i64) -> bool {
    forall|k: int|
        0 <= k < leases.len() && warn_due(leases[k], now) ==> has_asset_for(
            assets,
            #[trigger] leases[k].id,
        )
}

/// Whether `now` falls inside the lease's warning window.
pub fn should_warn(lease: &Lease, now: i64) -> (r: bool)
    ensures
        r == in_warning_window(*lease, now),
{
    match lease.end_time {
        Some(end) => 20 * (end as i128 - now as i128) < end as i128 - lease.start_time as i128,
        None => false,
    }
}

/// What an eviction pass did.
#[derive(Debug, Clone, Copy, PartialEq, Eq)]
pub struct Eviction {
    /// How many leases were deleted.
    pub evicted: usize,
    /// How many `evicted` dispatches were made: one for each deleted lease
    /// that held an asset.
    pub notified: usize,
}

/// Why a pass stopped early.
#[derive(Debug)]
pub enum SheriffError {
    /// A hook failed while being told about `point` for the lease `lease_id`.
    Hook { point: HookPoint, lease_id: i32, hook_index: usize, error: hooks::Error },
    /// The lease `lease_id` was due for a warning but no asset is held by it.
    MissingAsset { lease_id: i32 },
}

/// Deletes every lease that ended before `now` in one go, then tells the
/// hooks about each deleted lease that held an asset, once, in store order,
/// with the first asset it held: exactly the dispatches of
/// `plan_evictions`. The hooks see the store without those leases.
///
/// Returns how many leases were deleted and how many dispatches were made.
/// The deletions stand even when a hook fails: the failure stops the
/// remaining dispatches and is returned.
pub fn evict<H: Hook>(store: &mut Store, hooks: &Hooks<H>, now: i64) -> (r: Result<
    Eviction,
    SheriffError,
>)
    requires
        old(store).wf(),
    ensures
        final(store).wf(),
        final(store).leases@ == after_eviction(old(store).leases@, now),
        final(store).assets@ == old(store).assets@,
        final(store).asset_types@ == old(store).asset_types@,
        final(store).gate == old(store).gate,
        r is Ok ==> r->Ok_0.evicted == old(store).leases@.len() - final(store).leases@.len(),
        r is Ok ==> r->Ok_0.notified == eviction_reports(
            old(store).leases@,
            old(store).assets@,
            now,
        ).len(),
        r is Err ==> r->Err_0 is Hook && r->Err_0->Hook_point == HookPoint::Evicted
            && r->Err_0->Hook_hook_index < hooks.hooks@.len() && exists|k: int|
            0 <= k < eviction_reports(old(store).leases@, old(store).assets@, now).len() && (
            #[trigger] eviction_reports(old(store).leases@, old(store).assets@, now)[k]).id
                == r->Err_0->Hook_lease_id,
        hooks.hooks@.len() == 0 ==> r is Ok,
{
    let ghost old_leases = store.leases@;
    let due = store.leases_due_for_eviction(now);
    let ghost due_pred = |l: Lease| due_for_eviction(l, now);
    proof {
        lemma_filter_leases(old_leases, due_pred);
    }
    let plan = plan_evictions(store, &due);
    let mut ids: Vec<i32> = Vec::new();
    let mut i: usize = 0;
    while i < due.len()
        invariant
            i <= due@.len(),
            ids@ == due@.take(i as int).map_values(|l: Lease| l.id),
        decreases due@.len() - i,
    {
        ids.push(due[i].id);
        i = i + 1;
        assert(ids@ =~= due@.take(i as int).map_values(|l: Lease| l.id));
    }
    assert(due@.take(i as int) =~= due@);
    proof {
        let keep = |l: Lease| !ids@.contains(l.id);
        let not_due = |l: Lease| !due_for_eviction(l, now);
        assert forall|k: int| 0 <= k < old_leases.len() implies keep(#[trigger] old_leases[k])
            == not_due(old_leases[k]) by {
            let l = old_leases[k];
            if due_for_eviction(l, now) {
                old_leases.lemma_filter_contains(due_pred, k);
                let m = choose|m: int| 0 <= m < due@.len() && due@[m] == l;
                assert(ids@[m] == l.id);
            }
            if ids@.contains(l.id) {
                let m = choose|m: int| 0 <= m < ids@.len() && ids@[m] == l.id;
                assert(old_leases.contains(due@[m]));
                let n = choose|n: int| 0 <= n < old_leases.len() && old_leases[n] == due@[m];
                assert(n == k);
                old_leases.lemma_filter_pred(due_pred, m);
            }
        }
        lemma_filter_congruent(old_leases, keep, not_due);
    }
    let deleted = store.delete_leases(&ids);
    let mut k: usize = 0;
    while k < plan.len()
        invariant
            store.wf(),
            store.leases@ == after_eviction(old_leases, now),
            store.assets@ == old(store).assets@,
            store.asset_types@ == old(store).asset_types@,
            store.gate == old(store).gate,
            old_leases == old(store).leases@,
            deleted == old_leases.len() - store.leases@.len(),
            due@ == old_leases.filter(due_pred),
            due_pred == (|l: Lease| due_for_eviction(l, now)),
            is_eviction_plan(plan@, due@, store.assets@, store.asset_types@),
            k <= plan@.len(),
        decreases plan@.len() - k,
    {
        let notice = plan[k];
        let data = Data::new(
            &notice.lease,
            &store.assets[notice.asset],
            &store.asset_types[notice.asset_type],
        );
        match hooks.evicted(store, &data) {
            Ok(()) => {},
            Err(HookFailure { hook_index, error }) => {
                proof {
                    assert(plan@[k as int].lease == reported(due@, store.assets@)[k as int]);
                    assert(eviction_reports(old_leases, store.assets@, now) == reported(
                        due@,
                        store.assets@,
                    ));
                    assert(eviction_reports(old_leases, store.assets@, now)[k as int].id
                        == notice.lease.id);
                }
                return Err(
                    SheriffError::Hook {
                        point: HookPoint::Evicted,
                        lease_id: notice.lease.id,
                        hook_index,
                        error,
                    },
                );
            },
        }
        k = k + 1;
    }
    Ok(Eviction { evicted: deleted, notified: plan.len() })
}

/// After an eviction pass at `now`, no lease that ended before `now` is left
/// in the store. When each of those leases holds an asset, the pass reports
/// every one of them exactly once, in store order.
pub proof fn lemma_eviction_removes_due(leases: Seq<Lease>, assets: Seq<Asset>, now: i64)
    requires
        lease_ids_unique(leases),
    ensures
        forall|k: int|
            0 <= k < leases.len() && due_for_eviction(#[trigger] leases[k], now) ==> !has_lease(
                after_eviction(leases, now),
                leases[k].id,
            ),
        (forall|k: int|
            0 <= k < leases.len() && due_for_eviction(#[trigger] leases[k], now) ==> has_asset_for(
                assets,
                leases[k].id,
            )) ==> eviction_reports(leases, assets, now) == leases.filter(
            |l: Lease| due_for_eviction(l, now),
        ),
{
    let keep = |l: Lease| !due_for_eviction(l, now);
    let due = |l: Lease| due_for_eviction(l, now);
    let after = after_eviction(leases, now);
    lemma_filter_leases(leases, keep);
    assert forall|k: int|
        0 <= k < leases.len() && due_for_eviction(#[trigger] leases[k], now) implies !has_lease(
        after,
        leases[k].id,
    ) by {
        if has_lease(after, leases[k].id) {
            let m = choose|m: int| 0 <= m < after.len() && after[m].id == leases[k].id;
            leases.lemma_filter_pred(keep, m);
            assert(leases.contains(after[m]));
            let n = choose|n: int| 0 <= n < leases.len() && leases[n] == after[m];
            assert(n == k);
        }
    }
    if forall|k: int|
        0 <= k < leases.len() && due_for_eviction(#[trigger] leases[k], now) ==> has_asset_for(
            assets,
            leases[k].id,
        ) {
        lemma_filter_leases(leases, due);
        let ds = leases.filter(due);
        let held = |l: Lease| has_asset_for(assets, l.id);
        assert forall|m: int| 0 <= m < ds.len() implies held(#[trigger] ds[m]) by {
            leases.lemma_filter_pred(due, m);
            assert(leases.contains(ds[m]));
            let n = choose|n: int| 0 <= n < leases.len() && leases[n] == ds[m];
            assert(due_for_eviction(leases[n], now));
        }
        lemma_filter_all(ds, held);
    }
}

/// A second eviction pass at the same time deletes nothing and makes no
/// dispatch.
pub proof fn lemma_eviction_idempotent(leases: Seq<Lease>, assets: Seq<Asset>, now: i64)
    ensures
        after_eviction(after_eviction(leases, now), now) == after_eviction(leases, now),
        after_eviction(leases, now).filter(|l: Lease| due_for_eviction(l, now)).len() == 0,
        eviction_reports(after_eviction(leases, now), assets, now).len() == 0,
{
    let keep = |l: Lease| !due_for_eviction(l, now);
    let due = |l: Lease| due_for_eviction(l, now);
    let after = after_eviction(leases, now);
    assert forall|i: int| 0 <= i < after.len() implies keep(#[trigger] after[i]) by {
        leases.lemma_filter_pred(keep, i);
    }
    lemma_filter_all(after, keep);
    lemma_filter_nothing(after, due);
    after.filter(due).lemma_filter_len(|l: Lease| has_asset_for(assets, l.id));
}

/// A lease that a completed notification pass warned about is never warned
/// about again, by any later pass.
pub proof fn lemma_warned_once(leases: Seq<Lease>, first: i64, later: i64)
    ensures
        forall|k: int|
            0 <= k < leases.len() && warn_due(#[trigger] leases[k], first) ==> !warn_due(
                after_notices(leases, first)[k],
                later,
            ) && after_notices(leases, first)[k].last_notified == Some(first),
{
}

/// A warning is recorded no earlier than the lease began, for every lease
/// whose end is not before its start.
pub proof fn lemma_notified_after_start(l: Lease, now: i64)
    requires
        warn_due(l, now),
        l.start_time <= l.end_time.unwrap(),
    ensures
        l.start_time <= now,
        l.notified_at(now).last_notified.unwrap() >= l.start_time,
{
}

/// A round that overruns its period does not push the schedule back: the
/// next deadline is still one period after the last one, so the deputy runs
/// again at once, without sleeping.
pub proof fn lemma_schedule_drift(deadline: i64, finished: i64)
    requires
        deadline <= i64::MAX - PERIOD_MS,
        finished >= deadline + PERIOD_MS,
    ensures
        next_deadline(deadline) == deadline + PERIOD_MS,
        wake_action(next_deadline(deadline) as i64, true, finished) == Wake::Run,
{
}

/// The deadline after `k` rounds, starting from `deadline`: each round
/// moves it to `next_deadline` of the one before.
pub open spec fn deadline_after(deadline: int, k: nat) -> int
    decreases k,
{
    if k == 0 {
        deadline
    } else {
        deadline_after(deadline, (k - 1) as nat) + PERIOD_MS
    }
}

/// However long each of `k` rounds takes, the deadline after them is `k`
/// periods after the first one.
pub proof fn lemma_deadline_after(deadline: int, k: nat)
    ensures
        deadline_after(deadline, k) == deadline + k * PERIOD_MS,
    decreases k,
{
    if k > 0 {
        lemma_deadline_after(deadline, (k - 1) as nat);
        assert(deadline + (k - 1) * PERIOD_MS + PERIOD_MS == deadline + k * PERIOD_MS)
            by (nonlinear_arith);
    }
}

/// A candidate that was warned about is, in the old store, a lease that was
/// due for a warning.
proof fn lemma_warned_is_due(old_leases: Seq<Lease>, cands: Seq<Lease>, j: int, k: int, now: i64)
    requires
        lease_ids_unique(old_leases),
        cands == old_leases.filter(|l: Lease| due_for_notification(l)),
        forall|m: int| 0 <= m < cands.len() ==> old_leases.contains(#[trigger] cands[m]),
        0 <= k < old_leases.len(),
        j <= cands.len(),
        warned_among(cands, j, old_leases[k].id, now),
    ensures
        warn_due(old_leases[k], now),
{
    let m = choose|m: int|
        0 <= m < j && (#[trigger] cands[m]).id == old_leases[k].id && in_warning_window(
            cands[m],
            now,
        );
    assert(old_leases.contains(cands[m]));
    let n = choose|n: int| 0 <= n < old_leases.len() && old_leases[n] == cands[m];
    assert(n == k);
    old_leases.lemma_filter_pred(|l: Lease| due_for_notification(l), m);
}

/// Warns, through the hooks, about every lease that has not been warned
/// about yet and whose warning window `now` has reached, in store order;
/// records `now` as each one's last warning once its hooks have run.
///
/// The first failure stops the pass; the warnings recorded until then stay,
/// and the lease it stopped at, like the ones after it, keeps none.
pub fn send_eviction_notices<H: Hook>(store: &mut Store, hooks: &Hooks<H>, now: i64) -> (r: Result<
    (),
    SheriffError,
>)
    requires
        old(store).wf(),
    ensures
        final(store).wf(),
        final(store).assets@ == old(store).assets@,
        final(store).asset_types@ == old(store).asset_types@,
        final(store).gate == old(store).gate,
        r is Ok ==> final(store).leases@ == after_notices(old(store).leases@, now),
        final(store).leases@.len() == old(store).leases@.len(),
        forall|k: int|
            0 <= k < old(store).leases@.len() ==> #[trigger] final(store).leases@[k]
                == old(store).leases@[k] || (warn_due(old(store).leases@[k], now)
                && final(store).leases@[k] == old(store).leases@[k].notified_at(now)),
        r is Err ==> notices_failed(
            old(store).leases@,
            old(store).assets@,
            now,
            r->Err_0,
            final(store).leases@,
        ),
        r is Err ==> exists|k: int|
            0 <= k < old(store).leases@.len() && warn_due(old(store).leases@[k], now) && (match r->Err_0 {
                SheriffError::MissingAsset { lease_id } => old(store).leases@[k].id == lease_id
                    && !has_asset_for(old(store).assets@, lease_id),
                SheriffError::Hook { point, lease_id, hook_index, error: _ } => point
                    == HookPoint::Warned && old(store).leases@[k].id == lease_id && hook_index
                    < hooks.hooks@.len(),
            }),
        r is Ok ==> warnings_hold_assets(old(store).leases@, old(store).assets@, now),
        hooks.hooks@.len() == 0 && warnings_hold_assets(old(store).leases@, old(store).assets@, now)
            ==> r is Ok,
{
    let ghost old_leases = store.leases@;
    let ghost nf = |l: Lease| due_for_notification(l);
    let cands = store.leases_due_for_notification();
    proof {
        lemma_filter_leases(old_leases, nf);
    }
    let mut j: usize = 0;
    while j < cands.len()
        invariant
            store.wf(),
            store.assets@ == old(store).assets@,
            store.asset_types@ == old(store).asset_types@,
            store.gate == old(store).gate,
            old_leases == old(store).leases@,
            lease_ids_unique(old_leases),
            nf == (|l: Lease| due_for_notification(l)),
            cands@ == old_leases.filter(nf),
            forall|m: int| 0 <= m < cands@.len() ==> old_leases.contains(#[trigger] cands@[m]),
            lease_ids_unique(cands@),
            j <= cands@.len(),
            forall|m: int|
                0 <= m < j && in_warning_window(cands@[m], now) ==> has_asset_for(
                    old(store).assets@,
                    #[trigger] cands@[m].id,
                ),
            store.leases@.len() == old_leases.len(),
            forall|k: int|
                0 <= k < old_leases.len() ==> #[trigger] store.leases@[k] == (if warned_among(
                    cands@,
                    j as int,
                    old_leases[k].id,
                    now,
                ) {
                    old_leases[k].notified_at(now)
                } else {
                    old_leases[k]
                }),
        decreases cands@.len() - j,
    {
        let lease = cands[j];
        proof {
            assert(old_leases.contains(cands@[j as int]));
            old_leases.lemma_filter_pred(nf, j as int);
            assert forall|k: int| 0 <= k < old_leases.len() implies #[trigger] store.leases@[k]
                == old_leases[k] || (warn_due(old_leases[k], now) && store.leases@[k]
                == old_leases[k].notified_at(now)) by {
                if warned_among(cands@, j as int, old_leases[k].id, now) {
                    lemma_warned_is_due(old_leases, cands@, j as int, k, now);
                }
            }
            assert(store.leases@ =~= notices_before(old_leases, j as int, now));
        }
        if should_warn(&lease, now) {
            let ai = match store.find_asset_of_lease(lease.id) {
                Some(ai) => ai,
                None => {
                    return Err(SheriffError::MissingAsset { lease_id: lease.id });
                },
            };
            let asset = &store.assets[ai];
            let ti = match store.find_asset_type(asset.type_id) {
                Some(ti) => ti,
                None => {
                    return Err(SheriffError::MissingAsset { lease_id: lease.id });
                },
            };
            let data = Data::new(&lease, asset, &store.asset_types[ti]);
            match hooks.warned(store, &data) {
                Ok(()) => {},
                Err(HookFailure { hook_index, error }) => {
                    return Err(
                        SheriffError::Hook {
                            point: HookPoint::Warned,
                            lease_id: lease.id,
                            hook_index,
                            error,
                        },
                    );
                },
            }
            let ghost prev = store.leases@;
            store.mark_notified(lease.id, now);
            proof {
                assert forall|k: int| 0 <= k < old_leases.len() implies #[trigger] store.leases@[k]
                    == (if warned_among(cands@, j + 1, old_leases[k].id, now) {
                    old_leases[k].notified_at(now)
                } else {
                    old_leases[k]
                }) by {
                    assert(store.leases@[k] == with_notified(prev, lease.id, now)[k]);
                    if old_leases[k].id == lease.id {
                        assert(!warned_among(cands@, j as int, lease.id, now));
                        assert(warned_among(cands@, j + 1, lease.id, now));
                    } else {
                        assert(warned_among(cands@, j + 1, old_leases[k].id, now)
                            == warned_among(cands@, j as int, old_leases[k].id, now));
                    }
                }
            }
        } else {
            proof {
                assert forall|k: int| 0 <= k < old_leases.len() implies #[trigger] store.leases@[k]
                    == (if warned_among(cands@, j + 1, old_leases[k].id, now) {
                    old_leases[k].notified_at(now)
                } else {
                    old_leases[k]
                }) by {
                    assert(warned_among(cands@, j + 1, old_leases[k].id, now) == warned_among(
                        cands@,
                        j as int,
                        old_leases[k].id,
                        now,
                    ));
                }
            }
        }
        j = j + 1;
    }
    proof {
        assert forall|k: int| 0 <= k < old_leases.len() implies warned_among(
            cands@,
            j as int,
            old_leases[k].id,
            now,
        ) == warn_due(old_leases[k], now) by {
            if warned_among(cands@, j as int, old_leases[k].id, now) {
                lemma_warned_is_due(old_leases, cands@, j as int, k, now);
            }
            if warn_due(old_leases[k], now) {
                old_leases.lemma_filter_contains(nf, k);
                let m = choose|m: int| 0 <= m < cands@.len() && cands@[m] == old_leases[k];
                assert(warned_among(cands@, j as int, old_leases[k].id, now));
            }
        }
        assert(store.leases@ =~= after_notices(old_leases, now));
    }
    Ok(())
}

/// The leases after a full round at `now`: an eviction pass, then a
/// notification pass, both completed.
pub open spec fn after_rounds(leases: Seq<Lease>, now: i64) -> Seq<Lease> {
    after_notices(after_eviction(leases, now), now)
}

/// Whether a round at `now` over `leases` and `assets` that stopped with `e`
/// leaves the leases `fin`. A failed eviction pass leaves them as after the
/// eviction, with no warning recorded; a failed notification pass leaves
/// them as `notices_failed` says, after a completed eviction.
pub open spec fn rounds_failed(
    leases: Seq<Lease>,
    assets: Seq<Asset>,
    now: i64,
    e: SheriffError,
    fin: Seq<Lease>,
) -> bool {
    if e is Hook && e->Hook_point == HookPoint::Evicted {
        fin == after_eviction(leases, now)
    } else {
        notices_failed(after_eviction(leases, now), assets, now, e, fin)
    }
}

/// Whether every lease that a round at `now` warns about holds an asset.
pub open spec fn warned_hold_assets(leases: Seq<Lease>, assets: Seq<Asset>, now: i64) -> bool {
    warnings_hold_assets(after_eviction(leases, now), assets, now)
}

/// One round at `now`: an eviction pass, then a notification pass. A failure
/// in the first stops the round before the second.
pub fn make_rounds<H: Hook>(store: &mut Store, hooks: &Hooks<H>, now: i64) -> (r: Result<(), SheriffError>)
    requires
        old(store).wf(),
    ensures
        final(store).wf(),
        final(store).assets@ == old(store).assets@,
        final(store).asset_types@ == old(store).asset_types@,
        final(store).gate == old(store).gate,
        r is Ok ==> final(store).leases@ == after_rounds(old(store).leases@, now)
            && warned_hold_assets(old(store).leases@, old(store).assets@, now),
        r is Err ==> rounds_failed(
            old(store).leases@,
            old(store).assets@,
            now,
            r->Err_0,
            final(store).leases@,
        ),
        r matches Err(SheriffError::Hook { hook_index, .. }) ==> hook_index < hooks.hooks@.len(),
        hooks.hooks@.len() == 0 && warned_hold_assets(old(store).leases@, old(store).assets@, now)
            ==> r is Ok,
{
    match evict(store, hooks, now) {
        Ok(_) => {},
        Err(e) => {
            return Err(e);
        },
    }
    send_eviction_notices(store, hooks, now)
}

/// What the deputy does when it wakes up.
#[derive(Debug, Clone, Copy, PartialEq, Eq, Structural)]
pub enum Wake {
    /// It was told to stop: leave the loop without another round.
    Stop,
    /// The deadline has passed: try the run gate and make the rounds.
    Run,
    /// Woken early: sleep this many more milliseconds.
    Sleep(u64),
}

/// The deputy's decision on waking at `now` with the given deadline.
pub open spec fn wake_action(deadline: i64, running: bool, now: i64) -> Wake {
    if !running {
        Wake::Stop
    } else if now >= deadline {
        Wake::Run
    } else {
        Wake::Sleep((deadline - now) as u64)
    }
}

/// The deadline that follows `deadline`: one period later, however long
/// the rounds took.
pub open spec fn next_deadline(deadline: i64) -> int {
    deadline + PERIOD_MS
}

/// The scheduler of the sheriff's rounds.
#[derive(Debug, Clone, Copy, PartialEq, Eq)]
pub struct Deputy {
    pub deadline: i64,
}

impl Deputy {
    /// A deputy started at `now`: its first round is one period later.
    pub fn new(now: i64) -> (r: Deputy)
        requires
            now <= i64::MAX - PERIOD_MS,
        ensures
            r.deadline == now + PERIOD_MS,
    {
        Deputy { deadline: now + PERIOD_MS }
    }

    /// Decides what to do on waking at `now`; `running` is false once a stop
    /// was asked for.
    pub fn on_wake(&self, running: bool, now: i64) -> (r: Wake)
        ensures
            r == wake_action(self.deadline, running, now),
            r matches Wake::Sleep(ms) ==> 0 < ms,
    {
        if !running {
            Wake::Stop
        } else if now >= self.deadline {
            Wake::Run
        } else {
            Wake::Sleep((self.deadline as i128 - now as i128) as u64)
        }
    }

    /// Moves the deadline one period on, whatever time it is now.
    pub fn advance(&mut self)
        requires
            old(self).deadline <= i64::MAX - PERIOD_MS,
        ensures
            final(self).deadline == next_deadline(old(self).deadline),
    {
        self.deadline = self.deadline + PERIOD_MS;
    }

    /// One scheduled wake-up at `now`: if the run gate opens, a round.
    /// Returns whether the run gate opened.
    pub fn run_one<H: Hook>(&self, store: &mut Store, hooks: &Hooks<H>, now: i64) -> (r: Result<
        bool,
        SheriffError,
    >)
        requires
            old(store).wf(),
        ensures
            final(store).wf(),
            final(store).assets@ == old(store).assets@,
            final(store).asset_types@ == old(store).asset_types@,
            final(store).gate.last_checked == gate_after(old(store).gate.last_checked, PERIOD_MS, now),
            !gate_opens(old(store).gate.last_checked, PERIOD_MS, now) ==> r == Ok::<bool, SheriffError>(false)
                && final(store).leases@ == old(store).leases@,
            r is Ok && gate_opens(old(store).gate.last_checked, PERIOD_MS, now) ==> r->Ok_0
                && final(store).leases@ == after_rounds(old(store).leases@, now)
                && warned_hold_assets(old(store).leases@, old(store).assets@, now),
            r is Err ==> gate_opens(old(store).gate.last_checked, PERIOD_MS, now) && rounds_failed(
                old(store).leases@,
                old(store).assets@,
                now,
                r->Err_0,
                final(store).leases@,
            ),
            hooks.hooks@.len() == 0 && gate_opens(old(store).gate.last_checked, PERIOD_MS, now)
                && warned_hold_assets(old(store).leases@, old(store).assets@, now) ==> r == Ok::<
                bool,
                SheriffError,
            >(true),
    {
        if store.try_acquire_run_gate(PERIOD_MS, now) {
            match make_rounds(store, hooks, now) {
                Ok(()) => Ok(true),
                Err(e) => Err(e),
            }
        } else {
            Ok(false)
        }
    }
}

} // verus!
