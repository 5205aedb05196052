//! The relational store the sheriff works against, held in memory.
//!
//! Every operation runs under an exclusive borrow, which gives the row locks
//! and the atomic compare-and-update that the sheriff relies on.
use vstd::prelude::*;

use crate::models::{Asset, AssetType, Lease};

verus! {

/// Whether a lease has expired by `now`: its end time is strictly earlier.
pub open spec fn due_for_eviction(l: Lease, now: i64) -> bool {
    l.end_time is Some && l.end_time.unwrap() < now
}

/// Whether a lease has not yet been warned about. A lease that never ends
/// is never warned about, so the scan leaves it out.
pub open spec fn due_for_notification(l: Lease) -> bool {
    l.last_notified is None && l.end_time is Some
}

/// One step of a scan: the filter of the first `i + 1` items, from that of
/// the first `i`.
pub proof fn lemma_filter_step<A>(s: Seq<A>, pred: spec_fn(A) -> bool, i: int)
    requires
        0 <= i < s.len(),
    ensures
        s.take(i + 1).filter(pred) == (if pred(s[i]) {
            s.take(i).filter(pred).push(s[i])
        } else {
            s.take(i).filter(pred)
        }),
{
    reveal(Seq::filter);
    assert(s.take(i + 1).drop_last() =~= s.take(i));
}

/// Filtering keeps only items of the sequence, and keeps lease ids unique.
pub proof fn lemma_filter_leases(s: Seq<Lease>, pred: spec_fn(Lease) -> bool)
    ensures
        forall|k: int| 0 <= k < s.filter(pred).len() ==> s.contains(#[trigger] s.filter(pred)[k]),
        lease_ids_unique(s) ==> lease_ids_unique(s.filter(pred)),
    decreases s.len(),
{
    reveal(Seq::filter);
    if s.len() > 0 {
        let d = s.drop_last();
        lemma_filter_leases(d, pred);
        assert forall|k: int| 0 <= k < d.filter(pred).len() implies s.contains(
            #[trigger] d.filter(pred)[k],
        ) by {
            let j = choose|j: int| 0 <= j < d.len() && d[j] == d.filter(pred)[k];
            assert(s[j] == d[j]);
        }
        if lease_ids_unique(s) {
            assert(lease_ids_unique(d));
            assert forall|k: int| 0 <= k < d.filter(pred).len() implies (#[trigger] d.filter(
                pred,
            )[k]).id != s.last().id by {
                let j = choose|j: int| 0 <= j < d.len() && d[j] == d.filter(pred)[k];
                assert(s[j] == d[j]);
            }
        }
    }
}

/// Two filters over `s` agree when their predicates agree on every item.
pub proof fn lemma_filter_congruent<A>(s: Seq<A>, p: spec_fn(A) -> bool, q: spec_fn(A) -> bool)
    requires
        forall|i: int| 0 <= i < s.len() ==> p(#[trigger] s[i]) == q(s[i]),
    ensures
        s.filter(p) == s.filter(q),
    decreases s.len(),
{
    reveal(Seq::filter);
    if s.len() > 0 {
        let d = s.drop_last();
        assert forall|i: int| 0 <= i < d.len() implies p(#[trigger] d[i]) == q(d[i]) by {
            assert(d[i] == s[i]);
        }
        lemma_filter_congruent(d, p, q);
    }
}

/// A filter that keeps every item changes nothing.
pub proof fn lemma_filter_all<A>(s: Seq<A>, p: spec_fn(A) -> bool)
    requires
        forall|i: int| 0 <= i < s.len() ==> p(#[trigger] s[i]),
    ensures
        s.filter(p) == s,
    decreases s.len(),
{
    reveal(Seq::filter);
    if s.len() > 0 {
        let d = s.drop_last();
        assert forall|i: int| 0 <= i < d.len() implies p(#[trigger] d[i]) by {
            assert(d[i] == s[i]);
        }
        lemma_filter_all(d, p);
        assert(d.push(s.last()) =~= s);
    }
}

/// A filter that keeps no item is empty.
pub proof fn lemma_filter_nothing<A>(s: Seq<A>, p: spec_fn(A) -> bool)
    requires
        forall|i: int| 0 <= i < s.len() ==> !p(#[trigger] s[i]),
    ensures
        s.filter(p).len() == 0,
    decreases s.len(),
{
    reveal(Seq::filter);
    if s.len() > 0 {
        let d = s.drop_last();
        assert forall|i: int| 0 <= i < d.len() implies !p(#[trigger] d[i]) by {
            assert(d[i] == s[i]);
        }
        lemma_filter_nothing(d, p);
    }
}

/// Two processes that try the run gate within one period of each other,
/// after it has stayed shut for longer than the period: whichever comes
/// first gets through, and the other does not.
pub proof fn lemma_run_gate_exclusive(last_checked: Option<i64>, period: i64, a: i64, b: i64)
    requires
        0 <= period,
        gate_opens(last_checked, period, a),
        gate_opens(last_checked, period, b),
        a - period <= b <= a + period,
    ensures
        !gate_opens(gate_after(last_checked, period, a), period, b),
        !gate_opens(gate_after(last_checked, period, b), period, a),
{
}

/// Whether some asset is held by the lease with id `lease_id`.
pub open spec fn has_asset_for(assets: Seq<Asset>, lease_id: i32) -> bool {
    exists|k: int| 0 <= k < assets.len() && assets[k].lease_id == Some(lease_id)
}

/// Whether position `i` of `assets` holds the first asset held by the lease
/// with id `id`.
pub open spec fn is_first_asset(assets: Seq<Asset>, id: i32, i: int) -> bool {
    &&& 0 <= i < assets.len()
    &&& assets[i].lease_id == Some(id)
    &&& forall|k: int| 0 <= k < i ==> assets[k].lease_id != Some(id)
}

/// The leases of `leases` whose id is not in `ids`, in order.
pub open spec fn without_ids(leases: Seq<Lease>, ids: Seq<i32>) -> Seq<Lease> {
    leases.filter(|l: Lease| !ids.contains(l.id))
}

/// Every lease whose id is `id` gets its last warning set to `when`.
pub open spec fn with_notified(leases: Seq<Lease>, id: i32, when: i64) -> Seq<Lease> {
    leases.map_values(|l: Lease| if l.id == id { l.notified_at(when) } else { l })
}

/// Whether the run gate opens at `now`: its last check is older than
/// `period`. A gate that was never checked, like a NULL in the row, never
/// opens.
pub open spec fn gate_opens(last_checked: Option<i64>, period: i64, now: i64) -> bool {
    last_checked is Some && last_checked.unwrap() < now - period
}

/// The run gate's last check after an attempt at `now`.
pub open spec fn gate_after(last_checked: Option<i64>, period: i64, now: i64) -> Option<i64> {
    if gate_opens(last_checked, period, now) {
        Some(now)
    } else {
        last_checked
    }
}

/// The singleton row that serialises the deputies of every process.
#[derive(Debug, Clone, Copy, PartialEq, Eq)]
pub struct RunGate {
    pub last_checked: Option<i64>,
}

/// Leases, assets and asset types, with the run gate.
#[derive(Debug)]
pub struct Store {
    pub leases: Vec<Lease>,
    pub assets: Vec<Asset>,
    pub asset_types: Vec<AssetType>,
    pub gate: RunGate,
}

pub open spec fn lease_ids_unique(s: Seq<Lease>) -> bool {
    forall|i: int, j: int| 0 <= i < j < s.len() ==> s[i].id != s[j].id
}

pub open spec fn asset_ids_unique(s: Seq<Asset>) -> bool {
    forall|i: int, j: int| 0 <= i < j < s.len() ==> s[i].id != s[j].id
}

pub open spec fn type_ids_unique(s: Seq<AssetType>) -> bool {
    forall|i: int, j: int| 0 <= i < j < s.len() ==> s[i].id != s[j].id
}

/// Whether some asset type has the id `id`.
pub open spec fn has_type(types: Seq<AssetType>, id: i32) -> bool {
    exists|k: int| 0 <= k < types.len() && types[k].id == id
}

/// Whether some lease has the id `id`.
pub open spec fn has_lease(leases: Seq<Lease>, id: i32) -> bool {
    exists|k: int| 0 <= k < leases.len() && leases[k].id == id
}

impl Store {
    /// Primary keys are unique, and every asset's type exists.
    pub open spec fn wf(&self) -> bool {
        &&& lease_ids_unique(self.leases@)
        &&& asset_ids_unique(self.assets@)
        &&& type_ids_unique(self.asset_types@)
        &&& forall|i: int| 0 <= i < self.assets@.len()
            ==> has_type(self.asset_types@, #[trigger] self.assets@[i].type_id)
    }

    /// An empty store whose run gate was last checked at `last_checked`.
    pub fn new(last_checked: Option<i64>) -> (r: Store)
        ensures
            r.wf(),
            r.leases@.len() == 0,
            r.assets@.len() == 0,
            r.asset_types@.len() == 0,
            r.gate.last_checked == last_checked,
    {
        Store {
            leases: Vec::new(),
            assets: Vec::new(),
            asset_types: Vec::new(),
            gate: RunGate { last_checked },
        }
    }

    /// Checks the store's well-formedness: unique primary keys, and a type
    /// for every asset.
    pub fn is_wf(&self) -> (r: bool)
        ensures
            r == self.wf(),
    {
        let mut i: usize = 0;
        while i < self.leases.len()
            invariant
                i <= self.leases@.len(),
                forall|a: int, b: int|
                    0 <= a < b < self.leases@.len() && a < i ==> self.leases@[a].id != self.leases@[b].id,
            decreases self.leases@.len() - i,
        {
            let mut j: usize = i + 1;
            while j < self.leases.len()
                invariant
                    i < j <= self.leases@.len(),
                    forall|a: int, b: int|
                        0 <= a < b < self.leases@.len() && a < i ==> self.leases@[a].id != self.leases@[b].id,
                    forall|b: int| i < b < j ==> self.leases@[i as int].id != self.leases@[b].id,
                decreases self.leases@.len() - j,
            {
                if self.leases[i].id == self.leases[j].id {
                    return false;
                }
                j = j + 1;
            }
            i = i + 1;
        }
        let mut i: usize = 0;
        while i < self.assets.len()
            invariant
                lease_ids_unique(self.leases@),
                i <= self.assets@.len(),
                forall|a: int, b: int|
                    0 <= a < b < self.assets@.len() && a < i ==> self.assets@[a].id != self.assets@[b].id,
            decreases self.assets@.len() - i,
        {
            let mut j: usize = i + 1;
            while j < self.assets.len()
                invariant
                    i < j <= self.assets@.len(),
                    forall|a: int, b: int|
                        0 <= a < b < self.assets@.len() && a < i ==> self.assets@[a].id != self.assets@[b].id,
                    forall|b: int| i < b < j ==> self.assets@[i as int].id != self.assets@[b].id,
                decreases self.assets@.len() - j,
            {
                if self.assets[i].id == self.assets[j].id {
                    return false;
                }
                j = j + 1;
            }
            i = i + 1;
        }
        let mut i: usize = 0;
        while i < self.asset_types.len()
            invariant
                lease_ids_unique(self.leases@),
                asset_ids_unique(self.assets@),
                i <= self.asset_types@.len(),
                forall|a: int, b: int|
                    0 <= a < b < self.asset_types@.len() && a < i ==> self.asset_types@[a].id != self.asset_types@[b].id,
            decreases self.asset_types@.len() - i,
        {
            let mut j: usize = i + 1;
            while j < self.asset_types.len()
                invariant
                    i < j <= self.asset_types@.len(),
                    forall|a: int, b: int|
                        0 <= a < b < self.asset_types@.len() && a < i ==> self.asset_types@[a].id != self.asset_types@[b].id,
                    forall|b: int| i < b < j ==> self.asset_types@[i as int].id != self.asset_types@[b].id,
                decreases self.asset_types@.len() - j,
            {
                if self.asset_types[i].id == self.asset_types[j].id {
                    return false;
                }
                j = j + 1;
            }
            i = i + 1;
        }
        let mut i: usize = 0;
        while i < self.assets.len()
            invariant
                lease_ids_unique(self.leases@),
                asset_ids_unique(self.assets@),
                type_ids_unique(self.asset_types@),
                i <= self.assets@.len(),
                forall|k: int|
                    0 <= k < i ==> has_type(self.asset_types@, #[trigger] self.assets@[k].type_id),
            decreases self.assets@.len() - i,
        {
            if self.find_asset_type(self.assets[i].type_id).is_none() {
                return false;
            }
            i = i + 1;
        }
        true
    }

    /// Index of the lease with id `id`, if there is one.
    pub fn find_lease(&self, id: i32) -> (r: Option<usize>)
        ensures
            r is None <==> !has_lease(self.leases@, id),
            r is Some ==> r.unwrap() < self.leases@.len() && self.leases@[r.unwrap() as int].id == id,
    {
        let mut i: usize = 0;
        while i < self.leases.len()
            invariant
                i <= self.leases@.len(),
                forall|k: int| 0 <= k < i ==> self.leases@[k].id != id,
            decreases self.leases@.len() - i,
        {
            if self.leases[i].id == id {
                return Some(i);
            }
            i = i + 1;
        }
        None
    }

    /// Index of the asset with id `id`, if there is one.
    pub fn find_asset(&self, id: i32) -> (r: Option<usize>)
        ensures
            r is None <==> !(exists|k: int| 0 <= k < self.assets@.len() && self.assets@[k].id == id),
            r is Some ==> r.unwrap() < self.assets@.len() && self.assets@[r.unwrap() as int].id == id,
    {
        let mut i: usize = 0;
        while i < self.assets.len()
            invariant
                i <= self.assets@.len(),
                forall|k: int| 0 <= k < i ==> self.assets@[k].id != id,
            decreases self.assets@.len() - i,
        {
            if self.assets[i].id == id {
                return Some(i);
            }
            i = i + 1;
        }
        None
    }

    /// Index of the first asset held by the lease with id `lease_id`.
    pub fn find_asset_of_lease(&self, lease_id: i32) -> (r: Option<usize>)
        ensures
            r is None <==> !has_asset_for(self.assets@, lease_id),
            r is Some ==> r.unwrap() < self.assets@.len()
                && self.assets@[r.unwrap() as int].lease_id == Some(lease_id),
            r is Some ==> is_first_asset(self.assets@, lease_id, r.unwrap() as int),
    {
        let mut i: usize = 0;
        while i < self.assets.len()
            invariant
                i <= self.assets@.len(),
                forall|k: int| 0 <= k < i ==> self.assets@[k].lease_id != Some(lease_id),
            decreases self.assets@.len() - i,
        {
            if held_by(&self.assets[i], lease_id) {
                return Some(i);
            }
            i = i + 1;
        }
        None
    }

    /// Index of the asset type with id `id`, if there is one.
    pub fn find_asset_type(&self, id: i32) -> (r: Option<usize>)
        ensures
            r is None <==> !has_type(self.asset_types@, id),
            r is Some ==> r.unwrap() < self.asset_types@.len()
                && self.asset_types@[r.unwrap() as int].id == id,
    {
        let mut i: usize = 0;
        while i < self.asset_types.len()
            invariant
                i <= self.asset_types@.len(),
                forall|k: int| 0 <= k < i ==> self.asset_types@[k].id != id,
            decreases self.asset_types@.len() - i,
        {
            if self.asset_types[i].id == id {
                return Some(i);
            }
            i = i + 1;
        }
        None
    }

    /// Adds an asset type; refused when its id is taken.
    pub fn insert_asset_type(&mut self, t: AssetType) -> (r: Result<(), StoreError>)
        requires
            old(self).wf(),
        ensures
            final(self).wf(),
            r is Ok <==> !has_type(old(self).asset_types@, t.id),
            r is Err ==> r == Err::<(), StoreError>(StoreError::DuplicateKey) && *final(self) == *old(self),
            r is Ok ==> final(self).asset_types@ == old(self).asset_types@.push(t),
            final(self).leases@ == old(self).leases@,
            final(self).assets@ == old(self).assets@,
            final(self).gate == old(self).gate,
    {
        if self.find_asset_type(t.id).is_some() {
            return Err(StoreError::DuplicateKey);
        }
        self.asset_types.push(t);
        assert forall|i: int| 0 <= i < self.assets@.len() implies has_type(
            self.asset_types@,
            #[trigger] self.assets@[i].type_id,
        ) by {
            let k = choose|k: int| 0 <= k < old(self).asset_types@.len()
                && old(self).asset_types@[k].id == self.assets@[i].type_id;
            assert(self.asset_types@[k] == old(self).asset_types@[k]);
        }
        Ok(())
    }

    /// Adds an asset; refused when its id is taken or its type is missing.
    pub fn insert_asset(&mut self, a: Asset) -> (r: Result<(), StoreError>)
        requires
            old(self).wf(),
        ensures
            final(self).wf(),
            r == (if exists|k: int| 0 <= k < old(self).assets@.len() && old(self).assets@[k].id == a.id {
                Err::<(), StoreError>(StoreError::DuplicateKey)
            } else if !has_type(old(self).asset_types@, a.type_id) {
                Err(StoreError::MissingAssetType)
            } else {
                Ok(())
            }),
            r is Err ==> *final(self) == *old(self),
            r is Ok ==> final(self).assets@ == old(self).assets@.push(a),
            final(self).leases@ == old(self).leases@,
            final(self).asset_types@ == old(self).asset_types@,
            final(self).gate == old(self).gate,
    {
        if self.find_asset(a.id).is_some() {
            return Err(StoreError::DuplicateKey);
        }
        if self.find_asset_type(a.type_id).is_none() {
            return Err(StoreError::MissingAssetType);
        }
        self.assets.push(a);
        assert forall|i: int| 0 <= i < self.assets@.len() implies has_type(
            self.asset_types@,
            #[trigger] self.assets@[i].type_id,
        ) by {
            if i < old(self).assets@.len() {
                assert(self.assets@[i] == old(self).assets@[i]);
            }
        }
        Ok(())
    }

    /// Adds a lease; refused when its id is taken.
    pub fn insert_lease(&mut self, l: Lease) -> (r: Result<(), StoreError>)
        requires
            old(self).wf(),
        ensures
            final(self).wf(),
            r is Ok <==> !has_lease(old(self).leases@, l.id),
            r is Err ==> r == Err::<(), StoreError>(StoreError::DuplicateKey) && *final(self) == *old(self),
            r is Ok ==> final(self).leases@ == old(self).leases@.push(l),
            final(self).assets@ == old(self).assets@,
            final(self).asset_types@ == old(self).asset_types@,
            final(self).gate == old(self).gate,
    {
        if self.find_lease(l.id).is_some() {
            return Err(StoreError::DuplicateKey);
        }
        self.leases.push(l);
        Ok(())
    }

    /// The leases whose end time is strictly before `now`, in store order.
    pub fn leases_due_for_eviction(&self, now: i64) -> (r: Vec<Lease>)
        ensures
            r@ == self.leases@.filter(|l: Lease| due_for_eviction(l, now)),
    {
        let ghost pred = |l: Lease| due_for_eviction(l, now);
        let mut r: Vec<Lease> = Vec::new();
        let mut i: usize = 0;
        while i < self.leases.len()
            invariant
                i <= self.leases@.len(),
                r@ == self.leases@.take(i as int).filter(pred),
                pred == (|l: Lease| due_for_eviction(l, now)),
            decreases self.leases@.len() - i,
        {
            proof {
                lemma_filter_step(self.leases@, pred, i as int);
            }
            let l = self.leases[i];
            let due = match l.end_time {
                Some(e) => e < now,
                None => false,
            };
            if due {
                r.push(l);
            }
            i = i + 1;
        }
        assert(self.leases@.take(i as int) =~= self.leases@);
        r
    }

    /// The leases with an end time that have not been warned about yet, in
    /// store order.
    pub fn leases_due_for_notification(&self) -> (r: Vec<Lease>)
        ensures
            r@ == self.leases@.filter(|l: Lease| due_for_notification(l)),
    {
        let ghost pred = |l: Lease| due_for_notification(l);
        let mut r: Vec<Lease> = Vec::new();
        let mut i: usize = 0;
        while i < self.leases.len()
            invariant
                i <= self.leases@.len(),
                r@ == self.leases@.take(i as int).filter(pred),
                pred == (|l: Lease| due_for_notification(l)),
            decreases self.leases@.len() - i,
        {
            proof {
                lemma_filter_step(self.leases@, pred, i as int);
            }
            let l = self.leases[i];
            if l.last_notified.is_none() && l.end_time.is_some() {
                r.push(l);
            }
            i = i + 1;
        }
        assert(self.leases@.take(i as int) =~= self.leases@);
        r
    }

    /// Deletes every lease whose id is in `ids`, in one go; returns how many.
    pub fn delete_leases(&mut self, ids: &Vec<i32>) -> (r: usize)
        requires
            old(self).wf(),
        ensures
            final(self).wf(),
            final(self).leases@ == without_ids(old(self).leases@, ids@),
            r == old(self).leases@.len() - final(self).leases@.len(),
            final(self).assets@ == old(self).assets@,
            final(self).asset_types@ == old(self).asset_types@,
            final(self).gate == old(self).gate,
    {
        let ghost pred = |l: Lease| !ids@.contains(l.id);
        let mut kept: Vec<Lease> = Vec::new();
        let mut i: usize = 0;
        while i < self.leases.len()
            invariant
                i <= self.leases@.len(),
                kept@ == self.leases@.take(i as int).filter(pred),
                pred == (|l: Lease| !ids@.contains(l.id)),
            decreases self.leases@.len() - i,
        {
            proof {
                lemma_filter_step(self.leases@, pred, i as int);
            }
            let l = self.leases[i];
            if !contains_id(ids, l.id) {
                kept.push(l);
            }
            i = i + 1;
        }
        assert(self.leases@.take(i as int) =~= self.leases@);
        proof {
            lemma_filter_leases(self.leases@, pred);
            self.leases@.lemma_filter_len(pred);
        }
        let before = self.leases.len();
        self.leases = kept;
        before - self.leases.len()
    }

    /// Records that the lease with id `id` was warned about at `when`.
    pub fn mark_notified(&mut self, id: i32, when: i64)
        requires
            old(self).wf(),
        ensures
            final(self).wf(),
            final(self).leases@ == with_notified(old(self).leases@, id, when),
            final(self).assets@ == old(self).assets@,
            final(self).asset_types@ == old(self).asset_types@,
            final(self).gate == old(self).gate,
    {
        let ghost old_leases = self.leases@;
        let mut i: usize = 0;
        while i < self.leases.len()
            invariant
                i <= self.leases@.len(),
                self.leases@.len() == old_leases.len(),
                old_leases == old(self).leases@,
                self.assets@ == old(self).assets@,
                self.asset_types@ == old(self).asset_types@,
                self.gate == old(self).gate,
                forall|k: int| 0 <= k < self.leases@.len() ==> #[trigger] self.leases@[k] == (if k < i
                    && old_leases[k].id == id {
                    old_leases[k].notified_at(when)
                } else {
                    old_leases[k]
                }),
            decreases self.leases@.len() - i,
        {
            let l = self.leases[i];
            if l.id == id {
                self.leases.set(i, Lease { last_notified: Some(when), ..l });
            }
            i = i + 1;
        }
        assert(self.leases@ =~= with_notified(old_leases, id, when));
        assert forall|a: int, b: int| 0 <= a < b < self.leases@.len() implies self.leases@[a].id
            != self.leases@[b].id by {
            assert(self.leases@[a].id == old_leases[a].id);
            assert(self.leases@[b].id == old_leases[b].id);
        }
    }

    /// Moves the run gate's last check to `now` if, and only if, it is older
    /// than `period`; returns whether it moved.
    pub fn try_acquire_run_gate(&mut self, period: i64, now: i64) -> (r: bool)
        requires
            0 <= period,
        ensures
            r == gate_opens(old(self).gate.last_checked, period, now),
            final(self).gate.last_checked == gate_after(old(self).gate.last_checked, period, now),
            final(self).leases@ == old(self).leases@,
            final(self).assets@ == old(self).assets@,
            final(self).asset_types@ == old(self).asset_types@,
    {
        let opens = match self.gate.last_checked {
            Some(last) => (last as i128) < (now as i128) - (period as i128),
            None => false,
        };
        if opens {
            self.gate = RunGate { last_checked: Some(now) };
        }
        opens
    }
}

/// Why the store refused an insert.
#[derive(Debug, Clone, Copy, PartialEq, Eq)]
pub enum StoreError {
    /// The primary key is already taken.
    DuplicateKey,
    /// The referenced asset type does not exist.
    MissingAssetType,
}

/// Whether `asset` is held by the lease with id `lease_id`.
pub fn held_by(asset: &Asset, lease_id: i32) -> (r: bool)
    ensures
        r == (asset.lease_id == Some(lease_id)),
{
    match asset.lease_id {
        Some(id) => id == lease_id,
        None => false,
    }
}

/// Whether `id` is one of `ids`.
pub fn contains_id(ids: &Vec<i32>, id: i32) -> (r: bool)
    ensures
        r == ids@.contains(id),
{
    let mut i: usize = 0;
    while i < ids.len()
        invariant
            i <= ids@.len(),
            forall|k: int| 0 <= k < i ==> ids@[k] != id,
        decreases ids@.len() - i,
    {
        if ids[i] == id {
            return true;
        }
        i = i + 1;
    }
    false
}

} // verus!
