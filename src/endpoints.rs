//! Entry points that a request handler calls directly.
use vstd::prelude::*;

use crate::hooks::{Hook, Hooks};
use crate::sheriff::{after_rounds, make_rounds, rounds_failed, warned_hold_assets, SheriffError};
use crate::store::Store;

verus! {

/// The manual trigger: one round at `now`, the time the request arrived,
/// outside the schedule and without the run gate. Returns a confirmation
/// line.
pub fn sheriff<H: Hook>(store: &mut Store, hooks: &Hooks<H>, now: i64) -> (r: Result<
    String,
    SheriffError,
>)
    requires
        old(store).wf(),
    ensures
        final(store).wf(),
        final(store).assets@ == old(store).assets@,
        final(store).asset_types@ == old(store).asset_types@,
        final(store).gate == old(store).gate,
        r is Ok ==> r->Ok_0@ == "The Sheriff successfully make their rounds.\n"@
            && final(store).leases@ == after_rounds(old(store).leases@, now)
            && warned_hold_assets(old(store).leases@, old(store).assets@, now),
        r is Err ==> rounds_failed(
            old(store).leases@,
            old(store).assets@,
            now,
            r->Err_0,
            final(store).leases@,
        ),
        r matches Err(SheriffError::Hook { hook_index, .. }) ==> hook_index < hooks.hooks@.len(),
        hooks.hooks@.len() == 0 && warned_hold_assets(old(store).leases@, old(store).assets@, now)
            ==> r is Ok,
{
    let result = make_rounds(store, hooks, now);
    match result {
        Ok(()) => Ok("The Sheriff successfully make their rounds.\n".to_owned()),
        Err(e) => {
            let r: Result<String, SheriffError> = Err(e);
            assert(r->Err_0 == result->Err_0);
            r
        },
    }
}

} // verus!
