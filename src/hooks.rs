//! Hooks: observers that are told about every lease transition.
use vstd::prelude::*;

use crate::models::{Asset, AssetType, Lease};
use crate::store::Store;

verus! {

/// Which lease transition a hook is told about.
#[derive(Debug, Clone, Copy, PartialEq, Eq, Structural)]
pub enum HookPoint {
    Leased,
    Returned,
    Evicted,
    Warned,
}

/// Whether `v` is a code that hook configuration rows may hold: those of
/// `Leased`, `Returned` and `Evicted`.
pub open spec fn is_hook_point_code(v: i16) -> bool {
    0 <= v <= 2
}

impl HookPoint {
    /// The small integer under which the point is stored.
    pub open spec fn spec_code(self) -> i16 {
        match self {
            HookPoint::Leased => 0,
            HookPoint::Returned => 1,
            HookPoint::Evicted => 2,
            HookPoint::Warned => 3,
        }
    }

    /// The point's name, as hooks report it.
    pub open spec fn spec_name(self) -> Seq<char> {
        match self {
            HookPoint::Leased => "leased"@,
            HookPoint::Returned => "returned"@,
            HookPoint::Evicted => "evicted"@,
            HookPoint::Warned => "warned"@,
        }
    }

    /// Encodes the point for storage.
    pub fn code(&self) -> (r: i16)
        ensures
            r == self.spec_code(),
    {
        match self {
            HookPoint::Leased => 0,
            HookPoint::Returned => 1,
            HookPoint::Evicted => 2,
            HookPoint::Warned => 3,
        }
    }

    /// Decodes a point stored in a hook configuration row. Any other code is
    /// a programming error, so callers must rule it out.
    pub fn from_code(v: i16) -> (r: HookPoint)
        requires
            is_hook_point_code(v),
        ensures
            r.spec_code() == v,
    {
        if v == 0 {
            HookPoint::Leased
        } else if v == 1 {
            HookPoint::Returned
        } else {
            HookPoint::Evicted
        }
    }

    /// The point's name: `leased`, `returned`, `evicted` or `warned`.
    pub fn name(&self) -> (r: &'static str)
        ensures
            r@ == self.spec_name(),
    {
        match self {
            HookPoint::Leased => "leased",
            HookPoint::Returned => "returned",
            HookPoint::Evicted => "evicted",
            HookPoint::Warned => "warned",
        }
    }
}

/// The kinds of errors that hooks report.
#[derive(Debug)]
pub enum ErrorKind {
    /// A free-form message.
    Msg(String),
}

impl ErrorKind {
    /// An error kind that carries the message `s`.
    pub fn msg(s: &str) -> (r: ErrorKind)
        ensures
            r == ErrorKind::Msg(r->Msg_0) && r->Msg_0@ == s@,
    {
        ErrorKind::Msg(s.to_owned())
    }
}

/// The error a hook returns.
#[derive(Debug)]
pub struct Error {
    pub kind: ErrorKind,
}

impl Error {
    /// An error of kind `kind`.
    pub fn new(kind: ErrorKind) -> (r: Error)
        ensures
            r.kind == kind,
    {
        Error { kind }
    }

    /// An error whose kind carries the message `s`.
    pub fn with_msg(s: &str) -> (r: Error)
        ensures
            r.kind is Msg && r.kind->Msg_0@ == s@,
    {
        Error { kind: ErrorKind::msg(s) }
    }
}

/// What a hook is told about: the lease, its asset and the asset's type.
/// The lease may already be gone from the store.
#[derive(Debug, Clone, Copy)]
pub struct Data<'a> {
    pub lease: &'a Lease,
    pub asset: &'a Asset,
    pub asset_type: &'a AssetType,
}

impl<'a> Data<'a> {
    pub fn new(lease: &'a Lease, asset: &'a Asset, asset_type: &'a AssetType) -> (r: Data<'a>)
        ensures
            *r.lease == *lease,
            *r.asset == *asset,
            *r.asset_type == *asset_type,
    {
        Data { lease, asset, asset_type }
    }

    /// The lease of this event.
    pub fn lease(&self) -> (r: &'a Lease)
        ensures
            *r == *self.lease,
    {
        self.lease
    }

    /// The asset of this event.
    pub fn asset(&self) -> (r: &'a Asset)
        ensures
            *r == *self.asset,
    {
        self.asset
    }

    /// The type of this event's asset.
    pub fn asset_type(&self) -> (r: &'a AssetType)
        ensures
            *r == *self.asset_type,
    {
        self.asset_type
    }
}

/// An observer of lease transitions. Every method does nothing unless the
/// implementation says otherwise.
pub trait Hook {
    /// Called when a lease is created.
    fn leased(&self, store: &Store, data: &Data) -> Result<(), Error> {
        Ok(())
    }

    /// Called when a lease is returned before it ends.
    fn returned(&self, store: &Store, data: &Data) -> Result<(), Error> {
        Ok(())
    }

    /// Called after an expired lease has been deleted.
    fn evicted(&self, store: &Store, data: &Data) -> Result<(), Error> {
        Ok(())
    }

    /// Called when a lease is about to run out.
    fn warned(&self, store: &Store, data: &Data) -> Result<(), Error> {
        Ok(())
    }
}

/// The hook at position `hook_index` failed, with `error`.
#[derive(Debug)]
pub struct HookFailure {
    pub hook_index: usize,
    pub error: Error,
}

/// What a dispatch does with the outcome of the hook at `index`: `None` to
/// go on to the next hook, or the failure that stops it.
pub fn hook_step(index: usize, outcome: Result<(), Error>) -> (r: Option<HookFailure>)
    ensures
        match outcome {
            Ok(()) => r is None,
            Err(e) => r == Some(HookFailure { hook_index: index, error: e }),
        },
{
    match outcome {
        Ok(()) => None,
        Err(error) => Some(HookFailure { hook_index: index, error }),
    }
}

/// The registered hooks, in registration order.
pub struct Hooks<H> {
    pub hooks: Vec<H>,
}

impl<H: Hook> Hooks<H> {
    /// No hooks.
    pub fn new() -> (r: Hooks<H>)
        ensures
            r.hooks@.len() == 0,
    {
        Hooks { hooks: Vec::new() }
    }

    /// Registers `hook` after the ones already there.
    pub fn push(&mut self, hook: H)
        ensures
            final(self).hooks@ == old(self).hooks@.push(hook),
    {
        self.hooks.push(hook);
    }

    /// How many hooks are registered.
    pub fn len(&self) -> (r: usize)
        ensures
            r == self.hooks@.len(),
    {
        self.hooks.len()
    }

    /// Tells every hook, in registration order, about `point`. The first
    /// hook that fails stops the dispatch: the ones after it are not called.
    pub fn dispatch(&self, point: HookPoint, store: &Store, data: &Data) -> (r: Result<
        (),
        HookFailure,
    >)
        ensures
            r is Err ==> r->Err_0.hook_index < self.hooks@.len(),
            self.hooks@.len() == 0 ==> r is Ok,
    {
        let mut i: usize = 0;
        while i < self.hooks.len()
            invariant
                i <= self.hooks@.len(),
            decreases self.hooks@.len() - i,
        {
            let hook = &self.hooks[i];
            let outcome = match point {
                HookPoint::Leased => hook.leased(store, data),
                HookPoint::Returned => hook.returned(store, data),
                HookPoint::Evicted => hook.evicted(store, data),
                HookPoint::Warned => hook.warned(store, data),
            };
            match hook_step(i, outcome) {
                Some(failure) => {
                    return Err(failure);
                },
                None => {},
            }
            i = i + 1;
        }
        Ok(())
    }

    /// Tells every hook that a lease was created.
    pub fn leased(&self, store: &Store, data: &Data) -> (r: Result<(), HookFailure>)
        ensures
            r is Err ==> r->Err_0.hook_index < self.hooks@.len(),
            self.hooks@.len() == 0 ==> r is Ok,
    {
        self.dispatch(HookPoint::Leased, store, data)
    }

    /// Tells every hook that a lease was returned.
    pub fn returned(&self, store: &Store, data: &Data) -> (r: Result<(), HookFailure>)
        ensures
            r is Err ==> r->Err_0.hook_index < self.hooks@.len(),
            self.hooks@.len() == 0 ==> r is Ok,
    {
        self.dispatch(HookPoint::Returned, store, data)
    }

    /// Tells every hook that a lease was evicted.
    pub fn evicted(&self, store: &Store, data: &Data) -> (r: Result<(), HookFailure>)
        ensures
            r is Err ==> r->Err_0.hook_index < self.hooks@.len(),
            self.hooks@.len() == 0 ==> r is Ok,
    {
        self.dispatch(HookPoint::Evicted, store, data)
    }

    /// Tells every hook that a lease is about to run out.
    pub fn warned(&self, store: &Store, data: &Data) -> (r: Result<(), HookFailure>)
        ensures
            r is Err ==> r->Err_0.hook_index < self.hooks@.len(),
            self.hooks@.len() == 0 ==> r is Ok,
    {
        self.dispatch(HookPoint::Warned, store, data)
    }
}

} // verus!
