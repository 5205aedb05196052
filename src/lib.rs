//! Lease-lifecycle enforcement for a resource-reservation service.
//!
//! The sheriff periodically reclaims expired leases, warns lease holders
//! once before their lease runs out, and tells pluggable hooks about every
//! lease transition.
use vstd::prelude::*;

pub mod auth;
pub mod clock;
pub mod config;
pub mod endpoints;
pub mod hooks;
pub mod models;
pub mod patterns;
pub mod sheriff;
pub mod store;
pub mod users;

verus! {

use crate::auth::{Auth, Auths};
use crate::hooks::{Hook, Hooks};

/// A server's plugins: its hooks and its authentication providers, each in
/// the order in which they were added.
pub struct Bellhop<H, A> {
    pub hooks: Hooks<H>,
    pub auths: Auths<A>,
}

impl<H: Hook, A: Auth> Bellhop<H, A> {
    /// No plugins.
    pub fn new() -> (r: Bellhop<H, A>)
        ensures
            r.hooks.hooks@.len() == 0,
            r.auths.auths@.len() == 0,
    {
        Bellhop { hooks: Hooks::new(), auths: Auths::new() }
    }

    /// Adds a hook after the ones already there.
    pub fn hook(self, hook: H) -> (r: Bellhop<H, A>)
        ensures
            r.hooks.hooks@ == self.hooks.hooks@.push(hook),
            r.auths.auths@ == self.auths.auths@,
    {
        let mut this = self;
        this.hooks.push(hook);
        this
    }

    /// Adds an authentication provider after the ones already there: the
    /// providers are asked in this order.
    pub fn auth(self, auth: A) -> (r: Bellhop<H, A>)
        ensures
            r.hooks.hooks@ == self.hooks.hooks@,
            r.auths.auths@ == self.auths.auths@.push(auth),
    {
        let mut this = self;
        this.auths.push(auth);
        this
    }
}

} // verus!
