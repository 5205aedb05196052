//! The rows the sheriff reads and writes.
use vstd::prelude::*;

use crate::hooks::{is_hook_point_code, HookPoint};

verus! {

/// A duration of time during which a user holds an asset.
///
/// All times are milliseconds since the Unix epoch. A lease without an end
/// time never expires: no scan ever finds it due.
#[derive(Debug, Clone, Copy, PartialEq, Eq)]
pub struct Lease {
    pub id: i32,
    pub user_id: i32,
    pub last_notified: Option<i64>,
    pub start_time: i64,
    pub end_time: Option<i64>,
}

impl Lease {
    /// A lease that has not been warned about yet.
    pub fn new(id: i32, user_id: i32, start_time: i64, end_time: Option<i64>) -> (r: Lease)
        ensures
            r.id == id,
            r.user_id == user_id,
            r.start_time == start_time,
            r.end_time == end_time,
            r.last_notified is None,
    {
        Lease { id, user_id, last_notified: None, start_time, end_time }
    }

    /// The primary key of this lease.
    pub fn id(&self) -> (r: i32)
        ensures
            r == self.id,
    {
        self.id
    }

    /// The primary key of this lease's holder.
    pub fn user_id(&self) -> (r: i32)
        ensures
            r == self.user_id,
    {
        self.user_id
    }

    /// When the holder was last warned that the lease is running out.
    pub fn last_notified(&self) -> (r: Option<i64>)
        ensures
            r == self.last_notified,
    {
        self.last_notified
    }

    /// When this lease began.
    pub fn start_time(&self) -> (r: i64)
        ensures
            r == self.start_time,
    {
        self.start_time
    }

    /// When this lease ends, if ever.
    pub fn end_time(&self) -> (r: Option<i64>)
        ensures
            r == self.end_time,
    {
        self.end_time
    }

    /// The lease with its last warning recorded at `when`.
    pub open spec fn notified_at(self, when: i64) -> Lease {
        Lease { last_notified: Some(when), ..self }
    }
}

/// A shareable resource. `lease_id` names the lease that holds it, if any.
#[derive(Debug)]
pub struct Asset {
    pub id: i32,
    pub type_id: i32,
    pub lease_id: Option<i32>,
    pub name: String,
}

impl Asset {
    pub fn new(id: i32, type_id: i32, lease_id: Option<i32>, name: String) -> (r: Asset)
        ensures
            r.id == id,
            r.type_id == type_id,
            r.lease_id == lease_id,
            r.name == name,
    {
        Asset { id, type_id, lease_id, name }
    }

    /// The primary key of this asset.
    pub fn id(&self) -> (r: i32)
        ensures
            r == self.id,
    {
        self.id
    }

    /// The primary key of this asset's type.
    pub fn type_id(&self) -> (r: i32)
        ensures
            r == self.type_id,
    {
        self.type_id
    }

    /// The primary key of the lease that holds this asset, if any.
    pub fn lease_id(&self) -> (r: Option<i32>)
        ensures
            r == self.lease_id,
    {
        self.lease_id
    }

    /// The human-readable name of this asset.
    pub fn name(&self) -> (r: &str)
        ensures
            r@ == self.name@,
    {
        self.name.as_str()
    }
}

/// The family an asset belongs to.
#[derive(Debug)]
pub struct AssetType {
    pub id: i32,
    pub name: String,
}

impl AssetType {
    pub fn new(id: i32, name: String) -> (r: AssetType)
        ensures
            r.id == id,
            r.name == name,
    {
        AssetType { id, name }
    }

    /// The primary key of this asset type.
    pub fn id(&self) -> (r: i32)
        ensures
            r == self.id,
    {
        self.id
    }

    /// The human-readable name of this asset type.
    pub fn name(&self) -> (r: &str)
        ensures
            r@ == self.name@,
    {
        self.name.as_str()
    }
}

/// A person or API client.
#[derive(Debug)]
pub struct User {
    pub id: i32,
    pub email: String,
}

impl User {
    pub fn new(id: i32, email: String) -> (r: User)
        ensures
            r.id == id,
            r.email == email,
    {
        User { id, email }
    }

    /// The primary key of this user.
    pub fn id(&self) -> (r: i32)
        ensures
            r == self.id,
    {
        self.id
    }

    /// This user's email address.
    pub fn email(&self) -> (r: &str)
        ensures
            r@ == self.email@,
    {
        self.email.as_str()
    }
}

/// A request to start a CI job when an asset of a given type reaches a given
/// point of its lease. `hook_at` holds the point's stored code.
#[derive(Debug)]
pub struct JenkinsHook {
    pub id: i32,
    pub asset_type_id: i32,
    pub hook_at: i16,
    pub username: String,
    pub token: String,
    pub url: String,
}

impl JenkinsHook {
    /// The primary key of the asset type this hook belongs to.
    pub fn asset_type_id(&self) -> (r: i32)
        ensures
            r == self.asset_type_id,
    {
        self.asset_type_id
    }

    /// The point at which the job starts. The stored code must be a known one.
    pub fn hook_at(&self) -> (r: HookPoint)
        requires
            is_hook_point_code(self.hook_at),
        ensures
            r.spec_code() == self.hook_at,
    {
        HookPoint::from_code(self.hook_at)
    }

    /// The user the job is started as.
    pub fn username(&self) -> (r: &str)
        ensures
            r@ == self.username@,
    {
        self.username.as_str()
    }

    /// The API token of that user.
    pub fn token(&self) -> (r: &str)
        ensures
            r@ == self.token@,
    {
        self.token.as_str()
    }

    /// The URL that starts the job.
    pub fn url(&self) -> (r: &str)
        ensures
            r@ == self.url@,
    {
        self.url.as_str()
    }
}

/// The first hook of `hooks` that belongs to the asset type `asset_type_id`
/// and fires at the point whose code is `code`.
pub fn find_jenkins_hook(hooks: &Vec<JenkinsHook>, asset_type_id: i32, code: i16) -> (r: Option<usize>)
    ensures
        r is Some ==> r.unwrap() < hooks@.len() && hooks@[r.unwrap() as int].asset_type_id
            == asset_type_id && hooks@[r.unwrap() as int].hook_at == code && forall|k: int|
            0 <= k < r.unwrap() ==> !(hooks@[k].asset_type_id == asset_type_id && hooks@[k].hook_at
                == code),
        r is None ==> forall|k: int|
            0 <= k < hooks@.len() ==> !(hooks@[k].asset_type_id == asset_type_id && hooks@[k].hook_at
                == code),
{
    let mut i: usize = 0;
    while i < hooks.len()
        invariant
            i <= hooks@.len(),
            forall|k: int|
                0 <= k < i ==> !(hooks@[k].asset_type_id == asset_type_id && hooks@[k].hook_at == code),
        decreases hooks@.len() - i,
    {
        if hooks[i].asset_type_id == asset_type_id && hooks[i].hook_at == code {
            return Some(i);
        }
        i = i + 1;
    }
    None
}

} // verus!
