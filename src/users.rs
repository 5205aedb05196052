//! The people and API clients known to the service.
use vstd::prelude::*;

use crate::models::User;

verus! {

/// The user directory. New users get ids counting up from `next_id`.
#[derive(Debug)]
pub struct Users {
    pub users: Vec<User>,
    pub next_id: i32,
}

/// Whether some user of `users` has the email address `email`.
pub open spec fn has_email(users: Seq<User>, email: Seq<char>) -> bool {
    exists|k: int| 0 <= k < users.len() && users[k].email@ == email
}

impl Users {
    /// Every id is below `next_id`, so ids are unique as long as each new
    /// user takes `next_id`.
    pub open spec fn wf(&self) -> bool {
        &&& 1 <= self.next_id
        &&& forall|k: int| 0 <= k < self.users@.len() ==> #[trigger] self.users@[k].id < self.next_id
        &&& forall|i: int, j: int|
            0 <= i < j < self.users@.len() ==> self.users@[i].id != self.users@[j].id
    }

    /// No users yet; the first one gets id 1.
    pub fn new() -> (r: Users)
        ensures
            r.wf(),
            r.users@.len() == 0,
            r.next_id == 1,
    {
        Users { users: Vec::new(), next_id: 1 }
    }

    /// Index of the user with id `id`, if there is one.
    pub fn by_id(&self, id: i32) -> (r: Option<usize>)
        ensures
            r is None <==> !(exists|k: int| 0 <= k < self.users@.len() && self.users@[k].id == id),
            r is Some ==> r.unwrap() < self.users@.len() && self.users@[r.unwrap() as int].id == id,
    {
        let mut i: usize = 0;
        while i < self.users.len()
            invariant
                i <= self.users@.len(),
                forall|k: int| 0 <= k < i ==> self.users@[k].id != id,
            decreases self.users@.len() - i,
        {
            if self.users[i].id == id {
                return Some(i);
            }
            i = i + 1;
        }
        None
    }

    /// Index of the first user with the email address `email`, if any.
    pub fn by_email(&self, email: &String) -> (r: Option<usize>)
        ensures
            r is None <==> !has_email(self.users@, email@),
            r is Some ==> r.unwrap() < self.users@.len() && self.users@[r.unwrap() as int].email@
                == email@,
    {
        let mut i: usize = 0;
        while i < self.users.len()
            invariant
                i <= self.users@.len(),
                forall|k: int| 0 <= k < i ==> self.users@[k].email@ != email@,
            decreases self.users@.len() - i,
        {
            if self.users[i].email == *email {
                return Some(i);
            }
            i = i + 1;
        }
        None
    }

    /// A copy of the user at index `i`.
    pub fn get(&self, i: usize) -> (r: User)
        requires
            i < self.users@.len(),
        ensures
            r.id == self.users@[i as int].id,
            r.email@ == self.users@[i as int].email@,
    {
        let u = &self.users[i];
        User { id: u.id, email: u.email.clone() }
    }

    /// Adds a user with the email address `email` under the next free id and
    /// returns its index; `None` when the ids are used up.
    pub fn register(&mut self, email: &String) -> (r: Option<usize>)
        ensures
            old(self).wf() ==> final(self).wf(),
            r is None <==> old(self).next_id == i32::MAX,
            r is None ==> final(self).users@ == old(self).users@,
            r is Some ==> r.unwrap() == old(self).users@.len() && final(self).users@.len()
                == old(self).users@.len() + 1 && final(self).users@.take(
                old(self).users@.len() as int,
            ) == old(self).users@ && final(self).users@[r.unwrap() as int].id == old(self).next_id
                && final(self).users@[r.unwrap() as int].email@ == email@,
    {
        if self.next_id == i32::MAX {
            return None;
        }
        let id = self.next_id;
        self.users.push(User { id, email: email.clone() });
        self.next_id = id + 1;
        assert(self.users@.take(self.users@.len() - 1) =~= old(self).users@);
        Some(self.users.len() - 1)
    }
}

} // verus!
