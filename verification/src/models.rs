//! Rows of the three tables: users, followers and messages.
use vstd::prelude::*;

verus! {

/// A row of the `users` table.
pub struct Users {
    pub user_id: i32,
    pub username: String,
    pub email: String,
    pub pw_hash: String,
}

/// The values of a `users` row that is about to be inserted; the id is
/// assigned by the store.
pub struct NewUser<'a> {
    pub username: &'a str,
    pub email: &'a str,
    pub pw_hash: &'a str,
}

/// A row of the `followers` table: `who_id` follows `whom_id`.
pub struct Followers {
    pub who_id: i32,
    pub whom_id: i32,
}

/// The values of a `followers` row that is about to be inserted.
pub struct NewFollower<'a> {
    pub who_id: &'a i32,
    pub whom_id: &'a i32,
}

/// A row of the `messages` table.
pub struct Messages {
    pub message_id: i32,
    pub author_id: i32,
    pub text: String,
    pub pub_date: String,
    pub flagged: i32,
}

/// The values of a `messages` row that is about to be inserted; the id is
/// assigned by the store.
pub struct NewMessage<'a> {
    pub author_id: &'a i32,
    pub text: &'a str,
    pub pub_date: &'a String,
    pub flagged: &'a i32,
}

impl Clone for Users {
    fn clone(&self) -> (r: Self)
        ensures
            r == *self,
    {
        Users {
            user_id: self.user_id,
            username: self.username.clone(),
            email: self.email.clone(),
            pw_hash: self.pw_hash.clone(),
        }
    }
}

impl Clone for Followers {
    fn clone(&self) -> (r: Self)
        ensures
            r == *self,
    {
        Followers { who_id: self.who_id, whom_id: self.whom_id }
    }
}

impl Clone for Messages {
    fn clone(&self) -> (r: Self)
        ensures
            r == *self,
    {
        Messages {
            message_id: self.message_id,
            author_id: self.author_id,
            text: self.text.clone(),
            pub_date: self.pub_date.clone(),
            flagged: self.flagged,
        }
    }
}

} // verus!
