//! What each page shows, and the forms that people send.
use vstd::prelude::*;

verus! {

/// A user as the pages show one.
pub struct User {
    pub user_id: i32,
    pub username: String,
    pub email: String,
}

impl Clone for User {
    fn clone(&self) -> (r: Self)
        ensures
            r == *self,
    {
        User { user_id: self.user_id, username: self.username.clone(), email: self.email.clone() }
    }
}

/// An instant in UTC: whole seconds since the Unix epoch and the
/// nanoseconds past them.
pub struct UtcInstant {
    pub seconds: i64,
    pub nanos: u32,
}

/// A message as the pages show one.
pub struct Messages {
    pub text: String,
    pub username: String,
    pub pub_date: UtcInstant,
    pub gravatar_url: String,
}

/// A timeline page.
pub struct TimelineTemplate<'a> {
    pub messages: Vec<Messages>,
    pub user: Option<User>,
    pub request_endpoint: &'a str,
    pub profile_user: Option<User>,
    pub followed: Option<bool>,
    pub flashes: Vec<String>,
    pub title: String,
}

/// The login page.
pub struct LoginTemplate {
    pub user: Option<User>,
    pub error: String,
    pub flashes: Vec<String>,
    pub username: String,
}

/// The registration page.
pub struct RegisterTemplate {
    pub user: Option<User>,
    pub email: String,
    pub username: String,
    pub password: String,
    pub flashes: Vec<String>,
    pub error: String,
}

/// The form that posts a message.
pub struct MessageInfo {
    pub text: String,
}

/// The login form.
pub struct LoginInfo {
    pub username: String,
    pub password: String,
}

/// The registration form.
pub struct RegisterInfo {
    pub username: String,
    pub email: String,
    pub password: String,
    pub password2: String,
}

} // verus!
