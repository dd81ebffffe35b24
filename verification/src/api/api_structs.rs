//! The values that the API reads from requests and writes into responses.
use vstd::prelude::*;

verus! {

/// The `latest` value that the simulator last sent.
pub struct LatestAction {
    pub latest: i32,
}

/// The `latest` query parameter, and the body of `GET /latest`.
pub struct Latest {
    pub latest: i32,
}

impl Default for Latest {
    fn default() -> (r: Self)
        ensures
            r.latest == -1,
    {
        Latest { latest: -1 }
    }
}

/// The `no` query parameter: how many rows to give.
pub struct MessageAmount {
    pub no: i32,
}

impl Default for MessageAmount {
    fn default() -> (r: Self)
        ensures
            r.no == 100,
    {
        MessageAmount { no: 100 }
    }
}

/// The body of `POST /register`.
pub struct RegisterInfo {
    pub username: String,
    pub email: String,
    pub pwd: String,
}

/// The body of a refused registration.
pub struct RegisterError {
    pub status: i32,
    pub error_msg: String,
}

/// A message as the API shows it; `pub_date` is in seconds since the Unix
/// epoch.
pub struct Message {
    pub content: String,
    pub user: String,
    pub pub_date: i64,
}

/// The body of `POST /msgs/{username}`.
pub struct MessageContent {
    pub content: String,
}

/// The body of `GET /fllws/{username}`.
pub struct Follows {
    pub follows: Vec<String>,
}

/// The body of `POST /fllws/{username}`.
pub struct FollowParam {
    pub follow: Option<String>,
    pub unfollow: Option<String>,
}

} // verus!
