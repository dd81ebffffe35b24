//! mini-x: a small Twitter-like service. The store, its queries and the
//! decisions of the web pages and of the API stand here; the web server
//! around them lives in the application.
pub mod models;
pub mod text;
pub mod database;
pub mod wrappers;
pub mod flash_messages;
pub mod validation;
pub mod api;
pub mod frontend;

pub use database::{
    Database, create_user, get_public_messages, create_msg, follow, unfollow, get_followers,
    get_user_by_id, get_user_by_name, get_user_timeline, get_timeline, get_passwd_hash,
    is_following,
};
pub use models::{Users, NewUser, Followers, NewFollower, Messages, NewMessage};
pub mod standalone;
