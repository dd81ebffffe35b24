use mini_x::api::api_server::{
    follows_get, follows_post, get_latest, get_user_id, messages_api, messages_per_user_get,
    messages_per_user_post, post_register, update_latest, ApiResponse,
};
use mini_x::api::api_structs::{
    FollowParam, Latest, LatestAction, MessageAmount, MessageContent, RegisterInfo,
};
use mini_x::{create_msg, create_user, is_following, Database};

fn info(username: &str, email: &str, pwd: &str) -> RegisterInfo {
    RegisterInfo { username: username.to_string(), email: email.to_string(), pwd: pwd.to_string() }
}

fn rejected(r: &ApiResponse) -> Option<String> {
    match r {
        ApiResponse::RegisterRejected(e) => {
            assert_eq!(e.status, 400);
            Some(e.error_msg.clone())
        }
        _ => None,
    }
}

#[test]
fn latest_is_read_back() {
    let mut latest = LatestAction { latest: -1 };
    assert_eq!(get_latest(&latest).latest, -1);
    update_latest(&mut latest, &Latest { latest: 42 });
    assert_eq!(get_latest(&latest).latest, 42);
    assert_eq!(Latest::default().latest, -1);
    assert_eq!(MessageAmount::default().no, 100);
}

#[test]
fn register_refusals_in_order() {
    let mut db = Database::new();
    let mut latest = LatestAction { latest: -1 };
    let q = Latest { latest: 5 };
    let r = post_register(&mut db, &mut latest, &info("", "", ""), &q);
    assert_eq!(rejected(&r).unwrap(), "You have to enter a username");
    assert_eq!(latest.latest, 5);
    let r = post_register(&mut db, &mut latest, &info("a", "", ""), &q);
    assert_eq!(rejected(&r).unwrap(), "You have to enter a valid email address");
    let r = post_register(&mut db, &mut latest, &info("a", "no-at-sign", ""), &q);
    assert_eq!(rejected(&r).unwrap(), "You have to enter a password");
    assert!(get_user_id(&mut db, "a").is_none());
}

#[test]
fn register_then_name_taken() {
    let mut db = Database::new();
    let mut latest = LatestAction { latest: -1 };
    let q = Latest { latest: 1 };
    let r = post_register(&mut db, &mut latest, &info("a", "a@x", "pw"), &q);
    assert!(matches!(r, ApiResponse::NoContent));
    assert_eq!(get_user_id(&mut db, "a"), Some(1));
    let stored = mini_x::get_user_by_name(&mut db, "a").unwrap();
    assert!(stored.pw_hash.starts_with("$2b$"));
    assert!(pwhash::bcrypt::verify("pw", &stored.pw_hash));
    assert_eq!(stored.pw_hash.len(), 60);
    assert!(stored.pw_hash.starts_with("$2b$10$"));
    assert_ne!(stored.pw_hash, "pw");
    let r = post_register(&mut db, &mut latest, &info("a", "b@x", "pw2"), &q);
    assert_eq!(rejected(&r).unwrap(), "The username is already taken");
}

fn api_messages(r: ApiResponse) -> Vec<(String, String, i64)> {
    match r {
        ApiResponse::Messages(v) => v.into_iter().map(|m| (m.content, m.user, m.pub_date)).collect(),
        _ => panic!("not a list of messages"),
    }
}

#[test]
fn messages_api_gives_public_messages_with_seconds() {
    let mut db = Database::new();
    let mut latest = LatestAction { latest: -1 };
    create_user(&mut db, "a", "a@x", "h");
    create_msg(&mut db, &1, "old", "1970-01-01T00:00:10+00:00".to_string(), &0);
    create_msg(&mut db, &1, "new", "2024-01-01T01:00:00+01:00".to_string(), &0);
    create_msg(&mut db, &1, "hidden", "2024-02-01T00:00:00+00:00".to_string(), &1);
    let r = messages_api(&mut db, &mut latest, &MessageAmount { no: 100 }, &Latest { latest: 3 });
    assert_eq!(
        api_messages(r),
        vec![("new".to_string(), "a".to_string(), 1704067200), ("old".to_string(), "a".to_string(), 10)]
    );
    assert_eq!(latest.latest, 3);
    let r = messages_api(&mut db, &mut latest, &MessageAmount { no: 1 }, &Latest { latest: 3 });
    assert_eq!(api_messages(r).len(), 1);
}

#[test]
fn unreadable_date_is_a_server_error() {
    let mut db = Database::new();
    let mut latest = LatestAction { latest: -1 };
    create_user(&mut db, "a", "a@x", "h");
    create_msg(&mut db, &1, "bad", "yesterday".to_string(), &0);
    let r = messages_api(&mut db, &mut latest, &MessageAmount { no: 10 }, &Latest { latest: 1 });
    assert!(matches!(r, ApiResponse::ServerError));
}

#[test]
fn messages_per_user() {
    let mut db = Database::new();
    let mut latest = LatestAction { latest: -1 };
    create_user(&mut db, "a", "a@x", "h");
    create_user(&mut db, "b", "b@x", "h");
    let q = Latest { latest: 9 };
    let r = messages_per_user_post(&mut db, &mut latest, "a", &MessageContent { content: "hi".to_string() }, &q, "2024-01-01T00:00:00+00:00".to_string());
    assert!(matches!(r, ApiResponse::NoContent));
    let r = messages_per_user_post(&mut db, &mut latest, "zed", &MessageContent { content: "x".to_string() }, &q, "2024-01-01T00:00:00+00:00".to_string());
    assert!(matches!(r, ApiResponse::NotFound));
    messages_per_user_post(&mut db, &mut latest, "b", &MessageContent { content: "from b".to_string() }, &q, "2024-01-02T00:00:00+00:00".to_string());
    create_msg(&mut db, &1, "flagged", "2024-01-03T00:00:00+00:00".to_string(), &1);
    mini_x::follow(&mut db, 1, 2);
    let r = messages_per_user_get(&mut db, &mut latest, "a", &MessageAmount { no: 10 }, &q);
    assert_eq!(api_messages(r), vec![("hi".to_string(), "a".to_string(), 1704067200)]);
    let r = messages_per_user_get(&mut db, &mut latest, "zed", &MessageAmount { no: -5 }, &q);
    assert!(matches!(r, ApiResponse::NotFound));
    let r = messages_per_user_get(&mut db, &mut latest, "b", &MessageAmount { no: 10 }, &q);
    assert_eq!(api_messages(r).len(), 1);
    let r = messages_per_user_get(&mut db, &mut latest, "zed", &MessageAmount { no: 10 }, &q);
    assert!(matches!(r, ApiResponse::NotFound));
}

fn follows_of(r: ApiResponse) -> Vec<String> {
    match r {
        ApiResponse::Follows(f) => f.follows,
        _ => panic!("not a follows list"),
    }
}

#[test]
fn follow_and_unfollow_through_the_api() {
    let mut db = Database::new();
    let mut latest = LatestAction { latest: -1 };
    create_user(&mut db, "a", "a@x", "h");
    create_user(&mut db, "b", "b@x", "h");
    let q = Latest { latest: 2 };
    let r = follows_post(&mut db, &mut latest, "a", FollowParam { follow: Some("b".to_string()), unfollow: None }, &q);
    assert!(matches!(r, ApiResponse::NoContent));
    assert!(is_following(&mut db, 2, 1));
    let r = follows_get(&mut db, &mut latest, "a", &MessageAmount { no: 10 }, &q);
    assert_eq!(follows_of(r), vec!["b".to_string()]);
    let r = follows_post(&mut db, &mut latest, "a", FollowParam { follow: None, unfollow: Some("b".to_string()) }, &q);
    assert!(matches!(r, ApiResponse::NoContent));
    assert!(!is_following(&mut db, 2, 1));
    let r = follows_post(&mut db, &mut latest, "a", FollowParam { follow: Some("zed".to_string()), unfollow: None }, &q);
    assert!(matches!(r, ApiResponse::BadRequest));
    let r = follows_post(&mut db, &mut latest, "a", FollowParam { follow: None, unfollow: None }, &q);
    assert!(matches!(r, ApiResponse::BadRequest));
    let r = follows_post(&mut db, &mut latest, "zed", FollowParam { follow: Some("a".to_string()), unfollow: None }, &q);
    assert!(matches!(r, ApiResponse::NotFound));
    let r = follows_get(&mut db, &mut latest, "zed", &MessageAmount { no: 10 }, &q);
    assert!(matches!(r, ApiResponse::NotFound));
}

#[test]
fn hashing_failure_stores_nothing() {
    let mut db = Database::new();
    let r = mini_x::api::api_server::store_registration(
        &mut db,
        &info("a", "a@x", "pw"),
        Err(pwhash::error::Error::InvalidHashString),
    );
    assert!(matches!(r, ApiResponse::ServerError));
    assert!(get_user_id(&mut db, "a").is_none());
    let r = mini_x::api::api_server::store_registration(&mut db, &info("a", "a@x", "pw"), Ok("stored".to_string()));
    assert!(matches!(r, ApiResponse::NoContent));
    assert_eq!(mini_x::get_passwd_hash(&mut db, "a").unwrap(), "stored");
}
