use mini_x::api::api_server::ApiResponse;
use mini_x::api::api_structs::{Latest, LatestAction, MessageAmount, MessageContent, RegisterInfo};
use mini_x::frontend::client::Page;
use mini_x::frontend::template_structs::{LoginInfo, MessageInfo};
use mini_x::standalone::{
    add_message, follow_user, get_database_string, get_user, get_user_id, login, logout,
    messages_api, messages_per_user_get, messages_per_user_post, post_login, post_register,
    public_timeline, register, timeline, unfollow_user, user_timeline, FlashLevel, FlashNote,
};
use mini_x::{create_msg, create_user, get_user_by_name, is_following, Database};

fn last_note(outbox: &[FlashNote]) -> (bool, String) {
    let n = outbox.last().unwrap();
    (n.level == FlashLevel::Info, n.content.clone())
}

#[test]
fn database_location() {
    assert_eq!(get_database_string(), "/tmp/mini-x_api.db");
}

#[test]
fn ids_and_users() {
    let mut db = Database::new();
    create_user(&mut db, "a", "a@x", "h");
    create_user(&mut db, "b", "b@x", "h");
    assert_eq!(get_user_id(&mut db, "b"), 2);
    assert_eq!(get_user(&mut db, Some("2")).unwrap().username, "b");
    assert!(get_user(&mut db, None).is_none());
}

#[test]
fn refused_registration_stores_nothing() {
    let mut db = Database::new();
    let mut latest = LatestAction { latest: -1 };
    let info = RegisterInfo { username: "a".to_string(), email: "".to_string(), pwd: "p".to_string() };
    let r = post_register(&mut db, &mut latest, &info, &Latest { latest: 4 });
    match r {
        ApiResponse::RegisterRejected(e) => {
            assert_eq!(e.status, 400);
            assert_eq!(e.error_msg, "You have to enter a valid email address");
        }
        _ => panic!("expected a refusal"),
    }
    assert_eq!(latest.latest, 4);
    assert!(get_user_by_name(&mut db, "a").is_none());
    let info = RegisterInfo { username: "b".to_string(), email: "b@x".to_string(), pwd: "p".to_string() };
    assert!(matches!(post_register(&mut db, &mut latest, &info, &Latest { latest: 5 }), ApiResponse::NoContent));
}

#[test]
fn api_messages_and_limits() {
    let mut db = Database::new();
    let mut latest = LatestAction { latest: -1 };
    create_user(&mut db, "a", "a@x", "h");
    let q = Latest { latest: 1 };
    for (i, date) in ["2024-01-01T00:00:00+00:00", "2024-01-02T00:00:00+00:00"].iter().enumerate() {
        let msg = MessageContent { content: format!("m{}", i) };
        assert!(matches!(messages_per_user_post(&mut db, &mut latest, "a", &msg, &q, date.to_string()), ApiResponse::NoContent));
    }
    create_msg(&mut db, &1, "flagged", "2024-01-03T00:00:00+00:00".to_string(), &1);
    match messages_api(&mut db, &mut latest, &MessageAmount { no: -1 }, &q) {
        ApiResponse::Messages(v) => {
            let c: Vec<String> = v.into_iter().map(|m| m.content).collect();
            assert_eq!(c, vec!["m1".to_string(), "m0".to_string()]);
        }
        _ => panic!("expected messages"),
    }
    match messages_per_user_get(&mut db, &mut latest, "a", &MessageAmount { no: 1 }, &q) {
        ApiResponse::Messages(v) => assert_eq!(v.len(), 1),
        _ => panic!("expected messages"),
    }
}

#[test]
fn pages_of_the_standalone_server() {
    let mut db = Database::new();
    create_user(&mut db, "a", "a@x", "h");
    create_user(&mut db, "b", "b@x", "h");
    create_msg(&mut db, &2, "b flagged", "2024-01-03T00:00:00+00:00".to_string(), &1);
    create_msg(&mut db, &2, "b plain", "2024-01-02T00:00:00+00:00".to_string(), &0);
    let mut outbox: Vec<FlashNote> = Vec::new();

    assert_eq!(match follow_user(&mut db, Some("1"), "b") { Page::Found(l) => l, _ => panic!() }, "/b");
    assert!(is_following(&mut db, 2, 1));
    follow_user(&mut db, Some("1"), "b");
    assert!(is_following(&mut db, 2, 1));

    match timeline(&mut db, vec![], Some("1")) {
        Page::Timeline(t) => {
            let texts: Vec<&str> = t.messages.iter().map(|m| m.text.as_str()).collect();
            assert_eq!(texts, vec!["b plain"]);
            assert!(t.messages.iter().all(|m| m.pub_date.nanos == 0));
        }
        _ => panic!("expected a timeline"),
    }
    match user_timeline(&mut db, "b", Some("1"), vec![]) {
        Page::Timeline(t) => {
            assert_eq!(t.messages.len(), 2);
            assert_eq!(t.followed, Some(true));
        }
        _ => panic!("expected a timeline"),
    }
    match public_timeline(&mut db, vec![], None) {
        Page::Timeline(t) => assert_eq!(t.messages.len(), 1),
        _ => panic!("expected a timeline"),
    }
    unfollow_user(&mut db, Some("1"), "b");
    assert!(!is_following(&mut db, 2, 1));

    let page = add_message(&mut db, &mut outbox, Some("1"), &MessageInfo { text: "hi".to_string() }, "2024-01-04T00:00:00+00:00".to_string());
    assert!(matches!(page, Page::Found(_)));
    assert_eq!(last_note(&outbox), (true, "Your message was recorded".to_string()));

    assert!(matches!(login(&mut outbox, vec![], Some("1")), Page::TemporaryRedirect(_)));
    assert_eq!(last_note(&outbox), (true, "You are already logged in".to_string()));
    assert!(matches!(logout(&mut outbox), Page::SeeOther(_)));
    assert_eq!(last_note(&outbox), (true, "You were logged out".to_string()));
    assert!(matches!(register(), Page::Register(_)));
}

#[test]
fn standalone_login() {
    let mut db = Database::new();
    let mut latest = LatestAction { latest: -1 };
    let info = RegisterInfo { username: "a".to_string(), email: "a@x".to_string(), pwd: "pw".to_string() };
    post_register(&mut db, &mut latest, &info, &Latest { latest: 1 });
    let mut outbox = Vec::new();
    let (page, id) = post_login(&mut db, &mut outbox, &LoginInfo { username: "a".to_string(), password: "pw".to_string() });
    assert!(matches!(page, Page::SeeOther(ref l) if l == "/"));
    assert_eq!(id.as_deref(), Some("1"));
    let (page, id) = post_login(&mut db, &mut outbox, &LoginInfo { username: "a".to_string(), password: "no".to_string() });
    assert!(matches!(page, Page::SeeOther(ref l) if l == "/login"));
    assert!(id.is_none());
    assert_eq!(last_note(&outbox), (false, "Invalid username or password".to_string()));
}

#[test]
fn standalone_hashing_failure() {
    let mut db = Database::new();
    let info = RegisterInfo { username: "a".to_string(), email: "a@x".to_string(), pwd: "p".to_string() };
    let r = mini_x::api::api_server::store_registration(&mut db, &info, Err(pwhash::error::Error::EncodingError));
    assert!(matches!(r, ApiResponse::ServerError));
    assert!(get_user_by_name(&mut db, "a").is_none());
}
