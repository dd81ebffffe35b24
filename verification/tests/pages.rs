use mini_x::flash_messages::FlashMessages;
use mini_x::frontend::client::{
    add_message, follow_user, format_messages, get_user, get_user_id, get_user_template,
    get_user_template_by_name, gravatar_url, login, logout, post_login, post_register,
    public_timeline, register, timeline, unfollow_user, user_timeline, Page,
};
use mini_x::frontend::template_structs::{LoginInfo, MessageInfo, RegisterInfo};
use mini_x::{create_msg, create_user, is_following, Database};

fn form(username: &str, email: &str, password: &str, password2: &str) -> RegisterInfo {
    RegisterInfo {
        username: username.to_string(),
        email: email.to_string(),
        password: password.to_string(),
        password2: password2.to_string(),
    }
}

fn see_other(p: &Page) -> String {
    match p {
        Page::SeeOther(l) => l.clone(),
        _ => panic!("not a 303"),
    }
}

fn found(p: &Page) -> String {
    match p {
        Page::Found(l) => l.clone(),
        _ => panic!("not a 302"),
    }
}

#[test]
fn gravatar_of_trimmed_lower_case_address() {
    assert_eq!(
        gravatar_url("  MyEmailAddress@example.com "),
        "https://www.gravatar.com/avatar/0bc83cb571cd1c50ba6f3e8a78ef1346?d=identicon&s=48"
    );
    assert_eq!(
        gravatar_url(""),
        "https://www.gravatar.com/avatar/d41d8cd98f00b204e9800998ecf8427e?d=identicon&s=48"
    );
}

#[test]
fn user_ids_and_templates() {
    let mut db = Database::new();
    create_user(&mut db, "alice", "alice@example.com", "h");
    assert_eq!(get_user_id(&mut db, "alice"), 1);
    assert_eq!(get_user_id(&mut db, "bob"), -1);
    let t = get_user_template_by_name(&mut db, "alice").unwrap();
    assert_eq!((t.user_id, t.username.as_str(), t.email.as_str()), (1, "alice", "alice@example.com"));
    assert!(get_user_template_by_name(&mut db, "bob").is_none());
    assert_eq!(get_user_template(&mut db, 1).unwrap().username, "alice");
    assert!(get_user_template(&mut db, 2).is_none());
    assert!(get_user_template(&mut db, 1 << 40).is_none());
    assert_eq!(get_user(&mut db, Some("1")).unwrap().username, "alice");
    assert!(get_user(&mut db, Some("7")).is_none());
    assert!(get_user(&mut db, None).is_none());
}

#[test]
fn registration_form_refusals() {
    let mut db = Database::new();
    let mut session = None;
    let cases = [
        (form("", "a@x", "p", "p"), "You have to enter a username"),
        (form("a", "", "p", "p"), "You have to enter a valid email address"),
        (form("a", "no-at", "p", "p"), "You have to enter a valid email address"),
        (form("a", "a@x", "", ""), "You have to enter a password"),
        (form("a", "a@x", "p", "q"), "The two passwords do not match"),
    ];
    for (info, text) in cases.iter() {
        let page = post_register(&mut db, &mut session, info);
        assert_eq!(see_other(&page), "/register");
        assert_eq!(session.take().unwrap(), *text);
    }
    assert_eq!(get_user_id(&mut db, "a"), -1);
}

#[test]
fn register_then_log_in() {
    let mut db = Database::new();
    let mut session = None;
    let page = post_register(&mut db, &mut session, &form("alice", "alice@example.com", "secret", "secret"));
    assert_eq!(see_other(&page), "/login");
    assert_eq!(session.take().unwrap(), "You were successfully registered and can login now");
    let page = post_register(&mut db, &mut session, &form("alice", "other@example.com", "x", "x"));
    assert_eq!(see_other(&page), "/register");
    assert_eq!(session.take().unwrap(), "The username is already taken");

    let (page, identity) = post_login(&mut db, &mut session, &LoginInfo { username: "alice".to_string(), password: "secret".to_string() });
    assert_eq!(found(&page), "/");
    assert_eq!(identity.as_deref(), Some("1"));
    assert_eq!(session.take().unwrap(), "You were logged in");
    assert_eq!(get_user(&mut db, identity.as_deref()).unwrap().username, "alice");

    let (page, identity) = post_login(&mut db, &mut session, &LoginInfo { username: "alice".to_string(), password: "wrong".to_string() });
    assert_eq!(found(&page), "/login");
    assert!(identity.is_none());
    assert_eq!(session.take().unwrap(), "Invalid password");

    let (page, identity) = post_login(&mut db, &mut session, &LoginInfo { username: "nobody".to_string(), password: "secret".to_string() });
    assert_eq!(found(&page), "/login");
    assert!(identity.is_none());
    assert_eq!(session.take().unwrap(), "Invalid username");
}

#[test]
fn timelines() {
    let mut db = Database::new();
    create_user(&mut db, "alice", "alice@example.com", "h");
    create_user(&mut db, "bob", "bob@example.com", "h");
    create_msg(&mut db, &1, "from alice", "2024-01-01T00:00:00+00:00".to_string(), &0);
    create_msg(&mut db, &2, "from bob", "2024-01-02T00:00:00+00:00".to_string(), &0);
    mini_x::follow(&mut db, 1, 2);

    match timeline(&mut db, None, None) {
        Page::TemporaryRedirect(l) => assert_eq!(l, "/public"),
        _ => panic!("expected a redirect"),
    }
    let flash = Some(FlashMessages { messages: vec!["hello".to_string()] });
    match timeline(&mut db, flash, Some("1")) {
        Page::Timeline(t) => {
            let texts: Vec<&str> = t.messages.iter().map(|m| m.text.as_str()).collect();
            assert_eq!(texts, vec!["from bob", "from alice"]);
            assert_eq!(t.request_endpoint, "timeline");
            assert_eq!(t.title, "Timeline");
            assert_eq!(t.flashes, vec!["hello".to_string()]);
            assert_eq!(t.user.unwrap().username, "alice");
            assert_eq!(t.followed, Some(false));
            assert_eq!(t.messages[0].pub_date.seconds, 1704153600);
            assert_eq!(t.messages[0].pub_date.nanos, 0);
        }
        _ => panic!("expected a timeline"),
    }
    match public_timeline(&mut db, None, None) {
        Page::Timeline(t) => {
            assert_eq!(t.messages.len(), 2);
            assert_eq!(t.request_endpoint, "/");
            assert_eq!(t.title, "");
            assert!(t.user.is_none());
            assert!(t.flashes.is_empty());
        }
        _ => panic!("expected a timeline"),
    }
    match user_timeline(&mut db, "bob", Some("1"), None) {
        Page::Timeline(t) => {
            assert_eq!(t.messages.len(), 1);
            assert_eq!(t.followed, Some(true));
            assert_eq!(t.profile_user.unwrap().username, "bob");
            assert_eq!(t.request_endpoint, "user_timeline");
        }
        _ => panic!("expected a timeline"),
    }
    match user_timeline(&mut db, "alice", Some("2"), None) {
        Page::Timeline(t) => assert_eq!(t.followed, Some(false)),
        _ => panic!("expected a timeline"),
    }
    assert!(matches!(user_timeline(&mut db, "zed", None, None), Page::NotFound));
}

#[test]
fn follow_and_unfollow_pages() {
    let mut db = Database::new();
    create_user(&mut db, "alice", "alice@example.com", "h");
    create_user(&mut db, "bob", "bob@example.com", "h");
    let mut session = None;
    assert_eq!(found(&follow_user(&mut db, &mut session, None, "bob")), "User not found");
    assert!(session.is_none());
    assert_eq!(found(&follow_user(&mut db, &mut session, Some("1"), "bob")), "/bob");
    assert!(is_following(&mut db, 2, 1));
    assert_eq!(session.take().unwrap(), "You are now following bob");
    assert_eq!(found(&unfollow_user(&mut db, &mut session, Some("1"), "bob")), "/bob");
    assert!(!is_following(&mut db, 2, 1));
    assert_eq!(session.take().unwrap(), "You are no longer following bob");
}

#[test]
fn posting_a_message() {
    let mut db = Database::new();
    create_user(&mut db, "alice", "alice@example.com", "h");
    let mut session = None;
    let msg = MessageInfo { text: "hello".to_string() };
    assert!(matches!(add_message(&mut db, &mut session, None, &msg, "2024-01-01T00:00:00+00:00".to_string()), Page::Unauthorized));
    let page = add_message(&mut db, &mut session, Some("1"), &msg, "2024-01-01T00:00:00+00:00".to_string());
    assert_eq!(found(&page), "/");
    assert_eq!(session.take().unwrap(), "Your message was recorded");
    let rows = mini_x::get_user_timeline(&mut db, 1, 30);
    assert_eq!(rows[0].0.text, "hello");
}

#[test]
fn login_logout_and_register_pages() {
    let mut session = None;
    match login(&mut session, None, None) {
        Page::Login(t) => {
            assert!(t.user.is_none());
            assert_eq!(t.error, "");
        }
        _ => panic!("expected the login page"),
    }
    match login(&mut session, None, Some("1")) {
        Page::TemporaryRedirect(l) => assert_eq!(l, "/"),
        _ => panic!("expected a redirect"),
    }
    assert_eq!(session.take().unwrap(), "You are already logged in");
    assert_eq!(see_other(&logout(&mut session)), "/public");
    assert_eq!(session.take().unwrap(), "You were logged out");
    match register(Some(FlashMessages { messages: vec!["n".to_string()] })) {
        Page::Register(t) => {
            assert_eq!(t.flashes, vec!["n".to_string()]);
            assert_eq!(t.username, "");
        }
        _ => panic!("expected the register page"),
    }
}

#[test]
fn formatting_needs_readable_dates() {
    let mut db = Database::new();
    create_user(&mut db, "alice", " Alice@Example.com", "h");
    create_msg(&mut db, &1, "ok", "2024-01-01T00:00:00+00:00".to_string(), &0);
    let rows = mini_x::get_user_timeline(&mut db, 1, 30);
    let out = format_messages(rows).unwrap();
    assert_eq!(out[0].gravatar_url, gravatar_url("alice@example.com"));
    create_msg(&mut db, &1, "bad", "not a date".to_string(), &0);
    let rows = mini_x::get_user_timeline(&mut db, 1, 30);
    assert!(format_messages(rows).is_none());
    assert!(matches!(public_timeline(&mut db, None, None), Page::ServerError));
}

#[test]
fn form_hashing_failure_is_a_server_error() {
    let mut db = Database::new();
    let mut session = None;
    let page = mini_x::frontend::client::store_registration(
        &mut db,
        &mut session,
        &form("a", "a@x", "p", "p"),
        Err(pwhash::error::Error::InvalidRounds),
    );
    assert!(matches!(page, Page::ServerError));
    assert!(session.is_none());
    assert_eq!(get_user_id(&mut db, "a"), -1);
}

#[test]
fn page_dates_keep_fractions_of_a_second() {
    let mut db = Database::new();
    create_user(&mut db, "alice", "alice@example.com", "h");
    create_msg(&mut db, &1, "m", "2024-01-01T00:00:00.25+00:00".to_string(), &0);
    let rows = mini_x::get_user_timeline(&mut db, 1, 30);
    let out = format_messages(rows).unwrap();
    assert_eq!(out[0].pub_date.seconds, 1704067200);
    assert_eq!(out[0].pub_date.nanos, 250_000_000);
}

#[test]
fn unreadable_stored_hash_is_an_invalid_password() {
    let mut db = Database::new();
    create_user(&mut db, "alice", "alice@example.com", "$2b$10$\u{80}\u{80}\u{80}\u{80}\u{80}\u{80}\u{80}\u{80}\u{80}\u{80}\u{80}\u{80}\u{80}\u{80}\u{80}\u{80}\u{80}\u{80}\u{80}\u{80}\u{80}\u{80}");
    create_user(&mut db, "bob", "bob@example.com", "$2b$10$\u{1}bcdefghijklmnopqrstuv");
    let mut session = None;
    for name in ["alice", "bob"] {
        let (page, identity) = post_login(&mut db, &mut session, &LoginInfo { username: name.to_string(), password: "x".to_string() });
        assert_eq!(found(&page), "/login");
        assert!(identity.is_none());
        assert_eq!(session.take().unwrap(), "Invalid password");
    }
}

#[test]
fn gravatar_address_has_fixed_length() {
    for e in ["", "a@b", "  Someone@Example.COM\t", "\u{3000}x@y\u{2028}"] {
        assert_eq!(gravatar_url(e).chars().count(), 81);
        assert_eq!(gravatar_url(e), gravatar_url(e.trim()));
    }
}
