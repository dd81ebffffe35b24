use mini_x::database::MessageFilter;
use mini_x::{
    create_msg, create_user, follow, get_followers, get_passwd_hash, get_public_messages,
    get_timeline, get_user_by_id, get_user_by_name, get_user_timeline, is_following, unfollow,
    Database,
};

fn sample() -> Database {
    let mut db = Database::new();
    create_user(&mut db, "alice", "alice@example.com", "h1");
    create_user(&mut db, "bob", "bob@example.com", "h2");
    create_user(&mut db, "carol", "carol@example.com", "h3");
    db
}

#[test]
fn create_user_assigns_ids_in_order() {
    let mut db = Database::new();
    let a = create_user(&mut db, "alice", "alice@example.com", "h1");
    let b = create_user(&mut db, "bob", "bob@example.com", "h2");
    assert_eq!(a.user_id, 1);
    assert_eq!(b.user_id, 2);
    assert_eq!(b.username, "bob");
    assert_eq!(b.email, "bob@example.com");
    assert_eq!(b.pw_hash, "h2");
}

#[test]
fn user_lookup_by_id_and_name() {
    let mut db = sample();
    let bob = get_user_by_id(&mut db, 2).unwrap();
    assert_eq!(bob.username, "bob");
    assert!(get_user_by_id(&mut db, 0).is_none());
    assert!(get_user_by_id(&mut db, 4).is_none());
    assert!(get_user_by_id(&mut db, -3).is_none());
    let carol = get_user_by_name(&mut db, "carol").unwrap();
    assert_eq!(carol.user_id, 3);
    assert!(get_user_by_name(&mut db, "dave").is_none());
    assert!(get_user_by_name(&mut db, "Carol").is_none());
}

#[test]
fn lookup_by_name_gives_the_first_of_equal_names() {
    let mut db = Database::new();
    create_user(&mut db, "twin", "one@example.com", "h1");
    create_user(&mut db, "twin", "two@example.com", "h2");
    assert_eq!(get_user_by_name(&mut db, "twin").unwrap().user_id, 1);
    assert_eq!(get_passwd_hash(&mut db, "twin").unwrap(), "h1");
}

#[test]
fn password_hash_lookup() {
    let mut db = sample();
    assert_eq!(get_passwd_hash(&mut db, "bob").unwrap(), "h2");
    assert!(get_passwd_hash(&mut db, "nobody").is_none());
}

#[test]
fn follow_then_unfollow() {
    let mut db = sample();
    assert!(!is_following(&mut db, 2, 1));
    follow(&mut db, 1, 2);
    assert!(is_following(&mut db, 2, 1));
    assert!(!is_following(&mut db, 1, 2));
    unfollow(&mut db, 1, 2);
    assert!(!is_following(&mut db, 2, 1));
    unfollow(&mut db, 1, 2);
    assert!(!is_following(&mut db, 2, 1));
}

#[test]
fn unfollow_leaves_other_pairs() {
    let mut db = sample();
    follow(&mut db, 1, 2);
    follow(&mut db, 1, 3);
    follow(&mut db, 2, 3);
    unfollow(&mut db, 1, 2);
    assert!(!is_following(&mut db, 2, 1));
    assert!(is_following(&mut db, 3, 1));
    assert!(is_following(&mut db, 3, 2));
}

#[test]
fn followers_lists_followed_users_up_to_limit() {
    let mut db = sample();
    follow(&mut db, 1, 3);
    follow(&mut db, 1, 2);
    follow(&mut db, 2, 1);
    follow(&mut db, 1, 9);
    let names: Vec<String> = get_followers(&mut db, 1, 10).into_iter().map(|u| u.username).collect();
    assert_eq!(names, vec!["carol".to_string(), "bob".to_string()]);
    let names: Vec<String> = get_followers(&mut db, 1, 1).into_iter().map(|u| u.username).collect();
    assert_eq!(names, vec!["carol".to_string()]);
    assert!(get_followers(&mut db, 1, 0).is_empty());
    assert!(get_followers(&mut db, 3, 10).is_empty());
}

fn texts(rows: &[(mini_x::Messages, mini_x::Users)]) -> Vec<String> {
    rows.iter().map(|(m, _)| m.text.clone()).collect()
}

#[test]
fn public_messages_newest_first_without_flagged() {
    let mut db = sample();
    create_msg(&mut db, &1, "first", "2024-01-01T10:00:00+00:00".to_string(), &0);
    create_msg(&mut db, &2, "third", "2024-01-03T10:00:00+00:00".to_string(), &0);
    create_msg(&mut db, &3, "flagged", "2024-01-04T10:00:00+00:00".to_string(), &1);
    create_msg(&mut db, &2, "second", "2024-01-02T10:00:00+00:00".to_string(), &0);
    create_msg(&mut db, &7, "orphan", "2024-01-05T10:00:00+00:00".to_string(), &0);
    let rows = get_public_messages(&mut db, 32);
    assert_eq!(texts(&rows), vec!["third", "second", "first"]);
    assert_eq!(rows[0].1.username, "bob");
    assert_eq!(rows[2].1.username, "alice");
    let rows = get_public_messages(&mut db, 2);
    assert_eq!(texts(&rows), vec!["third", "second"]);
    assert!(get_public_messages(&mut db, 0).is_empty());
}

#[test]
fn user_timeline_holds_one_authors_unflagged_messages() {
    let mut db = sample();
    create_msg(&mut db, &1, "a1", "2024-01-01T10:00:00+00:00".to_string(), &0);
    create_msg(&mut db, &2, "b1", "2024-01-02T10:00:00+00:00".to_string(), &0);
    create_msg(&mut db, &1, "a2", "2024-01-03T10:00:00+00:00".to_string(), &0);
    create_msg(&mut db, &1, "a3", "2024-01-04T10:00:00+00:00".to_string(), &1);
    let rows = get_user_timeline(&mut db, 1, 30);
    assert_eq!(texts(&rows), vec!["a2", "a1"]);
}

#[test]
fn timeline_holds_own_and_followed_messages() {
    let mut db = sample();
    create_msg(&mut db, &1, "mine", "2024-01-01T10:00:00+00:00".to_string(), &0);
    create_msg(&mut db, &2, "bobs", "2024-01-02T10:00:00+00:00".to_string(), &0);
    create_msg(&mut db, &2, "bobs flagged", "2024-01-02T11:00:00+00:00".to_string(), &1);
    create_msg(&mut db, &1, "mine flagged", "2024-01-02T12:00:00+00:00".to_string(), &1);
    create_msg(&mut db, &3, "carols", "2024-01-03T10:00:00+00:00".to_string(), &0);
    follow(&mut db, 1, 2);
    let rows = get_timeline(&mut db, 1, 32);
    assert_eq!(texts(&rows), vec!["bobs", "mine"]);
    follow(&mut db, 1, 1);
    let rows = get_timeline(&mut db, 1, 32);
    assert_eq!(texts(&rows), vec!["bobs", "mine"]);
    assert!(rows.iter().all(|(m, _)| m.flagged == 0));
}

#[test]
fn dates_compare_as_text() {
    let mut db = sample();
    create_msg(&mut db, &1, "b", "2024-01-01T10:00:00+00:00".to_string(), &0);
    create_msg(&mut db, &1, "a", "2024-01-01T09:59:59+00:00".to_string(), &0);
    create_msg(&mut db, &1, "c", "2024-01-01T10:00:00+00:00Z".to_string(), &0);
    let rows = mini_x::database::newest_matching(&mut db, MessageFilter::AuthorAll(1), 10);
    assert_eq!(texts(&rows), vec!["c", "b", "a"]);
}

#[test]
fn created_message_row() {
    let mut db = sample();
    let m = create_msg(&mut db, &2, "hello", "2024-01-01T10:00:00+00:00".to_string(), &0);
    assert_eq!(m.message_id, 1);
    assert_eq!(m.author_id, 2);
    assert_eq!(m.text, "hello");
    assert_eq!(m.flagged, 0);
    let m2 = create_msg(&mut db, &3, "again", "2024-01-01T10:00:01+00:00".to_string(), &1);
    assert_eq!(m2.message_id, 2);
}

#[test]
fn newest_post_leads_every_timeline_showing_it() {
    let mut db = sample();
    follow(&mut db, 2, 1);
    create_msg(&mut db, &1, "older", "2024-01-01T10:00:00+00:00".to_string(), &0);
    create_msg(&mut db, &3, "other", "2024-01-02T10:00:00+00:00".to_string(), &0);
    create_msg(&mut db, &1, "newest", "2024-01-03T10:00:00+00:00".to_string(), &0);
    assert_eq!(get_public_messages(&mut db, 1)[0].0.text, "newest");
    assert_eq!(get_user_timeline(&mut db, 1, 1)[0].0.text, "newest");
    assert_eq!(get_timeline(&mut db, 2, 1)[0].0.text, "newest");
}

#[test]
fn follow_then_unfollow_restores_the_list() {
    let mut db = sample();
    follow(&mut db, 1, 3);
    let names = |db: &mut Database| -> Vec<String> {
        get_followers(db, 1, 10).into_iter().map(|u| u.username).collect()
    };
    let before = names(&mut db);
    follow(&mut db, 1, 2);
    assert_eq!(names(&mut db), vec!["carol".to_string(), "bob".to_string()]);
    unfollow(&mut db, 1, 2);
    assert_eq!(names(&mut db), before);
}
