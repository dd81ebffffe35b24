//! What each page of the site shows, and what each form changes.
use vstd::prelude::*;
use vstd::utf8::encode_utf8;
use crate::database::{
    Database, MessageFilter, user_with_name, user_with_id, newest_rows, follows, user_appended,
    message_appended, unfollowed, law_created_user_found, first_named, row, lemma_first_named_unique,
    lemma_some_first_named, law_follow_then_following, law_unfollow_then_not_following, create_user, create_msg, get_user_by_name, get_user_by_id,
    get_public_messages, get_timeline, get_user_timeline, get_passwd_hash, follow, unfollow,
    is_following,
};
use crate::models::{Users, Followers};
use crate::models::Messages as MessageRow;
use crate::frontend::template_structs::{
    User, Messages, UtcInstant, TimelineTemplate, LoginTemplate, RegisterTemplate, MessageInfo, LoginInfo,
    RegisterInfo,
};
use crate::flash_messages::{FlashMessages, add_flash, flash_added, flashes_or_default};
use crate::validation::{RegisterProblem, problem_text, contains_at};
use crate::text::{trim, trimmed, lemma_trimmed_idempotent, hex_lower, to_hex_lower, i64_of_text, int_text, i64_to_text, parse_i64, lemma_int_text_roundtrip, printable_ascii, is_printable_ascii};
use crate::wrappers::{
    md5, md5_digest, lowercased, rfc3339_instant, parse_rfc3339, bcrypt_hash,
    bcrypt_verify, bcrypt_accepts, bcrypt_shaped, lemma_bcrypt_shaped_printable,
};

verus! {

/// A user row as the pages show it.
pub open spec fn template_of(u: Users) -> User {
    User { user_id: u.user_id, username: u.username, email: u.email }
}

/// The page form of an optional user row.
pub open spec fn template_opt(u: Option<Users>) -> Option<User> {
    match u {
        Some(u) => Some(template_of(u)),
        None => None,
    }
}

/// The id of the first user with that name, or -1 where there is none.
pub fn get_user_id(conn: &mut Database, username: &str) -> (r: i64)
    requires
        old(conn).wf(),
    ensures
        *final(conn) == *old(conn),
        r == match user_with_name(old(conn), username@) {
            Some(u) => u.user_id as i64,
            None => -1i64,
        },
{
    let user = get_user_by_name(conn, username);
    if let Some(user) = user {
        user.user_id as i64
    } else {
        -1
    }
}

/// The page form of the first user with that name.
pub fn get_user_template_by_name(conn: &mut Database, username: &str) -> (r: Option<User>)
    requires
        old(conn).wf(),
    ensures
        *final(conn) == *old(conn),
        r == template_opt(user_with_name(old(conn), username@)),
{
    let user = get_user_by_name(conn, username);
    if let Some(user) = user {
        Some(User { user_id: user.user_id, username: user.username, email: user.email })
    } else {
        None
    }
}

/// The page form of the user with that id.
pub fn get_user_template(conn: &mut Database, user_id: i64) -> (r: Option<User>)
    requires
        old(conn).wf(),
    ensures
        *final(conn) == *old(conn),
        r == template_opt(user_with_id(old(conn), user_id as int)),
{
    if user_id < 1 || user_id > i32::MAX as i64 {
        return None;
    }
    let user = get_user_by_id(conn, user_id as i32);
    if let Some(user) = user {
        Some(User { user_id: user.user_id, username: user.username, email: user.email })
    } else {
        None
    }
}

/// The user that an identity names: the identity is the user's id in
/// decimal.
pub open spec fn user_of_identity(db: &Database, identity: Seq<char>) -> Option<Users> {
    match i64_of_text(identity) {
        Some(id) => user_with_id(db, id as int),
        None => None,
    }
}

/// The user logged in with the given identity, if any.
pub open spec fn session_user(db: &Database, identity: Option<&str>) -> Option<Users> {
    match identity {
        Some(s) => user_of_identity(db, s@),
        None => None,
    }
}

/// An identity, where there is one, is a decimal integer.
pub open spec fn identity_readable(identity: Option<&str>) -> bool {
    identity matches Some(s) ==> i64_of_text(s@) is Some
}

/// The user logged in with the given identity.
pub fn get_user(conn: &mut Database, user_option: Option<&str>) -> (r: Option<User>)
    requires
        old(conn).wf(),
        identity_readable(user_option),
    ensures
        *final(conn) == *old(conn),
        r == template_opt(session_user(old(conn), user_option)),
{
    if let Some(user) = user_option {
        let user_id = parse_i64(user).unwrap();
        get_user_template(conn, user_id)
    } else {
        None
    }
}

/// The Gravatar image address for an email address.
pub open spec fn gravatar_text(email: Seq<char>) -> Seq<char> {
    "https://www.gravatar.com/avatar/"@ + hex_lower(md5_digest(encode_utf8(lowercased(trimmed(email)))))
        + "?d=identicon&s=48"@
}

/// The Gravatar image address for an email address: the MD5 digest of the
/// trimmed, lower-cased address in hexadecimal.
pub fn gravatar_url(email: &str) -> (r: String)
    ensures
        r@ == gravatar_text(email@),
        r@.len() == 81,
{
    let trimmed_email = trim(email);
    let lower = trimmed_email.as_str().to_lowercase();
    let hash = md5(lower.as_str().as_bytes());
    let hash_str = to_hex_lower(hash.as_slice());
    let mut url = String::from_str("https://www.gravatar.com/avatar/");
    url.append(hash_str.as_str());
    url.append("?d=identicon&s=48");
    proof {
        reveal_strlit("https://www.gravatar.com/avatar/");
        reveal_strlit("?d=identicon&s=48");
    }
    url
}

/// An address and the same address trimmed have the same Gravatar image.
pub proof fn law_gravatar_ignores_surrounding_space(email: Seq<char>)
    ensures
        gravatar_text(trimmed(email)) == gravatar_text(email),
{
    lemma_trimmed_idempotent(email);
}

/// The page form of a message row.
pub open spec fn template_message_of(row: (MessageRow, Users), m: Messages) -> bool {
    &&& m.text@ == row.0.text@
    &&& m.username@ == row.1.username@
    &&& m.gravatar_url@ == gravatar_text(row.1.email@)
    &&& rfc3339_instant(row.0.pub_date@) == Some((m.pub_date.seconds, m.pub_date.nanos))
}

/// `v` is the page form of `rows`, in the same order.
pub open spec fn template_messages_of(rows: Seq<(MessageRow, Users)>, v: Seq<Messages>) -> bool {
    &&& v.len() == rows.len()
    &&& forall|i: int| 0 <= i < rows.len() ==> template_message_of(#[trigger] rows[i], v[i])
}

/// Every row's date is one that chrono reads as RFC 3339.
pub open spec fn row_dates_readable(rows: Seq<(MessageRow, Users)>) -> bool {
    forall|i: int| 0 <= i < rows.len() ==> (rfc3339_instant(#[trigger] rows[i].0.pub_date@) is Some)
}

/// The rows as the pages show them, or `None` where a row's date is not
/// one that chrono reads.
pub fn format_messages(messages: Vec<(MessageRow, Users)>) -> (r: Option<Vec<Messages>>)
    ensures
        match r {
            Some(v) => template_messages_of(messages@, v@),
            None => !row_dates_readable(messages@),
        },
{
    let mut messages_for_template: Vec<Messages> = Vec::new();
    let mut i: usize = 0;
    while i < messages.len()
        invariant
            i <= messages@.len(),
            messages_for_template@.len() == i,
            forall|k: int|
                0 <= k < i ==> template_message_of(#[trigger] messages@[k], messages_for_template@[k]),
        decreases messages@.len() - i,
    {
        let (msg, user) = &messages[i];
        match parse_rfc3339(msg.pub_date.as_str()) {
            Some((seconds, nanos)) => {
                let message = Messages {
                    text: msg.text.clone(),
                    username: user.username.clone(),
                    gravatar_url: gravatar_url(user.email.as_str()),
                    pub_date: UtcInstant { seconds, nanos },
                };
                messages_for_template.push(message);
            },
            None => {
                return None;
            },
        }
        i = i + 1;
    }
    Some(messages_for_template)
}


/// The answer to a page request.
pub enum Page<'a> {
    /// 200 with a timeline.
    Timeline(TimelineTemplate<'a>),
    /// 200 with the login page.
    Login(LoginTemplate),
    /// 200 with the registration page.
    Register(RegisterTemplate),
    /// 307 to the location.
    TemporaryRedirect(String),
    /// 302 to the location.
    Found(String),
    /// 303 to the location.
    SeeOther(String),
    /// 404.
    NotFound,
    /// 401.
    Unauthorized,
    /// 500: a stored date that is not RFC 3339, or a password that could
    /// not be hashed.
    ServerError,
}

/// The notes of an optional `FlashMessages`.
pub open spec fn flash_list(flash: Option<FlashMessages>) -> Seq<String> {
    match flash {
        Some(f) => f.messages@,
        None => Seq::empty(),
    }
}

/// `r` is a timeline page with the given parts that shows the newest
/// `limit` messages that `f` selects, or a server error because one of
/// them has a date that chrono cannot read.
pub open spec fn timeline_page(
    db: &Database,
    f: MessageFilter,
    limit: int,
    r: Page,
    endpoint: Seq<char>,
    profile_user: Option<User>,
    user: Option<User>,
    followed: Option<bool>,
    flashes: Seq<String>,
    title: Seq<char>,
) -> bool {
    ||| r matches Page::Timeline(t) && t.request_endpoint@ == endpoint && t.profile_user
        == profile_user && t.user == user && t.followed == followed && t.flashes@ == flashes
        && t.title@ == title && exists|rows: Seq<(MessageRow, Users)>|
        newest_rows(db, f, limit, rows) && #[trigger] template_messages_of(rows, t.messages@)
    ||| r is ServerError && exists|rows: Seq<(MessageRow, Users)>|
        newest_rows(db, f, limit, rows) && !#[trigger] row_dates_readable(rows)
}

/// A timeline page of the rows, or a server error where a date cannot be
/// read.
pub(crate) fn timeline_response(
    rows: Vec<(MessageRow, Users)>,
    request_endpoint: &'static str,
    profile_user: Option<User>,
    user: Option<User>,
    followed: Option<bool>,
    flashes: Vec<String>,
    title: String,
) -> (r: Page<'static>)
    ensures
        r matches Page::Timeline(t) ==> t.request_endpoint@ == request_endpoint@ && t.profile_user
            == profile_user && t.user == user && t.followed == followed && t.flashes@ == flashes@
            && t.title@ == title@ && template_messages_of(rows@, t.messages@),
        r is Timeline || r is ServerError,
        r is ServerError ==> !row_dates_readable(rows@),
{
    match format_messages(rows) {
        Some(messages) => Page::Timeline(
            TimelineTemplate { messages, request_endpoint, profile_user, user, followed, flashes, title },
        ),
        None => Page::ServerError,
    }
}

/// `GET /`: the timeline of the logged-in user, or a redirect to the public
/// timeline.
pub fn timeline(conn: &mut Database, flash: Option<FlashMessages>, user: Option<&str>) -> (r: Page<'static>)
    requires
        old(conn).wf(),
        identity_readable(user),
    ensures
        *final(conn) == *old(conn),
        match session_user(old(conn), user) {
            Some(u) => timeline_page(
                old(conn),
                MessageFilter::Timeline(u.user_id),
                32,
                r,
                "timeline"@,
                None,
                Some(template_of(u)),
                Some(false),
                flash_list(flash),
                "Timeline"@,
            ),
            None => r matches Page::TemporaryRedirect(l) && l@ == "/public"@,
        },
{
    if let Some(user) = get_user(conn, user) {
        let rows = get_timeline(conn, user.user_id, 32);
        let ghost seen = rows@;
        let r = timeline_response(
            rows,
            "timeline",
            None,
            Some(user),
            Some(false),
            flashes_or_default(flash),
            String::from_str("Timeline"),
        );
        proof {
            if r is Timeline {
                assert(template_messages_of(seen, r->Timeline_0.messages@));
            } else {
                assert(!row_dates_readable(seen));
            }
        }
        r
    } else {
        Page::TemporaryRedirect(String::from_str("/public"))
    }
}

/// `GET /public`: the newest public messages.
pub fn public_timeline(
    conn: &mut Database,
    flash_messages: Option<FlashMessages>,
    user: Option<&str>,
) -> (r: Page<'static>)
    requires
        old(conn).wf(),
        identity_readable(user),
    ensures
        *final(conn) == *old(conn),
        timeline_page(
            old(conn),
            MessageFilter::Public,
            32,
            r,
            "/"@,
            None,
            template_opt(session_user(old(conn), user)),
            Some(false),
            flash_list(flash_messages),
            ""@,
        ),
{
    let user = get_user(conn, user);
    let messages = get_public_messages(conn, 32);
    let ghost seen = messages@;
    let r = timeline_response(
        messages,
        "/",
        None,
        user,
        Some(false),
        flashes_or_default(flash_messages),
        String::from_str(""),
    );
    proof {
        if r is Timeline {
            assert(template_messages_of(seen, r->Timeline_0.messages@));
        } else {
            assert(!row_dates_readable(seen));
        }
    }
    r
}

/// Whether the logged-in user follows the profile user.
pub open spec fn viewer_follows(db: &Database, viewer: Option<Users>, profile: Users) -> bool {
    match viewer {
        Some(v) => follows(db, v.user_id as int, profile.user_id as int),
        None => false,
    }
}

/// `GET /{username}`: the messages of one user.
pub fn user_timeline(
    conn: &mut Database,
    username: &str,
    user: Option<&str>,
    flash_messages: Option<FlashMessages>,
) -> (r: Page<'static>)
    requires
        old(conn).wf(),
        user_with_name(old(conn), username@) is Some ==> identity_readable(user),
    ensures
        *final(conn) == *old(conn),
        match user_with_name(old(conn), username@) {
            Some(p) => timeline_page(
                old(conn),
                MessageFilter::Author(p.user_id),
                30,
                r,
                "user_timeline"@,
                Some(template_of(p)),
                template_opt(session_user(old(conn), user)),
                Some(viewer_follows(old(conn), session_user(old(conn), user), p)),
                flash_list(flash_messages),
                "Timeline"@,
            ),
            None => r is NotFound,
        },
{
    let profile_user = get_user_template_by_name(conn, username);
    if let Some(profile_user) = profile_user {
        let mut followed = false;
        let user = get_user(conn, user);
        if let Some(viewer) = user.clone() {
            followed = is_following(conn, profile_user.user_id, viewer.user_id);
        }
        let rows = get_user_timeline(conn, profile_user.user_id, 30);
        let ghost seen = rows@;
        let r = timeline_response(
            rows,
            "user_timeline",
            Some(profile_user),
            user,
            Some(followed),
            flashes_or_default(flash_messages),
            String::from_str("Timeline"),
        );
        proof {
            if r is Timeline {
                assert(template_messages_of(seen, r->Timeline_0.messages@));
            } else {
                assert(!row_dates_readable(seen));
            }
        }
        r
    } else {
        Page::NotFound
    }
}

/// The id that a readable identity spells.
pub open spec fn identity_id(identity: &str) -> int {
    i64_of_text(identity@).unwrap() as int
}

/// The id of the first user with that name, or -1.
pub open spec fn id_or_missing(db: &Database, username: Seq<char>) -> int {
    match user_with_name(db, username) {
        Some(u) => u.user_id as int,
        None => -1,
    }
}

/// A follow from the logged-in user to the named user can be recorded: the
/// identity is an id that fits the table, and the pair is not recorded yet.
pub open spec fn follow_recordable(db: &Database, user: Option<&str>, username: Seq<char>) -> bool {
    user matches Some(s) ==> {
        &&& i64_of_text(s@) is Some
        &&& i32::MIN <= identity_id(s) <= i32::MAX
        &&& !follows(db, identity_id(s), id_or_missing(db, username))
    }
}

/// `GET /{username}/follow`: the logged-in user starts following the named
/// user (recorded against id -1 where there is no such user).
pub fn follow_user(
    conn: &mut Database,
    session: &mut Option<String>,
    user: Option<&str>,
    path: &str,
) -> (r: Page<'static>)
    requires
        old(conn).wf(),
        follow_recordable(old(conn), user, path@),
    ensures
        final(conn).wf(),
        match user {
            Some(s) => {
                &&& final(conn).followers() == old(conn).followers().push(
                    Followers {
                        who_id: identity_id(s) as i32,
                        whom_id: id_or_missing(old(conn), path@) as i32,
                    },
                )
                &&& final(conn).users() == old(conn).users()
                &&& final(conn).messages() == old(conn).messages()
                &&& *final(session) matches Some(f) && f@ == flash_added(
                    *old(session),
                    "You are now following "@ + path@,
                )
                &&& r matches Page::Found(l) && l@ == "/"@ + path@
            },
            None => {
                &&& *final(conn) == *old(conn)
                &&& *final(session) == *old(session)
                &&& r matches Page::Found(l) && l@ == "User not found"@
            },
        },
{
    if let Some(current_user) = user {
        let target_id = get_user_id(conn, path);
        let current_id = parse_i64(current_user).unwrap();
        follow(conn, current_id as i32, target_id as i32);
        let mut message = String::from_str("You are now following ");
        message.append(path);
        add_flash(session, message.as_str());
    } else {
        return Page::Found(String::from_str("User not found"));
    }
    let mut location = String::from_str("/");
    location.append(path);
    Page::Found(location)
}

/// The identity, where there is one, is an id that fits the tables.
pub open spec fn identity_fits(user: Option<&str>) -> bool {
    user matches Some(s) ==> i64_of_text(s@) is Some && i32::MIN <= identity_id(s) <= i32::MAX
}

/// `GET /{username}/unfollow`: the logged-in user stops following the named
/// user.
pub fn unfollow_user(
    conn: &mut Database,
    session: &mut Option<String>,
    user: Option<&str>,
    path: &str,
) -> (r: Page<'static>)
    requires
        old(conn).wf(),
        identity_fits(user),
    ensures
        final(conn).wf(),
        match user {
            Some(s) => {
                &&& unfollowed(old(conn), final(conn), identity_id(s), id_or_missing(old(conn), path@))
                &&& *final(session) matches Some(f) && f@ == flash_added(
                    *old(session),
                    "You are no longer following "@ + path@,
                )
                &&& r matches Page::Found(l) && l@ == "/"@ + path@
            },
            None => {
                &&& *final(conn) == *old(conn)
                &&& *final(session) == *old(session)
                &&& r matches Page::Found(l) && l@ == "User not found"@
            },
        },
{
    if let Some(current_user) = user {
        let target_id = get_user_id(conn, path);
        let current_id = parse_i64(current_user).unwrap();
        unfollow(conn, current_id as i32, target_id as i32);
        let mut message = String::from_str("You are no longer following ");
        message.append(path);
        add_flash(session, message.as_str());
    } else {
        return Page::Found(String::from_str("User not found"));
    }
    let mut location = String::from_str("/");
    location.append(path);
    Page::Found(location)
}

/// `POST /add_message`: records an unflagged message by the logged-in
/// user, dated `now`.
pub fn add_message(
    conn: &mut Database,
    session: &mut Option<String>,
    user: Option<&str>,
    msg: &MessageInfo,
    now: String,
) -> (r: Page<'static>)
    requires
        old(conn).wf(),
        old(conn).messages().len() < i32::MAX,
        identity_fits(user),
    ensures
        final(conn).wf(),
        match user {
            Some(s) => {
                &&& message_appended(old(conn), final(conn), identity_id(s), msg.text@, now@, 0)
                &&& *final(session) matches Some(f) && f@ == flash_added(
                    *old(session),
                    "Your message was recorded"@,
                )
                &&& r matches Page::Found(l) && l@ == "/"@
            },
            None => {
                &&& *final(conn) == *old(conn)
                &&& *final(session) == *old(session)
                &&& r is Unauthorized
            },
        },
{
    if let Some(user) = user {
        let user_id = parse_i64(user).unwrap() as i32;
        let ghost before = *conn;
        let _ = create_msg(conn, &user_id, msg.text.as_str(), now, &0);
        proof {
            assert(conn.messages().drop_last() =~= before.messages());
        }
        add_flash(session, "Your message was recorded");
        return Page::Found(String::from_str("/"));
    }
    Page::Unauthorized
}

/// `GET /login`: the login form, or a redirect home for a user who is
/// logged in already.
pub fn login(
    session: &mut Option<String>,
    flash_messages: Option<FlashMessages>,
    user: Option<&str>,
) -> (r: Page<'static>)
    ensures
        match user {
            Some(_) => {
                &&& *final(session) matches Some(f) && f@ == flash_added(
                    *old(session),
                    "You are already logged in"@,
                )
                &&& r matches Page::TemporaryRedirect(l) && l@ == "/"@
            },
            None => {
                &&& *final(session) == *old(session)
                &&& r matches Page::Login(t) && t.user is None && t.flashes@ == flash_list(
                    flash_messages,
                ) && t.error@ == ""@ && t.username@ == ""@
            },
        },
{
    if let Some(_) = user {
        add_flash(session, "You are already logged in");
        Page::TemporaryRedirect(String::from_str("/"))
    } else {
        Page::Login(
            LoginTemplate {
                user: None,
                flashes: flashes_or_default(flash_messages),
                error: String::from_str(""),
                username: String::from_str(""),
            },
        )
    }
}

/// `POST /login`: checks the password against the stored hash. Gives the
/// page to answer with and, on success, the identity to log in with: the
/// user's id in decimal.
pub fn post_login(
    conn: &mut Database,
    session: &mut Option<String>,
    info: &LoginInfo,
) -> (r: (Page<'static>, Option<String>))
    requires
        old(conn).wf(),
    ensures
        *final(conn) == *old(conn),
        match user_with_name(old(conn), info.username@) {
            None => {
                &&& r.0 matches Page::Found(l) && l@ == "/login"@
                &&& r.1 is None
                &&& *final(session) matches Some(f) && f@ == flash_added(*old(session), "Invalid username"@)
            },
            Some(u) => if printable_ascii(u.pw_hash@) && bcrypt_accepts(encode_utf8(info.password@), u.pw_hash@) {
                &&& r.0 matches Page::Found(l) && l@ == "/"@
                &&& r.1 matches Some(id) && id@ == int_text(u.user_id as int)
                &&& *final(session) matches Some(f) && f@ == flash_added(*old(session), "You were logged in"@)
            } else {
                &&& r.0 matches Page::Found(l) && l@ == "/login"@
                &&& r.1 is None
                &&& *final(session) matches Some(f) && f@ == flash_added(*old(session), "Invalid password"@)
            },
        },
{
    let result = get_passwd_hash(conn, info.username.as_str());
    if result.is_none() {
        add_flash(session, "Invalid username");
        return (Page::Found(String::from_str("/login")), None);
    }
    if let Some(stored_hash) = result {
        if is_printable_ascii(stored_hash.as_str()) && bcrypt_verify(info.password.as_str(), stored_hash.as_str()) {
            let user_id = get_user_id(conn, info.username.as_str());
            let identity = i64_to_text(user_id);
            add_flash(session, "You were logged in");
            return (Page::Found(String::from_str("/")), Some(identity));
        }
    }
    add_flash(session, "Invalid password");
    (Page::Found(String::from_str("/login")), None)
}

/// `GET /register`: the registration form.
pub fn register(flash_messages: Option<FlashMessages>) -> (r: Page<'static>)
    ensures
        r matches Page::Register(t) && t.flashes@ == flash_list(flash_messages) && t.error@ == ""@
            && t.email@ == ""@ && t.username@ == ""@ && t.password@ == ""@ && t.user is None,
{
    Page::Register(
        RegisterTemplate {
            flashes: flashes_or_default(flash_messages),
            error: String::from_str(""),
            email: String::from_str(""),
            username: String::from_str(""),
            password: String::from_str(""),
            user: None,
        },
    )
}

/// Why the registration form is refused, checked in this order.
pub open spec fn form_register_problem(db: &Database, info: &RegisterInfo) -> Option<RegisterProblem> {
    if info.username@.len() == 0 {
        Some(RegisterProblem::NoUsername)
    } else if info.email@.len() == 0 || !info.email@.contains('@') {
        Some(RegisterProblem::NoEmail)
    } else if info.password@.len() == 0 {
        Some(RegisterProblem::NoPassword)
    } else if info.password@ != info.password2@ {
        Some(RegisterProblem::PasswordsDiffer)
    } else if user_with_name(db, info.username@) is Some {
        Some(RegisterProblem::UsernameTaken)
    } else {
        None
    }
}

/// `POST /register`: adds the user, storing a bcrypt hash of the password,
/// or sends the form back with the reason.
pub fn post_register(
    conn: &mut Database,
    session: &mut Option<String>,
    info: &RegisterInfo,
) -> (r: Page<'static>)
    requires
        old(conn).wf(),
        old(conn).users().len() < i32::MAX,
    ensures
        final(conn).wf(),
        match form_register_problem(old(conn), info) {
            Some(p) => {
                &&& *final(conn) == *old(conn)
                &&& *final(session) matches Some(f) && f@ == flash_added(*old(session), problem_text(p))
                &&& r matches Page::SeeOther(l) && l@ == "/register"@
            },
            None => {
                &&& user_appended(old(conn), final(conn), info.username@, info.email@)
                &&& bcrypt_accepts(encode_utf8(info.password@), final(conn).users().last().pw_hash@)
                &&& bcrypt_shaped(final(conn).users().last().pw_hash@)
                &&& !bcrypt_shaped(info.password@) ==> final(conn).users().last().pw_hash@
                    != info.password@
                &&& *final(session) matches Some(f) && f@ == flash_added(
                    *old(session),
                    "You were successfully registered and can login now"@,
                )
                &&& r matches Page::SeeOther(l) && l@ == "/login"@
            },
        },
{
    let problem = if info.username.as_str().is_empty() {
        Some(RegisterProblem::NoUsername)
    } else if info.email.as_str().is_empty() || !contains_at(info.email.as_str()) {
        Some(RegisterProblem::NoEmail)
    } else if info.password.as_str().is_empty() {
        Some(RegisterProblem::NoPassword)
    } else if info.password != info.password2 {
        Some(RegisterProblem::PasswordsDiffer)
    } else if get_user_id(conn, info.username.as_str()) != -1 {
        Some(RegisterProblem::UsernameTaken)
    } else {
        None
    };
    if let Some(problem) = problem {
        let text = problem.text();
        add_flash(session, text.as_str());
        return Page::SeeOther(String::from_str("/register"));
    }
    let hashed = bcrypt_hash(info.password.as_str());
    store_registration(conn, session, info, hashed)
}

/// Stores a registration form that passed the checks, given what hashing
/// the password gave: the user with that hash and a note to log in, or a
/// server error where hashing failed.
pub fn store_registration(
    conn: &mut Database,
    session: &mut Option<String>,
    info: &RegisterInfo,
    hashed: Result<String, pwhash::error::Error>,
) -> (r: Page<'static>)
    requires
        old(conn).wf(),
        old(conn).users().len() < i32::MAX,
    ensures
        final(conn).wf(),
        match hashed {
            Ok(h) => {
                &&& user_appended(old(conn), final(conn), info.username@, info.email@)
                &&& final(conn).users().last().pw_hash@ == h@
                &&& *final(session) matches Some(f) && f@ == flash_added(
                    *old(session),
                    "You were successfully registered and can login now"@,
                )
                &&& r matches Page::SeeOther(l) && l@ == "/login"@
            },
            Err(_) => {
                &&& *final(conn) == *old(conn)
                &&& *final(session) == *old(session)
                &&& r is ServerError
            },
        },
{
    match hashed {
        Ok(hash) => {
            let ghost before = *conn;
            let _ = create_user(conn, info.username.as_str(), info.email.as_str(), hash.as_str());
            proof {
                assert(conn.users().drop_last() =~= before.users());
            }
            add_flash(session, "You were successfully registered and can login now");
            Page::SeeOther(String::from_str("/login"))
        },
        Err(_) => Page::ServerError,
    }
}

/// `GET /logout`: the page after logging out; the caller drops the
/// identity.
pub fn logout(session: &mut Option<String>) -> (r: Page<'static>)
    ensures
        *final(session) matches Some(f) && f@ == flash_added(*old(session), "You were logged out"@),
        r matches Page::SeeOther(l) && l@ == "/public"@,
{
    add_flash(session, "You were logged out");
    Page::SeeOther(String::from_str("/public"))
}


/// The identity that a login hands out names the user who logged in.
pub proof fn law_login_identity_names_user(db: &Database, u: Users)
    requires
        db.wf(),
        user_with_id(db, u.user_id as int) == Some(u),
    ensures
        user_of_identity(db, int_text(u.user_id as int)) == Some(u),
{
    lemma_int_text_roundtrip(u.user_id as i64);
}

/// A user who has just registered with a name that was free logs in with
/// the same password, and the identity handed out names that user.
pub proof fn law_registered_user_logs_in(
    before: &Database,
    after: &Database,
    name: Seq<char>,
    email: Seq<char>,
    password: Seq<char>,
)
    requires
        before.wf(),
        after.wf(),
        user_with_name(before, name) is None,
        user_appended(before, after, name, email),
        bcrypt_accepts(encode_utf8(password), after.users().last().pw_hash@),
        bcrypt_shaped(after.users().last().pw_hash@),
    ensures
        user_with_name(after, name) == Some(after.users().last()),
        printable_ascii(user_with_name(after, name).unwrap().pw_hash@),
        bcrypt_accepts(encode_utf8(password), user_with_name(after, name).unwrap().pw_hash@),
        user_of_identity(after, int_text(after.users().last().user_id as int)) == Some(
            after.users().last(),
        ),
{
    law_created_user_found(before, after, name, email);
    let u = after.users().last();
    assert(u.user_id == before.users().len() + 1);
    law_login_identity_names_user(after, u);
    lemma_bcrypt_shaped_printable(u.pw_hash@);
}


/// Each message that a timeline page shows carries the text of a message
/// that the page's filter selects and the name of that message's author,
/// the user whose id is the message's `author_id`.
pub proof fn law_page_messages_carry_author_names(
    db: &Database,
    f: MessageFilter,
    limit: int,
    r: Page,
    endpoint: Seq<char>,
    profile_user: Option<User>,
    user: Option<User>,
    followed: Option<bool>,
    flashes: Seq<String>,
    title: Seq<char>,
    i: int,
)
    requires
        timeline_page(db, f, limit, r, endpoint, profile_user, user, followed, flashes, title),
        r is Timeline,
        0 <= i < r->Timeline_0.messages@.len(),
    ensures
        exists|j: int|
            #![trigger db.messages()[j]]
            0 <= j < db.messages().len() && crate::database::selected(db, f, db.messages()[j])
                && db.messages()[j].text@ == r->Timeline_0.messages@[i].text@
                && user_with_id(db, db.messages()[j].author_id as int) is Some
                && r->Timeline_0.messages@[i].username@ == user_with_id(
                db,
                db.messages()[j].author_id as int,
            ).unwrap().username@,
{
    let t = r->Timeline_0;
    let rows = choose|rows: Seq<(MessageRow, Users)>|
        newest_rows(db, f, limit, rows) && #[trigger] template_messages_of(rows, t.messages@);
    assert(newest_rows(db, f, limit, rows));
    assert(template_message_of(rows[i], t.messages@[i]));
    let j = rows[i].0.message_id as int - 1;
    assert(rows[i] == row(db, db.messages()[j]));
    assert(db.messages()[j].text@ == t.messages@[i].text@);
}

/// With a name, an email with '@', a password and the same password again
/// given, the registration form is refused as taken exactly when some user
/// already has that very name, and accepted otherwise.
pub proof fn law_form_register_taken_iff_name_stored(db: &Database, info: &RegisterInfo)
    requires
        info.username@.len() > 0,
        info.email@.len() > 0,
        info.email@.contains('@'),
        info.password@.len() > 0,
        info.password@ == info.password2@,
    ensures
        form_register_problem(db, info) == Some(RegisterProblem::UsernameTaken) <==> exists|k: int|
            0 <= k < db.users().len() && (#[trigger] db.users()[k]).username@ == info.username@,
        (forall|k: int| 0 <= k < db.users().len() ==> (#[trigger] db.users()[k]).username@ != info.username@)
            ==> form_register_problem(db, info) is None,
{
    let name = info.username@;
    if exists|k: int| 0 <= k < db.users().len() && (#[trigger] db.users()[k]).username@ == name {
        let k = choose|k: int| 0 <= k < db.users().len() && (#[trigger] db.users()[k]).username@ == name;
        lemma_some_first_named(db, k, name);
    }
    if user_with_name(db, name) is Some {
        let i = choose|i: int| first_named(db, i, name);
        assert(db.users()[i].username@ == name);
    }
}

/// Once a user called `name` is stored, a registration form with that name
/// and the other fields filled in is refused because the name is taken.
pub proof fn law_form_registration_of_stored_name_refused(
    before: &Database,
    after: &Database,
    name: Seq<char>,
    email: Seq<char>,
    info: &RegisterInfo,
)
    requires
        user_appended(before, after, name, email),
        info.username@ == name,
        name.len() > 0,
        info.email@.len() > 0,
        info.email@.contains('@'),
        info.password@.len() > 0,
        info.password@ == info.password2@,
    ensures
        form_register_problem(after, info) == Some(RegisterProblem::UsernameTaken),
{
    let n = before.users().len() as int;
    assert(after.users()[n] == after.users().last());
    law_form_register_taken_iff_name_stored(after, info);
}

/// The follow and unfollow pages look up the user whose name is exactly the
/// one in the path: the first such user's id.
pub proof fn law_id_or_missing_names_exact_user(db: &Database, name: Seq<char>, k: int)
    requires
        0 <= k < db.users().len(),
        db.users()[k].username@ == name,
        forall|j: int| 0 <= j < k ==> (#[trigger] db.users()[j]).username@ != name,
    ensures
        id_or_missing(db, name) == db.users()[k].user_id as int,
{
    assert(first_named(db, k, name));
    let c = choose|i: int| first_named(db, i, name);
    lemma_first_named_unique(db, c, k, name);
}

/// Where no user has exactly the name in the path, the follow and unfollow
/// pages look up -1.
pub proof fn law_id_or_missing_unknown_name(db: &Database, name: Seq<char>)
    requires
        forall|j: int| 0 <= j < db.users().len() ==> (#[trigger] db.users()[j]).username@ != name,
    ensures
        id_or_missing(db, name) == -1,
{
    if user_with_name(db, name) is Some {
        let i = choose|i: int| first_named(db, i, name);
        assert(db.users()[i].username@ == name);
    }
}

/// Following through the page by the exact name of a user records that the
/// logged-in user follows that user.
pub proof fn law_follow_page_follows_named_user(
    before: &Database,
    after: &Database,
    identity: &str,
    name: Seq<char>,
    k: int,
)
    requires
        i32::MIN <= identity_id(identity) <= i32::MAX,
        0 <= k < before.users().len(),
        before.users()[k].username@ == name,
        forall|j: int| 0 <= j < k ==> (#[trigger] before.users()[j]).username@ != name,
        after.followers() == before.followers().push(
            Followers { who_id: identity_id(identity) as i32, whom_id: id_or_missing(before, name) as i32 },
        ),
    ensures
        follows(after, identity_id(identity), before.users()[k].user_id as int),
{
    law_id_or_missing_names_exact_user(before, name, k);
    law_follow_then_following(
        before,
        after,
        identity_id(identity) as i32,
        id_or_missing(before, name) as i32,
    );
}

/// Unfollowing through the page by the exact name of a user ends the
/// logged-in user's following of that user.
pub proof fn law_unfollow_page_ends_following_named_user(
    before: &Database,
    after: &Database,
    identity: &str,
    name: Seq<char>,
    k: int,
)
    requires
        before.wf(),
        0 <= k < before.users().len(),
        before.users()[k].username@ == name,
        forall|j: int| 0 <= j < k ==> (#[trigger] before.users()[j]).username@ != name,
        unfollowed(before, after, identity_id(identity), id_or_missing(before, name)),
    ensures
        !follows(after, identity_id(identity), before.users()[k].user_id as int),
{
    law_id_or_missing_names_exact_user(before, name, k);
    law_unfollow_then_not_following(before, after, identity_id(identity), id_or_missing(before, name));
}

/// A page shows a user with that user's own id, name and email.
pub proof fn law_template_of_copies_user(u: Users)
    ensures
        template_of(u).user_id == u.user_id,
        template_of(u).username@ == u.username@,
        template_of(u).email@ == u.email@,
{
}

/// A profile page says that the viewer follows the profile user exactly
/// when a `followers` row has the viewer as `who_id` and the profile user
/// as `whom_id`; a visitor who is not logged in follows no one.
pub proof fn law_viewer_follows_reads_followers(db: &Database, viewer: Option<Users>, profile: Users)
    ensures
        viewer is None ==> !viewer_follows(db, viewer, profile),
        viewer is Some ==> (viewer_follows(db, viewer, profile) <==> exists|k: int|
            0 <= k < db.followers().len() && (#[trigger] db.followers()[k]).who_id == viewer->0.user_id
                && db.followers()[k].whom_id == profile.user_id),
{
}

} // verus!
