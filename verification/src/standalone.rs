//! The stand-alone server that answers both the pages and the API from one
//! listening address, with its own store: its queries and checks differ from those of
//! the two servers in places, as noted on each function.
use vstd::prelude::*;
use vstd::utf8::encode_utf8;
use crate::database::{
    Database, MessageFilter, user_with_name, follows, message_appended,
    unfollowed, create_msg, get_user_by_name, get_passwd_hash, follow, unfollow,
    is_following, newest_matching,
};
use crate::models::Followers;
use crate::frontend::client::{
    Page, timeline_page, template_opt, template_of, session_user, user_of_identity, get_user_template,
    viewer_follows, identity_id, identity_fits, timeline_response, template_messages_of, row_dates_readable,
};
use crate::frontend::template_structs::{User, LoginTemplate, RegisterTemplate, MessageInfo, LoginInfo};
use crate::api::api_structs::{LatestAction, Latest, MessageAmount, RegisterInfo, RegisterError, MessageContent};
use crate::api::api_server::{
    ApiResponse, api_register_problem, update_latest, registered, store_registration, shows_messages, api_messages_of, dates_readable,
    messages_response,
};
use crate::validation::{RegisterProblem, problem_text};
use crate::text::{int_text, i64_to_text, parse_i64, printable_ascii, is_printable_ascii};
use crate::wrappers::{bcrypt_hash, bcrypt_verify, bcrypt_accepts};

verus! {

/// How a flash note is shown.
#[derive(Clone, Copy, PartialEq, Eq, Structural)]
pub enum FlashLevel {
    Info,
    Error,
}

/// A flash note to send with the answer.
pub struct FlashNote {
    pub level: FlashLevel,
    pub content: String,
}

/// `after` is `before` with one more note of the given level and text.
pub open spec fn noted(before: Seq<FlashNote>, after: Seq<FlashNote>, level: FlashLevel, text: Seq<char>) -> bool {
    &&& after.len() == before.len() + 1
    &&& after.drop_last() == before
    &&& after.last().level == level
    &&& after.last().content@ == text
}

fn note(outbox: &mut Vec<FlashNote>, level: FlashLevel, text: &str)
    ensures
        noted(old(outbox)@, final(outbox)@, level, text@),
{
    let ghost before = outbox@;
    outbox.push(FlashNote { level, content: text.to_owned() });
    proof {
        assert(outbox@.drop_last() =~= before);
    }
}

/// Where the store lives on disk.
pub fn get_database_string() -> (r: String)
    ensures
        r@ == "/tmp/mini-x_api.db"@,
{
    String::from_str("/tmp/mini-x_api.db")
}

/// The id of the first user with that name; there must be one.
pub fn get_user_id(conn: &mut Database, username: &str) -> (r: i32)
    requires
        old(conn).wf(),
        user_with_name(old(conn), username@) is Some,
    ensures
        *final(conn) == *old(conn),
        r == user_with_name(old(conn), username@).unwrap().user_id,
{
    get_user_by_name(conn, username).unwrap().user_id
}

/// The identity, where there is one, names a user.
pub open spec fn identity_known(db: &Database, user: Option<&str>) -> bool {
    user matches Some(s) ==> user_of_identity(db, s@) is Some
}

/// The user logged in with the given identity; the identity must name one.
pub fn get_user(conn: &mut Database, user_option: Option<&str>) -> (r: Option<User>)
    requires
        old(conn).wf(),
        identity_known(old(conn), user_option),
    ensures
        *final(conn) == *old(conn),
        r == template_opt(session_user(old(conn), user_option)),
        r is Some <==> user_option is Some,
{
    if let Some(user) = user_option {
        let user_id = parse_i64(user).unwrap();
        get_user_template(conn, user_id)
    } else {
        None
    }
}

/// `GET /`: the logged-in user's timeline, unflagged messages only.
pub fn timeline(conn: &mut Database, flashes: Vec<String>, user: Option<&str>) -> (r: Page<'static>)
    requires
        old(conn).wf(),
        identity_known(old(conn), user),
    ensures
        *final(conn) == *old(conn),
        match session_user(old(conn), user) {
            Some(u) => timeline_page(
                old(conn),
                MessageFilter::Timeline(u.user_id),
                32,
                r,
                "timeline"@,
                None,
                Some(template_of(u)),
                Some(false),
                flashes@,
                "Timeline"@,
            ),
            None => r matches Page::TemporaryRedirect(l) && l@ == "/public"@,
        },
{
    if let Some(user) = get_user(conn, user) {
        let rows = newest_matching(conn, MessageFilter::Timeline(user.user_id), 32);
        let ghost seen = rows@;
        let r = timeline_response(rows, "timeline", None, Some(user), Some(false), flashes, String::from_str("Timeline"));
        proof {
            if r is Timeline {
                assert(template_messages_of(seen, r->Timeline_0.messages@));
            } else {
                assert(!row_dates_readable(seen));
            }
        }
        r
    } else {
        Page::TemporaryRedirect(String::from_str("/public"))
    }
}

/// `GET /public`: the newest public messages.
pub fn public_timeline(conn: &mut Database, flashes: Vec<String>, user: Option<&str>) -> (r: Page<'static>)
    requires
        old(conn).wf(),
        identity_known(old(conn), user),
    ensures
        *final(conn) == *old(conn),
        timeline_page(
            old(conn),
            MessageFilter::Public,
            32,
            r,
            "/"@,
            None,
            template_opt(session_user(old(conn), user)),
            Some(false),
            flashes@,
            ""@,
        ),
{
    let user = get_user(conn, user);
    let rows = newest_matching(conn, MessageFilter::Public, 32);
    let ghost seen = rows@;
    let r = timeline_response(rows, "/", None, user, Some(false), flashes, String::from_str(""));
    proof {
        if r is Timeline {
            assert(template_messages_of(seen, r->Timeline_0.messages@));
        } else {
            assert(!row_dates_readable(seen));
        }
    }
    r
}

/// `GET /{username}`: the messages of one user, flagged ones included.
pub fn user_timeline(
    conn: &mut Database,
    username: &str,
    user: Option<&str>,
    flashes: Vec<String>,
) -> (r: Page<'static>)
    requires
        old(conn).wf(),
        user_with_name(old(conn), username@) is Some ==> identity_known(old(conn), user),
    ensures
        *final(conn) == *old(conn),
        match user_with_name(old(conn), username@) {
            Some(p) => timeline_page(
                old(conn),
                MessageFilter::AuthorAll(p.user_id),
                30,
                r,
                "user_timeline"@,
                Some(template_of(p)),
                template_opt(session_user(old(conn), user)),
                Some(viewer_follows(old(conn), session_user(old(conn), user), p)),
                flashes@,
                "Timeline"@,
            ),
            None => r is NotFound,
        },
{
    match get_user_by_name(conn, username) {
        Some(found) => {
            let profile_user = User { user_id: found.user_id, username: found.username, email: found.email };
            let mut followed = false;
            let user = get_user(conn, user);
            if let Some(viewer) = user.clone() {
                followed = is_following(conn, profile_user.user_id, viewer.user_id);
            }
            let rows = newest_matching(conn, MessageFilter::AuthorAll(profile_user.user_id), 30);
            let ghost seen = rows@;
            let r = timeline_response(
                rows,
                "user_timeline",
                Some(profile_user),
                user,
                Some(followed),
                flashes,
                String::from_str("Timeline"),
            );
            proof {
                if r is Timeline {
                    assert(template_messages_of(seen, r->Timeline_0.messages@));
                } else {
                    assert(!row_dates_readable(seen));
                }
            }
            r
        },
        None => Page::NotFound,
    }
}

/// `GET /{username}/follow`: the logged-in user follows the named user,
/// who must exist. The pair is recorded once, however often it is asked
/// for.
pub fn follow_user(conn: &mut Database, user: Option<&str>, path: &str) -> (r: Page<'static>)
    requires
        old(conn).wf(),
        identity_fits(user),
        user is Some ==> user_with_name(old(conn), path@) is Some,
    ensures
        final(conn).wf(),
        match user {
            Some(s) => {
                let whom = user_with_name(old(conn), path@).unwrap().user_id;
                &&& if follows(old(conn), identity_id(s), whom as int) {
                    *final(conn) == *old(conn)
                } else {
                    &&& final(conn).followers() == old(conn).followers().push(
                        Followers { who_id: identity_id(s) as i32, whom_id: whom },
                    )
                    &&& final(conn).users() == old(conn).users()
                    &&& final(conn).messages() == old(conn).messages()
                }
                &&& r matches Page::Found(l) && l@ == "/"@ + path@
            },
            None => {
                &&& *final(conn) == *old(conn)
                &&& r matches Page::Found(l) && l@ == "User not found"@
            },
        },
{
    if let Some(current_user) = user {
        let target_id = get_user_id(conn, path);
        let current_id = parse_i64(current_user).unwrap() as i32;
        if !is_following(conn, target_id, current_id) {
            follow(conn, current_id, target_id);
        }
    } else {
        return Page::Found(String::from_str("User not found"));
    }
    let mut location = String::from_str("/");
    location.append(path);
    Page::Found(location)
}

/// `GET /{username}/unfollow`: the logged-in user stops following the named
/// user, who must exist.
pub fn unfollow_user(conn: &mut Database, user: Option<&str>, path: &str) -> (r: Page<'static>)
    requires
        old(conn).wf(),
        identity_fits(user),
        user is Some ==> user_with_name(old(conn), path@) is Some,
    ensures
        final(conn).wf(),
        match user {
            Some(s) => {
                &&& unfollowed(
                    old(conn),
                    final(conn),
                    identity_id(s),
                    user_with_name(old(conn), path@).unwrap().user_id as int,
                )
                &&& r matches Page::Found(l) && l@ == "/"@ + path@
            },
            None => {
                &&& *final(conn) == *old(conn)
                &&& r matches Page::Found(l) && l@ == "User not found"@
            },
        },
{
    if let Some(current_user) = user {
        let target_id = get_user_id(conn, path);
        let current_id = parse_i64(current_user).unwrap() as i32;
        unfollow(conn, current_id, target_id);
    } else {
        return Page::Found(String::from_str("User not found"));
    }
    let mut location = String::from_str("/");
    location.append(path);
    Page::Found(location)
}

/// `POST /add_message`: records an unflagged message by the logged-in
/// user, dated `now`.
pub fn add_message(
    conn: &mut Database,
    outbox: &mut Vec<FlashNote>,
    user: Option<&str>,
    msg: &MessageInfo,
    now: String,
) -> (r: Page<'static>)
    requires
        old(conn).wf(),
        old(conn).messages().len() < i32::MAX,
        identity_fits(user),
    ensures
        final(conn).wf(),
        match user {
            Some(s) => {
                &&& message_appended(old(conn), final(conn), identity_id(s), msg.text@, now@, 0)
                &&& noted(old(outbox)@, final(outbox)@, FlashLevel::Info, "Your message was recorded"@)
                &&& r matches Page::Found(l) && l@ == "/"@
            },
            None => {
                &&& *final(conn) == *old(conn)
                &&& final(outbox)@ == old(outbox)@
                &&& r is Unauthorized
            },
        },
{
    if let Some(user) = user {
        let user_id = parse_i64(user).unwrap() as i32;
        let ghost before = *conn;
        let _ = create_msg(conn, &user_id, msg.text.as_str(), now, &0);
        proof {
            assert(conn.messages().drop_last() =~= before.messages());
        }
        note(outbox, FlashLevel::Info, "Your message was recorded");
        return Page::Found(String::from_str("/"));
    }
    Page::Unauthorized
}

/// `GET /login`: the login form, or a redirect home for a user who is
/// logged in already.
pub fn login(outbox: &mut Vec<FlashNote>, flashes: Vec<String>, user: Option<&str>) -> (r: Page<'static>)
    ensures
        match user {
            Some(_) => {
                &&& noted(old(outbox)@, final(outbox)@, FlashLevel::Info, "You are already logged in"@)
                &&& r matches Page::TemporaryRedirect(l) && l@ == "/"@
            },
            None => {
                &&& final(outbox)@ == old(outbox)@
                &&& r matches Page::Login(t) && t.user is None && t.flashes@ == flashes@ && t.error@
                    == ""@ && t.username@ == ""@
            },
        },
{
    if let Some(_) = user {
        note(outbox, FlashLevel::Info, "You are already logged in");
        Page::TemporaryRedirect(String::from_str("/"))
    } else {
        Page::Login(
            LoginTemplate {
                user: None,
                flashes,
                error: String::from_str(""),
                username: String::from_str(""),
            },
        )
    }
}

/// `POST /login`: checks the password against the stored hash; gives the
/// page and, on success, the identity to log in with.
pub fn post_login(
    conn: &mut Database,
    outbox: &mut Vec<FlashNote>,
    info: &LoginInfo,
) -> (r: (Page<'static>, Option<String>))
    requires
        old(conn).wf(),
    ensures
        *final(conn) == *old(conn),
        match user_with_name(old(conn), info.username@) {
            Some(u) if printable_ascii(u.pw_hash@) && bcrypt_accepts(encode_utf8(info.password@), u.pw_hash@) => {
                &&& r.0 matches Page::SeeOther(l) && l@ == "/"@
                &&& r.1 matches Some(id) && id@ == int_text(u.user_id as int)
                &&& noted(old(outbox)@, final(outbox)@, FlashLevel::Info, "You were logged in"@)
            },
            _ => {
                &&& r.0 matches Page::SeeOther(l) && l@ == "/login"@
                &&& r.1 is None
                &&& noted(old(outbox)@, final(outbox)@, FlashLevel::Error, "Invalid username or password"@)
            },
        },
{
    let result = get_passwd_hash(conn, info.username.as_str());
    if let Some(stored_hash) = result {
        if is_printable_ascii(stored_hash.as_str()) && bcrypt_verify(info.password.as_str(), stored_hash.as_str()) {
            let user_id = get_user_id(conn, info.username.as_str());
            let identity = i64_to_text(user_id as i64);
            note(outbox, FlashLevel::Info, "You were logged in");
            return (Page::SeeOther(String::from_str("/")), Some(identity));
        }
    }
    note(outbox, FlashLevel::Error, "Invalid username or password");
    (Page::SeeOther(String::from_str("/login")), None)
}

/// `GET /register`: the registration form, without notes.
pub fn register() -> (r: Page<'static>)
    ensures
        r matches Page::Register(t) && t.flashes@ == Seq::<String>::empty() && t.error@ == ""@
            && t.email@ == ""@ && t.username@ == ""@ && t.password@ == ""@ && t.user is None,
{
    Page::Register(
        RegisterTemplate {
            flashes: Vec::new(),
            error: String::from_str(""),
            email: String::from_str(""),
            username: String::from_str(""),
            password: String::from_str(""),
            user: None,
        },
    )
}

/// `POST /register`: adds the user, storing a bcrypt hash of the password,
/// or says why not; a refused registration stores nothing.
pub fn post_register(
    conn: &mut Database,
    latest_action: &mut LatestAction,
    info: &RegisterInfo,
    query: &Latest,
) -> (r: ApiResponse)
    requires
        old(conn).wf(),
        old(conn).users().len() < i32::MAX,
    ensures
        final(conn).wf(),
        final(latest_action).latest == query.latest,
        match api_register_problem(old(conn), info) {
            Some(p) => r matches ApiResponse::RegisterRejected(e) && e.status == 400
                && e.error_msg@ == problem_text(p) && *final(conn) == *old(conn),
            None => registered(old(conn), final(conn), info, r),
        },
{
    update_latest(latest_action, query);
    let user_exists = get_user_by_name(conn, info.username.as_str()).is_some();
    let error = if info.username.as_str().is_empty() {
        Some(RegisterProblem::NoUsername)
    } else if info.email.as_str().is_empty() {
        Some(RegisterProblem::NoEmail)
    } else if info.pwd.as_str().is_empty() {
        Some(RegisterProblem::NoPassword)
    } else if user_exists {
        Some(RegisterProblem::UsernameTaken)
    } else {
        None
    };
    match error {
        Some(problem) => ApiResponse::RegisterRejected(RegisterError { status: 400, error_msg: problem.text() }),
        None => {
            let hashed = bcrypt_hash(info.pwd.as_str());
            store_registration(conn, info, hashed)
        },
    }
}

/// The row limit that a `no` value gives: a negative one sets no limit.
pub open spec fn row_limit(no: i32) -> int {
    if no < 0 {
        i32::MAX as int
    } else {
        no as int
    }
}

fn limit_of(no: i32) -> (r: i32)
    ensures
        r >= 0,
        r == row_limit(no),
{
    if no < 0 {
        i32::MAX
    } else {
        no
    }
}

/// `GET /msgs`: the newest public messages, `no` of them.
pub fn messages_api(
    conn: &mut Database,
    latest_action: &mut LatestAction,
    amount: &MessageAmount,
    query: &Latest,
) -> (r: ApiResponse)
    requires
        old(conn).wf(),
    ensures
        *final(conn) == *old(conn),
        final(latest_action).latest == query.latest,
        shows_messages(old(conn), MessageFilter::Public, row_limit(amount.no), r),
{
    update_latest(latest_action, query);
    let rows = newest_matching(conn, MessageFilter::Public, limit_of(amount.no));
    let ghost seen = rows@;
    let r = messages_response(rows);
    proof {
        if r is Messages {
            assert(api_messages_of(seen, r->Messages_0@));
        } else {
            assert(!dates_readable(seen));
        }
    }
    r
}

/// `GET /msgs/{username}`: the newest unflagged messages of the user, who
/// must exist.
pub fn messages_per_user_get(
    conn: &mut Database,
    latest_action: &mut LatestAction,
    username: &str,
    amount: &MessageAmount,
    query: &Latest,
) -> (r: ApiResponse)
    requires
        old(conn).wf(),
        user_with_name(old(conn), username@) is Some,
    ensures
        *final(conn) == *old(conn),
        final(latest_action).latest == query.latest,
        shows_messages(
            old(conn),
            MessageFilter::Author(user_with_name(old(conn), username@).unwrap().user_id),
            row_limit(amount.no),
            r,
        ),
{
    update_latest(latest_action, query);
    let user_id = get_user_id(conn, username);
    let rows = newest_matching(conn, MessageFilter::Author(user_id), limit_of(amount.no));
    let ghost seen = rows@;
    let r = messages_response(rows);
    proof {
        if r is Messages {
            assert(api_messages_of(seen, r->Messages_0@));
        } else {
            assert(!dates_readable(seen));
        }
    }
    r
}

/// `POST /msgs/{username}`: adds an unflagged message by the user, who must
/// exist, dated `now`.
pub fn messages_per_user_post(
    conn: &mut Database,
    latest_action: &mut LatestAction,
    username: &str,
    msg: &MessageContent,
    query: &Latest,
    now: String,
) -> (r: ApiResponse)
    requires
        old(conn).wf(),
        old(conn).messages().len() < i32::MAX,
        user_with_name(old(conn), username@) is Some,
    ensures
        final(conn).wf(),
        final(latest_action).latest == query.latest,
        r is NoContent,
        message_appended(
            old(conn),
            final(conn),
            user_with_name(old(conn), username@).unwrap().user_id as int,
            msg.content@,
            now@,
            0,
        ),
{
    update_latest(latest_action, query);
    let user_id = get_user_id(conn, username);
    let ghost before = *conn;
    let _ = create_msg(conn, &user_id, msg.content.as_str(), now, &0);
    proof {
        assert(conn.messages().drop_last() =~= before.messages());
    }
    ApiResponse::NoContent
}

/// `GET /logout`: the page after logging out; the caller drops the
/// identity.
pub fn logout(outbox: &mut Vec<FlashNote>) -> (r: Page<'static>)
    ensures
        noted(old(outbox)@, final(outbox)@, FlashLevel::Info, "You were logged out"@),
        r matches Page::SeeOther(l) && l@ == "/public"@,
{
    note(outbox, FlashLevel::Info, "You were logged out");
    Page::SeeOther(String::from_str("/public"))
}

} // verus!
