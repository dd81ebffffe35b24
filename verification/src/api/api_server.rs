//! What the API answers each request with, and what each request changes.
use vstd::prelude::*;
use vstd::utf8::encode_utf8;
use crate::database::{
    Database, MessageFilter, user_with_name, user_with_id, newest_rows, followed_users, first_n, follows,
    first_named, row, selected, lemma_some_first_named,
    user_appended, message_appended, unfollowed, create_user, create_msg, get_user_by_name,
    get_public_messages, get_user_timeline, get_followers, follow, unfollow,
};
use crate::models::{Messages, Users, Followers};
use crate::api::api_structs::{
    LatestAction, Latest, MessageAmount, RegisterInfo, RegisterError, Message, MessageContent,
    Follows, FollowParam,
};
use crate::validation::{RegisterProblem, problem_text};
use crate::flash_messages::views;
use crate::wrappers::{bcrypt_hash, bcrypt_accepts, bcrypt_shaped, parse_rfc3339, rfc3339_instant};

verus! {

/// The answer to an API request.
pub enum ApiResponse {
    /// 200 with the latest value.
    Latest(Latest),
    /// 200 with a list of messages.
    Messages(Vec<Message>),
    /// 200 with the users that a user follows.
    Follows(Follows),
    /// 204.
    NoContent,
    /// 400 with the reason a registration was refused.
    RegisterRejected(RegisterError),
    /// 400 without a body.
    BadRequest,
    /// 404.
    NotFound,
    /// 500: a stored date that is not RFC 3339, or a password that could
    /// not be hashed.
    ServerError,
}

/// The id of the first user with that name.
pub fn get_user_id(conn: &mut Database, username: &str) -> (r: Option<i32>)
    requires
        old(conn).wf(),
    ensures
        *final(conn) == *old(conn),
        r == match user_with_name(old(conn), username@) {
            Some(u) => Some(u.user_id),
            None => None::<i32>,
        },
{
    match get_user_by_name(conn, username) {
        Some(user) => Some(user.user_id),
        None => None,
    }
}

/// Records the `latest` value of a request.
pub fn update_latest(latest_action: &mut LatestAction, query: &Latest)
    ensures
        final(latest_action).latest == query.latest,
{
    latest_action.latest = query.latest;
}

/// `GET /latest`: the last recorded `latest` value.
pub fn get_latest(latest_action: &LatestAction) -> (r: Latest)
    ensures
        r.latest == latest_action.latest,
{
    Latest { latest: latest_action.latest }
}

/// Why the API refuses a registration, checked in this order.
pub open spec fn api_register_problem(db: &Database, info: &RegisterInfo) -> Option<RegisterProblem> {
    if info.username@.len() == 0 {
        Some(RegisterProblem::NoUsername)
    } else if info.email@.len() == 0 {
        Some(RegisterProblem::NoEmail)
    } else if info.pwd@.len() == 0 {
        Some(RegisterProblem::NoPassword)
    } else if user_with_name(db, info.username@) is Some {
        Some(RegisterProblem::UsernameTaken)
    } else {
        None
    }
}

/// A registration that passed the checks: the answer is 204 and the user
/// was added with a bcrypt hash that the password verifies against, which
/// is not the password itself unless the password has the very form of a
/// bcrypt hash.
pub open spec fn registered(before: &Database, after: &Database, info: &RegisterInfo, r: ApiResponse) -> bool {
    &&& r is NoContent
    &&& user_appended(before, after, info.username@, info.email@)
    &&& bcrypt_accepts(encode_utf8(info.pwd@), after.users().last().pw_hash@)
    &&& bcrypt_shaped(after.users().last().pw_hash@)
    &&& !bcrypt_shaped(info.pwd@) ==> after.users().last().pw_hash@ != info.pwd@
}

/// `POST /register`: adds the user, storing a bcrypt hash of the password,
/// or says why not.
pub fn post_register(
    conn: &mut Database,
    latest_action: &mut LatestAction,
    info: &RegisterInfo,
    query: &Latest,
) -> (r: ApiResponse)
    requires
        old(conn).wf(),
        old(conn).users().len() < i32::MAX,
    ensures
        final(conn).wf(),
        final(latest_action).latest == query.latest,
        match api_register_problem(old(conn), info) {
            Some(p) => r matches ApiResponse::RegisterRejected(e) && e.status == 400
                && e.error_msg@ == problem_text(p) && *final(conn) == *old(conn),
            None => registered(old(conn), final(conn), info, r),
        },
{
    update_latest(latest_action, query);
    let user_exists = get_user_id(conn, info.username.as_str());
    let error = if info.username.as_str().is_empty() {
        Some(RegisterProblem::NoUsername)
    } else if info.email.as_str().is_empty() {
        Some(RegisterProblem::NoEmail)
    } else if info.pwd.as_str().is_empty() {
        Some(RegisterProblem::NoPassword)
    } else if user_exists.is_some() {
        Some(RegisterProblem::UsernameTaken)
    } else {
        None
    };
    match error {
        Some(problem) => {
            let reg_err = RegisterError { status: 400, error_msg: problem.text() };
            ApiResponse::RegisterRejected(reg_err)
        },
        None => {
            let hashed = bcrypt_hash(info.pwd.as_str());
            store_registration(conn, info, hashed)
        },
    }
}

/// Stores a registration that passed the checks, given what hashing the
/// password gave: the user with that hash, or a server error where hashing
/// failed.
pub fn store_registration(
    conn: &mut Database,
    info: &RegisterInfo,
    hashed: Result<String, pwhash::error::Error>,
) -> (r: ApiResponse)
    requires
        old(conn).wf(),
        old(conn).users().len() < i32::MAX,
    ensures
        final(conn).wf(),
        match hashed {
            Ok(h) => r is NoContent && user_appended(old(conn), final(conn), info.username@, info.email@)
                && final(conn).users().last().pw_hash@ == h@,
            Err(_) => r is ServerError && *final(conn) == *old(conn),
        },
{
    match hashed {
        Ok(hash) => {
            let ghost before = *conn;
            let _ = create_user(conn, info.username.as_str(), info.email.as_str(), hash.as_str());
            proof {
                assert(conn.users().drop_last() =~= before.users());
            }
            ApiResponse::NoContent
        },
        Err(_) => ApiResponse::ServerError,
    }
}

/// The API's view of a message row.
pub open spec fn api_message_of(row: (Messages, Users), m: Message) -> bool {
    &&& m.content@ == row.0.text@
    &&& m.user@ == row.1.username@
    &&& rfc3339_instant(row.0.pub_date@) matches Some(t) && t.0 == m.pub_date
}

/// `v` is the API's view of `rows`, in the same order.
pub open spec fn api_messages_of(rows: Seq<(Messages, Users)>, v: Seq<Message>) -> bool {
    &&& v.len() == rows.len()
    &&& forall|i: int| 0 <= i < rows.len() ==> api_message_of(#[trigger] rows[i], v[i])
}

/// Every row's date is one that chrono reads as RFC 3339.
pub open spec fn dates_readable(rows: Seq<(Messages, Users)>) -> bool {
    forall|i: int| 0 <= i < rows.len() ==> (rfc3339_instant(#[trigger] rows[i].0.pub_date@) is Some)
}

/// The rows as the API shows them, or `None` where a row's date is not one
/// that chrono reads.
pub fn to_api_messages(rows: Vec<(Messages, Users)>) -> (r: Option<Vec<Message>>)
    ensures
        match r {
            Some(v) => api_messages_of(rows@, v@),
            None => !dates_readable(rows@),
        },
{
    let mut out: Vec<Message> = Vec::new();
    let mut i: usize = 0;
    while i < rows.len()
        invariant
            i <= rows@.len(),
            out@.len() == i,
            forall|k: int| 0 <= k < i ==> api_message_of(#[trigger] rows@[k], out@[k]),
        decreases rows@.len() - i,
    {
        let (msg, user) = &rows[i];
        match parse_rfc3339(msg.pub_date.as_str()) {
            Some((seconds, _)) => {
                out.push(Message { content: msg.text.clone(), user: user.username.clone(), pub_date: seconds });
            },
            None => {
                return None;
            },
        }
        i = i + 1;
    }
    Some(out)
}

/// The answer for a list of message rows.
pub(crate) fn messages_response(rows: Vec<(Messages, Users)>) -> (r: ApiResponse)
    ensures
        r is Messages || r is ServerError,
        r matches ApiResponse::Messages(v) ==> api_messages_of(rows@, v@),
        r is ServerError ==> !dates_readable(rows@),
{
    match to_api_messages(rows) {
        Some(v) => ApiResponse::Messages(v),
        None => ApiResponse::ServerError,
    }
}

/// The answer shows the newest `limit` messages that `f` selects, or is a
/// server error because one of them has a date that chrono cannot read.
pub open spec fn shows_messages(db: &Database, f: MessageFilter, limit: int, r: ApiResponse) -> bool {
    &&& r is Messages || r is ServerError
    &&& r matches ApiResponse::Messages(v) ==> exists|rows: Seq<(Messages, Users)>|
        newest_rows(db, f, limit, rows) && #[trigger] api_messages_of(rows, v@)
    &&& r is ServerError ==> exists|rows: Seq<(Messages, Users)>|
        newest_rows(db, f, limit, rows) && !#[trigger] dates_readable(rows)
}

/// `GET /msgs`: the newest `no` public messages.
pub fn messages_api(
    conn: &mut Database,
    latest_action: &mut LatestAction,
    amount: &MessageAmount,
    query: &Latest,
) -> (r: ApiResponse)
    requires
        old(conn).wf(),
        amount.no >= 0,
    ensures
        *final(conn) == *old(conn),
        final(latest_action).latest == query.latest,
        shows_messages(old(conn), MessageFilter::Public, amount.no as int, r),
{
    update_latest(latest_action, query);
    let rows = get_public_messages(conn, amount.no);
    let ghost seen = rows@;
    let r = messages_response(rows);
    proof {
        if r is Messages {
            let v = r->Messages_0;
            assert(api_messages_of(seen, v@));
        } else {
            assert(!dates_readable(seen));
        }
    }
    r
}

/// `GET /msgs/{username}`: the newest `no` unflagged messages of the user.
pub fn messages_per_user_get(
    conn: &mut Database,
    latest_action: &mut LatestAction,
    username: &str,
    amount: &MessageAmount,
    query: &Latest,
) -> (r: ApiResponse)
    requires
        old(conn).wf(),
        user_with_name(old(conn), username@) is Some ==> amount.no >= 0,
    ensures
        *final(conn) == *old(conn),
        final(latest_action).latest == query.latest,
        match user_with_name(old(conn), username@) {
            Some(u) => shows_messages(old(conn), MessageFilter::Author(u.user_id), amount.no as int, r),
            None => r is NotFound,
        },
{
    update_latest(latest_action, query);
    match get_user_id(conn, username) {
        Some(user_id) => {
            let rows = get_user_timeline(conn, user_id, amount.no);
            let ghost seen = rows@;
            let r = messages_response(rows);
            proof {
                if r is Messages {
                    let v = r->Messages_0;
                    assert(api_messages_of(seen, v@));
                } else {
                    assert(!dates_readable(seen));
                }
            }
            r
        },
        None => ApiResponse::NotFound,
    }
}

/// `POST /msgs/{username}`: adds an unflagged message by the user, dated
/// `now`.
pub fn messages_per_user_post(
    conn: &mut Database,
    latest_action: &mut LatestAction,
    username: &str,
    msg: &MessageContent,
    query: &Latest,
    now: String,
) -> (r: ApiResponse)
    requires
        old(conn).wf(),
        old(conn).messages().len() < i32::MAX,
    ensures
        final(conn).wf(),
        final(latest_action).latest == query.latest,
        match user_with_name(old(conn), username@) {
            Some(u) => r is NoContent && message_appended(
                old(conn),
                final(conn),
                u.user_id as int,
                msg.content@,
                now@,
                0,
            ),
            None => r is NotFound && *final(conn) == *old(conn),
        },
{
    update_latest(latest_action, query);
    match get_user_id(conn, username) {
        Some(user_id) => {
            let ghost before = *conn;
            let _ = create_msg(conn, &user_id, msg.content.as_str(), now, &0);
            proof {
                assert(conn.messages().drop_last() =~= before.messages());
            }
            ApiResponse::NoContent
        },
        None => ApiResponse::NotFound,
    }
}

/// The names of a list of users.
pub open spec fn usernames(users: Seq<Users>) -> Seq<Seq<char>> {
    users.map_values(|u: Users| u.username@)
}

/// `GET /fllws/{username}`: the names of at most `no` users that the user
/// follows.
pub fn follows_get(
    conn: &mut Database,
    latest_action: &mut LatestAction,
    username: &str,
    amount: &MessageAmount,
    query: &Latest,
) -> (r: ApiResponse)
    requires
        old(conn).wf(),
        user_with_name(old(conn), username@) is Some ==> amount.no >= 0,
    ensures
        *final(conn) == *old(conn),
        final(latest_action).latest == query.latest,
        match user_with_name(old(conn), username@) {
            Some(u) => r matches ApiResponse::Follows(f) && views(f.follows@) == usernames(
                first_n(followed_users(old(conn), u.user_id as int), amount.no as int),
            ),
            None => r is NotFound,
        },
{
    update_latest(latest_action, query);
    match get_user_id(conn, username) {
        Some(user_id) => {
            let followers = get_followers(conn, user_id, amount.no);
            let mut names: Vec<String> = Vec::new();
            let mut i: usize = 0;
            while i < followers.len()
                invariant
                    i <= followers@.len(),
                    views(names@) == usernames(followers@.take(i as int)),
                decreases followers@.len() - i,
            {
                let ghost old_names = names@;
                let name = followers[i].username.clone();
                names.push(name);
                proof {
                    assert(names@ =~= old_names.push(followers@[i as int].username));
                    assert(views(names@) =~= views(old_names).push(followers@[i as int].username@));
                    assert(usernames(followers@.take(i + 1)) =~= usernames(followers@.take(i as int)).push(followers@[i as int].username@));
                    assert(followers@.take(i + 1) =~= followers@.take(i as int).push(followers@[i as int]));
                    assert(views(names@) =~= usernames(followers@.take(i + 1)));
                }
                i = i + 1;
            }
            proof {
                assert(followers@.take(followers@.len() as int) =~= followers@);
            }
            ApiResponse::Follows(Follows { follows: names })
        },
        None => ApiResponse::NotFound,
    }
}

/// The follow that a `POST /fllws/{username}` asks for is not recorded yet:
/// the pair is the key of the table.
pub open spec fn follow_request_new(db: &Database, username: Seq<char>, param: &FollowParam) -> bool {
    match (user_with_name(db, username), param.follow) {
        (Some(u), Some(name)) => match user_with_name(db, name@) {
            Some(t) => !follows(db, u.user_id as int, t.user_id as int),
            None => true,
        },
        _ => true,
    }
}

/// `POST /fllws/{username}`: the user starts following `follow`, or else
/// stops following `unfollow`.
pub fn follows_post(
    conn: &mut Database,
    latest_action: &mut LatestAction,
    username: &str,
    follow_param: FollowParam,
    query: &Latest,
) -> (r: ApiResponse)
    requires
        old(conn).wf(),
        follow_request_new(old(conn), username@, &follow_param),
    ensures
        final(conn).wf(),
        final(latest_action).latest == query.latest,
        match user_with_name(old(conn), username@) {
            None => r is NotFound && *final(conn) == *old(conn),
            Some(u) => match follow_param.follow {
                Some(name) => match user_with_name(old(conn), name@) {
                    Some(t) => r is NoContent && final(conn).followers() == old(conn).followers().push(
                        Followers { who_id: u.user_id, whom_id: t.user_id },
                    ) && final(conn).users() == old(conn).users() && final(conn).messages()
                        == old(conn).messages(),
                    None => r is BadRequest && *final(conn) == *old(conn),
                },
                None => match follow_param.unfollow {
                    Some(name) => match user_with_name(old(conn), name@) {
                        Some(t) => r is NoContent && unfollowed(
                            old(conn),
                            final(conn),
                            u.user_id as int,
                            t.user_id as int,
                        ),
                        None => r is BadRequest && *final(conn) == *old(conn),
                    },
                    None => r is BadRequest && *final(conn) == *old(conn),
                },
            },
        },
{
    update_latest(latest_action, query);
    match get_user_id(conn, username) {
        Some(user_id) => {
            if let Some(follow_username) = follow_param.follow {
                if let Some(follow_user_id) = get_user_id(conn, follow_username.as_str()) {
                    follow(conn, user_id, follow_user_id);
                    return ApiResponse::NoContent;
                }
            } else if let Some(unfollow_username) = follow_param.unfollow {
                if let Some(unfollow_user_id) = get_user_id(conn, unfollow_username.as_str()) {
                    unfollow(conn, user_id, unfollow_user_id);
                    return ApiResponse::NoContent;
                }
            }
            ApiResponse::BadRequest
        },
        None => ApiResponse::NotFound,
    }
}


/// What `GET /latest` gives back is the `latest` value of the last request
/// that recorded one.
pub proof fn law_latest_read_back(after: LatestAction, query: Latest, read: Latest)
    requires
        after.latest == query.latest,
        read.latest == after.latest,
    ensures
        read.latest == query.latest,
{
}

/// Once a registration has added a user, a second registration with the
/// same name is refused because the name is taken.
pub proof fn law_second_registration_refused(
    before: &Database,
    after: &Database,
    first: &RegisterInfo,
    second: &RegisterInfo,
)
    requires
        before.wf(),
        after.wf(),
        user_appended(before, after, first.username@, first.email@),
        second.username@ == first.username@,
        second.username@.len() > 0,
        second.email@.len() > 0,
        second.pwd@.len() > 0,
    ensures
        api_register_problem(after, second) == Some(RegisterProblem::UsernameTaken),
{
    crate::database::law_created_user_found(before, after, first.username@, first.email@);
}


/// Each message in an answer that lists messages carries the text of a
/// message that the filter selects and the name of that message's author,
/// the user whose id is the message's `author_id`.
pub proof fn law_api_messages_carry_author_names(
    db: &Database,
    f: MessageFilter,
    limit: int,
    r: ApiResponse,
    i: int,
)
    requires
        shows_messages(db, f, limit, r),
        r is Messages,
        0 <= i < r->Messages_0@.len(),
    ensures
        exists|j: int|
            #![trigger db.messages()[j]]
            0 <= j < db.messages().len() && selected(db, f, db.messages()[j])
                && db.messages()[j].text@ == r->Messages_0@[i].content@
                && user_with_id(db, db.messages()[j].author_id as int) is Some
                && r->Messages_0@[i].user@ == user_with_id(
                db,
                db.messages()[j].author_id as int,
            ).unwrap().username@,
{
    let v = r->Messages_0;
    let rows = choose|rows: Seq<(Messages, Users)>|
        newest_rows(db, f, limit, rows) && #[trigger] api_messages_of(rows, v@);
    assert(newest_rows(db, f, limit, rows));
    assert(api_message_of(rows[i], v@[i]));
    let j = rows[i].0.message_id as int - 1;
    assert(rows[i] == row(db, db.messages()[j]));
    assert(db.messages()[j].text@ == v@[i].content@);
}

/// With a name, an email and a password given, the API refuses a
/// registration as taken exactly when some user already has that very
/// name, and accepts it otherwise.
pub proof fn law_api_register_taken_iff_name_stored(db: &Database, info: &RegisterInfo)
    requires
        info.username@.len() > 0,
        info.email@.len() > 0,
        info.pwd@.len() > 0,
    ensures
        api_register_problem(db, info) == Some(RegisterProblem::UsernameTaken) <==> exists|k: int|
            0 <= k < db.users().len() && (#[trigger] db.users()[k]).username@ == info.username@,
        (forall|k: int| 0 <= k < db.users().len() ==> (#[trigger] db.users()[k]).username@ != info.username@)
            ==> api_register_problem(db, info) is None,
{
    let name = info.username@;
    if exists|k: int| 0 <= k < db.users().len() && (#[trigger] db.users()[k]).username@ == name {
        let k = choose|k: int| 0 <= k < db.users().len() && (#[trigger] db.users()[k]).username@ == name;
        lemma_some_first_named(db, k, name);
    }
    if user_with_name(db, name) is Some {
        let i = choose|i: int| first_named(db, i, name);
        assert(db.users()[i].username@ == name);
    }
}

/// The list of followed users that the API gives holds each user's name,
/// in the order of the users.
pub proof fn law_usernames_lists_names(users: Seq<Users>)
    ensures
        usernames(users).len() == users.len(),
        forall|i: int| 0 <= i < users.len() ==> (#[trigger] usernames(users)[i]) == users[i].username@,
{
}

} // verus!
