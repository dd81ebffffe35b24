//! The store that the service keeps its users, their messages and who
//! follows whom in, with the queries that the service makes of it.
use vstd::prelude::*;
use crate::models::{Users, NewUser, Followers, NewFollower, Messages, NewMessage};
use crate::text::{text_lt, text_less, lemma_bytes_lt_transitive, lemma_bytes_not_lt_transitive, lemma_bytes_lt_irreflexive};

verus! {

/// The three tables. Ids are handed out in order from 1, as a serial
/// column does, and a pair of users is recorded at most once in
/// `followers`, its primary key.
pub struct Database {
    users: Vec<Users>,
    messages: Vec<Messages>,
    followers: Vec<Followers>,
}

/// Which messages a timeline shows.
#[derive(Clone, Copy)]
pub enum MessageFilter {
    /// Every message that is not flagged.
    Public,
    /// The messages of one author that are not flagged.
    Author(i32),
    /// The unflagged messages of a user and of everyone that user follows.
    Timeline(i32),
    /// The messages of one author, flagged or not.
    AuthorAll(i32),
}

impl Database {
    /// The `users` table, in id order.
    pub closed spec fn users(&self) -> Seq<Users> {
        self.users@
    }

    /// The `messages` table, in id order.
    pub closed spec fn messages(&self) -> Seq<Messages> {
        self.messages@
    }

    /// The `followers` table, in the order the rows were inserted.
    pub closed spec fn followers(&self) -> Seq<Followers> {
        self.followers@
    }

    pub open spec fn wf(&self) -> bool {
        &&& self.users().len() <= i32::MAX
        &&& self.messages().len() <= i32::MAX
        &&& forall|i: int| 0 <= i < self.users().len() ==> #[trigger] self.users()[i].user_id == i + 1
        &&& forall|i: int|
            0 <= i < self.messages().len() ==> #[trigger] self.messages()[i].message_id == i + 1
        &&& pairs_unique(self.followers())
    }

    /// An empty store.
    pub fn new() -> (db: Self)
        ensures
            db.wf(),
            db.users() == Seq::<Users>::empty(),
            db.messages() == Seq::<Messages>::empty(),
            db.followers() == Seq::<Followers>::empty(),
    {
        Database { users: Vec::new(), messages: Vec::new(), followers: Vec::new() }
    }

    /// How many users there are.
    pub fn user_count(&self) -> (r: usize)
        ensures
            r == self.users().len(),
    {
        self.users.len()
    }

    /// How many messages there are.
    pub fn message_count(&self) -> (r: usize)
        ensures
            r == self.messages().len(),
    {
        self.messages.len()
    }

    /// The index of the row that records that `who` follows `whom`.
    fn find_follow(&self, who: i32, whom: i32) -> (r: Option<usize>)
        ensures
            r matches Some(i) ==> i < self.followers().len() && self.followers()[i as int].who_id
                == who && self.followers()[i as int].whom_id == whom,
            r is None ==> !follows(self, who as int, whom as int),
    {
        let mut i: usize = 0;
        while i < self.followers.len()
            invariant
                i <= self.followers@.len(),
                forall|k: int|
                    0 <= k < i ==> !(#[trigger] self.followers@[k].who_id == who
                        && self.followers@[k].whom_id == whom),
            decreases self.followers@.len() - i,
        {
            if self.followers[i].who_id == who && self.followers[i].whom_id == whom {
                return Some(i);
            }
            i = i + 1;
        }
        None
    }

    /// Whether message `m` belongs on the timeline that `f` describes.
    fn selects(&self, f: MessageFilter, m: &Messages) -> (r: bool)
        requires
            self.wf(),
        ensures
            r == selected(self, f, *m),
    {
        let author_known = 1 <= m.author_id && (m.author_id as usize) <= self.users.len();
        author_known && match f {
            MessageFilter::Public => m.flagged == 0,
            MessageFilter::Author(id) => m.flagged == 0 && m.author_id == id,
            MessageFilter::Timeline(id) => m.flagged == 0 && (m.author_id == id
                || self.find_follow(id, m.author_id).is_some()),
            MessageFilter::AuthorAll(id) => m.author_id == id,
        }
    }

    /// The newest `limit` messages that `f` selects, newest first, each with
    /// its author.
    fn newest_messages(&self, f: MessageFilter, limit: i32) -> (r: Vec<(Messages, Users)>)
        requires
            self.wf(),
            limit >= 0,
        ensures
            newest_rows(self, f, limit as int, r@),
    {
        let n = self.messages.len();
        let mut taken: Vec<bool> = Vec::new();
        while taken.len() < n
            invariant
                taken@.len() <= n,
                n == self.messages@.len(),
                forall|k: int| 0 <= k < taken@.len() ==> !#[trigger] taken@[k],
            decreases n - taken@.len(),
        {
            taken.push(false);
        }
        let ghost msgs = self.messages();
        let ghost users = self.users();
        let mut r: Vec<(Messages, Users)> = Vec::new();
        let mut exhausted = false;
        while !exhausted && r.len() < limit as usize
            invariant
                self.wf(),
                limit >= 0,
                msgs == self.messages(),
                users == self.users(),
                n == msgs.len(),
                taken@.len() == n,
                r@.len() <= limit,
                forall|i: int|
                    0 <= i < r@.len() ==> {
                        let id = (#[trigger] r@[i]).0.message_id as int;
                        &&& 1 <= id <= n
                        &&& taken@[id - 1]
                        &&& r@[i] == row(self, msgs[id - 1])
                        &&& selected(self, f, msgs[id - 1])
                    },
                forall|i: int, k: int|
                    0 <= i < k < r@.len() ==> (#[trigger] r@[i]).0.message_id
                        != (#[trigger] r@[k]).0.message_id,
                forall|i: int, k: int|
                    0 <= i < k < r@.len() ==> !text_lt(
                        (#[trigger] r@[i]).0.pub_date@,
                        (#[trigger] r@[k]).0.pub_date@,
                    ),
                forall|j: int|
                    0 <= j < n && #[trigger] taken@[j] ==> exists|i: int|
                        0 <= i < r@.len() && (#[trigger] r@[i]).0.message_id == j + 1,
                forall|j: int|
                    0 <= j < n && !#[trigger] taken@[j] && selected(self, f, msgs[j]) && r@.len()
                        > 0 ==> !text_lt(r@.last().0.pub_date@, msgs[j].pub_date@),
                exhausted ==> forall|j: int|
                    0 <= j < n && !#[trigger] taken@[j] ==> !selected(self, f, msgs[j]),
            decreases limit - r@.len(), (if exhausted { 0int } else { 1int }),
        {
            let mut best: Option<usize> = None;
            let mut j: usize = 0;
            while j < n
                invariant
                    self.wf(),
                    msgs == self.messages(),
                    n == msgs.len(),
                    taken@.len() == n,
                    j <= n,
                    best matches Some(b) ==> b < j && !taken@[b as int] && selected(
                        self,
                        f,
                        msgs[b as int],
                    ) && forall|k: int|
                        0 <= k < j && !#[trigger] taken@[k] && selected(self, f, msgs[k]) ==> !text_lt(
                            msgs[b as int].pub_date@,
                            msgs[k].pub_date@,
                        ),
                    best is None ==> forall|k: int|
                        0 <= k < j && !#[trigger] taken@[k] ==> !selected(self, f, msgs[k]),
                decreases n - j,
            {
                if !taken[j] && self.selects(f, &self.messages[j]) {
                    match best {
                        None => {
                            proof {
                                lemma_bytes_lt_irreflexive(
                                    vstd::utf8::encode_utf8(msgs[j as int].pub_date@),
                                );
                            }
                            best = Some(j);
                        },
                        Some(b) => {
                            if text_less(&self.messages[b].pub_date, &self.messages[j].pub_date) {
                                proof {
                                    assert forall|k: int|
                                        0 <= k < j && !#[trigger] taken@[k] && selected(
                                            self,
                                            f,
                                            msgs[k],
                                        ) implies !text_lt(
                                        msgs[j as int].pub_date@,
                                        msgs[k].pub_date@,
                                    ) by {
                                        if text_lt(msgs[j as int].pub_date@, msgs[k].pub_date@) {
                                            lemma_bytes_lt_transitive(
                                                vstd::utf8::encode_utf8(msgs[b as int].pub_date@),
                                                vstd::utf8::encode_utf8(msgs[j as int].pub_date@),
                                                vstd::utf8::encode_utf8(msgs[k].pub_date@),
                                            );
                                        }
                                    }
                                    lemma_bytes_lt_irreflexive(
                                        vstd::utf8::encode_utf8(msgs[j as int].pub_date@),
                                    );
                                }
                                best = Some(j);
                            }
                        },
                    }
                }
                j = j + 1;
            }
            match best {
                None => {
                    exhausted = true;
                },
                Some(b) => {
                    let m = self.messages[b].clone();
                    let author = self.users[(m.author_id - 1) as usize].clone();
                    let ghost old_r = r@;
                    let ghost old_taken = taken@;
                    taken.set(b, true);
                    r.push((m, author));
                    proof {
                        assert(msgs[b as int].message_id == b + 1);
                        assert forall|i: int, k: int|
                            0 <= i < k < r@.len() implies !text_lt(
                            (#[trigger] r@[i]).0.pub_date@,
                            (#[trigger] r@[k]).0.pub_date@,
                        ) by {
                            if k == r@.len() - 1 && i < k - 1 {
                                lemma_bytes_not_lt_transitive(
                                    vstd::utf8::encode_utf8(r@[i].0.pub_date@),
                                    vstd::utf8::encode_utf8(r@[k - 1].0.pub_date@),
                                    vstd::utf8::encode_utf8(r@[k].0.pub_date@),
                                );
                            }
                        }
                        assert forall|i: int, k: int|
                            0 <= i < k < r@.len() implies (#[trigger] r@[i]).0.message_id
                            != (#[trigger] r@[k]).0.message_id by {
                            if k == r@.len() - 1 {
                                let id = r@[i].0.message_id as int;
                                assert(old_taken[id - 1]);
                            }
                        }
                        assert forall|j2: int|
                            0 <= j2 < n && #[trigger] taken@[j2] implies exists|i: int|
                            0 <= i < r@.len() && (#[trigger] r@[i]).0.message_id == j2 + 1 by {
                            if j2 == b {
                                assert(r@[r@.len() - 1].0.message_id == j2 + 1);
                            } else {
                                assert(old_taken[j2]);
                                let i = choose|i: int|
                                    0 <= i < old_r.len() && (#[trigger] old_r[i]).0.message_id
                                        == j2 + 1;
                                assert(r@[i] == old_r[i]);
                            }
                        }
                        assert forall|j2: int|
                            0 <= j2 < n && !#[trigger] taken@[j2] && selected(self, f, msgs[j2])
                                && r@.len() > 0 implies !text_lt(
                            r@.last().0.pub_date@,
                            msgs[j2].pub_date@,
                        ) by {
                            assert(!old_taken[j2]);
                        }
                    }
                },
            }
        }
        proof {
            assert forall|j2: int|
                0 <= j2 < n && selected(self, f, msgs[j2]) && (forall|i: int|
                    0 <= i < r@.len() ==> (#[trigger] r@[i]).0.message_id != j2 + 1) implies r@.len()
                == limit && (r@.len() > 0 ==> !text_lt(r@.last().0.pub_date@, msgs[j2].pub_date@)) by {
                if taken@[j2] {
                    let i = choose|i: int| 0 <= i < r@.len() && (#[trigger] r@[i]).0.message_id == j2 + 1;
                    assert(r@[i].0.message_id != j2 + 1);
                }
            }
        }
        r
    }
}

/// No pair of users is recorded twice.
pub open spec fn pairs_unique(fs: Seq<Followers>) -> bool {
    forall|i: int, j: int| 0 <= i < j < fs.len() ==> !same_pair(#[trigger] fs[i], #[trigger] fs[j])
}

/// The two rows record the same pair of users.
pub open spec fn same_pair(a: Followers, b: Followers) -> bool {
    a.who_id == b.who_id && a.whom_id == b.whom_id
}

/// The user with id `id`, if there is one.
pub open spec fn user_with_id(db: &Database, id: int) -> Option<Users> {
    if 1 <= id <= db.users().len() {
        Some(db.users()[id - 1])
    } else {
        None
    }
}

/// `i` is the position of the first user called `name`.
pub open spec fn first_named(db: &Database, i: int, name: Seq<char>) -> bool {
    &&& 0 <= i < db.users().len()
    &&& db.users()[i].username@ == name
    &&& forall|k: int| 0 <= k < i ==> (#[trigger] db.users()[k]).username@ != name
}

/// The first user, by id, called `name`, if there is one.
pub open spec fn user_with_name(db: &Database, name: Seq<char>) -> Option<Users> {
    if exists|i: int| first_named(db, i, name) {
        Some(db.users()[choose|i: int| first_named(db, i, name)])
    } else {
        None
    }
}

/// `who` follows `whom`.
pub open spec fn follows(db: &Database, who: int, whom: int) -> bool {
    exists|i: int|
        0 <= i < db.followers().len() && (#[trigger] db.followers()[i]).who_id == who
            && db.followers()[i].whom_id == whom
}

/// Message `m` belongs on the timeline that `f` describes; a message whose
/// author is unknown belongs on none.
pub open spec fn selected(db: &Database, f: MessageFilter, m: Messages) -> bool {
    &&& user_with_id(db, m.author_id as int) is Some
    &&& match f {
        MessageFilter::Public => m.flagged == 0,
        MessageFilter::Author(id) => m.flagged == 0 && m.author_id == id,
        MessageFilter::Timeline(id) => m.flagged == 0 && (m.author_id == id || follows(
            db,
            id as int,
            m.author_id as int,
        )),
        MessageFilter::AuthorAll(id) => m.author_id == id,
    }
}

/// A message together with its author.
pub open spec fn row(db: &Database, m: Messages) -> (Messages, Users) {
    (m, user_with_id(db, m.author_id as int).unwrap())
}

/// `r` holds the newest `limit` messages that `f` selects, newest first,
/// each once and with its author; where two messages have the same date
/// either may come first.
pub open spec fn newest_rows(
    db: &Database,
    f: MessageFilter,
    limit: int,
    r: Seq<(Messages, Users)>,
) -> bool {
    let msgs = db.messages();
    &&& r.len() <= limit
    &&& forall|i: int|
        0 <= i < r.len() ==> {
            let id = (#[trigger] r[i]).0.message_id as int;
            &&& 1 <= id <= msgs.len()
            &&& r[i] == row(db, msgs[id - 1])
            &&& selected(db, f, msgs[id - 1])
        }
    &&& forall|i: int, k: int|
        0 <= i < k < r.len() ==> (#[trigger] r[i]).0.message_id != (#[trigger] r[k]).0.message_id
    &&& forall|i: int, k: int|
        0 <= i < k < r.len() ==> !text_lt((#[trigger] r[i]).0.pub_date@, (#[trigger] r[k]).0.pub_date@)
    &&& forall|j: int|
        0 <= j < msgs.len() && selected(db, f, msgs[j]) && (forall|i: int|
            0 <= i < r.len() ==> (#[trigger] r[i]).0.message_id != j + 1) ==> r.len() == limit && (
        r.len() > 0 ==> !text_lt(r.last().0.pub_date@, msgs[j].pub_date@))
}


/// The users that `who` follows according to the rows `fs`, in the order of
/// the rows; a row naming an unknown user contributes nothing.
pub open spec fn followed_in(db: &Database, fs: Seq<Followers>, who: int) -> Seq<Users>
    decreases fs.len(),
{
    if fs.len() == 0 {
        Seq::empty()
    } else {
        let rest = followed_in(db, fs.drop_last(), who);
        let f = fs.last();
        if f.who_id == who && user_with_id(db, f.whom_id as int) is Some {
            rest.push(user_with_id(db, f.whom_id as int).unwrap())
        } else {
            rest
        }
    }
}

/// The users that `who` follows.
pub open spec fn followed_users(db: &Database, who: int) -> Seq<Users> {
    followed_in(db, db.followers(), who)
}

/// The first `n` elements of `s`, or all of them where there are fewer.
pub open spec fn first_n<A>(s: Seq<A>, n: int) -> Seq<A> {
    if n < s.len() {
        s.take(n)
    } else {
        s
    }
}

/// The position of the row that records that `who` follows `whom`.
pub open spec fn pair_index(db: &Database, who: int, whom: int) -> int {
    choose|i: int|
        0 <= i < db.followers().len() && (#[trigger] db.followers()[i]).who_id == who
            && db.followers()[i].whom_id == whom
}

/// `after` is `before` without the record that `who` follows `whom`.
pub open spec fn unfollowed(before: &Database, after: &Database, who: int, whom: int) -> bool {
    &&& if follows(before, who, whom) {
        after.followers() == before.followers().remove(pair_index(before, who, whom))
    } else {
        after.followers() == before.followers()
    }
    &&& after.users() == before.users()
    &&& after.messages() == before.messages()
}

/// `after` is `before` with one more user, with the next id and the given
/// name and email; what is stored as the password hash is left to the
/// caller to state.
pub open spec fn user_appended(before: &Database, after: &Database, name: Seq<char>, email: Seq<char>) -> bool {
    &&& after.users().len() == before.users().len() + 1
    &&& after.users().drop_last() == before.users()
    &&& after.users().last().user_id == before.users().len() + 1
    &&& after.users().last().username@ == name
    &&& after.users().last().email@ == email
    &&& after.messages() == before.messages()
    &&& after.followers() == before.followers()
}

/// `after` is `before` with one more message, with the next id and the
/// given author, text, date and flag.
pub open spec fn message_appended(
    before: &Database,
    after: &Database,
    author: int,
    text: Seq<char>,
    date: Seq<char>,
    flagged: int,
) -> bool {
    &&& after.messages().len() == before.messages().len() + 1
    &&& after.messages().drop_last() == before.messages()
    &&& after.messages().last().message_id == before.messages().len() + 1
    &&& after.messages().last().author_id == author
    &&& after.messages().last().text@ == text
    &&& after.messages().last().pub_date@ == date
    &&& after.messages().last().flagged == flagged
    &&& after.users() == before.users()
    &&& after.followers() == before.followers()
}

/// Adds a user and returns the row, with the next free id.
pub fn create_user(conn: &mut Database, username: &str, email: &str, pw_hash: &str) -> (r: Users)
    requires
        old(conn).wf(),
        old(conn).users().len() < i32::MAX,
    ensures
        final(conn).wf(),
        r.user_id == old(conn).users().len() + 1,
        r.username@ == username@,
        r.email@ == email@,
        r.pw_hash@ == pw_hash@,
        final(conn).users() == old(conn).users().push(r),
        final(conn).messages() == old(conn).messages(),
        final(conn).followers() == old(conn).followers(),
{
    let new_user = NewUser { username, email, pw_hash };
    let row = Users {
        user_id: (conn.users.len() + 1) as i32,
        username: new_user.username.to_owned(),
        email: new_user.email.to_owned(),
        pw_hash: new_user.pw_hash.to_owned(),
    };
    let ghost old_users = conn.users@;
    conn.users.push(row.clone());
    proof {
        assert forall|i: int| 0 <= i < conn.users@.len() implies #[trigger] conn.users@[i].user_id
            == i + 1 by {
            if i < old_users.len() {
                assert(conn.users@[i] == old_users[i]);
            }
        }
    }
    row
}

/// Adds a message and returns the row, with the next free id.
pub fn create_msg(
    conn: &mut Database,
    author_id: &i32,
    text: &str,
    pub_date: String,
    flagged: &i32,
) -> (r: Messages)
    requires
        old(conn).wf(),
        old(conn).messages().len() < i32::MAX,
    ensures
        final(conn).wf(),
        r.message_id == old(conn).messages().len() + 1,
        r.author_id == *author_id,
        r.text@ == text@,
        r.pub_date@ == pub_date@,
        r.flagged == *flagged,
        final(conn).messages() == old(conn).messages().push(r),
        final(conn).users() == old(conn).users(),
        final(conn).followers() == old(conn).followers(),
{
    let new_message = NewMessage { author_id, text, pub_date: &pub_date, flagged };
    let row = Messages {
        message_id: (conn.messages.len() + 1) as i32,
        author_id: *new_message.author_id,
        text: new_message.text.to_owned(),
        pub_date: new_message.pub_date.clone(),
        flagged: *new_message.flagged,
    };
    let ghost old_msgs = conn.messages@;
    conn.messages.push(row.clone());
    proof {
        assert forall|i: int| 0 <= i < conn.messages@.len() implies #[trigger] conn.messages@[i].message_id
            == i + 1 by {
            if i < old_msgs.len() {
                assert(conn.messages@[i] == old_msgs[i]);
            }
        }
    }
    row
}

/// Records that `follower_id` follows `followed_id`. The pair is the key of
/// the table, so it must not be recorded yet.
pub fn follow(conn: &mut Database, follower_id: i32, followed_id: i32)
    requires
        old(conn).wf(),
        !follows(old(conn), follower_id as int, followed_id as int),
    ensures
        final(conn).wf(),
        final(conn).followers() == old(conn).followers().push(
            Followers { who_id: follower_id, whom_id: followed_id },
        ),
        final(conn).users() == old(conn).users(),
        final(conn).messages() == old(conn).messages(),
{
    let new_follower = NewFollower { who_id: &follower_id, whom_id: &followed_id };
    let row = Followers { who_id: *new_follower.who_id, whom_id: *new_follower.whom_id };
    let ghost old_fs = conn.followers@;
    conn.followers.push(row);
    proof {
        assert forall|i: int, j: int|
            0 <= i < j < conn.followers@.len() implies !same_pair(
            #[trigger] conn.followers@[i],
            #[trigger] conn.followers@[j],
        ) by {
            assert(old_fs[i] == conn.followers@[i]);
            if j == old_fs.len() {
                assert(old_fs == old(conn).followers());
                assert(old(conn).followers()[i].who_id == old_fs[i].who_id);
            } else {
                assert(old_fs[j] == conn.followers@[j]);
            }
        }
    }
}

/// Removes the record that `follower_id` follows `followed_id`, if there
/// is one.
pub fn unfollow(conn: &mut Database, follower_id: i32, followed_id: i32)
    requires
        old(conn).wf(),
    ensures
        final(conn).wf(),
        unfollowed(old(conn), final(conn), follower_id as int, followed_id as int),
{
    match conn.find_follow(follower_id, followed_id) {
        None => {},
        Some(i) => {
            let ghost old_fs = conn.followers@;
            proof {
                let p = pair_index(conn, follower_id as int, followed_id as int);
                assert(0 <= p < old_fs.len() && old_fs[p].who_id == follower_id && old_fs[p].whom_id == followed_id);
                if p < i {
                    assert(same_pair(old_fs[p], old_fs[i as int]));
                } else if i < p {
                    assert(same_pair(old_fs[i as int], old_fs[p]));
                }
            }
            conn.followers.remove(i);
            proof {
                assert forall|a: int, b: int|
                    0 <= a < b < conn.followers@.len() implies !same_pair(
                    #[trigger] conn.followers@[a],
                    #[trigger] conn.followers@[b],
                ) by {
                    let a2 = if a < i { a } else { a + 1 };
                    let b2 = if b < i { b } else { b + 1 };
                    assert(conn.followers@[a] == old_fs[a2]);
                    assert(conn.followers@[b] == old_fs[b2]);
                }
            }
        },
    }
}

/// The users that `user_id` follows, at most `limit` of them.
pub fn get_followers(conn: &mut Database, user_id: i32, limit: i32) -> (r: Vec<Users>)
    requires
        old(conn).wf(),
        limit >= 0,
    ensures
        *final(conn) == *old(conn),
        r@ == first_n(followed_users(old(conn), user_id as int), limit as int),
{
    let mut r: Vec<Users> = Vec::new();
    let mut i: usize = 0;
    let ghost fs = conn.followers@;
    while i < conn.followers.len()
        invariant
            conn.wf(),
            limit >= 0,
            fs == conn.followers(),
            i <= fs.len(),
            r@ == first_n(followed_in(conn, fs.take(i as int), user_id as int), limit as int),
        decreases fs.len() - i,
    {
        let f = &conn.followers[i];
        proof {
            assert(fs.take(i + 1).drop_last() =~= fs.take(i as int));
            assert(fs.take(i + 1).last() == fs[i as int]);
        }
        if f.who_id == user_id && 1 <= f.whom_id && (f.whom_id as usize) <= conn.users.len() {
            if r.len() < limit as usize {
                r.push(conn.users[(f.whom_id - 1) as usize].clone());
            }
        }
        i = i + 1;
    }
    proof {
        assert(fs.take(fs.len() as int) =~= fs);
    }
    r
}

/// The user with the given id.
pub fn get_user_by_id(conn: &mut Database, user_id: i32) -> (r: Option<Users>)
    requires
        old(conn).wf(),
    ensures
        *final(conn) == *old(conn),
        r == user_with_id(old(conn), user_id as int),
{
    if 1 <= user_id && (user_id as usize) <= conn.users.len() {
        Some(conn.users[(user_id - 1) as usize].clone())
    } else {
        None
    }
}

/// The position of the first user called `username`.
fn first_user_named(conn: &Database, username: &str) -> (r: Option<usize>)
    ensures
        r matches Some(i) ==> first_named(conn, i as int, username@),
        r is None ==> forall|i: int|
            0 <= i < conn.users().len() ==> (#[trigger] conn.users()[i]).username@ != username@,
{
    let name = username.to_owned();
    let mut i: usize = 0;
    while i < conn.users.len()
        invariant
            name@ == username@,
            i <= conn.users@.len(),
            forall|k: int| 0 <= k < i ==> (#[trigger] conn.users@[k]).username@ != username@,
        decreases conn.users@.len() - i,
    {
        if conn.users[i].username == name {
            return Some(i);
        }
        i = i + 1;
    }
    None
}

pub proof fn lemma_first_named_unique(db: &Database, i: int, j: int, name: Seq<char>)
    requires
        first_named(db, i, name),
        first_named(db, j, name),
    ensures
        i == j,
{
    if i < j {
        assert(db.users()[i].username@ != name);
    } else if j < i {
        assert(db.users()[j].username@ != name);
    }
}

/// The first user, by id, with the given name.
pub fn get_user_by_name(conn: &mut Database, username: &str) -> (r: Option<Users>)
    requires
        old(conn).wf(),
    ensures
        *final(conn) == *old(conn),
        r == user_with_name(old(conn), username@),
{
    match first_user_named(conn, username) {
        Some(i) => {
            proof {
                let c = choose|k: int| first_named(conn, k, username@);
                lemma_first_named_unique(conn, i as int, c, username@);
            }
            Some(conn.users[i].clone())
        },
        None => None,
    }
}

/// The newest `limit` unflagged messages, newest first, with their authors.
pub fn get_public_messages(conn: &mut Database, limit: i32) -> (r: Vec<(Messages, Users)>)
    requires
        old(conn).wf(),
        limit >= 0,
    ensures
        *final(conn) == *old(conn),
        newest_rows(old(conn), MessageFilter::Public, limit as int, r@),
{
    conn.newest_messages(MessageFilter::Public, limit)
}

/// The newest `limit` unflagged messages of user `id`, newest first.
pub fn get_user_timeline(conn: &mut Database, id: i32, limit: i32) -> (r: Vec<(Messages, Users)>)
    requires
        old(conn).wf(),
        limit >= 0,
    ensures
        *final(conn) == *old(conn),
        newest_rows(old(conn), MessageFilter::Author(id), limit as int, r@),
{
    conn.newest_messages(MessageFilter::Author(id), limit)
}

/// The newest `limit` unflagged messages of user `id` and of the users
/// that `id` follows, newest first.
pub fn get_timeline(conn: &mut Database, id: i32, limit: i32) -> (r: Vec<(Messages, Users)>)
    requires
        old(conn).wf(),
        limit >= 0,
    ensures
        *final(conn) == *old(conn),
        newest_rows(old(conn), MessageFilter::Timeline(id), limit as int, r@),
{
    conn.newest_messages(MessageFilter::Timeline(id), limit)
}

/// The newest `limit` messages that `filter` selects, newest first, with
/// their authors.
pub fn newest_matching(conn: &mut Database, filter: MessageFilter, limit: i32) -> (r: Vec<(Messages, Users)>)
    requires
        old(conn).wf(),
        limit >= 0,
    ensures
        *final(conn) == *old(conn),
        newest_rows(old(conn), filter, limit as int, r@),
{
    conn.newest_messages(filter, limit)
}

/// The password hash of the first user, by id, with the given name.
pub fn get_passwd_hash(conn: &mut Database, username: &str) -> (r: Option<String>)
    requires
        old(conn).wf(),
    ensures
        *final(conn) == *old(conn),
        r == match user_with_name(old(conn), username@) {
            Some(u) => Some(u.pw_hash),
            None => None,
        },
{
    match get_user_by_name(conn, username) {
        Some(u) => Some(u.pw_hash),
        None => None,
    }
}

/// Whether `follower_id` follows `followed_id`.
pub fn is_following(conn: &mut Database, followed_id: i32, follower_id: i32) -> (r: bool)
    requires
        old(conn).wf(),
    ensures
        *final(conn) == *old(conn),
        r == follows(old(conn), follower_id as int, followed_id as int),
{
    conn.find_follow(follower_id, followed_id).is_some()
}


/// After a follow is recorded, the follower follows the followed user.
pub proof fn law_follow_then_following(before: &Database, after: &Database, who: i32, whom: i32)
    requires
        after.followers() == before.followers().push(Followers { who_id: who, whom_id: whom }),
    ensures
        follows(after, who as int, whom as int),
{
    let i = before.followers().len() as int;
    assert(after.followers()[i].who_id == who);
}

/// After an unfollow, the follower no longer follows the user, and every
/// other pair is as it was.
pub proof fn law_unfollow_then_not_following(before: &Database, after: &Database, who: int, whom: int)
    requires
        before.wf(),
        unfollowed(before, after, who, whom),
    ensures
        !follows(after, who, whom),
        forall|a: int, b: int|
            !(a == who && b == whom) ==> (follows(after, a, b) <==> follows(before, a, b)),
{
    let fs = before.followers();
    if follows(before, who, whom) {
        let p = pair_index(before, who, whom);
        let gs = after.followers();
        assert(gs == fs.remove(p));
        if follows(after, who, whom) {
            let k = choose|k: int| 0 <= k < gs.len() && (#[trigger] gs[k]).who_id == who && gs[k].whom_id == whom;
            let k2 = if k < p { k } else { k + 1 };
            assert(gs[k] == fs[k2]);
            if k2 < p {
                assert(same_pair(fs[k2], fs[p]));
            } else {
                assert(same_pair(fs[p], fs[k2]));
            }
        }
        assert forall|a: int, b: int| !(a == who && b == whom) implies (follows(after, a, b) <==> follows(before, a, b)) by {
            if follows(before, a, b) {
                let k = choose|k: int| 0 <= k < fs.len() && (#[trigger] fs[k]).who_id == a && fs[k].whom_id == b;
                assert(k != p);
                let k2 = if k < p { k } else { k - 1 };
                assert(gs[k2] == fs[k]);
            }
            if follows(after, a, b) {
                let k = choose|k: int| 0 <= k < gs.len() && (#[trigger] gs[k]).who_id == a && gs[k].whom_id == b;
                let k2 = if k < p { k } else { k + 1 };
                assert(gs[k] == fs[k2]);
            }
        }
    }
}

/// Unfollowing right after following gives back the followers table as it
/// was.
pub proof fn law_follow_unfollow_restores(before: &Database, middle: &Database, after: &Database, who: i32, whom: i32)
    requires
        before.wf(),
        !follows(before, who as int, whom as int),
        middle.followers() == before.followers().push(Followers { who_id: who, whom_id: whom }),
        middle.users() == before.users(),
        middle.messages() == before.messages(),
        middle.wf(),
        unfollowed(middle, after, who as int, whom as int),
    ensures
        after.followers() == before.followers(),
        after.users() == before.users(),
        after.messages() == before.messages(),
{
    law_follow_then_following(before, middle, who, whom);
    let n = before.followers().len() as int;
    let p = pair_index(middle, who as int, whom as int);
    let ms = middle.followers();
    if p != n {
        assert(ms[p] == before.followers()[p]);
        assert(same_pair(ms[p], ms[n]));
    }
    assert(ms.remove(n) =~= before.followers());
}

/// A user just added is found by id, and by name where no earlier user had
/// that name.
pub proof fn law_created_user_found(before: &Database, after: &Database, name: Seq<char>, email: Seq<char>)
    requires
        before.wf(),
        after.wf(),
        user_appended(before, after, name, email),
    ensures
        user_with_id(after, before.users().len() + 1int) == Some(after.users().last()),
        user_with_name(before, name) is None ==> user_with_name(after, name) == Some(after.users().last()),
        user_with_name(after, name) is Some,
{
    let n = before.users().len() as int;
    let us = after.users();
    assert(us[n] == us.last());
    lemma_some_first_named(after, n, name);
    if user_with_name(before, name) is None {
        assert forall|j: int| 0 <= j < n implies (#[trigger] us[j]).username@ != name by {
            assert(us[j] == before.users()[j]);
            if us[j].username@ == name {
                lemma_some_first_named(before, j, name);
            }
        }
        assert(first_named(after, n, name));
        let c = choose|i: int| first_named(after, i, name);
        lemma_first_named_unique(after, c, n, name);
    }
}

/// Where some user has a name, some user is the first with it.
pub proof fn lemma_some_first_named(db: &Database, j: int, name: Seq<char>)
    requires
        0 <= j < db.users().len(),
        db.users()[j].username@ == name,
    ensures
        exists|i: int| first_named(db, i, name),
    decreases j,
{
    if first_named(db, j, name) {
    } else {
        let k = choose|k: int| 0 <= k < j && (#[trigger] db.users()[k]).username@ == name;
        lemma_some_first_named(db, k, name);
    }
}


/// A message dated after every earlier message leads every timeline that
/// shows it, as soon as it is posted.
pub proof fn law_newest_post_leads(
    before: &Database,
    after: &Database,
    f: MessageFilter,
    limit: int,
    author: int,
    text: Seq<char>,
    date: Seq<char>,
    rows: Seq<(Messages, Users)>,
)
    requires
        message_appended(before, after, author, text, date, 0),
        selected(after, f, after.messages().last()),
        limit >= 1,
        forall|j: int|
            0 <= j < before.messages().len() ==> text_lt(
                #[trigger] before.messages()[j].pub_date@,
                date,
            ),
        newest_rows(after, f, limit, rows),
    ensures
        rows.len() >= 1,
        rows[0].0 == after.messages().last(),
{
    let n = before.messages().len() as int;
    let msgs = after.messages();
    assert(msgs[n] == msgs.last());
    assert(msgs.drop_last() == before.messages());
    if forall|i: int| 0 <= i < rows.len() ==> (#[trigger] rows[i]).0.message_id != n + 1 {
        // the new message is left out, so the rows are full and none is older
        assert(rows.len() == limit);
        let first_id = rows[0].0.message_id as int;
        assert(first_id - 1 != n);
        assert(msgs[first_id - 1] == before.messages()[first_id - 1]);
        assert(text_lt(rows[0].0.pub_date@, date));
        if rows.len() > 1 {
            assert(!text_lt(rows[0].0.pub_date@, rows[rows.len() - 1].0.pub_date@));
            lemma_bytes_not_lt_transitive(
                vstd::utf8::encode_utf8(rows[0].0.pub_date@),
                vstd::utf8::encode_utf8(rows.last().0.pub_date@),
                vstd::utf8::encode_utf8(date),
            );
        }
    } else {
        let k = choose|i: int| 0 <= i < rows.len() && (#[trigger] rows[i]).0.message_id == n + 1;
        if k != 0 {
            let first_id = rows[0].0.message_id as int;
            assert(rows[0].0.message_id != rows[k].0.message_id);
            assert(msgs[first_id - 1] == before.messages()[first_id - 1]);
            assert(text_lt(rows[0].0.pub_date@, date));
            assert(!text_lt(rows[0].0.pub_date@, rows[k].0.pub_date@));
        }
    }
}

/// The public timeline shows no flagged message, and each message with its
/// author.
pub proof fn law_public_rows_unflagged(db: &Database, limit: int, rows: Seq<(Messages, Users)>)
    requires
        newest_rows(db, MessageFilter::Public, limit, rows),
    ensures
        forall|i: int|
            0 <= i < rows.len() ==> (#[trigger] rows[i]).0.flagged == 0 && user_with_id(
                db,
                rows[i].0.author_id as int,
            ) == Some(rows[i].1),
{
    assert forall|i: int| 0 <= i < rows.len() implies (#[trigger] rows[i]).0.flagged == 0
        && user_with_id(db, rows[i].0.author_id as int) == Some(rows[i].1) by {
        let id = rows[i].0.message_id as int;
        assert(rows[i] == row(db, db.messages()[id - 1]));
    }
}


proof fn lemma_followed_in_same_users(a: &Database, b: &Database, fs: Seq<Followers>, who: int)
    requires
        a.users() == b.users(),
    ensures
        followed_in(a, fs, who) == followed_in(b, fs, who),
    decreases fs.len(),
{
    if fs.len() > 0 {
        lemma_followed_in_same_users(a, b, fs.drop_last(), who);
    }
}

/// After a follow of a known user is recorded, that user is the last of the
/// users the follower follows.
pub proof fn law_follow_lists_followed(before: &Database, after: &Database, who: i32, whom: i32)
    requires
        after.followers() == before.followers().push(Followers { who_id: who, whom_id: whom }),
        after.users() == before.users(),
        user_with_id(before, whom as int) is Some,
    ensures
        followed_users(after, who as int) == followed_users(before, who as int).push(
            user_with_id(before, whom as int).unwrap(),
        ),
{
    let fs = after.followers();
    assert(fs.drop_last() == before.followers());
    lemma_followed_in_same_users(after, before, before.followers(), who as int);
}


/// The row that `create_user` returns is what a lookup by the same name
/// finds, where no earlier user had that name.
pub proof fn law_create_user_then_get_by_name(before: &Database, after: &Database, r: Users)
    requires
        before.wf(),
        after.wf(),
        r.user_id == before.users().len() + 1,
        after.users() == before.users().push(r),
        after.messages() == before.messages(),
        after.followers() == before.followers(),
        user_with_name(before, r.username@) is None,
    ensures
        user_with_name(after, r.username@) == Some(r),
        user_with_id(after, r.user_id as int) == Some(r),
{
    assert(after.users().drop_last() =~= before.users());
    law_created_user_found(before, after, r.username@, r.email@);
}


/// A user's timeline shows only unflagged messages by that user or by a
/// user that a `followers` row says that user follows (`who_id` the user,
/// `whom_id` the author); a message by someone who merely follows the user
/// is not shown.
pub proof fn law_timeline_rows_by_self_or_followed(db: &Database, id: i32, limit: int, rows: Seq<(Messages, Users)>)
    requires
        newest_rows(db, MessageFilter::Timeline(id), limit, rows),
    ensures
        forall|i: int| 0 <= i < rows.len() ==> {
            &&& (#[trigger] rows[i]).0.flagged == 0
            &&& (rows[i].0.author_id == id || exists|k: int|
                0 <= k < db.followers().len() && (#[trigger] db.followers()[k]).who_id == id
                    && db.followers()[k].whom_id == rows[i].0.author_id)
            &&& user_with_id(db, rows[i].0.author_id as int) == Some(rows[i].1)
        },
{
    assert forall|i: int| 0 <= i < rows.len() implies {
        &&& (#[trigger] rows[i]).0.flagged == 0
        &&& (rows[i].0.author_id == id || exists|k: int|
            0 <= k < db.followers().len() && (#[trigger] db.followers()[k]).who_id == id
                && db.followers()[k].whom_id == rows[i].0.author_id)
        &&& user_with_id(db, rows[i].0.author_id as int) == Some(rows[i].1)
    } by {
        let mid = rows[i].0.message_id as int;
        assert(rows[i] == row(db, db.messages()[mid - 1]));
    }
}

/// Every unflagged message by the user or by someone the user follows is
/// on the timeline, unless the timeline is full with messages that are not
/// older.
pub proof fn law_timeline_rows_complete(db: &Database, id: i32, limit: int, rows: Seq<(Messages, Users)>, j: int)
    requires
        newest_rows(db, MessageFilter::Timeline(id), limit, rows),
        0 <= j < db.messages().len(),
        db.messages()[j].flagged == 0,
        user_with_id(db, db.messages()[j].author_id as int) is Some,
        db.messages()[j].author_id == id || follows(db, id as int, db.messages()[j].author_id as int),
    ensures
        (exists|i: int| 0 <= i < rows.len() && (#[trigger] rows[i]).0.message_id == j + 1) || (
        rows.len() == limit && (rows.len() > 0 ==> !text_lt(rows.last().0.pub_date@, db.messages()[j].pub_date@))),
{
}

/// A profile timeline (`AuthorAll`) holds only messages by that user,
/// whatever the followers table holds; `Author` also leaves out flagged
/// ones.
pub proof fn law_author_rows_by_author(db: &Database, id: i32, limit: int, rows: Seq<(Messages, Users)>, unflagged: bool)
    requires
        newest_rows(db, if unflagged { MessageFilter::Author(id) } else { MessageFilter::AuthorAll(id) }, limit, rows),
    ensures
        forall|i: int| 0 <= i < rows.len() ==> {
            &&& (#[trigger] rows[i]).0.author_id == id
            &&& unflagged ==> rows[i].0.flagged == 0
            &&& user_with_id(db, id as int) == Some(rows[i].1)
        },
{
    assert forall|i: int| 0 <= i < rows.len() implies {
        &&& (#[trigger] rows[i]).0.author_id == id
        &&& unflagged ==> rows[i].0.flagged == 0
        &&& user_with_id(db, id as int) == Some(rows[i].1)
    } by {
        let mid = rows[i].0.message_id as int;
        assert(rows[i] == row(db, db.messages()[mid - 1]));
    }
}

} // verus!
