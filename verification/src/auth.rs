use vstd::prelude::*;

use crate::crypt;
use crate::store::{
    lemma_filter_element_from, lemma_filter_push,
    has_session_for, has_token, has_user_id, has_username,
    sessions_ok, token_ix, user_ix_by_id, user_ix_by_name, lemma_token_ix,
    lemma_user_ix_by_id, lemma_user_ix_by_name, Role, SessionRecord, SessionV, Store, StoreV,
    UserRecord,
    UserV,
};
use crate::token;
use crate::SESSION_EXPIRY_SECONDS;

verus! {

/// The failures the session machinery can raise on its own: the
/// freshly minted token already exists (a primary key conflict, which
/// the token entropy makes all but impossible), or the operating
/// system's entropy source yielded no random bytes for a fresh token
/// (which does not occur under correct configuration).
#[derive(Clone, Copy, PartialEq, Eq, Structural, Debug)]
pub enum Error {
    Conflict,
    TokenUnavailable,
}

/// A session as handed to callers: its opaque token and absolute expiry.
#[derive(Debug)]
pub struct Session {
    pub id: String,
    pub expires: i64,
}

/// Mathematical image of a `Session`.
pub struct SessionInfoV {
    pub id: Seq<char>,
    pub expires: i64,
}

impl View for Session {
    type V = SessionInfoV;

    open spec fn view(&self) -> SessionInfoV {
        SessionInfoV { id: self.id@, expires: self.expires }
    }
}

impl Session {
    /// A session is valid strictly before its expiry.
    pub fn is_valid(&self, now: i64) -> (r: bool)
        ensures
            r == (self.expires > now),
    {
        self.expires > now
    }
}

/// A resolved user account, together with the session it was found by or
/// the first session on record, if any.
#[derive(Debug)]
pub struct User {
    pub id: i32,
    pub username: String,
    pub password_hash: String,
    pub roles: Vec<Role>,
    pub session: Option<Session>,
}

/// Mathematical image of a `User`.
pub struct UserDataV {
    pub id: i32,
    pub username: Seq<char>,
    pub password_hash: Seq<char>,
    pub roles: Seq<Role>,
    pub session: Option<SessionInfoV>,
}

impl View for User {
    type V = UserDataV;

    open spec fn view(&self) -> UserDataV {
        UserDataV {
            id: self.id,
            username: self.username@,
            password_hash: self.password_hash@,
            roles: self.roles@,
            session: match self.session {
                Option::None => Option::None,
                Option::Some(s) => Option::Some(s@),
            },
        }
    }
}

/// The user data that a stored account resolves to, carrying `sess` as
/// its session.
pub open spec fn user_data_of(u: UserV, sess: Option<SessionV>) -> UserDataV {
    UserDataV {
        id: u.id,
        username: u.username,
        password_hash: u.password_hash,
        roles: u.roles,
        session: match sess {
            Option::None => Option::None,
            Option::Some(s) => Option::Some(SessionInfoV { id: s.token, expires: s.expires }),
        },
    }
}

impl User {
    /// Whether `password` verifies against this account's stored hash.
    pub fn check_password(&self, password: &str) -> (r: bool)
        ensures
            r == crypt::password_matches(password@, self.password_hash@),
    {
        crypt::check_password(password, &self.password_hash)
    }
}

/// An element-wise copy of a role list.
fn copy_roles(v: &Vec<Role>) -> (r: Vec<Role>)
    ensures
        r@ == v@,
{
    let mut r: Vec<Role> = Vec::new();
    let n = v.len();
    let mut i: usize = 0;
    while i < n
        invariant
            n == v.len(),
            i <= n,
            r@ == v@.subrange(0, i as int),
        decreases n - i,
    {
        r.push(v[i]);
        proof {
            assert(r@ =~= v@.subrange(0, i + 1));
        }
        i += 1;
    }
    proof {
        assert(r@ =~= v@);
    }
    r
}

/// Assemble the `User` data for the account at `uix`, carrying the
/// session at `six` (if given) as its session.
fn assemble_user(store: &Store, uix: usize, six: Option<usize>) -> (r: User)
    requires
        uix < store@.users.len(),
        six matches Some(s) ==> s < store@.sessions.len(),
    ensures
        r@ == user_data_of(
            store@.users[uix as int],
            match six {
                Option::None => Option::None,
                Option::Some(s) => Option::Some(store@.sessions[s as int]),
            },
        ),
{
    let u = &store.users[uix];
    let session = match six {
        None => None,
        Some(s) => Some(
            Session {
                id: store.sessions[s].token.clone(),
                expires: store.sessions[s].expires,
            },
        ),
    };
    User {
        id: u.id,
        username: u.username.clone(),
        password_hash: u.password_hash.clone(),
        roles: copy_roles(&u.roles),
        session,
    }
}

/// Resolve an account by exact username, joined with its first session
/// on record, if any. Which session is found is unspecified when a user
/// holds several, as the store does not rule that out.
pub fn get_user_by_name(store: &Store, name: &str) -> (r: Option<User>)
    ensures
        match r {
            Option::None => !has_username(store@.users, name@),
            Option::Some(u) => {
                &&& has_username(store@.users, name@)
                &&& exists|i: int|
                    0 <= i < store@.users.len() && (#[trigger] store@.users[i]).username == name@
                        && u@.id == store@.users[i].id
                &&& match u@.session {
                    Option::None => !has_session_for(store@.sessions, u@.id),
                    Option::Some(si) => exists|k: int|
                        0 <= k < store@.sessions.len()
                            && (#[trigger] store@.sessions[k]).user_id == u@.id
                            && store@.sessions[k].token == si.id
                            && store@.sessions[k].expires == si.expires,
                }
                &&& exists|i: int|
                    0 <= i < store@.users.len() && (#[trigger] store@.users[i]).username == name@
                        && u@.username == store@.users[i].username
                        && u@.password_hash == store@.users[i].password_hash
                        && u@.roles == store@.users[i].roles
            },
        },
{
    let uix = match store.find_user_by_name(name) {
        None => {
            return None;
        },
        Some(i) => i,
    };
    let six = store.find_session_by_user(store.users[uix].id);
    let u = assemble_user(store, uix, six);
    Some(u)
}

/// Resolve an account by session token, joined with that session.
pub fn get_user_by_session_id(store: &Store, session_id: &str) -> (r: Option<User>)
    requires
        store@.wf(),
    ensures
        match r {
            Option::None => !has_token(store@.sessions, session_id@),
            Option::Some(u) => {
                &&& has_token(store@.sessions, session_id@)
                &&& ({
                    let sess = store@.sessions[token_ix(store@.sessions, session_id@)];
                    u@ == user_data_of(
                        store@.users[user_ix_by_id(store@.users, sess.user_id)],
                        Option::Some(sess),
                    )
                })
            },
        },
{
    let six = match store.find_session_by_token(session_id) {
        None => {
            return None;
        },
        Some(i) => i,
    };
    proof {
        lemma_token_ix(store@.sessions, store@.users, six as int);
    }
    let uid = store.sessions[six].user_id;
    let uix = match store.find_user_by_id(uid) {
        None => {
            proof {
                assert(has_user_id(store@.users, store@.sessions[six as int].user_id));
                assert(false);
            }
            return None;
        },
        Some(i) => i,
    };
    proof {
        lemma_user_ix_by_id(store@.users, uix as int);
    }
    Some(assemble_user(store, uix, Some(six)))
}

/// Insert a session row; refused with `Conflict` when the token is
/// already present (primary key), which entropy rules out in practice.
pub fn create_session(store: &mut Store, user_id: i32, session_id: String, expires: i64) -> (r:
    Result<String, Error>)
    requires
        old(store)@.wf(),
        has_user_id(old(store)@.users, user_id),
    ensures
        final(store)@.wf(),
        final(store)@.users == old(store)@.users,
        final(store)@.sheets == old(store)@.sheets,
        final(store)@.solutions == old(store)@.solutions,
        final(store)@.next_sheet_id == old(store)@.next_sheet_id,
        final(store)@.next_solution_id == old(store)@.next_solution_id,
        r matches Err(Error::Conflict)
            ==> has_token(old(store)@.sessions, session_id@) && final(store)@ == old(store)@,
        r matches Ok(t)
            ==> !has_token(old(store)@.sessions, session_id@) && t@ == session_id@
                && final(store)@.sessions == old(store)@.sessions.push(
                SessionV { token: session_id@, user_id, expires },
            ),
{
    if store.find_session_by_token(session_id.as_str()).is_some() {
        return Err(Error::Conflict);
    }
    let ghost pre = store@;
    let token_copy = session_id.clone();
    store.sessions.push(SessionRecord { token: session_id, user_id, expires });
    proof {
        assert(store@.sessions =~= pre.sessions.push(
            SessionV { token: token_copy@, user_id, expires },
        ));
        assert(store@.users =~= pre.users);
        assert(store@.sheets =~= pre.sheets);
        assert(store@.solutions =~= pre.solutions);
        assert(sessions_ok(store@.sessions, store@.users)) by {
            assert(forall|k: int|
                0 <= k < pre.sessions.len() ==> (#[trigger] store@.sessions[k])
                    == pre.sessions[k]);
        }
    }
    Ok(token_copy)
}

/// Update the expiry of an existing session; a no-op (not an error) when
/// the token is absent.
pub fn renew_session(store: &mut Store, session_id: &str, expires: i64)
    requires
        old(store)@.wf(),
    ensures
        final(store)@.wf(),
        final(store)@.users == old(store)@.users,
        final(store)@.sheets == old(store)@.sheets,
        final(store)@.solutions == old(store)@.solutions,
        final(store)@.next_sheet_id == old(store)@.next_sheet_id,
        final(store)@.next_solution_id == old(store)@.next_solution_id,
        !has_token(old(store)@.sessions, session_id@) ==> final(store)@ == old(store)@,
        has_token(old(store)@.sessions, session_id@) ==> final(store)@.sessions
            == old(store)@.sessions.update(
            token_ix(old(store)@.sessions, session_id@),
            (SessionV {
                expires,
                ..old(store)@.sessions[token_ix(old(store)@.sessions, session_id@)]
            }),
        ),
{
    let six = match store.find_session_by_token(session_id) {
        None => {
            return ;
        },
        Some(i) => i,
    };
    proof {
        lemma_token_ix(store@.sessions, store@.users, six as int);
    }
    let ghost pre = store@;
    let mut rec = store.sessions.remove(six);
    rec.expires = expires;
    store.sessions.insert(six, rec);
    proof {
        let tix = token_ix(pre.sessions, session_id@);
        assert(store@.sessions =~= pre.sessions.update(
            tix,
            (SessionV { expires, ..pre.sessions[tix] }),
        ));
        assert(store@.users =~= pre.users);
        assert(store@.sheets =~= pre.sheets);
        assert(store@.solutions =~= pre.solutions);
        assert(sessions_ok(store@.sessions, store@.users)) by {
            assert(forall|k: int|
                0 <= k < pre.sessions.len() ==> (#[trigger] store@.sessions[k]).token
                    == pre.sessions[k].token && store@.sessions[k].user_id
                    == pre.sessions[k].user_id);
        }
    }
}

/// Remove every session a user holds (logout, and defensive cleanup);
/// idempotent.
pub fn delete_session(store: &mut Store, user_id: i32)
    requires
        old(store)@.wf(),
    ensures
        final(store)@.wf(),
        final(store)@.users == old(store)@.users,
        final(store)@.sheets == old(store)@.sheets,
        final(store)@.solutions == old(store)@.solutions,
        final(store)@.next_sheet_id == old(store)@.next_sheet_id,
        final(store)@.next_solution_id == old(store)@.next_solution_id,
        final(store)@.sessions == old(store)@.sessions.filter(
            |s: SessionV| s.user_id != user_id,
        ),
{
    let ghost p = |s: SessionV| s.user_id != user_id;
    let ghost orig = store@.sessions;
    let mut kept: Vec<SessionRecord> = Vec::new();
    let n = store.sessions.len();
    let mut i: usize = 0;
    proof {
        assert(orig.subrange(0, 0).filter(p) =~= Seq::<SessionV>::empty());
        assert(Seq::<SessionV>::empty().filter(p) =~= Seq::<SessionV>::empty()) by {
            reveal(Seq::filter);
        }
    }
    while i < n
        invariant
            *store == *old(store),
            orig == store@.sessions,
            n == store.sessions.len(),
            i <= n,
            p == (|s: SessionV| s.user_id != user_id),
            kept@.map_values(|s: SessionRecord| s@) == orig.subrange(0, i as int).filter(p),
        decreases n - i,
    {
        let ghost prefix = orig.subrange(0, i as int);
        proof {
            assert(orig.subrange(0, i + 1) =~= prefix.push(orig[i as int]));
            lemma_filter_push(prefix, orig[i as int], p);
        }
        if store.sessions[i].user_id != user_id {
            let rec = SessionRecord {
                token: store.sessions[i].token.clone(),
                user_id: store.sessions[i].user_id,
                expires: store.sessions[i].expires,
            };
            kept.push(rec);
            proof {
                assert(kept@.map_values(|s: SessionRecord| s@) =~= orig.subrange(
                    0,
                    i + 1,
                ).filter(p));
            }
        }
        i += 1;
    }
    proof {
        assert(orig.subrange(0, n as int) =~= orig);
    }
    store.sessions = kept;
    proof {
        let post = store@;
        let pre = old(store)@;
        assert(post.sessions == orig.filter(p));
        assert(post.users =~= pre.users);
        assert(post.sheets =~= pre.sheets);
        assert(post.solutions =~= pre.solutions);
        assert(sessions_ok(post.sessions, post.users)) by {
            assert forall|a: int, b: int|
                0 <= a < post.sessions.len() && 0 <= b < post.sessions.len() && a != b implies (
            #[trigger] post.sessions[a]).token != (#[trigger] post.sessions[b]).token by {
                lemma_filter_element_from(orig, p, a);
                lemma_filter_element_from(orig, p, b);
                let ja = choose|j: int|
                    0 <= j < orig.len() && #[trigger] orig[j] == post.sessions[a];
                let jb = choose|j: int|
                    0 <= j < orig.len() && #[trigger] orig[j] == post.sessions[b];
                if post.sessions[a].token == post.sessions[b].token {
                    assert(orig[ja].token == orig[jb].token);
                    assert(ja == jb);
                    assert(orig.filter(p) =~= orig.filter(p));
                    orig.lemma_filter_len(p);
                    // two distinct positions in the filtered sequence cannot
                    // both come from this one row, whose token is unique
                    assert(post.sessions[a] == post.sessions[b]);
                    lemma_filter_distinct_positions(orig, p, a, b);
                }
            }
            assert forall|k: int| 0 <= k < post.sessions.len() implies has_user_id(
                post.users,
                (#[trigger] post.sessions[k]).user_id,
            ) by {
                lemma_filter_element_from(orig, p, k);
                let j = choose|j: int| 0 <= j < orig.len() && #[trigger] orig[j] == post.sessions[k];
                assert(has_user_id(pre.users, orig[j].user_id));
            }
        }
    }
}

/// Two distinct positions of a filtered sequence never hold one and the
/// same occurrence; with unique tokens they cannot hold equal values.
proof fn lemma_filter_distinct_positions(
    s: Seq<SessionV>,
    p: spec_fn(SessionV) -> bool,
    a: int,
    b: int,
)
    requires
        0 <= a < s.filter(p).len(),
        0 <= b < s.filter(p).len(),
        a != b,
        forall|i: int, j: int|
            #![trigger s[i], s[j]]
            0 <= i < s.len() && 0 <= j < s.len() && i != j ==> s[i].token != s[j].token,
    ensures
        s.filter(p)[a].token != s.filter(p)[b].token,
    decreases s.len(),
{
    reveal(Seq::filter);
    if s.len() > 0 {
        let f = s.filter(p);
        let fd = s.drop_last().filter(p);
        if p(s.last()) {
            if a < f.len() - 1 && b < f.len() - 1 {
                lemma_filter_distinct_positions(s.drop_last(), p, a, b);
            } else {
                // one of them is the last, which comes from s.last()
                let other = if a < f.len() - 1 {
                    a
                } else {
                    b
                };
                lemma_filter_element_from(s.drop_last(), p, other);
                let j = choose|j: int|
                    0 <= j < s.drop_last().len() && #[trigger] s.drop_last()[j] == fd[other];
                assert(s[j].token != s.last().token);
            }
        } else {
            lemma_filter_distinct_positions(s.drop_last(), p, a, b);
        }
    }
}


/// The pointwise facts that keep `sessions_ok` when only expiries change.
proof fn lemma_sessions_ok_pointwise(pre: Seq<SessionV>, post: Seq<SessionV>, users: Seq<UserV>)
    requires
        sessions_ok(pre, users),
        post.len() == pre.len(),
        forall|k: int|
            0 <= k < pre.len() ==> (#[trigger] post[k]).token == pre[k].token && post[k].user_id
                == pre[k].user_id,
    ensures
        sessions_ok(post, users),
{
}

/// Appending a session with a fresh token and a provisioned user keeps
/// `sessions_ok`.
proof fn lemma_sessions_ok_push(sessions: Seq<SessionV>, users: Seq<UserV>, sv: SessionV)
    requires
        sessions_ok(sessions, users),
        !has_token(sessions, sv.token),
        has_user_id(users, sv.user_id),
    ensures
        sessions_ok(sessions.push(sv), users),
{
    let post = sessions.push(sv);
    assert forall|a: int, b: int|
        0 <= a < post.len() && 0 <= b < post.len() && a != b implies (#[trigger] post[a]).token != (
    #[trigger] post[b]).token by {
        if a < sessions.len() && b < sessions.len() {
            assert(sessions[a] == post[a] && sessions[b] == post[b]);
        } else if a < sessions.len() {
            assert(post[a] == sessions[a]);
            assert(!(sessions[a].token == sv.token));
        } else {
            assert(post[b] == sessions[b]);
            assert(!(sessions[b].token == sv.token));
        }
    }
}

/// Whether `username` names an account and `password` verifies against
/// its stored hash.
pub open spec fn credentials_ok(users: Seq<UserV>, username: Seq<char>, password: Seq<char>) -> bool {
    &&& has_username(users, username)
    &&& crypt::password_matches(
        password,
        users[user_ix_by_name(users, username)].password_hash,
    )
}

/// The session list after the session at `k` had its expiry pushed to
/// `expires`.
pub open spec fn renewed_at(sessions: Seq<SessionV>, k: int, expires: i64) -> Seq<SessionV> {
    sessions.update(k, (SessionV { expires, ..sessions[k] }))
}

/// No two sessions belong to this user: what the sequential login flow
/// maintains, though the store alone does not enforce it.
pub open spec fn at_most_one_session_for(sessions: Seq<SessionV>, user_id: i32) -> bool {
    forall|i: int, j: int|
        #![trigger sessions[i], sessions[j]]
        0 <= i < sessions.len() && 0 <= j < sessions.len() && sessions[i].user_id == user_id
            && sessions[j].user_id == user_id ==> i == j
}

/// The view of a token result: the token as a character sequence.
pub open spec fn token_result_view(r: Result<Option<String>, Error>) -> Result<
    Option<Seq<char>>,
    Error,
> {
    match r {
        Result::Ok(Option::None) => Result::Ok(Option::None),
        Result::Ok(Option::Some(s)) => Result::Ok(Option::Some(s@)),
        Result::Err(e) => Result::Err(e),
    }
}

/// The view of an optional resolved user.
pub open spec fn opt_user_view(r: Option<User>) -> Option<UserDataV> {
    match r {
        Option::None => Option::None,
        Option::Some(u) => Option::Some(u@),
    }
}

/// The renew outcome of a login: the user's session at `k` had its expiry
/// pushed to `expires` and its token returned.
pub open spec fn renew_witness(
    pre: StoreV,
    post: StoreV,
    uid: i32,
    expires: i64,
    r: Result<Option<Seq<char>>, Error>,
    k: int,
) -> bool {
    &&& 0 <= k < pre.sessions.len()
    &&& pre.sessions[k].user_id == uid
    &&& r == Result::<Option<Seq<char>>, Error>::Ok(Option::Some(pre.sessions[k].token))
    &&& post.sessions == renewed_at(pre.sessions, k, expires)
}

/// Everything `login` promises, stated over the store's image.
///
/// Unknown usernames and wrong passwords yield `Ok(None)` and leave the
/// store as it was. With correct credentials, an existing session of the
/// user is renewed to `now + SESSION_EXPIRY_SECONDS` and its token
/// returned; with none, a freshly minted token is inserted with that
/// expiry, except that a colliding mint is refused with `Conflict`.
pub open spec fn login_post(
    pre: StoreV,
    post: StoreV,
    username: Seq<char>,
    password: Seq<char>,
    now: i64,
    r: Result<Option<Seq<char>>, Error>,
) -> bool {
    let expires = (now + SESSION_EXPIRY_SECONDS) as i64;
    let uid = pre.users[user_ix_by_name(pre.users, username)].id;
    &&& post.users == pre.users
    &&& post.sheets == pre.sheets
    &&& post.solutions == pre.solutions
    &&& post.next_sheet_id == pre.next_sheet_id
    &&& post.next_solution_id == pre.next_solution_id
    &&& !credentials_ok(pre.users, username, password) ==> (r matches Ok(None)) && post == pre
    &&& credentials_ok(pre.users, username, password) && has_session_for(pre.sessions, uid)
        ==> exists|k: int| #[trigger] renew_witness(pre, post, uid, expires, r, k)
    &&& credentials_ok(pre.users, username, password) && !has_session_for(pre.sessions, uid)
        ==> match r {
        Result::Ok(Option::Some(t)) => !has_token(pre.sessions, t) && post.sessions
            == pre.sessions.push(SessionV { token: t, user_id: uid, expires }),
        Result::Ok(Option::None) => false,
        Result::Err(e) => (e == Error::Conflict || e == Error::TokenUnavailable) && post == pre,
    }
}

/// Everything `validate_session` promises, stated over the store's image.
///
/// An unknown token resolves to nothing. A live session resolves to its
/// user, the store untouched. An expired session resolves to nothing and
/// every session of its user is removed on the way (lazy expiry).
pub open spec fn validate_post(
    pre: StoreV,
    post: StoreV,
    token: Seq<char>,
    now: i64,
    r: Option<UserDataV>,
) -> bool {
    &&& post.users == pre.users
    &&& post.sheets == pre.sheets
    &&& post.solutions == pre.solutions
    &&& post.next_sheet_id == pre.next_sheet_id
    &&& post.next_solution_id == pre.next_solution_id
    &&& !has_token(pre.sessions, token) ==> post == pre && (r matches None)
    &&& has_token(pre.sessions, token) ==> ({
        let sess = pre.sessions[token_ix(pre.sessions, token)];
        &&& sess.expires > now ==> post == pre && r == Option::Some(
            user_data_of(
                pre.users[user_ix_by_id(pre.users, sess.user_id)],
                Option::Some(sess),
            ),
        )
        &&& sess.expires <= now ==> (r matches None) && post.sessions == pre.sessions.filter(
            |s: SessionV| s.user_id != sess.user_id,
        )
    })
}

/// Log a user in: look the account up by exact username, verify the
/// password, and hand back a session token — the existing session's,
/// renewed, or a freshly minted one. Bad credentials are a normal
/// `Ok(None)`, never an error.
pub fn login(store: &mut Store, username: &str, password: &str, now: i64) -> (r: Result<
    Option<String>,
    Error,
>)
    requires
        old(store)@.wf(),
        now <= i64::MAX - SESSION_EXPIRY_SECONDS,
    ensures
        final(store)@.wf(),
        login_post(old(store)@, final(store)@, username@, password@, now, token_result_view(r)),
{
    let uix = match store.find_user_by_name(username) {
        None => {
            return Ok(None);
        },
        Some(i) => i,
    };
    proof {
        lemma_user_ix_by_name(store@.users, uix as int);
    }
    if !crypt::check_password(password, &store.users[uix].password_hash) {
        return Ok(None);
    }
    let user_id = store.users[uix].id;
    let expires = now + SESSION_EXPIRY_SECONDS;
    let ghost pre = store@;
    match store.find_session_by_user(user_id) {
        Some(six) => {
            let mut rec = store.sessions.remove(six);
            rec.expires = expires;
            let tok = rec.token.clone();
            store.sessions.insert(six, rec);
            proof {
                assert(store@.sessions =~= renewed_at(pre.sessions, six as int, expires));
                assert(store@.users =~= pre.users);
                assert(store@.sheets =~= pre.sheets);
                assert(store@.solutions =~= pre.solutions);
                lemma_sessions_ok_pointwise(pre.sessions, store@.sessions, store@.users);
                assert(pre.sessions[six as int].user_id == user_id);
                assert(renew_witness(
                    pre,
                    store@,
                    user_id,
                    expires,
                    Result::Ok(Option::Some(tok@)),
                    six as int,
                ));
            }
            Ok(Some(tok))
        },
        None => {
            let minted = match token::generate_session_id() {
                Ok(t) => t,
                Err(()) => {
                    return Err(Error::TokenUnavailable);
                },
            };
            if store.find_session_by_token(minted.as_str()).is_some() {
                return Err(Error::Conflict);
            }
            let tok = minted.clone();
            store.sessions.push(
                SessionRecord { token: minted, user_id, expires },
            );
            proof {
                assert(store@.sessions =~= pre.sessions.push(
                    SessionV { token: tok@, user_id, expires },
                ));
                assert(store@.users =~= pre.users);
                assert(store@.sheets =~= pre.sheets);
                assert(store@.solutions =~= pre.solutions);
                lemma_sessions_ok_push(
                    pre.sessions,
                    pre.users,
                    SessionV { token: tok@, user_id, expires },
                );
            }
            Ok(Some(tok))
        },
    }
}

/// Resolve a session token to its user. A live session leaves the store
/// untouched; an expired one is deleted on the way (lazy expiry) and
/// resolves to nothing, as does an unknown token.
pub fn validate_session(store: &mut Store, session_id: &str, now: i64) -> (r: Option<User>)
    requires
        old(store)@.wf(),
    ensures
        final(store)@.wf(),
        validate_post(old(store)@, final(store)@, session_id@, now, opt_user_view(r)),
{
    let six = match store.find_session_by_token(session_id) {
        None => {
            return None;
        },
        Some(i) => i,
    };
    proof {
        lemma_token_ix(store@.sessions, store@.users, six as int);
    }
    let user_id = store.sessions[six].user_id;
    if store.sessions[six].expires > now {
        let uix = match store.find_user_by_id(user_id) {
            None => {
                proof {
                    assert(has_user_id(store@.users, store@.sessions[six as int].user_id));
                    assert(false);
                }
                return None;
            },
            Some(i) => i,
        };
        proof {
            lemma_user_ix_by_id(store@.users, uix as int);
        }
        Some(assemble_user(store, uix, Some(six)))
    } else {
        delete_session(store, user_id);
        None
    }
}

/// Log a user out by removing every session on record for them;
/// idempotent.
pub fn logout(store: &mut Store, user_id: i32)
    requires
        old(store)@.wf(),
    ensures
        final(store)@.wf(),
        final(store)@.users == old(store)@.users,
        final(store)@.sheets == old(store)@.sheets,
        final(store)@.solutions == old(store)@.solutions,
        final(store)@.next_sheet_id == old(store)@.next_sheet_id,
        final(store)@.next_solution_id == old(store)@.next_solution_id,
        final(store)@.sessions == old(store)@.sessions.filter(
            |s: SessionV| s.user_id != user_id,
        ),
{
    delete_session(store, user_id);
}


/// Why provisioning a user account failed.
#[derive(Clone, Copy, PartialEq, Eq, Structural, Debug)]
pub enum RegisterError {
    /// The id or the username is already taken.
    Taken,
    /// The hasher could not draw its random salt.
    Hashing,
}

/// Provision a user account with a freshly hashed password, as the
/// administrative tooling does. A taken id or username is refused
/// before any hashing work is done; either error leaves the store
/// untouched.
pub fn register(
    store: &mut Store,
    id: i32,
    username: String,
    password: &str,
    roles: Vec<Role>,
) -> (r: Result<(), RegisterError>)
    requires
        old(store)@.wf(),
    ensures
        final(store)@.wf(),
        final(store)@.sessions == old(store)@.sessions,
        final(store)@.sheets == old(store)@.sheets,
        final(store)@.solutions == old(store)@.solutions,
        (r matches Err(RegisterError::Taken)) <==> (has_user_id(old(store)@.users, id)
            || has_username(old(store)@.users, username@)),
        r matches Err(e) ==> final(store)@ == old(store)@,
        r matches Ok(()) ==> ({
            &&& final(store)@.users.len() == old(store)@.users.len() + 1
            &&& ({
                let u = final(store)@.users.last();
                &&& u.id == id
                &&& u.username == username@
                &&& u.roles == roles@
                &&& crypt::password_matches(password@, u.password_hash)
            })
            &&& final(store)@.users.drop_last() == old(store)@.users
        }),
{
    if store.find_user_by_id(id).is_some() || store.find_user_by_name(username.as_str()).is_some() {
        return Err(RegisterError::Taken);
    }
    let hash = match crypt::hash_password(password) {
        Ok(h) => h,
        Err(_) => {
            return Err(RegisterError::Hashing);
        },
    };
    let ghost hashv = hash@;
    let record = UserRecord { id, username, password_hash: hash, roles };
    match store.add_user(record) {
        Ok(()) => {
            proof {
                assert(store@.users.last().password_hash == hashv);
                assert(store@.users.drop_last() =~= old(store)@.users);
            }
            Ok(())
        },
        Err(()) => {
            proof {
                assert(false);
            }
            Err(RegisterError::Taken)
        },
    }
}

/// For all valid credentials, a successful login followed by a session
/// validation before the expiry window has passed resolves a user whose
/// username matches, and leaves the store as the login left it.
pub proof fn lemma_login_then_validate(
    pre: StoreV,
    mid: StoreV,
    post: StoreV,
    username: Seq<char>,
    password: Seq<char>,
    now1: i64,
    now2: i64,
    tok: Seq<char>,
    r: Option<UserDataV>,
)
    requires
        pre.wf(),
        now1 <= i64::MAX - SESSION_EXPIRY_SECONDS,
        login_post(pre, mid, username, password, now1, Result::Ok(Option::Some(tok))),
        validate_post(mid, post, tok, now2, r),
        now2 < now1 + SESSION_EXPIRY_SECONDS,
    ensures
        r matches Some(u) && u.username == username,
        post == mid,
{
    let lr = Result::<Option<Seq<char>>, Error>::Ok(Option::Some(tok));
    assert(credentials_ok(pre.users, username, password));
    let uix = user_ix_by_name(pre.users, username);
    assert(0 <= uix < pre.users.len() && pre.users[uix].username == username);
    let uid = pre.users[uix].id;
    lemma_user_ix_by_id(pre.users, uix);
    let expires = (now1 + SESSION_EXPIRY_SECONDS) as i64;
    if has_session_for(pre.sessions, uid) {
        let k = choose|k: int| #[trigger] renew_witness(pre, mid, uid, expires, lr, k);
        assert(renew_witness(pre, mid, uid, expires, lr, k));
        assert(pre.sessions[k].token == tok);
        assert(mid.sessions == renewed_at(pre.sessions, k, expires));
        lemma_sessions_ok_pointwise(pre.sessions, mid.sessions, mid.users);
        assert(mid.sessions[k].token == tok && mid.sessions[k].user_id == uid
            && mid.sessions[k].expires == expires);
        lemma_token_ix(mid.sessions, mid.users, k);
        assert(mid.sessions[token_ix(mid.sessions, tok)].expires > now2);
    } else {
        assert(!has_token(pre.sessions, tok) && mid.sessions == pre.sessions.push(
            SessionV { token: tok, user_id: uid, expires },
        ));
        assert(has_user_id(pre.users, uid));
        lemma_sessions_ok_push(
            pre.sessions,
            pre.users,
            SessionV { token: tok, user_id: uid, expires },
        );
        let k = mid.sessions.len() - 1;
        assert(mid.sessions[k].token == tok && mid.sessions[k].user_id == uid
            && mid.sessions[k].expires == expires);
        lemma_token_ix(mid.sessions, mid.users, k);
        assert(mid.sessions[token_ix(mid.sessions, tok)].expires > now2);
    }
}

/// A login with a wrong password is a normal `Ok(None)` and neither
/// creates nor renews any session: the store is left exactly as it was.
pub proof fn lemma_login_wrong_password(
    pre: StoreV,
    post: StoreV,
    username: Seq<char>,
    password: Seq<char>,
    now: i64,
    r: Result<Option<Seq<char>>, Error>,
)
    requires
        login_post(pre, post, username, password, now, r),
        has_username(pre.users, username),
        !crypt::password_matches(
            password,
            pre.users[user_ix_by_name(pre.users, username)].password_hash,
        ),
    ensures
        r matches Ok(None),
        post == pre,
{
    assert(!credentials_ok(pre.users, username, password));
}

/// Two sequential logins for one user hand back one and the same token,
/// the second with a later expiry, and a user who held at most one
/// session still holds exactly one.
pub proof fn lemma_login_twice(
    pre: StoreV,
    s1: StoreV,
    s2: StoreV,
    username: Seq<char>,
    password: Seq<char>,
    now1: i64,
    now2: i64,
    t1: Seq<char>,
    t2: Seq<char>,
)
    requires
        pre.wf(),
        at_most_one_session_for(
            pre.sessions,
            pre.users[user_ix_by_name(pre.users, username)].id,
        ),
        now1 < now2,
        now1 <= i64::MAX - SESSION_EXPIRY_SECONDS,
        now2 <= i64::MAX - SESSION_EXPIRY_SECONDS,
        login_post(pre, s1, username, password, now1, Result::Ok(Option::Some(t1))),
        login_post(s1, s2, username, password, now2, Result::Ok(Option::Some(t2))),
    ensures
        t2 == t1,
        ({
            let uid = pre.users[user_ix_by_name(pre.users, username)].id;
            &&& at_most_one_session_for(s2.sessions, uid)
            &&& exists|k: int|
                #![trigger s2.sessions[k]]
                0 <= k < s2.sessions.len() && s2.sessions[k].user_id == uid
                    && s2.sessions[k].token == t1 && s2.sessions[k].expires == now2
                    + SESSION_EXPIRY_SECONDS && s2.sessions[k].expires > now1
                    + SESSION_EXPIRY_SECONDS
        }),
{
    let r1 = Result::<Option<Seq<char>>, Error>::Ok(Option::Some(t1));
    let r2 = Result::<Option<Seq<char>>, Error>::Ok(Option::Some(t2));
    assert(credentials_ok(pre.users, username, password));
    let uix = user_ix_by_name(pre.users, username);
    let uid = pre.users[uix].id;
    let e1 = (now1 + SESSION_EXPIRY_SECONDS) as i64;
    let e2 = (now2 + SESSION_EXPIRY_SECONDS) as i64;
    assert(s1.users == pre.users);
    assert(credentials_ok(s1.users, username, password));
    if has_session_for(pre.sessions, uid) {
        let k1 = choose|k: int| #[trigger] renew_witness(pre, s1, uid, e1, r1, k);
        assert(renew_witness(pre, s1, uid, e1, r1, k1));
        assert(s1.sessions == renewed_at(pre.sessions, k1, e1));
        assert(s1.sessions[k1].user_id == uid);
        assert(has_session_for(s1.sessions, uid));
        let k2 = choose|k: int| #[trigger] renew_witness(s1, s2, uid, e2, r2, k);
        assert(renew_witness(s1, s2, uid, e2, r2, k2));
        assert(forall|i: int|
            0 <= i < pre.sessions.len() ==> (#[trigger] s1.sessions[i]).user_id
                == pre.sessions[i].user_id);
        assert(at_most_one_session_for(s1.sessions, uid));
        assert(k2 == k1);
        assert(t2 == s1.sessions[k1].token);
        assert(t2 == t1);
        assert(s2.sessions == renewed_at(s1.sessions, k1, e2));
        assert(s2.sessions[k1].user_id == uid && s2.sessions[k1].token == t1
            && s2.sessions[k1].expires == e2);
        assert(forall|i: int|
            0 <= i < s1.sessions.len() ==> (#[trigger] s2.sessions[i]).user_id
                == s1.sessions[i].user_id);
        assert(at_most_one_session_for(s2.sessions, uid));
    } else {
        assert(s1.sessions == pre.sessions.push(SessionV { token: t1, user_id: uid, expires: e1 }));
        let last = s1.sessions.len() - 1;
        assert(s1.sessions[last].user_id == uid);
        assert(has_session_for(s1.sessions, uid));
        assert(forall|i: int|
            0 <= i < pre.sessions.len() ==> (#[trigger] pre.sessions[i]).user_id != uid);
        assert(at_most_one_session_for(s1.sessions, uid)) by {
            assert(forall|i: int|
                0 <= i < last ==> (#[trigger] s1.sessions[i]).user_id
                    == pre.sessions[i].user_id);
        }
        let k2 = choose|k: int| #[trigger] renew_witness(s1, s2, uid, e2, r2, k);
        assert(renew_witness(s1, s2, uid, e2, r2, k2));
        assert(k2 == last);
        assert(t2 == t1);
        assert(s2.sessions == renewed_at(s1.sessions, last, e2));
        assert(s2.sessions[last].user_id == uid && s2.sessions[last].token == t1
            && s2.sessions[last].expires == e2);
        assert(forall|i: int|
            0 <= i < s1.sessions.len() ==> (#[trigger] s2.sessions[i]).user_id
                == s1.sessions[i].user_id);
        assert(at_most_one_session_for(s2.sessions, uid));
    }
}

/// Validating a token whose session has expired resolves to nothing and
/// removes the session: the token is afterwards absent from the store.
pub proof fn lemma_validate_expired_removes(
    pre: StoreV,
    post: StoreV,
    token: Seq<char>,
    now: i64,
    r: Option<UserDataV>,
)
    requires
        pre.wf(),
        validate_post(pre, post, token, now, r),
        has_token(pre.sessions, token),
        pre.sessions[token_ix(pre.sessions, token)].expires <= now,
    ensures
        r matches None,
        !has_token(post.sessions, token),
{
    let tix = token_ix(pre.sessions, token);
    let owner = pre.sessions[tix].user_id;
    let p = |s: SessionV| s.user_id != owner;
    assert(post.sessions == pre.sessions.filter(p));
    if has_token(post.sessions, token) {
        let k = choose|k: int|
            0 <= k < post.sessions.len() && (#[trigger] post.sessions[k]).token == token;
        pre.sessions.lemma_filter_pred(p, k);
        lemma_filter_element_from(pre.sessions, p, k);
        let j = choose|j: int|
            0 <= j < pre.sessions.len() && #[trigger] pre.sessions[j] == post.sessions[k];
        lemma_token_ix(pre.sessions, pre.users, j);
        assert(j == tix);
        assert(post.sessions[k].user_id == owner);
        assert(p(post.sessions[k]));
        assert(false);
    }
}

} // verus!