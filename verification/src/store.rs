use vstd::prelude::*;

verus! {

/// The closed set of roles a user may hold; a user may hold both.
#[derive(Clone, Copy, PartialEq, Eq, Structural, Debug)]
pub enum Role {
    Teacher,
    Student,
}

/// A provisioned user account as it rests in the durable store.
pub struct UserRecord {
    pub id: i32,
    pub username: String,
    pub password_hash: String,
    pub roles: Vec<Role>,
}

/// One login session: an opaque token bound to a user, valid until `expires`.
pub struct SessionRecord {
    pub token: String,
    pub user_id: i32,
    pub expires: i64,
}

/// A teacher-authored sheet. `changed` is the sheet's version; `trashed`
/// carries the soft-delete timestamp, `None` meaning active.
pub struct SheetRecord {
    pub id: u64,
    pub title: String,
    pub owner_id: i32,
    pub created: i64,
    pub changed: i64,
    pub trashed: Option<i64>,
    pub content: String,
}

/// A student's snapshot of work against one sheet version. `sheet_id` is
/// `None` once the sheet has been hard-deleted; `sheet_version` pins the
/// sheet's `changed` timestamp at snapshot time.
pub struct SolutionRecord {
    pub id: u64,
    pub title: String,
    pub sheet_id: Option<u64>,
    pub sheet_version: i64,
    pub owner_id: i32,
    pub created: i64,
    pub changed: i64,
    pub trashed: Option<i64>,
    pub content: String,
}

/// Mathematical image of a `UserRecord`.
pub struct UserV {
    pub id: i32,
    pub username: Seq<char>,
    pub password_hash: Seq<char>,
    pub roles: Seq<Role>,
}

/// Mathematical image of a `SessionRecord`.
pub struct SessionV {
    pub token: Seq<char>,
    pub user_id: i32,
    pub expires: i64,
}

/// Mathematical image of a `SheetRecord`.
pub struct SheetV {
    pub id: u64,
    pub title: Seq<char>,
    pub owner_id: i32,
    pub created: i64,
    pub changed: i64,
    pub trashed: Option<i64>,
    pub content: Seq<char>,
}

/// Mathematical image of a `SolutionRecord`.
pub struct SolutionV {
    pub id: u64,
    pub title: Seq<char>,
    pub sheet_id: Option<u64>,
    pub sheet_version: i64,
    pub owner_id: i32,
    pub created: i64,
    pub changed: i64,
    pub trashed: Option<i64>,
    pub content: Seq<char>,
}

impl View for UserRecord {
    type V = UserV;

    open spec fn view(&self) -> UserV {
        UserV {
            id: self.id,
            username: self.username@,
            password_hash: self.password_hash@,
            roles: self.roles@,
        }
    }
}

impl View for SessionRecord {
    type V = SessionV;

    open spec fn view(&self) -> SessionV {
        SessionV { token: self.token@, user_id: self.user_id, expires: self.expires }
    }
}

impl View for SheetRecord {
    type V = SheetV;

    open spec fn view(&self) -> SheetV {
        SheetV {
            id: self.id,
            title: self.title@,
            owner_id: self.owner_id,
            created: self.created,
            changed: self.changed,
            trashed: self.trashed,
            content: self.content@,
        }
    }
}

impl View for SolutionRecord {
    type V = SolutionV;

    open spec fn view(&self) -> SolutionV {
        SolutionV {
            id: self.id,
            title: self.title@,
            sheet_id: self.sheet_id,
            sheet_version: self.sheet_version,
            owner_id: self.owner_id,
            created: self.created,
            changed: self.changed,
            trashed: self.trashed,
            content: self.content@,
        }
    }
}

/// The durable store the services run against: one value standing for the
/// whole database. `next_sheet_id` and `next_solution_id` play the role of
/// the id sequences.
pub struct Store {
    pub users: Vec<UserRecord>,
    pub sessions: Vec<SessionRecord>,
    pub sheets: Vec<SheetRecord>,
    pub solutions: Vec<SolutionRecord>,
    pub next_sheet_id: u64,
    pub next_solution_id: u64,
}

/// Mathematical image of the whole store.
pub struct StoreV {
    pub users: Seq<UserV>,
    pub sessions: Seq<SessionV>,
    pub sheets: Seq<SheetV>,
    pub solutions: Seq<SolutionV>,
    pub next_sheet_id: u64,
    pub next_solution_id: u64,
}

impl View for Store {
    type V = StoreV;

    open spec fn view(&self) -> StoreV {
        StoreV {
            users: self.users@.map_values(|u: UserRecord| u@),
            sessions: self.sessions@.map_values(|s: SessionRecord| s@),
            sheets: self.sheets@.map_values(|s: SheetRecord| s@),
            solutions: self.solutions@.map_values(|s: SolutionRecord| s@),
            next_sheet_id: self.next_sheet_id,
            next_solution_id: self.next_solution_id,
        }
    }
}

pub open spec fn has_user_id(users: Seq<UserV>, id: i32) -> bool {
    exists|i: int| 0 <= i < users.len() && (#[trigger] users[i]).id == id
}

pub open spec fn user_ix_by_id(users: Seq<UserV>, id: i32) -> int {
    choose|i: int| 0 <= i < users.len() && (#[trigger] users[i]).id == id
}

pub open spec fn has_username(users: Seq<UserV>, name: Seq<char>) -> bool {
    exists|i: int| 0 <= i < users.len() && (#[trigger] users[i]).username == name
}

pub open spec fn user_ix_by_name(users: Seq<UserV>, name: Seq<char>) -> int {
    choose|i: int| 0 <= i < users.len() && (#[trigger] users[i]).username == name
}

pub open spec fn has_token(sessions: Seq<SessionV>, token: Seq<char>) -> bool {
    exists|i: int| 0 <= i < sessions.len() && (#[trigger] sessions[i]).token == token
}

pub open spec fn token_ix(sessions: Seq<SessionV>, token: Seq<char>) -> int {
    choose|i: int| 0 <= i < sessions.len() && (#[trigger] sessions[i]).token == token
}

pub open spec fn has_session_for(sessions: Seq<SessionV>, user_id: i32) -> bool {
    exists|i: int| 0 <= i < sessions.len() && (#[trigger] sessions[i]).user_id == user_id
}

pub open spec fn session_ix_for(sessions: Seq<SessionV>, user_id: i32) -> int {
    choose|i: int| 0 <= i < sessions.len() && (#[trigger] sessions[i]).user_id == user_id
}

pub open spec fn has_sheet_id(sheets: Seq<SheetV>, id: u64) -> bool {
    exists|i: int| 0 <= i < sheets.len() && (#[trigger] sheets[i]).id == id
}

pub open spec fn sheet_ix_by_id(sheets: Seq<SheetV>, id: u64) -> int {
    choose|i: int| 0 <= i < sheets.len() && (#[trigger] sheets[i]).id == id
}

pub open spec fn has_solution_id(solutions: Seq<SolutionV>, id: u64) -> bool {
    exists|i: int| 0 <= i < solutions.len() && (#[trigger] solutions[i]).id == id
}

pub open spec fn solution_ix_by_id(solutions: Seq<SolutionV>, id: u64) -> int {
    choose|i: int| 0 <= i < solutions.len() && (#[trigger] solutions[i]).id == id
}

/// User ids and usernames are unique (primary key, unique column).
pub open spec fn users_distinct(users: Seq<UserV>) -> bool {
    forall|i: int, j: int|
        #![trigger users[i], users[j]]
        0 <= i < users.len() && 0 <= j < users.len() && i != j
            ==> users[i].id != users[j].id && users[i].username != users[j].username
}

/// Session tokens are unique (primary key) and every session belongs to a
/// provisioned user (foreign key).
pub open spec fn sessions_ok(sessions: Seq<SessionV>, users: Seq<UserV>) -> bool {
    &&& forall|i: int, j: int|
        #![trigger sessions[i], sessions[j]]
        0 <= i < sessions.len() && 0 <= j < sessions.len() && i != j
            ==> sessions[i].token != sessions[j].token
    &&& forall|i: int|
        0 <= i < sessions.len() ==> has_user_id(users, (#[trigger] sessions[i]).user_id)
}

/// Sheet ids are unique, below the id sequence, and owned by a
/// provisioned user.
pub open spec fn sheets_ok(sheets: Seq<SheetV>, users: Seq<UserV>, next_sheet_id: u64) -> bool {
    &&& forall|i: int, j: int|
        #![trigger sheets[i], sheets[j]]
        0 <= i < sheets.len() && 0 <= j < sheets.len() && i != j ==> sheets[i].id != sheets[j].id
    &&& forall|i: int|
        0 <= i < sheets.len()
            ==> (#[trigger] sheets[i]).id < next_sheet_id && has_user_id(
                users,
                sheets[i].owner_id,
            )
}

/// Solution ids are unique and below the id sequence; each solution is
/// owned by a provisioned user and, unless dangling, references an
/// existing sheet.
pub open spec fn solutions_ok(
    solutions: Seq<SolutionV>,
    users: Seq<UserV>,
    sheets: Seq<SheetV>,
    next_solution_id: u64,
) -> bool {
    &&& forall|i: int, j: int|
        #![trigger solutions[i], solutions[j]]
        0 <= i < solutions.len() && 0 <= j < solutions.len() && i != j
            ==> solutions[i].id != solutions[j].id
    &&& forall|i: int|
        0 <= i < solutions.len()
            ==> (#[trigger] solutions[i]).id < next_solution_id && has_user_id(
                users,
                solutions[i].owner_id,
            ) && (solutions[i].sheet_id matches Some(sid) ==> has_sheet_id(sheets, sid))
}

impl StoreV {
    /// Well-formedness of the whole store: what the schema's keys and
    /// foreign keys guarantee of any reachable database state.
    pub open spec fn wf(self) -> bool {
        &&& users_distinct(self.users)
        &&& sessions_ok(self.sessions, self.users)
        &&& sheets_ok(self.sheets, self.users, self.next_sheet_id)
        &&& solutions_ok(self.solutions, self.users, self.sheets, self.next_solution_id)
    }
}

/// With unique usernames, any index holding `name` is the chosen one.
pub proof fn lemma_user_ix_by_name(users: Seq<UserV>, i: int)
    requires
        users_distinct(users),
        0 <= i < users.len(),
    ensures
        has_username(users, users[i].username),
        user_ix_by_name(users, users[i].username) == i,
{
    let name = users[i].username;
    assert(has_username(users, name));
    let j = user_ix_by_name(users, name);
    assert(0 <= j < users.len() && users[j].username == name);
    assert(users[i] == users[i] && users[j] == users[j]);
}

/// With unique user ids, any index holding `id` is the chosen one.
pub proof fn lemma_user_ix_by_id(users: Seq<UserV>, i: int)
    requires
        users_distinct(users),
        0 <= i < users.len(),
    ensures
        has_user_id(users, users[i].id),
        user_ix_by_id(users, users[i].id) == i,
{
    assert(has_user_id(users, users[i].id));
    let j = user_ix_by_id(users, users[i].id);
    assert(0 <= j < users.len() && users[j].id == users[i].id);
    assert(users[i] == users[i] && users[j] == users[j]);
}

/// With unique tokens, any index holding `token` is the chosen one.
pub proof fn lemma_token_ix(sessions: Seq<SessionV>, users: Seq<UserV>, i: int)
    requires
        sessions_ok(sessions, users),
        0 <= i < sessions.len(),
    ensures
        has_token(sessions, sessions[i].token),
        token_ix(sessions, sessions[i].token) == i,
{
    assert(has_token(sessions, sessions[i].token));
    let j = token_ix(sessions, sessions[i].token);
    assert(0 <= j < sessions.len() && sessions[j].token == sessions[i].token);
    assert(sessions[i] == sessions[i] && sessions[j] == sessions[j]);
}

/// With unique sheet ids, any index holding `id` is the chosen one.
pub proof fn lemma_sheet_ix(sheets: Seq<SheetV>, users: Seq<UserV>, next: u64, i: int)
    requires
        sheets_ok(sheets, users, next),
        0 <= i < sheets.len(),
    ensures
        has_sheet_id(sheets, sheets[i].id),
        sheet_ix_by_id(sheets, sheets[i].id) == i,
{
    assert(has_sheet_id(sheets, sheets[i].id));
    let j = sheet_ix_by_id(sheets, sheets[i].id);
    assert(0 <= j < sheets.len() && sheets[j].id == sheets[i].id);
    assert(sheets[i] == sheets[i] && sheets[j] == sheets[j]);
}

/// With unique solution ids, any index holding `id` is the chosen one.
pub proof fn lemma_solution_ix(
    solutions: Seq<SolutionV>,
    users: Seq<UserV>,
    sheets: Seq<SheetV>,
    next: u64,
    i: int,
)
    requires
        solutions_ok(solutions, users, sheets, next),
        0 <= i < solutions.len(),
    ensures
        has_solution_id(solutions, solutions[i].id),
        solution_ix_by_id(solutions, solutions[i].id) == i,
{
    assert(has_solution_id(solutions, solutions[i].id));
    let j = solution_ix_by_id(solutions, solutions[i].id);
    assert(0 <= j < solutions.len() && solutions[j].id == solutions[i].id);
    assert(solutions[i] == solutions[i] && solutions[j] == solutions[j]);
}

/// `has_user_id` is preserved when a user is appended.
pub proof fn lemma_has_user_id_push(users: Seq<UserV>, u: UserV, id: i32)
    requires
        has_user_id(users, id),
    ensures
        has_user_id(users.push(u), id),
{
    let i = user_ix_by_id(users, id);
    assert(0 <= i < users.len() && users[i].id == id);
    assert(users.push(u)[i].id == id);
}

/// `has_sheet_id` depends only on the ids in the sequence.
pub proof fn lemma_has_sheet_id_same_ids(pre: Seq<SheetV>, post: Seq<SheetV>, id: u64)
    requires
        pre.len() == post.len(),
        forall|i: int| 0 <= i < pre.len() ==> (#[trigger] post[i]).id == pre[i].id,
        has_sheet_id(pre, id),
    ensures
        has_sheet_id(post, id),
{
    let i = sheet_ix_by_id(pre, id);
    assert(0 <= i < pre.len() && pre[i].id == id);
    assert(post[i].id == id);
}

impl Store {
    /// A store with no users, sessions, sheets or solutions.
    pub fn new() -> (r: Store)
        ensures
            r@.wf(),
            r@.users =~= Seq::<UserV>::empty(),
            r@.sessions =~= Seq::<SessionV>::empty(),
            r@.sheets =~= Seq::<SheetV>::empty(),
            r@.solutions =~= Seq::<SolutionV>::empty(),
            r@.next_sheet_id == 1,
            r@.next_solution_id == 1,
    {
        Store {
            users: Vec::new(),
            sessions: Vec::new(),
            sheets: Vec::new(),
            solutions: Vec::new(),
            next_sheet_id: 1,
            next_solution_id: 1,
        }
    }

    /// Provision a user account, as the administrative tooling does.
    /// Rejected when the id or username is already taken, mirroring the
    /// unique key constraints.
    pub fn add_user(&mut self, user: UserRecord) -> (r: Result<(), ()>)
        requires
            old(self)@.wf(),
        ensures
            final(self)@.wf(),
            final(self)@.sessions == old(self)@.sessions,
            final(self)@.sheets == old(self)@.sheets,
            final(self)@.solutions == old(self)@.solutions,
            final(self)@.next_sheet_id == old(self)@.next_sheet_id,
            final(self)@.next_solution_id == old(self)@.next_solution_id,
            r matches Ok(())
                ==> !has_user_id(old(self)@.users, user@.id)
                    && !has_username(old(self)@.users, user@.username)
                    && final(self)@.users == old(self)@.users.push(user@),
            r matches Err(())
                ==> (has_user_id(old(self)@.users, user@.id)
                    || has_username(old(self)@.users, user@.username))
                    && final(self)@ == old(self)@,
    {
        let n = self.users.len();
        let mut i: usize = 0;
        while i < n
            invariant
                *self == *old(self),
                old(self)@.wf(),
                n == self.users.len(),
                i <= n,
                forall|k: int|
                    0 <= k < i
                        ==> (#[trigger] self@.users[k]).id != user@.id
                            && self@.users[k].username != user@.username,
            decreases n - i,
        {
            if self.users[i].id == user.id || str_eq(&self.users[i].username, &user.username) {
                proof {
                    if self@.users[i as int].id == user@.id {
                        assert(has_user_id(self@.users, user@.id));
                    } else {
                        assert(has_username(self@.users, user@.username));
                    }
                }
                return Err(());
            }
            i += 1;
        }
        proof {
            assert(!has_user_id(self@.users, user@.id));
            assert(!has_username(self@.users, user@.username));
        }
        let ghost pre = self@;
        let ghost uv = user@;
        self.users.push(user);
        proof {
            assert(self@.users =~= pre.users.push(uv));
            assert(self@.sessions =~= pre.sessions);
            assert(self@.sheets =~= pre.sheets);
            assert(self@.solutions =~= pre.solutions);
            let post = self@;
            assert(users_distinct(post.users)) by {
                assert(forall|k: int|
                    0 <= k < pre.users.len()
                        ==> (#[trigger] post.users[k]) == pre.users[k]);
            }
            assert forall|k: int| 0 <= k < post.sessions.len() implies has_user_id(
                post.users,
                (#[trigger] post.sessions[k]).user_id,
            ) by {
                assert(has_user_id(pre.users, pre.sessions[k].user_id));
                lemma_has_user_id_push(pre.users, uv, pre.sessions[k].user_id);
            }
            assert forall|k: int| 0 <= k < post.sheets.len() implies has_user_id(
                post.users,
                (#[trigger] post.sheets[k]).owner_id,
            ) by {
                assert(has_user_id(pre.users, pre.sheets[k].owner_id));
                lemma_has_user_id_push(pre.users, uv, pre.sheets[k].owner_id);
            }
            assert forall|k: int| 0 <= k < post.solutions.len() implies has_user_id(
                post.users,
                (#[trigger] post.solutions[k]).owner_id,
            ) by {
                assert(has_user_id(pre.users, pre.solutions[k].owner_id));
                lemma_has_user_id_push(pre.users, uv, pre.solutions[k].owner_id);
            }
            assert(self@.wf());
        }
        Ok(())
    }

    /// Index of the user with this username, if any.
    pub fn find_user_by_name(&self, name: &str) -> (r: Option<usize>)
        ensures
            match r {
                Some(i) => 0 <= i < self@.users.len() && self@.users[i as int].username == name@,
                None => !has_username(self@.users, name@),
            },
    {
        let n = self.users.len();
        let mut i: usize = 0;
        while i < n
            invariant
                n == self.users.len(),
                i <= n,
                forall|k: int| 0 <= k < i ==> (#[trigger] self@.users[k]).username != name@,
            decreases n - i,
        {
            if str_eq(name, &self.users[i].username) {
                return Some(i);
            }
            i += 1;
        }
        None
    }

    /// Index of the user with this id, if any.
    pub fn find_user_by_id(&self, id: i32) -> (r: Option<usize>)
        ensures
            match r {
                Some(i) => 0 <= i < self@.users.len() && self@.users[i as int].id == id,
                None => !has_user_id(self@.users, id),
            },
    {
        let n = self.users.len();
        let mut i: usize = 0;
        while i < n
            invariant
                n == self.users.len(),
                i <= n,
                forall|k: int| 0 <= k < i ==> (#[trigger] self@.users[k]).id != id,
            decreases n - i,
        {
            if self.users[i].id == id {
                return Some(i);
            }
            i += 1;
        }
        None
    }

    /// Index of the session with this token, if any.
    pub fn find_session_by_token(&self, token: &str) -> (r: Option<usize>)
        ensures
            match r {
                Some(i) => 0 <= i < self@.sessions.len()
                    && self@.sessions[i as int].token == token@,
                None => !has_token(self@.sessions, token@),
            },
    {
        let n = self.sessions.len();
        let mut i: usize = 0;
        while i < n
            invariant
                n == self.sessions.len(),
                i <= n,
                forall|k: int| 0 <= k < i ==> (#[trigger] self@.sessions[k]).token != token@,
            decreases n - i,
        {
            if str_eq(token, &self.sessions[i].token) {
                return Some(i);
            }
            i += 1;
        }
        None
    }

    /// Index of the first session belonging to this user, if any.
    pub fn find_session_by_user(&self, user_id: i32) -> (r: Option<usize>)
        ensures
            match r {
                Some(i) => 0 <= i < self@.sessions.len()
                    && self@.sessions[i as int].user_id == user_id,
                None => !has_session_for(self@.sessions, user_id),
            },
    {
        let n = self.sessions.len();
        let mut i: usize = 0;
        while i < n
            invariant
                n == self.sessions.len(),
                i <= n,
                forall|k: int| 0 <= k < i ==> (#[trigger] self@.sessions[k]).user_id != user_id,
            decreases n - i,
        {
            if self.sessions[i].user_id == user_id {
                return Some(i);
            }
            i += 1;
        }
        None
    }

    /// Index of the sheet with this id, if any.
    pub fn find_sheet(&self, id: u64) -> (r: Option<usize>)
        ensures
            match r {
                Some(i) => 0 <= i < self@.sheets.len() && self@.sheets[i as int].id == id,
                None => !has_sheet_id(self@.sheets, id),
            },
    {
        let n = self.sheets.len();
        let mut i: usize = 0;
        while i < n
            invariant
                n == self.sheets.len(),
                i <= n,
                forall|k: int| 0 <= k < i ==> (#[trigger] self@.sheets[k]).id != id,
            decreases n - i,
        {
            if self.sheets[i].id == id {
                return Some(i);
            }
            i += 1;
        }
        None
    }

    /// Index of the solution with this id, if any.
    pub fn find_solution(&self, id: u64) -> (r: Option<usize>)
        ensures
            match r {
                Some(i) => 0 <= i < self@.solutions.len() && self@.solutions[i as int].id == id,
                None => !has_solution_id(self@.solutions, id),
            },
    {
        let n = self.solutions.len();
        let mut i: usize = 0;
        while i < n
            invariant
                n == self.solutions.len(),
                i <= n,
                forall|k: int| 0 <= k < i ==> (#[trigger] self@.solutions[k]).id != id,
            decreases n - i,
        {
            if self.solutions[i].id == id {
                return Some(i);
            }
            i += 1;
        }
        None
    }
}

/// How `p.push(x)` filters: the filtered tail is kept or dropped.
pub proof fn lemma_filter_push<A>(s: Seq<A>, x: A, p: spec_fn(A) -> bool)
    ensures
        s.push(x).filter(p) == if p(x) {
            s.filter(p).push(x)
        } else {
            s.filter(p)
        },
{
    reveal(Seq::filter);
    assert(s.push(x).drop_last() =~= s);
    assert(s.push(x).last() == x);
}

/// Every element of a filtered sequence stands somewhere in the
/// sequence it was filtered from.
pub proof fn lemma_filter_element_from<A>(s: Seq<A>, p: spec_fn(A) -> bool, k: int)
    requires
        0 <= k < s.filter(p).len(),
    ensures
        exists|j: int| 0 <= j < s.len() && #[trigger] s[j] == s.filter(p)[k],
    decreases s.len(),
{
    reveal(Seq::filter);
    if s.len() > 0 {
        if p(s.last()) && k == s.filter(p).len() - 1 {
            assert(s[s.len() - 1] == s.filter(p)[k]);
        } else {
            lemma_filter_element_from(s.drop_last(), p, k);
            let j = choose|j: int|
                0 <= j < s.drop_last().len() && #[trigger] s.drop_last()[j] == s.drop_last().filter(
                    p,
                )[k];
            assert(s[j] == s.filter(p)[k]);
        }
    }
}

/// Equality of string slices, stated over their character sequences.
pub fn str_eq(a: &str, b: &str) -> (r: bool)
    ensures
        r == (a@ == b@),
{
    let x = a.to_owned();
    let y = b.to_owned();
    x == y
}

} // verus!
