use vstd::prelude::*;

use crate::sheets::{check_sheet_ownership, DeleteOutcome, Error};
use crate::store::SheetV;
use crate::store::{
    lemma_sheet_ix,
    has_sheet_id, has_solution_id, has_user_id, lemma_solution_ix,
    lemma_user_ix_by_id, sheet_ix_by_id, solution_ix_by_id, solutions_ok, user_ix_by_id,
    SolutionRecord, SolutionV, Store, StoreV,
};
use crate::transport::{UserTransport, UserTransportV};

verus! {

/// A solution's metadata joined with its owner. `sheet_id` is `None` for
/// a dangling historical record whose sheet was hard-deleted.
#[derive(Debug)]
pub struct SolutionMetadata {
    pub id: u64,
    pub title: String,
    pub sheet_id: Option<u64>,
    pub sheet_version: i64,
    pub owner: UserTransport,
    pub created: i64,
    pub changed: i64,
    pub trashed: Option<i64>,
}

/// Mathematical image of a `SolutionMetadata`.
pub struct SolutionMetadataV {
    pub id: u64,
    pub title: Seq<char>,
    pub sheet_id: Option<u64>,
    pub sheet_version: i64,
    pub owner: UserTransportV,
    pub created: i64,
    pub changed: i64,
    pub trashed: Option<i64>,
}

impl View for SolutionMetadata {
    type V = SolutionMetadataV;

    open spec fn view(&self) -> SolutionMetadataV {
        SolutionMetadataV {
            id: self.id,
            title: self.title@,
            sheet_id: self.sheet_id,
            sheet_version: self.sheet_version,
            owner: self.owner@,
            created: self.created,
            changed: self.changed,
            trashed: self.trashed,
        }
    }
}

/// A full solution: metadata and the content payload.
#[derive(Debug)]
pub struct Solution {
    pub metadata: SolutionMetadata,
    pub content: String,
}

/// Mathematical image of a `Solution`.
pub struct SolutionDataV {
    pub metadata: SolutionMetadataV,
    pub content: Seq<char>,
}

impl View for Solution {
    type V = SolutionDataV;

    open spec fn view(&self) -> SolutionDataV {
        SolutionDataV { metadata: self.metadata@, content: self.content@ }
    }
}

/// The row a fresh snapshot inserts: everything but the id, which the
/// store assigns.
#[derive(Debug)]
pub struct FreshSolution {
    pub title: String,
    pub sheet_id: u64,
    pub sheet_version: i64,
    pub owner_id: i32,
    pub created: i64,
    pub changed: i64,
    pub trashed: Option<i64>,
    pub content: String,
}

/// The metadata a stored solution resolves to, with the owner joined in.
pub open spec fn solution_metadata_in(s: StoreV, sol: SolutionV) -> SolutionMetadataV {
    let owner = s.users[user_ix_by_id(s.users, sol.owner_id)];
    SolutionMetadataV {
        id: sol.id,
        title: sol.title,
        sheet_id: sol.sheet_id,
        sheet_version: sol.sheet_version,
        owner: UserTransportV { id: owner.id, username: owner.username },
        created: sol.created,
        changed: sol.changed,
        trashed: sol.trashed,
    }
}

/// The full solution data a stored solution resolves to.
pub open spec fn solution_data_in(s: StoreV, sol: SolutionV) -> SolutionDataV {
    SolutionDataV { metadata: solution_metadata_in(s, sol), content: sol.content }
}

/// Build the metadata for the solution at index `ix`.
fn solution_metadata_at(store: &Store, ix: usize) -> (r: SolutionMetadata)
    requires
        store@.wf(),
        ix < store@.solutions.len(),
    ensures
        r@ == solution_metadata_in(store@, store@.solutions[ix as int]),
{
    let rec = &store.solutions[ix];
    let uix = match store.find_user_by_id(rec.owner_id) {
        None => {
            proof {
                assert(false);
            }
            return SolutionMetadata {
                id: rec.id,
                title: String::new(),
                sheet_id: rec.sheet_id,
                sheet_version: rec.sheet_version,
                owner: UserTransport { id: rec.owner_id, username: String::new() },
                created: rec.created,
                changed: rec.changed,
                trashed: rec.trashed,
            };
        },
        Some(i) => i,
    };
    proof {
        lemma_user_ix_by_id(store@.users, uix as int);
    }
    SolutionMetadata {
        id: rec.id,
        title: rec.title.clone(),
        sheet_id: rec.sheet_id,
        sheet_version: rec.sheet_version,
        owner: UserTransport {
            id: store.users[uix].id,
            username: store.users[uix].username.clone(),
        },
        created: rec.created,
        changed: rec.changed,
        trashed: rec.trashed,
    }
}

/// Build the full solution data for the solution at index `ix`.
fn solution_at(store: &Store, ix: usize) -> (r: Solution)
    requires
        store@.wf(),
        ix < store@.solutions.len(),
    ensures
        r@ == solution_data_in(store@, store@.solutions[ix as int]),
{
    let metadata = solution_metadata_at(store, ix);
    Solution { metadata, content: store.solutions[ix].content.clone() }
}

/// Insert a fresh snapshot row; the store assigns and returns its id.
pub fn create_solution(store: &mut Store, fresh: FreshSolution) -> (r: u64)
    requires
        old(store)@.wf(),
        has_user_id(old(store)@.users, fresh.owner_id),
        has_sheet_id(old(store)@.sheets, fresh.sheet_id),
        old(store)@.next_solution_id < u64::MAX,
    ensures
        final(store)@.wf(),
        r == old(store)@.next_solution_id,
        final(store)@.next_solution_id == old(store)@.next_solution_id + 1,
        final(store)@.solutions == old(store)@.solutions.push(
            SolutionV {
                id: r,
                title: fresh.title@,
                sheet_id: Option::Some(fresh.sheet_id),
                sheet_version: fresh.sheet_version,
                owner_id: fresh.owner_id,
                created: fresh.created,
                changed: fresh.changed,
                trashed: fresh.trashed,
                content: fresh.content@,
            },
        ),
        final(store)@.users == old(store)@.users,
        final(store)@.sessions == old(store)@.sessions,
        final(store)@.sheets == old(store)@.sheets,
        final(store)@.next_sheet_id == old(store)@.next_sheet_id,
{
    let ghost pre = store@;
    let id = store.next_solution_id;
    let ghost titlev = fresh.title@;
    let ghost contentv = fresh.content@;
    let rec = SolutionRecord {
        id,
        title: fresh.title,
        sheet_id: Some(fresh.sheet_id),
        sheet_version: fresh.sheet_version,
        owner_id: fresh.owner_id,
        created: fresh.created,
        changed: fresh.changed,
        trashed: fresh.trashed,
        content: fresh.content,
    };
    store.solutions.push(rec);
    store.next_solution_id = id + 1;
    proof {
        let sv = SolutionV {
            id,
            title: titlev,
            sheet_id: Option::Some(fresh.sheet_id),
            sheet_version: fresh.sheet_version,
            owner_id: fresh.owner_id,
            created: fresh.created,
            changed: fresh.changed,
            trashed: fresh.trashed,
            content: contentv,
        };
        assert(store@.solutions =~= pre.solutions.push(sv));
        assert(store@.users =~= pre.users);
        assert(store@.sessions =~= pre.sessions);
        assert(store@.sheets =~= pre.sheets);
        let post = store@;
        assert(solutions_ok(
            post.solutions,
            post.users,
            post.sheets,
            post.next_solution_id,
        )) by {
            assert(forall|k: int|
                0 <= k < pre.solutions.len() ==> (#[trigger] post.solutions[k])
                    == pre.solutions[k]);
            assert(post.solutions[pre.solutions.len() as int] == sv);
        }
    }
    id
}

/// Whether a stored solution answers this (sheet, owner) pair.
pub open spec fn pair_matches(s: SolutionV, sheet_id: u64, user_id: i32) -> bool {
    s.sheet_id == Option::Some(sheet_id) && s.owner_id == user_id
}

pub open spec fn has_pair_solution(st: StoreV, sheet_id: u64, user_id: i32) -> bool {
    exists|k: int|
        0 <= k < st.solutions.len() && pair_matches(#[trigger] st.solutions[k], sheet_id, user_id)
}

/// The "current" solution for a pair is the one with the greatest
/// `sheet_version`; several rows may tie, and which of them is handed
/// out is then unspecified.
pub open spec fn is_latest_for(st: StoreV, sheet_id: u64, user_id: i32, k: int) -> bool {
    &&& 0 <= k < st.solutions.len()
    &&& pair_matches(st.solutions[k], sheet_id, user_id)
    &&& forall|l: int|
        0 <= l < st.solutions.len() && pair_matches(#[trigger] st.solutions[l], sheet_id, user_id)
            ==> st.solutions[l].sheet_version <= st.solutions[k].sheet_version
}

/// Index of a matching solution with maximal `sheet_version`, if any.
fn find_latest_solution(store: &Store, sheet_id: u64, user_id: i32) -> (r: Option<usize>)
    ensures
        match r {
            Option::None => !has_pair_solution(store@, sheet_id, user_id),
            Option::Some(i) => is_latest_for(store@, sheet_id, user_id, i as int),
        },
{
    let n = store.solutions.len();
    let mut best: Option<usize> = None;
    let mut i: usize = 0;
    while i < n
        invariant
            n == store.solutions.len(),
            i <= n,
            match best {
                Option::None => forall|k: int|
                    0 <= k < i ==> !pair_matches(
                        #[trigger] store@.solutions[k],
                        sheet_id,
                        user_id,
                    ),
                Option::Some(b) => 0 <= b < i && pair_matches(
                    store@.solutions[b as int],
                    sheet_id,
                    user_id,
                ) && forall|k: int|
                    0 <= k < i && pair_matches(#[trigger] store@.solutions[k], sheet_id, user_id)
                        ==> store@.solutions[k].sheet_version
                        <= store@.solutions[b as int].sheet_version,
            },
        decreases n - i,
    {
        let matching = match store.solutions[i].sheet_id {
            Some(s) => s == sheet_id && store.solutions[i].owner_id == user_id,
            None => false,
        };
        if matching {
            match best {
                None => {
                    best = Some(i);
                },
                Some(b) => {
                    if store.solutions[i].sheet_version > store.solutions[b].sheet_version {
                        best = Some(i);
                    }
                },
            }
        }
        i += 1;
    }
    best
}

/// The latest solution for a (sheet, owner) pair; `NotFound` when the
/// pair has none at all.
pub fn get_latest_solution(store: &Store, sheet_id: u64, user_id: i32) -> (r: Result<
    Solution,
    Error,
>)
    requires
        store@.wf(),
    ensures
        match r {
            Result::Ok(sol) => exists|k: int|
                #![trigger store@.solutions[k]]
                is_latest_for(store@, sheet_id, user_id, k) && sol@ == solution_data_in(
                    store@,
                    store@.solutions[k],
                ),
            Result::Err(e) => e == Error::NotFound && !has_pair_solution(
                store@,
                sheet_id,
                user_id,
            ),
        },
{
    match find_latest_solution(store, sheet_id, user_id) {
        None => Err(Error::NotFound),
        Some(i) => {
            let sol = solution_at(store, i);
            proof {
                assert(is_latest_for(store@, sheet_id, user_id, i as int));
            }
            Ok(sol)
        },
    }
}

/// The latest solution of `student_id`, readable by the sheet's owner:
/// the sheet ownership is checked first, then the lookup runs as
/// `get_latest_solution`.
pub fn get_solution_for_teacher(
    store: &Store,
    sheet_id: u64,
    teacher_id: i32,
    student_id: i32,
) -> (r: Result<Solution, Error>)
    requires
        store@.wf(),
    ensures
        match r {
            Result::Ok(sol) => {
                &&& has_sheet_id(store@.sheets, sheet_id)
                &&& store@.sheets[sheet_ix_by_id(store@.sheets, sheet_id)].owner_id == teacher_id
                &&& exists|k: int|
                    #![trigger store@.solutions[k]]
                    is_latest_for(store@, sheet_id, student_id, k) && sol@ == solution_data_in(
                        store@,
                        store@.solutions[k],
                    )
            },
            Result::Err(Error::Forbidden) => has_sheet_id(store@.sheets, sheet_id)
                && store@.sheets[sheet_ix_by_id(store@.sheets, sheet_id)].owner_id != teacher_id,
            Result::Err(Error::NotFound) => !has_sheet_id(store@.sheets, sheet_id) || (
            store@.sheets[sheet_ix_by_id(store@.sheets, sheet_id)].owner_id == teacher_id
                && !has_pair_solution(store@, sheet_id, student_id)),
        },
{
    match check_sheet_ownership(store, teacher_id, sheet_id) {
        Ok(()) => {},
        Err(e) => {
            return Err(e);
        },
    }
    get_latest_solution(store, sheet_id, student_id)
}

/// A named solution of a student, readable by the sheet's owner: the
/// sheet ownership is checked first, then the solution is resolved by
/// id and its sheet reference and owner are checked for coherence.
pub fn get_for_teacher(
    store: &Store,
    teacher_id: i32,
    sheet_id: u64,
    student_id: i32,
    solution_id: u64,
) -> (r: Result<Solution, Error>)
    requires
        store@.wf(),
    ensures
        match r {
            Result::Ok(sol) => {
                let s = store@.solutions[solution_ix_by_id(store@.solutions, solution_id)];
                &&& has_sheet_id(store@.sheets, sheet_id)
                &&& store@.sheets[sheet_ix_by_id(store@.sheets, sheet_id)].owner_id == teacher_id
                &&& has_solution_id(store@.solutions, solution_id)
                &&& s.sheet_id == Option::Some(sheet_id)
                &&& s.owner_id == student_id
                &&& sol@ == solution_data_in(store@, s)
            },
            Result::Err(Error::Forbidden) => has_sheet_id(store@.sheets, sheet_id)
                && store@.sheets[sheet_ix_by_id(store@.sheets, sheet_id)].owner_id != teacher_id,
            Result::Err(Error::NotFound) => !has_sheet_id(store@.sheets, sheet_id) || (
            store@.sheets[sheet_ix_by_id(store@.sheets, sheet_id)].owner_id == teacher_id && (
            !has_solution_id(store@.solutions, solution_id) || ({
                let s = store@.solutions[solution_ix_by_id(store@.solutions, solution_id)];
                s.sheet_id != Option::Some(sheet_id) || s.owner_id != student_id
            }))),
        },
{
    match check_sheet_ownership(store, teacher_id, sheet_id) {
        Ok(()) => {},
        Err(e) => {
            return Err(e);
        },
    }
    let ix = match store.find_solution(solution_id) {
        None => {
            return Err(Error::NotFound);
        },
        Some(i) => i,
    };
    proof {
        lemma_solution_ix(
            store@.solutions,
            store@.users,
            store@.sheets,
            store@.next_solution_id,
            ix as int,
        );
    }
    let coherent = (match store.solutions[ix].sheet_id {
        Some(s) => s == sheet_id,
        None => false,
    }) && store.solutions[ix].owner_id == student_id;
    if !coherent {
        return Err(Error::NotFound);
    }
    Ok(solution_at(store, ix))
}

/// Fetch a solution owned by `user_id` under `sheet_id`: `Forbidden`
/// for another owner's solution, `NotFound` when absent or when the
/// sheet reference does not match the one named (coherence check).
pub fn get_my_solution(store: &Store, user_id: i32, sheet_id: u64, solution_id: u64) -> (r: Result<
    Solution,
    Error,
>)
    requires
        store@.wf(),
    ensures
        match r {
            Result::Ok(sol) => {
                let s = store@.solutions[solution_ix_by_id(store@.solutions, solution_id)];
                &&& has_solution_id(store@.solutions, solution_id)
                &&& s.owner_id == user_id
                &&& s.sheet_id == Option::Some(sheet_id)
                &&& sol@ == solution_data_in(store@, s)
            },
            Result::Err(Error::Forbidden) => has_solution_id(store@.solutions, solution_id)
                && store@.solutions[solution_ix_by_id(store@.solutions, solution_id)].owner_id
                != user_id,
            Result::Err(Error::NotFound) => !has_solution_id(store@.solutions, solution_id) || ({
                let s = store@.solutions[solution_ix_by_id(store@.solutions, solution_id)];
                s.owner_id == user_id && s.sheet_id != Option::Some(sheet_id)
            }),
        },
{
    let ix = match store.find_solution(solution_id) {
        None => {
            return Err(Error::NotFound);
        },
        Some(i) => i,
    };
    proof {
        lemma_solution_ix(
            store@.solutions,
            store@.users,
            store@.sheets,
            store@.next_solution_id,
            ix as int,
        );
    }
    if store.solutions[ix].owner_id != user_id {
        return Err(Error::Forbidden);
    }
    let coherent = match store.solutions[ix].sheet_id {
        Some(s) => s == sheet_id,
        None => false,
    };
    if !coherent {
        return Err(Error::NotFound);
    }
    Ok(solution_at(store, ix))
}


/// The pointwise facts that keep `solutions_ok` when only content,
/// timestamps or trash marks change.
proof fn lemma_solutions_ok_pointwise(
    pre: Seq<SolutionV>,
    post: Seq<SolutionV>,
    users: Seq<crate::store::UserV>,
    sheets: Seq<SheetV>,
    next: u64,
)
    requires
        solutions_ok(pre, users, sheets, next),
        post.len() == pre.len(),
        forall|k: int|
            0 <= k < pre.len() ==> (#[trigger] post[k]).id == pre[k].id && post[k].owner_id
                == pre[k].owner_id && post[k].sheet_id == pre[k].sheet_id,
    ensures
        solutions_ok(post, users, sheets, next),
{
}

/// Everything `update_solution` promises, stated over the store's
/// image: the ownership and coherence checks decide exactly which error
/// comes back, an error leaves the store untouched, and on success only
/// the addressed solution changes — new content, `changed` bumped to
/// `now`, and `sheet_version` untouched (content edits do not re-pin).
pub open spec fn update_solution_post(
    pre: StoreV,
    post: StoreV,
    user_id: i32,
    sheet_id: u64,
    solution_id: u64,
    content: Seq<char>,
    now: i64,
    r: Result<(), Error>,
) -> bool {
    let ix = solution_ix_by_id(pre.solutions, solution_id);
    &&& post.users == pre.users
    &&& post.sessions == pre.sessions
    &&& post.sheets == pre.sheets
    &&& post.next_sheet_id == pre.next_sheet_id
    &&& post.next_solution_id == pre.next_solution_id
    &&& match r {
        Result::Ok(()) => {
            &&& has_solution_id(pre.solutions, solution_id)
            &&& pre.solutions[ix].owner_id == user_id
            &&& pre.solutions[ix].sheet_id == Option::Some(sheet_id)
            &&& post.solutions == pre.solutions.update(
                ix,
                (SolutionV { content, changed: now, ..pre.solutions[ix] }),
            )
        },
        Result::Err(Error::Forbidden) => has_solution_id(pre.solutions, solution_id)
            && pre.solutions[ix].owner_id != user_id && post == pre,
        Result::Err(Error::NotFound) => (!has_solution_id(pre.solutions, solution_id) || (
        pre.solutions[ix].owner_id == user_id && pre.solutions[ix].sheet_id != Option::Some(
            sheet_id,
        ))) && post == pre,
    }
}

/// Update a solution's content and bump its `changed`; `sheet_version`
/// stays as it was. Ownership- and coherence-checked. The clock stands
/// at or after the solution's last change, so `changed` only moves
/// forward.
pub fn update_solution(
    store: &mut Store,
    user_id: i32,
    sheet_id: u64,
    solution_id: u64,
    content: String,
    now: i64,
) -> (r: Result<(), Error>)
    requires
        old(store)@.wf(),
        has_solution_id(old(store)@.solutions, solution_id) ==> now >= old(
            store,
        )@.solutions[solution_ix_by_id(old(store)@.solutions, solution_id)].changed,
    ensures
        final(store)@.wf(),
        update_solution_post(
            old(store)@,
            final(store)@,
            user_id,
            sheet_id,
            solution_id,
            content@,
            now,
            r,
        ),
{
    match get_my_solution(store, user_id, sheet_id, solution_id) {
        Ok(_) => {},
        Err(e) => {
            return Err(e);
        },
    }
    let ix = match store.find_solution(solution_id) {
        None => {
            proof {
                assert(false);
            }
            return Err(Error::NotFound);
        },
        Some(i) => i,
    };
    proof {
        lemma_solution_ix(
            store@.solutions,
            store@.users,
            store@.sheets,
            store@.next_solution_id,
            ix as int,
        );
    }
    let ghost pre = store@;
    let ghost contentv = content@;
    let mut rec = store.solutions.remove(ix);
    rec.content = content;
    rec.changed = now;
    store.solutions.insert(ix, rec);
    proof {
        let sx = solution_ix_by_id(pre.solutions, solution_id);
        assert(store@.solutions =~= pre.solutions.update(
            sx,
            (SolutionV { content: contentv, changed: now, ..pre.solutions[sx] }),
        ));
        assert(store@.users =~= pre.users);
        assert(store@.sessions =~= pre.sessions);
        assert(store@.sheets =~= pre.sheets);
        lemma_solutions_ok_pointwise(
            pre.solutions,
            store@.solutions,
            store@.users,
            store@.sheets,
            store@.next_solution_id,
        );
    }
    Ok(())
}

/// Everything the two-phase solution delete promises: an active
/// solution is moved to the trash, a trashed one is removed for good;
/// ownership and coherence decide the errors, which leave the store
/// untouched.
pub open spec fn delete_solution_post(
    pre: StoreV,
    post: StoreV,
    user_id: i32,
    sheet_id: u64,
    solution_id: u64,
    now: i64,
    r: Result<DeleteOutcome, Error>,
) -> bool {
    let ix = solution_ix_by_id(pre.solutions, solution_id);
    &&& post.users == pre.users
    &&& post.sessions == pre.sessions
    &&& post.sheets == pre.sheets
    &&& post.next_sheet_id == pre.next_sheet_id
    &&& post.next_solution_id == pre.next_solution_id
    &&& match r {
        Result::Ok(DeleteOutcome::Trashed) => {
            &&& has_solution_id(pre.solutions, solution_id)
            &&& pre.solutions[ix].owner_id == user_id
            &&& pre.solutions[ix].sheet_id == Option::Some(sheet_id)
            &&& pre.solutions[ix].trashed matches None
            &&& post.solutions == pre.solutions.update(
                ix,
                (SolutionV { trashed: Option::Some(now), ..pre.solutions[ix] }),
            )
        },
        Result::Ok(DeleteOutcome::Deleted) => {
            &&& has_solution_id(pre.solutions, solution_id)
            &&& pre.solutions[ix].owner_id == user_id
            &&& pre.solutions[ix].sheet_id == Option::Some(sheet_id)
            &&& pre.solutions[ix].trashed matches Some(_)
            &&& post.solutions == pre.solutions.remove(ix)
        },
        Result::Err(Error::Forbidden) => has_solution_id(pre.solutions, solution_id)
            && pre.solutions[ix].owner_id != user_id && post == pre,
        Result::Err(Error::NotFound) => (!has_solution_id(pre.solutions, solution_id) || (
        pre.solutions[ix].owner_id == user_id && pre.solutions[ix].sheet_id != Option::Some(
            sheet_id,
        ))) && post == pre,
    }
}

/// Two-phase delete of a solution: trash it first, remove it for good
/// once already trashed. Ownership- and coherence-checked. The clock
/// stands at or after the solution's last change, so a trash stamp
/// never predates the work it trashes.
pub fn delete_solution(
    store: &mut Store,
    user_id: i32,
    sheet_id: u64,
    solution_id: u64,
    now: i64,
) -> (r: Result<DeleteOutcome, Error>)
    requires
        old(store)@.wf(),
        has_solution_id(old(store)@.solutions, solution_id) ==> now >= old(
            store,
        )@.solutions[solution_ix_by_id(old(store)@.solutions, solution_id)].changed,
    ensures
        final(store)@.wf(),
        delete_solution_post(
            old(store)@,
            final(store)@,
            user_id,
            sheet_id,
            solution_id,
            now,
            r,
        ),
{
    match get_my_solution(store, user_id, sheet_id, solution_id) {
        Ok(_) => {},
        Err(e) => {
            return Err(e);
        },
    }
    let ix = match store.find_solution(solution_id) {
        None => {
            proof {
                assert(false);
            }
            return Err(Error::NotFound);
        },
        Some(i) => i,
    };
    proof {
        lemma_solution_ix(
            store@.solutions,
            store@.users,
            store@.sheets,
            store@.next_solution_id,
            ix as int,
        );
    }
    let ghost pre = store@;
    if store.solutions[ix].trashed.is_some() {
        let _ = store.solutions.remove(ix);
        proof {
            let sx = solution_ix_by_id(pre.solutions, solution_id);
            assert(store@.solutions =~= pre.solutions.remove(sx));
            assert(store@.users =~= pre.users);
            assert(store@.sessions =~= pre.sessions);
            assert(store@.sheets =~= pre.sheets);
            let post = store@;
            assert(solutions_ok(
                post.solutions,
                post.users,
                post.sheets,
                post.next_solution_id,
            )) by {
                assert(forall|k: int|
                    0 <= k < post.solutions.len() ==> (#[trigger] post.solutions[k]) == if k < sx {
                        pre.solutions[k]
                    } else {
                        pre.solutions[k + 1]
                    });
            }
        }
        Ok(DeleteOutcome::Deleted)
    } else {
        let mut rec = store.solutions.remove(ix);
        rec.trashed = Some(now);
        store.solutions.insert(ix, rec);
        proof {
            let sx = solution_ix_by_id(pre.solutions, solution_id);
            assert(store@.solutions =~= pre.solutions.update(
                sx,
                (SolutionV { trashed: Option::Some(now), ..pre.solutions[sx] }),
            ));
            assert(store@.users =~= pre.users);
            assert(store@.sessions =~= pre.sessions);
            assert(store@.sheets =~= pre.sheets);
            lemma_solutions_ok_pointwise(
                pre.solutions,
                store@.solutions,
                store@.users,
                store@.sheets,
                store@.next_solution_id,
            );
        }
        Ok(DeleteOutcome::Trashed)
    }
}

/// Restore a trashed solution: ownership- and coherence-checked,
/// clears `trashed`.
pub fn restore_solution(store: &mut Store, user_id: i32, sheet_id: u64, solution_id: u64) -> (r:
    Result<(), Error>)
    requires
        old(store)@.wf(),
    ensures
        final(store)@.wf(),
        final(store)@.users == old(store)@.users,
        final(store)@.sessions == old(store)@.sessions,
        final(store)@.sheets == old(store)@.sheets,
        final(store)@.next_sheet_id == old(store)@.next_sheet_id,
        final(store)@.next_solution_id == old(store)@.next_solution_id,
        match r {
            Result::Ok(()) => {
                let ix = solution_ix_by_id(old(store)@.solutions, solution_id);
                &&& has_solution_id(old(store)@.solutions, solution_id)
                &&& old(store)@.solutions[ix].owner_id == user_id
                &&& old(store)@.solutions[ix].sheet_id == Option::Some(sheet_id)
                &&& final(store)@.solutions == old(store)@.solutions.update(
                    ix,
                    (SolutionV { trashed: Option::None, ..old(store)@.solutions[ix] }),
                )
            },
            Result::Err(Error::Forbidden) => has_solution_id(old(store)@.solutions, solution_id)
                && old(store)@.solutions[solution_ix_by_id(
                old(store)@.solutions,
                solution_id,
            )].owner_id != user_id && final(store)@ == old(store)@,
            Result::Err(Error::NotFound) => (!has_solution_id(old(store)@.solutions, solution_id)
                || ({
                let s = old(store)@.solutions[solution_ix_by_id(
                    old(store)@.solutions,
                    solution_id,
                )];
                s.owner_id == user_id && s.sheet_id != Option::Some(sheet_id)
            })) && final(store)@ == old(store)@,
        },
{
    match get_my_solution(store, user_id, sheet_id, solution_id) {
        Ok(_) => {},
        Err(e) => {
            return Err(e);
        },
    }
    let ix = match store.find_solution(solution_id) {
        None => {
            proof {
                assert(false);
            }
            return Err(Error::NotFound);
        },
        Some(i) => i,
    };
    proof {
        lemma_solution_ix(
            store@.solutions,
            store@.users,
            store@.sheets,
            store@.next_solution_id,
            ix as int,
        );
    }
    let ghost pre = store@;
    let mut rec = store.solutions.remove(ix);
    rec.trashed = None;
    store.solutions.insert(ix, rec);
    proof {
        let sx = solution_ix_by_id(pre.solutions, solution_id);
        assert(store@.solutions =~= pre.solutions.update(
            sx,
            (SolutionV { trashed: Option::None, ..pre.solutions[sx] }),
        ));
        assert(store@.users =~= pre.users);
        assert(store@.sessions =~= pre.sessions);
        assert(store@.sheets =~= pre.sheets);
        lemma_solutions_ok_pointwise(
            pre.solutions,
            store@.solutions,
            store@.users,
            store@.sheets,
            store@.next_solution_id,
        );
    }
    Ok(())
}

/// The snapshot row `start_solve` inserts: title, version and content
/// taken from the sheet at that moment, owned by the student.
pub open spec fn snapshot_of(sheet: SheetV, user_id: i32, now: i64, id: u64) -> SolutionV {
    SolutionV {
        id,
        title: sheet.title,
        sheet_id: Option::Some(sheet.id),
        sheet_version: sheet.changed,
        owner_id: user_id,
        created: now,
        changed: now,
        trashed: Option::None,
        content: sheet.content,
    }
}

/// Whether the pair already has a solution pinned at or after
/// `version`: then `start_solve` has nothing to do.
pub open spec fn up_to_date_exists(st: StoreV, sheet_id: u64, user_id: i32, version: i64) -> bool {
    exists|k: int|
        0 <= k < st.solutions.len() && pair_matches(#[trigger] st.solutions[k], sheet_id, user_id)
            && st.solutions[k].sheet_version >= version
}

/// Everything `start_solve` promises, stated over the store's image: a
/// missing sheet is `NotFound`; with an up-to-date solution on record
/// the call does nothing; otherwise exactly one snapshot of the sheet
/// as it stands is inserted, pinned to the sheet's `changed`.
pub open spec fn start_solve_post(
    pre: StoreV,
    post: StoreV,
    sheet_id: u64,
    user_id: i32,
    now: i64,
    r: Result<(), Error>,
) -> bool {
    &&& post.users == pre.users
    &&& post.sessions == pre.sessions
    &&& post.sheets == pre.sheets
    &&& post.next_sheet_id == pre.next_sheet_id
    &&& match r {
        Result::Err(e) => e == Error::NotFound && !has_sheet_id(pre.sheets, sheet_id) && post
            == pre,
        Result::Ok(()) => has_sheet_id(pre.sheets, sheet_id) && ({
            let sheet = pre.sheets[sheet_ix_by_id(pre.sheets, sheet_id)];
            if up_to_date_exists(pre, sheet_id, user_id, sheet.changed) {
                post == pre
            } else {
                post.solutions == pre.solutions.push(
                    snapshot_of(sheet, user_id, now, pre.next_solution_id),
                ) && post.next_solution_id == pre.next_solution_id + 1
            }
        }),
    }
}

/// Ensure a current solution exists for (sheet, student): idempotent.
/// Creates a snapshot of the sheet as it stands unless one pinned to
/// the sheet's current version (or later) is already on record.
pub fn start_solve(store: &mut Store, sheet_id: u64, user_id: i32, now: i64) -> (r: Result<
    (),
    Error,
>)
    requires
        old(store)@.wf(),
        has_user_id(old(store)@.users, user_id),
        old(store)@.next_solution_id < u64::MAX,
    ensures
        final(store)@.wf(),
        start_solve_post(old(store)@, final(store)@, sheet_id, user_id, now, r),
{
    let six = match store.find_sheet(sheet_id) {
        None => {
            return Err(Error::NotFound);
        },
        Some(i) => i,
    };
    proof {
        lemma_sheet_ix(store@.sheets, store@.users, store@.next_sheet_id, six as int);
    }
    let changed = store.sheets[six].changed;
    let need_new = match find_latest_solution(store, sheet_id, user_id) {
        None => true,
        Some(b) => store.solutions[b].sheet_version < changed,
    };
    proof {
        assert(need_new == !up_to_date_exists(store@, sheet_id, user_id, changed));
    }
    if need_new {
        let fresh = FreshSolution {
            title: store.sheets[six].title.clone(),
            sheet_id,
            sheet_version: changed,
            owner_id: user_id,
            created: now,
            changed: now,
            trashed: None,
            content: store.sheets[six].content.clone(),
        };
        let _ = create_solution(store, fresh);
    }
    Ok(())
}


/// Two sequential `start_solve` calls with no sheet edit in between
/// create at most one snapshot: whatever the first call did, the second
/// is a no-op, and when the first call did create, exactly one row was
/// added across the two calls.
pub proof fn lemma_start_solve_idempotent(
    pre: StoreV,
    s1: StoreV,
    s2: StoreV,
    sheet_id: u64,
    user_id: i32,
    now1: i64,
    now2: i64,
)
    requires
        pre.wf(),
        start_solve_post(pre, s1, sheet_id, user_id, now1, Result::Ok(())),
        start_solve_post(s1, s2, sheet_id, user_id, now2, Result::Ok(())),
    ensures
        s2 == s1,
        !up_to_date_exists(
            pre,
            sheet_id,
            user_id,
            pre.sheets[sheet_ix_by_id(pre.sheets, sheet_id)].changed,
        ) ==> s1.solutions.len() == pre.solutions.len() + 1,
{
    let six = sheet_ix_by_id(pre.sheets, sheet_id);
    let sheet = pre.sheets[six];
    assert(s1.sheets == pre.sheets);
    if up_to_date_exists(pre, sheet_id, user_id, sheet.changed) {
        assert(s1 == pre);
        assert(up_to_date_exists(s1, sheet_id, user_id, sheet.changed));
    } else {
        let snap = snapshot_of(sheet, user_id, now1, pre.next_solution_id);
        assert(s1.solutions == pre.solutions.push(snap));
        let last = s1.solutions.len() - 1;
        assert(s1.solutions[last] == snap);
        assert(pair_matches(s1.solutions[last], sheet_id, user_id));
        assert(s1.solutions[last].sheet_version >= sheet.changed);
        assert(up_to_date_exists(s1, sheet_id, user_id, sheet.changed));
    }
    assert(s1.sheets[six].changed == sheet.changed);
    assert(s2 == s1);
}

/// Editing the sheet between two `start_solve` calls makes the second
/// call create one more, distinct snapshot, pinned to the sheet's new
/// `changed` timestamp and carrying the edited title and content. The
/// premises say that the edit happened after the sheet's last change
/// and that no solution of the student was pinned ahead of the sheet.
pub proof fn lemma_start_solve_after_edit(
    pre: StoreV,
    s1: StoreV,
    s2: StoreV,
    s3: StoreV,
    sheet_id: u64,
    teacher_id: i32,
    student_id: i32,
    title: Seq<char>,
    content: Seq<char>,
    now1: i64,
    now2: i64,
    now3: i64,
)
    requires
        pre.wf(),
        start_solve_post(pre, s1, sheet_id, student_id, now1, Result::Ok(())),
        crate::sheets::update_sheet_post(
            s1,
            s2,
            teacher_id,
            sheet_id,
            title,
            content,
            now2,
            Result::Ok(()),
        ),
        start_solve_post(s2, s3, sheet_id, student_id, now3, Result::Ok(())),
        now2 > pre.sheets[sheet_ix_by_id(pre.sheets, sheet_id)].changed,
        forall|k: int|
            0 <= k < pre.solutions.len() && pair_matches(
                #[trigger] pre.solutions[k],
                sheet_id,
                student_id,
            ) ==> pre.solutions[k].sheet_version <= pre.sheets[sheet_ix_by_id(
                pre.sheets,
                sheet_id,
            )].changed,
    ensures
        s3.solutions == s2.solutions.push(
            snapshot_of(
                s2.sheets[sheet_ix_by_id(pre.sheets, sheet_id)],
                student_id,
                now3,
                s2.next_solution_id,
            ),
        ),
        ({
            let snap = s3.solutions[s3.solutions.len() - 1];
            snap.sheet_version == now2 && snap.title == title && snap.content == content
        }),
{
    let six = sheet_ix_by_id(pre.sheets, sheet_id);
    let sheet = pre.sheets[six];
    assert(has_sheet_id(pre.sheets, sheet_id));
    assert(0 <= six < pre.sheets.len() && pre.sheets[six].id == sheet_id);
    assert(s1.sheets == pre.sheets);
    // the update addressed the same row
    assert(sheet_ix_by_id(s1.sheets, sheet_id) == six);
    let edited = (SheetV { title, content, changed: now2, ..s1.sheets[six] });
    assert(s2.sheets == s1.sheets.update(six, edited));
    assert(s2.sheets[six].changed == now2 && s2.sheets[six].id == sheet_id);
    // the third call resolves the same sheet row
    assert(sheet_ix_by_id(s2.sheets, sheet_id) == six) by {
        let j = sheet_ix_by_id(s2.sheets, sheet_id);
        assert(has_sheet_id(s2.sheets, sheet_id));
        assert(0 <= j < s2.sheets.len() && s2.sheets[j].id == sheet_id);
        assert(forall|k: int|
            0 <= k < pre.sheets.len() ==> (#[trigger] s2.sheets[k]).id == pre.sheets[k].id);
        if j != six {
            assert(pre.sheets[j].id == sheet_id);
            assert(pre.sheets[j] == pre.sheets[j] && pre.sheets[six] == pre.sheets[six]);
            assert(false);
        }
    }
    // every solution of the pair in s2 is pinned strictly before now2
    assert(!up_to_date_exists(s2, sheet_id, student_id, now2)) by {
        if up_to_date_exists(s2, sheet_id, student_id, now2) {
            let k = choose|k: int|
                0 <= k < s2.solutions.len() && pair_matches(
                    #[trigger] s2.solutions[k],
                    sheet_id,
                    student_id,
                ) && s2.solutions[k].sheet_version >= now2;
            assert(s2.solutions == s1.solutions);
            if up_to_date_exists(pre, sheet_id, student_id, sheet.changed) {
                assert(s1 == pre);
                assert(pre.solutions[k].sheet_version <= sheet.changed);
                assert(false);
            } else {
                let snap = snapshot_of(sheet, student_id, now1, pre.next_solution_id);
                assert(s1.solutions == pre.solutions.push(snap));
                if k < pre.solutions.len() {
                    assert(s1.solutions[k] == pre.solutions[k]);
                    assert(pre.solutions[k].sheet_version <= sheet.changed);
                } else {
                    assert(s1.solutions[k] == snap);
                }
                assert(false);
            }
        }
    }
    assert(s3.solutions == s2.solutions.push(
        snapshot_of(s2.sheets[six], student_id, now3, s2.next_solution_id),
    ));
}


/// The images of a list of solution metadata.
pub open spec fn solution_views(s: Seq<SolutionMetadata>) -> Seq<SolutionMetadataV> {
    s.map_values(|m: SolutionMetadata| m@)
}

/// The orders the solution listings come in.
#[derive(Clone, Copy, PartialEq, Eq, Structural, Debug)]
pub enum SolutionOrder {
    ChangedDescUserAsc,
    VersionDesc,
    TrashedDesc,
    ChangedDesc,
    UserAscVersionDesc,
}

/// Whether `a` sorts at or before `b` under the given order.
pub open spec fn solution_le(o: SolutionOrder, a: SolutionMetadataV, b: SolutionMetadataV) -> bool {
    match o {
        SolutionOrder::ChangedDescUserAsc => a.changed > b.changed || (a.changed == b.changed
            && crate::order::lex_le(a.owner.username, b.owner.username)),
        SolutionOrder::VersionDesc => a.sheet_version >= b.sheet_version,
        SolutionOrder::TrashedDesc => crate::order::trashed_key(a.trashed)
            >= crate::order::trashed_key(b.trashed),
        SolutionOrder::ChangedDesc => a.changed >= b.changed,
        SolutionOrder::UserAscVersionDesc => crate::order::lex_le(
            a.owner.username,
            b.owner.username,
        ) && (a.owner.username == b.owner.username ==> a.sheet_version >= b.sheet_version),
    }
}

/// A listing sorted under the given order.
pub open spec fn solutions_sorted(s: Seq<SolutionMetadataV>, o: SolutionOrder) -> bool {
    forall|k: int, l: int|
        #![trigger s[k], s[l]]
        0 <= k < l < s.len() ==> solution_le(o, s[k], s[l])
}

/// Any two solutions are comparable under any order.
proof fn lemma_solution_le_total(o: SolutionOrder, a: SolutionMetadataV, b: SolutionMetadataV)
    ensures
        solution_le(o, a, b) || solution_le(o, b, a),
{
    match o {
        SolutionOrder::ChangedDescUserAsc => {
            if a.changed == b.changed {
                crate::order::lemma_lex_le_total(a.owner.username, b.owner.username);
            }
        },
        SolutionOrder::UserAscVersionDesc => {
            crate::order::lemma_lex_le_total(a.owner.username, b.owner.username);
            if crate::order::lex_le(a.owner.username, b.owner.username) && crate::order::lex_le(
                b.owner.username,
                a.owner.username,
            ) {
                crate::order::lemma_lex_le_antisym(a.owner.username, b.owner.username);
            }
        },
        _ => {},
    }
}

/// `solution_le` is transitive under any order.
proof fn lemma_solution_le_trans(
    o: SolutionOrder,
    a: SolutionMetadataV,
    b: SolutionMetadataV,
    c: SolutionMetadataV,
)
    requires
        solution_le(o, a, b),
        solution_le(o, b, c),
    ensures
        solution_le(o, a, c),
{
    match o {
        SolutionOrder::ChangedDescUserAsc => {
            if a.changed == b.changed && b.changed == c.changed {
                crate::order::lemma_lex_le_trans(
                    a.owner.username,
                    b.owner.username,
                    c.owner.username,
                );
            }
        },
        SolutionOrder::UserAscVersionDesc => {
            crate::order::lemma_lex_le_trans(a.owner.username, b.owner.username, c.owner.username);
            if a.owner.username == c.owner.username {
                crate::order::lemma_lex_le_antisym(a.owner.username, b.owner.username);
            }
        },
        _ => {},
    }
}

/// Decide `solution_le` on concrete metadata.
fn solution_le_exec(o: SolutionOrder, a: &SolutionMetadata, b: &SolutionMetadata) -> (r: bool)
    ensures
        r == solution_le(o, a@, b@),
{
    match o {
        SolutionOrder::ChangedDescUserAsc => a.changed > b.changed || (a.changed == b.changed
            && crate::order::str_le(a.owner.username.as_str(), b.owner.username.as_str())),
        SolutionOrder::VersionDesc => a.sheet_version >= b.sheet_version,
        SolutionOrder::TrashedDesc => crate::order::trashed_desc_le(&a.trashed, &b.trashed),
        SolutionOrder::ChangedDesc => a.changed >= b.changed,
        SolutionOrder::UserAscVersionDesc => crate::order::str_le(
            a.owner.username.as_str(),
            b.owner.username.as_str(),
        ) && (!crate::store::str_eq(a.owner.username.as_str(), b.owner.username.as_str())
            || a.sheet_version >= b.sheet_version),
    }
}

/// Insert into a listing kept sorted under `o`.
fn insert_solution_sorted(v: &mut Vec<SolutionMetadata>, x: SolutionMetadata, o: SolutionOrder)
    requires
        solutions_sorted(solution_views(old(v)@), o),
    ensures
        solutions_sorted(solution_views(final(v)@), o),
        solution_views(final(v)@).to_multiset() == solution_views(old(v)@).to_multiset().insert(
            x@,
        ),
{
    let n = v.len();
    let mut pos: usize = 0;
    while pos < n && solution_le_exec(o, &v[pos], &x)
        invariant
            *v == *old(v),
            n == v.len(),
            pos <= n,
            forall|k: int| 0 <= k < pos ==> solution_le(o, (#[trigger] solution_views(v@)[k]), x@),
        decreases n - pos,
    {
        pos += 1;
    }
    let ghost prev = solution_views(v@);
    let ghost xv = x@;
    let ghost p = pos as int;
    v.insert(pos, x);
    proof {
        let cur = solution_views(v@);
        assert(cur =~= prev.insert(p, xv));
        if p < prev.len() {
            assert(!solution_le(o, prev[p], xv));
            lemma_solution_le_total(o, prev[p], xv);
        }
        assert(solutions_sorted(cur, o)) by {
            assert forall|k: int, l: int| 0 <= k < l < cur.len() implies solution_le(
                o,
                (#[trigger] cur[k]),
                (#[trigger] cur[l]),
            ) by {
                if k < p && l < p {
                    assert(cur[k] == prev[k] && cur[l] == prev[l]);
                } else if k < p && l == p {
                    assert(cur[k] == prev[k] && cur[l] == xv);
                } else if k < p && l > p {
                    assert(cur[k] == prev[k] && cur[l] == prev[l - 1]);
                } else if k == p && l > p {
                    assert(cur[k] == xv && cur[l] == prev[l - 1]);
                    assert(solution_le(o, xv, prev[p]));
                    if l - 1 > p {
                        assert(solution_le(o, prev[p], prev[l - 1]));
                        lemma_solution_le_trans(o, xv, prev[p], prev[l - 1]);
                    }
                } else {
                    assert(k > p && l > p);
                    assert(cur[k] == prev[k - 1] && cur[l] == prev[l - 1]);
                }
            }
        }
        assert(cur.to_multiset() =~= prev.to_multiset().insert(xv)) by {
            broadcast use vstd::seq_lib::group_to_multiset_ensures;

            assert(cur.remove(p) =~= prev);
            assert(cur[p] == xv);
            assert(cur.remove(p).to_multiset() =~= cur.to_multiset().remove(xv));
            assert(cur.to_multiset().contains(xv));
            assert(prev.to_multiset() =~= cur.to_multiset().remove(xv));
            assert(prev.to_multiset().insert(xv) =~= cur.to_multiset().remove(xv).insert(xv));
            assert(cur.to_multiset().remove(xv).insert(xv) =~= cur.to_multiset());
        }
    }
}

/// The solution listings, each with its scope.
#[derive(Clone, Copy, PartialEq, Eq, Structural, Debug)]
pub enum SolutionQuery {
    /// Active solutions across all active sheets this teacher owns.
    BySheetOwner(i32),
    /// The student's own active solutions.
    ByOwner(i32),
    /// The student's trashed solutions.
    TrashOf(i32),
    /// The student's active solutions, for the recency view.
    RecentOf(i32),
    /// Active solutions handed in for one sheet.
    OfSheet(u64),
    /// The student's active solutions for one sheet.
    OfSheetAndUser(u64, i32),
}

/// Which stored solutions a query selects.
pub open spec fn query_matches(st: StoreV, q: SolutionQuery, s: SolutionV) -> bool {
    match q {
        SolutionQuery::BySheetOwner(uid) => (s.trashed matches None) && (s.sheet_id matches Some(
            sid,
        ) && has_sheet_id(st.sheets, sid) && st.sheets[sheet_ix_by_id(st.sheets, sid)].owner_id
            == uid && st.sheets[sheet_ix_by_id(st.sheets, sid)].trashed matches None),
        SolutionQuery::ByOwner(uid) => s.owner_id == uid && s.trashed matches None,
        SolutionQuery::TrashOf(uid) => s.owner_id == uid && s.trashed matches Some(_),
        SolutionQuery::RecentOf(uid) => s.owner_id == uid && s.trashed matches None,
        SolutionQuery::OfSheet(sid) => s.sheet_id == Option::Some(sid) && s.trashed matches None,
        SolutionQuery::OfSheetAndUser(sid, uid) => s.sheet_id == Option::Some(sid) && s.owner_id
            == uid && s.trashed matches None,
    }
}

/// The order each query's listing comes in.
pub open spec fn query_order(q: SolutionQuery) -> SolutionOrder {
    match q {
        SolutionQuery::BySheetOwner(_) => SolutionOrder::ChangedDescUserAsc,
        SolutionQuery::ByOwner(_) => SolutionOrder::VersionDesc,
        SolutionQuery::TrashOf(_) => SolutionOrder::TrashedDesc,
        SolutionQuery::RecentOf(_) => SolutionOrder::ChangedDesc,
        SolutionQuery::OfSheet(_) => SolutionOrder::UserAscVersionDesc,
        SolutionQuery::OfSheetAndUser(_, _) => SolutionOrder::VersionDesc,
    }
}

/// The metadata of a query's solutions, in store order.
pub open spec fn solutions_selected(st: StoreV, q: SolutionQuery) -> Seq<SolutionMetadataV> {
    st.solutions.filter(|s: SolutionV| query_matches(st, q, s)).map_values(
        |s: SolutionV| solution_metadata_in(st, s),
    )
}

/// Decide whether the solution at `ix` is selected by `q`.
fn query_matches_exec(store: &Store, q: SolutionQuery, ix: usize) -> (r: bool)
    requires
        store@.wf(),
        ix < store@.solutions.len(),
    ensures
        r == query_matches(store@, q, store@.solutions[ix as int]),
{
    let s = &store.solutions[ix];
    match q {
        SolutionQuery::BySheetOwner(uid) => {
            if s.trashed.is_some() {
                return false;
            }
            let sid = match s.sheet_id {
                Some(sid) => sid,
                None => {
                    return false;
                },
            };
            match store.find_sheet(sid) {
                None => false,
                Some(j) => {
                    proof {
                        lemma_sheet_ix(
                            store@.sheets,
                            store@.users,
                            store@.next_sheet_id,
                            j as int,
                        );
                    }
                    store.sheets[j].owner_id == uid && store.sheets[j].trashed.is_none()
                },
            }
        },
        SolutionQuery::ByOwner(uid) => s.owner_id == uid && s.trashed.is_none(),
        SolutionQuery::TrashOf(uid) => s.owner_id == uid && s.trashed.is_some(),
        SolutionQuery::RecentOf(uid) => s.owner_id == uid && s.trashed.is_none(),
        SolutionQuery::OfSheet(sid) => {
            let m = match s.sheet_id {
                Some(x) => x == sid,
                None => false,
            };
            m && s.trashed.is_none()
        },
        SolutionQuery::OfSheetAndUser(sid, uid) => {
            let m = match s.sheet_id {
                Some(x) => x == sid,
                None => false,
            };
            m && s.owner_id == uid && s.trashed.is_none()
        },
    }
}

/// Collect a query's solutions, sorted under the query's order.
pub fn collect_solutions(store: &Store, q: SolutionQuery) -> (r: Vec<SolutionMetadata>)
    requires
        store@.wf(),
    ensures
        solution_views(r@).to_multiset() == solutions_selected(store@, q).to_multiset(),
        solutions_sorted(solution_views(r@), query_order(q)),
{
    let ghost st = store@;
    let ghost pred = |s: SolutionV| query_matches(st, q, s);
    let ghost f = |s: SolutionV| solution_metadata_in(st, s);
    let mut out: Vec<SolutionMetadata> = Vec::new();
    let n = store.solutions.len();
    let mut i: usize = 0;
    proof {
        assert(st.solutions.subrange(0, 0) =~= Seq::<SolutionV>::empty());
        assert(Seq::<SolutionV>::empty().filter(pred) =~= Seq::<SolutionV>::empty()) by {
            reveal(Seq::filter);
        }
        assert(solution_views(out@) =~= Seq::<SolutionMetadataV>::empty());
        broadcast use vstd::seq_lib::group_to_multiset_ensures;

        assert(solution_views(out@).to_multiset() =~= st.solutions.subrange(0, 0).filter(
            pred,
        ).map_values(f).to_multiset());
    }
    while i < n
        invariant
            store@ == st,
            store@.wf(),
            n == store.solutions.len(),
            i <= n,
            pred == (|s: SolutionV| query_matches(st, q, s)),
            f == (|s: SolutionV| solution_metadata_in(st, s)),
            solution_views(out@).to_multiset() == st.solutions.subrange(0, i as int).filter(
                pred,
            ).map_values(f).to_multiset(),
            solutions_sorted(solution_views(out@), query_order(q)),
        decreases n - i,
    {
        let ghost prefix = st.solutions.subrange(0, i as int);
        proof {
            assert(st.solutions.subrange(0, i + 1) =~= prefix.push(st.solutions[i as int]));
            crate::store::lemma_filter_push(prefix, st.solutions[i as int], pred);
            if pred(st.solutions[i as int]) {
                assert(prefix.push(st.solutions[i as int]).filter(pred).map_values(f)
                    =~= prefix.filter(pred).map_values(f).push(f(st.solutions[i as int])));
            } else {
                assert(prefix.push(st.solutions[i as int]).filter(pred).map_values(f)
                    =~= prefix.filter(pred).map_values(f));
            }
            broadcast use vstd::seq_lib::group_to_multiset_ensures;

        }
        if query_matches_exec(store, q, i) {
            let m = solution_metadata_at(store, i);
            insert_solution_sorted(&mut out, m, query_order_exec(q));
        }
        i += 1;
    }
    proof {
        assert(st.solutions.subrange(0, n as int) =~= st.solutions);
    }
    out
}

/// The order a query's listing comes in, as a value.
fn query_order_exec(q: SolutionQuery) -> (r: SolutionOrder)
    ensures
        r == query_order(q),
{
    match q {
        SolutionQuery::BySheetOwner(_) => SolutionOrder::ChangedDescUserAsc,
        SolutionQuery::ByOwner(_) => SolutionOrder::VersionDesc,
        SolutionQuery::TrashOf(_) => SolutionOrder::TrashedDesc,
        SolutionQuery::RecentOf(_) => SolutionOrder::ChangedDesc,
        SolutionQuery::OfSheet(_) => SolutionOrder::UserAscVersionDesc,
        SolutionQuery::OfSheetAndUser(_, _) => SolutionOrder::VersionDesc,
    }
}

/// All active solutions across the active sheets this teacher owns,
/// most recently changed first, then by student username.
pub fn get_solutions_teacher(store: &Store, user_id: i32) -> (r: Vec<SolutionMetadata>)
    requires
        store@.wf(),
    ensures
        solution_views(r@).to_multiset() == solutions_selected(
            store@,
            SolutionQuery::BySheetOwner(user_id),
        ).to_multiset(),
        solutions_sorted(solution_views(r@), SolutionOrder::ChangedDescUserAsc),
{
    collect_solutions(store, SolutionQuery::BySheetOwner(user_id))
}

/// The student's own active solutions, by pinned sheet version,
/// newest first.
pub fn get_solutions_student(store: &Store, user_id: i32) -> (r: Vec<SolutionMetadata>)
    requires
        store@.wf(),
    ensures
        solution_views(r@).to_multiset() == solutions_selected(
            store@,
            SolutionQuery::ByOwner(user_id),
        ).to_multiset(),
        solutions_sorted(solution_views(r@), SolutionOrder::VersionDesc),
{
    collect_solutions(store, SolutionQuery::ByOwner(user_id))
}

/// The student's trashed solutions, most recently trashed first.
pub fn get_trash(store: &Store, user_id: i32) -> (r: Vec<SolutionMetadata>)
    requires
        store@.wf(),
    ensures
        solution_views(r@).to_multiset() == solutions_selected(
            store@,
            SolutionQuery::TrashOf(user_id),
        ).to_multiset(),
        solutions_sorted(solution_views(r@), SolutionOrder::TrashedDesc),
{
    collect_solutions(store, SolutionQuery::TrashOf(user_id))
}

/// The student's active solutions, most recently changed first.
pub fn get_recent(store: &Store, user_id: i32) -> (r: Vec<SolutionMetadata>)
    requires
        store@.wf(),
    ensures
        solution_views(r@).to_multiset() == solutions_selected(
            store@,
            SolutionQuery::RecentOf(user_id),
        ).to_multiset(),
        solutions_sorted(solution_views(r@), SolutionOrder::ChangedDesc),
{
    collect_solutions(store, SolutionQuery::RecentOf(user_id))
}

/// All active solutions handed in for one of this teacher's sheets, by
/// student username, each student's newest version first. The sheet
/// ownership is checked first.
pub fn get_sheet_solutions_teacher(store: &Store, user_id: i32, sheet_id: u64) -> (r: Result<
    Vec<SolutionMetadata>,
    Error,
>)
    requires
        store@.wf(),
    ensures
        match r {
            Result::Ok(v) => {
                &&& has_sheet_id(store@.sheets, sheet_id)
                &&& store@.sheets[sheet_ix_by_id(store@.sheets, sheet_id)].owner_id == user_id
                &&& solution_views(v@).to_multiset() == solutions_selected(
                    store@,
                    SolutionQuery::OfSheet(sheet_id),
                ).to_multiset()
                &&& solutions_sorted(solution_views(v@), SolutionOrder::UserAscVersionDesc)
            },
            Result::Err(Error::NotFound) => !has_sheet_id(store@.sheets, sheet_id),
            Result::Err(Error::Forbidden) => has_sheet_id(store@.sheets, sheet_id)
                && store@.sheets[sheet_ix_by_id(store@.sheets, sheet_id)].owner_id != user_id,
        },
{
    match check_sheet_ownership(store, user_id, sheet_id) {
        Ok(()) => {},
        Err(e) => {
            return Err(e);
        },
    }
    Ok(collect_solutions(store, SolutionQuery::OfSheet(sheet_id)))
}

/// The student's own active solutions for one sheet, newest pinned
/// version first.
pub fn get_sheet_solutions_student(store: &Store, user_id: i32, sheet_id: u64) -> (r: Vec<
    SolutionMetadata,
>)
    requires
        store@.wf(),
    ensures
        solution_views(r@).to_multiset() == solutions_selected(
            store@,
            SolutionQuery::OfSheetAndUser(sheet_id, user_id),
        ).to_multiset(),
        solutions_sorted(solution_views(r@), SolutionOrder::VersionDesc),
{
    collect_solutions(store, SolutionQuery::OfSheetAndUser(sheet_id, user_id))
}

} // verus!
