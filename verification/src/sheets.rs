use vstd::prelude::*;

use crate::store::{
    has_sheet_id, has_user_id, lemma_has_sheet_id_same_ids, lemma_sheet_ix, lemma_user_ix_by_id,
    sheet_ix_by_id, sheets_ok, solutions_ok, user_ix_by_id, SheetRecord, SheetV, SolutionV, Store,
    StoreV,
};
use crate::transport::{UserTransport, UserTransportV};

verus! {

/// How a repository call on sheets or solutions fails: the resource is
/// absent (or already hard-deleted), or the caller does not own it.
#[derive(Clone, Copy, PartialEq, Eq, Structural, Debug)]
pub enum Error {
    NotFound,
    Forbidden,
}

/// What the two-phase delete did: moved the resource to the trash, or
/// removed it for good.
#[derive(Clone, Copy, PartialEq, Eq, Structural, Debug)]
pub enum DeleteOutcome {
    Deleted,
    Trashed,
}

/// A sheet's metadata joined with its owner.
#[derive(Debug)]
pub struct SheetMetadata {
    pub id: u64,
    pub title: String,
    pub owner: UserTransport,
    pub created: i64,
    pub changed: i64,
    pub trashed: Option<i64>,
}

/// Mathematical image of a `SheetMetadata`.
pub struct SheetMetadataV {
    pub id: u64,
    pub title: Seq<char>,
    pub owner: UserTransportV,
    pub created: i64,
    pub changed: i64,
    pub trashed: Option<i64>,
}

impl View for SheetMetadata {
    type V = SheetMetadataV;

    open spec fn view(&self) -> SheetMetadataV {
        SheetMetadataV {
            id: self.id,
            title: self.title@,
            owner: self.owner@,
            created: self.created,
            changed: self.changed,
            trashed: self.trashed,
        }
    }
}

/// A full sheet: metadata and the content payload, which the core
/// stores and copies but never interprets.
#[derive(Debug)]
pub struct Sheet {
    pub metadata: SheetMetadata,
    pub content: String,
}

/// Mathematical image of a `Sheet`.
pub struct SheetDataV {
    pub metadata: SheetMetadataV,
    pub content: Seq<char>,
}

impl View for Sheet {
    type V = SheetDataV;

    open spec fn view(&self) -> SheetDataV {
        SheetDataV { metadata: self.metadata@, content: self.content@ }
    }
}

/// The metadata a stored sheet resolves to, with the owner joined in.
pub open spec fn sheet_metadata_in(s: StoreV, sheet: SheetV) -> SheetMetadataV {
    let owner = s.users[user_ix_by_id(s.users, sheet.owner_id)];
    SheetMetadataV {
        id: sheet.id,
        title: sheet.title,
        owner: UserTransportV { id: owner.id, username: owner.username },
        created: sheet.created,
        changed: sheet.changed,
        trashed: sheet.trashed,
    }
}

/// The full sheet data a stored sheet resolves to.
pub open spec fn sheet_data_in(s: StoreV, sheet: SheetV) -> SheetDataV {
    SheetDataV { metadata: sheet_metadata_in(s, sheet), content: sheet.content }
}

/// Build the owner transport for a stored user id.
fn owner_transport(store: &Store, owner_id: i32) -> (r: UserTransport)
    requires
        crate::store::users_distinct(store@.users),
        has_user_id(store@.users, owner_id),
    ensures
        r@.id == store@.users[user_ix_by_id(store@.users, owner_id)].id,
        r@.username == store@.users[user_ix_by_id(store@.users, owner_id)].username,
        r@.id == owner_id,
{
    let uix = match store.find_user_by_id(owner_id) {
        None => {
            proof {
                assert(false);
            }
            return UserTransport { id: owner_id, username: String::new() };
        },
        Some(i) => i,
    };
    proof {
        lemma_user_ix_by_id(store@.users, uix as int);
    }
    UserTransport {
        id: store.users[uix].id,
        username: store.users[uix].username.clone(),
    }
}

/// Build the metadata for the sheet at index `six`.
fn sheet_metadata_at(store: &Store, six: usize) -> (r: SheetMetadata)
    requires
        store@.wf(),
        six < store@.sheets.len(),
    ensures
        r@ == sheet_metadata_in(store@, store@.sheets[six as int]),
{
    let rec = &store.sheets[six];
    let owner = owner_transport(store, rec.owner_id);
    SheetMetadata {
        id: rec.id,
        title: rec.title.clone(),
        owner,
        created: rec.created,
        changed: rec.changed,
        trashed: rec.trashed,
    }
}

/// Build the full sheet data for the sheet at index `six`.
fn sheet_at(store: &Store, six: usize) -> (r: Sheet)
    requires
        store@.wf(),
        six < store@.sheets.len(),
    ensures
        r@ == sheet_data_in(store@, store@.sheets[six as int]),
{
    let metadata = sheet_metadata_at(store, six);
    Sheet { metadata, content: store.sheets[six].content.clone() }
}

/// Fetch a sheet by id. Trashed sheets remain readable until they are
/// hard-deleted; only an absent id is `NotFound`.
pub fn get_sheet(store: &Store, id: u64) -> (r: Result<Sheet, Error>)
    requires
        store@.wf(),
    ensures
        match r {
            Result::Ok(sh) => has_sheet_id(store@.sheets, id) && sh@ == sheet_data_in(
                store@,
                store@.sheets[sheet_ix_by_id(store@.sheets, id)],
            ),
            Result::Err(e) => e == Error::NotFound && !has_sheet_id(store@.sheets, id),
        },
{
    let six = match store.find_sheet(id) {
        None => {
            return Err(Error::NotFound);
        },
        Some(i) => i,
    };
    proof {
        lemma_sheet_ix(store@.sheets, store@.users, store@.next_sheet_id, six as int);
    }
    Ok(sheet_at(store, six))
}

/// Fetch a sheet for editing: as `get_sheet`, then `Forbidden` unless
/// `user_id` owns it.
pub fn get_sheet_for_edit(store: &Store, user_id: i32, id: u64) -> (r: Result<Sheet, Error>)
    requires
        store@.wf(),
    ensures
        match r {
            Result::Ok(sh) => has_sheet_id(store@.sheets, id)
                && store@.sheets[sheet_ix_by_id(store@.sheets, id)].owner_id == user_id && sh@
                == sheet_data_in(store@, store@.sheets[sheet_ix_by_id(store@.sheets, id)]),
            Result::Err(Error::NotFound) => !has_sheet_id(store@.sheets, id),
            Result::Err(Error::Forbidden) => has_sheet_id(store@.sheets, id)
                && store@.sheets[sheet_ix_by_id(store@.sheets, id)].owner_id != user_id,
        },
{
    let sheet = get_sheet(store, id)?;
    if sheet.metadata.owner.id != user_id {
        return Err(Error::Forbidden);
    }
    Ok(sheet)
}

/// Check that `user_id` owns the sheet; the sheet itself is not needed.
pub fn check_sheet_ownership(store: &Store, user_id: i32, id: u64) -> (r: Result<(), Error>)
    requires
        store@.wf(),
    ensures
        match r {
            Result::Ok(()) => has_sheet_id(store@.sheets, id)
                && store@.sheets[sheet_ix_by_id(store@.sheets, id)].owner_id == user_id,
            Result::Err(Error::NotFound) => !has_sheet_id(store@.sheets, id),
            Result::Err(Error::Forbidden) => has_sheet_id(store@.sheets, id)
                && store@.sheets[sheet_ix_by_id(store@.sheets, id)].owner_id != user_id,
        },
{
    match get_sheet_for_edit(store, user_id, id) {
        Ok(_) => Ok(()),
        Err(e) => Err(e),
    }
}

/// Create a sheet owned by `user_id`: `created == changed == now` and
/// not trashed. Returns the id the store assigned.
pub fn create_sheet(store: &mut Store, user_id: i32, title: String, content: String, now: i64) -> (r:
    u64)
    requires
        old(store)@.wf(),
        has_user_id(old(store)@.users, user_id),
        old(store)@.next_sheet_id < u64::MAX,
    ensures
        final(store)@.wf(),
        r == old(store)@.next_sheet_id,
        final(store)@.next_sheet_id == old(store)@.next_sheet_id + 1,
        final(store)@.sheets == old(store)@.sheets.push(
            SheetV {
                id: r,
                title: title@,
                owner_id: user_id,
                created: now,
                changed: now,
                trashed: Option::None,
                content: content@,
            },
        ),
        final(store)@.users == old(store)@.users,
        final(store)@.sessions == old(store)@.sessions,
        final(store)@.solutions == old(store)@.solutions,
        final(store)@.next_solution_id == old(store)@.next_solution_id,
{
    let ghost pre = store@;
    let id = store.next_sheet_id;
    let ghost titlev = title@;
    let ghost contentv = content@;
    let rec = SheetRecord {
        id,
        title,
        owner_id: user_id,
        created: now,
        changed: now,
        trashed: None,
        content,
    };
    store.sheets.push(rec);
    store.next_sheet_id = id + 1;
    proof {
        let sv = SheetV {
            id,
            title: titlev,
            owner_id: user_id,
            created: now,
            changed: now,
            trashed: Option::None,
            content: contentv,
        };
        assert(store@.sheets =~= pre.sheets.push(sv));
        assert(store@.users =~= pre.users);
        assert(store@.sessions =~= pre.sessions);
        assert(store@.solutions =~= pre.solutions);
        let post = store@;
        assert(sheets_ok(post.sheets, post.users, post.next_sheet_id)) by {
            assert(forall|k: int|
                0 <= k < pre.sheets.len() ==> (#[trigger] post.sheets[k]) == pre.sheets[k]);
            assert(post.sheets[pre.sheets.len() as int] == sv);
        }
        assert(solutions_ok(
            post.solutions,
            post.users,
            post.sheets,
            post.next_solution_id,
        )) by {
            assert forall|k: int| 0 <= k < post.solutions.len() implies ((
            #[trigger] post.solutions[k]).sheet_id matches Some(sid) ==> has_sheet_id(
                post.sheets,
                sid,
            )) by {
                match post.solutions[k].sheet_id {
                    Option::Some(sid) => {
                        assert(pre.solutions[k].sheet_id == Option::Some(sid));
                        assert(has_sheet_id(pre.sheets, sid));
                        let j = sheet_ix_by_id(pre.sheets, sid);
                        assert(post.sheets[j].id == sid);
                    },
                    Option::None => {},
                }
            }
        }
    }
    id
}

/// Create a sheet with the editor's initial empty document.
pub fn create_empty_sheet(store: &mut Store, user_id: i32, title: String, now: i64) -> (r: u64)
    requires
        old(store)@.wf(),
        has_user_id(old(store)@.users, user_id),
        old(store)@.next_sheet_id < u64::MAX,
    ensures
        final(store)@.wf(),
        r == old(store)@.next_sheet_id,
        final(store)@.next_sheet_id == old(store)@.next_sheet_id + 1,
        final(store)@.sheets == old(store)@.sheets.push(
            SheetV {
                id: r,
                title: title@,
                owner_id: user_id,
                created: now,
                changed: now,
                trashed: Option::None,
                content: "{\"type\": \"doc\", \"content\": [{\"type\": \"paragraph\"}]}"@,
            },
        ),
        final(store)@.users == old(store)@.users,
        final(store)@.sessions == old(store)@.sessions,
        final(store)@.solutions == old(store)@.solutions,
        final(store)@.next_solution_id == old(store)@.next_solution_id,
{
    let content = String::from_str(
        "{\"type\": \"doc\", \"content\": [{\"type\": \"paragraph\"}]}",
    );
    create_sheet(store, user_id, title, content, now)
}

/// Everything `update_sheet` promises, stated over the store's image:
/// the ownership check decides exactly which error comes back, an error
/// leaves the store untouched, and on success only the addressed sheet
/// changes — new title, new content, `changed` bumped to `now`.
pub open spec fn update_sheet_post(
    pre: StoreV,
    post: StoreV,
    user_id: i32,
    id: u64,
    title: Seq<char>,
    content: Seq<char>,
    now: i64,
    r: Result<(), Error>,
) -> bool {
    &&& post.users == pre.users
    &&& post.sessions == pre.sessions
    &&& post.solutions == pre.solutions
    &&& post.next_sheet_id == pre.next_sheet_id
    &&& post.next_solution_id == pre.next_solution_id
    &&& match r {
        Result::Ok(()) => {
            let six = sheet_ix_by_id(pre.sheets, id);
            &&& has_sheet_id(pre.sheets, id)
            &&& pre.sheets[six].owner_id == user_id
            &&& post.sheets == pre.sheets.update(
                six,
                (SheetV { title, content, changed: now, ..pre.sheets[six] }),
            )
        },
        Result::Err(Error::NotFound) => !has_sheet_id(pre.sheets, id) && post == pre,
        Result::Err(Error::Forbidden) => has_sheet_id(pre.sheets, id)
            && pre.sheets[sheet_ix_by_id(pre.sheets, id)].owner_id != user_id && post == pre,
    }
}

/// Update a sheet's title and content and bump its version (`changed`).
/// Ownership-checked; a failed check leaves the store untouched. The
/// clock stands at or after the sheet's last change, so the version
/// timestamp only moves forward.
pub fn update_sheet(
    store: &mut Store,
    user_id: i32,
    id: u64,
    title: String,
    content: String,
    now: i64,
) -> (r: Result<(), Error>)
    requires
        old(store)@.wf(),
        has_sheet_id(old(store)@.sheets, id) ==> now >= old(store)@.sheets[sheet_ix_by_id(
            old(store)@.sheets,
            id,
        )].changed,
    ensures
        final(store)@.wf(),
        update_sheet_post(
            old(store)@,
            final(store)@,
            user_id,
            id,
            title@,
            content@,
            now,
            r,
        ),
{
    match check_sheet_ownership(store, user_id, id) {
        Ok(()) => {},
        Err(e) => {
            return Err(e);
        },
    }
    let six = match store.find_sheet(id) {
        None => {
            proof {
                assert(false);
            }
            return Err(Error::NotFound);
        },
        Some(i) => i,
    };
    proof {
        lemma_sheet_ix(store@.sheets, store@.users, store@.next_sheet_id, six as int);
    }
    let ghost pre = store@;
    let ghost titlev = title@;
    let ghost contentv = content@;
    let mut rec = store.sheets.remove(six);
    rec.title = title;
    rec.content = content;
    rec.changed = now;
    store.sheets.insert(six, rec);
    proof {
        let sx = sheet_ix_by_id(pre.sheets, id);
        assert(store@.sheets =~= pre.sheets.update(
            sx,
            (SheetV { title: titlev, content: contentv, changed: now, ..pre.sheets[sx] }),
        ));
        assert(store@.users =~= pre.users);
        assert(store@.sessions =~= pre.sessions);
        assert(store@.solutions =~= pre.solutions);
        let post = store@;
        assert(sheets_ok(post.sheets, post.users, post.next_sheet_id)) by {
            assert(forall|k: int|
                0 <= k < pre.sheets.len() ==> (#[trigger] post.sheets[k]).id == pre.sheets[k].id
                    && post.sheets[k].owner_id == pre.sheets[k].owner_id);
        }
        assert(solutions_ok(
            post.solutions,
            post.users,
            post.sheets,
            post.next_solution_id,
        )) by {
            assert forall|k: int| 0 <= k < post.solutions.len() implies ((
            #[trigger] post.solutions[k]).sheet_id matches Some(sid) ==> has_sheet_id(
                post.sheets,
                sid,
            )) by {
                match post.solutions[k].sheet_id {
                    Option::Some(sid) => {
                        assert(pre.solutions[k].sheet_id == Option::Some(sid));
                        assert(has_sheet_id(pre.sheets, sid));
                        lemma_has_sheet_id_same_ids(pre.sheets, post.sheets, sid);
                    },
                    Option::None => {},
                }
            }
        }
    }
    Ok(())
}

/// The solutions after their sheet was hard-deleted: rows referencing it
/// stay, their `sheet_id` cleared.
pub open spec fn detached_solutions(solutions: Seq<SolutionV>, id: u64) -> Seq<SolutionV> {
    solutions.map_values(
        |s: SolutionV|
            if s.sheet_id == Option::Some(id) {
                SolutionV { sheet_id: Option::None, ..s }
            } else {
                s
            },
    )
}

/// Everything `delete_sheet` promises, stated over the store's image:
/// the ownership check decides exactly which error comes back; an active
/// sheet is moved to the trash (`Trashed`); a trashed one is removed for
/// good and its solutions are detached, not deleted (`Deleted`).
pub open spec fn delete_sheet_post(
    pre: StoreV,
    post: StoreV,
    user_id: i32,
    id: u64,
    now: i64,
    r: Result<DeleteOutcome, Error>,
) -> bool {
    let six = sheet_ix_by_id(pre.sheets, id);
    &&& post.users == pre.users
    &&& post.sessions == pre.sessions
    &&& post.next_sheet_id == pre.next_sheet_id
    &&& post.next_solution_id == pre.next_solution_id
    &&& match r {
        Result::Ok(DeleteOutcome::Trashed) => {
            &&& has_sheet_id(pre.sheets, id)
            &&& pre.sheets[six].owner_id == user_id
            &&& pre.sheets[six].trashed matches None
            &&& post.sheets == pre.sheets.update(
                six,
                (SheetV { trashed: Option::Some(now), ..pre.sheets[six] }),
            )
            &&& post.solutions == pre.solutions
        },
        Result::Ok(DeleteOutcome::Deleted) => {
            &&& has_sheet_id(pre.sheets, id)
            &&& pre.sheets[six].owner_id == user_id
            &&& pre.sheets[six].trashed matches Some(_)
            &&& post.sheets == pre.sheets.remove(six)
            &&& post.solutions == detached_solutions(pre.solutions, id)
        },
        Result::Err(Error::NotFound) => !has_sheet_id(pre.sheets, id) && post == pre,
        Result::Err(Error::Forbidden) => has_sheet_id(pre.sheets, id)
            && pre.sheets[six].owner_id != user_id && post == pre,
    }
}

/// Two-phase delete: an active sheet is moved to the trash; a trashed
/// one is removed for good, its solutions kept as dangling historical
/// records. Ownership-checked. The clock stands at or after the
/// sheet's last change, so a trash stamp never predates the version it
/// trashes.
pub fn delete_sheet(store: &mut Store, user_id: i32, id: u64, now: i64) -> (r: Result<
    DeleteOutcome,
    Error,
>)
    requires
        old(store)@.wf(),
        has_sheet_id(old(store)@.sheets, id) ==> now >= old(store)@.sheets[sheet_ix_by_id(
            old(store)@.sheets,
            id,
        )].changed,
    ensures
        final(store)@.wf(),
        delete_sheet_post(old(store)@, final(store)@, user_id, id, now, r),
{
    match check_sheet_ownership(store, user_id, id) {
        Ok(()) => {},
        Err(e) => {
            return Err(e);
        },
    }
    let six = match store.find_sheet(id) {
        None => {
            proof {
                assert(false);
            }
            return Err(Error::NotFound);
        },
        Some(i) => i,
    };
    proof {
        lemma_sheet_ix(store@.sheets, store@.users, store@.next_sheet_id, six as int);
    }
    let ghost pre = store@;
    if store.sheets[six].trashed.is_some() {
        // second phase: remove the row and detach its solutions
        let _ = store.sheets.remove(six);
        let n = store.solutions.len();
        let mut i: usize = 0;
        while i < n
            invariant
                store@.users == pre.users,
                store@.sessions == pre.sessions,
                store@.next_sheet_id == pre.next_sheet_id,
                store@.next_solution_id == pre.next_solution_id,
                store@.sheets == pre.sheets.remove(sheet_ix_by_id(pre.sheets, id)),
                n == store.solutions.len(),
                n == pre.solutions.len(),
                i <= n,
                store@.solutions =~= detached_solutions(pre.solutions, id).subrange(0, i as int)
                    + pre.solutions.subrange(i as int, n as int),
            decreases n - i,
        {
            let ghost entry = store@.solutions;
            let ghost det = detached_solutions(pre.solutions, id);
            proof {
                assert(det.subrange(0, i as int).len() == i);
                assert(entry[i as int] == pre.solutions[i as int]);
                assert(det[i as int] == if pre.solutions[i as int].sheet_id == Option::Some(id) {
                    (SolutionV { sheet_id: Option::None, ..pre.solutions[i as int] })
                } else {
                    pre.solutions[i as int]
                });
            }
            let matches_sheet = match store.solutions[i].sheet_id {
                Some(s) => s == id,
                None => false,
            };
            if matches_sheet {
                let mut rec = store.solutions.remove(i);
                rec.sheet_id = None;
                let ghost recv = rec@;
                store.solutions.insert(i, rec);
                proof {
                    assert(store@.solutions =~= entry.update(i as int, recv));
                    assert(recv == det[i as int]);
                    assert(store@.solutions =~= det.subrange(0, i + 1) + pre.solutions.subrange(
                        i + 1,
                        n as int,
                    ));
                }
            } else {
                proof {
                    assert(entry[i as int] == det[i as int]);
                    assert(store@.solutions =~= det.subrange(0, i + 1) + pre.solutions.subrange(
                        i + 1,
                        n as int,
                    ));
                }
            }
            i += 1;
        }
        proof {
            let post = store@;
            let sx = sheet_ix_by_id(pre.sheets, id);
            assert(post.solutions =~= detached_solutions(pre.solutions, id));
            assert(sheets_ok(post.sheets, post.users, post.next_sheet_id)) by {
                assert(forall|k: int|
                    0 <= k < post.sheets.len() ==> (#[trigger] post.sheets[k]) == if k < sx {
                        pre.sheets[k]
                    } else {
                        pre.sheets[k + 1]
                    });
            }
            assert(solutions_ok(
                post.solutions,
                post.users,
                post.sheets,
                post.next_solution_id,
            )) by {
                assert forall|k: int| 0 <= k < post.solutions.len() implies ({
                    &&& (#[trigger] post.solutions[k]).id < post.next_solution_id
                    &&& has_user_id(post.users, post.solutions[k].owner_id)
                    &&& (post.solutions[k].sheet_id matches Some(sid) ==> has_sheet_id(
                        post.sheets,
                        sid,
                    ))
                }) by {
                    assert(pre.solutions[k].id == post.solutions[k].id);
                    assert(pre.solutions[k].owner_id == post.solutions[k].owner_id);
                    match post.solutions[k].sheet_id {
                        Option::Some(sid) => {
                            assert(pre.solutions[k].sheet_id == Option::Some(sid));
                            assert(sid != id);
                            assert(has_sheet_id(pre.sheets, sid));
                            let j = sheet_ix_by_id(pre.sheets, sid);
                            assert(pre.sheets[j].id == sid);
                            assert(j != sx);
                            if j < sx {
                                assert(post.sheets[j].id == sid);
                            } else {
                                assert(post.sheets[j - 1].id == sid);
                            }
                        },
                        Option::None => {},
                    }
                }
            }
        }
        Ok(DeleteOutcome::Deleted)
    } else {
        // first phase: move to trash
        let mut rec = store.sheets.remove(six);
        rec.trashed = Some(now);
        store.sheets.insert(six, rec);
        proof {
            let sx = sheet_ix_by_id(pre.sheets, id);
            assert(store@.sheets =~= pre.sheets.update(
                sx,
                (SheetV { trashed: Option::Some(now), ..pre.sheets[sx] }),
            ));
            assert(store@.users =~= pre.users);
            assert(store@.sessions =~= pre.sessions);
            assert(store@.solutions =~= pre.solutions);
            let post = store@;
            assert(sheets_ok(post.sheets, post.users, post.next_sheet_id)) by {
                assert(forall|k: int|
                    0 <= k < pre.sheets.len() ==> (#[trigger] post.sheets[k]).id
                        == pre.sheets[k].id && post.sheets[k].owner_id
                        == pre.sheets[k].owner_id);
            }
            assert(solutions_ok(
                post.solutions,
                post.users,
                post.sheets,
                post.next_solution_id,
            )) by {
                assert forall|k: int| 0 <= k < post.solutions.len() implies ((
                #[trigger] post.solutions[k]).sheet_id matches Some(sid) ==> has_sheet_id(
                    post.sheets,
                    sid,
                )) by {
                    match post.solutions[k].sheet_id {
                        Option::Some(sid) => {
                            assert(pre.solutions[k].sheet_id == Option::Some(sid));
                            assert(has_sheet_id(pre.sheets, sid));
                            lemma_has_sheet_id_same_ids(pre.sheets, post.sheets, sid);
                        },
                        Option::None => {},
                    }
                }
            }
        }
        Ok(DeleteOutcome::Trashed)
    }
}

/// Restore a trashed sheet: ownership-checked, clears `trashed`.
pub fn restore_sheet(store: &mut Store, user_id: i32, id: u64) -> (r: Result<(), Error>)
    requires
        old(store)@.wf(),
    ensures
        final(store)@.wf(),
        final(store)@.users == old(store)@.users,
        final(store)@.sessions == old(store)@.sessions,
        final(store)@.solutions == old(store)@.solutions,
        final(store)@.next_sheet_id == old(store)@.next_sheet_id,
        final(store)@.next_solution_id == old(store)@.next_solution_id,
        match r {
            Result::Ok(()) => {
                let six = sheet_ix_by_id(old(store)@.sheets, id);
                &&& has_sheet_id(old(store)@.sheets, id)
                &&& old(store)@.sheets[six].owner_id == user_id
                &&& final(store)@.sheets == old(store)@.sheets.update(
                    six,
                    (SheetV { trashed: Option::None, ..old(store)@.sheets[six] }),
                )
            },
            Result::Err(Error::NotFound) => !has_sheet_id(old(store)@.sheets, id) && final(store)@
                == old(store)@,
            Result::Err(Error::Forbidden) => has_sheet_id(old(store)@.sheets, id)
                && old(store)@.sheets[sheet_ix_by_id(old(store)@.sheets, id)].owner_id != user_id
                && final(store)@ == old(store)@,
        },
{
    match check_sheet_ownership(store, user_id, id) {
        Ok(()) => {},
        Err(e) => {
            return Err(e);
        },
    }
    let six = match store.find_sheet(id) {
        None => {
            proof {
                assert(false);
            }
            return Err(Error::NotFound);
        },
        Some(i) => i,
    };
    proof {
        lemma_sheet_ix(store@.sheets, store@.users, store@.next_sheet_id, six as int);
    }
    let ghost pre = store@;
    let mut rec = store.sheets.remove(six);
    rec.trashed = None;
    store.sheets.insert(six, rec);
    proof {
        let sx = sheet_ix_by_id(pre.sheets, id);
        assert(store@.sheets =~= pre.sheets.update(
            sx,
            (SheetV { trashed: Option::None, ..pre.sheets[sx] }),
        ));
        assert(store@.users =~= pre.users);
        assert(store@.sessions =~= pre.sessions);
        assert(store@.solutions =~= pre.solutions);
        let post = store@;
        assert(sheets_ok(post.sheets, post.users, post.next_sheet_id)) by {
            assert(forall|k: int|
                0 <= k < pre.sheets.len() ==> (#[trigger] post.sheets[k]).id == pre.sheets[k].id
                    && post.sheets[k].owner_id == pre.sheets[k].owner_id);
        }
        assert(solutions_ok(
            post.solutions,
            post.users,
            post.sheets,
            post.next_solution_id,
        )) by {
            assert forall|k: int| 0 <= k < post.solutions.len() implies ((
            #[trigger] post.solutions[k]).sheet_id matches Some(sid) ==> has_sheet_id(
                post.sheets,
                sid,
            )) by {
                match post.solutions[k].sheet_id {
                    Option::Some(sid) => {
                        assert(pre.solutions[k].sheet_id == Option::Some(sid));
                        assert(has_sheet_id(pre.sheets, sid));
                        lemma_has_sheet_id_same_ids(pre.sheets, post.sheets, sid);
                    },
                    Option::None => {},
                }
            }
        }
    }
    Ok(())
}


/// The images of a list of sheet metadata.
pub open spec fn sheet_views(s: Seq<SheetMetadata>) -> Seq<SheetMetadataV> {
    s.map_values(|m: SheetMetadata| m@)
}

/// The orders the sheet listings come in.
#[derive(Clone, Copy, PartialEq, Eq, Structural, Debug)]
pub enum SheetOrder {
    TitleAsc,
    TrashedDesc,
    ChangedDesc,
}

/// Whether `a` sorts at or before `b` under the given order.
pub open spec fn sheet_le(o: SheetOrder, a: SheetMetadataV, b: SheetMetadataV) -> bool {
    match o {
        SheetOrder::TitleAsc => crate::order::lex_le(a.title, b.title),
        SheetOrder::TrashedDesc => crate::order::trashed_key(a.trashed) >= crate::order::trashed_key(
            b.trashed,
        ),
        SheetOrder::ChangedDesc => a.changed >= b.changed,
    }
}

/// A listing sorted under the given order.
pub open spec fn sheets_sorted(s: Seq<SheetMetadataV>, o: SheetOrder) -> bool {
    forall|k: int, l: int|
        #![trigger s[k], s[l]]
        0 <= k < l < s.len() ==> sheet_le(o, s[k], s[l])
}

/// Any two sheets are comparable under any order.
proof fn lemma_sheet_le_total(o: SheetOrder, a: SheetMetadataV, b: SheetMetadataV)
    ensures
        sheet_le(o, a, b) || sheet_le(o, b, a),
{
    match o {
        SheetOrder::TitleAsc => crate::order::lemma_lex_le_total(a.title, b.title),
        _ => {},
    }
}

/// `sheet_le` is transitive under any order.
proof fn lemma_sheet_le_trans(o: SheetOrder, a: SheetMetadataV, b: SheetMetadataV, c: SheetMetadataV)
    requires
        sheet_le(o, a, b),
        sheet_le(o, b, c),
    ensures
        sheet_le(o, a, c),
{
    match o {
        SheetOrder::TitleAsc => crate::order::lemma_lex_le_trans(a.title, b.title, c.title),
        _ => {},
    }
}

/// Decide `sheet_le` on concrete metadata.
fn sheet_le_exec(o: SheetOrder, a: &SheetMetadata, b: &SheetMetadata) -> (r: bool)
    ensures
        r == sheet_le(o, a@, b@),
{
    match o {
        SheetOrder::TitleAsc => crate::order::str_le(a.title.as_str(), b.title.as_str()),
        SheetOrder::TrashedDesc => crate::order::trashed_desc_le(&a.trashed, &b.trashed),
        SheetOrder::ChangedDesc => a.changed >= b.changed,
    }
}

/// Insert into a listing kept sorted under `o`.
fn insert_sheet_sorted(v: &mut Vec<SheetMetadata>, x: SheetMetadata, o: SheetOrder)
    requires
        sheets_sorted(sheet_views(old(v)@), o),
    ensures
        sheets_sorted(sheet_views(final(v)@), o),
        sheet_views(final(v)@).to_multiset() == sheet_views(old(v)@).to_multiset().insert(x@),
{
    let n = v.len();
    let mut pos: usize = 0;
    while pos < n && sheet_le_exec(o, &v[pos], &x)
        invariant
            *v == *old(v),
            n == v.len(),
            pos <= n,
            forall|k: int| 0 <= k < pos ==> sheet_le(o, (#[trigger] sheet_views(v@)[k]), x@),
        decreases n - pos,
    {
        pos += 1;
    }
    let ghost prev = sheet_views(v@);
    let ghost xv = x@;
    let ghost p = pos as int;
    v.insert(pos, x);
    proof {
        let cur = sheet_views(v@);
        assert(cur =~= prev.insert(p, xv));
        if p < prev.len() {
            assert(!sheet_le(o, prev[p], xv));
            lemma_sheet_le_total(o, prev[p], xv);
        }
        assert(sheets_sorted(cur, o)) by {
            assert forall|k: int, l: int| 0 <= k < l < cur.len() implies sheet_le(
                o,
                (#[trigger] cur[k]),
                (#[trigger] cur[l]),
            ) by {
                if k < p && l < p {
                    assert(cur[k] == prev[k] && cur[l] == prev[l]);
                } else if k < p && l == p {
                    assert(cur[k] == prev[k] && cur[l] == xv);
                } else if k < p && l > p {
                    assert(cur[k] == prev[k] && cur[l] == prev[l - 1]);
                } else if k == p && l > p {
                    assert(cur[k] == xv && cur[l] == prev[l - 1]);
                    assert(!sheet_le(o, prev[p], xv) || p >= prev.len());
                    assert(sheet_le(o, xv, prev[p]));
                    if l - 1 > p {
                        assert(sheet_le(o, prev[p], prev[l - 1]));
                        lemma_sheet_le_trans(o, xv, prev[p], prev[l - 1]);
                    }
                } else {
                    assert(k > p && l > p);
                    assert(cur[k] == prev[k - 1] && cur[l] == prev[l - 1]);
                }
            }
        }
        assert(cur.to_multiset() =~= prev.to_multiset().insert(xv)) by {
            broadcast use vstd::seq_lib::group_to_multiset_ensures;

            assert(cur.remove(p) =~= prev);
            assert(cur[p] == xv);
            assert(cur.remove(p).to_multiset() =~= cur.to_multiset().remove(xv));
            assert(cur.to_multiset().contains(xv));
            assert(prev.to_multiset() =~= cur.to_multiset().remove(xv));
            assert(prev.to_multiset().insert(xv) =~= cur.to_multiset().remove(xv).insert(xv));
            assert(cur.to_multiset().remove(xv).insert(xv) =~= cur.to_multiset());
        }
    }
}

/// Which sheets a listing selects: the owner's, either active or
/// trashed.
pub open spec fn sheet_selected(s: SheetV, user_id: i32, trash: bool) -> bool {
    s.owner_id == user_id && if trash {
        s.trashed matches Some(_)
    } else {
        s.trashed matches None
    }
}

/// The metadata of the owner's selected sheets, in store order.
pub open spec fn sheets_selected(st: StoreV, user_id: i32, trash: bool) -> Seq<SheetMetadataV> {
    st.sheets.filter(|s: SheetV| sheet_selected(s, user_id, trash)).map_values(
        |s: SheetV| sheet_metadata_in(st, s),
    )
}

/// Collect the owner's selected sheets, sorted under `o`.
fn collect_sheets(store: &Store, user_id: i32, trash: bool, o: SheetOrder) -> (r: Vec<
    SheetMetadata,
>)
    requires
        store@.wf(),
    ensures
        sheet_views(r@).to_multiset() == sheets_selected(store@, user_id, trash).to_multiset(),
        sheets_sorted(sheet_views(r@), o),
{
    let ghost st = store@;
    let ghost pred = |s: SheetV| sheet_selected(s, user_id, trash);
    let ghost f = |s: SheetV| sheet_metadata_in(st, s);
    let mut out: Vec<SheetMetadata> = Vec::new();
    let n = store.sheets.len();
    let mut i: usize = 0;
    proof {
        assert(st.sheets.subrange(0, 0) =~= Seq::<SheetV>::empty());
        assert(Seq::<SheetV>::empty().filter(pred) =~= Seq::<SheetV>::empty()) by {
            reveal(Seq::filter);
        }
        assert(sheet_views(out@) =~= Seq::<SheetMetadataV>::empty());
        broadcast use vstd::seq_lib::group_to_multiset_ensures;

        assert(sheet_views(out@).to_multiset() =~= st.sheets.subrange(0, 0).filter(pred).map_values(
            f,
        ).to_multiset());
    }
    while i < n
        invariant
            store@ == st,
            store@.wf(),
            n == store.sheets.len(),
            i <= n,
            pred == (|s: SheetV| sheet_selected(s, user_id, trash)),
            f == (|s: SheetV| sheet_metadata_in(st, s)),
            sheet_views(out@).to_multiset() == st.sheets.subrange(0, i as int).filter(
                pred,
            ).map_values(f).to_multiset(),
            sheets_sorted(sheet_views(out@), o),
        decreases n - i,
    {
        let ghost prefix = st.sheets.subrange(0, i as int);
        proof {
            assert(st.sheets.subrange(0, i + 1) =~= prefix.push(st.sheets[i as int]));
            crate::store::lemma_filter_push(prefix, st.sheets[i as int], pred);
            if pred(st.sheets[i as int]) {
                assert(prefix.push(st.sheets[i as int]).filter(pred).map_values(f) =~= prefix.filter(
                    pred,
                ).map_values(f).push(f(st.sheets[i as int])));
            } else {
                assert(prefix.push(st.sheets[i as int]).filter(pred).map_values(f) =~= prefix.filter(
                    pred,
                ).map_values(f));
            }
            broadcast use vstd::seq_lib::group_to_multiset_ensures;

        }
        let selected = store.sheets[i].owner_id == user_id && (if trash {
            store.sheets[i].trashed.is_some()
        } else {
            store.sheets[i].trashed.is_none()
        });
        if selected {
            let m = sheet_metadata_at(store, i);
            insert_sheet_sorted(&mut out, m, o);
        }
        i += 1;
    }
    proof {
        assert(st.sheets.subrange(0, n as int) =~= st.sheets);
    }
    out
}

/// The owner's active sheets, alphabetically by title.
pub fn get_all_sheets(store: &Store, user_id: i32) -> (r: Vec<SheetMetadata>)
    requires
        store@.wf(),
    ensures
        sheet_views(r@).to_multiset() == sheets_selected(store@, user_id, false).to_multiset(),
        sheets_sorted(sheet_views(r@), SheetOrder::TitleAsc),
{
    collect_sheets(store, user_id, false, SheetOrder::TitleAsc)
}

/// The owner's trashed sheets, most recently trashed first.
pub fn get_trash(store: &Store, user_id: i32) -> (r: Vec<SheetMetadata>)
    requires
        store@.wf(),
    ensures
        sheet_views(r@).to_multiset() == sheets_selected(store@, user_id, true).to_multiset(),
        sheets_sorted(sheet_views(r@), SheetOrder::TrashedDesc),
{
    collect_sheets(store, user_id, true, SheetOrder::TrashedDesc)
}

/// The owner's active sheets, most recently changed first.
pub fn get_recent(store: &Store, user_id: i32) -> (r: Vec<SheetMetadata>)
    requires
        store@.wf(),
    ensures
        sheet_views(r@).to_multiset() == sheets_selected(store@, user_id, false).to_multiset(),
        sheets_sorted(sheet_views(r@), SheetOrder::ChangedDesc),
{
    collect_sheets(store, user_id, false, SheetOrder::ChangedDesc)
}


/// Whether a stored solution is the student's active work on this sheet.
pub open spec fn active_solution_for(s: SolutionV, sheet: SheetV, student: i32) -> bool {
    s.owner_id == student && (s.trashed matches None) && s.sheet_id == Option::Some(sheet.id)
}

/// The student holds an active solution pinned before the sheet's
/// current version: their work is stale.
pub open spec fn has_stale_solution(st: StoreV, sheet: SheetV, student: i32) -> bool {
    exists|k: int|
        0 <= k < st.solutions.len() && active_solution_for(
            #[trigger] st.solutions[k],
            sheet,
            student,
        ) && st.solutions[k].sheet_version < sheet.changed
}

/// The student holds an active solution pinned at the sheet's current
/// version: they have caught up.
pub open spec fn has_current_solution(st: StoreV, sheet: SheetV, student: i32) -> bool {
    exists|k: int|
        0 <= k < st.solutions.len() && active_solution_for(
            #[trigger] st.solutions[k],
            sheet,
            student,
        ) && st.solutions[k].sheet_version == sheet.changed
}

/// The sheets the updated listing shows this student: active sheets the
/// student has started whose content moved on since, and which they
/// have not re-synced.
pub open spec fn sheet_updated_for(st: StoreV, sheet: SheetV, student: i32) -> bool {
    &&& sheet.trashed matches None
    &&& has_stale_solution(st, sheet, student)
    &&& !has_current_solution(st, sheet, student)
}

/// The metadata of the student's updated sheets, in store order.
pub open spec fn updated_sheets(st: StoreV, student: i32) -> Seq<SheetMetadataV> {
    st.sheets.filter(|s: SheetV| sheet_updated_for(st, s, student)).map_values(
        |s: SheetV| sheet_metadata_in(st, s),
    )
}

/// Decide stale-ness and caught-up-ness of the sheet at `six` for the
/// student by one scan over the solutions.
fn solution_state_for(store: &Store, six: usize, student: i32) -> (r: (bool, bool))
    requires
        store@.wf(),
        six < store@.sheets.len(),
    ensures
        r.0 == has_stale_solution(store@, store@.sheets[six as int], student),
        r.1 == has_current_solution(store@, store@.sheets[six as int], student),
{
    let ghost sheet = store@.sheets[six as int];
    let sheet_id = store.sheets[six].id;
    let changed = store.sheets[six].changed;
    let mut stale = false;
    let mut current = false;
    let n = store.solutions.len();
    let mut i: usize = 0;
    while i < n
        invariant
            n == store.solutions.len(),
            i <= n,
            six < store@.sheets.len(),
            sheet == store@.sheets[six as int],
            sheet_id == sheet.id,
            changed == sheet.changed,
            stale == exists|k: int|
                0 <= k < i && active_solution_for(#[trigger] store@.solutions[k], sheet, student)
                    && store@.solutions[k].sheet_version < sheet.changed,
            current == exists|k: int|
                0 <= k < i && active_solution_for(#[trigger] store@.solutions[k], sheet, student)
                    && store@.solutions[k].sheet_version == sheet.changed,
        decreases n - i,
    {
        let sol = &store.solutions[i];
        let is_active = sol.owner_id == student && sol.trashed.is_none() && (match sol.sheet_id {
            Some(x) => x == sheet_id,
            None => false,
        });
        if is_active {
            if sol.sheet_version < changed {
                stale = true;
            } else if sol.sheet_version == changed {
                current = true;
            }
        }
        proof {
            let cur = store@.solutions[i as int];
            assert(is_active == active_solution_for(cur, sheet, student));
            assert(stale == exists|k: int|
                0 <= k < i + 1 && active_solution_for(#[trigger] store@.solutions[k], sheet, student)
                    && store@.solutions[k].sheet_version < sheet.changed) by {
                if stale {
                    if is_active && cur.sheet_version < sheet.changed {
                        assert(active_solution_for(store@.solutions[i as int], sheet, student)
                            && store@.solutions[i as int].sheet_version < sheet.changed);
                    } else {
                        let k = choose|k: int|
                            0 <= k < i && active_solution_for(
                                #[trigger] store@.solutions[k],
                                sheet,
                                student,
                            ) && store@.solutions[k].sheet_version < sheet.changed;
                        assert(active_solution_for(store@.solutions[k], sheet, student));
                    }
                } else {
                    assert(forall|k: int|
                        0 <= k < i + 1 ==> !(active_solution_for(
                            #[trigger] store@.solutions[k],
                            sheet,
                            student,
                        ) && store@.solutions[k].sheet_version < sheet.changed));
                }
            }
            assert(current == exists|k: int|
                0 <= k < i + 1 && active_solution_for(#[trigger] store@.solutions[k], sheet, student)
                    && store@.solutions[k].sheet_version == sheet.changed) by {
                if current {
                    if is_active && cur.sheet_version == sheet.changed {
                        assert(active_solution_for(store@.solutions[i as int], sheet, student)
                            && store@.solutions[i as int].sheet_version == sheet.changed);
                    } else {
                        let k = choose|k: int|
                            0 <= k < i && active_solution_for(
                                #[trigger] store@.solutions[k],
                                sheet,
                                student,
                            ) && store@.solutions[k].sheet_version == sheet.changed;
                        assert(active_solution_for(store@.solutions[k], sheet, student));
                    }
                } else {
                    assert(forall|k: int|
                        0 <= k < i + 1 ==> !(active_solution_for(
                            #[trigger] store@.solutions[k],
                            sheet,
                            student,
                        ) && store@.solutions[k].sheet_version == sheet.changed));
                }
            }
        }
        i += 1;
    }
    (stale, current)
}

/// The sheets the student has started that were edited since and not
/// yet re-synced: active sheets with a stale solution of theirs and no
/// caught-up one, in store order.
pub fn list_updated(store: &Store, student: i32) -> (r: Vec<SheetMetadata>)
    requires
        store@.wf(),
    ensures
        sheet_views(r@) == updated_sheets(store@, student),
{
    let ghost st = store@;
    let ghost pred = |s: SheetV| sheet_updated_for(st, s, student);
    let ghost f = |s: SheetV| sheet_metadata_in(st, s);
    let mut out: Vec<SheetMetadata> = Vec::new();
    let n = store.sheets.len();
    let mut i: usize = 0;
    proof {
        assert(st.sheets.subrange(0, 0) =~= Seq::<SheetV>::empty());
        assert(Seq::<SheetV>::empty().filter(pred) =~= Seq::<SheetV>::empty()) by {
            reveal(Seq::filter);
        }
        assert(sheet_views(out@) =~= st.sheets.subrange(0, 0).filter(pred).map_values(f));
    }
    while i < n
        invariant
            store@ == st,
            store@.wf(),
            n == store.sheets.len(),
            i <= n,
            pred == (|s: SheetV| sheet_updated_for(st, s, student)),
            f == (|s: SheetV| sheet_metadata_in(st, s)),
            sheet_views(out@) == st.sheets.subrange(0, i as int).filter(pred).map_values(f),
        decreases n - i,
    {
        let ghost prefix = st.sheets.subrange(0, i as int);
        proof {
            assert(st.sheets.subrange(0, i + 1) =~= prefix.push(st.sheets[i as int]));
            crate::store::lemma_filter_push(prefix, st.sheets[i as int], pred);
        }
        let active = store.sheets[i].trashed.is_none();
        if active {
            let (stale, current) = solution_state_for(store, i, student);
            if stale && !current {
                let m = sheet_metadata_at(store, i);
                out.push(m);
                proof {
                    assert(pred(st.sheets[i as int]));
                    assert(sheet_views(out@) =~= prefix.filter(pred).map_values(f).push(
                        f(st.sheets[i as int]),
                    ));
                    assert(prefix.push(st.sheets[i as int]).filter(pred).map_values(f)
                        =~= prefix.filter(pred).map_values(f).push(f(st.sheets[i as int])));
                }
            } else {
                proof {
                    assert(!pred(st.sheets[i as int]));
                    assert(prefix.push(st.sheets[i as int]).filter(pred).map_values(f)
                        =~= prefix.filter(pred).map_values(f));
                }
            }
        } else {
            proof {
                assert(!pred(st.sheets[i as int]));
                assert(prefix.push(st.sheets[i as int]).filter(pred).map_values(f)
                    =~= prefix.filter(pred).map_values(f));
            }
        }
        i += 1;
    }
    proof {
        assert(st.sheets.subrange(0, n as int) =~= st.sheets);
    }
    out
}

/// The updated listing shows a sheet if and only if the student has an
/// active solution pinned before the sheet's current version and none
/// pinned at it (and the sheet is not trashed): membership, stated by
/// sheet id.
pub proof fn lemma_list_updated_iff(st: StoreV, student: i32, j: int)
    requires
        st.wf(),
        0 <= j < st.sheets.len(),
    ensures
        (exists|k: int|
            0 <= k < updated_sheets(st, student).len() && (#[trigger] updated_sheets(st, student)[k]).id
                == st.sheets[j].id) <==> sheet_updated_for(st, st.sheets[j], student),
{
    let pred = |s: SheetV| sheet_updated_for(st, s, student);
    let f = |s: SheetV| sheet_metadata_in(st, s);
    let filtered = st.sheets.filter(pred);
    let listed = updated_sheets(st, student);
    if exists|k: int|
        0 <= k < listed.len() && (#[trigger] listed[k]).id == st.sheets[j].id {
        let k = choose|k: int| 0 <= k < listed.len() && (#[trigger] listed[k]).id == st.sheets[j].id;
        assert(listed[k] == f(filtered[k]));
        crate::store::lemma_filter_element_from(st.sheets, pred, k);
        let m = choose|m: int| 0 <= m < st.sheets.len() && #[trigger] st.sheets[m] == filtered[k];
        st.sheets.lemma_filter_pred(pred, k);
        assert(pred(st.sheets[m]));
        assert(st.sheets[m].id == st.sheets[j].id);
        assert(st.sheets[m] == st.sheets[m] && st.sheets[j] == st.sheets[j]);
        assert(m == j);
    }
    if sheet_updated_for(st, st.sheets[j], student) {
        st.sheets.lemma_filter_contains(pred, j);
        assert(filtered.contains(st.sheets[j]));
        let k = choose|k: int| 0 <= k < filtered.len() && filtered[k] == st.sheets[j];
        assert(listed[k] == f(filtered[k]));
        assert(listed[k].id == st.sheets[j].id);
    }
}


/// Round trip: a freshly created sheet reads back with the submitted
/// title and content, `created == changed`, and no trash mark. The
/// premises restate what `create_sheet` ensures of the two stores.
pub proof fn lemma_create_round_trip(
    pre: StoreV,
    post: StoreV,
    user_id: i32,
    title: Seq<char>,
    content: Seq<char>,
    now: i64,
    id: u64,
)
    requires
        pre.wf(),
        id == pre.next_sheet_id,
        post.users == pre.users,
        post.sheets == pre.sheets.push(
            SheetV {
                id,
                title,
                owner_id: user_id,
                created: now,
                changed: now,
                trashed: Option::None,
                content,
            },
        ),
    ensures
        has_sheet_id(post.sheets, id),
        ({
            let sheet = post.sheets[sheet_ix_by_id(post.sheets, id)];
            let data = sheet_data_in(post, sheet);
            &&& data.metadata.title == title
            &&& data.content == content
            &&& data.metadata.created == now
            &&& data.metadata.changed == now
            &&& data.metadata.trashed matches None
        }),
{
    let last = post.sheets.len() - 1;
    assert(post.sheets[last].id == id);
    assert(has_sheet_id(post.sheets, id));
    let j = sheet_ix_by_id(post.sheets, id);
    assert(0 <= j < post.sheets.len() && post.sheets[j].id == id);
    if j != last {
        assert(post.sheets[j] == pre.sheets[j]);
        assert(pre.sheets[j].id < pre.next_sheet_id);
        assert(false);
    }
}

/// An update attempted by anyone but the owner fails with `Forbidden`
/// and leaves the store — the sheet's title, content and `changed`
/// among everything else — exactly as it was.
pub proof fn lemma_update_by_non_owner(
    pre: StoreV,
    post: StoreV,
    user_id: i32,
    id: u64,
    title: Seq<char>,
    content: Seq<char>,
    now: i64,
    r: Result<(), Error>,
)
    requires
        update_sheet_post(pre, post, user_id, id, title, content, now, r),
        has_sheet_id(pre.sheets, id),
        pre.sheets[sheet_ix_by_id(pre.sheets, id)].owner_id != user_id,
    ensures
        r == Result::<(), Error>::Err(Error::Forbidden),
        post == pre,
{
}

/// Two deletes in sequence by the owner: the first moves the sheet to
/// the trash and it stays readable, the second removes it for good and
/// it is gone.
pub proof fn lemma_delete_sheet_twice(
    pre: StoreV,
    s1: StoreV,
    s2: StoreV,
    user_id: i32,
    id: u64,
    now1: i64,
    now2: i64,
    r1: Result<DeleteOutcome, Error>,
    r2: Result<DeleteOutcome, Error>,
)
    requires
        pre.wf(),
        delete_sheet_post(pre, s1, user_id, id, now1, r1),
        delete_sheet_post(s1, s2, user_id, id, now2, r2),
        has_sheet_id(pre.sheets, id),
        pre.sheets[sheet_ix_by_id(pre.sheets, id)].owner_id == user_id,
        pre.sheets[sheet_ix_by_id(pre.sheets, id)].trashed matches None,
        now1 >= pre.sheets[sheet_ix_by_id(pre.sheets, id)].changed,
    ensures
        r1 == Result::<DeleteOutcome, Error>::Ok(DeleteOutcome::Trashed),
        has_sheet_id(s1.sheets, id),
        s1.sheets[sheet_ix_by_id(s1.sheets, id)].trashed == Option::Some(now1),
        now1 >= s1.sheets[sheet_ix_by_id(s1.sheets, id)].changed,
        r2 == Result::<DeleteOutcome, Error>::Ok(DeleteOutcome::Deleted),
        !has_sheet_id(s2.sheets, id),
{
    let six = sheet_ix_by_id(pre.sheets, id);
    match r1 {
        Result::Ok(DeleteOutcome::Trashed) => {},
        Result::Ok(DeleteOutcome::Deleted) => {
            assert(false);
        },
        Result::Err(e) => {
            assert(false);
        },
    }
    assert(s1.sheets == pre.sheets.update(
        six,
        (SheetV { trashed: Option::Some(now1), ..pre.sheets[six] }),
    ));
    assert(s1.sheets[six].id == id);
    assert(has_sheet_id(s1.sheets, id));
    assert(sheet_ix_by_id(s1.sheets, id) == six) by {
        let j = sheet_ix_by_id(s1.sheets, id);
        assert(0 <= j < s1.sheets.len() && s1.sheets[j].id == id);
        assert(forall|k: int|
            0 <= k < pre.sheets.len() ==> (#[trigger] s1.sheets[k]).id == pre.sheets[k].id);
        if j != six {
            assert(pre.sheets[j].id == id);
            assert(pre.sheets[j] == pre.sheets[j] && pre.sheets[six] == pre.sheets[six]);
            assert(false);
        }
    }
    match r2 {
        Result::Ok(DeleteOutcome::Deleted) => {},
        Result::Ok(DeleteOutcome::Trashed) => {
            assert(false);
        },
        Result::Err(e) => {
            assert(false);
        },
    }
    assert(s2.sheets == s1.sheets.remove(six));
    if has_sheet_id(s2.sheets, id) {
        let k = choose|k: int| 0 <= k < s2.sheets.len() && (#[trigger] s2.sheets[k]).id == id;
        let korig = if k < six {
            k
        } else {
            k + 1
        };
        assert(s2.sheets[k] == s1.sheets[korig]);
        assert(s1.sheets[korig].id == id);
        assert(korig != six);
        assert(pre.sheets[korig].id == id && pre.sheets[six].id == id);
        assert(pre.sheets[korig] == pre.sheets[korig] && pre.sheets[six] == pre.sheets[six]);
        assert(false);
    }
}

} // verus!
