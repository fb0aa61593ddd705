use crate::errors::ServiceError;
use crate::models::post::Post;
use crate::store::{
    has_id, idx_of, lemma_ascending_implies_distinct, post_row, store_inv, CacheStore, Row,
    RowModel,
};
use vstd::pervasive::VecAdditionalExecFns;
use vstd::prelude::*;

verus! {

/// Whether a store whose counter stands at `next_id` can assign `n` more
/// identifiers without exhausting them.
pub open spec fn can_assign(next_id: u32, n: nat) -> bool {
    next_id + n <= u32::MAX
}

/// The post reports exactly the persisted fields of the row and carries no
/// user enrichment: reads invent nothing and drop nothing else.
pub open spec fn post_reads_row(p: Post, row: RowModel) -> bool {
    &&& p.id == row.id
    &&& p.title@ == row.title
    &&& p.body@ == row.body
    &&& p.userId == row.userId
    &&& p.user is None
}

/// The model of the cache after synchronization replaces its contents with
/// the fetched posts: one row per post, in order, with fresh identifiers
/// assigned from `next_id` on.
pub open spec fn sync_rows(next_id: u32, posts: Seq<Post>) -> Seq<RowModel> {
    Seq::new(posts.len(), |i: int| post_row(posts[i], (next_id + i) as u32))
}

/// The persisted content of rows with the identifiers forgotten: what
/// synchronization answers for, since the store reassigns identifiers.
pub open spec fn row_contents(rows: Seq<RowModel>) -> Seq<(Seq<char>, Seq<char>, u32)> {
    rows.map_values(|row: RowModel| (row.title, row.body, row.userId))
}

/// Synchronization is idempotent up to identifiers: wherever the assignment
/// counter stands, replacing the cache with the same fetched list yields
/// rows with the same contents in the same order. Running `poll` twice
/// against an unchanged remote result set therefore leaves the cache in the
/// same state both times, identifiers aside.
pub proof fn lemma_poll_idempotent(next_a: u32, next_b: u32, fetched: Seq<Post>)
    ensures
        row_contents(sync_rows(next_a, fetched)) == row_contents(sync_rows(next_b, fetched)),
{
    assert(row_contents(sync_rows(next_a, fetched)) =~= row_contents(sync_rows(next_b, fetched)));
}

/// A well-formed store holds no row under the identifier it will assign
/// next: every `create` hands out a fresh identifier. Concurrent `create`
/// calls are serialized by the store's exclusive guard, so each sees the
/// rows the previous ones left and receives a distinct identifier.
pub proof fn lemma_assigned_id_fresh(rows: Seq<RowModel>, next_id: u32)
    requires
        store_inv(rows, next_id),
    ensures
        !has_id(rows, next_id),
{
}

/// Round trip: after `create` appends a row under the assigned identifier,
/// a lookup of that identifier finds exactly the appended row, so `get_post`
/// returns a post with the created title, body and owning-user id.
pub proof fn lemma_create_round_trip(rows: Seq<RowModel>, next_id: u32, p: Post)
    requires
        store_inv(rows, next_id),
    ensures
        ({
            let rows2 = rows.push(post_row(p, next_id));
            has_id(rows2, next_id) && rows2[idx_of(rows2, next_id)] == post_row(p, next_id)
        }),
{
    let rows2 = rows.push(post_row(p, next_id));
    assert(rows2[rows.len() as int].id == next_id);
    assert(has_id(rows2, next_id));
    let k = idx_of(rows2, next_id);
    assert(0 <= k < rows2.len() && rows2[k].id == next_id);
    if k < rows.len() {
        assert(rows[k].id < next_id);
        assert(false);
    }
}

/// Synchronization: replaces the whole cache with the fetched post list and
/// hands that list back.
///
/// The replacement is atomic and fail-closed. An empty fetched list leaves
/// the cache untouched, so a remote source that momentarily reports nothing
/// cannot wipe it. A non-empty list replaces every row, the store assigning
/// fresh identifiers in fetch order; if the identifiers would run out the
/// whole replacement is abandoned, the cache keeps its previous rows, and
/// `StoreError` is surfaced — no partial replace is observable.
pub fn poll(store: &mut CacheStore, fetched: Vec<Post>) -> (r: Result<Vec<Post>, ServiceError>)
    requires
        old(store).wf(),
    ensures
        final(store).wf(),
        fetched@.len() == 0 ==> r is Ok && final(store)@ == old(store)@
            && final(store).spec_next_id() == old(store).spec_next_id(),
        fetched@.len() > 0 && can_assign(old(store).spec_next_id(), fetched@.len()) ==> r is Ok
            && final(store)@ == sync_rows(old(store).spec_next_id(), fetched@)
            && final(store).spec_next_id() == old(store).spec_next_id() + fetched@.len(),
        fetched@.len() > 0 && !can_assign(old(store).spec_next_id(), fetched@.len()) ==> r is Err
            && r->Err_0 == ServiceError::StoreError && final(store)@ == old(store)@
            && final(store).spec_next_id() == old(store).spec_next_id(),
        r is Ok ==> r->Ok_0 == fetched,
{
    let len = fetched.len();
    if len == 0 {
        return Ok(fetched);
    }
    if len > (u32::MAX - store.next_id) as usize {
        return Err(ServiceError::StoreError);
    }
    let mut new_rows: Vec<Row> = Vec::new();
    let mut i: usize = 0;
    while i < len
        invariant
            len == fetched@.len(),
            i <= len,
            store.next_id == old(store).spec_next_id(),
            can_assign(store.next_id, len as nat),
            new_rows@.len() == i as int,
            forall|j: int| 0 <= j < i ==> (#[trigger] new_rows@[j])@ == sync_rows(
                store.next_id,
                fetched@,
            )[j],
        decreases len - i,
    {
        let p = &fetched[i];
        let id = store.next_id + (i as u32);
        new_rows.push(
            Row { id, title: p.title.clone(), body: p.body.clone(), userId: p.userId },
        );
        i += 1;
    }
    store.rows = new_rows;
    store.next_id = store.next_id + (len as u32);
    proof {
        assert(store@ =~= sync_rows(old(store).spec_next_id(), fetched@));
        assert forall|a: int, b: int| 0 <= a < b < store@.len() implies (store@[a]).id < (
        store@[b]).id by {
            assert(store@[a].id == old(store).spec_next_id() + a);
            assert(store@[b].id == old(store).spec_next_id() + b);
        }
        lemma_ascending_implies_distinct(store@);
    }
    Ok(fetched)
}

/// All cached rows, identifiers ascending in storage order, each read back
/// as a post.
pub fn get_posts(store: &CacheStore) -> (r: Result<Vec<Post>, ServiceError>)
    requires
        store.wf(),
    ensures
        r is Ok,
        r->Ok_0@.len() == store@.len(),
        forall|i: int| 0 <= i < store@.len() ==> post_reads_row(#[trigger] r->Ok_0@[i], store@[i]),
        forall|i: int, j: int| 0 <= i < j < store@.len() ==> (#[trigger] r->Ok_0@[i]).id < (
        #[trigger] r->Ok_0@[j]).id,
{
    let mut posts: Vec<Post> = Vec::new();
    let mut i: usize = 0;
    while i < store.rows.len()
        invariant
            i <= store.rows@.len(),
            posts@.len() == i as int,
            forall|j: int| 0 <= j < i ==> post_reads_row(#[trigger] posts@[j], store@[j]),
        decreases store.rows@.len() - i,
    {
        let row = &store.rows[i];
        posts.push(
            Post {
                id: row.id,
                title: row.title.clone(),
                body: row.body.clone(),
                userId: row.userId,
                user: None,
            },
        );
        i += 1;
    }
    Ok(posts)
}

/// The index of the row carrying the identifier, if any: the executable
/// counterpart of `has_id` and `idx_of`.
fn find_idx(store: &CacheStore, post_id: u32) -> (r: Option<usize>)
    requires
        store.wf(),
    ensures
        r is Some <==> has_id(store@, post_id),
        r is Some ==> r->0 < store@.len() && store@[r->0 as int].id == post_id && idx_of(
            store@,
            post_id,
        ) == r->0 as int,
{
    let mut i: usize = 0;
    while i < store.rows.len()
        invariant
            store.wf(),
            i <= store.rows@.len(),
            forall|j: int| 0 <= j < i ==> (#[trigger] store@[j]).id != post_id,
        decreases store.rows@.len() - i,
    {
        if store.rows[i].id == post_id {
            proof {
                assert(store@[i as int].id == post_id);
                assert(has_id(store@, post_id));
                let k = idx_of(store@, post_id);
                assert(0 <= k < store@.len() && store@[k].id == post_id);
                if k < i as int {
                    assert(store@[k].id != store@[i as int].id);
                    assert(false);
                } else if k > i as int {
                    assert(store@[i as int].id != store@[k].id);
                    assert(false);
                }
            }
            return Some(i);
        }
        i += 1;
    }
    None
}

/// The one cached row carrying the identifier, read back as a post; fails
/// with `NotFound` exactly when no row carries it.
pub fn get_post(store: &CacheStore, post_id: u32) -> (r: Result<Post, ServiceError>)
    requires
        store.wf(),
    ensures
        r is Ok <==> has_id(store@, post_id),
        r is Ok ==> post_reads_row(r->Ok_0, store@[idx_of(store@, post_id)]),
        r is Ok ==> r->Ok_0.id == post_id,
        r is Err ==> r->Err_0 == ServiceError::NotFound,
{
    match find_idx(store, post_id) {
        Some(i) => {
            let row = &store.rows[i];
            Ok(
                Post {
                    id: row.id,
                    title: row.title.clone(),
                    body: row.body.clone(),
                    userId: row.userId,
                    user: None,
                },
            )
        },
        None => Err(ServiceError::NotFound),
    }
}

/// Inserts the persisted fields of a post as a new row and returns the post
/// with the store-assigned identifier substituted in. Fails with
/// `StoreError`, inserting nothing, exactly when the identifiers are
/// exhausted.
pub fn create_post(store: &mut CacheStore, post: Post) -> (r: Result<Post, ServiceError>)
    requires
        old(store).wf(),
    ensures
        final(store).wf(),
        r is Ok <==> can_assign(old(store).spec_next_id(), 1),
        r is Ok ==> final(store)@ == old(store)@.push(
            post_row(post, old(store).spec_next_id()),
        ),
        r is Ok ==> final(store).spec_next_id() == old(store).spec_next_id() + 1,
        r is Ok ==> r->Ok_0.id == old(store).spec_next_id() && r->Ok_0.title == post.title
            && r->Ok_0.body == post.body && r->Ok_0.userId == post.userId && r->Ok_0.user
            == post.user,
        r is Err ==> r->Err_0 == ServiceError::StoreError && final(store)@ == old(store)@
            && final(store).spec_next_id() == old(store).spec_next_id(),
{
    if store.next_id == u32::MAX {
        return Err(ServiceError::StoreError);
    }
    let id = store.next_id;
    store.rows.push(
        Row { id, title: post.title.clone(), body: post.body.clone(), userId: post.userId },
    );
    store.next_id = id + 1;
    proof {
        assert(store@ =~= old(store)@.push(post_row(post, id)));
        assert forall|a: int, b: int| 0 <= a < b < store@.len() implies (store@[a]).id < (
        store@[b]).id by {
            if b < store@.len() - 1 {
                assert(old(store)@[a].id < old(store)@[b].id);
            } else {
                assert(old(store)@[a].id < id);
            }
        }
        lemma_ascending_implies_distinct(store@);
    }
    let mut created = post;
    created.id = id;
    Ok(created)
}

/// Overwrites the persisted fields of the row whose identifier the post
/// carries and returns the post unchanged. Fails with `NotFound`, writing
/// nothing, exactly when no row carries that identifier.
pub fn update_post(store: &mut CacheStore, post: Post) -> (r: Result<Post, ServiceError>)
    requires
        old(store).wf(),
    ensures
        final(store).wf(),
        final(store).spec_next_id() == old(store).spec_next_id(),
        r is Ok <==> has_id(old(store)@, post.id),
        r is Ok ==> final(store)@ == old(store)@.update(
            idx_of(old(store)@, post.id),
            post_row(post, post.id),
        ),
        r is Ok ==> r->Ok_0 == post,
        r is Err ==> r->Err_0 == ServiceError::NotFound && final(store)@ == old(store)@,
{
    match find_idx(store, post.id) {
        Some(i) => {
            store.rows.set(
                i,
                Row {
                    id: post.id,
                    title: post.title.clone(),
                    body: post.body.clone(),
                    userId: post.userId,
                },
            );
            proof {
                let k = idx_of(old(store)@, post.id);
                assert(store@ =~= old(store)@.update(k, post_row(post, post.id)));
                assert forall|a: int, b: int| 0 <= a < b < store@.len() implies (store@[a]).id
                    < (store@[b]).id by {
                    assert(old(store)@[a].id < old(store)@[b].id);
                    assert(old(store)@[k].id == post.id);
                }
                lemma_ascending_implies_distinct(store@);
            }
            Ok(post)
        },
        None => Err(ServiceError::NotFound),
    }
}

/// Deletes the row carrying the identifier and reports that a row was
/// removed. Fails with `NotFound`, removing nothing, exactly when no row
/// carries it.
pub fn delete_post(store: &mut CacheStore, post_id: u32) -> (r: Result<bool, ServiceError>)
    requires
        old(store).wf(),
    ensures
        final(store).wf(),
        final(store).spec_next_id() == old(store).spec_next_id(),
        r is Ok <==> has_id(old(store)@, post_id),
        r is Ok ==> r->Ok_0 == true && final(store)@ == old(store)@.remove(
            idx_of(old(store)@, post_id),
        ),
        r is Err ==> r->Err_0 == ServiceError::NotFound && final(store)@ == old(store)@,
{
    match find_idx(store, post_id) {
        Some(i) => {
            store.rows.remove(i);
            proof {
                let k = idx_of(old(store)@, post_id);
                old(store)@.remove_ensures(k);
                assert(store@ =~= old(store)@.remove(k));
                assert forall|a: int, b: int| 0 <= a < b < store@.len() implies (store@[a]).id
                    < (store@[b]).id by {
                    let a0 = if a < k {
                        a
                    } else {
                        a + 1
                    };
                    let b0 = if b < k {
                        b
                    } else {
                        b + 1
                    };
                    assert(store@[a] == old(store)@[a0]);
                    assert(store@[b] == old(store)@[b0]);
                    assert(old(store)@[a0].id < old(store)@[b0].id);
                }
                lemma_ascending_implies_distinct(store@);
            }
            Ok(true)
        },
        None => Err(ServiceError::NotFound),
    }
}

} // verus!
