use crate::models::post::Post;
use vstd::prelude::*;

verus! {

/// The mathematical value of one cached row: the persisted fields of a post.
/// The transient user enrichment is never persisted, so it has no place here.
#[allow(non_snake_case)]
pub ghost struct RowModel {
    pub id: u32,
    pub title: Seq<char>,
    pub body: Seq<char>,
    pub userId: u32,
}

/// One row of the posts table: identifier, title, body and owning-user id.
#[allow(non_snake_case)]
pub struct Row {
    pub id: u32,
    pub title: String,
    pub body: String,
    pub userId: u32,
}

impl View for Row {
    type V = RowModel;

    open spec fn view(&self) -> RowModel {
        RowModel { id: self.id, title: self.title@, body: self.body@, userId: self.userId }
    }
}

/// The persisted fields of a post, as a row model carrying the given id.
pub open spec fn post_row(p: Post, id: u32) -> RowModel {
    RowModel { id, title: p.title@, body: p.body@, userId: p.userId }
}

/// No two rows share an identifier.
pub open spec fn ids_distinct(rows: Seq<RowModel>) -> bool {
    forall|i: int, j: int| 0 <= i < j < rows.len() ==> rows[i].id != rows[j].id
}

/// Identifiers ascend in storage order: the store only ever appends rows
/// under identifiers above every earlier one.
pub open spec fn ids_ascending(rows: Seq<RowModel>) -> bool {
    forall|i: int, j: int| 0 <= i < j < rows.len() ==> rows[i].id < rows[j].id
}

/// Ascending identifiers are in particular distinct.
pub proof fn lemma_ascending_implies_distinct(rows: Seq<RowModel>)
    requires
        ids_ascending(rows),
    ensures
        ids_distinct(rows),
{
    assert forall|i: int, j: int| 0 <= i < j < rows.len() implies rows[i].id != rows[j].id by {
        assert(rows[i].id < rows[j].id);
    }
}

/// Some row carries the identifier.
pub open spec fn has_id(rows: Seq<RowModel>, id: u32) -> bool {
    exists|i: int| 0 <= i < rows.len() && rows[i].id == id
}

/// The index of the row carrying the identifier. Under `ids_distinct` there
/// is at most one such row, so where `has_id` holds this picks it exactly.
pub open spec fn idx_of(rows: Seq<RowModel>, id: u32) -> int {
    choose|i: int| 0 <= i < rows.len() && rows[i].id == id
}

/// The store's invariant over its model: identifiers are distinct and
/// ascend in storage order, every one was assigned below the counter, and
/// the counter never returns to zero.
pub open spec fn store_inv(rows: Seq<RowModel>, next_id: u32) -> bool {
    &&& ids_distinct(rows)
    &&& ids_ascending(rows)
    &&& forall|i: int| 0 <= i < rows.len() ==> (#[trigger] rows[i]).id < next_id
    &&& next_id >= 1
}

/// The local relational cache of posts: one table of rows and the counter
/// from which the store assigns identifiers. The counter only ever grows, so
/// an identifier, once assigned, is never assigned again — not even after
/// rows are deleted or the whole table is replaced.
///
/// Every mutating operation takes the store by exclusive reference: no two
/// statement sequences can interleave against one store. A boundary that
/// serves concurrent callers holds the one store behind a single
/// exclusive-acquisition guard and routes every operation through it.
pub struct CacheStore {
    pub(crate) rows: Vec<Row>,
    pub(crate) next_id: u32,
}

impl View for CacheStore {
    type V = Seq<RowModel>;

    open(crate) spec fn view(&self) -> Seq<RowModel> {
        Seq::new(self.rows@.len(), |i: int| self.rows@[i]@)
    }
}

impl CacheStore {
    /// The identifier the store will assign next.
    pub open(crate) spec fn spec_next_id(&self) -> u32 {
        self.next_id
    }

    /// Well-formedness: the invariant holds of the store's model.
    pub open spec fn wf(&self) -> bool {
        store_inv(self@, self.spec_next_id())
    }

    /// Opens a fresh, empty store. Identifiers start at one.
    pub fn new() -> (s: CacheStore)
        ensures
            s@ =~= Seq::<RowModel>::empty(),
            s.spec_next_id() == 1,
            s.wf(),
    {
        CacheStore { rows: Vec::new(), next_id: 1 }
    }

    /// Opens an empty store whose identifier counter already stands at
    /// `next_id`, as after earlier inserts whose rows are gone: the counter
    /// survives deletion and replacement.
    pub fn with_next_id(next_id: u32) -> (s: CacheStore)
        requires
            next_id >= 1,
        ensures
            s@ =~= Seq::<RowModel>::empty(),
            s.spec_next_id() == next_id,
            s.wf(),
    {
        CacheStore { rows: Vec::new(), next_id }
    }
}

} // verus!
