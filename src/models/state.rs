use vstd::prelude::*;
use crate::cache::Cache;
use crate::models::author::Author;
use crate::models::edit::Edit;
use crate::models::post::Post;
use crate::store::Table;

verus! {

/// Emails are unique among authors.
pub open spec fn emails_unique(rows: Seq<Author>) -> bool {
    forall|i: int, j: int| 0 <= i < j < rows.len() ==> #[trigger] rows[i].email@ != #[trigger] rows[j].email@
}

/// No post was updated before it was created.
pub open spec fn posts_timely(rows: Seq<Post>) -> bool {
    forall|i: int| 0 <= i < rows.len() ==> (#[trigger] rows[i]).created_at <= rows[i].updated_at
}

/// No edit suggestion was updated before it was created.
pub open spec fn edits_timely(rows: Seq<Edit>) -> bool {
    forall|i: int| 0 <= i < rows.len() ==> (#[trigger] rows[i]).created_at <= rows[i].updated_at
}

/// A cached snapshot, where present, holds exactly the table's rows.
pub open spec fn snapshot_current<T>(snap: Option<Vec<T>>, rows: Seq<T>) -> bool {
    match snap {
        Some(v) => v@ == rows,
        None => true,
    }
}

/// The primary store (one table per entity) and the cache beside it.
pub struct AppState {
    pub authors: Table<Author>,
    pub posts: Table<Post>,
    pub edits: Table<Edit>,
    pub cache: Cache,
}

impl AppState {
    pub open spec fn wf(&self) -> bool {
        &&& self.authors.wf()
        &&& self.posts.wf()
        &&& self.edits.wf()
        &&& self.authors.name == "authors"
        &&& self.posts.name == "posts"
        &&& self.edits.name == "edits"
        &&& emails_unique(self.authors@)
        &&& posts_timely(self.posts@)
        &&& edits_timely(self.edits@)
        &&& snapshot_current(self.cache.posts, self.posts@)
        &&& snapshot_current(self.cache.authors, self.authors@)
    }

    /// Empty tables and a cache that holds nothing yet.
    pub fn new() -> (r: AppState)
        ensures
            r.wf(),
            r.authors@.len() == 0,
            r.posts@.len() == 0,
            r.edits@.len() == 0,
            r.authors.next_id == 1,
            r.posts.next_id == 1,
            r.edits.next_id == 1,
            r.cache.posts.is_none(),
            r.cache.authors.is_none(),
    {
        AppState {
            authors: Table::new("authors"),
            posts: Table::new("posts"),
            edits: Table::new("edits"),
            cache: Cache::new(),
        }
    }

    /// Builds every cached snapshot from the store, as done at start-up.
    pub fn initialize_cache(&mut self)
        requires
            old(self).wf(),
        ensures
            final(self).wf(),
            final(self).authors == old(self).authors,
            final(self).posts == old(self).posts,
            final(self).edits == old(self).edits,
            final(self).cache.posts matches Some(v) && v@ == final(self).posts@,
            final(self).cache.authors matches Some(v) && v@ == final(self).authors@,
    {
        self.cache.refresh_posts(&self.posts);
        self.cache.refresh_authors(&self.authors);
    }
}

} // verus!
