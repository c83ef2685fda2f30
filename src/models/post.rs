use vstd::prelude::*;
use crate::filter::{EntityDescriptor, FieldSpec, OpSet};
use crate::ctx::Ctx;
use crate::error::ModelError;
use crate::filter::{FilterTerm, ListOptions, ListQuery, compiled, rejected};
use crate::models::edit::Edit;
use crate::models::state::AppState;
use crate::store::{Record, has_id, listed, without_id};

verus! {

/// A post, as stored. Timestamps are seconds since the Unix epoch.
pub struct Post {
    pub id: i64,
    pub title: String,
    pub content: String,
    pub weight: i64,
    pub created_at: i64,
    pub updated_at: i64,
}

pub struct PostForCreate {
    pub title: String,
    pub content: String,
    pub weight: i64,
}

/// A partial update: only the fields that are present change.
pub struct PostForUpdate {
    pub title: Option<String>,
    pub content: Option<String>,
    pub weight: Option<i64>,
}

impl Record for Post {
    open spec fn spec_id(&self) -> i64 {
        self.id
    }

    open spec fn spec_column(&self, col: nat) -> Option<i64> {
        if col == 0 {
            Some(self.id)
        } else if col == 1 {
            Some(self.weight)
        } else if col == 2 {
            Some(self.created_at)
        } else if col == 3 {
            Some(self.updated_at)
        } else {
            None
        }
    }

    open spec fn spec_text(&self, col: nat) -> Option<Seq<char>> {
        None
    }

    fn text_is(&self, col: usize, s: &String) -> (r: Option<bool>) {
        None
    }

    fn id(&self) -> (r: i64) {
        self.id
    }

    fn column(&self, col: usize) -> (r: Option<i64>) {
        if col == 0 {
            Some(self.id)
        } else if col == 1 {
            Some(self.weight)
        } else if col == 2 {
            Some(self.created_at)
        } else if col == 3 {
            Some(self.updated_at)
        } else {
            None
        }
    }

    fn duplicate(&self) -> (r: Self) {
        Post {
            id: self.id,
            title: self.title.clone(),
            content: self.content.clone(),
            weight: self.weight,
            created_at: self.created_at,
            updated_at: self.updated_at,
        }
    }
}

/// The stored post that `data` becomes under `id` at time `now`.
pub open spec fn post_of(id: i64, data: PostForCreate, now: i64) -> Post {
    Post { id, title: data.title, content: data.content, weight: data.weight, created_at: now, updated_at: now }
}

/// The later of two instants.
pub open spec fn later(a: i64, b: i64) -> i64 {
    if a > b {
        a
    } else {
        b
    }
}

/// `p` with the present fields of `u` applied, touched at `now`.
pub open spec fn post_updated(p: Post, u: PostForUpdate, now: i64) -> Post {
    Post {
        id: p.id,
        title: match u.title {
            Some(t) => t,
            None => p.title,
        },
        content: match u.content {
            Some(c) => c,
            None => p.content,
        },
        weight: match u.weight {
            Some(w) => w,
            None => p.weight,
        },
        created_at: p.created_at,
        updated_at: later(now, p.updated_at),
    }
}

pub fn apply_post_update(p: Post, u: PostForUpdate, now: i64) -> (r: Post)
    ensures
        r == post_updated(p, u, now),
{
    Post {
        id: p.id,
        title: match u.title {
            Some(t) => t,
            None => p.title,
        },
        content: match u.content {
            Some(c) => c,
            None => p.content,
        },
        weight: match u.weight {
            Some(w) => w,
            None => p.weight,
        },
        created_at: p.created_at,
        updated_at: if now > p.updated_at {
            now
        } else {
            p.updated_at
        },
    }
}

/// Posts can be filtered by id and by weight.
pub open spec fn is_post_descriptor(d: EntityDescriptor) -> bool {
    &&& d.table == "posts"
    &&& d.default_sort.is_none()
    &&& d.fields@.len() == 2
    &&& d.fields@[0].name@ == "id"@
    &&& d.fields@[0].column == 0
    &&& d.fields@[0].ops == OpSet { equality: true, comparison: true, membership: true, boolean: false, text: false }
    &&& d.fields@[1].name@ == "weight"@
    &&& d.fields@[1].column == 1
    &&& d.fields@[1].ops == OpSet { equality: true, comparison: true, membership: true, boolean: false, text: false }
}

pub fn post_descriptor() -> (r: EntityDescriptor)
    ensures
        is_post_descriptor(r),
{
    let mut fields: Vec<FieldSpec> = Vec::new();
    fields.push(
        FieldSpec {
            name: "id".to_owned(),
            column: 0,
            ops: OpSet { equality: true, comparison: true, membership: true, boolean: false, text: false },
        },
    );
    fields.push(
        FieldSpec {
            name: "weight".to_owned(),
            column: 1,
            ops: OpSet { equality: true, comparison: true, membership: true, boolean: false, text: false },
        },
    );
    EntityDescriptor { table: "posts", fields, default_sort: None }
}

/// Whether some edit suggestion targets post `post_id`.
pub open spec fn post_referenced(edits: Seq<Edit>, post_id: i64) -> bool {
    exists|i: int| 0 <= i < edits.len() && (#[trigger] edits[i]).post_id == post_id
}

fn has_edits(edits: &Vec<Edit>, post_id: i64) -> (r: bool)
    ensures
        r == post_referenced(edits@, post_id),
{
    let mut i: usize = 0;
    while i < edits.len()
        invariant
            i <= edits@.len(),
            forall|j: int| 0 <= j < i ==> (#[trigger] edits@[j]).post_id != post_id,
        decreases edits@.len() - i,
    {
        if edits[i].post_id == post_id {
            return true;
        }
        i = i + 1;
    }
    false
}

/// Data access for posts. Every successful mutation rebuilds the posts
/// snapshot of the cache.
pub struct PostBmc;

impl PostBmc {
    /// Stores a new post created at `now`.
    pub fn create(ctx: &Ctx, app_state: &mut AppState, data: PostForCreate, now: i64) -> (r: Result<i64, ModelError>)
        requires
            old(app_state).wf(),
        ensures
            final(app_state).wf(),
            final(app_state).authors == old(app_state).authors,
            final(app_state).edits == old(app_state).edits,
            final(app_state).cache.authors == old(app_state).cache.authors,
            match r {
                Ok(id) => {
                    &&& id == old(app_state).posts.next_id
                    &&& final(app_state).posts.next_id == id + 1
                    &&& final(app_state).posts@ == old(app_state).posts@.push(post_of(id, data, now))
                    &&& final(app_state).cache.posts matches Some(v) && v@ == final(app_state).posts@
                },
                Err(e) => {
                    &&& old(app_state).posts.next_id == i64::MAX
                    &&& e == ModelError::IdsExhausted
                    &&& final(app_state).posts == old(app_state).posts
                    &&& final(app_state).cache == old(app_state).cache
                },
            },
    {
        let id = match app_state.posts.reserve_id() {
            Ok(id) => id,
            Err(e) => {
                return Err(e);
            },
        };
        let row = Post {
            id,
            title: data.title,
            content: data.content,
            weight: data.weight,
            created_at: now,
            updated_at: now,
        };
        app_state.posts.insert(row);
        app_state.cache.refresh_posts(&app_state.posts);
        Ok(id)
    }

    /// The post with `id`.
    pub fn get(ctx: &Ctx, app_state: &AppState, id: i64) -> (r: Result<Post, ModelError>)
        requires
            app_state.wf(),
        ensures
            match r {
                Ok(p) => app_state.posts@.contains(p) && p.id == id,
                Err(e) => !has_id(app_state.posts@, id) && e == (ModelError::EntityNotFound {
                    entity: "posts",
                    id,
                }),
            },
    {
        app_state.posts.get(id)
    }

    /// The posts that match `filter`, in ascending id order, paged by `opts`.
    pub fn list(ctx: &Ctx, app_state: &AppState, filter: Option<Vec<FilterTerm>>, opts: Option<ListOptions>) -> (r:
        Result<Vec<Post>, ModelError>)
        requires
            app_state.wf(),
        ensures
            exists|d: EntityDescriptor|
                is_post_descriptor(d) && match r {
                    Ok(v) => exists|q: ListQuery| compiled(d, filter, opts, q) && listed(app_state.posts@, q, v@),
                    Err(e) => rejected(d, filter, opts, e),
                },
    {
        let d = post_descriptor();
        app_state.posts.query(&d, filter, opts)
    }

    /// Applies the present fields of `data` to the post with `id`.
    pub fn update(ctx: &Ctx, app_state: &mut AppState, id: i64, data: PostForUpdate, now: i64) -> (r: Result<
        (),
        ModelError,
    >)
        requires
            old(app_state).wf(),
        ensures
            final(app_state).wf(),
            final(app_state).authors == old(app_state).authors,
            final(app_state).edits == old(app_state).edits,
            final(app_state).cache.authors == old(app_state).cache.authors,
            final(app_state).posts.next_id == old(app_state).posts.next_id,
            match r {
                Ok(()) => exists|i: int|
                    0 <= i < old(app_state).posts@.len() && old(app_state).posts@[i].id == id
                        && final(app_state).posts@ == old(app_state).posts@.update(
                        i,
                        post_updated(old(app_state).posts@[i], data, now),
                    ) && (final(app_state).cache.posts matches Some(v) && v@ == final(app_state).posts@),
                Err(e) => {
                    &&& !has_id(old(app_state).posts@, id)
                    &&& e == (ModelError::EntityNotFound { entity: "posts", id })
                    &&& final(app_state).posts == old(app_state).posts
                    &&& final(app_state).cache == old(app_state).cache
                },
            },
    {
        match app_state.posts.find(id) {
            Some(i) => {
                let cur = app_state.posts.rows[i].duplicate();
                let row = apply_post_update(cur, data, now);
                app_state.posts.replace(i, row);
                app_state.cache.refresh_posts(&app_state.posts);
                Ok(())
            },
            None => Err(ModelError::EntityNotFound { entity: "posts", id }),
        }
    }

    /// Deletes the post with `id`. A post that edit suggestions still target
    /// is kept, and the call fails on `post_id`.
    pub fn delete(ctx: &Ctx, app_state: &mut AppState, id: i64) -> (r: Result<(), ModelError>)
        requires
            old(app_state).wf(),
        ensures
            final(app_state).wf(),
            final(app_state).authors == old(app_state).authors,
            final(app_state).edits == old(app_state).edits,
            final(app_state).cache.authors == old(app_state).cache.authors,
            final(app_state).posts.next_id == old(app_state).posts.next_id,
            match r {
                Ok(()) => {
                    &&& has_id(old(app_state).posts@, id)
                    &&& !post_referenced(old(app_state).edits@, id)
                    &&& final(app_state).posts@ == without_id(old(app_state).posts@, id)
                    &&& final(app_state).cache.posts matches Some(v) && v@ == final(app_state).posts@
                },
                Err(e) => {
                    &&& final(app_state).posts == old(app_state).posts
                    &&& final(app_state).cache == old(app_state).cache
                    &&& if !has_id(old(app_state).posts@, id) {
                        e == (ModelError::EntityNotFound { entity: "posts", id })
                    } else {
                        post_referenced(old(app_state).edits@, id) && e == (ModelError::ConstraintViolation {
                            field: "post_id",
                        })
                    }
                },
            },
    {
        if app_state.posts.find(id).is_none() {
            return Err(ModelError::EntityNotFound { entity: "posts", id });
        }
        if has_edits(&app_state.edits.rows, id) {
            return Err(ModelError::ConstraintViolation { field: "post_id" });
        }
        let ghost before = app_state.posts@;
        let res = app_state.posts.remove(id);
        assert(crate::models::state::posts_timely(app_state.posts@)) by {
            assert forall|k: int| 0 <= k < app_state.posts@.len() implies (#[trigger] app_state.posts@[k]).created_at
                <= app_state.posts@[k].updated_at by {
                assert(before.contains(app_state.posts@[k]));
            }
        }
        app_state.cache.refresh_posts(&app_state.posts);
        res
    }
}

} // verus!
