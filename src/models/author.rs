use vstd::prelude::*;
use crate::error::ModelError;
use crate::filter::{EntityDescriptor, FieldSpec, OpSet};
use crate::ctx::Ctx;
use crate::filter::{FilterTerm, ListOptions, ListQuery, compiled, rejected};
use crate::models::state::{AppState, emails_unique};
use crate::store::{Record, has_id, listed};

verus! {

/// A registered author, as stored.
pub struct Author {
    pub id: i64,
    pub name: String,
    pub email: String,
    pub password_hash: String,
}

/// What a signup supplies.
pub struct AuthorForCreate {
    pub name: String,
    pub email: String,
    pub password_hash: String,
}

/// A partial update of an author: only the fields that are present change.
pub struct AuthorForEdit {
    pub name: Option<String>,
    pub email: Option<String>,
}

/// An author as shown to clients: the credential hash is left out.
pub struct AuthorForResult {
    pub id: i64,
    pub name: String,
    pub email: String,
}

impl Record for Author {
    open spec fn spec_id(&self) -> i64 {
        self.id
    }

    open spec fn spec_column(&self, col: nat) -> Option<i64> {
        if col == 0 {
            Some(self.id)
        } else {
            None
        }
    }

    open spec fn spec_text(&self, col: nat) -> Option<Seq<char>> {
        None
    }

    fn text_is(&self, col: usize, s: &String) -> (r: Option<bool>) {
        None
    }

    fn id(&self) -> (r: i64) {
        self.id
    }

    fn column(&self, col: usize) -> (r: Option<i64>) {
        if col == 0 {
            Some(self.id)
        } else {
            None
        }
    }

    fn duplicate(&self) -> (r: Self) {
        Author {
            id: self.id,
            name: self.name.clone(),
            email: self.email.clone(),
            password_hash: self.password_hash.clone(),
        }
    }
}

impl AuthorForResult {
    pub fn from_author(a: &Author) -> (r: AuthorForResult)
        ensures
            r.id == a.id,
            r.name == a.name,
            r.email == a.email,
    {
        AuthorForResult { id: a.id, name: a.name.clone(), email: a.email.clone() }
    }
}

/// The stored author that `data` becomes under `id`.
pub open spec fn author_of(id: i64, data: AuthorForCreate) -> Author {
    Author { id, name: data.name, email: data.email, password_hash: data.password_hash }
}

pub open spec fn email_taken(rows: Seq<Author>, email: Seq<char>) -> bool {
    exists|i: int| 0 <= i < rows.len() && (#[trigger] rows[i]).email@ == email
}

/// Some author other than the one with `id` uses `email`.
pub open spec fn email_taken_by_other(rows: Seq<Author>, email: Seq<char>, id: i64) -> bool {
    exists|i: int| 0 <= i < rows.len() && (#[trigger] rows[i]).email@ == email && rows[i].id != id
}

/// `a` with the present fields of `u` applied.
pub open spec fn author_edited(a: Author, u: AuthorForEdit) -> Author {
    Author {
        id: a.id,
        name: match u.name {
            Some(n) => n,
            None => a.name,
        },
        email: match u.email {
            Some(e) => e,
            None => a.email,
        },
        password_hash: a.password_hash,
    }
}

/// Whether an author other than the one with `id` uses `email`.
pub fn email_in_use_by_other(rows: &Vec<Author>, email: &String, id: i64) -> (r: bool)
    ensures
        r == email_taken_by_other(rows@, email@, id),
{
    let mut i: usize = 0;
    while i < rows.len()
        invariant
            i <= rows@.len(),
            forall|j: int| 0 <= j < i ==> (#[trigger] rows@[j]).email@ != email@ || rows@[j].id == id,
        decreases rows@.len() - i,
    {
        if rows[i].id != id && rows[i].email == *email {
            return true;
        }
        i = i + 1;
    }
    false
}

/// Whether some author in `rows` already uses `email`.
pub fn email_in_use(rows: &Vec<Author>, email: &String) -> (r: bool)
    ensures
        r == email_taken(rows@, email@),
{
    let mut i: usize = 0;
    while i < rows.len()
        invariant
            i <= rows@.len(),
            forall|j: int| 0 <= j < i ==> (#[trigger] rows@[j]).email@ != email@,
        decreases rows@.len() - i,
    {
        if rows[i].email == *email {
            return true;
        }
        i = i + 1;
    }
    false
}

/// Authors can be filtered by id only.
pub open spec fn is_author_descriptor(d: EntityDescriptor) -> bool {
    &&& d.table == "authors"
    &&& d.default_sort.is_none()
    &&& d.fields@.len() == 1
    &&& d.fields@[0].name@ == "id"@
    &&& d.fields@[0].column == 0
    &&& d.fields@[0].ops == OpSet { equality: true, comparison: true, membership: true, boolean: false, text: false }
}

pub fn author_descriptor() -> (r: EntityDescriptor)
    ensures
        is_author_descriptor(r),
{
    let mut fields: Vec<FieldSpec> = Vec::new();
    fields.push(
        FieldSpec {
            name: "id".to_owned(),
            column: 0,
            ops: OpSet { equality: true, comparison: true, membership: true, boolean: false, text: false },
        },
    );
    EntityDescriptor { table: "authors", fields, default_sort: None }
}

/// Data access for authors.
pub struct AuthorBmc;

impl AuthorBmc {
    /// Signs up an author. The email must not be in use; the authors
    /// snapshot is rebuilt afterwards.
    pub fn create(ctx: &Ctx, app_state: &mut AppState, data: AuthorForCreate) -> (r: Result<i64, ModelError>)
        requires
            old(app_state).wf(),
        ensures
            final(app_state).wf(),
            final(app_state).posts == old(app_state).posts,
            final(app_state).edits == old(app_state).edits,
            final(app_state).cache.posts == old(app_state).cache.posts,
            match r {
                Ok(id) => {
                    &&& !email_taken(old(app_state).authors@, data.email@)
                    &&& id == old(app_state).authors.next_id
                    &&& final(app_state).authors.next_id == id + 1
                    &&& final(app_state).authors@ == old(app_state).authors@.push(author_of(id, data))
                    &&& final(app_state).cache.authors matches Some(v) && v@ == final(app_state).authors@
                },
                Err(e) => {
                    &&& final(app_state).authors == old(app_state).authors
                    &&& final(app_state).cache == old(app_state).cache
                    &&& if email_taken(old(app_state).authors@, data.email@) {
                        e == ModelError::ConstraintViolation { field: "email" }
                    } else {
                        old(app_state).authors.next_id == i64::MAX && e == ModelError::IdsExhausted
                    }
                },
            },
    {
        if email_in_use(&app_state.authors.rows, &data.email) {
            return Err(ModelError::ConstraintViolation { field: "email" });
        }
        let id = match app_state.authors.reserve_id() {
            Ok(id) => id,
            Err(e) => {
                return Err(e);
            },
        };
        let row = Author { id, name: data.name, email: data.email, password_hash: data.password_hash };
        let ghost before = app_state.authors@;
        app_state.authors.insert(row);
        assert(emails_unique(app_state.authors@)) by {
            assert forall|i: int, j: int| 0 <= i < j < app_state.authors@.len() implies
                #[trigger] app_state.authors@[i].email@ != #[trigger] app_state.authors@[j].email@ by {
                if j == before.len() {
                    assert(before[i] == app_state.authors@[i]);
                }
            }
        }
        app_state.cache.refresh_authors(&app_state.authors);
        Ok(id)
    }

    /// Applies the present fields of `data` to the author with `id`. A new
    /// email must not be used by another author.
    pub fn update(ctx: &Ctx, app_state: &mut AppState, id: i64, data: AuthorForEdit) -> (r: Result<(), ModelError>)
        requires
            old(app_state).wf(),
        ensures
            final(app_state).wf(),
            final(app_state).posts == old(app_state).posts,
            final(app_state).edits == old(app_state).edits,
            final(app_state).cache.posts == old(app_state).cache.posts,
            final(app_state).authors.next_id == old(app_state).authors.next_id,
            match r {
                Ok(()) => exists|i: int|
                    0 <= i < old(app_state).authors@.len() && old(app_state).authors@[i].id == id && (
                    data.email matches Some(e) ==> !email_taken_by_other(old(app_state).authors@, e@, id))
                        && final(app_state).authors@ == old(app_state).authors@.update(
                        i,
                        author_edited(old(app_state).authors@[i], data),
                    ) && (final(app_state).cache.authors matches Some(v) && v@ == final(app_state).authors@),
                Err(e) => {
                    &&& final(app_state).authors == old(app_state).authors
                    &&& final(app_state).cache == old(app_state).cache
                    &&& if !has_id(old(app_state).authors@, id) {
                        e == (ModelError::EntityNotFound { entity: "authors", id })
                    } else {
                        e == (ModelError::ConstraintViolation { field: "email" }) && (data.email matches Some(m)
                            && email_taken_by_other(old(app_state).authors@, m@, id))
                    }
                },
            },
    {
        let i = match app_state.authors.find(id) {
            Some(i) => i,
            None => {
                return Err(ModelError::EntityNotFound { entity: "authors", id });
            },
        };
        if let Some(e) = &data.email {
            if email_in_use_by_other(&app_state.authors.rows, e, id) {
                return Err(ModelError::ConstraintViolation { field: "email" });
            }
        }
        let cur = app_state.authors.rows[i].duplicate();
        let row = Author {
            id: cur.id,
            name: match data.name {
                Some(n) => n,
                None => cur.name,
            },
            email: match data.email {
                Some(e) => e,
                None => cur.email,
            },
            password_hash: cur.password_hash,
        };
        let ghost before = app_state.authors@;
        app_state.authors.replace(i, row);
        assert(emails_unique(app_state.authors@)) by {
            assert forall|a: int, b: int| 0 <= a < b < app_state.authors@.len() implies
                #[trigger] app_state.authors@[a].email@ != #[trigger] app_state.authors@[b].email@ by {
                if a == i as int {
                    assert(before[b].id != id);
                    assert(app_state.authors@[b] == before[b]);
                } else if b == i as int {
                    assert(before[a].id != id);
                    assert(app_state.authors@[a] == before[a]);
                } else {
                    assert(app_state.authors@[a] == before[a]);
                    assert(app_state.authors@[b] == before[b]);
                }
            }
        }
        app_state.cache.refresh_authors(&app_state.authors);
        Ok(())
    }

    /// The author with `id`.
    pub fn get(ctx: &Ctx, app_state: &AppState, id: i64) -> (r: Result<Author, ModelError>)
        requires
            app_state.wf(),
        ensures
            match r {
                Ok(a) => app_state.authors@.contains(a) && a.id == id,
                Err(e) => !has_id(app_state.authors@, id) && e == (ModelError::EntityNotFound {
                    entity: "authors",
                    id,
                }),
            },
    {
        app_state.authors.get(id)
    }

    /// The authors that match `filter`, in ascending id order, paged by `opts`.
    pub fn list(ctx: &Ctx, app_state: &AppState, filter: Option<Vec<FilterTerm>>, opts: Option<ListOptions>) -> (r:
        Result<Vec<Author>, ModelError>)
        requires
            app_state.wf(),
        ensures
            exists|d: EntityDescriptor|
                is_author_descriptor(d) && match r {
                    Ok(v) => exists|q: ListQuery| compiled(d, filter, opts, q) && listed(app_state.authors@, q, v@),
                    Err(e) => rejected(d, filter, opts, e),
                },
    {
        let d = author_descriptor();
        app_state.authors.query(&d, filter, opts)
    }
}

} // verus!
