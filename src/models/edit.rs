use vstd::prelude::*;
use crate::filter::{EntityDescriptor, FieldSpec, OpSet};
use crate::ctx::Ctx;
use crate::error::ModelError;
use crate::filter::{CondOp, FilterTerm, ListOptions, ListQuery, compiled, rejected};
use crate::models::state::AppState;
use crate::store::{Record, has_id, listed, without_id};

verus! {

/// Review state of an edit suggestion. PENDING may move to ACCEPTED or
/// REJECTED; both of those are terminal.
#[allow(non_camel_case_types)]
#[derive(Clone, Copy, Debug, PartialEq, Eq, Structural)]
pub enum EditStatus {
    PENDING,
    ACCEPTED,
    REJECTED,
}

impl EditStatus {
    /// The integer a status is stored and filtered as.
    pub open spec fn spec_code(self) -> i64 {
        match self {
            EditStatus::PENDING => 0,
            EditStatus::ACCEPTED => 1,
            EditStatus::REJECTED => 2,
        }
    }

    pub fn code(self) -> (r: i64)
        ensures
            r == self.spec_code(),
    {
        match self {
            EditStatus::PENDING => 0,
            EditStatus::ACCEPTED => 1,
            EditStatus::REJECTED => 2,
        }
    }

    /// The status name as the database enum spells it.
    pub fn as_str(self) -> (r: &'static str)
        ensures
            self == EditStatus::PENDING ==> r == "PENDING",
            self == EditStatus::ACCEPTED ==> r == "ACCEPTED",
            self == EditStatus::REJECTED ==> r == "REJECTED",
    {
        match self {
            EditStatus::PENDING => "PENDING",
            EditStatus::ACCEPTED => "ACCEPTED",
            EditStatus::REJECTED => "REJECTED",
        }
    }

    pub open spec fn is_terminal(self) -> bool {
        self != EditStatus::PENDING
    }
}

/// An edit suggestion, as stored. Timestamps are seconds since the Unix epoch.
pub struct Edit {
    pub id: i64,
    pub editor_id: i64,
    pub post_id: i64,
    pub new_content: String,
    pub status: EditStatus,
    pub created_at: i64,
    pub updated_at: i64,
}

/// Fields required to create an edit suggestion.
pub struct EditForCreate {
    pub post_id: i64,
    pub new_content: String,
    pub editor_id: i64,
}

/// Fields a client supplies to create an edit suggestion; the editor is the
/// authenticated author.
pub struct EditForCreateRequestBody {
    pub post_id: i64,
    pub new_content: String,
}

/// A partial update of an edit suggestion.
pub struct EditForUpdate {
    pub new_content: Option<String>,
    pub status: Option<EditStatus>,
}

/// An edit suggestion as shown to clients.
pub struct EditForResult {
    pub status: EditStatus,
    pub new_content: String,
}

impl EditForCreateRequestBody {
    pub fn with_editor(self, editor_id: i64) -> (r: EditForCreate)
        ensures
            r.post_id == self.post_id,
            r.new_content == self.new_content,
            r.editor_id == editor_id,
    {
        EditForCreate { post_id: self.post_id, new_content: self.new_content, editor_id }
    }
}

impl EditForResult {
    pub fn from_edit(e: &Edit) -> (r: EditForResult)
        ensures
            r.status == e.status,
            r.new_content == e.new_content,
    {
        EditForResult { status: e.status, new_content: e.new_content.clone() }
    }
}

impl Record for Edit {
    open spec fn spec_id(&self) -> i64 {
        self.id
    }

    open spec fn spec_column(&self, col: nat) -> Option<i64> {
        if col == 0 {
            Some(self.id)
        } else if col == 1 {
            Some(self.editor_id)
        } else if col == 2 {
            Some(self.post_id)
        } else if col == 3 {
            Some(self.status.spec_code())
        } else {
            None
        }
    }

    open spec fn spec_text(&self, col: nat) -> Option<Seq<char>> {
        if col == 4 {
            Some(self.new_content@)
        } else {
            None
        }
    }

    fn text_is(&self, col: usize, s: &String) -> (r: Option<bool>) {
        if col == 4 {
            Some(self.new_content == *s)
        } else {
            None
        }
    }

    fn id(&self) -> (r: i64) {
        self.id
    }

    fn column(&self, col: usize) -> (r: Option<i64>) {
        if col == 0 {
            Some(self.id)
        } else if col == 1 {
            Some(self.editor_id)
        } else if col == 2 {
            Some(self.post_id)
        } else if col == 3 {
            Some(self.status.code())
        } else {
            None
        }
    }

    fn duplicate(&self) -> (r: Self) {
        Edit {
            id: self.id,
            editor_id: self.editor_id,
            post_id: self.post_id,
            new_content: self.new_content.clone(),
            status: self.status,
            created_at: self.created_at,
            updated_at: self.updated_at,
        }
    }
}

/// The stored edit that `data` becomes under `id` at time `now`: PENDING.
pub open spec fn edit_of(id: i64, data: EditForCreate, now: i64) -> Edit {
    Edit {
        id,
        editor_id: data.editor_id,
        post_id: data.post_id,
        new_content: data.new_content,
        status: EditStatus::PENDING,
        created_at: now,
        updated_at: now,
    }
}

/// An update may touch a PENDING edit; a terminal one admits only the empty
/// update.
pub open spec fn update_allowed(cur: EditStatus, u: EditForUpdate) -> bool {
    cur == EditStatus::PENDING || (u.new_content.is_none() && u.status.is_none())
}

pub fn check_update(cur: EditStatus, u: &EditForUpdate) -> (r: bool)
    ensures
        r == update_allowed(cur, *u),
{
    match cur {
        EditStatus::PENDING => true,
        _ => u.new_content.is_none() && u.status.is_none(),
    }
}

/// `e` with the present fields of `u` applied, touched at `now`.
pub open spec fn edit_updated(e: Edit, u: EditForUpdate, now: i64) -> Edit {
    Edit {
        id: e.id,
        editor_id: e.editor_id,
        post_id: e.post_id,
        new_content: match u.new_content {
            Some(c) => c,
            None => e.new_content,
        },
        status: match u.status {
            Some(s) => s,
            None => e.status,
        },
        created_at: e.created_at,
        updated_at: if now > e.updated_at {
            now
        } else {
            e.updated_at
        },
    }
}

pub fn apply_edit_update(e: Edit, u: EditForUpdate, now: i64) -> (r: Edit)
    ensures
        r == edit_updated(e, u, now),
{
    Edit {
        id: e.id,
        editor_id: e.editor_id,
        post_id: e.post_id,
        new_content: match u.new_content {
            Some(c) => c,
            None => e.new_content,
        },
        status: match u.status {
            Some(s) => s,
            None => e.status,
        },
        created_at: e.created_at,
        updated_at: if now > e.updated_at {
            now
        } else {
            e.updated_at
        },
    }
}

/// A typed filter on edits; each present field becomes one filter term.
pub struct EditFilter {
    pub id: Option<CondOp>,
    pub editor_id: Option<CondOp>,
    pub post_id: Option<CondOp>,
    pub status: Option<CondOp>,
    pub new_content: Option<CondOp>,
}

/// Edits can be filtered by id, editor, post, status code and, as text, by
/// their new content.
pub open spec fn is_edit_descriptor(d: EntityDescriptor) -> bool {
    let keys = OpSet { equality: true, comparison: false, membership: true, boolean: false, text: false };
    &&& d.table == "edits"
    &&& d.default_sort.is_none()
    &&& d.fields@.len() == 5
    &&& d.fields@[0].name@ == "id"@
    &&& d.fields@[0].column == 0
    &&& d.fields@[0].ops == OpSet { equality: true, comparison: true, membership: true, boolean: false, text: false }
    &&& d.fields@[1].name@ == "editor_id"@
    &&& d.fields@[1].column == 1
    &&& d.fields@[1].ops == keys
    &&& d.fields@[2].name@ == "post_id"@
    &&& d.fields@[2].column == 2
    &&& d.fields@[2].ops == keys
    &&& d.fields@[3].name@ == "status"@
    &&& d.fields@[3].column == 3
    &&& d.fields@[3].ops == keys
    &&& d.fields@[4].name@ == "new_content"@
    &&& d.fields@[4].column == 4
    &&& d.fields@[4].ops == OpSet {
        equality: false,
        comparison: false,
        membership: false,
        boolean: false,
        text: true,
    }
}

pub fn edit_descriptor() -> (r: EntityDescriptor)
    ensures
        is_edit_descriptor(r),
{
    let keys = OpSet { equality: true, comparison: false, membership: true, boolean: false, text: false };
    let mut fields: Vec<FieldSpec> = Vec::new();
    fields.push(
        FieldSpec {
            name: "id".to_owned(),
            column: 0,
            ops: OpSet { equality: true, comparison: true, membership: true, boolean: false, text: false },
        },
    );
    fields.push(FieldSpec { name: "editor_id".to_owned(), column: 1, ops: keys });
    fields.push(FieldSpec { name: "post_id".to_owned(), column: 2, ops: keys });
    fields.push(FieldSpec { name: "status".to_owned(), column: 3, ops: keys });
    fields.push(
        FieldSpec {
            name: "new_content".to_owned(),
            column: 4,
            ops: OpSet { equality: false, comparison: false, membership: false, boolean: false, text: true },
        },
    );
    EntityDescriptor { table: "edits", fields, default_sort: None }
}

/// Which reference of a new edit suggestion is missing, if any: the post is
/// checked first, then the editor.
pub open spec fn missing_reference(s: AppState, data: EditForCreate) -> Option<ModelError> {
    if !has_id(s.posts@, data.post_id) {
        Some(ModelError::ConstraintViolation { field: "post_id" })
    } else if !has_id(s.authors@, data.editor_id) {
        Some(ModelError::ConstraintViolation { field: "editor_id" })
    } else {
        None
    }
}

/// Once an update has moved a PENDING edit to ACCEPTED, no later update may
/// move it to REJECTED or back to PENDING.
pub proof fn lemma_accepted_is_final(e: Edit, first: EditForUpdate, now: i64, second: EditForUpdate)
    requires
        e.status == EditStatus::PENDING,
        first.status == Some(EditStatus::ACCEPTED),
        second.status == Some(EditStatus::REJECTED) || second.status == Some(EditStatus::PENDING),
    ensures
        update_allowed(e.status, first),
        edit_updated(e, first, now).status == EditStatus::ACCEPTED,
        !update_allowed(edit_updated(e, first, now).status, second),
{
}

/// The edit found by id right after creation holds the payload's editor,
/// post and content, with status PENDING.
pub proof fn lemma_get_after_create(before: AppState, data: EditForCreate, now: i64, found: Edit)
    requires
        before.wf(),
        before.edits@.push(edit_of(before.edits.next_id, data, now)).contains(found),
        found.id == before.edits.next_id,
    ensures
        found.editor_id == data.editor_id,
        found.post_id == data.post_id,
        found.new_content == data.new_content,
        found.status == EditStatus::PENDING,
{
    crate::store::lemma_get_after_insert(before.edits, edit_of(before.edits.next_id, data, now), found);
}

/// Data access for edit suggestions. Edits are not cached.
pub struct EditBmc;

impl EditBmc {
    /// Stores a new PENDING edit suggestion created at `now`. The target post
    /// and the editor must exist.
    pub fn create(ctx: &Ctx, app_state: &mut AppState, data: EditForCreate, now: i64) -> (r: Result<i64, ModelError>)
        requires
            old(app_state).wf(),
        ensures
            final(app_state).wf(),
            final(app_state).authors == old(app_state).authors,
            final(app_state).posts == old(app_state).posts,
            final(app_state).cache == old(app_state).cache,
            match r {
                Ok(id) => {
                    &&& missing_reference(*old(app_state), data).is_none()
                    &&& id == old(app_state).edits.next_id
                    &&& final(app_state).edits.next_id == id + 1
                    &&& final(app_state).edits@ == old(app_state).edits@.push(edit_of(id, data, now))
                },
                Err(e) => {
                    &&& final(app_state).edits == old(app_state).edits
                    &&& match missing_reference(*old(app_state), data) {
                        Some(m) => e == m,
                        None => old(app_state).edits.next_id == i64::MAX && e == ModelError::IdsExhausted,
                    }
                },
            },
    {
        if app_state.posts.find(data.post_id).is_none() {
            return Err(ModelError::ConstraintViolation { field: "post_id" });
        }
        if app_state.authors.find(data.editor_id).is_none() {
            return Err(ModelError::ConstraintViolation { field: "editor_id" });
        }
        let id = match app_state.edits.reserve_id() {
            Ok(id) => id,
            Err(e) => {
                return Err(e);
            },
        };
        let row = Edit {
            id,
            editor_id: data.editor_id,
            post_id: data.post_id,
            new_content: data.new_content,
            status: EditStatus::PENDING,
            created_at: now,
            updated_at: now,
        };
        app_state.edits.insert(row);
        Ok(id)
    }

    /// The edit suggestion with `id`.
    pub fn get(ctx: &Ctx, app_state: &AppState, id: i64) -> (r: Result<Edit, ModelError>)
        requires
            app_state.wf(),
        ensures
            match r {
                Ok(e) => app_state.edits@.contains(e) && e.id == id,
                Err(e) => !has_id(app_state.edits@, id) && e == (ModelError::EntityNotFound {
                    entity: "edits",
                    id,
                }),
            },
    {
        app_state.edits.get(id)
    }

    /// The edit suggestions that match `filter`, in ascending id order,
    /// paged by `opts`.
    pub fn list(ctx: &Ctx, app_state: &AppState, filter: Option<Vec<FilterTerm>>, opts: Option<ListOptions>) -> (r:
        Result<Vec<Edit>, ModelError>)
        requires
            app_state.wf(),
        ensures
            exists|d: EntityDescriptor|
                is_edit_descriptor(d) && match r {
                    Ok(v) => exists|q: ListQuery| compiled(d, filter, opts, q) && listed(app_state.edits@, q, v@),
                    Err(e) => rejected(d, filter, opts, e),
                },
    {
        let d = edit_descriptor();
        app_state.edits.query(&d, filter, opts)
    }

    /// Applies the present fields of `data` to the edit with `id`. A
    /// terminal (ACCEPTED or REJECTED) edit admits no change.
    pub fn update(ctx: &Ctx, app_state: &mut AppState, id: i64, data: EditForUpdate, now: i64) -> (r: Result<
        (),
        ModelError,
    >)
        requires
            old(app_state).wf(),
        ensures
            final(app_state).wf(),
            final(app_state).authors == old(app_state).authors,
            final(app_state).posts == old(app_state).posts,
            final(app_state).cache == old(app_state).cache,
            final(app_state).edits.next_id == old(app_state).edits.next_id,
            match r {
                Ok(()) => exists|i: int|
                    0 <= i < old(app_state).edits@.len() && old(app_state).edits@[i].id == id
                        && update_allowed(old(app_state).edits@[i].status, data)
                        && final(app_state).edits@ == old(app_state).edits@.update(
                        i,
                        edit_updated(old(app_state).edits@[i], data, now),
                    ),
                Err(e) => {
                    &&& final(app_state).edits == old(app_state).edits
                    &&& if !has_id(old(app_state).edits@, id) {
                        e == (ModelError::EntityNotFound { entity: "edits", id })
                    } else {
                        e == ModelError::InvalidTransition && exists|i: int|
                            0 <= i < old(app_state).edits@.len() && old(app_state).edits@[i].id == id
                                && !update_allowed(old(app_state).edits@[i].status, data)
                    }
                },
            },
    {
        match app_state.edits.find(id) {
            Some(i) => {
                if !check_update(app_state.edits.rows[i].status, &data) {
                    return Err(ModelError::InvalidTransition);
                }
                let cur = app_state.edits.rows[i].duplicate();
                let row = apply_edit_update(cur, data, now);
                app_state.edits.replace(i, row);
                Ok(())
            },
            None => Err(ModelError::EntityNotFound { entity: "edits", id }),
        }
    }

    /// Deletes the edit suggestion with `id`.
    pub fn delete(ctx: &Ctx, app_state: &mut AppState, id: i64) -> (r: Result<(), ModelError>)
        requires
            old(app_state).wf(),
        ensures
            final(app_state).wf(),
            final(app_state).authors == old(app_state).authors,
            final(app_state).posts == old(app_state).posts,
            final(app_state).cache == old(app_state).cache,
            final(app_state).edits.next_id == old(app_state).edits.next_id,
            match r {
                Ok(()) => has_id(old(app_state).edits@, id) && final(app_state).edits@ == without_id(
                    old(app_state).edits@,
                    id,
                ),
                Err(e) => !has_id(old(app_state).edits@, id) && e == (ModelError::EntityNotFound {
                    entity: "edits",
                    id,
                }) && final(app_state).edits == old(app_state).edits,
            },
    {
        let ghost before = app_state.edits@;
        let r = app_state.edits.remove(id);
        assert(crate::models::state::edits_timely(app_state.edits@)) by {
            assert forall|k: int| 0 <= k < app_state.edits@.len() implies (#[trigger] app_state.edits@[k]).created_at
                <= app_state.edits@[k].updated_at by {
                assert(before.contains(app_state.edits@[k]));
            }
        }
        r
    }
}

/// The term a present filter field becomes, as (field name, operator).
pub open spec fn term_for(name: Seq<char>, op: Option<CondOp>) -> Seq<(Seq<char>, CondOp)> {
    match op {
        Some(o) => seq![(name, o)],
        None => Seq::empty(),
    }
}

pub open spec fn term_views(v: Seq<FilterTerm>) -> Seq<(Seq<char>, CondOp)> {
    v.map_values(|t: FilterTerm| (t.field@, t.op))
}

impl EditFilter {
    /// One filter term per present field, in declaration order.
    pub fn into_terms(self) -> (r: Vec<FilterTerm>)
        ensures
            term_views(r@) == term_for("id"@, self.id) + term_for("editor_id"@, self.editor_id) + term_for(
                "post_id"@,
                self.post_id,
            ) + term_for("status"@, self.status) + term_for("new_content"@, self.new_content),
    {
        let mut terms: Vec<FilterTerm> = Vec::new();
        let ghost f = self;
        if let Some(op) = self.id {
            terms.push(FilterTerm { field: "id".to_owned(), op });
        }
        assert(term_views(terms@) =~= term_for("id"@, f.id));
        if let Some(op) = self.editor_id {
            terms.push(FilterTerm { field: "editor_id".to_owned(), op });
        }
        assert(term_views(terms@) =~= term_for("id"@, f.id) + term_for("editor_id"@, f.editor_id));
        if let Some(op) = self.post_id {
            terms.push(FilterTerm { field: "post_id".to_owned(), op });
        }
        assert(term_views(terms@) =~= term_for("id"@, f.id) + term_for("editor_id"@, f.editor_id) + term_for(
            "post_id"@,
            f.post_id,
        ));
        if let Some(op) = self.status {
            terms.push(FilterTerm { field: "status".to_owned(), op });
        }
        assert(term_views(terms@) =~= term_for("id"@, f.id) + term_for("editor_id"@, f.editor_id) + term_for(
            "post_id"@,
            f.post_id,
        ) + term_for("status"@, f.status));
        if let Some(op) = self.new_content {
            terms.push(FilterTerm { field: "new_content".to_owned(), op });
        }
        assert(term_views(terms@) =~= term_for("id"@, f.id) + term_for("editor_id"@, f.editor_id) + term_for(
            "post_id"@,
            f.post_id,
        ) + term_for("status"@, f.status) + term_for("new_content"@, f.new_content));
        terms
    }
}

} // verus!
