use vstd::prelude::*;
use crate::error::ModelError;
use crate::filter::{
    CondOp, Condition, EntityDescriptor, Order, FilterTerm, ListOptions, ListQuery, compile, compiled,
    op_holds, rejected, terms_of, declares, lemma_undeclared_field_rejected,
};

verus! {

/// What the generic engine needs of a stored entity: its id, its integer
/// columns (for filtering), and an exact copy.
pub trait Record: Sized {
    spec fn spec_id(&self) -> i64;

    /// The value of integer column `col`, if the entity has one.
    spec fn spec_column(&self, col: nat) -> Option<i64>;

    fn id(&self) -> (r: i64)
        ensures
            r == self.spec_id(),
    ;

    /// The value of text column `col`, if the entity has one.
    spec fn spec_text(&self, col: nat) -> Option<Seq<char>>;

    /// Whether text column `col` equals `s`, if the entity has that column.
    fn text_is(&self, col: usize, s: &String) -> (r: Option<bool>)
        ensures
            r == match self.spec_text(col as nat) {
                Some(t) => Some(t == s@),
                None => None::<bool>,
            },
    ;

    fn column(&self, col: usize) -> (r: Option<i64>)
        ensures
            r == self.spec_column(col as nat),
    ;

    fn duplicate(&self) -> (r: Self)
        ensures
            r == *self,
    ;
}

/// A row satisfies a condition when its column exists and the operator holds.
pub open spec fn cond_holds<T: Record>(row: T, c: Condition) -> bool {
    match c.op {
        CondOp::TextEq(s) => row.spec_text(c.column as nat) == Some(s@),
        CondOp::TextNotEq(s) => row.spec_text(c.column as nat) matches Some(t) && t != s@,
        _ => match row.spec_column(c.column as nat) {
            Some(v) => op_holds(c.op, v),
            None => false,
        },
    }
}

pub open spec fn row_matches<T: Record>(row: T, conds: Seq<Condition>) -> bool {
    forall|i: int| 0 <= i < conds.len() ==> cond_holds(row, #[trigger] conds[i])
}

/// The rows of `rows` that match every condition, in their order.
pub open spec fn select<T: Record>(rows: Seq<T>, conds: Seq<Condition>) -> Seq<T>
    decreases rows.len(),
{
    if rows.len() == 0 {
        Seq::empty()
    } else {
        let prev = select(rows.drop_last(), conds);
        if row_matches(rows.last(), conds) {
            prev.push(rows.last())
        } else {
            prev
        }
    }
}

/// One page of a sequence: skip `offset` items, then take at most `limit`.
pub open spec fn page<T>(s: Seq<T>, offset: int, limit: int) -> Seq<T> {
    if offset >= s.len() {
        Seq::empty()
    } else if offset + limit >= s.len() {
        s.subrange(offset, s.len() as int)
    } else {
        s.subrange(offset, offset + limit)
    }
}

/// What a listing returns: the matching rows in id order, paged.
pub open spec fn listing<T: Record>(rows: Seq<T>, q: ListQuery) -> Seq<T> {
    page(select(rows, q.conds@), q.offset as int, q.limit as int)
}

/// `r` is what a listing of `rows` by `q` returns: the matching rows, in id
/// order or rearranged into `q`'s order, paged.
pub open spec fn listed<T: Record>(rows: Seq<T>, q: ListQuery, r: Seq<T>) -> bool {
    match q.order {
        None => r == listing(rows, q),
        Some(o) => exists|s: Seq<T>|
            sorted_by(s, o) && s.to_multiset() == select(rows, q.conds@).to_multiset() && r == page(
                s,
                q.offset as int,
                q.limit as int,
            ),
    }
}

/// One table of the primary store. Rows are kept in ascending id order;
/// ids are handed out from `next_id` upward and never reused.
pub struct Table<T> {
    pub name: &'static str,
    pub rows: Vec<T>,
    pub next_id: i64,
}

impl<T: Record> View for Table<T> {
    type V = Seq<T>;

    open spec fn view(&self) -> Seq<T> {
        self.rows@
    }
}

pub open spec fn ids_ascending<T: Record>(rows: Seq<T>) -> bool {
    forall|i: int, j: int| 0 <= i < j < rows.len() ==> #[trigger] rows[i].spec_id() < #[trigger] rows[j].spec_id()
}

pub open spec fn has_id<T: Record>(rows: Seq<T>, id: i64) -> bool {
    exists|i: int| 0 <= i < rows.len() && (#[trigger] rows[i]).spec_id() == id
}

/// The rows of `rows` other than the one with `id`.
pub open spec fn without_id<T: Record>(rows: Seq<T>, id: i64) -> Seq<T>
    decreases rows.len(),
{
    if rows.len() == 0 {
        Seq::empty()
    } else if rows.last().spec_id() == id {
        without_id(rows.drop_last(), id)
    } else {
        without_id(rows.drop_last(), id).push(rows.last())
    }
}

impl<T: Record> Table<T> {
    pub open spec fn wf(&self) -> bool {
        &&& 1 <= self.next_id
        &&& ids_ascending(self.rows@)
        &&& forall|i: int|
            0 <= i < self.rows@.len() ==> 1 <= (#[trigger] self.rows@[i]).spec_id() < self.next_id
    }

    pub open spec fn not_found(&self, id: i64) -> ModelError {
        ModelError::EntityNotFound { entity: self.name, id }
    }

    /// An empty table; the first id it hands out is 1.
    pub fn new(name: &'static str) -> (r: Table<T>)
        ensures
            r.wf(),
            r@ == Seq::<T>::empty(),
            r.name == name,
            r.next_id == 1,
    {
        Table { name, rows: Vec::new(), next_id: 1 }
    }

    pub fn len(&self) -> (r: usize)
        ensures
            r == self@.len(),
    {
        self.rows.len()
    }

    /// Compiles `filter` and `opts` against `d`, then lists; a rejected
    /// filter reads nothing.
    pub fn query(&self, d: &EntityDescriptor, filter: Option<Vec<FilterTerm>>, opts: Option<ListOptions>) -> (r:
        Result<Vec<T>, ModelError>)
        requires
            self.wf(),
        ensures
            match r {
                Ok(v) => exists|q: ListQuery| compiled(*d, filter, opts, q) && listed(self@, q, v@),
                Err(e) => rejected(*d, filter, opts, e),
            },
    {
        match compile(d, filter, opts) {
            Ok(q) => {
                let v = self.list(&q);
                Ok(v)
            },
            Err(e) => Err(e),
        }
    }

    /// Every row, in ascending id order.
    pub fn snapshot(&self) -> (r: Vec<T>)
        ensures
            r@ == self@,
    {
        let mut out: Vec<T> = Vec::new();
        let mut i: usize = 0;
        while i < self.rows.len()
            invariant
                i <= self.rows@.len(),
                out@ == self.rows@.take(i as int),
            decreases self.rows@.len() - i,
        {
            out.push(self.rows[i].duplicate());
            i = i + 1;
            assert(out@ =~= self.rows@.take(i as int));
        }
        assert(self.rows@.take(i as int) =~= self.rows@);
        out
    }

    /// The position of the row with `id`, if there is one.
    pub fn find(&self, id: i64) -> (r: Option<usize>)
        requires
            self.wf(),
        ensures
            match r {
                Some(i) => i < self@.len() && self@[i as int].spec_id() == id,
                None => !has_id(self@, id),
            },
    {
        let mut i: usize = 0;
        while i < self.rows.len()
            invariant
                i <= self.rows@.len(),
                forall|j: int| 0 <= j < i ==> (#[trigger] self.rows@[j]).spec_id() != id,
            decreases self.rows@.len() - i,
        {
            if self.rows[i].id() == id {
                return Some(i);
            }
            i = i + 1;
        }
        None
    }

    /// The id the next insertion receives, or `IdsExhausted`.
    pub fn reserve_id(&self) -> (r: Result<i64, ModelError>)
        ensures
            match r {
                Ok(id) => self.next_id < i64::MAX && id == self.next_id,
                Err(e) => self.next_id == i64::MAX && e == ModelError::IdsExhausted,
            },
    {
        if self.next_id == i64::MAX {
            Err(ModelError::IdsExhausted)
        } else {
            Ok(self.next_id)
        }
    }

    /// Appends a row carrying the id from `reserve_id`.
    pub fn insert(&mut self, row: T)
        requires
            old(self).wf(),
            old(self).next_id < i64::MAX,
            row.spec_id() == old(self).next_id,
        ensures
            final(self).wf(),
            final(self)@ == old(self)@.push(row),
            final(self).next_id == old(self).next_id + 1,
            final(self).name == old(self).name,
    {
        self.rows.push(row);
        self.next_id = self.next_id + 1;
    }

    /// A copy of the row with `id`.
    pub fn get(&self, id: i64) -> (r: Result<T, ModelError>)
        requires
            self.wf(),
        ensures
            match r {
                Ok(row) => has_id(self@, id) && self@.contains(row) && row.spec_id() == id,
                Err(e) => !has_id(self@, id) && e == self.not_found(id),
            },
    {
        match self.find(id) {
            Some(i) => Ok(self.rows[i].duplicate()),
            None => Err(ModelError::EntityNotFound { entity: self.name, id }),
        }
    }

    /// Replaces the row at `i` by one with the same id.
    pub fn replace(&mut self, i: usize, row: T)
        requires
            old(self).wf(),
            i < old(self)@.len(),
            row.spec_id() == old(self)@[i as int].spec_id(),
        ensures
            final(self).wf(),
            final(self)@ == old(self)@.update(i as int, row),
            final(self).next_id == old(self).next_id,
            final(self).name == old(self).name,
    {
        self.rows.set(i, row);
    }

    /// Removes the row with `id`.
    pub fn remove(&mut self, id: i64) -> (r: Result<(), ModelError>)
        requires
            old(self).wf(),
        ensures
            final(self).wf(),
            final(self).next_id == old(self).next_id,
            final(self).name == old(self).name,
            forall|k: int| 0 <= k < final(self)@.len() ==> old(self)@.contains(#[trigger] final(self)@[k]),
            match r {
                Ok(()) => has_id(old(self)@, id) && final(self)@ == without_id(old(self)@, id),
                Err(e) => !has_id(old(self)@, id) && e == old(self).not_found(id) && *final(self)
                    == *old(self),
            },
    {
        match self.find(id) {
            Some(i) => {
                let ghost before = self.rows@;
                self.rows.remove(i);
                proof {
                    lemma_remove_is_without(before, i as int, id);
                    assert forall|k: int| 0 <= k < self.rows@.len() implies before.contains(
                        #[trigger] self.rows@[k],
                    ) by {
                        if k < i {
                            assert(before[k] == self.rows@[k]);
                        } else {
                            assert(before[k + 1] == self.rows@[k]);
                        }
                    }
                }
                Ok(())
            },
            None => Err(ModelError::EntityNotFound { entity: self.name, id }),
        }
    }
}

/// Any result that `Table::query` may return for a filter naming an
/// undeclared field is `Err(InvalidFilterField)`: no rows are listed, and
/// since `query` reads the table through a shared reference, the store is
/// left as it was.
pub proof fn lemma_query_undeclared_field<T: Record>(
    d: EntityDescriptor,
    filter: Option<Vec<FilterTerm>>,
    opts: Option<ListOptions>,
    i: int,
    rows: Seq<T>,
    r: Result<Vec<T>, ModelError>,
)
    requires
        0 <= i < terms_of(filter).len(),
        !declares(d, terms_of(filter)[i].field@),
        match r {
            Ok(v) => exists|q: ListQuery| compiled(d, filter, opts, q) && listed(rows, q, v@),
            Err(e) => rejected(d, filter, opts, e),
        },
    ensures
        r == Err::<Vec<T>, ModelError>(ModelError::InvalidFilterField),
{
    lemma_undeclared_field_rejected(d, filter, opts, i);
}

/// A row found by id right after an insertion is the inserted row: ids are
/// unique, and the new id was not in use.
pub proof fn lemma_get_after_insert<T: Record>(before: Table<T>, row: T, found: T)
    requires
        before.wf(),
        row.spec_id() == before.next_id,
        before@.push(row).contains(found),
        found.spec_id() == row.spec_id(),
    ensures
        found == row,
{
    let rows = before@.push(row);
    let k = choose|k: int| 0 <= k < rows.len() && rows[k] == found;
    if k < before@.len() {
        assert(rows[k] == before@[k]);
    }
}

/// An id that the table has not handed out yet is on no row.
pub proof fn lemma_unassigned_id_absent<T: Record>(t: Table<T>, id: i64)
    requires
        t.wf(),
        id < 1 || id >= t.next_id,
    ensures
        !has_id(t@, id),
{
}

/// After the row with `id` is removed, no row has `id`: a second removal or
/// a lookup of it fails.
pub proof fn lemma_removed_id_absent<T: Record>(rows: Seq<T>, id: i64)
    ensures
        !has_id(without_id(rows, id), id),
    decreases rows.len(),
{
    if rows.len() > 0 {
        lemma_removed_id_absent(rows.drop_last(), id);
        let w = without_id(rows.drop_last(), id);
        if rows.last().spec_id() != id {
            assert forall|i: int| 0 <= i < w.push(rows.last()).len() implies (#[trigger] w.push(
                rows.last(),
            )[i]).spec_id() != id by {
                if i < w.len() {
                    assert(w.push(rows.last())[i] == w[i]);
                }
            }
        }
    }
}

/// Selection keeps rows of `rows` only, and keeps their ids ascending.
pub proof fn lemma_select_ascending<T: Record>(rows: Seq<T>, conds: Seq<Condition>)
    requires
        ids_ascending(rows),
    ensures
        ids_ascending(select(rows, conds)),
        forall|k: int| 0 <= k < select(rows, conds).len() ==> rows.contains(#[trigger] select(rows, conds)[k]),
    decreases rows.len(),
{
    if rows.len() > 0 {
        let prev = rows.drop_last();
        lemma_select_ascending(prev, conds);
        let sp = select(prev, conds);
        assert forall|k: int| 0 <= k < sp.len() implies rows.contains(#[trigger] sp[k]) by {
            let m = choose|m: int| 0 <= m < prev.len() && prev[m] == sp[k];
            assert(rows[m] == sp[k]);
        }
        if row_matches(rows.last(), conds) {
            let s = sp.push(rows.last());
            assert forall|k: int| 0 <= k < s.len() implies rows.contains(#[trigger] s[k]) by {
                if k < sp.len() {
                    assert(s[k] == sp[k]);
                } else {
                    assert(rows[rows.len() - 1] == s[k]);
                }
            }
            assert forall|a: int, b: int| 0 <= a < b < s.len() implies #[trigger] s[a].spec_id()
                < #[trigger] s[b].spec_id() by {
                if b == sp.len() {
                    assert(s[a] == sp[a]);
                    let m = choose|m: int| 0 <= m < prev.len() && prev[m] == sp[a];
                    assert(rows[m] == sp[a]);
                } else {
                    assert(s[a] == sp[a] && s[b] == sp[b]);
                }
            }
        }
    }
}

/// With no conditions, selection keeps every row.
pub proof fn lemma_select_all<T: Record>(rows: Seq<T>, conds: Seq<Condition>)
    requires
        conds.len() == 0,
    ensures
        select(rows, conds) == rows,
    decreases rows.len(),
{
    if rows.len() > 0 {
        lemma_select_all(rows.drop_last(), conds);
        assert(rows.drop_last().push(rows.last()) =~= rows);
    }
}

/// An unfiltered listing from the first row is every row in id order, cut
/// at the limit.
pub proof fn lemma_unfiltered_listing<T: Record>(rows: Seq<T>, q: ListQuery, r: Seq<T>)
    requires
        q.conds@.len() == 0,
        q.offset == 0,
        q.order.is_none(),
        listed(rows, q, r),
    ensures
        r == rows.take(if q.limit < rows.len() { q.limit as int } else { rows.len() as int }),
{
    lemma_select_all(rows, q.conds@);
    assert(rows.subrange(0, rows.len() as int) =~= rows.take(rows.len() as int));
}

/// The key a row sorts by; a row without the column sorts as the least key.
pub open spec fn sort_key<T: Record>(row: T, col: nat) -> int {
    match row.spec_column(col) {
        Some(v) => v as int,
        None => i64::MIN as int,
    }
}

/// `a` comes strictly before `b` under `o`: by key in the requested
/// direction, then by id ascending.
pub open spec fn precedes<T: Record>(a: T, b: T, o: Order) -> bool {
    let ka = sort_key(a, o.column as nat);
    let kb = sort_key(b, o.column as nat);
    if o.descending {
        ka > kb || (ka == kb && a.spec_id() < b.spec_id())
    } else {
        ka < kb || (ka == kb && a.spec_id() < b.spec_id())
    }
}

pub open spec fn sorted_by<T: Record>(s: Seq<T>, o: Order) -> bool {
    forall|i: int, j: int| 0 <= i < j < s.len() ==> precedes(#[trigger] s[i], #[trigger] s[j], o)
}

fn key_of<T: Record>(row: &T, col: usize) -> (r: i64)
    ensures
        r as int == sort_key(*row, col as nat),
{
    match row.column(col) {
        Some(v) => v,
        None => i64::MIN,
    }
}

fn comes_before<T: Record>(a: &T, b: &T, o: &Order) -> (r: bool)
    ensures
        r == precedes(*a, *b, *o),
{
    let ka = key_of(a, o.column);
    let kb = key_of(b, o.column);
    if o.descending {
        ka > kb || (ka == kb && a.id() < b.id())
    } else {
        ka < kb || (ka == kb && a.id() < b.id())
    }
}

/// Inserts `x`, whose id exceeds every id in `out`, at its place.
fn insert_ordered<T: Record>(out: &mut Vec<T>, x: T, o: &Order)
    requires
        sorted_by(old(out)@, *o),
        forall|j: int| 0 <= j < old(out)@.len() ==> (#[trigger] old(out)@[j]).spec_id() < x.spec_id(),
    ensures
        sorted_by(final(out)@, *o),
        final(out)@.to_multiset() == old(out)@.to_multiset().insert(x),
{
    let mut p: usize = 0;
    let mut found = false;
    while p < out.len() && !found
        invariant
            p <= out@.len(),
            found ==> p < out@.len() && precedes(x, out@[p as int], *o),
            forall|j: int| 0 <= j < p ==> !precedes(x, #[trigger] out@[j], *o),
        decreases out@.len() - p + if found { 0int } else { 1int },
    {
        if comes_before(&x, &out[p], o) {
            found = true;
        } else {
            p = p + 1;
        }
    }
    let ghost s = out@;
    proof {
        vstd::seq_lib::to_multiset_insert(s, p as int, x);
    }
    out.insert(p, x);
    assert(out@ =~= s.insert(p as int, x));
    assert forall|i: int, j: int| 0 <= i < j < out@.len() implies precedes(
        #[trigger] out@[i],
        #[trigger] out@[j],
        *o,
    ) by {
        if j < p {
            assert(out@[i] == s[i] && out@[j] == s[j]);
        } else if j == p {
            assert(out@[i] == s[i]);
            assert(!precedes(x, s[i], *o));
            assert(s[i].spec_id() < x.spec_id());
        } else if i == p {
            assert(out@[j] == s[j - 1]);
            assert(precedes(x, s[p as int], *o));
            if j - 1 > p {
                assert(precedes(s[p as int], s[j - 1], *o));
            }
        } else if i < p {
            assert(out@[i] == s[i] && out@[j] == s[j - 1]);
        } else {
            assert(out@[i] == s[i - 1] && out@[j] == s[j - 1]);
        }
    }
}

/// The rows of `rows` (ids ascending) rearranged in the order `o`.
pub fn sort_rows<T: Record>(rows: Vec<T>, o: &Order) -> (r: Vec<T>)
    requires
        ids_ascending(rows@),
    ensures
        sorted_by(r@, *o),
        r@.to_multiset() == rows@.to_multiset(),
{
    let ghost orig = rows@;
    let mut rest = rows;
    let mut back: Vec<T> = Vec::new();
    while rest.len() > 0
        invariant
            rest@.len() + back@.len() == orig.len(),
            forall|j: int| 0 <= j < rest@.len() ==> #[trigger] rest@[j] == orig[j],
            forall|j: int| 0 <= j < back@.len() ==> #[trigger] back@[j] == orig[orig.len() - 1 - j],
        decreases rest@.len(),
    {
        let t = rest.pop().unwrap();
        back.push(t);
    }
    let mut out: Vec<T> = Vec::new();
    let mut i: usize = 0;
    let n: usize = back.len();
    assert(out@ =~= orig.take(0));
    while back.len() > 0
        invariant
            i as int + back@.len() == orig.len(),
            orig.len() == n,
            ids_ascending(orig),
            forall|j: int| 0 <= j < back@.len() ==> #[trigger] back@[j] == orig[orig.len() - 1 - j],
            sorted_by(out@, *o),
            out@.to_multiset() == orig.take(i as int).to_multiset(),
        decreases back@.len(),
    {
        let t = back.pop().unwrap();
        assert(t == orig[i as int]);
        proof {
            assert forall|j: int| 0 <= j < out@.len() implies (#[trigger] out@[j]).spec_id() < t.spec_id() by {
                vstd::seq_lib::to_multiset_contains(out@, out@[j]);
                assert(out@.to_multiset().count(out@[j]) > 0);
                vstd::seq_lib::to_multiset_contains(orig.take(i as int), out@[j]);
                let k = choose|k: int| 0 <= k < i && orig.take(i as int)[k] == out@[j];
                assert(orig[k] == out@[j]);
            }
            vstd::seq_lib::to_multiset_build(orig.take(i as int), t);
            assert(orig.take(i + 1) =~= orig.take(i as int).push(t));
        }
        insert_ordered(&mut out, t, o);
        i = i + 1;
    }
    assert(orig.take(i as int) =~= orig);
    out
}

fn contains_value(xs: &Vec<i64>, v: i64) -> (r: bool)
    ensures
        r == xs@.contains(v),
{
    let mut i: usize = 0;
    while i < xs.len()
        invariant
            i <= xs@.len(),
            forall|j: int| 0 <= j < i ==> xs@[j] != v,
        decreases xs@.len() - i,
    {
        if xs[i] == v {
            return true;
        }
        i = i + 1;
    }
    false
}

fn eval_op(op: &CondOp, v: i64) -> (r: bool)
    ensures
        r == op_holds(*op, v),
{
    match op {
        CondOp::Eq(x) => v == *x,
        CondOp::NotEq(x) => v != *x,
        CondOp::Lt(x) => v < *x,
        CondOp::Lte(x) => v <= *x,
        CondOp::Gt(x) => v > *x,
        CondOp::Gte(x) => v >= *x,
        CondOp::In(xs) => contains_value(xs, v),
        CondOp::NotIn(xs) => !contains_value(xs, v),
        CondOp::Is(b) => (v != 0) == *b,
        CondOp::TextEq(_) | CondOp::TextNotEq(_) => false,
    }
}

/// Whether `row` satisfies every condition of `conds`.
pub fn matches_all<T: Record>(row: &T, conds: &Vec<Condition>) -> (r: bool)
    ensures
        r == row_matches(*row, conds@),
{
    let mut i: usize = 0;
    while i < conds.len()
        invariant
            i <= conds@.len(),
            forall|j: int| 0 <= j < i ==> cond_holds(*row, #[trigger] conds@[j]),
        decreases conds@.len() - i,
    {
        let c = &conds[i];
        let ok = match &c.op {
            CondOp::TextEq(t) => match row.text_is(c.column, t) {
                Some(b) => b,
                None => false,
            },
            CondOp::TextNotEq(t) => match row.text_is(c.column, t) {
                Some(b) => !b,
                None => false,
            },
            _ => match row.column(c.column) {
                Some(v) => eval_op(&c.op, v),
                None => false,
            },
        };
        if !ok {
            return false;
        }
        i = i + 1;
    }
    true
}

impl<T: Record> Table<T> {
    /// The rows that match `q`'s conditions, in ascending id order, paged by
    /// `q`'s offset and limit.
    pub fn list(&self, q: &ListQuery) -> (r: Vec<T>)
        requires
            self.wf(),
        ensures
            listed(self@, *q, r@),
    {
        let mut hits: Vec<T> = Vec::new();
        let mut i: usize = 0;
        while i < self.rows.len()
            invariant
                i <= self.rows@.len(),
                hits@ == select(self.rows@.take(i as int), q.conds@),
            decreases self.rows@.len() - i,
        {
            assert(self.rows@.take(i + 1).drop_last() =~= self.rows@.take(i as int));
            let row = &self.rows[i];
            if matches_all(row, &q.conds) {
                hits.push(row.duplicate());
            }
            i = i + 1;
        }
        assert(self.rows@.take(i as int) =~= self.rows@);
        let ghost selected = hits@;
        let hits = match &q.order {
            Some(o) => {
                proof {
                    lemma_select_ascending(self.rows@, q.conds@);
                }
                sort_rows(hits, o)
            },
            None => hits,
        };
        let ghost all = hits@;
        let mut out: Vec<T> = Vec::new();
        if q.offset >= hits.len() {
            assert(out@ =~= page(all, q.offset as int, q.limit as int));
            return out;
        }
        let end: usize = if q.limit >= hits.len() - q.offset {
            hits.len()
        } else {
            q.offset + q.limit
        };
        let mut k: usize = q.offset;
        while k < end
            invariant
                q.offset <= k <= end <= hits@.len(),
                hits@ == all,
                out@ == all.subrange(q.offset as int, k as int),
            decreases end - k,
        {
            out.push(hits[k].duplicate());
            k = k + 1;
        }
        assert(out@ =~= page(all, q.offset as int, q.limit as int));
        out
    }
}

proof fn lemma_remove_is_without<T: Record>(rows: Seq<T>, i: int, id: i64)
    requires
        ids_ascending(rows),
        0 <= i < rows.len(),
        rows[i].spec_id() == id,
    ensures
        rows.remove(i) == without_id(rows, id),
    decreases rows.len(),
{
    let last = rows.len() - 1;
    if i == last {
        assert(rows.remove(i) =~= rows.drop_last());
        lemma_none_has_id(rows.drop_last(), id);
    } else {
        lemma_remove_is_without(rows.drop_last(), i, id);
        assert(rows.remove(i) =~= rows.drop_last().remove(i).push(rows.last()));
        assert(rows.last().spec_id() != id);
    }
}

proof fn lemma_none_has_id<T: Record>(rows: Seq<T>, id: i64)
    requires
        forall|j: int| 0 <= j < rows.len() ==> (#[trigger] rows[j]).spec_id() != id,
    ensures
        without_id(rows, id) == rows,
    decreases rows.len(),
{
    if rows.len() > 0 {
        lemma_none_has_id(rows.drop_last(), id);
        assert(rows.drop_last().push(rows.last()) =~= rows);
    }
}

} // verus!
