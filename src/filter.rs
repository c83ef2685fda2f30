use vstd::prelude::*;
use crate::error::ModelError;

verus! {

/// Number of rows a listing returns when the caller names no limit.
pub const DEFAULT_LIMIT: usize = 1000;

/// Largest number of rows a single listing may return.
pub const MAX_LIMIT: usize = 5000;

/// One operator together with its parameter values.
pub enum CondOp {
    Eq(i64),
    NotEq(i64),
    Lt(i64),
    Lte(i64),
    Gt(i64),
    Gte(i64),
    In(Vec<i64>),
    NotIn(Vec<i64>),
    /// The column, read as a flag (non-zero is true), equals the value.
    Is(bool),
    /// The text column equals the string.
    TextEq(String),
    /// The text column differs from the string.
    TextNotEq(String),
}

/// The families of operators that a field may permit.
#[derive(Clone, Copy)]
pub struct OpSet {
    pub equality: bool,
    pub comparison: bool,
    pub membership: bool,
    pub boolean: bool,
    pub text: bool,
}

pub open spec fn op_permitted(ops: OpSet, op: CondOp) -> bool {
    match op {
        CondOp::Eq(_) | CondOp::NotEq(_) => ops.equality,
        CondOp::Lt(_) | CondOp::Lte(_) | CondOp::Gt(_) | CondOp::Gte(_) => ops.comparison,
        CondOp::In(_) | CondOp::NotIn(_) => ops.membership,
        CondOp::Is(_) => ops.boolean,
        CondOp::TextEq(_) | CondOp::TextNotEq(_) => ops.text,
    }
}

/// Whether an integer column value satisfies an operator; a text operator
/// never holds of an integer.
pub open spec fn op_holds(op: CondOp, v: i64) -> bool {
    match op {
        CondOp::Eq(x) => v == x,
        CondOp::NotEq(x) => v != x,
        CondOp::Lt(x) => v < x,
        CondOp::Lte(x) => v <= x,
        CondOp::Gt(x) => v > x,
        CondOp::Gte(x) => v >= x,
        CondOp::In(xs) => xs@.contains(v),
        CondOp::NotIn(xs) => !xs@.contains(v),
        CondOp::Is(b) => (v != 0) == b,
        CondOp::TextEq(_) | CondOp::TextNotEq(_) => false,
    }
}

/// A filterable field of an entity: its public name, the column it reads and
/// the operators it permits.
pub struct FieldSpec {
    pub name: String,
    pub column: usize,
    pub ops: OpSet,
}

/// Declaration of one entity type: its table name, its filterable fields,
/// and the order a listing takes when the caller names none (`None` is
/// ascending id, the order the table keeps its rows in).
pub struct EntityDescriptor {
    pub table: &'static str,
    pub fields: Vec<FieldSpec>,
    pub default_sort: Option<Order>,
}

/// A caller-supplied filter term: a field name and an operator on it.
pub struct FilterTerm {
    pub field: String,
    pub op: CondOp,
}

/// A requested ordering by a declared field.
pub struct OrderBy {
    pub field: String,
    pub descending: bool,
}

/// Caller-supplied pagination and ordering.
pub struct ListOptions {
    pub limit: Option<usize>,
    pub offset: Option<usize>,
    pub order_by: Option<OrderBy>,
}

/// A compiled predicate on one column, with its values kept as parameters.
pub struct Condition {
    pub column: usize,
    pub op: CondOp,
}

/// A resolved ordering: by the integer in `column`, ties broken by id
/// ascending.
#[derive(Clone, Copy)]
pub struct Order {
    pub column: usize,
    pub descending: bool,
}

/// A compiled listing: conditions joined by AND, and the page bounds.
pub struct ListQuery {
    pub conds: Vec<Condition>,
    pub limit: usize,
    pub offset: usize,
    pub order: Option<Order>,
}

pub open spec fn declares(d: EntityDescriptor, name: Seq<char>) -> bool {
    exists|k: int| 0 <= k < d.fields@.len() && (#[trigger] d.fields@[k]).name@ == name
}

pub open spec fn allows(d: EntityDescriptor, name: Seq<char>, op: CondOp) -> bool {
    exists|k: int|
        0 <= k < d.fields@.len() && (#[trigger] d.fields@[k]).name@ == name && op_permitted(
            d.fields@[k].ops,
            op,
        )
}

/// The error, if any, that a single filter term raises against a descriptor.
pub open spec fn term_error(d: EntityDescriptor, t: FilterTerm) -> Option<ModelError> {
    if !declares(d, t.field@) {
        Some(ModelError::InvalidFilterField)
    } else if !allows(d, t.field@, t.op) {
        Some(ModelError::InvalidFilterOperator)
    } else {
        None
    }
}

/// `c` is how term `t` compiles against `d`: the operator is kept and the
/// column is that of a declared field of that name which permits it.
pub open spec fn compiles_to(d: EntityDescriptor, t: FilterTerm, c: Condition) -> bool {
    &&& c.op == t.op
    &&& exists|k: int|
        0 <= k < d.fields@.len() && (#[trigger] d.fields@[k]).name@ == t.field@ && op_permitted(
            d.fields@[k].ops,
            t.op,
        ) && d.fields@[k].column == c.column
}

/// The terms of an optional filter; no filter has none.
pub open spec fn terms_of(filter: Option<Vec<FilterTerm>>) -> Seq<FilterTerm> {
    match filter {
        Some(v) => v@,
        None => Seq::empty(),
    }
}

pub open spec fn order_by_of(o: Option<ListOptions>) -> Option<OrderBy> {
    match o {
        Some(ListOptions { order_by: Some(ob), .. }) => Some(ob),
        _ => None,
    }
}

/// The requested ordering names a field the entity does not declare.
pub open spec fn order_error(d: EntityDescriptor, o: Option<ListOptions>) -> bool {
    match order_by_of(o) {
        Some(ob) => !declares(d, ob.field@),
        None => false,
    }
}

/// `order` is how the requested ordering resolves against `d`.
pub open spec fn resolves_to(d: EntityDescriptor, o: Option<ListOptions>, order: Option<Order>) -> bool {
    match order_by_of(o) {
        None => order == d.default_sort,
        Some(ob) => order matches Some(or) && or.descending == ob.descending && exists|k: int|
            0 <= k < d.fields@.len() && (#[trigger] d.fields@[k]).name@ == ob.field@ && d.fields@[k].column
                == or.column,
    }
}

pub open spec fn effective_limit(o: Option<ListOptions>) -> usize {
    match o {
        Some(ListOptions { limit: Some(l), .. }) => if l > MAX_LIMIT {
            MAX_LIMIT
        } else {
            l
        },
        _ => DEFAULT_LIMIT,
    }
}

pub open spec fn effective_offset(o: Option<ListOptions>) -> usize {
    match o {
        Some(ListOptions { offset: Some(n), .. }) => n,
        _ => 0,
    }
}

/// `q` is the compiled form of `filter` and `opts`: no term is in error,
/// each term becomes one condition in order, and the page bounds are the
/// effective ones.
pub open spec fn compiled(
    d: EntityDescriptor,
    filter: Option<Vec<FilterTerm>>,
    opts: Option<ListOptions>,
    q: ListQuery,
) -> bool {
    let terms = terms_of(filter);
    &&& forall|i: int| 0 <= i < terms.len() ==> term_error(d, #[trigger] terms[i]).is_none()
    &&& q.conds@.len() == terms.len()
    &&& forall|i: int| 0 <= i < terms.len() ==> compiles_to(d, #[trigger] terms[i], q.conds@[i])
    &&& !order_error(d, opts)
    &&& resolves_to(d, opts, q.order)
    &&& q.limit == effective_limit(opts)
    &&& q.offset == effective_offset(opts)
}

/// Some term of `filter` names a field that `d` does not declare.
pub open spec fn has_undeclared(d: EntityDescriptor, filter: Option<Vec<FilterTerm>>) -> bool {
    exists|i: int|
        0 <= i < terms_of(filter).len() && !declares(d, (#[trigger] terms_of(filter)[i]).field@)
}

/// Some term of `filter` is in error.
pub open spec fn has_bad_term(d: EntityDescriptor, filter: Option<Vec<FilterTerm>>) -> bool {
    exists|i: int| 0 <= i < terms_of(filter).len() && term_error(d, #[trigger] terms_of(filter)[i]).is_some()
}

/// `e` is why `filter` and `opts` are refused: an undeclared field in any
/// term first, then a forbidden operator in any term, then an ordering by an
/// undeclared field.
pub open spec fn rejected(
    d: EntityDescriptor,
    filter: Option<Vec<FilterTerm>>,
    opts: Option<ListOptions>,
    e: ModelError,
) -> bool {
    if has_undeclared(d, filter) {
        e == ModelError::InvalidFilterField
    } else if has_bad_term(d, filter) {
        e == ModelError::InvalidFilterOperator
    } else {
        order_error(d, opts) && e == ModelError::InvalidFilterField
    }
}

/// A filter in which any term names an undeclared field compiles to no
/// query, and the only error it can be rejected with is `InvalidFilterField`.
pub proof fn lemma_undeclared_field_rejected(
    d: EntityDescriptor,
    filter: Option<Vec<FilterTerm>>,
    opts: Option<ListOptions>,
    i: int,
)
    requires
        0 <= i < terms_of(filter).len(),
        !declares(d, terms_of(filter)[i].field@),
    ensures
        forall|q: ListQuery| !compiled(d, filter, opts, q),
        forall|e: ModelError| rejected(d, filter, opts, e) ==> e == ModelError::InvalidFilterField,
{
    assert(term_error(d, terms_of(filter)[i]).is_some());
    assert(has_undeclared(d, filter));
}

/// The column of the declared field named `name`, if there is one.
fn field_column(d: &EntityDescriptor, name: &String) -> (r: Option<usize>)
    ensures
        match r {
            Some(col) => exists|k: int|
                0 <= k < d.fields@.len() && (#[trigger] d.fields@[k]).name@ == name@ && d.fields@[k].column == col,
            None => !declares(*d, name@),
        },
{
    let mut k: usize = 0;
    while k < d.fields.len()
        invariant
            k <= d.fields@.len(),
            forall|j: int| 0 <= j < k ==> (#[trigger] d.fields@[j]).name@ != name@,
        decreases d.fields@.len() - k,
    {
        if d.fields[k].name == *name {
            return Some(d.fields[k].column);
        }
        k = k + 1;
    }
    None
}

/// Checks one term against the descriptor, returning the column it compiles to.
fn check_term(d: &EntityDescriptor, t: &FilterTerm) -> (r: Result<usize, ModelError>)
    ensures
        match r {
            Ok(col) => term_error(*d, *t).is_none() && exists|k: int|
                0 <= k < d.fields@.len() && (#[trigger] d.fields@[k]).name@ == t.field@
                    && op_permitted(d.fields@[k].ops, t.op) && d.fields@[k].column == col,
            Err(e) => term_error(*d, *t) == Some(e),
        },
{
    let mut named = false;
    let mut k: usize = 0;
    while k < d.fields.len()
        invariant
            k <= d.fields@.len(),
            named == exists|j: int| 0 <= j < k && (#[trigger] d.fields@[j]).name@ == t.field@,
            forall|j: int|
                0 <= j < k && (#[trigger] d.fields@[j]).name@ == t.field@ ==> !op_permitted(
                    d.fields@[j].ops,
                    t.op,
                ),
        decreases d.fields@.len() - k,
    {
        let f = &d.fields[k];
        if f.name == t.field {
            let ok = match &t.op {
                CondOp::Eq(_) | CondOp::NotEq(_) => f.ops.equality,
                CondOp::Lt(_) | CondOp::Lte(_) | CondOp::Gt(_) | CondOp::Gte(_) => f.ops.comparison,
                CondOp::In(_) | CondOp::NotIn(_) => f.ops.membership,
                CondOp::Is(_) => f.ops.boolean,
                CondOp::TextEq(_) | CondOp::TextNotEq(_) => f.ops.text,
            };
            if ok {
                return Ok(f.column);
            }
            named = true;
        }
        k = k + 1;
    }
    if named {
        Err(ModelError::InvalidFilterOperator)
    } else {
        Err(ModelError::InvalidFilterField)
    }
}

/// Compiles an optional filter, pagination and ordering against `d`.
///
/// An undeclared field in any term fails with `InvalidFilterField`; failing
/// that, a forbidden operator in any term fails with `InvalidFilterOperator`;
/// failing that, an ordering by an undeclared field fails with
/// `InvalidFilterField`. Otherwise every term becomes one condition, in
/// order, the limit is the requested one capped at `MAX_LIMIT` (or
/// `DEFAULT_LIMIT` when none is given), and the ordering is the requested one
/// or the descriptor's default.
pub fn compile(d: &EntityDescriptor, filter: Option<Vec<FilterTerm>>, opts: Option<ListOptions>) -> (r:
    Result<ListQuery, ModelError>)
    ensures
        match r {
            Ok(q) => compiled(*d, filter, opts, q),
            Err(e) => rejected(*d, filter, opts, e),
        },
{
    let ghost terms = terms_of(filter);
    let mut conds: Vec<Condition> = Vec::new();
    if filter.is_some() {
        let mut v = filter.unwrap();
        let ghost orig = v@;
        // Any undeclared field decides the error, wherever it stands.
        let mut k: usize = 0;
        while k < v.len()
            invariant
                k <= v@.len(),
                v@ == orig,
                orig == terms,
                terms == terms_of(filter),
                forall|j: int| 0 <= j < k ==> declares(*d, (#[trigger] orig[j]).field@),
            decreases v@.len() - k,
        {
            if field_column(d, &v[k].field).is_none() {
                assert(!declares(*d, orig[k as int].field@));
                assert(has_undeclared(*d, filter));
                return Err(ModelError::InvalidFilterField);
            }
            k = k + 1;
        }
        assert(!has_undeclared(*d, filter));
        let mut i: usize = 0;
        let n: usize = v.len();
        // Reverse the terms so that popping yields them front to back,
        // and the first offending term decides the error.
        let mut back: Vec<FilterTerm> = Vec::new();
        while v.len() > 0
            invariant
                v@.len() + back@.len() == orig.len(),
                forall|j: int| 0 <= j < v@.len() ==> #[trigger] v@[j] == orig[j],
                forall|j: int| 0 <= j < back@.len() ==> #[trigger] back@[j] == orig[orig.len() - 1 - j],
            decreases v@.len(),
        {
            let t = v.pop().unwrap();
            back.push(t);
        }
        while back.len() > 0
            invariant
                i as int + back@.len() == orig.len(),
                orig.len() == n,
                orig == terms,
                terms == terms_of(filter),
                forall|j: int| 0 <= j < back@.len() ==> #[trigger] back@[j] == orig[orig.len() - 1 - j],
                !has_undeclared(*d, filter),
                conds@.len() == i,
                forall|j: int| 0 <= j < i ==> term_error(*d, #[trigger] orig[j]).is_none(),
                forall|j: int| 0 <= j < i ==> compiles_to(*d, #[trigger] orig[j], conds@[j]),
            decreases back@.len(),
        {
            let t = back.pop().unwrap();
            assert(t == orig[i as int]);
            match check_term(d, &t) {
                Ok(col) => {
                    conds.push(Condition { column: col, op: t.op });
                },
                Err(e) => {
                    assert(term_error(*d, terms[i as int]) == Some(e));
                    assert(declares(*d, terms[i as int].field@));
                    assert(has_bad_term(*d, filter));
                    return Err(e);
                },
            }
            i = i + 1;
        }
    }
    let (limit, offset, order) = match opts {
        Some(o) => {
            let l = match o.limit {
                Some(l) => if l > MAX_LIMIT {
                    MAX_LIMIT
                } else {
                    l
                },
                None => DEFAULT_LIMIT,
            };
            let n = match o.offset {
                Some(n) => n,
                None => 0,
            };
            let order = match o.order_by {
                Some(ob) => match field_column(d, &ob.field) {
                    Some(col) => Some(Order { column: col, descending: ob.descending }),
                    None => {
                        return Err(ModelError::InvalidFilterField);
                    },
                },
                None => d.default_sort,
            };
            (l, n, order)
        },
        None => (DEFAULT_LIMIT, 0, d.default_sort),
    };
    Ok(ListQuery { conds, limit, offset, order })
}

} // verus!
