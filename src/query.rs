use vstd::prelude::*;
use vstd::string::StringExecFns;
use crate::criteria::{Criteria, Filter, Operator, Order, OrderType};
use crate::repository::CriteriaRepositoryErrors;
use crate::text::{append_decimal, decimal, text_eq};

verus! {

/// The SQL spelling of an operator or a direction.
pub trait ToSQLite {
    spec fn sql(&self) -> Seq<char>;

    fn to_sql(&self) -> (r: &'static str)
        ensures
            r@ == self.sql(),
    ;
}

impl ToSQLite for Operator {
    open spec fn sql(&self) -> Seq<char> {
        match self {
            Operator::EQ => "="@,
            Operator::GT => ">"@,
            Operator::GE => ">="@,
            Operator::LT => "<"@,
            Operator::LE => "<="@,
            Operator::CO => "LIKE"@,
            Operator::NC => "NOT LIKE"@,
        }
    }

    fn to_sql(&self) -> (r: &'static str) {
        match self {
            Operator::EQ => "=",
            Operator::GT => ">",
            Operator::GE => ">=",
            Operator::LT => "<",
            Operator::LE => "<=",
            Operator::CO => "LIKE",
            Operator::NC => "NOT LIKE",
        }
    }
}

impl ToSQLite for OrderType {
    open spec fn sql(&self) -> Seq<char> {
        match self {
            OrderType::ASC => "ASC"@,
            OrderType::DESC => "DESC"@,
        }
    }

    fn to_sql(&self) -> (r: &'static str) {
        match self {
            OrderType::ASC => "ASC",
            OrderType::DESC => "DESC",
        }
    }
}

/// Operators that match a pattern and so take their value inside `%...%`.
pub open spec fn is_pattern(op: Operator) -> bool {
    op == Operator::CO || op == Operator::NC
}

/// The parameter bound for a filter's value.
pub open spec fn bound_value(f: Filter) -> Seq<char> {
    if is_pattern(f.operator) {
        "%"@ + f.value@ + "%"@
    } else {
        f.value@
    }
}

/// The clause of the filter at position `i`: the first opens with WHERE, the
/// others with AND.
pub open spec fn filter_clause(i: int, f: Filter) -> Seq<char> {
    (if i == 0 {
        " WHERE "@
    } else {
        " AND "@
    }) + f.field@ + " "@ + f.operator.sql() + " ?"@
}

pub open spec fn filters_text(fs: Seq<Filter>) -> Seq<char>
    decreases fs.len(),
{
    if fs.len() == 0 {
        Seq::empty()
    } else {
        filters_text(fs.drop_last()) + filter_clause(fs.len() - 1, fs.last())
    }
}

pub open spec fn order_text(o: Option<Order>) -> Seq<char> {
    match o {
        Some(o) => " ORDER BY "@ + o.field@ + " "@ + o.ty.sql(),
        None => Seq::empty(),
    }
}

/// The statement text for `c` over the collection `table`.
pub open spec fn query_text(table: Seq<char>, c: Criteria) -> Seq<char> {
    "SELECT * FROM "@ + table + filters_text(c.filters@) + order_text(c.order) + (if c.limit is Some {
        " LIMIT ?"@
    } else {
        Seq::empty()
    }) + (if c.offset is Some {
        " OFFSET ?"@
    } else {
        Seq::empty()
    })
}

/// The parameters for `c`, in the order of the `?` marks.
pub open spec fn query_params(c: Criteria) -> Seq<Seq<char>> {
    c.filters@.map_values(|f: Filter| bound_value(f)) + (if c.limit is Some {
        seq![decimal(c.limit->0 as nat)]
    } else {
        Seq::empty()
    }) + (if c.offset is Some {
        seq![decimal(c.offset->0 as nat)]
    } else {
        Seq::empty()
    })
}

pub open spec fn is_allowed(valid: Seq<&str>, field: Seq<char>) -> bool {
    exists|k: int| 0 <= k < valid.len() && (#[trigger] valid[k])@ == field
}

/// The first field of `c` outside `valid`: filters in order, then the sort.
pub open spec fn shape_error(valid: Seq<&str>, c: Criteria) -> Option<Seq<char>> {
    if exists|i: int| 0 <= i < c.filters@.len() && !is_allowed(valid, (#[trigger] c.filters@[i]).field@) {
        let i = choose|i: int| 0 <= i < c.filters@.len() && !is_allowed(valid, (#[trigger] c.filters@[i]).field@)
            && forall|j: int| 0 <= j < i ==> is_allowed(valid, (#[trigger] c.filters@[j]).field@);
        Some(c.filters@[i].field@)
    } else if c.order is Some && !is_allowed(valid, c.order->0.field@) {
        Some(c.order->0.field@)
    } else {
        None
    }
}

pub open spec fn texts(v: Seq<String>) -> Seq<Seq<char>> {
    v.map_values(|s: String| s@)
}

/// Whether `field` is one of `valid_fields`.
pub fn allowed(valid_fields: &[&str], field: &str) -> (r: bool)
    ensures
        r == is_allowed(valid_fields@, field@),
{
    let mut k: usize = 0;
    while k < valid_fields.len()
        invariant
            k <= valid_fields@.len(),
            forall|j: int| 0 <= j < k ==> (#[trigger] valid_fields@[j])@ != field@,
        decreases valid_fields.len() - k,
    {
        if text_eq(valid_fields[k], field) {
            return true;
        }
        k += 1;
    }
    false
}

/// A parameterized statement under construction: its text and its bound
/// parameters, in the order of the `?` marks.
#[derive(Debug)]
pub struct CriteriaQuery {
    pub query: String,
    pub parameters: Vec<String>,
    /// How many filter clauses the text holds.
    pub conditions: usize,
}

impl CriteriaQuery {
    pub open spec fn conditions(&self) -> nat {
        self.conditions as nat
    }

    pub fn new(table: &str) -> (r: CriteriaQuery)
        ensures
            r.query@ == "SELECT * FROM "@ + table@,
            r.parameters@.len() == 0,
            r.conditions() == 0,
    {
        let mut query = String::from_str("SELECT * FROM ");
        query.append(table);
        CriteriaQuery { query, parameters: Vec::new(), conditions: 0 }
    }

    /// Appends a filter's clause and binds its value, or fails when the
    /// filter's field is not one of `valid_fields`.
    pub fn add_filter(&mut self, filter: &Filter, valid_fields: &[&str]) -> (r: Result<
        (),
        CriteriaRepositoryErrors,
    >)
        requires
            old(self).conditions() < usize::MAX,
        ensures
            match r {
                Ok(()) => {
                    &&& is_allowed(valid_fields@, filter.field@)
                    &&& final(self).query@ == old(self).query@ + filter_clause(
                        old(self).conditions() as int,
                        *filter,
                    )
                    &&& texts(final(self).parameters@) == texts(old(self).parameters@).push(
                        bound_value(*filter),
                    )
                    &&& final(self).conditions() == old(self).conditions() + 1
                },
                Err(e) => {
                    &&& !is_allowed(valid_fields@, filter.field@)
                    &&& e matches CriteriaRepositoryErrors::FieldNotFound(f) && f@ == filter.field@
                    &&& *final(self) == *old(self)
                },
            },
    {
        if !allowed(valid_fields, filter.field.as_str()) {
            return Err(CriteriaRepositoryErrors::FieldNotFound(filter.field.clone()));
        }
        if self.conditions == 0 {
            self.query.append(" WHERE ");
        } else {
            self.query.append(" AND ");
        }
        self.query.append(filter.field.as_str());
        self.query.append(" ");
        self.query.append(filter.operator.to_sql());
        self.query.append(" ?");
        let value = if filter.operator == Operator::CO || filter.operator == Operator::NC {
            let mut v = String::from_str("%");
            v.append(filter.value.as_str());
            v.append("%");
            v
        } else {
            filter.value.clone()
        };
        self.parameters.push(value);
        self.conditions = self.conditions + 1;
        proof {
            assert(texts(final(self).parameters@) =~= texts(old(self).parameters@).push(
                bound_value(*filter),
            ));
        }
        Ok(())
    }

    /// Appends the sort, or fails when its field is not one of `valid_fields`.
    pub fn add_order(&mut self, order: &Order, valid_fields: &[&str]) -> (r: Result<
        (),
        CriteriaRepositoryErrors,
    >)
        ensures
            match r {
                Ok(()) => {
                    &&& is_allowed(valid_fields@, order.field@)
                    &&& final(self).query@ == old(self).query@ + " ORDER BY "@ + order.field@
                        + " "@ + order.ty.sql()
                    &&& final(self).parameters == old(self).parameters
                    &&& final(self).conditions() == old(self).conditions()
                },
                Err(e) => {
                    &&& !is_allowed(valid_fields@, order.field@)
                    &&& e matches CriteriaRepositoryErrors::FieldNotFound(f) && f@ == order.field@
                    &&& *final(self) == *old(self)
                },
            },
    {
        if !allowed(valid_fields, order.field.as_str()) {
            return Err(CriteriaRepositoryErrors::FieldNotFound(order.field.clone()));
        }
        self.query.append(" ORDER BY ");
        self.query.append(order.field.as_str());
        self.query.append(" ");
        self.query.append(order.ty.to_sql());
        Ok(())
    }

    pub fn add_limit(&mut self, limit: u32)
        ensures
            final(self).query@ == old(self).query@ + " LIMIT ?"@,
            texts(final(self).parameters@) == texts(old(self).parameters@).push(decimal(limit as nat)),
            final(self).conditions() == old(self).conditions(),
    {
        self.query.append(" LIMIT ?");
        let mut v = String::new();
        append_decimal(&mut v, limit);
        self.parameters.push(v);
        proof {
            assert(texts(final(self).parameters@) =~= texts(old(self).parameters@).push(
                decimal(limit as nat),
            ));
        }
    }

    pub fn add_offset(&mut self, offset: u32)
        ensures
            final(self).query@ == old(self).query@ + " OFFSET ?"@,
            texts(final(self).parameters@) == texts(old(self).parameters@).push(decimal(offset as nat)),
            final(self).conditions() == old(self).conditions(),
    {
        self.query.append(" OFFSET ?");
        let mut v = String::new();
        append_decimal(&mut v, offset);
        self.parameters.push(v);
        proof {
            assert(texts(final(self).parameters@) =~= texts(old(self).parameters@).push(
                decimal(offset as nat),
            ));
        }
    }
}


/// Builds the parameterized statement for `criteria` over `table`, or names
/// the first field outside `valid_fields`. No value of the criteria enters the
/// text: values are bound parameters.
pub fn build_query(table: &str, valid_fields: &[&str], criteria: &Criteria) -> (r: Result<
    CriteriaQuery,
    CriteriaRepositoryErrors,
>)
    ensures
        match r {
            Ok(q) => {
                &&& shape_error(valid_fields@, *criteria) is None
                &&& q.query@ == query_text(table@, *criteria)
                &&& texts(q.parameters@) == query_params(*criteria)
            },
            Err(e) => {
                &&& shape_error(valid_fields@, *criteria) is Some
                &&& e matches CriteriaRepositoryErrors::FieldNotFound(f) && f@ == shape_error(
                    valid_fields@,
                    *criteria,
                )->0
            },
        },
{
    let ghost fs = criteria.filters@;
    let ghost head = "SELECT * FROM "@ + table@;
    let mut q = CriteriaQuery::new(table);
    let mut i: usize = 0;
    assert(fs.take(0).map_values(|f: Filter| bound_value(f)) =~= Seq::<Seq<char>>::empty());
    assert(texts(q.parameters@) =~= Seq::<Seq<char>>::empty());
    assert(head + filters_text(fs.take(0)) =~= head);
    while i < criteria.filters.len()
        invariant
            fs == criteria.filters@,
            i <= fs.len(),
            q.conditions == i,
            q.query@ == head + filters_text(fs.take(i as int)),
            texts(q.parameters@) == fs.take(i as int).map_values(|f: Filter| bound_value(f)),
            forall|j: int| 0 <= j < i ==> is_allowed(valid_fields@, (#[trigger] fs[j]).field@),
        decreases fs.len() - i,
    {
        let ghost before = q.query@;
        match q.add_filter(&criteria.filters[i], valid_fields) {
            Ok(()) => {},
            Err(e) => {
                proof {
                    let c = *criteria;
                    assert(!is_allowed(valid_fields@, c.filters@[i as int].field@));
                    let k = choose|k: int|
                        0 <= k < c.filters@.len() && !is_allowed(valid_fields@, (#[trigger] c.filters@[k]).field@)
                            && forall|j: int| 0 <= j < k ==> is_allowed(valid_fields@, (#[trigger] c.filters@[j]).field@);
                    assert(0 <= i < c.filters@.len() && !is_allowed(valid_fields@, c.filters@[i as int].field@)
                        && forall|j: int| 0 <= j < i ==> is_allowed(valid_fields@, (#[trigger] c.filters@[j]).field@));
                    if k < i {
                        assert(is_allowed(valid_fields@, fs[k].field@));
                    } else if k > i {
                        assert(is_allowed(valid_fields@, c.filters@[i as int].field@));
                    }
                }
                return Err(e);
            },
        }
        proof {
            let t = fs.take(i + 1);
            assert(t.drop_last() =~= fs.take(i as int));
            assert(t.last() == fs[i as int]);
            assert(q.query@ =~= head + filters_text(t));
            assert(fs.take(i + 1).map_values(|f: Filter| bound_value(f)) =~= fs.take(
                i as int,
            ).map_values(|f: Filter| bound_value(f)).push(bound_value(fs[i as int])));
        }
        i += 1;
    }
    assert(fs.take(fs.len() as int) =~= fs);
    assert(!(exists|i: int| 0 <= i < criteria.filters@.len() && !is_allowed(valid_fields@, (#[trigger] criteria.filters@[i]).field@)));
    let ghost after_filters = q.query@;
    let ghost filter_params = texts(q.parameters@);
    match &criteria.order {
        Some(o) => {
            match q.add_order(o, valid_fields) {
                Ok(()) => {},
                Err(e) => return Err(e),
            }
        },
        None => {},
    }
    assert(q.query@ =~= after_filters + order_text(criteria.order));
    let ghost after_order = q.query@;
    match criteria.limit {
        Some(l) => q.add_limit(l),
        None => {},
    }
    let ghost after_limit = q.query@;
    let ghost limit_params = texts(q.parameters@);
    match criteria.offset {
        Some(o) => q.add_offset(o),
        None => {},
    }
    proof {
        let c = *criteria;
        assert(after_limit =~= after_order + (if c.limit is Some {
            " LIMIT ?"@
        } else {
            Seq::empty()
        }));
        assert(q.query@ =~= after_limit + (if c.offset is Some {
            " OFFSET ?"@
        } else {
            Seq::empty()
        }));
        assert(limit_params =~= filter_params + (if c.limit is Some {
            seq![decimal(c.limit->0 as nat)]
        } else {
            Seq::empty()
        }));
        assert(texts(q.parameters@) =~= limit_params + (if c.offset is Some {
            seq![decimal(c.offset->0 as nat)]
        } else {
            Seq::empty()
        }));
        assert(q.query@ =~= query_text(table@, c));
        assert(texts(q.parameters@) =~= query_params(c));
    }
    Ok(q)
}

} // verus!
