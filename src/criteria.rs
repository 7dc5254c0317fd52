use vstd::prelude::*;
use crate::text::{chars_of, letter_either_case, parse_u32, spells, u32_of};

verus! {

/// A comparison of a filter: equal, greater, greater or equal, less, less or
/// equal, contains, does not contain.
#[derive(Debug, Clone, Copy, PartialEq, Eq, Structural)]
pub enum Operator {
    EQ,
    GT,
    GE,
    LT,
    LE,
    CO,
    NC,
}

#[derive(Debug, Clone, Copy, PartialEq, Eq, Structural)]
pub struct OperatorNotFound;

/// The operator that a code names, letters in either case.
pub open spec fn operator_of(s: Seq<char>) -> Option<Operator> {
    if spells(s, seq!['e', 'q']) {
        Some(Operator::EQ)
    } else if spells(s, seq!['g', 't']) {
        Some(Operator::GT)
    } else if spells(s, seq!['g', 'e']) {
        Some(Operator::GE)
    } else if spells(s, seq!['l', 't']) {
        Some(Operator::LT)
    } else if spells(s, seq!['l', 'e']) {
        Some(Operator::LE)
    } else if spells(s, seq!['c', 'o']) {
        Some(Operator::CO)
    } else if spells(s, seq!['n', 'c']) {
        Some(Operator::NC)
    } else {
        None
    }
}

/// Whether a two-character code spells the two given lower-case letters.
fn spells_pair(cs: &Vec<char>, a: char, b: char) -> (r: bool)
    requires
        cs@.len() == 2,
        'a' <= a <= 'z',
        'a' <= b <= 'z',
    ensures
        r == spells(cs@, seq![a, b]),
{
    let r = letter_either_case(cs[0], a) && letter_either_case(cs[1], b);
    assert(r ==> spells(cs@, seq![a, b])) by {
        if r {
            assert forall|i: int| 0 <= i < 2 implies crate::text::is_letter_either_case(
                #[trigger] cs@[i],
                seq![a, b][i],
            ) by {
                if i == 0 {
                } else {
                }
            }
        }
    }
    assert(spells(cs@, seq![a, b]) ==> r) by {
        if spells(cs@, seq![a, b]) {
            assert(crate::text::is_letter_either_case(cs@[0], seq![a, b][0]));
            assert(crate::text::is_letter_either_case(cs@[1], seq![a, b][1]));
        }
    }
    r
}

impl Operator {
    /// Reads an operator code, letters in either case.
    pub fn try_create(value: &str) -> (r: Result<Operator, OperatorNotFound>)
        ensures
            match r {
                Ok(op) => operator_of(value@) == Some(op),
                Err(_) => operator_of(value@) is None,
            },
    {
        let cs = chars_of(value);
        if cs.len() != 2 {
            return Err(OperatorNotFound);
        }
        if spells_pair(&cs, 'e', 'q') {
            Ok(Operator::EQ)
        } else if spells_pair(&cs, 'g', 't') {
            Ok(Operator::GT)
        } else if spells_pair(&cs, 'g', 'e') {
            Ok(Operator::GE)
        } else if spells_pair(&cs, 'l', 't') {
            Ok(Operator::LT)
        } else if spells_pair(&cs, 'l', 'e') {
            Ok(Operator::LE)
        } else if spells_pair(&cs, 'c', 'o') {
            Ok(Operator::CO)
        } else if spells_pair(&cs, 'n', 'c') {
            Ok(Operator::NC)
        } else {
            Err(OperatorNotFound)
        }
    }
}

/// A condition on one field of the queried rows.
#[derive(Debug)]
pub struct Filter {
    pub field: String,
    pub operator: Operator,
    pub value: String,
}

impl Filter {
    pub fn new(field: String, operator: Operator, value: String) -> (r: Filter)
        ensures
            r.field@ == field@,
            r.operator == operator,
            r.value@ == value@,
    {
        Filter { field, operator, value }
    }
}

/// The direction of a sort.
#[derive(Debug, Clone, Copy, PartialEq, Eq, Structural)]
pub enum OrderType {
    ASC,
    DESC,
}

#[derive(Debug, Clone, Copy, PartialEq, Eq, Structural)]
pub struct OrderTypeNotFound;

/// The direction that a code names, letters in either case.
pub open spec fn order_type_of(s: Seq<char>) -> Option<OrderType> {
    if spells(s, seq!['a', 's', 'c']) {
        Some(OrderType::ASC)
    } else if spells(s, seq!['d', 'e', 's', 'c']) {
        Some(OrderType::DESC)
    } else {
        None
    }
}

impl OrderType {
    /// Reads a direction code, letters in either case.
    pub fn try_create(value: &str) -> (r: Result<OrderType, OrderTypeNotFound>)
        ensures
            match r {
                Ok(ty) => order_type_of(value@) == Some(ty),
                Err(_) => order_type_of(value@) is None,
            },
    {
        let cs = chars_of(value);
        if cs.len() == 3 && letter_either_case(cs[0], 'a') && letter_either_case(cs[1], 's')
            && letter_either_case(cs[2], 'c') {
            assert(spells(cs@, seq!['a', 's', 'c'])) by {
                assert forall|i: int| 0 <= i < 3 implies crate::text::is_letter_either_case(
                    #[trigger] cs@[i],
                    seq!['a', 's', 'c'][i],
                ) by {
                    if i == 0 {
                    } else if i == 1 {
                    } else {
                    }
                }
            }
            return Ok(OrderType::ASC);
        }
        if cs.len() == 4 && letter_either_case(cs[0], 'd') && letter_either_case(cs[1], 'e')
            && letter_either_case(cs[2], 's') && letter_either_case(cs[3], 'c') {
            assert(spells(cs@, seq!['d', 'e', 's', 'c'])) by {
                assert forall|i: int| 0 <= i < 4 implies crate::text::is_letter_either_case(
                    #[trigger] cs@[i],
                    seq!['d', 'e', 's', 'c'][i],
                ) by {
                    if i == 0 {
                    } else if i == 1 {
                    } else if i == 2 {
                    } else {
                    }
                }
            }
            return Ok(OrderType::DESC);
        }
        proof {
            if cs@.len() == 3 && spells(cs@, seq!['a', 's', 'c']) {
                assert(crate::text::is_letter_either_case(cs@[0], seq!['a', 's', 'c'][0]));
                assert(crate::text::is_letter_either_case(cs@[1], seq!['a', 's', 'c'][1]));
                assert(crate::text::is_letter_either_case(cs@[2], seq!['a', 's', 'c'][2]));
            }
            if cs@.len() == 4 && spells(cs@, seq!['d', 'e', 's', 'c']) {
                assert(crate::text::is_letter_either_case(cs@[0], seq!['d', 'e', 's', 'c'][0]));
                assert(crate::text::is_letter_either_case(cs@[1], seq!['d', 'e', 's', 'c'][1]));
                assert(crate::text::is_letter_either_case(cs@[2], seq!['d', 'e', 's', 'c'][2]));
                assert(crate::text::is_letter_either_case(cs@[3], seq!['d', 'e', 's', 'c'][3]));
            }
        }
        Err(OrderTypeNotFound)
    }
}

/// A sort on one field.
#[derive(Debug)]
pub struct Order {
    pub field: String,
    pub ty: OrderType,
}

impl Order {
    pub fn new(field: String, ty: OrderType) -> (r: Order)
        ensures
            r.field@ == field@,
            r.ty == ty,
    {
        Order { field, ty }
    }
}

/// A query: filters joined by AND in the given order, an optional sort, and
/// optional paging.
#[derive(Debug)]
pub struct Criteria {
    pub filters: Vec<Filter>,
    pub order: Option<Order>,
    pub limit: Option<u32>,
    pub offset: Option<u32>,
}

impl Criteria {
    pub fn new(filters: Vec<Filter>, order: Option<Order>, limit: Option<u32>, offset: Option<u32>) -> (r:
        Criteria)
        ensures
            r.filters@ == filters@,
            r.order == order,
            r.limit == limit,
            r.offset == offset,
    {
        Criteria { filters, order, limit, offset }
    }
}

/// The raw tokens of one filter.
#[derive(Debug)]
pub struct FilterRequest {
    pub field: String,
    pub operator: String,
    pub value: String,
}

/// The raw tokens of a sort.
#[derive(Debug)]
pub struct OrderRequest {
    pub field: String,
    pub ty: String,
}

/// The raw tokens of a query.
#[derive(Debug)]
pub struct CriteriaRequest {
    pub filters: Vec<FilterRequest>,
    pub order: Option<OrderRequest>,
    pub limit: Option<String>,
    pub offset: Option<String>,
}

/// The paging number that did not parse.
#[derive(Debug, Clone, Copy, PartialEq, Eq, Structural)]
pub enum PagingField {
    Limit,
    Offset,
}

#[derive(Debug, PartialEq, Eq, Structural)]
#[allow(inconsistent_fields)]
pub enum CriteriaError {
    OperatorNotFound { source: OperatorNotFound },
    OrderTypeNotFound { source: OrderTypeNotFound },
    ParseInt { field: PagingField },
}

/// The first error of a query request: an unknown operator (filters in
/// order), an unknown direction, then a limit or an offset that is no `u32`.
pub open spec fn request_rejection(req: CriteriaRequest) -> Option<CriteriaError> {
    if exists|i: int| 0 <= i < req.filters@.len() && operator_of(#[trigger] req.filters@[i].operator@) is None {
        Some(CriteriaError::OperatorNotFound { source: OperatorNotFound })
    } else if req.order is Some && order_type_of(req.order->0.ty@) is None {
        Some(CriteriaError::OrderTypeNotFound { source: OrderTypeNotFound })
    } else if req.limit is Some && u32_of(req.limit->0@) is None {
        Some(CriteriaError::ParseInt { field: PagingField::Limit })
    } else if req.offset is Some && u32_of(req.offset->0@) is None {
        Some(CriteriaError::ParseInt { field: PagingField::Offset })
    } else {
        None
    }
}

/// A parsed paging number.
pub open spec fn paging_of(s: Option<String>) -> Option<u32> {
    match s {
        Some(t) => u32_of(t@),
        None => None,
    }
}

/// `c` is what a well-formed request `req` asks for.
pub open spec fn criteria_of_request(c: Criteria, req: CriteriaRequest) -> bool {
    &&& c.filters@.len() == req.filters@.len()
    &&& forall|i: int|
        0 <= i < c.filters@.len() ==> {
            &&& (#[trigger] c.filters@[i]).field@ == req.filters@[i].field@
            &&& operator_of(req.filters@[i].operator@) == Some(c.filters@[i].operator)
            &&& c.filters@[i].value@ == req.filters@[i].value@
        }
    &&& c.order is Some <==> req.order is Some
    &&& c.order is Some ==> c.order->0.field@ == req.order->0.field@ && order_type_of(
        req.order->0.ty@,
    ) == Some(c.order->0.ty)
    &&& c.limit == paging_of(req.limit)
    &&& c.offset == paging_of(req.offset)
}

fn parse_paging(s: &Option<String>, field: PagingField) -> (r: Result<Option<u32>, CriteriaError>)
    ensures
        match r {
            Ok(v) => (s is Some ==> u32_of(s->0@) is Some) && v == paging_of(*s),
            Err(e) => s is Some && u32_of(s->0@) is None && e == CriteriaError::ParseInt { field },
        },
{
    match s {
        None => Ok(None),
        Some(t) => match parse_u32(t.as_str()) {
            Some(v) => Ok(Some(v)),
            None => Err(CriteriaError::ParseInt { field }),
        },
    }
}

impl Criteria {
    /// Builds a query from raw tokens, failing on the first bad token.
    pub fn from_request(req: CriteriaRequest) -> (r: Result<Criteria, CriteriaError>)
        ensures
            match r {
                Ok(c) => request_rejection(req) is None && criteria_of_request(c, req),
                Err(e) => request_rejection(req) == Some(e),
            },
    {
        let raw_filters = &req.filters;
        let mut filters: Vec<Filter> = Vec::new();
        let mut i: usize = 0;
        while i < raw_filters.len()
            invariant
                raw_filters == &req.filters,
                i <= raw_filters@.len(),
                filters@.len() == i,
                forall|j: int| 0 <= j < i ==> operator_of(#[trigger] req.filters@[j].operator@) is Some,
                forall|j: int|
                    0 <= j < i ==> {
                        &&& (#[trigger] filters@[j]).field@ == req.filters@[j].field@
                        &&& operator_of(req.filters@[j].operator@) == Some(filters@[j].operator)
                        &&& filters@[j].value@ == req.filters@[j].value@
                    },
            decreases raw_filters.len() - i,
        {
            let raw = &raw_filters[i];
            let op = match Operator::try_create(raw.operator.as_str()) {
                Ok(op) => op,
                Err(e) => {
                    assert(operator_of(req.filters@[i as int].operator@) is None);
                    return Err(CriteriaError::OperatorNotFound { source: e });
                },
            };
            filters.push(Filter::new(raw.field.clone(), op, raw.value.clone()));
            i += 1;
        }
        let order = match &req.order {
            None => None,
            Some(o) => match OrderType::try_create(o.ty.as_str()) {
                Ok(ty) => Some(Order::new(o.field.clone(), ty)),
                Err(e) => return Err(CriteriaError::OrderTypeNotFound { source: e }),
            },
        };
        let limit = match parse_paging(&req.limit, PagingField::Limit) {
            Ok(v) => v,
            Err(e) => return Err(e),
        };
        let offset = match parse_paging(&req.offset, PagingField::Offset) {
            Ok(v) => v,
            Err(e) => return Err(e),
        };
        Ok(Criteria::new(filters, order, limit, offset))
    }
}

} // verus!
