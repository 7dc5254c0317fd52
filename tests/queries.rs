use contexts::criteria::{
    Criteria, CriteriaError, CriteriaRequest, Filter, FilterRequest, Operator, Order,
    OrderRequest, OrderType, OrderTypeNotFound, OperatorNotFound, PagingField,
};
use contexts::query::{build_query, CriteriaQuery, ToSQLite};
use contexts::repository::{CriteriaRepositoryErrors, USER_QUERYABLE_FIELDS, USER_TABLE_NAME};
use contexts::text::append_decimal;

fn filter(field: &str, op: Operator, value: &str) -> Filter {
    Filter::new(field.to_string(), op, value.to_string())
}

fn request(filters: Vec<(&str, &str, &str)>, order: Option<(&str, &str)>, limit: Option<&str>, offset: Option<&str>) -> CriteriaRequest {
    CriteriaRequest {
        filters: filters
            .into_iter()
            .map(|(f, o, v)| FilterRequest { field: f.to_string(), operator: o.to_string(), value: v.to_string() })
            .collect(),
        order: order.map(|(f, t)| OrderRequest { field: f.to_string(), ty: t.to_string() }),
        limit: limit.map(|s| s.to_string()),
        offset: offset.map(|s| s.to_string()),
    }
}

#[test]
fn operator_codes_ignore_case() {
    assert_eq!(Operator::try_create("eq"), Ok(Operator::EQ));
    assert_eq!(Operator::try_create("GT"), Ok(Operator::GT));
    assert_eq!(Operator::try_create("Ge"), Ok(Operator::GE));
    assert_eq!(Operator::try_create("lT"), Ok(Operator::LT));
    assert_eq!(Operator::try_create("le"), Ok(Operator::LE));
    assert_eq!(Operator::try_create("CO"), Ok(Operator::CO));
    assert_eq!(Operator::try_create("nc"), Ok(Operator::NC));
    assert_eq!(Operator::try_create("ne"), Err(OperatorNotFound));
    assert_eq!(Operator::try_create("e"), Err(OperatorNotFound));
    assert_eq!(Operator::try_create("eqq"), Err(OperatorNotFound));
    assert_eq!(Operator::try_create("e@"), Err(OperatorNotFound));
}

#[test]
fn order_codes_ignore_case() {
    assert_eq!(OrderType::try_create("asc"), Ok(OrderType::ASC));
    assert_eq!(OrderType::try_create("DESC"), Ok(OrderType::DESC));
    assert_eq!(OrderType::try_create("Desc"), Ok(OrderType::DESC));
    assert_eq!(OrderType::try_create("ascending"), Err(OrderTypeNotFound));
    assert_eq!(OrderType::try_create(""), Err(OrderTypeNotFound));
}

#[test]
fn sql_spellings() {
    assert_eq!(Operator::EQ.to_sql(), "=");
    assert_eq!(Operator::GE.to_sql(), ">=");
    assert_eq!(Operator::LE.to_sql(), "<=");
    assert_eq!(Operator::CO.to_sql(), "LIKE");
    assert_eq!(Operator::NC.to_sql(), "NOT LIKE");
    assert_eq!(OrderType::DESC.to_sql(), "DESC");
}

#[test]
fn criteria_from_request() {
    let c = Criteria::from_request(request(
        vec![("name", "co", "ann"), ("email", "EQ", "a@b.c")],
        Some(("name", "desc")),
        Some("2"),
        Some("+1"),
    ))
    .unwrap();
    assert_eq!(c.filters.len(), 2);
    assert_eq!(c.filters[0].field, "name");
    assert_eq!(c.filters[0].operator, Operator::CO);
    assert_eq!(c.filters[0].value, "ann");
    assert_eq!(c.filters[1].operator, Operator::EQ);
    let order = c.order.unwrap();
    assert_eq!(order.field, "name");
    assert_eq!(order.ty, OrderType::DESC);
    assert_eq!(c.limit, Some(2));
    assert_eq!(c.offset, Some(1));
}

#[test]
fn criteria_request_errors_in_order() {
    let e = Criteria::from_request(request(vec![("name", "xx", "a")], Some(("name", "up")), Some("x"), None));
    assert_eq!(e.unwrap_err(), CriteriaError::OperatorNotFound { source: OperatorNotFound });
    let e = Criteria::from_request(request(vec![("name", "eq", "a")], Some(("name", "up")), Some("x"), None));
    assert_eq!(e.unwrap_err(), CriteriaError::OrderTypeNotFound { source: OrderTypeNotFound });
    let e = Criteria::from_request(request(vec![], None, Some("-2"), Some("y")));
    assert_eq!(e.unwrap_err(), CriteriaError::ParseInt { field: PagingField::Limit });
    let e = Criteria::from_request(request(vec![], None, Some("2"), Some("y")));
    assert_eq!(e.unwrap_err(), CriteriaError::ParseInt { field: PagingField::Offset });
}

#[test]
fn query_joins_filters_with_and() {
    let c = Criteria::new(
        vec![filter("name", Operator::CO, "ann"), filter("email", Operator::EQ, "a@b.c"), filter("id", Operator::NC, "7")],
        Some(Order::new("name".to_string(), OrderType::ASC)),
        Some(2),
        Some(10),
    );
    let q = build_query(USER_TABLE_NAME, &USER_QUERYABLE_FIELDS, &c).unwrap();
    assert_eq!(
        q.query,
        "SELECT * FROM users WHERE name LIKE ? AND email = ? AND id NOT LIKE ? ORDER BY name ASC LIMIT ? OFFSET ?"
    );
    assert_eq!(q.parameters, vec!["%ann%", "a@b.c", "%7%", "2", "10"]);
}

#[test]
fn contains_binds_wildcards() {
    let c = Criteria::new(vec![filter("name", Operator::CO, "ann")], None, None, None);
    let q = build_query(USER_TABLE_NAME, &USER_QUERYABLE_FIELDS, &c).unwrap();
    assert_eq!(q.query, "SELECT * FROM users WHERE name LIKE ?");
    assert_eq!(q.parameters, vec!["%ann%"]);
}

#[test]
fn empty_criteria_selects_everything() {
    let c = Criteria::new(vec![], None, None, None);
    let q = build_query("users", &USER_QUERYABLE_FIELDS, &c).unwrap();
    assert_eq!(q.query, "SELECT * FROM users");
    assert!(q.parameters.is_empty());
}

#[test]
fn field_outside_whitelist_is_refused() {
    let c = Criteria::new(vec![filter("name", Operator::EQ, "x"), filter("password", Operator::EQ, "x")], None, None, None);
    match build_query(USER_TABLE_NAME, &USER_QUERYABLE_FIELDS, &c) {
        Err(CriteriaRepositoryErrors::FieldNotFound(f)) => assert_eq!(f, "password"),
        other => panic!("unexpected {:?}", other),
    }
    let c = Criteria::new(vec![filter("age", Operator::EQ, "x"), filter("password", Operator::EQ, "x")], None, None, None);
    match build_query(USER_TABLE_NAME, &USER_QUERYABLE_FIELDS, &c) {
        Err(CriteriaRepositoryErrors::FieldNotFound(f)) => assert_eq!(f, "age"),
        other => panic!("unexpected {:?}", other),
    }
}

#[test]
fn order_field_is_checked_too() {
    let c = Criteria::new(vec![], Some(Order::new("name; DROP TABLE users".to_string(), OrderType::ASC)), None, None);
    match build_query(USER_TABLE_NAME, &USER_QUERYABLE_FIELDS, &c) {
        Err(CriteriaRepositoryErrors::FieldNotFound(f)) => assert_eq!(f, "name; DROP TABLE users"),
        other => panic!("unexpected {:?}", other),
    }
}

#[test]
fn values_never_enter_the_text() {
    let c = Criteria::new(vec![filter("name", Operator::EQ, "x' OR '1'='1")], None, None, None);
    let q = build_query(USER_TABLE_NAME, &USER_QUERYABLE_FIELDS, &c).unwrap();
    assert_eq!(q.query, "SELECT * FROM users WHERE name = ?");
    assert_eq!(q.parameters, vec!["x' OR '1'='1"]);
}

#[test]
fn builder_steps() {
    let mut q = CriteriaQuery::new("users");
    q.add_limit(0);
    q.add_offset(4294967295);
    assert_eq!(q.query, "SELECT * FROM users LIMIT ? OFFSET ?");
    assert_eq!(q.parameters, vec!["0", "4294967295"]);
    let mut s = String::from("n=");
    append_decimal(&mut s, 1200);
    assert_eq!(s, "n=1200");
}
