use vstd::prelude::*;
use crate::criteria::{Criteria, Filter, Operator, Order, OrderType};
use crate::repository::views;
use crate::text::{chars_of, contains_text, occurs_in, text_eq, text_less, text_lt};
use crate::user::{User, UserView};

verus! {

/// The text of a user's field.
pub open spec fn field_value(u: UserView, field: Seq<char>) -> Seq<char> {
    if field == "id"@ {
        u.id
    } else if field == "name"@ {
        u.name
    } else if field == "email"@ {
        u.email
    } else if field == "password"@ {
        u.password
    } else {
        Seq::empty()
    }
}

/// Whether a user meets one filter. Texts compare character by character;
/// `CO` and `NC` test whether the value occurs in the field, case included.
pub open spec fn filter_holds(f: Filter, u: UserView) -> bool {
    let v = field_value(u, f.field@);
    let x = f.value@;
    match f.operator {
        Operator::EQ => v == x,
        Operator::GT => text_lt(x, v),
        Operator::GE => !text_lt(v, x),
        Operator::LT => text_lt(v, x),
        Operator::LE => !text_lt(x, v),
        Operator::CO => occurs_in(x, v),
        Operator::NC => !occurs_in(x, v),
    }
}

pub open spec fn all_hold(fs: Seq<Filter>, u: UserView) -> bool {
    forall|i: int| 0 <= i < fs.len() ==> filter_holds(#[trigger] fs[i], u)
}

/// The rows that meet every filter, in their order.
pub open spec fn selected(rows: Seq<UserView>, fs: Seq<Filter>) -> Seq<UserView> {
    rows.filter(|u: UserView| all_hold(fs, u))
}

/// `x` sorts strictly before `y` under `o`.
pub open spec fn goes_before(x: UserView, y: UserView, o: Order) -> bool {
    match o.ty {
        OrderType::ASC => text_lt(field_value(x, o.field@), field_value(y, o.field@)),
        OrderType::DESC => text_lt(field_value(y, o.field@), field_value(x, o.field@)),
    }
}

/// `x` placed into the sorted `s` after every row it does not sort before.
pub open spec fn insert_sorted(s: Seq<UserView>, x: UserView, o: Order) -> Seq<UserView>
    decreases s.len(),
{
    if s.len() == 0 {
        seq![x]
    } else if goes_before(x, s.last(), o) {
        insert_sorted(s.drop_last(), x, o).push(s.last())
    } else {
        s.push(x)
    }
}

/// The stable sort of `s` under `o`: rows with equal keys keep their order.
pub open spec fn sorted_by(s: Seq<UserView>, o: Order) -> Seq<UserView>
    decreases s.len(),
{
    if s.len() == 0 {
        s
    } else {
        insert_sorted(sorted_by(s.drop_last(), o), s.last(), o)
    }
}

pub open spec fn arranged(s: Seq<UserView>, order: Option<Order>) -> Seq<UserView> {
    match order {
        Some(o) => sorted_by(s, o),
        None => s,
    }
}

/// Skips `offset` rows, then keeps at most `limit`.
pub open spec fn paged(s: Seq<UserView>, limit: Option<u32>, offset: Option<u32>) -> Seq<UserView> {
    let start = match offset {
        Some(n) => if n as int >= s.len() {
            s.len() as int
        } else {
            n as int
        },
        None => 0,
    };
    let rest = s.subrange(start, s.len() as int);
    match limit {
        Some(n) => if (n as int) < rest.len() {
            rest.take(n as int)
        } else {
            rest
        },
        None => rest,
    }
}

/// What a criteria query returns over `rows`.
pub open spec fn criteria_result(rows: Seq<UserView>, c: Criteria) -> Seq<UserView> {
    paged(arranged(selected(rows, c.filters@), c.order), c.limit, c.offset)
}

/// Paging without filters or sort: skipping `offset` rows and keeping
/// `limit` gives the rows at positions `offset` to `offset + limit - 1`, in
/// stored order, whenever that many rows are stored.
pub proof fn lemma_page_window(rows: Seq<UserView>, c: Criteria)
    requires
        c.filters@.len() == 0,
        c.order is None,
        c.limit is Some,
        c.offset is Some,
        c.offset->0 as int + c.limit->0 as int <= rows.len(),
    ensures
        criteria_result(rows, c) == rows.subrange(
            c.offset->0 as int,
            c.offset->0 as int + c.limit->0 as int,
        ),
{
    reveal(Seq::filter);
    assert(selected(rows, c.filters@) =~= rows) by {
        lemma_filter_everything(rows, c.filters@);
    }
    assert(criteria_result(rows, c) =~= rows.subrange(
        c.offset->0 as int,
        c.offset->0 as int + c.limit->0 as int,
    ));
}

proof fn lemma_filter_everything(rows: Seq<UserView>, fs: Seq<Filter>)
    requires
        fs.len() == 0,
    ensures
        selected(rows, fs) == rows,
    decreases rows.len(),
{
    reveal(Seq::filter);
    if rows.len() > 0 {
        lemma_filter_everything(rows.drop_last(), fs);
        assert(all_hold(fs, rows.last()));
        assert(rows.drop_last().push(rows.last()) =~= rows);
    }
}

/// The text of `u`'s field named `field`.
pub fn field_of<'a>(u: &'a User, field: &str) -> (r: &'a str)
    ensures
        r@ == field_value(u@, field@),
{
    if text_eq(field, "id") {
        u.get_id()
    } else if text_eq(field, "name") {
        u.get_name()
    } else if text_eq(field, "email") {
        u.get_email()
    } else if text_eq(field, "password") {
        u.get_password()
    } else {
        proof {
            reveal_strlit("");
        }
        ""
    }
}

/// Whether `u` meets `f`.
pub fn holds(f: &Filter, u: &User) -> (r: bool)
    ensures
        r == filter_holds(*f, u@),
{
    let v = chars_of(field_of(u, f.field.as_str()));
    let x = chars_of(f.value.as_str());
    match f.operator {
        Operator::EQ => {
            let before = text_less(&v, &x);
            let after = text_less(&x, &v);
            proof {
                lemma_text_lt_trichotomy(v@, x@);
                lemma_text_lt_irreflexive(v@);
            }
            !before && !after
        },
        Operator::GT => text_less(&x, &v),
        Operator::GE => !text_less(&v, &x),
        Operator::LT => text_less(&v, &x),
        Operator::LE => !text_less(&x, &v),
        Operator::CO => contains_text(&v, &x),
        Operator::NC => !contains_text(&v, &x),
    }
}

/// Two texts neither of which sorts before the other are equal.
pub proof fn lemma_text_lt_trichotomy(a: Seq<char>, b: Seq<char>)
    ensures
        !text_lt(a, b) && !text_lt(b, a) ==> a == b,
    decreases a.len(),
{
    if a.len() > 0 && b.len() > 0 && a[0] == b[0] {
        lemma_text_lt_trichotomy(a.drop_first(), b.drop_first());
        if !text_lt(a, b) && !text_lt(b, a) {
            assert(a =~= seq![a[0]] + a.drop_first());
            assert(b =~= seq![b[0]] + b.drop_first());
        }
    }
}

/// No text sorts before itself.
pub proof fn lemma_text_lt_irreflexive(a: Seq<char>)
    ensures
        !text_lt(a, a),
    decreases a.len(),
{
    if a.len() > 0 {
        lemma_text_lt_irreflexive(a.drop_first());
    }
}

/// Text order is transitive.
pub proof fn lemma_text_lt_transitive(a: Seq<char>, b: Seq<char>, c: Seq<char>)
    requires
        text_lt(a, b),
        text_lt(b, c),
    ensures
        text_lt(a, c),
    decreases a.len(),
{
    if a.len() > 0 && a[0] == b[0] && b[0] == c[0] {
        lemma_text_lt_transitive(a.drop_first(), b.drop_first(), c.drop_first());
    }
}

/// Not sorting before is transitive: ties and order chain.
proof fn lemma_text_not_lt_chain(a: Seq<char>, b: Seq<char>, c: Seq<char>)
    requires
        !text_lt(a, b),
        !text_lt(b, c),
    ensures
        !text_lt(a, c),
{
    lemma_text_lt_trichotomy(a, b);
    lemma_text_lt_trichotomy(b, c);
    if text_lt(a, c) && a != b && b != c {
        lemma_text_lt_transitive(c, b, a);
        lemma_text_lt_transitive(a, c, a);
        lemma_text_lt_irreflexive(a);
    }
}

/// `s` is in the order of `o`: no row sorts before an earlier one.
pub open spec fn is_ordered(s: Seq<UserView>, o: Order) -> bool {
    forall|i: int, j: int| 0 <= i < j < s.len() ==> !goes_before(#[trigger] s[j], #[trigger] s[i], o)
}

proof fn lemma_insert_keeps_order(s: Seq<UserView>, x: UserView, o: Order)
    requires
        is_ordered(s, o),
    ensures
        is_ordered(insert_sorted(s, x, o), o),
    decreases s.len(),
{
    if s.len() > 0 {
        let d = s.drop_last();
        let last = s.last();
        let kx = field_value(x, o.field@);
        let kl = field_value(last, o.field@);
        assert(is_ordered(d, o)) by {
            assert forall|i: int, j: int| 0 <= i < j < d.len() implies !goes_before(#[trigger] d[j], #[trigger] d[i], o) by {
                assert(d[i] == s[i] && d[j] == s[j]);
            }
        }
        if goes_before(x, last, o) {
            lemma_insert_keeps_order(d, x, o);
            lemma_insert_within(d, x, o);
            let inner = insert_sorted(d, x, o);
            let out = inner.push(last);
            assert forall|i: int, j: int| 0 <= i < j < out.len() implies !goes_before(#[trigger] out[j], #[trigger] out[i], o) by {
                if j == out.len() - 1 {
                    let e = inner[i];
                    if e == x {
                        lemma_text_lt_irreflexive(kx);
                        lemma_text_lt_irreflexive(kl);
                        match o.ty {
                            OrderType::ASC => if text_lt(kl, kx) {
                                lemma_text_lt_transitive(kx, kl, kx);
                            },
                            OrderType::DESC => if text_lt(kx, kl) {
                                lemma_text_lt_transitive(kl, kx, kl);
                            },
                        }
                    } else {
                        let k = choose|k: int| 0 <= k < d.len() && d[k] == e;
                        assert(s[k] == e && s[s.len() - 1] == last);
                    }
                } else {
                    assert(out[i] == inner[i] && out[j] == inner[j]);
                }
            }
        } else {
            let out = s.push(x);
            assert forall|i: int, j: int| 0 <= i < j < out.len() implies !goes_before(#[trigger] out[j], #[trigger] out[i], o) by {
                if j == out.len() - 1 {
                    let e = s[i];
                    let ke = field_value(e, o.field@);
                    assert(s[s.len() - 1] == last);
                    lemma_text_lt_irreflexive(kl);
                    if i < s.len() - 1 {
                        assert(!goes_before(s[s.len() - 1], s[i], o));
                    }
                    match o.ty {
                        OrderType::ASC => lemma_text_not_lt_chain(kx, kl, ke),
                        OrderType::DESC => lemma_text_not_lt_chain(ke, kl, kx),
                    }
                } else {
                    assert(out[i] == s[i] && out[j] == s[j]);
                }
            }
        }
    }
}

/// The sort puts rows in the order of `o`.
pub proof fn lemma_sorted_by_is_ordered(s: Seq<UserView>, o: Order)
    ensures
        is_ordered(sorted_by(s, o), o),
    decreases s.len(),
{
    if s.len() > 0 {
        lemma_sorted_by_is_ordered(s.drop_last(), o);
        lemma_insert_keeps_order(sorted_by(s.drop_last(), o), s.last(), o);
    }
}

proof fn lemma_insert_adds_one(s: Seq<UserView>, x: UserView, o: Order)
    ensures
        insert_sorted(s, x, o).to_multiset() == s.to_multiset().insert(x),
    decreases s.len(),
{
    broadcast use vstd::seq_lib::to_multiset_build;
    broadcast use vstd::multiset::group_multiset_axioms;
    if s.len() == 0 {
        assert(s =~= Seq::<UserView>::empty());
        assert(seq![x] =~= s.push(x));
    } else {
        let d = s.drop_last();
        assert(d.push(s.last()) =~= s);
        if goes_before(x, s.last(), o) {
            lemma_insert_adds_one(d, x, o);
            assert(insert_sorted(s, x, o).to_multiset() =~= s.to_multiset().insert(x));
        }
    }
}

/// The sort keeps every row, as often as it occurs.
pub proof fn lemma_sorted_by_permutes(s: Seq<UserView>, o: Order)
    ensures
        sorted_by(s, o).to_multiset() == s.to_multiset(),
    decreases s.len(),
{
    broadcast use vstd::seq_lib::to_multiset_build;
    if s.len() > 0 {
        let d = s.drop_last();
        lemma_sorted_by_permutes(d, o);
        lemma_insert_adds_one(sorted_by(d, o), s.last(), o);
        assert(d.push(s.last()) =~= s);
    }
}

/// Whether `u` meets every filter of `fs`.
pub fn holds_all(fs: &Vec<Filter>, u: &User) -> (r: bool)
    ensures
        r == all_hold(fs@, u@),
{
    let mut i: usize = 0;
    while i < fs.len()
        invariant
            i <= fs@.len(),
            forall|j: int| 0 <= j < i ==> filter_holds(#[trigger] fs@[j], u@),
        decreases fs.len() - i,
    {
        if !holds(&fs[i], u) {
            return false;
        }
        i += 1;
    }
    true
}

/// Copies of the users that meet every filter, in their order.
pub fn select(users: &Vec<User>, fs: &Vec<Filter>) -> (r: Vec<User>)
    ensures
        views(r@) == selected(views(users@), fs@),
{
    let mut out: Vec<User> = Vec::new();
    let mut i: usize = 0;
    let ghost pred = |u: UserView| all_hold(fs@, u);
    while i < users.len()
        invariant
            i <= users@.len(),
            pred == (|u: UserView| all_hold(fs@, u)),
            views(out@) == views(users@).take(i as int).filter(pred),
        decreases users.len() - i,
    {
        let keep = holds_all(fs, &users[i]);
        proof {
            let t = views(users@).take(i + 1);
            assert(t.drop_last() =~= views(users@).take(i as int));
            assert(t.last() == users@[i as int]@);
            reveal(Seq::filter);
        }
        if keep {
            let u = users[i].duplicate();
            out.push(u);
            assert(views(out@) =~= views(users@).take(i + 1).filter(pred));
        } else {
            assert(views(out@) =~= views(users@).take(i + 1).filter(pred));
        }
        i += 1;
    }
    assert(views(users@).take(users@.len() as int) =~= views(users@));
    out
}


/// Inserting after the last row that `x` does not sort before.
proof fn lemma_insert_at(s: Seq<UserView>, x: UserView, o: Order, p: int)
    requires
        0 <= p <= s.len(),
        p == 0 || !goes_before(x, s[p - 1], o),
        forall|q: int| p <= q < s.len() ==> goes_before(x, #[trigger] s[q], o),
    ensures
        insert_sorted(s, x, o) == s.take(p).push(x) + s.skip(p),
    decreases s.len(),
{
    if s.len() == 0 {
        assert(s.take(p).push(x) + s.skip(p) =~= seq![x]);
    } else if p == s.len() {
        assert(!goes_before(x, s.last(), o));
        assert(s.take(p).push(x) + s.skip(p) =~= s.push(x));
    } else {
        assert(goes_before(x, s[s.len() - 1], o));
        let d = s.drop_last();
        assert forall|q: int| p <= q < d.len() implies goes_before(x, #[trigger] d[q], o) by {
            assert(d[q] == s[q]);
        }
        if p > 0 {
            assert(d[p - 1] == s[p - 1]);
        }
        lemma_insert_at(d, x, o, p);
        assert(d.take(p).push(x) + d.skip(p) + seq![s.last()] =~= s.take(p).push(x) + s.skip(p));
        assert(insert_sorted(d, x, o).push(s.last()) =~= insert_sorted(d, x, o) + seq![s.last()]);
    }
}

/// Whether `x` sorts strictly before `y` under `o`.
fn before(x: &User, y: &User, o: &Order) -> (r: bool)
    ensures
        r == goes_before(x@, y@, *o),
{
    let kx = chars_of(field_of(x, o.field.as_str()));
    let ky = chars_of(field_of(y, o.field.as_str()));
    match o.ty {
        OrderType::ASC => text_less(&kx, &ky),
        OrderType::DESC => text_less(&ky, &kx),
    }
}

/// The stable sort of `users` under `o`.
pub fn sort_users(users: &Vec<User>, o: &Order) -> (r: Vec<User>)
    ensures
        views(r@) == sorted_by(views(users@), *o),
{
    let ghost all = views(users@);
    let mut out: Vec<User> = Vec::new();
    let mut i: usize = 0;
    assert(all.take(0) =~= Seq::<UserView>::empty());
    while i < users.len()
        invariant
            all == views(users@),
            i <= users@.len(),
            views(out@) == sorted_by(all.take(i as int), *o),
        decreases users.len() - i,
    {
        let x = users[i].duplicate();
        let mut p: usize = out.len();
        while p > 0 && before(&x, &out[p - 1], o)
            invariant
                p <= out@.len(),
                forall|q: int| p <= q < out@.len() ==> goes_before(x@, #[trigger] views(out@)[q], *o),
            decreases p,
        {
            p -= 1;
        }
        proof {
            if p > 0 {
                assert(!goes_before(x@, views(out@)[p - 1], *o));
            }
            lemma_insert_at(views(out@), x@, *o, p as int);
            let t = all.take(i + 1);
            assert(t.drop_last() =~= all.take(i as int));
            assert(t.last() == x@);
        }
        let ghost out_before = views(out@);
        out.insert(p, x);
        proof {
            assert(views(out@) =~= out_before.take(p as int).push(x@) + out_before.skip(p as int));
        }
        i += 1;
    }
    assert(all.take(users@.len() as int) =~= all);
    out
}

/// Skips `offset` users, then keeps at most `limit`.
pub fn page(users: Vec<User>, limit: Option<u32>, offset: Option<u32>) -> (r: Vec<User>)
    ensures
        views(r@) == paged(views(users@), limit, offset),
{
    let n = users.len();
    let start: usize = match offset {
        Some(k) => if k as usize >= n {
            n
        } else {
            k as usize
        },
        None => 0,
    };
    let end: usize = match limit {
        Some(k) => if (k as usize) < n - start {
            start + k as usize
        } else {
            n
        },
        None => n,
    };
    let mut out: Vec<User> = Vec::new();
    let mut i: usize = start;
    while i < end
        invariant
            start <= i <= end <= n,
            n == users@.len(),
            views(out@) == views(users@).subrange(start as int, i as int),
        decreases end - i,
    {
        let ghost out_before = views(out@);
        let u = users[i].duplicate();
        out.push(u);
        assert(views(out@) =~= out_before.push(users@[i as int]@));
        assert(views(out@) =~= views(users@).subrange(start as int, i + 1));
        i += 1;
    }
    assert(views(out@) =~= paged(views(users@), limit, offset));
    out
}

/// The users that `c` selects, sorted and paged.
pub fn evaluate(users: &Vec<User>, c: &Criteria) -> (r: Vec<User>)
    ensures
        views(r@) == criteria_result(views(users@), *c),
{
    let chosen = select(users, &c.filters);
    let arranged_users = match &c.order {
        Some(o) => sort_users(&chosen, o),
        None => chosen,
    };
    page(arranged_users, c.limit, c.offset)
}


/// Every row of `a` is a row of `b`.
pub open spec fn within(a: Seq<UserView>, b: Seq<UserView>) -> bool {
    forall|i: int| 0 <= i < a.len() ==> b.contains(#[trigger] a[i])
}

proof fn lemma_filter_within(s: Seq<UserView>, pred: spec_fn(UserView) -> bool)
    ensures
        within(s.filter(pred), s),
    decreases s.len(),
{
    reveal(Seq::filter);
    if s.len() > 0 {
        let d = s.drop_last();
        lemma_filter_within(d, pred);
        let out = s.filter(pred);
        assert forall|i: int| 0 <= i < out.len() implies s.contains(#[trigger] out[i]) by {
            if i < d.filter(pred).len() {
                let k = choose|k: int| 0 <= k < d.len() && d[k] == d.filter(pred)[i];
                assert(s[k] == d[k]);
            } else {
                assert(out[i] == s[s.len() - 1]);
            }
        }
    }
}

proof fn lemma_insert_within(s: Seq<UserView>, x: UserView, o: Order)
    ensures
        forall|i: int| 0 <= i < insert_sorted(s, x, o).len() ==> (s.contains(#[trigger] insert_sorted(s, x, o)[i]) || insert_sorted(s, x, o)[i] == x),
    decreases s.len(),
{
    if s.len() > 0 {
        let d = s.drop_last();
        lemma_insert_within(d, x, o);
        let out = insert_sorted(s, x, o);
        assert forall|i: int| 0 <= i < out.len() implies (s.contains(#[trigger] out[i]) || out[i] == x) by {
            if goes_before(x, s.last(), o) {
                let inner = insert_sorted(d, x, o);
                if i < inner.len() {
                    assert(out[i] == inner[i]);
                    if inner[i] != x {
                        let k = choose|k: int| 0 <= k < d.len() && d[k] == inner[i];
                        assert(s[k] == d[k]);
                    }
                } else {
                    assert(out[i] == s[s.len() - 1]);
                }
            } else {
                if i < s.len() {
                    assert(out[i] == s[i]);
                }
            }
        }
    }
}

proof fn lemma_sorted_within(s: Seq<UserView>, o: Order)
    ensures
        within(sorted_by(s, o), s),
    decreases s.len(),
{
    if s.len() > 0 {
        let d = s.drop_last();
        lemma_sorted_within(d, o);
        lemma_insert_within(sorted_by(d, o), s.last(), o);
        let out = sorted_by(s, o);
        assert forall|i: int| 0 <= i < out.len() implies s.contains(#[trigger] out[i]) by {
            if out[i] == s.last() {
                assert(s[s.len() - 1] == s.last());
            } else {
                let k = choose|k: int| 0 <= k < sorted_by(d, o).len() && sorted_by(d, o)[k] == out[i];
                let m = choose|m: int| 0 <= m < d.len() && d[m] == sorted_by(d, o)[k];
                assert(s[m] == d[m]);
            }
        }
    }
}

/// A criteria query returns stored rows only.
pub proof fn lemma_result_rows_are_stored(rows: Seq<UserView>, c: Criteria)
    ensures
        within(criteria_result(rows, c), rows),
{
    let sel = selected(rows, c.filters@);
    lemma_filter_within(rows, |u: UserView| all_hold(c.filters@, u));
    let arr = arranged(sel, c.order);
    if c.order is Some {
        lemma_sorted_within(sel, c.order->0);
    }
    assert(within(arr, rows)) by {
        assert forall|i: int| 0 <= i < arr.len() implies rows.contains(#[trigger] arr[i]) by {
            let k = choose|k: int| 0 <= k < sel.len() && sel[k] == arr[i];
            assert(rows.contains(sel[k]));
        }
    }
    let out = criteria_result(rows, c);
    assert forall|i: int| 0 <= i < out.len() implies rows.contains(#[trigger] out[i]) by {
        let start = match c.offset {
            Some(n) => if n as int >= arr.len() {
                arr.len() as int
            } else {
                n as int
            },
            None => 0,
        };
        assert(out[i] == arr[start + i]);
    }
}

} // verus!
