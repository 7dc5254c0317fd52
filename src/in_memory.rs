use vstd::prelude::*;
use crate::criteria::Criteria;
use crate::matching::{criteria_result, evaluate, lemma_result_rows_are_stored};
use crate::query::{build_query, shape_error};
use crate::repository::{
    has_id, replaced, views, CriteriaRepositoryErrors, RepositoryErrors,
    UserCriteriaRepository, UserRepository, USER_QUERYABLE_FIELDS, USER_TABLE_NAME,
};
use crate::text::text_eq;
use crate::user::{User, UserView};
use crate::user_id::UserID;

verus! {

/// Users kept in memory, in the order of their insertion.
#[derive(Debug)]
pub struct InMemoryUserRepository {
    users: Vec<User>,
}

impl InMemoryUserRepository {
    pub closed spec fn stored(&self) -> Seq<UserView> {
        views(self.users@)
    }

    pub fn new() -> (r: InMemoryUserRepository)
        ensures
            r.stored() == Seq::<UserView>::empty(),
    {
        let r = InMemoryUserRepository { users: Vec::new() };
        assert(r.stored() =~= Seq::<UserView>::empty());
        r
    }

    /// The position of the first stored user of `id`.
    fn position_of(&self, id: &str) -> (r: Option<usize>)
        ensures
            match r {
                Some(i) => i < self.stored().len() && self.stored()[i as int].id == id@,
                None => !has_id(self.stored(), id@),
            },
    {
        let mut i: usize = 0;
        while i < self.users.len()
            invariant
                i <= self.users@.len(),
                forall|j: int| 0 <= j < i ==> (#[trigger] self.users@[j])@.id != id@,
            decreases self.users.len() - i,
        {
            if text_eq(self.users[i].get_id(), id) {
                return Some(i);
            }
            i += 1;
        }
        proof {
            assert forall|j: int| 0 <= j < self.stored().len() implies (#[trigger] self.stored()[j]).id != id@ by {
                assert(self.stored()[j] == self.users@[j]@);
            }
        }
        None
    }
}

impl UserRepository for InMemoryUserRepository {
    open spec fn rows(&self) -> Seq<UserView> {
        self.stored()
    }

    fn save(&mut self, user: &User) -> (r: Result<(), RepositoryErrors>)
        ensures
            has_id(old(self).rows(), user@.id) <==> r matches Err(RepositoryErrors::AlreadyExists),
            !has_id(old(self).rows(), user@.id) <==> r is Ok,
    {
        match self.position_of(user.get_id()) {
            Some(_) => Err(RepositoryErrors::AlreadyExists),
            None => {
                let ghost before = views(self.users@);
                self.users.push(user.duplicate());
                assert(views(self.users@) =~= before.push(user@));
                Ok(())
            },
        }
    }

    fn find_by(&self, id: &UserID) -> (r: Option<User>)
        ensures
            r is Some <==> has_id(self.rows(), id@),
    {
        self.find_user(id)
    }

    fn get_all(&self) -> (r: Vec<User>)
        ensures
            views(r@) == self.rows(),
    {
        let mut out: Vec<User> = Vec::new();
        let mut i: usize = 0;
        while i < self.users.len()
            invariant
                i <= self.users@.len(),
                views(out@) == views(self.users@).take(i as int),
            decreases self.users.len() - i,
        {
            let ghost before = views(out@);
            let u = self.users[i].duplicate();
            out.push(u);
            assert(views(out@) =~= before.push(self.users@[i as int]@));
            assert(views(out@) =~= views(self.users@).take(i + 1));
            i += 1;
        }
        assert(views(self.users@).take(self.users@.len() as int) =~= views(self.users@));
        proof {
            assert forall|k: int| 0 <= k < out@.len() implies self.rows().contains(#[trigger] out@[k]@) by {
                assert(self.rows()[k] == out@[k]@);
            }
        }
        out
    }

    fn delete_by(&mut self, id: &UserID) -> (r: Result<(), RepositoryErrors>)
        ensures
            r is Ok,
    {
        let ghost pred = |u: UserView| u.id != id@;
        let mut out: Vec<User> = Vec::new();
        let mut i: usize = 0;
        while i < self.users.len()
            invariant
                i <= self.users@.len(),
                pred == (|u: UserView| u.id != id@),
                views(out@) == views(self.users@).take(i as int).filter(pred),
            decreases self.users.len() - i,
        {
            let keep = !text_eq(self.users[i].get_id(), id.get());
            proof {
                let t = views(self.users@).take(i + 1);
                assert(t.drop_last() =~= views(self.users@).take(i as int));
                assert(t.last() == self.users@[i as int]@);
                reveal(Seq::filter);
            }
            if keep {
                out.push(self.users[i].duplicate());
                assert(views(out@) =~= views(self.users@).take(i + 1).filter(pred));
            } else {
                assert(views(out@) =~= views(self.users@).take(i + 1).filter(pred));
            }
            i += 1;
        }
        assert(views(self.users@).take(self.users@.len() as int) =~= views(self.users@));
        self.users = out;
        Ok(())
    }

    fn update(&mut self, user: &User) -> (r: Result<(), RepositoryErrors>)
        ensures
            r is Ok,
    {
        let ghost rows0 = views(self.users@);
        let mut out: Vec<User> = Vec::new();
        let mut i: usize = 0;
        while i < self.users.len()
            invariant
                rows0 == views(self.users@),
                i <= self.users@.len(),
                views(out@) == replaced(rows0.take(i as int), user@),
            decreases self.users.len() - i,
        {
            let u = if text_eq(self.users[i].get_id(), user.get_id()) {
                user.duplicate()
            } else {
                self.users[i].duplicate()
            };
            let ghost before = views(out@);
            let ghost row = rows0[i as int];
            assert(u@ == (if row.id == user@.id { user@ } else { row }));
            out.push(u);
            assert(views(out@) =~= before.push(u@));
            assert(replaced(rows0.take(i + 1), user@) =~= replaced(rows0.take(i as int), user@).push(u@));
            assert(views(out@) =~= replaced(rows0.take(i + 1), user@));
            i += 1;
        }
        assert(rows0.take(rows0.len() as int) =~= rows0);
        self.users = out;
        Ok(())
    }
}

impl InMemoryUserRepository {
    /// The stored user of `id`, if there is one.
    pub fn find_user(&self, id: &UserID) -> (r: Option<User>)
        ensures
            r is Some <==> has_id(self.stored(), id@),
            r matches Some(u) ==> u@.id == id@ && self.stored().contains(u@),
    {
        match self.position_of(id.get()) {
            Some(i) => {
                let u = self.users[i].duplicate();
                assert(self.stored()[i as int] == u@);
                Some(u)
            },
            None => None,
        }
    }

    /// The stored users that `criteria` selects, sorted and paged, or the
    /// first field outside `USER_QUERYABLE_FIELDS`.
    pub fn search(&self, criteria: &Criteria) -> (r: Result<Vec<User>, CriteriaRepositoryErrors>)
        ensures
            shape_error(USER_QUERYABLE_FIELDS@, *criteria) is Some ==> (r matches Err(
                CriteriaRepositoryErrors::FieldNotFound(f),
            ) && f@ == shape_error(USER_QUERYABLE_FIELDS@, *criteria)->0),
            shape_error(USER_QUERYABLE_FIELDS@, *criteria) is None ==> (r matches Ok(v)
                && views(v@) == criteria_result(self.stored(), *criteria)),
    {
        match build_query(USER_TABLE_NAME, USER_QUERYABLE_FIELDS.as_slice(), criteria) {
            Err(e) => Err(e),
            Ok(_) => {
                Ok(evaluate(&self.users, criteria))
            },
        }
    }
}

/// Criteria queries over the users of an in-memory repository.
pub struct InMemoryUserCriteria<'a> {
    pub store: &'a InMemoryUserRepository,
}

impl<'a> UserCriteriaRepository for InMemoryUserCriteria<'a> {
    open spec fn criteria_rows(&self) -> Seq<UserView> {
        self.store.stored()
    }

    fn find_by(&self, criteria: &Criteria) -> (r: Result<Vec<User>, CriteriaRepositoryErrors>)
        ensures
            shape_error(USER_QUERYABLE_FIELDS@, *criteria) is None ==> (r matches Ok(v) && views(v@)
                == criteria_result(self.criteria_rows(), *criteria)),
    {
        let r = self.store.search(criteria);
        proof {
            if let Ok(v) = &r {
                lemma_result_rows_are_stored(self.store.stored(), *criteria);
                assert forall|k: int| 0 <= k < v@.len() implies self.criteria_rows().contains(
                    #[trigger] v@[k]@,
                ) by {
                    assert(views(v@)[k] == v@[k]@);
                }
            }
        }
        r
    }
}

} // verus!
