use vstd::prelude::*;
use crate::criteria::Criteria;
use crate::query::shape_error;
use crate::user::{User, UserView};
use crate::user_id::UserID;

verus! {

/// The collection that holds the users.
pub const USER_TABLE_NAME: &'static str = "users";

/// The fields of a user that a criteria query may filter or sort on.
pub const USER_QUERYABLE_FIELDS: [&'static str; 3] = ["id", "name", "email"];

/// Outcomes of a failed repository write.
#[derive(Debug)]
pub enum RepositoryErrors {
    /// A user with the same id is already stored.
    AlreadyExists,
    /// Any other storage failure, with its cause for diagnostics.
    InternalServerError { source: String },
}

/// Outcomes of a failed criteria query.
#[derive(Debug)]
pub enum CriteriaRepositoryErrors {
    /// The storage failed, with its cause for diagnostics.
    InternalServerError { source: String },
    /// The query names a field that may not be queried.
    FieldNotFound(String),
}

/// The storage engine's result code for a violated constraint, such as a
/// second row with the same primary key.
pub const CONSTRAINT_VIOLATION: isize = 19;

/// A storage failure as a repository error: a constraint violation is a
/// conflict, anything else an internal error that keeps its cause.
pub fn repository_error(code: Option<isize>, cause: String) -> (r: RepositoryErrors)
    ensures
        code == Some(CONSTRAINT_VIOLATION) ==> r matches RepositoryErrors::AlreadyExists,
        code != Some(CONSTRAINT_VIOLATION) ==> (r matches RepositoryErrors::InternalServerError { source }
            && source@ == cause@),
{
    match code {
        Some(c) => if c == CONSTRAINT_VIOLATION {
            RepositoryErrors::AlreadyExists
        } else {
            RepositoryErrors::InternalServerError { source: cause }
        },
        None => RepositoryErrors::InternalServerError { source: cause },
    }
}

pub open spec fn has_id(rows: Seq<UserView>, id: Seq<char>) -> bool {
    exists|i: int| 0 <= i < rows.len() && (#[trigger] rows[i]).id == id
}

/// No two rows share an id.
pub open spec fn unique_ids(rows: Seq<UserView>) -> bool {
    forall|i: int, j: int|
        0 <= i < rows.len() && 0 <= j < rows.len() && i != j ==> (#[trigger] rows[i]).id != (
        #[trigger] rows[j]).id
}

/// The rows without the one of `id`.
pub open spec fn without_id(rows: Seq<UserView>, id: Seq<char>) -> Seq<UserView> {
    rows.filter(|u: UserView| u.id != id)
}

/// The rows with the one of `u`'s id replaced by `u`.
pub open spec fn replaced(rows: Seq<UserView>, u: UserView) -> Seq<UserView> {
    rows.map_values(|r: UserView| if r.id == u.id { u } else { r })
}

pub open spec fn views(v: Seq<User>) -> Seq<UserView> {
    v.map_values(|u: User| u@)
}

/// Round trip: once `u` is saved into rows that lack its id, its id is
/// stored, and the one stored user of that id is `u` itself, field by field.
pub proof fn lemma_save_then_find(rows: Seq<UserView>, u: UserView)
    requires
        !has_id(rows, u.id),
    ensures
        has_id(rows.push(u), u.id),
        forall|v: UserView| #[trigger] rows.push(u).contains(v) && v.id == u.id ==> v == u,
{
    assert(rows.push(u)[rows.len() as int] == u);
    assert forall|v: UserView| #[trigger] rows.push(u).contains(v) && v.id == u.id implies v == u by {
        let k = choose|k: int| 0 <= k < rows.push(u).len() && rows.push(u)[k] == v;
        if k < rows.len() {
            assert(rows[k] == v);
        }
    }
}

/// Storage of users, keyed by id.
pub trait UserRepository {
    /// The stored users, in the order of their insertion. The default, an
    /// empty model, is there only so that an implementation outside Verus (a
    /// store over a database) compiles without one. For such an
    /// implementation the contracts below are not met and nothing is proved:
    /// they describe an empty store, in which no `save` succeeds and no
    /// `find_by` finds anything.
    closed spec fn rows(&self) -> Seq<UserView> {
        Seq::empty()
    }

    /// Stores a new user. A user whose id is taken is refused with
    /// `AlreadyExists`; nothing changes on any error.
    fn save(&mut self, user: &User) -> (r: Result<(), RepositoryErrors>)
        ensures
            r is Ok ==> !has_id(old(self).rows(), user@.id) && final(self).rows() == old(
                self,
            ).rows().push(user@),
            r is Err ==> final(self).rows() == old(self).rows(),
            has_id(old(self).rows(), user@.id) ==> r matches Err(RepositoryErrors::AlreadyExists),
            r matches Err(RepositoryErrors::AlreadyExists) ==> has_id(old(self).rows(), user@.id),
    ;

    /// The stored user of `id`; `None` when there is none, or the storage fails.
    fn find_by(&self, id: &UserID) -> (r: Option<User>)
        ensures
            r matches Some(u) ==> u@.id == id@ && self.rows().contains(u@),
            !has_id(self.rows(), id@) ==> r is None,
    ;

    /// The stored users; fewer when the storage fails.
    fn get_all(&self) -> (r: Vec<User>)
        ensures
            forall|i: int| 0 <= i < r@.len() ==> self.rows().contains(#[trigger] r@[i]@),
    ;

    /// Removes the user of `id`, if one is stored.
    fn delete_by(&mut self, id: &UserID) -> (r: Result<(), RepositoryErrors>)
        ensures
            r is Ok ==> final(self).rows() == without_id(old(self).rows(), id@),
            r is Err ==> final(self).rows() == old(self).rows(),
    ;

    /// Replaces the stored user of `user`'s id, if one is stored.
    fn update(&mut self, user: &User) -> (r: Result<(), RepositoryErrors>)
        ensures
            r is Ok ==> final(self).rows() == replaced(old(self).rows(), user@),
            r is Err ==> final(self).rows() == old(self).rows(),
    ;
}

/// Criteria queries over stored users.
pub trait UserCriteriaRepository {
    /// The users that queries run over; the default is there for the same
    /// reason as that of `UserRepository::rows`, with the same caveat.
    closed spec fn criteria_rows(&self) -> Seq<UserView> {
        Seq::empty()
    }

    /// The users that `criteria` selects. A field outside
    /// `USER_QUERYABLE_FIELDS` is refused with `FieldNotFound` before any
    /// statement runs.
    fn find_by(&self, criteria: &Criteria) -> (r: Result<Vec<User>, CriteriaRepositoryErrors>)
        ensures
            shape_error(USER_QUERYABLE_FIELDS@, *criteria) is Some ==> (r matches Err(
                CriteriaRepositoryErrors::FieldNotFound(f),
            ) && f@ == shape_error(USER_QUERYABLE_FIELDS@, *criteria)->0),
            r matches Err(CriteriaRepositoryErrors::FieldNotFound(_)) ==> shape_error(
                USER_QUERYABLE_FIELDS@,
                *criteria,
            ) is Some,
            r matches Ok(v) ==> forall|i: int|
                0 <= i < v@.len() ==> self.criteria_rows().contains(#[trigger] v@[i]@),
    ;
}

} // verus!
