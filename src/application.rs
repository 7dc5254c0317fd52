use vstd::prelude::*;
use crate::criteria::Criteria;
use crate::query::shape_error;
use crate::repository::{
    has_id, replaced, without_id, CriteriaRepositoryErrors, RepositoryErrors,
    UserCriteriaRepository, UserRepository, USER_QUERYABLE_FIELDS,
};
use crate::user::{create_rejection, fields_rejection, text_of, User, UserErrors, UserView};
use crate::user_id::{id_verdict, uuid_bytes_of, UserID, UserIDErrors};
use crate::user_password::{is_hash_of, MAX_PASSWORD_CHARS};

verus! {

#[derive(Debug)]
pub enum UserRegisterErrors {
    /// A user with this id is already registered.
    AlreadyExists,
    InternalServerError,
    UserError { source: UserErrors },
}

impl From<RepositoryErrors> for UserRegisterErrors {
    fn from(value: RepositoryErrors) -> Self {
        match value {
            RepositoryErrors::AlreadyExists => UserRegisterErrors::AlreadyExists,
            RepositoryErrors::InternalServerError { .. } => UserRegisterErrors::InternalServerError,
        }
    }
}

impl vstd::std_specs::convert::FromSpecImpl<RepositoryErrors> for UserRegisterErrors {
    open spec fn obeys_from_spec() -> bool {
        true
    }

    open spec fn from_spec(value: RepositoryErrors) -> Self {
        match value {
            RepositoryErrors::AlreadyExists => UserRegisterErrors::AlreadyExists,
            RepositoryErrors::InternalServerError { .. } => UserRegisterErrors::InternalServerError,
        }
    }
}

#[derive(Debug)]
#[allow(inconsistent_fields)]
pub enum UserFindErrors {
    InternalServerError { source: Option<String> },
    UserIDError { source: UserIDErrors },
}

impl From<RepositoryErrors> for UserFindErrors {
    fn from(value: RepositoryErrors) -> Self {
        match value {
            RepositoryErrors::InternalServerError { source } => UserFindErrors::InternalServerError {
                source: Some(source),
            },
            RepositoryErrors::AlreadyExists => UserFindErrors::InternalServerError { source: None },
        }
    }
}

impl vstd::std_specs::convert::FromSpecImpl<RepositoryErrors> for UserFindErrors {
    open spec fn obeys_from_spec() -> bool {
        true
    }

    open spec fn from_spec(value: RepositoryErrors) -> Self {
        match value {
            RepositoryErrors::InternalServerError { source } => UserFindErrors::InternalServerError {
                source: Some(source),
            },
            RepositoryErrors::AlreadyExists => UserFindErrors::InternalServerError { source: None },
        }
    }
}

#[derive(Debug)]
#[allow(inconsistent_fields)]
pub enum UserDeleteErrors {
    InternalServerError { source: Option<String> },
    UserIDError { source: UserIDErrors },
}

impl From<RepositoryErrors> for UserDeleteErrors {
    fn from(value: RepositoryErrors) -> Self {
        match value {
            RepositoryErrors::InternalServerError { source } => UserDeleteErrors::InternalServerError {
                source: Some(source),
            },
            RepositoryErrors::AlreadyExists => UserDeleteErrors::InternalServerError { source: None },
        }
    }
}

impl vstd::std_specs::convert::FromSpecImpl<RepositoryErrors> for UserDeleteErrors {
    open spec fn obeys_from_spec() -> bool {
        true
    }

    open spec fn from_spec(value: RepositoryErrors) -> Self {
        match value {
            RepositoryErrors::InternalServerError { source } => UserDeleteErrors::InternalServerError {
                source: Some(source),
            },
            RepositoryErrors::AlreadyExists => UserDeleteErrors::InternalServerError { source: None },
        }
    }
}

#[derive(Debug)]
#[allow(inconsistent_fields)]
pub enum UserUpdateErrors {
    InternalServerError { source: Option<String> },
    UserError { source: UserErrors },
    /// No user of the id is stored.
    NotFound,
}

impl From<RepositoryErrors> for UserUpdateErrors {
    fn from(value: RepositoryErrors) -> Self {
        match value {
            RepositoryErrors::InternalServerError { source } => UserUpdateErrors::InternalServerError {
                source: Some(source),
            },
            RepositoryErrors::AlreadyExists => UserUpdateErrors::InternalServerError { source: None },
        }
    }
}

impl vstd::std_specs::convert::FromSpecImpl<RepositoryErrors> for UserUpdateErrors {
    open spec fn obeys_from_spec() -> bool {
        true
    }

    open spec fn from_spec(value: RepositoryErrors) -> Self {
        match value {
            RepositoryErrors::InternalServerError { source } => UserUpdateErrors::InternalServerError {
                source: Some(source),
            },
            RepositoryErrors::AlreadyExists => UserUpdateErrors::InternalServerError { source: None },
        }
    }
}

#[derive(Debug)]
pub enum UserCriteriaErrors {
    InternalServerError { source: Option<String> },
    FieldNotFound(String),
}

impl From<CriteriaRepositoryErrors> for UserCriteriaErrors {
    fn from(value: CriteriaRepositoryErrors) -> Self {
        match value {
            CriteriaRepositoryErrors::InternalServerError { source } => {
                UserCriteriaErrors::InternalServerError { source: Some(source) }
            },
            CriteriaRepositoryErrors::FieldNotFound(field) => UserCriteriaErrors::FieldNotFound(field),
        }
    }
}

impl vstd::std_specs::convert::FromSpecImpl<CriteriaRepositoryErrors> for UserCriteriaErrors {
    open spec fn obeys_from_spec() -> bool {
        true
    }

    open spec fn from_spec(value: CriteriaRepositoryErrors) -> Self {
        match value {
            CriteriaRepositoryErrors::InternalServerError { source } => {
                UserCriteriaErrors::InternalServerError { source: Some(source) }
            },
            CriteriaRepositoryErrors::FieldNotFound(field) => UserCriteriaErrors::FieldNotFound(field),
        }
    }
}


/// Registers new users.
pub trait UserRegister {
    fn register(&mut self, uuid: &str, name: &str, password: &str, email: &str) -> Result<
        (),
        UserRegisterErrors,
    >
        requires
            password@.len() <= MAX_PASSWORD_CHARS,
    ;
}

pub struct UserRegisterService<R> {
    pub user_repository: R,
}

impl<R: UserRepository> UserRegister for UserRegisterService<R> {
    /// Validates the fields (id, name, password, email, first failure
    /// reported), hashes the password and stores the user. A taken id is a
    /// conflict, never an internal error.
    fn register(&mut self, uuid: &str, name: &str, password: &str, email: &str) -> (r: Result<
        (),
        UserRegisterErrors,
    >)
        ensures
            create_rejection(uuid@, name@, password@, email@) is Some ==> r == Err::<(), _>(
                UserRegisterErrors::UserError {
                    source: create_rejection(uuid@, name@, password@, email@)->0,
                },
            ),
            create_rejection(uuid@, name@, password@, email@) is None && has_id(
                old(self).user_repository.rows(),
                uuid@,
            ) ==> r matches Err(UserRegisterErrors::AlreadyExists),
            r matches Err(UserRegisterErrors::UserError { source }) ==> create_rejection(
                uuid@,
                name@,
                password@,
                email@,
            ) == Some(source),
            r is Ok ==> {
                let rows = final(self).user_repository.rows();
                &&& !has_id(old(self).user_repository.rows(), uuid@)
                &&& rows.len() == old(self).user_repository.rows().len() + 1
                &&& rows.drop_last() == old(self).user_repository.rows()
                &&& rows.last().id == uuid@
                &&& rows.last().name == name@
                &&& rows.last().email == email@
                &&& is_hash_of(rows.last().password, password@)
            },
            r is Err ==> final(self).user_repository.rows() == old(self).user_repository.rows(),
    {
        let user = match User::create(uuid, name, password, email) {
            Ok(u) => u,
            Err(e) => return Err(UserRegisterErrors::UserError { source: e }),
        };
        match self.user_repository.save(&user) {
            Ok(()) => {
                assert(self.user_repository.rows().drop_last() =~= old(self).user_repository.rows());
                Ok(())
            },
            Err(e) => Err(UserRegisterErrors::from(e)),
        }
    }
}

/// Looks users up.
pub trait UserFind {
    fn find_by(&self, id: &str) -> Result<Option<User>, UserFindErrors>;

    fn get_all(&self) -> Vec<User>;
}

pub struct UserFindService<R> {
    pub user_repository: R,
}

impl<R: UserRepository> UserFind for UserFindService<R> {
    /// The stored user of `id`; an `id` that is no version 7 UUID is refused.
    fn find_by(&self, id: &str) -> (r: Result<Option<User>, UserFindErrors>)
        ensures
            id_verdict(uuid_bytes_of(id@)) is Err ==> (r matches Err(UserFindErrors::UserIDError { source })
                && id_verdict(uuid_bytes_of(id@)) == Err::<(), _>(source)),
            id_verdict(uuid_bytes_of(id@)) is Ok ==> r is Ok,
            r matches Err(UserFindErrors::UserIDError { source }) ==> id_verdict(uuid_bytes_of(id@))
                == Err::<(), _>(source),
            r matches Ok(Some(u)) ==> u@.id == id@ && self.user_repository.rows().contains(u@),
            r is Ok && !has_id(self.user_repository.rows(), id@) ==> r matches Ok(None),
    {
        match UserID::try_create(id) {
            Ok(uid) => Ok(self.user_repository.find_by(&uid)),
            Err(e) => Err(UserFindErrors::UserIDError { source: e }),
        }
    }

    fn get_all(&self) -> (r: Vec<User>)
        ensures
            forall|i: int| 0 <= i < r@.len() ==> self.user_repository.rows().contains(#[trigger] r@[i]@),
    {
        self.user_repository.get_all()
    }
}

/// Removes users.
pub trait UserDelete {
    fn delete_by(&mut self, id: &str) -> Result<(), UserDeleteErrors>;
}

pub struct UserDeleteService<R> {
    pub user_repository: R,
}

impl<R: UserRepository> UserDelete for UserDeleteService<R> {
    /// Removes the user of `id`; an `id` that is no version 7 UUID is refused.
    fn delete_by(&mut self, id: &str) -> (r: Result<(), UserDeleteErrors>)
        ensures
            id_verdict(uuid_bytes_of(id@)) is Err ==> (r matches Err(UserDeleteErrors::UserIDError { source })
                && id_verdict(uuid_bytes_of(id@)) == Err::<(), _>(source)),
            r matches Err(UserDeleteErrors::UserIDError { source }) ==> id_verdict(uuid_bytes_of(id@))
                == Err::<(), _>(source),
            r is Ok ==> final(self).user_repository.rows() == without_id(
                old(self).user_repository.rows(),
                id@,
            ),
            r is Err ==> final(self).user_repository.rows() == old(self).user_repository.rows(),
    {
        let uid = match UserID::try_create(id) {
            Ok(uid) => uid,
            Err(e) => return Err(UserDeleteErrors::UserIDError { source: e }),
        };
        match self.user_repository.delete_by(&uid) {
            Ok(()) => Ok(()),
            Err(e) => Err(UserDeleteErrors::from(e)),
        }
    }
}

/// `next` is `prev` with the supplied fields replaced; a new password is
/// stored as its Argon2 hash.
pub open spec fn updated_from(
    prev: UserView,
    next: UserView,
    name: Option<Seq<char>>,
    password: Option<Seq<char>>,
    email: Option<Seq<char>>,
) -> bool {
    &&& next.id == prev.id
    &&& next.name == (if name is Some { name->0 } else { prev.name })
    &&& next.email == (if email is Some { email->0 } else { prev.email })
    &&& password is None ==> next.password == prev.password
    &&& password is Some ==> is_hash_of(next.password, password->0)
}

/// Changes stored users.
pub trait UserUpdate {
    fn update(&mut self, id: &str, name: Option<&str>, password: Option<&str>, email: Option<&str>) -> Result<
        (),
        UserUpdateErrors,
    >
        requires
            password is Some ==> password->0@.len() <= MAX_PASSWORD_CHARS,
    ;
}

pub struct UserUpdateService<R> {
    pub user_repository: R,
}

impl<R: UserRepository> UserUpdate for UserUpdateService<R> {
    /// Reads the user of `id`, replaces the supplied fields (each checked
    /// anew) and writes it back.
    fn update(&mut self, id: &str, name: Option<&str>, password: Option<&str>, email: Option<&str>) -> (r:
        Result<(), UserUpdateErrors>)
        ensures
            id_verdict(uuid_bytes_of(id@)) is Err ==> r == Err::<(), _>(UserUpdateErrors::UserError {
                source: UserErrors::UserIDError { source: id_verdict(uuid_bytes_of(id@))->Err_0 },
            }),
            id_verdict(uuid_bytes_of(id@)) is Ok && !has_id(old(self).user_repository.rows(), id@)
                ==> r matches Err(UserUpdateErrors::NotFound),
            id_verdict(uuid_bytes_of(id@)) is Ok ==> (r matches Err(UserUpdateErrors::UserError { source })
                ==> fields_rejection(text_of(name), text_of(password), text_of(email)) == Some(source)),
            id_verdict(uuid_bytes_of(id@)) is Ok && fields_rejection(text_of(name), text_of(password), text_of(email)) is Some
                ==> r is Err,
            r is Ok ==> exists|prev: UserView, next: UserView|
                {
                    &&& old(self).user_repository.rows().contains(prev)
                    &&& prev.id == id@
                    &&& updated_from(prev, next, text_of(name), text_of(password), text_of(email))
                    &&& final(self).user_repository.rows() == replaced(old(self).user_repository.rows(), next)
                },
            r is Err ==> final(self).user_repository.rows() == old(self).user_repository.rows(),
    {
        let uid = match UserID::try_create(id) {
            Ok(uid) => uid,
            Err(e) => return Err(UserUpdateErrors::UserError { source: UserErrors::UserIDError { source: e } }),
        };
        let current = match self.user_repository.find_by(&uid) {
            Some(u) => u,
            None => return Err(UserUpdateErrors::NotFound),
        };
        let ghost prev = current@;
        let user = match current.update(name, password, email) {
            Ok(u) => u,
            Err(e) => return Err(UserUpdateErrors::UserError { source: e }),
        };
        match self.user_repository.update(&user) {
            Ok(()) => {
                assert(updated_from(prev, user@, text_of(name), text_of(password), text_of(email)));
                Ok(())
            },
            Err(e) => Err(UserUpdateErrors::from(e)),
        }
    }
}

/// Runs criteria queries.
pub trait UserCriteria {
    fn find_by(&self, criteria: &Criteria) -> Result<Vec<User>, UserCriteriaErrors>;
}

pub struct UserCriteriaService<R> {
    pub user_repository: R,
}

impl<R: UserCriteriaRepository> UserCriteria for UserCriteriaService<R> {
    /// The users that `criteria` selects; a field outside the queryable ones
    /// is reported by name.
    fn find_by(&self, criteria: &Criteria) -> (r: Result<Vec<User>, UserCriteriaErrors>)
        ensures
            shape_error(USER_QUERYABLE_FIELDS@, *criteria) is Some ==> (r matches Err(
                UserCriteriaErrors::FieldNotFound(f),
            ) && f@ == shape_error(USER_QUERYABLE_FIELDS@, *criteria)->0),
            r matches Ok(v) ==> forall|i: int|
                0 <= i < v@.len() ==> self.user_repository.criteria_rows().contains(#[trigger] v@[i]@),
    {
        match self.user_repository.find_by(criteria) {
            Ok(v) => Ok(v),
            Err(e) => Err(UserCriteriaErrors::from(e)),
        }
    }
}

} // verus!
