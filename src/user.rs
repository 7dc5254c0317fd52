use vstd::prelude::*;
use crate::user_email::{UserEmail, UserEmailErrors};
use crate::user_id::{id_verdict, uuid_bytes_of, UserID, UserIDErrors};
use crate::user_name::{name_rejection, UserName, UserNameErrors};
use crate::user_password::{
    is_hash_of, is_phc, password_rejection, UserPassword, UserPasswordErrors, MAX_PASSWORD_CHARS,
};
use crate::validation::is_email_shape;

verus! {

/// Which field of a user failed validation, with the field's own error.
#[derive(Debug, PartialEq, Eq, Structural)]
#[allow(inconsistent_fields)]
pub enum UserErrors {
    UserIDError { source: UserIDErrors },
    UserNameError { source: UserNameErrors },
    UserPasswordError { source: UserPasswordErrors },
    UserEmailError { source: UserEmailErrors },
}

/// The four fields of a user as text.
pub struct UserView {
    pub id: Seq<char>,
    pub name: Seq<char>,
    pub password: Seq<char>,
    pub email: Seq<char>,
}

pub open spec fn text_of(o: Option<&str>) -> Option<Seq<char>> {
    match o {
        Some(s) => Some(s@),
        None => None,
    }
}

/// The first failing check among a name, a fresh password and an email, in
/// that order; an absent field is not checked.
pub open spec fn fields_rejection(
    name: Option<Seq<char>>,
    password: Option<Seq<char>>,
    email: Option<Seq<char>>,
) -> Option<UserErrors> {
    if name is Some && name_rejection(name->0) is Some {
        Some(UserErrors::UserNameError { source: name_rejection(name->0)->0 })
    } else if password is Some && password_rejection(password->0) is Some {
        Some(UserErrors::UserPasswordError { source: password_rejection(password->0)->0 })
    } else if email is Some && !is_email_shape(email->0) {
        Some(UserErrors::UserEmailError { source: UserEmailErrors::InvalidEmail })
    } else {
        None
    }
}

/// The first failing check of a new user: id, name, password, email.
pub open spec fn create_rejection(
    id: Seq<char>,
    name: Seq<char>,
    password: Seq<char>,
    email: Seq<char>,
) -> Option<UserErrors> {
    if id_verdict(uuid_bytes_of(id)) is Err {
        Some(UserErrors::UserIDError { source: id_verdict(uuid_bytes_of(id))->Err_0 })
    } else {
        fields_rejection(Some(name), Some(password), Some(email))
    }
}

/// The first failing check of a stored row: id, name, password hash, email.
pub open spec fn row_rejection(
    id: Seq<char>,
    name: Seq<char>,
    password: Seq<char>,
    email: Seq<char>,
) -> Option<UserErrors> {
    if id_verdict(uuid_bytes_of(id)) is Err {
        Some(UserErrors::UserIDError { source: id_verdict(uuid_bytes_of(id))->Err_0 })
    } else if name_rejection(name) is Some {
        Some(UserErrors::UserNameError { source: name_rejection(name)->0 })
    } else if !is_phc(password) {
        Some(UserErrors::UserPasswordError { source: UserPasswordErrors::PHCFormatError })
    } else if !is_email_shape(email) {
        Some(UserErrors::UserEmailError { source: UserEmailErrors::InvalidEmail })
    } else {
        None
    }
}

/// A user whose four fields each hold their invariant.
#[derive(Debug)]
pub struct User {
    id: UserID,
    name: UserName,
    password: UserPassword,
    email: UserEmail,
}

impl View for User {
    type V = UserView;

    closed spec fn view(&self) -> UserView {
        UserView { id: self.id@, name: self.name@, password: self.password@, email: self.email@ }
    }
}

impl User {
    pub fn new(id: UserID, name: UserName, password: UserPassword, email: UserEmail) -> (r: User)
        ensures
            r@ == (UserView { id: id@, name: name@, password: password@, email: email@ }),
    {
        User { id, name, password, email }
    }

    /// Builds a user from raw text, hashing the password; the first failing
    /// field, in the order id, name, password, email, is reported.
    pub fn create(id: &str, name: &str, password: &str, email: &str) -> (r: Result<User, UserErrors>)
        requires
            password@.len() <= MAX_PASSWORD_CHARS,
        ensures
            match r {
                Ok(u) => {
                    &&& create_rejection(id@, name@, password@, email@) is None
                    &&& u@.id == id@
                    &&& u@.name == name@
                    &&& u@.email == email@
                    &&& is_hash_of(u@.password, password@)
                },
                Err(e) => create_rejection(id@, name@, password@, email@) == Some(e),
            },
    {
        let id = match UserID::try_create(id) {
            Ok(v) => v,
            Err(e) => return Err(UserErrors::UserIDError { source: e }),
        };
        let name = match UserName::try_create(name) {
            Ok(v) => v,
            Err(e) => return Err(UserErrors::UserNameError { source: e }),
        };
        let password = match UserPassword::new(password) {
            Ok(v) => v,
            Err(e) => return Err(UserErrors::UserPasswordError { source: e }),
        };
        let email = match UserEmail::try_create(email) {
            Ok(v) => v,
            Err(e) => return Err(UserErrors::UserEmailError { source: e }),
        };
        Ok(User { id, name, password, email })
    }

    /// Rebuilds a stored user from its four columns; the password column must
    /// already be a PHC hash. The first failing column is reported.
    pub fn from_row(id: &str, name: &str, password: &str, email: &str) -> (r: Result<User, UserErrors>)
        ensures
            match r {
                Ok(u) => row_rejection(id@, name@, password@, email@) is None && u@ == (UserView {
                    id: id@,
                    name: name@,
                    password: password@,
                    email: email@,
                }),
                Err(e) => row_rejection(id@, name@, password@, email@) == Some(e),
            },
    {
        let id = match UserID::try_create(id) {
            Ok(v) => v,
            Err(e) => return Err(UserErrors::UserIDError { source: e }),
        };
        let name = match UserName::try_create(name) {
            Ok(v) => v,
            Err(e) => return Err(UserErrors::UserNameError { source: e }),
        };
        let password = match UserPassword::from_hash(password) {
            Ok(v) => v,
            Err(e) => return Err(UserErrors::UserPasswordError { source: e }),
        };
        let email = match UserEmail::try_create(email) {
            Ok(v) => v,
            Err(e) => return Err(UserErrors::UserEmailError { source: e }),
        };
        Ok(User { id, name, password, email })
    }

    /// Replaces the supplied fields, each checked anew (name, then password,
    /// then email); absent fields and the id are kept.
    pub fn update(self, name: Option<&str>, password: Option<&str>, email: Option<&str>) -> (r:
        Result<User, UserErrors>)
        requires
            password is Some ==> password->0@.len() <= MAX_PASSWORD_CHARS,
        ensures
            match r {
                Ok(u) => {
                    &&& fields_rejection(text_of(name), text_of(password), text_of(email)) is None
                    &&& u@.id == self@.id
                    &&& u@.name == (if name is Some { name->0@ } else { self@.name })
                    &&& u@.email == (if email is Some { email->0@ } else { self@.email })
                    &&& password is None ==> u@.password == self@.password
                    &&& password is Some ==> is_hash_of(u@.password, password->0@)
                },
                Err(e) => fields_rejection(text_of(name), text_of(password), text_of(email))
                    == Some(e),
            },
            name is None && password is None && email is None ==> r is Ok && r->Ok_0@ == self@,
    {
        let new_name = match name {
            None => self.name,
            Some(n) => match UserName::try_create(n) {
                Ok(v) => v,
                Err(e) => return Err(UserErrors::UserNameError { source: e }),
            },
        };
        let new_password = match password {
            None => self.password,
            Some(p) => match UserPassword::new(p) {
                Ok(v) => v,
                Err(e) => return Err(UserErrors::UserPasswordError { source: e }),
            },
        };
        let new_email = match email {
            None => self.email,
            Some(m) => match UserEmail::try_create(m) {
                Ok(v) => v,
                Err(e) => return Err(UserErrors::UserEmailError { source: e }),
            },
        };
        Ok(User { id: self.id, name: new_name, password: new_password, email: new_email })
    }

    pub fn get_id(&self) -> (r: &str)
        ensures
            r@ == self@.id,
    {
        self.id.get()
    }

    pub fn get_name(&self) -> (r: &str)
        ensures
            r@ == self@.name,
    {
        self.name.get()
    }

    pub fn get_password(&self) -> (r: &str)
        ensures
            r@ == self@.password,
    {
        self.password.get()
    }

    pub fn get_email(&self) -> (r: &str)
        ensures
            r@ == self@.email,
    {
        self.email.get()
    }

    /// The four fields as owned text: id, name, password hash, email.
    pub fn into_inners(self) -> (r: (String, String, String, String))
        ensures
            r.0@ == self@.id && r.1@ == self@.name && r.2@ == self@.password && r.3@
                == self@.email,
    {
        (self.id.to_owned().into_inner(), self.name.into_inner(), self.password.into_inner(), self.email.into_inner())
    }

    /// A second value of the same user.
    pub fn duplicate(&self) -> (r: User)
        ensures
            r@ == self@,
    {
        User {
            id: self.id.duplicate(),
            name: self.name.duplicate(),
            password: self.password.duplicate(),
            email: self.email.duplicate(),
        }
    }
}

} // verus!
