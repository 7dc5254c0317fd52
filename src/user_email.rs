use vstd::prelude::*;
use crate::validation::{is_email_shape, valid_email};

verus! {

#[derive(Debug, PartialEq, Eq, Structural)]
pub enum UserEmailErrors {
    /// The text does not have the `local@domain.tld` shape.
    InvalidEmail,
}

/// An email address of the `local@domain.tld` shape.
#[derive(Debug)]
pub struct UserEmail(String);

impl View for UserEmail {
    type V = Seq<char>;

    closed spec fn view(&self) -> Seq<char> {
        self.0@
    }
}

impl UserEmail {
    #[verifier::type_invariant]
    spec fn inv(&self) -> bool {
        is_email_shape(self.0@)
    }

    /// `Ok` exactly when `value` has the email shape.
    pub fn validate(value: &str) -> (r: Result<(), UserEmailErrors>)
        ensures
            r is Ok <==> is_email_shape(value@),
            r is Err ==> r == Err::<(), _>(UserEmailErrors::InvalidEmail),
    {
        if !valid_email(value) {
            return Err(UserEmailErrors::InvalidEmail);
        }
        Ok(())
    }

    /// Accepts `value` exactly when it has the email shape.
    pub fn try_create(value: &str) -> (r: Result<UserEmail, UserEmailErrors>)
        ensures
            match r {
                Ok(e) => e@ == value@ && is_email_shape(value@),
                Err(e) => e == UserEmailErrors::InvalidEmail && !is_email_shape(value@),
            },
    {
        match Self::validate(value) {
            Ok(()) => Ok(UserEmail(value.to_string())),
            Err(e) => Err(e),
        }
    }

    /// `try_create` on an owned string.
    pub fn new(value: String) -> (r: Result<UserEmail, UserEmailErrors>)
        ensures
            match r {
                Ok(e) => e@ == value@ && is_email_shape(value@),
                Err(e) => e == UserEmailErrors::InvalidEmail && !is_email_shape(value@),
            },
    {
        match Self::validate(value.as_str()) {
            Ok(()) => Ok(UserEmail(value)),
            Err(e) => Err(e),
        }
    }

    pub fn get(&self) -> (r: &str)
        ensures
            r@ == self@,
            is_email_shape(r@),
    {
        proof {
            use_type_invariant(self);
        }
        self.0.as_str()
    }

    pub fn into_inner(self) -> (r: String)
        ensures
            r@ == self@,
    {
        self.0
    }

    /// A second value of the same address.
    pub fn duplicate(&self) -> (r: UserEmail)
        ensures
            r@ == self@,
    {
        proof {
            use_type_invariant(self);
        }
        UserEmail(self.0.clone())
    }
}

} // verus!
