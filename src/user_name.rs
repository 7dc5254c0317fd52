use vstd::prelude::*;
use vstd::string::StrSliceExecFns;

verus! {

/// The fewest characters a user name may have.
pub const MIN_NAME_LENGTH: usize = 5;

#[derive(Debug, PartialEq, Eq, Structural)]
pub enum UserNameErrors {
    /// The name has this many characters, fewer than the minimum.
    NotLongEnough(usize),
}

/// Why a name is refused, if it is.
pub open spec fn name_rejection(s: Seq<char>) -> Option<UserNameErrors> {
    if s.len() < MIN_NAME_LENGTH {
        Some(UserNameErrors::NotLongEnough(s.len() as usize))
    } else {
        None
    }
}

/// A display name of at least five characters.
#[derive(Debug)]
pub struct UserName(String);

impl View for UserName {
    type V = Seq<char>;

    closed spec fn view(&self) -> Seq<char> {
        self.0@
    }
}

impl UserName {
    #[verifier::type_invariant]
    spec fn inv(&self) -> bool {
        name_rejection(self.0@) is None
    }

    /// Accepts `value` when it has at least five characters, else reports
    /// how many it has.
    pub fn try_create(value: &str) -> (r: Result<UserName, UserNameErrors>)
        ensures
            match r {
                Ok(n) => n@ == value@ && name_rejection(value@) is None,
                Err(e) => name_rejection(value@) == Some(e),
            },
    {
        let length = value.unicode_len();
        if length < MIN_NAME_LENGTH {
            return Err(UserNameErrors::NotLongEnough(length));
        }
        Ok(UserName(value.to_string()))
    }

    /// `try_create` on an owned string.
    pub fn new(value: String) -> (r: Result<UserName, UserNameErrors>)
        ensures
            match r {
                Ok(n) => n@ == value@ && name_rejection(value@) is None,
                Err(e) => name_rejection(value@) == Some(e),
            },
    {
        let length = value.as_str().unicode_len();
        if length < MIN_NAME_LENGTH {
            return Err(UserNameErrors::NotLongEnough(length));
        }
        Ok(UserName(value))
    }

    pub fn get(&self) -> (r: &str)
        ensures
            r@ == self@,
            name_rejection(r@) is None,
    {
        proof {
            use_type_invariant(self);
        }
        self.0.as_str()
    }

    pub fn into_inner(self) -> (r: String)
        ensures
            r@ == self@,
    {
        self.0
    }

    /// A second value of the same name.
    pub fn duplicate(&self) -> (r: UserName)
        ensures
            r@ == self@,
    {
        proof {
            use_type_invariant(self);
        }
        UserName(self.0.clone())
    }
}

} // verus!
