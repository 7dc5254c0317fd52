use vstd::prelude::*;

verus! {

/// The only UUID version accepted as a user identity (time-ordered random).
pub const UUID_TIMESTAMP_RAND_VERSION: usize = 7;

/// The sixteen bytes that `uuid::Uuid::parse_str` reads from a string, or
/// `None` when it refuses the string.
pub uninterp spec fn uuid_bytes_of(s: Seq<char>) -> Option<Seq<u8>>;

/// The version number of a UUID: the high nibble of its seventh byte.
pub open spec fn version_of(b: Seq<u8>) -> nat {
    (b[6] / 16) as nat
}

#[derive(Debug, PartialEq, Eq, Structural)]
pub enum UserIDErrors {
    /// The text is not a UUID.
    InvalidUuid,
    /// The text is a UUID of another version than 7.
    InvalidUuidVersion(usize),
}

/// What the identity check makes of a parse result.
pub open spec fn id_verdict(parsed: Option<Seq<u8>>) -> Result<(), UserIDErrors> {
    match parsed {
        None => Err(UserIDErrors::InvalidUuid),
        Some(b) => if version_of(b) == UUID_TIMESTAMP_RAND_VERSION {
            Ok(())
        } else {
            Err(UserIDErrors::InvalidUuidVersion(version_of(b) as usize))
        },
    }
}

/// A string that parses as a version 7 UUID.
pub open spec fn is_valid_user_id(s: Seq<char>) -> bool {
    &&& uuid_bytes_of(s) is Some
    &&& uuid_bytes_of(s)->0.len() == 16
    &&& id_verdict(uuid_bytes_of(s)) is Ok
}

/// The error of `uuid::Uuid::parse_str`, carried through opaque.
#[verifier::external_type_specification]
#[verifier::external_body]
pub struct ExUuidError(uuid::Error);

/// Relies on `uuid::Uuid::parse_str`: the bytes of the UUID it reads, or its error.
#[verifier::external_body]
fn parse_uuid(value: &str) -> (r: Result<[u8; 16], uuid::Error>)
    ensures
        r is Ok ==> uuid_bytes_of(value@) == Some(r->Ok_0@),
        r is Err ==> uuid_bytes_of(value@) is None,
{
    uuid::Uuid::parse_str(value).map(|u| *u.as_bytes())
}

/// Relies on `uuid::Uuid::new_v7` with `Timestamp::now` and its hyphenated
/// `Display`: a fresh version 7 UUID that `parse_str` reads back. It panics
/// only through the machine: a clock set before 1970, or no randomness from
/// the operating system.
#[verifier::external_body]
fn fresh_uuid_v7() -> (r: String)
    ensures
        is_valid_user_id(r@),
{
    uuid::Uuid::new_v7(uuid::Timestamp::now(uuid::NoContext)).to_string()
}

/// The version number of a parsed UUID (`Uuid::get_version_num`).
pub fn get_version_num(bytes: &[u8; 16]) -> (r: usize)
    ensures
        r == version_of(bytes@),
{
    let b = bytes[6];
    assert(b >> 4u8 == b / 16) by (bit_vector);
    (b >> 4u8) as usize
}

/// Decides a user identity from the result of parsing `value` as a UUID.
pub fn check_parsed(parsed: Option<[u8; 16]>) -> (r: Result<(), UserIDErrors>)
    ensures
        r == id_verdict(
            match parsed {
                Some(b) => Some(b@),
                None => None,
            },
        ),
{
    match parsed {
        None => Err(UserIDErrors::InvalidUuid),
        Some(b) => {
            let v = get_version_num(&b);
            if v != UUID_TIMESTAMP_RAND_VERSION {
                Err(UserIDErrors::InvalidUuidVersion(v))
            } else {
                Ok(())
            }
        },
    }
}

/// Parses `value` as a UUID and decides whether it is a valid user identity.
fn validate(value: &str) -> (r: Result<(), UserIDErrors>)
    ensures
        r == id_verdict(uuid_bytes_of(value@)),
        r is Ok ==> uuid_bytes_of(value@)->0.len() == 16,
{
    let parsed = match parse_uuid(value) {
        Ok(b) => Some(b),
        Err(_) => None,
    };
    check_parsed(parsed)
}

/// An owned user identity: a version 7 UUID in text form.
#[derive(Debug)]
pub struct OwnedUserID(String);

impl View for OwnedUserID {
    type V = Seq<char>;

    closed spec fn view(&self) -> Seq<char> {
        self.0@
    }
}

impl OwnedUserID {
    #[verifier::type_invariant]
    spec fn inv(&self) -> bool {
        is_valid_user_id(self.0@)
    }

    /// A fresh identity.
    pub fn new() -> (r: OwnedUserID)
        ensures
            is_valid_user_id(r@),
    {
        OwnedUserID(fresh_uuid_v7())
    }

    /// Accepts `value` only when it is a version 7 UUID.
    pub fn try_create(value: String) -> (r: Result<OwnedUserID, UserIDErrors>)
        ensures
            match r {
                Ok(id) => id@ == value@ && id_verdict(uuid_bytes_of(value@)) is Ok,
                Err(e) => id_verdict(uuid_bytes_of(value@)) == Err::<(), _>(e),
            },
    {
        match validate(value.as_str()) {
            Ok(()) => Ok(OwnedUserID(value)),
            Err(e) => Err(e),
        }
    }

    pub fn get(&self) -> (r: &str)
        ensures
            r@ == self@,
            is_valid_user_id(r@),
    {
        proof {
            use_type_invariant(self);
        }
        self.0.as_str()
    }

    pub fn into_inner(self) -> (r: String)
        ensures
            r@ == self@,
            is_valid_user_id(r@),
    {
        proof {
            use_type_invariant(&self);
        }
        self.0
    }
}

/// A user identity: a version 7 UUID in text form.
#[derive(Debug)]
pub struct UserID(String);

impl View for UserID {
    type V = Seq<char>;

    closed spec fn view(&self) -> Seq<char> {
        self.0@
    }
}

impl UserID {
    #[verifier::type_invariant]
    spec fn inv(&self) -> bool {
        is_valid_user_id(self.0@)
    }

    /// A fresh identity.
    pub fn new() -> (r: UserID)
        ensures
            is_valid_user_id(r@),
    {
        UserID(fresh_uuid_v7())
    }

    /// Accepts `value` only when it is a version 7 UUID: `InvalidUuid` when it
    /// is no UUID, `InvalidUuidVersion(v)` when it is one of version `v != 7`.
    pub fn try_create(value: &str) -> (r: Result<UserID, UserIDErrors>)
        ensures
            match r {
                Ok(id) => id@ == value@ && id_verdict(uuid_bytes_of(value@)) is Ok,
                Err(e) => id_verdict(uuid_bytes_of(value@)) == Err::<(), _>(e),
            },
    {
        match validate(value) {
            Ok(()) => Ok(UserID(value.to_string())),
            Err(e) => Err(e),
        }
    }

    /// The identity borrowed from an owned one.
    pub fn from_owned(owned: &OwnedUserID) -> (r: UserID)
        ensures
            r@ == owned@,
    {
        UserID(owned.get().to_string())
    }

    pub fn get(&self) -> (r: &str)
        ensures
            r@ == self@,
            is_valid_user_id(r@),
    {
        proof {
            use_type_invariant(self);
        }
        self.0.as_str()
    }

    pub fn to_owned(&self) -> (r: OwnedUserID)
        ensures
            r@ == self@,
    {
        proof {
            use_type_invariant(self);
        }
        OwnedUserID(self.0.clone())
    }

    /// A second value of the same identity.
    pub fn duplicate(&self) -> (r: UserID)
        ensures
            r@ == self@,
    {
        proof {
            use_type_invariant(self);
        }
        UserID(self.0.clone())
    }
}

} // verus!
