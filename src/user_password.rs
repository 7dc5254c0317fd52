use vstd::prelude::*;
use vstd::string::StrSliceExecFns;
use crate::validation::{contains_digit, contains_symbol, has_number, has_symbol};

verus! {

/// The fewest characters a fresh password may have.
pub const MIN_PASSWORD_LENGTH: usize = 8;

/// The longest plaintext, in characters, that is handed to the hasher: its
/// UTF-8 form then stays within Argon2's limit of `u32::MAX` bytes.
pub const MAX_PASSWORD_CHARS: usize = 0x3fff_ffff;

/// Whether `password_hash::PasswordHash::new` accepts a string as a PHC string.
pub uninterp spec fn is_phc(s: Seq<char>) -> bool;

#[derive(Debug, PartialEq, Eq, Structural)]
pub enum PasswordRequirement {
    Symbols,
    Numbers,
}

#[derive(Debug, PartialEq, Eq, Structural)]
pub enum UserPasswordErrors {
    /// The password has this many characters, fewer than the minimum.
    NotLongEnough(usize),
    /// The password lacks a character of this kind.
    Missing(PasswordRequirement),
    /// A stored value is not a PHC string.
    PHCFormatError,
}

/// Why a fresh plaintext password is refused, if it is: length first, then
/// symbols, then digits.
pub open spec fn password_rejection(s: Seq<char>) -> Option<UserPasswordErrors> {
    if s.len() < MIN_PASSWORD_LENGTH {
        Some(UserPasswordErrors::NotLongEnough(s.len() as usize))
    } else if !contains_symbol(s) {
        Some(UserPasswordErrors::Missing(PasswordRequirement::Symbols))
    } else if !contains_digit(s) {
        Some(UserPasswordErrors::Missing(PasswordRequirement::Numbers))
    } else {
        None
    }
}

/// Relies on `password_hash::PasswordHash::new`: whether it parses `value`.
#[verifier::external_body]
fn parses_as_phc(value: &str) -> (r: bool)
    ensures
        r == is_phc(value@),
{
    password_hash::PasswordHash::new(value).is_ok()
}

/// The PHC string that Argon2 with default parameters makes of `password`
/// with the salt bytes `salt`.
pub uninterp spec fn argon2_phc(password: Seq<char>, salt: Seq<u8>) -> Seq<char>;

/// `h` is the Argon2 PHC hash of `password` under some sixteen-byte salt.
pub open spec fn is_hash_of(h: Seq<char>, password: Seq<char>) -> bool {
    &&& exists|salt: Seq<u8>| salt.len() == 16 && h == #[trigger] argon2_phc(password, salt)
    &&& h.len() >= 7 && h.subrange(0, 7) == "$argon2"@
}

/// Relies on `rand_core::RngCore::fill_bytes` on `OsRng`, as
/// `password_hash::SaltString::generate` uses it: sixteen random bytes, of
/// which nothing can be promised. It panics only when the operating system
/// has no randomness to give.
#[verifier::external_body]
fn draw_salt() -> (r: [u8; 16]) {
    let mut bytes = [0u8; 16];
    password_hash::rand_core::RngCore::fill_bytes(&mut password_hash::rand_core::OsRng, &mut bytes);
    bytes
}

/// Relies on `password_hash::SaltString::encode_b64` (sixteen bytes are within
/// its bounds) and `argon2::Argon2::hash_password` with default parameters
/// (algorithm `argon2id`): the PHC string of the hash, which
/// `PasswordHash::new` parses and which opens with `$argon2`. Hashing fails
/// only on a plaintext over `u32::MAX` bytes, which the bound on characters
/// rules out.
#[verifier::external_body]
fn hash_with_salt(password: &str, salt: &[u8; 16]) -> (r: String)
    requires
        password@.len() <= MAX_PASSWORD_CHARS,
    ensures
        r@ == argon2_phc(password@, salt@),
        is_phc(r@),
        r@.len() >= 7 && r@.subrange(0, 7) == "$argon2"@,
{
    let salt = password_hash::SaltString::encode_b64(salt).unwrap();
    let hasher = argon2::Argon2::default();
    argon2::PasswordHasher::hash_password(&hasher, password.as_bytes(), &salt).unwrap().to_string()
}

/// A password as its PHC hash string; never the plaintext.
#[derive(Debug)]
pub struct UserPassword(String);

impl View for UserPassword {
    type V = Seq<char>;

    closed spec fn view(&self) -> Seq<char> {
        self.0@
    }
}

impl UserPassword {
    #[verifier::type_invariant]
    spec fn inv(&self) -> bool {
        is_phc(self.0@)
    }

    /// Checks a fresh plaintext password and stores its hash under a fresh
    /// random salt; two calls on one password give different hashes.
    pub fn new(password: &str) -> (r: Result<UserPassword, UserPasswordErrors>)
        requires
            password@.len() <= MAX_PASSWORD_CHARS,
        ensures
            match r {
                Ok(p) => password_rejection(password@) is None && is_hash_of(p@, password@),
                Err(e) => password_rejection(password@) == Some(e),
            },
    {
        let length = password.unicode_len();
        if length < MIN_PASSWORD_LENGTH {
            return Err(UserPasswordErrors::NotLongEnough(length));
        }
        if !has_symbol(password) {
            return Err(UserPasswordErrors::Missing(PasswordRequirement::Symbols));
        }
        if !has_number(password) {
            return Err(UserPasswordErrors::Missing(PasswordRequirement::Numbers));
        }
        let salt = draw_salt();
        let password_hash = hash_with_salt(password, &salt);
        assert(salt@.len() == 16 && password_hash@ == argon2_phc(password@, salt@));
        Ok(UserPassword(password_hash))
    }

    /// Takes back a stored hash, which must be a PHC string.
    pub fn from_hash(value: &str) -> (r: Result<UserPassword, UserPasswordErrors>)
        ensures
            match r {
                Ok(p) => p@ == value@ && is_phc(value@),
                Err(e) => e == UserPasswordErrors::PHCFormatError && !is_phc(value@),
            },
    {
        if parses_as_phc(value) {
            Ok(UserPassword(value.to_string()))
        } else {
            Err(UserPasswordErrors::PHCFormatError)
        }
    }

    pub fn get(&self) -> (r: &str)
        ensures
            r@ == self@,
            is_phc(r@),
    {
        proof {
            use_type_invariant(self);
        }
        self.0.as_str()
    }

    pub fn into_inner(self) -> (r: String)
        ensures
            r@ == self@,
    {
        self.0
    }

    /// A second value of the same hash.
    pub fn duplicate(&self) -> (r: UserPassword)
        ensures
            r@ == self@,
    {
        proof {
            use_type_invariant(self);
        }
        UserPassword(self.0.clone())
    }
}

} // verus!
