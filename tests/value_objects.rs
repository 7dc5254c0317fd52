use argon2::PasswordVerifier;
use contexts::text::{parse_u32, text_eq};
use contexts::user_email::{UserEmail, UserEmailErrors};
use contexts::user_id::{check_parsed, get_version_num, OwnedUserID, UserID, UserIDErrors};
use contexts::user_name::{UserName, UserNameErrors};
use contexts::user_password::{PasswordRequirement, UserPassword, UserPasswordErrors};
use contexts::validation::{has_number, has_symbol, valid_email};

const V7: &str = "01890a5d-ac96-774b-bcce-b302099a8057";
const V4: &str = "550e8400-e29b-41d4-a716-446655440000";

#[test]
fn user_id_accepts_version_seven() {
    let id = UserID::try_create(V7).unwrap();
    assert_eq!(id.get(), V7);
    assert_eq!(id.to_owned().get(), V7);
}

#[test]
fn user_id_rejects_non_uuid() {
    for text in ["", "not-a-uuid", "01890a5d-ac96-774b-bcce-b302099a805", "zz890a5d-ac96-774b-bcce-b302099a8057"] {
        assert_eq!(UserID::try_create(text).unwrap_err(), UserIDErrors::InvalidUuid);
    }
}

#[test]
fn user_id_rejects_other_versions() {
    assert_eq!(UserID::try_create(V4).unwrap_err(), UserIDErrors::InvalidUuidVersion(4));
    assert_eq!(
        UserID::try_create("6ba7b810-9dad-11d1-80b4-00c04fd430c8").unwrap_err(),
        UserIDErrors::InvalidUuidVersion(1)
    );
}

#[test]
fn owned_user_id_checks_text() {
    assert_eq!(OwnedUserID::try_create(V7.to_string()).unwrap().into_inner(), V7);
    assert_eq!(
        OwnedUserID::try_create(V4.to_string()).unwrap_err(),
        UserIDErrors::InvalidUuidVersion(4)
    );
}

#[test]
fn fresh_user_ids_are_version_seven_and_distinct() {
    let a = OwnedUserID::new();
    let b = OwnedUserID::new();
    assert!(UserID::try_create(a.get()).is_ok());
    assert!(UserID::try_create(b.get()).is_ok());
    assert_ne!(a.get(), b.get());
}

#[test]
fn version_number_is_high_nibble_of_seventh_byte() {
    let mut bytes = [0u8; 16];
    bytes[6] = 0x7f;
    assert_eq!(get_version_num(&bytes), 7);
    bytes[6] = 0x41;
    assert_eq!(get_version_num(&bytes), 4);
    assert_eq!(check_parsed(Some(bytes)), Err(UserIDErrors::InvalidUuidVersion(4)));
    bytes[6] = 0x70;
    assert_eq!(check_parsed(Some(bytes)), Ok(()));
    assert_eq!(check_parsed(None), Err(UserIDErrors::InvalidUuid));
}

#[test]
fn short_names_report_their_length() {
    assert_eq!(UserName::try_create("").unwrap_err(), UserNameErrors::NotLongEnough(0));
    assert_eq!(UserName::try_create("abcd").unwrap_err(), UserNameErrors::NotLongEnough(4));
    // Four characters, more bytes: the count is of characters.
    assert_eq!(UserName::try_create("éçàü").unwrap_err(), UserNameErrors::NotLongEnough(4));
    assert_eq!(UserName::new("Anna".to_string()).unwrap_err(), UserNameErrors::NotLongEnough(4));
}

#[test]
fn names_of_five_characters_are_accepted() {
    assert_eq!(UserName::try_create("Annie").unwrap().get(), "Annie");
    assert_eq!(UserName::new("Joanna".to_string()).unwrap().into_inner(), "Joanna");
}

#[test]
fn email_shape() {
    assert!(valid_email("ann@example.com"));
    assert!(valid_email("a@b.c"));
    assert!(!valid_email("ann.example.com"));
    assert!(!valid_email("@example.com"));
    assert!(!valid_email("ann@example"));
    assert!(!valid_email("ann@.com"));
    assert!(!valid_email("ann@example."));
    assert!(!valid_email("ann@@example.com"));
    assert!(!valid_email("an n@example.com"));
    assert!(!valid_email("ann@exa@mple.com"));
    assert_eq!(UserEmail::try_create("ann@example.com").unwrap().get(), "ann@example.com");
    assert_eq!(UserEmail::try_create("nope").unwrap_err(), UserEmailErrors::InvalidEmail);
    assert_eq!(UserEmail::validate("x@y"), Err(UserEmailErrors::InvalidEmail));
}

#[test]
fn digits_and_symbols() {
    assert!(has_number("abc1"));
    assert!(!has_number("abc"));
    assert!(has_symbol("a!b"));
    assert!(has_symbol("a.b"));
    assert!(!has_symbol("a-b"));
    assert!(!has_symbol(""));
}

#[test]
fn password_rules_in_order() {
    assert_eq!(UserPassword::new("a1!").unwrap_err(), UserPasswordErrors::NotLongEnough(3));
    assert_eq!(
        UserPassword::new("abcdefg1").unwrap_err(),
        UserPasswordErrors::Missing(PasswordRequirement::Symbols)
    );
    assert_eq!(
        UserPassword::new("abcdefg!").unwrap_err(),
        UserPasswordErrors::Missing(PasswordRequirement::Numbers)
    );
}

#[test]
fn password_hash_is_salted_and_verifies() {
    let a = UserPassword::new("Secr3t!pass").unwrap();
    let b = UserPassword::new("Secr3t!pass").unwrap();
    assert_ne!(a.get(), b.get());
    assert!(!a.get().contains("Secr3t!pass"));
    for p in [&a, &b] {
        let parsed = password_hash::PasswordHash::new(p.get()).unwrap();
        assert!(argon2::Argon2::default().verify_password(b"Secr3t!pass", &parsed).is_ok());
        assert!(argon2::Argon2::default().verify_password(b"wrong!pass1", &parsed).is_err());
    }
}

#[test]
fn stored_hash_must_be_phc() {
    let a = UserPassword::new("Secr3t!pass").unwrap();
    let again = UserPassword::from_hash(a.get()).unwrap();
    assert_eq!(again.get(), a.get());
    assert_eq!(UserPassword::from_hash("plain text").unwrap_err(), UserPasswordErrors::PHCFormatError);
    assert_eq!(UserPassword::from_hash("").unwrap_err(), UserPasswordErrors::PHCFormatError);
}

#[test]
fn decimal_parsing_follows_std() {
    assert_eq!(parse_u32("0"), Some(0));
    assert_eq!(parse_u32("+12"), Some(12));
    assert_eq!(parse_u32("007"), Some(7));
    assert_eq!(parse_u32("4294967295"), Some(u32::MAX));
    assert_eq!(parse_u32("4294967296"), None);
    assert_eq!(parse_u32(""), None);
    assert_eq!(parse_u32("+"), None);
    assert_eq!(parse_u32("-1"), None);
    assert_eq!(parse_u32("1a"), None);
    for s in ["0", "+12", "4294967296", "-0", " 1", "99999999999"] {
        assert_eq!(parse_u32(s), s.parse::<u32>().ok());
    }
}

#[test]
fn text_equality() {
    assert!(text_eq("name", "name"));
    assert!(!text_eq("name", "names"));
    assert!(!text_eq("name", "Name"));
}

#[test]
fn digits_of_any_script_count() {
    assert!(has_number("\u{663}"));
    assert!(has_number("abc\u{0967}"));
    assert!(has_number("line one\nline 2"));
    assert!(!has_number("Ⅻ½"));
    assert_eq!(
        UserPassword::new("pass\u{663}word!").map(|p| p.get().starts_with("$argon2")),
        Ok(true)
    );
}
