use contexts::application::{
    UserCriteria, UserCriteriaErrors, UserCriteriaService, UserDelete, UserDeleteErrors,
    UserDeleteService, UserFind, UserFindErrors, UserFindService, UserRegister, UserRegisterErrors,
    UserRegisterService, UserUpdate, UserUpdateErrors, UserUpdateService,
};
use contexts::criteria::{Criteria, Filter, Operator, Order, OrderType};
use contexts::in_memory::{InMemoryUserCriteria, InMemoryUserRepository};
use contexts::repository::{repository_error, RepositoryErrors, UserCriteriaRepository, UserRepository};
use contexts::user::{User, UserErrors};
use contexts::user_email::{UserEmail, UserEmailErrors};
use contexts::user_id::{UserID, UserIDErrors};
use contexts::user_name::{UserName, UserNameErrors};
use contexts::user_password::{PasswordRequirement, UserPassword, UserPasswordErrors};

const IDS: [&str; 5] = [
    "01890a5d-ac96-774b-bcce-b302099a8051",
    "01890a5d-ac96-774b-bcce-b302099a8052",
    "01890a5d-ac96-774b-bcce-b302099a8053",
    "01890a5d-ac96-774b-bcce-b302099a8054",
    "01890a5d-ac96-774b-bcce-b302099a8055",
];
const HASH: &str = "$argon2id$v=19$m=19456,t=2,p=1$c29tZXNhbHQ$RdescudvJCsgt3ub+b+dWRWJTmaaJObG";

fn stored(id: &str, name: &str, email: &str) -> User {
    User::new(
        UserID::try_create(id).unwrap(),
        UserName::try_create(name).unwrap(),
        UserPassword::from_hash(HASH).unwrap(),
        UserEmail::try_create(email).unwrap(),
    )
}

fn five_users() -> InMemoryUserRepository {
    let mut repo = InMemoryUserRepository::new();
    let names = ["Joanna", "Bernard", "Hannah", "Oscar", "Annika"];
    for (i, n) in names.iter().enumerate() {
        let email = format!("{}@example.com", n.to_lowercase());
        repo.save(&stored(IDS[i], n, &email)).unwrap();
    }
    repo
}

fn names_of(users: &[User]) -> Vec<String> {
    users.iter().map(|u| u.get_name().to_string()).collect()
}

fn filter(field: &str, op: Operator, value: &str) -> Filter {
    Filter::new(field.to_string(), op, value.to_string())
}

#[test]
fn create_reports_first_failing_field() {
    let e = User::create("nope", "ab", "x", "y").unwrap_err();
    assert_eq!(e, UserErrors::UserIDError { source: UserIDErrors::InvalidUuid });
    let e = User::create(IDS[0], "ab", "x", "y").unwrap_err();
    assert_eq!(e, UserErrors::UserNameError { source: UserNameErrors::NotLongEnough(2) });
    let e = User::create(IDS[0], "Annie", "longenough", "y").unwrap_err();
    assert_eq!(
        e,
        UserErrors::UserPasswordError { source: UserPasswordErrors::Missing(PasswordRequirement::Symbols) }
    );
    let e = User::create(IDS[0], "Annie", "Secr3t!pass", "y").unwrap_err();
    assert_eq!(e, UserErrors::UserEmailError { source: UserEmailErrors::InvalidEmail });
}

#[test]
fn create_then_read_fields() {
    let u = User::create(IDS[0], "Annie", "Secr3t!pass", "annie@example.com").unwrap();
    assert_eq!(u.get_id(), IDS[0]);
    assert_eq!(u.get_name(), "Annie");
    assert_eq!(u.get_email(), "annie@example.com");
    assert!(u.get_password().starts_with("$argon2id$"));
    let (id, name, password, email) = u.into_inners();
    assert_eq!((id.as_str(), name.as_str(), email.as_str()), (IDS[0], "Annie", "annie@example.com"));
    assert!(password.starts_with("$argon2"));
}

#[test]
fn update_only_email() {
    let u = stored(IDS[0], "Annie", "annie@example.com");
    let v = u.update(None, None, Some("new@example.org")).unwrap();
    assert_eq!(v.get_email(), "new@example.org");
    assert_eq!(v.get_name(), "Annie");
    assert_eq!(v.get_password(), HASH);
    assert_eq!(v.get_id(), IDS[0]);
}

#[test]
fn update_with_nothing_keeps_the_user() {
    let u = stored(IDS[0], "Annie", "annie@example.com");
    let v = u.update(None, None, None).unwrap();
    assert_eq!(
        (v.get_id(), v.get_name(), v.get_password(), v.get_email()),
        (IDS[0], "Annie", HASH, "annie@example.com")
    );
}

#[test]
fn update_checks_fields_in_order() {
    let u = stored(IDS[0], "Annie", "annie@example.com");
    let e = u.update(Some("Al"), Some("bad"), Some("bad")).unwrap_err();
    assert_eq!(e, UserErrors::UserNameError { source: UserNameErrors::NotLongEnough(2) });
    let u = stored(IDS[0], "Annie", "annie@example.com");
    let e = u.update(None, Some("bad"), Some("bad")).unwrap_err();
    assert_eq!(e, UserErrors::UserPasswordError { source: UserPasswordErrors::NotLongEnough(3) });
    let u = stored(IDS[0], "Annie", "annie@example.com");
    let e = u.update(None, None, Some("bad")).unwrap_err();
    assert_eq!(e, UserErrors::UserEmailError { source: UserEmailErrors::InvalidEmail });
}

#[test]
fn save_then_find_round_trip() {
    let mut repo = InMemoryUserRepository::new();
    let u = User::create(IDS[2], "Hannah", "Secr3t!pass", "hannah@example.com").unwrap();
    let hash = u.get_password().to_string();
    repo.save(&u).unwrap();
    let found = UserRepository::find_by(&repo, &UserID::try_create(IDS[2]).unwrap()).unwrap();
    assert_eq!(
        (found.get_id(), found.get_name(), found.get_password(), found.get_email()),
        (IDS[2], "Hannah", hash.as_str(), "hannah@example.com")
    );
}

#[test]
fn find_missing_twice() {
    let repo = five_users();
    let missing = UserID::try_create("01890a5d-ac96-774b-bcce-b302099a8059").unwrap();
    assert!(repo.find_user(&missing).is_none());
    assert!(repo.find_user(&missing).is_none());
    assert_eq!(repo.get_all().len(), 5);
}

#[test]
fn duplicate_save_is_a_conflict() {
    let mut repo = five_users();
    let r = repo.save(&stored(IDS[1], "Someone", "s@example.com"));
    assert!(matches!(r, Err(RepositoryErrors::AlreadyExists)));
    assert_eq!(repo.get_all().len(), 5);
}

#[test]
fn delete_and_update_in_memory() {
    let mut repo = five_users();
    repo.delete_by(&UserID::try_create(IDS[1]).unwrap()).unwrap();
    assert_eq!(names_of(&repo.get_all()), vec!["Joanna", "Hannah", "Oscar", "Annika"]);
    repo.update(&stored(IDS[3], "Oscar Wilde", "oscar@example.com")).unwrap();
    assert_eq!(names_of(&repo.get_all()), vec!["Joanna", "Hannah", "Oscar Wilde", "Annika"]);
}

#[test]
fn contains_matches_substring() {
    let repo = five_users();
    let c = Criteria::new(vec![filter("name", Operator::CO, "ann")], None, None, None);
    assert_eq!(names_of(&repo.search(&c).unwrap()), vec!["Joanna", "Hannah"]);
    let c = Criteria::new(vec![filter("name", Operator::NC, "ann")], None, None, None);
    assert_eq!(names_of(&repo.search(&c).unwrap()), vec!["Bernard", "Oscar", "Annika"]);
}

#[test]
fn comparisons_and_conjunction() {
    let repo = five_users();
    let c = Criteria::new(vec![filter("name", Operator::GE, "Hannah"), filter("name", Operator::LT, "Oscar")], None, None, None);
    assert_eq!(names_of(&repo.search(&c).unwrap()), vec!["Joanna", "Hannah"]);
    let c = Criteria::new(vec![filter("email", Operator::EQ, "oscar@example.com")], None, None, None);
    assert_eq!(names_of(&repo.search(&c).unwrap()), vec!["Oscar"]);
    let c = Criteria::new(vec![filter("name", Operator::GT, "Oscar")], None, None, None);
    assert!(repo.search(&c).unwrap().is_empty());
    let c = Criteria::new(vec![filter("name", Operator::LE, "Bernard")], None, None, None);
    assert_eq!(names_of(&repo.search(&c).unwrap()), vec!["Bernard", "Annika"]);
}

#[test]
fn paging_without_order() {
    let repo = five_users();
    let c = Criteria::new(vec![], None, Some(2), Some(1));
    let first = names_of(&repo.search(&c).unwrap());
    assert_eq!(first, vec!["Bernard", "Hannah"]);
    assert_eq!(names_of(&repo.search(&c).unwrap()), first);
    let c = Criteria::new(vec![], None, Some(10), Some(4));
    assert_eq!(names_of(&repo.search(&c).unwrap()), vec!["Annika"]);
    let c = Criteria::new(vec![], None, None, Some(9));
    assert!(repo.search(&c).unwrap().is_empty());
}

#[test]
fn paging_with_order() {
    let repo = five_users();
    let asc = Criteria::new(vec![], Some(Order::new("name".to_string(), OrderType::ASC)), Some(2), Some(1));
    assert_eq!(names_of(&repo.search(&asc).unwrap()), vec!["Bernard", "Hannah"]);
    let desc = Criteria::new(vec![], Some(Order::new("name".to_string(), OrderType::DESC)), Some(2), Some(1));
    assert_eq!(names_of(&repo.search(&desc).unwrap()), vec!["Joanna", "Hannah"]);
    let all = Criteria::new(vec![], Some(Order::new("name".to_string(), OrderType::ASC)), None, None);
    assert_eq!(names_of(&repo.search(&all).unwrap()), vec!["Annika", "Bernard", "Hannah", "Joanna", "Oscar"]);
}

#[test]
fn sort_is_stable_on_equal_keys() {
    let mut repo = InMemoryUserRepository::new();
    repo.save(&stored(IDS[0], "Zelda", "same@example.com")).unwrap();
    repo.save(&stored(IDS[1], "Alice", "same@example.com")).unwrap();
    repo.save(&stored(IDS[2], "Maria", "first@example.com")).unwrap();
    let c = Criteria::new(vec![], Some(Order::new("email".to_string(), OrderType::DESC)), None, None);
    assert_eq!(names_of(&repo.search(&c).unwrap()), vec!["Zelda", "Alice", "Maria"]);
}

#[test]
fn criteria_refuses_password_field() {
    let repo = five_users();
    let c = Criteria::new(vec![filter("password", Operator::EQ, HASH)], None, None, None);
    match (InMemoryUserCriteria { store: &repo }).find_by(&c) {
        Err(contexts::repository::CriteriaRepositoryErrors::FieldNotFound(f)) => assert_eq!(f, "password"),
        other => panic!("unexpected {:?}", other),
    }
    let service = UserCriteriaService { user_repository: InMemoryUserCriteria { store: &repo } };
    match service.find_by(&c) {
        Err(UserCriteriaErrors::FieldNotFound(f)) => assert_eq!(f, "password"),
        other => panic!("unexpected {:?}", other),
    }
}

#[test]
fn register_duplicate_is_conflict() {
    let mut service = UserRegisterService { user_repository: InMemoryUserRepository::new() };
    service.register(IDS[0], "Annie", "Secr3t!pass", "annie@example.com").unwrap();
    let r = service.register(IDS[0], "Other", "Secr3t!pass", "other@example.com");
    assert!(matches!(r, Err(UserRegisterErrors::AlreadyExists)));
    assert_eq!(service.user_repository.get_all().len(), 1);
    let r = service.register("bad", "Other", "Secr3t!pass", "other@example.com");
    assert!(matches!(
        r,
        Err(UserRegisterErrors::UserError { source: UserErrors::UserIDError { source: UserIDErrors::InvalidUuid } })
    ));
}

#[test]
fn find_service() {
    let service = UserFindService { user_repository: five_users() };
    assert_eq!(service.find_by(IDS[4]).unwrap().unwrap().get_name(), "Annika");
    assert!(service.find_by("01890a5d-ac96-774b-bcce-b302099a8059").unwrap().is_none());
    assert!(matches!(
        service.find_by("550e8400-e29b-41d4-a716-446655440000"),
        Err(UserFindErrors::UserIDError { source: UserIDErrors::InvalidUuidVersion(4) })
    ));
    assert_eq!(service.get_all().len(), 5);
}

#[test]
fn update_service() {
    let mut service = UserUpdateService { user_repository: five_users() };
    service.update(IDS[0], None, None, Some("jo@example.org")).unwrap();
    let u = service.user_repository.find_user(&UserID::try_create(IDS[0]).unwrap()).unwrap();
    assert_eq!((u.get_name(), u.get_password(), u.get_email()), ("Joanna", HASH, "jo@example.org"));
    assert!(matches!(
        service.update("01890a5d-ac96-774b-bcce-b302099a8059", None, None, None),
        Err(UserUpdateErrors::NotFound)
    ));
    assert!(matches!(
        service.update(IDS[0], Some("Jo"), None, None),
        Err(UserUpdateErrors::UserError { source: UserErrors::UserNameError { source: UserNameErrors::NotLongEnough(2) } })
    ));
    service.update(IDS[1], None, None, None).unwrap();
    assert_eq!(names_of(&service.user_repository.get_all()), vec!["Joanna", "Bernard", "Hannah", "Oscar", "Annika"]);
}

#[test]
fn delete_service() {
    let mut service = UserDeleteService { user_repository: five_users() };
    service.delete_by(IDS[0]).unwrap();
    assert_eq!(service.user_repository.get_all().len(), 4);
    assert!(matches!(
        service.delete_by("x"),
        Err(UserDeleteErrors::UserIDError { source: UserIDErrors::InvalidUuid })
    ));
}

#[test]
fn repository_errors_map_to_service_errors() {
    assert!(matches!(UserRegisterErrors::from(RepositoryErrors::AlreadyExists), UserRegisterErrors::AlreadyExists));
    assert!(matches!(
        UserRegisterErrors::from(RepositoryErrors::InternalServerError { source: "disk".to_string() }),
        UserRegisterErrors::InternalServerError
    ));
    match UserUpdateErrors::from(RepositoryErrors::InternalServerError { source: "disk".to_string() }) {
        UserUpdateErrors::InternalServerError { source } => assert_eq!(source.as_deref(), Some("disk")),
        other => panic!("unexpected {:?}", other),
    }
    assert!(matches!(
        UserFindErrors::from(RepositoryErrors::AlreadyExists),
        UserFindErrors::InternalServerError { source: None }
    ));
    assert!(matches!(
        UserDeleteErrors::from(RepositoryErrors::AlreadyExists),
        UserDeleteErrors::InternalServerError { source: None }
    ));
}

#[test]
fn rows_are_checked_when_read_back() {
    let u = User::from_row(IDS[0], "Annie", HASH, "annie@example.com").unwrap();
    assert_eq!((u.get_id(), u.get_password()), (IDS[0], HASH));
    assert_eq!(
        User::from_row(IDS[0], "Annie", "plain", "annie@example.com").unwrap_err(),
        UserErrors::UserPasswordError { source: UserPasswordErrors::PHCFormatError }
    );
    assert_eq!(
        User::from_row(IDS[0], "Ann", "plain", "x").unwrap_err(),
        UserErrors::UserNameError { source: UserNameErrors::NotLongEnough(3) }
    );
    assert_eq!(
        User::from_row(IDS[0], "Annie", HASH, "x").unwrap_err(),
        UserErrors::UserEmailError { source: UserEmailErrors::InvalidEmail }
    );
}

#[test]
fn storage_errors_are_classified() {
    assert!(matches!(repository_error(Some(19), "UNIQUE".to_string()), RepositoryErrors::AlreadyExists));
    match repository_error(Some(1), "syntax".to_string()) {
        RepositoryErrors::InternalServerError { source } => assert_eq!(source, "syntax"),
        other => panic!("unexpected {:?}", other),
    }
    assert!(matches!(repository_error(None, "gone".to_string()), RepositoryErrors::InternalServerError { .. }));
}
