use user_directory::store::UserStore;
use user_directory::user::{next_id, NewUser, NewUserRequest, User, UserId};

fn checked(name: &str, nick: &str, birth_date: &str, stack: Option<Vec<&str>>) -> NewUser {
    NewUser::validate(NewUserRequest {
        name: String::from(name),
        nick: String::from(nick),
        birth_date: String::from(birth_date),
        stack: stack.map(|tags| tags.into_iter().map(String::from).collect()),
    })
    .unwrap()
}

fn user(id: u128, name: &str) -> User {
    User::new(UserId(id), checked(name, "nick", "1990-05-17", Some(vec!["rust"])))
}

#[test]
fn a_new_store_is_empty() {
    let store = UserStore::new();
    assert_eq!(store.count(), 0);
    assert!(store.list_all().is_empty());
    assert!(store.get(UserId(1)).is_none());
}

#[test]
fn an_inserted_record_is_found_with_every_field() {
    let mut store = UserStore::new();
    store.insert(User::new(
        UserId(42),
        checked("John Doe", "johndoe", "1986-01-01", Some(vec!["rust", "go"])),
    ));
    let found = store.get(UserId(42)).unwrap();
    assert_eq!(found.id(), UserId(42));
    assert_eq!(found.name(), "John Doe");
    assert_eq!(found.nick(), "johndoe");
    assert_eq!(found.birth_date().to_text(), "1986-01-01");
    assert_eq!(found.stack(), Some(&vec![String::from("rust"), String::from("go")]));
    assert_eq!(store.count(), 1);
}

#[test]
fn an_absent_stack_stays_absent_and_an_empty_one_stays_empty() {
    let mut store = UserStore::new();
    store.insert(User::new(UserId(1), checked("a", "a", "2001-01-01", None)));
    store.insert(User::new(UserId(2), checked("b", "b", "2001-01-01", Some(vec![]))));
    assert_eq!(store.get(UserId(1)).unwrap().stack(), None);
    assert_eq!(store.get(UserId(2)).unwrap().stack(), Some(&Vec::new()));
}

#[test]
fn an_identifier_that_was_never_inserted_is_absent() {
    let mut store = UserStore::new();
    for id in 0..50u128 {
        store.insert(user(2 * id, "even"));
    }
    for id in 0..50u128 {
        assert!(store.get(UserId(2 * id)).is_some());
        assert!(store.get(UserId(2 * id + 1)).is_none());
    }
    assert!(store.get(UserId(u128::MAX)).is_none());
}

#[test]
fn count_is_the_number_of_distinct_identifiers() {
    let mut store = UserStore::new();
    for id in [5u128, 3, 5, 9, 3, 3, 1, 9] {
        store.insert(user(id, "someone"));
    }
    assert_eq!(store.count(), 4);
}

#[test]
fn count_does_not_depend_on_the_order_of_inserts() {
    let ids = [11u128, 7, 300, 2, u128::MAX, 0];
    let mut forward = UserStore::new();
    for id in ids {
        forward.insert(user(id, "x"));
    }
    let mut backward = UserStore::new();
    for id in ids.iter().rev() {
        backward.insert(user(*id, "x"));
    }
    assert_eq!(forward.count(), 6);
    assert_eq!(backward.count(), 6);
    for id in ids {
        assert!(forward.get(UserId(id)).is_some());
        assert!(backward.get(UserId(id)).is_some());
    }
}

#[test]
fn inserting_under_a_used_identifier_replaces_the_record() {
    let mut store = UserStore::new();
    store.insert(user(8, "first"));
    store.insert(user(8, "second"));
    assert_eq!(store.count(), 1);
    assert_eq!(store.get(UserId(8)).unwrap().name(), "second");
}

#[test]
fn list_all_holds_each_record_once() {
    let mut store = UserStore::new();
    for id in 0..20u128 {
        store.insert(user(id, &format!("user {}", id)));
    }
    let all = store.list_all();
    assert_eq!(all.len(), 20);
    let mut ids: Vec<u128> = all.iter().map(|user| user.id().0).collect();
    ids.sort();
    assert_eq!(ids, (0..20u128).collect::<Vec<u128>>());
    for listed in &all {
        assert_eq!(listed.name(), format!("user {}", listed.id().0));
    }
}

#[test]
fn a_copy_handed_out_does_not_change_with_the_store() {
    let mut store = UserStore::new();
    store.insert(user(1, "before"));
    let copy = store.get(UserId(1)).unwrap();
    store.insert(user(1, "after"));
    assert_eq!(copy.name(), "before");
    assert_eq!(store.get(UserId(1)).unwrap().name(), "after");
}

#[test]
fn create_files_the_record_under_a_fresh_identifier() {
    let mut store = UserStore::new();
    let made = store.create(checked("Grace", "grace", "1906-12-09", Some(vec!["cobol"])));
    assert_eq!(made.name(), "Grace");
    assert_eq!(made.nick(), "grace");
    assert_eq!(made.birth_date().to_text(), "1906-12-09");
    assert_eq!(made.stack(), Some(&vec![String::from("cobol")]));
    let found = store.get(made.id()).unwrap();
    assert_eq!(found.id(), made.id());
    assert_eq!(found.name(), "Grace");
    assert_eq!(store.count(), 1);
}

#[test]
fn create_with_id_uses_the_identifier_given() {
    let mut store = UserStore::new();
    let made = store.create_with_id(UserId(77), checked("Linus", "linus", "1969-12-28", None));
    assert_eq!(made.id(), UserId(77));
    assert_eq!(store.get(UserId(77)).unwrap().name(), "Linus");
    assert!(store.get(UserId(78)).is_none());
}

#[test]
fn fresh_identifiers_differ_and_grow() {
    let mut last = next_id();
    for _ in 0..1000 {
        let id = next_id();
        assert!(id.0 > last.0);
        last = id;
    }
}

#[test]
fn a_clone_is_equal_in_every_field() {
    let first = User::new(
        UserId(3),
        checked("Ken", "ken", "1943-02-04", Some(vec!["c", "go", "unix"])),
    );
    let copy = first.clone();
    assert_eq!(copy.id(), first.id());
    assert_eq!(copy.name(), first.name());
    assert_eq!(copy.nick(), first.nick());
    assert_eq!(copy.birth_date(), first.birth_date());
    assert_eq!(copy.stack(), first.stack());
}

#[test]
fn fresh_identifiers_are_version_7() {
    for _ in 0..100 {
        let id = next_id();
        assert_eq!((id.0 >> 76) & 0xf, 7);
        assert_eq!((id.0 >> 62) & 0x3, 2);
        let uuid = uuid::Uuid::from_u128(id.0);
        assert_eq!(uuid.get_version_num(), 7);
        assert_eq!(uuid.get_variant(), uuid::Variant::RFC4122);
    }
}
