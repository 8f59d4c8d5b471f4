use std::sync::Arc;
use user_directory::service::{
    count_user, create_user, create_user_with_id, find_user, search_user, Response,
};
use user_directory::store::UserStore;
use user_directory::user::{NewUser, NewUserRequest, User, UserId};
use user_directory::validation::{Field, ValidationError};

fn request(name: &str, nick: &str, birth_date: &str, stack: Option<Vec<&str>>) -> NewUserRequest {
    NewUserRequest {
        name: String::from(name),
        nick: String::from(nick),
        birth_date: String::from(birth_date),
        stack: stack.map(|tags| tags.into_iter().map(String::from).collect()),
    }
}

fn john_doe() -> NewUserRequest {
    request("John Doe", "johndoe", "1986-01-01", Some(vec!["rust", "go"]))
}

fn created(response: Response) -> User {
    match response {
        Response::Created(user) => user,
        other => panic!("not created: {:?}", other),
    }
}

fn rejection(response: Response) -> ValidationError {
    match response {
        Response::Rejected(error) => error,
        other => panic!("not rejected: {:?}", other),
    }
}

fn count(store: &UserStore) -> usize {
    match count_user(store) {
        Response::Count(count) => count,
        other => panic!("not a count: {:?}", other),
    }
}

#[test]
fn create_count_find_and_miss() {
    let mut store = UserStore::new();
    let response = create_user(&mut store, john_doe());
    assert_eq!(response.status(), 201);
    let user = created(response);
    assert_eq!(user.name(), "John Doe");
    assert_eq!(user.nick(), "johndoe");
    assert_eq!(user.birth_date().to_text(), "1986-01-01");
    assert_eq!(user.stack(), Some(&vec![String::from("rust"), String::from("go")]));

    let response = count_user(&store);
    assert_eq!(response.status(), 200);
    assert!(matches!(response, Response::Count(1)));

    let response = find_user(&store, user.id());
    assert_eq!(response.status(), 200);
    match response {
        Response::Found(found) => {
            assert_eq!(found.id(), user.id());
            assert_eq!(found.name(), "John Doe");
            assert_eq!(found.nick(), "johndoe");
            assert_eq!(found.birth_date().to_text(), "1986-01-01");
            assert_eq!(found.stack(), user.stack());
        }
        other => panic!("not found: {:?}", other),
    }

    let missing = UserId(user.id().0 ^ 1);
    let response = find_user(&store, missing);
    assert_eq!(response.status(), 404);
    assert!(matches!(response, Response::NotFound));
}

#[test]
fn a_name_of_101_bytes_is_rejected_and_nothing_is_stored() {
    let mut store = UserStore::new();
    created(create_user(&mut store, john_doe()));
    let long = "x".repeat(101);
    let response = create_user(&mut store, request(&long, "nick", "1986-01-01", None));
    assert_eq!(response.status(), 400);
    assert_eq!(rejection(response), ValidationError::TooLong(Field::Name));
    assert_eq!(count(&store), 1);
}

#[test]
fn a_long_nick_or_tag_is_rejected_and_nothing_is_stored() {
    let mut store = UserStore::new();
    let long = "x".repeat(33);
    let response = create_user(&mut store, request("name", &long, "1986-01-01", None));
    assert_eq!(rejection(response), ValidationError::TooLong(Field::Nick));
    let response =
        create_user(&mut store, request("name", "nick", "1986-01-01", Some(vec!["ok", &long])));
    assert_eq!(rejection(response), ValidationError::TooLong(Field::Tech));
    assert_eq!(count(&store), 0);
    assert!(matches!(search_user(&store), Response::Users(all) if all.is_empty()));
}

#[test]
fn a_malformed_date_is_rejected_and_nothing_is_stored() {
    let mut store = UserStore::new();
    for text in ["1986-13-01", "1986-02-30", "01/01/1986", "", "1986-1-1", "+1986-01-01"] {
        let response = create_user(&mut store, request("name", "nick", text, None));
        assert_eq!(response.status(), 400);
        assert_eq!(rejection(response), ValidationError::InvalidDate);
    }
    assert_eq!(count(&store), 0);
}

#[test]
fn the_first_failing_field_names_the_error() {
    let long = "x".repeat(200);
    let outcome = NewUser::validate(request(&long, &long, "nonsense", Some(vec![&long])));
    assert_eq!(outcome.err(), Some(ValidationError::TooLong(Field::Name)));
    let outcome = NewUser::validate(request("name", &long, "nonsense", Some(vec![&long])));
    assert_eq!(outcome.err(), Some(ValidationError::TooLong(Field::Nick)));
    let outcome = NewUser::validate(request("name", "nick", "nonsense", Some(vec![&long])));
    assert_eq!(outcome.err(), Some(ValidationError::InvalidDate));
    let outcome = NewUser::validate(request("name", "nick", "1999-09-09", Some(vec![&long])));
    assert_eq!(outcome.err(), Some(ValidationError::TooLong(Field::Tech)));
    assert!(NewUser::validate(request("name", "nick", "1999-09-09", Some(vec!["tag"]))).is_ok());
}

#[test]
fn a_checked_request_keeps_every_field() {
    let new_user = NewUser::validate(john_doe()).unwrap();
    assert_eq!(new_user.name.as_str(), "John Doe");
    assert_eq!(new_user.nick.as_str(), "johndoe");
    assert_eq!(new_user.birth_date.to_text(), "1986-01-01");
    let tags: Vec<&str> = new_user.stack.as_ref().unwrap().iter().map(|t| t.as_str()).collect();
    assert_eq!(tags, vec!["rust", "go"]);
    let bare = NewUser::validate(request("n", "k", "2000-01-01", None)).unwrap();
    assert!(bare.stack.is_none());
}

#[test]
fn create_with_a_given_identifier() {
    let mut store = UserStore::new();
    let user = created(create_user_with_id(&mut store, UserId(9), john_doe()));
    assert_eq!(user.id(), UserId(9));
    assert!(matches!(find_user(&store, UserId(9)), Response::Found(_)));
    let response =
        create_user_with_id(&mut store, UserId(10), request("n", "k", "not a date", None));
    assert_eq!(rejection(response), ValidationError::InvalidDate);
    assert!(matches!(find_user(&store, UserId(10)), Response::NotFound));
    assert_eq!(count(&store), 1);
}

#[test]
fn search_lists_every_user() {
    let mut store = UserStore::new();
    let first = created(create_user(&mut store, john_doe()));
    let second = created(create_user(&mut store, request("Jane", "jane", "1990-10-10", None)));
    let response = search_user(&store);
    assert_eq!(response.status(), 200);
    match response {
        Response::Users(all) => {
            assert_eq!(all.len(), 2);
            let mut names: Vec<(u128, String)> =
                all.iter().map(|user| (user.id().0, String::from(user.name()))).collect();
            names.sort();
            let mut expected = vec![
                (first.id().0, String::from("John Doe")),
                (second.id().0, String::from("Jane")),
            ];
            expected.sort();
            assert_eq!(names, expected);
        }
        other => panic!("not a list: {:?}", other),
    }
}

#[test]
fn two_concurrent_creates_both_succeed() {
    let store = Arc::new(tokio::sync::RwLock::new(UserStore::new()));
    let runtime = tokio::runtime::Builder::new_multi_thread().worker_threads(2).build().unwrap();
    let (first, second) = runtime.block_on(async {
        let one = {
            let store = store.clone();
            tokio::spawn(async move { create_user(&mut *store.write().await, john_doe()) })
        };
        let two = {
            let store = store.clone();
            tokio::spawn(async move {
                let jane = request("Jane Roe", "janeroe", "1991-07-23", None);
                create_user(&mut *store.write().await, jane)
            })
        };
        (one.await.unwrap(), two.await.unwrap())
    });
    let first = created(first);
    let second = created(second);
    assert_ne!(first.id(), second.id());
    let store = runtime.block_on(store.read());
    assert_eq!(count(&store), 2);
    match find_user(&store, first.id()) {
        Response::Found(found) => assert_eq!(found.name(), "John Doe"),
        other => panic!("not found: {:?}", other),
    }
    match find_user(&store, second.id()) {
        Response::Found(found) => assert_eq!(found.name(), "Jane Roe"),
        other => panic!("not found: {:?}", other),
    }
}

#[test]
fn many_concurrent_creates_lose_no_update() {
    let store = Arc::new(tokio::sync::RwLock::new(UserStore::new()));
    let runtime = tokio::runtime::Builder::new_multi_thread().worker_threads(4).build().unwrap();
    let ids: Vec<u128> = runtime.block_on(async {
        let mut tasks = Vec::new();
        for i in 0..64 {
            let store = store.clone();
            tasks.push(tokio::spawn(async move {
                let name = format!("user {}", i);
                let made = create_user(&mut *store.write().await, request(&name, "n", "2000-02-29", None));
                created(made).id().0
            }));
        }
        let mut ids = Vec::new();
        for task in tasks {
            ids.push(task.await.unwrap());
        }
        ids
    });
    let mut distinct = ids.clone();
    distinct.sort();
    distinct.dedup();
    assert_eq!(distinct.len(), 64);
    let store = runtime.block_on(store.read());
    assert_eq!(count(&store), 64);
    for id in ids {
        assert!(matches!(find_user(&store, UserId(id)), Response::Found(_)));
    }
}

#[test]
fn each_response_has_its_status() {
    let mut store = UserStore::new();
    assert_eq!(search_user(&store).status(), 200);
    assert_eq!(count_user(&store).status(), 200);
    assert_eq!(find_user(&store, UserId(1)).status(), 404);
    assert_eq!(create_user(&mut store, john_doe()).status(), 201);
    assert_eq!(create_user(&mut store, request("n", "k", "?", None)).status(), 400);
    assert_eq!(Response::Unreadable.status(), 400);
    assert_eq!(Response::NotFound.status(), 404);
}
