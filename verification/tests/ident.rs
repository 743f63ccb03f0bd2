use pairchat::directory::Directory;
use pairchat::form::message_of;
use pairchat::form::parse_message;
use pairchat::ident::accept_id;
use pairchat::ident::gen_rand_id;
use pairchat::ident::gen_rand_id_safe;
use pairchat::user::UserState;
use std::collections::HashSet;

fn url_safe(id: &str) -> bool {
    id.chars().all(|c| c.is_ascii_alphanumeric() || c == '-' || c == '_')
}

#[test]
fn gen_rand_id_has_the_shape_of_an_identifier() {
    for _ in 0..1000 {
        let id = gen_rand_id();
        assert_eq!(id.chars().count(), 28);
        assert!(url_safe(&id));
    }
}

#[test]
fn gen_rand_id_differs_from_call_to_call() {
    assert_ne!(gen_rand_id(), gen_rand_id());
}

#[test]
fn accept_id_rejects_what_the_directory_holds() {
    let mut d: Directory<UserState> = Directory::new();
    d.insert(String::from("taken"), UserState::new_at(String::from("taken"), 0));
    assert_eq!(accept_id(&d, String::from("taken")), None);
    assert_eq!(accept_id(&d, String::from("free")), Some(String::from("free")));
}

#[test]
fn gen_rand_id_safe_never_collides() {
    let mut d: Directory<UserState> = Directory::new();
    for _ in 0..100 {
        let id = gen_rand_id_safe(&d).unwrap();
        d.insert(id.clone(), UserState::new_at(id, 0));
    }
    assert_eq!(d.len(), 100);
    let mut batch: HashSet<String> = HashSet::new();
    for _ in 0..100_000 {
        let id = gen_rand_id_safe(&d).unwrap();
        assert!(!d.contains_key(&id));
        assert!(batch.insert(id));
    }
    assert_eq!(batch.len(), 100_000);
}

#[test]
fn gen_rand_id_safe_fills_a_directory_without_repeats() {
    let mut d: Directory<UserState> = Directory::new();
    for _ in 0..2_000 {
        let id = gen_rand_id_safe(&d).unwrap();
        assert!(!d.contains_key(&id));
        d.insert(id.clone(), UserState::new_at(id, 0));
    }
    assert_eq!(d.len(), 2_000);
}

#[test]
fn parse_message_takes_the_only_field() {
    assert_eq!(parse_message("message=hello"), Some(String::from("hello")));
    assert_eq!(parse_message("message=hello+world%21"), Some(String::from("hello world!")));
    assert_eq!(parse_message("message="), Some(String::new()));
    assert_eq!(parse_message("message"), Some(String::new()));
    assert_eq!(parse_message("&message=a&"), Some(String::from("a")));
}

#[test]
fn parse_message_drops_other_forms() {
    assert_eq!(parse_message(""), None);
    assert_eq!(parse_message("msg=hello"), None);
    assert_eq!(parse_message("Message=hello"), None);
    assert_eq!(parse_message("message=a&message=b"), None);
    assert_eq!(parse_message("message=a&other=b"), None);
}

#[test]
fn message_of_decides_on_parsed_fields() {
    let one = vec![(String::from("message"), String::from("v"))];
    assert_eq!(message_of(one), Some(String::from("v")));
    let other = vec![(String::from("text"), String::from("v"))];
    assert_eq!(message_of(other), None);
    let two = vec![
        (String::from("message"), String::from("v")),
        (String::from("message"), String::from("w")),
    ];
    assert_eq!(message_of(two), None);
    assert_eq!(message_of(Vec::new()), None);
}

#[test]
fn gen_rand_id_safe_takes_the_first_draw_where_nothing_can_collide() {
    let empty: Directory<UserState> = Directory::new();
    for _ in 0..100 {
        assert!(gen_rand_id_safe(&empty).is_some());
    }
    let mut named: Directory<UserState> = Directory::new();
    for key in ["a", "taken", "not an identifier at all, whatever"] {
        named.insert(String::from(key), UserState::new_at(String::from(key), 0));
    }
    for _ in 0..100 {
        let id = gen_rand_id_safe(&named).unwrap();
        assert_eq!(id.len(), 28);
        assert!(!named.contains_key(&id));
    }
}
