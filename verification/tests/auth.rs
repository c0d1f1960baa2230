use next_socks5::auth::{ct_eq, verify_credentials};
use next_socks5::config::User;

fn users() -> Vec<User> {
    vec![
        User {
            username: "alice".into(),
            password: "secret".into(),
        },
        User {
            username: "bob".into(),
            password: "hunter2".into(),
        },
    ]
}

#[test]
fn ct_eq_matches_and_differs() {
    assert!(ct_eq(b"abc", b"abc"));
    assert!(!ct_eq(b"abc", b"abd"));
    assert!(!ct_eq(b"abc", b"ab"));
    assert!(ct_eq(b"", b""));
}

#[test]
fn accepts_correct_credentials() {
    assert!(verify_credentials(&users(), "alice", "secret"));
    assert!(verify_credentials(&users(), "bob", "hunter2"));
}

#[test]
fn rejects_wrong_password() {
    assert!(!verify_credentials(&users(), "alice", "wrong"));
}

#[test]
fn rejects_unknown_user() {
    assert!(!verify_credentials(&users(), "carol", "secret"));
}

#[test]
fn rejects_when_no_users_configured() {
    assert!(!verify_credentials(&[], "alice", "secret"));
}

#[test]
fn rejects_the_password_of_another_user() {
    assert!(!verify_credentials(&users(), "alice", "hunter2"));
    assert!(!verify_credentials(&users(), "bob", "secret"));
}
