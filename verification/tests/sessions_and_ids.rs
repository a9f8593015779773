use reservation_server::cred::{
    admin, admin_from_user, login, login_outcome, logout, routes, user_cookie, FlashKind,
    GuardOutcome, LoginOutcome, Method, Page, User, UNAUTHORIZED,
};
use reservation_server::db_manager::{
    availability_flag, check_login, check_user, interface_count, LookupError,
};
use reservation_server::paste_ids::PasteId;

fn user(is_admin: bool) -> User {
    User { id: "alice".to_string(), password: "pw".to_string(), is_admin }
}

#[test]
fn interface_count_wraps_like_a_byte_cast() {
    assert_eq!(interface_count(0), 0);
    assert_eq!(interface_count(3), 3);
    assert_eq!(interface_count(255), 255);
    assert_eq!(interface_count(256), 0);
    assert_eq!(interface_count(300), 44);
}

#[test]
fn availability_is_stored_as_one_or_zero() {
    assert_eq!(availability_flag(true), 1);
    assert_eq!(availability_flag(false), 0);
}

#[test]
fn login_needs_matching_id_and_password() {
    let ok = check_login("alice".to_string(), "pw".to_string(), "alice", "pw");
    assert_eq!(ok, Ok(("alice".to_string(), "pw".to_string())));
    assert_eq!(
        check_login("alice".to_string(), "pw".to_string(), "alice", "wrong"),
        Err(LookupError::RowNotFound)
    );
    assert_eq!(
        check_login("alice".to_string(), "pw".to_string(), "bob", "pw"),
        Err(LookupError::RowNotFound)
    );
}

#[test]
fn user_lookup_needs_matching_id() {
    assert_eq!(check_user("alice", "alice"), Ok(()));
    assert_eq!(check_user("alice", "Alice"), Err(LookupError::RowNotFound));
}

#[test]
fn admin_guard_lets_only_admins_pass() {
    match admin_from_user(user(true)) {
        GuardOutcome::Success(a) => {
            assert_eq!(a.0.id, "alice");
            assert_eq!(admin(&a), "You're an Admin!");
        }
        GuardOutcome::Forward(_) => panic!("an admin must pass"),
    }
    match admin_from_user(user(false)) {
        GuardOutcome::Forward(status) => assert_eq!(status, UNAUTHORIZED),
        GuardOutcome::Success(_) => panic!("a plain user must not pass"),
    }
    assert_eq!(UNAUTHORIZED, 401);
}

#[test]
fn login_and_logout_answers() {
    match login_outcome(true, "alice") {
        LoginOutcome::SignedIn { user_id, to } => {
            assert_eq!(user_id, "alice");
            assert_eq!(to, Page::Index);
        }
        LoginOutcome::Refused(_) => panic!("matching credentials sign in"),
    }
    match login_outcome(false, "alice") {
        LoginOutcome::Refused(f) => {
            assert_eq!(f.kind, FlashKind::Error);
            assert_eq!(f.to, Page::LoginPage);
            assert_eq!(f.message, "Invalid username/password.");
        }
        LoginOutcome::SignedIn { .. } => panic!("wrong credentials are refused"),
    }
    let out = logout();
    assert_eq!(out.kind, FlashKind::Success);
    assert_eq!(out.to, Page::LoginPage);
    assert_eq!(out.message, "Successfully logged out.");
    assert_eq!(login(&user(false)), Page::Index);
    assert_eq!(user_cookie(), "user_id");
}

#[test]
fn session_routes() {
    let table = routes();
    let names: Vec<&str> = table.iter().map(|r| r.name.as_str()).collect();
    assert_eq!(names, vec!["index", "login", "login_page", "post_login", "logout", "admin"]);
    assert_eq!(table[0].path, "/hi");
    assert_eq!(table[1].rank, Some(3));
    assert_eq!(table[3].method, Method::Post);
    assert_eq!(table[4].path, "/logout");
    assert_eq!(table[5].method, Method::Get);
}

#[test]
fn generated_ids_are_alphanumeric_and_accepted() {
    for size in [0usize, 1, 8, 40] {
        let id = PasteId::_new(size).to_string();
        assert_eq!(id.chars().count(), size);
        assert!(id.chars().all(|c| c.is_ascii_alphanumeric()));
        let parsed = PasteId::from_param(&id).ok().expect("a generated id is a valid segment");
        assert_eq!(parsed.to_string(), id);
    }
}

#[test]
fn generated_ids_differ() {
    let a = PasteId::_new(24).to_string();
    let b = PasteId::_new(24).to_string();
    assert_ne!(a, b);
}

#[test]
fn path_segments_are_checked() {
    assert_eq!(PasteId::from_param("abc123XYZ").ok().map(|p| p.to_string()), Some("abc123XYZ".to_string()));
    assert_eq!(PasteId::from_param("").ok().map(|p| p.to_string()), Some(String::new()));
    assert_eq!(PasteId::from_param("../etc").err(), Some("../etc".to_string()));
    assert_eq!(PasteId::from_param("a-b").err(), Some("a-b".to_string()));
    assert_eq!(PasteId::from_param("ä").err(), Some("ä".to_string()));
}

#[test]
fn paste_file_paths() {
    let id = PasteId::from_param("Ab3").ok().unwrap();
    assert_eq!(id.file_path("/srv/upload"), "/srv/upload/Ab3");
    assert_eq!(id.file_path("/srv/upload/"), "/srv/upload/Ab3");
    assert_eq!(id.file_path(""), "Ab3");
    let path = id.file_path("/srv/upload");
    assert_eq!(
        std::path::Path::new("/srv/upload").join("Ab3").to_str().unwrap(),
        path.as_str()
    );
}

#[test]
fn ids_spell_their_bytes() {
    let id = PasteId::from_alphabet_bytes(&b"Az09qZ".to_vec());
    assert_eq!(id.to_string(), "Az09qZ");
    assert_eq!(PasteId::from_alphabet_bytes(&Vec::new()).to_string(), "");
}
