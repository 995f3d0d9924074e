use cellardoor::login::{LoginFormParams, LoginQuery, check_login, login_redirect_target};

// A bcrypt hash of "supernintendo chalmers".
const HASH: &str = "$2b$10$Nc3tg12zOz2QYWMb5L11iuImBVJOxgI4pzEQ.CcUgI0MhVomaHhh.";

fn form(username: &str, password: &str) -> LoginFormParams {
    LoginFormParams {
        username: username.to_string(),
        password: password.to_string(),
        redirect: "/auth".to_string(),
    }
}

#[test]
fn valid_credentials_pass() {
    assert!(check_login(&form("myuser", "supernintendo chalmers"), "myuser", HASH));
}

#[test]
fn wrong_password_fails() {
    assert!(!check_login(&form("myuser", "ned flanders"), "myuser", HASH));
}

#[test]
fn wrong_username_fails() {
    assert!(!check_login(&form("other", "supernintendo chalmers"), "myuser", HASH));
}

#[test]
fn unparseable_hash_counts_as_rejection() {
    assert!(!check_login(&form("myuser", "supernintendo chalmers"), "myuser", "not a hash"));
}

#[test]
fn login_page_redirect_defaults_to_index() {
    let q = LoginQuery { redirect: Some("/auth?x=1".to_string()) };
    assert_eq!(login_redirect_target(&q), "/auth?x=1");
    let q = LoginQuery { redirect: None };
    assert_eq!(login_redirect_target(&q), "/");
}
