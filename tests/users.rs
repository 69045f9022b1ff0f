use catalog_meta::auth::{authenticate, credential_matches, AuthType, CertifiedInfo, UserInfo};
use catalog_meta::error::ErrorKind;
use catalog_meta::user::{is_builtin_name, UserManager};
use sha2::Digest;

fn sha1(b: &[u8]) -> Vec<u8> {
    let mut m = sha1::Sha1::new();
    m.update(b);
    m.digest().bytes().to_vec()
}

#[test]
fn builtin_users_bypass_store() {
    for tenant in ["t1", "t2", ""].iter() {
        let m = UserManager::new(tenant);
        for name in ["default", "", "root"].iter() {
            let u = m.get_user(name, "10.0.0.1").unwrap();
            assert_eq!(u.auth_type, AuthType::NoPassword);
            assert_eq!(u.hostname, "%");
            assert_eq!(u.name, *name);
            assert!(u.password.is_empty());
        }
    }
    assert!(is_builtin_name("root"));
    assert!(!is_builtin_name("rooty"));
}

#[test]
fn unknown_user() {
    let m = UserManager::new("t");
    assert_eq!(m.get_user("alice", "%").err().unwrap().kind, ErrorKind::UnknownUser);
}

#[test]
fn add_get_users() {
    let mut m = UserManager::new("t");
    m.add_user(UserInfo::new("alice", "%", b"pw", AuthType::PlainText)).unwrap();
    m.add_user(UserInfo::new("bob", "localhost", b"x", AuthType::Sha256)).unwrap();
    let e = m.add_user(UserInfo::new("alice", "%", b"other", AuthType::PlainText)).err().unwrap();
    assert_eq!(e.kind, ErrorKind::AlreadyExists);
    assert_eq!(e.context, "(while add user).");
    let a = m.get_user("alice", "%").unwrap();
    assert_eq!(a.password, b"pw".to_vec());
    assert_eq!(m.get_user("alice", "localhost").err().unwrap().kind, ErrorKind::UnknownUser);
    let all = m.get_users().unwrap();
    assert_eq!(all.len(), 2);
    assert!(all.iter().any(|u| u.name == "bob" && u.hostname == "localhost"));
}

#[test]
fn update_user_partial() {
    let mut m = UserManager::new("t");
    let v1 = m.add_user(UserInfo::new("alice", "%", b"pw", AuthType::PlainText)).unwrap();
    let v2 = m.update_user("alice", "%", None, Some(b"new".to_vec())).unwrap().unwrap();
    assert!(v2 > v1);
    let a = m.get_user("alice", "%").unwrap();
    assert_eq!(a.password, b"new".to_vec());
    assert_eq!(a.auth_type, AuthType::PlainText);
    m.update_user("alice", "%", Some(AuthType::NoPassword), None).unwrap();
    let a = m.get_user("alice", "%").unwrap();
    assert_eq!(a.password, b"new".to_vec());
    assert_eq!(a.auth_type, AuthType::NoPassword);
    let e = m.update_user("carol", "%", None, None).err().unwrap();
    assert_eq!(e.kind, ErrorKind::UnknownUser);
}

#[test]
fn set_privileges() {
    let mut m = UserManager::new("t");
    m.add_user(UserInfo::new("alice", "%", b"pw", AuthType::PlainText)).unwrap();
    m.set_user_privileges("alice", "%", 5).unwrap();
    assert_eq!(m.get_user("alice", "%").unwrap().privileges, 5);
    assert_eq!(m.set_user_privileges("bob", "%", 1).err().unwrap().kind, ErrorKind::UnknownUser);
}

#[test]
fn drop_user_if_exist() {
    let mut m = UserManager::new("t");
    assert!(m.drop_user("ghost", "%", true).is_ok());
    assert_eq!(m.drop_user("ghost", "%", false).err().unwrap().kind, ErrorKind::UnknownUser);
    m.add_user(UserInfo::new("alice", "%", b"pw", AuthType::PlainText)).unwrap();
    m.drop_user("alice", "%", false).unwrap();
    assert_eq!(m.get_user("alice", "%").err().unwrap().kind, ErrorKind::UnknownUser);
}

#[test]
fn plaintext_truth_table() {
    let u = UserInfo::new("u", "%", b"secret", AuthType::PlainText);
    assert!(authenticate(&u, &CertifiedInfo::create("u", b"secret", "127.0.0.1")));
    assert!(!authenticate(&u, &CertifiedInfo::create("u", b"secret2", "127.0.0.1")));
    let m = UserManager::new("t");
    assert!(m.auth_user(&u, &CertifiedInfo::create("u", b"secret", "")).unwrap());
}

#[test]
fn double_sha1_truth_table() {
    // The server applies SHA-1 twice to what the client sends.
    let stored = sha1(&sha1(b"pw"));
    let u = UserInfo::new("u", "%", &stored, AuthType::DoubleSha1);
    assert!(authenticate(&u, &CertifiedInfo::create("u", b"pw", "")));
    assert!(!authenticate(&u, &CertifiedInfo::create("u", &sha1(b"pw"), "")));
    // A client that sends SHA1(pw) matches a record of SHA1(SHA1(SHA1(pw))).
    let pre = sha1(b"pw");
    let u3 = UserInfo::new("u", "%", &sha1(&sha1(&pre)), AuthType::DoubleSha1);
    assert!(authenticate(&u3, &CertifiedInfo::create("u", &pre, "")));
    assert!(!authenticate(&u3, &CertifiedInfo::create("u", b"pw", "")));
}

#[test]
fn sha256_and_none() {
    let stored = sha2::Sha256::digest(b"pw").to_vec();
    assert_eq!(stored.len(), 32);
    let u = UserInfo::new("u", "%", &stored, AuthType::Sha256);
    assert!(authenticate(&u, &CertifiedInfo::create("u", b"pw", "")));
    assert!(!authenticate(&u, &CertifiedInfo::create("u", &stored, "")));
    let n = UserInfo::new("u", "%", b"", AuthType::NoPassword);
    assert!(authenticate(&n, &CertifiedInfo::create("u", b"anything", "")));
}

#[test]
fn credential_matches_on_digests() {
    assert!(credential_matches(AuthType::DoubleSha1, b"dd", b"pw", b"dd", b""));
    assert!(!credential_matches(AuthType::DoubleSha1, b"dd", b"dd", b"xx", b""));
    assert!(credential_matches(AuthType::Sha256, b"ss", b"pw", b"", b"ss"));
    assert!(!credential_matches(AuthType::PlainText, b"ss", b"pw", b"ss", b"ss"));
    assert!(credential_matches(AuthType::NoPassword, b"a", b"b", b"c", b"d"));
}

#[test]
fn certified_info_create() {
    let c = CertifiedInfo::create("root", b"pw", "127.0.0.1:3306");
    assert_eq!(c.user_name, "root");
    assert_eq!(c.user_password, b"pw".to_vec());
    assert_eq!(c.user_client_address, "127.0.0.1:3306");
}

#[test]
fn versions_grow_across_drop() {
    let mut m = UserManager::new("t");
    let v1 = m.add_user(UserInfo::new("a", "%", b"pw", AuthType::PlainText)).unwrap();
    m.drop_user("a", "%", false).unwrap();
    let v2 = m.add_user(UserInfo::new("a", "%", b"pw", AuthType::PlainText)).unwrap();
    assert!(v2 > v1);
    let p1 = m.set_user_privileges("a", "%", 3).unwrap().unwrap();
    let p2 = m.set_user_privileges("a", "%", 3).unwrap().unwrap();
    assert_eq!(p2, p1 + 1);
    assert_eq!(m.get_user("a", "%").unwrap().privileges, 3);
}

#[test]
fn racing_add_user() {
    let mut m = UserManager::new("t");
    let first = m.add_user(UserInfo::new("a", "%", b"one", AuthType::PlainText));
    let second = m.add_user(UserInfo::new("a", "%", b"two", AuthType::Sha256));
    assert!(first.is_ok());
    assert_eq!(second.err().unwrap().kind, ErrorKind::AlreadyExists);
    let u = m.get_user("a", "%").unwrap();
    assert_eq!(u.password, b"one".to_vec());
    assert_eq!(m.get_users().unwrap().len(), 1);
}

#[test]
fn error_contexts() {
    let mut m = UserManager::new("t");
    assert_eq!(m.get_user("x", "%").err().unwrap().context, "(while get user).");
    assert_eq!(m.drop_user("x", "%", false).err().unwrap().context, "(while drop user).");
    assert_eq!(m.update_user("x", "%", None, None).err().unwrap().context, "(while alter user).");
    assert_eq!(
        m.set_user_privileges("x", "%", 1).err().unwrap().context,
        "(while set user privileges)."
    );
}

#[test]
fn get_users_follows_listing() {
    let mut m = UserManager::new("t");
    for n in ["a", "b", "c"].iter() {
        m.add_user(UserInfo::new(n, "%", b"", AuthType::NoPassword)).unwrap();
    }
    m.drop_user("b", "%", false).unwrap();
    let names: Vec<String> = m.get_users().unwrap().iter().map(|u| u.name.clone()).collect();
    assert_eq!(names.len(), 2);
    assert!(names.contains(&"a".to_string()) && names.contains(&"c".to_string()));
}
