use rust101::user::{build_user, User};

#[test]
fn built_user_is_active_and_new() {
    let u = build_user(String::from("xiaoguo"), String::from("dot@dot.com"));
    assert_eq!(u.name, "xiaoguo");
    assert_eq!(u.email, "dot@dot.com");
    assert!(u.active);
    assert_eq!(u.sign_in_count, 0);
}

#[test]
fn default_user() {
    let u = User::buildDefault();
    assert_eq!(u.name, "xiaoguo");
    assert_eq!(u.email, "1@123.com");
    assert!(u.active);
    assert_eq!(u.sign_in_count, 0);
}

#[test]
fn sign_in_count_grows_by_one() {
    let mut u = build_user(String::from("a"), String::from("b"));
    u.incrSignInCount();
    u.incrSignInCount();
    assert_eq!(u.sign_in_count, 2);
    assert_eq!(u.name, "a");
    assert!(u.active);
}
