use kozo_policy::auth::AppID;

#[test]
fn test_appid_from_badge() {
    let app_id = AppID::from_badge(0xDEADBEEF);
    assert_eq!(app_id.raw(), 0xDEADBEEF);
}

#[test]
fn appid_equality_is_badge_equality() {
    assert_eq!(AppID::from_badge(7), AppID(7));
    assert_ne!(AppID::from_badge(7), AppID::from_badge(8));
}
