use zhitiku_desktop::mini_cloud::allowed;

#[test]
fn bridge_allows_only_owner_routes_and_never_admin_or_arbitrary_urls() {
    let id = "00000000-0000-4000-8000-000000000001";
    assert!(allowed("PUT", &format!("/mini-owner/publications/{id}")));
    assert!(allowed("GET", "/mini-owner/state"));
    assert!(allowed("GET", "/mini-owner/support-contact"));
    assert!(!allowed("PUT", "/mini-owner/support-contact"));
    assert!(!allowed("POST", "/mini-owner/support-contact"));
    assert!(allowed("GET", "/mini-owner/state?activePublications=true"));
    assert!(allowed("POST", "/mini-owner/publications/search"));
    assert!(!allowed("DELETE", "/mini-owner/publications/search"));
    for path in [
        "https://evil.invalid/",
        "/admin-api/users",
        "/mini-owner/state?url=x",
        "/mini-owner/state?activePublications=true&url=x",
        "/mini-owner/../auth/login",
        "/mini-owner/invites/../../",
    ] {
        assert!(!allowed("GET", path));
        assert!(!allowed("PUT", path));
    }
    assert!(!allowed("PUT", "/mini-owner/grant"));
}

#[test]
fn record_routes_need_a_uuid_and_the_right_method() {
    let id = "00000000-0000-4000-8000-000000000001";
    assert!(allowed("POST", &format!("/mini-owner/invites/{id}/rotate")));
    assert!(!allowed("GET", &format!("/mini-owner/invites/{id}/rotate")));
    assert!(!allowed("POST", "/mini-owner/invites/not-a-uuid/rotate"));
    assert!(allowed("DELETE", &format!("/mini-owner/invites/{id}")));
    assert!(!allowed("PUT", &format!("/mini-owner/invites/{id}")));
    assert!(allowed("PUT", &format!("/mini-owner/members/{id}")));
    assert!(!allowed("DELETE", &format!("/mini-owner/members/{id}")));
    assert!(allowed("DELETE", &format!("/mini-owner/publications/{id}")));
    assert!(!allowed("PUT", "/mini-owner/publications/123"));
    assert!(!allowed("PUT", &format!("mini-owner/publications/{id}")));
    assert!(!allowed("PUT", &format!("/other/publications/{id}")));
}
