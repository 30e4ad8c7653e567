use homeserver_mock::mock::MockHomeserverConnection;
use homeserver_mock::patch::ProvisionRequest;
use homeserver_mock::HomeserverError;

fn fresh_conn() -> MockHomeserverConnection {
    MockHomeserverConnection::new("example.org".to_owned())
}

fn base_request() -> ProvisionRequest {
    ProvisionRequest::new("@alice:example.org".to_owned(), "alice-sub".to_owned())
}

#[test]
fn test_mock_connection() {
    let mut conn = fresh_conn();

    let mxid = "@test:example.org";
    let device = "test";
    assert_eq!(conn.homeserver(), "example.org");
    assert_eq!(conn.mxid("test"), mxid);

    assert!(conn.query_user(mxid).is_err());
    assert!(conn.create_device(mxid, device).is_err());
    assert!(conn.delete_device(mxid, device).is_err());

    let request = ProvisionRequest::new("@test:example.org".to_owned(), "test".to_owned())
        .set_displayname("Test User".to_owned())
        .set_avatar_url("mxc://example.org/1234567890".to_owned())
        .set_emails(vec!["test@example.org".to_owned()]);

    let inserted = conn.provision_user(&request).unwrap();
    assert!(inserted);

    let user = conn.query_user("@test:example.org").unwrap();
    assert_eq!(user.displayname, Some("Test User".to_owned()));
    assert_eq!(user.avatar_url, Some("mxc://example.org/1234567890".to_owned()));

    // Deleting a non-existent device should not fail
    assert!(conn.delete_device(mxid, device).is_ok());

    // Create the device
    assert!(conn.create_device(mxid, device).is_ok());
    // Create the same device again
    assert!(conn.create_device(mxid, device).is_ok());

    // Delete the device
    assert!(conn.delete_device(mxid, device).is_ok());
}

#[test]
fn idempotent_device_add() {
    let mut conn = fresh_conn();
    conn.provision_user(&base_request()).unwrap();

    assert!(conn.create_device("@alice:example.org", "dev1").is_ok());
    assert!(conn.create_device("@alice:example.org", "dev1").is_ok());
    // A single removal of the doubly-added device must suffice: a third
    // add after it re-registers rather than finding a leftover copy.
    assert!(conn.delete_device("@alice:example.org", "dev1").is_ok());
    assert!(conn.create_device("@alice:example.org", "dev1").is_ok());
}

#[test]
fn idempotent_device_removal() {
    let mut conn = fresh_conn();
    conn.provision_user(&base_request().set_displayname("Alice".to_owned()))
        .unwrap();

    // The device was never registered: removal succeeds and changes nothing.
    assert!(conn.delete_device("@alice:example.org", "ghost").is_ok());
    let user = conn.query_user("@alice:example.org").unwrap();
    assert_eq!(user.displayname, Some("Alice".to_owned()));
}

#[test]
fn partial_patch_does_not_clobber() {
    let mut conn = fresh_conn();
    conn.provision_user(&base_request().set_displayname("A".to_owned()))
        .unwrap();

    // A later request that only specifies the avatar leaves the
    // display name exactly as it was.
    let patch = base_request().set_avatar_url("mxc://example.org/pic".to_owned());
    assert_eq!(conn.provision_user(&patch).unwrap(), false);

    let user = conn.query_user("@alice:example.org").unwrap();
    assert_eq!(user.displayname, Some("A".to_owned()));
    assert_eq!(user.avatar_url, Some("mxc://example.org/pic".to_owned()));
}

#[test]
fn explicit_clear_vs_unspecified() {
    let mut conn = fresh_conn();
    conn.provision_user(&base_request().set_displayname("A".to_owned()))
        .unwrap();

    // A request that never mentions the display name must not clear it.
    conn.provision_user(&base_request()).unwrap();
    let user = conn.query_user("@alice:example.org").unwrap();
    assert_eq!(user.displayname, Some("A".to_owned()));

    // A request that explicitly sets the display name to none must clear it.
    conn.provision_user(&base_request().unset_displayname()).unwrap();
    let user = conn.query_user("@alice:example.org").unwrap();
    assert_eq!(user.displayname, None);
}

#[test]
fn sub_mismatch_rejected_without_mutation() {
    let mut conn = fresh_conn();
    conn.provision_user(
        &base_request()
            .set_displayname("A".to_owned())
            .set_avatar_url("mxc://example.org/a".to_owned()),
    )
    .unwrap();

    let hijack = ProvisionRequest::new("@alice:example.org".to_owned(), "other-sub".to_owned())
        .set_displayname("B".to_owned());
    assert_eq!(conn.provision_user(&hijack), Err(HomeserverError::Conflict));

    // The stored record is exactly as before the rejected call.
    let user = conn.query_user("@alice:example.org").unwrap();
    assert_eq!(user.displayname, Some("A".to_owned()));
    assert_eq!(user.avatar_url, Some("mxc://example.org/a".to_owned()));
}

#[test]
fn creation_flag_correctness() {
    let mut conn = fresh_conn();
    assert_eq!(conn.provision_user(&base_request()).unwrap(), true);
    assert_eq!(conn.provision_user(&base_request()).unwrap(), false);
    assert_eq!(
        conn.provision_user(&base_request().set_displayname("A".to_owned()))
            .unwrap(),
        false
    );
}

#[test]
fn erasure_semantics() {
    let mut conn = fresh_conn();
    conn.provision_user(
        &base_request()
            .set_displayname("A".to_owned())
            .set_avatar_url("mxc://example.org/a".to_owned())
            .set_emails(vec!["e1@example.org".to_owned()]),
    )
    .unwrap();
    conn.create_device("@alice:example.org", "d1").unwrap();
    conn.create_device("@alice:example.org", "d2").unwrap();

    // Soft deletion clears devices and emails but keeps the profile.
    assert!(conn.delete_user("@alice:example.org", false).is_ok());
    let user = conn.query_user("@alice:example.org").unwrap();
    assert_eq!(user.displayname, Some("A".to_owned()));
    assert_eq!(user.avatar_url, Some("mxc://example.org/a".to_owned()));

    // Erasure additionally clears the profile fields.
    assert!(conn.delete_user("@alice:example.org", true).is_ok());
    let user = conn.query_user("@alice:example.org").unwrap();
    assert_eq!(user.displayname, None);
    assert_eq!(user.avatar_url, None);

    // Deleting an already deleted account stays a success.
    assert!(conn.delete_user("@alice:example.org", false).is_ok());
}

#[test]
fn unknown_account_errors() {
    let mut conn = fresh_conn();
    let mxid = "@nobody:example.org";
    assert_eq!(conn.query_user(mxid).unwrap_err(), HomeserverError::NotFound);
    assert_eq!(
        conn.create_device(mxid, "d").unwrap_err(),
        HomeserverError::NotFound
    );
    assert_eq!(
        conn.delete_device(mxid, "d").unwrap_err(),
        HomeserverError::NotFound
    );
    assert_eq!(
        conn.delete_user(mxid, true).unwrap_err(),
        HomeserverError::NotFound
    );
}

#[test]
fn mxid_formats_full_identifier() {
    let conn = MockHomeserverConnection::new("matrix.example.com".to_owned());
    assert_eq!(conn.mxid("bob"), "@bob:matrix.example.com");
    assert_eq!(conn.mxid(""), "@:matrix.example.com");
}

#[test]
fn provision_emails_clear_and_set() {
    let mut conn = fresh_conn();
    conn.provision_user(&base_request().set_emails(vec![
        "one@example.org".to_owned(),
        "two@example.org".to_owned(),
    ]))
    .unwrap();

    // Explicitly clearing the email list is distinct from not mentioning it.
    conn.provision_user(&base_request().unset_emails()).unwrap();
    // The account is still there and still owned by the same subject.
    assert_eq!(conn.provision_user(&base_request()).unwrap(), false);
}
