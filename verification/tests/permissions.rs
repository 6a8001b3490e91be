use treesync::permissions::Permissions;

#[test]
fn permissions_test() {
    assert!(Permissions::Public.can_be_accessed(&Permissions::Public));
    assert!(!Permissions::User(None).can_be_accessed(&Permissions::Public));
    assert!(Permissions::User(None).can_be_accessed(&Permissions::User(Some(vec![]))));
    assert!(
        !Permissions::User(Some(vec!["test".to_string()]))
            .can_be_accessed(&Permissions::User(Some(vec![])))
    );
    assert!(
        Permissions::User(Some(vec!["test".to_string()])).can_be_accessed(&Permissions::User(
            Some(vec!["test".to_string(), "test2".to_string()])
        ))
    );
    assert!(
        !Permissions::User(Some(vec!["test3".to_string()])).can_be_accessed(&Permissions::User(
            Some(vec!["test".to_string(), "test2".to_string()])
        ))
    );
}

#[test]
fn admin_rows_of_the_table() {
    // Anything can be accessed by an Admin credential.
    assert!(Permissions::Admin.can_be_accessed(&Permissions::Admin));
    assert!(Permissions::User(None).can_be_accessed(&Permissions::Admin));
    assert!(Permissions::Public.can_be_accessed(&Permissions::Admin));
    // An Admin node admits nobody else.
    assert!(!Permissions::Admin.can_be_accessed(&Permissions::User(None)));
    assert!(!Permissions::Admin.can_be_accessed(&Permissions::Public));
    // A Public node admits everybody.
    assert!(Permissions::Public.can_be_accessed(&Permissions::User(None)));
    assert!(Permissions::Public.can_be_accessed(&Permissions::User(Some(vec![
        "g".to_string()
    ]))));
    // No User node admits a Public credential.
    assert!(!Permissions::User(Some(vec!["g".to_string()])).can_be_accessed(&Permissions::Public));
    // A User node without groups admits any User credential.
    assert!(Permissions::User(None).can_be_accessed(&Permissions::User(None)));
    // A User node with groups admits a group-less credential only when its
    // own group list is empty.
    assert!(Permissions::User(Some(vec![])).can_be_accessed(&Permissions::User(None)));
    assert!(!Permissions::User(Some(vec!["g".to_string()])).can_be_accessed(&Permissions::User(
        None
    )));
}
