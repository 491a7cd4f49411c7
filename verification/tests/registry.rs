use credential_registry::{
    get_credential, get_credential_count, get_user_credentials, issue_credential, require_admin,
    revoke_credential, verify_credential, Caller, Credential, CredentialKey, Identity,
    RegistryError, RegistryState,
};

fn identity(address: &str) -> Identity {
    Identity::new(String::from(address))
}

fn admin_caller() -> Caller {
    Caller::authenticated(identity("admin"))
}

fn issue_to(state: &mut RegistryState, recipient: &str, title: &str, now: u64) -> u64 {
    issue_credential(
        state,
        &admin_caller(),
        identity(recipient),
        String::from(title),
        String::from("description"),
        String::from("course"),
        String::from("document"),
        now,
    )
    .unwrap()
}

#[test]
fn test_issue_and_verify_credential() {
    let admin = identity("admin");
    let recipient = identity("recipient");
    let mut state = RegistryState::new(admin.clone());

    let cred_id = issue_credential(
        &mut state,
        &Caller::authenticated(admin.clone()),
        recipient.clone(),
        String::from("Rust on Stellar"),
        String::from("Completed Soroban basics"),
        String::from("course-001"),
        String::from("ipfs://Qm..."),
        1_700_000_000,
    )
    .unwrap();

    assert_eq!(cred_id, 1);
    assert_eq!(get_credential_count(&state), 1);

    let cred = get_credential(&state, cred_id).unwrap();
    assert_eq!(cred.recipient, recipient);
    assert!(!cred.is_revoked);

    assert!(verify_credential(&state, cred_id).unwrap());

    revoke_credential(&mut state, cred_id, &Caller::authenticated(admin.clone())).unwrap();
    let revoked_cred = get_credential(&state, cred_id).unwrap();
    assert!(revoked_cred.is_revoked);

    assert!(!verify_credential(&state, cred_id).unwrap());

    let user_creds: Vec<u64> = get_user_credentials(&state, &recipient);
    assert_eq!(user_creds.len(), 1);
    assert_eq!(*user_creds.get(0).unwrap(), 1);
}

#[test]
fn issued_credential_holds_what_it_was_issued_with() {
    let mut state = RegistryState::new(identity("admin"));
    let id = issue_credential(
        &mut state,
        &admin_caller(),
        identity("alice"),
        String::from("Rust on Stellar"),
        String::from("Completed Soroban basics"),
        String::from("course-001"),
        String::from("ipfs://Qm..."),
        42,
    );
    assert_eq!(id, Ok(1));
    let expected = Credential {
        id: 1,
        issuer: identity("admin"),
        recipient: identity("alice"),
        title: String::from("Rust on Stellar"),
        description: String::from("Completed Soroban basics"),
        course_id: String::from("course-001"),
        completion_date: 42,
        ipfs_hash: String::from("ipfs://Qm..."),
        is_revoked: false,
    };
    assert_eq!(get_credential(&state, 1), Ok(expected));
}

#[test]
fn ids_start_at_one_and_have_no_gaps() {
    let mut state = RegistryState::new(identity("admin"));
    assert_eq!(get_credential_count(&state), 0);
    for expected in 1..=20u64 {
        let recipient = if expected % 2 == 0 { "alice" } else { "bob" };
        assert_eq!(issue_to(&mut state, recipient, "t", expected), expected);
        assert_eq!(get_credential_count(&state), expected);
        assert_eq!(get_credential(&state, expected).unwrap().id, expected);
    }
}

#[test]
fn count_ignores_refused_calls_and_revocations() {
    let mut state = RegistryState::new(identity("admin"));
    issue_to(&mut state, "alice", "a", 1);
    issue_to(&mut state, "bob", "b", 2);
    let stranger = Caller::authenticated(identity("mallory"));
    assert_eq!(
        issue_credential(
            &mut state,
            &stranger,
            identity("mallory"),
            String::from("t"),
            String::from("d"),
            String::from("c"),
            String::from("h"),
            3,
        ),
        Err(RegistryError::Unauthorized)
    );
    assert_eq!(revoke_credential(&mut state, 1, &admin_caller()), Ok(()));
    assert_eq!(revoke_credential(&mut state, 7, &admin_caller()), Err(RegistryError::NotFound));
    assert_eq!(get_credential_count(&state), 2);
}

#[test]
fn valid_until_revoked_then_never_again() {
    let mut state = RegistryState::new(identity("admin"));
    issue_to(&mut state, "alice", "a", 1);
    issue_to(&mut state, "alice", "b", 2);
    assert_eq!(verify_credential(&state, 1), Ok(true));
    assert_eq!(verify_credential(&state, 2), Ok(true));

    assert_eq!(revoke_credential(&mut state, 1, &admin_caller()), Ok(()));
    assert_eq!(verify_credential(&state, 1), Ok(false));
    assert_eq!(verify_credential(&state, 2), Ok(true));

    assert_eq!(revoke_credential(&mut state, 1, &admin_caller()), Ok(()));
    assert_eq!(verify_credential(&state, 1), Ok(false));

    issue_to(&mut state, "bob", "c", 3);
    assert_eq!(revoke_credential(&mut state, 3, &admin_caller()), Ok(()));
    assert_eq!(verify_credential(&state, 1), Ok(false));
    assert_eq!(verify_credential(&state, 2), Ok(true));
    assert_eq!(verify_credential(&state, 3), Ok(false));
}

#[test]
fn revocation_changes_only_the_flag() {
    let mut state = RegistryState::new(identity("admin"));
    issue_to(&mut state, "alice", "a", 11);
    let before = get_credential(&state, 1).unwrap();
    revoke_credential(&mut state, 1, &admin_caller()).unwrap();
    let after = get_credential(&state, 1).unwrap();
    assert_eq!(after, Credential { is_revoked: true, ..before });
    assert_eq!(after.completion_date, 11);
}

#[test]
fn revoke_by_non_admin_is_unauthorized_and_changes_nothing() {
    let mut state = RegistryState::new(identity("admin"));
    issue_to(&mut state, "alice", "a", 1);
    let alice = Caller::authenticated(identity("alice"));
    assert_eq!(revoke_credential(&mut state, 1, &alice), Err(RegistryError::Unauthorized));
    assert!(!get_credential(&state, 1).unwrap().is_revoked);
    assert_eq!(verify_credential(&state, 1), Ok(true));
}

#[test]
fn revoke_asks_the_gate_before_looking_up_the_id() {
    let mut state = RegistryState::new(identity("admin"));
    let alice = Caller::authenticated(identity("alice"));
    assert_eq!(revoke_credential(&mut state, 5, &alice), Err(RegistryError::Unauthorized));
    let unproved = Caller::unauthenticated(identity("admin"));
    assert_eq!(revoke_credential(&mut state, 5, &unproved), Err(RegistryError::Unauthenticated));
    assert_eq!(revoke_credential(&mut state, 5, &admin_caller()), Err(RegistryError::NotFound));
    assert_eq!(revoke_credential(&mut state, 0, &admin_caller()), Err(RegistryError::NotFound));
}

#[test]
fn unproved_admin_claim_is_unauthenticated() {
    let mut state = RegistryState::new(identity("admin"));
    issue_to(&mut state, "alice", "a", 1);
    let unproved = Caller::unauthenticated(identity("admin"));
    assert_eq!(
        issue_credential(
            &mut state,
            &unproved,
            identity("alice"),
            String::from("t"),
            String::from("d"),
            String::from("c"),
            String::from("h"),
            2,
        ),
        Err(RegistryError::Unauthenticated)
    );
    assert_eq!(revoke_credential(&mut state, 1, &unproved), Err(RegistryError::Unauthenticated));
    assert_eq!(get_credential_count(&state), 1);
    assert_eq!(verify_credential(&state, 1), Ok(true));
}

#[test]
fn gate_distinguishes_its_three_answers() {
    let state = RegistryState::new(identity("admin"));
    assert_eq!(require_admin(&admin_caller(), &state), Ok(()));
    assert_eq!(
        require_admin(&Caller::authenticated(identity("admin ")), &state),
        Err(RegistryError::Unauthorized)
    );
    assert_eq!(
        require_admin(&Caller::unauthenticated(identity("admin")), &state),
        Err(RegistryError::Unauthenticated)
    );
    assert_eq!(
        require_admin(&Caller::unauthenticated(identity("mallory")), &state),
        Err(RegistryError::Unauthenticated)
    );
    assert_eq!(state.admin(), &identity("admin"));
}

#[test]
fn user_credentials_follow_issuance_order() {
    let mut state = RegistryState::new(identity("admin"));
    issue_to(&mut state, "alice", "a", 1);
    issue_to(&mut state, "bob", "b", 2);
    issue_to(&mut state, "alice", "c", 3);
    issue_to(&mut state, "carol", "d", 4);
    issue_to(&mut state, "alice", "e", 5);
    issue_to(&mut state, "bob", "f", 6);
    assert_eq!(get_user_credentials(&state, &identity("alice")), vec![1, 3, 5]);
    assert_eq!(get_user_credentials(&state, &identity("bob")), vec![2, 6]);
    assert_eq!(get_user_credentials(&state, &identity("carol")), vec![4]);
    assert_eq!(get_user_credentials(&state, &identity("dave")), Vec::<u64>::new());
    assert_eq!(get_user_credentials(&state, &identity("admin")), Vec::<u64>::new());

    revoke_credential(&mut state, 3, &admin_caller()).unwrap();
    assert_eq!(get_user_credentials(&state, &identity("alice")), vec![1, 3, 5]);
    for id in get_user_credentials(&state, &identity("alice")) {
        assert_eq!(get_credential(&state, id).unwrap().recipient, identity("alice"));
    }
}

#[test]
fn scenario_issue_then_revoke() {
    let recipient = identity("R");
    let mut state = RegistryState::new(identity("admin"));
    let id = issue_credential(
        &mut state,
        &admin_caller(),
        recipient.clone(),
        String::from("Rust on Stellar"),
        String::from("d"),
        String::from("c"),
        String::from("h"),
        9,
    );
    assert_eq!(id, Ok(1));
    assert_eq!(get_credential_count(&state), 1);
    assert_eq!(get_credential(&state, 1).unwrap().recipient, recipient);
    assert_eq!(get_credential(&state, 1).unwrap().title, "Rust on Stellar");
    assert_eq!(verify_credential(&state, 1), Ok(true));

    assert_eq!(revoke_credential(&mut state, 1, &admin_caller()), Ok(()));
    assert!(get_credential(&state, 1).unwrap().is_revoked);
    assert_eq!(verify_credential(&state, 1), Ok(false));
    assert_eq!(get_user_credentials(&state, &recipient), vec![1]);
}

#[test]
fn scenario_issue_by_non_admin() {
    let mut state = RegistryState::new(identity("admin"));
    issue_to(&mut state, "alice", "a", 1);
    let bob = Caller::authenticated(identity("bob"));
    let refused = issue_credential(
        &mut state,
        &bob,
        identity("bob"),
        String::from("t"),
        String::from("d"),
        String::from("c"),
        String::from("h"),
        2,
    );
    assert_eq!(refused, Err(RegistryError::Unauthorized));
    assert_eq!(get_credential_count(&state), 1);
    assert_eq!(get_credential(&state, 2), Err(RegistryError::NotFound));
    assert_eq!(get_user_credentials(&state, &identity("bob")), Vec::<u64>::new());
}

#[test]
fn scenario_verify_missing_id() {
    let mut state = RegistryState::new(identity("admin"));
    assert_eq!(verify_credential(&state, 999), Err(RegistryError::NotFound));
    issue_to(&mut state, "alice", "a", 1);
    assert_eq!(verify_credential(&state, 999), Err(RegistryError::NotFound));
    assert_eq!(verify_credential(&state, 0), Err(RegistryError::NotFound));
    assert_eq!(verify_credential(&state, 2), Err(RegistryError::NotFound));
    assert_eq!(verify_credential(&state, u64::MAX), Err(RegistryError::NotFound));
}

#[test]
fn get_credential_never_fabricates_a_record() {
    let mut state = RegistryState::new(identity("admin"));
    assert_eq!(get_credential(&state, 0), Err(RegistryError::NotFound));
    assert_eq!(get_credential(&state, 1), Err(RegistryError::NotFound));
    issue_to(&mut state, "alice", "a", 1);
    assert_eq!(get_credential(&state, 0), Err(RegistryError::NotFound));
    assert!(get_credential(&state, 1).is_ok());
    assert_eq!(get_credential(&state, 2), Err(RegistryError::NotFound));
}

#[test]
fn store_accessors_agree_with_the_operations() {
    let mut state = RegistryState::new(identity("admin"));
    assert_eq!(state.credential_count(), 0);
    assert!(!state.contains(1));
    assert!(state.credential(1).is_none());
    issue_to(&mut state, "alice", "a", 5);
    assert_eq!(state.credential_count(), 1);
    assert!(state.contains(1));
    assert!(!state.contains(0));
    assert!(!state.contains(2));
    assert_eq!(state.credential(1).unwrap().completion_date, 5);
    assert_eq!(state.recipient_ids(&identity("alice")), vec![1]);
    state.mark_revoked(1);
    assert!(state.credential(1).unwrap().is_revoked);
    state.mark_revoked(1);
    assert!(state.credential(1).unwrap().is_revoked);
}

#[test]
fn record_assigns_the_next_id_whatever_id_came_in() {
    let mut state = RegistryState::new(identity("admin"));
    let incoming = Credential {
        id: 77,
        issuer: identity("admin"),
        recipient: identity("alice"),
        title: String::from("t"),
        description: String::from("d"),
        course_id: String::from("c"),
        completion_date: 3,
        ipfs_hash: String::from("h"),
        is_revoked: true,
    };
    assert_eq!(state.record(incoming.clone()), 1);
    assert_eq!(state.record(incoming.clone()), 2);
    assert_eq!(get_credential(&state, 2), Ok(Credential { id: 2, ..incoming }));
    assert_eq!(verify_credential(&state, 2), Ok(false));
    assert_eq!(get_user_credentials(&state, &identity("alice")), vec![1, 2]);
}

#[test]
fn keys_present_in_the_tables() {
    let mut state = RegistryState::new(identity("admin"));
    assert!(!state.has_key(&CredentialKey::CredentialCount));
    assert!(!state.has_key(&CredentialKey::Credential(1)));
    assert!(!state.has_key(&CredentialKey::UserCredentials(identity("alice"))));
    issue_to(&mut state, "alice", "a", 1);
    assert!(state.has_key(&CredentialKey::CredentialCount));
    assert!(state.has_key(&CredentialKey::Credential(1)));
    assert!(!state.has_key(&CredentialKey::Credential(0)));
    assert!(!state.has_key(&CredentialKey::Credential(2)));
    assert!(state.has_key(&CredentialKey::UserCredentials(identity("alice"))));
    assert!(!state.has_key(&CredentialKey::UserCredentials(identity("bob"))));
}

#[test]
fn identities_compare_by_address() {
    assert!(identity("GABC").same_as(&identity("GABC")));
    assert!(!identity("GABC").same_as(&identity("GABD")));
    assert!(!identity("GABC").same_as(&identity("")));
    assert_eq!(identity("GABC").clone(), identity("GABC"));
    assert!(Caller::authenticated(identity("a")).authenticated);
    assert!(!Caller::unauthenticated(identity("a")).authenticated);
}
