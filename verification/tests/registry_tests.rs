use wizard_registry::address::Address;
use wizard_registry::auth::AuthContext;
use wizard_registry::errors::RegistryError;
use wizard_registry::registry::{ActionType, RegistryEvent, StellarWizardRegistry};

fn create_registry_contract(owner: &Address, fee_wallet: &Address) -> StellarWizardRegistry {
    let mut reg = StellarWizardRegistry::new();
    // Use 0% fee for tests to avoid token transfer issues
    reg.initialize(*owner, 0u32, *fee_wallet).unwrap();
    reg
}

/// An authorization context in which every principal a test uses has
/// authorized the call, like a test host that mocks all authorizations.
fn mock_all_auths(addresses: &[Address]) -> AuthContext {
    let mut auth = AuthContext::empty();
    for a in addresses {
        auth.authorize(*a);
    }
    auth
}

#[test]
fn test_initialize() {
    let owner = Address::new(1);
    let fee_wallet = Address::new(2);

    let mut reg = StellarWizardRegistry::new();
    reg.initialize(owner, 0u32, fee_wallet).unwrap();

    let config = reg.get_config().unwrap();
    assert_eq!(config.owner, owner);
    assert_eq!(config.fee_bps, 0u32);
    assert_eq!(config.fee_wallet, fee_wallet);
    assert_eq!(config.paused, false);
}

#[test]
fn test_initialize_twice() {
    let owner = Address::new(1);
    let fee_wallet = Address::new(2);

    let mut reg = StellarWizardRegistry::new();
    reg.initialize(owner, 0u32, fee_wallet).unwrap();

    let second = reg.initialize(owner, 0u32, fee_wallet);
    assert_eq!(second, Err(RegistryError::AlreadyInitialized));
}

#[test]
fn test_log_and_route() {
    let owner = Address::new(1);
    let fee_wallet = Address::new(2);
    let user = Address::new(3);
    let token = Address::new(4);
    let auth = mock_all_auths(&[owner, user]);

    let mut reg = create_registry_contract(&owner, &fee_wallet);

    let outcome = reg
        .log_and_route(
            &auth,
            user,
            ActionType::NFT,
            String::from("test_hash"),
            String::from("payload_ref"),
            String::from("testnet"),
            10000i128,
            token,
            0,
        )
        .unwrap();

    assert_eq!(outcome.id, 1u64);

    // Verify record was created
    let record = reg.get_record(outcome.id).unwrap();
    assert_eq!(record.id, 1u64);
    assert_eq!(record.user, user);
    assert_eq!(record.action_type, ActionType::NFT);
    assert_eq!(record.plan_hash, String::from("test_hash"));
    assert_eq!(record.fee_amount, 0i128); // 0% fee in tests
    assert_eq!(record.total_amount, 10000i128);

    // Verify user index was updated
    let user_records = reg.get_user_records(user);
    assert_eq!(user_records.len(), 1);
    assert_eq!(*user_records.first().unwrap(), 1u64);
}

#[test]
fn test_append_tx_ref() {
    let owner = Address::new(1);
    let fee_wallet = Address::new(2);
    let user = Address::new(3);
    let token = Address::new(4);
    let auth = mock_all_auths(&[owner, user]);

    let mut reg = create_registry_contract(&owner, &fee_wallet);

    let outcome = reg
        .log_and_route(
            &auth,
            user,
            ActionType::DEFI,
            String::from("test_hash"),
            String::from("payload_ref"),
            String::from("testnet"),
            5000i128,
            token,
            0,
        )
        .unwrap();
    let action_id = outcome.id;

    // Add transaction reference
    reg.append_tx_ref(&auth, user, action_id, String::from("tx_hash_123")).unwrap();

    // Verify tx ref was added
    let record = reg.get_record(action_id).unwrap();
    assert_eq!(record.tx_refs.len(), 1);
    assert_eq!(*record.tx_refs.first().unwrap(), String::from("tx_hash_123"));

    // Add another tx ref
    reg.append_tx_ref(&auth, user, action_id, String::from("tx_hash_456")).unwrap();

    let updated_record = reg.get_record(action_id).unwrap();
    assert_eq!(updated_record.tx_refs.len(), 2);
}

#[test]
fn test_unauthorized_append_tx_ref() {
    let owner = Address::new(1);
    let fee_wallet = Address::new(2);
    let user = Address::new(3);
    let other_user = Address::new(5);
    let token = Address::new(4);
    let auth = mock_all_auths(&[owner, user, other_user]);

    let mut reg = create_registry_contract(&owner, &fee_wallet);

    let outcome = reg
        .log_and_route(
            &auth,
            user,
            ActionType::NFT,
            String::from("test_hash"),
            String::from("payload_ref"),
            String::from("testnet"),
            1000i128,
            token,
            0,
        )
        .unwrap();

    // Try to append tx ref with different user - should fail
    let result = reg.append_tx_ref(&auth, other_user, outcome.id, String::from("tx_hash"));
    assert_eq!(result, Err(RegistryError::NotAuthorized));
}

#[test]
fn test_fee_management() {
    let owner = Address::new(1);
    let fee_wallet = Address::new(2);
    let new_fee_wallet = Address::new(6);
    let auth = mock_all_auths(&[owner]);

    let mut reg = create_registry_contract(&owner, &fee_wallet);

    // Test fee rate update
    reg.set_fee_bps(&auth, 500u32).unwrap(); // 5%
    let config = reg.get_config().unwrap();
    assert_eq!(config.fee_bps, 500u32);

    // Test fee wallet update
    reg.set_fee_wallet(&auth, new_fee_wallet).unwrap();
    let updated_config = reg.get_config().unwrap();
    assert_eq!(updated_config.fee_wallet, new_fee_wallet);
}

#[test]
fn test_invalid_fee_rate() {
    let owner = Address::new(1);
    let fee_wallet = Address::new(2);
    let auth = mock_all_auths(&[owner]);

    let mut reg = create_registry_contract(&owner, &fee_wallet);

    // Try to set fee rate above the 10000 basis-point ceiling
    let result = reg.set_fee_bps(&auth, 15000u32);
    assert_eq!(result, Err(RegistryError::InvalidFeeRate));

    // The stored rate is unchanged after the failed attempt
    let config = reg.get_config().unwrap();
    assert_eq!(config.fee_bps, 0u32);
}

#[test]
fn test_pause_functionality() {
    let owner = Address::new(1);
    let fee_wallet = Address::new(2);
    let user = Address::new(3);
    let token = Address::new(4);
    let auth = mock_all_auths(&[owner, user]);

    let mut reg = create_registry_contract(&owner, &fee_wallet);

    // Pause the contract
    reg.set_paused(&auth, true).unwrap();

    let config = reg.get_config().unwrap();
    assert_eq!(config.paused, true);

    // Try to log action while paused - should fail
    let result = reg.log_and_route(
        &auth,
        user,
        ActionType::NFT,
        String::from("test_hash"),
        String::from("payload_ref"),
        String::from("testnet"),
        1000i128,
        token,
        0,
    );
    assert_eq!(result.unwrap_err(), RegistryError::ContractPaused);

    // Reads still succeed while paused
    assert_eq!(reg.get_total_records(), 0u64);
    assert!(reg.get_config().is_ok());
    assert_eq!(reg.get_user_records(user).len(), 0);

    // Unpause and try again
    reg.set_paused(&auth, false).unwrap();
    let outcome = reg
        .log_and_route(
            &auth,
            user,
            ActionType::NFT,
            String::from("test_hash"),
            String::from("payload_ref"),
            String::from("testnet"),
            1000i128,
            token,
            0,
        )
        .unwrap();
    // No ID was consumed by the failed, paused attempt
    assert_eq!(outcome.id, 1u64);
}

#[test]
fn test_ownership_transfer() {
    let owner = Address::new(1);
    let fee_wallet = Address::new(2);
    let new_owner = Address::new(7);
    let auth = mock_all_auths(&[owner]);

    let mut reg = create_registry_contract(&owner, &fee_wallet);

    // Transfer ownership
    reg.transfer_ownership(&auth, new_owner).unwrap();

    let config = reg.get_config().unwrap();
    assert_eq!(config.owner, new_owner);
}

fn log_n_actions(reg: &mut StellarWizardRegistry, auth: &AuthContext, user: Address, n: u32) {
    let token = Address::new(4);
    for i in 1..=n {
        reg.log_and_route(
            auth,
            user,
            ActionType::NFT,
            format!("hash_{}", i),
            String::from("payload_ref"),
            String::from("testnet"),
            1000i128 * i as i128,
            token,
            0,
        )
        .unwrap();
    }
}

#[test]
fn test_get_records_range() {
    let owner = Address::new(1);
    let fee_wallet = Address::new(2);
    let user = Address::new(3);
    let auth = mock_all_auths(&[owner, user]);

    let mut reg = create_registry_contract(&owner, &fee_wallet);

    // Create multiple records
    log_n_actions(&mut reg, &auth, user, 5);

    // Test range query
    let records = reg.get_records_range(2u64, 3u32);
    assert_eq!(records.len(), 3);
    assert_eq!(records[0].id, 2u64);
    assert_eq!(records[1].id, 3u64);
    assert_eq!(records[2].id, 4u64);

    // Test total records
    assert_eq!(reg.get_total_records(), 5u64);
}

#[test]
fn test_zero_amount_rejected() {
    let owner = Address::new(1);
    let fee_wallet = Address::new(2);
    let user = Address::new(3);
    let token = Address::new(4);
    let auth = mock_all_auths(&[owner, user]);

    let mut reg = create_registry_contract(&owner, &fee_wallet);

    // Try to log action with zero amount - should fail
    let result = reg.log_and_route(
        &auth,
        user,
        ActionType::NFT,
        String::from("test_hash"),
        String::from("payload_ref"),
        String::from("testnet"),
        0i128,
        token,
        0,
    );
    assert_eq!(result.unwrap_err(), RegistryError::InvalidAmount);
}

#[test]
fn test_negative_amount_rejected() {
    let owner = Address::new(1);
    let fee_wallet = Address::new(2);
    let user = Address::new(3);
    let token = Address::new(4);
    let auth = mock_all_auths(&[owner, user]);

    let mut reg = create_registry_contract(&owner, &fee_wallet);

    let result = reg.log_and_route(
        &auth,
        user,
        ActionType::DEFI,
        String::from("test_hash"),
        String::from("payload_ref"),
        String::from("testnet"),
        -5i128,
        token,
        0,
    );
    assert_eq!(result.unwrap_err(), RegistryError::InvalidAmount);
}

#[test]
fn test_fee_amount_stored() {
    let owner = Address::new(1);
    let fee_wallet = Address::new(2);
    let user = Address::new(3);
    let token = Address::new(4);
    let auth = mock_all_auths(&[owner, user]);

    let mut reg = StellarWizardRegistry::new();
    reg.initialize(owner, 500u32, fee_wallet).unwrap();

    let outcome = reg
        .log_and_route(
            &auth,
            user,
            ActionType::NFT,
            String::from("test_hash"),
            String::from("payload_ref"),
            String::from("testnet"),
            10000i128,
            token,
            0,
        )
        .unwrap();

    // total 10000 at 500 bps stores a fee of 500
    let record = reg.get_record(outcome.id).unwrap();
    assert_eq!(record.fee_amount, 500i128);
    let transfer = outcome.fee_transfer.unwrap();
    assert_eq!(transfer.amount, 500i128);
    assert_eq!(transfer.from, user);
    assert_eq!(transfer.to, fee_wallet);
    assert_eq!(transfer.token, token);
}

#[test]
fn test_no_fee_event_at_zero_rate() {
    let owner = Address::new(1);
    let fee_wallet = Address::new(2);
    let user = Address::new(3);
    let token = Address::new(4);
    let auth = mock_all_auths(&[owner, user]);

    let mut reg = create_registry_contract(&owner, &fee_wallet);

    let outcome = reg
        .log_and_route(
            &auth,
            user,
            ActionType::NFT,
            String::from("test_hash"),
            String::from("payload_ref"),
            String::from("testnet"),
            10000i128,
            token,
            0,
        )
        .unwrap();

    // At a zero rate there is no fee transfer and no fee event
    assert!(outcome.fee_transfer.is_none());
    assert_eq!(reg.events.len(), 1);
    assert!(matches!(reg.events[0], RegistryEvent::ActionLogged { .. }));
    assert!(!reg.events.iter().any(|e| matches!(e, RegistryEvent::FeePaid { .. })));
}

#[test]
fn test_fee_event_at_positive_rate() {
    let owner = Address::new(1);
    let fee_wallet = Address::new(2);
    let user = Address::new(3);
    let token = Address::new(4);
    let auth = mock_all_auths(&[owner, user]);

    let mut reg = StellarWizardRegistry::new();
    reg.initialize(owner, 500u32, fee_wallet).unwrap();

    reg.log_and_route(
        &auth,
        user,
        ActionType::NFT,
        String::from("test_hash"),
        String::from("payload_ref"),
        String::from("testnet"),
        10000i128,
        token,
        0,
    )
    .unwrap();

    assert_eq!(reg.events.len(), 2);
    assert!(matches!(
        reg.events[0],
        RegistryEvent::FeePaid { id: 1, amount: 500, .. }
    ));
    assert!(matches!(reg.events[1], RegistryEvent::ActionLogged { id: 1, .. }));
}

#[test]
fn test_tx_refs_call_order() {
    let owner = Address::new(1);
    let fee_wallet = Address::new(2);
    let user = Address::new(3);
    let token = Address::new(4);
    let auth = mock_all_auths(&[owner, user]);

    let mut reg = create_registry_contract(&owner, &fee_wallet);

    let outcome = reg
        .log_and_route(
            &auth,
            user,
            ActionType::NFT,
            String::from("h"),
            String::from("p"),
            String::from("n"),
            10i128,
            token,
            0,
        )
        .unwrap();

    reg.append_tx_ref(&auth, user, outcome.id, String::from("a")).unwrap();
    reg.append_tx_ref(&auth, user, outcome.id, String::from("b")).unwrap();

    let record = reg.get_record(outcome.id).unwrap();
    assert_eq!(record.tx_refs, vec![String::from("a"), String::from("b")]);
}

#[test]
fn test_get_record_not_found() {
    let owner = Address::new(1);
    let fee_wallet = Address::new(2);

    let reg = create_registry_contract(&owner, &fee_wallet);
    assert_eq!(reg.get_record(1).unwrap_err(), RegistryError::RecordNotFound);
    assert_eq!(reg.get_record(0).unwrap_err(), RegistryError::RecordNotFound);
}

#[test]
fn test_uninitialized_config_missing() {
    let reg = StellarWizardRegistry::new();
    assert_eq!(reg.get_config().unwrap_err(), RegistryError::RecordNotFound);
}

#[test]
fn test_setter_requires_owner() {
    let owner = Address::new(1);
    let fee_wallet = Address::new(2);
    let stranger = Address::new(9);
    let auth = mock_all_auths(&[stranger]);

    let mut reg = create_registry_contract(&owner, &fee_wallet);

    // The stranger authorized the call, but is not the owner
    assert_eq!(reg.set_fee_bps(&auth, 100).unwrap_err(), RegistryError::NotAuthorized);
    assert_eq!(reg.set_paused(&auth, true).unwrap_err(), RegistryError::NotAuthorized);
    assert_eq!(
        reg.transfer_ownership(&auth, stranger).unwrap_err(),
        RegistryError::NotAuthorized
    );
}

#[test]
fn test_range_cursor_past_end() {
    let owner = Address::new(1);
    let fee_wallet = Address::new(2);
    let user = Address::new(3);
    let auth = mock_all_auths(&[owner, user]);

    let mut reg = create_registry_contract(&owner, &fee_wallet);
    log_n_actions(&mut reg, &auth, user, 3);

    // A cursor at or past the next ID yields an empty page, not an error
    assert_eq!(reg.get_records_range(4, 10).len(), 0);
    assert_eq!(reg.get_records_range(100, 1).len(), 0);
}

#[test]
fn test_range_zero_limit_means_all() {
    let owner = Address::new(1);
    let fee_wallet = Address::new(2);
    let user = Address::new(3);
    let auth = mock_all_auths(&[owner, user]);

    let mut reg = create_registry_contract(&owner, &fee_wallet);
    log_n_actions(&mut reg, &auth, user, 4);

    // The registry treats a zero limit as "through the last record"
    let records = reg.get_records_range(2, 0);
    assert_eq!(records.len(), 3);
    assert_eq!(records[0].id, 2);
    assert_eq!(records[2].id, 4);
}

#[test]
fn test_range_pages_concatenate() {
    let owner = Address::new(1);
    let fee_wallet = Address::new(2);
    let user = Address::new(3);
    let auth = mock_all_auths(&[owner, user]);

    let mut reg = create_registry_contract(&owner, &fee_wallet);
    log_n_actions(&mut reg, &auth, user, 5);

    let mut paged: Vec<u64> = Vec::new();
    for rec in reg.get_records_range(1, 2) {
        paged.push(rec.id);
    }
    for rec in reg.get_records_range(3, 2) {
        paged.push(rec.id);
    }
    for rec in reg.get_records_range(5, 2) {
        paged.push(rec.id);
    }
    let whole: Vec<u64> = reg.get_records_range(1, 10).iter().map(|r| r.id).collect();
    assert_eq!(paged, whole);
    assert_eq!(whole, vec![1, 2, 3, 4, 5]);
}
