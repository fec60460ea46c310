use wizard_registry::address::Address;
use wizard_registry::auth::AuthContext;
use wizard_registry::errors::RegistryError;
use wizard_registry::factory::{collection_salt, Event, FactoryEvent, FactoryRegistry};
use wizard_registry::fee;

fn create_factory_contract() -> FactoryRegistry {
    FactoryRegistry::new()
}

fn create_test_nft_wasm_hash() -> [u8; 32] {
    // In real scenarios, this would be the actual WASM hash of the NFT contract
    // For testing, we'll use a dummy hash
    [1u8; 32]
}

fn mock_all_auths(addresses: &[Address]) -> AuthContext {
    let mut auth = AuthContext::empty();
    for a in addresses {
        auth.authorize(*a);
    }
    auth
}

/// Creates a collection the way the contract shell would: the child address
/// is what the deployment collaborator returns for the salt of the next ID.
fn create_collection_with(
    factory: &mut FactoryRegistry,
    auth: &AuthContext,
    creator: Address,
    name: &str,
    symbol: &str,
    uri_base: &str,
    royalties_bps: u32,
    contract_id: Address,
) -> Result<u128, RegistryError> {
    factory.create_collection(
        auth,
        creator,
        String::from(name),
        String::from(symbol),
        String::from(uri_base),
        royalties_bps,
        contract_id,
        0,
    )
}

#[test]
fn test_factory_initialization() {
    let mut factory = create_factory_contract();

    let owner = Address::new(1);
    let fee_wallet = Address::new(2);
    let nft_wasm_hash = create_test_nft_wasm_hash();
    let fee_bps = 250; // 2.5%
    let auth = mock_all_auths(&[owner]);

    // Initialize factory
    factory.initialize(&auth, owner, fee_bps, fee_wallet, nft_wasm_hash).unwrap();

    // Verify config was set correctly
    let config = factory.get_config().unwrap();
    assert_eq!(config.owner, owner);
    assert_eq!(config.fee_bps, fee_bps);
    assert_eq!(config.fee_wallet, fee_wallet);
    assert_eq!(config.nft_wasm_hash, nft_wasm_hash);

    // Verify initial state
    assert_eq!(factory.get_next_collection_id(), 1u128);
    assert_eq!(factory.get_total_collections(), 0u128);
}

#[test]
fn test_factory_double_initialization_fails() {
    let mut factory = create_factory_contract();

    let owner = Address::new(1);
    let fee_wallet = Address::new(2);
    let nft_wasm_hash = create_test_nft_wasm_hash();
    let auth = mock_all_auths(&[owner]);

    // Initialize once
    factory.initialize(&auth, owner, 200, fee_wallet, nft_wasm_hash).unwrap();

    // Try to initialize again - should fail
    let second = factory.initialize(&auth, owner, 300, fee_wallet, nft_wasm_hash);
    assert_eq!(second, Err(RegistryError::AlreadyInitialized));
}

#[test]
fn test_factory_invalid_fee_bps() {
    let mut factory = create_factory_contract();

    let owner = Address::new(1);
    let fee_wallet = Address::new(2);
    let nft_wasm_hash = create_test_nft_wasm_hash();
    let auth = mock_all_auths(&[owner]);

    // Try to initialize with invalid fee BPS (over 100%)
    let result = factory.initialize(&auth, owner, 15000, fee_wallet, nft_wasm_hash);
    assert_eq!(result, Err(RegistryError::InvalidFeeRate));
}

#[test]
fn test_set_config() {
    let mut factory = create_factory_contract();

    let owner = Address::new(1);
    let fee_wallet = Address::new(2);
    let new_fee_wallet = Address::new(3);
    let nft_wasm_hash = create_test_nft_wasm_hash();
    let new_nft_wasm_hash = [2u8; 32];
    let auth = mock_all_auths(&[owner]);

    // Initialize factory
    factory.initialize(&auth, owner, 200, fee_wallet, nft_wasm_hash).unwrap();

    // Update config
    factory.set_config(&auth, 500, new_fee_wallet, new_nft_wasm_hash).unwrap();

    // Verify config was updated
    let config = factory.get_config().unwrap();
    assert_eq!(config.owner, owner); // Owner should remain the same
    assert_eq!(config.fee_bps, 500);
    assert_eq!(config.fee_wallet, new_fee_wallet);
    assert_eq!(config.nft_wasm_hash, new_nft_wasm_hash);
}

#[test]
fn test_create_collection() {
    let mut factory = create_factory_contract();

    let owner = Address::new(1);
    let fee_wallet = Address::new(2);
    let creator = Address::new(5);
    let child = Address::new(100);
    let nft_wasm_hash = create_test_nft_wasm_hash();
    let auth = mock_all_auths(&[owner, creator]);

    // Initialize factory
    factory.initialize(&auth, owner, 200, fee_wallet, nft_wasm_hash).unwrap();

    // Create collection
    let collection_name = "Stellar Wizards";
    let collection_symbol = "SWIZ";
    let uri_base = "https://api.stellarwizards.com/metadata";
    let royalties_bps = 250;

    let collection_id = create_collection_with(
        &mut factory,
        &auth,
        creator,
        collection_name,
        collection_symbol,
        uri_base,
        royalties_bps,
        child,
    )
    .unwrap();

    // Verify collection was created
    assert_eq!(collection_id, 1u128);
    assert_eq!(factory.get_next_collection_id(), 2u128);
    assert_eq!(factory.get_total_collections(), 1u128);

    // Verify collection metadata
    let collection = factory.get_collection(collection_id).unwrap();
    assert_eq!(collection.name, String::from(collection_name));
    assert_eq!(collection.symbol, String::from(collection_symbol));
    assert_eq!(collection.creator, creator);
    assert_eq!(collection.uri_base, String::from(uri_base));
    assert_eq!(collection.royalties_bps, royalties_bps);
    assert_eq!(collection.contract_id, child);

    // Verify creator's collection list
    let creator_collections = factory.list_by_creator(creator);
    assert_eq!(creator_collections.len(), 1);
    assert_eq!(creator_collections[0], collection_id);
}

#[test]
fn test_create_collection_invalid_royalties() {
    let mut factory = create_factory_contract();

    let owner = Address::new(1);
    let fee_wallet = Address::new(2);
    let creator = Address::new(5);
    let nft_wasm_hash = create_test_nft_wasm_hash();
    let auth = mock_all_auths(&[owner, creator]);

    // Initialize factory
    factory.initialize(&auth, owner, 200, fee_wallet, nft_wasm_hash).unwrap();

    // Try to create collection with invalid royalties (over 100%)
    let result = create_collection_with(
        &mut factory,
        &auth,
        creator,
        "Test Collection",
        "TEST",
        "https://example.com",
        15000, // Invalid royalties
        Address::new(100),
    );
    assert_eq!(result, Err(RegistryError::RoyaltyExceeded));
}

#[test]
fn test_multiple_collections() {
    let mut factory = create_factory_contract();

    let owner = Address::new(1);
    let fee_wallet = Address::new(2);
    let creator1 = Address::new(5);
    let nft_wasm_hash = create_test_nft_wasm_hash();
    let auth = mock_all_auths(&[owner, creator1]);

    // Initialize factory
    factory.initialize(&auth, owner, 200, fee_wallet, nft_wasm_hash).unwrap();

    // Create first collection
    let collection1_id = create_collection_with(
        &mut factory,
        &auth,
        creator1,
        "Collection 1",
        "COL1",
        "https://example1.com",
        250,
        Address::new(101),
    )
    .unwrap();

    // Create second collection by same creator
    let collection2_id = create_collection_with(
        &mut factory,
        &auth,
        creator1,
        "Collection 2",
        "COL2",
        "https://example2.com",
        500,
        Address::new(102),
    )
    .unwrap();

    // Verify collections were created with sequential IDs
    assert_eq!(collection1_id, 1u128);
    assert_eq!(collection2_id, 2u128);
    assert_eq!(factory.get_total_collections(), 2u128);

    // Verify creator's collection list
    let creator1_collections = factory.list_by_creator(creator1);
    assert_eq!(creator1_collections.len(), 2);
    assert_eq!(creator1_collections[0], collection1_id);
    assert_eq!(creator1_collections[1], collection2_id);
}

#[test]
fn test_sequential_ids_complete() {
    let mut factory = create_factory_contract();

    let owner = Address::new(1);
    let creator = Address::new(5);
    let auth = mock_all_auths(&[owner, creator]);
    factory.initialize(&auth, owner, 0, Address::new(2), [0u8; 32]).unwrap();

    // N creations return exactly the IDs 1..N in call order
    let mut ids: Vec<u128> = Vec::new();
    for i in 1..=3u32 {
        let id = create_collection_with(
            &mut factory,
            &auth,
            creator,
            &format!("Collection {}", i),
            &format!("COL{}", i),
            "https://example.com",
            0,
            Address::new(100 + i as u64),
        )
        .unwrap();
        ids.push(id);
    }
    assert_eq!(ids, vec![1u128, 2u128, 3u128]);
    assert_eq!(factory.get_total_collections(), 3u128);
}

#[test]
fn test_list_collections() {
    let mut factory = create_factory_contract();

    let owner = Address::new(1);
    let fee_wallet = Address::new(2);
    let creator = Address::new(5);
    let nft_wasm_hash = create_test_nft_wasm_hash();
    let auth = mock_all_auths(&[owner, creator]);

    // Initialize factory
    factory.initialize(&auth, owner, 200, fee_wallet, nft_wasm_hash).unwrap();

    // Create multiple collections
    for i in 1..=5u32 {
        create_collection_with(
            &mut factory,
            &auth,
            creator,
            &format!("Collection {}", i),
            &format!("COL{}", i),
            "https://example.com",
            250,
            Address::new(100 + i as u64),
        )
        .unwrap();
    }

    // Test listing all collections
    let all_collections = factory.list_collections(None, None);
    assert_eq!(all_collections.len(), 5);

    // Test pagination
    let page1 = factory.list_collections(None, Some(3));
    assert_eq!(page1.len(), 3);

    let page2 = factory.list_collections(Some(4), Some(3));
    assert_eq!(page2.len(), 2);

    // Verify collection data structure
    let first_collection = &page1[0];
    assert_eq!(first_collection.collection_id, 1u128);
    assert_eq!(first_collection.name, String::from("Collection 1"));
    assert_eq!(first_collection.symbol, String::from("COL1"));
}

#[test]
fn test_mint_tracking() {
    let mut factory = create_factory_contract();

    let owner = Address::new(1);
    let fee_wallet = Address::new(2);
    let creator = Address::new(5);
    let nft_wasm_hash = create_test_nft_wasm_hash();
    let auth = mock_all_auths(&[owner, creator]);

    // Initialize factory
    factory.initialize(&auth, owner, 200, fee_wallet, nft_wasm_hash).unwrap();

    // Create a collection
    let collection_id = create_collection_with(
        &mut factory,
        &auth,
        creator,
        "Test Collection",
        "TEST",
        "https://example.com",
        250,
        Address::new(100),
    )
    .unwrap();

    // Verify initial mint history is empty
    let mint_history = factory.get_collection_mints(collection_id);
    assert_eq!(mint_history.len(), 0);
}

#[test]
fn test_mint_records_and_fee() {
    let mut factory = create_factory_contract();

    let owner = Address::new(1);
    let fee_wallet = Address::new(2);
    let creator = Address::new(5);
    let minter = Address::new(6);
    let child = Address::new(100);
    let auth = mock_all_auths(&[owner, creator, minter]);

    // 5% fee
    factory.initialize(&auth, owner, 500, fee_wallet, create_test_nft_wasm_hash()).unwrap();
    let collection_id = create_collection_with(
        &mut factory,
        &auth,
        creator,
        "Test Collection",
        "TEST",
        "https://example.com",
        250,
        child,
    )
    .unwrap();

    let call = factory.mint(&auth, collection_id, minter, 3, 7).unwrap();
    assert_eq!(call.contract_id, child);
    assert_eq!(call.to, minter);
    assert_eq!(call.amount, 3);

    // 3 NFTs * 0.1 XLM * 5% = 0.015 XLM = 150,000 stroops
    let mints = factory.get_collection_mints(collection_id);
    assert_eq!(mints.len(), 1);
    assert_eq!(mints[0].user, minter);
    assert_eq!(mints[0].amount, 3);
    assert_eq!(mints[0].fee_paid, 150_000u128);

    // The fee event precedes the mint event
    let n = factory.events.len();
    assert!(matches!(
        factory.events[n - 2],
        FactoryEvent::FeePaid { fee: 150_000u128, .. }
    ));
    assert!(matches!(factory.events[n - 1], FactoryEvent::MintLogged { .. }));
    assert_eq!(factory.events[n - 2].kind(), Event::FeePaid);
    assert_eq!(factory.events[n - 1].kind(), Event::MintLogged);
    assert_eq!(factory.events[0].kind(), Event::CollectionCreated);
}

#[test]
fn test_mint_zero_rate_no_fee_event() {
    let mut factory = create_factory_contract();

    let owner = Address::new(1);
    let creator = Address::new(5);
    let minter = Address::new(6);
    let auth = mock_all_auths(&[owner, creator, minter]);

    factory.initialize(&auth, owner, 0, Address::new(2), [0u8; 32]).unwrap();
    let collection_id = create_collection_with(
        &mut factory,
        &auth,
        creator,
        "C",
        "C",
        "u",
        0,
        Address::new(100),
    )
    .unwrap();

    factory.mint(&auth, collection_id, minter, 2, 7).unwrap();

    let mints = factory.get_collection_mints(collection_id);
    assert_eq!(mints[0].fee_paid, 0u128);
    assert!(!factory.events.iter().any(|e| matches!(e, FactoryEvent::FeePaid { .. })));
}

#[test]
fn test_get_collection_not_found() {
    let mut factory = create_factory_contract();

    let owner = Address::new(1);
    let fee_wallet = Address::new(2);
    let nft_wasm_hash = create_test_nft_wasm_hash();
    let auth = mock_all_auths(&[owner]);

    // Initialize factory
    factory.initialize(&auth, owner, 200, fee_wallet, nft_wasm_hash).unwrap();

    // Try to get non-existent collection
    let result = factory.get_collection(999u128);
    assert!(result.is_err());
}

#[test]
fn test_list_by_creator_empty() {
    let mut factory = create_factory_contract();

    let owner = Address::new(1);
    let fee_wallet = Address::new(2);
    let creator = Address::new(5);
    let nft_wasm_hash = create_test_nft_wasm_hash();
    let auth = mock_all_auths(&[owner]);

    // Initialize factory
    factory.initialize(&auth, owner, 200, fee_wallet, nft_wasm_hash).unwrap();

    // List collections for creator who hasn't created any
    let creator_collections = factory.list_by_creator(creator);
    assert_eq!(creator_collections.len(), 0);
}

#[test]
fn test_fee_calculation() {
    let mut factory = create_factory_contract();

    let owner = Address::new(1);
    let fee_wallet = Address::new(2);
    let nft_wasm_hash = create_test_nft_wasm_hash();
    let auth = mock_all_auths(&[owner]);

    // Initialize factory with 5% fee
    factory.initialize(&auth, owner, 500, fee_wallet, nft_wasm_hash).unwrap();

    let config = factory.get_config().unwrap();
    assert_eq!(config.fee_bps, 500);

    // Test fee calculation logic (this is what the mint function charges)
    let base_fee_per_nft = 1_000_000u128; // 0.1 XLM per NFT
    let amount = 3u32;
    let total_base_fee = base_fee_per_nft * amount as u128;
    let expected_fee = fee(total_base_fee, config.fee_bps);

    // 3 NFTs * 0.1 XLM * 5% = 0.015 XLM = 15,000 stroops
    assert_eq!(expected_fee, 150_000u128);
}

#[test]
fn test_find_by_name_and_contract() {
    let mut factory = create_factory_contract();

    let owner = Address::new(1);
    let creator = Address::new(5);
    let child1 = Address::new(101);
    let child2 = Address::new(102);
    let auth = mock_all_auths(&[owner, creator]);

    factory.initialize(&auth, owner, 0, Address::new(2), [0u8; 32]).unwrap();
    create_collection_with(&mut factory, &auth, creator, "Alpha", "A", "u", 0, child1).unwrap();
    create_collection_with(&mut factory, &auth, creator, "Beta", "B", "u", 0, child2).unwrap();

    let alpha = factory.find_by_name(String::from("Alpha")).unwrap();
    assert_eq!(alpha.contract_id, child1);
    let beta = factory.get_collection_by_contract(child2).unwrap();
    assert_eq!(beta.name, String::from("Beta"));
    assert!(factory.find_by_name(String::from("Gamma")).is_none());
    assert_eq!(
        factory.get_collection_by_contract(Address::new(999)).unwrap_err(),
        RegistryError::RecordNotFound
    );
}

#[test]
fn test_name_collision_overwrites_lookup() {
    let mut factory = create_factory_contract();

    let owner = Address::new(1);
    let creator = Address::new(5);
    let child1 = Address::new(101);
    let child2 = Address::new(102);
    let auth = mock_all_auths(&[owner, creator]);

    factory.initialize(&auth, owner, 0, Address::new(2), [0u8; 32]).unwrap();
    let id1 =
        create_collection_with(&mut factory, &auth, creator, "Alpha", "A1", "u", 0, child1).unwrap();
    let id2 =
        create_collection_with(&mut factory, &auth, creator, "Alpha", "A2", "u", 0, child2).unwrap();

    // The second collection silently takes over the name lookup...
    let by_name = factory.find_by_name(String::from("Alpha")).unwrap();
    assert_eq!(by_name.symbol, String::from("A2"));
    // ...while the first stays reachable by ID and by contract address
    assert_eq!(factory.get_collection(id1).unwrap().symbol, String::from("A1"));
    assert_eq!(
        factory.get_collection_by_contract(child1).unwrap().symbol,
        String::from("A1")
    );
    assert_ne!(id1, id2);
}

#[test]
fn test_list_zero_limit_is_empty() {
    let mut factory = create_factory_contract();

    let owner = Address::new(1);
    let creator = Address::new(5);
    let auth = mock_all_auths(&[owner, creator]);

    factory.initialize(&auth, owner, 0, Address::new(2), [0u8; 32]).unwrap();
    create_collection_with(&mut factory, &auth, creator, "C", "C", "u", 0, Address::new(100))
        .unwrap();

    // Unlike the registry's range query, the factory takes a zero limit
    // literally
    assert_eq!(factory.list_collections(Some(1), Some(0)).len(), 0);
    // A cursor past the last collection yields an empty page
    assert_eq!(factory.list_collections(Some(2), Some(10)).len(), 0);
}

#[test]
fn test_list_pages_concatenate() {
    let mut factory = create_factory_contract();

    let owner = Address::new(1);
    let creator = Address::new(5);
    let auth = mock_all_auths(&[owner, creator]);

    factory.initialize(&auth, owner, 0, Address::new(2), [0u8; 32]).unwrap();
    for i in 1..=5u32 {
        create_collection_with(
            &mut factory,
            &auth,
            creator,
            &format!("C{}", i),
            &format!("S{}", i),
            "u",
            0,
            Address::new(100 + i as u64),
        )
        .unwrap();
    }

    let mut paged: Vec<u128> = Vec::new();
    for row in factory.list_collections(Some(1), Some(2)) {
        paged.push(row.collection_id);
    }
    for row in factory.list_collections(Some(3), Some(2)) {
        paged.push(row.collection_id);
    }
    for row in factory.list_collections(Some(5), Some(2)) {
        paged.push(row.collection_id);
    }
    assert_eq!(paged, vec![1u128, 2, 3, 4, 5]);
}

#[test]
fn test_collection_salt_bytes() {
    // The salt is the collection ID as a big-endian number in the last 16
    // of 32 bytes
    let salt1 = collection_salt(1);
    assert_eq!(salt1.len(), 32);
    assert_eq!(&salt1[..31], &[0u8; 31]);
    assert_eq!(salt1[31], 1u8);

    let salt258 = collection_salt(258);
    assert_eq!(salt258[30], 1u8);
    assert_eq!(salt258[31], 2u8);
    assert_eq!(&salt258[..30], &[0u8; 30]);

    let max = collection_salt(u128::MAX);
    assert_eq!(&max[..16], &[0u8; 16]);
    assert_eq!(&max[16..], &[0xffu8; 16]);
}
