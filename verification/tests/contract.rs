use near_sdk::collections::LookupMap;
use near_sdk::json_types::ValidAccountId;
use near_sdk::test_utils::VMContextBuilder;
use near_sdk::{MockedBlockchain, RuntimeFeesConfig, VMConfig, VMContext};
use std::convert::TryFrom;
use weight_tracker::registry::{
    entry_to_register, entry_with_weight, key_is_fit, read_record, MAX_KEY_BYTES, MAX_SAMPLES,
};
use weight_tracker::{Contract, ContractError, StorageKeys};

const USER: &str = "testuser.testnet";
const OTHER: &str = "someone.testnet";

fn to_valid_account(account: &str) -> ValidAccountId {
    ValidAccountId::try_from(account).expect("Invalid account")
}

fn get_context(is_view: bool) -> VMContext {
    VMContextBuilder::new().is_view(is_view).predecessor_account_id(to_valid_account(USER)).build()
}

fn context_of(caller: &str) -> VMContext {
    VMContextBuilder::new().predecessor_account_id(to_valid_account(caller)).build()
}

/// Installs a mocked host for `context`, keeping what an earlier one stored.
fn testing_env(context: VMContext) {
    let storage = match near_sdk::env::take_blockchain_interface() {
        Some(mut host) => host.as_mut_mocked_blockchain().unwrap().take_storage(),
        None => Default::default(),
    };
    near_sdk::env::set_blockchain_interface(Box::new(MockedBlockchain::new(
        context,
        Default::default(),
        Default::default(),
        Default::default(),
        storage,
        Default::default(),
        None,
    )));
}

/// Installs a mocked host that charges no gas, with the usual limits on keys
/// and values.
fn testing_env_without_gas(context: VMContext) {
    near_sdk::env::set_blockchain_interface(Box::new(MockedBlockchain::new(
        context,
        VMConfig::free(),
        RuntimeFeesConfig::free(),
        Default::default(),
        Default::default(),
        Default::default(),
        None,
    )));
}

fn bits(weights: &[f32]) -> Vec<u32> {
    weights.iter().map(|weight| weight.to_bits()).collect()
}

fn floats(weights: &[u32]) -> Vec<f32> {
    weights.iter().map(|weight| f32::from_bits(*weight)).collect()
}

fn stored_weights(contract: &Contract, account_id: &str) -> Vec<f32> {
    floats(&contract.users().get(&account_id.to_string()).unwrap().2)
}

#[test]
fn test_new() {
    let context: VMContext = get_context(false);
    testing_env(context);
    let _contract = Contract::new().unwrap();
}

#[test]
fn should_add_the_user() {
    let context: VMContext = get_context(false);
    testing_env(context);
    let mut contract = Contract::new().unwrap();

    contract.register_user(25, 180, 80.4f32.to_bits()).unwrap();

    assert!(contract.check_user(USER.to_string()));
    assert_eq!(contract.users().get(&USER.to_string()).unwrap().0, 25 as u8);
}

#[test]
fn should_add_the_weight_to_user() {
    let context: VMContext = get_context(false);
    testing_env(context);
    let mut contract = Contract::new().unwrap();

    contract.register_user(25, 180, 80.4f32.to_bits()).unwrap();

    assert!(contract.check_user(USER.to_string()));
    assert_eq!(stored_weights(&contract, USER), vec![80.4]);

    contract.add_weight_to_user(USER.to_string(), 81.2f32.to_bits()).unwrap();

    assert_eq!(stored_weights(&contract, USER), vec![80.4, 81.2]);
}

#[test]
fn should_remove_the_first_weight_from_user() {
    let context: VMContext = get_context(false);
    testing_env(context);
    let mut contract = Contract::new().unwrap();

    contract.register_user(25, 180, 80.4f32.to_bits()).unwrap();

    assert!(contract.check_user(USER.to_string()));

    contract.add_weight_to_user(USER.to_string(), 81.2f32.to_bits()).unwrap();
    contract.add_weight_to_user(USER.to_string(), 81.4f32.to_bits()).unwrap();
    contract.add_weight_to_user(USER.to_string(), 81.8f32.to_bits()).unwrap();
    contract.add_weight_to_user(USER.to_string(), 82.1f32.to_bits()).unwrap();
    contract.add_weight_to_user(USER.to_string(), 81.9f32.to_bits()).unwrap();
    contract.add_weight_to_user(USER.to_string(), 81.7f32.to_bits()).unwrap();
    contract.add_weight_to_user(USER.to_string(), 81.1f32.to_bits()).unwrap();
    contract.add_weight_to_user(USER.to_string(), 81.0f32.to_bits()).unwrap();
    contract.add_weight_to_user(USER.to_string(), 80.2f32.to_bits()).unwrap();

    let tested_weights_1 = vec![80.4, 81.2, 81.4, 81.8, 82.1, 81.9, 81.7, 81.1, 81.0, 80.2];
    assert_eq!(stored_weights(&contract, USER), tested_weights_1);

    contract.add_weight_to_user(USER.to_string(), 79.3f32.to_bits()).unwrap();

    let tested_weights_2 = vec![81.2, 81.4, 81.8, 82.1, 81.9, 81.7, 81.1, 81.0, 80.2, 79.3];
    assert_eq!(stored_weights(&contract, USER), tested_weights_2);
}

#[test]
fn should_found_the_user() {
    let context: VMContext = get_context(false);
    testing_env(context);
    let mut contract = Contract::new().unwrap();

    contract.register_user(25, 180, 80.4f32.to_bits()).unwrap();

    assert!(contract.check_user(USER.to_string()));
    assert_eq!(
        contract.users().contains_key(&USER.to_string()),
        contract.check_user(USER.to_string())
    );
}

#[test]
fn should_not_found_the_user() {
    let context: VMContext = get_context(false);
    testing_env(context);
    let contract = Contract::new().unwrap();

    assert_eq!(contract.check_user(USER.to_string()), false);
}

#[test]
fn should_return_the_user() {
    let context: VMContext = get_context(false);
    testing_env(context);
    let mut contract = Contract::new().unwrap();

    contract.register_user(25, 180, 80.4f32.to_bits()).unwrap();

    assert!(contract.check_user(USER.to_string()));

    let user = contract.get_user(USER.to_string()).unwrap();

    assert_eq!(user.age, 25);
    assert_eq!(user.height, 180);
}

#[test]
fn registered_user_is_returned_whole() {
    testing_env(get_context(false));
    let mut contract = Contract::new().unwrap();

    contract.register_user(25, 180, 80.4f32.to_bits()).unwrap();

    assert!(contract.check_user(USER.to_string()));
    let user = contract.get_user(USER.to_string()).unwrap();
    assert_eq!(user.age, 25);
    assert_eq!(user.height, 180);
    assert_eq!(floats(&user.weights), vec![80.4]);
}

#[test]
fn get_user_of_unregistered_account_is_not_found() {
    testing_env(get_context(false));
    let contract = Contract::new().unwrap();

    assert_eq!(contract.get_user(USER.to_string()).err(), Some(ContractError::NotFound));
}

#[test]
fn add_weight_to_unregistered_own_account_is_not_found() {
    testing_env(get_context(false));
    let mut contract = Contract::new().unwrap();

    let refused = contract.add_weight_to_user(USER.to_string(), 81.2f32.to_bits());

    assert_eq!(refused, Err(ContractError::NotFound));
    assert!(!contract.check_user(USER.to_string()));
}

#[test]
fn add_weight_to_another_account_is_denied() {
    testing_env(context_of(USER));
    let mut contract = Contract::new().unwrap();
    contract.register_user(25, 180, 80.4f32.to_bits()).unwrap();
    let key = [vec![0u8, 16, 0, 0, 0], USER.as_bytes().to_vec()].concat();
    let before = near_sdk::env::storage_read(&key).unwrap();

    testing_env(context_of(OTHER));
    let refused = contract.add_weight_to_user(USER.to_string(), 81.2f32.to_bits());

    assert_eq!(refused, Err(ContractError::AccessDenied));
    assert_eq!(near_sdk::env::storage_read(&key).unwrap(), before);
    assert_eq!(stored_weights(&contract, USER), vec![80.4]);
}

#[test]
fn add_weight_to_another_unregistered_account_is_denied() {
    testing_env(context_of(OTHER));
    let mut contract = Contract::new().unwrap();

    let refused = contract.add_weight_to_user(USER.to_string(), 81.2f32.to_bits());

    assert_eq!(refused, Err(ContractError::AccessDenied));
    assert!(!contract.check_user(USER.to_string()));
    assert!(!contract.check_user(OTHER.to_string()));
}

#[test]
fn add_weight_as_checks_the_given_caller() {
    testing_env(get_context(false));
    let mut contract = Contract::new().unwrap();
    let alice = "alice".to_string();
    let bob = "bob".to_string();
    contract.register_as(&alice, 31, 165, 60.5f32.to_bits()).unwrap();

    assert_eq!(
        contract.add_weight_as(&bob, alice.clone(), 61.0f32.to_bits()),
        Err(ContractError::AccessDenied)
    );
    assert_eq!(stored_weights(&contract, "alice"), vec![60.5]);
    assert_eq!(
        contract.add_weight_as(&bob, bob.clone(), 61.0f32.to_bits()),
        Err(ContractError::NotFound)
    );
    assert!(!contract.check_user(bob.clone()));
    assert_eq!(contract.add_weight_as(&alice, alice.clone(), 61.0f32.to_bits()), Ok(()));
    assert_eq!(stored_weights(&contract, "alice"), vec![60.5, 61.0]);
    let user = contract.get_user(alice).unwrap();
    assert_eq!((user.age, user.height), (31, 165));
}

#[test]
fn register_as_touches_only_the_caller() {
    testing_env(get_context(false));
    let mut contract = Contract::new().unwrap();
    let alice = "alice".to_string();
    let bob = "bob".to_string();

    contract.register_as(&alice, 31, 165, 60.5f32.to_bits()).unwrap();
    assert!(contract.check_user(alice.clone()));
    assert!(!contract.check_user(bob.clone()));

    contract.register_as(&bob, 40, 190, 92.0f32.to_bits()).unwrap();
    let first = contract.get_user(alice).unwrap();
    assert_eq!((first.age, first.height, floats(&first.weights)), (31, 165, vec![60.5]));
    let second = contract.get_user(bob).unwrap();
    assert_eq!((second.age, second.height, floats(&second.weights)), (40, 190, vec![92.0]));
}

#[test]
fn user_is_present_only_once_registered() {
    testing_env(context_of(USER));
    let mut contract = Contract::new().unwrap();
    assert!(!contract.check_user(USER.to_string()));
    assert!(!contract.check_user(OTHER.to_string()));

    assert!(contract.add_weight_to_user(USER.to_string(), 81.2f32.to_bits()).is_err());
    assert!(!contract.check_user(USER.to_string()));

    contract.register_user(25, 180, 80.4f32.to_bits()).unwrap();
    assert!(contract.check_user(USER.to_string()));
    assert!(!contract.check_user(OTHER.to_string()));

    contract.add_weight_to_user(USER.to_string(), 81.2f32.to_bits()).unwrap();
    assert!(contract.check_user(USER.to_string()));
    assert!(!contract.check_user(OTHER.to_string()));
}

#[test]
fn registering_again_replaces_the_record() {
    testing_env(get_context(false));
    let mut contract = Contract::new().unwrap();

    contract.register_user(25, 180, 80.4f32.to_bits()).unwrap();
    contract.add_weight_to_user(USER.to_string(), 81.2f32.to_bits()).unwrap();
    contract.add_weight_to_user(USER.to_string(), 81.4f32.to_bits()).unwrap();
    contract.register_user(26, 181, 79.9f32.to_bits()).unwrap();

    let user = contract.get_user(USER.to_string()).unwrap();
    assert_eq!(user.age, 26);
    assert_eq!(user.height, 181);
    assert_eq!(floats(&user.weights), vec![79.9]);
}

#[test]
fn stored_window_never_exceeds_capacity() {
    testing_env(get_context(false));
    let mut contract = Contract::new().unwrap();
    contract.register_user(25, 180, 0.0f32.to_bits()).unwrap();

    let mut given = vec![0.0f32];
    for step in 1..=25u8 {
        let weight = f32::from(step);
        contract.add_weight_to_user(USER.to_string(), weight.to_bits()).unwrap();
        given.push(weight);

        let kept = stored_weights(&contract, USER);
        assert!(kept.len() <= 10);
        assert_eq!(kept.len(), given.len().min(10));
        assert_eq!(kept, given[given.len() - kept.len()..].to_vec());
    }
    assert_eq!(
        stored_weights(&contract, USER),
        vec![16.0, 17.0, 18.0, 19.0, 20.0, 21.0, 22.0, 23.0, 24.0, 25.0]
    );
}

#[test]
fn new_is_refused_once_state_exists() {
    testing_env(get_context(false));
    assert!(Contract::new().is_ok());

    near_sdk::env::state_write(&7u8);

    assert_eq!(Contract::new().err(), Some(ContractError::AlreadyInitialized));
}

#[test]
fn initialize_follows_the_state_flag() {
    testing_env(get_context(false));

    assert_eq!(Contract::initialize(true).err(), Some(ContractError::AlreadyInitialized));
    let mut contract = Contract::initialize(false).unwrap();
    contract.register_user(25, 180, 80.4f32.to_bits()).unwrap();
    assert!(contract.check_user(USER.to_string()));
}

#[test]
fn accounts_prefix_is_one_zero_byte() {
    assert_eq!(StorageKeys::Accounts.into_storage_key(), vec![0u8]);
}

#[test]
fn record_is_stored_under_the_accounts_prefix() {
    testing_env(get_context(false));
    let mut contract = Contract::new().unwrap();
    contract.register_user(25, 180, 80.4f32.to_bits()).unwrap();

    let key = [vec![0u8, 16, 0, 0, 0], USER.as_bytes().to_vec()].concat();
    let mut expected = vec![25u8, 180, 1, 0, 0, 0];
    expected.extend_from_slice(&80.4f32.to_bits().to_le_bytes());
    assert_eq!(near_sdk::env::storage_read(&key), Some(expected));
    assert!(!near_sdk::env::storage_has_key(USER.as_bytes()));
}

#[test]
fn stored_record_reads_back_as_floats() {
    testing_env(get_context(false));
    let mut contract = Contract::new().unwrap();
    contract.register_user(25, 180, 80.4f32.to_bits()).unwrap();
    contract.add_weight_to_user(USER.to_string(), 81.2f32.to_bits()).unwrap();

    let same_entries: LookupMap<String, (u8, u8, Vec<f32>)> = LookupMap::new(vec![0u8]);
    assert_eq!(same_entries.get(&USER.to_string()), Some((25, 180, vec![80.4, 81.2])));
}

#[test]
fn registry_reopened_over_the_same_storage_keeps_its_records() {
    testing_env(get_context(false));
    let mut contract = Contract::new().unwrap();
    contract.register_user(25, 180, 80.4f32.to_bits()).unwrap();

    let reopened = Contract::initialize(false).unwrap();
    assert!(reopened.check_user(USER.to_string()));
    assert_eq!(reopened.get_user(USER.to_string()).unwrap().weights, bits(&[80.4]));
}

#[test]
fn two_handles_read_the_same_entries() {
    testing_env(get_context(false));
    let mut first = Contract::new().unwrap();
    let second = Contract::new().unwrap();
    assert!(!second.check_user(USER.to_string()));

    first.register_user(25, 180, 80.4f32.to_bits()).unwrap();

    assert!(second.check_user(USER.to_string()));
    assert_eq!(stored_weights(&second, USER), vec![80.4]);
}

#[test]
fn register_user_is_granted_to_the_caller() {
    testing_env(context_of(OTHER));
    let mut contract = Contract::new().unwrap();

    assert_eq!(contract.register_user(40, 190, 92.0f32.to_bits()), Ok(()));

    assert!(contract.check_user(OTHER.to_string()));
    assert!(!contract.check_user(USER.to_string()));
}

#[test]
fn key_limit_is_what_the_host_allows_less_prefix_and_length() {
    assert_eq!(MAX_KEY_BYTES, 4 * 1024 * 1024 - 1 - 4);
    assert_eq!(MAX_SAMPLES, (4 * 1024 * 1024 - 6) / 4);
}

#[test]
fn key_is_fit_counts_bytes_not_characters() {
    assert!(key_is_fit(&String::new()));
    assert!(key_is_fit(&"a".repeat(MAX_KEY_BYTES)));
    assert!(!key_is_fit(&"a".repeat(MAX_KEY_BYTES + 1)));
    // Two bytes each: one character too many by bytes, far too few by count.
    assert!(key_is_fit(&"\u{e9}".repeat(MAX_KEY_BYTES / 2)));
    assert!(!key_is_fit(&"\u{e9}".repeat(MAX_KEY_BYTES / 2 + 1)));
}

#[test]
fn identifier_too_long_for_a_key_is_refused_without_asking_the_host() {
    testing_env(get_context(false));
    let mut contract = Contract::new().unwrap();
    let long = "a".repeat(MAX_KEY_BYTES + 1);

    assert!(!contract.check_user(long.clone()));
    assert_eq!(contract.get_user(long.clone()).err(), Some(ContractError::NotFound));
    assert_eq!(
        contract.register_as(&long, 25, 180, 80.4f32.to_bits()),
        Err(ContractError::LimitExceeded)
    );
    assert!(!contract.check_user(long.clone()));
    assert_eq!(
        contract.add_weight_as(&long, long.clone(), 81.2f32.to_bits()),
        Err(ContractError::NotFound)
    );
    assert_eq!(
        contract.add_weight_as(&USER.to_string(), long, 81.2f32.to_bits()),
        Err(ContractError::AccessDenied)
    );
}

#[test]
fn longest_identifier_is_accepted_by_the_host() {
    testing_env_without_gas(get_context(false));
    let mut contract = Contract::new().unwrap();
    let longest = "a".repeat(MAX_KEY_BYTES);

    assert!(!contract.check_user(longest.clone()));
    assert_eq!(contract.register_as(&longest, 25, 180, 80.4f32.to_bits()), Ok(()));
    assert!(contract.check_user(longest.clone()));
    assert_eq!(contract.add_weight_as(&longest, longest.clone(), 81.2f32.to_bits()), Ok(()));
    assert_eq!(floats(&contract.get_user(longest).unwrap().weights), vec![80.4, 81.2]);
}

#[test]
fn largest_entry_is_accepted_by_the_host() {
    testing_env_without_gas(get_context(false));
    let mut contract = Contract::new().unwrap();
    let account = USER.to_string();
    let mut raw: LookupMap<String, (u8, u8, Vec<u32>)> = LookupMap::new(vec![0u8]);
    raw.insert(&account, &(25, 180, vec![7u32; MAX_SAMPLES]));

    assert_eq!(contract.add_weight_as(&account, account.clone(), 9), Ok(()));

    let kept = contract.get_user(account).unwrap().weights;
    assert_eq!(kept.len(), MAX_SAMPLES);
    assert_eq!(kept[MAX_SAMPLES - 2..], [7, 9]);
}

#[test]
fn read_record_answers_what_was_read() {
    assert_eq!(read_record(None).err(), Some(ContractError::NotFound));

    let body = read_record(Some((25, 180, bits(&[80.4, 81.2])))).unwrap();
    assert_eq!((body.age, body.height), (25, 180));
    assert_eq!(floats(&body.weights), vec![80.4, 81.2]);
}

#[test]
fn entry_with_weight_decides_on_what_was_read() {
    assert_eq!(entry_with_weight(None, 5), Err(ContractError::NotFound));
    assert_eq!(entry_with_weight(Some((25, 180, vec![])), 5), Ok((25, 180, vec![5])));
    assert_eq!(entry_with_weight(Some((25, 180, vec![1, 2])), 5), Ok((25, 180, vec![1, 2, 5])));
    assert_eq!(
        entry_with_weight(Some((25, 180, (0..10).collect())), 10),
        Ok((25, 180, (1..=10).collect()))
    );
    assert_eq!(
        entry_with_weight(Some((25, 180, (0..12).collect())), 12),
        Ok((25, 180, (1..=12).collect()))
    );
}

#[test]
fn entry_with_weight_refuses_what_cannot_be_stored() {
    let largest = entry_with_weight(Some((25, 180, vec![0; MAX_SAMPLES])), 5).unwrap();
    assert_eq!(largest.2.len(), MAX_SAMPLES);
    assert_eq!(largest.2[MAX_SAMPLES - 1], 5);

    assert_eq!(
        entry_with_weight(Some((25, 180, vec![0; MAX_SAMPLES + 1])), 5),
        Err(ContractError::LimitExceeded)
    );
}

#[test]
fn entry_to_register_is_a_fresh_record() {
    assert_eq!(
        entry_to_register(&USER.to_string(), 25, 180, 80.4f32.to_bits()),
        Ok((25, 180, vec![80.4f32.to_bits()]))
    );
    assert_eq!(
        entry_to_register(&"a".repeat(MAX_KEY_BYTES), 1, 2, 3),
        Ok((1, 2, vec![3]))
    );
    assert_eq!(
        entry_to_register(&"a".repeat(MAX_KEY_BYTES + 1), 1, 2, 3),
        Err(ContractError::LimitExceeded)
    );
}

#[test]
fn add_weight_to_record_stores_what_the_entry_read_calls_for() {
    testing_env(get_context(false));
    let mut contract = Contract::new().unwrap();
    let account = USER.to_string();

    let read = Some((25, 180, bits(&[80.4])));
    let done = contract.add_weight_to_record(&account, read, 81.2f32.to_bits());

    assert_eq!(done, Ok(()));
    assert_eq!(contract.users().get(&account), Some((25, 180, bits(&[80.4, 81.2]))));
    assert!(!contract.check_user(OTHER.to_string()));
}

#[test]
fn add_weight_to_record_slides_a_full_window() {
    testing_env(get_context(false));
    let mut contract = Contract::new().unwrap();
    let account = USER.to_string();

    let done = contract.add_weight_to_record(&account, Some((25, 180, (0..10).collect())), 10);

    assert_eq!(done, Ok(()));
    assert_eq!(contract.users().get(&account), Some((25, 180, (1..=10).collect())));
}

#[test]
fn add_weight_to_record_of_nothing_writes_nothing() {
    testing_env(get_context(false));
    let mut contract = Contract::new().unwrap();
    let account = USER.to_string();

    assert_eq!(contract.add_weight_to_record(&account, None, 5), Err(ContractError::NotFound));

    assert!(!contract.check_user(account));
}

#[test]
fn refused_registration_writes_nothing() {
    testing_env(get_context(false));
    let mut contract = Contract::new().unwrap();
    let usage = near_sdk::env::storage_usage();

    let refused = contract.register_as(&"a".repeat(MAX_KEY_BYTES + 1), 25, 180, 7);

    assert_eq!(refused, Err(ContractError::LimitExceeded));
    assert_eq!(near_sdk::env::storage_usage(), usage);
}

#[test]
fn refused_request_writes_nothing() {
    testing_env(context_of(USER));
    let mut contract = Contract::new().unwrap();
    contract.register_user(25, 180, 80.4f32.to_bits()).unwrap();
    let usage = near_sdk::env::storage_usage();

    assert_eq!(
        contract.add_weight_as(&OTHER.to_string(), USER.to_string(), 7),
        Err(ContractError::AccessDenied)
    );
    assert_eq!(
        contract.add_weight_as(&OTHER.to_string(), OTHER.to_string(), 7),
        Err(ContractError::NotFound)
    );

    assert_eq!(near_sdk::env::storage_usage(), usage);
    assert_eq!(stored_weights(&contract, USER), vec![80.4]);
    assert!(!contract.check_user(OTHER.to_string()));
}

#[test]
fn registration_writes_one_entry_under_the_caller() {
    testing_env(get_context(false));
    let mut contract = Contract::new().unwrap();
    contract.register_as(&"alice".to_string(), 31, 165, 5).unwrap();
    contract.register_as(&"bob".to_string(), 40, 190, 6).unwrap();

    contract.register_as(&"alice".to_string(), 32, 166, 7).unwrap();

    assert_eq!(contract.users().get(&"alice".to_string()), Some((32, 166, vec![7])));
    assert_eq!(contract.users().get(&"bob".to_string()), Some((40, 190, vec![6])));
    assert!(!contract.check_user("carol".to_string()));
}
