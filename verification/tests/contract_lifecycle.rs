use sparknet::market::SparkNetContract;
use sparknet::types::Identity;

fn create_test_market() -> SparkNetContract {
    SparkNetContract::new()
}

#[test]
fn test_initialize() {
    let mut market = create_test_market();

    let admin = Identity(1);
    let token_id = Identity(4);

    // Test successful initialization
    market.initialize(admin, token_id).unwrap();

    // Verify the store answers queries after initialization
    let providers = market.get_providers();
    assert_eq!(providers.len(), 0); // Should be empty after initialization
}

#[test]
#[allow(unused_comparisons)]
fn test_register_provider() {
    let mut market = create_test_market();

    let admin = Identity(1);
    let provider = Identity(2);
    let token_id = Identity(4);

    market.initialize(admin, token_id).unwrap();

    // Register provider
    let gpu_model = String::from("RTX 4090");
    let price_per_hour = 100u128;

    let registered_provider = market
        .register(provider, gpu_model.clone(), price_per_hour, 0)
        .unwrap();

    // Verify provider data
    assert_eq!(registered_provider.id, provider);
    assert_eq!(registered_provider.gpu_model, gpu_model);
    assert_eq!(registered_provider.price_per_hour, price_per_hour);
    assert!(registered_provider.registered_at >= 0); // Timestamp can be 0 in a fresh market
}

#[test]
fn test_get_providers() {
    let mut market = create_test_market();

    let admin = Identity(1);
    let provider = Identity(2);
    let token_id = Identity(4);

    market.initialize(admin, token_id).unwrap();

    // Initially no providers
    let providers = market.get_providers();
    assert_eq!(providers.len(), 0);

    // Register a provider
    let gpu_model = String::from("RTX 4090");
    let price_per_hour = 100u128;
    market
        .register(provider, gpu_model, price_per_hour, 0)
        .unwrap();

    // Now should have one provider
    let providers = market.get_providers();
    assert_eq!(providers.len(), 1);
    assert_eq!(providers[0].id, provider);
}

#[test]
fn test_rental_view_functions() {
    let mut market = create_test_market();

    let admin = Identity(1);
    let provider = Identity(2);
    let consumer = Identity(3);
    let token_id = Identity(4);

    market.initialize(admin, token_id).unwrap();

    // Register provider
    let gpu_model = String::from("RTX 4090");
    let price_per_hour = 100u128;
    market
        .register(provider, gpu_model, price_per_hour, 0)
        .unwrap();

    // get_rentals_for_consumer should be empty initially
    let consumer_rentals = market.get_rentals_for_consumer(consumer);
    assert_eq!(consumer_rentals.len(), 0);

    // get_rentals_for_provider should be empty initially
    let provider_rentals = market.get_rentals_for_provider(provider);
    assert_eq!(provider_rentals.len(), 0);
}

#[test]
fn test_full_workflow_basic() {
    let mut market = create_test_market();

    let admin = Identity(1);
    let provider = Identity(2);
    let token_id = Identity(4);

    // 1. Initialize the market
    market.initialize(admin, token_id).unwrap();

    // 2. Register provider
    let gpu_model = String::from("RTX 4090");
    let price_per_hour = 100u128;
    let registered_provider = market
        .register(provider, gpu_model.clone(), price_per_hour, 0)
        .unwrap();

    // 3. Verify provider is in the list
    let providers = market.get_providers();
    assert_eq!(providers.len(), 1);
    assert_eq!(providers[0].id, provider);

    // 4. Verify provider data
    assert_eq!(registered_provider.gpu_model, gpu_model);
    assert_eq!(registered_provider.price_per_hour, price_per_hour);
}

#[test]
fn test_rent_gpu_logic() {
    let mut market = create_test_market();

    let admin = Identity(1);
    let provider = Identity(2);
    let token_id = Identity(4);

    market.initialize(admin, token_id).unwrap();

    // Register provider
    let gpu_model = String::from("RTX 4090");
    let price_per_hour = 100u128;
    market
        .register(provider, gpu_model, price_per_hour, 0)
        .unwrap();

    let duration_hours = 2u64;

    // Verify the provider exists and carries the listed price
    let providers = market.get_providers();
    assert_eq!(providers.len(), 1);
    assert_eq!(providers[0].price_per_hour, price_per_hour);

    // Verify the cost calculation would be correct
    let expected_cost = price_per_hour * duration_hours as u128;
    assert_eq!(expected_cost, 200u128);
}

#[test]
fn test_complete_job_logic() {
    let mut market = create_test_market();

    let admin = Identity(1);
    let provider = Identity(2);
    let token_id = Identity(4);

    market.initialize(admin, token_id).unwrap();

    // Register provider
    let gpu_model = String::from("RTX 4090");
    let price_per_hour = 100u128;
    market
        .register(provider, gpu_model, price_per_hour, 0)
        .unwrap();

    let providers = market.get_providers();
    assert_eq!(providers.len(), 1);

    // Verify the provider data is correct
    let provider_data = &providers[0];
    assert_eq!(provider_data.id, provider);
    assert_eq!(provider_data.price_per_hour, price_per_hour);
}

#[test]
fn test_rental_by_id_logic() {
    let mut market = create_test_market();

    let admin = Identity(1);
    let provider = Identity(2);
    let consumer = Identity(3);
    let token_id = Identity(4);

    market.initialize(admin, token_id).unwrap();

    // Register provider
    let gpu_model = String::from("RTX 4090");
    let price_per_hour = 100u128;
    market
        .register(provider, gpu_model, price_per_hour, 0)
        .unwrap();

    // The rental query functions work before any rental exists
    let consumer_rentals = market.get_rentals_for_consumer(consumer);
    let provider_rentals = market.get_rentals_for_provider(provider);

    // Should be empty since no rentals exist yet
    assert_eq!(consumer_rentals.len(), 0);
    assert_eq!(provider_rentals.len(), 0);
}
