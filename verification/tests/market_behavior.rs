use sparknet::errors::ContractError;
use sparknet::market::SparkNetContract;
use sparknet::types::Identity;

const ADMIN: Identity = Identity(1);
const PROVIDER: Identity = Identity(2);
const CONSUMER: Identity = Identity(3);
const TOKEN: Identity = Identity(4);

fn initialized_market() -> SparkNetContract {
    let mut market = SparkNetContract::new();
    market.initialize(ADMIN, TOKEN).unwrap();
    market
}

#[test]
fn test_zero_price_never_registers() {
    let mut market = initialized_market();

    let rejected = market.register(PROVIDER, String::from("RTX 4090"), 0, 7);
    assert_eq!(rejected, Err(ContractError::PriceMustBePositive));
    assert_eq!(market.get_providers().len(), 0);

    // A zero price does not overwrite an existing listing either.
    market
        .register(PROVIDER, String::from("RTX 4090"), 100, 7)
        .unwrap();
    let rejected = market.register(PROVIDER, String::from("RTX 5090"), 0, 8);
    assert_eq!(rejected, Err(ContractError::PriceMustBePositive));
    let providers = market.get_providers();
    assert_eq!(providers.len(), 1);
    assert_eq!(providers[0].gpu_model, "RTX 4090");
    assert_eq!(providers[0].price_per_hour, 100);
}

#[test]
fn test_reregister_overwrites_listing() {
    let mut market = initialized_market();

    market
        .register(PROVIDER, String::from("RTX 4090"), 100, 7)
        .unwrap();
    let updated = market
        .register(PROVIDER, String::from("RTX 5090"), 250, 9)
        .unwrap();

    assert_eq!(updated.id, PROVIDER);
    assert_eq!(updated.gpu_model, "RTX 5090");
    assert_eq!(updated.price_per_hour, 250);
    assert_eq!(updated.registered_at, 9);

    // The registry did not grow and kept the identity.
    let providers = market.get_providers();
    assert_eq!(providers.len(), 1);
    assert_eq!(providers[0].id, PROVIDER);
    assert_eq!(providers[0].gpu_model, "RTX 5090");
    assert_eq!(providers[0].price_per_hour, 250);
}

#[test]
fn test_rent_and_complete_workflow() {
    let mut market = initialized_market();
    market
        .register(PROVIDER, String::from("RTX 4090"), 100, 0)
        .unwrap();

    let rental = market.rent_gpu(CONSUMER, PROVIDER, 3, 1000).unwrap();
    assert_eq!(rental.id, 0);
    assert_eq!(rental.consumer, CONSUMER);
    assert_eq!(rental.provider, PROVIDER);
    assert_eq!(rental.duration_hours, 3);
    assert_eq!(rental.total_cost, 300);
    assert_eq!(rental.start_time, 1000);
    assert_eq!(rental.end_time, 1000 + 3 * 3600);
    assert!(rental.is_active);
    assert!(!rental.job_complete);
    assert!(!rental.is_paid);

    let settled = market.complete_job(CONSUMER, 0).unwrap();
    assert!(!settled.is_active);
    assert!(settled.job_complete);
    assert!(settled.is_paid);
    // The payout the host releases goes to the provider on the record,
    // for exactly the escrowed amount.
    assert_eq!(settled.provider, PROVIDER);
    assert_eq!(settled.total_cost, 300);

    let stored = market.get_rental_by_id(0).unwrap();
    assert_eq!(stored, settled);
}

#[test]
fn test_rental_ids_increment_from_zero() {
    let mut market = initialized_market();
    market
        .register(PROVIDER, String::from("RTX 4090"), 100, 0)
        .unwrap();

    let first = market.rent_gpu(CONSUMER, PROVIDER, 1, 10).unwrap();
    let second = market.rent_gpu(CONSUMER, PROVIDER, 2, 20).unwrap();
    let third = market.rent_gpu(Identity(9), PROVIDER, 3, 30).unwrap();

    assert_eq!(first.id, 0);
    assert_eq!(second.id, 1);
    assert_eq!(third.id, 2);
    assert_eq!(market.get_rental_by_id(1).unwrap(), second);
}

#[test]
fn test_complete_twice_fails() {
    let mut market = initialized_market();
    market
        .register(PROVIDER, String::from("RTX 4090"), 100, 0)
        .unwrap();
    market.rent_gpu(CONSUMER, PROVIDER, 3, 1000).unwrap();

    market.complete_job(CONSUMER, 0).unwrap();
    let again = market.complete_job(CONSUMER, 0);
    assert_eq!(again, Err(ContractError::RentalAlreadyCompleted));

    // The record stays settled.
    let stored = market.get_rental_by_id(0).unwrap();
    assert!(!stored.is_active && stored.job_complete && stored.is_paid);
}

#[test]
fn test_complete_by_other_identity_fails() {
    let mut market = initialized_market();
    market
        .register(PROVIDER, String::from("RTX 4090"), 100, 0)
        .unwrap();
    market.rent_gpu(CONSUMER, PROVIDER, 3, 1000).unwrap();

    // Even an otherwise authenticated identity that is not the rental's
    // consumer is rejected; the provider included.
    let wrong = market.complete_job(PROVIDER, 0);
    assert_eq!(wrong, Err(ContractError::CallerNotConsumer));
    let wrong = market.complete_job(Identity(9), 0);
    assert_eq!(wrong, Err(ContractError::CallerNotConsumer));

    // The rightful consumer can still settle afterwards.
    market.complete_job(CONSUMER, 0).unwrap();
}

#[test]
fn test_overflow_aborts_without_side_effects() {
    let mut market = initialized_market();

    // Cost overflow: price * hours exceeds the 128-bit range.
    market
        .register(PROVIDER, String::from("RTX 4090"), u128::MAX, 0)
        .unwrap();
    let rejected = market.rent_gpu(CONSUMER, PROVIDER, 2, 0);
    assert_eq!(rejected, Err(ContractError::MathOverflow));

    // Duration-to-seconds overflow: hours * 3600 exceeds the 64-bit range.
    market
        .register(PROVIDER, String::from("RTX 4090"), 1, 0)
        .unwrap();
    let rejected = market.rent_gpu(CONSUMER, PROVIDER, u64::MAX / 3600 + 1, 0);
    assert_eq!(rejected, Err(ContractError::MathOverflow));

    // End-time overflow: start + seconds exceeds the 64-bit range.
    let rejected = market.rent_gpu(CONSUMER, PROVIDER, 1, u64::MAX - 100);
    assert_eq!(rejected, Err(ContractError::MathOverflow));

    // No rental was created and the counter never advanced.
    assert_eq!(
        market.get_rental_by_id(0),
        Err(ContractError::RentalNotFound)
    );
    let first = market.rent_gpu(CONSUMER, PROVIDER, 1, 50).unwrap();
    assert_eq!(first.id, 0);
}

#[test]
fn test_rent_zero_duration_fails() {
    let mut market = initialized_market();
    market
        .register(PROVIDER, String::from("RTX 4090"), 100, 0)
        .unwrap();

    let rejected = market.rent_gpu(CONSUMER, PROVIDER, 0, 1000);
    assert_eq!(rejected, Err(ContractError::InvalidDuration));

    // No rental counter advance: the next successful rental takes id 0.
    assert_eq!(
        market.get_rental_by_id(0),
        Err(ContractError::RentalNotFound)
    );
    let first = market.rent_gpu(CONSUMER, PROVIDER, 1, 1000).unwrap();
    assert_eq!(first.id, 0);
}

#[test]
fn test_rent_unknown_provider_fails() {
    let mut market = initialized_market();

    let rejected = market.rent_gpu(CONSUMER, Identity(77), 1, 0);
    assert_eq!(rejected, Err(ContractError::ProviderNotFound));
}

#[test]
fn test_rent_requires_initialization() {
    let mut market = SparkNetContract::new();

    // The registry accepts listings before bootstrap...
    market
        .register(PROVIDER, String::from("RTX 4090"), 100, 0)
        .unwrap();

    // ...but no transfer can be made without a payment asset on file.
    let rejected = market.rent_gpu(CONSUMER, PROVIDER, 1, 0);
    assert_eq!(rejected, Err(ContractError::NotInitialized));
}

#[test]
fn test_initialize_twice_fails() {
    let mut market = SparkNetContract::new();

    market.initialize(ADMIN, TOKEN).unwrap();
    let again = market.initialize(Identity(8), Identity(9));
    assert_eq!(again, Err(ContractError::AlreadyInitialized));

    // The configuration kept the first payment asset: rentals still work.
    market
        .register(PROVIDER, String::from("RTX 4090"), 100, 0)
        .unwrap();
    market.rent_gpu(CONSUMER, PROVIDER, 1, 0).unwrap();
}

#[test]
fn test_complete_missing_rental_fails() {
    let mut market = initialized_market();

    let rejected = market.complete_job(CONSUMER, 5);
    assert_eq!(rejected, Err(ContractError::RentalNotFound));
    assert_eq!(
        market.get_rental_by_id(5),
        Err(ContractError::RentalNotFound)
    );
}

#[test]
fn test_rental_queries_filter_and_keep_order() {
    let mut market = initialized_market();
    let other_provider = Identity(5);
    let other_consumer = Identity(6);
    market
        .register(PROVIDER, String::from("RTX 4090"), 100, 0)
        .unwrap();
    market
        .register(other_provider, String::from("H100"), 400, 0)
        .unwrap();

    let r0 = market.rent_gpu(CONSUMER, PROVIDER, 1, 10).unwrap();
    let r1 = market.rent_gpu(other_consumer, PROVIDER, 2, 20).unwrap();
    let r2 = market.rent_gpu(CONSUMER, other_provider, 3, 30).unwrap();

    let consumer_rentals = market.get_rentals_for_consumer(CONSUMER);
    assert_eq!(consumer_rentals, vec![r0, r2]);

    let provider_rentals = market.get_rentals_for_provider(PROVIDER);
    assert_eq!(provider_rentals, vec![r0, r1]);

    let none = market.get_rentals_for_consumer(Identity(42));
    assert_eq!(none.len(), 0);
}
