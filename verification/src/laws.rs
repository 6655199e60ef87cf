use vstd::prelude::*;

use crate::errors::ContractError;
use crate::state::{StateModel, escrow_held, has_provider, lemma_escrow_held_update,
    lemma_provider_index_in_range,
    lemma_provider_index_unique, lemma_register_preserves_wf, lookup_provider, provider_index,
    spec_complete, spec_initialize, spec_register, spec_rent};
use crate::types::{Config, Identity, ProviderModel, Rental, rental_is_open, rental_wf};

verus! {

/// A zero price never registers: the call fails with `PriceMustBePositive`
/// and neither creates nor overwrites any record.
pub proof fn lemma_register_zero_price_rejected(
    s: StateModel,
    provider_address: Identity,
    gpu_model: Seq<char>,
    now: u64,
)
    ensures
        spec_register(s, provider_address, gpu_model, 0, now).0 == s,
        spec_register(s, provider_address, gpu_model, 0, now).1 == Err::<
            ProviderModel,
            ContractError,
        >(ContractError::PriceMustBePositive),
{
}

/// Re-registering an identity that already has a listing overwrites its
/// price and model in place: the registry does not grow, the entry keeps
/// its identity and position, and every other listing is untouched.
pub proof fn lemma_reregister_overwrites_in_place(
    s: StateModel,
    provider_address: Identity,
    gpu_model: Seq<char>,
    price_per_hour: u128,
    now: u64,
)
    requires
        s.wf(),
        has_provider(s.providers, provider_address),
        price_per_hour > 0,
    ensures
        ({
            let after = spec_register(s, provider_address, gpu_model, price_per_hour, now).0;
            &&& after.providers.len() == s.providers.len()
            &&& has_provider(after.providers, provider_address)
            &&& lookup_provider(after.providers, provider_address).id == provider_address
            &&& lookup_provider(after.providers, provider_address).gpu_model == gpu_model
            &&& lookup_provider(after.providers, provider_address).price_per_hour == price_per_hour
            &&& forall|j: int|
                0 <= j < s.providers.len() && s.providers[j].id != provider_address
                    ==> after.providers[j] == s.providers[j]
        }),
{
    lemma_provider_index_in_range(s.providers, provider_address);
    lemma_register_preserves_wf(s, provider_address, gpu_model, price_per_hour, now);
    let idx = provider_index(s.providers, provider_address);
    let after = spec_register(s, provider_address, gpu_model, price_per_hour, now).0;
    lemma_provider_index_unique(after.providers, provider_address, idx);
}

/// A successful `rent_gpu` prices and schedules exactly: the cost is the
/// provider's current hourly price times the requested hours, the window is
/// exactly that many hours, and the new rental opens under the counter's
/// identifier.
pub proof fn lemma_rent_cost_exact(
    s: StateModel,
    consumer_address: Identity,
    provider_address: Identity,
    duration_hours: u64,
    now: u64,
    rental: Rental,
)
    requires
        spec_rent(s, consumer_address, provider_address, duration_hours, now).1 == Ok::<
            Rental,
            ContractError,
        >(rental),
    ensures
        rental.total_cost == lookup_provider(s.providers, provider_address).price_per_hour
            * duration_hours,
        rental.end_time - rental.start_time == duration_hours * 3600,
        rental.start_time == now,
        rental.duration_hours == duration_hours,
        rental.consumer == consumer_address,
        rental.provider == provider_address,
        rental.id == s.next_rental_id,
        rental_is_open(rental),
{
}

/// Identifiers of successive successful rentals increase by exactly 1.
pub proof fn lemma_rental_ids_sequential(
    s: StateModel,
    c1: Identity,
    p1: Identity,
    d1: u64,
    t1: u64,
    c2: Identity,
    p2: Identity,
    d2: u64,
    t2: u64,
    r1: Rental,
    r2: Rental,
)
    requires
        spec_rent(s, c1, p1, d1, t1).1 == Ok::<Rental, ContractError>(r1),
        spec_rent(spec_rent(s, c1, p1, d1, t1).0, c2, p2, d2, t2).1 == Ok::<
            Rental,
            ContractError,
        >(r2),
    ensures
        r2.id == r1.id + 1,
{
}

/// On a well-formed state with an empty ledger, the first successful rental
/// takes identifier 0.
pub proof fn lemma_first_rental_id_zero(
    s: StateModel,
    consumer_address: Identity,
    provider_address: Identity,
    duration_hours: u64,
    now: u64,
    rental: Rental,
)
    requires
        s.wf(),
        s.rentals.len() == 0,
        spec_rent(s, consumer_address, provider_address, duration_hours, now).1 == Ok::<
            Rental,
            ContractError,
        >(rental),
    ensures
        rental.id == 0,
{
}

/// `complete_job` succeeds at most once per rental: after a settlement, a
/// repeat call by the rental's consumer fails with `RentalAlreadyCompleted`,
/// a call by anyone else fails with `CallerNotConsumer`, and either way the
/// state stays as settled.
pub proof fn lemma_complete_at_most_once(
    s: StateModel,
    consumer_address: Identity,
    rental_id: u64,
    settled: Rental,
    caller: Identity,
)
    requires
        s.wf(),
        spec_complete(s, consumer_address, rental_id).1 == Ok::<Rental, ContractError>(settled),
    ensures
        ({
            let after = spec_complete(s, consumer_address, rental_id).0;
            &&& spec_complete(after, caller, rental_id).1 is Err
            &&& caller == consumer_address ==> spec_complete(after, caller, rental_id).1 == Err::<
                Rental,
                ContractError,
            >(ContractError::RentalAlreadyCompleted)
            &&& caller != consumer_address ==> spec_complete(after, caller, rental_id).1 == Err::<
                Rental,
                ContractError,
            >(ContractError::CallerNotConsumer)
            &&& spec_complete(after, caller, rental_id).0 == after
        }),
{
    let after = spec_complete(s, consumer_address, rental_id).0;
    assert(after.rentals[rental_id as int] == settled);
}

/// `complete_job` called by any identity other than the rental's consumer
/// fails with `CallerNotConsumer` and changes nothing, whatever state the
/// rental is in.
pub proof fn lemma_complete_wrong_caller(s: StateModel, caller: Identity, rental_id: u64)
    requires
        rental_id < s.rentals.len(),
        s.rentals[rental_id as int].consumer != caller,
    ensures
        spec_complete(s, caller, rental_id).1 == Err::<Rental, ContractError>(
            ContractError::CallerNotConsumer,
        ),
        spec_complete(s, caller, rental_id).0 == s,
{
}

/// With the configuration in place, any overflow in the cost or time
/// computation (or a counter at its maximum) aborts `rent_gpu` with
/// `MathOverflow`: no rental is created and the counter does not advance.
pub proof fn lemma_rent_overflow_rejected(
    s: StateModel,
    consumer_address: Identity,
    provider_address: Identity,
    duration_hours: u64,
    now: u64,
)
    requires
        duration_hours > 0,
        has_provider(s.providers, provider_address),
        s.config is Some,
        lookup_provider(s.providers, provider_address).price_per_hour * duration_hours
            > u128::MAX || duration_hours * 3600 > u64::MAX || now + duration_hours * 3600
            > u64::MAX || s.next_rental_id == u64::MAX,
    ensures
        spec_rent(s, consumer_address, provider_address, duration_hours, now).1 == Err::<
            Rental,
            ContractError,
        >(ContractError::MathOverflow),
        spec_rent(s, consumer_address, provider_address, duration_hours, now).0 == s,
{
}

/// A failing `rent_gpu` changes nothing: no rental record and no counter
/// advance, whichever condition failed.
pub proof fn lemma_rent_failure_changes_nothing(
    s: StateModel,
    consumer_address: Identity,
    provider_address: Identity,
    duration_hours: u64,
    now: u64,
)
    requires
        spec_rent(s, consumer_address, provider_address, duration_hours, now).1 is Err,
    ensures
        spec_rent(s, consumer_address, provider_address, duration_hours, now).0 == s,
{
}

/// A failing `complete_job` changes nothing: the rental keeps its state and
/// the escrow is untouched.
pub proof fn lemma_complete_failure_changes_nothing(
    s: StateModel,
    consumer_address: Identity,
    rental_id: u64,
)
    requires
        spec_complete(s, consumer_address, rental_id).1 is Err,
    ensures
        spec_complete(s, consumer_address, rental_id).0 == s,
{
}

/// A successful rental moves exactly its cost into escrow: the ledger's
/// open liability grows by `total_cost` and by nothing else.
pub proof fn lemma_rent_escrows_cost(
    s: StateModel,
    consumer_address: Identity,
    provider_address: Identity,
    duration_hours: u64,
    now: u64,
    rental: Rental,
)
    requires
        spec_rent(s, consumer_address, provider_address, duration_hours, now).1 == Ok::<
            Rental,
            ContractError,
        >(rental),
    ensures
        escrow_held(spec_rent(s, consumer_address, provider_address, duration_hours, now).0.rentals)
            == escrow_held(s.rentals) + rental.total_cost,
{
    let after = spec_rent(s, consumer_address, provider_address, duration_hours, now).0;
    assert(after.rentals.drop_last() =~= s.rentals);
}

/// A successful settlement releases exactly the escrowed cost of that one
/// rental to the provider: the ledger's open liability shrinks by
/// `total_cost` and by nothing else. Together with the law above, every
/// rental's cost flows into escrow once at `rent_gpu` and out once at
/// `complete_job`: funds are neither lost nor double-spent.
pub proof fn lemma_complete_releases_cost(
    s: StateModel,
    consumer_address: Identity,
    rental_id: u64,
    settled: Rental,
)
    requires
        s.wf(),
        spec_complete(s, consumer_address, rental_id).1 == Ok::<Rental, ContractError>(settled),
    ensures
        escrow_held(spec_complete(s, consumer_address, rental_id).0.rentals) == escrow_held(
            s.rentals,
        ) - settled.total_cost,
{
    assert(rental_wf(s.rentals[rental_id as int], rental_id as int));
    lemma_escrow_held_update(s.rentals, rental_id as int, settled);
}

/// `initialize` runs exactly once: after a successful bootstrap the
/// configuration holds the given values, and every later call fails with
/// `AlreadyInitialized` and leaves the configuration store unchanged.
pub proof fn lemma_initialize_exactly_once(
    s: StateModel,
    admin: Identity,
    token_address: Identity,
    later_admin: Identity,
    later_token: Identity,
)
    requires
        spec_initialize(s, admin, token_address).1 is Ok,
    ensures
        ({
            let after = spec_initialize(s, admin, token_address).0;
            &&& after.config == Some(Config { admin, token_address })
            &&& spec_initialize(after, later_admin, later_token).1 == Err::<(), ContractError>(
                ContractError::AlreadyInitialized,
            )
            &&& spec_initialize(after, later_admin, later_token).0 == after
        }),
{
}

} // verus!
