use vstd::prelude::*;

use crate::errors::ContractError;
use crate::types::{Config, Identity, ProviderModel, Rental, rental_is_open, rental_wf};

verus! {

/// The abstract contract state: the configuration store, the provider
/// registry in insertion order, the rental ledger indexed by identifier,
/// and the counter holding the next identifier to assign.
#[verifier::ext_equal]
pub struct StateModel {
    pub config: Option<Config>,
    pub providers: Seq<ProviderModel>,
    pub rentals: Seq<Rental>,
    pub next_rental_id: u64,
}

/// No two registry entries share an identity.
pub open spec fn providers_distinct(s: Seq<ProviderModel>) -> bool {
    forall|i: int, j: int| 0 <= i < j < s.len() ==> s[i].id != s[j].id
}

/// Some registry entry carries this identity.
pub open spec fn has_provider(s: Seq<ProviderModel>, id: Identity) -> bool {
    exists|i: int| 0 <= i < s.len() && s[i].id == id
}

/// The index of the registry entry carrying this identity; meaningful only
/// when `has_provider` holds (and then unique once the entries are distinct).
pub open spec fn provider_index(s: Seq<ProviderModel>, id: Identity) -> int {
    choose|i: int| 0 <= i < s.len() && s[i].id == id
}

/// The registry entry carrying this identity; meaningful only when
/// `has_provider` holds.
pub open spec fn lookup_provider(s: Seq<ProviderModel>, id: Identity) -> ProviderModel {
    s[provider_index(s, id)]
}

pub proof fn lemma_provider_index_in_range(s: Seq<ProviderModel>, id: Identity)
    requires
        has_provider(s, id),
    ensures
        0 <= provider_index(s, id) < s.len(),
        s[provider_index(s, id)].id == id,
        lookup_provider(s, id).id == id,
{
    assert(exists|i: int| 0 <= i < s.len() && s[i].id == id);
}

pub proof fn lemma_provider_index_unique(s: Seq<ProviderModel>, id: Identity, i: int)
    requires
        providers_distinct(s),
        0 <= i < s.len(),
        s[i].id == id,
    ensures
        provider_index(s, id) == i,
{
    assert(has_provider(s, id));
    lemma_provider_index_in_range(s, id);
}

impl StateModel {
    /// The state of a fresh deployment: nothing stored yet.
    pub open spec fn empty() -> StateModel {
        StateModel {
            config: None,
            providers: Seq::empty(),
            rentals: Seq::empty(),
            next_rental_id: 0,
        }
    }

    /// Well-formedness of the whole store: registry identities are unique
    /// and priced above zero, every ledger entry is internally consistent
    /// at its index, and the counter equals the ledger length (identifiers
    /// are assigned sequentially from 0 and never reused).
    pub open spec fn wf(self) -> bool {
        &&& providers_distinct(self.providers)
        &&& forall|i: int| 0 <= i < self.providers.len() ==> self.providers[i].price_per_hour > 0
        &&& forall|i: int| 0 <= i < self.rentals.len() ==> rental_wf(self.rentals[i], i)
        &&& self.next_rental_id == self.rentals.len()
    }
}

/// What `initialize` does: store the configuration, exactly once.
pub open spec fn spec_initialize(s: StateModel, admin: Identity, token_address: Identity)
    -> (StateModel, Result<(), ContractError>)
{
    if s.config is Some {
        (s, Err(ContractError::AlreadyInitialized))
    } else {
        (StateModel { config: Some(Config { admin, token_address }), ..s }, Ok(()))
    }
}

/// What `register` does: reject a zero price, otherwise insert the listing,
/// or overwrite in place the one listing that already carries this identity.
pub open spec fn spec_register(
    s: StateModel,
    provider_address: Identity,
    gpu_model: Seq<char>,
    price_per_hour: u128,
    now: u64,
) -> (StateModel, Result<ProviderModel, ContractError>) {
    if price_per_hour == 0 {
        (s, Err(ContractError::PriceMustBePositive))
    } else {
        let listing = ProviderModel {
            id: provider_address,
            gpu_model,
            price_per_hour,
            registered_at: now,
        };
        let providers = if has_provider(s.providers, provider_address) {
            s.providers.update(provider_index(s.providers, provider_address), listing)
        } else {
            s.providers.push(listing)
        };
        (StateModel { providers, ..s }, Ok(listing))
    }
}

/// What `rent_gpu` does: validate the duration and the provider, compute the
/// cost and the time window with checked arithmetic, draw the next identifier,
/// and append the new rental in the open state. Any failure leaves the state
/// exactly as it was. The escrow deposit of `total_cost` is the host's
/// transfer, made within the same atomic call.
pub open spec fn spec_rent(
    s: StateModel,
    consumer_address: Identity,
    provider_address: Identity,
    duration_hours: u64,
    now: u64,
) -> (StateModel, Result<Rental, ContractError>) {
    if duration_hours == 0 {
        (s, Err(ContractError::InvalidDuration))
    } else if !has_provider(s.providers, provider_address) {
        (s, Err(ContractError::ProviderNotFound))
    } else if lookup_provider(s.providers, provider_address).price_per_hour * duration_hours
        > u128::MAX {
        (s, Err(ContractError::MathOverflow))
    } else if s.config is None {
        (s, Err(ContractError::NotInitialized))
    } else if duration_hours * 3600 > u64::MAX {
        (s, Err(ContractError::MathOverflow))
    } else if now + duration_hours * 3600 > u64::MAX {
        (s, Err(ContractError::MathOverflow))
    } else if s.next_rental_id == u64::MAX {
        (s, Err(ContractError::MathOverflow))
    } else {
        let rental = Rental {
            id: s.next_rental_id,
            consumer: consumer_address,
            provider: provider_address,
            start_time: now,
            end_time: (now + duration_hours * 3600) as u64,
            duration_hours,
            total_cost: (lookup_provider(s.providers, provider_address).price_per_hour
                * duration_hours) as u128,
            is_active: true,
            job_complete: false,
            is_paid: false,
        };
        (
            StateModel {
                rentals: s.rentals.push(rental),
                next_rental_id: (s.next_rental_id + 1) as u64,
                ..s
            },
            Ok(rental),
        )
    }
}

/// What `complete_job` does: find the rental, check that the caller is its
/// consumer and that it was not settled before, and flip the boolean triplet
/// to the settled combination. The terminal guard is `job_complete || is_paid`,
/// deliberately not `is_active`. The payout of `total_cost` to the provider is
/// the host's transfer, made within the same atomic call.
pub open spec fn spec_complete(s: StateModel, consumer_address: Identity, rental_id: u64)
    -> (StateModel, Result<Rental, ContractError>)
{
    if rental_id >= s.rentals.len() {
        (s, Err(ContractError::RentalNotFound))
    } else {
        let rental = s.rentals[rental_id as int];
        if rental.consumer != consumer_address {
            (s, Err(ContractError::CallerNotConsumer))
        } else if rental.job_complete || rental.is_paid {
            (s, Err(ContractError::RentalAlreadyCompleted))
        } else if s.config is None {
            (s, Err(ContractError::NotInitialized))
        } else {
            let settled = Rental { is_active: false, job_complete: true, is_paid: true, ..rental };
            (StateModel { rentals: s.rentals.update(rental_id as int, settled), ..s }, Ok(settled))
        }
    }
}

/// The ledger entries whose consumer is this identity, in ledger order.
pub open spec fn rentals_for_consumer(rs: Seq<Rental>, consumer: Identity) -> Seq<Rental>
    decreases rs.len(),
{
    if rs.len() == 0 {
        Seq::empty()
    } else {
        let rest = rentals_for_consumer(rs.drop_last(), consumer);
        if rs.last().consumer == consumer {
            rest.push(rs.last())
        } else {
            rest
        }
    }
}

/// The ledger entries whose provider is this identity, in ledger order.
pub open spec fn rentals_for_provider(rs: Seq<Rental>, provider: Identity) -> Seq<Rental>
    decreases rs.len(),
{
    if rs.len() == 0 {
        Seq::empty()
    } else {
        let rest = rentals_for_provider(rs.drop_last(), provider);
        if rs.last().provider == provider {
            rest.push(rs.last())
        } else {
            rest
        }
    }
}

/// The funds the escrow account holds for a ledger: the cost of every open
/// rental, each counted exactly once. Settled rentals were already paid out.
pub open spec fn escrow_held(rs: Seq<Rental>) -> int
    decreases rs.len(),
{
    if rs.len() == 0 {
        0
    } else {
        escrow_held(rs.drop_last()) + (if rental_is_open(rs.last()) {
            rs.last().total_cost as int
        } else {
            0
        })
    }
}

/// Replacing one ledger entry changes the escrow holdings by exactly the
/// difference the two entries contribute.
pub proof fn lemma_escrow_held_update(rs: Seq<Rental>, i: int, r: Rental)
    requires
        0 <= i < rs.len(),
    ensures
        escrow_held(rs.update(i, r)) == escrow_held(rs) - (if rental_is_open(rs[i]) {
            rs[i].total_cost as int
        } else {
            0
        }) + (if rental_is_open(r) {
            r.total_cost as int
        } else {
            0
        }),
    decreases rs.len(),
{
    let updated = rs.update(i, r);
    if i == rs.len() - 1 {
        assert(updated.drop_last() =~= rs.drop_last());
        assert(updated.last() == r);
    } else {
        assert(updated.drop_last() =~= rs.drop_last().update(i, r));
        assert(updated.last() == rs.last());
        lemma_escrow_held_update(rs.drop_last(), i, r);
    }
}

pub proof fn lemma_initialize_preserves_wf(s: StateModel, admin: Identity, token_address: Identity)
    requires
        s.wf(),
    ensures
        spec_initialize(s, admin, token_address).0.wf(),
{
}

pub proof fn lemma_register_preserves_wf(
    s: StateModel,
    provider_address: Identity,
    gpu_model: Seq<char>,
    price_per_hour: u128,
    now: u64,
)
    requires
        s.wf(),
    ensures
        spec_register(s, provider_address, gpu_model, price_per_hour, now).0.wf(),
{
    if price_per_hour > 0 {
        if has_provider(s.providers, provider_address) {
            lemma_provider_index_in_range(s.providers, provider_address);
        }
    }
}

pub proof fn lemma_rent_preserves_wf(
    s: StateModel,
    consumer_address: Identity,
    provider_address: Identity,
    duration_hours: u64,
    now: u64,
)
    requires
        s.wf(),
    ensures
        spec_rent(s, consumer_address, provider_address, duration_hours, now).0.wf(),
{
}

pub proof fn lemma_complete_preserves_wf(s: StateModel, consumer_address: Identity, rental_id: u64)
    requires
        s.wf(),
    ensures
        spec_complete(s, consumer_address, rental_id).0.wf(),
{
}

} // verus!
