use vstd::prelude::*;

use crate::errors::ContractError;
use crate::state::{StateModel, has_provider, lemma_complete_preserves_wf,
    lemma_initialize_preserves_wf, lemma_provider_index_in_range, lemma_provider_index_unique,
    lemma_register_preserves_wf, lemma_rent_preserves_wf, lookup_provider, provider_index,
    providers_distinct, rentals_for_consumer, rentals_for_provider, spec_complete,
    spec_initialize, spec_register, spec_rent};
use crate::types::{Config, Identity, Provider, ProviderModel, Rental, rental_wf};

verus! {

/// The marketplace core: an explicit handle to the persistent store that the
/// host passes into every operation. Each public method is one atomic unit of
/// work: it either commits in full, or returns an error and changes nothing.
/// The host performs authorization before a call (the identity arguments are
/// the authenticated principals) and the matching escrow transfer within the
/// same atomic call, so a rejected transfer discards the mutation as a whole.
pub struct SparkNetContract {
    config: Option<Config>,
    providers: Vec<Provider>,
    rentals: Vec<Rental>,
    next_rental_id: u64,
}

impl View for SparkNetContract {
    type V = StateModel;

    closed spec fn view(&self) -> StateModel {
        assembled(self.config, self.providers@, self.rentals@, self.next_rental_id)
    }
}

/// The abstract state assembled from the plain values that the host edge
/// stores between calls.
pub open spec fn assembled(
    config: Option<Config>,
    providers: Seq<Provider>,
    rentals: Seq<Rental>,
    next_rental_id: u64,
) -> StateModel {
    StateModel {
        config,
        providers: providers.map(|i: int, p: Provider| p@),
        rentals,
        next_rental_id,
    }
}

impl SparkNetContract {
    /// The store is well formed; established by `new` and preserved by every
    /// method.
    pub open spec fn inv(&self) -> bool {
        self@.wf()
    }

    /// A fresh deployment: empty registry, empty ledger, counter at 0, no
    /// configuration stored yet.
    pub fn new() -> (contract: SparkNetContract)
        ensures
            contract.inv(),
            contract@ == StateModel::empty(),
    {
        let contract = SparkNetContract {
            config: None,
            providers: Vec::new(),
            rentals: Vec::new(),
            next_rental_id: 0,
        };
        proof {
            assert(contract@ =~= StateModel::empty());
        }
        contract
    }

    /// Store the admin principal and the payment-asset reference, exactly
    /// once per deployment; a second call fails with `AlreadyInitialized`
    /// and changes nothing.
    pub fn initialize(&mut self, admin: Identity, token_address: Identity) -> (result: Result<
        (),
        ContractError,
    >)
        requires
            old(self).inv(),
        ensures
            final(self).inv(),
            final(self)@ == spec_initialize(old(self)@, admin, token_address).0,
            result == spec_initialize(old(self)@, admin, token_address).1,
    {
        proof {
            lemma_initialize_preserves_wf(old(self)@, admin, token_address);
        }
        if self.config.is_some() {
            return Err(ContractError::AlreadyInitialized);
        }
        self.config = Some(Config { admin, token_address });
        proof {
            assert(self@ =~= spec_initialize(old(self)@, admin, token_address).0);
        }
        Ok(())
    }

    /// Insert or overwrite the provider listing keyed by `provider_address`,
    /// stamping `now` as its registration time, and return the stored record.
    /// A zero price fails with `PriceMustBePositive` and changes nothing.
    /// The caller is authenticated as `provider_address` by the host.
    pub fn register(
        &mut self,
        provider_address: Identity,
        gpu_model: String,
        price_per_hour: u128,
        now: u64,
    ) -> (result: Result<Provider, ContractError>)
        requires
            old(self).inv(),
        ensures
            final(self).inv(),
            final(self)@ == spec_register(
                old(self)@,
                provider_address,
                gpu_model@,
                price_per_hour,
                now,
            ).0,
            match result {
                Ok(listing) => spec_register(
                    old(self)@,
                    provider_address,
                    gpu_model@,
                    price_per_hour,
                    now,
                ).1 == Ok::<ProviderModel, ContractError>(listing@),
                Err(e) => spec_register(
                    old(self)@,
                    provider_address,
                    gpu_model@,
                    price_per_hour,
                    now,
                ).1 == Err::<ProviderModel, ContractError>(e),
            },
    {
        proof {
            lemma_register_preserves_wf(old(self)@, provider_address, gpu_model@, price_per_hour,
                now);
        }
        if price_per_hour == 0 {
            return Err(ContractError::PriceMustBePositive);
        }
        let stored = Provider {
            id: provider_address,
            gpu_model: gpu_model.clone(),
            price_per_hour,
            registered_at: now,
        };
        let returned = Provider {
            id: provider_address,
            gpu_model,
            price_per_hour,
            registered_at: now,
        };
        match self.find_provider(provider_address) {
            Some(i) => {
                self.providers.set(i, stored);
            },
            None => {
                self.providers.push(stored);
            },
        }
        proof {
            let expected = spec_register(old(self)@, provider_address, returned@.gpu_model,
                price_per_hour, now);
            assert(self@.providers =~= expected.0.providers);
            assert(self@ =~= expected.0);
            assert(expected.1 == Ok::<ProviderModel, ContractError>(returned@));
        }
        Ok(returned)
    }

    /// Every provider listing, in registry (insertion) order.
    pub fn get_providers(&self) -> (result: Vec<Provider>)
        ensures
            result@.len() == self@.providers.len(),
            forall|j: int| 0 <= j < result@.len() ==> result@[j]@ == self@.providers[j],
    {
        let mut result: Vec<Provider> = Vec::new();
        let mut i: usize = 0;
        while i < self.providers.len()
            invariant
                i <= self.providers.len(),
                result@.len() == i,
                forall|j: int| 0 <= j < i as int ==> result@[j]@ == self@.providers[j],
            decreases self.providers.len() - i,
        {
            let p = &self.providers[i];
            result.push(
                Provider {
                    id: p.id,
                    gpu_model: p.gpu_model.clone(),
                    price_per_hour: p.price_per_hour,
                    registered_at: p.registered_at,
                },
            );
            proof {
                assert(result@[i as int]@ =~= self@.providers[i as int]);
            }
            i = i + 1;
        }
        result
    }

    /// Broker a rental: validate the duration and the provider, compute the
    /// cost and the time window with checked arithmetic, draw the next
    /// identifier, and append the new rental in the open state. Any failure
    /// changes nothing. The host escrows `total_cost` from the consumer in
    /// the same atomic call; the caller is authenticated as
    /// `consumer_address` by the host.
    pub fn rent_gpu(
        &mut self,
        consumer_address: Identity,
        provider_address: Identity,
        duration_hours: u64,
        now: u64,
    ) -> (result: Result<Rental, ContractError>)
        requires
            old(self).inv(),
        ensures
            final(self).inv(),
            final(self)@ == spec_rent(
                old(self)@,
                consumer_address,
                provider_address,
                duration_hours,
                now,
            ).0,
            result == spec_rent(
                old(self)@,
                consumer_address,
                provider_address,
                duration_hours,
                now,
            ).1,
    {
        proof {
            lemma_rent_preserves_wf(old(self)@, consumer_address, provider_address, duration_hours,
                now);
        }
        if duration_hours == 0 {
            return Err(ContractError::InvalidDuration);
        }
        let provider_idx = match self.find_provider(provider_address) {
            Some(i) => i,
            None => {
                return Err(ContractError::ProviderNotFound);
            },
        };
        let price_per_hour = self.providers[provider_idx].price_per_hour;
        proof {
            lemma_provider_index_in_range(self@.providers, provider_address);
            assert(price_per_hour == lookup_provider(self@.providers,
                provider_address).price_per_hour);
        }
        let total_cost = match price_per_hour.checked_mul(duration_hours as u128) {
            Some(cost) => cost,
            None => {
                return Err(ContractError::MathOverflow);
            },
        };
        match self.get_token_address() {
            Ok(_) => {},
            Err(e) => {
                return Err(e);
            },
        }
        let duration_seconds = match duration_hours.checked_mul(3600) {
            Some(seconds) => seconds,
            None => {
                return Err(ContractError::MathOverflow);
            },
        };
        let end_time = match now.checked_add(duration_seconds) {
            Some(t) => t,
            None => {
                return Err(ContractError::MathOverflow);
            },
        };
        let rental_id = match self.get_and_increment_next_rental_id() {
            Ok(id) => id,
            Err(e) => {
                return Err(e);
            },
        };
        let rental = Rental {
            id: rental_id,
            consumer: consumer_address,
            provider: provider_address,
            start_time: now,
            end_time,
            duration_hours,
            total_cost,
            is_active: true,
            job_complete: false,
            is_paid: false,
        };
        self.rentals.push(rental);
        proof {
            assert(self@ =~= spec_rent(old(self)@, consumer_address, provider_address,
                duration_hours, now).0);
        }
        Ok(rental)
    }

    /// Settle a rental: check that it exists, that the caller is its
    /// consumer, and that it was not settled before, then flip the boolean
    /// triplet to the settled combination and return the updated record.
    /// The terminal guard is `job_complete || is_paid`, deliberately not
    /// `is_active`. The host pays `total_cost` out of escrow to the provider
    /// in the same atomic call; the caller is authenticated as
    /// `consumer_address` by the host.
    pub fn complete_job(&mut self, consumer_address: Identity, rental_id: u64) -> (result: Result<
        Rental,
        ContractError,
    >)
        requires
            old(self).inv(),
        ensures
            final(self).inv(),
            final(self)@ == spec_complete(old(self)@, consumer_address, rental_id).0,
            result == spec_complete(old(self)@, consumer_address, rental_id).1,
    {
        proof {
            lemma_complete_preserves_wf(old(self)@, consumer_address, rental_id);
        }
        if rental_id >= self.rentals.len() as u64 {
            return Err(ContractError::RentalNotFound);
        }
        let idx = rental_id as usize;
        let rental = self.rentals[idx];
        if rental.consumer != consumer_address {
            return Err(ContractError::CallerNotConsumer);
        }
        if rental.job_complete || rental.is_paid {
            return Err(ContractError::RentalAlreadyCompleted);
        }
        match self.get_token_address() {
            Ok(_) => {},
            Err(e) => {
                return Err(e);
            },
        }
        let settled = Rental { is_active: false, job_complete: true, is_paid: true, ..rental };
        self.rentals.set(idx, settled);
        proof {
            assert(self@ =~= spec_complete(old(self)@, consumer_address, rental_id).0);
        }
        Ok(settled)
    }

    /// The rental stored under this identifier, or `RentalNotFound`.
    pub fn get_rental_by_id(&self, rental_id: u64) -> (result: Result<Rental, ContractError>)
        ensures
            rental_id < self@.rentals.len() ==> result == Ok::<Rental, ContractError>(
                self@.rentals[rental_id as int],
            ),
            rental_id >= self@.rentals.len() ==> result == Err::<Rental, ContractError>(
                ContractError::RentalNotFound,
            ),
    {
        if rental_id >= self.rentals.len() as u64 {
            return Err(ContractError::RentalNotFound);
        }
        Ok(self.rentals[rental_id as usize])
    }

    /// Every rental whose consumer is this identity, in ledger order.
    pub fn get_rentals_for_consumer(&self, consumer_address: Identity) -> (result: Vec<Rental>)
        ensures
            result@ == rentals_for_consumer(self@.rentals, consumer_address),
    {
        let mut result: Vec<Rental> = Vec::new();
        let mut i: usize = 0;
        while i < self.rentals.len()
            invariant
                i <= self.rentals.len(),
                result@ == rentals_for_consumer(self@.rentals.subrange(0, i as int),
                    consumer_address),
            decreases self.rentals.len() - i,
        {
            proof {
                assert(self@.rentals.subrange(0, i + 1).drop_last() =~= self@.rentals.subrange(
                    0,
                    i as int,
                ));
                assert(self@.rentals.subrange(0, i + 1).last() == self@.rentals[i as int]);
            }
            if self.rentals[i].consumer == consumer_address {
                result.push(self.rentals[i]);
            }
            i = i + 1;
        }
        proof {
            assert(self@.rentals.subrange(0, self@.rentals.len() as int) =~= self@.rentals);
        }
        result
    }

    /// Every rental whose provider is this identity, in ledger order.
    pub fn get_rentals_for_provider(&self, provider_address: Identity) -> (result: Vec<Rental>)
        ensures
            result@ == rentals_for_provider(self@.rentals, provider_address),
    {
        let mut result: Vec<Rental> = Vec::new();
        let mut i: usize = 0;
        while i < self.rentals.len()
            invariant
                i <= self.rentals.len(),
                result@ == rentals_for_provider(self@.rentals.subrange(0, i as int),
                    provider_address),
            decreases self.rentals.len() - i,
        {
            proof {
                assert(self@.rentals.subrange(0, i + 1).drop_last() =~= self@.rentals.subrange(
                    0,
                    i as int,
                ));
                assert(self@.rentals.subrange(0, i + 1).last() == self@.rentals[i as int]);
            }
            if self.rentals[i].provider == provider_address {
                result.push(self.rentals[i]);
            }
            i = i + 1;
        }
        proof {
            assert(self@.rentals.subrange(0, self@.rentals.len() as int) =~= self@.rentals);
        }
        result
    }

    /// The index of the listing carrying this identity, if one exists.
    fn find_provider(&self, provider_address: Identity) -> (found: Option<usize>)
        requires
            self.inv(),
        ensures
            match found {
                Some(i) => has_provider(self@.providers, provider_address) && i == provider_index(
                    self@.providers,
                    provider_address,
                ),
                None => !has_provider(self@.providers, provider_address),
            },
    {
        let mut i: usize = 0;
        while i < self.providers.len()
            invariant
                self.inv(),
                i <= self.providers.len(),
                forall|j: int| 0 <= j < i as int ==> self@.providers[j].id != provider_address,
            decreases self.providers.len() - i,
        {
            if self.providers[i].id == provider_address {
                proof {
                    assert(self@.providers[i as int].id == provider_address);
                    lemma_provider_index_unique(self@.providers, provider_address, i as int);
                }
                return Some(i);
            }
            proof {
                assert(self@.providers[i as int].id != provider_address);
            }
            i = i + 1;
        }
        None
    }

    /// The payment-asset reference from the configuration store, or
    /// `NotInitialized` when bootstrap has not run.
    fn get_token_address(&self) -> (result: Result<Identity, ContractError>)
        ensures
            match result {
                Ok(token) => self@.config matches Some(c) && c.token_address == token,
                Err(e) => e == ContractError::NotInitialized && self@.config is None,
            },
    {
        match self.config {
            Some(c) => Ok(c.token_address),
            None => Err(ContractError::NotInitialized),
        }
    }

    /// Draw the current counter value and advance the counter by exactly 1;
    /// a counter at its maximum fails with `MathOverflow` and changes nothing.
    fn get_and_increment_next_rental_id(&mut self) -> (result: Result<u64, ContractError>)
        ensures
            final(self).config == old(self).config,
            final(self).providers == old(self).providers,
            final(self).rentals == old(self).rentals,
            match result {
                Ok(id) => old(self).next_rental_id < u64::MAX && id == old(self).next_rental_id
                    && final(self).next_rental_id == old(self).next_rental_id + 1,
                Err(e) => e == ContractError::MathOverflow && old(self).next_rental_id == u64::MAX
                    && *final(self) == *old(self),
            },
    {
        let current_id = self.next_rental_id;
        let next_id = match current_id.checked_add(1) {
            Some(id) => id,
            None => {
                return Err(ContractError::MathOverflow);
            },
        };
        self.next_rental_id = next_id;
        Ok(current_id)
    }

    /// Hand the whole store back to the host edge as plain values
    /// (configuration, registry, ledger, counter), for persistence between
    /// calls.
    pub fn into_parts(self) -> (parts: (Option<Config>, Vec<Provider>, Vec<Rental>, u64))
        ensures
            assembled(parts.0, parts.1@, parts.2@, parts.3) == self@,
    {
        let SparkNetContract { config, providers, rentals, next_rental_id } = self;
        (config, providers, rentals, next_rental_id)
    }

    /// Rebuild the store from the plain values the host edge persisted.
    /// Returns the store exactly when the values assemble into a well-formed
    /// state (as `into_parts` of a well-formed store always does), and `None`
    /// otherwise: a caller outside the verified core gets the
    /// well-formedness check made for it.
    pub fn from_parts(
        config: Option<Config>,
        providers: Vec<Provider>,
        rentals: Vec<Rental>,
        next_rental_id: u64,
    ) -> (result: Option<SparkNetContract>)
        ensures
            match result {
                Some(contract) => contract.inv() && contract@ == assembled(
                    config,
                    providers@,
                    rentals@,
                    next_rental_id,
                ),
                None => !assembled(config, providers@, rentals@, next_rental_id).wf(),
            },
    {
        let contract = SparkNetContract { config, providers, rentals, next_rental_id };
        if contract.check_wf() {
            Some(contract)
        } else {
            None
        }
    }

    /// Decide well-formedness of the assembled store at run time.
    fn check_wf(&self) -> (ok: bool)
        ensures
            ok == self@.wf(),
    {
        if !self.check_providers() {
            return false;
        }
        if !self.check_rentals() {
            return false;
        }
        if self.next_rental_id != self.rentals.len() as u64 {
            return false;
        }
        true
    }

    /// Decide the registry half of well-formedness: identities pairwise
    /// distinct and every price above zero.
    fn check_providers(&self) -> (ok: bool)
        ensures
            ok == (providers_distinct(self@.providers) && (forall|i: int|
                0 <= i < self@.providers.len() ==> self@.providers[i].price_per_hour > 0)),
    {
        let n = self.providers.len();
        let mut i: usize = 0;
        while i < n
            invariant
                i <= n,
                n == self.providers.len(),
                forall|a: int, b: int|
                    0 <= a < b < n && a < i as int ==> self@.providers[a].id
                        != self@.providers[b].id,
                forall|a: int| 0 <= a < i as int ==> self@.providers[a].price_per_hour > 0,
            decreases n - i,
        {
            if self.providers[i].price_per_hour == 0 {
                proof {
                    assert(self@.providers[i as int].price_per_hour == 0);
                }
                return false;
            }
            let mut j: usize = i + 1;
            while j < n
                invariant
                    i < j <= n,
                    n == self.providers.len(),
                    forall|b: int| i < b < j as int ==> self@.providers[i as int].id
                        != self@.providers[b].id,
                decreases n - j,
            {
                if self.providers[i].id == self.providers[j].id {
                    proof {
                        assert(self@.providers[i as int].id == self@.providers[j as int].id);
                    }
                    return false;
                }
                proof {
                    assert(self@.providers[i as int].id != self@.providers[j as int].id);
                }
                j = j + 1;
            }
            proof {
                assert(self@.providers[i as int].price_per_hour > 0);
            }
            i = i + 1;
        }
        true
    }

    /// Decide the ledger half of well-formedness: every entry internally
    /// consistent at its index.
    fn check_rentals(&self) -> (ok: bool)
        ensures
            ok == (forall|i: int|
                0 <= i < self@.rentals.len() ==> rental_wf(self@.rentals[i], i)),
    {
        let n = self.rentals.len();
        let mut i: usize = 0;
        while i < n
            invariant
                i <= n,
                n == self.rentals.len(),
                forall|a: int| 0 <= a < i as int ==> rental_wf(self@.rentals[a], a),
            decreases n - i,
        {
            let r = self.rentals[i];
            proof {
                assert(self@.rentals[i as int] == r);
            }
            if r.id != i as u64 {
                proof {
                    assert(!rental_wf(r, i as int));
                }
                return false;
            }
            if r.duration_hours == 0 {
                proof {
                    assert(!rental_wf(r, i as int));
                }
                return false;
            }
            let open = r.is_active && !r.job_complete && !r.is_paid;
            let settled = !r.is_active && r.job_complete && r.is_paid;
            if !(open || settled) {
                proof {
                    assert(!rental_wf(r, i as int));
                }
                return false;
            }
            let seconds = match r.duration_hours.checked_mul(3600) {
                Some(seconds) => seconds,
                None => {
                    proof {
                        assert(r.end_time < r.start_time + r.duration_hours * 3600);
                        assert(!rental_wf(r, i as int));
                    }
                    return false;
                },
            };
            let end_time = match r.start_time.checked_add(seconds) {
                Some(t) => t,
                None => {
                    proof {
                        assert(r.end_time < r.start_time + r.duration_hours * 3600);
                        assert(!rental_wf(r, i as int));
                    }
                    return false;
                },
            };
            if r.end_time != end_time {
                proof {
                    assert(!rental_wf(r, i as int));
                }
                return false;
            }
            proof {
                assert(rental_wf(self@.rentals[i as int], i as int));
            }
            i = i + 1;
        }
        true
    }
}

} // verus!
