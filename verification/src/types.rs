use vstd::prelude::*;

verus! {

/// An opaque principal: a provider, consumer, admin, or payment-asset
/// reference. The host resolves real on-chain addresses to these plain
/// handles at the boundary; the core only ever compares them for equality.
#[derive(Clone, Copy, Debug, PartialEq, Eq, Structural)]
pub struct Identity(pub u64);

/// Global configuration, stored exactly once at bootstrap and read-only
/// afterwards: the admin principal and the payment-asset reference.
#[derive(Clone, Copy, Debug, PartialEq, Eq, Structural)]
pub struct Config {
    pub admin: Identity,
    pub token_address: Identity,
}

/// A provider listing. The registry keeps at most one listing per identity;
/// re-registering the same identity overwrites the listing in place.
#[derive(Debug, PartialEq, Eq)]
pub struct Provider {
    pub id: Identity,
    pub gpu_model: String,
    pub price_per_hour: u128,
    pub registered_at: u64,
}

/// The mathematical value of a `Provider`, with the GPU model label as a
/// character sequence.
#[verifier::ext_equal]
pub struct ProviderModel {
    pub id: Identity,
    pub gpu_model: Seq<char>,
    pub price_per_hour: u128,
    pub registered_at: u64,
}

impl View for Provider {
    type V = ProviderModel;

    open spec fn view(&self) -> ProviderModel {
        ProviderModel {
            id: self.id,
            gpu_model: self.gpu_model@,
            price_per_hour: self.price_per_hour,
            registered_at: self.registered_at,
        }
    }
}

/// A rental record. The ledger is the sole owner of these records, assigns
/// identifiers sequentially from 0, and never removes an entry.
#[derive(Clone, Copy, Debug, PartialEq, Eq, Structural)]
pub struct Rental {
    pub id: u64,
    pub consumer: Identity,
    pub provider: Identity,
    pub start_time: u64,
    pub end_time: u64,
    pub duration_hours: u64,
    pub total_cost: u128,
    pub is_active: bool,
    pub job_complete: bool,
    pub is_paid: bool,
}

/// Open: created by `rent_gpu`; the escrow holds `total_cost`.
pub open spec fn rental_is_open(r: Rental) -> bool {
    r.is_active && !r.job_complete && !r.is_paid
}

/// Settled: terminal; reached exactly once via `complete_job`, after the
/// escrowed funds went out to the provider.
pub open spec fn rental_is_settled(r: Rental) -> bool {
    !r.is_active && r.job_complete && r.is_paid
}

/// Internal consistency of a single ledger entry stored at index `i`:
/// its identifier equals its index, its duration is positive, its end time
/// is exactly `duration_hours` hours after its start, and its boolean
/// triplet encodes one of the two lifecycle states.
pub open spec fn rental_wf(r: Rental, i: int) -> bool {
    &&& r.id == i
    &&& r.duration_hours > 0
    &&& r.end_time == r.start_time + r.duration_hours * 3600
    &&& rental_is_open(r) || rental_is_settled(r)
}

} // verus!
