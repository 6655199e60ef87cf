use vstd::prelude::*;

verus! {

/// Every failure a call can report. A failing call commits nothing: the
/// caller sees exactly one of these conditions and the state is unchanged.
#[derive(Clone, Copy, Debug, PartialEq, Eq, Structural)]
pub enum ContractError {
    /// `initialize` was called while a configuration is already stored.
    AlreadyInitialized,
    /// A transfer was requested before `initialize` stored the payment asset.
    NotInitialized,
    /// The invoking principal is not the claimed identity (raised at the
    /// authorization edge, never by the verified core itself).
    Unauthorized,
    /// `rent_gpu` named a provider identity with no listing in the registry.
    ProviderNotFound,
    /// The rental identifier is not present in the ledger.
    RentalNotFound,
    /// `rent_gpu` was called with `duration_hours == 0`.
    InvalidDuration,
    /// The funds-transfer collaborator rejected the payment (raised at the
    /// transfer edge, never by the verified core itself).
    InsufficientFunds,
    /// Reserved for a guard on `is_active`; the core never raises it.
    RentalNotActive,
    /// `complete_job` was called on a rental already in the settled state.
    RentalAlreadyCompleted,
    /// `complete_job` was called by an identity other than the rental's consumer.
    CallerNotConsumer,
    /// A checked arithmetic step (cost, duration-to-seconds, end time, or
    /// counter increment) would overflow its integer type.
    MathOverflow,
    /// `register` was called with `price_per_hour == 0`.
    PriceMustBePositive,
}

} // verus!
