use vstd::prelude::*;

verus! {

/// Typed failure returned by every operation. No operation has a partial
/// effect: a caller that receives an error keeps its old state.
#[derive(Clone, Copy, Debug, PartialEq, Eq, Structural)]
pub enum Error {
    /// The caller has not authenticated as the principal the operation acts for.
    Unauthorized,
    /// A monetary amount (or the fee rate) was not in the accepted range.
    AmountMustBePositive,
    /// A rental was requested for zero days.
    RentalDurationCannotBeZero,
    /// A renter tried to rent their own car.
    SelfRentalNotAllowed,
    /// No car is registered for the given owner.
    CarNotFound,
    /// No rental record exists for the given (renter, owner) key.
    RentalNotFound,
    /// The car is currently rented, so the requested transition conflicts
    /// with its state.
    CarAlreadyRented,
    /// The owner's withdrawable balance (or the contract's total custody)
    /// cannot cover the requested payout.
    BalanceNotAvailableForAmountRequested,
    /// The admin balance cannot cover the requested withdrawal.
    InsufficientBalance,
    /// A balance credit would exceed the integer range.
    OverflowError,
    /// A balance debit would fall below the integer range. The balance
    /// guards run before every debit, so the verified operations never
    /// return this; it remains part of the taxonomy for hosts and clients.
    UnderflowError,
}

} // verus!
