//! The errors of all operations.

use vstd::prelude::*;

verus! {

/// Every way an operation on a market or a bet can be rejected.
///
/// A rejected operation changes nothing.
#[derive(Clone, Copy, Debug, PartialEq, Eq, Structural)]
pub enum Error {
    /// The event already has an outcome.
    EventSettled,
    /// The event has no outcome yet.
    EventNotSettled,
    /// The caller is not the party entitled to the operation.
    Unauthorized,
    /// The bet or the vault does not belong to the event.
    InvalidEvent,
    /// The outcome named is neither `WinA` nor `WinB`.
    InvalidOutcome,
    /// The betting deadline of the event has passed.
    BettingEnded,
    /// The authority has closed betting on the event.
    BettingClosed,
    /// Betting on the event is closed already.
    BettingAlreadyClosed,
    /// The bet has been settled before.
    BetSettled,
    /// A stake of zero.
    ZeroAmount,
    /// A total or a payout does not fit its integer type.
    OverflowError,
    /// The vault holds less than is to be withdrawn.
    InsufficientFunds,
    /// The mint is not the one the event was created with.
    InvalidMint,
    /// The token account is not one the event can use.
    InvalidTokenAccount,
    /// The fee rates add up to more than the whole stake.
    InvalidFee,
    /// A display name is longer than the limit.
    InvalidStringLength,
}

} // verus!
