//! Settling a bet.

use vstd::prelude::*;
use crate::error::Error;
use crate::payout::compute_payout;
use crate::pubkey::Pubkey;
use crate::state::{Bet, Event, Outcome};
use crate::vault::Vault;

verus! {

/// What settling a bet works on.
#[derive(Clone, Debug, PartialEq, Eq)]
pub struct SettleBet {
    /// Who asks for the settlement.
    pub authority: Pubkey,
    /// The bet to settle.
    pub bet: Bet,
    /// The event that the bet is to be settled against.
    pub event: Event,
    /// The vault that pays.
    pub event_vault: Vault,
}

/// The notice of a settled bet.
#[derive(Clone, Copy, Debug, PartialEq, Eq)]
pub struct BetSettled {
    pub bet: Pubkey,
    pub event: Pubkey,
    pub authority: Pubkey,
    pub outcome: Outcome,
    pub amount: u64,
    pub payout: u64,
    pub won: bool,
}

impl SettleBet {
    /// Why the settlement is refused, if it is: the first of these that holds.
    pub open spec fn rejection(&self) -> Option<Error> {
        if self.bet.authority != self.authority {
            Some(Error::Unauthorized)
        } else if self.bet.event != self.event.key {
            Some(Error::InvalidEvent)
        } else if self.event_vault.event != self.event.key {
            Some(Error::InvalidEvent)
        } else if self.bet.settled {
            Some(Error::BetSettled)
        } else if !self.event.resolved() {
            Some(Error::EventNotSettled)
        } else if self.bet.payout(&self.event) > u64::MAX {
            Some(Error::OverflowError)
        } else if self.bet.payout(&self.event) > self.event_vault.balance {
            Some(Error::InsufficientFunds)
        } else {
            None
        }
    }

    /// The notice that a settlement gives out.
    pub open spec fn notice(&self) -> BetSettled {
        BetSettled {
            bet: self.bet.key,
            event: self.event.key,
            authority: self.bet.authority,
            outcome: self.bet.outcome,
            amount: self.bet.amount,
            payout: self.bet.payout(&self.event) as u64,
            won: self.bet.won(&self.event),
        }
    }

    /// What a settlement leaves: the bet marked, the payout gone from the vault.
    pub open spec fn settled(self) -> SettleBet {
        SettleBet {
            bet: Bet { settled: true, ..self.bet },
            event_vault: Vault {
                balance: (self.event_vault.balance - self.bet.payout(&self.event)) as u64,
                ..self.event_vault
            },
            ..self
        }
    }
}

/// Settles a bet against its resolved event: marks it settled, takes its
/// payout out of the vault and returns the notice, which carries the payout.
///
/// A bet on the losing side is paid nothing; so is a winner while the winning
/// pool is empty. Any other winner is paid its stake less both fees, and the
/// share of the losing pool that this net stake has in the winning pool.
///
/// The checks come in this order, and a refusal changes nothing:
/// `Unauthorized` unless the caller placed the bet; `InvalidEvent` unless the
/// bet and the vault belong to the event; `BetSettled` if the bet was settled
/// before; `EventNotSettled` while there is no outcome; `OverflowError` if the
/// payout does not fit in 64 bits; `InsufficientFunds` if the vault holds less
/// than the payout.
pub fn settle_bet(ctx: &mut SettleBet) -> (res: Result<BetSettled, Error>)
    requires
        old(ctx).event.wf(),
    ensures
        old(ctx).event.wf() ==> final(ctx).event.wf(),
        match old(ctx).rejection() {
            Some(e) => res == Err::<BetSettled, Error>(e) && *final(ctx) == *old(ctx),
            None => res == Ok::<BetSettled, Error>(old(ctx).notice()) && *final(ctx) == old(
                ctx,
            ).settled(),
        },
{
    if ctx.bet.authority != ctx.authority {
        return Err(Error::Unauthorized);
    }
    if ctx.bet.event != ctx.event.key {
        return Err(Error::InvalidEvent);
    }
    if ctx.event_vault.event != ctx.event.key {
        return Err(Error::InvalidEvent);
    }
    if ctx.bet.settled {
        return Err(Error::BetSettled);
    }
    let payout: u64 = match ctx.event.outcome {
        Outcome::Undrawn => {
            return Err(Error::EventNotSettled);
        },
        Outcome::WinA => match ctx.bet.outcome {
            Outcome::WinA => match compute_payout(
                ctx.bet.amount,
                ctx.event.fee_bps,
                ctx.event.developer_fee_bps,
                ctx.event.win_a_amount,
                ctx.event.win_b_amount,
            ) {
                Ok(payout) => payout,
                Err(e) => {
                    return Err(e);
                },
            },
            _ => 0,
        },
        Outcome::WinB => match ctx.bet.outcome {
            Outcome::WinB => match compute_payout(
                ctx.bet.amount,
                ctx.event.fee_bps,
                ctx.event.developer_fee_bps,
                ctx.event.win_b_amount,
                ctx.event.win_a_amount,
            ) {
                Ok(payout) => payout,
                Err(e) => {
                    return Err(e);
                },
            },
            _ => 0,
        },
    };
    match ctx.event_vault.withdraw(payout) {
        Ok(()) => {},
        Err(e) => {
            return Err(e);
        },
    }
    let won: bool = ctx.bet.outcome == ctx.event.outcome;
    ctx.bet.settled = true;
    Ok(
        BetSettled {
            bet: ctx.bet.key,
            event: ctx.event.key,
            authority: ctx.bet.authority,
            outcome: ctx.bet.outcome,
            amount: ctx.bet.amount,
            payout,
            won,
        },
    )
}

/// A bet is paid once: after a settlement that went through, settling the
/// same bet again is refused with `BetSettled`.
pub proof fn lemma_settled_bet_is_refused(ctx: SettleBet)
    requires
        ctx.rejection() is None,
    ensures
        ctx.settled().rejection() == Some(Error::BetSettled),
        ctx.settled().bet.settled,
{
}

} // verus!
