//! Placing a bet.

use vstd::prelude::*;
use crate::error::Error;
use crate::pubkey::Pubkey;
use crate::state::{Bet, BettingWindow, Event, Outcome};
use crate::vault::Vault;

verus! {

/// What placing a bet works on.
#[derive(Clone, Debug, PartialEq, Eq)]
pub struct CreateBet {
    /// Who places the bet.
    pub authority: Pubkey,
    /// The event that the bet is placed on.
    pub event: Event,
    /// The address under which the new bet will be kept.
    pub bet: Pubkey,
    /// Bump seed of that address.
    pub bump: u8,
    /// The vault that takes the stake.
    pub event_vault: Vault,
    /// The time at which the bet is placed.
    pub now: i64,
}

/// The notice of a bet placed.
#[derive(Clone, Copy, Debug, PartialEq, Eq)]
pub struct BetCreated {
    pub bet: Pubkey,
    pub event: Pubkey,
    pub authority: Pubkey,
    pub outcome: Outcome,
    pub amount: u64,
}

impl CreateBet {
    /// Why a bet of `amount` on `outcome` is refused, if it is: the first of
    /// these that holds.
    pub open spec fn rejection(&self, outcome: Outcome, amount: u64) -> Option<Error> {
        if self.event.outcome != Outcome::Undrawn {
            Some(Error::EventSettled)
        } else if self.event_vault.event != self.event.key {
            Some(Error::InvalidEvent)
        } else if amount == 0 {
            Some(Error::ZeroAmount)
        } else if outcome == Outcome::Undrawn {
            Some(Error::InvalidOutcome)
        } else if !self.event.betting_window.is_open(self.now) {
            match self.event.betting_window {
                BettingWindow::Manual { .. } => Some(Error::BettingClosed),
                BettingWindow::Deadline { .. } => Some(Error::BettingEnded),
            }
        } else if !self.event.has_room(outcome, amount) {
            Some(Error::OverflowError)
        } else if self.event_vault.balance + amount > u64::MAX {
            Some(Error::OverflowError)
        } else {
            None
        }
    }

    /// The bet that is made.
    pub open spec fn new_bet(&self, outcome: Outcome, amount: u64) -> Bet {
        Bet {
            key: self.bet,
            bump: [self.bump],
            authority: self.authority,
            event: self.event.key,
            outcome,
            amount,
            settled: false,
        }
    }

    /// The notice that placing the bet gives out.
    pub open spec fn notice(&self, outcome: Outcome, amount: u64) -> BetCreated {
        BetCreated {
            bet: self.bet,
            event: self.event.key,
            authority: self.authority,
            outcome,
            amount,
        }
    }

    /// What placing the bet leaves: the stake in the pool of its side, that
    /// side's count one higher, the stake in the vault.
    pub open spec fn placed(self, outcome: Outcome, amount: u64) -> CreateBet {
        CreateBet {
            event: self.event.with_stake(outcome, amount),
            event_vault: Vault {
                balance: (self.event_vault.balance + amount) as u64,
                ..self.event_vault
            },
            ..self
        }
    }
}

/// Places a bet of `amount` on `outcome`: makes the bet, unsettled, adds the
/// stake to the pool of its side and to the vault, and returns the bet with
/// its notice.
///
/// The checks come in this order, and a refusal changes nothing:
/// `EventSettled` once the event has an outcome; `InvalidEvent` unless the
/// vault belongs to the event; `ZeroAmount` for a stake of zero;
/// `InvalidOutcome` for a bet on `Undrawn`; `BettingClosed` where the
/// authority has closed betting, `BettingEnded` at or after the deadline;
/// `OverflowError` where a pool, a count or the vault would leave its integer
/// type.
pub fn create_bet(ctx: &mut CreateBet, outcome: Outcome, amount: u64) -> (res: Result<
    (Bet, BetCreated),
    Error,
>)
    ensures
        old(ctx).event.wf() ==> final(ctx).event.wf(),
        res is Ok ==> old(ctx).event.accepts_bets(old(ctx).now),
        match old(ctx).rejection(outcome, amount) {
            Some(e) => res == Err::<(Bet, BetCreated), Error>(e) && *final(ctx) == *old(ctx),
            None => res == Ok::<(Bet, BetCreated), Error>(
                (old(ctx).new_bet(outcome, amount), old(ctx).notice(outcome, amount)),
            ) && *final(ctx) == old(ctx).placed(outcome, amount),
        },
{
    if ctx.event.outcome != Outcome::Undrawn {
        return Err(Error::EventSettled);
    }
    if ctx.event_vault.event != ctx.event.key {
        return Err(Error::InvalidEvent);
    }
    if amount == 0 {
        return Err(Error::ZeroAmount);
    }
    if outcome == Outcome::Undrawn {
        return Err(Error::InvalidOutcome);
    }
    if !ctx.event.betting_window.is_open_at(ctx.now) {
        return Err(
            match ctx.event.betting_window {
                BettingWindow::Manual { .. } => Error::BettingClosed,
                BettingWindow::Deadline { .. } => Error::BettingEnded,
            },
        );
    }
    let staked: u128 = amount as u128;
    let (pool, count): (u128, u32) = if outcome == Outcome::WinA {
        (ctx.event.win_a_amount, ctx.event.win_a_count)
    } else {
        (ctx.event.win_b_amount, ctx.event.win_b_count)
    };
    let new_pool: u128 = match pool.checked_add(staked) {
        Some(total) => total,
        None => {
            return Err(Error::OverflowError);
        },
    };
    let new_count: u32 = match count.checked_add(1) {
        Some(n) => n,
        None => {
            return Err(Error::OverflowError);
        },
    };
    match ctx.event_vault.deposit(amount) {
        Ok(()) => {},
        Err(e) => {
            return Err(e);
        },
    }
    if outcome == Outcome::WinA {
        ctx.event.win_a_amount = new_pool;
        ctx.event.win_a_count = new_count;
    } else {
        ctx.event.win_b_amount = new_pool;
        ctx.event.win_b_count = new_count;
    }
    let bet = Bet {
        key: ctx.bet,
        bump: [ctx.bump],
        authority: ctx.authority,
        event: ctx.event.key,
        outcome,
        amount,
        settled: false,
    };
    let notice = BetCreated {
        bet: ctx.bet,
        event: ctx.event.key,
        authority: ctx.authority,
        outcome,
        amount,
    };
    Ok((bet, notice))
}

} // verus!
