//! Closing an event.

use vstd::prelude::*;
use crate::error::Error;
use crate::pubkey::Pubkey;
use crate::state::{Event, Outcome};
use crate::vault::Vault;

verus! {

/// What closing an event works on.
#[derive(Clone, Debug, PartialEq, Eq)]
pub struct CloseEvent {
    /// Who asks to close the event, and receives what is left in the vault.
    pub authority: Pubkey,
    /// The event to close.
    pub event: Event,
    /// The vault of the event.
    pub event_vault: Vault,
}

/// The notice of an event closed.
#[derive(Clone, Copy, Debug, PartialEq, Eq)]
pub struct EventClosed {
    pub event: Pubkey,
    pub event_id: u64,
    pub outcome: Outcome,
    pub total_bets: u32,
}

impl CloseEvent {
    /// Why closing is refused, if it is: the first of these that holds.
    pub open spec fn rejection(&self) -> Option<Error> {
        if self.event.authority != self.authority {
            Some(Error::Unauthorized)
        } else if !self.event.resolved() {
            Some(Error::EventNotSettled)
        } else if self.event.win_a_count + self.event.win_b_count > u32::MAX {
            Some(Error::OverflowError)
        } else {
            None
        }
    }

    /// The notice that closing gives out.
    pub open spec fn notice(&self) -> EventClosed {
        EventClosed {
            event: self.event.key,
            event_id: self.event.event_id,
            outcome: self.event.outcome,
            total_bets: (self.event.win_a_count + self.event.win_b_count) as u32,
        }
    }

    /// What closing leaves: the vault empty, the event as it was.
    pub open spec fn closed(self) -> CloseEvent {
        CloseEvent { event_vault: Vault { balance: 0, ..self.event_vault }, ..self }
    }
}

/// Closes a resolved event: releases to the caller whatever the vault still
/// holds, which is its balance before the call, and returns the notice. The
/// event is done with; its owner discards it.
///
/// The checks come in this order, and a refusal changes nothing:
/// `Unauthorized` unless the caller is the event's authority;
/// `EventNotSettled` while there is no outcome; `OverflowError` where the
/// number of bets on both sides together does not fit in 32 bits.
pub fn close_event(ctx: &mut CloseEvent) -> (res: Result<EventClosed, Error>)
    ensures
        old(ctx).event.wf() ==> final(ctx).event.wf(),
        match old(ctx).rejection() {
            Some(e) => res == Err::<EventClosed, Error>(e) && *final(ctx) == *old(ctx),
            None => res == Ok::<EventClosed, Error>(old(ctx).notice()) && *final(ctx) == old(
                ctx,
            ).closed(),
        },
{
    if ctx.event.authority != ctx.authority {
        return Err(Error::Unauthorized);
    }
    if ctx.event.outcome == Outcome::Undrawn {
        return Err(Error::EventNotSettled);
    }
    let total_bets: u32 = match ctx.event.win_a_count.checked_add(ctx.event.win_b_count) {
        Some(total) => total,
        None => {
            return Err(Error::OverflowError);
        },
    };
    let _residual: u64 = ctx.event_vault.close();
    Ok(
        EventClosed {
            event: ctx.event.key,
            event_id: ctx.event.event_id,
            outcome: ctx.event.outcome,
            total_bets,
        },
    )
}

} // verus!
