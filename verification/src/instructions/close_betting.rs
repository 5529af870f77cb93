//! Closing the betting by hand.

use vstd::prelude::*;
use crate::error::Error;
use crate::pubkey::Pubkey;
use crate::state::{BettingWindow, Event};

verus! {

/// What closing the betting works on.
#[derive(Clone, Debug, PartialEq, Eq)]
pub struct CloseBetting {
    /// Who asks to close the betting.
    pub authority: Pubkey,
    /// The event to close the betting on.
    pub event: Event,
}

/// The notice of betting closed.
#[derive(Clone, Copy, Debug, PartialEq, Eq)]
pub struct BettingClosed {
    pub event: Pubkey,
    pub event_id: u64,
    pub closed_by: Pubkey,
}

impl CloseBetting {
    /// Why closing is refused, if it is: the first of these that holds.
    pub open spec fn rejection(&self) -> Option<Error> {
        if self.event.authority != self.authority {
            Some(Error::Unauthorized)
        } else if self.event.betting_window == (BettingWindow::Manual { open: false }) {
            Some(Error::BettingAlreadyClosed)
        } else {
            None
        }
    }

    /// The notice that closing gives out.
    pub open spec fn notice(&self) -> BettingClosed {
        BettingClosed {
            event: self.event.key,
            event_id: self.event.event_id,
            closed_by: self.authority,
        }
    }

    /// What closing leaves: the flag cleared, and nothing else touched.
    pub open spec fn closed(self) -> CloseBetting {
        CloseBetting {
            event: Event { betting_window: BettingWindow::Manual { open: false }, ..self.event },
            ..self
        }
    }
}

/// Closes the betting on an event whose authority closes it by hand. There is
/// no way back: nothing sets the flag again.
///
/// The checks come in this order, and a refusal changes nothing:
/// `Unauthorized` unless the caller is the event's authority;
/// `BettingAlreadyClosed` if the betting is closed already.
pub fn close_betting(ctx: &mut CloseBetting) -> (res: Result<BettingClosed, Error>)
    requires
        old(ctx).event.betting_window is Manual,
    ensures
        old(ctx).event.wf() ==> final(ctx).event.wf(),
        match old(ctx).rejection() {
            Some(e) => res == Err::<BettingClosed, Error>(e) && *final(ctx) == *old(ctx),
            None => res == Ok::<BettingClosed, Error>(old(ctx).notice()) && *final(ctx) == old(
                ctx,
            ).closed(),
        },
{
    if ctx.event.authority != ctx.authority {
        return Err(Error::Unauthorized);
    }
    match ctx.event.betting_window {
        BettingWindow::Manual { open } => {
            if !open {
                return Err(Error::BettingAlreadyClosed);
            }
        },
        BettingWindow::Deadline { .. } => {},
    }
    ctx.event.betting_window = BettingWindow::Manual { open: false };
    Ok(
        BettingClosed {
            event: ctx.event.key,
            event_id: ctx.event.event_id,
            closed_by: ctx.authority,
        },
    )
}

} // verus!
