//! Announcing the outcome.

use vstd::prelude::*;
use crate::error::Error;
use crate::pubkey::Pubkey;
use crate::state::{Event, Outcome};

verus! {

/// What announcing the winner works on.
#[derive(Clone, Debug, PartialEq, Eq)]
pub struct AnnounceWinner {
    /// Who announces.
    pub authority: Pubkey,
    /// The event whose outcome is announced.
    pub event: Event,
}

/// The notice of an outcome announced.
#[derive(Clone, Copy, Debug, PartialEq, Eq)]
pub struct WinnerAnnounced {
    pub event: Pubkey,
    pub winner: Outcome,
    pub win_a_amount: u128,
    pub win_b_amount: u128,
}

impl AnnounceWinner {
    /// Why the announcement of `winner` is refused, if it is: the first of
    /// these that holds.
    pub open spec fn rejection(&self, winner: Outcome) -> Option<Error> {
        if self.event.authority != self.authority {
            Some(Error::Unauthorized)
        } else if self.event.outcome != Outcome::Undrawn {
            Some(Error::EventSettled)
        } else if winner == Outcome::Undrawn {
            Some(Error::InvalidOutcome)
        } else {
            None
        }
    }

    /// The notice that the announcement gives out.
    pub open spec fn notice(&self, winner: Outcome) -> WinnerAnnounced {
        WinnerAnnounced {
            event: self.event.key,
            winner,
            win_a_amount: self.event.win_a_amount,
            win_b_amount: self.event.win_b_amount,
        }
    }

    /// What the announcement leaves: the outcome written, and nothing else
    /// touched.
    pub open spec fn announced(self, winner: Outcome) -> AnnounceWinner {
        AnnounceWinner { event: Event { outcome: winner, ..self.event }, ..self }
    }
}

/// Writes the outcome of an event. It is written once: an event that has an
/// outcome keeps it.
///
/// The checks come in this order, and a refusal changes nothing:
/// `Unauthorized` unless the caller is the event's authority; `EventSettled`
/// if the event has an outcome already; `InvalidOutcome` if `winner` is
/// `Undrawn`.
pub fn announce_winner(ctx: &mut AnnounceWinner, winner: Outcome) -> (res: Result<
    WinnerAnnounced,
    Error,
>)
    ensures
        old(ctx).event.wf() ==> final(ctx).event.wf(),
        match old(ctx).rejection(winner) {
            Some(e) => res == Err::<WinnerAnnounced, Error>(e) && *final(ctx) == *old(ctx),
            None => res == Ok::<WinnerAnnounced, Error>(old(ctx).notice(winner)) && *final(ctx)
                == old(ctx).announced(winner),
        },
{
    if ctx.event.authority != ctx.authority {
        return Err(Error::Unauthorized);
    }
    if ctx.event.outcome != Outcome::Undrawn {
        return Err(Error::EventSettled);
    }
    if winner == Outcome::Undrawn {
        return Err(Error::InvalidOutcome);
    }
    ctx.event.outcome = winner;
    Ok(
        WinnerAnnounced {
            event: ctx.event.key,
            winner,
            win_a_amount: ctx.event.win_a_amount,
            win_b_amount: ctx.event.win_b_amount,
        },
    )
}

/// An outcome is announced once: after an announcement that went through,
/// any further one is refused with `EventSettled`, whatever it names.
pub proof fn lemma_outcome_is_written_once(ctx: AnnounceWinner, first: Outcome, second: Outcome)
    requires
        ctx.rejection(first) is None,
    ensures
        ctx.announced(first).rejection(second) == Some(Error::EventSettled),
        ctx.announced(first).event.outcome == first,
{
}

} // verus!
