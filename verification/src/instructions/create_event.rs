//! Creating an event.

use vstd::prelude::*;
use vstd::utf8::encode_utf8;
use crate::error::Error;
use crate::payout::BPS_DENOMINATOR;
use crate::pubkey::Pubkey;
use crate::state::{byte_len, AssetKind, BettingWindow, Event, Outcome, WindowPolicy, MAX_NAME_LEN};

verus! {

/// What creating an event works on.
#[derive(Clone, Copy, Debug, PartialEq, Eq)]
pub struct CreateEvent {
    /// Who creates the event, and will be its authority.
    pub authority: Pubkey,
    /// The address under which the new event will be kept.
    pub event: Pubkey,
    /// Bump seed of that address.
    pub bump: u8,
    /// Who is entitled to the platform fee.
    pub platform_fee_account: Pubkey,
    /// Who is entitled to the developer fee, if anyone.
    pub developer_fee_account: Option<Pubkey>,
    /// The time at which the event is created.
    pub now: i64,
}

/// The notice of an event created.
#[derive(Clone, Debug, PartialEq, Eq)]
pub struct EventCreated {
    pub event: Pubkey,
    pub event_id: u64,
    pub opponent_a: String,
    pub opponent_b: String,
    pub betting_window: BettingWindow,
    pub asset_kind: AssetKind,
}

impl CreateEvent {
    /// The window a new event starts with: the flag set, or the deadline
    /// `horizon` seconds from now.
    pub open spec fn opening_window(&self, window_policy: WindowPolicy) -> BettingWindow {
        match window_policy {
            WindowPolicy::Manual => BettingWindow::Manual { open: true },
            WindowPolicy::Deadline { horizon } => BettingWindow::Deadline {
                closes_at: (self.now + horizon) as i64,
            },
        }
    }

    /// Why the creation is refused, if it is: the first of these that holds.
    pub open spec fn rejection(
        &self,
        opponent_a: Seq<char>,
        opponent_b: Seq<char>,
        fee_bps: u32,
        developer_fee_bps: u32,
        window_policy: WindowPolicy,
    ) -> Option<Error> {
        if fee_bps + developer_fee_bps > BPS_DENOMINATOR {
            Some(Error::InvalidFee)
        } else if encode_utf8(opponent_a).len() > MAX_NAME_LEN {
            Some(Error::InvalidStringLength)
        } else if encode_utf8(opponent_b).len() > MAX_NAME_LEN {
            Some(Error::InvalidStringLength)
        } else if window_policy matches WindowPolicy::Deadline { horizon } && self.now + horizon
            > i64::MAX {
            Some(Error::OverflowError)
        } else {
            None
        }
    }

    /// The event that is made: no outcome, both pools and counts at zero.
    pub open spec fn created(
        &self,
        event_id: u64,
        opponent_a: String,
        opponent_b: String,
        fee_bps: u32,
        developer_fee_bps: u32,
        asset_kind: AssetKind,
        window_policy: WindowPolicy,
    ) -> Event {
        Event {
            key: self.event,
            bump: [self.bump],
            authority: self.authority,
            event_id,
            opponent_a,
            opponent_b,
            fee_bps,
            developer_fee_bps,
            platform_fee_account: self.platform_fee_account,
            developer_fee_account: self.developer_fee_account,
            betting_window: self.opening_window(window_policy),
            outcome: Outcome::Undrawn,
            win_a_amount: 0,
            win_b_amount: 0,
            win_a_count: 0,
            win_b_count: 0,
            asset_kind,
        }
    }

    /// The notice that the creation gives out.
    pub open spec fn notice(
        &self,
        event_id: u64,
        opponent_a: String,
        opponent_b: String,
        asset_kind: AssetKind,
        window_policy: WindowPolicy,
    ) -> EventCreated {
        EventCreated {
            event: self.event,
            event_id,
            opponent_a,
            opponent_b,
            betting_window: self.opening_window(window_policy),
            asset_kind,
        }
    }
}

/// Creates an event: no outcome, both pools and counts at zero, betting open
/// as `window_policy` has it. Returns the event with its notice.
///
/// The checks come in this order: `InvalidFee` where the two rates together
/// exceed 10000 basis points, as they do where either does;
/// `InvalidStringLength` where a name is longer than 32 bytes;
/// `OverflowError` where the deadline would lie beyond the last time that can
/// be told.
pub fn create_event(
    ctx: &CreateEvent,
    event_id: u64,
    opponent_a: String,
    opponent_b: String,
    fee_bps: u32,
    developer_fee_bps: u32,
    asset_kind: AssetKind,
    window_policy: WindowPolicy,
) -> (res: Result<(Event, EventCreated), Error>)
    ensures
        match ctx.rejection(opponent_a@, opponent_b@, fee_bps, developer_fee_bps, window_policy) {
            Some(e) => res == Err::<(Event, EventCreated), Error>(e),
            None => res == Ok::<(Event, EventCreated), Error>(
                (
                    ctx.created(
                        event_id,
                        opponent_a,
                        opponent_b,
                        fee_bps,
                        developer_fee_bps,
                        asset_kind,
                        window_policy,
                    ),
                    ctx.notice(event_id, opponent_a, opponent_b, asset_kind, window_policy),
                ),
            ) && ctx.created(
                event_id,
                opponent_a,
                opponent_b,
                fee_bps,
                developer_fee_bps,
                asset_kind,
                window_policy,
            ).wf(),
        },
{
    if fee_bps > BPS_DENOMINATOR || developer_fee_bps > BPS_DENOMINATOR - fee_bps {
        return Err(Error::InvalidFee);
    }
    if byte_len(&opponent_a) > MAX_NAME_LEN {
        return Err(Error::InvalidStringLength);
    }
    if byte_len(&opponent_b) > MAX_NAME_LEN {
        return Err(Error::InvalidStringLength);
    }
    let betting_window = match window_policy {
        WindowPolicy::Manual => BettingWindow::Manual { open: true },
        WindowPolicy::Deadline { horizon } => match ctx.now.checked_add_unsigned(horizon) {
            Some(closes_at) => BettingWindow::Deadline { closes_at },
            None => {
                return Err(Error::OverflowError);
            },
        },
    };
    let notice = EventCreated {
        event: ctx.event,
        event_id,
        opponent_a: opponent_a.clone(),
        opponent_b: opponent_b.clone(),
        betting_window,
        asset_kind,
    };
    let event = Event {
        key: ctx.event,
        bump: [ctx.bump],
        authority: ctx.authority,
        event_id,
        opponent_a,
        opponent_b,
        fee_bps,
        developer_fee_bps,
        platform_fee_account: ctx.platform_fee_account,
        developer_fee_account: ctx.developer_fee_account,
        betting_window,
        outcome: Outcome::Undrawn,
        win_a_amount: 0,
        win_b_amount: 0,
        win_a_count: 0,
        win_b_count: 0,
        asset_kind,
    };
    Ok((event, notice))
}

} // verus!
