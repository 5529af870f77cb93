//! Events and bets.

use vstd::prelude::*;
use vstd::utf8::encode_utf8;
use crate::payout::{winner_payout, BPS_DENOMINATOR};
use crate::pubkey::Pubkey;

verus! {

/// The longest display name of an opponent, in bytes.
pub const MAX_NAME_LEN: usize = 32;

/// The result of an event, and the side a bet backs.
#[derive(Clone, Copy, Debug, PartialEq, Eq, Structural)]
pub enum Outcome {
    /// No result yet. No bet can back this.
    Undrawn,
    WinA,
    WinB,
}

/// What is staked on an event.
#[derive(Clone, Copy, Debug, PartialEq, Eq)]
pub enum AssetKind {
    /// The platform's own unit of value.
    Native,
    /// A fungible token, named by its mint.
    Fungible(Pubkey),
}

/// How an event is to stop taking bets, chosen when it is created.
#[derive(Clone, Copy, Debug, PartialEq, Eq)]
pub enum WindowPolicy {
    /// Betting stays open until the authority closes it.
    Manual,
    /// Betting ends `horizon` seconds after creation.
    Deadline { horizon: u64 },
}

/// Until when an event takes bets.
#[derive(Clone, Copy, Debug, PartialEq, Eq)]
pub enum BettingWindow {
    /// Open while the flag is set; only the authority clears it.
    Manual { open: bool },
    /// Open at every time before `closes_at`.
    Deadline { closes_at: i64 },
}

impl BettingWindow {
    /// Whether the window lets a bet in at time `now`.
    pub open spec fn is_open(self, now: i64) -> bool {
        match self {
            BettingWindow::Manual { open } => open,
            BettingWindow::Deadline { closes_at } => now < closes_at,
        }
    }

    /// Tells whether the window lets a bet in at time `now`.
    pub fn is_open_at(&self, now: i64) -> (open: bool)
        ensures
            open == self.is_open(now),
    {
        match self {
            BettingWindow::Manual { open } => *open,
            BettingWindow::Deadline { closes_at } => now < *closes_at,
        }
    }
}

/// One market: a wager on which of two opponents wins.
#[derive(Clone, Debug, PartialEq, Eq)]
pub struct Event {
    /// The address under which the event is kept.
    pub key: Pubkey,
    /// Bump seed of that address.
    pub bump: [u8; 1],
    /// Who may close betting, announce the winner and close the event.
    pub authority: Pubkey,
    /// Unique event identifier.
    pub event_id: u64,
    /// Name of opponent A.
    pub opponent_a: String,
    /// Name of opponent B.
    pub opponent_b: String,
    /// Platform fee rate in basis points (300 is 3%).
    pub fee_bps: u32,
    /// Developer fee rate in basis points.
    pub developer_fee_bps: u32,
    /// Who is entitled to the platform fee.
    pub platform_fee_account: Pubkey,
    /// Who is entitled to the developer fee, if anyone.
    pub developer_fee_account: Option<Pubkey>,
    /// Until when bets are taken.
    pub betting_window: BettingWindow,
    /// Outcome of the event; written once.
    pub outcome: Outcome,
    /// Total amount bet on opponent A.
    pub win_a_amount: u128,
    /// Total amount bet on opponent B.
    pub win_b_amount: u128,
    /// Number of bets on opponent A.
    pub win_a_count: u32,
    /// Number of bets on opponent B.
    pub win_b_count: u32,
    /// What is staked on this event.
    pub asset_kind: AssetKind,
}

impl Event {
    /// The invariant of an event: the two fees together take no more than the
    /// whole stake, and both names fit the limit.
    pub open spec fn wf(&self) -> bool {
        &&& self.fee_bps + self.developer_fee_bps <= BPS_DENOMINATOR
        &&& encode_utf8(self.opponent_a@).len() <= MAX_NAME_LEN
        &&& encode_utf8(self.opponent_b@).len() <= MAX_NAME_LEN
    }

    /// Whether the outcome has been announced.
    pub open spec fn resolved(&self) -> bool {
        self.outcome != Outcome::Undrawn
    }

    /// Whether the event takes a new bet at time `now`.
    pub open spec fn accepts_bets(&self, now: i64) -> bool {
        self.outcome == Outcome::Undrawn && self.betting_window.is_open(now)
    }

    /// The total staked on `side`; nothing is staked on `Undrawn`.
    pub open spec fn pool(&self, side: Outcome) -> int {
        match side {
            Outcome::WinA => self.win_a_amount as int,
            Outcome::WinB => self.win_b_amount as int,
            Outcome::Undrawn => 0,
        }
    }

    /// The total staked on the side that won.
    pub open spec fn winning_pool(&self) -> int {
        self.pool(self.outcome)
    }

    /// The total staked on the side that lost.
    pub open spec fn losing_pool(&self) -> int {
        match self.outcome {
            Outcome::WinA => self.win_b_amount as int,
            Outcome::WinB => self.win_a_amount as int,
            Outcome::Undrawn => 0,
        }
    }

    /// Whether a stake of `amount` on `side` can be added without a total or a
    /// count leaving its integer type.
    pub open spec fn has_room(&self, side: Outcome, amount: u64) -> bool {
        match side {
            Outcome::WinA => self.win_a_amount + amount <= u128::MAX && self.win_a_count + 1
                <= u32::MAX,
            Outcome::WinB => self.win_b_amount + amount <= u128::MAX && self.win_b_count + 1
                <= u32::MAX,
            Outcome::Undrawn => false,
        }
    }

    /// The event with a stake of `amount` on `side` folded into its totals.
    pub open spec fn with_stake(self, side: Outcome, amount: u64) -> Event {
        match side {
            Outcome::WinA => Event {
                win_a_amount: (self.win_a_amount + amount) as u128,
                win_a_count: (self.win_a_count + 1) as u32,
                ..self
            },
            Outcome::WinB => Event {
                win_b_amount: (self.win_b_amount + amount) as u128,
                win_b_count: (self.win_b_count + 1) as u32,
                ..self
            },
            Outcome::Undrawn => self,
        }
    }

    /// Tells whether the event takes a new bet at time `now`: it has no
    /// outcome yet, and its betting window is open.
    pub fn accepts_bets_at(&self, now: i64) -> (accepts: bool)
        ensures
            accepts == self.accepts_bets(now),
    {
        self.outcome == Outcome::Undrawn && self.betting_window.is_open_at(now)
    }

    /// Tests the invariant on an event that comes from outside.
    pub fn is_wf(&self) -> (ok: bool)
        ensures
            ok == self.wf(),
    {
        self.fee_bps <= BPS_DENOMINATOR && self.developer_fee_bps <= BPS_DENOMINATOR
            - self.fee_bps && byte_len(&self.opponent_a) <= MAX_NAME_LEN && byte_len(
            &self.opponent_b,
        ) <= MAX_NAME_LEN
    }
}

/// The length of a name in bytes, as it is stored.
pub fn byte_len(name: &String) -> (len: usize)
    ensures
        len == encode_utf8(name@).len(),
{
    name.as_str().as_bytes().len()
}

/// One stake, placed by one bettor on one side of one event.
#[derive(Clone, Copy, Debug, PartialEq, Eq)]
pub struct Bet {
    /// The address under which the bet is kept.
    pub key: Pubkey,
    /// Bump seed of that address.
    pub bump: [u8; 1],
    /// Who placed the bet, and who may settle it.
    pub authority: Pubkey,
    /// Event this bet is for.
    pub event: Pubkey,
    /// Outcome bet on.
    pub outcome: Outcome,
    /// Amount bet.
    pub amount: u64,
    /// Whether this bet has been settled; set once, never cleared.
    pub settled: bool,
}

impl Bet {
    /// The invariant of a bet: a stake above zero on one of the two sides.
    pub open spec fn wf(&self) -> bool {
        self.amount > 0 && self.outcome != Outcome::Undrawn
    }

    /// Whether the bet backs the side that won `event`.
    pub open spec fn won(&self, event: &Event) -> bool {
        event.resolved() && self.outcome == event.outcome
    }

    /// What settling the bet against `event` pays: for a bet on the winning
    /// side its net stake and its share of the losing pool, else nothing.
    pub open spec fn payout(&self, event: &Event) -> int {
        if self.won(event) {
            winner_payout(
                self.amount as int,
                event.fee_bps as int,
                event.developer_fee_bps as int,
                event.winning_pool(),
                event.losing_pool(),
            )
        } else {
            0
        }
    }
}

} // verus!
