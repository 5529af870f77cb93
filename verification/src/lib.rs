//! A two-sided pari-mutuel betting escrow: market lifecycle, stake admission,
//! pool accounting and proportional settlement, as verified state transitions
//! on plain values.

pub mod book;
pub mod error;
pub mod instructions;
pub mod ledger;
pub mod payout;
pub mod pubkey;
pub mod state;
pub mod vault;

pub use error::Error;
pub use instructions::{
    announce_winner, close_betting, close_event, create_bet, create_event, settle_bet,
    AnnounceWinner, BetCreated, BetSettled, BettingClosed, CloseBetting, CloseEvent, CreateBet,
    CreateEvent, EventClosed, EventCreated, SettleBet, WinnerAnnounced,
};
pub use payout::{compute_payout, mul_div_floor, BPS_DENOMINATOR};
pub use pubkey::Pubkey;
pub use state::{AssetKind, Bet, BettingWindow, Event, Outcome, WindowPolicy, MAX_NAME_LEN};
pub use vault::Vault;
