//! The operations on events and bets, one per file.

pub mod announce_winner;
pub mod close_betting;
pub mod close_event;
pub mod create_bet;
pub mod create_event;
pub mod settle_bet;

pub use announce_winner::{announce_winner, AnnounceWinner, WinnerAnnounced};
pub use close_betting::{close_betting, BettingClosed, CloseBetting};
pub use close_event::{close_event, CloseEvent, EventClosed};
pub use create_bet::{create_bet, BetCreated, CreateBet};
pub use create_event::{create_event, CreateEvent, EventCreated};
pub use settle_bet::{settle_bet, BetSettled, SettleBet};
