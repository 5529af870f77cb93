//! The life of one event as a history of calls that went through, what
//! holds of every such history, and what follows for payouts and the vault.

use vstd::prelude::*;
use crate::instructions::announce_winner::AnnounceWinner;
use crate::instructions::close_betting::CloseBetting;
use crate::instructions::create_bet::CreateBet;
use crate::instructions::create_event::CreateEvent;
use crate::instructions::settle_bet::SettleBet;
use crate::ledger::{
    lemma_nothing_settled_nothing_paid, lemma_one_more_bet, lemma_one_more_settled,
    lemma_open_bet_is_owed, lemma_pays_like, lemma_payout_bounds, lemma_payouts_within_pools,
    lemma_sides_make_the_total, lemma_stake_within_its_side, settled_payout, staked_on,
    total_payout, total_staked,
};
use crate::state::{AssetKind, Bet, Event, Outcome, WindowPolicy};
use crate::vault::Vault;

verus! {

/// An event with its vault and the bets placed on it: all that the operations
/// work on, taken together.
pub struct Book {
    pub event: Event,
    pub vault: Vault,
    pub bets: Seq<Bet>,
}

/// One call that went through.
#[allow(inconsistent_fields)]
pub enum Step {
    /// `create_bet` made a bet.
    Placed { call: CreateBet, outcome: Outcome, amount: u64 },
    /// `close_betting` closed the betting.
    BettingClosed { call: CloseBetting },
    /// `announce_winner` wrote the outcome.
    Announced { call: AnnounceWinner, winner: Outcome },
    /// `settle_bet` settled the bet at `index`.
    Settled { call: SettleBet, index: int },
}

impl Step {
    /// Whether the call was made on this book, and was not refused.
    pub open spec fn allowed(self, book: Book) -> bool {
        match self {
            Step::Placed { call, outcome, amount } => {
                &&& call.event == book.event
                &&& call.event_vault == book.vault
                &&& call.rejection(outcome, amount) is None
            },
            Step::BettingClosed { call } => {
                &&& call.event == book.event
                &&& call.event.betting_window is Manual
                &&& call.rejection() is None
            },
            Step::Announced { call, winner } => {
                &&& call.event == book.event
                &&& call.rejection(winner) is None
            },
            Step::Settled { call, index } => {
                &&& 0 <= index < book.bets.len()
                &&& call.bet == book.bets[index]
                &&& call.event == book.event
                &&& call.event_vault == book.vault
                &&& call.rejection() is None
            },
        }
    }

    /// The book as the call left it.
    pub open spec fn apply(self, book: Book) -> Book {
        match self {
            Step::Placed { call, outcome, amount } => Book {
                event: call.placed(outcome, amount).event,
                vault: call.placed(outcome, amount).event_vault,
                bets: book.bets.push(call.new_bet(outcome, amount)),
            },
            Step::BettingClosed { call } => Book { event: call.closed().event, ..book },
            Step::Announced { call, winner } => Book {
                event: call.announced(winner).event,
                ..book
            },
            Step::Settled { call, index } => Book {
                vault: call.settled().event_vault,
                bets: book.bets.update(index, call.settled().bet),
                ..book
            },
        }
    }
}

/// Whether the calls `steps` can be made on `book`, first to last.
pub open spec fn runs(book: Book, steps: Seq<Step>) -> bool
    decreases steps.len(),
{
    steps.len() == 0 || (runs(book, steps.drop_last()) && steps.last().allowed(
        run(book, steps.drop_last()),
    ))
}

/// The book after the calls `steps`, first to last.
pub open spec fn run(book: Book, steps: Seq<Step>) -> Book
    decreases steps.len(),
{
    if steps.len() == 0 {
        book
    } else {
        steps.last().apply(run(book, steps.drop_last()))
    }
}

impl Book {
    /// A book as it begins: an event as `create_event` makes it, with its
    /// vault, and no bet yet.
    pub open spec fn fresh(self) -> bool {
        &&& self.event.wf()
        &&& self.event.outcome == Outcome::Undrawn
        &&& self.event.win_a_amount == 0
        &&& self.event.win_b_amount == 0
        &&& self.event.win_a_count == 0
        &&& self.event.win_b_count == 0
        &&& self.vault.event == self.event.key
        &&& self.bets.len() == 0
    }

    /// What holds of a book at every time.
    ///
    /// The event keeps its invariant. Every bet is a stake above zero on one
    /// of the two sides of this event. Each pool is the sum of the stakes on
    /// its side, and the counts are the number of bets. The vault, with what
    /// it has paid out, holds the two pools at least. No bet is settled while
    /// there is no outcome.
    pub open spec fn sound(self) -> bool {
        &&& self.event.wf()
        &&& self.vault.event == self.event.key
        &&& forall|i: int|
            0 <= i < self.bets.len() ==> (#[trigger] self.bets[i]).wf() && self.bets[i].event
                == self.event.key
        &&& self.event.win_a_amount == staked_on(self.bets, Outcome::WinA)
        &&& self.event.win_b_amount == staked_on(self.bets, Outcome::WinB)
        &&& self.event.win_a_count + self.event.win_b_count == self.bets.len()
        &&& self.vault.balance + settled_payout(self.event, self.bets) >= self.event.win_a_amount
            + self.event.win_b_amount
        &&& !self.event.resolved() ==> forall|i: int|
            0 <= i < self.bets.len() ==> !(#[trigger] self.bets[i]).settled
    }
}

/// The event that `create_event` makes, with a vault of its own and no bet,
/// is a book as it begins.
pub proof fn lemma_created_event_is_fresh(
    ctx: CreateEvent,
    event_id: u64,
    opponent_a: String,
    opponent_b: String,
    fee_bps: u32,
    developer_fee_bps: u32,
    asset_kind: AssetKind,
    window_policy: WindowPolicy,
    balance: u64,
)
    requires
        ctx.rejection(opponent_a@, opponent_b@, fee_bps, developer_fee_bps, window_policy) is None,
    ensures
        (Book {
            event: ctx.created(
                event_id,
                opponent_a,
                opponent_b,
                fee_bps,
                developer_fee_bps,
                asset_kind,
                window_policy,
            ),
            vault: Vault { event: ctx.event, balance },
            bets: Seq::empty(),
        }).fresh(),
{
}

/// A book as it begins is sound.
pub proof fn lemma_fresh_is_sound(book: Book)
    requires
        book.fresh(),
    ensures
        book.sound(),
{
}

/// Every call that goes through leaves a sound book sound.
pub proof fn lemma_step_keeps_sound(book: Book, step: Step)
    requires
        book.sound(),
        step.allowed(book),
    ensures
        step.apply(book).sound(),
{
    let next = step.apply(book);
    match step {
        Step::Placed { call, outcome, amount } => {
            let bet = call.new_bet(outcome, amount);
            lemma_one_more_bet(next.event, book.bets, bet, Outcome::WinA);
            lemma_one_more_bet(next.event, book.bets, bet, Outcome::WinB);
            lemma_nothing_settled_nothing_paid(book.event, book.bets);
            assert forall|i: int| 0 <= i < next.bets.len() implies (#[trigger] next.bets[i]).wf()
                && next.bets[i].event == next.event.key && !next.bets[i].settled by {
                if i < book.bets.len() {
                    assert(next.bets[i] == book.bets[i]);
                }
            }
            lemma_nothing_settled_nothing_paid(next.event, next.bets);
        },
        Step::BettingClosed { call } => {
            lemma_pays_like(book.event, next.event, book.bets);
        },
        Step::Announced { call, winner } => {
            lemma_nothing_settled_nothing_paid(book.event, book.bets);
            lemma_nothing_settled_nothing_paid(next.event, book.bets);
        },
        Step::Settled { call, index } => {
            lemma_one_more_settled(book.event, book.bets, index, Outcome::WinA);
            lemma_one_more_settled(book.event, book.bets, index, Outcome::WinB);
            lemma_open_bet_is_owed(book.event, book.bets, index);
            assert forall|i: int| 0 <= i < next.bets.len() implies (#[trigger] next.bets[i]).wf()
                && next.bets[i].event == next.event.key by {
                if i != index {
                    assert(next.bets[i] == book.bets[i]);
                }
            }
        },
    }
}

/// The invariant: whatever calls go through on a book that began fresh, the
/// book is sound after them.
pub proof fn lemma_every_book_is_sound(start: Book, steps: Seq<Step>)
    requires
        start.fresh(),
        runs(start, steps),
    ensures
        run(start, steps).sound(),
    decreases steps.len(),
{
    if steps.len() > 0 {
        lemma_every_book_is_sound(start, steps.drop_last());
        lemma_step_keeps_sound(run(start, steps.drop_last()), steps.last());
    }
}

/// Conservation: in a sound book the two pools together are the sum of the
/// stakes of all the bets placed, and the vault holds that sum less what it
/// paid out, or more.
pub proof fn lemma_pools_hold_the_stakes(book: Book)
    requires
        book.sound(),
    ensures
        book.event.win_a_amount + book.event.win_b_amount == total_staked(book.bets),
        book.vault.balance + settled_payout(book.event, book.bets) >= total_staked(book.bets),
{
    lemma_sides_make_the_total(book.bets);
}

/// No value is created: once there is an outcome, settling every bet of a
/// sound book pays no more than the two pools together, which is what was
/// staked.
pub proof fn lemma_payouts_within_stakes(book: Book)
    requires
        book.sound(),
        book.event.resolved(),
    ensures
        0 <= total_payout(book.event, book.bets) <= book.event.win_a_amount
            + book.event.win_b_amount,
        total_payout(book.event, book.bets) <= total_staked(book.bets),
{
    lemma_payouts_within_pools(book.event, book.bets);
    lemma_sides_make_the_total(book.bets);
}

/// Fee bounds: in a sound book with an outcome, a bet on the winning side is
/// paid no more than its stake and the whole losing pool.
pub proof fn lemma_winner_within_bounds(book: Book, i: int)
    requires
        book.sound(),
        book.event.resolved(),
        0 <= i < book.bets.len(),
        book.bets[i].won(&book.event),
    ensures
        0 <= book.bets[i].payout(&book.event) <= book.bets[i].amount + book.event.losing_pool(),
{
    lemma_stake_within_its_side(book.bets, i);
    lemma_payout_bounds(book.event, book.bets[i]);
}

/// The vault is good for every bet: in a sound book with an outcome, the
/// bettor's call to settle a bet that is not settled yet is not refused.
pub proof fn lemma_open_bet_can_be_settled(book: Book, i: int)
    requires
        book.sound(),
        book.event.resolved(),
        0 <= i < book.bets.len(),
        !book.bets[i].settled,
    ensures
        book.bets[i].payout(&book.event) <= book.vault.balance,
        (SettleBet {
            authority: book.bets[i].authority,
            bet: book.bets[i],
            event: book.event,
            event_vault: book.vault,
        }).rejection() is None,
{
    lemma_open_bet_is_owed(book.event, book.bets, i);
    lemma_payouts_within_pools(book.event, book.bets);
}

/// An outcome is final, and so are the pools: a call that goes through on a
/// book that has an outcome leaves the outcome, both pools and both counts
/// as they are.
pub proof fn lemma_outcome_is_final(book: Book, step: Step)
    requires
        book.event.resolved(),
        step.allowed(book),
    ensures
        step.apply(book).event.outcome == book.event.outcome,
        step.apply(book).event.win_a_amount == book.event.win_a_amount,
        step.apply(book).event.win_b_amount == book.event.win_b_amount,
        step.apply(book).event.win_a_count == book.event.win_a_count,
        step.apply(book).event.win_b_count == book.event.win_b_count,
        step is Settled || step is BettingClosed,
{
}

/// A bet is settled once: in any book, a call to settle a bet that is settled
/// already is refused, so no step settles it again.
pub proof fn lemma_settled_stays_settled(book: Book, step: Step, i: int)
    requires
        step.allowed(book),
        0 <= i < book.bets.len(),
        book.bets[i].settled,
    ensures
        step.apply(book).bets[i] == book.bets[i],
        !(step matches Step::Settled { index, .. } && index == i),
{
}

/// Pools only grow: no call that goes through makes a pool smaller.
pub proof fn lemma_pools_never_shrink(book: Book, step: Step)
    requires
        step.allowed(book),
    ensures
        step.apply(book).event.win_a_amount >= book.event.win_a_amount,
        step.apply(book).event.win_b_amount >= book.event.win_b_amount,
{
}

} // verus!
