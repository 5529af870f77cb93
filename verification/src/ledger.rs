//! Sums over the bets of an event: what was staked, what is paid, what was
//! withheld; and the bounds between them.

use vstd::prelude::*;
use crate::payout::{bonus, fee_amount, lemma_net_stake_bounds, net_stake};
use crate::state::{Bet, Event, Outcome};

verus! {

/// The sum of the stakes in `bets` that back `side`.
pub open spec fn staked_on(bets: Seq<Bet>, side: Outcome) -> int
    decreases bets.len(),
{
    if bets.len() == 0 {
        0
    } else if bets.last().outcome == side {
        staked_on(bets.drop_last(), side) + bets.last().amount
    } else {
        staked_on(bets.drop_last(), side)
    }
}

/// The sum of all the stakes in `bets`.
pub open spec fn total_staked(bets: Seq<Bet>) -> int
    decreases bets.len(),
{
    if bets.len() == 0 {
        0
    } else {
        total_staked(bets.drop_last()) + bets.last().amount
    }
}

/// The sum of what settling each of `bets` against `event` pays.
pub open spec fn total_payout(event: Event, bets: Seq<Bet>) -> int
    decreases bets.len(),
{
    if bets.len() == 0 {
        0
    } else {
        total_payout(event, bets.drop_last()) + bets.last().payout(&event)
    }
}

/// The sum of the fees withheld from those of `bets` that won `event`.
pub open spec fn total_fees(event: Event, bets: Seq<Bet>) -> int
    decreases bets.len(),
{
    if bets.len() == 0 {
        0
    } else if bets.last().won(&event) {
        total_fees(event, bets.drop_last()) + fee_amount(
            bets.last().amount as int,
            event.fee_bps as int,
        ) + fee_amount(bets.last().amount as int, event.developer_fee_bps as int)
    } else {
        total_fees(event, bets.drop_last())
    }
}

/// The sum of what was paid to those of `bets` that are settled.
pub open spec fn settled_payout(event: Event, bets: Seq<Bet>) -> int
    decreases bets.len(),
{
    if bets.len() == 0 {
        0
    } else if bets.last().settled {
        settled_payout(event, bets.drop_last()) + bets.last().payout(&event)
    } else {
        settled_payout(event, bets.drop_last())
    }
}

/// Whether two events pay every bet the same: they agree on the outcome, on
/// both fees and on both pools.
pub open spec fn pays_like(event: Event, other: Event) -> bool {
    &&& event.outcome == other.outcome
    &&& event.fee_bps == other.fee_bps
    &&& event.developer_fee_bps == other.developer_fee_bps
    &&& event.win_a_amount == other.win_a_amount
    &&& event.win_b_amount == other.win_b_amount
}

/// The stakes on the two sides are all the stakes.
pub proof fn lemma_sides_make_the_total(bets: Seq<Bet>)
    requires
        forall|i: int| 0 <= i < bets.len() ==> (#[trigger] bets[i]).wf(),
    ensures
        staked_on(bets, Outcome::WinA) + staked_on(bets, Outcome::WinB) == total_staked(bets),
        staked_on(bets, Outcome::Undrawn) == 0,
    decreases bets.len(),
{
    if bets.len() > 0 {
        let rest = bets.drop_last();
        assert(bets.last() == bets[bets.len() - 1]);
        assert forall|i: int| 0 <= i < rest.len() implies (#[trigger] rest[i]).wf() by {
            assert(rest[i] == bets[i]);
        }
        lemma_sides_make_the_total(rest);
    }
}

/// No single stake is larger than all that was staked on its side.
pub proof fn lemma_stake_within_its_side(bets: Seq<Bet>, i: int)
    requires
        0 <= i < bets.len(),
    ensures
        bets[i].amount <= staked_on(bets, bets[i].outcome),
        0 <= staked_on(bets, bets[i].outcome),
    decreases bets.len(),
{
    lemma_staked_is_not_negative(bets, bets[i].outcome);
    lemma_staked_is_not_negative(bets.drop_last(), bets[i].outcome);
    if i < bets.len() - 1 {
        assert(bets.drop_last()[i] == bets[i]);
        lemma_stake_within_its_side(bets.drop_last(), i);
    } else {
        assert(bets[i] == bets.last());
    }
}

proof fn lemma_staked_is_not_negative(bets: Seq<Bet>, side: Outcome)
    ensures
        0 <= staked_on(bets, side),
    decreases bets.len(),
{
    if bets.len() > 0 {
        lemma_staked_is_not_negative(bets.drop_last(), side);
    }
}

/// Fee bounds for one winner whose stake is part of the winning pool: the
/// payout is what is left of the stake after both fees, each a rate of the
/// stake rounded down, and a share of the losing pool; it is at most the
/// stake and the whole losing pool.
pub proof fn lemma_payout_bounds(event: Event, bet: Bet)
    requires
        event.wf(),
        bet.wf(),
        bet.won(&event),
        bet.amount <= event.winning_pool(),
    ensures
        bet.payout(&event) == bet.amount - fee_amount(bet.amount as int, event.fee_bps as int)
            - fee_amount(bet.amount as int, event.developer_fee_bps as int) + bonus(
            net_stake(bet.amount as int, event.fee_bps as int, event.developer_fee_bps as int),
            event.winning_pool(),
            event.losing_pool(),
        ),
        0 <= fee_amount(bet.amount as int, event.fee_bps as int),
        0 <= fee_amount(bet.amount as int, event.developer_fee_bps as int),
        0 <= bonus(
            net_stake(bet.amount as int, event.fee_bps as int, event.developer_fee_bps as int),
            event.winning_pool(),
            event.losing_pool(),
        ) <= event.losing_pool(),
        0 <= bet.payout(&event) <= bet.amount + event.losing_pool(),
{
    let net = net_stake(bet.amount as int, event.fee_bps as int, event.developer_fee_bps as int);
    let w = event.winning_pool();
    let l = event.losing_pool();
    lemma_net_stake_bounds(bet.amount as int, event.fee_bps as int, event.developer_fee_bps as int);
    assert(0 <= (net * l) / w <= l) by (nonlinear_arith)
        requires
            0 <= net <= w,
            0 < w,
            0 <= l,
    ;
}

/// What one bet is paid, times the winning pool, is at most its stake on the
/// winning side times both pools.
proof fn lemma_payout_share(event: Event, bet: Bet)
    requires
        event.wf(),
        event.resolved(),
    ensures
        0 <= bet.payout(&event),
        event.winning_pool() == 0 ==> bet.payout(&event) == 0,
        !bet.won(&event) ==> bet.payout(&event) == 0,
        bet.won(&event) ==> bet.payout(&event) * event.winning_pool() <= bet.amount * (
        event.winning_pool() + event.losing_pool()),
{
    let w = event.winning_pool();
    let l = event.losing_pool();
    let a = bet.amount as int;
    if bet.won(&event) && w > 0 {
        let net = net_stake(a, event.fee_bps as int, event.developer_fee_bps as int);
        lemma_net_stake_bounds(a, event.fee_bps as int, event.developer_fee_bps as int);
        let share = (net * l) / w;
        assert(0 <= share && share * w <= net * l) by (nonlinear_arith)
            requires
                0 <= net,
                0 < w,
                0 <= l,
                share == (net * l) / w,
        ;
        assert((net + share) * w <= a * (w + l)) by (nonlinear_arith)
            requires
                0 <= net <= a,
                0 < w,
                0 <= l,
                share * w <= net * l,
        ;
    } else if bet.won(&event) {
        assert(bet.payout(&event) * w == 0) by (nonlinear_arith)
            requires
                w == 0,
        ;
        assert(0 <= a * (w + l)) by (nonlinear_arith)
            requires
                0 <= a,
                0 <= w + l,
        ;
    }
}

/// All that `bets` are paid, times the winning pool, is at most their stakes
/// on the winning side times both pools.
proof fn lemma_total_payout_share(event: Event, bets: Seq<Bet>)
    requires
        event.wf(),
        event.resolved(),
    ensures
        0 <= total_payout(event, bets),
        event.winning_pool() == 0 ==> total_payout(event, bets) == 0,
        total_payout(event, bets) * event.winning_pool() <= staked_on(bets, event.outcome) * (
        event.winning_pool() + event.losing_pool()),
    decreases bets.len(),
{
    let w = event.winning_pool();
    let l = event.losing_pool();
    if bets.len() == 0 {
        assert(0 * w <= 0 * (w + l)) by (nonlinear_arith);
    } else {
        let rest = bets.drop_last();
        let bet = bets.last();
        lemma_total_payout_share(event, rest);
        lemma_payout_share(event, bet);
        let tp = total_payout(event, rest);
        let p = bet.payout(&event);
        let s = staked_on(rest, event.outcome);
        if bet.won(&event) {
            let a = bet.amount as int;
            assert((tp + p) * w <= (s + a) * (w + l)) by (nonlinear_arith)
                requires
                    tp * w <= s * (w + l),
                    p * w <= a * (w + l),
            ;
        } else {
            assert(bet.outcome != event.outcome);
        }
    }
}

/// No value is created: where the stakes of `bets` on the winning side are no
/// more than the winning pool, all that settling them pays is no more than
/// the two pools together.
pub proof fn lemma_payouts_within_pools(event: Event, bets: Seq<Bet>)
    requires
        event.wf(),
        event.resolved(),
        staked_on(bets, event.outcome) <= event.winning_pool(),
    ensures
        0 <= total_payout(event, bets) <= event.win_a_amount + event.win_b_amount,
{
    let w = event.winning_pool();
    let l = event.losing_pool();
    let tp = total_payout(event, bets);
    let s = staked_on(bets, event.outcome);
    lemma_total_payout_share(event, bets);
    assert(w + l == event.win_a_amount + event.win_b_amount);
    if w > 0 {
        assert(tp <= w + l) by (nonlinear_arith)
            requires
                tp * w <= s * (w + l),
                s <= w,
                0 < w,
                0 <= l,
        ;
    }
}

/// The pools are paid out in full only where no fee was withheld: if settling
/// `bets`, whose stakes on the winning side are no more than the winning
/// pool, pays both pools to the last unit, the fees of all the winners among
/// them are zero.
pub proof fn lemma_full_payout_means_no_fees(event: Event, bets: Seq<Bet>)
    requires
        event.wf(),
        event.resolved(),
        event.winning_pool() > 0,
        staked_on(bets, event.outcome) <= event.winning_pool(),
        total_payout(event, bets) == event.win_a_amount + event.win_b_amount,
    ensures
        total_fees(event, bets) == 0,
{
    let w = event.winning_pool();
    let l = event.losing_pool();
    lemma_net_payout_share(event, bets);
    let tp = total_payout(event, bets);
    let tf = total_fees(event, bets);
    let s = staked_on(bets, event.outcome);
    assert(w + l == event.win_a_amount + event.win_b_amount);
    // (tp + tf - s) * w <= (s - tf) * l, with tp == w + l and s <= w
    assert(tf == 0) by (nonlinear_arith)
        requires
            (tp + tf - s) * w <= (s - tf) * l,
            tp == w + l,
            s <= w,
            0 <= tf,
            0 < w,
            0 <= l,
    ;
}

/// The shares of the losing pool that `bets` earn, times the winning pool,
/// are at most their net stakes on the winning side times the losing pool.
proof fn lemma_net_payout_share(event: Event, bets: Seq<Bet>)
    requires
        event.wf(),
        event.resolved(),
        event.winning_pool() > 0,
    ensures
        0 <= total_fees(event, bets) <= staked_on(bets, event.outcome),
        (total_payout(event, bets) + total_fees(event, bets) - staked_on(bets, event.outcome))
            * event.winning_pool() <= (staked_on(bets, event.outcome) - total_fees(event, bets))
            * event.losing_pool(),
    decreases bets.len(),
{
    let w = event.winning_pool();
    let l = event.losing_pool();
    if bets.len() == 0 {
        assert(0 * w <= 0 * l) by (nonlinear_arith);
    } else {
        let rest = bets.drop_last();
        let bet = bets.last();
        lemma_net_payout_share(event, rest);
        lemma_payout_share(event, bet);
        if bet.won(&event) {
            let a = bet.amount as int;
            let f = fee_amount(a, event.fee_bps as int) + fee_amount(
                a,
                event.developer_fee_bps as int,
            );
            let net = net_stake(a, event.fee_bps as int, event.developer_fee_bps as int);
            lemma_net_stake_bounds(a, event.fee_bps as int, event.developer_fee_bps as int);
            let share = bonus(net, w, l);
            assert(share * w <= net * l) by (nonlinear_arith)
                requires
                    0 <= net,
                    0 < w,
                    0 <= l,
                    share == (net * l) / w,
            ;
            let tp = total_payout(event, rest);
            let tf = total_fees(event, rest);
            let s = staked_on(rest, event.outcome);
            assert(bet.payout(&event) == net + share);
            assert(net == a - f);
            assert((tp + (net + share) + (tf + f) - (s + a)) * w <= ((s + a) - (tf + f)) * l)
                by (nonlinear_arith)
                requires
                    (tp + tf - s) * w <= (s - tf) * l,
                    share * w <= net * l,
                    net == a - f,
            ;
        } else {
            assert(bet.outcome != event.outcome);
        }
    }
}

/// Events that pay alike pay the same sums.
pub proof fn lemma_pays_like(event: Event, other: Event, bets: Seq<Bet>)
    requires
        pays_like(event, other),
    ensures
        total_payout(event, bets) == total_payout(other, bets),
        settled_payout(event, bets) == settled_payout(other, bets),
    decreases bets.len(),
{
    if bets.len() > 0 {
        lemma_pays_like(event, other, bets.drop_last());
    }
}

/// Where no bet is settled, nothing has been paid.
pub proof fn lemma_nothing_settled_nothing_paid(event: Event, bets: Seq<Bet>)
    requires
        forall|i: int| 0 <= i < bets.len() ==> !(#[trigger] bets[i]).settled,
    ensures
        settled_payout(event, bets) == 0,
    decreases bets.len(),
{
    if bets.len() > 0 {
        let rest = bets.drop_last();
        assert forall|i: int| 0 <= i < rest.len() implies !(#[trigger] rest[i]).settled by {
            assert(rest[i] == bets[i]);
        }
        lemma_nothing_settled_nothing_paid(event, rest);
        assert(bets.last() == bets[bets.len() - 1]);
    }
}

/// One more bet adds its stake to the sums of its side and of all, and
/// leaves what was paid to the settled ones, while it is itself unsettled.
pub proof fn lemma_one_more_bet(event: Event, bets: Seq<Bet>, bet: Bet, side: Outcome)
    ensures
        staked_on(bets.push(bet), side) == staked_on(bets, side) + if bet.outcome == side {
            bet.amount as int
        } else {
            0
        },
        total_staked(bets.push(bet)) == total_staked(bets) + bet.amount,
        total_payout(event, bets.push(bet)) == total_payout(event, bets) + bet.payout(&event),
        !bet.settled ==> settled_payout(event, bets.push(bet)) == settled_payout(event, bets),
{
    assert(bets.push(bet).drop_last() =~= bets);
    assert(bets.push(bet).last() == bet);
}

/// Marking one unsettled bet as settled leaves every stake where it was, and
/// adds the payout of that bet to what was paid to the settled ones.
pub proof fn lemma_one_more_settled(event: Event, bets: Seq<Bet>, i: int, side: Outcome)
    requires
        0 <= i < bets.len(),
        !bets[i].settled,
    ensures
        ({
            let marked = bets.update(i, Bet { settled: true, ..bets[i] });
            &&& staked_on(marked, side) == staked_on(bets, side)
            &&& total_staked(marked) == total_staked(bets)
            &&& total_payout(event, marked) == total_payout(event, bets)
            &&& settled_payout(event, marked) == settled_payout(event, bets) + bets[i].payout(
                &event,
            )
        }),
    decreases bets.len(),
{
    let settled_bet = Bet { settled: true, ..bets[i] };
    let marked = bets.update(i, settled_bet);
    let rest = bets.drop_last();
    if i < bets.len() - 1 {
        assert(rest[i] == bets[i]);
        lemma_one_more_settled(event, rest, i, side);
        assert(marked.drop_last() =~= rest.update(i, settled_bet));
        assert(marked.last() == bets.last());
    } else {
        assert(marked.drop_last() =~= rest);
        assert(marked.last() == settled_bet);
        assert(bets.last() == bets[i]);
    }
}

/// What an unsettled bet is owed is part of what is still to be paid: with
/// what was paid to the settled bets it is no more than all payouts together.
pub proof fn lemma_open_bet_is_owed(event: Event, bets: Seq<Bet>, i: int)
    requires
        event.wf(),
        event.resolved(),
        0 <= i < bets.len(),
        !bets[i].settled,
    ensures
        0 <= bets[i].payout(&event),
        0 <= settled_payout(event, bets),
        settled_payout(event, bets) + bets[i].payout(&event) <= total_payout(event, bets),
    decreases bets.len(),
{
    let rest = bets.drop_last();
    lemma_payout_share(event, bets.last());
    lemma_paid_is_part_of_all(event, rest);
    if i < bets.len() - 1 {
        assert(rest[i] == bets[i]);
        lemma_open_bet_is_owed(event, rest, i);
    } else {
        assert(bets.last() == bets[i]);
    }
}

/// What was paid to the settled bets is part of all payouts.
proof fn lemma_paid_is_part_of_all(event: Event, bets: Seq<Bet>)
    requires
        event.wf(),
        event.resolved(),
    ensures
        0 <= settled_payout(event, bets) <= total_payout(event, bets),
    decreases bets.len(),
{
    if bets.len() > 0 {
        lemma_payout_share(event, bets.last());
        lemma_paid_is_part_of_all(event, bets.drop_last());
    }
}

} // verus!
