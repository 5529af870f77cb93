use sports_prediction_market::{
    announce_winner, close_betting, close_event, create_bet, create_event, AnnounceWinner,
    AssetKind, Bet, BetCreated, BettingClosed, BettingWindow, CloseBetting, CloseEvent, CreateBet,
    CreateEvent, Error, Event, EventClosed, EventCreated, Outcome, Pubkey, Vault, WindowPolicy,
    WinnerAnnounced,
};

fn pk(b: u8) -> Pubkey {
    Pubkey { bytes: [b; 32] }
}

const AUTHORITY: u8 = 1;
const EVENT: u8 = 2;
const FEES: u8 = 3;

fn creation() -> CreateEvent {
    CreateEvent {
        authority: pk(AUTHORITY),
        event: pk(EVENT),
        bump: 254,
        platform_fee_account: pk(FEES),
        developer_fee_account: None,
        now: 1_000,
    }
}

fn new_event(fee_bps: u32, developer_fee_bps: u32, policy: WindowPolicy) -> Event {
    let (event, _) = create_event(
        &creation(),
        7,
        String::from("Fighter A"),
        String::from("Fighter B"),
        fee_bps,
        developer_fee_bps,
        AssetKind::Native,
        policy,
    )
    .unwrap();
    event
}

fn betting(event: Event, bettor: u8, balance: u64, now: i64) -> CreateBet {
    CreateBet {
        authority: pk(bettor),
        event,
        bet: pk(bettor + 100),
        bump: 253,
        event_vault: Vault { event: pk(EVENT), balance },
        now,
    }
}

#[test]
fn create_event_starts_open_and_empty() {
    let (event, notice) = create_event(
        &creation(),
        7,
        String::from("Fighter A"),
        String::from("Fighter B"),
        300,
        50,
        AssetKind::Fungible(pk(9)),
        WindowPolicy::Manual,
    )
    .unwrap();
    assert_eq!(
        event,
        Event {
            key: pk(EVENT),
            bump: [254],
            authority: pk(AUTHORITY),
            event_id: 7,
            opponent_a: String::from("Fighter A"),
            opponent_b: String::from("Fighter B"),
            fee_bps: 300,
            developer_fee_bps: 50,
            platform_fee_account: pk(FEES),
            developer_fee_account: None,
            betting_window: BettingWindow::Manual { open: true },
            outcome: Outcome::Undrawn,
            win_a_amount: 0,
            win_b_amount: 0,
            win_a_count: 0,
            win_b_count: 0,
            asset_kind: AssetKind::Fungible(pk(9)),
        }
    );
    assert_eq!(
        notice,
        EventCreated {
            event: pk(EVENT),
            event_id: 7,
            opponent_a: String::from("Fighter A"),
            opponent_b: String::from("Fighter B"),
            betting_window: BettingWindow::Manual { open: true },
            asset_kind: AssetKind::Fungible(pk(9)),
        }
    );
    assert!(event.is_wf());
}

#[test]
fn create_event_keeps_the_developer_fee_account() {
    let mut ctx = creation();
    ctx.developer_fee_account = Some(pk(44));
    let (event, _) = create_event(
        &ctx,
        1,
        String::new(),
        String::new(),
        0,
        0,
        AssetKind::Native,
        WindowPolicy::Manual,
    )
    .unwrap();
    assert_eq!(event.developer_fee_account, Some(pk(44)));
    assert_eq!(event.asset_kind, AssetKind::Native);
}

#[test]
fn create_event_with_deadline_closes_after_the_horizon() {
    let event = new_event(0, 0, WindowPolicy::Deadline { horizon: 3_600 });
    assert_eq!(event.betting_window, BettingWindow::Deadline { closes_at: 4_600 });
}

#[test]
fn create_event_deadline_beyond_time_is_overflow() {
    let mut ctx = creation();
    ctx.now = i64::MAX - 5;
    let make = |horizon: u64| {
        create_event(
            &ctx,
            1,
            String::from("a"),
            String::from("b"),
            0,
            0,
            AssetKind::Native,
            WindowPolicy::Deadline { horizon },
        )
    };
    assert_eq!(make(6).unwrap_err(), Error::OverflowError);
    assert_eq!(make(u64::MAX).unwrap_err(), Error::OverflowError);
    assert_eq!(
        make(5).unwrap().0.betting_window,
        BettingWindow::Deadline { closes_at: i64::MAX }
    );
}

#[test]
fn create_event_with_negative_time() {
    let mut ctx = creation();
    ctx.now = -10;
    let (event, _) = create_event(
        &ctx,
        1,
        String::from("a"),
        String::from("b"),
        0,
        0,
        AssetKind::Native,
        WindowPolicy::Deadline { horizon: u64::MAX / 2 },
    )
    .unwrap();
    assert_eq!(
        event.betting_window,
        BettingWindow::Deadline { closes_at: i64::MAX - 10 }
    );
}

fn try_fees(fee_bps: u32, developer_fee_bps: u32) -> Result<(Event, EventCreated), Error> {
    create_event(
        &creation(),
        1,
        String::from("a"),
        String::from("b"),
        fee_bps,
        developer_fee_bps,
        AssetKind::Native,
        WindowPolicy::Manual,
    )
}

#[test]
fn create_event_rejects_fees_over_the_whole() {
    assert_eq!(try_fees(10_001, 0).unwrap_err(), Error::InvalidFee);
    assert_eq!(try_fees(0, 10_001).unwrap_err(), Error::InvalidFee);
    assert_eq!(try_fees(6_000, 4_001).unwrap_err(), Error::InvalidFee);
    assert_eq!(try_fees(u32::MAX, u32::MAX).unwrap_err(), Error::InvalidFee);
    assert!(try_fees(10_000, 0).is_ok());
    assert!(try_fees(0, 10_000).is_ok());
    assert!(try_fees(6_000, 4_000).is_ok());
}

fn try_names(a: &str, b: &str) -> Result<(Event, EventCreated), Error> {
    create_event(
        &creation(),
        1,
        String::from(a),
        String::from(b),
        0,
        0,
        AssetKind::Native,
        WindowPolicy::Manual,
    )
}

#[test]
fn create_event_rejects_names_over_32_bytes() {
    let fits = "12345678901234567890123456789012";
    let long = "123456789012345678901234567890123";
    assert!(try_names(fits, fits).is_ok());
    assert_eq!(try_names(long, fits).unwrap_err(), Error::InvalidStringLength);
    assert_eq!(try_names(fits, long).unwrap_err(), Error::InvalidStringLength);
}

#[test]
fn create_event_counts_name_length_in_bytes() {
    // eleven characters of three bytes each: 33 bytes
    let eleven = "\u{20ac}".repeat(11);
    let ten = "\u{20ac}".repeat(10);
    assert_eq!(try_names(&eleven, "b").unwrap_err(), Error::InvalidStringLength);
    assert!(try_names(&ten, "b").is_ok());
}

#[test]
fn create_event_checks_fees_before_names() {
    let long = "123456789012345678901234567890123";
    let res = create_event(
        &creation(),
        1,
        String::from(long),
        String::from(long),
        10_001,
        0,
        AssetKind::Native,
        WindowPolicy::Manual,
    );
    assert_eq!(res.unwrap_err(), Error::InvalidFee);
}

#[test]
fn event_invariant_is_tested_on_outside_values() {
    let mut event = new_event(300, 100, WindowPolicy::Manual);
    assert!(event.is_wf());
    event.developer_fee_bps = 9_701;
    assert!(!event.is_wf());
    event.developer_fee_bps = 9_700;
    assert!(event.is_wf());
    event.opponent_b = String::from("123456789012345678901234567890123");
    assert!(!event.is_wf());
}

#[test]
fn close_betting_clears_the_flag() {
    let event = new_event(300, 0, WindowPolicy::Manual);
    let mut ctx = CloseBetting { authority: pk(AUTHORITY), event: event.clone() };
    let notice = close_betting(&mut ctx).unwrap();
    assert_eq!(
        notice,
        BettingClosed { event: pk(EVENT), event_id: 7, closed_by: pk(AUTHORITY) }
    );
    let mut expected = event;
    expected.betting_window = BettingWindow::Manual { open: false };
    assert_eq!(ctx.event, expected);
}

#[test]
fn close_betting_by_a_stranger_is_unauthorized() {
    let event = new_event(300, 0, WindowPolicy::Manual);
    let mut ctx = CloseBetting { authority: pk(66), event: event.clone() };
    assert_eq!(close_betting(&mut ctx), Err(Error::Unauthorized));
    assert_eq!(ctx.event, event);
}

#[test]
fn close_betting_twice_is_already_closed() {
    let event = new_event(300, 0, WindowPolicy::Manual);
    let mut ctx = CloseBetting { authority: pk(AUTHORITY), event };
    assert!(close_betting(&mut ctx).is_ok());
    let closed = ctx.event.clone();
    assert_eq!(close_betting(&mut ctx), Err(Error::BettingAlreadyClosed));
    assert_eq!(ctx.event, closed);
}

#[test]
fn create_bet_makes_an_unsettled_bet_and_fills_pool_and_vault() {
    let event = new_event(300, 0, WindowPolicy::Manual);
    let mut ctx = betting(event, 10, 5, 2_000);
    let (bet, notice) = create_bet(&mut ctx, Outcome::WinB, 250).unwrap();
    assert_eq!(
        bet,
        Bet {
            key: pk(110),
            bump: [253],
            authority: pk(10),
            event: pk(EVENT),
            outcome: Outcome::WinB,
            amount: 250,
            settled: false,
        }
    );
    assert_eq!(
        notice,
        BetCreated {
            bet: pk(110),
            event: pk(EVENT),
            authority: pk(10),
            outcome: Outcome::WinB,
            amount: 250,
        }
    );
    assert_eq!(ctx.event.win_a_amount, 0);
    assert_eq!(ctx.event.win_a_count, 0);
    assert_eq!(ctx.event.win_b_amount, 250);
    assert_eq!(ctx.event.win_b_count, 1);
    assert_eq!(ctx.event_vault, Vault { event: pk(EVENT), balance: 255 });
    assert_eq!(ctx.event.outcome, Outcome::Undrawn);
}

#[test]
fn pools_hold_the_sum_of_all_stakes() {
    let stakes: [(Outcome, u64); 6] = [
        (Outcome::WinA, 1),
        (Outcome::WinB, 1_000),
        (Outcome::WinA, 999_999),
        (Outcome::WinA, 17),
        (Outcome::WinB, u64::MAX),
        (Outcome::WinB, u64::MAX),
    ];
    let mut event = new_event(300, 0, WindowPolicy::Manual);
    let mut on_a: u128 = 0;
    let mut on_b: u128 = 0;
    for (i, (side, amount)) in stakes.iter().enumerate() {
        let mut ctx = betting(event, i as u8, 0, 2_000);
        let (bet, _) = create_bet(&mut ctx, *side, *amount).unwrap();
        assert_eq!(bet.amount, *amount);
        if *side == Outcome::WinA {
            on_a += *amount as u128;
        } else {
            on_b += *amount as u128;
        }
        event = ctx.event;
        assert_eq!(event.win_a_amount, on_a);
        assert_eq!(event.win_b_amount, on_b);
    }
    assert_eq!(event.win_a_amount, 1_000_017);
    assert_eq!(event.win_b_amount, 1_000 + 2 * (u64::MAX as u128));
    assert_eq!(event.win_a_count, 3);
    assert_eq!(event.win_b_count, 3);
    let total: u128 = stakes.iter().map(|s| s.1 as u128).sum();
    assert_eq!(event.win_a_amount + event.win_b_amount, total);
}

#[test]
fn create_bet_after_close_betting_fails_and_leaves_pools() {
    let event = new_event(300, 0, WindowPolicy::Manual);
    let mut first = betting(event, 10, 0, 2_000);
    create_bet(&mut first, Outcome::WinA, 500).unwrap();
    let mut closing = CloseBetting { authority: pk(AUTHORITY), event: first.event };
    close_betting(&mut closing).unwrap();
    let closed = closing.event;
    let mut ctx = betting(closed.clone(), 11, 500, 2_001);
    assert_eq!(create_bet(&mut ctx, Outcome::WinB, 100), Err(Error::BettingClosed));
    assert_eq!(ctx.event, closed);
    assert_eq!(ctx.event.win_a_amount, 500);
    assert_eq!(ctx.event.win_b_amount, 0);
    assert_eq!(ctx.event_vault.balance, 500);
}

#[test]
fn create_bet_at_the_deadline_is_betting_ended() {
    let event = new_event(0, 0, WindowPolicy::Deadline { horizon: 100 });
    let mut early = betting(event.clone(), 10, 0, 1_099);
    assert!(create_bet(&mut early, Outcome::WinA, 1).is_ok());
    let mut at = betting(event.clone(), 10, 0, 1_100);
    assert_eq!(create_bet(&mut at, Outcome::WinA, 1), Err(Error::BettingEnded));
    assert_eq!(at.event, event);
    let mut late = betting(event, 10, 0, i64::MAX);
    assert_eq!(create_bet(&mut late, Outcome::WinA, 1), Err(Error::BettingEnded));
}

#[test]
fn create_bet_of_zero_is_zero_amount() {
    let event = new_event(0, 0, WindowPolicy::Manual);
    let mut ctx = betting(event.clone(), 10, 3, 2_000);
    assert_eq!(create_bet(&mut ctx, Outcome::WinA, 0), Err(Error::ZeroAmount));
    assert_eq!(ctx.event, event);
    assert_eq!(ctx.event_vault.balance, 3);
}

#[test]
fn create_bet_on_undrawn_is_invalid_outcome() {
    let event = new_event(0, 0, WindowPolicy::Manual);
    let mut ctx = betting(event.clone(), 10, 3, 2_000);
    assert_eq!(create_bet(&mut ctx, Outcome::Undrawn, 5), Err(Error::InvalidOutcome));
    assert_eq!(ctx.event, event);
}

#[test]
fn create_bet_on_a_resolved_event_is_event_settled() {
    let mut event = new_event(0, 0, WindowPolicy::Manual);
    event.outcome = Outcome::WinB;
    let mut ctx = betting(event.clone(), 10, 3, 2_000);
    assert_eq!(create_bet(&mut ctx, Outcome::WinA, 5), Err(Error::EventSettled));
    // the outcome is looked at first
    assert_eq!(create_bet(&mut ctx, Outcome::Undrawn, 0), Err(Error::EventSettled));
    assert_eq!(ctx.event, event);
}

#[test]
fn create_bet_with_a_foreign_vault_is_invalid_event() {
    let event = new_event(0, 0, WindowPolicy::Manual);
    let mut ctx = betting(event.clone(), 10, 3, 2_000);
    ctx.event_vault.event = pk(77);
    assert_eq!(create_bet(&mut ctx, Outcome::WinA, 5), Err(Error::InvalidEvent));
    assert_eq!(create_bet(&mut ctx, Outcome::WinA, 0), Err(Error::InvalidEvent));
    assert_eq!(ctx.event, event);
    assert_eq!(ctx.event_vault, Vault { event: pk(77), balance: 3 });
}

#[test]
fn create_bet_that_overflows_a_pool_is_overflow() {
    let mut event = new_event(0, 0, WindowPolicy::Manual);
    event.win_a_amount = u128::MAX - 9;
    let mut ctx = betting(event.clone(), 10, 0, 2_000);
    assert_eq!(create_bet(&mut ctx, Outcome::WinA, 10), Err(Error::OverflowError));
    assert_eq!(ctx.event, event);
    assert_eq!(ctx.event_vault.balance, 0);
    assert!(create_bet(&mut ctx, Outcome::WinA, 9).is_ok());
    assert_eq!(ctx.event.win_a_amount, u128::MAX);
    assert!(create_bet(&mut ctx, Outcome::WinB, 10).is_ok());
}

#[test]
fn create_bet_that_overflows_a_count_is_overflow() {
    let mut event = new_event(0, 0, WindowPolicy::Manual);
    event.win_b_count = u32::MAX;
    let mut ctx = betting(event.clone(), 10, 0, 2_000);
    assert_eq!(create_bet(&mut ctx, Outcome::WinB, 10), Err(Error::OverflowError));
    assert_eq!(ctx.event, event);
    assert!(create_bet(&mut ctx, Outcome::WinA, 10).is_ok());
    assert_eq!(ctx.event.win_a_count, 1);
}

#[test]
fn create_bet_that_overflows_the_vault_is_overflow() {
    let event = new_event(0, 0, WindowPolicy::Manual);
    let mut ctx = betting(event.clone(), 10, u64::MAX - 4, 2_000);
    assert_eq!(create_bet(&mut ctx, Outcome::WinA, 5), Err(Error::OverflowError));
    assert_eq!(ctx.event, event);
    assert_eq!(ctx.event_vault.balance, u64::MAX - 4);
    assert!(create_bet(&mut ctx, Outcome::WinA, 4).is_ok());
    assert_eq!(ctx.event_vault.balance, u64::MAX);
}

#[test]
fn announce_winner_writes_the_outcome() {
    let mut event = new_event(300, 0, WindowPolicy::Manual);
    event.win_a_amount = 40;
    event.win_b_amount = 60;
    let mut ctx = AnnounceWinner { authority: pk(AUTHORITY), event: event.clone() };
    let notice = announce_winner(&mut ctx, Outcome::WinB).unwrap();
    assert_eq!(
        notice,
        WinnerAnnounced { event: pk(EVENT), winner: Outcome::WinB, win_a_amount: 40, win_b_amount: 60 }
    );
    let mut expected = event;
    expected.outcome = Outcome::WinB;
    assert_eq!(ctx.event, expected);
}

#[test]
fn announce_winner_twice_is_event_settled() {
    let event = new_event(300, 0, WindowPolicy::Manual);
    let mut ctx = AnnounceWinner { authority: pk(AUTHORITY), event };
    assert!(announce_winner(&mut ctx, Outcome::WinA).is_ok());
    assert_eq!(announce_winner(&mut ctx, Outcome::WinB), Err(Error::EventSettled));
    assert_eq!(ctx.event.outcome, Outcome::WinA);
    assert_eq!(announce_winner(&mut ctx, Outcome::WinA), Err(Error::EventSettled));
    assert_eq!(announce_winner(&mut ctx, Outcome::Undrawn), Err(Error::EventSettled));
    assert_eq!(ctx.event.outcome, Outcome::WinA);
}

#[test]
fn announce_winner_by_a_stranger_is_unauthorized() {
    let event = new_event(300, 0, WindowPolicy::Manual);
    let mut ctx = AnnounceWinner { authority: pk(66), event: event.clone() };
    assert_eq!(announce_winner(&mut ctx, Outcome::WinA), Err(Error::Unauthorized));
    assert_eq!(announce_winner(&mut ctx, Outcome::Undrawn), Err(Error::Unauthorized));
    assert_eq!(ctx.event, event);
}

#[test]
fn announce_winner_undrawn_is_invalid_outcome() {
    let event = new_event(300, 0, WindowPolicy::Manual);
    let mut ctx = AnnounceWinner { authority: pk(AUTHORITY), event: event.clone() };
    assert_eq!(announce_winner(&mut ctx, Outcome::Undrawn), Err(Error::InvalidOutcome));
    assert_eq!(ctx.event, event);
}

#[test]
fn announce_winner_works_while_betting_is_open() {
    let event = new_event(0, 0, WindowPolicy::Deadline { horizon: 100 });
    let mut ctx = AnnounceWinner { authority: pk(AUTHORITY), event };
    assert!(announce_winner(&mut ctx, Outcome::WinA).is_ok());
    let mut bet = betting(ctx.event, 10, 0, 1_001);
    assert_eq!(create_bet(&mut bet, Outcome::WinA, 1), Err(Error::EventSettled));
}

fn closing(event: Event, caller: u8, balance: u64) -> CloseEvent {
    CloseEvent {
        authority: pk(caller),
        event,
        event_vault: Vault { event: pk(EVENT), balance },
    }
}

#[test]
fn close_event_releases_the_residual() {
    let mut event = new_event(300, 0, WindowPolicy::Manual);
    event.outcome = Outcome::WinA;
    event.win_a_count = 3;
    event.win_b_count = 4;
    let mut ctx = closing(event.clone(), AUTHORITY, 60);
    let notice = close_event(&mut ctx).unwrap();
    assert_eq!(
        notice,
        EventClosed { event: pk(EVENT), event_id: 7, outcome: Outcome::WinA, total_bets: 7 }
    );
    assert_eq!(ctx.event_vault, Vault { event: pk(EVENT), balance: 0 });
    assert_eq!(ctx.event, event);
}

#[test]
fn close_event_before_the_outcome_is_event_not_settled() {
    let event = new_event(300, 0, WindowPolicy::Manual);
    let mut ctx = closing(event.clone(), AUTHORITY, 60);
    assert_eq!(close_event(&mut ctx), Err(Error::EventNotSettled));
    assert_eq!(ctx.event, event);
    assert_eq!(ctx.event_vault.balance, 60);
}

#[test]
fn close_event_by_a_stranger_is_unauthorized() {
    let mut event = new_event(300, 0, WindowPolicy::Manual);
    let mut open = closing(event.clone(), 66, 60);
    assert_eq!(close_event(&mut open), Err(Error::Unauthorized));
    event.outcome = Outcome::WinB;
    let mut ctx = closing(event, 66, 60);
    assert_eq!(close_event(&mut ctx), Err(Error::Unauthorized));
    assert_eq!(ctx.event_vault.balance, 60);
}

#[test]
fn close_event_with_too_many_bets_to_count_is_overflow() {
    let mut event = new_event(300, 0, WindowPolicy::Manual);
    event.outcome = Outcome::WinB;
    event.win_a_count = u32::MAX;
    event.win_b_count = 1;
    let mut ctx = closing(event.clone(), AUTHORITY, 60);
    assert_eq!(close_event(&mut ctx), Err(Error::OverflowError));
    assert_eq!(ctx.event_vault.balance, 60);
    event.win_b_count = 0;
    let mut ctx = closing(event, AUTHORITY, 60);
    assert_eq!(close_event(&mut ctx).unwrap().total_bets, u32::MAX);
}

#[test]
fn event_accepts_bets_while_open_and_undrawn() {
    let manual = new_event(0, 0, WindowPolicy::Manual);
    assert!(manual.accepts_bets_at(i64::MIN));
    assert!(manual.accepts_bets_at(i64::MAX));
    assert!(manual.betting_window.is_open_at(0));

    let mut closing = CloseBetting { authority: pk(AUTHORITY), event: manual.clone() };
    close_betting(&mut closing).unwrap();
    assert!(!closing.event.accepts_bets_at(0));
    assert!(!closing.event.betting_window.is_open_at(0));

    let timed = new_event(0, 0, WindowPolicy::Deadline { horizon: 100 });
    assert!(timed.accepts_bets_at(1_099));
    assert!(!timed.accepts_bets_at(1_100));
    assert!(!timed.accepts_bets_at(1_101));

    let mut resolved = manual;
    resolved.outcome = Outcome::WinA;
    assert!(!resolved.accepts_bets_at(0));
    assert!(resolved.betting_window.is_open_at(0));
}
