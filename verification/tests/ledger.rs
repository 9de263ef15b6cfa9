use game_points::Address;
use game_points::GamePointsError;
use game_points::GamepointsContract;
use game_points::ResetEvent;

fn owner() -> Address {
    Address { id: 1 }
}

fn player() -> Address {
    Address { id: 2 }
}

fn stranger() -> Address {
    Address { id: 3 }
}

#[test]
fn fresh_contract_has_zero_balances() {
    let c = GamepointsContract::construct(owner());
    assert_eq!(c.get_player_points(player()), 0);
    assert_eq!(c.get_player_points(owner()), 0);
    assert_eq!(c.get_player_points(Address { id: u64::MAX }), 0);
    assert_eq!(c.get_player_count(), 0);
    assert_eq!(c.history_len(), 0);
    assert_eq!(c.get_owner(), owner());
}

#[test]
fn award_credits_exactly_and_counts_new_players() {
    let mut c = GamepointsContract::construct(owner());
    let r = c.add_points(owner(), player(), 100, 1, 50);
    assert_eq!(r, Ok(100));
    assert_eq!(c.get_player_points(player()), 100);
    assert_eq!(c.get_player_count(), 1);

    // A second award to the same player leaves the counter alone.
    let r2 = c.add_points(owner(), player(), 50, 2, 60);
    assert_eq!(r2, Ok(150));
    assert_eq!(c.get_player_points(player()), 150);
    assert_eq!(c.get_player_count(), 1);

    // A first award to another player bumps it again.
    let r3 = c.add_points(owner(), stranger(), 7, 3, 70);
    assert_eq!(r3, Ok(7));
    assert_eq!(c.get_player_count(), 2);
    assert_eq!(c.get_player_points(stranger()), 7);
    assert_eq!(c.get_player_points(player()), 150);
}

#[test]
fn award_of_zero_fails_and_changes_nothing() {
    let mut c = GamepointsContract::construct(owner());
    c.add_points(owner(), player(), 40, 1, 10).unwrap();
    let r = c.add_points(owner(), player(), 0, 2, 20);
    assert_eq!(r, Err(GamePointsError::InvalidAmount));
    assert_eq!(c.get_player_points(player()), 40);
    assert_eq!(c.get_player_count(), 1);
    assert_eq!(c.history_len(), 1);
}

#[test]
fn award_by_non_owner_fails_and_changes_nothing() {
    let mut c = GamepointsContract::construct(owner());
    c.add_points(owner(), player(), 40, 1, 10).unwrap();
    let r = c.add_points(stranger(), player(), 5, 2, 20);
    assert_eq!(r, Err(GamePointsError::Unauthorized));
    assert_eq!(c.get_player_points(player()), 40);
    assert_eq!(c.get_player_count(), 1);
    assert_eq!(c.history_len(), 1);
}

#[test]
fn reset_of_zero_balance_is_a_notified_no_op() {
    let mut c = GamepointsContract::construct(owner());
    let mut events: Vec<ResetEvent> = Vec::new();
    let r = c.reset_player_points(owner(), player(), &mut events);
    assert_eq!(r, Ok(0));
    assert_eq!(c.get_player_points(player()), 0);
    assert_eq!(c.get_player_count(), 0);
    assert_eq!(events.len(), 1);
    assert_eq!(events[0], ResetEvent { player: player(), prior_balance: 0 });
}

#[test]
fn reset_of_positive_balance_returns_it_and_decrements() {
    let mut c = GamepointsContract::construct(owner());
    c.add_points(owner(), player(), 75, 1, 10).unwrap();
    c.add_points(owner(), stranger(), 5, 2, 20).unwrap();
    let mut events: Vec<ResetEvent> = Vec::new();
    let r = c.reset_player_points(owner(), player(), &mut events);
    assert_eq!(r, Ok(75));
    assert_eq!(c.get_player_points(player()), 0);
    assert_eq!(c.get_player_points(stranger()), 5);
    assert_eq!(c.get_player_count(), 1);
    assert_eq!(events[0], ResetEvent { player: player(), prior_balance: 75 });
    // The history keeps both award records.
    assert_eq!(c.history_len(), 2);
}

#[test]
fn reset_by_non_owner_fails_and_changes_nothing() {
    let mut c = GamepointsContract::construct(owner());
    c.add_points(owner(), player(), 75, 1, 10).unwrap();
    let mut events: Vec<ResetEvent> = Vec::new();
    let r = c.reset_player_points(stranger(), player(), &mut events);
    assert_eq!(r, Err(GamePointsError::Unauthorized));
    assert_eq!(c.get_player_points(player()), 75);
    assert_eq!(c.get_player_count(), 1);
    assert!(events.is_empty());
}

#[test]
fn reset_twice_yields_balance_then_zero() {
    let mut c = GamepointsContract::construct(owner());
    c.add_points(owner(), player(), 33, 1, 10).unwrap();
    let mut events: Vec<ResetEvent> = Vec::new();
    let first = c.reset_player_points(owner(), player(), &mut events);
    let count_after_first = c.get_player_count();
    let second = c.reset_player_points(owner(), player(), &mut events);
    assert_eq!(first, Ok(33));
    assert_eq!(second, Ok(0));
    assert_eq!(c.get_player_points(player()), 0);
    assert_eq!(c.get_player_count(), count_after_first);
    assert_eq!(events.len(), 2);
    assert_eq!(events[1], ResetEvent { player: player(), prior_balance: 0 });
}

#[test]
fn awards_sharing_a_history_key_tuple_both_stay_recorded() {
    // Two awards to the same player with the same timestamp and game id
    // share the composite history key; the append-only log keeps both.
    let mut c = GamepointsContract::construct(owner());
    c.add_points(owner(), player(), 10, 1, 500).unwrap();
    c.add_points(owner(), player(), 20, 1, 500).unwrap();
    assert_eq!(c.history_len(), 2);
    assert_eq!(c.history_record(0).points_awarded, 10);
    assert_eq!(c.history_record(1).points_awarded, 20);
    assert_eq!(c.get_player_points(player()), 30);
}

#[test]
fn overflowing_award_fails_and_changes_nothing() {
    let mut c = GamepointsContract::construct(owner());
    c.add_points(owner(), player(), u64::MAX - 1, 1, 10).unwrap();
    let r = c.add_points(owner(), player(), 2, 2, 20);
    assert_eq!(r, Err(GamePointsError::Overflow));
    assert_eq!(c.get_player_points(player()), u64::MAX - 1);
    assert_eq!(c.history_len(), 1);

    // Filling the balance up to the maximum exactly still succeeds.
    let r2 = c.add_points(owner(), player(), 1, 3, 30);
    assert_eq!(r2, Ok(u64::MAX));
    assert_eq!(c.get_player_points(player()), u64::MAX);
}
