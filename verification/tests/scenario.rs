use game_points::Address;
use game_points::GamePointsError;
use game_points::GamepointsContract;
use game_points::PlayerScore;
use game_points::ResetEvent;

#[test]
fn owner_awards_twice_then_non_owner_fails_then_reset() {
    let o = Address { id: 10 };
    let p = Address { id: 20 };
    let x = Address { id: 30 };
    let mut c = GamepointsContract::construct(o);

    // O awards player P 100 points in game 1.
    let r1 = c.add_points(o, p, 100, 1, 1000);
    assert_eq!(r1, Ok(100));
    assert_eq!(c.get_player_count(), 1);
    assert_eq!(c.history_len(), 1);
    let rec1 = c.history_record(0);
    assert_eq!(rec1.player, p);
    assert_eq!(rec1.points_awarded, 100);
    assert_eq!(rec1.game_id, 1);
    assert_eq!(rec1.timestamp, 1000);

    // O awards P another 50 in game 2.
    let r2 = c.add_points(o, p, 50, 2, 1001);
    assert_eq!(r2, Ok(150));
    assert_eq!(c.get_player_count(), 1);
    assert_eq!(c.history_len(), 2);
    let rec2 = c.history_record(1);
    assert_eq!(rec2.points_awarded, 50);
    assert_eq!(rec2.game_id, 2);

    // Non-owner X cannot award.
    let r3 = c.add_points(x, p, 10, 3, 1002);
    assert_eq!(r3, Err(GamePointsError::Unauthorized));
    assert_eq!(c.get_player_points(p), 150);

    // O resets P.
    let mut events: Vec<ResetEvent> = Vec::new();
    let r4 = c.reset_player_points(o, p, &mut events);
    assert_eq!(r4, Ok(150));
    assert_eq!(c.get_player_points(p), 0);
    assert_eq!(c.get_player_count(), 0);
    assert_eq!(events, vec![ResetEvent { player: p, prior_balance: 150 }]);
}

#[test]
fn player_info_projects_balance_with_generic_id_and_query_time() {
    let o = Address { id: 10 };
    let p = Address { id: 20 };
    let mut c = GamepointsContract::construct(o);
    c.add_points(o, p, 42, 7, 500).unwrap();
    let info = c.get_player_info(p, 9000);
    assert_eq!(
        info,
        PlayerScore { player: p, points: 42, game_id: 0, timestamp: 9000 }
    );
    let absent = c.get_player_info(Address { id: 99 }, 9001);
    assert_eq!(absent.points, 0);
    assert_eq!(absent.game_id, 0);
}

#[test]
fn leaderboard_is_the_documented_empty_placeholder() {
    let o = Address { id: 10 };
    let p = Address { id: 20 };
    let mut c = GamepointsContract::construct(o);
    c.add_points(o, p, 42, 7, 500).unwrap();
    assert!(c.get_leaderboard(10).is_empty());
    assert!(c.get_leaderboard(0).is_empty());
}

#[test]
fn require_owner_gates_exactly_on_the_stored_owner() {
    let o = Address { id: 10 };
    let c = GamepointsContract::construct(o);
    assert_eq!(c.require_owner(o), Ok(()));
    assert_eq!(
        c.require_owner(Address { id: 11 }),
        Err(GamePointsError::Unauthorized)
    );
}
