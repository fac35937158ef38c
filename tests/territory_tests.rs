use rise_of_founders_protocol::{
    challenge_territory, initialize_territory, resolve_battle, BattleStatus, BattleType,
    ErrorCode, Pubkey, Territory,
};

const NOW: i64 = 1_700_000_000;

fn key(b: u8) -> Pubkey {
    Pubkey::new([b; 32])
}

fn territory(difficulty: u8) -> Result<Territory, ErrorCode> {
    initialize_territory(
        "ter-1".to_string(),
        "Valley".to_string(),
        "A green valley".to_string(),
        [3, -4],
        120,
        difficulty,
        8,
        "https://example.org/t/1".to_string(),
        7,
        NOW,
    )
}

#[test]
fn territory_created_unclaimed() {
    let t = territory(3).unwrap();
    assert_eq!(t.owner, None);
    assert!(t.is_active);
    assert_eq!(t.coordinates, [3, -4]);
    assert_eq!(t.battles_won, 0);
    assert_eq!(t.battles_lost, 0);
    assert_eq!(t.current_teams, 0);
    assert_eq!(t.difficulty, 3);
}

#[test]
fn territory_difficulty_bounds() {
    assert_eq!(territory(0).err(), Some(ErrorCode::InvalidDifficulty));
    assert_eq!(territory(6).err(), Some(ErrorCode::InvalidDifficulty));
    assert!(territory(1).is_ok());
    assert!(territory(5).is_ok());
}

#[test]
fn challenge_snapshots_owner() {
    let mut t = territory(2).unwrap();
    t.owner = Some(key(4));
    let b = challenge_territory(&t, key(200), key(5), "team-5".to_string(), BattleType::Raid, NOW)
        .unwrap();
    assert_eq!(b.defender, Some(key(4)));
    assert_eq!(b.challenger, key(5));
    assert_eq!(b.territory, key(200));
    assert_eq!(b.status, BattleStatus::Pending);
    assert_eq!(b.expires_at, NOW + 24 * 60 * 60);
    assert_eq!(b.winner, None);
    assert_eq!(b.stake_amount, 0);
}

#[test]
fn challenge_of_inactive_territory_refused() {
    let mut t = territory(2).unwrap();
    t.is_active = false;
    let r = challenge_territory(&t, key(200), key(5), "x".to_string(), BattleType::Conquest, NOW);
    assert_eq!(r.err(), Some(ErrorCode::TerritoryNotActive));
}

#[test]
fn challenger_win_transfers_ownership() {
    let mut t = territory(2).unwrap();
    let mut b =
        challenge_territory(&t, key(200), key(5), "x".to_string(), BattleType::Conquest, NOW)
            .unwrap();
    assert_eq!(b.defender, None);
    assert_eq!(resolve_battle(&mut t, &mut b, key(5), 77, NOW + 9), Ok(()));
    assert_eq!(t.owner, Some(key(5)));
    assert_eq!(t.battles_won, 1);
    assert_eq!(t.battles_lost, 0);
    assert_eq!(b.status, BattleStatus::Completed);
    assert_eq!(b.winner, Some(key(5)));
    assert_eq!(b.score, 77);
    assert_eq!(b.resolved_at, Some(NOW + 9));
}

#[test]
fn defender_win_keeps_owner() {
    let mut t = territory(2).unwrap();
    t.owner = Some(key(4));
    let mut b =
        challenge_territory(&t, key(200), key(5), "x".to_string(), BattleType::Defense, NOW)
            .unwrap();
    assert_eq!(resolve_battle(&mut t, &mut b, key(4), 10, NOW), Ok(()));
    assert_eq!(t.owner, Some(key(4)));
    assert_eq!(t.battles_won, 0);
    assert_eq!(t.battles_lost, 1);
}

#[test]
fn resolving_twice_refused() {
    let mut t = territory(2).unwrap();
    let mut b =
        challenge_territory(&t, key(200), key(5), "x".to_string(), BattleType::Conquest, NOW)
            .unwrap();
    resolve_battle(&mut t, &mut b, key(6), 1, NOW).unwrap();
    assert_eq!(
        resolve_battle(&mut t, &mut b, key(5), 2, NOW),
        Err(ErrorCode::BattleNotActive)
    );
    assert_eq!(t.owner, None);
    assert_eq!(t.battles_lost, 1);
    assert_eq!(b.winner, Some(key(6)));
}

#[test]
fn concurrent_battles_both_resolve() {
    let mut t = territory(2).unwrap();
    let mut b1 =
        challenge_territory(&t, key(200), key(5), "a".to_string(), BattleType::Conquest, NOW)
            .unwrap();
    let mut b2 =
        challenge_territory(&t, key(200), key(6), "b".to_string(), BattleType::Conquest, NOW)
            .unwrap();
    resolve_battle(&mut t, &mut b1, key(5), 1, NOW).unwrap();
    resolve_battle(&mut t, &mut b2, key(6), 1, NOW).unwrap();
    assert_eq!(b2.defender, None);
    assert_eq!(t.owner, Some(key(6)));
    assert_eq!(t.battles_won, 2);
}

#[test]
fn challenger_win_with_lost_counter_at_limit() {
    let mut t = territory(2).unwrap();
    t.battles_lost = u32::MAX;
    let mut b =
        challenge_territory(&t, key(200), key(5), "x".to_string(), BattleType::Conquest, NOW)
            .unwrap();
    assert_eq!(resolve_battle(&mut t, &mut b, key(5), 3, NOW), Ok(()));
    assert_eq!(t.owner, Some(key(5)));
    assert_eq!(t.battles_won, 1);
    assert_eq!(t.battles_lost, u32::MAX);
}
