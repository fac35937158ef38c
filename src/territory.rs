use vstd::prelude::*;

use crate::error::ErrorCode;
use crate::key::Pubkey;

verus! {

/// How long a battle stays open, in seconds (one day).
pub const BATTLE_LIFETIME: i64 = 24 * 60 * 60;

/// A contestable resource with at most one owner.
pub struct Territory {
    pub territory_id: String,
    pub name: String,
    pub description: String,
    /// Map position as `[x, y]`.
    pub coordinates: [i32; 2],
    pub size: u32,
    /// From 1 (easiest) to 5.
    pub difficulty: u8,
    pub max_teams: u16,
    pub current_teams: u16,
    pub uri: String,
    /// The current owner; `None` while unclaimed.
    pub owner: Option<Pubkey>,
    pub battles_won: u32,
    pub battles_lost: u32,
    pub total_rewards: u64,
    pub is_active: bool,
    pub bump: u8,
    pub created_at: i64,
}

/// The kind of a battle.
#[derive(Clone, Copy, Debug, PartialEq, Eq, Structural)]
pub enum BattleType {
    Conquest,
    Defense,
    Raid,
}

/// Where a battle stands in its life.
#[derive(Clone, Copy, Debug, PartialEq, Eq, Structural)]
pub enum BattleStatus {
    Pending,
    InProgress,
    Completed,
    Cancelled,
}

/// A challenge for a territory's ownership, decided by a winner that is
/// handed in from outside.
pub struct Battle {
    pub territory: Pubkey,
    pub challenger: Pubkey,
    pub challenger_team_id: String,
    /// The territory's owner when the battle was opened.
    pub defender: Option<Pubkey>,
    pub battle_type: BattleType,
    pub status: BattleStatus,
    pub stake_amount: u64,
    pub winner: Option<Pubkey>,
    pub score: u32,
    pub created_at: i64,
    pub expires_at: i64,
    pub resolved_at: Option<i64>,
}

/// A difficulty that a territory accepts.
pub open spec fn valid_difficulty(difficulty: u8) -> bool {
    1 <= difficulty <= 5
}

/// Creates an unclaimed, active territory.
pub fn initialize_territory(
    territory_id: String,
    name: String,
    description: String,
    coordinates: [i32; 2],
    size: u32,
    difficulty: u8,
    max_teams: u16,
    uri: String,
    bump: u8,
    now: i64,
) -> (r: Result<Territory, ErrorCode>)
    ensures
        r is Ok <==> valid_difficulty(difficulty),
        !valid_difficulty(difficulty) ==> r == Err::<Territory, ErrorCode>(
            ErrorCode::InvalidDifficulty,
        ),
        r matches Ok(t) ==> {
            &&& t.territory_id == territory_id
            &&& t.name == name
            &&& t.description == description
            &&& t.coordinates == coordinates
            &&& t.size == size
            &&& t.difficulty == difficulty
            &&& t.max_teams == max_teams
            &&& t.current_teams == 0
            &&& t.uri == uri
            &&& t.owner == None::<Pubkey>
            &&& t.battles_won == 0
            &&& t.battles_lost == 0
            &&& t.total_rewards == 0
            &&& t.is_active
            &&& t.bump == bump
            &&& t.created_at == now
        },
{
    if difficulty < 1 || difficulty > 5 {
        return Err(ErrorCode::InvalidDifficulty);
    }
    Ok(
        Territory {
            territory_id,
            name,
            description,
            coordinates,
            size,
            difficulty,
            max_teams,
            current_teams: 0,
            uri,
            owner: None,
            battles_won: 0,
            battles_lost: 0,
            total_rewards: 0,
            is_active: true,
            bump,
            created_at: now,
        },
    )
}

/// Opens a battle by `challenger` for `territory`, whose account is
/// `territory_key`. The battle records the territory's owner at this moment
/// as the defender, and expires a day after `now`.
pub fn challenge_territory(
    territory: &Territory,
    territory_key: Pubkey,
    challenger: Pubkey,
    challenger_team_id: String,
    battle_type: BattleType,
    now: i64,
) -> (r: Result<Battle, ErrorCode>)
    requires
        now <= i64::MAX - BATTLE_LIFETIME,
    ensures
        r is Ok <==> territory.is_active,
        !territory.is_active ==> r == Err::<Battle, ErrorCode>(ErrorCode::TerritoryNotActive),
        r matches Ok(b) ==> b == (Battle {
            territory: territory_key,
            challenger,
            challenger_team_id,
            defender: territory.owner,
            battle_type,
            status: BattleStatus::Pending,
            stake_amount: 0,
            winner: None,
            score: 0,
            created_at: now,
            expires_at: (now + BATTLE_LIFETIME) as i64,
            resolved_at: None,
        }),
{
    if !territory.is_active {
        return Err(ErrorCode::TerritoryNotActive);
    }
    Ok(
        Battle {
            territory: territory_key,
            challenger,
            challenger_team_id,
            defender: territory.owner,
            battle_type,
            status: BattleStatus::Pending,
            stake_amount: 0,
            winner: None,
            score: 0,
            created_at: now,
            expires_at: now + BATTLE_LIFETIME,
            resolved_at: None,
        },
    )
}

/// Resolves a pending `battle` for `territory` with the adjudicated `winner`
/// and `score`. A winning challenger takes the territory and counts as a
/// battle won; any other winner leaves the owner as it was and counts as a
/// battle lost.
pub fn resolve_battle(
    territory: &mut Territory,
    battle: &mut Battle,
    winner: Pubkey,
    score: u32,
    now: i64,
) -> (r: Result<(), ErrorCode>)
    requires
        old(battle).status == BattleStatus::Pending && winner == old(battle).challenger ==> old(
            territory,
        ).battles_won < u32::MAX,
        old(battle).status == BattleStatus::Pending && winner != old(battle).challenger ==> old(
            territory,
        ).battles_lost < u32::MAX,
    ensures
        r is Ok <==> old(battle).status == BattleStatus::Pending,
        r is Err ==> {
            &&& r == Err::<(), ErrorCode>(ErrorCode::BattleNotActive)
            &&& *final(territory) == *old(territory)
            &&& *final(battle) == *old(battle)
        },
        r is Ok ==> {
            &&& *final(battle) == (Battle {
                status: BattleStatus::Completed,
                winner: Some(winner),
                score,
                resolved_at: Some(now),
                ..*old(battle)
            })
            &&& *final(territory) == if winner == old(battle).challenger {
                Territory {
                    owner: Some(old(battle).challenger),
                    battles_won: (old(territory).battles_won + 1) as u32,
                    ..*old(territory)
                }
            } else {
                Territory {
                    battles_lost: (old(territory).battles_lost + 1) as u32,
                    ..*old(territory)
                }
            }
        },
{
    if battle.status != BattleStatus::Pending {
        return Err(ErrorCode::BattleNotActive);
    }
    battle.status = BattleStatus::Completed;
    battle.winner = Some(winner);
    battle.score = score;
    battle.resolved_at = Some(now);
    if winner == battle.challenger {
        territory.owner = Some(battle.challenger);
        territory.battles_won = territory.battles_won + 1;
    } else {
        territory.battles_lost = territory.battles_lost + 1;
    }
    Ok(())
}

} // verus!
