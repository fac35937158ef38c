//! Custody and authorization rules for a founders' protocol: a threshold
//! voting vault, a milestone escrow and a contested territory ledger.
//!
//! Every operation here is a pure state transition. It takes the entities it
//! touches, the caller's identity and the current time as plain values, and
//! either fails with an [`ErrorCode`] leaving every entity as it was, or
//! updates them and reports the amount that the caller must move between
//! custody accounts for the operation to be complete.

pub mod error;
pub mod escrow;
pub mod key;
pub mod territory;
pub mod vault;

pub use error::ErrorCode;
pub use escrow::{
    initialize_sponsor_escrow, release_milestone, EscrowStatus, Milestone, SponsorEscrow,
};
pub use key::{has_duplicate_keys, Pubkey};
pub use territory::{
    challenge_territory, initialize_territory, resolve_battle, Battle, BattleStatus, BattleType,
    Territory,
};
pub use vault::{
    create_proposal, execute_proposal, initialize_team_vault, vote_on_proposal, Proposal,
    ProposalStatus, ProposalType, TeamVault, Vote,
};
