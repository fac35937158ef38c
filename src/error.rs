use vstd::prelude::*;

verus! {

/// Why an operation was refused. A refused operation changes nothing.
#[derive(Clone, Copy, Debug, PartialEq, Eq, Structural)]
pub enum ErrorCode {
    /// More than ten founders were named for a vault.
    TooManyFounders,
    /// The approval threshold is zero or larger than the number of founders.
    InvalidThreshold,
    /// The caller is not one of the vault's founders.
    UnauthorizedFounder,
    /// The founder has already voted on this proposal.
    AlreadyVoted,
    /// The proposal is no longer open for votes.
    ProposalNotActive,
    /// The proposal's voting deadline has passed.
    ProposalExpired,
    /// Only an approved proposal can be executed.
    ProposalNotApproved,
    /// More than ten milestones were given for an escrow.
    TooManyMilestones,
    /// The milestone percentages do not add up to exactly one hundred.
    InvalidMilestonePercentages,
    /// The escrow no longer releases funds.
    EscrowNotActive,
    /// The milestone index is past the last milestone.
    InvalidMilestoneIndex,
    /// The milestone has already been paid out.
    MilestoneAlreadyReleased,
    /// A territory's difficulty must lie between one and five.
    InvalidDifficulty,
    /// The territory does not accept challenges.
    TerritoryNotActive,
    /// The battle has already been resolved.
    BattleNotActive,
}

impl ErrorCode {
    /// A short human-readable description of the error.
    pub fn message(&self) -> (r: &'static str)
        ensures
            match self {
            ErrorCode::TooManyFounders => r@ == "Too many founders in team (max 10)"@,
            ErrorCode::InvalidThreshold => r@ == "Invalid threshold value"@,
            ErrorCode::UnauthorizedFounder => r@ == "Unauthorized founder"@,
            ErrorCode::AlreadyVoted => r@ == "Already voted on this proposal"@,
            ErrorCode::ProposalNotActive => r@ == "Proposal is not active"@,
            ErrorCode::ProposalExpired => r@ == "Proposal has expired"@,
            ErrorCode::ProposalNotApproved => r@ == "Proposal is not approved"@,
            ErrorCode::TooManyMilestones => r@ == "Too many milestones (max 10)"@,
            ErrorCode::InvalidMilestonePercentages => r@ == "Milestone percentages must sum to 100"@,
            ErrorCode::EscrowNotActive => r@ == "Escrow is not active"@,
            ErrorCode::InvalidMilestoneIndex => r@ == "Invalid milestone index"@,
            ErrorCode::MilestoneAlreadyReleased => r@ == "Milestone already released"@,
            ErrorCode::InvalidDifficulty => r@ == "Invalid difficulty level (1-5)"@,
            ErrorCode::TerritoryNotActive => r@ == "Territory is not active"@,
            ErrorCode::BattleNotActive => r@ == "Battle is not active"@,
            },
    {
        match self {
            ErrorCode::TooManyFounders => "Too many founders in team (max 10)",
            ErrorCode::InvalidThreshold => "Invalid threshold value",
            ErrorCode::UnauthorizedFounder => "Unauthorized founder",
            ErrorCode::AlreadyVoted => "Already voted on this proposal",
            ErrorCode::ProposalNotActive => "Proposal is not active",
            ErrorCode::ProposalExpired => "Proposal has expired",
            ErrorCode::ProposalNotApproved => "Proposal is not approved",
            ErrorCode::TooManyMilestones => "Too many milestones (max 10)",
            ErrorCode::InvalidMilestonePercentages => "Milestone percentages must sum to 100",
            ErrorCode::EscrowNotActive => "Escrow is not active",
            ErrorCode::InvalidMilestoneIndex => "Invalid milestone index",
            ErrorCode::MilestoneAlreadyReleased => "Milestone already released",
            ErrorCode::InvalidDifficulty => "Invalid difficulty level (1-5)",
            ErrorCode::TerritoryNotActive => "Territory is not active",
            ErrorCode::BattleNotActive => "Battle is not active",
        }
    }
}

} // verus!
