use vstd::prelude::*;

use crate::error::ErrorCode;
use crate::key::{contains_key, Pubkey};

verus! {

/// Most founders a vault can have.
pub const MAX_FOUNDERS: usize = 10;

/// How long a proposal stays open for votes, in seconds (seven days).
pub const PROPOSAL_LIFETIME: i64 = 7 * 24 * 60 * 60;

/// A fund shared by a fixed set of founders; moving money out of it needs
/// `threshold` supporting votes.
pub struct TeamVault {
    pub team_id: String,
    pub name: String,
    pub founders: Vec<Pubkey>,
    pub threshold: u8,
    pub total_funds: u64,
    pub proposal_count: u64,
    pub bump: u8,
    pub created_at: i64,
    pub is_active: bool,
}

/// One founder's vote on a proposal.
#[derive(Clone, Copy, Debug)]
pub struct Vote {
    pub voter: Pubkey,
    pub support: bool,
    pub timestamp: i64,
}

/// What a proposal asks the vault to do.
#[derive(Clone, Copy, Debug, PartialEq, Eq, Structural)]
pub enum ProposalType {
    Transfer,
}

/// Where a proposal stands in its life.
#[derive(Clone, Copy, Debug, PartialEq, Eq, Structural)]
pub enum ProposalStatus {
    Pending,
    Approved,
    Rejected,
    Executed,
    Expired,
}

/// A proposed payment out of a vault, and the founders' votes on it.
pub struct Proposal {
    pub team_vault: Pubkey,
    pub proposer: Pubkey,
    pub title: String,
    pub description: String,
    pub recipient: Pubkey,
    pub amount: u64,
    pub proposal_type: ProposalType,
    pub votes: Vec<Vote>,
    pub status: ProposalStatus,
    pub created_at: i64,
    pub expires_at: i64,
    pub executed_at: Option<i64>,
}

/// A proposal as a mathematical value.
pub struct ProposalView {
    pub team_vault: Pubkey,
    pub proposer: Pubkey,
    pub title: Seq<char>,
    pub description: Seq<char>,
    pub recipient: Pubkey,
    pub amount: u64,
    pub proposal_type: ProposalType,
    pub votes: Seq<Vote>,
    pub status: ProposalStatus,
    pub created_at: i64,
    pub expires_at: i64,
    pub executed_at: Option<i64>,
}

impl View for Proposal {
    type V = ProposalView;

    open spec fn view(&self) -> ProposalView {
        ProposalView {
            team_vault: self.team_vault,
            proposer: self.proposer,
            title: self.title@,
            description: self.description@,
            recipient: self.recipient,
            amount: self.amount,
            proposal_type: self.proposal_type,
            votes: self.votes@,
            status: self.status,
            created_at: self.created_at,
            expires_at: self.expires_at,
            executed_at: self.executed_at,
        }
    }
}

/// A founder set of `n` members with approval threshold `threshold` is
/// acceptable.
pub open spec fn valid_governance(n: nat, threshold: u8) -> bool {
    &&& n <= MAX_FOUNDERS
    &&& 1 <= threshold <= n
}

impl TeamVault {
    /// The vault's founder set and threshold are acceptable.
    pub open spec fn wf(&self) -> bool {
        &&& valid_governance(self.founders@.len(), self.threshold)
        &&& self.founders@.no_duplicates()
    }
}

/// Number of supporting votes in `votes`.
pub open spec fn support_count(votes: Seq<Vote>) -> nat
    decreases votes.len(),
{
    if votes.len() == 0 {
        0
    } else {
        support_count(votes.drop_last()) + if votes.last().support {
            1nat
        } else {
            0nat
        }
    }
}

/// `voter` has a vote in `votes`.
pub open spec fn has_voted(votes: Seq<Vote>, voter: Pubkey) -> bool {
    exists|i: int| 0 <= i < votes.len() && votes[i].voter == voter
}

/// A proposal of `vault` is consistent with it: while it is pending, its
/// supporting votes are fewer than the threshold.
pub open spec fn proposal_consistent(vault: TeamVault, p: ProposalView) -> bool {
    p.status == ProposalStatus::Pending ==> support_count(p.votes) < vault.threshold
}

/// Why `voter` may not vote on `p` at time `now`, if there is a reason.
pub open spec fn vote_refusal(vault: TeamVault, p: ProposalView, voter: Pubkey, now: i64) -> Option<
    ErrorCode,
> {
    if !vault.founders@.contains(voter) {
        Some(ErrorCode::UnauthorizedFounder)
    } else if has_voted(p.votes, voter) {
        Some(ErrorCode::AlreadyVoted)
    } else if p.status != ProposalStatus::Pending {
        Some(ErrorCode::ProposalNotActive)
    } else if now >= p.expires_at {
        Some(ErrorCode::ProposalExpired)
    } else {
        None
    }
}

/// `p` once the vote has been recorded: approved if the supporting votes now
/// reach the threshold, otherwise still pending.
pub open spec fn with_vote(
    vault: TeamVault,
    p: ProposalView,
    voter: Pubkey,
    support: bool,
    now: i64,
) -> ProposalView {
    let votes = p.votes.push(Vote { voter, support, timestamp: now });
    ProposalView {
        votes,
        status: if support_count(votes) >= vault.threshold {
            ProposalStatus::Approved
        } else {
            ProposalStatus::Pending
        },
        ..p
    }
}

/// The outcome of `voter` voting `support` on `p` at time `now`.
pub open spec fn vote_outcome(
    vault: TeamVault,
    p: ProposalView,
    voter: Pubkey,
    support: bool,
    now: i64,
) -> Result<ProposalView, ErrorCode> {
    match vote_refusal(vault, p, voter, now) {
        Some(e) => Err(e),
        None => Ok(with_vote(vault, p, voter, support, now)),
    }
}

/// The outcome of executing `p` at time `now`.
pub open spec fn execute_outcome(p: ProposalView, now: i64) -> Result<ProposalView, ErrorCode> {
    if p.status == ProposalStatus::Approved {
        Ok(ProposalView { status: ProposalStatus::Executed, executed_at: Some(now), ..p })
    } else {
        Err(ErrorCode::ProposalNotApproved)
    }
}

proof fn lemma_support_count_push(votes: Seq<Vote>, v: Vote)
    ensures
        support_count(votes.push(v)) == support_count(votes) + if v.support {
            1nat
        } else {
            0nat
        },
{
    assert(votes.push(v).drop_last() =~= votes);
}

/// A founder whose vote on a proposal was recorded cannot vote on it again,
/// whatever the second vote says and whenever it comes.
pub proof fn lemma_second_vote_refused(
    vault: TeamVault,
    p: ProposalView,
    voter: Pubkey,
    first: bool,
    second: bool,
    t1: i64,
    t2: i64,
)
    ensures
        vote_outcome(vault, p, voter, first, t1) matches Ok(p2) ==> vote_outcome(
            vault,
            p2,
            voter,
            second,
            t2,
        ) == Err::<ProposalView, ErrorCode>(ErrorCode::AlreadyVoted),
{
    if let Ok(p2) = vote_outcome(vault, p, voter, first, t1) {
        assert(p2.votes[p.votes.len() as int].voter == voter);
        assert(has_voted(p2.votes, voter));
    }
}

/// A proposal is approved in exactly the vote that first brings its
/// supporting votes up to the vault's threshold: a vote that leaves them
/// below it leaves the proposal pending, and a proposal that is no longer
/// pending takes no more votes, so approval is never undone.
pub proof fn lemma_approval_at_threshold(
    vault: TeamVault,
    p: ProposalView,
    voter: Pubkey,
    support: bool,
    now: i64,
)
    requires
        proposal_consistent(vault, p),
    ensures
        vote_outcome(vault, p, voter, support, now) matches Ok(p2) ==> {
            &&& proposal_consistent(vault, p2)
            &&& support_count(p.votes) < vault.threshold
            &&& (p2.status == ProposalStatus::Approved <==> support_count(p2.votes)
                >= vault.threshold)
            &&& (p2.status == ProposalStatus::Pending <==> support_count(p2.votes)
                < vault.threshold)
        },
        p.status != ProposalStatus::Pending ==> vote_outcome(vault, p, voter, support, now) is Err,
{
}

/// Only an approved proposal executes, and once executed it is never
/// executed again.
pub proof fn lemma_execute_once(p: ProposalView, t1: i64, t2: i64)
    ensures
        p.status != ProposalStatus::Approved ==> execute_outcome(p, t1) == Err::<
            ProposalView,
            ErrorCode,
        >(ErrorCode::ProposalNotApproved),
        execute_outcome(p, t1) matches Ok(p2) ==> {
            &&& p2.amount == p.amount
            &&& p2.recipient == p.recipient
            &&& execute_outcome(p2, t2) == Err::<ProposalView, ErrorCode>(
                ErrorCode::ProposalNotApproved,
            )
        },
{
}

/// Creates a vault for `founders`, who approve payments by `threshold`
/// supporting votes. The founders must be distinct (see
/// `has_duplicate_keys`).
pub fn initialize_team_vault(
    team_id: String,
    name: String,
    founders: Vec<Pubkey>,
    threshold: u8,
    bump: u8,
    now: i64,
) -> (r: Result<TeamVault, ErrorCode>)
    requires
        founders@.no_duplicates(),
    ensures
        r is Ok <==> valid_governance(founders@.len(), threshold),
        founders@.len() > MAX_FOUNDERS ==> r == Err::<TeamVault, ErrorCode>(
            ErrorCode::TooManyFounders,
        ),
        founders@.len() <= MAX_FOUNDERS && !valid_governance(founders@.len(), threshold) ==> r
            == Err::<TeamVault, ErrorCode>(ErrorCode::InvalidThreshold),
        r matches Ok(v) ==> {
            &&& v.wf()
            &&& v.team_id@ == team_id@
            &&& v.name@ == name@
            &&& v.founders@ == founders@
            &&& v.threshold == threshold
            &&& v.total_funds == 0
            &&& v.proposal_count == 0
            &&& v.bump == bump
            &&& v.created_at == now
            &&& v.is_active
        },
{
    if founders.len() > MAX_FOUNDERS {
        return Err(ErrorCode::TooManyFounders);
    }
    if threshold == 0 || threshold as usize > founders.len() {
        return Err(ErrorCode::InvalidThreshold);
    }
    Ok(
        TeamVault {
            team_id,
            name,
            founders,
            threshold,
            total_funds: 0,
            proposal_count: 0,
            bump,
            created_at: now,
            is_active: true,
        },
    )
}

/// Opens a payment proposal on `vault`, whose account is `vault_key`. Only a
/// founder may propose; the proposal is pending, with no votes, and open for
/// votes until `now + PROPOSAL_LIFETIME`. A proposal asks for a positive
/// amount.
pub fn create_proposal(
    vault: &mut TeamVault,
    vault_key: Pubkey,
    proposer: Pubkey,
    title: String,
    description: String,
    recipient: Pubkey,
    amount: u64,
    proposal_type: ProposalType,
    now: i64,
) -> (r: Result<Proposal, ErrorCode>)
    requires
        amount > 0,
        old(vault).proposal_count < u64::MAX,
        now <= i64::MAX - PROPOSAL_LIFETIME,
    ensures
        r is Ok <==> old(vault).founders@.contains(proposer),
        r matches Err(e) ==> e == ErrorCode::UnauthorizedFounder && *final(vault) == *old(vault),
        r matches Ok(p) ==> {
            &&& p@ == (ProposalView {
                team_vault: vault_key,
                proposer,
                title: title@,
                description: description@,
                recipient,
                amount,
                proposal_type,
                votes: Seq::empty(),
                status: ProposalStatus::Pending,
                created_at: now,
                expires_at: (now + PROPOSAL_LIFETIME) as i64,
                executed_at: None,
            })
            &&& final(vault).proposal_count == old(vault).proposal_count + 1
            &&& final(vault).founders@ == old(vault).founders@
            &&& final(vault).threshold == old(vault).threshold
            &&& final(vault).team_id == old(vault).team_id
            &&& final(vault).name == old(vault).name
            &&& final(vault).total_funds == old(vault).total_funds
            &&& final(vault).bump == old(vault).bump
            &&& final(vault).created_at == old(vault).created_at
            &&& final(vault).is_active == old(vault).is_active
            &&& old(vault).wf() ==> proposal_consistent(*final(vault), p@)
        },
{
    if !contains_key(&vault.founders, &proposer) {
        return Err(ErrorCode::UnauthorizedFounder);
    }
    vault.proposal_count = vault.proposal_count + 1;
    Ok(
        Proposal {
            team_vault: vault_key,
            proposer,
            title,
            description,
            recipient,
            amount,
            proposal_type,
            votes: Vec::new(),
            status: ProposalStatus::Pending,
            created_at: now,
            expires_at: now + PROPOSAL_LIFETIME,
            executed_at: None,
        },
    )
}

/// Whether `voter` has a vote in `votes`.
fn find_voter(votes: &Vec<Vote>, voter: &Pubkey) -> (r: bool)
    ensures
        r == has_voted(votes@, *voter),
{
    let mut i: usize = 0;
    while i < votes.len()
        invariant
            i <= votes@.len(),
            forall|j: int| 0 <= j < i ==> votes@[j].voter != *voter,
        decreases votes@.len() - i,
    {
        if votes[i].voter == *voter {
            return true;
        }
        i += 1;
    }
    false
}

/// Number of supporting votes in `votes`.
fn count_support(votes: &Vec<Vote>) -> (r: usize)
    ensures
        r == support_count(votes@),
{
    let mut n: usize = 0;
    let mut i: usize = 0;
    while i < votes.len()
        invariant
            i <= votes@.len(),
            n == support_count(votes@.subrange(0, i as int)),
            n <= i,
        decreases votes@.len() - i,
    {
        proof {
            lemma_support_count_push(votes@.subrange(0, i as int), votes@[i as int]);
            assert(votes@.subrange(0, i as int).push(votes@[i as int]) =~= votes@.subrange(
                0,
                i + 1,
            ));
        }
        if votes[i].support {
            n = n + 1;
        }
        i += 1;
    }
    assert(votes@.subrange(0, votes@.len() as int) =~= votes@);
    n
}

/// Records `voter`'s vote on `proposal` at time `now`. The proposal becomes
/// approved in this very call if its supporting votes reach the vault's
/// threshold. Returns the number of supporting votes after the vote.
pub fn vote_on_proposal(
    vault: &TeamVault,
    proposal: &mut Proposal,
    voter: Pubkey,
    support: bool,
    now: i64,
) -> (r: Result<usize, ErrorCode>)
    ensures
        match vote_outcome(*vault, old(proposal)@, voter, support, now) {
            Ok(p) => final(proposal)@ == p && r == Ok::<usize, ErrorCode>(
                support_count(p.votes) as usize,
            ),
            Err(e) => final(proposal)@ == old(proposal)@ && r == Err::<usize, ErrorCode>(e),
        },
{
    if !contains_key(&vault.founders, &voter) {
        return Err(ErrorCode::UnauthorizedFounder);
    }
    if find_voter(&proposal.votes, &voter) {
        return Err(ErrorCode::AlreadyVoted);
    }
    if proposal.status != ProposalStatus::Pending {
        return Err(ErrorCode::ProposalNotActive);
    }
    if now >= proposal.expires_at {
        return Err(ErrorCode::ProposalExpired);
    }
    proposal.votes.push(Vote { voter, support, timestamp: now });
    let n = count_support(&proposal.votes);
    if n >= vault.threshold as usize {
        proposal.status = ProposalStatus::Approved;
    }
    Ok(n)
}

/// Executes an approved proposal at time `now`: marks it executed and
/// returns the amount that must be paid from the vault to its recipient.
pub fn execute_proposal(proposal: &mut Proposal, now: i64) -> (r: Result<u64, ErrorCode>)
    ensures
        match execute_outcome(old(proposal)@, now) {
            Ok(p) => final(proposal)@ == p && r == Ok::<u64, ErrorCode>(old(proposal).amount),
            Err(e) => final(proposal)@ == old(proposal)@ && r == Err::<u64, ErrorCode>(e),
        },
{
    if proposal.status != ProposalStatus::Approved {
        return Err(ErrorCode::ProposalNotApproved);
    }
    let amount = match proposal.proposal_type {
        ProposalType::Transfer => proposal.amount,
    };
    proposal.status = ProposalStatus::Executed;
    proposal.executed_at = Some(now);
    Ok(amount)
}

} // verus!
