use vstd::prelude::*;

use crate::error::ErrorCode;
use crate::key::Pubkey;

verus! {

/// Most milestones an escrow can have.
pub const MAX_MILESTONES: usize = 10;

/// A share of an escrow's total, paid out once.
#[derive(Clone, Debug)]
pub struct Milestone {
    pub title: String,
    pub description: String,
    /// Percentage of the escrow's total, from 0 to 100.
    pub percentage: u16,
    pub released: bool,
    pub released_at: Option<i64>,
}

/// Where an escrow stands in its life.
#[derive(Clone, Copy, Debug, PartialEq, Eq, Structural)]
pub enum EscrowStatus {
    Active,
    Completed,
    Cancelled,
}

/// Funds deposited by a sponsor and paid out milestone by milestone.
pub struct SponsorEscrow {
    pub quest_id: String,
    pub sponsor: Pubkey,
    pub total_amount: u64,
    pub released_amount: u64,
    pub milestones: Vec<Milestone>,
    pub status: EscrowStatus,
    pub bump: u8,
    pub created_at: i64,
}

/// An escrow as a mathematical value.
pub struct EscrowView {
    pub quest_id: Seq<char>,
    pub sponsor: Pubkey,
    pub total_amount: u64,
    pub released_amount: u64,
    pub milestones: Seq<Milestone>,
    pub status: EscrowStatus,
    pub bump: u8,
    pub created_at: i64,
}

impl View for SponsorEscrow {
    type V = EscrowView;

    open spec fn view(&self) -> EscrowView {
        EscrowView {
            quest_id: self.quest_id@,
            sponsor: self.sponsor,
            total_amount: self.total_amount,
            released_amount: self.released_amount,
            milestones: self.milestones@,
            status: self.status,
            bump: self.bump,
            created_at: self.created_at,
        }
    }
}

/// Sum of the percentages of `ms`.
pub open spec fn percent_sum(ms: Seq<Milestone>) -> nat
    decreases ms.len(),
{
    if ms.len() == 0 {
        0
    } else {
        percent_sum(ms.drop_last()) + ms.last().percentage as nat
    }
}

/// Sum of the percentages of the milestones of `ms` not yet paid out.
pub open spec fn unreleased_percent(ms: Seq<Milestone>) -> nat
    decreases ms.len(),
{
    if ms.len() == 0 {
        0
    } else {
        unreleased_percent(ms.drop_last()) + if ms.last().released {
            0nat
        } else {
            ms.last().percentage as nat
        }
    }
}

/// Every milestone of `ms` has been paid out.
pub open spec fn all_released(ms: Seq<Milestone>) -> bool {
    forall|i: int| 0 <= i < ms.len() ==> #[trigger] ms[i].released
}

/// What a milestone of `percentage` percent pays out of `total`, rounded
/// down.
pub open spec fn milestone_payout(total: u64, percentage: u16) -> nat {
    (total * percentage) as nat / 100
}

/// A set of milestones that an escrow accepts.
pub open spec fn valid_milestones(ms: Seq<Milestone>) -> bool {
    ms.len() <= MAX_MILESTONES && percent_sum(ms) == 100
}

impl EscrowView {
    /// The milestones are acceptable, and what has been paid out leaves room
    /// for every milestone still to be paid.
    pub open spec fn wf(self) -> bool {
        &&& valid_milestones(self.milestones)
        &&& 100 * self.released_amount + self.total_amount * unreleased_percent(self.milestones)
            <= 100 * self.total_amount
    }
}

/// `ms` with milestone `i` marked paid out at time `now`.
pub open spec fn mark_released(ms: Seq<Milestone>, i: int, now: i64) -> Seq<Milestone> {
    ms.update(i, Milestone { released: true, released_at: Some(now), ..ms[i] })
}

/// Why milestone `i` of `e` may not be paid out, if there is a reason.
pub open spec fn release_refusal(e: EscrowView, i: int) -> Option<ErrorCode> {
    if e.status != EscrowStatus::Active {
        Some(ErrorCode::EscrowNotActive)
    } else if i < 0 || i >= e.milestones.len() {
        Some(ErrorCode::InvalidMilestoneIndex)
    } else if e.milestones[i].released {
        Some(ErrorCode::MilestoneAlreadyReleased)
    } else {
        None
    }
}

/// `e` once milestone `i` has been paid out at time `now`; it is completed
/// when no milestone is left to pay.
pub open spec fn with_release(e: EscrowView, i: int, now: i64) -> EscrowView {
    let ms = mark_released(e.milestones, i, now);
    EscrowView {
        milestones: ms,
        released_amount: (e.released_amount + milestone_payout(
            e.total_amount,
            e.milestones[i].percentage,
        )) as u64,
        status: if all_released(ms) {
            EscrowStatus::Completed
        } else {
            EscrowStatus::Active
        },
        ..e
    }
}

/// The outcome of paying out milestone `i` of `e` at time `now`: the new
/// escrow and the amount paid.
pub open spec fn release_outcome(e: EscrowView, i: int, now: i64) -> Result<
    (EscrowView, u64),
    ErrorCode,
> {
    match release_refusal(e, i) {
        Some(err) => Err(err),
        None => Ok(
            (
                with_release(e, i, now),
                milestone_payout(e.total_amount, e.milestones[i].percentage) as u64,
            ),
        ),
    }
}

proof fn lemma_unreleased_le_sum(ms: Seq<Milestone>)
    ensures
        unreleased_percent(ms) <= percent_sum(ms),
    decreases ms.len(),
{
    if ms.len() > 0 {
        lemma_unreleased_le_sum(ms.drop_last());
    }
}

/// Marking one unpaid milestone paid keeps the percentage sum and takes its
/// percentage out of the unpaid sum.
proof fn lemma_mark_released(ms: Seq<Milestone>, i: int, now: i64)
    requires
        0 <= i < ms.len(),
        !ms[i].released,
    ensures
        percent_sum(mark_released(ms, i, now)) == percent_sum(ms),
        unreleased_percent(mark_released(ms, i, now)) + ms[i].percentage == unreleased_percent(
            ms,
        ),
    decreases ms.len(),
{
    let ms2 = mark_released(ms, i, now);
    if i == ms.len() - 1 {
        assert(ms2.drop_last() =~= ms.drop_last());
    } else {
        lemma_mark_released(ms.drop_last(), i, now);
        assert(ms2.drop_last() =~= mark_released(ms.drop_last(), i, now));
    }
}

/// Paying out an unpaid milestone of a well-formed escrow fits in what was
/// deposited, and leaves the escrow well-formed.
proof fn lemma_release_keeps_wf(e: EscrowView, i: int, now: i64)
    requires
        e.wf(),
        release_refusal(e, i) is None,
    ensures
        e.released_amount + milestone_payout(e.total_amount, e.milestones[i].percentage)
            <= e.total_amount,
        (e.total_amount * e.milestones[i].percentage) as nat <= e.total_amount * 100,
        with_release(e, i, now).wf(),
{
    let ms = e.milestones;
    let total = e.total_amount as int;
    let pct = ms[i].percentage as int;
    let released = e.released_amount as int;
    lemma_mark_released(ms, i, now);
    lemma_unreleased_le_sum(ms);
    let u = unreleased_percent(ms) as int;
    let u2 = unreleased_percent(mark_released(ms, i, now)) as int;
    let amount = milestone_payout(e.total_amount, ms[i].percentage) as int;
    assert(0 <= total * pct <= total * 100) by (nonlinear_arith)
        requires
            0 <= pct <= 100,
            0 <= total,
    ;
    assert(100 * amount <= total * pct) by (nonlinear_arith)
        requires
            amount == (total * pct) / 100,
            0 <= total * pct,
    ;
    assert(total * u == total * u2 + total * pct) by (nonlinear_arith)
        requires
            u == u2 + pct,
    ;
    assert(total * u2 >= 0) by (nonlinear_arith)
        requires
            total >= 0,
            u2 >= 0,
    ;
    assert(100 * (released + amount) + total * u2 <= 100 * total);
}

/// A milestone pays out once: a release that succeeds pays the milestone's
/// share of the total, rounded down, and a second release of it is refused
/// and pays nothing. While the escrow is still active, the refusal says that
/// the milestone was already paid.
pub proof fn lemma_release_once(e: EscrowView, i: int, t1: i64, t2: i64)
    requires
        e.wf(),
    ensures
        release_outcome(e, i, t1) matches Ok((e2, amount)) ==> {
            &&& amount == milestone_payout(e.total_amount, e.milestones[i].percentage)
            &&& e2.released_amount == e.released_amount + amount
            &&& (e2.status == EscrowStatus::Completed <==> all_released(e2.milestones))
            &&& release_outcome(e2, i, t2) is Err
            &&& e2.status == EscrowStatus::Active ==> release_outcome(e2, i, t2) == Err::<
                (EscrowView, u64),
                ErrorCode,
            >(ErrorCode::MilestoneAlreadyReleased)
        },
{
    if release_refusal(e, i) is None {
        lemma_release_keeps_wf(e, i, t1);
    }
}

/// Paying out two milestones ends in the same escrow, with the same total
/// paid, whichever of the two is paid first.
pub proof fn lemma_release_order_independent(e: EscrowView, i: int, j: int, ti: i64, tj: i64)
    requires
        e.wf(),
        i != j,
        release_refusal(e, i) is None,
        release_refusal(e, j) is None,
    ensures
        match (release_outcome(e, i, ti), release_outcome(e, j, tj)) {
            (Ok((ei, ai)), Ok((ej, aj))) => match (
                release_outcome(ei, j, tj),
                release_outcome(ej, i, ti),
            ) {
                (Ok((eij, aij)), Ok((eji, aji))) => eij == eji && ai + aij == aj + aji,
                _ => false,
            },
            _ => false,
        },
{
    let ms = e.milestones;
    lemma_release_keeps_wf(e, i, ti);
    lemma_release_keeps_wf(e, j, tj);
    let ei = with_release(e, i, ti);
    let ej = with_release(e, j, tj);
    assert(!ei.milestones[j].released);
    assert(!ej.milestones[i].released);
    lemma_release_keeps_wf(ei, j, tj);
    lemma_release_keeps_wf(ej, i, ti);
    let eij = with_release(ei, j, tj);
    let eji = with_release(ej, i, ti);
    assert(eij.milestones =~= eji.milestones);
    assert(eij.released_amount == eji.released_amount);
    assert(eij == eji);
}

/// The outcome of paying out the milestones of `e` one after another in
/// `order`, milestone `j` at time `times[j]`.
pub open spec fn apply_releases(e: EscrowView, order: Seq<int>, times: Seq<i64>) -> Result<
    EscrowView,
    ErrorCode,
>
    decreases order.len(),
{
    if order.len() == 0 {
        Ok(e)
    } else {
        match release_outcome(e, order[0], times[order[0]]) {
            Ok((e2, _)) => apply_releases(e2, order.drop_first(), times),
            Err(err) => Err(err),
        }
    }
}

/// Sum of the shares of `total` that the first `n` milestones of `ms` pay
/// out.
pub open spec fn all_shares(ms: Seq<Milestone>, total: u64, n: nat) -> nat
    decreases n,
{
    if n == 0 {
        0
    } else {
        all_shares(ms, total, (n - 1) as nat) + milestone_payout(total, ms[n - 1].percentage)
    }
}

/// `ms` with every milestone paid out, milestone `j` at time `times[j]`.
pub open spec fn all_marked(ms: Seq<Milestone>, times: Seq<i64>) -> Seq<Milestone> {
    Seq::new(
        ms.len(),
        |j: int| Milestone { released: true, released_at: Some(times[j]), ..ms[j] },
    )
}

/// Sum of the shares of `total` that the milestones among the first `n` of
/// `ms` whose index is in `chosen` pay out.
spec fn shares_among(ms: Seq<Milestone>, total: u64, chosen: Seq<int>, n: nat) -> nat
    decreases n,
{
    if n == 0 {
        0
    } else {
        shares_among(ms, total, chosen, (n - 1) as nat) + if chosen.contains(n - 1) {
            milestone_payout(total, ms[n - 1].percentage)
        } else {
            0
        }
    }
}

/// `ms` with the milestones whose index is in `chosen` paid out, milestone
/// `j` at time `times[j]`.
spec fn marked_among(ms: Seq<Milestone>, chosen: Seq<int>, times: Seq<i64>) -> Seq<Milestone> {
    Seq::new(
        ms.len(),
        |j: int|
            if chosen.contains(j) {
                Milestone { released: true, released_at: Some(times[j]), ..ms[j] }
            } else {
                ms[j]
            },
    )
}

proof fn lemma_shares_same_percentages(
    a: Seq<Milestone>,
    b: Seq<Milestone>,
    total: u64,
    chosen: Seq<int>,
    n: nat,
)
    requires
        n <= a.len(),
        n <= b.len(),
        forall|j: int| 0 <= j < n ==> a[j].percentage == b[j].percentage,
    ensures
        shares_among(a, total, chosen, n) == shares_among(b, total, chosen, n),
    decreases n,
{
    if n > 0 {
        lemma_shares_same_percentages(a, b, total, chosen, (n - 1) as nat);
    }
}

proof fn lemma_shares_split(ms: Seq<Milestone>, total: u64, order: Seq<int>, n: nat)
    requires
        order.len() > 0,
        order.no_duplicates(),
        n <= ms.len(),
    ensures
        shares_among(ms, total, order, n) == shares_among(ms, total, order.drop_first(), n) + if 0
            <= order[0] < n {
            milestone_payout(total, ms[order[0]].percentage)
        } else {
            0
        },
    decreases n,
{
    lemma_contains_split(order);
    if n > 0 {
        lemma_shares_split(ms, total, order, (n - 1) as nat);
    }
}

proof fn lemma_shares_all(ms: Seq<Milestone>, total: u64, chosen: Seq<int>, n: nat)
    requires
        forall|j: int| 0 <= j < n ==> chosen.contains(j),
    ensures
        shares_among(ms, total, chosen, n) == all_shares(ms, total, n),
    decreases n,
{
    if n > 0 {
        lemma_shares_all(ms, total, chosen, (n - 1) as nat);
    }
}

/// An index is in a non-empty duplicate-free sequence exactly when it is its
/// first element or in the rest, and never in both.
proof fn lemma_contains_split(order: Seq<int>)
    requires
        order.len() > 0,
        order.no_duplicates(),
    ensures
        forall|j: int|
            #[trigger] order.contains(j) <==> (j == order[0] || order.drop_first().contains(j)),
        !order.drop_first().contains(order[0]),
{
    let rest = order.drop_first();
    assert forall|j: int| #[trigger] order.contains(j) implies (j == order[0] || rest.contains(j)) by {
        let k = choose|k: int| 0 <= k < order.len() && order[k] == j;
        if k > 0 {
            assert(rest[k - 1] == j);
        }
    }
    assert forall|j: int| rest.contains(j) implies #[trigger] order.contains(j) by {
        let k = choose|k: int| 0 <= k < rest.len() && rest[k] == j;
        assert(order[k + 1] == j);
    }
    assert(order[0] == order[0]);
    if rest.contains(order[0]) {
        let k = choose|k: int| 0 <= k < rest.len() && rest[k] == order[0];
        assert(order[k + 1] == order[0]);
    }
}

/// Paying out distinct unpaid milestones one after another succeeds at every
/// step; it marks exactly those milestones and adds exactly their shares.
proof fn lemma_apply_releases(e: EscrowView, order: Seq<int>, times: Seq<i64>)
    requires
        e.wf(),
        order.len() > 0 ==> e.status == EscrowStatus::Active,
        order.no_duplicates(),
        forall|k: int|
            0 <= k < order.len() ==> 0 <= #[trigger] order[k] < e.milestones.len()
                && !e.milestones[order[k]].released,
    ensures
        apply_releases(e, order, times) matches Ok(f) && {
            &&& f.wf()
            &&& f.milestones == marked_among(e.milestones, order, times)
            &&& f.released_amount == e.released_amount + shares_among(
                e.milestones,
                e.total_amount,
                order,
                e.milestones.len(),
            )
            &&& f.quest_id == e.quest_id
            &&& f.sponsor == e.sponsor
            &&& f.total_amount == e.total_amount
            &&& f.bump == e.bump
            &&& f.created_at == e.created_at
            &&& order.len() > 0 ==> f.status == if all_released(f.milestones) {
                EscrowStatus::Completed
            } else {
                EscrowStatus::Active
            }
        },
    decreases order.len(),
{
    let n = e.milestones.len();
    if order.len() == 0 {
        assert(marked_among(e.milestones, order, times) =~= e.milestones);
        assert(shares_among(e.milestones, e.total_amount, order, n) == 0) by {
            lemma_shares_all_absent(e.milestones, e.total_amount, order, n);
        }
    } else {
        let i = order[0];
        let rest = order.drop_first();
        lemma_contains_split(order);
        lemma_release_keeps_wf(e, i, times[i]);
        let e2 = with_release(e, i, times[i]);
        assert forall|k: int| 0 <= k < rest.len() implies 0 <= #[trigger] rest[k] < n
            && !e2.milestones[rest[k]].released by {
            assert(rest[k] == order[k + 1]);
            assert(rest.contains(rest[k]));
        }
        if rest.len() > 0 {
            assert(!e2.milestones[rest[0]].released);
        }
        lemma_apply_releases(e2, rest, times);
        lemma_shares_same_percentages(e2.milestones, e.milestones, e.total_amount, rest, n);
        lemma_shares_split(e.milestones, e.total_amount, order, n);
        let f = apply_releases(e2, rest, times)->Ok_0;
        assert(f.milestones =~= marked_among(e.milestones, order, times));
    }
}

proof fn lemma_shares_all_absent(ms: Seq<Milestone>, total: u64, chosen: Seq<int>, n: nat)
    requires
        chosen.len() == 0,
    ensures
        shares_among(ms, total, chosen, n) == 0,
    decreases n,
{
    if n > 0 {
        lemma_shares_all_absent(ms, total, chosen, (n - 1) as nat);
    }
}

/// Paying out every milestone of an active escrow with none paid yet, once
/// each and in any order, succeeds at every step and completes the escrow.
/// Each milestone ends stamped with its own release time and what has been
/// paid grows by the sum of all the milestones' shares, so the final escrow
/// does not depend on the order.
pub proof fn lemma_release_all_in_any_order(e: EscrowView, order: Seq<int>, times: Seq<i64>)
    requires
        e.wf(),
        e.status == EscrowStatus::Active,
        forall|j: int| 0 <= j < e.milestones.len() ==> !#[trigger] e.milestones[j].released,
        order.no_duplicates(),
        forall|k: int| 0 <= k < order.len() ==> 0 <= #[trigger] order[k] < e.milestones.len(),
        forall|j: int| 0 <= j < e.milestones.len() ==> #[trigger] order.contains(j),
    ensures
        apply_releases(e, order, times) == Ok::<EscrowView, ErrorCode>(
            EscrowView {
                milestones: all_marked(e.milestones, times),
                released_amount: (e.released_amount + all_shares(
                    e.milestones,
                    e.total_amount,
                    e.milestones.len(),
                )) as u64,
                status: EscrowStatus::Completed,
                ..e
            },
        ),
{
    let n = e.milestones.len();
    assert(n > 0);
    assert(order.contains(0));
    lemma_apply_releases(e, order, times);
    lemma_shares_all(e.milestones, e.total_amount, order, n);
    let f = apply_releases(e, order, times)->Ok_0;
    assert(f.milestones =~= all_marked(e.milestones, times));
    assert(all_released(f.milestones));
}

/// Opens an escrow of `total_amount` from `sponsor`, to be paid out along
/// `milestones`. The caller deposits `total_amount` into the escrow's custody
/// together with storing the escrow.
pub fn initialize_sponsor_escrow(
    quest_id: String,
    sponsor: Pubkey,
    total_amount: u64,
    milestones: Vec<Milestone>,
    bump: u8,
    now: i64,
) -> (r: Result<SponsorEscrow, ErrorCode>)
    ensures
        r is Ok <==> valid_milestones(milestones@),
        milestones@.len() > MAX_MILESTONES ==> r == Err::<SponsorEscrow, ErrorCode>(
            ErrorCode::TooManyMilestones,
        ),
        milestones@.len() <= MAX_MILESTONES && percent_sum(milestones@) != 100 ==> r == Err::<
            SponsorEscrow,
            ErrorCode,
        >(ErrorCode::InvalidMilestonePercentages),
        r matches Ok(e) ==> {
            &&& e@ == (EscrowView {
                quest_id: quest_id@,
                sponsor,
                total_amount,
                released_amount: 0,
                milestones: milestones@,
                status: EscrowStatus::Active,
                bump,
                created_at: now,
            })
            &&& e@.wf()
        },
{
    if milestones.len() > MAX_MILESTONES {
        return Err(ErrorCode::TooManyMilestones);
    }
    let mut sum: u32 = 0;
    let mut i: usize = 0;
    while i < milestones.len()
        invariant
            i <= milestones@.len() <= MAX_MILESTONES,
            sum == percent_sum(milestones@.subrange(0, i as int)),
            sum <= 65535 * i,
        decreases milestones@.len() - i,
    {
        assert(milestones@.subrange(0, i + 1).drop_last() =~= milestones@.subrange(0, i as int));
        sum = sum + milestones[i].percentage as u32;
        i += 1;
    }
    assert(milestones@.subrange(0, milestones@.len() as int) =~= milestones@);
    if sum != 100 {
        return Err(ErrorCode::InvalidMilestonePercentages);
    }
    proof {
        lemma_unreleased_le_sum(milestones@);
        let u = unreleased_percent(milestones@);
        assert(total_amount * u <= total_amount * 100) by (nonlinear_arith)
            requires
                u <= 100,
        ;
    }
    Ok(
        SponsorEscrow {
            quest_id,
            sponsor,
            total_amount,
            released_amount: 0,
            milestones,
            status: EscrowStatus::Active,
            bump,
            created_at: now,
        },
    )
}

/// Sum of the percentages of `ms`, and of those not yet paid out.
fn percent_sums(ms: &Vec<Milestone>) -> (r: (u32, u32))
    requires
        ms@.len() <= MAX_MILESTONES,
    ensures
        r.0 == percent_sum(ms@),
        r.1 == unreleased_percent(ms@),
        r.1 <= 65535 * ms@.len(),
{
    let mut sum: u32 = 0;
    let mut unpaid: u32 = 0;
    let mut i: usize = 0;
    while i < ms.len()
        invariant
            i <= ms@.len() <= MAX_MILESTONES,
            sum == percent_sum(ms@.subrange(0, i as int)),
            unpaid == unreleased_percent(ms@.subrange(0, i as int)),
            sum <= 65535 * i,
            unpaid <= 65535 * i,
        decreases ms@.len() - i,
    {
        assert(ms@.subrange(0, i + 1).drop_last() =~= ms@.subrange(0, i as int));
        sum = sum + ms[i].percentage as u32;
        if !ms[i].released {
            unpaid = unpaid + ms[i].percentage as u32;
        }
        i += 1;
    }
    assert(ms@.subrange(0, ms@.len() as int) =~= ms@);
    (sum, unpaid)
}

impl SponsorEscrow {
    /// Whether the escrow is well-formed: its milestones are acceptable and
    /// what has been paid leaves room for what is still to be paid. Every
    /// escrow made by `initialize_sponsor_escrow` and changed only by
    /// `release_milestone` is.
    pub fn is_well_formed(&self) -> (r: bool)
        ensures
            r == self@.wf(),
    {
        if self.milestones.len() > MAX_MILESTONES {
            return false;
        }
        let (sum, unpaid) = percent_sums(&self.milestones);
        if sum != 100 {
            return false;
        }
        let paid: u128 = 100 * self.released_amount as u128;
        proof {
            let t = self.total_amount as int;
            let u = unpaid as int;
            assert(0 <= t * u <= t * 65535 * 10) by (nonlinear_arith)
                requires
                    0 <= t,
                    0 <= u <= 65535 * 10,
            ;
        }
        let owed: u128 = self.total_amount as u128 * unpaid as u128;
        paid + owed <= 100 * self.total_amount as u128
    }
}

/// Whether every milestone of `ms` has been paid out.
fn every_released(ms: &Vec<Milestone>) -> (r: bool)
    ensures
        r == all_released(ms@),
{
    let mut i: usize = 0;
    while i < ms.len()
        invariant
            i <= ms@.len(),
            forall|j: int| 0 <= j < i ==> #[trigger] ms@[j].released,
        decreases ms@.len() - i,
    {
        if !ms[i].released {
            return false;
        }
        i += 1;
    }
    true
}

/// Pays out milestone `milestone_index` of `escrow` at time `now`: marks it
/// paid, adds its share to what has been paid, completes the escrow once
/// every milestone is paid, and returns the amount that must move from the
/// escrow's custody to the quest's recipient.
pub fn release_milestone(escrow: &mut SponsorEscrow, milestone_index: u8, now: i64) -> (r: Result<
    u64,
    ErrorCode,
>)
    requires
        old(escrow)@.wf(),
    ensures
        final(escrow)@.wf(),
        match release_outcome(old(escrow)@, milestone_index as int, now) {
            Ok((e, amount)) => final(escrow)@ == e && r == Ok::<u64, ErrorCode>(amount),
            Err(err) => final(escrow)@ == old(escrow)@ && r == Err::<u64, ErrorCode>(err),
        },
{
    if escrow.status != EscrowStatus::Active {
        return Err(ErrorCode::EscrowNotActive);
    }
    let i = milestone_index as usize;
    if i >= escrow.milestones.len() {
        return Err(ErrorCode::InvalidMilestoneIndex);
    }
    if escrow.milestones[i].released {
        return Err(ErrorCode::MilestoneAlreadyReleased);
    }
    let ghost old_ms = escrow.milestones@;
    proof {
        lemma_release_keeps_wf(escrow@, i as int, now);
    }
    let total = escrow.total_amount;
    let pct = escrow.milestones[i].percentage;
    let share: u128 = total as u128 * pct as u128 / 100;
    let amount = share as u64;
    let mut m = escrow.milestones.remove(i);
    m.released = true;
    m.released_at = Some(now);
    escrow.milestones.insert(i, m);
    assert(escrow.milestones@ =~= mark_released(old_ms, i as int, now));
    escrow.released_amount = escrow.released_amount + amount;
    if every_released(&escrow.milestones) {
        escrow.status = EscrowStatus::Completed;
    }
    Ok(amount)
}

} // verus!
