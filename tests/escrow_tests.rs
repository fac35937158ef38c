use rise_of_founders_protocol::{
    initialize_sponsor_escrow, release_milestone, ErrorCode, EscrowStatus, Milestone, Pubkey,
    SponsorEscrow,
};

const NOW: i64 = 1_700_000_000;

fn milestone(pct: u16) -> Milestone {
    Milestone {
        title: format!("part {pct}"),
        description: "work".to_string(),
        percentage: pct,
        released: false,
        released_at: None,
    }
}

fn escrow_of(total: u64, pcts: &[u16]) -> Result<SponsorEscrow, ErrorCode> {
    initialize_sponsor_escrow(
        "quest-1".to_string(),
        Pubkey::new([9; 32]),
        total,
        pcts.iter().map(|p| milestone(*p)).collect(),
        1,
        NOW,
    )
}

#[test]
fn escrow_created_active() {
    let e = escrow_of(1000, &[30, 30, 40]).unwrap();
    assert_eq!(e.status, EscrowStatus::Active);
    assert_eq!(e.total_amount, 1000);
    assert_eq!(e.released_amount, 0);
    assert_eq!(e.milestones.len(), 3);
    assert_eq!(e.quest_id, "quest-1");
    assert_eq!(e.created_at, NOW);
}

#[test]
fn escrow_with_percentages_off_hundred_refused() {
    for pcts in [&[30u16, 30, 30][..], &[50, 51], &[], &[101], &[0]] {
        assert_eq!(
            escrow_of(1000, pcts).err(),
            Some(ErrorCode::InvalidMilestonePercentages)
        );
    }
}

#[test]
fn escrow_percentages_summed_without_wrapping() {
    assert_eq!(
        escrow_of(1000, &[65535, 65535, 100]).err(),
        Some(ErrorCode::InvalidMilestonePercentages)
    );
}

#[test]
fn escrow_with_eleven_milestones_refused() {
    let pcts = [10u16, 10, 10, 10, 10, 10, 10, 10, 10, 10, 0];
    assert_eq!(escrow_of(1000, &pcts).err(), Some(ErrorCode::TooManyMilestones));
    assert!(escrow_of(1000, &pcts[..10]).is_ok());
}

#[test]
fn milestone_scenario_thirty_thirty_forty() {
    let mut e = escrow_of(1000, &[30, 30, 40]).unwrap();
    assert_eq!(release_milestone(&mut e, 0, NOW + 1), Ok(300));
    assert_eq!(release_milestone(&mut e, 2, NOW + 2), Ok(400));
    assert_eq!(e.released_amount, 700);
    assert_eq!(e.status, EscrowStatus::Active);
    assert_eq!(release_milestone(&mut e, 1, NOW + 3), Ok(300));
    assert_eq!(e.released_amount, 1000);
    assert_eq!(e.status, EscrowStatus::Completed);
    assert_eq!(e.milestones[2].released_at, Some(NOW + 2));
    assert!(e.milestones.iter().all(|m| m.released));
    assert_eq!(e.milestones[1].title, "part 30");
}

#[test]
fn release_twice_refused() {
    let mut e = escrow_of(1000, &[30, 70]).unwrap();
    assert_eq!(release_milestone(&mut e, 0, NOW), Ok(300));
    assert_eq!(
        release_milestone(&mut e, 0, NOW),
        Err(ErrorCode::MilestoneAlreadyReleased)
    );
    assert_eq!(e.released_amount, 300);
}

#[test]
fn release_after_completion_refused() {
    let mut e = escrow_of(500, &[100]).unwrap();
    assert_eq!(release_milestone(&mut e, 0, NOW), Ok(500));
    assert_eq!(e.status, EscrowStatus::Completed);
    assert_eq!(release_milestone(&mut e, 0, NOW), Err(ErrorCode::EscrowNotActive));
    assert_eq!(e.released_amount, 500);
}

#[test]
fn release_past_last_milestone_refused() {
    let mut e = escrow_of(1000, &[30, 70]).unwrap();
    assert_eq!(
        release_milestone(&mut e, 2, NOW),
        Err(ErrorCode::InvalidMilestoneIndex)
    );
    assert_eq!(e.released_amount, 0);
}

#[test]
fn release_rounds_down() {
    let mut e = escrow_of(999, &[33, 33, 34]).unwrap();
    assert_eq!(release_milestone(&mut e, 0, NOW), Ok(329));
    assert_eq!(release_milestone(&mut e, 1, NOW), Ok(329));
    assert_eq!(release_milestone(&mut e, 2, NOW), Ok(339));
    assert_eq!(e.released_amount, 997);
    assert_eq!(e.status, EscrowStatus::Completed);
}

#[test]
fn release_of_largest_total_does_not_overflow() {
    let mut e = escrow_of(u64::MAX, &[50, 50]).unwrap();
    assert_eq!(release_milestone(&mut e, 1, NOW), Ok(u64::MAX / 2));
    assert_eq!(release_milestone(&mut e, 0, NOW), Ok(u64::MAX / 2));
    assert_eq!(e.released_amount, u64::MAX - 1);
}

#[test]
fn release_order_does_not_change_outcome() {
    let mut a = escrow_of(1001, &[20, 45, 35]).unwrap();
    let mut b = escrow_of(1001, &[20, 45, 35]).unwrap();
    for i in [0u8, 1, 2] {
        release_milestone(&mut a, i, NOW).unwrap();
    }
    for i in [2u8, 0, 1] {
        release_milestone(&mut b, i, NOW).unwrap();
    }
    assert_eq!(a.released_amount, b.released_amount);
    assert_eq!(a.released_amount, 200 + 450 + 350);
    assert_eq!(a.status, EscrowStatus::Completed);
    assert_eq!(b.status, EscrowStatus::Completed);
}

#[test]
fn zero_percent_milestone_pays_nothing() {
    let mut e = escrow_of(1000, &[0, 100]).unwrap();
    assert_eq!(release_milestone(&mut e, 0, NOW), Ok(0));
    assert_eq!(e.status, EscrowStatus::Active);
}

#[test]
fn well_formedness_tracks_payouts() {
    let mut e = escrow_of(1000, &[30, 70]).unwrap();
    assert!(e.is_well_formed());
    release_milestone(&mut e, 0, NOW).unwrap();
    assert!(e.is_well_formed());
    e.released_amount = 701;
    assert!(!e.is_well_formed());
    e.released_amount = 300;
    e.milestones[1].percentage = 60;
    assert!(!e.is_well_formed());
}
