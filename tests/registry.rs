use lottery::{Address, Lottery, LotteryContract, LotteryError};

const CREATOR: &str = "GCREATORAAAAAAAAAAAAAAAAAAAAAAAAAAAAAAAAAAAAAAAAAAAAAAAA";
const ALICE: &str = "GPARTICIPANTONEAAAAAAAAAAAAAAAAAAAAAAAAAAAAAAAAAAAAAAAAA";
const BOB: &str = "GPARTICIPANTTWOAAAAAAAAAAAAAAAAAAAAAAAAAAAAAAAAAAAAAAAAA";
const CAROL: &str = "GPARTICIPANTTHREEAAAAAAAAAAAAAAAAAAAAAAAAAAAAAAAAAAAAAAA";

fn addr(s: &str) -> Address {
    Address::new(String::from(s))
}

fn strkeys(l: &Lottery) -> Vec<String> {
    l.participants.iter().map(|a| a.strkey.clone()).collect()
}

/// A registry holding one open "Daily" lottery of capacity 2.
fn daily() -> LotteryContract {
    let mut reg = LotteryContract::new();
    let id = reg.create_lottery(addr(CREATOR), String::from("Daily"), 100, 3600, 2, true, 1_700_000_000);
    assert_eq!(id, Ok(1));
    reg
}

#[test]
fn create_returns_first_identifier() {
    let reg = daily();
    let all = reg.get_all_lotteries();
    assert_eq!(all.len(), 1);
    let l = &all[0];
    assert_eq!(l.id, 1);
    assert_eq!(l.name, "Daily");
    assert_eq!(l.entry_fee, 100);
    assert_eq!(l.max_participants, 2);
    assert!(l.participants.is_empty());
    assert!(!l.is_completed);
    assert_eq!(l.winner, None);
    assert_eq!(l.winner_tx_hash, None);
    assert_eq!(l.created_at, 1_700_000_000);
    assert_eq!(l.creator.strkey, CREATOR);
    assert_eq!(reg.get_lottery_count(), 1);
}

#[test]
fn enter_until_full() {
    let mut reg = daily();
    assert_eq!(reg.enter_lottery(addr(ALICE), 1, true), Ok(()));
    assert_eq!(reg.enter_lottery(addr(BOB), 1, true), Ok(()));
    assert_eq!(strkeys(&reg.get_all_lotteries()[0]), vec![ALICE.to_string(), BOB.to_string()]);
    assert_eq!(reg.enter_lottery(addr(CAROL), 1, true), Err(LotteryError::Full));
    assert_eq!(strkeys(&reg.get_all_lotteries()[0]), vec![ALICE.to_string(), BOB.to_string()]);
}

#[test]
fn second_entry_of_same_caller_refused() {
    let mut reg = daily();
    assert_eq!(reg.enter_lottery(addr(ALICE), 1, true), Ok(()));
    assert_eq!(reg.enter_lottery(addr(ALICE), 1, true), Err(LotteryError::DuplicateParticipant));
    assert_eq!(strkeys(&reg.get_all_lotteries()[0]), vec![ALICE.to_string()]);
}

#[test]
fn complete_then_complete_again() {
    let mut reg = daily();
    reg.enter_lottery(addr(ALICE), 1, true).unwrap();
    reg.enter_lottery(addr(BOB), 1, true).unwrap();
    assert_eq!(reg.complete_lottery(1, addr(BOB)), Ok(()));
    let l = &reg.get_all_lotteries()[0];
    assert!(l.is_completed);
    assert_eq!(l.winner, Some(addr(BOB)));
    assert_eq!(l.winner_tx_hash, None);
    assert_eq!(reg.complete_lottery(1, addr(ALICE)), Err(LotteryError::AlreadyCompleted));
    assert_eq!(reg.get_all_lotteries()[0].winner, Some(addr(BOB)));
}

#[test]
fn initialize_wipes_registry() {
    let mut reg = daily();
    reg.create_lottery(addr(CREATOR), String::from("Weekly"), 500, 7200, 10, true, 5).unwrap();
    reg.complete_lottery(1, addr(ALICE)).unwrap();
    assert_eq!(reg.get_all_lotteries().len(), 2);
    reg.initialize();
    assert!(reg.get_all_lotteries().is_empty());
    assert!(reg.get_completed_lotteries().is_empty());
    assert_eq!(reg.get_lottery_count(), 0);
    assert_eq!(reg.create_lottery(addr(CREATOR), String::from("Again"), 1, 1, 1, true, 9), Ok(1));
}

#[test]
fn identifiers_strictly_increase() {
    let mut reg = LotteryContract::new();
    let mut last = 0;
    for k in 0..5 {
        let id = reg.create_lottery(addr(CREATOR), format!("L{}", k), 10, 60, 3, true, k).unwrap();
        assert_eq!(id, last + 1);
        last = id;
    }
    let ids: Vec<u32> = reg.get_all_lotteries().iter().map(|l| l.id).collect();
    assert_eq!(ids, vec![1, 2, 3, 4, 5]);
    assert_eq!(reg.get_lottery_count(), 5);
}

#[test]
fn queries_are_repeatable() {
    let mut reg = daily();
    reg.create_lottery(addr(CREATOR), String::from("Weekly"), 500, 7200, 10, true, 5).unwrap();
    reg.enter_lottery(addr(ALICE), 2, true).unwrap();
    reg.complete_lottery(2, addr(ALICE)).unwrap();
    let a = reg.get_all_lotteries();
    let b = reg.get_all_lotteries();
    assert_eq!(format!("{:?}", a), format!("{:?}", b));
    let c = reg.get_completed_lotteries();
    let d = reg.get_completed_lotteries();
    assert_eq!(format!("{:?}", c), format!("{:?}", d));
    assert_eq!(c.len(), 1);
    assert_eq!(c[0].id, 2);
    assert_eq!(reg.get_lottery_count(), 2);
}

#[test]
fn capacity_is_never_exceeded() {
    let mut reg = LotteryContract::new();
    reg.create_lottery(addr(CREATOR), String::from("Tiny"), 0, 0, 3, true, 0).unwrap();
    let mut accepted = 0;
    for k in 0..10 {
        if reg.enter_lottery(addr(&format!("GCALLER{}", k)), 1, true).is_ok() {
            accepted += 1;
        }
        let l = &reg.get_all_lotteries()[0];
        assert!(l.participants.len() <= l.max_participants as usize);
    }
    assert_eq!(accepted, 3);
}

#[test]
fn zero_capacity_lottery_is_full_at_once() {
    let mut reg = LotteryContract::new();
    reg.create_lottery(addr(CREATOR), String::from("None"), 0, 0, 0, true, 0).unwrap();
    assert_eq!(reg.enter_lottery(addr(ALICE), 1, true), Err(LotteryError::Full));
}

#[test]
fn completed_lottery_stays_frozen() {
    let mut reg = daily();
    reg.enter_lottery(addr(ALICE), 1, true).unwrap();
    reg.complete_lottery(1, addr(ALICE)).unwrap();
    assert_eq!(reg.enter_lottery(addr(BOB), 1, true), Err(LotteryError::AlreadyCompleted));
    reg.create_lottery(addr(CREATOR), String::from("Next"), 1, 1, 5, true, 2).unwrap();
    reg.enter_lottery(addr(BOB), 2, true).unwrap();
    let l = &reg.get_all_lotteries()[0];
    assert!(l.is_completed);
    assert_eq!(strkeys(l), vec![ALICE.to_string()]);
    assert_eq!(l.winner, Some(addr(ALICE)));
}

#[test]
fn unknown_lottery_not_found() {
    let mut reg = daily();
    assert_eq!(reg.enter_lottery(addr(ALICE), 7, true), Err(LotteryError::NotFound));
    assert_eq!(reg.complete_lottery(7, addr(ALICE)), Err(LotteryError::NotFound));
    assert_eq!(LotteryContract::new().enter_lottery(addr(ALICE), 1, true), Err(LotteryError::NotFound));
}

#[test]
fn unauthorized_calls_refused() {
    let mut reg = daily();
    assert_eq!(
        reg.create_lottery(addr(CREATOR), String::from("X"), 1, 1, 1, false, 0),
        Err(LotteryError::AuthorizationFailed)
    );
    assert_eq!(reg.get_lottery_count(), 1);
    assert_eq!(reg.enter_lottery(addr(ALICE), 1, false), Err(LotteryError::AuthorizationFailed));
    assert!(reg.get_all_lotteries()[0].participants.is_empty());
}

#[test]
fn winner_need_not_be_participant() {
    let mut reg = daily();
    assert_eq!(reg.complete_lottery(1, addr(CAROL)), Ok(()));
    assert_eq!(reg.get_completed_lotteries()[0].winner, Some(addr(CAROL)));
}

#[test]
fn restore_round_trips_and_rejects_broken_parts() {
    let mut reg = daily();
    reg.enter_lottery(addr(ALICE), 1, true).unwrap();
    let back = LotteryContract::restore(reg.get_lottery_count(), reg.get_all_lotteries()).unwrap();
    assert_eq!(format!("{:?}", back.get_all_lotteries()), format!("{:?}", reg.get_all_lotteries()));
    assert_eq!(back.get_lottery_count(), 1);

    // an identifier above the counter
    assert!(LotteryContract::restore(0, reg.get_all_lotteries()).is_none());
    // identifiers out of order
    let mut two = daily();
    two.create_lottery(addr(CREATOR), String::from("B"), 1, 1, 1, true, 0).unwrap();
    let mut swapped = two.get_all_lotteries();
    swapped.swap(0, 1);
    assert!(LotteryContract::restore(2, swapped).is_none());
    // a caller entered twice
    let mut dup = reg.get_all_lotteries();
    dup[0].participants.push(addr(ALICE));
    assert!(LotteryContract::restore(1, dup).is_none());
    // over capacity
    let mut over = reg.get_all_lotteries();
    over[0].participants.push(addr(BOB));
    over[0].participants.push(addr(CAROL));
    assert!(LotteryContract::restore(1, over).is_none());
    // completed without a winner
    let mut nowinner = reg.get_all_lotteries();
    nowinner[0].is_completed = true;
    assert!(LotteryContract::restore(1, nowinner).is_none());
    assert!(LotteryContract::restore(0, Vec::new()).is_some());
}

#[test]
fn lottery_clone_keeps_every_field() {
    let mut reg = daily();
    reg.enter_lottery(addr(ALICE), 1, true).unwrap();
    reg.complete_lottery(1, addr(ALICE)).unwrap();
    let l = reg.get_all_lotteries()[0].clone();
    assert_eq!(format!("{:?}", l), format!("{:?}", reg.get_all_lotteries()[0]));
    assert_eq!(strkeys(&l), vec![ALICE.to_string()]);
}

#[test]
fn address_equality_by_text() {
    assert_eq!(addr(ALICE), addr(ALICE));
    assert_ne!(addr(ALICE), addr(BOB));
    assert!(addr(ALICE).same_as(&addr(ALICE)));
    assert!(!addr(ALICE).same_as(&addr(BOB)));
}
